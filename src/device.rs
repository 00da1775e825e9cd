//! Decisions for one trapped access to the emulated UART or PLIC.
use vstd::prelude::*;
use crate::decode::{MmioInsn, decoded_mmio, decode_mmio, insn_len, instruction_length};

verus! {

pub const UART_BASE: u64 = 0x1000_0000;
pub const UART_END: u64 = 0x1000_0100;
pub const PLIC_BASE: u64 = 0x0c00_0000;
pub const PLIC_END: u64 = 0x1000_0000;
pub const NUM_REGS: usize = 32;

/// The guest's integer registers; `x0` reads as zero and ignores writes.
pub struct GuestRegisters {
    regs: Vec<u64>,
}

impl GuestRegisters {
    pub closed spec fn view(&self) -> Seq<u64> {
        self.regs@
    }

    pub open spec fn wf(&self) -> bool {
        self@.len() == NUM_REGS
    }

    pub open spec fn value(&self, r: u32) -> u64 {
        if r == 0 {
            0
        } else {
            self@[r as int]
        }
    }

    pub fn new() -> (r: GuestRegisters)
        ensures
            r.wf(),
            forall|i: u32| i < 32 ==> r.value(i) == 0,
    {
        GuestRegisters { regs: vec![0u64; NUM_REGS] }
    }

    pub fn is_wf(&self) -> (r: bool)
        ensures
            r == self.wf(),
    {
        self.regs.len() == NUM_REGS
    }

    pub fn get(&self, r: u32) -> (v: u64)
        requires
            self.wf(),
            r < 32,
        ensures
            v == self.value(r),
    {
        if r == 0 {
            0
        } else {
            self.regs[r as usize]
        }
    }

    pub fn set(&mut self, r: u32, v: u64)
        requires
            old(self).wf(),
            r < 32,
        ensures
            final(self).wf(),
            r != 0 ==> final(self)@ == old(self)@.update(r as int, v),
            r == 0 ==> final(self)@ == old(self)@,
    {
        if r != 0 {
            self.regs.set(r as usize, v);
        }
    }
}

pub open spec fn in_uart_window(pa: u64) -> bool {
    UART_BASE <= pa && pa < UART_END
}

pub open spec fn in_plic_window(pa: u64) -> bool {
    PLIC_BASE <= pa && pa < PLIC_END
}

pub fn is_uart_access(guest_pa: u64) -> (r: bool)
    ensures
        r == in_uart_window(guest_pa),
{
    guest_pa >= UART_BASE && guest_pa < UART_END
}

pub fn is_plic_access(guest_pa: u64) -> (r: bool)
    ensures
        r == in_plic_window(guest_pa),
{
    guest_pa >= PLIC_BASE && guest_pa < PLIC_END
}

/// The one device access a trapped instruction performs.
#[derive(Clone, Copy, Debug, PartialEq, Eq, Structural)]
pub enum DeviceOp {
    UartLoadByte { rd: u32 },
    UartStoreByte { byte: u8 },
    PlicLoadWord { rd: u32 },
    PlicStoreWord { word: u32 },
}

/// A device access to perform at guest-physical `pa`; the guest resumes
/// `len` bytes past the trapped instruction once it is done.
#[derive(Clone, Copy, Debug, PartialEq, Eq, Structural)]
pub struct DeviceAccess {
    pub pa: u64,
    pub op: DeviceOp,
    pub len: u64,
}

/// Faults the hypervisor cannot resolve nor hand back to the guest.
#[derive(Clone, Copy, Debug, PartialEq, Eq, Structural)]
pub enum FatalFault {
    /// A cause that is not one of the three page faults.
    UnknownCause { cause: u64 },
    /// A UART access by an instruction other than a byte load or store.
    UartInstruction { pa: u64 },
    /// A PLIC access by a decoded instruction other than a word load or store.
    PlicInstruction { pa: u64 },
    /// A PLIC access by a word that does not decode.
    UndecodablePlic { pa: u64, insn: u32 },
    /// An access to a virtio queue page with no instruction to emulate.
    QueueWithoutInstruction { pa: u64 },
}

/// How the emulator answers one trapped device access.
#[derive(Clone, Copy, Debug, PartialEq, Eq, Structural)]
pub enum DeviceDecision {
    Perform(DeviceAccess),
    Forward,
    Fatal(FatalFault),
}

pub open spec fn spec_len_of(insn: u32) -> u64 {
    insn_len((insn & 0xffff) as u16) as u64
}

pub open spec fn spec_uart_decision(regs: GuestRegisters, pa: u64, insn: u32) -> DeviceDecision {
    match decoded_mmio(insn) {
        MmioInsn::LoadByte { rd } => DeviceDecision::Perform(
            DeviceAccess { pa, op: DeviceOp::UartLoadByte { rd }, len: spec_len_of(insn) },
        ),
        MmioInsn::StoreByte { rs2 } => DeviceDecision::Perform(
            DeviceAccess {
                pa,
                op: DeviceOp::UartStoreByte { byte: (regs.value(rs2) & 0xff) as u8 },
                len: spec_len_of(insn),
            },
        ),
        MmioInsn::Undecodable => DeviceDecision::Forward,
        _ => DeviceDecision::Fatal(FatalFault::UartInstruction { pa }),
    }
}

pub open spec fn spec_plic_decision(regs: GuestRegisters, pa: u64, insn: u32) -> DeviceDecision {
    match decoded_mmio(insn) {
        MmioInsn::LoadWord { rd } => DeviceDecision::Perform(
            DeviceAccess { pa, op: DeviceOp::PlicLoadWord { rd }, len: spec_len_of(insn) },
        ),
        MmioInsn::StoreWord { rs2 } => DeviceDecision::Perform(
            DeviceAccess {
                pa,
                op: DeviceOp::PlicStoreWord { word: regs.value(rs2) as u32 },
                len: spec_len_of(insn),
            },
        ),
        MmioInsn::Undecodable => DeviceDecision::Fatal(FatalFault::UndecodablePlic { pa, insn }),
        _ => DeviceDecision::Fatal(FatalFault::PlicInstruction { pa }),
    }
}

fn len_of(insn: u32) -> (r: u64)
    ensures
        r == spec_len_of(insn),
{
    let low = (insn & 0xffff) as u16;
    instruction_length(low) as u64
}

/// A UART access: byte loads and stores are emulated, an undecodable word is
/// handed back to the guest, and any other instruction is fatal.
pub fn uart_decision(regs: &GuestRegisters, pa: u64, insn: u32) -> (r: DeviceDecision)
    requires
        regs.wf(),
    ensures
        r == spec_uart_decision(*regs, pa, insn),
{
    match decode_mmio(insn) {
        MmioInsn::LoadByte { rd } => DeviceDecision::Perform(
            DeviceAccess { pa, op: DeviceOp::UartLoadByte { rd }, len: len_of(insn) },
        ),
        MmioInsn::StoreByte { rs2 } => {
            let byte = (regs.get(rs2) & 0xff) as u8;
            DeviceDecision::Perform(
                DeviceAccess { pa, op: DeviceOp::UartStoreByte { byte }, len: len_of(insn) },
            )
        },
        MmioInsn::Undecodable => DeviceDecision::Forward,
        _ => DeviceDecision::Fatal(FatalFault::UartInstruction { pa }),
    }
}

/// A PLIC access: word loads and stores are emulated, anything else is fatal.
pub fn plic_decision(regs: &GuestRegisters, pa: u64, insn: u32) -> (r: DeviceDecision)
    requires
        regs.wf(),
    ensures
        r == spec_plic_decision(*regs, pa, insn),
{
    match decode_mmio(insn) {
        MmioInsn::LoadWord { rd } => DeviceDecision::Perform(
            DeviceAccess { pa, op: DeviceOp::PlicLoadWord { rd }, len: len_of(insn) },
        ),
        MmioInsn::StoreWord { rs2 } => {
            let word = regs.get(rs2) as u32;
            DeviceDecision::Perform(
                DeviceAccess { pa, op: DeviceOp::PlicStoreWord { word }, len: len_of(insn) },
            )
        },
        MmioInsn::Undecodable => DeviceDecision::Fatal(FatalFault::UndecodablePlic { pa, insn }),
        _ => DeviceDecision::Fatal(FatalFault::PlicInstruction { pa }),
    }
}

pub open spec fn spec_sign_extend32(v: u32) -> u64 {
    if v & 0x8000_0000 != 0 {
        (v as u64) | 0xffff_ffff_0000_0000
    } else {
        v as u64
    }
}

/// A 32-bit value widened to 64 bits with its sign bit copied upwards.
pub fn sign_extend32(v: u32) -> (r: u64)
    ensures
        r == spec_sign_extend32(v),
{
    if v & 0x8000_0000 != 0 {
        (v as u64) | 0xffff_ffff_0000_0000
    } else {
        v as u64
    }
}

} // verus!
