//! The instruction decoder, seen through the loads and stores that device
//! emulation handles.
use vstd::prelude::*;
use riscv_decode::Instruction;

verus! {

/// What a trapped instruction is, as far as device emulation cares.
#[derive(Clone, Copy, Debug, PartialEq, Eq, Structural)]
pub enum MmioInsn {
    LoadByte { rd: u32 },
    StoreByte { rs2: u32 },
    LoadWord { rd: u32 },
    StoreWord { rs2: u32 },
    /// Decoded, but not one of the four accesses above.
    Other,
    /// Not a decodable instruction.
    Undecodable,
}

impl MmioInsn {
    pub open spec fn regs_in_range(self) -> bool {
        match self {
            MmioInsn::LoadByte { rd } => rd < 32,
            MmioInsn::StoreByte { rs2 } => rs2 < 32,
            MmioInsn::LoadWord { rd } => rd < 32,
            MmioInsn::StoreWord { rs2 } => rs2 < 32,
            _ => true,
        }
    }
}

/// What `riscv_decode::decode` makes of an instruction word.
pub uninterp spec fn decoded_mmio(insn: u32) -> MmioInsn;

/// Relies on `riscv_decode::decode`, and on `IType::rd` / `SType::rs2`,
/// which take five bits of the word.
#[verifier::external_body]
pub(crate) fn decode_mmio(insn: u32) -> (r: MmioInsn)
    ensures
        r == decoded_mmio(insn),
        r.regs_in_range(),
{
    match riscv_decode::decode(insn) {
        Ok(Instruction::Lb(i)) => MmioInsn::LoadByte { rd: i.rd() },
        Ok(Instruction::Sb(s)) => MmioInsn::StoreByte { rs2: s.rs2() },
        Ok(Instruction::Lw(i)) => MmioInsn::LoadWord { rd: i.rd() },
        Ok(Instruction::Sw(s)) => MmioInsn::StoreWord { rs2: s.rs2() },
        Ok(_) => MmioInsn::Other,
        Err(_) => MmioInsn::Undecodable,
    }
}

/// Length in bytes of the instruction whose low half-word is `low`.
pub open spec fn insn_len(low: u16) -> usize {
    if low & 0x3 != 0x3 {
        2
    } else if low & 0x1c != 0x1c {
        4
    } else if low & 0x3f == 0x1f {
        6
    } else if low & 0x7f == 0x1f {
        8
    } else {
        (10 + 2 * ((low >> 12u16) & 0x7)) as usize
    }
}

/// Relies on `riscv_decode::instruction_length`, which reads the length from
/// the low bits of the first half-word as `insn_len` states.
#[verifier::external_body]
pub(crate) fn instruction_length(low: u16) -> (r: usize)
    ensures
        r == insn_len(low),
{
    riscv_decode::instruction_length(low)
}

} // verus!
