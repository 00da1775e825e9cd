//! Resolution of a guest page fault: the guest walk, the access and
//! privilege checks, accessed/dirty emulation, the shadow entry install, and
//! dispatch of faults outside RAM to the emulated devices.
use vstd::prelude::*;
use crate::device::{
    DeviceAccess, DeviceDecision, FatalFault, GuestRegisters, in_plic_window, in_uart_window,
    is_plic_access, is_uart_access, plic_decision, sign_extend32, spec_plic_decision,
    spec_sign_extend32, spec_uart_decision, uart_decision,
};
use crate::memory::{
    GuestMemory, Translation, pte_frame, span_mask, spec_translate, translate_guest_address,
    walk,
};
use crate::pte::{
    PTE_AD, PTE_DIRTY, PTE_EXECUTE, PTE_USER, PTE_VALID, PTE_WRITE, AccessKind, ShadowRoot,
    access_kind_of_cause, cause_kind, privilege_ok, shadow_entry,
    shadow_perm, spec_access_bit, spec_privilege_ok, spec_shadow_entry, spec_shadow_perm,
    spec_touched_pte, touched_pte,
};
use crate::shadow::{ShadowPageTables, TlbStaleness, stale_step};

verus! {

pub const SATP_PPN: u64 = 0x0000_0fff_ffff_ffff;
pub const SIP_SEIP: u64 = 0x200;

/// The guest control registers the fault path reads or writes.
#[derive(Clone, Copy, Debug, PartialEq, Eq, Structural)]
pub struct GuestCsrs {
    pub satp: u64,
    pub sip: u64,
}

/// Guest-physical ranges `[start, end)` that belong to virtio devices.
pub struct VirtioWindows {
    pub queues: Vec<(u64, u64)>,
    pub devices: Vec<(u64, u64)>,
}

pub open spec fn in_some_range(ranges: Seq<(u64, u64)>, pa: u64) -> bool {
    exists|i: int| 0 <= i < ranges.len() && ranges[i].0 <= pa && pa < ranges[i].1
}

fn any_range_holds(ranges: &Vec<(u64, u64)>, pa: u64) -> (r: bool)
    ensures
        r == in_some_range(ranges@, pa),
{
    let mut i: usize = 0;
    while i < ranges.len()
        invariant
            i <= ranges@.len(),
            forall|j: int| 0 <= j < i ==> !(ranges@[j].0 <= pa && pa < ranges@[j].1),
        decreases ranges@.len() - i,
    {
        if ranges[i].0 <= pa && pa < ranges[i].1 {
            return true;
        }
        i = i + 1;
    }
    false
}

impl VirtioWindows {
    pub open spec fn spec_is_queue(&self, pa: u64) -> bool {
        in_some_range(self.queues@, pa)
    }

    pub open spec fn spec_is_device(&self, pa: u64) -> bool {
        in_some_range(self.devices@, pa)
    }

    pub fn is_queue_access(&self, pa: u64) -> (r: bool)
        ensures
            r == self.spec_is_queue(pa),
    {
        any_range_holds(&self.queues, pa)
    }

    pub fn is_device_access(&self, pa: u64) -> (r: bool)
        ensures
            r == self.spec_is_device(pa),
    {
        any_range_holds(&self.devices, pa)
    }
}

/// The per-vCPU state the fault path works on.
pub struct Context {
    pub regs: GuestRegisters,
    pub csrs: GuestCsrs,
    /// Address of the trapped instruction; device emulation moves it past.
    pub trap_pc: u64,
    pub guest_memory: GuestMemory,
    /// Host-physical minus guest-physical address of the guest's RAM.
    pub guest_shift: u64,
    pub shadow_page_tables: ShadowPageTables,
    pub shadow: ShadowRoot,
    pub staleness: TlbStaleness,
    /// Whether the guest runs in supervisor mode.
    pub smode: bool,
    pub no_interrupt: bool,
    pub virtio: VirtioWindows,
}

/// What the trap path does next.
#[derive(Clone, Copy, Debug, PartialEq, Eq, Structural)]
pub enum FaultAction {
    /// Hand the fault to the guest as if the hardware had raised it.
    Forward,
    /// A shadow entry was installed; resume the guest, after flushing the
    /// faulting address from the TLB when `flush` is set.
    Resolved { flush: bool },
    /// Perform the access on the emulated device, then complete it.
    Device(DeviceAccess),
    /// Leave the access to the virtio queue emulation.
    VirtioQueue { guest_pa: u64, host_pa: u64, instruction: u32 },
    /// Leave the access to the virtio device emulation.
    VirtioDevice { guest_pa: u64, instruction: u32 },
    Fatal(FatalFault),
}

pub open spec fn page_of(va: u64) -> u64 {
    va & !0xfffu64
}

pub open spec fn with_offset(pa: u64, va: u64) -> u64 {
    (pa & !0xfffu64) | (va & 0xfff)
}

pub open spec fn satp_root(satp: u64) -> u64 {
    (satp & SATP_PPN) << 12u64
}

pub open spec fn decision_action(d: DeviceDecision) -> FaultAction {
    match d {
        DeviceDecision::Perform(a) => FaultAction::Device(a),
        DeviceDecision::Forward => FaultAction::Forward,
        DeviceDecision::Fatal(f) => FaultAction::Fatal(f),
    }
}

fn action_of(d: DeviceDecision) -> (r: FaultAction)
    ensures
        r == decision_action(d),
{
    match d {
        DeviceDecision::Perform(a) => FaultAction::Device(a),
        DeviceDecision::Forward => FaultAction::Forward,
        DeviceDecision::Fatal(f) => FaultAction::Fatal(f),
    }
}

impl Context {
    pub open spec fn wf(&self) -> bool {
        &&& self.regs.wf()
        &&& self.guest_memory.wf()
        &&& self.staleness.wf()
        &&& self.guest_shift & 0xfff == 0
        &&& self.guest_memory.base + 8 * self.guest_memory.words@.len() + self.guest_shift
            <= u64::MAX
    }

    /// Whether the context meets `wf`, the condition the fault path needs.
    pub fn is_wf(&self) -> (r: bool)
        ensures
            r == self.wf(),
    {
        if !self.regs.is_wf() || !self.guest_memory.is_wf() || !self.staleness.is_wf() {
            return false;
        }
        if self.guest_shift & 0xfff != 0 {
            return false;
        }
        let end = self.guest_memory.base + 8 * (self.guest_memory.words.len() as u64);
        end <= u64::MAX - self.guest_shift
    }

    /// The guest's translation of the page holding `va`.
    pub open spec fn translation_for(&self, va: u64) -> Option<Translation> {
        spec_translate(self.guest_memory, satp_root(self.csrs.satp), page_of(va))
    }

    /// The leaf grants the access and suits the live shadow space.
    pub open spec fn admits(&self, kind: AccessKind, t: Translation) -> bool {
        t.pte_value & spec_access_bit(kind) != 0 && spec_privilege_ok(self.shadow, t.pte_value)
    }

    /// The access and translation of a fault that lands in the guest's RAM
    /// and passes the checks; `None` for every other fault.
    pub open spec fn ram_fault(&self, cause: u64, va: u64) -> Option<(AccessKind, Translation)> {
        if self.shadow == ShadowRoot::MPA {
            None
        } else {
            match cause_kind(cause) {
                None => None,
                Some(kind) => match self.translation_for(va) {
                    None => None,
                    Some(t) => if self.admits(kind, t) && self.guest_memory.contains(
                        t.guest_pa as int,
                    ) {
                        Some((kind, t))
                    } else {
                        None
                    },
                },
            }
        }
    }

    /// The shadow entry a RAM fault installs.
    pub open spec fn installed_entry(&self, kind: AccessKind, t: Translation) -> u64 {
        let guest_pte = spec_touched_pte(t.pte_value, kind);
        spec_shadow_entry(
            (t.guest_pa + self.guest_shift) as u64,
            t.level,
            spec_shadow_perm(guest_pte, kind),
        )
    }

    /// The shadow entry installed for a fault, when it installs one.
    pub open spec fn fault_entry(&self, cause: u64, va: u64) -> u64 {
        match self.ram_fault(cause, va) {
            Some((kind, t)) => self.installed_entry(kind, t),
            None => 0,
        }
    }

    /// A RAM fault off the virtio queues installs a shadow entry.
    pub open spec fn installs(&self, cause: u64, va: u64) -> bool {
        match self.ram_fault(cause, va) {
            Some((_, t)) => !self.virtio.spec_is_queue(t.guest_pa),
            None => false,
        }
    }

    /// Guest RAM after the fault: a RAM fault writes the touched leaf back
    /// when the accessed/dirty bits changed.
    pub open spec fn memory_after(&self, cause: u64, va: u64) -> Seq<u64> {
        match self.ram_fault(cause, va) {
            Some((kind, t)) => if spec_touched_pte(t.pte_value, kind) != t.pte_value {
                self.guest_memory.words@.update(
                    self.guest_memory.index_of(t.pte_addr as int),
                    spec_touched_pte(t.pte_value, kind),
                )
            } else {
                self.guest_memory.words@
            },
            None => self.guest_memory.words@,
        }
    }

    pub open spec fn mmio_action(&self, kind: AccessKind, pa: u64, insn: Option<u32>) -> FaultAction {
        if kind == AccessKind::Execute || !self.smode {
            FaultAction::Forward
        } else {
            match insn {
                None => FaultAction::Forward,
                Some(i) => if in_uart_window(pa) {
                    decision_action(spec_uart_decision(self.regs, pa, i))
                } else if in_plic_window(pa) {
                    decision_action(spec_plic_decision(self.regs, pa, i))
                } else if self.virtio.spec_is_device(pa) {
                    FaultAction::VirtioDevice { guest_pa: pa, instruction: i }
                } else {
                    FaultAction::Forward
                },
            }
        }
    }

    /// What the fault path decides for a fault with `cause` at `va`.
    pub open spec fn fault_action(&self, cause: u64, va: u64, insn: Option<u32>) -> FaultAction {
        if self.shadow == ShadowRoot::MPA {
            FaultAction::Forward
        } else {
            match cause_kind(cause) {
                None => FaultAction::Fatal(FatalFault::UnknownCause { cause }),
                Some(kind) => match self.translation_for(va) {
                    None => FaultAction::Forward,
                    Some(t) => if !self.admits(kind, t) {
                        FaultAction::Forward
                    } else if self.guest_memory.contains(t.guest_pa as int) {
                        let host_pa = (t.guest_pa + self.guest_shift) as u64;
                        if self.virtio.spec_is_queue(t.guest_pa) {
                            match insn {
                                Some(i) => FaultAction::VirtioQueue {
                                    guest_pa: with_offset(t.guest_pa, va),
                                    host_pa: with_offset(host_pa, va),
                                    instruction: i,
                                },
                                None => FaultAction::Fatal(
                                    FatalFault::QueueWithoutInstruction {
                                        pa: with_offset(t.guest_pa, va),
                                    },
                                ),
                            }
                        } else {
                            FaultAction::Resolved { flush: self.staleness is Latched }
                        }
                    } else {
                        self.mmio_action(kind, with_offset(t.guest_pa, va), insn)
                    },
                },
            }
        }
    }

    /// Everything the fault path leaves alone.
    pub open spec fn same_frame(&self, other: &Context) -> bool {
        &&& self.regs@ == other.regs@
        &&& self.csrs == other.csrs
        &&& self.trap_pc == other.trap_pc
        &&& self.guest_memory.base == other.guest_memory.base
        &&& self.guest_shift == other.guest_shift
        &&& self.shadow == other.shadow
        &&& self.smode == other.smode
        &&& self.no_interrupt == other.no_interrupt
        &&& self.virtio.queues@ == other.virtio.queues@
        &&& self.virtio.devices@ == other.virtio.devices@
    }
}

/// Resolves a guest page fault with hardware `cause` at guest virtual
/// address `guest_va`; `instruction` is the trapped instruction word, when
/// the hardware exposes it.
///
/// A fault that lands in the guest's RAM and passes the checks gets its
/// accessed/dirty bits recorded in the guest's leaf and a shadow entry for
/// its page, and the TLB staleness detector sees whether that entry changed.
/// Every other fault leaves the shadow tables, the detector and guest RAM
/// as they were.
pub fn handle_page_fault(state: &mut Context, cause: u64, guest_va: u64, instruction: Option<u32>) -> (r:
    FaultAction)
    requires
        old(state).wf(),
    ensures
        r == old(state).fault_action(cause, guest_va, instruction),
        final(state).wf(),
        final(state).same_frame(old(state)),
        final(state).guest_memory.words@ == old(state).memory_after(cause, guest_va),
        old(state).installs(cause, guest_va) ==> final(state).shadow_page_tables.entry(
            old(state).shadow,
            page_of(guest_va),
        ) == old(state).fault_entry(cause, guest_va),
        old(state).installs(cause, guest_va) ==> forall|root: ShadowRoot, p: u64|
            !(root == old(state).shadow && p == page_of(guest_va))
                ==> #[trigger] final(state).shadow_page_tables.entry(root, p)
                == old(state).shadow_page_tables.entry(root, p),
        old(state).installs(cause, guest_va) ==> final(state).staleness == stale_step(
            old(state).staleness,
            old(state).fault_entry(cause, guest_va) == old(state).shadow_page_tables.entry(
                old(state).shadow,
                page_of(guest_va),
            ),
        ),
        !old(state).installs(cause, guest_va) ==> forall|root: ShadowRoot, p: u64|
            #[trigger] final(state).shadow_page_tables.entry(root, p)
                == old(state).shadow_page_tables.entry(root, p),
        !old(state).installs(cause, guest_va) ==> final(state).staleness == old(state).staleness,
{
    let shadow = state.shadow;
    if shadow == ShadowRoot::MPA {
        return FaultAction::Forward;
    }
    let kind = match access_kind_of_cause(cause) {
        Some(k) => k,
        None => {
            return FaultAction::Fatal(FatalFault::UnknownCause { cause });
        },
    };
    let page = guest_va & !0xfffu64;
    let root = (state.csrs.satp & SATP_PPN) << 12u64;
    let t = match translate_guest_address(&state.guest_memory, root, page) {
        Some(t) => t,
        None => {
            return FaultAction::Forward;
        },
    };
    if t.pte_value & kind.pte_bit() == 0 {
        return FaultAction::Forward;
    }
    if !privilege_ok(shadow, t.pte_value) {
        return FaultAction::Forward;
    }
    if state.guest_memory.in_region(t.guest_pa) {
        let host_pa = t.guest_pa + state.guest_shift;
        let new_pte = touched_pte(t.pte_value, kind);
        if new_pte != t.pte_value {
            state.guest_memory.write(t.pte_addr, new_pte);
        }
        let perm = shadow_perm(new_pte, kind);
        if state.virtio.is_queue_access(t.guest_pa) {
            let guest_pa = (t.guest_pa & !0xfffu64) | (guest_va & 0xfff);
            return match instruction {
                Some(i) => FaultAction::VirtioQueue {
                    guest_pa,
                    host_pa: (host_pa & !0xfffu64) | (guest_va & 0xfff),
                    instruction: i,
                },
                None => FaultAction::Fatal(FatalFault::QueueWithoutInstruction { pa: guest_pa }),
            };
        }
        let entry = shadow_entry(host_pa, t.level, perm);
        let prev = state.shadow_page_tables.rmw_mapping(shadow, page, entry);
        let flush = state.staleness.record(entry == prev);
        FaultAction::Resolved { flush }
    } else if kind != AccessKind::Execute && state.smode {
        let pa = (t.guest_pa & !0xfffu64) | (guest_va & 0xfff);
        match instruction {
            Some(insn) => {
                if is_uart_access(pa) {
                    action_of(uart_decision(&state.regs, pa, insn))
                } else if is_plic_access(pa) {
                    action_of(plic_decision(&state.regs, pa, insn))
                } else if state.virtio.is_device_access(pa) {
                    FaultAction::VirtioDevice { guest_pa: pa, instruction: insn }
                } else {
                    FaultAction::Forward
                }
            },
            None => FaultAction::Forward,
        }
    } else {
        FaultAction::Forward
    }
}

pub open spec fn pc_after(pc: u64, len: u64) -> u64 {
    if pc + len > u64::MAX {
        (pc + len - 0x1_0000_0000_0000_0000) as u64
    } else {
        (pc + len) as u64
    }
}

impl Context {
    fn advance_pc(&mut self, len: u64)
        ensures
            final(self).trap_pc == pc_after(old(self).trap_pc, len),
            final(self).regs == old(self).regs,
            final(self).csrs == old(self).csrs,
            final(self).no_interrupt == old(self).no_interrupt,
            final(self).guest_memory == old(self).guest_memory,
            final(self).guest_shift == old(self).guest_shift,
            final(self).shadow_page_tables == old(self).shadow_page_tables,
            final(self).shadow == old(self).shadow,
            final(self).staleness == old(self).staleness,
            final(self).smode == old(self).smode,
            final(self).virtio == old(self).virtio,
    {
        if self.trap_pc > u64::MAX - len {
            self.trap_pc = len - (u64::MAX - self.trap_pc) - 1;
        } else {
            self.trap_pc = self.trap_pc + len;
        }
    }

    /// Finishes an emulated load: `value` goes to register `rd` and the
    /// guest resumes after the `len`-byte instruction.
    pub fn complete_load(&mut self, rd: u32, value: u64, len: u64)
        requires
            old(self).wf(),
            rd < 32,
        ensures
            final(self).wf(),
            final(self).regs.value(rd) == if rd == 0 { 0 } else { value },
            forall|r: u32| r < 32 && r != rd ==> final(self).regs.value(r) == old(self).regs.value(r),
            final(self).trap_pc == pc_after(old(self).trap_pc, len),
            final(self).csrs == old(self).csrs,
            final(self).no_interrupt == old(self).no_interrupt,
    {
        self.regs.set(rd, value);
        self.advance_pc(len);
    }

    /// Finishes a UART byte load of `byte` into `rd`.
    pub fn complete_uart_load(&mut self, rd: u32, byte: u8, len: u64)
        requires
            old(self).wf(),
            rd < 32,
        ensures
            final(self).wf(),
            final(self).regs.value(rd) == if rd == 0 { 0 } else { byte as u64 },
            forall|r: u32| r < 32 && r != rd ==> final(self).regs.value(r) == old(self).regs.value(r),
            final(self).trap_pc == pc_after(old(self).trap_pc, len),
            final(self).csrs == old(self).csrs,
            final(self).no_interrupt == old(self).no_interrupt,
    {
        self.complete_load(rd, byte as u64, len);
    }

    /// Finishes a PLIC word load: the word is sign-extended into `rd`.
    pub fn complete_plic_load(&mut self, rd: u32, word: u32, len: u64)
        requires
            old(self).wf(),
            rd < 32,
        ensures
            final(self).wf(),
            final(self).regs.value(rd) == if rd == 0 { 0 } else { spec_sign_extend32(word) },
            forall|r: u32| r < 32 && r != rd ==> final(self).regs.value(r) == old(self).regs.value(r),
            final(self).trap_pc == pc_after(old(self).trap_pc, len),
            final(self).csrs == old(self).csrs,
            final(self).no_interrupt == old(self).no_interrupt,
    {
        let value = sign_extend32(word);
        self.complete_load(rd, value, len);
    }

    /// Finishes a UART byte store.
    pub fn complete_uart_store(&mut self, len: u64)
        requires
            old(self).wf(),
        ensures
            final(self).wf(),
            final(self).regs@ == old(self).regs@,
            final(self).trap_pc == pc_after(old(self).trap_pc, len),
            final(self).csrs == old(self).csrs,
            final(self).no_interrupt == old(self).no_interrupt,
    {
        self.advance_pc(len);
    }

    /// Finishes a PLIC word store. When the PLIC asks for it, the guest's
    /// pending supervisor external interrupt is cleared; interrupts are no
    /// longer held off.
    pub fn complete_plic_store(&mut self, clear_seip: bool, len: u64)
        requires
            old(self).wf(),
        ensures
            final(self).wf(),
            final(self).regs@ == old(self).regs@,
            final(self).csrs.sip == if clear_seip {
                old(self).csrs.sip & !SIP_SEIP
            } else {
                old(self).csrs.sip
            },
            final(self).csrs.satp == old(self).csrs.satp,
            !final(self).no_interrupt,
            final(self).trap_pc == pc_after(old(self).trap_pc, len),
    {
        if clear_seip {
            self.csrs.sip = self.csrs.sip & !SIP_SEIP;
        }
        self.no_interrupt = false;
        self.advance_pc(len);
    }
}

/// Clearing the pending external interrupt clears bit 0x200 and no other:
/// the bit is clear afterwards, every other bit is kept, and clearing twice
/// is clearing once.
pub proof fn lemma_clear_seip_touches_one_bit(sip: u64)
    ensures
        (sip & !SIP_SEIP) & SIP_SEIP == 0,
        (sip & !SIP_SEIP) | (sip & SIP_SEIP) == sip,
        forall|m: u64| m & SIP_SEIP == 0 ==> #[trigger] ((sip & !SIP_SEIP) & m) == sip & m,
        (sip & !SIP_SEIP) & !SIP_SEIP == sip & !SIP_SEIP,
{
    assert((sip & !0x200u64) & 0x200u64 == 0) by (bit_vector);
    assert((sip & !0x200u64) | (sip & 0x200u64) == sip) by (bit_vector);
    assert((sip & !0x200u64) & !0x200u64 == sip & !0x200u64) by (bit_vector);
    assert forall|m: u64| m & SIP_SEIP == 0 implies #[trigger] ((sip & !SIP_SEIP) & m) == sip & m by {
        assert(m & 0x200u64 == 0 ==> (sip & !0x200u64) & m == sip & m) by (bit_vector);
    }
}

proof fn lemma_leaf_pa_aligned(pte: u64, page: u64, mask: u64)
    by (bit_vector)
    requires
        page & 0xfff == 0,
        mask == 0xfff || mask == 0x1f_ffff || mask == 0x3fff_ffff,
    ensures
        ((((pte >> 10u64) << 12u64) & !mask) | (page & mask)) & 0xfff == 0,
{
}

/// A walk for a page-aligned address resolves to a page-aligned frame.
proof fn lemma_walk_aligned(mem: GuestMemory, table: u64, va: u64, depth: nat)
    requires
        va & 0xfff == 0,
    ensures
        walk(mem, table, va, depth) matches Some(t) ==> t.guest_pa & 0xfff == 0,
    decreases depth,
{
    if depth > 0 {
        let a = table as int + crate::memory::vpn_index(va, depth) as int * 8;
        if mem.contains(a) {
            lemma_walk_aligned(mem, pte_frame(mem.word_at(a)), va, (depth - 1) as nat);
        }
    }
    if walk(mem, table, va, depth) matches Some(t) {
        let a = table as int + crate::memory::vpn_index(va, depth) as int * 8;
        let pte = mem.word_at(a);
        if pte & crate::pte::PTE_RWX != 0 {
            lemma_leaf_pa_aligned(pte, va, span_mask(depth));
        }
    }
}

proof fn lemma_page_aligned(va: u64)
    by (bit_vector)
    ensures
        (va & !0xfffu64) & 0xfff == 0,
{
}

proof fn lemma_host_aligned(g: u64, shift: u64)
    by (bit_vector)
    requires
        g & 0xfff == 0,
        shift & 0xfff == 0,
        g + shift <= u64::MAX,
    ensures
        ((g + shift) as u64 >> 2u64) & 0x3ff == 0,
{
}

proof fn lemma_entry_bits(h: u64, lvl: u64, perm: u64)
    by (bit_vector)
    requires
        h & 0x3ff == 0,
        lvl == 0 || lvl == 0x100 || lvl == 0x200,
    ensures
        (h | lvl | perm | 0xc0 | 0x10 | 1) & 1 != 0,
        (h | lvl | perm | 0xc0 | 0x10 | 1) & 0x10 != 0,
        (h | lvl | perm | 0xc0 | 0x10 | 1) & 0xe == perm & 0xe,
{
}

proof fn lemma_touch_keeps_rights(pte: u64)
    by (bit_vector)
    ensures
        (pte | 0x80 | 0x40) & 0xe == pte & 0xe,
        (pte | 0x40) & 0xe == pte & 0xe,
        (pte | 0x40) & 0x80 == pte & 0x80,
        (pte | 0x80 | 0x40) & 0xc0 == 0xc0,
{
}

proof fn lemma_perm_rights(t: u64, bit: u64)
    by (bit_vector)
    requires
        bit == 2 || bit == 4 || bit == 8,
    ensures
        (t & 0xe) & bit == t & bit,
        bit != 4 ==> (t & (2u64 | 8u64)) & bit == t & bit,
        (t & (2u64 | 8u64)) & 4 == 0,
{
}

proof fn lemma_installed_entry_rights(ctx: Context, kind: AccessKind, t: Translation)
    requires
        ctx.wf(),
        ctx.guest_memory.contains(t.guest_pa as int),
        t.guest_pa & 0xfff == 0,
    ensures
        ctx.installed_entry(kind, t) & PTE_VALID != 0,
        ctx.installed_entry(kind, t) & PTE_USER != 0,
        ctx.installed_entry(kind, t) & 0xe == spec_shadow_perm(
            spec_touched_pte(t.pte_value, kind),
            kind,
        ) & 0xe,
{
    let host = (t.guest_pa + ctx.guest_shift) as u64;
    lemma_host_aligned(t.guest_pa, ctx.guest_shift);
    let perm = spec_shadow_perm(spec_touched_pte(t.pte_value, kind), kind);
    lemma_entry_bits(host >> 2u64, crate::pte::spec_level_bits(t.level), perm);
}

/// A fault in the guest's RAM, off the virtio queues, on a leaf that grants
/// the access and suits the live shadow space, is resolved; the entry put
/// in place for its page is valid, open to the guest and grants the access,
/// so the same access made again does not fault.
pub proof fn lemma_resolved_fault_grants_access(
    ctx: Context,
    cause: u64,
    va: u64,
    insn: Option<u32>,
)
    requires
        ctx.wf(),
        ctx.installs(cause, va),
    ensures
        ctx.fault_action(cause, va, insn) is Resolved,
        ctx.fault_entry(cause, va) & PTE_VALID != 0,
        ctx.fault_entry(cause, va) & PTE_USER != 0,
        cause_kind(cause) matches Some(kind) && ctx.fault_entry(cause, va) & spec_access_bit(kind)
            != 0,
{
    let (kind, t) = ctx.ram_fault(cause, va)->0;
    assert(ctx.translation_for(va) == Some(t));
    lemma_entry_grants(ctx, kind, t, spec_access_bit(kind));
}

/// The installed entry carries bit `bit` of the rights exactly when the
/// shadow permission computed from the touched leaf does.
proof fn lemma_entry_grants(ctx: Context, kind: AccessKind, t: Translation, bit: u64)
    requires
        ctx.wf(),
        ctx.guest_memory.contains(t.guest_pa as int),
        bit == 2 || bit == 4 || bit == 8,
        exists|va: u64| ctx.translation_for(va) == Some(t),
    ensures
        ctx.installed_entry(kind, t) & PTE_VALID != 0,
        ctx.installed_entry(kind, t) & PTE_USER != 0,
        ctx.installed_entry(kind, t) & bit == spec_shadow_perm(spec_touched_pte(t.pte_value, kind), kind) & bit,
        spec_touched_pte(t.pte_value, kind) & bit == t.pte_value & bit,
        kind == AccessKind::Write || bit != 4 ==> spec_shadow_perm(spec_touched_pte(t.pte_value, kind), kind) & bit == t.pte_value & bit,
        kind != AccessKind::Write && t.pte_value & PTE_DIRTY == 0 ==> spec_shadow_perm(spec_touched_pte(t.pte_value, kind), kind) & 4 == 0,
{
    let va = choose|va: u64| ctx.translation_for(va) == Some(t);
    lemma_page_aligned(va);
    lemma_walk_aligned(ctx.guest_memory, satp_root(ctx.csrs.satp), page_of(va), 2);
    lemma_installed_entry_rights(ctx, kind, t);
    let pte = t.pte_value;
    lemma_touch_keeps_rights(pte);
    let touched = spec_touched_pte(pte, kind);
    assert(touched & 0xe == pte & 0xe);
    let perm = spec_shadow_perm(touched, kind);
    lemma_perm_rights(touched, bit);
    lemma_perm_rights(pte, bit);
    lemma_perm_rights(perm, bit);
    let e = ctx.installed_entry(kind, t);
    lemma_perm_rights(e, bit);
    assert(e & bit == perm & bit);
    assert(touched & bit == pte & bit);
    if kind != AccessKind::Write && pte & PTE_DIRTY == 0 {
        assert(touched & 0x80 == 0);
        assert(perm == touched & (2u64 | 8u64));
        lemma_perm_rights(touched, 4);
    }
}

/// Dirty tracking: a read or execute fault on a clean page installs an
/// entry without write permission, so that the first write faults again;
/// a write fault marks the guest's leaf Dirty and Accessed and installs an
/// entry that grants writing.
pub proof fn lemma_dirty_tracking(ctx: Context, cause: u64, va: u64)
    requires
        ctx.wf(),
        ctx.installs(cause, va),
    ensures
        ctx.ram_fault(cause, va) matches Some((kind, t)) && (kind != AccessKind::Write
            && t.pte_value & PTE_DIRTY == 0 ==> ctx.fault_entry(cause, va) & PTE_WRITE == 0),
        ctx.ram_fault(cause, va) matches Some((kind, t)) && (kind == AccessKind::Write ==> {
            &&& ctx.fault_entry(cause, va) & PTE_WRITE != 0
            &&& spec_touched_pte(t.pte_value, kind) & PTE_AD == PTE_AD
        }),
{
    let (kind, t) = ctx.ram_fault(cause, va)->0;
    assert(ctx.translation_for(va) == Some(t));
    lemma_entry_grants(ctx, kind, t, 4);
    lemma_touch_keeps_rights(t.pte_value);
    lemma_touch_marks(t.pte_value);
}

proof fn lemma_touch_marks(pte: u64)
    by (bit_vector)
    ensures
        pte & 0x80 != 0 ==> (pte | 0x40) & 0xc0 == 0xc0,
        pte & 0x80 != 0 && pte & 0x40 != 0 ==> pte & 0xc0 == 0xc0,
{
}

/// An instruction-fetch fault on a leaf without Execute is handed to the
/// guest, wherever the page lies, and changes no shadow entry.
pub proof fn lemma_fetch_needs_execute(ctx: Context, va: u64, insn: Option<u32>)
    requires
        ctx.translation_for(va) matches Some(t) ==> t.pte_value & PTE_EXECUTE == 0,
    ensures
        ctx.fault_action(12, va, insn) == FaultAction::Forward,
        !ctx.installs(12, va),
{
}

/// Under the user space a leaf without User is refused, under the kernel
/// space a leaf with User is refused; either way the guest gets the fault
/// and no shadow entry changes.
pub proof fn lemma_privilege_refusals(ctx: Context, cause: u64, va: u64, insn: Option<u32>)
    requires
        cause == 12 || cause == 13 || cause == 15,
        ctx.translation_for(va) matches Some(t) && {
            ||| ctx.shadow == ShadowRoot::UVA && t.pte_value & PTE_USER == 0
            ||| ctx.shadow == ShadowRoot::KVA && t.pte_value & PTE_USER != 0
        },
    ensures
        ctx.fault_action(cause, va, insn) == FaultAction::Forward,
        !ctx.installs(cause, va),
{
}

/// The machine space admits a leaf whatever its User bit: only the access
/// right is checked.
pub proof fn lemma_machine_space_ignores_user(ctx: Context, kind: AccessKind, t: Translation)
    requires
        ctx.shadow == ShadowRoot::MVA,
    ensures
        ctx.admits(kind, t) == (t.pte_value & spec_access_bit(kind) != 0),
{
}

} // verus!
