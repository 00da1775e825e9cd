use svers::device::GuestRegisters;
use svers::fault::{handle_page_fault, Context, FaultAction, GuestCsrs, VirtioWindows};
use svers::memory::{translate_guest_address, GuestMemory};
use svers::pte::{PageTableLevel, ShadowRoot};
use svers::shadow::{ShadowPageTables, TlbStaleness};

const RAM_BASE: u64 = 0x8000_0000;
const RAM_WORDS: usize = 16 * 512;
const SHIFT: u64 = 0x1_0000_0000;
const VA: u64 = 0x0040_3000;
const LEAF_ADDR: u64 = 0x8000_2000 + 3 * 8;
const DATA_PA: u64 = 0x8000_5000;

const V: u64 = 0x1;
const R: u64 = 0x2;
const W: u64 = 0x4;
const X: u64 = 0x8;
const U: u64 = 0x10;
const A: u64 = 0x40;
const D: u64 = 0x80;

fn idx(pa: u64) -> usize {
    ((pa - RAM_BASE) / 8) as usize
}

fn pointer(pa: u64) -> u64 {
    ((pa >> 12) << 10) | V
}

fn leaf(pa: u64, flags: u64) -> u64 {
    ((pa >> 12) << 10) | flags
}

fn memory_with_leaf(flags: u64) -> GuestMemory {
    let mut words = vec![0u64; RAM_WORDS];
    words[idx(RAM_BASE)] = pointer(0x8000_1000);
    words[idx(0x8000_1000 + 2 * 8)] = pointer(0x8000_2000);
    words[idx(LEAF_ADDR)] = leaf(DATA_PA, flags);
    GuestMemory::new(RAM_BASE, words)
}

fn context(shadow: ShadowRoot, flags: u64) -> Context {
    Context {
        regs: GuestRegisters::new(),
        csrs: GuestCsrs { satp: (8u64 << 60) | (RAM_BASE >> 12), sip: 0 },
        trap_pc: 0x8020_0000,
        guest_memory: memory_with_leaf(flags),
        guest_shift: SHIFT,
        shadow_page_tables: ShadowPageTables::new(),
        shadow,
        staleness: TlbStaleness::new(),
        smode: true,
        no_interrupt: true,
        virtio: VirtioWindows { queues: Vec::new(), devices: Vec::new() },
    }
}

fn entry_for(perm: u64) -> u64 {
    ((DATA_PA + SHIFT) >> 2) | perm | 0xc0 | 0x10 | 0x1
}

fn guest_leaf(ctx: &Context) -> u64 {
    ctx.guest_memory.words[idx(LEAF_ADDR)]
}

#[test]
fn walk_finds_4k_leaf() {
    let mem = memory_with_leaf(V | R);
    let t = translate_guest_address(&mem, RAM_BASE, VA).unwrap();
    assert_eq!(t.guest_pa, DATA_PA);
    assert_eq!(t.pte_addr, LEAF_ADDR);
    assert_eq!(t.level, PageTableLevel::Level4KB);
}

#[test]
fn walk_finds_2m_superpage() {
    let mut words = vec![0u64; RAM_WORDS];
    words[idx(RAM_BASE)] = pointer(0x8000_1000);
    words[idx(0x8000_1000 + 2 * 8)] = leaf(0x8020_0000, V | R | X);
    let mem = GuestMemory::new(RAM_BASE, words);
    let t = translate_guest_address(&mem, RAM_BASE, VA).unwrap();
    assert_eq!(t.level, PageTableLevel::Level2MB);
    assert_eq!(t.guest_pa, 0x8020_0000 | 0x3000);
}

#[test]
fn walk_finds_1g_superpage() {
    let mut words = vec![0u64; RAM_WORDS];
    words[idx(RAM_BASE + 8)] = leaf(0xc000_0000, V | R);
    let mem = GuestMemory::new(RAM_BASE, words);
    let t = translate_guest_address(&mem, RAM_BASE, 0x4123_4000).unwrap();
    assert_eq!(t.level, PageTableLevel::Level1GB);
    assert_eq!(t.guest_pa, 0xc123_4000);
}

#[test]
fn walk_fails_on_invalid_or_outside_entries() {
    let mem = memory_with_leaf(R);
    assert!(translate_guest_address(&mem, RAM_BASE, VA).is_none());
    let mem = memory_with_leaf(V | R);
    assert!(translate_guest_address(&mem, 0x4000_0000, VA).is_none());
}

#[test]
fn store_on_clean_kernel_page_end_to_end() {
    let mut ctx = context(ShadowRoot::KVA, V | R | W);
    let r = handle_page_fault(&mut ctx, 15, VA + 0x10, None);
    assert_eq!(r, FaultAction::Resolved { flush: false });
    assert_eq!(guest_leaf(&ctx), leaf(DATA_PA, V | R | W | D | A));
    let e = ctx.shadow_page_tables.lookup(ShadowRoot::KVA, VA);
    assert_eq!(e, entry_for(R | W));
    assert_eq!(e & X, 0);
    let r = handle_page_fault(&mut ctx, 15, VA, None);
    assert_eq!(r, FaultAction::Resolved { flush: false });
    let e = ctx.shadow_page_tables.lookup(ShadowRoot::KVA, VA);
    assert_eq!(e & (R | W), R | W);
    assert_eq!(ctx.staleness, TlbStaleness::Counting(2));
}

#[test]
fn resolved_read_grants_read() {
    let mut ctx = context(ShadowRoot::MVA, V | R | X | U);
    assert_eq!(handle_page_fault(&mut ctx, 13, VA, None), FaultAction::Resolved { flush: false });
    let e = ctx.shadow_page_tables.lookup(ShadowRoot::MVA, VA);
    assert_eq!(e, entry_for(R | X));
    assert_eq!(guest_leaf(&ctx), leaf(DATA_PA, V | R | X | U | A));
}

#[test]
fn clean_page_read_then_write_regrants_write() {
    let mut ctx = context(ShadowRoot::KVA, V | R | W);
    assert_eq!(handle_page_fault(&mut ctx, 13, VA, None), FaultAction::Resolved { flush: false });
    let e = ctx.shadow_page_tables.lookup(ShadowRoot::KVA, VA);
    assert_eq!(e & W, 0);
    assert_eq!(guest_leaf(&ctx) & (D | A), A);
    assert_eq!(handle_page_fault(&mut ctx, 15, VA, None), FaultAction::Resolved { flush: false });
    let e = ctx.shadow_page_tables.lookup(ShadowRoot::KVA, VA);
    assert_eq!(e, entry_for(R | W));
    assert_eq!(guest_leaf(&ctx) & (D | A), D | A);
}

#[test]
fn fetch_without_execute_is_forwarded() {
    let mut ctx = context(ShadowRoot::KVA, V | R | W);
    assert_eq!(handle_page_fault(&mut ctx, 12, VA, None), FaultAction::Forward);
    assert_eq!(ctx.shadow_page_tables.lookup(ShadowRoot::KVA, VA), 0);
    assert_eq!(guest_leaf(&ctx), leaf(DATA_PA, V | R | W));
}

#[test]
fn privilege_rules_per_shadow_space() {
    let mut ctx = context(ShadowRoot::UVA, V | R);
    assert_eq!(handle_page_fault(&mut ctx, 13, VA, None), FaultAction::Forward);
    let mut ctx = context(ShadowRoot::KVA, V | R | U);
    assert_eq!(handle_page_fault(&mut ctx, 13, VA, None), FaultAction::Forward);
    let mut ctx = context(ShadowRoot::UVA, V | R | U);
    assert_eq!(handle_page_fault(&mut ctx, 13, VA, None), FaultAction::Resolved { flush: false });
    let mut ctx = context(ShadowRoot::MVA, V | R);
    assert_eq!(handle_page_fault(&mut ctx, 13, VA, None), FaultAction::Resolved { flush: false });
    let mut ctx = context(ShadowRoot::MVA, V | R | U);
    assert_eq!(handle_page_fault(&mut ctx, 13, VA, None), FaultAction::Resolved { flush: false });
}

#[test]
fn no_guest_paging_forwards() {
    let mut ctx = context(ShadowRoot::MPA, V | R);
    assert_eq!(handle_page_fault(&mut ctx, 13, VA, None), FaultAction::Forward);
}

#[test]
fn unknown_cause_is_fatal() {
    let mut ctx = context(ShadowRoot::KVA, V | R);
    assert_eq!(
        handle_page_fault(&mut ctx, 5, VA, None),
        FaultAction::Fatal(svers::device::FatalFault::UnknownCause { cause: 5 })
    );
}

#[test]
fn write_to_read_only_page_is_forwarded() {
    let mut ctx = context(ShadowRoot::KVA, V | R);
    assert_eq!(handle_page_fault(&mut ctx, 15, VA, None), FaultAction::Forward);
}

#[test]
fn repeated_identical_faults_latch_and_then_flush() {
    let mut ctx = context(ShadowRoot::KVA, V | R | W | D | A);
    for n in 1..=9u64 {
        assert_eq!(handle_page_fault(&mut ctx, 13, VA, None), FaultAction::Resolved { flush: false });
        assert_eq!(ctx.staleness, TlbStaleness::Counting(n));
    }
    assert_eq!(handle_page_fault(&mut ctx, 13, VA, None), FaultAction::Resolved { flush: false });
    assert_eq!(ctx.staleness, TlbStaleness::Latched);
    assert_eq!(handle_page_fault(&mut ctx, 15, VA, None), FaultAction::Resolved { flush: true });
    assert_eq!(ctx.staleness, TlbStaleness::Latched);
}

#[test]
fn virtio_queue_page_is_delegated() {
    let mut ctx = context(ShadowRoot::KVA, V | R | W);
    ctx.virtio.queues.push((DATA_PA, DATA_PA + 0x1000));
    let r = handle_page_fault(&mut ctx, 15, VA + 0x24, Some(0x0085a023));
    assert_eq!(
        r,
        FaultAction::VirtioQueue {
            guest_pa: DATA_PA + 0x24,
            host_pa: DATA_PA + SHIFT + 0x24,
            instruction: 0x0085a023
        }
    );
    assert_eq!(ctx.shadow_page_tables.lookup(ShadowRoot::KVA, VA), 0);
    assert_eq!(guest_leaf(&ctx) & (D | A), D | A);
    let mut ctx = context(ShadowRoot::KVA, V | R | W);
    ctx.virtio.queues.push((DATA_PA, DATA_PA + 0x1000));
    assert!(matches!(handle_page_fault(&mut ctx, 13, VA, None), FaultAction::Fatal(_)));
}
