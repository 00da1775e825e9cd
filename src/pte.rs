//! Page-table entry bits and the pure access rules applied to a guest leaf.
use vstd::prelude::*;

verus! {

pub const PTE_VALID: u64 = 0x1;
pub const PTE_READ: u64 = 0x2;
pub const PTE_WRITE: u64 = 0x4;
pub const PTE_EXECUTE: u64 = 0x8;
pub const PTE_USER: u64 = 0x10;
pub const PTE_ACCESSED: u64 = 0x40;
pub const PTE_DIRTY: u64 = 0x80;
pub const PTE_AD: u64 = 0xc0;
pub const PTE_RWX: u64 = 0xe;

/// Size class of a leaf found by the guest walk.
#[derive(Clone, Copy, Debug, PartialEq, Eq, Structural)]
pub enum PageTableLevel {
    Level4KB,
    Level2MB,
    Level1GB,
}

/// The right a faulting access needs.
#[derive(Clone, Copy, Debug, PartialEq, Eq, Structural)]
pub enum AccessKind {
    Read,
    Write,
    Execute,
}

/// Which shadow address space is live, and so which privilege rule applies.
#[derive(Clone, Copy, Debug, PartialEq, Eq, Structural)]
pub enum ShadowRoot {
    MPA,
    UVA,
    KVA,
    MVA,
}

pub open spec fn cause_kind(cause: u64) -> Option<AccessKind> {
    if cause == 12 {
        Some(AccessKind::Execute)
    } else if cause == 13 {
        Some(AccessKind::Read)
    } else if cause == 15 {
        Some(AccessKind::Write)
    } else {
        None
    }
}

/// Maps a hardware fault cause to the access it was made for; `None` for any
/// cause that is not a page fault.
pub fn access_kind_of_cause(cause: u64) -> (r: Option<AccessKind>)
    ensures
        r == cause_kind(cause),
{
    match cause {
        12 => Some(AccessKind::Execute),
        13 => Some(AccessKind::Read),
        15 => Some(AccessKind::Write),
        _ => None,
    }
}

pub open spec fn spec_access_bit(kind: AccessKind) -> u64 {
    match kind {
        AccessKind::Read => PTE_READ,
        AccessKind::Write => PTE_WRITE,
        AccessKind::Execute => PTE_EXECUTE,
    }
}

impl AccessKind {
    /// The leaf permission bit that grants this access.
    pub fn pte_bit(self) -> (r: u64)
        ensures
            r == spec_access_bit(self),
    {
        match self {
            AccessKind::Read => PTE_READ,
            AccessKind::Write => PTE_WRITE,
            AccessKind::Execute => PTE_EXECUTE,
        }
    }
}

pub open spec fn spec_privilege_ok(root: ShadowRoot, pte: u64) -> bool {
    match root {
        ShadowRoot::UVA => pte & PTE_USER != 0,
        ShadowRoot::KVA => pte & PTE_USER == 0,
        ShadowRoot::MVA => true,
        ShadowRoot::MPA => false,
    }
}

/// Whether a leaf may be used from the given shadow space: user space needs
/// the User bit, kernel space needs it clear, the machine space checks
/// nothing, and without guest paging there is nothing to use.
pub fn privilege_ok(root: ShadowRoot, pte: u64) -> (r: bool)
    ensures
        r == spec_privilege_ok(root, pte),
{
    match root {
        ShadowRoot::UVA => pte & PTE_USER != 0,
        ShadowRoot::KVA => pte & PTE_USER == 0,
        ShadowRoot::MVA => true,
        ShadowRoot::MPA => false,
    }
}

/// The guest leaf after the access is recorded: a write to a clean page sets
/// Dirty and Accessed, any other access sets Accessed.
pub open spec fn spec_touched_pte(pte: u64, kind: AccessKind) -> u64 {
    if pte & PTE_DIRTY == 0 && kind == AccessKind::Write {
        pte | PTE_DIRTY | PTE_ACCESSED
    } else if pte & PTE_ACCESSED == 0 {
        pte | PTE_ACCESSED
    } else {
        pte
    }
}

pub fn touched_pte(pte: u64, kind: AccessKind) -> (r: u64)
    ensures
        r == spec_touched_pte(pte, kind),
{
    if pte & PTE_DIRTY == 0 && kind == AccessKind::Write {
        pte | PTE_DIRTY | PTE_ACCESSED
    } else if pte & PTE_ACCESSED == 0 {
        pte | PTE_ACCESSED
    } else {
        pte
    }
}

/// Rights the shadow entry grants: while the page is clean, a non-write
/// access gets Read and Execute only, so that the first write faults again.
pub open spec fn spec_shadow_perm(pte: u64, kind: AccessKind) -> u64 {
    if pte & PTE_DIRTY == 0 && kind != AccessKind::Write {
        pte & (PTE_READ | PTE_EXECUTE)
    } else {
        pte & PTE_RWX
    }
}

pub fn shadow_perm(pte: u64, kind: AccessKind) -> (r: u64)
    ensures
        r == spec_shadow_perm(pte, kind),
{
    if pte & PTE_DIRTY == 0 && kind != AccessKind::Write {
        pte & (PTE_READ | PTE_EXECUTE)
    } else {
        pte & PTE_RWX
    }
}

pub open spec fn spec_level_bits(level: PageTableLevel) -> u64 {
    match level {
        PageTableLevel::Level4KB => 0x000,
        PageTableLevel::Level2MB => 0x100,
        PageTableLevel::Level1GB => 0x200,
    }
}

/// The shadow entry mapping a page onto `host_pa`.
pub open spec fn spec_shadow_entry(host_pa: u64, level: PageTableLevel, perm: u64) -> u64 {
    (host_pa >> 2u64) | spec_level_bits(level) | perm | PTE_AD | PTE_USER | PTE_VALID
}

pub fn shadow_entry(host_pa: u64, level: PageTableLevel, perm: u64) -> (r: u64)
    ensures
        r == spec_shadow_entry(host_pa, level, perm),
{
    let reserved: u64 = match level {
        PageTableLevel::Level4KB => 0x000,
        PageTableLevel::Level2MB => 0x100,
        PageTableLevel::Level1GB => 0x200,
    };
    (host_pa >> 2u64) | reserved | perm | PTE_AD | PTE_USER | PTE_VALID
}

} // verus!
