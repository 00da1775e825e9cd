//! Guest physical memory and the walk of the guest's own page tables.
use vstd::prelude::*;
use crate::pte::{PageTableLevel, PTE_RWX, PTE_VALID};

verus! {

/// The guest's backing RAM: 64-bit words starting at guest-physical `base`.
pub struct GuestMemory {
    pub base: u64,
    pub words: Vec<u64>,
}

impl GuestMemory {
    pub open spec fn wf(&self) -> bool {
        self.base as int + 8 * self.words@.len() <= u64::MAX
    }

    pub open spec fn contains(&self, pa: int) -> bool {
        self.base <= pa && pa < self.base + 8 * self.words@.len()
    }

    pub open spec fn index_of(&self, pa: int) -> int {
        (pa - self.base) / 8
    }

    /// The word holding guest-physical address `pa`.
    pub open spec fn word_at(&self, pa: int) -> u64 {
        self.words@[self.index_of(pa)]
    }

    pub fn new(base: u64, words: Vec<u64>) -> (r: GuestMemory)
        requires
            base as int + 8 * words@.len() <= u64::MAX,
        ensures
            r.wf(),
            r.base == base,
            r.words@ == words@,
    {
        GuestMemory { base, words }
    }

    pub fn is_wf(&self) -> (r: bool)
        ensures
            r == self.wf(),
    {
        let len = self.words.len() as u64;
        len <= (u64::MAX - self.base) / 8
    }

    pub fn in_region(&self, pa: u64) -> (r: bool)
        ensures
            r == self.contains(pa as int),
    {
        pa >= self.base && (pa - self.base) / 8 < self.words.len() as u64
    }

    pub fn read(&self, pa: u64) -> (r: u64)
        requires
            self.contains(pa as int),
        ensures
            r == self.word_at(pa as int),
    {
        let i: u64 = (pa - self.base) / 8;
        assert(i < self.words.len());
        self.words[i as usize]
    }

    pub fn write(&mut self, pa: u64, value: u64)
        requires
            old(self).contains(pa as int),
        ensures
            final(self).base == old(self).base,
            final(self).words@ == old(self).words@.update(old(self).index_of(pa as int), value),
    {
        let i: u64 = (pa - self.base) / 8;
        assert(i < self.words.len());
        self.words.set(i as usize, value);
    }
}

/// A resolved guest translation: the leaf entry, where it lives, the
/// guest-physical page it maps, and the size class it was found at.
#[derive(Clone, Copy, Debug, PartialEq, Eq, Structural)]
pub struct Translation {
    pub pte_value: u64,
    pub guest_pa: u64,
    pub pte_addr: u64,
    pub level: PageTableLevel,
}

pub open spec fn level_of(depth: nat) -> PageTableLevel {
    if depth == 0 {
        PageTableLevel::Level4KB
    } else if depth == 1 {
        PageTableLevel::Level2MB
    } else {
        PageTableLevel::Level1GB
    }
}

/// Offset bits inside a leaf found at `depth` (0 for a 4 KiB page).
pub open spec fn span_mask(depth: nat) -> u64 {
    if depth == 0 {
        0xfff
    } else if depth == 1 {
        0x1f_ffff
    } else {
        0x3fff_ffff
    }
}

pub open spec fn pte_frame(pte: u64) -> u64 {
    (pte >> 10u64) << 12u64
}

pub open spec fn leaf_pa(pte: u64, va: u64, depth: nat) -> u64 {
    (pte_frame(pte) & !span_mask(depth)) | (va & span_mask(depth))
}

pub open spec fn vpn_index(va: u64, depth: nat) -> u64 {
    if depth == 0 {
        (va >> 12u64) & 0x1ff
    } else if depth == 1 {
        (va >> 21u64) & 0x1ff
    } else {
        (va >> 30u64) & 0x1ff
    }
}

/// Sv39 walk from the table at `table`, `depth` levels above the last.
pub open spec fn walk(mem: GuestMemory, table: u64, va: u64, depth: nat) -> Option<Translation>
    decreases depth,
{
    let a = table as int + vpn_index(va, depth) as int * 8;
    if !mem.contains(a) {
        None
    } else {
        let pte = mem.word_at(a);
        if pte & PTE_VALID == 0 {
            None
        } else if pte & PTE_RWX != 0 {
            Some(
                Translation {
                    pte_value: pte,
                    guest_pa: leaf_pa(pte, va, depth),
                    pte_addr: a as u64,
                    level: level_of(depth),
                },
            )
        } else if depth == 0 {
            None
        } else {
            walk(mem, pte_frame(pte), va, (depth - 1) as nat)
        }
    }
}

pub open spec fn spec_translate(mem: GuestMemory, root: u64, va: u64) -> Option<Translation> {
    walk(mem, root, va, 2)
}

/// Walks the guest's three-level table rooted at `root_pa` for `guest_va`.
/// Every entry is read from inside the guest's RAM or the walk fails.
pub fn translate_guest_address(memory: &GuestMemory, root_pa: u64, guest_va: u64) -> (r: Option<
    Translation,
>)
    requires
        memory.wf(),
    ensures
        r == spec_translate(*memory, root_pa, guest_va),
        r matches Some(t) ==> memory.contains(t.pte_addr as int),
{
    let mut table = root_pa;
    let mut depth: u64 = 2;
    loop
        invariant
            depth <= 2,
            memory.wf(),
            spec_translate(*memory, root_pa, guest_va) == walk(*memory, table, guest_va, depth as nat),
        decreases depth,
    {
        let index: u64 = if depth == 0 {
            (guest_va >> 12u64) & 0x1ff
        } else if depth == 1 {
            (guest_va >> 21u64) & 0x1ff
        } else {
            (guest_va >> 30u64) & 0x1ff
        };
        assert(index <= 0x1ff) by (bit_vector)
            requires
                index == (guest_va >> 12u64) & 0x1ff || index == (guest_va >> 21u64) & 0x1ff
                    || index == (guest_va >> 30u64) & 0x1ff,
        ;
        let offset = index * 8;
        if table > u64::MAX - offset {
            return None;
        }
        let pte_addr = table + offset;
        if !memory.in_region(pte_addr) {
            return None;
        }
        let pte = memory.read(pte_addr);
        if pte & PTE_VALID == 0 {
            return None;
        }
        if pte & PTE_RWX != 0 {
            let mask: u64 = if depth == 0 {
                0xfff
            } else if depth == 1 {
                0x1f_ffff
            } else {
                0x3fff_ffff
            };
            let frame = (pte >> 10u64) << 12u64;
            let level = if depth == 0 {
                PageTableLevel::Level4KB
            } else if depth == 1 {
                PageTableLevel::Level2MB
            } else {
                PageTableLevel::Level1GB
            };
            return Some(
                Translation {
                    pte_value: pte,
                    guest_pa: (frame & !mask) | (guest_va & mask),
                    pte_addr,
                    level,
                },
            );
        }
        if depth == 0 {
            return None;
        }
        table = (pte >> 10u64) << 12u64;
        depth = depth - 1;
    }
}

} // verus!
