//! Where injected code may go: erased flash that the integrity table covers.
use crate::engine::mt1959::Mt1959Engine;
use crate::error::{FwError, Reason};
use crate::raw;
use vstd::prelude::*;

verus! {

/// Injected code is placed from here up.
pub const CODE_REGION_START: usize = 0x9C00;

/// One entry of the image's integrity table.
#[derive(Debug, Clone, Copy, PartialEq, Eq, Structural)]
pub struct TableEntry {
    /// The entry is in use.
    pub active: bool,
    /// First covered byte.
    pub start: u32,
    /// Last covered byte.
    pub end: u32,
}

/// An active entry covers byte `p`.
pub open spec fn covered(table: Seq<TableEntry>, p: int) -> bool {
    exists|k: int|
        0 <= k < table.len() && (#[trigger] table[k]).active && table[k].start <= p
            <= table[k].end
}

/// `[s, e)` is a whole run of erased flash in the code region.
pub open spec fn erased_run(img: Seq<u8>, s: int, e: int) -> bool {
    &&& CODE_REGION_START <= s < e <= img.len()
    &&& raw::erased(img, s, e)
    &&& s == CODE_REGION_START || img[s - 1] != 0xFF
    &&& e == img.len() || img[e] != 0xFF
}

/// First 4-aligned offset from `s` on.
pub open spec fn aligned(s: int) -> int {
    (s + 3) / 4 * 4
}

/// `[s, e)` is an erased run with `need` bytes from its first aligned offset on,
/// and the integrity table covers both ends of them.
pub open spec fn usable_run(
    img: Seq<u8>,
    table: Seq<TableEntry>,
    need: int,
    s: int,
    e: int,
) -> bool {
    &&& erased_run(img, s, e)
    &&& aligned(s) < e
    &&& e - aligned(s) >= need
    &&& covered(table, aligned(s))
    &&& covered(table, e - 1)
}

/// `[s, e)` is the usable run with the most room; the lowest one on a tie.
pub open spec fn roomiest_run(
    img: Seq<u8>,
    table: Seq<TableEntry>,
    need: int,
    s: int,
    e: int,
) -> bool {
    &&& usable_run(img, table, need, s, e)
    &&& forall|s2: int, e2: int| #[trigger]
        usable_run(img, table, need, s2, e2) ==> e2 - aligned(s2) < e - aligned(s) || (e2
            - aligned(s2) == e - aligned(s) && s <= s2)
}

/// A number of bytes, as far as it can be counted.
pub open spec fn capped(n: int) -> usize {
    if n > usize::MAX {
        usize::MAX
    } else {
        n as usize
    }
}

/// Where `need` bytes of injected code go.
pub open spec fn free_at(img: Seq<u8>, table: Seq<TableEntry>, need: int) -> Result<u32, FwError> {
    if exists|s: int, e: int| roomiest_run(img, table, need, s, e) {
        let (s, e) = choose|s: int, e: int| roomiest_run(img, table, need, s, e);
        Ok(aligned(s) as u32)
    } else {
        Err(FwError::Refused(Reason::FreeSpace { need: capped(need) }))
    }
}

/// The roomiest run is determined.
pub proof fn lemma_roomiest_run_unique(
    img: Seq<u8>,
    table: Seq<TableEntry>,
    need: int,
    s: int,
    e: int,
    s2: int,
    e2: int,
)
    requires
        roomiest_run(img, table, need, s, e),
        roomiest_run(img, table, need, s2, e2),
    ensures
        s == s2,
        e == e2,
{
    assert(usable_run(img, table, need, s, e));
    assert(usable_run(img, table, need, s2, e2));
}

/// Injected code lands on erased, 4-aligned flash inside the code region, with the
/// room that was asked for, and the table covers its first byte.
pub proof fn law_free_space_is_blank_and_covered(
    img: Seq<u8>,
    table: Seq<TableEntry>,
    need: int,
    va: u32,
)
    requires
        raw::addressable(img),
        free_at(img, table, need) == Ok::<u32, FwError>(va),
    ensures
        va % 4 == 0,
        va >= CODE_REGION_START,
        va + need <= img.len(),
        va < img.len(),
        raw::erased(img, va as int, va + need),
        covered(table, va as int),
{
    let (s, e) = choose|s: int, e: int| roomiest_run(img, table, need, s, e);
    assert(roomiest_run(img, table, need, s, e));
}

fn is_covered(table: &Vec<TableEntry>, p: usize) -> (r: bool)
    ensures
        r == covered(table@, p as int),
{
    let mut k: usize = 0;
    while k < table.len()
        invariant
            k <= table@.len(),
            forall|j: int|
                0 <= j < k ==> !((#[trigger] table@[j]).active && table@[j].start <= p
                    <= table@[j].end),
        decreases table@.len() - k,
    {
        let t: TableEntry = table[k];
        if t.active && t.start as usize <= p && p <= t.end as usize {
            assert(table@[k as int].active);
            return true;
        }
        k += 1;
    }
    false
}

impl Mt1959Engine {
    /// The largest run of erased flash with at least `need` bytes, 4-aligned and
    /// covered by the integrity table; the lowest one on a tie.
    pub fn free_space(&self, image: &[u8], table: &Vec<TableEntry>, need: usize) -> (r: Result<
        u32,
        FwError,
    >)
        requires
            raw::addressable(image@),
        ensures
            r == free_at(image@, table@, need as int),
    {
        let len: usize = image.len();
        let mut best: Option<(usize, usize)> = None;
        let ghost mut best_s: int = 0;
        let mut i: usize = CODE_REGION_START;
        while i < len
            invariant
                raw::addressable(image@),
                len == image@.len(),
                CODE_REGION_START <= i,
                i <= len || i == CODE_REGION_START,
                i == CODE_REGION_START || i >= len || image@[i - 1] != 0xFF || image@[i as int]
                    != 0xFF,
                best matches Some((a, room)) ==> {
                    let e = a + room;
                    &&& a == aligned(best_s)
                    &&& e <= i
                    &&& usable_run(image@, table@, need as int, best_s, e)
                },
                forall|s2: int, e2: int| #[trigger]
                    usable_run(image@, table@, need as int, s2, e2) && e2 <= i ==> (
                    best matches Some((a, room)) && (e2 - aligned(s2) < room || (e2 - aligned(s2)
                        == room && best_s <= s2))),
            decreases len - i,
        {
            if image[i] == 0xFF {
                let s: usize = i;
                while i < len && image[i] == 0xFF
                    invariant
                        len == image@.len(),
                        raw::addressable(image@),
                        CODE_REGION_START <= s <= i <= len,
                        raw::erased(image@, s as int, i as int),
                    decreases len - i,
                {
                    i += 1;
                }
                let a: usize = (s + 3) / 4 * 4;
                assert(erased_run(image@, s as int, i as int));
                if i > a && i - a >= need && is_covered(table, a) && is_covered(table, i - 1) {
                    let room: usize = i - a;
                    let better: bool = match best {
                        Some((_, b)) => room > b,
                        None => true,
                    };
                    if better {
                        best = Some((a, room));
                        proof {
                            best_s = s as int;
                        }
                    }
                }
                proof {
                    assert forall|s2: int, e2: int| #[trigger]
                        usable_run(image@, table@, need as int, s2, e2) && e2 <= i implies (
                    best matches Some((a, room)) && (e2 - aligned(s2) < room || (e2 - aligned(s2)
                        == room && best_s <= s2))) by {
                        if e2 > s {
                            // the run that ends after `s` is the one just walked
                            if s2 > s {
                                assert(image@[s2 - 1] == 0xFF);
                            }
                            if s2 < s {
                                assert(image@[s - 1] == 0xFF);
                            }
                            if e2 < i {
                                assert(image@[e2] == 0xFF);
                            }
                            assert(s2 == s && e2 == i);
                        }
                    }
                }
            } else {
                i += 1;
                proof {
                    assert forall|s2: int, e2: int| #[trigger]
                        usable_run(image@, table@, need as int, s2, e2) && e2 <= i implies (
                    best matches Some((a, room)) && (e2 - aligned(s2) < room || (e2 - aligned(s2)
                        == room && best_s <= s2))) by {
                        if e2 == i {
                            assert(image@[i - 1] == 0xFF);
                        }
                    }
                }
            }
        }
        proof {
            assert forall|s2: int, e2: int| #[trigger]
                usable_run(image@, table@, need as int, s2, e2) implies e2 <= i by {}
        }
        match best {
            Some((a, room)) => {
                proof {
                    let e = a + room;
                    assert(roomiest_run(image@, table@, need as int, best_s, e));
                    let (s2, e2) = choose|s2: int, e2: int|
                        roomiest_run(image@, table@, need as int, s2, e2);
                    lemma_roomiest_run_unique(
                        image@,
                        table@,
                        need as int,
                        best_s,
                        e,
                        s2,
                        e2,
                    );
                }
                Ok(a as u32)
            },
            None => {
                proof {
                    assert forall|s2: int, e2: int| !roomiest_run(
                        image@,
                        table@,
                        need as int,
                        s2,
                        e2,
                    ) by {
                        if usable_run(image@, table@, need as int, s2, e2) {
                            assert(e2 <= i);
                        }
                    }
                }
                Err(FwError::Refused(Reason::FreeSpace { need }))
            },
        }
    }
}

} // verus!
