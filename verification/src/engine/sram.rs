//! Which SRAM a running image refers to, and where it leaves room.
use crate::engine::code;
use crate::engine::handler::NUM_FEATURES;
use crate::engine::mt1959::Mt1959Engine;
use crate::error::{FwError, Reason, SramCell};
use crate::raw;
use vstd::prelude::*;

verus! {

/// End of the SRAM that is mapped.
pub const SRAM_END: u32 = 0x0200_1a00;

/// Where the feature flags live.
pub const FLAG_TABLE_BASE: u32 = 0x0200_0e40;

/// How many instructions behind a load its register is watched as a base.
pub const REACH_STEPS: usize = 16;

/// Bytes from its base on that the load or store `h` reaches; zero when `h` is
/// neither.
pub open spec fn access_reach(h: u16) -> int {
    let imm = h / 64 % 32;
    let op = h / 2048;
    if op == 12 || op == 13 {
        imm * 4 + 4
    } else if op == 14 || op == 15 {
        imm + 1
    } else if op == 16 || op == 17 {
        imm * 2 + 2
    } else {
        0
    }
}

/// The furthest that an access through register `rx` reaches, among the `n`
/// instructions from `p` on and before `rx` is loaded anew.
pub open spec fn base_reach(img: Seq<u8>, p: int, rx: int, n: nat) -> int
    decreases n,
{
    if n == 0 || p + 2 > img.len() || code::loads_literal_into(raw::hw_at(img, p), rx) {
        0
    } else {
        let h = raw::hw_at(img, p);
        let here = if h / 8 % 8 == rx {
            access_reach(h)
        } else {
            0
        };
        let rest = base_reach(img, p + 2, rx, (n - 1) as nat);
        if here > rest {
            here
        } else {
            rest
        }
    }
}

/// How many bytes from its literal on the load at `o` makes referenced: the cell,
/// or as far as its register reaches as a base.
pub open spec fn load_reach(img: Seq<u8>, o: int) -> int {
    let reach = base_reach(img, o + 2, (raw::hw_at(img, o) / 256 % 8) as int, REACH_STEPS as nat);
    if reach > 4 {
        reach
    } else {
        4
    }
}

/// The load at `o` makes SRAM address `x` referenced.
pub open spec fn references(img: Seq<u8>, o: int, x: int) -> bool {
    code::sram_literal_at(img, o) matches Some(lit) && lit <= x < lit + load_reach(img, o)
}

/// A load at an even offset makes SRAM address `x` referenced.
pub open spec fn referenced(img: Seq<u8>, x: int) -> bool {
    exists|k: int| 0 <= k && #[trigger] references(img, 2 * k, x)
}

/// The first address of `[lo, hi)` that a load makes referenced, or `hi`.
pub open spec fn first_referenced(img: Seq<u8>, lo: int, hi: int) -> int
    decreases hi - lo,
{
    if lo >= hi || referenced(img, lo) {
        lo
    } else {
        first_referenced(img, lo + 1, hi)
    }
}

/// The first referenced address is the one with none before it.
proof fn lemma_first_referenced(img: Seq<u8>, lo: int, hi: int, a: int)
    requires
        lo <= a < hi,
        referenced(img, a),
        forall|x: int| lo <= x < a ==> !#[trigger] referenced(img, x),
    ensures
        first_referenced(img, lo, hi) == a,
    decreases a - lo,
{
    if lo < a {
        assert(!referenced(img, lo));
        lemma_first_referenced(img, lo + 1, hi, a);
    }
}

/// The cell `[base, base + len)` with its guards is mapped and unreferenced.
pub open spec fn sram_cell_free(
    img: Seq<u8>,
    base: u32,
    len: u32,
    cell: SramCell,
) -> Result<(), FwError> {
    if base < code::SRAM_LO + 4 || base + len + 4 > SRAM_END {
        Err(
            FwError::Refused(Reason::SramUnmapped { cell, base, end: (base + len) as u32 }),
        )
    } else if exists|a: int|
        base - 4 <= a < base + len + 4 && #[trigger] referenced(img, a) {
        Err(
            FwError::Refused(
                Reason::SramReferenced {
                    cell,
                    base,
                    end: (base + len) as u32,
                    at: first_referenced(img, base - 4, base + len + 4) as u32,
                },
            ),
        )
    } else {
        Ok(())
    }
}

/// `[b, b + n)` is SRAM that nothing refers to.
pub open spec fn unreferenced(img: Seq<u8>, b: int, n: int) -> bool {
    &&& code::SRAM_LO <= b
    &&& 0 < n
    &&& b + n <= code::SRAM_HI
    &&& forall|x: int| b <= x < b + n ==> !#[trigger] referenced(img, x)
}

/// `[b, b + n)` is the longest stretch that nothing refers to; the lowest on a tie.
pub open spec fn widest_gap(img: Seq<u8>, b: int, n: int) -> bool {
    &&& unreferenced(img, b, n)
    &&& forall|b2: int, n2: int| #[trigger]
        unreferenced(img, b2, n2) ==> n2 < n || (n2 == n && b <= b2)
}

/// How long the longest stretch is that nothing refers to.
pub open spec fn widest(img: Seq<u8>) -> int {
    if exists|b: int, n: int| widest_gap(img, b, n) {
        (choose|g: (int, int)| widest_gap(img, g.0, g.1)).1
    } else {
        0
    }
}

/// Where a flag table fits: the first aligned address of the widest gap.
pub open spec fn free_cell(img: Seq<u8>) -> Result<u32, FwError> {
    if exists|b: int, n: int| widest_gap(img, b, n) && n >= NUM_FEATURES + 2 {
        let (b, n) = choose|b: int, n: int| widest_gap(img, b, n) && n >= NUM_FEATURES + 2;
        Ok(((b + 3) / 4 * 4) as u32)
    } else {
        Err(FwError::Refused(Reason::SramGap { bytes: widest(img) as usize }))
    }
}

/// The flag table that is handed out does not overlap anything referenced.
pub proof fn law_free_cell_is_unreferenced(img: Seq<u8>, base: u32)
    requires
        free_cell(img) == Ok::<u32, FwError>(base),
    ensures
        base % 4 == 0,
        forall|x: int|
            base <= x < base + NUM_FEATURES - 1 ==> code::SRAM_LO <= x < code::SRAM_HI
                && !#[trigger] referenced(img, x),
{
    let (b, n) = choose|b: int, n: int| widest_gap(img, b, n) && n >= NUM_FEATURES + 2;
    assert(unreferenced(img, b, n));
}

proof fn lemma_base_reach_bound(img: Seq<u8>, p: int, rx: int, n: nat)
    ensures
        0 <= base_reach(img, p, rx, n) <= 128,
    decreases n,
{
    if n > 0 {
        lemma_base_reach_bound(img, p + 2, rx, (n - 1) as nat);
    }
}

/// [`base_reach`] at most `n` steps on.
fn find_base_reach(image: &[u8], p: usize, rx: u16, n: usize) -> (r: u32)
    requires
        raw::addressable(image@),
        p <= image@.len(),
        rx < 8,
    ensures
        r == base_reach(image@, p as int, rx as int, n as nat),
        r <= 128,
{
    let len: usize = image.len();
    let mut q: usize = p;
    let mut k: usize = n;
    let mut most: u32 = 0;
    proof {
        lemma_base_reach_bound(image@, p as int, rx as int, n as nat);
    }
    while k > 0 && q + 2 <= len && raw::halfword(image, q) / 256 != 0x48 + rx
        invariant
            raw::addressable(image@),
            len == image@.len(),
            q <= len,
            rx < 8,
            base_reach(image@, p as int, rx as int, n as nat) == (if most > base_reach(
                image@,
                q as int,
                rx as int,
                k as nat,
            ) {
                most as int
            } else {
                base_reach(image@, q as int, rx as int, k as nat)
            }),
        decreases k,
    {
        let h: u16 = raw::halfword(image, q);
        if h / 8 % 8 == rx {
            let imm: u32 = (h / 64 % 32) as u32;
            let op: u16 = h / 2048;
            let reach: u32 = if op == 12 || op == 13 {
                imm * 4 + 4
            } else if op == 14 || op == 15 {
                imm + 1
            } else if op == 16 || op == 17 {
                imm * 2 + 2
            } else {
                0
            };
            if reach > most {
                most = reach;
            }
        }
        q += 2;
        k -= 1;
    }
    most
}

/// One entry per address of the SRAM window: whether code refers to it.
pub fn referenced_sram(image: &[u8]) -> (used: Vec<bool>)
    requires
        raw::addressable(image@),
    ensures
        used@.len() == code::SRAM_HI - code::SRAM_LO,
        forall|i: int|
            0 <= i < used@.len() ==> #[trigger] used@[i] == referenced(
                image@,
                code::SRAM_LO + i,
            ),
{
    let len: usize = image.len();
    let size: usize = (code::SRAM_HI - code::SRAM_LO) as usize;
    let mut used: Vec<bool> = Vec::new();
    while used.len() < size
        invariant
            size == code::SRAM_HI - code::SRAM_LO,
            used@.len() <= size,
            forall|i: int| 0 <= i < used@.len() ==> !(#[trigger] used@[i]),
        decreases size - used@.len(),
    {
        used.push(false);
    }
    let mut o: usize = 0;
    let ghost mut n: int = 0;
    while o + 2 <= len
        invariant
            raw::addressable(image@),
            len == image@.len(),
            size == code::SRAM_HI - code::SRAM_LO,
            used@.len() == size,
            o == 2 * n,
            0 <= n,
            o <= len,
            forall|i: int|
                0 <= i < used@.len() ==> #[trigger] used@[i] == exists|k: int|
                    0 <= k < n && #[trigger] references(image@, 2 * k, code::SRAM_LO + i),
        decreases len + 2 - o,
    {
        let ghost before = used@;
        match code::sram_literal(image, o) {
            Some(lit) => {
                let rx: u16 = raw::halfword(image, o) / 256 % 8;
                let far: u32 = find_base_reach(image, o + 2, rx, REACH_STEPS);
                let reach: u32 = if far > 4 {
                    far
                } else {
                    4
                };
                assert(reach == load_reach(image@, o as int));
                let first: usize = (lit - code::SRAM_LO) as usize;
                let mut j: usize = 0;
                while j < reach as usize && first + j < size
                    invariant
                        reach <= 128,
                        first < size,
                        size == code::SRAM_HI - code::SRAM_LO,
                        used@.len() == size,
                        before.len() == size,
                        j <= reach,
                        forall|i: int|
                            0 <= i < size ==> #[trigger] used@[i] == (before[i] || first <= i
                                < first + j),
                    decreases reach - j,
                {
                    used[first + j] = true;
                    j += 1;
                }
                assert forall|i: int| 0 <= i < size implies #[trigger] used@[i] == (before[i]
                    || references(image@, 2 * n, code::SRAM_LO + i)) by {}
            },
            None => {
                assert forall|i: int| 0 <= i < size implies #[trigger] used@[i] == (before[i]
                    || references(image@, 2 * n, code::SRAM_LO + i)) by {}
            },
        }
        o += 2;
        proof {
            n = n + 1;
            assert forall|i: int| 0 <= i < size implies #[trigger] used@[i] == exists|k: int|
                0 <= k < n && #[trigger] references(image@, 2 * k, code::SRAM_LO + i) by {
                if before[i] {
                    let k = choose|k: int|
                        0 <= k < n - 1 && #[trigger] references(
                            image@,
                            2 * k,
                            code::SRAM_LO + i,
                        );
                    assert(references(image@, 2 * k, code::SRAM_LO + i));
                } else if used@[i] {
                    assert(references(image@, 2 * (n - 1), code::SRAM_LO + i));
                }
            }
        }
    }
    proof {
        assert forall|i: int| 0 <= i < size implies #[trigger] used@[i] == referenced(
            image@,
            code::SRAM_LO + i,
        ) by {
            if referenced(image@, code::SRAM_LO + i) {
                let k = choose|k: int|
                    0 <= k && #[trigger] references(image@, 2 * k, code::SRAM_LO + i);
                assert(2 * k + 2 <= len);
                assert(k < n);
            }
        }
    }
    used
}

impl Mt1959Engine {
    /// Refuses a flag cell that is not mapped RAM, or that code of this image refers
    /// to; four guard bytes on each side count as part of it.
    pub fn assert_sram_cell_free(
        &self,
        image: &[u8],
        base: u32,
        len: u32,
        cell: SramCell,
    ) -> (r: Result<(), FwError>)
        requires
            raw::addressable(image@),
            base + len + 4 <= u32::MAX,
        ensures
            r == sram_cell_free(image@, base, len, cell),
    {
        let hi: u32 = base + len + 4;
        if base < code::SRAM_LO + 4 || hi > SRAM_END {
            return Err(
                FwError::Refused(Reason::SramUnmapped { cell, base, end: base + len }),
            );
        }
        let used: Vec<bool> = referenced_sram(image);
        let mut a: u32 = base - 4;
        while a < hi
            invariant
                used@.len() == code::SRAM_HI - code::SRAM_LO,
                forall|i: int|
                    0 <= i < used@.len() ==> #[trigger] used@[i] == referenced(
                        image@,
                        code::SRAM_LO + i,
                    ),
                base >= code::SRAM_LO + 4,
                hi == base + len + 4,
                hi <= SRAM_END,
                base - 4 <= a <= hi,
                forall|x: int| base - 4 <= x < a ==> !#[trigger] referenced(image@, x),
            decreases hi - a,
        {
            let ghost i = a - code::SRAM_LO;
            assert(used@[i] == referenced(image@, code::SRAM_LO + i));
            if used[(a - code::SRAM_LO) as usize] {
                proof {
                    assert(referenced(image@, a as int));
                    lemma_first_referenced(image@, base - 4, hi as int, a as int);
                }
                return Err(
                    FwError::Refused(
                        Reason::SramReferenced { cell, base, end: base + len, at: a },
                    ),
                );
            }
            a += 1;
        }
        Ok(())
    }

    /// A flag table's place in this image: the first aligned address of the longest
    /// stretch of SRAM that no code refers to.
    pub fn find_free_sram_cell(&self, image: &[u8]) -> (r: Result<u32, FwError>)
        requires
            raw::addressable(image@),
        ensures
            r == free_cell(image@),
            r matches Ok(b) ==> code::SRAM_LO <= b <= code::SRAM_HI,
    {
        let used: Vec<bool> = referenced_sram(image);
        let size: usize = (code::SRAM_HI - code::SRAM_LO) as usize;
        let mut best_at: usize = 0;
        let mut best: usize = 0;
        let mut at: usize = 0;
        let mut n: usize = 0;
        while at + n < size
            invariant
                size == code::SRAM_HI - code::SRAM_LO,
                used@.len() == size,
                forall|i: int|
                    0 <= i < used@.len() ==> #[trigger] used@[i] == referenced(
                        image@,
                        code::SRAM_LO + i,
                    ),
                at + n <= size,
                best_at + best <= size,
                forall|i: int| at <= i < at + n ==> !(#[trigger] used@[i]),
                at == 0 || used@[at - 1],
                forall|i: int| best_at <= i < best_at + best ==> !(#[trigger] used@[i]),
                forall|b2: int, n2: int| #[trigger]
                    unreferenced(image@, b2, n2) && b2 + n2 <= code::SRAM_LO + at ==> n2 < best || (
                    n2 == best && code::SRAM_LO + best_at <= b2),
                best > 0 ==> best_at + best <= at,
            decreases size - at - n,
        {
            assert(used@[at + n] == referenced(image@, code::SRAM_LO + at + n));
            if used[at + n] {
                let ghost old_at = at as int;
                if n > best {
                    best = n;
                    best_at = at;
                }
                at = at + n + 1;
                proof {
                    assert forall|b2: int, n2: int| #[trigger]
                        unreferenced(image@, b2, n2) && b2 + n2 <= code::SRAM_LO + at implies n2
                        < best || (n2 == best && code::SRAM_LO + best_at <= b2) by {
                        lemma_gap_before(image@, used@, old_at, n as int, b2, n2);
                    }
                }
                n = 0;
            } else {
                n += 1;
            }
        }
        if n > best {
            best = n;
            best_at = at;
        }
        proof {
            assert forall|b2: int, n2: int| #[trigger] unreferenced(image@, b2, n2) implies n2
                < best || (n2 == best && code::SRAM_LO + best_at <= b2) by {
                if b2 + n2 > code::SRAM_LO + at {
                    if b2 < code::SRAM_LO + at {
                        assert(used@[at - 1] == referenced(image@, code::SRAM_LO + at - 1));
                    }
                }
            }
            if best > 0 {
                let b = code::SRAM_LO + best_at;
                assert forall|x: int| b <= x < b + best implies !#[trigger] referenced(
                    image@,
                    x,
                ) by {
                    assert(!used@[x - code::SRAM_LO]);
                }
                assert(unreferenced(image@, b, best as int));
                assert(widest_gap(image@, b, best as int));
            }
            assert forall|b2: int, n2: int| widest_gap(image@, b2, n2) implies best > 0 && b2
                == code::SRAM_LO + best_at && n2 == best by {
                assert(unreferenced(image@, b2, n2));
                if best > 0 {
                    assert(unreferenced(image@, code::SRAM_LO + best_at, best as int));
                }
            }
        }
        if best < NUM_FEATURES as usize + 2 {
            proof {
                if exists|b: int, n: int| widest_gap(image@, b, n) {
                    let (b, n) = choose|b: int, n: int| widest_gap(image@, b, n);
                    let g = (b, n);
                    assert(widest_gap(image@, g.0, g.1));
                    let h = choose|g: (int, int)| widest_gap(image@, g.0, g.1);
                    assert(widest_gap(image@, h.0, h.1));
                }
            }
            return Err(FwError::Refused(Reason::SramGap { bytes: best }));
        }
        Ok((code::SRAM_LO + best_at as u32 + 3) / 4 * 4)
    }
}

/// A gap that ends by the referenced address that closes the stretch `[at, at + n)`
/// lies before that stretch or inside it.
proof fn lemma_gap_before(img: Seq<u8>, used: Seq<bool>, at: int, n: int, b2: int, n2: int)
    requires
        used.len() == code::SRAM_HI - code::SRAM_LO,
        forall|i: int|
            0 <= i < used.len() ==> #[trigger] used[i] == referenced(img, code::SRAM_LO + i),
        0 <= at,
        0 <= n,
        at + n < used.len(),
        used[at + n],
        at == 0 || used[at - 1],
        unreferenced(img, b2, n2),
        b2 + n2 <= code::SRAM_LO + at + n + 1,
    ensures
        b2 + n2 <= code::SRAM_LO + at || (code::SRAM_LO + at <= b2 && n2 <= n),
{
    if b2 + n2 > code::SRAM_LO + at + n {
        assert(referenced(img, code::SRAM_LO + (at + n)));
    } else if b2 + n2 > code::SRAM_LO + at && b2 < code::SRAM_LO + at {
        assert(referenced(img, code::SRAM_LO + (at - 1)));
    }
}

} // verus!
