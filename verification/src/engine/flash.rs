//! Flash programming: the PROGRAM routine, the pointer to its staging window, and
//! the block that saved settings live in.
use crate::engine::code;
use crate::engine::mt1959::Mt1959Engine;
use crate::engine::scanner;
use crate::engine::signatures::FLASH_PROGRAM_SIG;
use crate::error::{Anchor, FwError};
use crate::raw;
use crate::sig;
use crate::thumb;
use vstd::prelude::*;

verus! {

/// How far behind its entry the PROGRAM routine's constants lie.
pub const FLASH_POOL_SPAN: usize = 0x400;

/// Mailbox constant that the PROGRAM routine holds.
pub const FLASH_MAILBOX: u32 = 0x0200_1200;

/// Controller constant that the PROGRAM routine holds.
pub const FLASH_CONTROLLER: u32 = 0x0400_2240;

/// Offset of the region record in its 4 KiB block.
pub const REGION_RECORD_OFF: usize = 0x4B0;

/// One of the words at `from`, `from + 2`, and so on below `end` lies in `[lo, hi)`.
pub open spec fn has_word_in(img: Seq<u8>, from: int, end: int, lo: u32, hi: u32) -> bool {
    exists|k: int|
        0 <= k && from + 2 * k < end && lo <= #[trigger] raw::u32_at(img, from + 2 * k) < hi
}

/// The candidate holds the mailbox, the controller and a descriptor pointer.
pub open spec fn programs_flash(img: Seq<u8>, cand: int) -> bool {
    let end = scanner::least(cand + FLASH_POOL_SPAN, scanner::short_of(img, 4));
    &&& has_word_in(img, cand, end, FLASH_MAILBOX, (FLASH_MAILBOX + 1) as u32)
    &&& has_word_in(img, cand, end, FLASH_CONTROLLER, (FLASH_CONTROLLER + 1) as u32)
    &&& has_word_in(img, cand, end, 0x01ff_0000, 0x0200_0000)
}

/// The first `n` candidates that program flash.
pub open spec fn flash_programs(img: Seq<u8>, cands: Seq<usize>, n: nat) -> Seq<usize>
    decreases n,
{
    if n == 0 {
        Seq::empty()
    } else {
        let before = flash_programs(img, cands, (n - 1) as nat);
        if programs_flash(img, cands[n - 1] as int) {
            before.push(cands[n - 1])
        } else {
            before
        }
    }
}

/// Entry of the PROGRAM routine.
pub open spec fn flash_program(img: Seq<u8>) -> Result<u32, FwError> {
    let cands = sig::find_all(img, FLASH_PROGRAM_SIG@, 0, img.len() as int);
    match sig::only(
        flash_programs(img, cands, cands.len()),
        Anchor::FlashProgram,
        0,
        img.len() as int,
    ) {
        Ok(at) => Ok(at as u32),
        Err(e) => Err(e),
    }
}

/// `seen` and then every further call target in `[off, end)` that lies in the image,
/// each once, in order.
pub open spec fn helper_targets(img: Seq<u8>, off: int, end: int, seen: Seq<usize>) -> Seq<usize>
    decreases end - off,
{
    if off + 4 > end {
        seen
    } else {
        match thumb::branch_target(thumb::BranchShape::Bl, img, off) {
            Some(t) => if t < img.len() && !seen.contains(t as usize) {
                helper_targets(img, off + 2, end, seen.push(t as usize))
            } else {
                helper_targets(img, off + 2, end, seen)
            },
            None => helper_targets(img, off + 2, end, seen),
        }
    }
}

/// What the first literal load from `p` on reads, when that is a 4-aligned SRAM
/// address.
pub open spec fn first_cell(img: Seq<u8>, p: int, end: int) -> Option<u32>
    decreases end - p,
{
    if p + 2 > end {
        None
    } else if code::is_literal_load(raw::hw_at(img, p)) {
        match code::sram_literal_at(img, p) {
            Some(v) => if v % 4 == 0 {
                Some(v)
            } else {
                None
            },
            None => None,
        }
    } else {
        first_cell(img, p + 2, end)
    }
}

/// The cells that the first `n` helpers load first.
pub open spec fn helper_cells(img: Seq<u8>, targets: Seq<usize>, n: nat) -> Seq<u32>
    decreases n,
{
    if n == 0 {
        Seq::empty()
    } else {
        let before = helper_cells(img, targets, (n - 1) as nat);
        let t = targets[n - 1] as int;
        match first_cell(img, t / 2 * 2, scanner::least(t + 0x40, scanner::short_of(img, 2))) {
            Some(v) => before.push(v),
            None => before,
        }
    }
}

/// How often `v` is among the first `n` cells.
pub open spec fn times_among(cells: Seq<u32>, v: u32, n: nat) -> nat
    decreases n,
{
    if n == 0 {
        0
    } else {
        times_among(cells, v, (n - 1) as nat) + if cells[n - 1] == v {
            1nat
        } else {
            0nat
        }
    }
}

/// The values that are among the first `n` cells more than once, each once: a value
/// is taken where it comes the second time.
pub open spec fn repeated(cells: Seq<u32>, n: nat) -> Seq<u32>
    decreases n,
{
    if n == 0 {
        Seq::empty()
    } else {
        let before = repeated(cells, (n - 1) as nat);
        if times_among(cells, cells[n - 1], (n - 1) as nat) == 1 {
            before.push(cells[n - 1])
        } else {
            before
        }
    }
}

/// The cell that at least two of the PROGRAM routine's helpers load first.
pub open spec fn nv_dram_base(img: Seq<u8>) -> Result<u32, FwError> {
    match flash_program(img) {
        Err(e) => Err(e),
        Ok(program) => {
            let targets = helper_targets(
                img,
                program as int,
                scanner::least(program + 0x260, scanner::short_of(img, 4)),
                Seq::empty(),
            );
            let cells = helper_cells(img, targets, targets.len());
            let twice = repeated(cells, cells.len());
            if twice.len() == 1 {
                Ok(twice[0])
            } else {
                Err(
                    FwError::Matches {
                        what: Anchor::NvDramBase,
                        count: twice.len() as usize,
                        lo: 0,
                        hi: img.len() as usize,
                    },
                )
            }
        },
    }
}

/// The region record `00 04 05` is at `p`: at its place in a 4 KiB block, with fill
/// behind it and the head of the block blank.
pub open spec fn region_record_at(img: Seq<u8>, p: int) -> bool {
    &&& p % 0x1000 == REGION_RECORD_OFF
    &&& img[p] == 0x00
    &&& img[p + 1] == 0x04
    &&& img[p + 2] == 0x05
    &&& raw::erased(img, p + 3, p + 16)
    &&& raw::erased(img, p - REGION_RECORD_OFF, p)
}

/// The region records of `[lo, hi)`.
pub open spec fn region_records(img: Seq<u8>, lo: int, hi: int) -> Seq<usize>
    decreases hi - lo,
{
    if lo >= hi {
        Seq::empty()
    } else {
        let before = region_records(img, lo, hi - 1);
        if region_record_at(img, hi - 1) {
            before.push((hi - 1) as usize)
        } else {
            before
        }
    }
}

/// Start of the block that holds the one region record in the top 192 KiB.
pub open spec fn nv_block(img: Seq<u8>) -> Result<u32, FwError> {
    match sig::only(
        region_records(img, scanner::short_of(img, 0x3_0000), scanner::short_of(img, 16)),
        Anchor::NvBlock,
        scanner::short_of(img, 0x3_0000),
        scanner::short_of(img, 16),
    ) {
        Ok(rec) => Ok((rec / 0x1000 * 0x1000) as u32),
        Err(e) => Err(e),
    }
}

/// A value that comes more than once is repeated, and only such a value is.
pub proof fn law_repeated_are_the_values_loaded_twice(cells: Seq<u32>, n: nat, v: u32)
    requires
        n <= cells.len(),
    ensures
        repeated(cells, n).contains(v) <==> times_among(cells, v, n) >= 2,
        repeated(cells, n).len() <= n,
    decreases n,
{
    if n > 0 {
        law_repeated_are_the_values_loaded_twice(cells, (n - 1) as nat, v);
        let before = repeated(cells, (n - 1) as nat);
        let all = repeated(cells, n);
        if before.contains(v) {
            let i = choose|i: int| 0 <= i < before.len() && before[i] == v;
            assert(all[i] == v);
        }
        if all.contains(v) {
            let i = choose|i: int| 0 <= i < all.len() && all[i] == v;
            if i < before.len() {
                assert(before[i] == v);
            }
        }
        if cells[n - 1] == v && times_among(cells, v, (n - 1) as nat) == 1 {
            assert(all[all.len() - 1] == v);
        }
    }
}

fn holds_word_in(image: &[u8], from: usize, end: usize, lo: u32, hi: u32) -> (r: bool)
    requires
        raw::addressable(image@),
        from <= image@.len(),
        end + 4 <= image@.len() || end == 0,
    ensures
        r == has_word_in(image@, from as int, end as int, lo, hi),
{
    let len: usize = image.len();
    let mut k: usize = 0;
    while from + 2 * k < end
        invariant
            raw::addressable(image@),
            len == image@.len(),
            end + 4 <= len || end == 0,
            from + 2 * k <= len + 2,
            forall|j: int|
                0 <= j < k ==> !(lo <= #[trigger] raw::u32_at(image@, from + 2 * j) < hi),
        decreases len + 4 - 2 * k,
    {
        let w: u32 = thumb_asm::read_u32(image, from + 2 * k);
        if lo <= w && w < hi {
            assert(lo <= raw::u32_at(image@, from + 2 * (k as int)) < hi);
            return true;
        }
        k += 1;
    }
    false
}

/// Whether the candidate's constants are those of the PROGRAM routine.
fn is_flash_program(image: &[u8], cand: usize) -> (r: bool)
    requires
        raw::addressable(image@),
        cand <= image@.len(),
    ensures
        r == programs_flash(image@, cand as int),
{
    let len: usize = image.len();
    let room: usize = if len >= 4 {
        len - 4
    } else {
        0
    };
    let end: usize = if cand + FLASH_POOL_SPAN < room {
        cand + FLASH_POOL_SPAN
    } else {
        room
    };
    holds_word_in(image, cand, end, FLASH_MAILBOX, FLASH_MAILBOX + 1) && holds_word_in(
        image,
        cand,
        end,
        FLASH_CONTROLLER,
        FLASH_CONTROLLER + 1,
    ) && holds_word_in(image, cand, end, 0x01ff_0000, 0x0200_0000)
}

fn find_first_cell(image: &[u8], p: usize, end: usize) -> (r: Option<u32>)
    requires
        raw::addressable(image@),
        p <= image@.len(),
        end <= image@.len(),
    ensures
        r == first_cell(image@, p as int, end as int),
        r matches Some(v) ==> code::in_sram(v),
{
    let len: usize = image.len();
    let mut q: usize = p;
    while q + 2 <= end
        invariant
            raw::addressable(image@),
            len == image@.len(),
            q <= len,
            end <= len,
            first_cell(image@, p as int, end as int) == first_cell(image@, q as int, end as int),
        decreases end + 2 - q,
    {
        if raw::halfword(image, q) / 2048 == 9 {
            return match code::sram_literal(image, q) {
                Some(v) => if v % 4 == 0 {
                    Some(v)
                } else {
                    None
                },
                None => None,
            };
        }
        q += 2;
    }
    None
}

fn count_among(cells: &Vec<u32>, v: u32, n: usize) -> (c: usize)
    requires
        n <= cells@.len(),
    ensures
        c == times_among(cells@, v, n as nat),
{
    let mut c: usize = 0;
    let mut k: usize = 0;
    while k < n
        invariant
            n <= cells@.len(),
            k <= n,
            c <= k,
            c == times_among(cells@, v, k as nat),
        decreases n - k,
    {
        if cells[k] == v {
            c += 1;
        }
        k += 1;
    }
    c
}

fn list_holds(list: &Vec<usize>, t: usize) -> (r: bool)
    ensures
        r == list@.contains(t),
{
    let mut k: usize = 0;
    while k < list.len()
        invariant
            k <= list@.len(),
            forall|j: int| 0 <= j < k ==> list@[j] != t,
        decreases list@.len() - k,
    {
        if list[k] == t {
            return true;
        }
        k += 1;
    }
    false
}

fn is_erased(image: &[u8], lo: usize, hi: usize) -> (r: bool)
    requires
        hi <= image@.len(),
    ensures
        r == raw::erased(image@, lo as int, hi as int),
{
    let mut i: usize = lo;
    while i < hi
        invariant
            hi <= image@.len(),
            lo <= i,
            raw::erased(image@, lo as int, i as int),
        decreases hi - i,
    {
        if image[i] != 0xFF {
            return false;
        }
        i += 1;
    }
    true
}

impl Mt1959Engine {
    /// The flash PROGRAM routine `program(r0=src, r1=dest, r2=len, r3=op)`: of the
    /// routines with its prologue, the one whose constants hold the mailbox, the
    /// controller and a descriptor pointer.
    pub fn find_flash_program(&self, image: &[u8]) -> (r: Result<u32, FwError>)
        requires
            raw::addressable(image@),
        ensures
            r == flash_program(image@),
            r matches Ok(p) ==> p <= image@.len(),
    {
        let len: usize = image.len();
        let cands: Vec<usize> = sig::find_masked_all(image, &FLASH_PROGRAM_SIG, 0, len);
        let mut hits: Vec<usize> = Vec::new();
        let mut n: usize = 0;
        while n < cands.len()
            invariant
                raw::addressable(image@),
                len == image@.len(),
                forall|i: int| 0 <= i < cands@.len() ==> cands@[i] < len,
                n <= cands@.len(),
                hits@ == flash_programs(image@, cands@, n as nat),
                forall|i: int| 0 <= i < hits@.len() ==> hits@[i] < len,
            decreases cands@.len() - n,
        {
            if is_flash_program(image, cands[n]) {
                hits.push(cands[n]);
            }
            n += 1;
        }
        if hits.len() == 1 {
            Ok(hits[0] as u32)
        } else {
            Err(
                FwError::Matches {
                    what: Anchor::FlashProgram,
                    count: hits.len(),
                    lo: 0,
                    hi: image.len(),
                },
            )
        }
    }

    /// The SRAM cell that points at the flash controller's staging window: what at
    /// least two of the PROGRAM routine's helpers load first.
    pub fn find_nv_dram_base(&self, image: &[u8]) -> (r: Result<u32, FwError>)
        requires
            raw::addressable(image@),
        ensures
            r == nv_dram_base(image@),
            r matches Ok(v) ==> code::in_sram(v),
    {
        let len: usize = image.len();
        let program: usize = match self.find_flash_program(image) {
            Ok(p) => p as usize,
            Err(e) => return Err(e),
        };
        let room: usize = if len >= 4 {
            len - 4
        } else {
            0
        };
        let end: usize = if program + 0x260 < room {
            program + 0x260
        } else {
            room
        };
        let mut targets: Vec<usize> = Vec::new();
        let mut off: usize = program;
        while off + 4 <= end
            invariant
                raw::addressable(image@),
                len == image@.len(),
                end <= len,
                off <= len,
                forall|i: int| 0 <= i < targets@.len() ==> targets@[i] < len,
                helper_targets(image@, program as int, end as int, Seq::empty()) == helper_targets(
                    image@,
                    off as int,
                    end as int,
                    targets@,
                ),
            decreases end + 4 - off,
        {
            match thumb_asm::decode_bl(image, off) {
                Some(t) => {
                    if (t as usize) < len && !list_holds(&targets, t as usize) {
                        targets.push(t as usize);
                    }
                },
                None => {},
            }
            off += 2;
        }
        let mut cells: Vec<u32> = Vec::new();
        let mut n: usize = 0;
        while n < targets.len()
            invariant
                raw::addressable(image@),
                len == image@.len(),
                n <= targets@.len(),
                forall|i: int| 0 <= i < targets@.len() ==> targets@[i] < len,
                cells@ == helper_cells(image@, targets@, n as nat),
                forall|i: int| 0 <= i < cells@.len() ==> code::in_sram(#[trigger] cells@[i]),
            decreases targets@.len() - n,
        {
            let t: usize = targets[n];
            let tail: usize = if len >= 2 {
                len - 2
            } else {
                0
            };
            let stop: usize = if t + 0x40 < tail {
                t + 0x40
            } else {
                tail
            };
            match find_first_cell(image, t / 2 * 2, stop) {
                Some(v) => {
                    cells.push(v);
                },
                None => {},
            }
            n += 1;
        }
        let mut twice: Vec<u32> = Vec::new();
        let mut m: usize = 0;
        while m < cells.len()
            invariant
                m <= cells@.len(),
                twice@ == repeated(cells@, m as nat),
                forall|i: int| 0 <= i < cells@.len() ==> code::in_sram(#[trigger] cells@[i]),
                forall|i: int| 0 <= i < twice@.len() ==> code::in_sram(#[trigger] twice@[i]),
            decreases cells@.len() - m,
        {
            if count_among(&cells, cells[m], m) == 1 {
                twice.push(cells[m]);
            }
            m += 1;
        }
        if twice.len() == 1 {
            Ok(twice[0])
        } else {
            Err(
                FwError::Matches {
                    what: Anchor::NvDramBase,
                    count: twice.len(),
                    lo: 0,
                    hi: image.len(),
                },
            )
        }
    }

    /// The block that saved settings live in: the 4 KiB block of the one region
    /// record `00 04 05` in the top of flash.
    pub fn find_nv_block(&self, image: &[u8]) -> (r: Result<u32, FwError>)
        requires
            raw::addressable(image@),
        ensures
            r == nv_block(image@),
    {
        let len: usize = image.len();
        let lo: usize = if len >= 0x3_0000 {
            len - 0x3_0000
        } else {
            0
        };
        let hi: usize = if len >= 16 {
            len - 16
        } else {
            0
        };
        let mut hits: Vec<usize> = Vec::new();
        let mut p: usize = lo;
        while p < hi
            invariant
                raw::addressable(image@),
                len == image@.len(),
                hi == scanner::short_of(image@, 16),
                lo <= p,
                p <= hi || p == lo,
                hits@ == region_records(image@, lo as int, p as int),
                forall|i: int| 0 <= i < hits@.len() ==> hits@[i] < len,
            decreases hi - p,
        {
            if p % 0x1000 == REGION_RECORD_OFF && image[p] == 0x00 && image[p + 1] == 0x04 && image[p
                + 2] == 0x05 && is_erased(image, p + 3, p + 16) && is_erased(
                image,
                p - REGION_RECORD_OFF,
                p,
            ) {
                hits.push(p);
            }
            p += 1;
        }
        proof {
            if hi <= lo {
                assert(region_records(image@, lo as int, hi as int) =~= Seq::empty());
                assert(region_records(image@, lo as int, p as int) =~= Seq::empty());
            }
        }
        if hits.len() == 1 {
            Ok((hits[0] / 0x1000 * 0x1000) as u32)
        } else {
            Err(FwError::Matches { what: Anchor::NvBlock, count: hits.len(), lo, hi })
        }
    }
}

} // verus!
