//! Reading Thumb code out of an image: literal loads, calls, prologues.
use crate::error::FwError;
use crate::raw;
use crate::thumb;
use vstd::prelude::*;

verus! {

/// First SRAM address.
pub const SRAM_LO: u32 = 0x0200_0000;

/// End of the SRAM window that code addresses through literals.
pub const SRAM_HI: u32 = 0x0200_2000;

/// `v` is an SRAM address.
pub open spec fn in_sram(v: u32) -> bool {
    SRAM_LO <= v < SRAM_HI
}

/// `h` is `ldr rT,[pc,#imm]` for some register.
pub open spec fn is_literal_load(h: u16) -> bool {
    h / 2048 == 9
}

/// `h` is `ldr rT,[pc,#imm]` for register `rt`.
pub open spec fn loads_literal_into(h: u16, rt: int) -> bool {
    h / 256 == 0x48 + rt
}

/// `h` is `movs rT,#imm` for register `rt`.
pub open spec fn moves_imm_into(h: u16, rt: int) -> bool {
    h / 256 == 0x20 + rt
}

/// `h` pushes a register list that holds the link register.
pub open spec fn pushes_lr(h: u16) -> bool {
    h / 256 == 0xB5
}

/// Where the literal of a load `h` at `at` is pooled.
pub open spec fn pool_at(at: int, h: u16) -> int {
    (at + 4) / 4 * 4 + 4 * (h % 256)
}

/// The literal that the load at `at` reads, if a load whose pool is in the image is there.
pub open spec fn literal_at(img: Seq<u8>, at: int) -> Option<u32> {
    if 0 <= at && at + 2 <= img.len() && is_literal_load(raw::hw_at(img, at)) && pool_at(
        at,
        raw::hw_at(img, at),
    ) + 4 <= img.len() {
        Some(raw::u32_at(img, pool_at(at, raw::hw_at(img, at))))
    } else {
        None
    }
}

/// The literal that the load at `at` reads, when it is an SRAM address.
pub open spec fn sram_literal_at(img: Seq<u8>, at: int) -> Option<u32> {
    match literal_at(img, at) {
        Some(v) => if in_sram(v) {
            Some(v)
        } else {
            None
        },
        None => None,
    }
}

/// The nearest prologue that pushes the link register among the `n` halfwords from
/// `p` downwards.
pub open spec fn prologue_before(img: Seq<u8>, p: int, n: nat) -> Option<usize>
    decreases n,
{
    if n == 0 || p < 2 {
        None
    } else if pushes_lr(raw::hw_at(img, p)) {
        Some(p as usize)
    } else {
        prologue_before(img, p - 2, (n - 1) as nat)
    }
}

/// Where the `BL` at `at` goes, the Thumb bit cleared.
pub open spec fn call_target(img: Seq<u8>, at: int) -> Option<u32> {
    match thumb::branch_target(thumb::BranchShape::Bl, img, at) {
        Some(t) => Some((t / 2 * 2) as u32),
        None => None,
    }
}

/// The value that all of `seen` agree on; `none` when there is no value, `differ` when
/// two differ.
pub open spec fn agreed(seen: Seq<u32>, none: FwError, differ: FwError) -> Result<u32, FwError> {
    if seen.len() == 0 {
        Err(none)
    } else if forall|i: int| 0 <= i < seen.len() ==> #[trigger] seen[i] == seen[0] {
        Ok(seen[0])
    } else {
        Err(differ)
    }
}

/// Where the conditional branch `h` at `at` goes.
pub open spec fn cond_target(at: int, h: u16) -> int {
    let imm = h % 256;
    at + 4 + 2 * if imm >= 128 {
        imm - 256
    } else {
        imm as int
    }
}

/// Where the unconditional branch `h` at `at` goes.
pub open spec fn jump_target(at: int, h: u16) -> int {
    let imm = h % 2048;
    at + 4 + 2 * if imm >= 1024 {
        imm - 2048
    } else {
        imm as int
    }
}

/// `t` as a 32-bit address, modulo 2^32.
pub open spec fn address(t: int) -> u32 {
    if t < 0 {
        (t + 0x1_0000_0000) as u32
    } else {
        t as u32
    }
}

/// The value that all of `seen` agree on.
pub fn agree(seen: &Vec<u32>, none: FwError, differ: FwError) -> (r: Result<u32, FwError>)
    ensures
        r == agreed(seen@, none, differ),
{
    if seen.len() == 0 {
        return Err(none);
    }
    let first: u32 = seen[0];
    let mut k: usize = 0;
    while k < seen.len()
        invariant
            seen@.len() > 0,
            first == seen@[0],
            k <= seen@.len(),
            forall|i: int| 0 <= i < k ==> #[trigger] seen@[i] == first,
        decreases seen@.len() - k,
    {
        if seen[k] != first {
            return Err(differ);
        }
        k += 1;
    }
    Ok(first)
}

/// Address that the conditional branch `h` at `at` goes to.
pub fn cond_branch(at: usize, h: u16) -> (r: u32)
    requires
        at <= raw::IMAGE_LIMIT,
    ensures
        r == address(cond_target(at as int, h)),
{
    let imm: u32 = (h % 256) as u32;
    let base: u32 = at as u32 + 4;
    if imm >= 128 {
        let back: u32 = 2 * (256 - imm);
        if base >= back {
            base - back
        } else {
            u32::MAX - (back - base) + 1
        }
    } else {
        base + 2 * imm
    }
}

/// Address that the unconditional branch `h` at `at` goes to.
pub fn jump(at: usize, h: u16) -> (r: u32)
    requires
        at <= raw::IMAGE_LIMIT,
    ensures
        r == address(jump_target(at as int, h)),
{
    let imm: u32 = (h % 2048) as u32;
    let base: u32 = at as u32 + 4;
    if imm >= 1024 {
        let back: u32 = 2 * (2048 - imm);
        if base >= back {
            base - back
        } else {
            u32::MAX - (back - base) + 1
        }
    } else {
        base + 2 * imm
    }
}

/// Whether `v` is an SRAM address.
pub fn is_sram(v: u32) -> (r: bool)
    ensures
        r == in_sram(v),
{
    SRAM_LO <= v && v < SRAM_HI
}

/// The literal that an `ldr rX,[pc,#imm]` at `at` loads; `None` if the halfword
/// there is not such a load, or its pool lies past the end.
pub fn pc_literal(image: &[u8], at: usize) -> (r: Option<u32>)
    requires
        raw::addressable(image@),
    ensures
        r == literal_at(image@, at as int),
{
    let len: usize = image.len();
    if len < 2 || at > len - 2 {
        return None;
    }
    let h: u16 = raw::halfword(image, at);
    if h / 2048 != 9 {
        return None;
    }
    let pool: usize = (at + 4) / 4 * 4 + 4 * ((h % 256) as usize);
    if pool + 4 > len {
        return None;
    }
    Some(thumb_asm::read_u32(image, pool))
}

/// The SRAM literal that an `ldr rX,[pc,#imm]` at `at` loads.
pub fn sram_literal(image: &[u8], at: usize) -> (r: Option<u32>)
    requires
        raw::addressable(image@),
    ensures
        r == sram_literal_at(image@, at as int),
{
    match pc_literal(image, at) {
        Some(v) => if is_sram(v) {
            Some(v)
        } else {
            None
        },
        None => None,
    }
}

/// The nearest `push {..,lr}` among the `n` halfwords from `p` downwards.
pub fn find_prologue_before(image: &[u8], p: usize, n: usize) -> (r: Option<usize>)
    requires
        p + 2 <= image@.len(),
    ensures
        r == prologue_before(image@, p as int, n as nat),
{
    let mut q: usize = p;
    let mut k: usize = n;
    while k > 0 && q >= 2
        invariant
            q + 2 <= image@.len(),
            prologue_before(image@, p as int, n as nat) == prologue_before(
                image@,
                q as int,
                k as nat,
            ),
        decreases k,
    {
        if raw::halfword(image, q) / 256 == 0xB5 {
            return Some(q);
        }
        q -= 2;
        k -= 1;
    }
    None
}

/// The two ways of writing a branch displacement agree.
proof fn lemma_displacement(h1: u16, h2: u16)
    ensures
        ({
            let s = ((h1 >> 10) & 1) as u32;
            let i1 = (1 - ((((h2 >> 13) & 1) as u32) ^ s)) as u32;
            let i2 = (1 - ((((h2 >> 11) & 1) as u32) ^ s)) as u32;
            let off = (s << 24) | (i1 << 23) | (i2 << 22) | (((h1 & 0x03FF) as u32) << 12) | (((h2
                & 0x07FF) as u32) << 1);
            &&& ((((h2 >> 13) & 1) as u32) ^ s) <= 1
            &&& ((((h2 >> 11) & 1) as u32) ^ s) <= 1
            &&& thumb::hw_disp(h1, h2) == if s == 1 {
                off | 0xFE00_0000
            } else {
                off
            }
        }),
{
    assert(({
        let s = ((h1 >> 10) & 1) as u32;
        let i1 = (1 - ((((h2 >> 13) & 1) as u32) ^ s)) as u32;
        let i2 = (1 - ((((h2 >> 11) & 1) as u32) ^ s)) as u32;
        let off = (s << 24) | (i1 << 23) | (i2 << 22) | (((h1 & 0x03FF) as u32) << 12) | (((h2
            & 0x07FF) as u32) << 1);
        &&& ((((h2 >> 13) & 1) as u32) ^ s) <= 1
        &&& ((((h2 >> 11) & 1) as u32) ^ s) <= 1
        &&& thumb::hw_disp(h1, h2) == if s == 1 {
            off | 0xFE00_0000
        } else {
            off
        }
    })) by (bit_vector);
}

/// Decodes a `BL` at `at` to its target with the Thumb bit cleared; `None` if the
/// two halfwords there are not a `BL`.
pub fn decode_bl_target(image: &[u8], at: usize) -> (r: Option<u32>)
    requires
        raw::addressable(image@),
    ensures
        r == call_target(image@, at as int),
{
    let len: usize = image.len();
    if len < 4 || at > len - 4 {
        return None;
    }
    let h1: u16 = raw::halfword(image, at);
    let h2: u16 = raw::halfword(image, at + 2);
    if h1 & 0xF800 != 0xF000 || h2 & 0xD000 != 0xD000 {
        return None;
    }
    proof {
        lemma_displacement(h1, h2);
    }
    let s: u32 = ((h1 >> 10) & 1) as u32;
    let i1: u32 = 1 - ((((h2 >> 13) & 1) as u32) ^ s);
    let i2: u32 = 1 - ((((h2 >> 11) & 1) as u32) ^ s);
    let mut off: u32 = (s << 24) | (i1 << 23) | (i2 << 22) | (((h1 & 0x03FF) as u32) << 12) | (((h2
        & 0x07FF) as u32) << 1);
    if s == 1 {
        off = off | 0xFE00_0000;
    }
    let base: u32 = at as u32 + 4;
    let t: u32 = base.wrapping_add(off);
    proof {
        assert(t == (base + off) as u32) by {
            assert(base + off < 0x1_0000_0000 ==> (base + off) as u32 == base + off);
            assert(base + off >= 0x1_0000_0000 ==> (base + off) as u32 == base + off
                - 0x1_0000_0000) by (bit_vector);
        }
    }
    Some(t / 2 * 2)
}

} // verus!
