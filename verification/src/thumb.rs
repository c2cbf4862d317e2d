//! Thumb branches and raw image access, through the `thumb_asm` toolkit.
use crate::raw;
use vstd::prelude::*;

verus! {

/// The two four-byte branches a detour can be installed as.
#[derive(Debug, Clone, Copy, PartialEq, Eq, Structural)]
pub enum BranchShape {
    /// `BL`: writes the link register.
    Bl,
    /// `B.W`: leaves the link register alone, as a tail call needs.
    BWide,
}

/// The bits of the second halfword that tell the two branches apart.
pub open spec fn shape_bits(shape: BranchShape) -> u16 {
    match shape {
        BranchShape::Bl => 0xD000,
        BranchShape::BWide => 0x9000,
    }
}

/// Displacement of a branch at `site` to `target`, modulo 2^32.
pub open spec fn branch_disp(site: u32, target: u32) -> u32 {
    (target - (site + 4)) as u32
}

/// The displacement is even and within 16 MiB either way.
pub open spec fn disp_ok(d: u32) -> bool {
    d & 1 == 0 && (d < 0x0100_0000 || d >= 0xFF00_0000)
}

/// First halfword of a branch with displacement `d`.
pub open spec fn branch_hw1(d: u32) -> u16 {
    (0xF000u32 | (((d >> 24) & 1) << 10) | ((d >> 12) & 0x3FF)) as u16
}

/// Second halfword of a branch with displacement `d`; `base` picks the kind.
pub open spec fn branch_hw2(d: u32, base: u16) -> u16 {
    ((base as u32)
        | (((((d >> 23) & 1) ^ ((d >> 24) & 1)) ^ 1) << 13)
        | (((((d >> 22) & 1) ^ ((d >> 24) & 1)) ^ 1) << 11)
        | ((d >> 1) & 0x7FF)) as u16
}

/// The displacement two branch halfwords encode, sign-extended.
pub open spec fn hw_disp(h1: u16, h2: u16) -> u32 {
    let s = ((h1 >> 10) & 1) as u32;
    let i1 = ((((h2 >> 13) & 1) as u32) ^ s) ^ 1;
    let i2 = ((((h2 >> 11) & 1) as u32) ^ s) ^ 1;
    let imm = (s << 24) | (i1 << 23) | (i2 << 22) | (((h1 & 0x3FF) as u32) << 12)
        | (((h2 & 0x7FF) as u32) << 1);
    if s == 1 {
        imm | 0xFE00_0000
    } else {
        imm
    }
}

/// The four bytes of a `shape` branch at `site` to `target`.
pub open spec fn branch_bytes(shape: BranchShape, site: u32, target: u32) -> Seq<u8> {
    let d = branch_disp(site, target);
    let h1 = branch_hw1(d);
    let h2 = branch_hw2(d, shape_bits(shape));
    seq![(h1 % 256) as u8, (h1 / 256) as u8, (h2 % 256) as u8, (h2 / 256) as u8]
}

/// Where the `shape` branch at `off` goes, if one is there.
pub open spec fn branch_target(shape: BranchShape, img: Seq<u8>, off: int) -> Option<u32> {
    if off + 4 <= img.len() && raw::hw_at(img, off) & 0xF800 == 0xF000 && raw::hw_at(img, off + 2) & 0xD000
        == shape_bits(shape) {
        Some((off as u32 + 4 + hw_disp(raw::hw_at(img, off), raw::hw_at(img, off + 2))) as u32)
    } else {
        None
    }
}

/// `thumb_asm::read_u32` reads the little-endian word at `at`; the four bytes
/// must be inside the slice.
pub assume_specification[ thumb_asm::read_u32 ](image: &[u8], at: usize) -> (r: u32)
    requires
        at + 4 <= image@.len(),
    ensures
        r == raw::u32_at(image@, at as int),
;

/// `thumb_asm::write` copies `bytes` over the image from `at` on; the range must
/// be inside the slice.
pub assume_specification[ thumb_asm::write ](image: &mut [u8], at: usize, bytes: &[u8])
    requires
        at + bytes@.len() <= old(image)@.len(),
    ensures
        final(image)@ == raw::patched(old(image)@, at as int, bytes@),
;

/// `thumb_asm::decode_bl` answers the target of the `BL` at `off`, or `None` when
/// the four bytes there are not one or run past the end.
pub assume_specification[ thumb_asm::decode_bl ](image: &[u8], off: usize) -> (r: Option<u32>)
    ensures
        r == branch_target(BranchShape::Bl, image@, off as int),
;

/// `thumb_asm::encode_bl` encodes a `BL` from `site` to `target`, or answers
/// `None` when the displacement is odd or beyond 16 MiB.
pub assume_specification[ thumb_asm::encode_bl ](site: usize, target: u32) -> (r: Option<[u8; 4]>)
    ensures
        r is Some <==> disp_ok(branch_disp(site as u32, target)),
        r matches Some(b) ==> b@ == branch_bytes(BranchShape::Bl, site as u32, target),
;

/// One of the `window` halfwords from `off` on pushes the link register.
pub open spec fn starts_with_prologue(img: Seq<u8>, off: int, window: int) -> bool {
    exists|k: int|
        0 <= k < window && off + 2 * k + 2 <= img.len() && #[trigger] raw::hw_at(img, off + 2 * k)
            / 256 == 0xB5
}

/// `thumb_asm::prologue_is_push_lr` looks for a `push {..,lr}` among the first
/// `window` halfwords from `off` on.
pub assume_specification[ thumb_asm::prologue_is_push_lr ](
    image: &[u8],
    off: usize,
    window: usize,
) -> (r: bool)
    requires
        off + 2 * window + 2 <= usize::MAX,
    ensures
        r == starts_with_prologue(image@, off as int, window as int),
;

/// `thumb_asm::find` with a word needle answers the first offset from `start` on at
/// which the word's four little-endian bytes are.
#[verifier::external_body]
pub(crate) fn find_word(image: &[u8], word: u32, start: usize) -> (r: Option<usize>)
    ensures
        r is None <==> forall|at: int|
            start <= at ==> !#[trigger] raw::occurs_at(image@, raw::le_bytes(word), at),
        r matches Some(at) ==> start <= at && raw::occurs_at(
            image@,
            raw::le_bytes(word),
            at as int,
        ) && forall|b: int|
            start <= b < at ==> !#[trigger] raw::occurs_at(image@, raw::le_bytes(word), b),
{
    thumb_asm::find(image, thumb_asm::Needle::Word(word), start)
}

/// `thumb_asm::verify_branch` decodes the branch of that kind at `site` and compares
/// its target with `expected`, the Thumb bit aside.
#[verifier::external_body]
pub(crate) fn verify_branch(image: &[u8], site: usize, shape: BranchShape, expected: u32) -> (r:
    bool)
    ensures
        r == (branch_target(shape, image@, site as int) matches Some(t) && t / 2 == expected / 2),
{
    let kind = match shape {
        BranchShape::Bl => thumb_asm::BranchKind::Bl,
        BranchShape::BWide => thumb_asm::BranchKind::BWide,
    };
    thumb_asm::verify_branch(image, site, kind, expected).is_ok()
}

/// `thumb_asm::install_branch` writes a branch of that kind at `site`, the Thumb bit
/// of `target` cleared. It writes nothing and fails when the four bytes are not in
/// the image or the displacement is out of range.
#[verifier::external_body]
pub(crate) fn install_branch(image: &mut [u8], site: usize, shape: BranchShape, target: u32) -> (r:
    bool)
    ensures
        r == (site + 4 <= old(image)@.len() && disp_ok(
            branch_disp(site as u32, (target / 2 * 2) as u32),
        )),
        final(image)@ == if r {
            raw::patched(
                old(image)@,
                site as int,
                branch_bytes(shape, site as u32, (target / 2 * 2) as u32),
            )
        } else {
            old(image)@
        },
{
    let kind = match shape {
        BranchShape::Bl => thumb_asm::BranchKind::Bl,
        BranchShape::BWide => thumb_asm::BranchKind::BWide,
    };
    thumb_asm::install_branch(image, site, kind, target).is_ok()
}

/// The shape of a dispatch table, as `thumb_asm::CommandTable` has it.
#[derive(Debug, Clone, Copy, PartialEq, Eq, Structural)]
pub struct TableShape {
    /// Where the table starts.
    pub base: usize,
    /// Bytes per record.
    pub stride: usize,
    /// Offset of the opcode in a record.
    pub opcode_off: usize,
    /// Offset of the flags in a record.
    pub flags_off: usize,
    /// Offset of the handler pointer in a record.
    pub handler_off: usize,
    /// Flags of the record that ends a table.
    pub term_flag: u8,
    /// Records to look at.
    pub max_records: usize,
}

/// One dispatch record: `opcode@0`, `flags@1`, `handler@4`.
#[derive(Debug, Clone, Copy, PartialEq, Eq, Structural)]
pub struct CommandRecord {
    /// Where the record is.
    pub off: usize,
    /// Operation code it serves.
    pub opcode: u8,
    /// Its flags.
    pub flags: u8,
    /// Address of its handler, Thumb bit included.
    pub handler: u32,
}

/// `thumb_asm::CommandTable::replace` without flags writes `handler` over the
/// record's handler pointer and nothing else; the pointer must be in the image.
#[verifier::external_body]
pub(crate) fn replace_handler(
    image: &mut [u8],
    shape: &TableShape,
    rec: &CommandRecord,
    handler: u32,
)
    requires
        rec.off + shape.handler_off + 4 <= old(image)@.len(),
    ensures
        final(image)@ == raw::patched(
            old(image)@,
            rec.off + shape.handler_off,
            raw::le_bytes(handler),
        ),
{
    let TableShape { base, stride, opcode_off, flags_off, handler_off, term_flag, max_records } =
        *shape;
    let CommandRecord { off, opcode, flags, handler: was } = *rec;
    let table = thumb_asm::CommandTable {
        base, stride, opcode_off, flags_off, handler_off, term_flag, max_records,
    };
    let record = thumb_asm::CommandRecord { off, opcode, flags, handler: was };
    table.replace(image, &record, handler, None)
}

/// The halfwords of a `BL` identify it and give its displacement back.
proof fn lemma_bl_halfwords(d: u32)
    requires
        disp_ok(d),
    ensures
        branch_hw1(d) & 0xF800 == 0xF000,
        branch_hw2(d, 0xD000) & 0xD000 == 0xD000,
        hw_disp(branch_hw1(d), branch_hw2(d, 0xD000)) == d,
{
    assert(disp_ok(d) ==> branch_hw1(d) & 0xF800 == 0xF000 && branch_hw2(d, 0xD000) & 0xD000
        == 0xD000 && hw_disp(branch_hw1(d), branch_hw2(d, 0xD000)) == d) by (bit_vector);
}

/// The halfwords of a `B.W` identify it and give its displacement back.
proof fn lemma_b_wide_halfwords(d: u32)
    requires
        disp_ok(d),
    ensures
        branch_hw1(d) & 0xF800 == 0xF000,
        branch_hw2(d, 0x9000) & 0xD000 == 0x9000,
        hw_disp(branch_hw1(d), branch_hw2(d, 0x9000)) == d,
{
    assert(disp_ok(d) ==> branch_hw1(d) & 0xF800 == 0xF000 && branch_hw2(d, 0x9000) & 0xD000
        == 0x9000 && hw_disp(branch_hw1(d), branch_hw2(d, 0x9000)) == d) by (bit_vector);
}

/// What is encoded is what decodes: once the four bytes of a branch that reaches
/// are in place, the branch found there goes to the intended target.
pub proof fn law_installed_branch_decodes(
    shape: BranchShape,
    img: Seq<u8>,
    site: int,
    target: u32,
)
    requires
        0 <= site,
        site + 4 <= img.len(),
        disp_ok(branch_disp(site as u32, target)),
        raw::occurs_at(img, branch_bytes(shape, site as u32, target), site),
    ensures
        branch_target(shape, img, site) == Some(target),
{
    let b = branch_bytes(shape, site as u32, target);
    let d = branch_disp(site as u32, target);
    lemma_bl_halfwords(d);
    lemma_b_wide_halfwords(d);
    assert(img[site + 0] == b[0]);
    assert(img[site + 1] == b[1]);
    assert(img[site + 2] == b[2]);
    assert(img[site + 3] == b[3]);
    assert(raw::hw_at(img, site) == branch_hw1(d));
    assert(raw::hw_at(img, site + 2) == branch_hw2(d, shape_bits(shape)));
    let s = site as u32;
    assert((s + 4 + ((target - (s + 4)) as u32)) as u32 == target) by (bit_vector);
}

} // verus!
