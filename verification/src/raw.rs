//! A firmware image as a sequence of bytes: little-endian reads and in-place
//! patches.
use vstd::prelude::*;

verus! {

/// Largest image whose byte offsets fit the signed 32-bit arithmetic that
/// branch targets are computed in.
pub const IMAGE_LIMIT: usize = 0x7FFF_0000;

/// An image whose every offset is addressable.
pub open spec fn addressable(img: Seq<u8>) -> bool {
    img.len() <= IMAGE_LIMIT
}

/// The little-endian halfword at `off`.
pub open spec fn hw_at(img: Seq<u8>, off: int) -> u16 {
    (img[off] + 256 * img[off + 1]) as u16
}

/// The little-endian word at `off`.
pub open spec fn u32_at(img: Seq<u8>, off: int) -> u32 {
    (img[off] + 256 * img[off + 1] + 65536 * img[off + 2] + 16777216 * img[off + 3]) as u32
}

/// The four little-endian bytes of `w`.
pub open spec fn le_bytes(w: u32) -> Seq<u8> {
    seq![
        (w % 256) as u8,
        (w / 256 % 256) as u8,
        (w / 65536 % 256) as u8,
        (w / 16777216) as u8,
    ]
}

/// `img` with `bytes` written over it from `at` on.
pub open spec fn patched(img: Seq<u8>, at: int, bytes: Seq<u8>) -> Seq<u8> {
    Seq::new(
        img.len(),
        |i: int|
            if at <= i < at + bytes.len() {
                bytes[i - at]
            } else {
                img[i]
            },
    )
}

/// `pat` occurs in `img` at `at`.
pub open spec fn occurs_at(img: Seq<u8>, pat: Seq<u8>, at: int) -> bool {
    &&& 0 <= at
    &&& at + pat.len() <= img.len()
    &&& forall|k: int| 0 <= k < pat.len() ==> #[trigger] img[at + k] == pat[k]
}

/// Every byte of `img[lo..hi]` is erased flash.
pub open spec fn erased(img: Seq<u8>, lo: int, hi: int) -> bool {
    forall|i: int| lo <= i < hi ==> #[trigger] img[i] == 0xFF
}

/// Reads the little-endian halfword at `off`.
pub fn halfword(img: &[u8], off: usize) -> (h: u16)
    requires
        off + 2 <= img@.len(),
    ensures
        h == hw_at(img@, off as int),
{
    (img[off] as u16) + 256 * (img[off + 1] as u16)
}

/// The halfword at `off`, or zero where the image has none.
pub open spec fn shown(img: Seq<u8>, off: int) -> u16 {
    if 0 <= off && off + 2 <= img.len() {
        hw_at(img, off)
    } else {
        0
    }
}

/// Reads the halfword at `off`, or zero where the image has none.
pub fn show(img: &[u8], off: usize) -> (h: u16)
    ensures
        h == shown(img@, off as int),
{
    if img.len() >= 2 && off <= img.len() - 2 {
        halfword(img, off)
    } else {
        0
    }
}

} // verus!
