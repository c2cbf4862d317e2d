//! How a handler answers: the response byte-writer and the commit routine.
use crate::engine::code;
use crate::engine::mt1959::Mt1959Engine;
use crate::engine::scanner;
use crate::engine::signatures::RESPONSE_WRITER_SIG;
use crate::error::{FwError, Reason};
use crate::raw;
use crate::sig;
use vstd::prelude::*;

verus! {

/// The byte-writer's entry, and the buffer offset that its first load reads.
pub open spec fn response_writer(img: Seq<u8>) -> Result<(u32, u32), FwError> {
    match sig::find_first(img, RESPONSE_WRITER_SIG@, 0x0009_0000, 0x000b_0000) {
        None => Err(FwError::Refused(Reason::ResponseWriter)),
        Some(at) => match code::literal_at(img, at as int) {
            None => Err(FwError::Refused(Reason::ResponseWriterLiteral)),
            Some(commit_off) => Ok((at as u32, commit_off)),
        },
    }
}

/// `str r0,[rN,#0x28]` for some register.
pub open spec fn stores_dma_source(h: u16) -> bool {
    h & 0xFFC7 == 0x6280
}

/// The nearest `ldr r1,[pc]` of an SRAM address among the `n` halfwords below `p`
/// that is not below `lo`.
pub open spec fn commit_entry(img: Seq<u8>, lo: int, p: int, n: nat) -> Option<u32>
    decreases n,
{
    if n == 0 || p < lo + 2 {
        None
    } else if code::loads_literal_into(raw::hw_at(img, p - 2), 1) && code::sram_literal_at(
        img,
        p - 2,
    ) is Some {
        Some((p - 2) as u32)
    } else {
        commit_entry(img, lo, p - 2, (n - 1) as nat)
    }
}

/// The commit routine around `off`: the DMA-source store is there, the load of the
/// SRAM length cell follows it, and the routine's opening load precedes it.
pub open spec fn commit_at(img: Seq<u8>, lo: int, off: int) -> Option<(u32, u32)> {
    if stores_dma_source(raw::hw_at(img, off)) && code::loads_literal_into(
        raw::hw_at(img, off + 2),
        0,
    ) {
        match (code::sram_literal_at(img, off + 2), commit_entry(img, lo, off, 0x20)) {
            (Some(len), Some(entry)) => Some((entry, len)),
            _ => None,
        }
    } else {
        None
    }
}

/// The first commit routine from `off` on.
pub open spec fn first_commit(img: Seq<u8>, lo: int, off: int, hi: int) -> Option<(u32, u32)>
    decreases hi - off,
{
    if off + 4 > hi {
        None
    } else if commit_at(img, lo, off) is Some {
        commit_at(img, lo, off)
    } else {
        first_commit(img, lo, off + 2, hi)
    }
}

/// The commit routine of `[lo, hi)` and its length cell.
pub open spec fn response_commit_in(img: Seq<u8>, lo: int, hi: int) -> Result<
    (u32, u32),
    FwError,
> {
    match first_commit(img, lo, lo, scanner::least(hi, scanner::short_of(img, 4))) {
        Some(c) => Ok(c),
        None => Err(FwError::Refused(Reason::Commit)),
    }
}

/// The first window from number `k` on that has the routine; else what the last one
/// refused with, or `last` when none is left.
pub open spec fn response_commit_among(
    img: Seq<u8>,
    windows: Seq<(usize, usize)>,
    k: int,
    last: FwError,
) -> Result<(u32, u32), FwError>
    decreases windows.len() - k,
{
    if k >= windows.len() {
        Err(last)
    } else {
        match response_commit_in(img, windows[k].0 as int, windows[k].1 as int) {
            Ok(r) => Ok(r),
            Err(e) => response_commit_among(img, windows, k + 1, e),
        }
    }
}

/// The commit routine in the first window that has one.
pub open spec fn response_commit(img: Seq<u8>, windows: Seq<(usize, usize)>) -> Result<
    (u32, u32),
    FwError,
> {
    response_commit_among(img, windows, 0, FwError::Refused(Reason::CommitWindow))
}

/// The nearest `ldr r1,[pc]` of an SRAM address below `p`, at most `n` halfwords down.
fn find_commit_entry(image: &[u8], lo: usize, p: usize, n: usize) -> (r: Option<u32>)
    requires
        raw::addressable(image@),
        lo <= raw::IMAGE_LIMIT,
        p <= image@.len(),
    ensures
        r == commit_entry(image@, lo as int, p as int, n as nat),
{
    let len: usize = image.len();
    let mut q: usize = p;
    let mut k: usize = n;
    while k > 0 && q >= lo + 2
        invariant
            raw::addressable(image@),
            lo <= raw::IMAGE_LIMIT,
            len == image@.len(),
            q <= len,
            commit_entry(image@, lo as int, p as int, n as nat) == commit_entry(
                image@,
                lo as int,
                q as int,
                k as nat,
            ),
        decreases k,
    {
        q -= 2;
        k -= 1;
        if raw::halfword(image, q) / 256 == 0x49 && code::sram_literal(image, q).is_some() {
            return Some(q as u32);
        }
    }
    None
}

impl Mt1959Engine {
    /// The response byte-writer `response_write_byte(r0=offset, r1=byte)` and the
    /// buffer offset it adds, both read off its fixed body.
    pub fn find_response_writer(&self, image: &[u8]) -> (r: Result<(u32, u32), FwError>)
        requires
            raw::addressable(image@),
        ensures
            r == response_writer(image@),
    {
        let at: usize = match sig::find_masked(
            image,
            &RESPONSE_WRITER_SIG,
            0x0009_0000,
            0x000b_0000,
        ) {
            Some(at) => at,
            None => return Err(FwError::Refused(Reason::ResponseWriter)),
        };
        match code::pc_literal(image, at) {
            Some(commit_off) => Ok((at as u32, commit_off)),
            None => Err(FwError::Refused(Reason::ResponseWriterLiteral)),
        }
    }

    /// The commit routine `commit(r0=buffer_offset)` and the transfer length cell it
    /// reads, from the first code window that has one.
    pub fn find_response_commit(&self, image: &[u8], windows: &Vec<(usize, usize)>) -> (r: Result<
        (u32, u32),
        FwError,
    >)
        requires
            raw::addressable(image@),
            scanner::windows_fit(windows@),
        ensures
            r == response_commit(image@, windows@),
    {
        let mut last: FwError = FwError::Refused(Reason::CommitWindow);
        let mut k: usize = 0;
        while k < windows.len()
            invariant
                raw::addressable(image@),
                scanner::windows_fit(windows@),
                k <= windows@.len(),
                response_commit(image@, windows@) == response_commit_among(
                    image@,
                    windows@,
                    k as int,
                    last,
                ),
            decreases windows@.len() - k,
        {
            let (lo, hi): (usize, usize) = windows[k];
            match self.find_response_commit_in(image, lo, hi) {
                Ok(c) => {
                    return Ok(c);
                },
                Err(e) => {
                    last = e;
                },
            }
            k += 1;
        }
        Err(last)
    }

    /// [`Self::find_response_commit`] in one code window.
    pub fn find_response_commit_in(&self, image: &[u8], lo: usize, hi: usize) -> (r: Result<
        (u32, u32),
        FwError,
    >)
        requires
            raw::addressable(image@),
            lo <= raw::IMAGE_LIMIT,
        ensures
            r == response_commit_in(image@, lo as int, hi as int),
    {
        let len: usize = image.len();
        let room: usize = if len >= 4 {
            len - 4
        } else {
            0
        };
        let end: usize = if hi < room {
            hi
        } else {
            room
        };
        let mut off: usize = lo;
        while off + 4 <= end
            invariant
                raw::addressable(image@),
                lo <= raw::IMAGE_LIMIT,
                len == image@.len(),
                lo <= off,
                off <= len || off == lo,
                end == scanner::least(hi as int, scanner::short_of(image@, 4)),
                first_commit(image@, lo as int, lo as int, end as int) == first_commit(
                    image@,
                    lo as int,
                    off as int,
                    end as int,
                ),
            decreases end + 4 - off,
        {
            if raw::halfword(image, off) & 0xFFC7 == 0x6280 && raw::halfword(image, off + 2) / 256
                == 0x48 {
                match code::sram_literal(image, off + 2) {
                    Some(cell) => {
                        match find_commit_entry(image, lo, off, 0x20) {
                            Some(entry) => {
                                return Ok((entry, cell));
                            },
                            None => {},
                        }
                    },
                    None => {},
                }
            }
            off += 2;
        }
        Err(FwError::Refused(Reason::Commit))
    }
}

} // verus!
