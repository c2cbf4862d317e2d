//! Masked halfword signatures: where they match, and proving that they match once.
use crate::error::{Anchor, FwError};
use crate::raw;
use vstd::prelude::*;

verus! {

/// `sig` matches at `off`: every halfword, masked, is the value given.
pub open spec fn sig_at(img: Seq<u8>, sig: Seq<(u16, u16)>, off: int) -> bool {
    forall|k: int|
        0 <= k < sig.len() ==> raw::hw_at(img, off + 2 * k) & (#[trigger] sig[k]).1 == sig[k].0
}

/// `sig` matches at `off` with its values masked too.
pub open spec fn loose_sig_at(img: Seq<u8>, sig: Seq<(u16, u16)>, off: int) -> bool {
    forall|k: int|
        0 <= k < sig.len() ==> raw::hw_at(img, off + 2 * k) & (#[trigger] sig[k]).1 == sig[k].0
            & sig[k].1
}

/// The matches among the `n` offsets `lo`, `lo + 2`, and so on.
pub open spec fn hits(img: Seq<u8>, sig: Seq<(u16, u16)>, lo: int, n: nat) -> Seq<usize>
    decreases n,
{
    if n == 0 {
        Seq::empty()
    } else {
        let rest = hits(img, sig, lo, (n - 1) as nat);
        let off = lo + 2 * (n - 1);
        if sig_at(img, sig, off) {
            rest.push(off as usize)
        } else {
            rest
        }
    }
}

/// The loose matches among the `n` offsets `lo`, `lo + 2`, and so on.
pub open spec fn loose_hits(img: Seq<u8>, sig: Seq<(u16, u16)>, lo: int, n: nat) -> Seq<usize>
    decreases n,
{
    if n == 0 {
        Seq::empty()
    } else {
        let rest = loose_hits(img, sig, lo, (n - 1) as nat);
        let off = lo + 2 * (n - 1);
        if loose_sig_at(img, sig, off) {
            rest.push(off as usize)
        } else {
            rest
        }
    }
}

/// How many offsets `lo`, `lo + 2`, and so on lie below `hi`.
pub open spec fn steps(lo: int, hi: int) -> nat {
    if hi <= lo {
        0
    } else {
        ((hi - lo + 1) / 2) as nat
    }
}

/// Where a scan that stops short of `hi` ends: behind the last offset at which `sig` still
/// fits into the image.
pub open spec fn scan_end(img: Seq<u8>, sig: Seq<(u16, u16)>, hi: int) -> int {
    let room = if img.len() >= 2 * sig.len() {
        img.len() - 2 * sig.len() + 1
    } else {
        0
    };
    if hi < room {
        hi
    } else {
        room
    }
}

/// Every match of `sig` at an offset of `[lo, hi)`, in order.
pub open spec fn find_all(img: Seq<u8>, sig: Seq<(u16, u16)>, lo: int, hi: int) -> Seq<usize> {
    hits(img, sig, lo, steps(lo, scan_end(img, sig, hi)))
}

/// The first match of `sig` at an offset of `[lo, hi)`.
pub open spec fn find_first(img: Seq<u8>, sig: Seq<(u16, u16)>, lo: int, hi: int) -> Option<
    usize,
> {
    let all = find_all(img, sig, lo, hi);
    if all.len() > 0 {
        Some(all[0])
    } else {
        None
    }
}

/// The one match, or how many there were.
pub open spec fn only(all: Seq<usize>, what: Anchor, lo: int, hi: int) -> Result<usize, FwError> {
    if all.len() == 1 {
        Ok(all[0])
    } else {
        Err(
            FwError::Matches {
                what,
                count: all.len() as usize,
                lo: lo as usize,
                hi: hi as usize,
            },
        )
    }
}

/// The one match of `sig` in `[lo, hi)`.
pub open spec fn find_only(
    img: Seq<u8>,
    sig: Seq<(u16, u16)>,
    lo: int,
    hi: int,
    what: Anchor,
) -> Result<usize, FwError> {
    only(find_all(img, sig, lo, hi), what, lo, hi)
}

/// The one match, `None` when there is none, or how many there were.
pub open spec fn at_most_one(all: Seq<usize>, what: Anchor, lo: int, hi: int) -> Result<
    Option<usize>,
    FwError,
> {
    if all.len() == 0 {
        Ok(None)
    } else if all.len() == 1 {
        Ok(Some(all[0]))
    } else {
        Err(
            FwError::Matches {
                what,
                count: all.len() as usize,
                lo: lo as usize,
                hi: hi as usize,
            },
        )
    }
}

/// The match of a preferred signature when there is one, and what `otherwise` says
/// only when there is none.
pub open spec fn preferring(
    all: Seq<usize>,
    what: Anchor,
    lo: int,
    hi: int,
    otherwise: Result<usize, FwError>,
) -> Result<usize, FwError> {
    match at_most_one(all, what, lo, hi) {
        Err(e) => Err(e),
        Ok(Some(at)) => Ok(at),
        Ok(None) => otherwise,
    }
}

/// Every loose match that lies entirely in `[lo, hi)`.
pub open spec fn find_loose(img: Seq<u8>, sig: Seq<(u16, u16)>, lo: int, hi: int) -> Seq<usize> {
    let end = if hi < img.len() {
        hi
    } else {
        img.len() as int
    };
    if lo + 2 * sig.len() > end {
        Seq::empty()
    } else {
        loose_hits(img, sig, lo, ((end - lo - 2 * sig.len()) / 2 + 1) as nat)
    }
}

/// `off` is a place where a scan from `lo` on can report a match of `sig`.
pub open spec fn inside(img: Seq<u8>, sig: Seq<(u16, u16)>, lo: int, off: int) -> bool {
    &&& lo <= off
    &&& (off - lo) % 2 == 0
    &&& off + 2 * sig.len() <= img.len()
    &&& sig_at(img, sig, off)
}

/// Whatever a scan reports lies in the image and matches.
pub proof fn lemma_find_all_inside(img: Seq<u8>, sig: Seq<(u16, u16)>, lo: int, hi: int, n: nat)
    requires
        raw::addressable(img),
        0 <= lo,
        n <= steps(lo, scan_end(img, sig, hi)),
    ensures
        forall|i: int|
            0 <= i < hits(img, sig, lo, n).len() ==> inside(
                img,
                sig,
                lo,
                #[trigger] hits(img, sig, lo, n)[i] as int,
            ),
    decreases n,
{
    if n > 0 {
        lemma_find_all_inside(img, sig, lo, hi, (n - 1) as nat);
        let off = lo + 2 * (n - 1);
        assert(off < scan_end(img, sig, hi));
        assert(off as usize == off);
        let before = hits(img, sig, lo, (n - 1) as nat);
        let all = hits(img, sig, lo, n);
        assert forall|i: int| 0 <= i < all.len() implies inside(
            img,
            sig,
            lo,
            #[trigger] all[i] as int,
        ) by {
            if i < before.len() {
                assert(all[i] == before[i]);
            }
        }
    }
}

/// A longer scan starts with what a shorter one reports.
pub proof fn lemma_hits_prefix(img: Seq<u8>, sig: Seq<(u16, u16)>, lo: int, m: nat, n: nat)
    requires
        m <= n,
    ensures
        hits(img, sig, lo, m).len() <= hits(img, sig, lo, n).len(),
        forall|i: int|
            0 <= i < hits(img, sig, lo, m).len() ==> #[trigger] hits(img, sig, lo, n)[i] == hits(
                img,
                sig,
                lo,
                m,
            )[i],
        hits(img, sig, lo, n).len() <= n,
    decreases n,
{
    if m < n {
        lemma_hits_prefix(img, sig, lo, m, (n - 1) as nat);
    } else if n > 0 {
        lemma_hits_prefix(img, sig, lo, (m - 1) as nat, (n - 1) as nat);
    }
}

/// A scan reports an offset once, in ascending order.
pub proof fn lemma_hits_distinct(img: Seq<u8>, sig: Seq<(u16, u16)>, lo: int, n: nat)
    requires
        0 <= lo,
        lo + 2 * n <= usize::MAX,
    ensures
        forall|i: int, j: int|
            0 <= i < j < hits(img, sig, lo, n).len() ==> #[trigger] hits(img, sig, lo, n)[i]
                < #[trigger] hits(img, sig, lo, n)[j],
        forall|i: int|
            0 <= i < hits(img, sig, lo, n).len() ==> #[trigger] hits(img, sig, lo, n)[i] < lo + 2
                * n,
    decreases n,
{
    if n > 0 {
        lemma_hits_distinct(img, sig, lo, (n - 1) as nat);
        let before = hits(img, sig, lo, (n - 1) as nat);
        let all = hits(img, sig, lo, n);
        assert forall|i: int, j: int| 0 <= i < j < all.len() implies #[trigger] all[i]
            < #[trigger] all[j] by {
            assert(all[i] == before[i]);
            if j < before.len() {
                assert(all[j] == before[j]);
            }
        }
        assert forall|i: int| 0 <= i < all.len() implies #[trigger] all[i] < lo + 2 * n by {
            if i < before.len() {
                assert(all[i] == before[i]);
            }
        }
    }
}

/// A scan reports exactly the offsets it visits at which the signature matches.
pub proof fn law_hits_are_the_matches(
    img: Seq<u8>,
    sig: Seq<(u16, u16)>,
    lo: int,
    n: nat,
    off: usize,
)
    requires
        0 <= lo,
        lo + 2 * n <= usize::MAX,
    ensures
        hits(img, sig, lo, n).contains(off) <==> (exists|k: int|
            0 <= k < n && off == #[trigger] (lo + 2 * k)) && sig_at(img, sig, off as int),
    decreases n,
{
    if n > 0 {
        law_hits_are_the_matches(img, sig, lo, (n - 1) as nat, off);
        let rest = hits(img, sig, lo, (n - 1) as nat);
        let last = lo + 2 * (n - 1);
        let all = hits(img, sig, lo, n);
        if off == last {
            assert(exists|k: int| 0 <= k < n && off == #[trigger] (lo + 2 * k)) by {
                assert(off == lo + 2 * (n - 1));
            }
            if sig_at(img, sig, last) {
                assert(all[all.len() - 1] == off);
            } else {
                assert(all == rest);
            }
        } else {
            if rest.contains(off) {
                let i = choose|i: int| 0 <= i < rest.len() && rest[i] == off;
                assert(all[i] == off);
            }
            if all.contains(off) {
                let i = choose|i: int| 0 <= i < all.len() && all[i] == off;
                assert(rest[i] == off);
            }
            if exists|k: int| 0 <= k < n && off == #[trigger] (lo + 2 * k) {
                let k = choose|k: int| 0 <= k < n && off == #[trigger] (lo + 2 * k);
                assert(k < n - 1);
            }
        }
    }
}

/// A scan of `[lo, hi)` reports an offset exactly when it is below `hi`, an even distance
/// from `lo`, and the signature fits and matches there; the last offset at which it fits
/// counts.
pub proof fn law_scan_reports_every_match(
    img: Seq<u8>,
    sig: Seq<(u16, u16)>,
    lo: int,
    hi: int,
    off: usize,
)
    requires
        raw::addressable(img),
        0 <= lo,
    ensures
        find_all(img, sig, lo, hi).contains(off) <==> off < hi && inside(img, sig, lo, off as int),
{
    let end = scan_end(img, sig, hi);
    let n = steps(lo, end);
    if lo < end {
        law_hits_are_the_matches(img, sig, lo, n, off);
        if off < hi && inside(img, sig, lo, off as int) {
            let k = (off - lo) / 2;
            assert(off == lo + 2 * k);
            assert(0 <= k < n);
        }
    }
}

/// Whether `sig` matches at `off`.
pub fn matches_sig(image: &[u8], sig: &[(u16, u16)], off: usize) -> (r: bool)
    requires
        off + 2 * sig@.len() <= image@.len(),
    ensures
        r == sig_at(image@, sig@, off as int),
{
    let len: usize = image.len();
    let mut k: usize = 0;
    while k < sig.len()
        invariant
            len == image@.len(),
            k <= sig@.len(),
            off + 2 * sig@.len() <= image@.len(),
            forall|j: int|
                0 <= j < k ==> raw::hw_at(image@, off + 2 * j) & (#[trigger] sig@[j]).1
                    == sig@[j].0,
        decreases sig@.len() - k,
    {
        let (v, m): (u16, u16) = sig[k];
        if raw::halfword(image, off + 2 * k) & m != v {
            assert(raw::hw_at(image@, off + 2 * (k as int)) & sig@[k as int].1 != sig@[k as int].0);
            return false;
        }
        k += 1;
    }
    true
}

/// Where a scan stops, as [`scan_end`] has it.
fn stop(image: &[u8], sig: &[(u16, u16)], hi: usize) -> (r: usize)
    requires
        raw::addressable(image@),
        2 * sig@.len() <= usize::MAX,
    ensures
        r == scan_end(image@, sig@, hi as int),
{
    let need: usize = sig.len() * 2;
    let room: usize = if image.len() >= need {
        image.len() - need + 1
    } else {
        0
    };
    if hi < room {
        hi
    } else {
        room
    }
}

/// The first match in `[lo, hi)`.
pub fn find_masked(image: &[u8], sig: &[(u16, u16)], lo: usize, hi: usize) -> (r: Option<usize>)
    requires
        raw::addressable(image@),
        2 * sig@.len() <= usize::MAX,
    ensures
        r == find_first(image@, sig@, lo as int, hi as int),
        r matches Some(at) ==> inside(image@, sig@, lo as int, at as int),
{
    let end: usize = stop(image, sig, hi);
    let mut off: usize = lo;
    let ghost mut n: nat = 0;
    while off < end
        invariant
            raw::addressable(image@),
            2 * sig@.len() <= usize::MAX,
            end == scan_end(image@, sig@, hi as int),
            off == lo + 2 * n,
            n <= steps(lo as int, end as int),
            off >= end ==> n == steps(lo as int, end as int),
            hits(image@, sig@, lo as int, n) == Seq::<usize>::empty(),
        decreases end + 2 - off,
    {
        if matches_sig(image, sig, off) {
            proof {
                lemma_hits_prefix(
                    image@,
                    sig@,
                    lo as int,
                    n + 1,
                    steps(lo as int, end as int),
                );
                assert(hits(image@, sig@, lo as int, n + 1)[0] == off);
            }
            return Some(off);
        }
        off += 2;
        proof {
            n = n + 1;
        }
    }
    None
}

/// Every match in `[lo, hi)`, in order.
pub fn find_masked_all(image: &[u8], sig: &[(u16, u16)], lo: usize, hi: usize) -> (r: Vec<usize>)
    requires
        raw::addressable(image@),
        2 * sig@.len() <= usize::MAX,
    ensures
        r@ == find_all(image@, sig@, lo as int, hi as int),
        forall|off: usize| #[trigger]
            r@.contains(off) <==> off < hi && inside(image@, sig@, lo as int, off as int),
        forall|i: int|
            0 <= i < r@.len() ==> inside(image@, sig@, lo as int, #[trigger] r@[i] as int),
{
    let end: usize = stop(image, sig, hi);
    let mut off: usize = lo;
    let mut found: Vec<usize> = Vec::new();
    let ghost mut n: nat = 0;
    while off < end
        invariant
            raw::addressable(image@),
            2 * sig@.len() <= usize::MAX,
            end == scan_end(image@, sig@, hi as int),
            off == lo + 2 * n,
            n <= steps(lo as int, end as int),
            off >= end ==> n == steps(lo as int, end as int),
            found@ == hits(image@, sig@, lo as int, n),
        decreases end + 2 - off,
    {
        if matches_sig(image, sig, off) {
            found.push(off);
        }
        off += 2;
        proof {
            n = n + 1;
        }
    }
    proof {
        lemma_find_all_inside(image@, sig@, lo as int, hi as int, n);
        if end <= lo {
            assert(hits(image@, sig@, lo as int, 0) =~= Seq::<usize>::empty());
        }
        assert forall|off: usize| #[trigger]
            found@.contains(off) <==> off < hi && inside(
                image@,
                sig@,
                lo as int,
                off as int,
            ) by {
            law_scan_reports_every_match(image@, sig@, lo as int, hi as int, off);
        }
    }
    found
}

/// The one match in `[lo, hi)`; any other number of matches is refused.
pub fn find_unique(image: &[u8], sig: &[(u16, u16)], lo: usize, hi: usize, what: Anchor) -> (r:
    Result<usize, FwError>)
    requires
        raw::addressable(image@),
        2 * sig@.len() <= usize::MAX,
    ensures
        r == find_only(image@, sig@, lo as int, hi as int, what),
        r matches Ok(at) ==> inside(image@, sig@, lo as int, at as int),
{
    let all: Vec<usize> = find_masked_all(image, sig, lo, hi);
    if all.len() == 1 {
        Ok(all[0])
    } else {
        Err(FwError::Matches { what, count: all.len(), lo, hi })
    }
}

/// The one match in `[lo, hi)`, or `None` when there is none; several are refused.
pub fn find_at_most_one(
    image: &[u8],
    sig: &[(u16, u16)],
    lo: usize,
    hi: usize,
    what: Anchor,
) -> (r: Result<Option<usize>, FwError>)
    requires
        raw::addressable(image@),
        2 * sig@.len() <= usize::MAX,
    ensures
        r == at_most_one(
            find_all(image@, sig@, lo as int, hi as int),
            what,
            lo as int,
            hi as int,
        ),
        r matches Ok(Some(at)) ==> inside(image@, sig@, lo as int, at as int),
{
    let all: Vec<usize> = find_masked_all(image, sig, lo, hi);
    if all.len() == 0 {
        Ok(None)
    } else if all.len() == 1 {
        assert(inside(image@, sig@, lo as int, all@[0] as int));
        Ok(Some(all[0]))
    } else {
        Err(FwError::Matches { what, count: all.len(), lo, hi })
    }
}

/// Every loose match that lies entirely in `[lo, hi)`, in order.
pub fn masked_matches(image: &[u8], sig: &[(u16, u16)], lo: usize, hi: usize) -> (r: Vec<usize>)
    requires
        raw::addressable(image@),
        lo + 2 * sig@.len() <= usize::MAX,
    ensures
        r@ == find_loose(image@, sig@, lo as int, hi as int),
        forall|i: int| 0 <= i < r@.len() ==> #[trigger] r@[i] + 2 * sig@.len() <= image@.len(),
{
    let end: usize = if hi < image.len() {
        hi
    } else {
        image.len()
    };
    let span: usize = sig.len() * 2;
    let mut found: Vec<usize> = Vec::new();
    if lo + span > end {
        return found;
    }
    let mut off: usize = lo;
    let ghost mut n: nat = 0;
    let ghost total: nat = ((end - lo - span) / 2 + 1) as nat;
    while off <= end - span
        invariant
            raw::addressable(image@),
            span == 2 * sig@.len(),
            span <= end <= image@.len(),
            off == lo + 2 * n,
            total == ((end - lo - span) / 2 + 1) as nat,
            lo + span <= end,
            n <= total,
            off > end - span ==> n == total,
            found@ == loose_hits(image@, sig@, lo as int, n),
            forall|i: int|
                0 <= i < found@.len() ==> #[trigger] found@[i] + 2 * sig@.len() <= image@.len(),
        decreases end + 2 - off,
    {
        let mut ok: bool = true;
        let mut k: usize = 0;
        while k < sig.len()
            invariant
                end <= image@.len(),
                span <= end,
                span == 2 * sig@.len(),
                off <= end - span,
                k <= sig@.len(),
                off + 2 * sig@.len() <= image@.len(),
                ok == forall|j: int|
                    0 <= j < k ==> raw::hw_at(image@, off + 2 * j) & (#[trigger] sig@[j]).1
                        == sig@[j].0 & sig@[j].1,
            decreases sig@.len() - k,
        {
            let (v, m): (u16, u16) = sig[k];
            if raw::halfword(image, off + 2 * k) & m != v & m {
                assert(raw::hw_at(image@, off + 2 * (k as int)) & sig@[k as int].1
                    != sig@[k as int].0 & sig@[k as int].1);
                ok = false;
            }
            k += 1;
        }
        if ok {
            found.push(off);
        }
        off += 2;
        proof {
            n = n + 1;
        }
    }
    found
}

} // verus!
