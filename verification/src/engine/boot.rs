//! The power-on path: where a boot hook can be installed.
use crate::engine::code;
use crate::engine::mt1959::Mt1959Engine;
use crate::engine::scanner;
use crate::engine::signatures::{BOOT_INIT_SIG, BOOT_INIT_SIG_CLASSIC};
use crate::error::{Anchor, FwError, Reason};
use crate::raw;
use crate::sig;
use crate::thumb;
use vstd::prelude::*;

verus! {

/// The classic boot hook may be installed.
pub const CLASSIC_BOOT_BLESSED: bool = true;

/// The boot-status reload, by the shape of the prologue around it.
#[derive(Debug, Clone, Copy, PartialEq, Eq, Structural)]
pub enum BootInitSite {
    /// In the main task's prologue.
    Modern(u32),
    /// In the classic generation's leaf helper.
    ClassicUnconfirmed(u32),
}

impl BootInitSite {
    /// Where the reload is, whatever the shape around it.
    pub open spec fn offset(self) -> u32 {
        match self {
            BootInitSite::Modern(s) => s,
            BootInitSite::ClassicUnconfirmed(s) => s,
        }
    }

    /// Where the reload is, whatever the shape around it.
    pub fn site(self) -> (r: u32)
        ensures
            r == self.offset(),
    {
        match self {
            BootInitSite::Modern(s) => s,
            BootInitSite::ClassicUnconfirmed(s) => s,
        }
    }
}

/// The boot-status reload: the modern shape first, and the classic one only where
/// the modern shape does not match at all.
pub open spec fn boot_init(img: Seq<u8>) -> Result<Option<BootInitSite>, FwError> {
    let modern = sig::find_all(img, BOOT_INIT_SIG@, 0, img.len() as int);
    let classic = sig::find_all(img, BOOT_INIT_SIG_CLASSIC@, 0, img.len() as int);
    if modern.len() == 1 {
        Ok(Some(BootInitSite::Modern((modern[0] + 4) as u32)))
    } else if modern.len() > 1 {
        Err(
            FwError::Matches {
                what: Anchor::BootInit,
                count: modern.len() as usize,
                lo: 0,
                hi: img.len() as usize,
            },
        )
    } else if classic.len() == 1 {
        Ok(Some(BootInitSite::ClassicUnconfirmed((classic[0] + 4) as u32)))
    } else if classic.len() > 1 {
        Err(
            FwError::Matches {
                what: Anchor::BootInitClassic,
                count: classic.len() as usize,
                lo: 0,
                hi: img.len() as usize,
            },
        )
    } else {
        Ok(None)
    }
}

/// Where the cold path rejoins the warm one, and what is called there: the target of
/// the `bmi` that follows the reload at `site`, when a call is at it.
pub open spec fn convergence(img: Seq<u8>, site: int) -> Option<(usize, u32)> {
    if site < 4 || site + 6 > img.len() || raw::hw_at(img, site + 4) / 256 != 0xD4 {
        None
    } else {
        let conv = code::cond_target(site + 4, raw::hw_at(img, site + 4));
        if conv < 0 || conv + 4 > img.len() || raw::hw_at(img, conv) / 2048 != 30 || raw::hw_at(
            img,
            conv + 2,
        ) / 2048 != 31 {
            None
        } else {
            match thumb::branch_target(thumb::BranchShape::Bl, img, conv) {
                Some(t) => Some((conv as usize, t)),
                None => None,
            }
        }
    }
}

/// A call of `helper` is at `off`.
pub open spec fn calls_helper(img: Seq<u8>, off: int, helper: u32) -> bool {
    thumb::branch_target(thumb::BranchShape::Bl, img, off) matches Some(t) && t / 2 == helper / 2
}

/// The calls of `helper` among the first `n` even offsets.
pub open spec fn callers(img: Seq<u8>, helper: u32, n: nat) -> Seq<usize>
    decreases n,
{
    if n == 0 {
        Seq::empty()
    } else {
        let before = callers(img, helper, (n - 1) as nat);
        if calls_helper(img, 2 * (n - 1), helper) {
            before.push((2 * (n - 1)) as usize)
        } else {
            before
        }
    }
}

/// How many even offsets leave room for a call below the last four bytes.
pub open spec fn call_sites(img: Seq<u8>) -> nat {
    if img.len() < 8 {
        0
    } else {
        ((img.len() - 8) / 2 + 1) as nat
    }
}

/// The one call of the leaf helper whose reload is at `site`, and the helper.
pub open spec fn helper_caller(img: Seq<u8>, site: int) -> Option<(usize, u32)> {
    if site < 4 {
        None
    } else {
        let helper = (site - 4) as u32;
        let all = callers(img, helper, call_sites(img));
        if all.len() == 1 {
            Some((all[0], helper))
        } else {
            None
        }
    }
}

/// Entry of the leaf helper whose reload is at `site`.
pub open spec fn helper_of(site: u32) -> u32 {
    if site < 4 {
        0
    } else {
        (site - 4) as u32
    }
}

/// The call that the boot hook takes over, and what it called.
pub open spec fn boot_init_pair(img: Seq<u8>) -> Result<(usize, u32), FwError> {
    match boot_init(img) {
        Err(e) => Err(e),
        Ok(None) => Err(FwError::Refused(Reason::BootUnknown)),
        Ok(Some(BootInitSite::Modern(s))) => match convergence(img, s as int) {
            Some(pair) => Ok(pair),
            None => Err(FwError::Refused(Reason::BootConvergence { at: s })),
        },
        Ok(Some(BootInitSite::ClassicUnconfirmed(s))) => if !CLASSIC_BOOT_BLESSED {
            Err(FwError::Refused(Reason::BootUnblessed { at: s }))
        } else {
            match helper_caller(img, s as int) {
                Some(pair) => Ok(pair),
                None => Err(FwError::Refused(Reason::BootCaller { at: helper_of(s) })),
            }
        },
    }
}

/// The hook takes over a call: one is at the place that is answered, and for either
/// shape it goes to the routine that is answered with it.
pub proof fn law_boot_hook_takes_over_a_call(img: Seq<u8>, at: usize, orig: u32)
    requires
        raw::addressable(img),
        boot_init_pair(img) == Ok::<(usize, u32), FwError>((at, orig)),
    ensures
        at + 4 <= img.len(),
        at % 2 == 0,
        thumb::branch_target(thumb::BranchShape::Bl, img, at as int) matches Some(t) && t / 2
            == orig / 2,
{
    match boot_init(img) {
        Ok(Some(BootInitSite::Modern(s))) => {
            let hi = img.len() as int;
            let end = sig::scan_end(img, BOOT_INIT_SIG@, hi);
            sig::lemma_find_all_inside(img, BOOT_INIT_SIG@, 0, hi, sig::steps(0, end));
            let found = sig::find_all(img, BOOT_INIT_SIG@, 0, hi)[0];
            assert(sig::inside(img, BOOT_INIT_SIG@, 0, found as int));
        },
        Ok(Some(BootInitSite::ClassicUnconfirmed(s))) => {
            let helper = (s - 4) as u32;
            lemma_callers_call(img, helper, call_sites(img));
            assert(callers(img, helper, call_sites(img))[0] == at);
        },
        _ => {},
    }
}

proof fn lemma_callers_call(img: Seq<u8>, helper: u32, n: nat)
    requires
        raw::addressable(img),
        n <= call_sites(img),
    ensures
        forall|i: int|
            0 <= i < callers(img, helper, n).len() ==> calls_helper(
                img,
                #[trigger] callers(img, helper, n)[i] as int,
                helper,
            ) && callers(img, helper, n)[i] < 2 * n && callers(img, helper, n)[i] % 2 == 0,
    decreases n,
{
    if n > 0 {
        lemma_callers_call(img, helper, (n - 1) as nat);
        let before = callers(img, helper, (n - 1) as nat);
        let all = callers(img, helper, n);
        assert forall|i: int| 0 <= i < all.len() implies calls_helper(
            img,
            #[trigger] all[i] as int,
            helper,
        ) && all[i] < 2 * n && all[i] % 2 == 0 by {
            if i < before.len() {
                assert(all[i] == before[i]);
            }
        }
    }
}

/// A longer search keeps the calls that a shorter one found.
proof fn lemma_callers_grow(img: Seq<u8>, helper: u32, m: nat, n: nat)
    requires
        m <= n,
    ensures
        callers(img, helper, m).len() <= callers(img, helper, n).len(),
    decreases n,
{
    if m < n {
        lemma_callers_grow(img, helper, m, (n - 1) as nat);
    }
}

/// Follows the `bmi` behind the reload at `site` to where the cold path rejoins the
/// warm one, and decodes the call there: its place and its target.
pub fn boot_init_convergence(image: &[u8], site: usize) -> (r: Option<(usize, u32)>)
    requires
        raw::addressable(image@),
    ensures
        r == convergence(image@, site as int),
{
    let len: usize = image.len();
    if site < 4 || len < 6 || site > len - 6 {
        return None;
    }
    let h: u16 = raw::halfword(image, site + 4);
    if h / 256 != 0xD4 {
        return None;
    }
    let imm: usize = (h % 256) as usize;
    let base: usize = site + 8;
    let conv: usize = if imm >= 128 {
        if base < 2 * (256 - imm) {
            return None;
        }
        base - 2 * (256 - imm)
    } else {
        base + 2 * imm
    };
    if len < 4 || conv > len - 4 {
        return None;
    }
    if raw::halfword(image, conv) / 2048 != 30 || raw::halfword(image, conv + 2) / 2048 != 31 {
        return None;
    }
    match thumb_asm::decode_bl(image, conv) {
        Some(t) => Some((conv, t)),
        None => None,
    }
}

/// The one call of the classic leaf helper whose reload is at `site`, and the
/// helper's entry; `None` when there is no such call or more than one.
pub fn classic_boot_init_caller(image: &[u8], site: usize) -> (r: Option<(usize, u32)>)
    requires
        raw::addressable(image@),
        site <= raw::IMAGE_LIMIT,
    ensures
        r == helper_caller(image@, site as int),
{
    if site < 4 {
        return None;
    }
    let helper: u32 = (site - 4) as u32;
    let len: usize = image.len();
    let end: usize = if len >= 4 {
        len - 4
    } else {
        0
    };
    let mut caller: Option<usize> = None;
    let mut off: usize = 0;
    let ghost mut n: nat = 0;
    while off + 4 <= end
        invariant
            raw::addressable(image@),
            site >= 4,
            site <= raw::IMAGE_LIMIT,
            helper == (site - 4) as u32,
            len == image@.len(),
            end == scanner::short_of(image@, 4),
            off == 2 * n,
            off <= len,
            n <= call_sites(image@),
            off + 4 > end ==> n == call_sites(image@),
            caller matches Some(c) ==> callers(image@, helper, n) == Seq::<usize>::empty().push(c),
            caller is None ==> callers(image@, helper, n) == Seq::<usize>::empty(),
        decreases end + 4 - off,
    {
        match thumb_asm::decode_bl(image, off) {
            Some(t) => {
                if t / 2 == helper / 2 {
                    if caller.is_some() {
                        proof {
                            lemma_callers_grow(image@, helper, n + 1, call_sites(image@));
                            assert(callers(image@, helper, n + 1).len() == 2);
                        }
                        return None;
                    }
                    caller = Some(off);
                }
            },
            None => {},
        }
        off += 2;
        proof {
            n = n + 1;
        }
    }
    match caller {
        Some(c) => Some((c, helper)),
        None => None,
    }
}

impl Mt1959Engine {
    /// The boot-status reload. The modern shape is tried first; each shape has to
    /// match once, and `None` means that neither matches.
    pub fn find_boot_init(&self, image: &[u8]) -> (r: Result<Option<BootInitSite>, FwError>)
        requires
            raw::addressable(image@),
        ensures
            r == boot_init(image@),
            r matches Ok(Some(s)) ==> s.offset() <= image@.len(),
    {
        let len: usize = image.len();
        let modern: Vec<usize> = sig::find_masked_all(image, &BOOT_INIT_SIG, 0, len);
        if modern.len() == 1 {
            assert(sig::inside(image@, BOOT_INIT_SIG@, 0, modern@[0] as int));
            return Ok(Some(BootInitSite::Modern(modern[0] as u32 + 4)));
        }
        if modern.len() > 1 {
            return Err(
                FwError::Matches { what: Anchor::BootInit, count: modern.len(), lo: 0, hi: len },
            );
        }
        let classic: Vec<usize> = sig::find_masked_all(image, &BOOT_INIT_SIG_CLASSIC, 0, len);
        if classic.len() == 1 {
            assert(sig::inside(image@, BOOT_INIT_SIG_CLASSIC@, 0, classic@[0] as int));
            return Ok(Some(BootInitSite::ClassicUnconfirmed(classic[0] as u32 + 4)));
        }
        if classic.len() > 1 {
            return Err(
                FwError::Matches {
                    what: Anchor::BootInitClassic,
                    count: classic.len(),
                    lo: 0,
                    hi: len,
                },
            );
        }
        Ok(None)
    }

    /// The call that the boot hook takes over and the routine it called: the
    /// convergence call on a modern image, the leaf helper's one caller on a classic
    /// one.
    pub fn resolve_boot_init_pair(&self, image: &[u8]) -> (r: Result<(usize, u32), FwError>)
        requires
            raw::addressable(image@),
        ensures
            r == boot_init_pair(image@),
            r matches Ok(pair) ==> pair.0 + 4 <= image@.len(),
    {
        let site: Option<BootInitSite> = match self.find_boot_init(image) {
            Ok(s) => s,
            Err(e) => return Err(e),
        };
        let pair: (usize, u32) = match site {
            Some(BootInitSite::Modern(s)) => {
                match boot_init_convergence(image, s as usize) {
                    Some(p) => p,
                    None => return Err(FwError::Refused(Reason::BootConvergence { at: s })),
                }
            },
            Some(BootInitSite::ClassicUnconfirmed(s)) => {
                if !CLASSIC_BOOT_BLESSED {
                    return Err(FwError::Refused(Reason::BootUnblessed { at: s }));
                }
                match classic_boot_init_caller(image, s as usize) {
                    Some(p) => p,
                    None => {
                        let at: u32 = if s < 4 {
                            0
                        } else {
                            s - 4
                        };
                        return Err(FwError::Refused(Reason::BootCaller { at }));
                    },
                }
            },
            None => return Err(FwError::Refused(Reason::BootUnknown)),
        };
        proof {
            law_boot_hook_takes_over_a_call(image@, pair.0, pair.1);
        }
        Ok(pair)
    }
}

} // verus!
