//! What is at the places that detours take over: no two of them overlap, and none of them
//! is the flags byte of a dispatch record.
use crate::engine::boot;
use crate::engine::changes;
use crate::engine::code;
use crate::engine::detours;
use crate::engine::detours::AkePlan;
use crate::engine::gates;
use crate::engine::mt1939_classic;
use crate::engine::rawread;
use crate::engine::scanner;
use crate::engine::signatures::{
    AKE_GATE_SIG, AKE_GATE_SIG_CLASSIC, AKE_GATE_SIG_NB, AKE_GATE_SIG_NB_V5, BD_GATE_SIG,
    BD_GATE_SIG_VER, HRL_LOOKUP_SIG_CLASSIC, REGION_EMIT_SIG, SPEED_GATE_SIG, SPEED_GATE_SIG_R0,
    UHD_CLASSIFIER_SIG, UHD_CLASSIFIER_SIG_VER, VID_GATE_SIG, VID_GATE_SIG_CLASSIC,
    VID_GATE_SIG_JB8, VID_GATE_SIG_NB,
};
use crate::engine::vid;
use crate::error::{Anchor, FwError};
use crate::raw;
use crate::sig;
use crate::thumb;
use vstd::prelude::*;

verus! {

/// A kind of place that a detour takes over.
pub enum Spot {
    /// The read-ramp test.
    Speed,
    /// The store of the region state.
    Region,
    /// The handshake's reset writer, or the call that it shares.
    Ake,
    /// The classic handshake's reset writer.
    ClassicAke,
    /// The Volume ID compare.
    Gate,
    /// The sense setup of the deny path.
    Deny,
    /// The disc-version classifier.
    Uhd,
    /// A revocation check.
    Hrl,
    /// The media class check.
    Bd,
    /// The call that the boot hook takes over.
    Boot,
}

/// The two halfwords that a place of a kind has.
pub open spec fn shaped(h0: u16, h1: u16, kind: Spot) -> bool {
    match kind {
        Spot::Speed => (h0 == 0x2A32 || h0 == 0x2832) && h1 / 256 == 0xD8,
        Spot::Region => h0 == 0x7202 && h1 == 0x466B,
        Spot::Ake => h0 == 0x2101 && h1 / 2048 == 28 || h0 / 2048 == 30 && h1 / 4096 >= 13,
        Spot::ClassicAke => h0 == 0x0980 && h1 == 0x2101,
        Spot::Gate => h0 == 0x2806 && h1 / 256 == 0xD1,
        Spot::Deny => h0 == 0x2202 && h1 == 0x216F,
        Spot::Uhd => h0 == 0x980E && h1 == 0x2506 || h0 == 0x8808 && h1 == 0x2863,
        Spot::Hrl => h0 == 0x2800 && h1 / 256 == 0xD1,
        Spot::Bd => h0 == 0x79D0 && h1 == 0x2802 || h0 == 0x2A00 && h1 / 256 == 0xB0,
        Spot::Boot => h0 / 2048 == 30 && h1 / 4096 >= 13,
    }
}

/// A place of a kind is at `site`.
pub open spec fn spot(img: Seq<u8>, site: int, kind: Spot) -> bool {
    &&& 0 <= site
    &&& site + 4 <= img.len()
    &&& site % 2 == 0
    &&& shaped(raw::hw_at(img, site), raw::hw_at(img, site + 2), kind)
}

/// Two kinds whose places the content alone does not keep apart: the boot hook may be on the
/// call that the handshake shares, and the two lines' handshakes are of different images.
pub open spec fn alike(a: Spot, b: Spot) -> bool {
    (a is Ake && (b is Boot || b is ClassicAke)) || (b is Ake && (a is Boot || a is ClassicAke))
}

/// Places of different kinds do not overlap, and neither do two revocation checks.
pub proof fn law_detour_places_never_overlap(img: Seq<u8>, s: int, a: Spot, t: int, b: Spot)
    requires
        spot(img, s, a),
        spot(img, t, b),
        a != b || a is Hrl && s != t,
        !alike(a, b),
    ensures
        changes::window(s).disjoint(changes::window(t)),
{
    let s0 = raw::hw_at(img, s);
    let s1 = raw::hw_at(img, s + 2);
    let t0 = raw::hw_at(img, t);
    let t1 = raw::hw_at(img, t + 2);
    assert(t == s + 2 ==> t0 == s1);
    assert(s == t + 2 ==> s0 == t1);
    assert(s == t ==> s0 == t0);
    assert(s != t);
    assert(t != s + 2);
    assert(s != t + 2);
    assert forall|i: int| changes::window(s).contains(i) implies !changes::window(t).contains(i) by {
    }
}

/// A halfword under a full mask is itself; under a mask of its high byte it has that byte.
proof fn lemma_masks(h: u16)
    ensures
        h & 0xFFFF == h,
        h & 0xFF00 == 0xD800 ==> h / 256 == 0xD8,
        h & 0xF800 == 0xF000 <==> h / 2048 == 30,
        h & 0xD000 == 0xD000 ==> h / 4096 >= 13,
        h & 0xFF80 == 0xB080 ==> h / 256 == 0xB0,
{
    assert(h & 0xFFFF == h && (h & 0xFF00 == 0xD800 ==> h / 256 == 0xD8) && (h & 0xF800 == 0xF000
        <==> h / 2048 == 30) && (h & 0xD000 == 0xD000 ==> h / 4096 >= 13) && (h & 0xFF80 == 0xB080
        ==> h / 256 == 0xB0)) by (bit_vector);
}

/// Every match of a scan that starts at an even offset, or at the end, is at an even offset.
proof fn lemma_even(img: Seq<u8>, pat: Seq<(u16, u16)>, lo: int, hi: int)
    requires
        raw::addressable(img),
        0 <= lo,
        lo % 2 == 0 || lo == img.len(),
        pat.len() > 0,
    ensures
        forall|i: int|
            #![trigger sig::find_all(img, pat, lo, hi)[i]]
            0 <= i < sig::find_all(img, pat, lo, hi).len() ==> {
                let at = sig::find_all(img, pat, lo, hi)[i] as int;
                &&& at % 2 == 0
                &&& at + 2 * pat.len() <= img.len()
                &&& sig::sig_at(img, pat, at)
            },
{
    sig::lemma_find_all_inside(img, pat, lo, hi, sig::steps(lo, sig::scan_end(img, pat, hi)));
    let all = sig::find_all(img, pat, lo, hi);
    assert forall|i: int| #![trigger all[i]] 0 <= i < all.len() implies {
        let at = all[i] as int;
        &&& at % 2 == 0
        &&& at + 2 * pat.len() <= img.len()
        &&& sig::sig_at(img, pat, at)
    } by {
        assert(sig::inside(img, pat, lo, all[i] as int));
    }
}

/// The Speed place.
pub proof fn lemma_speed_spot(img: Seq<u8>)
    requires
        raw::addressable(img),
    ensures
        gates::speed_gate(img) matches Ok((gate, _)) ==> spot(img, gate + 4, Spot::Speed),
{
    let lo = scanner::least(0x0001_0000, img.len() as int);
    let hi = scanner::least(0x0002_0000, img.len() as int);
    let first = SPEED_GATE_SIG@;
    let second = SPEED_GATE_SIG_R0@;
    lemma_even(img, first, lo, hi);
    lemma_even(img, second, lo, hi);
    if let Ok((gate, reg)) = gates::speed_gate(img) {
        assert(first[2] == (0x2A32u16, 0xFFFFu16) && first[3] == (0xD800u16, 0xFF00u16));
        assert(second[2] == (0x2832u16, 0xFFFFu16) && second[3] == (0xD800u16, 0xFF00u16));
        lemma_masks(raw::hw_at(img, gate + 4));
        lemma_masks(raw::hw_at(img, gate + 6));
        if reg == 2 {
            assert(sig::sig_at(img, first, gate as int));
            assert(raw::hw_at(img, gate + 2 * 2) & first[2].1 == first[2].0);
            assert(raw::hw_at(img, gate + 2 * 3) & first[3].1 == first[3].0);
        } else {
            assert(sig::sig_at(img, second, gate as int));
            assert(raw::hw_at(img, gate + 2 * 2) & second[2].1 == second[2].0);
            assert(raw::hw_at(img, gate + 2 * 3) & second[3].1 == second[3].0);
        }
    }
}

/// The Region place.
pub proof fn lemma_region_spot(img: Seq<u8>, lo: int, hi: int)
    requires
        raw::addressable(img),
        0 <= lo,
        lo % 2 == 0,
    ensures
        gates::region_emitter_in(img, lo, hi) matches Ok(at) ==> spot(img, at + 6, Spot::Region),
{
    let pat = REGION_EMIT_SIG@;
    let from = scanner::least(lo, img.len() as int);
    lemma_even(img, pat, from, scanner::least(hi, img.len() as int));
    if let Ok(at) = gates::region_emitter_in(img, lo, hi) {
        assert(pat[3] == (0x7202u16, 0xFFFFu16) && pat[4] == (0x466Bu16, 0xFFFFu16));
        lemma_masks(raw::hw_at(img, at + 6));
        lemma_masks(raw::hw_at(img, at + 8));
        assert(sig::sig_at(img, pat, at as int));
        assert(raw::hw_at(img, at + 2 * 3) & pat[3].1 == pat[3].0);
        assert(raw::hw_at(img, at + 2 * 4) & pat[4].1 == pat[4].0);
    }
}

/// The AKE place.
#[verifier::rlimit(50)]
#[verifier::spinoff_prover]
pub proof fn lemma_ake_spot(img: Seq<u8>, flag_base: u32)
    requires
        raw::addressable(img),
    ensures
        detours::ake_plan(img, flag_base) matches Ok(p) ==> spot(img, p.site as int, Spot::Ake),
{
    let len = img.len() as int;
    lemma_even(img, AKE_GATE_SIG@, 0, len);
    lemma_even(img, AKE_GATE_SIG_NB@, 0, len);
    lemma_even(img, AKE_GATE_SIG_NB_V5@, 0, len);
    if let Ok(p) = detours::ake_plan(img, flag_base) {
        lemma_masks(raw::hw_at(img, p.site as int));
        lemma_masks(raw::hw_at(img, p.site + 2));
        match (gates::ake_gate(img), gates::ake_gate_nb(img), gates::ake_gate_nb_v5(img)) {
            (Ok(gate), _, _) => {
                assert(p.site == gate + 12);
            },
            (_, Ok(gate), _) => {
                assert(p.site == gate + 12);
            },
            (_, _, Ok(gate)) => {
                assert(p.site == gate + 14);
            },
            _ => {},
        }
    }
}

/// The Volume ID gate is at an even offset.
#[verifier::rlimit(40)]
proof fn lemma_vid_even(img: Seq<u8>)
    requires
        raw::addressable(img),
    ensures
        vid::vid_gate(img) matches Ok(gate) ==> gate % 2 == 0 && gate + 22 <= img.len(),
{
    let len = img.len() as int;
    let lo = scanner::least(0x0012_0000, len);
    let hi = scanner::least(0x0018_0000, len);
    lemma_even(img, VID_GATE_SIG@, lo, hi);
    lemma_even(img, VID_GATE_SIG_NB@, lo, hi);
    lemma_even(img, VID_GATE_SIG_JB8@, lo, hi);
}

/// The Volume ID and deny places of a gate.
#[verifier::rlimit(60)]
#[verifier::spinoff_prover]
proof fn lemma_gate_spots(img: Seq<u8>, flag_base: u32, ake: AkePlan, gate: int)
    requires
        raw::addressable(img),
        0 <= gate,
        gate % 2 == 0,
        gate + 22 <= img.len(),
    ensures
        rawread::gate_grounds(img, flag_base, ake, gate) matches Ok(g) ==> {
            &&& g.ake == ake
            &&& spot(img, g.gatea_site, Spot::Gate)
            &&& spot(img, g.deny_site, Spot::Deny)
        },
{
    let at = gate + 18;
    let t = code::cond_target(at + 2, raw::hw_at(img, at + 2));
    assert(t % 2 == 0);
    assert(code::address(t) % 2 == 0);
}

/// The AKE, Volume ID and deny places.
#[verifier::rlimit(40)]
pub proof fn lemma_core_spots(img: Seq<u8>, flag_base: u32)
    requires
        raw::addressable(img),
    ensures
        rawread::grounds(img, flag_base) matches Ok(g) ==> {
            &&& spot(img, g.ake.site as int, Spot::Ake)
            &&& spot(img, g.gatea_site, Spot::Gate)
            &&& spot(img, g.deny_site, Spot::Deny)
        },
{
    if let Ok(g) = rawread::grounds(img, flag_base) {
        let ake = detours::ake_plan(img, flag_base)->Ok_0;
        let gate = vid::vid_gate(img)->Ok_0;
        assert(rawread::gate_grounds(img, flag_base, ake, gate as int) == Ok::<
            rawread::Grounds,
            FwError,
        >(g));
        lemma_vid_even(img);
        lemma_ake_spot(img, flag_base);
        lemma_gate_spots(img, flag_base, ake, gate as int);
    }
}

/// The disc-version classifier is at an even offset.
#[verifier::rlimit(40)]
pub proof fn lemma_uhd_even(img: Seq<u8>)
    requires
        raw::addressable(img),
    ensures
        gates::uhd_classifier(img) matches Ok(at) ==> at % 2 == 0 && at + 10 <= img.len(),
{
    let len = img.len() as int;
    lemma_even(img, UHD_CLASSIFIER_SIG@, 0, len);
    lemma_even(img, UHD_CLASSIFIER_SIG_VER@, 0, len);
}

/// The media gate is at an even offset.
#[verifier::rlimit(40)]
pub proof fn lemma_bd_even(img: Seq<u8>)
    requires
        raw::addressable(img),
    ensures
        gates::bd_gate(img) matches Ok(at) ==> at % 2 == 0 && at + 18 <= img.len(),
{
    let len = img.len() as int;
    lemma_even(img, BD_GATE_SIG@, 0, len);
    lemma_even(img, BD_GATE_SIG_VER@, 0, len);
}

/// The UHD place.
#[verifier::rlimit(40)]
pub proof fn lemma_uhd_spot(img: Seq<u8>, flag_base: u32)
    requires
        raw::addressable(img),
    ensures
        detours::uhd_plan(img, flag_base) matches Ok((site, _)) ==> spot(
            img,
            site as int,
            Spot::Uhd,
        ),
{
    lemma_uhd_even(img);
}

/// The BD place.
#[verifier::rlimit(40)]
pub proof fn lemma_bd_spot(img: Seq<u8>, flag_base: u32)
    requires
        raw::addressable(img),
    ensures
        detours::bd_plan(img, flag_base) matches Ok((site, _)) ==> spot(img, site as int, Spot::Bd),
{
    lemma_bd_even(img);
    if let Ok((site, _)) = detours::bd_plan(img, flag_base) {
        lemma_masks(raw::hw_at(img, site + 2));
    }
}

/// A check that follows a call is a revocation place.
proof fn lemma_check_after(img: Seq<u8>, p: int, end: int)
    requires
        raw::addressable(img),
        0 <= p,
        p % 2 == 0,
        end <= img.len(),
    ensures
        gates::check_after(img, p, end) matches Some(q) ==> spot(img, q as int, Spot::Hrl),
    decreases end - p,
{
    if p + 4 <= end {
        lemma_check_after(img, p + 2, end);
    }
}

/// Every revocation check is a revocation place.
proof fn lemma_checks(img: Seq<u8>, o: int, lookup: u32)
    requires
        raw::addressable(img),
        0 <= o,
        o % 2 == 0,
    ensures
        forall|i: int|
            0 <= i < gates::lookup_checks(img, o, lookup).len() ==> spot(
                img,
                #[trigger] gates::lookup_checks(img, o, lookup)[i] as int,
                Spot::Hrl,
            ),
    decreases img.len() - o,
{
    if o + 4 <= img.len() {
        lemma_checks(img, o + 2, lookup);
        lemma_check_after(img, o + 4, scanner::least(o + 28, scanner::short_of(img, 4)));
        let rest = gates::lookup_checks(img, o + 2, lookup);
        let all = gates::lookup_checks(img, o, lookup);
        assert forall|i: int| 0 <= i < all.len() implies spot(
            img,
            #[trigger] all[i] as int,
            Spot::Hrl,
        ) by {
            if gates::checked_call(img, o, lookup) is Some {
                if i > 0 {
                    assert(all[i] == rest[i - 1]);
                }
            } else {
                assert(all[i] == rest[i]);
            }
        }
    }
}

/// The revocation places.
pub proof fn lemma_hrl_spots(img: Seq<u8>)
    requires
        raw::addressable(img),
    ensures
        gates::hrl_skip_sites(img) matches Ok((sites, _)) ==> forall|i: int|
            0 <= i < sites.len() ==> spot(img, #[trigger] sites[i] as int, Spot::Hrl),
{
    if let Ok((sites, _)) = gates::hrl_skip_sites(img) {
        lemma_checks(img, 0, gates::hrl_lookup(img)->Ok_0);
    }
}

/// A classic check is a revocation place.
proof fn lemma_classic_check(img: Seq<u8>, p: int, hopped: bool, n: nat)
    requires
        raw::addressable(img),
        p % 2 == 0,
    ensures
        mt1939_classic::classic_check(img, p, hopped, n) matches Some(q) ==> spot(
            img,
            q as int,
            Spot::Hrl,
        ),
    decreases n,
{
    if n > 0 && 0 <= p && p + 4 <= img.len() {
        let t = code::jump_target(p, raw::hw_at(img, p));
        assert(t % 2 == 0);
        lemma_classic_check(img, t, true, (n - 1) as nat);
        lemma_classic_check(img, p + 2, hopped, (n - 1) as nat);
    }
}

/// Every classic revocation check is a revocation place.
proof fn lemma_classic_checks(img: Seq<u8>, o: int, lookup: u32)
    requires
        raw::addressable(img),
        0 <= o,
        o % 2 == 0,
    ensures
        forall|i: int|
            0 <= i < mt1939_classic::classic_checks(img, o, lookup).len() ==> spot(
                img,
                #[trigger] mt1939_classic::classic_checks(img, o, lookup)[i] as int,
                Spot::Hrl,
            ),
    decreases img.len() - o,
{
    if o + 4 <= img.len() {
        lemma_classic_checks(img, o + 2, lookup);
        lemma_classic_check(img, o + 4, false, mt1939_classic::CHECK_STEPS as nat);
        let rest = mt1939_classic::classic_checks(img, o + 2, lookup);
        let all = mt1939_classic::classic_checks(img, o, lookup);
        assert forall|i: int| 0 <= i < all.len() implies spot(
            img,
            #[trigger] all[i] as int,
            Spot::Hrl,
        ) by {
            if mt1939_classic::classic_checked_call(img, o, lookup) is Some {
                if i > 0 {
                    assert(all[i] == rest[i - 1]);
                }
            } else {
                assert(all[i] == rest[i]);
            }
        }
    }
}

/// The classic revocation places.
pub proof fn lemma_classic_hrl_spots(img: Seq<u8>)
    requires
        raw::addressable(img),
    ensures
        mt1939_classic::classic_hrl_sites(img) matches Ok((sites, _)) ==> forall|i: int|
            0 <= i < sites.len() ==> spot(img, #[trigger] sites[i] as int, Spot::Hrl),
{
    if let Ok((sites, _)) = mt1939_classic::classic_hrl_sites(img) {
        let lookup = sig::only(
            sig::find_loose(img, HRL_LOOKUP_SIG_CLASSIC@, 0, img.len() as int),
            Anchor::ClassicHrlLookup,
            0,
            img.len() as int,
        )->Ok_0;
        lemma_classic_checks(img, 0, lookup as u32);
    }
}

/// A loose match of a scan from the start is at an even offset.
proof fn lemma_loose_even(img: Seq<u8>, pat: Seq<(u16, u16)>, n: nat, end: int)
    requires
        raw::addressable(img),
        end <= img.len(),
        n > 0 ==> 2 * (n - 1) + 2 * pat.len() <= end,
    ensures
        forall|i: int|
            #![trigger sig::loose_hits(img, pat, 0, n)[i]]
            0 <= i < sig::loose_hits(img, pat, 0, n).len() ==> {
                let at = sig::loose_hits(img, pat, 0, n)[i] as int;
                at % 2 == 0 && at + 2 * pat.len() <= end
            },
    decreases n,
{
    if n > 0 {
        lemma_loose_even(img, pat, (n - 1) as nat, end);
        let rest = sig::loose_hits(img, pat, 0, (n - 1) as nat);
        let all = sig::loose_hits(img, pat, 0, n);
        let off = 2 * (n - 1);
        assert(off as usize == off);
        assert forall|i: int| #![trigger all[i]] 0 <= i < all.len() implies {
            let at = all[i] as int;
            at % 2 == 0 && at + 2 * pat.len() <= end
        } by {
            if i < rest.len() {
                assert(all[i] == rest[i]);
            }
        }
    }
}

/// The one loose match in an image is at an even offset.
proof fn lemma_loose_found(img: Seq<u8>, pat: Seq<(u16, u16)>, what: Anchor)
    requires
        raw::addressable(img),
    ensures
        sig::only(
            sig::find_loose(img, pat, 0, img.len() as int),
            what,
            0,
            img.len() as int,
        ) matches Ok(at) ==> at % 2
            == 0 && at + 2 * pat.len() <= img.len(),
{
    let end = img.len() as int;
    if 2 * pat.len() <= end {
        lemma_loose_even(img, pat, ((end - 2 * pat.len()) / 2 + 1) as nat, end);
    }
}

/// The classic Volume ID and AKE places.
#[verifier::rlimit(40)]
pub proof fn lemma_classic_core_spots(img: Seq<u8>, flag_base: u32)
    requires
        raw::addressable(img),
    ensures
        mt1939_classic::classic_grounds(img, flag_base) matches Ok(g) ==> {
            &&& spot(img, g.gatea_site, Spot::Gate)
            &&& spot(img, g.ake + 6, Spot::ClassicAke)
        },
{
    lemma_loose_found(img, VID_GATE_SIG_CLASSIC@, Anchor::ClassicVidGate);
    lemma_loose_found(img, AKE_GATE_SIG_CLASSIC@, Anchor::ClassicAkeGate);
}

/// A call has the shape of one.
pub proof fn lemma_call_shape(img: Seq<u8>, at: int)
    requires
        0 <= at,
        at + 4 <= img.len(),
        at % 2 == 0,
        thumb::branch_target(thumb::BranchShape::Bl, img, at) is Some,
    ensures
        spot(img, at, Spot::Boot),
{
    lemma_masks(raw::hw_at(img, at));
    lemma_masks(raw::hw_at(img, at + 2));
}

/// The boot hook's place.
pub proof fn lemma_boot_spot(img: Seq<u8>)
    requires
        raw::addressable(img),
    ensures
        boot::boot_init_pair(img) matches Ok(pair) ==> spot(img, pair.0 as int, Spot::Boot),
{
    if let Ok(pair) = boot::boot_init_pair(img) {
        boot::law_boot_hook_takes_over_a_call(img, pair.0, pair.1);
        lemma_call_shape(img, pair.0 as int);
    }
}

} // verus!
