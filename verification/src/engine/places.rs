//! The places that the features rest on, in terms of the image's own bytes: the Volume ID
//! producer and its session, the boot path, the disc-mode dispatcher and the revocation
//! checks.
use crate::engine::base::Layout;
use crate::engine::boot;
use crate::engine::code;
use crate::engine::create;
use crate::engine::create::Created;
use crate::engine::found;
use crate::engine::gates;
use crate::engine::oem;
use crate::engine::scanner;
use crate::engine::signatures::{
    BOOT_INIT_SIG, BOOT_INIT_SIG_CLASSIC, DISPATCHER_SIG, HRL_LOOKUP_SIG, SESSION_RESET_SIG,
    SETDISCMODE_SIG, VID_GATE_SIG, VID_GATE_SIG_JB8, VID_GATE_SIG_NB,
};
use crate::engine::sram;
use crate::engine::vid;
use crate::error::FwError;
use crate::raw;
use crate::sig;
use crate::thumb;
use crate::thumb::BranchShape;
use vstd::prelude::*;

verus! {

/// The call at `p` goes to `t`.
pub open spec fn calls(img: Seq<u8>, p: int, t: u32) -> bool {
    thumb::branch_target(BranchShape::Bl, img, p) == Some(t)
}

/// A match that is the only one of its scan is one, and no other place of the scan matches.
proof fn lemma_single(img: Seq<u8>, pat: Seq<(u16, u16)>, lo: int, hi: int)
    requires
        raw::addressable(img),
        0 <= lo,
    ensures
        sig::find_all(img, pat, lo, hi).len() == 1 ==> {
            let at = sig::find_all(img, pat, lo, hi)[0] as int;
            &&& at < hi
            &&& sig::inside(img, pat, lo, at)
            &&& forall|p: int|
                p < hi && #[trigger] sig::inside(img, pat, lo, p) ==> p == at
        },
{
    let all = sig::find_all(img, pat, lo, hi);
    if all.len() == 1 {
        assert(all.contains(all[0]));
        sig::law_scan_reports_every_match(img, pat, lo, hi, all[0]);
        assert forall|p: int| p < hi && #[trigger] sig::inside(img, pat, lo, p) implies p
            == all[0] by {
            oem::lemma_only_match(img, pat, lo, hi, p);
        }
    }
}

/// The Volume ID gate's address computation ends sixteen bytes behind `at` with the load of
/// the state byte, its compare with 6 and the branch that denies.
pub open spec fn gates_volume_id(img: Seq<u8>, at: int) -> bool {
    &&& raw::hw_at(img, at + 4) == 0x1808
    &&& raw::hw_at(img, at + 6) / 256 == 0x49
    &&& raw::hw_at(img, at + 8) == 0x0200
    &&& raw::hw_at(img, at + 10) == 0x6809
    &&& raw::hw_at(img, at + 12) == 0x0A00
    &&& raw::hw_at(img, at + 14) == 0x1840
    &&& raw::hw_at(img, at + 16) == 0x7800
    &&& raw::hw_at(img, at + 18) == 0x2806
    &&& raw::hw_at(img, at + 20) / 256 == 0xD1
}

/// Every shape of the VID gate ends alike.
proof fn lemma_vid_shapes(img: Seq<u8>, at: int)
    ensures
        sig::sig_at(img, VID_GATE_SIG@, at) || sig::sig_at(img, VID_GATE_SIG_NB@, at)
            || sig::sig_at(img, VID_GATE_SIG_JB8@, at) ==> gates_volume_id(img, at),
{
    let a = VID_GATE_SIG@;
    let b = VID_GATE_SIG_NB@;
    let c = VID_GATE_SIG_JB8@;
    if sig::sig_at(img, a, at) {
        lemma_vid_tail(img, a, at);
    } else if sig::sig_at(img, b, at) {
        lemma_vid_tail(img, b, at);
    } else if sig::sig_at(img, c, at) {
        lemma_vid_tail(img, c, at);
    }
}

/// The tail of a shape of the VID gate.
proof fn lemma_vid_tail(img: Seq<u8>, s: Seq<(u16, u16)>, at: int)
    requires
        sig::sig_at(img, s, at),
        s.len() == 11,
        s[2] == (0x1808u16, 0xFFFFu16),
        s[3] == (0x4900u16, 0xFF00u16),
        s[4] == (0x0200u16, 0xFFFFu16),
        s[5] == (0x6809u16, 0xFFFFu16),
        s[6] == (0x0A00u16, 0xFFFFu16),
        s[7] == (0x1840u16, 0xFFFFu16),
        s[8] == (0x7800u16, 0xFFFFu16),
        s[9] == (0x2806u16, 0xFFFFu16),
        s[10] == (0xD100u16, 0xFF00u16),
    ensures
        gates_volume_id(img, at),
{
    oem::lemma_sig_full(img, s, at, 2, 0x1808);
    found::lemma_sig_upper(img, s, at, 3, 0x4900);
    oem::lemma_sig_full(img, s, at, 4, 0x0200);
    oem::lemma_sig_full(img, s, at, 5, 0x6809);
    oem::lemma_sig_full(img, s, at, 6, 0x0A00);
    oem::lemma_sig_full(img, s, at, 7, 0x1840);
    oem::lemma_sig_full(img, s, at, 8, 0x7800);
    oem::lemma_sig_full(img, s, at, 9, 0x2806);
    found::lemma_sig_upper(img, s, at, 10, 0xD100);
}

/// The Volume ID gate that is found is one, in its window.
pub proof fn law_volume_id_gate_is_in_the_image(img: Seq<u8>)
    requires
        raw::addressable(img),
    ensures
        vid::vid_gate(img) matches Ok(at) ==> {
            &&& 0x0012_0000 <= at < 0x0018_0000
            &&& at % 2 == 0
            &&& at + 22 <= img.len()
            &&& gates_volume_id(img, at as int)
        },
{
    let lo = scanner::least(0x0012_0000, img.len() as int);
    let hi = scanner::least(0x0018_0000, img.len() as int);
    lemma_single(img, VID_GATE_SIG@, lo, hi);
    lemma_single(img, VID_GATE_SIG_NB@, lo, hi);
    lemma_single(img, VID_GATE_SIG_JB8@, lo, hi);
    if let Ok(at) = vid::vid_gate(img) {
        lemma_vid_shapes(img, at as int);
        assert(lo == 0x0012_0000);
    }
}

/// The nearest `push {r4-r7,lr}` at or before `p` is one, and none is nearer.
proof fn lemma_producer_entry(img: Seq<u8>, gate: int, p: int)
    requires
        p <= gate <= usize::MAX,
        p % 2 == 0,
    ensures
        vid::producer_entry(img, gate, p) matches Some(e) ==> 2 <= e <= p && e % 2 == 0 && gate - e
            <= 0x200 && raw::hw_at(img, e as int) == 0xB5F0 && forall|q: int|
            e < q <= p && q % 2 == 0 ==> #[trigger] raw::hw_at(img, q) != 0xB5F0,
    decreases p,
{
    if !(p < 2 || gate - p > 0x200) && raw::hw_at(img, p) != vid::PRODUCER_PUSH {
        lemma_producer_entry(img, gate, p - 2);
    }
}

/// The Volume ID producer around the VID gate at `at` starts at `p`: the nearest push of `r4` to
/// `r7` and the link register before the load of the state byte.
pub open spec fn produces(img: Seq<u8>, at: int, p: int) -> bool {
    &&& 2 <= p <= at + 16
    &&& at + 16 - p <= 0x200
    &&& p % 2 == 0
    &&& raw::hw_at(img, p) == 0xB5F0
    &&& forall|q: int|
        p < q <= at + 16 && q % 2 == 0 ==> #[trigger] raw::hw_at(img, q) != 0xB5F0
}

/// The load at `o` reads the address of a buffer in runtime RAM.
pub open spec fn loads_buffer(img: Seq<u8>, o: int) -> bool {
    &&& raw::hw_at(img, o) / 2048 == 9
    &&& o - o % 4 + 4 + 4 * (raw::hw_at(img, o) % 256) + 4 <= img.len()
    &&& 0x0020_1000 <= found::loaded(img, o) < 0x0030_0000
}

/// Buffers that are loaded are those of the loads.
proof fn lemma_buffers(img: Seq<u8>, o: int, end: int)
    requires
        0 <= o,
        end <= img.len(),
    ensures
        forall|q: int|
            o <= q && q + 2 <= end && (q - o) % 2 == 0 && #[trigger] loads_buffer(img, q)
                ==> vid::runtime_literals(img, o, end).contains(found::loaded(img, q)),
        vid::runtime_literals(img, o, end).len() > 0 ==> exists|q: int|
            o <= q < end && #[trigger] loads_buffer(img, q) && found::loaded(img, q)
                == vid::runtime_literals(img, o, end)[0],
    decreases end - o,
{
    if o + 2 <= end {
        lemma_buffers(img, o + 2, end);
        assert((o + 4) / 4 * 4 == o - o % 4 + 4);
        let rest = vid::runtime_literals(img, o + 2, end);
        let all = vid::runtime_literals(img, o, end);
        assert(vid::runtime_literal(img, o) is Some <==> loads_buffer(img, o));
        if let Some(v) = vid::runtime_literal(img, o) {
            assert(all == seq![v] + rest);
            assert(all[0] == v);
            assert(loads_buffer(img, o));
        } else {
            assert(all == rest);
        }
        assert forall|q: int|
            o <= q && q + 2 <= end && (q - o) % 2 == 0 && #[trigger] loads_buffer(
                img,
                q,
            ) implies all.contains(found::loaded(img, q)) by {
            if q == o {
                assert(all[0] == found::loaded(img, q));
            } else {
                assert(rest.contains(found::loaded(img, q)));
                let i = choose|i: int| 0 <= i < rest.len() && rest[i] == found::loaded(img, q);
                if vid::runtime_literal(img, o) is Some {
                    assert(all[i + 1] == rest[i]);
                }
            }
        }
    }
}

/// The Volume ID producer that is found is the function around the VID gate, and the buffer that
/// it stages into is the one buffer in runtime RAM that its code loads the address of.
pub proof fn law_volume_id_producer_is_around_its_test(img: Seq<u8>)
    requires
        raw::addressable(img),
    ensures
        vid::vid_producer(img) matches Ok((p, buffer)) ==> vid::vid_gate(img) matches Ok(at) && {
            &&& produces(img, at as int, p as int)
            &&& 0x0020_1000 <= buffer < 0x0030_0000
            &&& exists|o: int|
                p <= o < at + 0x90 && #[trigger] loads_buffer(img, o) && found::loaded(img, o)
                    == buffer
            &&& forall|o: int|
                p <= o && o + 2 <= at + 0x90 && o + 2 <= img.len() && o % 2 == 0
                    && #[trigger] loads_buffer(img, o) ==> found::loaded(img, o) == buffer
        },
{
    law_volume_id_gate_is_in_the_image(img);
    if let Ok((p, buffer)) = vid::vid_producer(img) {
        let at = vid::vid_gate(img)->Ok_0;
        lemma_producer_entry(img, at + 16, at + 16);
        let end = scanner::least(at + 0x90, img.len() as int);
        lemma_buffers(img, p as int, end);
        let all = vid::runtime_literals(img, p as int, end);
        assert(all[0] == buffer);
        let q = choose|q: int|
            p <= q < end && #[trigger] loads_buffer(img, q) && found::loaded(img, q) == all[0];
        assert(loads_buffer(img, q));
        assert forall|o: int|
            p <= o && o + 2 <= at + 0x90 && o + 2 <= img.len() && o % 2 == 0
                && #[trigger] loads_buffer(img, o) implies found::loaded(img, o) == buffer by {
            assert((o - p) % 2 == 0);
            assert(all.contains(found::loaded(img, o)));
            let i = choose|i: int| 0 <= i < all.len() && all[i] == found::loaded(img, o);
            assert(all[i] == all[0]);
        }
    }
}

/// The load at `o` reads the address of an SRAM cell into `r7`.
pub open spec fn loads_session(img: Seq<u8>, o: int) -> bool {
    &&& raw::hw_at(img, o) / 256 == 0x4F
    &&& o - o % 4 + 4 + 4 * (raw::hw_at(img, o) % 256) + 4 <= img.len()
    &&& found::in_cells(found::loaded(img, o))
}

/// The first load of a session struct is one.
proof fn lemma_session_load(img: Seq<u8>, o: int, gate: int)
    requires
        0 <= o,
        gate <= img.len(),
    ensures
        vid::session_load(img, o, gate) matches Some(v) ==> exists|q: int|
            {
                &&& o <= q < gate
                &&& (q - o) % 2 == 0
                &&& #[trigger] loads_session(img, q)
                &&& v == found::loaded(img, q)
                &&& forall|j: int|
                    o <= j < q && (j - o) % 2 == 0 ==> !#[trigger] loads_session(img, j)
            },
    decreases gate - o,
{
    if o + 2 <= gate {
        assert((o + 4) / 4 * 4 == o - o % 4 + 4);
        assert(code::loads_literal_into(raw::hw_at(img, o), 7) && code::sram_literal_at(
            img,
            o,
        ) is Some <==> loads_session(img, o));
        if !loads_session(img, o) {
            lemma_session_load(img, o + 2, gate);
            if let Some(v) = vid::session_load(img, o, gate) {
                let q = choose|q: int|
                    {
                        &&& o + 2 <= q < gate
                        &&& (q - (o + 2)) % 2 == 0
                        &&& #[trigger] loads_session(img, q)
                        &&& v == found::loaded(img, q)
                        &&& forall|j: int|
                            o + 2 <= j < q && (j - (o + 2)) % 2 == 0 ==> !#[trigger] loads_session(
                                img,
                                j,
                            )
                    };
                assert forall|j: int|
                    o <= j < q && (j - o) % 2 == 0 implies !#[trigger] loads_session(img, j) by {
                    assert(j == o || (o + 2 <= j && (j - (o + 2)) % 2 == 0));
                }
                assert(loads_session(img, q));
            }
        }
    }
}

/// The session struct that is found is what the producer first loads into `r7` of SRAM
/// addresses, before the VID gate.
pub proof fn law_session_struct_is_what_the_producer_loads(img: Seq<u8>)
    requires
        raw::addressable(img),
    ensures
        vid::agid_struct(img) matches Ok(v) ==> vid::vid_gate(img) matches Ok(at) && exists|
            p: int,
            q: int,
        |
            {
                &&& #[trigger] produces(img, at as int, p)
                &&& p <= q < at + 16
                &&& q % 2 == 0
                &&& #[trigger] loads_session(img, q)
                &&& v == found::loaded(img, q)
                &&& forall|j: int|
                    p <= j < q && j % 2 == 0 ==> !#[trigger] loads_session(img, j)
            },
{
    law_volume_id_gate_is_in_the_image(img);
    if let Ok(v) = vid::agid_struct(img) {
        let at = vid::vid_gate(img)->Ok_0;
        lemma_producer_entry(img, at + 16, at + 16);
        let p = vid::producer_entry(img, at + 16, at + 16)->Some_0 as int;
        assert(produces(img, at as int, p));
        lemma_session_load(img, p, at + 16);
        let q = choose|q: int|
            {
                &&& p <= q < at + 16
                &&& (q - p) % 2 == 0
                &&& #[trigger] loads_session(img, q)
                &&& v == found::loaded(img, q)
                &&& forall|j: int|
                    p <= j < q && (j - p) % 2 == 0 ==> !#[trigger] loads_session(img, j)
            };
        assert forall|j: int| p <= j < q && j % 2 == 0 implies !#[trigger] loads_session(
            img,
            j,
        ) by {
            assert((j - p) % 2 == 0);
        }
        assert(loads_session(img, q));
    }
}

/// `movs r1,#1` is at `o`, and the call behind it goes to `t`, but for the Thumb bit.
pub open spec fn sets_state(img: Seq<u8>, o: int, t: u32) -> bool {
    &&& raw::hw_at(img, o) == 0x2101
    &&& thumb::branch_target(BranchShape::Bl, img, o + 2) matches Some(to) && to - to % 2 == t
}

/// Routines that are called to set a state are those of the calls.
proof fn lemma_setters(img: Seq<u8>, o: int, end: int)
    ensures
        forall|q: int, t: u32|
            o <= q && q + 4 <= end && (q - o) % 2 == 0 && #[trigger] sets_state(img, q, t)
                ==> vid::setter_calls(img, o, end).contains(t),
        vid::setter_calls(img, o, end).len() > 0 ==> exists|q: int|
            o <= q < end && #[trigger] sets_state(img, q, vid::setter_calls(img, o, end)[0]),
    decreases end - o,
{
    if o + 4 <= end {
        lemma_setters(img, o + 2, end);
        let rest = vid::setter_calls(img, o + 2, end);
        let all = vid::setter_calls(img, o, end);
        if let Some(v) = vid::setter_call(img, o) {
            assert(all == seq![v] + rest);
            assert(all[0] == v);
            assert(sets_state(img, o, v));
        } else {
            assert(all == rest);
        }
        assert forall|q: int, t: u32|
            o <= q && q + 4 <= end && (q - o) % 2 == 0 && #[trigger] sets_state(
                img,
                q,
                t,
            ) implies all.contains(t) by {
            if q == o {
                assert(vid::setter_call(img, o) == Some(t));
                assert(all[0] == t);
            } else {
                assert(rest.contains(t));
                let i = choose|i: int| 0 <= i < rest.len() && rest[i] == t;
                if vid::setter_call(img, o) is Some {
                    assert(all[i + 1] == rest[i]);
                }
            }
        }
    }
}

/// The routine that opens the VID gate is the one that the producer calls with 1 behind it.
pub proof fn law_gate_setter_is_what_the_producer_calls(img: Seq<u8>)
    requires
        raw::addressable(img),
    ensures
        vid::gate_setter(img) matches Ok(t) ==> vid::vid_gate(img) matches Ok(at) && {
            &&& exists|o: int| at + 16 <= o < at + 0x70 && #[trigger] sets_state(img, o, t)
            &&& forall|o: int, u: u32|
                at + 16 <= o && o + 4 <= at + 0x70 && o + 8 <= img.len() && o % 2 == 0
                    && #[trigger] sets_state(img, o, u) ==> u == t
        },
{
    law_volume_id_gate_is_in_the_image(img);
    if let Ok(t) = vid::gate_setter(img) {
        let at = vid::vid_gate(img)->Ok_0;
        let end = scanner::least(at + 0x70, scanner::short_of(img, 4));
        lemma_setters(img, at + 16, end);
        let all = vid::setter_calls(img, at + 16, end);
        assert(all[0] == t);
        assert forall|o: int, u: u32|
            at + 16 <= o && o + 4 <= at + 0x70 && o + 8 <= img.len() && o % 2 == 0
                && #[trigger] sets_state(img, o, u) implies u == t by {
            assert((o - (at + 16)) % 2 == 0);
            assert(all.contains(u));
            let i = choose|i: int| 0 <= i < all.len() && all[i] == u;
            assert(all[i] == all[0]);
        }
    }
}

/// The loop that resets both AGIDs is at `m`, and calls `setter`, but for the Thumb bit.
pub open spec fn resets(img: Seq<u8>, m: int, setter: u32) -> bool {
    &&& raw::hw_at(img, m) == 0x2100
    &&& raw::hw_at(img, m + 2) == 0x2000
    &&& raw::hw_at(img, m + 8) == 0x2300
    &&& raw::hw_at(img, m + 10) == 0x2101
    &&& raw::hw_at(img, m + 12) == 0x0018
    &&& thumb::branch_target(BranchShape::Bl, img, m + 14) matches Some(to) && to - to % 2 == setter
    &&& raw::hw_at(img, m + 18) == 0x1C5B
    &&& raw::hw_at(img, m + 20) == 0x061B
    &&& raw::hw_at(img, m + 22) == 0x0E1B
    &&& raw::hw_at(img, m + 24) == 0x2B02
    &&& raw::hw_at(img, m + 26) / 256 == 0xD3
}

/// Candidates that call the setter are reset loops.
proof fn lemma_reset_loops(img: Seq<u8>, cands: Seq<usize>, setter: u32, n: nat)
    requires
        n <= cands.len(),
        forall|i: int|
            0 <= i < cands.len() ==> sig::inside(
                img,
                SESSION_RESET_SIG@,
                0,
                #[trigger] cands[i] as int,
            ),
    ensures
        forall|i: int|
            0 <= i < vid::reset_loops(img, cands, setter, n).len() ==> resets(
                img,
                #[trigger] vid::reset_loops(img, cands, setter, n)[i] as int,
                setter,
            ) && vid::reset_loops(img, cands, setter, n)[i] % 2 == 0 && vid::reset_loops(
                img,
                cands,
                setter,
                n,
            )[i] + 28 <= img.len(),
    decreases n,
{
    if n > 0 {
        lemma_reset_loops(img, cands, setter, (n - 1) as nat);
        let before = vid::reset_loops(img, cands, setter, (n - 1) as nat);
        let all = vid::reset_loops(img, cands, setter, n);
        let m = cands[n - 1] as int;
        assert forall|i: int| 0 <= i < all.len() implies resets(
            img,
            #[trigger] all[i] as int,
            setter,
        ) && all[i] % 2 == 0 && all[i] + 28 <= img.len() by {
            if i < before.len() {
                assert(all[i] == before[i]);
            } else {
                assert(sig::inside(img, SESSION_RESET_SIG@, 0, m));
                let s = SESSION_RESET_SIG@;
                oem::lemma_sig_full(img, s, m, 0, 0x2100);
                oem::lemma_sig_full(img, s, m, 1, 0x2000);
                oem::lemma_sig_full(img, s, m, 4, 0x2300);
                oem::lemma_sig_full(img, s, m, 5, 0x2101);
                oem::lemma_sig_full(img, s, m, 6, 0x0018);
                oem::lemma_sig_full(img, s, m, 9, 0x1C5B);
                oem::lemma_sig_full(img, s, m, 10, 0x061B);
                oem::lemma_sig_full(img, s, m, 11, 0x0E1B);
                oem::lemma_sig_full(img, s, m, 12, 0x2B02);
                found::lemma_sig_upper(img, s, m, 13, 0xD300);
            }
        }
    }
}

/// `h` pushes `r4`, `r5`, `r6` and the link register.
pub open spec fn pushes_work(h: u16) -> bool {
    h / 256 == 0xB5 && h & 0x70 == 0x70
}

/// The nearest push at or before `p` is one, and none is nearer.
proof fn lemma_reset_entry(img: Seq<u8>, m: int, p: int)
    requires
        p <= m <= usize::MAX,
        p % 2 == 0,
    ensures
        vid::reset_entry(img, m, p) matches Some(e) ==> 2 <= e <= p && e % 2 == 0 && m - e <= 0x40
            && pushes_work(raw::hw_at(img, e as int)) && forall|q: int|
            e < q <= p && q % 2 == 0 ==> !pushes_work(#[trigger] raw::hw_at(img, q)),
    decreases p,
{
    if !(p < 2 || m - p > 0x40) && !vid::pushes_work_registers(raw::hw_at(img, p)) {
        lemma_reset_entry(img, m, p - 2);
    }
}

/// The routine that idles the AACS engine is the function around the loop that resets both
/// AGIDs with the routine that opens the VID gate.
pub proof fn law_session_reset_is_around_the_reset_loop(img: Seq<u8>)
    requires
        raw::addressable(img),
    ensures
        vid::session_reset(img) matches Ok(p) ==> vid::gate_setter(img) matches Ok(setter)
            && exists|m: int|
            {
                &&& #[trigger] resets(img, m, setter)
                &&& p <= m <= p + 0x40
                &&& pushes_work(raw::hw_at(img, p as int))
                &&& forall|q: int|
                    p < q <= m && q % 2 == 0 ==> !pushes_work(#[trigger] raw::hw_at(img, q))
            },
{
    if let Ok(p) = vid::session_reset(img) {
        let setter = vid::gate_setter(img)->Ok_0;
        let pat = SESSION_RESET_SIG@;
        let len = img.len() as int;
        let cands = sig::find_all(img, pat, 0, len);
        sig::lemma_find_all_inside(
            img,
            pat,
            0,
            len,
            sig::steps(0, sig::scan_end(img, pat, len)),
        );
        lemma_reset_loops(img, cands, setter, cands.len());
        let loops = vid::reset_loops(img, cands, setter, cands.len());
        let m = loops[0] as int;
        assert(resets(img, m, setter));
        lemma_reset_entry(img, m, m);
    }
}

/// The main task's prologue at `p` reads the boot mode, and leaves for the warm path.
pub open spec fn reads_boot_mode(img: Seq<u8>, p: int) -> bool {
    &&& raw::hw_at(img, p) / 256 == 0x48
    &&& raw::hw_at(img, p + 2) == 0xB570
    &&& raw::hw_at(img, p + 4) == 0x6980
    &&& raw::hw_at(img, p + 6) == 0x0600
    &&& raw::hw_at(img, p + 8) == 0xD403
    &&& raw::hw_at(img, p + 10) == 0x2100
    &&& raw::hw_at(img, p + 12) == 0x2000
}

/// The leaf helper at `p` reads the boot mode.
pub open spec fn helps_boot(img: Seq<u8>, p: int) -> bool {
    &&& raw::hw_at(img, p) / 256 == 0x48
    &&& raw::hw_at(img, p + 2) == 0x38C0
    &&& raw::hw_at(img, p + 4) == 0x6980
    &&& raw::hw_at(img, p + 6) == 0x0600
    &&& raw::hw_at(img, p + 8) / 256 == 0xD4
}

/// The call that the boot hook takes over is where the prologue that reads the boot mode
/// rejoins its warm path; or, in an image without one, it is the call of the leaf helper
/// that reads the boot mode.
#[verifier::rlimit(40)]
pub proof fn law_boot_hook_is_on_the_boot_path(img: Seq<u8>)
    requires
        raw::addressable(img),
    ensures
        boot::boot_init_pair(img) matches Ok((at, to)) ==> {
            ||| exists|p: int|
                {
                    &&& #[trigger] reads_boot_mode(img, p)
                    &&& at == oem::branch_to(img, p + 8)
                    &&& calls(img, at as int, to)
                }
            ||| exists|p: int|
                {
                    &&& #[trigger] helps_boot(img, p)
                    &&& to == p
                    &&& thumb::branch_target(
                        BranchShape::Bl,
                        img,
                        at as int,
                    ) matches Some(t) && t / 2 == p / 2
                }
        },
{
    let len = img.len() as int;
    let a = BOOT_INIT_SIG@;
    let b = BOOT_INIT_SIG_CLASSIC@;
    lemma_single(img, a, 0, len);
    lemma_single(img, b, 0, len);
    if let Ok((at, to)) = boot::boot_init_pair(img) {
        boot::law_boot_hook_takes_over_a_call(img, at, to);
        match boot::boot_init(img) {
            Ok(Some(boot::BootInitSite::Modern(s))) => {
                let p = sig::find_all(img, a, 0, len)[0] as int;
                found::lemma_sig_upper(img, a, p, 0, 0x4800);
                oem::lemma_sig_full(img, a, p, 1, 0xB570);
                oem::lemma_sig_full(img, a, p, 2, 0x6980);
                oem::lemma_sig_full(img, a, p, 3, 0x0600);
                oem::lemma_sig_full(img, a, p, 4, 0xD403);
                oem::lemma_sig_full(img, a, p, 5, 0x2100);
                oem::lemma_sig_full(img, a, p, 6, 0x2000);
                oem::lemma_short_hop(p + 8, raw::hw_at(img, p + 8));
                assert(reads_boot_mode(img, p));
            },
            _ => {
                let p = sig::find_all(img, b, 0, len)[0] as int;
                found::lemma_sig_upper(img, b, p, 0, 0x4800);
                oem::lemma_sig_full(img, b, p, 1, 0x38C0);
                oem::lemma_sig_full(img, b, p, 2, 0x6980);
                oem::lemma_sig_full(img, b, p, 3, 0x0600);
                found::lemma_sig_upper(img, b, p, 4, 0xD400);
                assert(helps_boot(img, p));
            },
        }
    }
}

/// The check that is found is the first `cmp r0,#0; bne` from `p` on.
proof fn lemma_check_after(img: Seq<u8>, p: int, end: int)
    requires
        0 <= p,
        end <= img.len(),
        raw::addressable(img),
    ensures
        gates::check_after(img, p, end) matches Some(c) ==> p <= c && c + 4 <= end && (c - p) % 2
            == 0 && raw::hw_at(img, c as int) == 0x2800 && raw::hw_at(img, c + 2) / 256 == 0xD1,
    decreases end - p,
{
    if p + 4 <= end {
        lemma_check_after(img, p + 2, end);
    }
}

/// A check follows a call of `lookup` within twelve halfwords.
pub open spec fn follows_lookup(img: Seq<u8>, lookup: u32, check: int) -> bool {
    exists|o: int|
        {
            &&& o + 4 <= check < o + 28
            &&& (#[trigger] thumb::branch_target(BranchShape::Bl, img, o)) matches Some(t) && t - t
                % 2 == lookup
        }
}

/// The checks that are listed follow calls of the lookup.
proof fn lemma_lookup_checks(img: Seq<u8>, o: int, lookup: u32)
    requires
        raw::addressable(img),
        0 <= o,
    ensures
        forall|i: int|
            0 <= i < gates::lookup_checks(img, o, lookup).len() ==> follows_lookup(
                img,
                lookup,
                #[trigger] gates::lookup_checks(img, o, lookup)[i] as int,
            ),
    decreases img.len() - o,
{
    if o + 4 <= img.len() {
        lemma_lookup_checks(img, o + 2, lookup);
        let rest = gates::lookup_checks(img, o + 2, lookup);
        let all = gates::lookup_checks(img, o, lookup);
        if let Some(c) = gates::checked_call(img, o, lookup) {
            lemma_check_after(img, o + 4, scanner::least(o + 28, scanner::short_of(img, 4)));
            assert(all == seq![c] + rest);
            assert(thumb::branch_target(BranchShape::Bl, img, o) is Some);
            assert(follows_lookup(img, lookup, c as int));
            assert forall|i: int| 0 <= i < all.len() implies follows_lookup(
                img,
                lookup,
                #[trigger] all[i] as int,
            ) by {
                if i > 0 {
                    assert(all[i] == rest[i - 1]);
                }
            }
        } else {
            assert(all == rest);
        }
    }
}

/// The revocation lookup's first instructions.
pub open spec fn looks_up(img: Seq<u8>, at: int) -> bool {
    &&& raw::hw_at(img, at) == 0xB5F3
    &&& raw::hw_at(img, at + 2) == 0xB083
    &&& raw::hw_at(img, at + 4) == 0x9803
    &&& raw::hw_at(img, at + 6) == 0x000C
    &&& raw::hw_at(img, at + 12) == 0x0007
    &&& raw::hw_at(img, at + 14) == 0x0020
    &&& raw::hw_at(img, at + 20) == 0x9002
    &&& raw::hw_at(img, at + 22) == 0x1D20
}

/// The revocation checks that are found follow calls of the lookup routine.
pub proof fn law_revocation_checks_follow_the_lookup(img: Seq<u8>)
    requires
        raw::addressable(img),
    ensures
        gates::hrl_lookup(img) matches Ok(lookup) ==> looks_up(img, lookup as int),
        gates::hrl_skip_sites(img) matches Ok((sites, _)) ==> gates::hrl_lookup(
            img,
        ) matches Ok(lookup) && forall|i: int|
            0 <= i < sites.len() ==> follows_lookup(img, lookup, #[trigger] sites[i] as int),
{
    let pat = HRL_LOOKUP_SIG@;
    lemma_single(img, pat, 0, img.len() as int);
    if let Ok(lookup) = gates::hrl_lookup(img) {
        let at = lookup as int;
        oem::lemma_sig_full(img, pat, at, 0, 0xB5F3);
        oem::lemma_sig_full(img, pat, at, 1, 0xB083);
        oem::lemma_sig_full(img, pat, at, 2, 0x9803);
        oem::lemma_sig_full(img, pat, at, 3, 0x000C);
        oem::lemma_sig_full(img, pat, at, 6, 0x0007);
        oem::lemma_sig_full(img, pat, at, 7, 0x0020);
        oem::lemma_sig_full(img, pat, at, 10, 0x9002);
        oem::lemma_sig_full(img, pat, at, 11, 0x1D20);
        lemma_lookup_checks(img, 0, lookup);
    }
}

/// The disc-mode dispatcher's first instructions.
pub open spec fn dispatches_mode(img: Seq<u8>, at: int) -> bool {
    &&& raw::hw_at(img, at) == 0xB510
    &&& raw::hw_at(img, at + 2) == 0x0004
    &&& raw::hw_at(img, at + 4) == 0x2000
    &&& raw::hw_at(img, at + 10) == 0x1EE3
}

/// The disc-mode dispatcher that is found is one, in its window.
pub proof fn law_disc_mode_dispatcher_is_in_the_image(img: Seq<u8>)
    requires
        raw::addressable(img),
    ensures
        gates::setdiscmode(img) matches Ok(at) ==> 0x0004_0000 <= at < 0x0005_0000
            && dispatches_mode(img, at as int),
{
    let pat = SETDISCMODE_SIG@;
    let lo = scanner::least(0x0004_0000, img.len() as int);
    let hi = scanner::least(0x0005_0000, img.len() as int);
    lemma_single(img, pat, lo, hi);
    if let Ok(found) = gates::setdiscmode(img) {
        let at = found as int;
        assert(lo == 0x0004_0000);
        oem::lemma_sig_full(img, pat, at, 0, 0xB510);
        oem::lemma_sig_full(img, pat, at, 1, 0x0004);
        oem::lemma_sig_full(img, pat, at, 2, 0x2000);
        oem::lemma_sig_full(img, pat, at, 5, 0x1EE3);
    }
}

/// The sense is set at `off` with a call of `t`: `r2`, `r1` and `r0` are loaded before it.
pub open spec fn sets_sense(img: Seq<u8>, off: int, t: u32) -> bool {
    &&& raw::hw_at(img, off) / 256 == 0x22
    &&& raw::hw_at(img, off + 2) / 256 == 0x21
    &&& raw::hw_at(img, off + 4) / 256 == 0x20
    &&& calls(img, off + 6, t)
}

/// The first call that sets a sense is one.
proof fn lemma_sense_call(img: Seq<u8>, off: int, end: int)
    ensures
        scanner::sense_call(img, off, end) matches Some(t) ==> exists|q: int|
            off <= q && q + 8 <= end && #[trigger] sets_sense(img, q, t),
    decreases end - off,
{
    if off + 8 <= end {
        if let Some(t) = scanner::sense_call(img, off, end) {
            if code::moves_imm_into(raw::hw_at(img, off), 2) && code::moves_imm_into(
                raw::hw_at(img, off + 2),
                1,
            ) && code::moves_imm_into(raw::hw_at(img, off + 4), 0) && thumb::branch_target(
                BranchShape::Bl,
                img,
                off + 6,
            ) is Some {
                assert(sets_sense(img, off, t));
            } else {
                lemma_sense_call(img, off + 2, end);
            }
        }
    }
}

/// The sense setter that is found is one that the scanner calls.
pub proof fn law_sense_setter_is_what_the_scanner_calls(img: Seq<u8>)
    requires
        raw::addressable(img),
    ensures
        scanner::sense_setter_of(img) matches Ok(t) ==> scanner::scanner_entry(img) matches Ok(e)
            && exists|q: int| e <= q < e + 0x120 && #[trigger] sets_sense(img, q, t),
{
    if let Ok(t) = scanner::sense_setter_of(img) {
        let e = scanner::scanner_entry(img)->Ok_0;
        let end = scanner::least(e + 0x120, scanner::short_of(img, 4));
        lemma_sense_call(img, e as int, end);
    }
}

/// The READ DISC STRUCTURE dispatcher's first instructions.
pub open spec fn dispatches_format(img: Seq<u8>, at: int) -> bool {
    &&& raw::hw_at(img, at) == 0xB510
    &&& raw::hw_at(img, at + 2) == 0x79C1
    &&& raw::hw_at(img, at + 4) == 0x297F
    &&& raw::hw_at(img, at + 6) / 256 == 0xD8
}

/// The dispatcher and the authentication flag that are found: the dispatcher is in its
/// window, and the flag is the third cell of the session.
pub proof fn law_dispatcher_is_in_the_image(img: Seq<u8>)
    requires
        raw::addressable(img),
    ensures
        vid::aacs(img) matches Ok((at, cell)) ==> {
            &&& 0x000a_0000 <= at < 0x000c_0000
            &&& dispatches_format(img, at as int)
            &&& cell == 0x0200_0c82
        },
{
    let pat = DISPATCHER_SIG@;
    found::lemma_first_match(img, pat, 0x000a_0000, 0x000c_0000);
    if let Ok((dispatcher, _)) = vid::aacs(img) {
        let at = dispatcher as int;
        oem::lemma_sig_full(img, pat, at, 0, 0xB510);
        oem::lemma_sig_full(img, pat, at, 1, 0x79C1);
        oem::lemma_sig_full(img, pat, at, 2, 0x297F);
        found::lemma_sig_upper(img, pat, at, 3, 0xD800);
    }
}

/// A place that is found, or zero.
pub open spec fn names(named: u32, r: Result<u32, FwError>) -> bool {
    match r {
        Ok(at) => named == at,
        Err(_) => named == 0,
    }
}

/// The report on a modern image that was built names what is found in it: the scanner, its
/// command block and its sense setter, the Volume ID producer with its buffer and the
/// routine that opens for it, the disc-mode dispatcher, the downgrade byte and a free cell.
pub proof fn law_created_report_names_what_is_found(img: Seq<u8>, layout: Layout, c: Created)
    requires
        create::create_modern(img, layout) == Ok::<Created, FwError>(c),
    ensures
        scanner::scanner_entry(img) == Ok::<u32, FwError>(c.scanner_entry),
        scanner::cdb_base(img) == Ok::<u32, FwError>(c.cdb_base),
        names(c.sense_setter, scanner::sense_setter_of(img)),
        match vid::vid_producer(img) {
            Ok((entry, buffer)) => c.vid_producer == entry && c.vid_out_buf == buffer,
            Err(_) => c.vid_producer == 0 && c.vid_out_buf == 0,
        },
        names(c.vid_gate_setter, vid::gate_setter(img)),
        names(c.setdiscmode, gates::setdiscmode(img)),
        names(c.de_off, gates::de_byte(img)),
        names(c.free_sram_cell, sram::free_cell(img)),
{
}

} // verus!
