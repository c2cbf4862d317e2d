//! What is still in a modified image of what each of its levers wrote.
use crate::abi;
use crate::engine::audit;
use crate::engine::base;
use crate::engine::base::Layout;
use crate::engine::changes;
use crate::engine::code;
use crate::engine::create;
use crate::engine::detours;
use crate::engine::emit;
use crate::engine::emit::Checks;
use crate::engine::facts;
use crate::engine::gates;
use crate::engine::landing;
use crate::engine::lever::{Fact, Lever, LeverId, Modified, Outcome};
use crate::engine::modify;
use crate::engine::rawread;
use crate::engine::rawread::Grounds;
use crate::engine::scanner;
use crate::engine::spots;
use crate::engine::spots::Spot;
use crate::engine::space;
use crate::engine::space::TableEntry;
use crate::engine::sram;
use crate::engine::stubs;
use crate::error::{FwError, Reason};
use crate::family::{Capability, ChipInfo};
use crate::program::AsmOp;
use crate::raw;
use crate::sig;
use crate::thumb;
use crate::thumb::{BranchShape, CommandRecord};
use vstd::prelude::*;

verus! {

/// No byte of the branch from `site` to `va` looks like erased flash.
pub open spec fn firm(shape: BranchShape, site: int, va: u32) -> bool {
    forall|k: int| 0 <= k < 4 ==> #[trigger] thumb::branch_bytes(shape, site as u32, va)[k] != 0xFF
}

/// A detour is still in `done`, over which `later` was written afterwards: the branch goes
/// to the stub, unless it looked like erased flash or one of `taken` is among its bytes,
/// and every byte of the stub is there that does not look like erased flash and that
/// neither its own branch nor `later` took; spare bytes follow it.
pub open spec fn lasts(
    done: Seq<u8>,
    shape: BranchShape,
    site: int,
    va: u32,
    stub: Seq<u8>,
    taken: Set<int>,
    later: Set<int>,
) -> bool {
    &&& firm(shape, site, va) && changes::window(site).disjoint(taken) ==> thumb::branch_target(
        shape,
        done,
        site,
    ) == Some(va)
    &&& forall|k: int|
        0 <= k < stub.len() && #[trigger] stub[k] != 0xFF && !changes::window(site).contains(va + k)
            && !later.contains(va + k) ==> done[va + k] == stub[k]
    &&& va + stub.len() + emit::SPARE <= done.len()
}

/// Of what was written later, only `taken` can be among the bytes of the branch at `site`.
pub open spec fn spared(site: int, later: Set<int>, taken: Set<int>) -> bool {
    forall|i: int| #[trigger]
        changes::window(site).contains(i) && later.contains(i) ==> taken.contains(i)
}

/// What is written when the Raw-read lever is done: the downgrade byte and the record.
pub open spec fn after_rawread(img: Seq<u8>, layout: Layout) -> Set<int> {
    changes::de_window(img).union(changes::record_window(img, layout))
}

/// What is written when the Region lever is done.
pub open spec fn after_region(img: Seq<u8>, layout: Layout) -> Set<int> {
    changes::rawread_windows(img, sram::FLAG_TABLE_BASE).union(after_rawread(img, layout))
}

/// What is written when the Speed lever is done.
pub open spec fn after_speed(img: Seq<u8>, layout: Layout) -> Set<int> {
    changes::region_window(img).union(after_region(img, layout))
}

/// The bytes that the media detours take over.
pub open spec fn media_windows(img: Seq<u8>) -> Set<int> {
    changes::plan_window(detours::uhd_plan(img, sram::FLAG_TABLE_BASE)).union(
        changes::hrl_windows(img),
    ).union(changes::plan_window(detours::bd_plan(img, sram::FLAG_TABLE_BASE)))
}

/// What is written when the revocation detours are done.
pub open spec fn after_hrl(img: Seq<u8>, layout: Layout) -> Set<int> {
    changes::plan_window(detours::bd_plan(img, sram::FLAG_TABLE_BASE)).union(
        after_rawread(img, layout),
    )
}

/// What is written when the UHD detour is done.
pub open spec fn after_uhd(img: Seq<u8>, layout: Layout) -> Set<int> {
    changes::hrl_windows(img).union(after_hrl(img, layout))
}

/// What is written when the deny detour is done.
pub open spec fn after_deny(img: Seq<u8>, layout: Layout) -> Set<int> {
    media_windows(img).union(after_rawread(img, layout))
}

/// What is written when the Volume ID detour is done.
pub open spec fn after_gatea(img: Seq<u8>, layout: Layout, g: Grounds) -> Set<int> {
    changes::window(g.deny_site).union(after_deny(img, layout))
}

/// What is written when the AKE detour is done.
pub open spec fn after_ake(img: Seq<u8>, layout: Layout, g: Grounds) -> Set<int> {
    changes::window(g.gatea_site).union(after_gatea(img, layout, g))
}

/// The stub of the Speed detour at `gate`.
pub open spec fn speed_code(img: Seq<u8>, gate: u32, reg: u8) -> Seq<u8> {
    emit::code_of(
        stubs::speed_program(
            sram::FLAG_TABLE_BASE,
            (gate + 8) as u32,
            code::address(code::cond_target(gate + 6, raw::hw_at(img, gate + 6))),
            reg,
        ),
    )
}

/// The Speed lever names the image's ramp test and the stub, and its detour lasts.
#[verifier::opaque]
pub open spec fn speed_lasts(img: Seq<u8>, layout: Layout, done: Seq<u8>, l: Lever) -> bool {
    match (
        gates::speed_gate(img),
        audit::fact_of(l.facts, "speed_gate"@),
        audit::fact_of(l.facts, "speed_stub_va"@),
    ) {
        (Ok((gate, reg)), Some(named), Some(va)) => named == gate && lasts(
            done,
            BranchShape::Bl,
            gate + 4,
            va,
            speed_code(img, gate, reg),
            after_rawread(img, layout),
            after_speed(img, layout),
        ),
        _ => false,
    }
}

/// The Region lever names the emitter that was found and the stub, and its detour lasts.
#[verifier::opaque]
pub open spec fn region_lasts(
    emitter: Result<u32, FwError>,
    flag_base: u32,
    taken: Set<int>,
    later: Set<int>,
    done: Seq<u8>,
    l: Lever,
) -> bool {
    match (
        emitter,
        audit::fact_of(l.facts, "region_emitter"@),
        audit::fact_of(l.facts, "region_stub_va"@),
    ) {
        (Ok(at), Some(named), Some(va)) => named == at && lasts(
            done,
            BranchShape::Bl,
            at + 6,
            va,
            emit::code_of(stubs::region_program(flag_base)),
            taken,
            later,
        ),
        _ => false,
    }
}

/// The Raw-read lever names the sites of the AKE, Volume ID and deny detours and their
/// stubs, and the detours last; so do the media detours that it names.
#[verifier::opaque]
pub open spec fn rawread_lasts(img: Seq<u8>, layout: Layout, done: Seq<u8>, l: Lever) -> bool {
    &&& match rawread::grounds(img, sram::FLAG_TABLE_BASE) {
        Ok(g) => {
            &&& audit::fact_of(l.facts, "ake_site"@) == Some(g.ake.site as u32)
            &&& audit::fact_of(l.facts, "ake_stub_va"@) matches Some(va) && lasts(
                done,
                g.ake.shape,
                g.ake.site as int,
                va,
                emit::code_of(g.ake.ops),
                after_rawread(img, layout),
                after_ake(img, layout, g),
            )
            &&& audit::fact_of(l.facts, "gatea_gate"@) == Some(g.gatea_site as u32)
            &&& audit::fact_of(l.facts, "gatea_stub_va"@) matches Some(va) && lasts(
                done,
                BranchShape::Bl,
                g.gatea_site,
                va,
                emit::code_of(g.gatea),
                after_rawread(img, layout),
                after_gatea(img, layout, g),
            )
            &&& audit::fact_of(l.facts, "deny_site"@) == Some(g.deny_site as u32)
            &&& audit::fact_of(l.facts, "deny_stub_va"@) matches Some(va) && lasts(
                done,
                BranchShape::Bl,
                g.deny_site,
                va,
                emit::code_of(stubs::deny_reset_program(g.reset)),
                after_rawread(img, layout),
                after_deny(img, layout),
            )
        },
        Err(_) => false,
    }
    &&& plan_lasts(
        detours::uhd_plan(img, sram::FLAG_TABLE_BASE),
        audit::fact_of(l.facts, "uhd_site"@),
        audit::fact_of(l.facts, "uhd_stub_va"@),
        done,
        after_rawread(img, layout),
        after_uhd(img, layout),
    )
    &&& plan_lasts(
        detours::bd_plan(img, sram::FLAG_TABLE_BASE),
        audit::fact_of(l.facts, "bd_site"@),
        audit::fact_of(l.facts, "bd_stub_va"@),
        done,
        after_rawread(img, layout),
        after_rawread(img, layout),
    )
    &&& hrl_lasts(
        gates::hrl_skip_sites(img),
        sram::FLAG_TABLE_BASE,
        l,
        done,
        after_rawread(img, layout),
        after_hrl(img, layout),
    )
}

/// A detour that rides along lasts, when it is named.
pub open spec fn plan_lasts(
    plan: Result<(usize, Seq<AsmOp>), FwError>,
    named: Option<u32>,
    stub: Option<u32>,
    done: Seq<u8>,
    taken: Set<int>,
    later: Set<int>,
) -> bool {
    match (named, stub) {
        (Some(site), Some(va)) => plan matches Ok((at, ops)) && site == at as u32 && lasts(
            done,
            BranchShape::Bl,
            at as int,
            va,
            emit::code_of(ops),
            taken,
            later,
        ),
        (None, None) => true,
        _ => false,
    }
}

/// The revocation detours last, when they are named: the first three by name.
pub open spec fn hrl_lasts(
    found: Result<(Seq<usize>, u32), FwError>,
    flag_base: u32,
    l: Lever,
    done: Seq<u8>,
    taken: Set<int>,
    later: Set<int>,
) -> bool {
    match audit::fact_of(l.facts, "hrl_stub_va"@) {
        Some(va) => found matches Ok((sites, revoke)) && {
            &&& audit::fact_of(l.facts, "hrl_site"@) == facts::nth(rawread::addresses(sites), va, 0)
            &&& audit::fact_of(l.facts, "hrl_site2"@) == facts::nth(
                rawread::addresses(sites),
                va,
                1,
            )
            &&& audit::fact_of(l.facts, "hrl_site3"@) == facts::nth(
                rawread::addresses(sites),
                va,
                2,
            )
            &&& shared_lasts(
                done,
                sites,
                va,
                emit::code_of(stubs::hrl_skip_program(flag_base, revoke)),
                taken,
                later,
            )
        },
        None => audit::fact_of(l.facts, "hrl_site"@) is None && audit::fact_of(
            l.facts,
            "hrl_site2"@,
        ) is None && audit::fact_of(l.facts, "hrl_site3"@) is None,
    }
}

/// Calls of one stub are still in `done`, and so is the stub.
pub open spec fn shared_lasts(
    done: Seq<u8>,
    sites: Seq<usize>,
    va: u32,
    stub: Seq<u8>,
    taken: Set<int>,
    later: Set<int>,
) -> bool {
    &&& forall|i: int|
        #![trigger sites[i]]
        0 <= i < sites.len() && firm(BranchShape::Bl, sites[i] as int, va) && changes::window(
            sites[i] as int,
        ).disjoint(taken) ==> thumb::branch_target(BranchShape::Bl, done, sites[i] as int) == Some(
            va,
        )
    &&& forall|k: int|
        0 <= k < stub.len() && #[trigger] stub[k] != 0xFF && !changes::windows(sites).contains(
            va + k,
        ) && !later.contains(va + k) ==> done[va + k] == stub[k]
    &&& va + stub.len() + emit::SPARE <= done.len()
}

/// The downgrade lever names the byte that the image has, and the byte is set unless it
/// was taken.
pub open spec fn de_lasts(img: Seq<u8>, taken: Set<int>, done: Seq<u8>, l: Lever) -> bool {
    match (gates::de_byte(img), audit::fact_of(l.facts, "de_off"@)) {
        (Ok(at), Some(named)) => named == at && (taken.contains(at as int) || done[at as int]
            == create::DE_BYTE),
        _ => false,
    }
}

/// A detour that was just installed lasts through a change that keeps to erased flash and
/// to `later`.
pub proof fn lemma_lasts(
    out: Seq<u8>,
    table: Seq<TableEntry>,
    shape: BranchShape,
    site: int,
    stub: Seq<u8>,
    out_of_range: Reason,
    w: Seq<u8>,
    va: u32,
    done: Seq<u8>,
    taken: Set<int>,
    later: Set<int>,
)
    requires
        raw::addressable(out),
        0 <= site,
        site + 4 <= out.len(),
        emit::with_detour(out, table, shape, site, stub, out_of_range) == Ok::<
            (Seq<u8>, u32),
            FwError,
        >((w, va)),
        changes::confined(w, done, later),
        spared(site, later, taken),
    ensures
        lasts(done, shape, site, va, stub, taken, later),
{
    space::law_free_space_is_blank_and_covered(out, table, (stub.len() + emit::SPARE) as int, va);
    let b = thumb::branch_bytes(shape, site as u32, va);
    if firm(shape, site, va) && changes::window(site).disjoint(taken) {
        assert forall|k: int| 0 <= k < 4 implies #[trigger] done[site + k] == b[k] by {
            assert(changes::window(site).contains(site + k));
            assert(w[site + k] == b[k]);
        }
        assert(raw::occurs_at(done, b, site));
        thumb::law_installed_branch_decodes(shape, done, site, va);
    }
    assert forall|k: int|
        0 <= k < stub.len() && #[trigger] stub[k] != 0xFF && !changes::window(site).contains(va + k)
            && !later.contains(va + k) implies done[va + k] == stub[k] by {
        assert(w[va + k] == stub[k]);
    }
}

/// Calls at places that do not overlap are all there once they are written.
proof fn lemma_written_calls(out: Seq<u8>, sites: Seq<usize>, va: u32, n: nat, i: int)
    requires
        0 <= i < n <= sites.len(),
        forall|j: int| 0 <= j < sites.len() ==> #[trigger] sites[j] + 4 <= out.len(),
        forall|j: int|
            0 <= j < sites.len() && (#[trigger] sites[j]) != sites[i] ==> changes::window(
                sites[i] as int,
            ).disjoint(changes::window(sites[j] as int)),
    ensures
        emit::with_calls(out, sites, va, n).len() == out.len(),
        raw::occurs_at(
            emit::with_calls(out, sites, va, n),
            thumb::branch_bytes(BranchShape::Bl, sites[i] as u32, va),
            sites[i] as int,
        ),
    decreases n,
{
    let b = thumb::branch_bytes(BranchShape::Bl, sites[i] as u32, va);
    let m = (n - 1) as nat;
    let before = emit::with_calls(out, sites, va, m);
    let w = emit::with_calls(out, sites, va, n);
    lemma_calls_len(out, sites, va, m);
    if sites[n - 1] == sites[i] {
        assert forall|k: int| 0 <= k < 4 implies #[trigger] w[sites[i] + k] == b[k] by {}
    } else {
        lemma_written_calls(out, sites, va, m, i);
        assert forall|k: int| 0 <= k < 4 implies #[trigger] w[sites[i] + k] == b[k] by {
            assert(before[sites[i] + k] == b[k]);
            assert(changes::window(sites[i] as int).contains(sites[i] + k));
            assert(!changes::window(sites[n - 1] as int).contains(sites[i] + k));
        }
    }
    assert(raw::occurs_at(w, b, sites[i] as int));
}

/// Calls keep the image's length.
proof fn lemma_calls_len(out: Seq<u8>, sites: Seq<usize>, va: u32, n: nat)
    ensures
        emit::with_calls(out, sites, va, n).len() == out.len(),
    decreases n,
{
    if n > 0 {
        lemma_calls_len(out, sites, va, (n - 1) as nat);
    }
}

/// Calls change nothing outside their places.
proof fn lemma_calls_elsewhere(out: Seq<u8>, sites: Seq<usize>, va: u32, n: nat, i: int)
    requires
        n <= sites.len(),
        0 <= i < out.len(),
        !changes::windows(sites).contains(i),
    ensures
        emit::with_calls(out, sites, va, n).len() == out.len(),
        emit::with_calls(out, sites, va, n)[i] == out[i],
    decreases n,
{
    if n > 0 {
        lemma_calls_elsewhere(out, sites, va, (n - 1) as nat, i);
        assert(!(sites[n - 1] <= i < sites[n - 1] + 4));
    }
}

/// Shared detours that were just installed last through a change that keeps to erased flash
/// and to `later`.
pub proof fn lemma_shared_lasts(
    out: Seq<u8>,
    table: Seq<TableEntry>,
    sites: Seq<usize>,
    stub: Seq<u8>,
    checks: Checks,
    w: Seq<u8>,
    va: u32,
    done: Seq<u8>,
    taken: Set<int>,
    later: Set<int>,
)
    requires
        raw::addressable(out),
        forall|j: int| 0 <= j < sites.len() ==> #[trigger] sites[j] + 4 <= out.len(),
        forall|i: int, j: int|
            0 <= i < sites.len() && 0 <= j < sites.len() && (#[trigger] sites[i]) != (
            #[trigger] sites[j]) ==> changes::window(sites[i] as int).disjoint(
                changes::window(sites[j] as int),
            ),
        emit::with_shared_detour(out, table, sites, stub, checks) == Ok::<
            (Seq<u8>, u32),
            FwError,
        >((w, va)),
        changes::confined(w, done, later),
        forall|j: int|
            0 <= j < sites.len() ==> spared(#[trigger] sites[j] as int, later, taken),
    ensures
        shared_lasts(done, sites, va, stub, taken, later),
{
    space::law_free_space_is_blank_and_covered(out, table, (stub.len() + emit::SPARE) as int, va);
    let placed = raw::patched(out, va as int, stub);
    lemma_calls_len(placed, sites, va, sites.len());
    assert forall|i: int|
        #![trigger sites[i]]
        0 <= i < sites.len() && firm(BranchShape::Bl, sites[i] as int, va) && changes::window(
            sites[i] as int,
        ).disjoint(taken) implies thumb::branch_target(BranchShape::Bl, done, sites[i] as int)
        == Some(va) by {
        let site = sites[i] as int;
        let b = thumb::branch_bytes(BranchShape::Bl, site as u32, va);
        lemma_written_calls(placed, sites, va, sites.len(), i);
        assert(spared(site, later, taken));
        assert forall|k: int| 0 <= k < 4 implies #[trigger] done[site + k] == b[k] by {
            assert(w[site + k] == b[k]);
            assert(changes::window(site).contains(site + k));
        }
        assert(emit::reaches(site, va));
        assert(raw::occurs_at(done, b, site));
        thumb::law_installed_branch_decodes(BranchShape::Bl, done, site, va);
    }
    assert forall|k: int|
        0 <= k < stub.len() && #[trigger] stub[k] != 0xFF && !changes::windows(sites).contains(
            va + k,
        ) && !later.contains(va + k) implies done[va + k] == stub[k] by {
        assert(placed[va + k] == stub[k]);
        lemma_calls_elsewhere(placed, sites, va, sites.len(), va + k);
    }
}

/// The media detours take nothing of another detour's place.
pub proof fn lemma_media_apart(img: Seq<u8>, site: int, kind: Spot)
    requires
        raw::addressable(img),
        spots::spot(img, site, kind),
    ensures
        !(kind is Uhd) ==> changes::window(site).disjoint(
            changes::plan_window(detours::uhd_plan(img, sram::FLAG_TABLE_BASE)),
        ),
        !(kind is Bd) ==> changes::window(site).disjoint(
            changes::plan_window(detours::bd_plan(img, sram::FLAG_TABLE_BASE)),
        ),
        !(kind is Hrl) ==> changes::window(site).disjoint(changes::hrl_windows(img)),
{
    spots::lemma_uhd_spot(img, sram::FLAG_TABLE_BASE);
    spots::lemma_bd_spot(img, sram::FLAG_TABLE_BASE);
    spots::lemma_hrl_spots(img);
    if let Ok((at, _)) = detours::uhd_plan(img, sram::FLAG_TABLE_BASE) {
        if !(kind is Uhd) {
            spots::law_detour_places_never_overlap(img, site, kind, at as int, Spot::Uhd);
        }
    }
    if let Ok((at, _)) = detours::bd_plan(img, sram::FLAG_TABLE_BASE) {
        if !(kind is Bd) {
            spots::law_detour_places_never_overlap(img, site, kind, at as int, Spot::Bd);
        }
    }
    if let Ok((sites, _)) = gates::hrl_skip_sites(img) {
        if !(kind is Hrl) {
            lemma_checks_apart(img, site, kind, sites);
        }
    }
}

/// The revocation detours take nothing of another detour's place.
pub proof fn lemma_checks_apart(img: Seq<u8>, site: int, kind: Spot, sites: Seq<usize>)
    requires
        spots::spot(img, site, kind),
        !(kind is Hrl),
        forall|i: int|
            0 <= i < sites.len() ==> spots::spot(img, #[trigger] sites[i] as int, Spot::Hrl),
    ensures
        changes::window(site).disjoint(changes::windows(sites)),
{
    assert forall|i: int| changes::window(site).contains(i) implies !changes::windows(
        sites,
    ).contains(i) by {
        if changes::windows(sites).contains(i) {
            let k = choose|k: int| 0 <= k < sites.len() && #[trigger] sites[k] <= i < sites[k] + 4;
            spots::law_detour_places_never_overlap(
                img,
                site,
                kind,
                sites[k] as int,
                Spot::Hrl,
            );
            assert(changes::window(sites[k] as int).contains(i));
        }
    }
}

/// The AKE, Volume ID and deny detours take nothing of another detour's place.
proof fn lemma_core_apart(img: Seq<u8>, site: int, kind: Spot)
    requires
        raw::addressable(img),
        spots::spot(img, site, kind),
        !(kind is Boot),
        !(kind is ClassicAke),
    ensures
        rawread::grounds(img, sram::FLAG_TABLE_BASE) matches Ok(g) ==> {
            &&& !(kind is Ake) ==> changes::window(site).disjoint(
                changes::window(g.ake.site as int),
            )
            &&& !(kind is Gate) ==> changes::window(site).disjoint(changes::window(g.gatea_site))
            &&& !(kind is Deny) ==> changes::window(site).disjoint(changes::window(g.deny_site))
        },
{
    spots::lemma_core_spots(img, sram::FLAG_TABLE_BASE);
    if let Ok(g) = rawread::grounds(img, sram::FLAG_TABLE_BASE) {
        if !(kind is Ake) {
            spots::law_detour_places_never_overlap(img, site, kind, g.ake.site as int, Spot::Ake);
        }
        if !(kind is Gate) {
            spots::law_detour_places_never_overlap(img, site, kind, g.gatea_site, Spot::Gate);
        }
        if !(kind is Deny) {
            spots::law_detour_places_never_overlap(img, site, kind, g.deny_site, Spot::Deny);
        }
    }
}

/// The Raw-read lever takes nothing of the Speed and Region places.
proof fn lemma_rawread_apart(img: Seq<u8>, site: int, kind: Spot)
    requires
        raw::addressable(img),
        spots::spot(img, site, kind),
        kind is Speed || kind is Region,
    ensures
        changes::window(site).disjoint(changes::rawread_windows(img, sram::FLAG_TABLE_BASE)),
{
    lemma_media_apart(img, site, kind);
    lemma_core_apart(img, site, kind);
}

/// A match that was found leaves room behind it.
pub proof fn lemma_room(img: Seq<u8>, s: Seq<(u16, u16)>, lo: int, hi: int)
    requires
        raw::addressable(img),
        0 <= lo,
    ensures
        forall|i: int|
            0 <= i < sig::find_all(img, s, lo, hi).len() ==> (#[trigger] sig::find_all(
                img,
                s,
                lo,
                hi,
            )[i]) + 2 * s.len() <= img.len(),
{
    sig::lemma_find_all_inside(img, s, lo, hi, sig::steps(lo, sig::scan_end(img, s, hi)));
    let all = sig::find_all(img, s, lo, hi);
    assert forall|i: int| 0 <= i < all.len() implies (#[trigger] all[i]) + 2 * s.len()
        <= img.len() by {
        assert(sig::inside(img, s, lo, all[i] as int));
    }
}

/// The facts of a Speed lever.
proof fn lemma_speed_facts(gate: u32, va: u32)
    ensures
        ({
            let facts = seq![("speed_gate"@, gate), ("speed_stub_va"@, va)];
            &&& audit::fact_of(facts, "speed_gate"@) == Some(gate)
            &&& audit::fact_of(facts, "speed_stub_va"@) == Some(va)
        }),
{
    let facts = seq![("speed_gate"@, gate), ("speed_stub_va"@, va)];
    reveal_strlit("speed_gate");
    reveal_strlit("speed_stub_va");
    assert("speed_gate"@.len() != "speed_stub_va"@.len());
    landing::lemma_first_fact(facts, "speed_gate"@, 0, 2);
    landing::lemma_first_fact(facts, "speed_stub_va"@, 1, 2);
}

/// The facts of a Region lever.
proof fn lemma_region_facts(at: u32, va: u32)
    ensures
        ({
            let facts = seq![("region_emitter"@, at), ("region_stub_va"@, va)];
            &&& audit::fact_of(facts, "region_emitter"@) == Some(at)
            &&& audit::fact_of(facts, "region_stub_va"@) == Some(va)
        }),
{
    let facts = seq![("region_emitter"@, at), ("region_stub_va"@, va)];
    reveal_strlit("region_emitter");
    reveal_strlit("region_stub_va");
    assert("region_emitter"@[7] != "region_stub_va"@[7]);
    landing::lemma_first_fact(facts, "region_emitter"@, 0, 2);
    landing::lemma_first_fact(facts, "region_stub_va"@, 1, 2);
}

/// The names of the AKE, Volume ID and deny facts differ.
pub proof fn lemma_core_names()
    ensures
        "ake_gate"@ != "ake_site"@,
        "ake_gate"@ != "ake_stub_va"@,
        "ake_gate"@ != "gatea_gate"@,
        "ake_gate"@ != "gatea_stub_va"@,
        "ake_gate"@ != "deny_site"@,
        "ake_gate"@ != "deny_stub_va"@,
        "ake_site"@ != "ake_stub_va"@,
        "ake_site"@ != "gatea_gate"@,
        "ake_site"@ != "gatea_stub_va"@,
        "ake_site"@ != "deny_site"@,
        "ake_site"@ != "deny_stub_va"@,
        "ake_stub_va"@ != "gatea_gate"@,
        "ake_stub_va"@ != "gatea_stub_va"@,
        "ake_stub_va"@ != "deny_site"@,
        "ake_stub_va"@ != "deny_stub_va"@,
        "gatea_gate"@ != "gatea_stub_va"@,
        "gatea_gate"@ != "deny_site"@,
        "gatea_gate"@ != "deny_stub_va"@,
        "gatea_stub_va"@ != "deny_site"@,
        "gatea_stub_va"@ != "deny_stub_va"@,
        "deny_site"@ != "deny_stub_va"@,
{
    reveal_strlit("ake_gate");
    reveal_strlit("ake_site");
    reveal_strlit("ake_stub_va");
    reveal_strlit("gatea_gate");
    reveal_strlit("gatea_stub_va");
    reveal_strlit("deny_site");
    reveal_strlit("deny_stub_va");
    assert("ake_gate"@[4] != "ake_site"@[4]);
    assert("ake_site"@[5] != "ake_stub_va"@[5]);
    assert("gatea_gate"@[6] != "gatea_stub_va"@[6]);
    assert("gatea_stub_va"@[0] != "deny_stub_va"@[0]);
    assert("gatea_gate"@[0] != "deny_stub_va"@[0]);
    assert("ake_stub_va"@[0] != "deny_stub_va"@[0]);
    assert("deny_site"@[6] != "deny_stub_va"@[6]);
}

/// The first facts of a Raw-read lever.
proof fn lemma_core_facts(facts: Seq<Fact>, core: Seq<Fact>)
    requires
        7 <= core.len() <= facts.len(),
        forall|i: int| 0 <= i < core.len() ==> #[trigger] facts[i] == core[i],
        core[0].0 == "ake_gate"@,
        core[1].0 == "ake_site"@,
        core[2].0 == "ake_stub_va"@,
        core[3].0 == "gatea_gate"@,
        core[4].0 == "gatea_stub_va"@,
        core[5].0 == "deny_site"@,
        core[6].0 == "deny_stub_va"@,
    ensures
        audit::fact_of(facts, "ake_site"@) == Some(core[1].1),
        audit::fact_of(facts, "ake_stub_va"@) == Some(core[2].1),
        audit::fact_of(facts, "gatea_gate"@) == Some(core[3].1),
        audit::fact_of(facts, "gatea_stub_va"@) == Some(core[4].1),
        audit::fact_of(facts, "deny_site"@) == Some(core[5].1),
        audit::fact_of(facts, "deny_stub_va"@) == Some(core[6].1),
{
    lemma_core_names();
    assert(facts[0] == core[0] && facts[1] == core[1] && facts[2] == core[2] && facts[3] == core[3]
        && facts[4] == core[4] && facts[5] == core[5] && facts[6] == core[6]);
    landing::lemma_first_fact(facts, "ake_site"@, 1, facts.len());
    landing::lemma_first_fact(facts, "ake_stub_va"@, 2, facts.len());
    landing::lemma_first_fact(facts, "gatea_gate"@, 3, facts.len());
    landing::lemma_first_fact(facts, "gatea_stub_va"@, 4, facts.len());
    landing::lemma_first_fact(facts, "deny_site"@, 5, facts.len());
    landing::lemma_first_fact(facts, "deny_stub_va"@, 6, facts.len());
}

/// More facts behind the first ones.
pub proof fn lemma_hrl_facts(facts: Seq<Fact>, sites: Seq<u32>, n: nat)
    ensures
        facts.len() <= modify::with_hrl_sites(facts, sites, n).len(),
        forall|i: int|
            0 <= i < facts.len() ==> #[trigger] modify::with_hrl_sites(facts, sites, n)[i]
                == facts[i],
    decreases n,
{
    if n > 0 {
        lemma_hrl_facts(facts, sites, (n - 1) as nat);
    }
}

/// The facts of a Raw-read lever name the AKE, Volume ID and deny detours.
proof fn lemma_rawread_facts(f: rawread::RawRead)
    ensures
        ({
            let facts = modify::rawread_facts(f);
            &&& audit::fact_of(facts, "ake_site"@) == Some(f.ake_site)
            &&& audit::fact_of(facts, "ake_stub_va"@) == Some(f.ake_stub_va)
            &&& audit::fact_of(facts, "gatea_gate"@) == Some(f.gatea_site)
            &&& audit::fact_of(facts, "gatea_stub_va"@) == Some(f.gatea_stub_va)
            &&& audit::fact_of(facts, "deny_site"@) == Some(f.deny_site)
            &&& audit::fact_of(facts, "deny_stub_va"@) == Some(f.deny_stub_va)
        }),
{
    let core = seq![
        ("ake_gate"@, f.ake_gate),
        ("ake_site"@, f.ake_site),
        ("ake_stub_va"@, f.ake_stub_va),
        ("gatea_gate"@, f.gatea_site),
        ("gatea_stub_va"@, f.gatea_stub_va),
        ("deny_site"@, f.deny_site),
        ("deny_stub_va"@, f.deny_stub_va),
        ("vid_producer"@, f.vid_producer),
    ];
    let uhd = modify::with_pair(core, "uhd_site"@, f.uhd_site, "uhd_stub_va"@, f.uhd_stub_va);
    let hrl = modify::with_hrl(uhd, f.hrl_sites, f.hrl_stub_va);
    let stub = uhd.push(("hrl_stub_va"@, f.hrl_stub_va));
    let n = if f.hrl_sites.len() < 3 {
        f.hrl_sites.len()
    } else {
        3
    };
    lemma_hrl_facts(stub, f.hrl_sites, n);
    let facts = modify::rawread_facts(f);
    assert forall|i: int| 0 <= i < core.len() implies #[trigger] facts[i] == core[i] by {
        assert(uhd[i] == core[i]);
        assert(stub[i] == core[i]);
        assert(hrl[i] == core[i]);
    }
    lemma_core_facts(facts, core);
}

/// Only the downgrade byte and the record's pointer can take the Speed place.
pub proof fn lemma_speed_spared(img: Seq<u8>, layout: Layout, gate: u32)
    requires
        raw::addressable(img),
        gates::speed_gate(img) matches Ok((at, _)) && at == gate,
    ensures
        gate + 8 <= img.len(),
        spared(gate + 4, after_speed(img, layout), after_rawread(img, layout)),
{
    spots::lemma_speed_spot(img);
    spots::lemma_region_spot(img, 0, img.len() as int);
    lemma_rawread_apart(img, gate + 4, Spot::Speed);
    if let Ok(at) = gates::region_emitter(img) {
        spots::law_detour_places_never_overlap(img, gate + 4, Spot::Speed, at + 6, Spot::Region);
    }
}

/// Only the downgrade byte and the record's pointer can take the Region place.
pub proof fn lemma_region_spared(img: Seq<u8>, layout: Layout)
    requires
        raw::addressable(img),
    ensures
        gates::region_emitter(img) matches Ok(at) ==> at + 10 <= img.len() && spared(
            at + 6,
            after_region(img, layout),
            after_rawread(img, layout),
        ),
{
    spots::lemma_region_spot(img, 0, img.len() as int);
    if let Ok(at) = gates::region_emitter(img) {
        lemma_rawread_apart(img, at + 6, Spot::Region);
    }
}

/// The Speed lever lasts.
proof fn lemma_speed_lasts(
    img: Seq<u8>,
    out: Seq<u8>,
    layout: Layout,
    cap: Capability,
    done: Seq<u8>,
)
    requires
        raw::addressable(img),
        out.len() == img.len(),
        changes::confined(
            modify::speed_lever(img, out, layout.covered@, sram::FLAG_TABLE_BASE, cap).0,
            done,
            after_speed(img, layout),
        ),
    ensures
        ({
            let l = modify::speed_lever(img, out, layout.covered@, sram::FLAG_TABLE_BASE, cap).1;
            l.outcome is Applied ==> speed_lasts(img, layout, done, l)
        }),
{
    reveal(speed_lasts);
    reveal(modify::speed_lever);
    let table = layout.covered@;
    if cap.bd_class || cap.bd_aacs {
        if let Ok((w, _, va)) = emit::speed_emission(img, out, table, sram::FLAG_TABLE_BASE) {
            let (gate, reg) = gates::speed_gate(img)->Ok_0;
            lemma_speed_spared(img, layout, gate);
            lemma_lasts(
                out,
                table,
                BranchShape::Bl,
                gate + 4,
                speed_code(img, gate, reg),
                Reason::SpeedRange,
                w,
                va,
                done,
                after_rawread(img, layout),
                after_speed(img, layout),
            );
            lemma_speed_facts(gate, va);
        }
    }
}

/// A Region lever lasts.
pub proof fn lemma_region_lasts(
    emitter: Result<u32, FwError>,
    out: Seq<u8>,
    table: Seq<TableEntry>,
    flag_base: u32,
    out_of_range: Reason,
    cap: Capability,
    done: Seq<u8>,
    taken: Set<int>,
    later: Set<int>,
)
    requires
        raw::addressable(out),
        emitter matches Ok(at) ==> at + 10 <= out.len() && spared(at + 6, later, taken),
        changes::confined(
            modify::region_lever_of(
                out,
                emit::region_emission_at(emitter, out, table, flag_base, out_of_range),
                cap,
            ).0,
            done,
            later,
        ),
    ensures
        ({
            let l = modify::region_lever_of(
                out,
                emit::region_emission_at(emitter, out, table, flag_base, out_of_range),
                cap,
            ).1;
            l.outcome is Applied ==> region_lasts(emitter, flag_base, taken, later, done, l)
        }),
{
    reveal(region_lasts);
    reveal(modify::region_lever_of);
    if cap.region_lockable {
        if let Ok((w, at, va)) = emit::region_emission_at(
            emitter,
            out,
            table,
            flag_base,
            out_of_range,
        ) {
            lemma_lasts(
                out,
                table,
                BranchShape::Bl,
                at + 6,
                emit::code_of(stubs::region_program(flag_base)),
                out_of_range,
                w,
                va,
                done,
                taken,
                later,
            );
            lemma_region_facts(at, va);
        }
    }
}

/// The downgrade lever lasts.
pub proof fn lemma_de_lasts(
    img: Seq<u8>,
    out: Seq<u8>,
    chip: ChipInfo,
    record: CommandRecord,
    pointer: u32,
)
    requires
        out.len() == img.len(),
    ensures
        ({
            let (w, l) = modify::de_lever(img, out, chip);
            l.outcome is Applied ==> de_lasts(
                img,
                changes::window(record.off + scanner::HANDLER_OFF),
                scanner::repointed(w, record, pointer),
                l,
            )
        }),
{
    reveal(modify::de_lever);
    if let Ok(at) = gates::de_byte(img) {
        let facts = seq![("de_off"@, at)];
        landing::lemma_first_fact(facts, "de_off"@, 0, 1);
    }
}

/// The media detours keep to erased flash and to the bytes that they take over.
pub proof fn lemma_media_confined(img: Seq<u8>, w: Seq<u8>, table: Seq<TableEntry>)
    requires
        raw::addressable(w),
    ensures
        rawread::media_emission(img, w, table, sram::FLAG_TABLE_BASE) matches Ok((done, _, _, _))
            ==> changes::confined(w, done, media_windows(img)),
{
    let base = sram::FLAG_TABLE_BASE;
    if let Ok((w6, _, _, _)) = rawread::media_emission(img, w, table, base) {
        let uhd = detours::uhd_plan(img, base);
        let bd = detours::bd_plan(img, base);
        changes::lemma_optional_confined(uhd, w, table, Reason::UhdRange);
        let (w4, _, _) = rawread::optional_emission(uhd, w, table, Reason::UhdRange)->Ok_0;
        changes::lemma_hrl_confined(img, w4, table, base);
        let (w5, _, _) = rawread::hrl_emission(img, w4, table, base)->Ok_0;
        changes::lemma_optional_confined(bd, w5, table, Reason::BdRange);
        let s = changes::plan_window(uhd);
        let t = changes::hrl_windows(img);
        changes::lemma_confined_chain(w, w4, w5, s, t);
        changes::lemma_confined_chain(w, w5, w6, s.union(t), changes::plan_window(bd));
    }
}

/// The AKE, Volume ID and deny detours last.
#[verifier::rlimit(40)]
pub proof fn lemma_core_lasts(
    img: Seq<u8>,
    layout: Layout,
    g: Grounds,
    out: Seq<u8>,
    w3: Seq<u8>,
    ake_va: u32,
    gatea_va: u32,
    deny_va: u32,
    done: Seq<u8>,
)
    requires
        raw::addressable(img),
        out.len() == img.len(),
        rawread::grounds(img, sram::FLAG_TABLE_BASE) == Ok::<Grounds, FwError>(g),
        rawread::core_emission(g, out, layout.covered@) == Ok::<(Seq<u8>, u32, u32, u32), FwError>(
            (w3, ake_va, gatea_va, deny_va),
        ),
        changes::confined(w3, done, after_deny(img, layout)),
    ensures
        lasts(
            done,
            g.ake.shape,
            g.ake.site as int,
            ake_va,
            emit::code_of(g.ake.ops),
            after_rawread(img, layout),
            after_ake(img, layout, g),
        ),
        lasts(
            done,
            BranchShape::Bl,
            g.gatea_site,
            gatea_va,
            emit::code_of(g.gatea),
            after_rawread(img, layout),
            after_gatea(img, layout, g),
        ),
        lasts(
            done,
            BranchShape::Bl,
            g.deny_site,
            deny_va,
            emit::code_of(stubs::deny_reset_program(g.reset)),
            after_rawread(img, layout),
            after_deny(img, layout),
        ),
{
    lemma_core_spared(img, layout, g);
    let table = layout.covered@;
    let ake = emit::code_of(g.ake.ops);
    let gatea = emit::code_of(g.gatea);
    let deny = emit::code_of(stubs::deny_reset_program(g.reset));
    let s1 = g.ake.site as int;
    let (w1, _) = emit::with_detour(out, table, g.ake.shape, s1, ake, Reason::AkeInstall)->Ok_0;
    let (w2, _) = emit::with_detour(
        w1,
        table,
        BranchShape::Bl,
        g.gatea_site,
        gatea,
        Reason::GateRange,
    )->Ok_0;
    lemma_three(
        out,
        table,
        g.ake.shape,
        s1,
        ake,
        w1,
        ake_va,
        g.gatea_site,
        gatea,
        w2,
        gatea_va,
        g.deny_site,
        deny,
        w3,
        deny_va,
        done,
        after_rawread(img, layout),
        after_deny(img, layout),
    );
}

/// Only the downgrade byte and the record's pointer can take the AKE, Volume ID and deny
/// places.
pub proof fn lemma_core_spared(img: Seq<u8>, layout: Layout, g: Grounds)
    requires
        raw::addressable(img),
        rawread::grounds(img, sram::FLAG_TABLE_BASE) == Ok::<Grounds, FwError>(g),
    ensures
        spots::spot(img, g.ake.site as int, Spot::Ake),
        spots::spot(img, g.gatea_site, Spot::Gate),
        spots::spot(img, g.deny_site, Spot::Deny),
        spared(g.ake.site as int, after_ake(img, layout, g), after_rawread(img, layout)),
        spared(g.gatea_site, after_gatea(img, layout, g), after_rawread(img, layout)),
        spared(g.deny_site, after_deny(img, layout), after_rawread(img, layout)),
{
    spots::lemma_core_spots(img, sram::FLAG_TABLE_BASE);
    lemma_media_apart(img, g.ake.site as int, Spot::Ake);
    lemma_media_apart(img, g.gatea_site, Spot::Gate);
    lemma_media_apart(img, g.deny_site, Spot::Deny);
    lemma_core_apart(img, g.ake.site as int, Spot::Ake);
    lemma_core_apart(img, g.gatea_site, Spot::Gate);
}

/// Three detours one after the other last.
proof fn lemma_three(
    out: Seq<u8>,
    table: Seq<TableEntry>,
    shape: BranchShape,
    s1: int,
    c1: Seq<u8>,
    w1: Seq<u8>,
    v1: u32,
    s2: int,
    c2: Seq<u8>,
    w2: Seq<u8>,
    v2: u32,
    s3: int,
    c3: Seq<u8>,
    w3: Seq<u8>,
    v3: u32,
    done: Seq<u8>,
    taken: Set<int>,
    later: Set<int>,
)
    requires
        raw::addressable(out),
        0 <= s1,
        s1 + 4 <= out.len(),
        0 <= s2,
        s2 + 4 <= out.len(),
        0 <= s3,
        s3 + 4 <= out.len(),
        emit::with_detour(out, table, shape, s1, c1, Reason::AkeInstall) == Ok::<
            (Seq<u8>, u32),
            FwError,
        >((w1, v1)),
        emit::with_detour(w1, table, BranchShape::Bl, s2, c2, Reason::GateRange) == Ok::<
            (Seq<u8>, u32),
            FwError,
        >((w2, v2)),
        emit::with_detour(w2, table, BranchShape::Bl, s3, c3, Reason::DenyRange) == Ok::<
            (Seq<u8>, u32),
            FwError,
        >((w3, v3)),
        changes::confined(w3, done, later),
        spared(s1, changes::window(s2).union(changes::window(s3).union(later)), taken),
        spared(s2, changes::window(s3).union(later), taken),
        spared(s3, later, taken),
    ensures
        lasts(
            done,
            shape,
            s1,
            v1,
            c1,
            taken,
            changes::window(s2).union(changes::window(s3).union(later)),
        ),
        lasts(done, BranchShape::Bl, s2, v2, c2, taken, changes::window(s3).union(later)),
        lasts(done, BranchShape::Bl, s3, v3, c3, taken, later),
{
    let bl = BranchShape::Bl;
    changes::lemma_detour_confined(out, table, shape, s1, c1, Reason::AkeInstall, w1, v1);
    changes::lemma_detour_confined(w1, table, bl, s2, c2, Reason::GateRange, w2, v2);
    changes::lemma_detour_confined(w2, table, bl, s3, c3, Reason::DenyRange, w3, v3);
    let t3 = changes::window(s3).union(later);
    changes::lemma_confined_chain(w2, w3, done, changes::window(s3), later);
    changes::lemma_confined_chain(w1, w2, done, changes::window(s2), t3);
    let t2 = changes::window(s2).union(t3);
    lemma_lasts(out, table, shape, s1, c1, Reason::AkeInstall, w1, v1, done, taken, t2);
    lemma_lasts(w1, table, bl, s2, c2, Reason::GateRange, w2, v2, done, taken, t3);
    lemma_lasts(w2, table, bl, s3, c3, Reason::DenyRange, w3, v3, done, taken, later);
}

/// A detour that rides along lasts, when one was written.
pub proof fn lemma_plan_lasts(
    plan: Result<(usize, Seq<AsmOp>), FwError>,
    out: Seq<u8>,
    table: Seq<TableEntry>,
    out_of_range: Reason,
    w: Seq<u8>,
    site: u32,
    va: u32,
    done: Seq<u8>,
    taken: Set<int>,
    later: Set<int>,
)
    requires
        raw::addressable(out),
        plan matches Ok((at, _)) ==> at + 4 <= out.len() && spared(at as int, later, taken),
        rawread::optional_emission(plan, out, table, out_of_range) == Ok::<
            (Seq<u8>, u32, u32),
            FwError,
        >((w, site, va)),
        changes::confined(w, done, later),
    ensures
        va != 0 ==> plan_lasts(plan, Some(site), Some(va), done, taken, later),
{
    if let Ok((at, ops)) = plan {
        lemma_lasts(
            out,
            table,
            BranchShape::Bl,
            at as int,
            emit::code_of(ops),
            out_of_range,
            w,
            va,
            done,
            taken,
            later,
        );
    }
}

/// Only the downgrade byte and the record's pointer can take the media places.
#[verifier::rlimit(40)]
pub proof fn lemma_media_spared(img: Seq<u8>, layout: Layout)
    requires
        raw::addressable(img),
    ensures
        detours::uhd_plan(img, sram::FLAG_TABLE_BASE) matches Ok((at, _)) ==> at + 4 <= img.len()
            && spared(at as int, after_uhd(img, layout), after_rawread(img, layout)),
        detours::bd_plan(img, sram::FLAG_TABLE_BASE) matches Ok((at, _)) ==> at + 4 <= img.len()
            && spared(at as int, after_rawread(img, layout), after_rawread(img, layout)),
        gates::hrl_skip_sites(img) matches Ok((sites, _)) ==> {
            &&& forall|i: int| 0 <= i < sites.len() ==> #[trigger] sites[i] + 4 <= img.len()
            &&& forall|i: int|
                0 <= i < sites.len() ==> spared(
                    #[trigger] sites[i] as int,
                    after_hrl(img, layout),
                    after_rawread(img, layout),
                )
            &&& checks_apart(sites)
        },
{
    spots::lemma_uhd_spot(img, sram::FLAG_TABLE_BASE);
    spots::lemma_bd_spot(img, sram::FLAG_TABLE_BASE);
    spots::lemma_hrl_spots(img);
    if let Ok((at, _)) = detours::uhd_plan(img, sram::FLAG_TABLE_BASE) {
        lemma_media_apart(img, at as int, Spot::Uhd);
    }
    if let Ok((sites, _)) = gates::hrl_skip_sites(img) {
        lemma_checks_each(img, sites);
        assert forall|i: int| 0 <= i < sites.len() implies spared(
            #[trigger] sites[i] as int,
            after_hrl(img, layout),
            after_rawread(img, layout),
        ) by {
            lemma_media_apart(img, sites[i] as int, Spot::Hrl);
        }
    }
}

/// Places that are the same or do not overlap.
pub open spec fn checks_apart(sites: Seq<usize>) -> bool {
    forall|i: int, j: int|
        0 <= i < sites.len() && 0 <= j < sites.len() && (#[trigger] sites[i]) != (
        #[trigger] sites[j]) ==> changes::window(sites[i] as int).disjoint(
            changes::window(sites[j] as int),
        )
}

/// Revocation places are the same or do not overlap.
pub proof fn lemma_checks_each(img: Seq<u8>, sites: Seq<usize>)
    requires
        forall|i: int|
            0 <= i < sites.len() ==> spots::spot(img, #[trigger] sites[i] as int, Spot::Hrl),
    ensures
        checks_apart(sites),
        forall|i: int| 0 <= i < sites.len() ==> #[trigger] sites[i] + 4 <= img.len(),
{
    assert forall|i: int, j: int|
        0 <= i < sites.len() && 0 <= j < sites.len() && (#[trigger] sites[i]) != (
        #[trigger] sites[j]) implies changes::window(sites[i] as int).disjoint(
        changes::window(sites[j] as int),
    ) by {
        spots::law_detour_places_never_overlap(
            img,
            sites[i] as int,
            Spot::Hrl,
            sites[j] as int,
            Spot::Hrl,
        );
    }
}

/// The media detours last, when they were written.
#[verifier::rlimit(40)]
pub proof fn lemma_media_lasts(
    img: Seq<u8>,
    layout: Layout,
    w3: Seq<u8>,
    w6: Seq<u8>,
    f: rawread::RawRead,
    done: Seq<u8>,
)
    requires
        raw::addressable(img),
        w3.len() == img.len(),
        rawread::media_emission(img, w3, layout.covered@, sram::FLAG_TABLE_BASE) == Ok::<
            (Seq<u8>, (u32, u32), (Seq<u32>, u32), (u32, u32)),
            FwError,
        >(
            (
                w6,
                (f.uhd_site, f.uhd_stub_va),
                (f.hrl_sites, f.hrl_stub_va),
                (f.bd_site, f.bd_stub_va),
            ),
        ),
        changes::confined(w6, done, after_rawread(img, layout)),
    ensures
        ({
            let l = Lever {
                id: LeverId::RawRead,
                outcome: Outcome::Applied,
                facts: modify::rawread_facts(f),
            };
            &&& plan_lasts(
                detours::uhd_plan(img, sram::FLAG_TABLE_BASE),
                audit::fact_of(l.facts, "uhd_site"@),
                audit::fact_of(l.facts, "uhd_stub_va"@),
                done,
                after_rawread(img, layout),
                after_uhd(img, layout),
            )
            &&& plan_lasts(
                detours::bd_plan(img, sram::FLAG_TABLE_BASE),
                audit::fact_of(l.facts, "bd_site"@),
                audit::fact_of(l.facts, "bd_stub_va"@),
                done,
                after_rawread(img, layout),
                after_rawread(img, layout),
            )
            &&& hrl_lasts(
                gates::hrl_skip_sites(img),
                sram::FLAG_TABLE_BASE,
                l,
                done,
                after_rawread(img, layout),
                after_hrl(img, layout),
            )
        }),
{
    let base = sram::FLAG_TABLE_BASE;
    let table = layout.covered@;
    let taken = after_rawread(img, layout);
    let uhd = detours::uhd_plan(img, base);
    let bd = detours::bd_plan(img, base);
    let (w4, _, _) = rawread::optional_emission(uhd, w3, table, Reason::UhdRange)->Ok_0;
    let (w5, _, _) = rawread::hrl_emission(img, w4, table, base)->Ok_0;
    changes::lemma_optional_confined(uhd, w3, table, Reason::UhdRange);
    changes::lemma_hrl_confined(img, w4, table, base);
    changes::lemma_optional_confined(bd, w5, table, Reason::BdRange);
    changes::lemma_confined_chain(w5, w6, done, changes::plan_window(bd), taken);
    changes::lemma_confined_chain(
        w4,
        w5,
        done,
        changes::hrl_windows(img),
        after_hrl(img, layout),
    );
    lemma_media_spared(img, layout);
    lemma_plan_lasts(
        uhd,
        w3,
        table,
        Reason::UhdRange,
        w4,
        f.uhd_site,
        f.uhd_stub_va,
        done,
        taken,
        after_uhd(img, layout),
    );
    lemma_plan_lasts(
        bd,
        w5,
        table,
        Reason::BdRange,
        w6,
        f.bd_site,
        f.bd_stub_va,
        done,
        taken,
        taken,
    );
    if let Ok((sites, revoke)) = gates::hrl_skip_sites(img) {
        lemma_shared_lasts(
            w4,
            table,
            sites,
            emit::code_of(stubs::hrl_skip_program(base, revoke)),
            Checks::Modern,
            w5,
            f.hrl_stub_va,
            done,
            taken,
            after_hrl(img, layout),
        );
    }
    facts::lemma_media_facts(f);
}

/// The Raw-read lever lasts.
#[verifier::rlimit(40)]
proof fn lemma_rawread_lasts(
    img: Seq<u8>,
    out: Seq<u8>,
    layout: Layout,
    cap: Capability,
    done: Seq<u8>,
)
    requires
        raw::addressable(img),
        out.len() == img.len(),
        changes::confined(
            modify::rawread_lever(img, out, layout.covered@, sram::FLAG_TABLE_BASE, cap).0,
            done,
            after_rawread(img, layout),
        ),
    ensures
        ({
            let l = modify::rawread_lever(img, out, layout.covered@, sram::FLAG_TABLE_BASE, cap).1;
            l.outcome is Applied ==> rawread_lasts(img, layout, done, l)
        }),
{
    reveal(rawread_lasts);
    reveal(modify::rawread_lever);
    let table = layout.covered@;
    let base = sram::FLAG_TABLE_BASE;
    if cap.bd_aacs {
        if let Ok((w, f)) = rawread::rawread_emission(img, out, table, base) {
            let g = rawread::grounds(img, base)->Ok_0;
            let (w3, ake_va, gatea_va, deny_va) = rawread::core_emission(g, out, table)->Ok_0;
            changes::lemma_core_confined(g, out, table);
            lemma_media_confined(img, w3, table);
            changes::lemma_confined_chain(
                w3,
                w,
                done,
                media_windows(img),
                after_rawread(img, layout),
            );
            lemma_core_lasts(img, layout, g, out, w3, ake_va, gatea_va, deny_va, done);
            lemma_media_lasts(img, layout, w3, w, f, done);
            lemma_rawread_facts(f);
        }
    }
}

/// The levers of a modern image one after the other, each within its own bytes.
proof fn lemma_stages(
    img: Seq<u8>,
    out: Seq<u8>,
    layout: Layout,
    identity: Lever,
    chip: ChipInfo,
    cap: Capability,
)
    requires
        raw::addressable(out),
        out.len() == img.len(),
    ensures
        ({
            let table = layout.covered@;
            let base = sram::FLAG_TABLE_BASE;
            let s = modify::speed_lever(img, out, table, base, cap);
            let r = modify::region_lever(img, s.0, table, base, cap);
            let f = modify::rawread_lever(img, r.0, table, base, cap);
            let d = modify::de_lever(img, f.0, chip);
            &&& modify::modern_levers(img, out, layout, base, identity, chip, cap) == (
                d.0,
                seq![identity, s.1, r.1, f.1, d.1],
            )
            &&& changes::confined(out, s.0, changes::speed_window(img))
            &&& changes::confined(s.0, r.0, changes::region_window(img))
            &&& changes::confined(r.0, f.0, changes::rawread_windows(img, base))
            &&& changes::confined(f.0, d.0, changes::de_window(img))
        }),
{
    let table = layout.covered@;
    let base = sram::FLAG_TABLE_BASE;
    let s = modify::speed_lever(img, out, table, base, cap).0;
    let r = modify::region_lever(img, s, table, base, cap).0;
    let f = modify::rawread_lever(img, r, table, base, cap).0;
    assert(changes::confined(out, s, changes::speed_window(img))) by {
        reveal(modify::speed_lever);
        changes::lemma_speed_confined(img, out, table, base);
    }
    assert(changes::confined(s, r, changes::region_window(img))) by {
        reveal(modify::region_lever_of);
        changes::lemma_region_confined(
            gates::region_emitter(img),
            s,
            table,
            base,
            Reason::RegionRange,
        );
    }
    assert(changes::confined(r, f, changes::rawread_windows(img, base))) by {
        reveal(modify::rawread_lever);
        changes::lemma_rawread_confined(img, r, table, base);
    }
    changes::lemma_de_confined(img, f, chip);
    assert(modify::modern_levers(img, out, layout, base, identity, chip, cap) == (
        modify::de_lever(img, f, chip).0,
        seq![
            identity,
            modify::speed_lever(img, out, table, base, cap).1,
            modify::region_lever(img, s, table, base, cap).1,
            modify::rawread_lever(img, r, table, base, cap).1,
            modify::de_lever(img, f, chip).1,
        ],
    )) by {
        reveal(modify::modern_levers);
    }
}

/// What is written behind the Speed, Region and Raw-read levers.
pub proof fn lemma_suffixes(
    img: Seq<u8>,
    layout: Layout,
    s: Seq<u8>,
    r: Seq<u8>,
    f: Seq<u8>,
    d: Seq<u8>,
    record: CommandRecord,
    pointer: u32,
)
    requires
        scanner::live_record(img, abi::READ_BUFFER_OPCODE, layout.live_record_windows@) == Ok::<
            CommandRecord,
            FwError,
        >(record),
        changes::confined(s, r, changes::region_window(img)),
        changes::confined(r, f, changes::rawread_windows(img, sram::FLAG_TABLE_BASE)),
        changes::confined(f, d, changes::de_window(img)),
    ensures
        changes::confined(
            f,
            scanner::repointed(d, record, pointer),
            after_rawread(img, layout),
        ),
        changes::confined(r, scanner::repointed(d, record, pointer), after_region(img, layout)),
        changes::confined(s, scanner::repointed(d, record, pointer), after_speed(img, layout)),
{
    let base = sram::FLAG_TABLE_BASE;
    let done = scanner::repointed(d, record, pointer);
    assert(changes::confined(d, done, changes::record_window(img, layout)));
    changes::lemma_confined_chain(
        f,
        d,
        done,
        changes::de_window(img),
        changes::record_window(img, layout),
    );
    changes::lemma_confined_chain(
        r,
        f,
        done,
        changes::rawread_windows(img, base),
        after_rawread(img, layout),
    );
    changes::lemma_confined_chain(
        s,
        r,
        done,
        changes::region_window(img),
        after_region(img, layout),
    );
}

/// The levers of a modern image last.
#[verifier::rlimit(40)]
proof fn lemma_levers_last(
    img: Seq<u8>,
    out: Seq<u8>,
    layout: Layout,
    identity: Lever,
    chip: ChipInfo,
    cap: Capability,
    record: CommandRecord,
    pointer: u32,
)
    requires
        raw::addressable(img),
        out.len() == img.len(),
        scanner::live_record(img, abi::READ_BUFFER_OPCODE, layout.live_record_windows@) == Ok::<
            CommandRecord,
            FwError,
        >(record),
    ensures
        ({
            let (w, levers) = modify::modern_levers(
                img,
                out,
                layout,
                sram::FLAG_TABLE_BASE,
                identity,
                chip,
                cap,
            );
            all_last(img, layout, scanner::repointed(w, record, pointer), levers)
        }),
{
    lemma_stages(img, out, layout, identity, chip, cap);
    let table = layout.covered@;
    let base = sram::FLAG_TABLE_BASE;
    let s = modify::speed_lever(img, out, table, base, cap).0;
    let r = modify::region_lever(img, s, table, base, cap).0;
    let f = modify::rawread_lever(img, r, table, base, cap).0;
    let d = modify::de_lever(img, f, chip).0;
    let done = scanner::repointed(d, record, pointer);
    lemma_suffixes(img, layout, s, r, f, d, record, pointer);
    lemma_speed_lasts(img, out, layout, cap, done);
    lemma_region_spared(img, layout);
    lemma_region_lasts(
        gates::region_emitter(img),
        s,
        table,
        base,
        Reason::RegionRange,
        cap,
        done,
        after_rawread(img, layout),
        after_region(img, layout),
    );
    lemma_rawread_lasts(img, r, layout, cap, done);
    lemma_de_lasts(img, f, chip, record, pointer);
}

/// Of five levers, those behind the first that were applied last in `done`.
pub open spec fn all_last(
    img: Seq<u8>,
    layout: Layout,
    done: Seq<u8>,
    levers: Seq<Lever>,
) -> bool {
    &&& levers.len() == 5
    &&& levers[1].outcome is Applied ==> speed_lasts(img, layout, done, levers[1])
    &&& levers[2].outcome is Applied ==> region_lasts(
        gates::region_emitter(img),
        sram::FLAG_TABLE_BASE,
        after_rawread(img, layout),
        after_region(img, layout),
        done,
        levers[2],
    )
    &&& levers[3].outcome is Applied ==> rawread_lasts(img, layout, done, levers[3])
    &&& levers[4].outcome is Applied ==> de_lasts(
        img,
        changes::record_window(img, layout),
        done,
        levers[4],
    )
}

/// What a lever of a modern image is reported to have applied is in the image that is
/// handed out: every branch that the report names goes to its stub, and the stubs and the
/// downgrade byte are there. No detour takes a branch of another. Excepted are a branch
/// that lies over the downgrade byte or the record's pointer, bytes of a stub that a later
/// branch took, and bytes written that look like erased flash, which a later stub may be
/// put over.
#[verifier::rlimit(40)]
pub proof fn law_applied_levers_last(
    img: Seq<u8>,
    layout: Layout,
    chip: ChipInfo,
    cap: Capability,
    m: Modified,
)
    requires
        raw::addressable(img),
        !modify::carries_magic(img),
        modify::modify_modern(img, layout, chip, cap) == Ok::<Modified, FwError>(m),
    ensures
        all_last(img, layout, m.image, m.levers),
{
    let (b, pair) = base::modern_base(img, layout)->Ok_0;
    let (out, site, va) = emit::boot_emission(
        img,
        b.image,
        layout.covered@,
        b.flag_base,
        pair,
    )->Ok_0;
    landing::lemma_modern_ground(img, layout, b, pair, out, site, va);
    lemma_levers_last(
        img,
        out,
        layout,
        modify::identity_lever(b, site, va),
        chip,
        cap,
        b.record,
        create::entry_pointer(b.handler_va),
    );
}

} // verus!
