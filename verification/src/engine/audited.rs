//! When an image that was modified passes its own audit.
use crate::engine::audit;
use crate::engine::base;
use crate::engine::base::{Base, Layout};
use crate::engine::changes;
use crate::engine::detours;
use crate::engine::emit;
use crate::engine::facts;
use crate::engine::gates;
use crate::engine::landing;
use crate::engine::lasting;
use crate::engine::lever::{Lever, Modified};
use crate::engine::modify;
use crate::engine::rawread;
use crate::engine::rooted;
use crate::engine::space;
use crate::engine::space::TableEntry;
use crate::engine::sram;
use crate::engine::stubs;
use crate::error::FwError;
use crate::family::{Capability, ChipInfo};
use crate::program::AsmOp;
use crate::raw;
use crate::thumb;
use crate::thumb::BranchShape;
use vstd::prelude::*;

verus! {

/// One of the first bytes of a stub at `va` does not look like erased flash and is not among
/// `later`.
pub open spec fn shows(stub: Seq<u8>, va: u32, later: Set<int>) -> bool {
    exists|k: int|
        0 <= k < stub.len() && k < audit::STUB_PROBE && #[trigger] stub[k] != 0xFF
            && !later.contains(va + k)
}

/// Nothing disturbs a detour: its branch has no byte that looks like erased flash, nothing
/// of `taken` is among the branch's bytes, and one of the stub's first bytes stays.
pub open spec fn clear(
    shape: BranchShape,
    site: int,
    va: u32,
    stub: Seq<u8>,
    taken: Set<int>,
    later: Set<int>,
) -> bool {
    &&& lasting::firm(shape, site, va)
    &&& changes::window(site).disjoint(taken)
    &&& shows(stub, va, changes::window(site).union(later))
}

/// A detour that lasts and that nothing disturbs passes.
pub proof fn lemma_clear(
    done: Seq<u8>,
    shape: BranchShape,
    site: int,
    va: u32,
    stub: Seq<u8>,
    taken: Set<int>,
    later: Set<int>,
)
    requires
        lasting::lasts(done, shape, site, va, stub, taken, later),
        clear(shape, site, va, stub, taken, later),
    ensures
        thumb::branch_target(shape, done, site) == Some(va),
        audit::stub_written(done, va),
{
    let k = choose|k: int|
        0 <= k < stub.len() && k < audit::STUB_PROBE && #[trigger] stub[k] != 0xFF
            && !changes::window(site).union(later).contains(va + k);
    assert(done[va + k] == stub[k]);
}

/// Nothing disturbs the Speed detour that a lever names.
#[verifier::opaque]
pub open spec fn speed_clear(img: Seq<u8>, layout: Layout, l: Lever) -> bool {
    match (gates::speed_gate(img), audit::fact_of(l.facts, "speed_stub_va"@)) {
        (Ok((gate, reg)), Some(va)) => clear(
            BranchShape::Bl,
            gate + 4,
            va,
            lasting::speed_code(img, gate, reg),
            lasting::after_rawread(img, layout),
            lasting::after_speed(img, layout),
        ),
        _ => true,
    }
}

/// Nothing disturbs the Region detour that a lever names.
#[verifier::opaque]
pub open spec fn region_clear(img: Seq<u8>, layout: Layout, l: Lever) -> bool {
    match (gates::region_emitter(img), audit::fact_of(l.facts, "region_stub_va"@)) {
        (Ok(at), Some(va)) => clear(
            BranchShape::Bl,
            at + 6,
            va,
            emit::code_of(stubs::region_program(sram::FLAG_TABLE_BASE)),
            lasting::after_rawread(img, layout),
            lasting::after_region(img, layout),
        ),
        _ => true,
    }
}

/// Nothing disturbs the detours that every Raw-read lever names.
#[verifier::opaque]
pub open spec fn core_clear(img: Seq<u8>, layout: Layout, l: Lever) -> bool {
    match (
        rawread::grounds(img, sram::FLAG_TABLE_BASE),
        audit::fact_of(l.facts, "ake_stub_va"@),
        audit::fact_of(l.facts, "gatea_stub_va"@),
        audit::fact_of(l.facts, "deny_stub_va"@),
    ) {
        (Ok(g), Some(ake), Some(gatea), Some(deny)) => {
            &&& clear(
                g.ake.shape,
                g.ake.site as int,
                ake,
                emit::code_of(g.ake.ops),
                lasting::after_rawread(img, layout),
                lasting::after_ake(img, layout, g),
            )
            &&& clear(
                BranchShape::Bl,
                g.gatea_site,
                gatea,
                emit::code_of(g.gatea),
                lasting::after_rawread(img, layout),
                lasting::after_gatea(img, layout, g),
            )
            &&& clear(
                BranchShape::Bl,
                g.deny_site,
                deny,
                emit::code_of(stubs::deny_reset_program(g.reset)),
                lasting::after_rawread(img, layout),
                lasting::after_deny(img, layout),
            )
        },
        _ => true,
    }
}

/// Nothing disturbs a detour that rides along, when it is named.
pub open spec fn plan_clear(
    plan: Result<(usize, Seq<AsmOp>), FwError>,
    stub: Option<u32>,
    taken: Set<int>,
    later: Set<int>,
) -> bool {
    match (plan, stub) {
        (Ok((at, ops)), Some(va)) => clear(
            BranchShape::Bl,
            at as int,
            va,
            emit::code_of(ops),
            taken,
            later,
        ),
        _ => true,
    }
}

/// Nothing disturbs the revocation detours, when they are named.
pub open spec fn hrl_clear(
    found: Result<(Seq<usize>, u32), FwError>,
    flag_base: u32,
    stub: Option<u32>,
    taken: Set<int>,
    later: Set<int>,
) -> bool {
    match (found, stub) {
        (Ok((sites, revoke)), Some(va)) => {
            &&& forall|i: int|
                #![trigger sites[i]]
                0 <= i < sites.len() ==> lasting::firm(BranchShape::Bl, sites[i] as int, va)
                    && changes::window(sites[i] as int).disjoint(taken)
            &&& shows(
                emit::code_of(stubs::hrl_skip_program(flag_base, revoke)),
                va,
                changes::windows(sites).union(later),
            )
        },
        _ => true,
    }
}

/// Nothing disturbs the media detours that a Raw-read lever names.
#[verifier::opaque]
pub open spec fn media_clear(img: Seq<u8>, layout: Layout, l: Lever) -> bool {
    let taken = lasting::after_rawread(img, layout);
    &&& plan_clear(
        detours::uhd_plan(img, sram::FLAG_TABLE_BASE),
        audit::fact_of(l.facts, "uhd_stub_va"@),
        taken,
        lasting::after_uhd(img, layout),
    )
    &&& plan_clear(
        detours::bd_plan(img, sram::FLAG_TABLE_BASE),
        audit::fact_of(l.facts, "bd_stub_va"@),
        taken,
        taken,
    )
    &&& hrl_clear(
        gates::hrl_skip_sites(img),
        sram::FLAG_TABLE_BASE,
        audit::fact_of(l.facts, "hrl_stub_va"@),
        taken,
        lasting::after_hrl(img, layout),
    )
}

/// The handler's first bytes stay, and so does the boot function's address in it, if there
/// is one.
pub open spec fn handler_clear(b: Base, later: Set<int>) -> bool {
    &&& shows(b.handler, b.handler_va, later)
    &&& b.boot_entry != 0 ==> exists|at: int|
        0 <= at && at + 4 <= audit::HANDLER_SPAN && #[trigger] raw::occurs_at(
            b.handler,
            raw::le_bytes(audit::tagged(b.boot_entry)),
            at,
        ) && forall|k: int|
            at <= k < at + 4 ==> #[trigger] b.handler[k] != 0xFF && !later.contains(
                b.handler_va + k,
            )
}

/// Nothing disturbs what a modern image was modified with: each branch and the downgrade
/// byte are apart from the record's pointer, each branch is apart from the downgrade byte
/// and has no byte that looks like erased flash, and of each stub and of the handler what
/// the audit looks at stays.
pub open spec fn all_clear(img: Seq<u8>, layout: Layout, levers: Seq<Lever>) -> bool {
    &&& base::modern_base(img, layout) matches Ok((b, pair)) ==> handler_clear(
        b,
        changes::window(pair.0 as int).union(rooted::after_boot(img, b.record)),
    )
    &&& speed_clear(img, layout, levers[1])
    &&& region_clear(img, layout, levers[2])
    &&& core_clear(img, layout, levers[3])
    &&& media_clear(img, layout, levers[3])
    &&& gates::de_byte(img) matches Ok(at) ==> !changes::record_window(img, layout).contains(
        at as int,
    )
}

/// Which lever each of the steps makes.
proof fn lemma_ids(
    img: Seq<u8>,
    out: Seq<u8>,
    emission: Result<(Seq<u8>, u32, u32), FwError>,
    table: Seq<TableEntry>,
    chip: ChipInfo,
    cap: Capability,
)
    ensures
        modify::speed_lever(img, out, table, sram::FLAG_TABLE_BASE, cap).1.id is Speed,
        modify::region_lever_of(out, emission, cap).1.id is RegionFree,
        modify::de_lever(img, out, chip).1.id is DowngradeEnable,
{
    reveal(modify::speed_lever);
    reveal(modify::region_lever_of);
    reveal(modify::de_lever);
}

/// A Raw-read lever that was applied names the detours that it has and no others.
proof fn lemma_rawread_names(
    img: Seq<u8>,
    out: Seq<u8>,
    table: Seq<TableEntry>,
    cap: Capability,
)
    ensures
        ({
            let l = modify::rawread_lever(img, out, table, sram::FLAG_TABLE_BASE, cap).1;
            &&& l.id is RawRead
            &&& l.outcome is Applied ==> {
                &&& audit::fact_of(l.facts, "deny"@) is None
                &&& audit::fact_of(l.facts, "scratch"@) is None
                &&& audit::fact_of(l.facts, "auth_cell_site"@) is None
            }
        }),
{
    reveal(modify::rawread_lever);
    if let Ok((_, f)) = rawread::rawread_emission(img, out, table, sram::FLAG_TABLE_BASE) {
        facts::lemma_absent_facts(f);
    }
}

/// The levers of a report are in their order, and a Raw-read lever that was applied names
/// the detours that it has and no others.
#[verifier::rlimit(40)]
proof fn lemma_levers(
    img: Seq<u8>,
    out: Seq<u8>,
    layout: Layout,
    identity: Lever,
    chip: ChipInfo,
    cap: Capability,
)
    ensures
        ({
            let levers = modify::modern_levers(
                img,
                out,
                layout,
                sram::FLAG_TABLE_BASE,
                identity,
                chip,
                cap,
            ).1;
            &&& levers.len() == 5
            &&& levers[0] == identity
            &&& levers[1].id is Speed
            &&& levers[2].id is RegionFree
            &&& levers[3].id is RawRead
            &&& levers[4].id is DowngradeEnable
            &&& levers[3].outcome is Applied ==> {
                &&& audit::fact_of(levers[3].facts, "deny"@) is None
                &&& audit::fact_of(levers[3].facts, "scratch"@) is None
                &&& audit::fact_of(levers[3].facts, "auth_cell_site"@) is None
            }
        }),
{
    reveal(modify::modern_levers);
    let table = layout.covered@;
    let base = sram::FLAG_TABLE_BASE;
    let s = modify::speed_lever(img, out, table, base, cap).0;
    let region = emit::region_emission(img, s, table, base);
    let r = modify::region_lever(img, s, table, base, cap).0;
    let f = modify::rawread_lever(img, r, table, base, cap).0;
    lemma_ids(img, out, region, table, chip, cap);
    lemma_ids(img, s, region, table, chip, cap);
    lemma_ids(img, f, region, table, chip, cap);
    lemma_rawread_names(img, r, table, cap);
}

/// The core detours of a Raw-read lever pass.
proof fn lemma_core(img: Seq<u8>, layout: Layout, done: Seq<u8>, l: Lever)
    requires
        raw::addressable(img),
        lasting::rawread_lasts(img, layout, done, l),
        core_clear(img, layout, l),
    ensures
        audit::core_checks(done, l).len() > 0,
        audit::fact_of(l.facts, "ake_site"@) matches Some(site) && audit::fact_of(
            l.facts,
            "ake_stub_va"@,
        ) matches Some(stub) && landing::branches(done, site, stub),
        landing::wired(done, l, "gatea_gate"@, 0, "gatea_stub_va"@),
        landing::wired(done, l, "deny_site"@, 0, "deny_stub_va"@),
{
    reveal(core_clear);
    reveal(lasting::rawread_lasts);
    let g = rawread::grounds(img, sram::FLAG_TABLE_BASE)->Ok_0;
    lasting::lemma_core_spared(img, layout, g);
    let ake = audit::fact_of(l.facts, "ake_stub_va"@)->Some_0;
    let gatea = audit::fact_of(l.facts, "gatea_stub_va"@)->Some_0;
    let deny = audit::fact_of(l.facts, "deny_stub_va"@)->Some_0;
    let taken = lasting::after_rawread(img, layout);
    lemma_clear(
        done,
        g.ake.shape,
        g.ake.site as int,
        ake,
        emit::code_of(g.ake.ops),
        taken,
        lasting::after_ake(img, layout, g),
    );
    lemma_clear(
        done,
        BranchShape::Bl,
        g.gatea_site,
        gatea,
        emit::code_of(g.gatea),
        taken,
        lasting::after_gatea(img, layout, g),
    );
    lemma_clear(
        done,
        BranchShape::Bl,
        g.deny_site,
        deny,
        emit::code_of(stubs::deny_reset_program(g.reset)),
        taken,
        lasting::after_deny(img, layout),
    );
    assert(audit::core_checks(done, l).len() > 0) by {
        reveal(audit::core_checks);
    }
}

/// A detour that rides along passes.
proof fn lemma_plan(
    plan: Result<(usize, Seq<AsmOp>), FwError>,
    len: nat,
    done: Seq<u8>,
    l: Lever,
    site_key: Seq<char>,
    stub_key: Seq<char>,
    taken: Set<int>,
    later: Set<int>,
)
    requires
        len <= u32::MAX,
        plan matches Ok((at, _)) ==> at + 4 <= len,
        lasting::plan_lasts(
            plan,
            audit::fact_of(l.facts, site_key),
            audit::fact_of(l.facts, stub_key),
            done,
            taken,
            later,
        ),
        plan_clear(plan, audit::fact_of(l.facts, stub_key), taken, later),
    ensures
        landing::wired(done, l, site_key, 0, stub_key),
{
    if let (Ok((at, ops)), Some(va)) = (plan, audit::fact_of(l.facts, stub_key)) {
        lemma_clear(
            done,
            BranchShape::Bl,
            at as int,
            va,
            emit::code_of(ops),
            taken,
            later,
        );
    }
}

/// The revocation detours pass.
pub proof fn lemma_hrl(
    found: Result<(Seq<usize>, u32), FwError>,
    len: nat,
    flag_base: u32,
    done: Seq<u8>,
    l: Lever,
    taken: Set<int>,
    later: Set<int>,
)
    requires
        len <= u32::MAX,
        found matches Ok((sites, _)) ==> forall|i: int|
            0 <= i < sites.len() ==> #[trigger] sites[i] + 4 <= len,
        lasting::hrl_lasts(found, flag_base, l, done, taken, later),
        hrl_clear(found, flag_base, audit::fact_of(l.facts, "hrl_stub_va"@), taken, later),
    ensures
        landing::wired(done, l, "hrl_site"@, 0, "hrl_stub_va"@),
        landing::wired(done, l, "hrl_site2"@, 0, "hrl_stub_va"@),
        landing::wired(done, l, "hrl_site3"@, 0, "hrl_stub_va"@),
{
    if let Some(va) = audit::fact_of(l.facts, "hrl_stub_va"@) {
        let (sites, revoke) = found->Ok_0;
        let stub = emit::code_of(stubs::hrl_skip_program(flag_base, revoke));
        let k = choose|k: int|
            0 <= k < stub.len() && k < audit::STUB_PROBE && #[trigger] stub[k] != 0xFF
                && !changes::windows(sites).union(later).contains(va + k);
        assert(done[va + k] == stub[k]);
        assert(audit::stub_written(done, va));
        let named = rawread::addresses(sites);
        assert forall|i: int| 0 <= i < sites.len() implies landing::calls(
            done,
            #[trigger] named[i],
            va,
        ) by {
            assert(named[i] == sites[i] as u32);
            assert(sites[i] + 4 <= len);
        }
    }
}

/// A Raw-read lever that was applied and that nothing disturbs passes.
proof fn lemma_rawread(img: Seq<u8>, layout: Layout, done: Seq<u8>, l: Lever)
    requires
        raw::addressable(img),
        lasting::rawread_lasts(img, layout, done, l),
        core_clear(img, layout, l),
        media_clear(img, layout, l),
        audit::fact_of(l.facts, "deny"@) is None,
        audit::fact_of(l.facts, "scratch"@) is None,
        audit::fact_of(l.facts, "auth_cell_site"@) is None,
        l.id is RawRead,
    ensures
        landing::landed(img, done, l),
{
    reveal(media_clear);
    reveal(lasting::rawread_lasts);
    let taken = lasting::after_rawread(img, layout);
    lasting::lemma_media_spared(img, layout);
    lemma_core(img, layout, done, l);
    lemma_plan(
        detours::uhd_plan(img, sram::FLAG_TABLE_BASE),
        img.len(),
        done,
        l,
        "uhd_site"@,
        "uhd_stub_va"@,
        taken,
        lasting::after_uhd(img, layout),
    );
    lemma_plan(
        detours::bd_plan(img, sram::FLAG_TABLE_BASE),
        img.len(),
        done,
        l,
        "bd_site"@,
        "bd_stub_va"@,
        taken,
        taken,
    );
    lemma_hrl(
        gates::hrl_skip_sites(img),
        img.len(),
        sram::FLAG_TABLE_BASE,
        done,
        l,
        taken,
        lasting::after_hrl(img, layout),
    );
}

/// The Speed and Region levers that were applied and that nothing disturbs pass.
proof fn lemma_outer(img: Seq<u8>, layout: Layout, done: Seq<u8>, speed: Lever, region: Lever)
    requires
        raw::addressable(img),
        speed_clear(img, layout, speed),
        region_clear(img, layout, region),
    ensures
        lasting::speed_lasts(img, layout, done, speed) ==> landing::wired(
            done,
            speed,
            "speed_gate"@,
            4,
            "speed_stub_va"@,
        ),
        lasting::region_lasts(
            gates::region_emitter(img),
            sram::FLAG_TABLE_BASE,
            lasting::after_rawread(img, layout),
            lasting::after_region(img, layout),
            done,
            region,
        ) ==> landing::wired(done, region, "region_emitter"@, 6, "region_stub_va"@),
{
    reveal(speed_clear);
    reveal(region_clear);
    reveal(lasting::speed_lasts);
    reveal(lasting::region_lasts);
    let taken = lasting::after_rawread(img, layout);
    if lasting::speed_lasts(img, layout, done, speed) {
        let (gate, reg) = gates::speed_gate(img)->Ok_0;
        lasting::lemma_speed_spared(img, layout, gate);
        lemma_clear(
            done,
            BranchShape::Bl,
            gate + 4,
            audit::fact_of(speed.facts, "speed_stub_va"@)->Some_0,
            lasting::speed_code(img, gate, reg),
            taken,
            lasting::after_speed(img, layout),
        );
    }
    if lasting::region_lasts(
        gates::region_emitter(img),
        sram::FLAG_TABLE_BASE,
        taken,
        lasting::after_region(img, layout),
        done,
        region,
    ) {
        let at = gates::region_emitter(img)->Ok_0;
        lasting::lemma_region_spared(img, layout);
        lemma_clear(
            done,
            BranchShape::Bl,
            at + 6,
            audit::fact_of(region.facts, "region_stub_va"@)->Some_0,
            emit::code_of(stubs::region_program(sram::FLAG_TABLE_BASE)),
            taken,
            lasting::after_region(img, layout),
        );
    }
}

/// A handler that nothing disturbs passes.
pub proof fn lemma_handler(done: Seq<u8>, b: Base, later: Set<int>)
    requires
        rooted::handler_lasts(done, b, later),
        handler_clear(b, later),
        b.handler_va + b.handler.len() + emit::SPARE <= done.len(),
    ensures
        audit::stub_written(done, b.handler_va),
        b.boot_entry != 0 ==> audit::handler_holds(
            done,
            b.handler_va,
            audit::tagged(b.boot_entry),
        ),
{
    let k = choose|k: int|
        0 <= k < b.handler.len() && k < audit::STUB_PROBE && #[trigger] b.handler[k] != 0xFF
            && !later.contains(b.handler_va + k);
    assert(done[b.handler_va + k] == b.handler[k]);
    if b.boot_entry != 0 {
        let word = raw::le_bytes(audit::tagged(b.boot_entry));
        let at = choose|at: int|
            0 <= at && at + 4 <= audit::HANDLER_SPAN && #[trigger] raw::occurs_at(
                b.handler,
                word,
                at,
            ) && forall|k: int|
                at <= k < at + 4 ==> #[trigger] b.handler[k] != 0xFF && !later.contains(
                    b.handler_va + k,
                );
        assert forall|j: int| 0 <= j < word.len() implies #[trigger] done[b.handler_va + at + j]
            == word[j] by {
            assert(b.handler[at + j] == word[j]);
            assert(b.handler[at + j] != 0xFF);
        }
        assert(raw::occurs_at(done, word, b.handler_va + at));
    }
}

/// The facts of an Identity lever.
proof fn lemma_identity_facts(b: Base, site: u32, va: u32)
    ensures
        ({
            let facts = modify::identity_lever(b, site, va).facts;
            &&& audit::fact_of(facts, "handler_va"@) == Some(b.handler_va)
            &&& audit::fact_of(facts, "boot_function_entry"@) == Some(b.boot_entry)
        }),
{
    let facts = modify::identity_lever(b, site, va).facts;
    reveal_strlit("handler_va");
    reveal_strlit("record_off");
    reveal_strlit("boot_init_site");
    reveal_strlit("boot_stub_va");
    reveal_strlit("boot_function_entry");
    assert("record_off"@.len() != "boot_function_entry"@.len());
    assert(facts[0].0.len() == 10 && facts[1].0.len() == 10 && facts[2].0.len() == 14
        && facts[3].0.len() == 12);
    landing::lemma_first_fact(facts, "handler_va"@, 0, facts.len());
    landing::lemma_first_fact(facts, "boot_function_entry"@, 4, facts.len());
}

/// The Identity lever passes.
proof fn lemma_identity(
    img: Seq<u8>,
    layout: Layout,
    b: Base,
    site: u32,
    va: u32,
    done: Seq<u8>,
    later: Set<int>,
)
    requires
        raw::addressable(img),
        done.len() == img.len(),
        changes::placed(img, layout, b),
        rooted::handler_lasts(done, b, later),
        handler_clear(b, later),
        modify::carries_magic(done),
        landing::record_landed(done, modify::identity_lever(b, site, va)),
    ensures
        landing::identity_landed(done, modify::identity_lever(b, site, va)),
{
    space::law_free_space_is_blank_and_covered(
        img,
        layout.covered@,
        (b.handler.len() + emit::SPARE) as int,
        b.handler_va,
    );
    lemma_identity_facts(b, site, va);
    lemma_handler(done, b, later);
}

/// A downgrade lever that was applied passes.
pub proof fn lemma_de(img: Seq<u8>, taken: Set<int>, done: Seq<u8>, l: Lever)
    requires
        done.len() == img.len(),
        l.id is DowngradeEnable,
        lasting::de_lasts(img, taken, done, l),
        gates::de_byte(img) matches Ok(at) ==> !taken.contains(at as int),
    ensures
        landing::landed(img, done, l),
{
}

/// A Speed or a Region lever that was applied passes.
proof fn lemma_wired(img: Seq<u8>, layout: Layout, done: Seq<u8>, speed: Lever, region: Lever)
    requires
        raw::addressable(img),
        speed.id is Speed,
        region.id is RegionFree,
        speed_clear(img, layout, speed),
        region_clear(img, layout, region),
    ensures
        lasting::speed_lasts(img, layout, done, speed) ==> landing::landed(img, done, speed),
        lasting::region_lasts(
            gates::region_emitter(img),
            sram::FLAG_TABLE_BASE,
            lasting::after_rawread(img, layout),
            lasting::after_region(img, layout),
            done,
            region,
        ) ==> landing::landed(img, done, region),
{
    lemma_outer(img, layout, done, speed, region);
}

/// The Identity lever of a modern image passes.
#[verifier::rlimit(40)]
proof fn lemma_first(img: Seq<u8>, layout: Layout, chip: ChipInfo, cap: Capability, m: Modified)
    requires
        raw::addressable(img),
        !modify::carries_magic(img),
        modify::modify_modern(img, layout, chip, cap) == Ok::<Modified, FwError>(m),
        modify::carries_magic(m.image),
        all_clear(img, layout, m.levers),
    ensures
        m.image.len() == img.len(),
        m.levers.len() == 5,
        landing::landed(img, m.image, m.levers[0]),
{
    let (b, pair) = base::modern_base(img, layout)->Ok_0;
    let (out, site, va) = emit::boot_emission(
        img,
        b.image,
        layout.covered@,
        b.flag_base,
        pair,
    )->Ok_0;
    changes::lemma_modern_base_confined(img, layout, b, pair, out, site, va);
    changes::law_modify_changes_only_its_places(img, layout, chip, cap, m);
    rooted::law_modified_boot_hook_and_handler_last(img, layout, chip, cap, m);
    landing::law_modified_record_points_at_the_handler(img, layout, chip, cap, m);
    lemma_identity(
        img,
        layout,
        b,
        site,
        va,
        m.image,
        changes::window(pair.0 as int).union(rooted::after_boot(img, b.record)),
    );
}

/// What the levers of a modified image are.
#[verifier::rlimit(40)]
proof fn lemma_kinds(img: Seq<u8>, layout: Layout, chip: ChipInfo, cap: Capability, m: Modified)
    requires
        raw::addressable(img),
        !modify::carries_magic(img),
        modify::modify_modern(img, layout, chip, cap) == Ok::<Modified, FwError>(m),
    ensures
        m.levers.len() == 5,
        m.levers[1].id is Speed,
        m.levers[2].id is RegionFree,
        m.levers[3].id is RawRead,
        m.levers[4].id is DowngradeEnable,
        m.levers[3].outcome is Applied ==> {
            &&& audit::fact_of(m.levers[3].facts, "deny"@) is None
            &&& audit::fact_of(m.levers[3].facts, "scratch"@) is None
            &&& audit::fact_of(m.levers[3].facts, "auth_cell_site"@) is None
        },
{
    let (b, pair) = base::modern_base(img, layout)->Ok_0;
    let (out, site, va) = emit::boot_emission(
        img,
        b.image,
        layout.covered@,
        b.flag_base,
        pair,
    )->Ok_0;
    changes::lemma_modern_base_confined(img, layout, b, pair, out, site, va);
    lemma_levers(img, out, layout, modify::identity_lever(b, site, va), chip, cap);
}

/// Levers that last and that nothing disturbs pass.
#[verifier::rlimit(40)]
proof fn lemma_pass(img: Seq<u8>, layout: Layout, m: Modified)
    requires
        raw::addressable(img),
        m.image.len() == img.len(),
        m.levers.len() == 5,
        m.levers[1].id is Speed,
        m.levers[2].id is RegionFree,
        m.levers[3].id is RawRead,
        m.levers[4].id is DowngradeEnable,
        m.levers[3].outcome is Applied ==> {
            &&& audit::fact_of(m.levers[3].facts, "deny"@) is None
            &&& audit::fact_of(m.levers[3].facts, "scratch"@) is None
            &&& audit::fact_of(m.levers[3].facts, "auth_cell_site"@) is None
        },
        landing::landed(img, m.image, m.levers[0]),
        lasting::all_last(img, layout, m.image, m.levers),
        all_clear(img, layout, m.levers),
    ensures
        landing::all_passed(audit::audit(img, m, true)),
{
    assert forall|i: int|
        0 <= i < m.levers.len() && (#[trigger] m.levers[i]).outcome is Applied implies landing::landed(
        img,
        m.image,
        m.levers[i],
    ) by {
        if i == 3 {
            lemma_rawread(img, layout, m.image, m.levers[3]);
        } else if i == 4 {
            lemma_de(img, changes::record_window(img, layout), m.image, m.levers[4]);
        } else if i > 0 {
            lemma_wired(img, layout, m.image, m.levers[1], m.levers[2]);
        }
    }
    landing::law_audit_passes_exactly_when_the_levers_landed(img, m, true);
}

/// A modern image that was modified passes its audit when its integrity table holds and
/// nothing disturbs what it was modified with.
#[verifier::rlimit(40)]
pub proof fn law_modified_image_passes_its_audit(
    img: Seq<u8>,
    layout: Layout,
    chip: ChipInfo,
    cap: Capability,
    m: Modified,
)
    requires
        raw::addressable(img),
        !modify::carries_magic(img),
        modify::modify_modern(img, layout, chip, cap) == Ok::<Modified, FwError>(m),
        modify::carries_magic(m.image),
        all_clear(img, layout, m.levers),
    ensures
        landing::all_passed(audit::audit(img, m, true)),
{
    lemma_kinds(img, layout, chip, cap, m);
    lemma_first(img, layout, chip, cap, m);
    lasting::law_applied_levers_last(img, layout, chip, cap, m);
    lemma_pass(img, layout, m);
}

} // verus!
