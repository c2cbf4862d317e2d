//! When a classic image that was modified passes its own audit.
use crate::engine::audit;
use crate::engine::audited;
use crate::engine::base;
use crate::engine::base::{Base, Layout};
use crate::engine::changes;
use crate::engine::classic_lasting;
use crate::engine::classic_modify;
use crate::engine::emit;
use crate::engine::facts;
use crate::engine::gates;
use crate::engine::landing;
use crate::engine::lasting;
use crate::engine::lever::{Lever, Modified};
use crate::engine::modify;
use crate::engine::mt1939_classic;
use crate::engine::mt1939_classic::ClassicRawRead;
use crate::engine::rooted;
use crate::engine::scanner;
use crate::engine::space;
use crate::engine::space::TableEntry;
use crate::engine::spots;
use crate::engine::stubs;
use crate::engine::vid;
use crate::error::FwError;
use crate::family::{Capability, ChipInfo};
use crate::raw;
use crate::thumb::BranchShape;
use vstd::prelude::*;

verus! {

/// Nothing disturbs the Region detour that a lever names.
#[verifier::opaque]
pub open spec fn region_clear(img: Seq<u8>, out: Seq<u8>, b: Base, l: Lever) -> bool {
    match (classic_lasting::emitter(out), audit::fact_of(l.facts, "region_stub_va"@)) {
        (Ok(at), Some(va)) => audited::clear(
            BranchShape::Bl,
            at + 6,
            va,
            emit::code_of(stubs::region_program(b.flag_base)),
            classic_lasting::after_rawread(img, b.record),
            classic_lasting::after_region(img, b.flag_base, b.record),
        ),
        _ => true,
    }
}

/// Nothing disturbs the detours that a Raw-read lever names.
#[verifier::opaque]
pub open spec fn rawread_clear(img: Seq<u8>, b: Base, l: Lever) -> bool {
    let taken = classic_lasting::after_rawread(img, b.record);
    match (
        mt1939_classic::classic_grounds(img, b.flag_base),
        audit::fact_of(l.facts, "gatea_stub_va"@),
        audit::fact_of(l.facts, "ake_stub_va"@),
    ) {
        (Ok(g), Some(gatea), Some(ake)) => {
            &&& audited::clear(
                BranchShape::Bl,
                g.gatea_site,
                gatea,
                emit::code_of(g.gatea),
                taken,
                classic_lasting::after_gatea(img, b.record, g),
            )
            &&& audited::clear(
                BranchShape::Bl,
                g.ake + 6,
                ake,
                emit::code_of(g.ake_ops),
                taken,
                classic_lasting::after_ake(img, b.record),
            )
            &&& audited::hrl_clear(
                mt1939_classic::classic_hrl_sites(img),
                b.flag_base,
                audit::fact_of(l.facts, "hrl_stub_va"@),
                taken,
                taken,
            )
        },
        _ => true,
    }
}

/// The deny block that a Raw-read lever leaves alone is in the image, has no byte that looks
/// like erased flash, and nothing that is written takes one of its bytes.
#[verifier::opaque]
pub open spec fn deny_clear(img: Seq<u8>, layout: Layout, b: Base, l: Lever) -> bool {
    audit::fact_of(l.facts, "deny"@) matches Some(at) ==> {
        &&& at + audit::DENY_SPAN <= img.len()
        &&& forall|i: int|
            at <= i < at + audit::DENY_SPAN ==> #[trigger] img[i] != 0xFF
                && !changes::classic_windows(img, layout, b).contains(i)
    }
}

/// Nothing disturbs what a classic image was modified with.
pub open spec fn all_clear(
    img: Seq<u8>,
    layout: Layout,
    b: Base,
    out: Seq<u8>,
    levers: Seq<Lever>,
) -> bool {
    &&& audited::handler_clear(
        b,
        changes::boot_window(img).union(rooted::classic_after_boot(img, layout, b)),
    )
    &&& region_clear(img, out, b, levers[2])
    &&& rawread_clear(img, b, levers[3])
    &&& deny_clear(img, layout, b, levers[3])
    &&& gates::de_byte(img) matches Ok(at) ==> !changes::window(
        b.record.off + scanner::HANDLER_OFF,
    ).contains(at as int)
}

/// What a Raw-read lever names beside its detours.
pub open spec fn names(img: Seq<u8>, flag_base: u32, l: Lever) -> bool {
    &&& audit::fact_of(l.facts, "deny"@) is Some
    &&& audit::fact_of(l.facts, "scratch"@) matches Some(v) && (v == 0 || vid::RUNTIME_LO <= v
        < vid::RUNTIME_HI)
    &&& audit::fact_of(l.facts, "deny_site"@) is None
    &&& audit::fact_of(l.facts, "uhd_site"@) is None
    &&& audit::fact_of(l.facts, "bd_site"@) is None
    &&& audit::fact_of(l.facts, "auth_cell_site"@) is None
}

/// The facts of a classic Raw-read lever are those of its detours and of the revocation
/// calls.
proof fn lemma_ridden_facts(
    img: Seq<u8>,
    w: Seq<u8>,
    table: Seq<TableEntry>,
    flag_base: u32,
    f: ClassicRawRead,
)
    requires
        f.scratch == 0 || vid::RUNTIME_LO <= f.scratch < vid::RUNTIME_HI,
    ensures
        ({
            let head = classic_modify::classic_rawread_facts(f);
            let facts = classic_modify::with_classic_hrl(img, w, table, flag_base, head).1;
            forall|l: Lever| l.facts == facts ==> #[trigger] names(img, flag_base, l)
        }),
{
    let head = classic_modify::classic_rawread_facts(f);
    match mt1939_classic::hrl_emission_classic(img, w, table, flag_base) {
        Ok((_, sites, va)) => {
            facts::lemma_calls(head, sites, va);
            facts::lemma_classic_absent_facts(f, sites, va);
        },
        Err(_) => {
            facts::lemma_calls(head, Seq::empty(), 0);
            facts::lemma_classic_absent_facts(f, Seq::empty(), 0);
        },
    }
}

/// Which lever each of the steps makes, and what a Raw-read lever names.
#[verifier::rlimit(40)]
proof fn lemma_steps(
    img: Seq<u8>,
    out: Seq<u8>,
    emission: Result<(Seq<u8>, u32, u32), FwError>,
    table: Seq<TableEntry>,
    flag_base: u32,
    chip: ChipInfo,
    cap: Capability,
)
    ensures
        modify::region_lever_of(out, emission, cap).1.id is RegionFree,
        modify::de_lever(img, out, chip).1.id is DowngradeEnable,
        ({
            let l = classic_modify::classic_rawread_lever(img, out, table, flag_base, cap).1;
            l.id is RawRead && (l.outcome is Applied ==> names(img, flag_base, l))
        }),
{
    reveal(modify::region_lever_of);
    reveal(modify::de_lever);
    reveal(classic_modify::classic_rawread_lever);
    vid::lemma_scratch_in_runtime(img);
    if let Ok((w, f)) = mt1939_classic::rawread_emission_classic(img, out, table, flag_base) {
        lemma_ridden_facts(img, w, table, flag_base, f);
    }
}

/// What the levers of a modified classic image are.
proof fn lemma_kinds(
    img: Seq<u8>,
    out: Seq<u8>,
    table: Seq<TableEntry>,
    flag_base: u32,
    identity: Lever,
    chip: ChipInfo,
    cap: Capability,
)
    ensures
        ({
            let levers = classic_modify::classic_levers(
                img,
                out,
                table,
                flag_base,
                identity,
                chip,
                cap,
            ).1;
            &&& levers.len() == 5
            &&& levers[0] == identity
            &&& levers[2].id is RegionFree
            &&& levers[3].id is RawRead
            &&& levers[4].id is DowngradeEnable
            &&& levers[3].outcome is Applied ==> names(img, flag_base, levers[3])
        }),
{
    reveal(classic_modify::classic_levers);
    let region = mt1939_classic::region_emission_classic(out, table, flag_base);
    let r = modify::region_lever_of(out, region, cap).0;
    let f = classic_modify::classic_rawread_lever(img, r, table, flag_base, cap).0;
    lemma_steps(img, out, region, table, flag_base, chip, cap);
    lemma_steps(img, r, region, table, flag_base, chip, cap);
    lemma_steps(img, f, region, table, flag_base, chip, cap);
}

/// A Region lever that was applied and that nothing disturbs passes.
proof fn lemma_region(img: Seq<u8>, out: Seq<u8>, b: Base, done: Seq<u8>, l: Lever)
    requires
        raw::addressable(out),
        l.id is RegionFree,
        region_clear(img, out, b, l),
        lasting::region_lasts(
            classic_lasting::emitter(out),
            b.flag_base,
            classic_lasting::after_rawread(img, b.record),
            classic_lasting::after_region(img, b.flag_base, b.record),
            done,
            l,
        ),
    ensures
        landing::landed(img, done, l),
{
    reveal(region_clear);
    reveal(lasting::region_lasts);
    classic_lasting::lemma_emitter_room(out);
    let at = classic_lasting::emitter(out)->Ok_0;
    audited::lemma_clear(
        done,
        BranchShape::Bl,
        at + 6,
        audit::fact_of(l.facts, "region_stub_va"@)->Some_0,
        emit::code_of(stubs::region_program(b.flag_base)),
        classic_lasting::after_rawread(img, b.record),
        classic_lasting::after_region(img, b.flag_base, b.record),
    );
}

/// The detours of a Raw-read lever that was applied and that nothing disturbs pass.
proof fn lemma_detours(img: Seq<u8>, b: Base, done: Seq<u8>, l: Lever)
    requires
        raw::addressable(img),
        rawread_clear(img, b, l),
        classic_lasting::rawread_lasts(img, b.flag_base, b.record, done, l),
    ensures
        audit::core_checks(done, l).len() > 0,
        audit::fact_of(l.facts, "ake_site"@) matches Some(site) && audit::fact_of(
            l.facts,
            "ake_stub_va"@,
        ) matches Some(stub) && landing::branches(done, site, stub),
        landing::wired(done, l, "gatea_gate"@, 0, "gatea_stub_va"@),
        landing::wired(done, l, "hrl_site"@, 0, "hrl_stub_va"@),
        landing::wired(done, l, "hrl_site2"@, 0, "hrl_stub_va"@),
        landing::wired(done, l, "hrl_site3"@, 0, "hrl_stub_va"@),
{
    reveal(rawread_clear);
    reveal(classic_lasting::rawread_lasts);
    let taken = classic_lasting::after_rawread(img, b.record);
    let g = mt1939_classic::classic_grounds(img, b.flag_base)->Ok_0;
    spots::lemma_classic_core_spots(img, b.flag_base);
    spots::lemma_classic_hrl_spots(img);
    audited::lemma_clear(
        done,
        BranchShape::Bl,
        g.gatea_site,
        audit::fact_of(l.facts, "gatea_stub_va"@)->Some_0,
        emit::code_of(g.gatea),
        taken,
        classic_lasting::after_gatea(img, b.record, g),
    );
    audited::lemma_clear(
        done,
        BranchShape::Bl,
        g.ake + 6,
        audit::fact_of(l.facts, "ake_stub_va"@)->Some_0,
        emit::code_of(g.ake_ops),
        taken,
        classic_lasting::after_ake(img, b.record),
    );
    audited::lemma_hrl(
        mt1939_classic::classic_hrl_sites(img),
        img.len(),
        b.flag_base,
        done,
        l,
        taken,
        taken,
    );
    assert(audit::core_checks(done, l).len() > 0) by {
        reveal(audit::core_checks);
    }
}

/// A Raw-read lever that was applied and that nothing disturbs passes.
proof fn lemma_rawread(
    img: Seq<u8>,
    layout: Layout,
    b: Base,
    done: Seq<u8>,
    l: Lever,
)
    requires
        raw::addressable(img),
        l.id is RawRead,
        rawread_clear(img, b, l),
        deny_clear(img, layout, b, l),
        names(img, b.flag_base, l),
        classic_lasting::rawread_lasts(img, b.flag_base, b.record, done, l),
        changes::confined(img, done, changes::classic_windows(img, layout, b)),
    ensures
        landing::landed(img, done, l),
{
    lemma_detours(img, b, done, l);
    let at = audit::fact_of(l.facts, "deny"@)->Some_0;
    assert(audit::same_block(img, done, at)) by {
        reveal(deny_clear);
        assert forall|i: int| at <= i < at + audit::DENY_SPAN implies #[trigger] img[i]
            == done[i] by {
            assert(img[i] != 0xFF);
        }
    }
}

/// The facts of a classic Identity lever.
proof fn lemma_identity_facts(b: Base)
    ensures
        ({
            let facts = classic_modify::classic_identity_lever(b).facts;
            &&& audit::fact_of(facts, "handler_va"@) == Some(b.handler_va)
            &&& audit::fact_of(facts, "boot_function_entry"@) == Some(b.boot_entry)
        }),
{
    let facts = classic_modify::classic_identity_lever(b).facts;
    reveal_strlit("handler_va");
    reveal_strlit("record_off");
    reveal_strlit("flag_base");
    reveal_strlit("boot_function_entry");
    assert(facts[0].0.len() == 10 && facts[1].0.len() == 10 && facts[2].0.len() == 9);
    landing::lemma_first_fact(facts, "handler_va"@, 0, facts.len());
    landing::lemma_first_fact(facts, "boot_function_entry"@, 3, facts.len());
}

/// The Identity lever passes.
proof fn lemma_identity(img: Seq<u8>, layout: Layout, b: Base, done: Seq<u8>, later: Set<int>)
    requires
        raw::addressable(img),
        done.len() == img.len(),
        changes::placed(img, layout, b),
        rooted::handler_lasts(done, b, later),
        audited::handler_clear(b, later),
        modify::carries_magic(done),
        landing::record_landed(done, classic_modify::classic_identity_lever(b)),
    ensures
        landing::landed(img, done, classic_modify::classic_identity_lever(b)),
{
    space::law_free_space_is_blank_and_covered(
        img,
        layout.covered@,
        (b.handler.len() + emit::SPARE) as int,
        b.handler_va,
    );
    lemma_identity_facts(b);
    audited::lemma_handler(done, b, later);
}

/// Levers that last and that nothing disturbs pass.
#[verifier::rlimit(40)]
proof fn lemma_pass(img: Seq<u8>, layout: Layout, b: Base, out: Seq<u8>, m: Modified)
    requires
        raw::addressable(img),
        out.len() == img.len(),
        m.levers.len() == 5,
        m.levers[2].id is RegionFree,
        m.levers[3].id is RawRead,
        m.levers[4].id is DowngradeEnable,
        m.levers[3].outcome is Applied ==> names(img, b.flag_base, m.levers[3]),
        landing::landed(img, m.image, m.levers[0]),
        classic_lasting::all_last(img, out, b, m.image, m.levers),
        changes::confined(img, m.image, changes::classic_windows(img, layout, b)),
        all_clear(img, layout, b, out, m.levers),
    ensures
        landing::all_passed(audit::audit(img, m, true)),
{
    assert forall|i: int|
        0 <= i < m.levers.len() && (#[trigger] m.levers[i]).outcome is Applied implies landing::landed(
        img,
        m.image,
        m.levers[i],
    ) by {
        if i == 2 {
            lemma_region(img, out, b, m.image, m.levers[2]);
        } else if i == 3 {
            lemma_rawread(img, layout, b, m.image, m.levers[3]);
        } else if i == 4 {
            audited::lemma_de(
                img,
                changes::window(b.record.off + scanner::HANDLER_OFF),
                m.image,
                m.levers[4],
            );
        }
    }
    landing::law_audit_passes_exactly_when_the_levers_landed(img, m, true);
}

/// The parts of a modified classic image.
#[verifier::rlimit(40)]
proof fn lemma_parts(
    img: Seq<u8>,
    layout: Layout,
    chip: ChipInfo,
    cap: Capability,
    m: Modified,
    b: Base,
    out: Seq<u8>,
)
    requires
        raw::addressable(img),
        !modify::carries_magic(img),
        classic_modify::modify_classic(img, layout, chip, cap) == Ok::<Modified, FwError>(m),
        base::classic_base(img, layout) == Ok::<Base, FwError>(b),
        changes::classic_hooked(img, layout) == Ok::<Seq<u8>, FwError>(out),
    ensures
        out.len() == img.len(),
        changes::placed(img, layout, b),
        m.levers.len() == 5,
        m.levers[0] == classic_modify::classic_identity_lever(b),
        m.levers[2].id is RegionFree,
        m.levers[3].id is RawRead,
        m.levers[4].id is DowngradeEnable,
        m.levers[3].outcome is Applied ==> names(img, b.flag_base, m.levers[3]),
{
    changes::lemma_classic_base_confined(img, layout, b);
    let identity = classic_modify::classic_identity_lever(b);
    lemma_kinds(img, out, layout.covered@, b.flag_base, identity, chip, cap);
}

/// A classic image that was modified passes its audit when its integrity table holds and
/// nothing disturbs what it was modified with.
#[verifier::rlimit(40)]
pub proof fn law_classic_modified_image_passes_its_audit(
    img: Seq<u8>,
    layout: Layout,
    chip: ChipInfo,
    cap: Capability,
    m: Modified,
    b: Base,
    out: Seq<u8>,
)
    requires
        raw::addressable(img),
        !modify::carries_magic(img),
        classic_modify::modify_classic(img, layout, chip, cap) == Ok::<Modified, FwError>(m),
        base::classic_base(img, layout) == Ok::<Base, FwError>(b),
        changes::classic_hooked(img, layout) == Ok::<Seq<u8>, FwError>(out),
        modify::carries_magic(m.image),
        all_clear(img, layout, b, out, m.levers),
    ensures
        landing::all_passed(audit::audit(img, m, true)),
{
    lemma_parts(img, layout, chip, cap, m, b, out);
    lemma_rest(img, layout, chip, cap, m, b, out);
    lemma_identity(
        img,
        layout,
        b,
        m.image,
        changes::boot_window(img).union(rooted::classic_after_boot(img, layout, b)),
    );
    lemma_pass(img, layout, b, out, m);
}

/// What lasts in a modified classic image.
#[verifier::rlimit(40)]
proof fn lemma_rest(
    img: Seq<u8>,
    layout: Layout,
    chip: ChipInfo,
    cap: Capability,
    m: Modified,
    b: Base,
    out: Seq<u8>,
)
    requires
        raw::addressable(img),
        !modify::carries_magic(img),
        classic_modify::modify_classic(img, layout, chip, cap) == Ok::<Modified, FwError>(m),
        base::classic_base(img, layout) == Ok::<Base, FwError>(b),
        changes::classic_hooked(img, layout) == Ok::<Seq<u8>, FwError>(out),
        modify::carries_magic(m.image),
    ensures
        m.image.len() == img.len(),
        m.levers.len() == 5,
        landing::record_landed(m.image, m.levers[0]),
        classic_lasting::all_last(img, out, b, m.image, m.levers),
        changes::confined(img, m.image, changes::classic_windows(img, layout, b)),
        rooted::handler_lasts(
            m.image,
            b,
            changes::boot_window(img).union(rooted::classic_after_boot(img, layout, b)),
        ),
{
    changes::law_classic_modify_changes_only_its_places(img, layout, chip, cap, m);
    classic_lasting::law_classic_applied_levers_last(img, layout, chip, cap, m);
    rooted::law_classic_modified_boot_hook_and_handler_last(img, layout, chip, cap, m);
    landing::law_modified_record_points_at_the_handler(img, layout, chip, cap, m);
}

} // verus!
