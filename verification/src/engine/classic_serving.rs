//! The detours of a finished classic image serve: what the report names is in place, and does
//! as the code of the image that it took over, or as its flag says.
use crate::engine::audit;
use crate::engine::base;
use crate::engine::base::{Base, Layout};
use crate::engine::changes;
use crate::engine::classic_lasting;
use crate::engine::classic_modify;
use crate::engine::create;
use crate::engine::create::Created;
use crate::engine::detours;
use crate::engine::emit;
use crate::engine::emit::Checks;
use crate::engine::lasting;
use crate::engine::lever::{Lever, Modified};
use crate::engine::modify;
use crate::engine::mt1939_classic;
use crate::engine::mt1939_classic::{ClassicFeatures, ClassicRawRead};
use crate::engine::oem;
use crate::engine::scanner;
use crate::engine::serving;
use crate::engine::space::TableEntry;
use crate::engine::spots;
use crate::engine::stubs;
use crate::engine::vid;
use crate::error::{FwError, Reason};
use crate::family::{Capability, ChipInfo};
use crate::program::AsmOp;
use crate::raw;
use crate::thumb::{BranchShape, CommandRecord};
use vstd::prelude::*;

verus! {

/// A classic Raw-read lever that was applied serves: its Volume ID and handshake detours, and
/// the revocation detours when it names them.
pub open spec fn rawread_serves(
    img: Seq<u8>,
    flag_base: u32,
    record: CommandRecord,
    done: Seq<u8>,
    l: Lever,
) -> bool {
    let taken = classic_lasting::after_rawread(img, record);
    &&& match (
        audit::fact_of(l.facts, "ake_site"@),
        audit::fact_of(l.facts, "ake_stub_va"@),
        audit::fact_of(l.facts, "gatea_gate"@),
        audit::fact_of(l.facts, "gatea_stub_va"@),
    ) {
        (Some(ake), Some(ake_va), Some(gate), Some(gate_va)) =>
            mt1939_classic::classic_grounds(img, flag_base) matches Ok(g) && scanner::cdb_base(
            img,
        ) matches Ok(agid) && vid::session_reset(img) matches Ok(reset) && {
            &&& serving::ake_grounded(
                img,
                done,
                ake as int,
                ake_va,
                flag_base,
                taken,
                classic_lasting::after_ake(img, record),
            )
            &&& serving::gate_grounded(
                img,
                done,
                gate as int,
                gate_va,
                flag_base,
                agid,
                reset,
                taken,
                classic_lasting::after_gatea(img, record, g),
            )
        },
        _ => false,
    }
    &&& match audit::fact_of(l.facts, "hrl_stub_va"@) {
        Some(va) => serving::checks_serve(img, done, l, va, flag_base, taken, taken),
        None => audit::fact_of(l.facts, "hrl_site"@) is None,
    }
}

/// A classic Raw-read lever that lasts serves.
#[verifier::rlimit(40)]
proof fn lemma_rawread_serves(
    img: Seq<u8>,
    flag_base: u32,
    record: CommandRecord,
    done: Seq<u8>,
    l: Lever,
)
    requires
        raw::addressable(img),
        classic_lasting::rawread_lasts(img, flag_base, record, done, l),
    ensures
        rawread_serves(img, flag_base, record, done, l),
{
    reveal(classic_lasting::rawread_lasts);
    let g = mt1939_classic::classic_grounds(img, flag_base)->Ok_0;
    let taken = classic_lasting::after_rawread(img, record);
    oem::law_classic_gate_detour_decides_as_the_image(img, flag_base);
    oem::law_classic_ake_detour_does_as_the_image(img, flag_base);
    assert(oem::ake_obeys(img, g.ake + 6, BranchShape::Bl, 2, flag_base, g.ake_ops));
    if let Some(va) = audit::fact_of(l.facts, "hrl_stub_va"@) {
        let (sites, revoke) = mt1939_classic::classic_hrl_sites(img)->Ok_0;
        serving::lemma_checks_grounded(
            img,
            done,
            sites,
            revoke,
            va,
            flag_base,
            taken,
            taken,
        );
    }
}

/// What a lever of a classic image is reported to have applied serves, in the image that is
/// handed out. The emitter is the one of the image with its boot hook.
#[verifier::rlimit(40)]
pub proof fn law_classic_applied_levers_serve(
    img: Seq<u8>,
    layout: Layout,
    chip: ChipInfo,
    cap: Capability,
    m: Modified,
)
    requires
        raw::addressable(img),
        !modify::carries_magic(img),
        classic_modify::modify_classic(img, layout, chip, cap) == Ok::<Modified, FwError>(m),
    ensures
        base::classic_base(img, layout) matches Ok(b) && changes::classic_hooked(
            img,
            layout,
        ) matches Ok(out) && {
            &&& m.levers.len() == 5
            &&& m.levers[2].outcome is Applied ==> (audit::fact_of(
                m.levers[2].facts,
                "region_emitter"@,
            ) matches Some(at) && audit::fact_of(
                m.levers[2].facts,
                "region_stub_va"@,
            ) matches Some(va) && serving::region_grounded(
                out,
                m.image,
                at + 6,
                va,
                b.flag_base,
                classic_lasting::after_rawread(img, b.record),
                classic_lasting::after_region(img, b.flag_base, b.record),
            ))
            &&& m.levers[3].outcome is Applied ==> rawread_serves(
                img,
                b.flag_base,
                b.record,
                m.image,
                m.levers[3],
            )
        },
{
    classic_lasting::law_classic_applied_levers_last(img, layout, chip, cap, m);
    let b = base::classic_base(img, layout)->Ok_0;
    let out = changes::classic_hooked(img, layout)->Ok_0;
    changes::lemma_classic_base_confined(img, layout, b);
    if m.levers[2].outcome is Applied {
        reveal(lasting::region_lasts);
        oem::lemma_region_obeys(
            out,
            mt1939_classic::CLASSIC_EMITTER_LO as int,
            mt1939_classic::CLASSIC_EMITTER_HI as int,
            b.flag_base,
        );
    }
    if m.levers[3].outcome is Applied {
        lemma_rawread_serves(img, b.flag_base, b.record, m.image, m.levers[3]);
    }
}

/// What is written over a classic image that is built once its BD detour is done.
pub open spec fn after_bd(img: Seq<u8>, record: CommandRecord) -> Set<int> {
    changes::classic_hrl_windows(img).union(classic_lasting::after_rawread(img, record))
}

/// What is written over a classic image that is built once its UHD detour is done.
pub open spec fn after_uhd(img: Seq<u8>, flag_base: u32, record: CommandRecord) -> Set<int> {
    changes::plan_window(detours::bd_plan(img, flag_base)).union(after_bd(img, record))
}

/// What is written over a classic image that is built once its handshake detour is done.
pub open spec fn after_core(img: Seq<u8>, flag_base: u32, record: CommandRecord) -> Set<int> {
    changes::plan_window(detours::uhd_plan(img, flag_base)).union(
        after_uhd(img, flag_base, record),
    )
}

/// What is written over a classic image that is built once its Region detour is done.
pub open spec fn after_region(img: Seq<u8>, flag_base: u32, record: CommandRecord) -> Set<int> {
    changes::classic_rawread_windows(img, flag_base).union(after_core(img, flag_base, record))
}

/// A detour that was just written lasts but for what is written later.
proof fn lemma_written_lasts(
    out: Seq<u8>,
    table: Seq<TableEntry>,
    site: int,
    ops: Seq<AsmOp>,
    out_of_range: Reason,
    w: Seq<u8>,
    va: u32,
    done: Seq<u8>,
    later: Set<int>,
)
    requires
        raw::addressable(out),
        0 <= site,
        site + 4 <= out.len(),
        emit::with_detour(
            out,
            table,
            BranchShape::Bl,
            site,
            emit::code_of(ops),
            out_of_range,
        ) == Ok::<(Seq<u8>, u32), FwError>((w, va)),
        changes::confined(w, done, later),
    ensures
        lasting::lasts(done, BranchShape::Bl, site, va, emit::code_of(ops), later, later),
{
    lasting::lemma_lasts(
        out,
        table,
        BranchShape::Bl,
        site,
        emit::code_of(ops),
        out_of_range,
        w,
        va,
        done,
        later,
        later,
    );
}

/// The classic Raw-read detours that were written serve.
#[verifier::rlimit(40)]
proof fn lemma_written_core(
    img: Seq<u8>,
    out: Seq<u8>,
    table: Seq<TableEntry>,
    flag_base: u32,
    w: Seq<u8>,
    f: ClassicRawRead,
    done: Seq<u8>,
    later: Set<int>,
)
    requires
        raw::addressable(img),
        out.len() == img.len(),
        mt1939_classic::rawread_emission_classic(img, out, table, flag_base) == Ok::<
            (Seq<u8>, ClassicRawRead),
            FwError,
        >((w, f)),
        changes::confined(w, done, later),
    ensures
        core_serves(img, flag_base, done, f, later),
{
    let g = mt1939_classic::classic_grounds(img, flag_base)->Ok_0;
    let (w1, gate_va) = emit::with_detour(
        out,
        table,
        BranchShape::Bl,
        g.gatea_site,
        emit::code_of(g.gatea),
        Reason::ClassicGateRange,
    )->Ok_0;
    oem::law_classic_gate_detour_decides_as_the_image(img, flag_base);
    oem::law_classic_ake_detour_does_as_the_image(img, flag_base);
    oem::lemma_short_hop(g.gatea_site + 2, raw::hw_at(img, g.gatea_site + 2));
    changes::lemma_detour_confined(
        out,
        table,
        BranchShape::Bl,
        g.gatea_site,
        emit::code_of(g.gatea),
        Reason::ClassicGateRange,
        w1,
        gate_va,
    );
    changes::lemma_detour_confined(
        w1,
        table,
        BranchShape::Bl,
        g.ake + 6,
        emit::code_of(g.ake_ops),
        Reason::ClassicAkeRange,
        w,
        f.ake_stub_va,
    );
    let more = changes::window(g.ake + 6).union(later);
    changes::lemma_confined_chain(w1, w, done, changes::window(g.ake + 6), later);
    lemma_written_lasts(
        out,
        table,
        g.gatea_site,
        g.gatea,
        Reason::ClassicGateRange,
        w1,
        gate_va,
        done,
        more,
    );
    lemma_written_lasts(
        w1,
        table,
        g.ake + 6,
        g.ake_ops,
        Reason::ClassicAkeRange,
        w,
        f.ake_stub_va,
        done,
        later,
    );
    assert(oem::ake_obeys(img, g.ake + 6, BranchShape::Bl, 2, flag_base, g.ake_ops));
}

/// The classic Volume ID and handshake detours serve where they are named.
pub open spec fn core_serves(
    img: Seq<u8>,
    flag_base: u32,
    done: Seq<u8>,
    f: ClassicRawRead,
    later: Set<int>,
) -> bool {
    scanner::cdb_base(img) matches Ok(agid) && vid::session_reset(img) matches Ok(reset) && {
        let more = changes::window(f.ake_gate + 6).union(later);
        &&& serving::gate_grounded(
            img,
            done,
            f.gatea_gate as int,
            f.gatea_stub_va,
            flag_base,
            agid,
            reset,
            more,
            more,
        )
        &&& serving::ake_grounded(
            img,
            done,
            f.ake_gate + 6,
            f.ake_stub_va,
            flag_base,
            later,
            later,
        )
        &&& f.ake_site == f.ake_gate + 6
        &&& f.deny == oem::branch_to(img, f.gatea_gate + 2)
    }
}

/// A media detour that was tried serves, when it was written.
proof fn lemma_tried(
    img: Seq<u8>,
    out: Seq<u8>,
    table: Seq<TableEntry>,
    flag_base: u32,
    done: Seq<u8>,
    later: Set<int>,
)
    requires
        raw::addressable(img),
        out.len() == img.len(),
    ensures
        ({
            let u = mt1939_classic::tried(
                detours::uhd_plan(img, flag_base),
                out,
                table,
                Reason::UhdRange,
            );
            u.2 != 0 && changes::confined(u.0, done, later) ==> serving::uhd_grounded(
                img,
                done,
                u.1 as int,
                u.2,
                flag_base,
                later,
                later,
            )
        }),
        ({
            let b = mt1939_classic::tried(
                detours::bd_plan(img, flag_base),
                out,
                table,
                Reason::BdRange,
            );
            b.2 != 0 && changes::confined(b.0, done, later) ==> serving::bd_grounded(
                img,
                done,
                b.1 as int,
                b.2,
                flag_base,
                later,
                later,
            )
        }),
{
    let uhd = detours::uhd_plan(img, flag_base);
    let bd = detours::bd_plan(img, flag_base);
    let u = mt1939_classic::tried(uhd, out, table, Reason::UhdRange);
    let b = mt1939_classic::tried(bd, out, table, Reason::BdRange);
    if u.2 != 0 && changes::confined(u.0, done, later) {
        let (site, ops) = uhd->Ok_0;
        oem::law_uhd_detour_obeys_its_flag(img, flag_base, site, ops);
        lemma_written_lasts(
            out,
            table,
            site as int,
            ops,
            Reason::UhdRange,
            u.0,
            u.2,
            done,
            later,
        );
        serving::lemma_media_serve(img, done, site, u.2, ops, flag_base, later, later);
    }
    if b.2 != 0 && changes::confined(b.0, done, later) {
        let (site, ops) = bd->Ok_0;
        oem::law_bd_detour_obeys_its_flag(img, flag_base, site, ops);
        lemma_written_lasts(
            out,
            table,
            site as int,
            ops,
            Reason::BdRange,
            b.0,
            b.2,
            done,
            later,
        );
        serving::lemma_media_serve(img, done, site, b.2, ops, flag_base, later, later);
    }
}

/// The classic revocation detours that were written serve.
proof fn lemma_written_checks(
    img: Seq<u8>,
    out: Seq<u8>,
    table: Seq<TableEntry>,
    flag_base: u32,
    w: Seq<u8>,
    named: Seq<u32>,
    va: u32,
    done: Seq<u8>,
    later: Set<int>,
)
    requires
        raw::addressable(img),
        out.len() == img.len(),
        mt1939_classic::hrl_emission_classic(img, out, table, flag_base) == Ok::<
            (Seq<u8>, Seq<u32>, u32),
            FwError,
        >((w, named, va)),
        changes::confined(w, done, later),
    ensures
        exists|sites: Seq<usize>|
            {
                &&& sites.len() == named.len()
                &&& forall|i: int| 0 <= i < sites.len() ==> named[i] == #[trigger] sites[i]
                &&& #[trigger] serving::checks_grounded(
                    img,
                    done,
                    sites,
                    va,
                    flag_base,
                    later,
                    later,
                )
            },
{
    let (sites, revoke) = mt1939_classic::classic_hrl_sites(img)->Ok_0;
    spots::lemma_classic_hrl_spots(img);
    lasting::lemma_checks_each(img, sites);
    serving::lemma_check_addresses(img, sites, revoke);
    lasting::lemma_shared_lasts(
        out,
        table,
        sites,
        emit::code_of(stubs::hrl_skip_program(flag_base, revoke)),
        Checks::Classic,
        w,
        va,
        done,
        later,
        later,
    );
    serving::lemma_checks_grounded(img, done, sites, revoke, va, flag_base, later, later);
}

/// What the features of a classic image are, and what is written behind each.
#[verifier::rlimit(60)]
proof fn lemma_created_stages(
    img: Seq<u8>,
    out: Seq<u8>,
    table: Seq<TableEntry>,
    b: Base,
    pointer: u32,
)
    requires
        raw::addressable(img),
        out.len() == img.len(),
    ensures
        ({
            let base = b.flag_base;
            let f = mt1939_classic::classic_features(img, out, table, base);
            let done = scanner::repointed(create::with_de(img, f.image), b.record, pointer);
            staged(img, out, table, b, f, done)
        }),
{
    reveal(mt1939_classic::classic_features);
    reveal(staged);
    let base = b.flag_base;
    let uhd = detours::uhd_plan(img, base);
    let bd = detours::bd_plan(img, base);
    let f = mt1939_classic::classic_features(img, out, table, base);
    let d = create::with_de(img, f.image);
    let done = scanner::repointed(d, b.record, pointer);
    let at = changes::window(b.record.off + scanner::HANDLER_OFF);
    let r = create::or_unwired(
        out,
        mt1939_classic::region_emission_classic(out, table, base),
    ).0;
    let w2 = after_rawread_step(img, r, table, base);
    let u = mt1939_classic::tried(uhd, w2, table, Reason::UhdRange).0;
    let v = mt1939_classic::tried(bd, u, table, Reason::BdRange).0;
    changes::lemma_region_confined(
        classic_lasting::emitter(out),
        out,
        table,
        base,
        Reason::ClassicRegionRange,
    );
    changes::lemma_classic_rawread_confined(img, r, table, base);
    changes::lemma_optional_confined(uhd, w2, table, Reason::UhdRange);
    changes::lemma_optional_confined(bd, u, table, Reason::BdRange);
    changes::lemma_classic_hrl_confined(img, v, table, base);
    changes::lemma_de_confined(img, f.image, arbitrary());
    assert(changes::confined(d, done, at));
    changes::lemma_confined_chain(f.image, d, done, changes::de_window(img), at);
    let t5 = classic_lasting::after_rawread(img, b.record);
    changes::lemma_confined_chain(v, f.image, done, changes::classic_hrl_windows(img), t5);
    changes::lemma_confined_chain(u, v, done, changes::plan_window(bd), after_bd(img, b.record));
    changes::lemma_confined_chain(
        w2,
        u,
        done,
        changes::plan_window(uhd),
        after_uhd(img, base, b.record),
    );
    changes::lemma_confined_chain(
        r,
        w2,
        done,
        changes::classic_rawread_windows(img, base),
        after_core(img, base, b.record),
    );
}

/// The image once the classic Raw-read detours are tried.
pub open spec fn after_rawread_step(
    img: Seq<u8>,
    r: Seq<u8>,
    table: Seq<TableEntry>,
    flag_base: u32,
) -> Seq<u8> {
    match mt1939_classic::rawread_emission_classic(img, r, table, flag_base) {
        Ok((w, _)) => w,
        Err(_) => r,
    }
}

/// The features of a classic image are tried one after the other, and each keeps to erased
/// flash and to its own bytes.
#[verifier::opaque]
pub open spec fn staged(
    img: Seq<u8>,
    out: Seq<u8>,
    table: Seq<TableEntry>,
    b: Base,
    f: ClassicFeatures,
    done: Seq<u8>,
) -> bool {
    let base = b.flag_base;
    let region = create::or_unwired(
        out,
        mt1939_classic::region_emission_classic(out, table, base),
    );
    let r = region.0;
    let w2 = after_rawread_step(img, r, table, base);
    let u = mt1939_classic::tried(
        detours::uhd_plan(img, base),
        w2,
        table,
        Reason::UhdRange,
    );
    let v = mt1939_classic::tried(detours::bd_plan(img, base), u.0, table, Reason::BdRange);
    &&& f.region == (region.1, region.2)
    &&& f.rawread == match mt1939_classic::rawread_emission_classic(img, r, table, base) {
        Ok((_, raw)) => Some(raw),
        Err(_) => None,
    }
    &&& f.uhd == (u.1, u.2)
    &&& f.bd == (v.1, v.2)
    &&& match mt1939_classic::hrl_emission_classic(img, v.0, table, base) {
        Ok((w, sites, va)) => f.image == w && f.hrl == (sites, va),
        Err(_) => f.hrl.1 == 0,
    }
    &&& r.len() == img.len()
    &&& w2.len() == img.len()
    &&& u.0.len() == img.len()
    &&& v.0.len() == img.len()
    &&& changes::confined(f.image, done, classic_lasting::after_rawread(img, b.record))
    &&& changes::confined(v.0, done, after_bd(img, b.record))
    &&& changes::confined(u.0, done, after_uhd(img, base, b.record))
    &&& changes::confined(w2, done, after_core(img, base, b.record))
    &&& changes::confined(r, done, after_region(img, base, b.record))
}

/// What is reported of a classic image that was built serves: every detour whose stub the
/// report names, at the place that it names.
#[verifier::opaque]
pub open spec fn features_serve(
    img: Seq<u8>,
    out: Seq<u8>,
    b: Base,
    f: ClassicFeatures,
    done: Seq<u8>,
) -> bool {
    let base = b.flag_base;
    let region_later = after_region(img, base, b.record);
    let uhd_later = after_uhd(img, base, b.record);
    let bd_later = after_bd(img, b.record);
    let last = classic_lasting::after_rawread(img, b.record);
    &&& f.region.1 != 0 ==> serving::region_grounded(
        out,
        done,
        f.region.0 + 6,
        f.region.1,
        base,
        region_later,
        region_later,
    )
    &&& f.rawread matches Some(raw) ==> core_serves(
        img,
        base,
        done,
        raw,
        after_core(img, base, b.record),
    )
    &&& f.uhd.1 != 0 ==> serving::uhd_grounded(
        img,
        done,
        f.uhd.0 as int,
        f.uhd.1,
        base,
        uhd_later,
        uhd_later,
    )
    &&& f.bd.1 != 0 ==> serving::bd_grounded(
        img,
        done,
        f.bd.0 as int,
        f.bd.1,
        base,
        bd_later,
        bd_later,
    )
    &&& f.hrl.1 != 0 ==> exists|sites: Seq<usize>|
        {
            &&& sites.len() == f.hrl.0.len()
            &&& forall|i: int| 0 <= i < sites.len() ==> f.hrl.0[i] == #[trigger] sites[i]
            &&& #[trigger] serving::checks_grounded(
                img,
                done,
                sites,
                f.hrl.1,
                base,
                last,
                last,
            )
        }
}

/// Features that were tried serve, where they were written.
#[verifier::rlimit(60)]
proof fn lemma_features_serve(
    img: Seq<u8>,
    out: Seq<u8>,
    table: Seq<TableEntry>,
    b: Base,
    f: ClassicFeatures,
    done: Seq<u8>,
)
    requires
        raw::addressable(img),
        out.len() == img.len(),
        staged(img, out, table, b, f, done),
    ensures
        features_serve(img, out, b, f, done),
{
    reveal(staged);
    reveal(features_serve);
    let base = b.flag_base;
    let r = create::or_unwired(
        out,
        mt1939_classic::region_emission_classic(out, table, base),
    ).0;
    let w2 = after_rawread_step(img, r, table, base);
    let u = mt1939_classic::tried(
        detours::uhd_plan(img, base),
        w2,
        table,
        Reason::UhdRange,
    ).0;
    let v = mt1939_classic::tried(detours::bd_plan(img, base), u, table, Reason::BdRange).0;
    if f.region.1 != 0 {
        let at = classic_lasting::emitter(out)->Ok_0;
        let ops = stubs::region_program(base);
        classic_lasting::lemma_emitter_room(out);
        oem::lemma_region_obeys(
            out,
            mt1939_classic::CLASSIC_EMITTER_LO as int,
            mt1939_classic::CLASSIC_EMITTER_HI as int,
            base,
        );
        lemma_written_lasts(
            out,
            table,
            at + 6,
            ops,
            Reason::ClassicRegionRange,
            r,
            f.region.1,
            done,
            after_region(img, base, b.record),
        );
        assert(oem::region_obeys(out, at + 6, base, ops));
    }
    if let Some(raw) = f.rawread {
        lemma_written_core(
            img,
            r,
            table,
            base,
            w2,
            raw,
            done,
            after_core(img, base, b.record),
        );
    }
    lemma_tried(img, w2, table, base, done, after_uhd(img, base, b.record));
    lemma_tried(img, u, table, base, done, after_bd(img, b.record));
    if f.hrl.1 != 0 {
        lemma_written_checks(
            img,
            v,
            table,
            base,
            f.image,
            f.hrl.0,
            f.hrl.1,
            done,
            classic_lasting::after_rawread(img, b.record),
        );
    }
}

/// The report names the features.
pub open spec fn reported(c: Created, f: ClassicFeatures) -> bool {
    &&& (c.region_emitter, c.region_stub_va) == f.region
    &&& (c.uhd_classifier_site, c.uhd_stub_va) == f.uhd
    &&& (c.bd_gate_site, c.bd_stub_va) == f.bd
    &&& (c.hrl_sites, c.hrl_stub_va) == f.hrl
    &&& match f.rawread {
        Some(raw) => {
            &&& (c.gatea_gate, c.gatea_stub_va) == (raw.gatea_gate, raw.gatea_stub_va)
            &&& (c.ake_gate, c.ake_stub_va) == (raw.ake_gate, raw.ake_stub_va)
            &&& c.deny_reset_gate == raw.deny
        },
        None => c.gatea_stub_va == 0 && c.ake_stub_va == 0,
    }
}

/// A classic report names its features.
proof fn lemma_reported(img: Seq<u8>, layout: Layout, c: Created, b: Base, out: Seq<u8>)
    requires
        mt1939_classic::create_classic(img, layout) == Ok::<Created, FwError>(c),
        base::classic_base(img, layout) == Ok::<Base, FwError>(b),
        mt1939_classic::classic_boot(img, b, layout.covered@) matches Ok((w, _, _)) && w == out,
    ensures
        reported(c, mt1939_classic::classic_features(img, out, layout.covered@, b.flag_base)),
{
    let f = mt1939_classic::classic_features(img, out, layout.covered@, b.flag_base);
    assert(mt1939_classic::classic_body(img, b, layout.covered@).1 == f);
    let raw = mt1939_classic::rawread_or_zeros(f.rawread);
    assert(c.gatea_gate == raw.gatea_gate && c.gatea_stub_va == raw.gatea_stub_va);
    assert(c.ake_gate == raw.ake_gate && c.ake_stub_va == raw.ake_stub_va);
    assert(c.deny_reset_gate == raw.deny);
}

/// The report names features that serve.
pub open spec fn report_serves(img: Seq<u8>, out: Seq<u8>, b: Base, c: Created) -> bool {
    exists|f: ClassicFeatures| #[trigger]
        features_serve(img, out, b, f, c.image) && reported(c, f)
}

/// The detours of a classic image that was built serve, in the image that is handed out: they
/// last where the report names them, but for what a later one took, and do as the code of
/// the image, or as their flags say. The emitter is the one of the image with its boot hook.
#[verifier::rlimit(60)]
pub proof fn law_classic_created_detours_serve(img: Seq<u8>, layout: Layout, c: Created)
    requires
        raw::addressable(img),
        mt1939_classic::create_classic(img, layout) == Ok::<Created, FwError>(c),
        c.boot_stub_va != 0,
    ensures
        base::classic_base(img, layout) matches Ok(b) && changes::classic_hooked(
            img,
            layout,
        ) matches Ok(out) && report_serves(img, out, b, c),
{
    let b = base::classic_base(img, layout)->Ok_0;
    let table = layout.covered@;
    changes::lemma_classic_base_confined(img, layout, b);
    let (out, _, _) = mt1939_classic::classic_boot(img, b, table)->Ok_0;
    let f = mt1939_classic::classic_features(img, out, table, b.flag_base);
    lemma_created_stages(img, out, table, b, create::entry_pointer(b.handler_va));
    lemma_features_serve(img, out, table, b, f, c.image);
    assert(changes::classic_hooked(img, layout) == Ok::<Seq<u8>, FwError>(out));
    assert(features_serve(img, out, b, f, c.image));
    lemma_reported(img, layout, c, b, out);
}

} // verus!
