//! The detours of a finished image serve: what the report names is in place, and does as the
//! code of the image that it took over, or as its flag says.
use crate::abi;
use crate::engine::audit;
use crate::engine::base;
use crate::engine::base::Layout;
use crate::engine::changes;
use crate::engine::create;
use crate::engine::create::Created;
use crate::engine::detours;
use crate::engine::emit;
use crate::engine::facts;
use crate::engine::gates;
use crate::engine::landing;
use crate::engine::lasting;
use crate::engine::lever::{Lever, LeverId, Modified, Outcome};
use crate::engine::modify;
use crate::engine::mt1939_classic;
use crate::engine::oem;
use crate::engine::rawread;
use crate::engine::scanner;
use crate::engine::sram;
use crate::engine::stubs;
use crate::engine::vid;
use crate::error::{FwError, Reason};
use crate::family::{Capability, ChipInfo};
use crate::program::AsmOp;
use crate::raw;
use crate::thumb::{BranchShape, CommandRecord};
use vstd::prelude::*;

verus! {

/// The ramp detour at `site` is in `done`: the image compares a register with 0x32 there,
/// and the stub decides as the image does, or as its flag says.
pub open spec fn ramp_grounded(
    img: Seq<u8>,
    done: Seq<u8>,
    site: int,
    va: u32,
    flag_base: u32,
    taken: Set<int>,
    later: Set<int>,
) -> bool {
    exists|ops: Seq<AsmOp>, reg: u16|
        {
            &&& reg == 0 || reg == 2
            &&& raw::hw_at(img, site) == 0x2832 + 256 * reg
            &&& lasting::lasts(done, BranchShape::Bl, site, va, emit::code_of(ops), taken, later)
            &&& #[trigger] oem::ramp_obeys(img, site, reg, flag_base, ops)
        }
}

/// The region detour at `site` is in `done`: the stub answers as the image does, or with the
/// mask that its flag forces.
pub open spec fn region_grounded(
    img: Seq<u8>,
    done: Seq<u8>,
    site: int,
    va: u32,
    flag_base: u32,
    taken: Set<int>,
    later: Set<int>,
) -> bool {
    exists|ops: Seq<AsmOp>|
        {
            &&& lasting::lasts(done, BranchShape::Bl, site, va, emit::code_of(ops), taken, later)
            &&& #[trigger] oem::region_obeys(img, site, flag_base, ops)
        }
}

/// The handshake detour at `site` is in `done`: the stub does as the writer of the image, but
/// for the state that it leaves when the handshake is off.
pub open spec fn ake_grounded(
    img: Seq<u8>,
    done: Seq<u8>,
    site: int,
    va: u32,
    flag_base: u32,
    taken: Set<int>,
    later: Set<int>,
) -> bool {
    exists|ops: Seq<AsmOp>, shape: BranchShape, n: nat|
        {
            &&& lasting::lasts(done, shape, site, va, emit::code_of(ops), taken, later)
            &&& #[trigger] oem::ake_obeys(img, site, shape, n, flag_base, ops)
        }
}

/// The Volume ID detour at `site` is in `done`: the stub decides as the image does, or opens
/// for the session struct `agid` with a call of `reset`.
pub open spec fn gate_grounded(
    img: Seq<u8>,
    done: Seq<u8>,
    site: int,
    va: u32,
    flag_base: u32,
    agid: u32,
    reset: u32,
    taken: Set<int>,
    later: Set<int>,
) -> bool {
    exists|ops: Seq<AsmOp>|
        {
            &&& lasting::lasts(done, BranchShape::Bl, site, va, emit::code_of(ops), taken, later)
            &&& #[trigger] oem::gate_obeys(img, site, flag_base, agid, reset, ops)
        }
}

/// The deny detour at `site` is in `done`: the stub calls `reset`, and sets the sense up as
/// the image does.
pub open spec fn deny_grounded(
    img: Seq<u8>,
    done: Seq<u8>,
    site: int,
    va: u32,
    reset: u32,
    taken: Set<int>,
    later: Set<int>,
) -> bool {
    exists|ops: Seq<AsmOp>|
        {
            &&& lasting::lasts(done, BranchShape::Bl, site, va, emit::code_of(ops), taken, later)
            &&& #[trigger] oem::deny_obeys(img, site, reset, ops)
        }
}

/// The UHD detour at `site` is in `done`: the stub obeys its flag, and the image where the
/// flag says nothing.
pub open spec fn uhd_grounded(
    img: Seq<u8>,
    done: Seq<u8>,
    site: int,
    va: u32,
    flag_base: u32,
    taken: Set<int>,
    later: Set<int>,
) -> bool {
    exists|ops: Seq<AsmOp>|
        {
            &&& lasting::lasts(done, BranchShape::Bl, site, va, emit::code_of(ops), taken, later)
            &&& #[trigger] oem::uhd_obeys(img, site, flag_base, ops)
        }
}

/// The BD detour at `site` is in `done`: the stub obeys its flag, and the image where the
/// flag says nothing.
pub open spec fn bd_grounded(
    img: Seq<u8>,
    done: Seq<u8>,
    site: int,
    va: u32,
    flag_base: u32,
    taken: Set<int>,
    later: Set<int>,
) -> bool {
    exists|ops: Seq<AsmOp>|
        {
            &&& lasting::lasts(done, BranchShape::Bl, site, va, emit::code_of(ops), taken, later)
            &&& #[trigger] oem::bd_obeys(img, site, flag_base, ops)
        }
}

/// The revocation detours are in `done`, one at least: their stub decides at each site as the
/// image does there, or passes when the feature is off.
pub open spec fn checks_grounded(
    img: Seq<u8>,
    done: Seq<u8>,
    sites: Seq<usize>,
    va: u32,
    flag_base: u32,
    taken: Set<int>,
    later: Set<int>,
) -> bool {
    exists|ops: Seq<AsmOp>|
        {
            &&& sites.len() > 0
            &&& lasting::shared_lasts(done, sites, va, #[trigger] emit::code_of(ops), taken, later)
            &&& forall|i: int|
                0 <= i < sites.len() ==> oem::hrl_obeys(
                    img,
                    #[trigger] sites[i] as int,
                    flag_base,
                    ops,
                )
        }
}

/// What a modern image is reported to have applied serves: every detour that the report
/// names, at the place and with the stub that it names.
pub open spec fn levers_serve(
    img: Seq<u8>,
    layout: Layout,
    done: Seq<u8>,
    levers: Seq<Lever>,
) -> bool {
    &&& levers.len() == 5
    &&& levers[1].outcome is Applied ==> (audit::fact_of(
        levers[1].facts,
        "speed_gate"@,
    ) matches Some(gate) && audit::fact_of(levers[1].facts, "speed_stub_va"@) matches Some(va) && ramp_grounded(
        img,
        done,
        gate + 4,
        va,
        0x0200_0e40,
        lasting::after_rawread(img, layout),
        lasting::after_speed(img, layout),
    ))
    &&& levers[2].outcome is Applied ==> (audit::fact_of(
        levers[2].facts,
        "region_emitter"@,
    ) matches Some(at) && audit::fact_of(levers[2].facts, "region_stub_va"@) matches Some(va)
        && region_grounded(
        img,
        done,
        at + 6,
        va,
        0x0200_0e40,
        lasting::after_rawread(img, layout),
        lasting::after_region(img, layout),
    ))
    &&& levers[3].outcome is Applied ==> rawread_serves(img, layout, done, levers[3])
}

/// The detours that every Raw-read lever names serve, at `ake`, `gate` and `deny` with their
/// stubs.
pub open spec fn core_serves(
    img: Seq<u8>,
    layout: Layout,
    done: Seq<u8>,
    ake: (u32, u32),
    gate: (u32, u32),
    deny: (u32, u32),
) -> bool {
    let taken = lasting::after_rawread(img, layout);
    rawread::grounds(img, sram::FLAG_TABLE_BASE) matches Ok(g) && vid::agid_struct(
        img,
    ) matches Ok(agid) && vid::session_reset(img) matches Ok(reset) && {
        &&& ake_grounded(
            img,
            done,
            ake.0 as int,
            ake.1,
            0x0200_0e40,
            taken,
            lasting::after_ake(img, layout, g),
        )
        &&& gate_grounded(
            img,
            done,
            gate.0 as int,
            gate.1,
            0x0200_0e40,
            agid,
            reset,
            taken,
            lasting::after_gatea(img, layout, g),
        )
        &&& deny_grounded(
            img,
            done,
            deny.0 as int,
            deny.1,
            reset,
            taken,
            lasting::after_deny(img, layout),
        )
        &&& deny.0 == oem::branch_to(img, gate.0 + 2) + 16
    }
}

/// A Raw-read lever that was applied serves.
pub open spec fn rawread_serves(img: Seq<u8>, layout: Layout, done: Seq<u8>, l: Lever) -> bool {
    let taken = lasting::after_rawread(img, layout);
    &&& match (
        audit::fact_of(l.facts, "ake_site"@),
        audit::fact_of(l.facts, "ake_stub_va"@),
        audit::fact_of(l.facts, "gatea_gate"@),
        audit::fact_of(l.facts, "gatea_stub_va"@),
        audit::fact_of(l.facts, "deny_site"@),
        audit::fact_of(l.facts, "deny_stub_va"@),
    ) {
        (Some(ake), Some(ake_va), Some(gate), Some(gate_va), Some(deny), Some(deny_va)) =>
            core_serves(img, layout, done, (ake, ake_va), (gate, gate_va), (deny, deny_va)),
        _ => false,
    }
    &&& match (audit::fact_of(l.facts, "uhd_site"@), audit::fact_of(l.facts, "uhd_stub_va"@)) {
        (Some(site), Some(va)) => uhd_grounded(
            img,
            done,
            site as int,
            va,
            0x0200_0e40,
            taken,
            lasting::after_uhd(img, layout),
        ),
        (None, None) => true,
        _ => false,
    }
    &&& match (audit::fact_of(l.facts, "bd_site"@), audit::fact_of(l.facts, "bd_stub_va"@)) {
        (Some(site), Some(va)) => bd_grounded(
            img,
            done,
            site as int,
            va,
            0x0200_0e40,
            taken,
            taken,
        ),
        (None, None) => true,
        _ => false,
    }
    &&& match audit::fact_of(l.facts, "hrl_stub_va"@) {
        Some(va) => checks_serve(
            img,
            done,
            l,
            va,
            0x0200_0e40,
            taken,
            lasting::after_hrl(img, layout),
        ),
        None => audit::fact_of(l.facts, "hrl_site"@) is None,
    }
}

/// The revocation detours that a lever names serve; it names up to three of them.
pub open spec fn checks_serve(
    img: Seq<u8>,
    done: Seq<u8>,
    l: Lever,
    va: u32,
    flag_base: u32,
    taken: Set<int>,
    later: Set<int>,
) -> bool {
    exists|sites: Seq<usize>|
        {
            &&& #[trigger] checks_grounded(img, done, sites, va, flag_base, taken, later)
            &&& va != 0 ==> audit::fact_of(l.facts, "hrl_site"@) == Some(sites[0] as u32)
            &&& va != 0 && sites.len() > 1 ==> audit::fact_of(l.facts, "hrl_site2"@) == Some(
                sites[1] as u32,
            )
            &&& va != 0 && sites.len() > 2 ==> audit::fact_of(l.facts, "hrl_site3"@) == Some(
                sites[2] as u32,
            )
        }
}

/// The detours of the grounds serve where they last.
#[verifier::rlimit(40)]
proof fn lemma_core_serves(
    img: Seq<u8>,
    layout: Layout,
    done: Seq<u8>,
    g: rawread::Grounds,
    ake_va: u32,
    gate_va: u32,
    deny_va: u32,
)
    requires
        raw::addressable(img),
        rawread::grounds(img, sram::FLAG_TABLE_BASE) == Ok::<rawread::Grounds, FwError>(g),
        lasting::lasts(
            done,
            g.ake.shape,
            g.ake.site as int,
            ake_va,
            emit::code_of(g.ake.ops),
            lasting::after_rawread(img, layout),
            lasting::after_ake(img, layout, g),
        ),
        lasting::lasts(
            done,
            BranchShape::Bl,
            g.gatea_site,
            gate_va,
            emit::code_of(g.gatea),
            lasting::after_rawread(img, layout),
            lasting::after_gatea(img, layout, g),
        ),
        lasting::lasts(
            done,
            BranchShape::Bl,
            g.deny_site,
            deny_va,
            emit::code_of(stubs::deny_reset_program(g.reset)),
            lasting::after_rawread(img, layout),
            lasting::after_deny(img, layout),
        ),
    ensures
        core_serves(
            img,
            layout,
            done,
            (g.ake.site as u32, ake_va),
            (g.gatea_site as u32, gate_va),
            (g.deny_site as u32, deny_va),
        ),
{
    let base = sram::FLAG_TABLE_BASE;
    oem::law_ake_detour_does_as_the_image(img, base, g.ake);
    oem::law_gate_detour_decides_as_the_image(img, base);
    oem::law_deny_detour_sets_up_the_same_sense(img, base);
    let agid = vid::agid_struct(img)->Ok_0;
    assert(oem::ake_obeys(
        img,
        g.ake.site as int,
        g.ake.shape,
        oem::taken_over(g.ake),
        base,
        g.ake.ops,
    ));
    assert(oem::gate_obeys(img, g.gatea_site, base, agid, g.reset, g.gatea));
    assert(oem::deny_obeys(img, g.deny_site, g.reset, stubs::deny_reset_program(g.reset)));
}

/// A media detour that lasts serves.
pub proof fn lemma_media_serve(
    img: Seq<u8>,
    done: Seq<u8>,
    site: usize,
    va: u32,
    ops: Seq<AsmOp>,
    flag_base: u32,
    taken: Set<int>,
    later: Set<int>,
)
    requires
        raw::addressable(img),
        lasting::lasts(
            done,
            BranchShape::Bl,
            site as int,
            va,
            emit::code_of(ops),
            taken,
            later,
        ),
    ensures
        detours::uhd_plan(img, flag_base) == Ok::<(usize, Seq<AsmOp>), FwError>((site, ops))
            ==> site as u32 == site && uhd_grounded(
            img,
            done,
            site as int,
            va,
            flag_base,
            taken,
            later,
        ),
        detours::bd_plan(img, flag_base) == Ok::<(usize, Seq<AsmOp>), FwError>((site, ops)) ==> site
            as u32 == site && bd_grounded(img, done, site as int, va, flag_base, taken, later),
{
    if detours::uhd_plan(img, flag_base) == Ok::<(usize, Seq<AsmOp>), FwError>((site, ops)) {
        oem::law_uhd_detour_obeys_its_flag(img, flag_base, site, ops);
    }
    if detours::bd_plan(img, flag_base) == Ok::<(usize, Seq<AsmOp>), FwError>((site, ops)) {
        oem::law_bd_detour_obeys_its_flag(img, flag_base, site, ops);
    }
}

/// Revocation detours that last serve.
pub proof fn lemma_checks_grounded(
    img: Seq<u8>,
    done: Seq<u8>,
    sites: Seq<usize>,
    revoke: u32,
    va: u32,
    flag_base: u32,
    taken: Set<int>,
    later: Set<int>,
)
    requires
        raw::addressable(img),
        gates::hrl_skip_sites(img) == Ok::<(Seq<usize>, u32), FwError>((sites, revoke))
            || mt1939_classic::classic_hrl_sites(img) == Ok::<(Seq<usize>, u32), FwError>(
            (sites, revoke),
        ),
        lasting::shared_lasts(
            done,
            sites,
            va,
            emit::code_of(stubs::hrl_skip_program(flag_base, revoke)),
            taken,
            later,
        ),
    ensures
        checks_grounded(img, done, sites, va, flag_base, taken, later),
{
    let ops = stubs::hrl_skip_program(flag_base, revoke);
    if gates::hrl_skip_sites(img) == Ok::<(Seq<usize>, u32), FwError>((sites, revoke)) {
        oem::law_revocation_checks_share_their_revoke_path(img, flag_base, sites, revoke);
    } else {
        oem::law_classic_revocation_checks_share_their_revoke_path(img, flag_base, sites, revoke);
    }
    assert(lasting::shared_lasts(done, sites, va, emit::code_of(ops), taken, later));
}

/// A ramp detour that lasts serves.
proof fn lemma_ramp_grounded(
    img: Seq<u8>,
    layout: Layout,
    done: Seq<u8>,
    gate: u32,
    reg: u8,
    va: u32,
)
    requires
        raw::addressable(img),
        gates::speed_gate(img) == Ok::<(u32, u8), FwError>((gate, reg)),
        lasting::lasts(
            done,
            BranchShape::Bl,
            gate + 4,
            va,
            lasting::speed_code(img, gate, reg),
            lasting::after_rawread(img, layout),
            lasting::after_speed(img, layout),
        ),
    ensures
        ramp_grounded(
            img,
            done,
            gate + 4,
            va,
            0x0200_0e40,
            lasting::after_rawread(img, layout),
            lasting::after_speed(img, layout),
        ),
{
    oem::lemma_ramp_obeys(img, sram::FLAG_TABLE_BASE);
    oem::law_ramp_gate_is_the_only_one(img);
}

/// What a lever of a modern image is reported to have applied serves, in the image that is
/// handed out: the detours last where the report names them, with the exceptions that hold
/// of every detour, and do as the code of the image that went in, or as their flags say.
#[verifier::rlimit(40)]
pub proof fn law_applied_levers_serve(
    img: Seq<u8>,
    layout: Layout,
    chip: ChipInfo,
    cap: Capability,
    m: Modified,
)
    requires
        raw::addressable(img),
        !modify::carries_magic(img),
        modify::modify_modern(img, layout, chip, cap) == Ok::<Modified, FwError>(m),
    ensures
        levers_serve(img, layout, m.image, m.levers),
{
    lasting::law_applied_levers_last(img, layout, chip, cap, m);
    let base = sram::FLAG_TABLE_BASE;
    if m.levers[1].outcome is Applied {
        reveal(lasting::speed_lasts);
        let (gate, reg) = gates::speed_gate(img)->Ok_0;
        let va = audit::fact_of(m.levers[1].facts, "speed_stub_va"@)->Some_0;
        lemma_ramp_grounded(img, layout, m.image, gate, reg, va);
    }
    if m.levers[2].outcome is Applied {
        reveal(lasting::region_lasts);
        oem::lemma_region_obeys(img, 0, img.len() as int, base);
    }
    if m.levers[3].outcome is Applied {
        lemma_rawread_serves(img, layout, m.image, m.levers[3]);
    }
}

/// A Raw-read lever that lasts serves.
#[verifier::rlimit(40)]
proof fn lemma_rawread_serves(img: Seq<u8>, layout: Layout, done: Seq<u8>, l: Lever)
    requires
        raw::addressable(img),
        lasting::rawread_lasts(img, layout, done, l),
    ensures
        rawread_serves(img, layout, done, l),
{
    reveal(lasting::rawread_lasts);
    let base = sram::FLAG_TABLE_BASE;
    let taken = lasting::after_rawread(img, layout);
    let g = rawread::grounds(img, base)->Ok_0;
    lemma_core_serves(
        img,
        layout,
        done,
        g,
        audit::fact_of(l.facts, "ake_stub_va"@)->Some_0,
        audit::fact_of(l.facts, "gatea_stub_va"@)->Some_0,
        audit::fact_of(l.facts, "deny_stub_va"@)->Some_0,
    );
    if let Some(va) = audit::fact_of(l.facts, "uhd_stub_va"@) {
        let (site, ops) = detours::uhd_plan(img, base)->Ok_0;
        lemma_media_serve(
            img,
            done,
            site,
            va,
            ops,
            base,
            taken,
            lasting::after_uhd(img, layout),
        );
    }
    if let Some(va) = audit::fact_of(l.facts, "bd_stub_va"@) {
        let (site, ops) = detours::bd_plan(img, base)->Ok_0;
        lemma_media_serve(img, done, site, va, ops, base, taken, taken);
    }
    if let Some(va) = audit::fact_of(l.facts, "hrl_stub_va"@) {
        let (sites, revoke) = gates::hrl_skip_sites(img)->Ok_0;
        lemma_checks_grounded(
            img,
            done,
            sites,
            revoke,
            va,
            base,
            taken,
            lasting::after_hrl(img, layout),
        );
    }
}

/// What is reported of a modern image that was built serves: every detour whose stub the
/// report names, at the place that it names.
pub open spec fn report_serves(img: Seq<u8>, layout: Layout, c: Created) -> bool {
    let taken = lasting::after_rawread(img, layout);
    &&& c.speed_stub_va != 0 ==> ramp_grounded(
        img,
        c.image,
        c.speed_gate + 4,
        c.speed_stub_va,
        0x0200_0e40,
        taken,
        lasting::after_speed(img, layout),
    )
    &&& c.region_stub_va != 0 ==> region_grounded(
        img,
        c.image,
        c.region_emitter + 6,
        c.region_stub_va,
        0x0200_0e40,
        taken,
        lasting::after_region(img, layout),
    )
    &&& c.gatea_stub_va != 0 || c.ake_stub_va != 0 || c.deny_stub_va != 0 ==> exists|site: u32|
        #[trigger] core_serves(
            img,
            layout,
            c.image,
            (site, c.ake_stub_va),
            (c.gatea_gate, c.gatea_stub_va),
            (c.deny_reset_gate, c.deny_stub_va),
        )
    &&& c.uhd_stub_va != 0 ==> uhd_grounded(
        img,
        c.image,
        c.uhd_classifier_site as int,
        c.uhd_stub_va,
        0x0200_0e40,
        taken,
        lasting::after_uhd(img, layout),
    )
    &&& c.bd_stub_va != 0 ==> bd_grounded(
        img,
        c.image,
        c.bd_gate_site as int,
        c.bd_stub_va,
        0x0200_0e40,
        taken,
        taken,
    )
    &&& c.hrl_stub_va != 0 ==> exists|sites: Seq<usize>|
        {
            &&& sites.len() == c.hrl_sites.len()
            &&& forall|i: int| 0 <= i < sites.len() ==> c.hrl_sites[i] == #[trigger] sites[i]
            &&& #[trigger] checks_grounded(
                img,
                c.image,
                sites,
                c.hrl_stub_va,
                0x0200_0e40,
                taken,
                lasting::after_hrl(img, layout),
            )
        }
}

/// The Raw-read detours that were written serve.
#[verifier::rlimit(60)]
proof fn lemma_written_rawread_serves(
    img: Seq<u8>,
    out: Seq<u8>,
    layout: Layout,
    w: Seq<u8>,
    f: rawread::RawRead,
    done: Seq<u8>,
)
    requires
        raw::addressable(img),
        out.len() == img.len(),
        rawread::rawread_emission(img, out, layout.covered@, sram::FLAG_TABLE_BASE) == Ok::<
            (Seq<u8>, rawread::RawRead),
            FwError,
        >((w, f)),
        changes::confined(w, done, lasting::after_rawread(img, layout)),
    ensures
        core_serves(
            img,
            layout,
            done,
            (f.ake_site, f.ake_stub_va),
            (f.gatea_site, f.gatea_stub_va),
            (f.deny_site, f.deny_stub_va),
        ),
        ({
            let l = Lever {
                id: LeverId::RawRead,
                outcome: Outcome::Applied,
                facts: modify::rawread_facts(f),
            };
            let taken = lasting::after_rawread(img, layout);
            &&& lasting::plan_lasts(
                detours::uhd_plan(img, sram::FLAG_TABLE_BASE),
                audit::fact_of(l.facts, "uhd_site"@),
                audit::fact_of(l.facts, "uhd_stub_va"@),
                done,
                taken,
                lasting::after_uhd(img, layout),
            )
            &&& lasting::plan_lasts(
                detours::bd_plan(img, sram::FLAG_TABLE_BASE),
                audit::fact_of(l.facts, "bd_site"@),
                audit::fact_of(l.facts, "bd_stub_va"@),
                done,
                taken,
                taken,
            )
            &&& lasting::hrl_lasts(
                gates::hrl_skip_sites(img),
                sram::FLAG_TABLE_BASE,
                l,
                done,
                taken,
                lasting::after_hrl(img, layout),
            )
        }),
{
    let table = layout.covered@;
    let base = sram::FLAG_TABLE_BASE;
    let g = rawread::grounds(img, base)->Ok_0;
    let (w3, ake_va, gatea_va, deny_va) = rawread::core_emission(g, out, table)->Ok_0;
    changes::lemma_core_confined(g, out, table);
    lasting::lemma_media_confined(img, w3, table);
    changes::lemma_confined_chain(
        w3,
        w,
        done,
        lasting::media_windows(img),
        lasting::after_rawread(img, layout),
    );
    lasting::lemma_core_lasts(img, layout, g, out, w3, ake_va, gatea_va, deny_va, done);
    lasting::lemma_media_lasts(img, layout, w3, w, f, done);
    lemma_core_serves(img, layout, done, g, ake_va, gatea_va, deny_va);
}

/// The media detours that were written serve.
#[verifier::rlimit(60)]
proof fn lemma_written_media_serve(
    img: Seq<u8>,
    out: Seq<u8>,
    layout: Layout,
    w: Seq<u8>,
    f: rawread::RawRead,
    done: Seq<u8>,
)
    requires
        raw::addressable(img),
        out.len() == img.len(),
        rawread::rawread_emission(img, out, layout.covered@, sram::FLAG_TABLE_BASE) == Ok::<
            (Seq<u8>, rawread::RawRead),
            FwError,
        >((w, f)),
        changes::confined(w, done, lasting::after_rawread(img, layout)),
    ensures
        f.uhd_stub_va != 0 ==> uhd_grounded(
            img,
            done,
            f.uhd_site as int,
            f.uhd_stub_va,
            0x0200_0e40,
            lasting::after_rawread(img, layout),
            lasting::after_uhd(img, layout),
        ),
        f.bd_stub_va != 0 ==> bd_grounded(
            img,
            done,
            f.bd_site as int,
            f.bd_stub_va,
            0x0200_0e40,
            lasting::after_rawread(img, layout),
            lasting::after_rawread(img, layout),
        ),
        f.hrl_stub_va != 0 ==> (gates::hrl_skip_sites(img) matches Ok((sites, _)) && f.hrl_sites
            == rawread::addresses(sites) && checks_grounded(
            img,
            done,
            sites,
            f.hrl_stub_va,
            0x0200_0e40,
            lasting::after_rawread(img, layout),
            lasting::after_hrl(img, layout),
        )),
{
    let base = sram::FLAG_TABLE_BASE;
    let taken = lasting::after_rawread(img, layout);
    lemma_written_rawread_serves(img, out, layout, w, f, done);
    facts::lemma_media_facts(f);
    if f.uhd_stub_va != 0 {
        let (site, ops) = detours::uhd_plan(img, base)->Ok_0;
        lemma_media_serve(
            img,
            done,
            site,
            f.uhd_stub_va,
            ops,
            base,
            taken,
            lasting::after_uhd(img, layout),
        );
    }
    if f.bd_stub_va != 0 {
        let (site, ops) = detours::bd_plan(img, base)->Ok_0;
        lemma_media_serve(img, done, site, f.bd_stub_va, ops, base, taken, taken);
    }
    if f.hrl_stub_va != 0 {
        let (sites, revoke) = gates::hrl_skip_sites(img)->Ok_0;
        lemma_checks_grounded(
            img,
            done,
            sites,
            revoke,
            f.hrl_stub_va,
            base,
            taken,
            lasting::after_hrl(img, layout),
        );
    }
}

/// The features of a modern image that was built, one after the other.
#[verifier::rlimit(40)]
proof fn lemma_created_stages(
    img: Seq<u8>,
    out: Seq<u8>,
    layout: Layout,
    record: CommandRecord,
    pointer: u32,
)
    requires
        raw::addressable(img),
        out.len() == img.len(),
        scanner::live_record(img, abi::READ_BUFFER_OPCODE, layout.live_record_windows@) == Ok::<
            CommandRecord,
            FwError,
        >(record),
    ensures
        ({
            let base = sram::FLAG_TABLE_BASE;
            let (s, r, f) = create::modern_features(img, out, layout, base);
            let done = scanner::repointed(create::with_de(img, f.0), record, pointer);
            &&& s == create::or_unwired(out, emit::speed_emission(img, out, layout.covered@, base))
            &&& r == create::or_unwired(
                s.0,
                emit::region_emission(img, s.0, layout.covered@, base),
            )
            &&& f == create::or_no_rawread(
                r.0,
                rawread::rawread_emission(img, r.0, layout.covered@, base),
            )
            &&& s.0.len() == img.len()
            &&& r.0.len() == img.len()
            &&& changes::confined(f.0, done, lasting::after_rawread(img, layout))
            &&& changes::confined(r.0, done, lasting::after_region(img, layout))
            &&& changes::confined(s.0, done, lasting::after_speed(img, layout))
        }),
{
    reveal(create::modern_features);
    let table = layout.covered@;
    let base = sram::FLAG_TABLE_BASE;
    let (s, r, f) = create::modern_features(img, out, layout, base);
    changes::lemma_speed_confined(img, out, table, base);
    changes::lemma_region_confined(
        gates::region_emitter(img),
        s.0,
        table,
        base,
        Reason::RegionRange,
    );
    changes::lemma_rawread_confined(img, r.0, table, base);
    changes::lemma_de_confined(img, f.0, arbitrary());
    lasting::lemma_suffixes(
        img,
        layout,
        s.0,
        r.0,
        f.0,
        create::with_de(img, f.0),
        record,
        pointer,
    );
}

/// The report names what the features are.
pub open spec fn names(
    c: Created,
    s: (Seq<u8>, u32, u32),
    r: (Seq<u8>, u32, u32),
    f: rawread::RawRead,
) -> bool {
    &&& (c.speed_gate, c.speed_stub_va) == (s.1, s.2)
    &&& (c.region_emitter, c.region_stub_va) == (r.1, r.2)
    &&& c.ake_stub_va == f.ake_stub_va
    &&& (c.gatea_gate, c.gatea_stub_va) == (f.gatea_site, f.gatea_stub_va)
    &&& (c.deny_reset_gate, c.deny_stub_va) == (f.deny_site, f.deny_stub_va)
    &&& (c.uhd_classifier_site, c.uhd_stub_va) == (f.uhd_site, f.uhd_stub_va)
    &&& (c.bd_gate_site, c.bd_stub_va) == (f.bd_site, f.bd_stub_va)
    &&& (c.hrl_sites, c.hrl_stub_va) == (f.hrl_sites, f.hrl_stub_va)
}

/// The addresses of the revocation checks are their offsets.
pub proof fn lemma_check_addresses(img: Seq<u8>, sites: Seq<usize>, revoke: u32)
    requires
        raw::addressable(img),
        gates::hrl_skip_sites(img) == Ok::<(Seq<usize>, u32), FwError>((sites, revoke))
            || mt1939_classic::classic_hrl_sites(img) == Ok::<(Seq<usize>, u32), FwError>(
            (sites, revoke),
        ),
    ensures
        forall|i: int|
            0 <= i < sites.len() ==> rawread::addresses(sites)[i] == #[trigger] sites[i],
{
    if gates::hrl_skip_sites(img) == Ok::<(Seq<usize>, u32), FwError>((sites, revoke)) {
        oem::law_revocation_checks_share_their_revoke_path(img, 0, sites, revoke);
    } else {
        oem::law_classic_revocation_checks_share_their_revoke_path(img, 0, sites, revoke);
    }
    assert forall|i: int| 0 <= i < sites.len() implies rawread::addresses(sites)[i]
        == #[trigger] sites[i] by {
        assert(rawread::addresses(sites)[i] == sites[i] as u32);
    }
}

/// A report of features that were written serves.
#[verifier::rlimit(60)]
proof fn lemma_report_serves(
    img: Seq<u8>,
    out: Seq<u8>,
    layout: Layout,
    c: Created,
    s: (Seq<u8>, u32, u32),
    r: (Seq<u8>, u32, u32),
    f: (Seq<u8>, rawread::RawRead),
)
    requires
        raw::addressable(img),
        out.len() == img.len(),
        s.0.len() == img.len(),
        r.0.len() == img.len(),
        s == create::or_unwired(
            out,
            emit::speed_emission(img, out, layout.covered@, sram::FLAG_TABLE_BASE),
        ),
        r == create::or_unwired(
            s.0,
            emit::region_emission(img, s.0, layout.covered@, sram::FLAG_TABLE_BASE),
        ),
        f == create::or_no_rawread(
            r.0,
            rawread::rawread_emission(img, r.0, layout.covered@, sram::FLAG_TABLE_BASE),
        ),
        changes::confined(f.0, c.image, lasting::after_rawread(img, layout)),
        changes::confined(r.0, c.image, lasting::after_region(img, layout)),
        changes::confined(s.0, c.image, lasting::after_speed(img, layout)),
        names(c, s, r, f.1),
    ensures
        report_serves(img, layout, c),
{
    lemma_created_speed(img, out, layout, s, c.image);
    lemma_created_region(img, s.0, layout, r, c.image);
    if rawread::rawread_emission(img, r.0, layout.covered@, sram::FLAG_TABLE_BASE) is Ok {
        lemma_written_rawread_serves(img, r.0, layout, f.0, f.1, c.image);
        lemma_written_media_serve(img, r.0, layout, f.0, f.1, c.image);
        if c.hrl_stub_va != 0 {
            let (sites, revoke) = gates::hrl_skip_sites(img)->Ok_0;
            lemma_check_addresses(img, sites, revoke);
        }
    }
}

/// The detours of a modern image that was built serve, in the image that is handed out: they
/// last where the report names them, with the exceptions that hold of every detour, and do
/// as the code of the image that went in, or as their flags say.
pub proof fn law_created_detours_serve(img: Seq<u8>, layout: Layout, c: Created)
    requires
        raw::addressable(img),
        create::create_modern(img, layout) == Ok::<Created, FwError>(c),
    ensures
        report_serves(img, layout, c),
{
    let (b, pair) = base::modern_base(img, layout)->Ok_0;
    let table = layout.covered@;
    let (out, site, va) = emit::boot_emission(img, b.image, table, b.flag_base, pair)->Ok_0;
    landing::lemma_modern_ground(img, layout, b, pair, out, site, va);
    let pointer = create::entry_pointer(b.handler_va);
    lemma_created_stages(img, out, layout, b.record, pointer);
    let (s, r, f) = create::modern_features(img, out, layout, sram::FLAG_TABLE_BASE);
    lemma_report_serves(img, out, layout, c, s, r, f);
}

/// A Speed detour that was written serves.
proof fn lemma_created_speed(
    img: Seq<u8>,
    out: Seq<u8>,
    layout: Layout,
    s: (Seq<u8>, u32, u32),
    done: Seq<u8>,
)
    requires
        raw::addressable(img),
        out.len() == img.len(),
        s == create::or_unwired(
            out,
            emit::speed_emission(img, out, layout.covered@, sram::FLAG_TABLE_BASE),
        ),
        changes::confined(s.0, done, lasting::after_speed(img, layout)),
    ensures
        s.2 != 0 ==> ramp_grounded(
            img,
            done,
            s.1 + 4,
            s.2,
            0x0200_0e40,
            lasting::after_rawread(img, layout),
            lasting::after_speed(img, layout),
        ),
{
    if s.2 != 0 {
        let (gate, reg) = gates::speed_gate(img)->Ok_0;
        lasting::lemma_speed_spared(img, layout, gate);
        oem::law_ramp_gate_is_the_only_one(img);
        lasting::lemma_lasts(
            out,
            layout.covered@,
            BranchShape::Bl,
            gate + 4,
            lasting::speed_code(img, gate, reg),
            Reason::SpeedRange,
            s.0,
            s.2,
            done,
            lasting::after_rawread(img, layout),
            lasting::after_speed(img, layout),
        );
        lemma_ramp_grounded(img, layout, done, gate, reg, s.2);
    }
}

/// A Region detour that was written serves.
proof fn lemma_created_region(
    img: Seq<u8>,
    out: Seq<u8>,
    layout: Layout,
    r: (Seq<u8>, u32, u32),
    done: Seq<u8>,
)
    requires
        raw::addressable(img),
        out.len() == img.len(),
        r == create::or_unwired(
            out,
            emit::region_emission(img, out, layout.covered@, sram::FLAG_TABLE_BASE),
        ),
        changes::confined(r.0, done, lasting::after_region(img, layout)),
    ensures
        r.2 != 0 ==> region_grounded(
            img,
            done,
            r.1 + 6,
            r.2,
            0x0200_0e40,
            lasting::after_rawread(img, layout),
            lasting::after_region(img, layout),
        ),
{
    if r.2 != 0 {
        let at = gates::region_emitter(img)->Ok_0;
        let ops = stubs::region_program(sram::FLAG_TABLE_BASE);
        lasting::lemma_region_spared(img, layout);
        oem::lemma_region_obeys(img, 0, img.len() as int, sram::FLAG_TABLE_BASE);
        lasting::lemma_lasts(
            out,
            layout.covered@,
            BranchShape::Bl,
            at + 6,
            emit::code_of(ops),
            Reason::RegionRange,
            r.0,
            r.2,
            done,
            lasting::after_rawread(img, layout),
            lasting::after_region(img, layout),
        );
        assert(oem::region_obeys(img, at + 6, sram::FLAG_TABLE_BASE, ops));
    }
}

} // verus!
