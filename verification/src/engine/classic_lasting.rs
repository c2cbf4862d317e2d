//! What is still in a modified classic image of what each of its levers wrote.
use crate::engine::audit;
use crate::engine::base;
use crate::engine::base::{Base, Layout};
use crate::engine::boot;
use crate::engine::changes;
use crate::engine::classic_modify;
use crate::engine::create;
use crate::engine::emit;
use crate::engine::emit::Checks;
use crate::engine::facts;
use crate::engine::gates;
use crate::engine::landing;
use crate::engine::lasting;
use crate::engine::lever::{Fact, Lever, Modified};
use crate::engine::modify;
use crate::engine::mt1939_classic;
use crate::engine::mt1939_classic::{ClassicGrounds, ClassicRawRead};
use crate::engine::scanner;
use crate::engine::signatures::REGION_EMIT_SIG;
use crate::engine::space::TableEntry;
use crate::engine::spots;
use crate::engine::spots::Spot;
use crate::engine::stubs;
use crate::error::{FwError, Reason};
use crate::family::{Capability, ChipInfo};
use crate::raw;
use crate::thumb::{BranchShape, CommandRecord};
use vstd::prelude::*;

verus! {

/// What is written when the classic Raw-read lever is done: the downgrade byte and the
/// record's pointer.
pub open spec fn after_rawread(img: Seq<u8>, record: CommandRecord) -> Set<int> {
    changes::de_window(img).union(changes::window(record.off + scanner::HANDLER_OFF))
}

/// What is written when the classic AKE detour is done.
pub open spec fn after_ake(img: Seq<u8>, record: CommandRecord) -> Set<int> {
    changes::classic_hrl_windows(img).union(after_rawread(img, record))
}

/// What is written when the classic Volume ID detour is done.
pub open spec fn after_gatea(img: Seq<u8>, record: CommandRecord, g: ClassicGrounds) -> Set<int> {
    changes::window(g.ake + 6).union(after_ake(img, record))
}

/// What is written when the classic Region lever is done.
pub open spec fn after_region(img: Seq<u8>, flag_base: u32, record: CommandRecord) -> Set<int> {
    changes::classic_rawread_windows(img, flag_base).union(
        changes::classic_hrl_windows(img),
    ).union(after_rawread(img, record))
}

/// The emitter of the image that has its boot hook.
pub open spec fn emitter(out: Seq<u8>) -> Result<u32, FwError> {
    gates::region_emitter_in(
        out,
        mt1939_classic::CLASSIC_EMITTER_LO as int,
        mt1939_classic::CLASSIC_EMITTER_HI as int,
    )
}

/// The classic Raw-read lever names the sites of the Volume ID and AKE detours and their
/// stubs, and the detours last; so do the revocation detours, when it names them.
#[verifier::opaque]
pub open spec fn rawread_lasts(
    img: Seq<u8>,
    flag_base: u32,
    record: CommandRecord,
    done: Seq<u8>,
    l: Lever,
) -> bool {
    match mt1939_classic::classic_grounds(img, flag_base) {
        Ok(g) => {
            &&& audit::fact_of(l.facts, "gatea_gate"@) == Some(g.gatea_site as u32)
            &&& audit::fact_of(l.facts, "gatea_stub_va"@) matches Some(va) && lasting::lasts(
                done,
                BranchShape::Bl,
                g.gatea_site,
                va,
                emit::code_of(g.gatea),
                after_rawread(img, record),
                after_gatea(img, record, g),
            )
            &&& audit::fact_of(l.facts, "ake_site"@) == Some((g.ake + 6) as u32)
            &&& audit::fact_of(l.facts, "ake_stub_va"@) matches Some(va) && lasting::lasts(
                done,
                BranchShape::Bl,
                g.ake + 6,
                va,
                emit::code_of(g.ake_ops),
                after_rawread(img, record),
                after_ake(img, record),
            )
            &&& lasting::hrl_lasts(
                mt1939_classic::classic_hrl_sites(img),
                flag_base,
                l,
                done,
                after_rawread(img, record),
                after_rawread(img, record),
            )
        },
        Err(_) => false,
    }
}

/// Only the downgrade byte and the record's pointer can take the places of the classic
/// Raw-read detours.
proof fn lemma_grounds_spared(img: Seq<u8>, flag_base: u32, record: CommandRecord)
    requires
        raw::addressable(img),
    ensures
        mt1939_classic::classic_grounds(img, flag_base) matches Ok(g) ==> {
            &&& 0 <= g.gatea_site
            &&& g.gatea_site + 4 <= img.len()
            &&& 0 <= g.ake + 6
            &&& g.ake + 10 <= img.len()
            &&& lasting::spared(
                g.gatea_site,
                after_gatea(img, record, g),
                after_rawread(img, record),
            )
            &&& lasting::spared(g.ake + 6, after_ake(img, record), after_rawread(img, record))
        },
{
    spots::lemma_classic_core_spots(img, flag_base);
    spots::lemma_classic_hrl_spots(img);
    if let Ok(g) = mt1939_classic::classic_grounds(img, flag_base) {
        spots::law_detour_places_never_overlap(
            img,
            g.gatea_site,
            Spot::Gate,
            g.ake + 6,
            Spot::ClassicAke,
        );
        if let Ok((sites, _)) = mt1939_classic::classic_hrl_sites(img) {
            lasting::lemma_checks_apart(img, g.gatea_site, Spot::Gate, sites);
            lasting::lemma_checks_apart(img, g.ake + 6, Spot::ClassicAke, sites);
        }
    }
}

/// The classic emitter leaves room for its detour.
pub proof fn lemma_emitter_room(out: Seq<u8>)
    requires
        raw::addressable(out),
    ensures
        emitter(out) matches Ok(at) ==> at + 10 <= out.len(),
{
    let len = out.len() as int;
    lasting::lemma_room(
        out,
        REGION_EMIT_SIG@,
        scanner::least(mt1939_classic::CLASSIC_EMITTER_LO as int, len),
        scanner::least(mt1939_classic::CLASSIC_EMITTER_HI as int, len),
    );
}

/// A place of the image that the boot hook spares is apart from the emitter that is found
/// once the hook is in.
proof fn lemma_emitter_apart(img: Seq<u8>, out: Seq<u8>, at: int, site: int, kind: Spot)
    requires
        spots::spot(out, at, Spot::Region),
        spots::spot(img, site, kind),
        kind is Gate || kind is ClassicAke || kind is Hrl,
        changes::confined(img, out, changes::boot_window(img)),
        changes::window(site).disjoint(changes::boot_window(img)),
    ensures
        changes::window(at).disjoint(changes::window(site)),
{
    assert(changes::window(site).contains(site + 1));
    assert(changes::window(site).contains(site + 3));
    let h0 = raw::hw_at(img, site);
    let h1 = raw::hw_at(img, site + 2);
    assert(img[site + 1] == h0 / 256);
    assert(img[site + 3] == h1 / 256);
    assert(out[site + 1] == img[site + 1]);
    assert(out[site + 3] == img[site + 3]);
    assert(out[at + 1] == raw::hw_at(out, at) / 256);
    assert(out[at + 3] == raw::hw_at(out, at + 2) / 256);
    assert(at != site);
    assert(at != site + 2);
    assert(site != at + 2);
    assert forall|i: int| changes::window(at).contains(i) implies !changes::window(site).contains(
        i,
    ) by {}
}

/// The places of the classic Raw-read detours and the boot hook are apart.
proof fn lemma_boot_apart(img: Seq<u8>, flag_base: u32)
    requires
        raw::addressable(img),
    ensures
        mt1939_classic::classic_grounds(img, flag_base) matches Ok(g) ==> changes::window(
            g.gatea_site,
        ).disjoint(changes::boot_window(img)) && changes::window(g.ake + 6).disjoint(
            changes::boot_window(img),
        ),
        mt1939_classic::classic_hrl_sites(img) matches Ok((sites, _)) ==> forall|i: int|
            0 <= i < sites.len() ==> changes::window(#[trigger] sites[i] as int).disjoint(
                changes::boot_window(img),
            ),
{
    spots::lemma_boot_spot(img);
    spots::lemma_classic_core_spots(img, flag_base);
    spots::lemma_classic_hrl_spots(img);
    if let Ok(pair) = boot::boot_init_pair(img) {
        let at = pair.0 as int;
        if let Ok(g) = mt1939_classic::classic_grounds(img, flag_base) {
            spots::law_detour_places_never_overlap(img, g.gatea_site, Spot::Gate, at, Spot::Boot);
            spots::law_detour_places_never_overlap(
                img,
                g.ake + 6,
                Spot::ClassicAke,
                at,
                Spot::Boot,
            );
        }
        if let Ok((sites, _)) = mt1939_classic::classic_hrl_sites(img) {
            assert forall|i: int| 0 <= i < sites.len() implies changes::window(
                #[trigger] sites[i] as int,
            ).disjoint(changes::boot_window(img)) by {
                spots::law_detour_places_never_overlap(
                    img,
                    sites[i] as int,
                    Spot::Hrl,
                    at,
                    Spot::Boot,
                );
            }
        }
    }
}

/// Only the downgrade byte and the record's pointer can take the classic Region place.
#[verifier::rlimit(40)]
proof fn lemma_emitter_spared(
    img: Seq<u8>,
    out: Seq<u8>,
    flag_base: u32,
    record: CommandRecord,
)
    requires
        raw::addressable(img),
        changes::confined(img, out, changes::boot_window(img)),
    ensures
        emitter(out) matches Ok(at) ==> at + 10 <= out.len() && lasting::spared(
            at + 6,
            after_region(img, flag_base, record),
            after_rawread(img, record),
        ),
{
    lemma_emitter_room(out);
    spots::lemma_region_spot(
        out,
        mt1939_classic::CLASSIC_EMITTER_LO as int,
        mt1939_classic::CLASSIC_EMITTER_HI as int,
    );
    spots::lemma_classic_core_spots(img, flag_base);
    spots::lemma_classic_hrl_spots(img);
    lemma_boot_apart(img, flag_base);
    if let Ok(e) = emitter(out) {
        let at = e + 6;
        if let Ok(g) = mt1939_classic::classic_grounds(img, flag_base) {
            lemma_emitter_apart(img, out, at, g.gatea_site, Spot::Gate);
            lemma_emitter_apart(img, out, at, g.ake + 6, Spot::ClassicAke);
        }
        if let Ok((sites, _)) = mt1939_classic::classic_hrl_sites(img) {
            assert forall|i: int| changes::window(at).contains(i) implies !changes::windows(
                sites,
            ).contains(i) by {
                if changes::windows(sites).contains(i) {
                    let k = choose|k: int|
                        0 <= k < sites.len() && #[trigger] sites[k] <= i < sites[k] + 4;
                    lemma_emitter_apart(img, out, at, sites[k] as int, Spot::Hrl);
                    assert(changes::window(sites[k] as int).contains(i));
                }
            }
        }
    }
}

/// The facts of a classic Raw-read lever name the Volume ID and AKE detours.
proof fn lemma_rawread_facts(f: ClassicRawRead, facts: Seq<Fact>)
    requires
        classic_modify::classic_rawread_facts(f).len() <= facts.len(),
        forall|i: int|
            0 <= i < classic_modify::classic_rawread_facts(f).len() ==> #[trigger] facts[i]
                == classic_modify::classic_rawread_facts(f)[i],
    ensures
        audit::fact_of(facts, "gatea_gate"@) == Some(f.gatea_gate),
        audit::fact_of(facts, "gatea_stub_va"@) == Some(f.gatea_stub_va),
        audit::fact_of(facts, "ake_site"@) == Some(f.ake_site),
        audit::fact_of(facts, "ake_stub_va"@) == Some(f.ake_stub_va),
{
    let core = classic_modify::classic_rawread_facts(f);
    lasting::lemma_core_names();
    reveal_strlit("gatea_authed");
    reveal_strlit("ake_site");
    reveal_strlit("ake_stub_va");
    assert("gatea_authed"@[0] != "ake_site"@[0]);
    assert("gatea_authed"@[0] != "ake_stub_va"@[0]);
    assert(facts[0] == core[0] && facts[1] == core[1] && facts[2] == core[2] && facts[3] == core[3]
        && facts[4] == core[4]);
    landing::lemma_first_fact(facts, "gatea_gate"@, 0, facts.len());
    landing::lemma_first_fact(facts, "gatea_stub_va"@, 1, facts.len());
    landing::lemma_first_fact(facts, "ake_site"@, 3, facts.len());
    landing::lemma_first_fact(facts, "ake_stub_va"@, 4, facts.len());
}

/// The revocation detours ride along behind the first facts.
proof fn lemma_ridden(
    img: Seq<u8>,
    w: Seq<u8>,
    table: Seq<TableEntry>,
    flag_base: u32,
    core: Seq<Fact>,
)
    requires
        raw::addressable(w),
    ensures
        ({
            let (w2, facts) = classic_modify::with_classic_hrl(img, w, table, flag_base, core);
            &&& changes::confined(w, w2, changes::classic_hrl_windows(img))
            &&& core.len() <= facts.len()
            &&& forall|i: int| 0 <= i < core.len() ==> #[trigger] facts[i] == core[i]
        }),
{
    changes::lemma_classic_hrl_confined(img, w, table, flag_base);
    if let Ok((_, sites, va)) = mt1939_classic::hrl_emission_classic(img, w, table, flag_base) {
        let stub = core.push(("hrl_stub_va"@, va));
        let n = if sites.len() < 3 {
            sites.len()
        } else {
            3
        };
        lasting::lemma_hrl_facts(stub, sites, n);
        let facts = modify::with_hrl(core, sites, va);
        assert forall|i: int| 0 <= i < core.len() implies #[trigger] facts[i] == core[i] by {
            assert(stub[i] == core[i]);
        }
    }
}

/// The classic Volume ID and AKE detours last.
proof fn lemma_detours_last(
    img: Seq<u8>,
    out: Seq<u8>,
    table: Seq<TableEntry>,
    flag_base: u32,
    record: CommandRecord,
    w: Seq<u8>,
    f: ClassicRawRead,
    g: ClassicGrounds,
    done: Seq<u8>,
)
    requires
        raw::addressable(img),
        out.len() == img.len(),
        mt1939_classic::classic_grounds(img, flag_base) == Ok::<ClassicGrounds, FwError>(g),
        mt1939_classic::rawread_emission_classic(img, out, table, flag_base) == Ok::<
            (Seq<u8>, ClassicRawRead),
            FwError,
        >((w, f)),
        changes::confined(w, done, after_ake(img, record)),
    ensures
        lasting::lasts(
            done,
            BranchShape::Bl,
            g.gatea_site,
            f.gatea_stub_va,
            emit::code_of(g.gatea),
            after_rawread(img, record),
            after_gatea(img, record, g),
        ),
        lasting::lasts(
            done,
            BranchShape::Bl,
            g.ake + 6,
            f.ake_stub_va,
            emit::code_of(g.ake_ops),
            after_rawread(img, record),
            after_ake(img, record),
        ),
{
    lemma_grounds_spared(img, flag_base, record);
    let bl = BranchShape::Bl;
    let gatea = emit::code_of(g.gatea);
    let ake = emit::code_of(g.ake_ops);
    let s1 = g.gatea_site;
    let s2 = g.ake + 6;
    let (w1, v1) = emit::with_detour(out, table, bl, s1, gatea, Reason::ClassicGateRange)->Ok_0;
    let v2 = f.ake_stub_va;
    let last = after_ake(img, record);
    changes::lemma_detour_confined(out, table, bl, s1, gatea, Reason::ClassicGateRange, w1, v1);
    changes::lemma_detour_confined(w1, table, bl, s2, ake, Reason::ClassicAkeRange, w, v2);
    changes::lemma_confined_chain(w1, w, done, changes::window(s2), last);
    lasting::lemma_lasts(
        out,
        table,
        bl,
        s1,
        gatea,
        Reason::ClassicGateRange,
        w1,
        v1,
        done,
        after_rawread(img, record),
        after_gatea(img, record, g),
    );
    lasting::lemma_lasts(
        w1,
        table,
        bl,
        s2,
        ake,
        Reason::ClassicAkeRange,
        w,
        v2,
        done,
        after_rawread(img, record),
        last,
    );
}

/// The classic revocation detours last, when they were written.
proof fn lemma_checks_last(
    img: Seq<u8>,
    w: Seq<u8>,
    table: Seq<TableEntry>,
    flag_base: u32,
    record: CommandRecord,
    f: ClassicRawRead,
    l: Lever,
    done: Seq<u8>,
)
    requires
        raw::addressable(img),
        w.len() == img.len(),
        ({
            let core = classic_modify::classic_rawread_facts(f);
            let (w2, facts) = classic_modify::with_classic_hrl(img, w, table, flag_base, core);
            facts == l.facts && changes::confined(w2, done, after_rawread(img, record))
        }),
    ensures
        lasting::hrl_lasts(
            mt1939_classic::classic_hrl_sites(img),
            flag_base,
            l,
            done,
            after_rawread(img, record),
            after_rawread(img, record),
        ),
{
    let core = classic_modify::classic_rawread_facts(f);
    spots::lemma_classic_hrl_spots(img);
    match mt1939_classic::hrl_emission_classic(img, w, table, flag_base) {
        Ok((w2, named, va)) => {
            let (sites, revoke) = mt1939_classic::classic_hrl_sites(img)->Ok_0;
            facts::lemma_calls(core, named, va);
            facts::lemma_classic_call_facts(f, named, va);
            lasting::lemma_checks_each(img, sites);
            lasting::lemma_shared_lasts(
                w,
                table,
                sites,
                emit::code_of(stubs::hrl_skip_program(flag_base, revoke)),
                Checks::Classic,
                w2,
                va,
                done,
                after_rawread(img, record),
                after_rawread(img, record),
            );
        },
        Err(_) => {
            facts::lemma_calls(core, Seq::empty(), 0);
            facts::lemma_classic_call_facts(f, Seq::empty(), 0);
        },
    }
}

/// The classic Raw-read lever lasts.
#[verifier::rlimit(40)]
proof fn lemma_rawread_lasts(
    img: Seq<u8>,
    out: Seq<u8>,
    table: Seq<TableEntry>,
    flag_base: u32,
    cap: Capability,
    record: CommandRecord,
    done: Seq<u8>,
)
    requires
        raw::addressable(img),
        out.len() == img.len(),
        changes::confined(
            classic_modify::classic_rawread_lever(img, out, table, flag_base, cap).0,
            done,
            after_rawread(img, record),
        ),
    ensures
        ({
            let l = classic_modify::classic_rawread_lever(img, out, table, flag_base, cap).1;
            l.outcome is Applied ==> rawread_lasts(img, flag_base, record, done, l)
        }),
{
    reveal(rawread_lasts);
    reveal(classic_modify::classic_rawread_lever);
    if cap.bd_aacs {
        if let Ok((w, f)) = mt1939_classic::rawread_emission_classic(img, out, table, flag_base) {
            let g = mt1939_classic::classic_grounds(img, flag_base)->Ok_0;
            let core = classic_modify::classic_rawread_facts(f);
            let (w2, facts) = classic_modify::with_classic_hrl(img, w, table, flag_base, core);
            changes::lemma_classic_rawread_confined(img, out, table, flag_base);
            lemma_ridden(img, w, table, flag_base, core);
            changes::lemma_confined_chain(
                w,
                w2,
                done,
                changes::classic_hrl_windows(img),
                after_rawread(img, record),
            );
            lemma_detours_last(img, out, table, flag_base, record, w, f, g, done);
            let l = classic_modify::classic_rawread_lever(img, out, table, flag_base, cap).1;
            lemma_checks_last(img, w, table, flag_base, record, f, l, done);
            lemma_rawread_facts(f, facts);
        }
    }
}

/// The levers of a classic image one after the other, each within its own bytes.
#[verifier::rlimit(40)]
proof fn lemma_stages(
    img: Seq<u8>,
    layout: Layout,
    out: Seq<u8>,
    flag_base: u32,
    identity: Lever,
    chip: ChipInfo,
    cap: Capability,
)
    requires
        raw::addressable(out),
        out.len() == img.len(),
        changes::classic_hooked(img, layout) == Ok::<Seq<u8>, FwError>(out),
    ensures
        ({
            let table = layout.covered@;
            let r = modify::region_lever_of(
                out,
                mt1939_classic::region_emission_classic(out, table, flag_base),
                cap,
            );
            let f = classic_modify::classic_rawread_lever(img, r.0, table, flag_base, cap);
            let d = modify::de_lever(img, f.0, chip);
            &&& classic_modify::classic_levers(img, out, table, flag_base, identity, chip, cap) == (
                d.0,
                seq![identity, classic_modify::classic_speed_lever(), r.1, f.1, d.1],
            )
            &&& changes::confined(out, r.0, changes::classic_region_window(img, layout))
            &&& changes::confined(
                r.0,
                f.0,
                changes::classic_rawread_windows(img, flag_base).union(
                    changes::classic_hrl_windows(img),
                ),
            )
            &&& changes::confined(f.0, d.0, changes::de_window(img))
        }),
{
    let table = layout.covered@;
    let region = mt1939_classic::region_emission_classic(out, table, flag_base);
    let r = modify::region_lever_of(out, region, cap).0;
    let f = classic_modify::classic_rawread_lever(img, r, table, flag_base, cap).0;
    let s = changes::classic_rawread_windows(img, flag_base);
    let t = changes::classic_hrl_windows(img);
    assert(changes::confined(out, r, changes::classic_region_window(img, layout))) by {
        reveal(modify::region_lever_of);
        changes::lemma_classic_region_confined(img, layout, out, flag_base);
    }
    assert(changes::confined(r, f, s.union(t))) by {
        reveal(classic_modify::classic_rawread_lever);
        changes::lemma_classic_rawread_confined(img, r, table, flag_base);
        if let Ok((w, facts)) = mt1939_classic::rawread_emission_classic(
            img,
            r,
            table,
            flag_base,
        ) {
            let core = classic_modify::classic_rawread_facts(facts);
            lemma_ridden(img, w, table, flag_base, core);
            let w2 = classic_modify::with_classic_hrl(img, w, table, flag_base, core).0;
            changes::lemma_confined_chain(r, w, w2, s, t);
        }
    }
    changes::lemma_de_confined(img, f, chip);
    reveal(classic_modify::classic_levers);
}

/// Of five levers, those behind the Speed lever that were applied last in `done`.
pub open spec fn all_last(
    img: Seq<u8>,
    out: Seq<u8>,
    b: Base,
    done: Seq<u8>,
    levers: Seq<Lever>,
) -> bool {
    &&& levers.len() == 5
    &&& levers[1] == classic_modify::classic_speed_lever()
    &&& levers[2].outcome is Applied ==> lasting::region_lasts(
        emitter(out),
        b.flag_base,
        after_rawread(img, b.record),
        after_region(img, b.flag_base, b.record),
        done,
        levers[2],
    )
    &&& levers[3].outcome is Applied ==> rawread_lasts(
        img,
        b.flag_base,
        b.record,
        done,
        levers[3],
    )
    &&& levers[4].outcome is Applied ==> lasting::de_lasts(
        img,
        changes::window(b.record.off + scanner::HANDLER_OFF),
        done,
        levers[4],
    )
}

/// What is written behind the Region and the Raw-read levers.
proof fn lemma_suffixes(
    img: Seq<u8>,
    r: Seq<u8>,
    f: Seq<u8>,
    d: Seq<u8>,
    flag_base: u32,
    record: CommandRecord,
    pointer: u32,
)
    requires
        changes::confined(
            r,
            f,
            changes::classic_rawread_windows(img, flag_base).union(
                changes::classic_hrl_windows(img),
            ),
        ),
        changes::confined(f, d, changes::de_window(img)),
    ensures
        changes::confined(
            f,
            scanner::repointed(d, record, pointer),
            after_rawread(img, record),
        ),
        changes::confined(
            r,
            scanner::repointed(d, record, pointer),
            after_region(img, flag_base, record),
        ),
{
    let done = scanner::repointed(d, record, pointer);
    let at = changes::window(record.off + scanner::HANDLER_OFF);
    assert(changes::confined(d, done, at));
    changes::lemma_confined_chain(f, d, done, changes::de_window(img), at);
    changes::lemma_confined_chain(
        r,
        f,
        done,
        changes::classic_rawread_windows(img, flag_base).union(changes::classic_hrl_windows(img)),
        after_rawread(img, record),
    );
}

/// Levers that were applied one after the other last.
#[verifier::rlimit(40)]
proof fn lemma_each_lasts(
    img: Seq<u8>,
    out: Seq<u8>,
    table: Seq<TableEntry>,
    b: Base,
    r: (Seq<u8>, Lever),
    f: (Seq<u8>, Lever),
    d: (Seq<u8>, Lever),
    identity: Lever,
    chip: ChipInfo,
    cap: Capability,
    pointer: u32,
)
    requires
        raw::addressable(img),
        out.len() == img.len(),
        changes::confined(img, out, changes::boot_window(img)),
        r.0.len() == img.len(),
        r == modify::region_lever_of(
            out,
            mt1939_classic::region_emission_classic(out, table, b.flag_base),
            cap,
        ),
        f == classic_modify::classic_rawread_lever(img, r.0, table, b.flag_base, cap),
        d == modify::de_lever(img, f.0, chip),
        changes::confined(
            r.0,
            f.0,
            changes::classic_rawread_windows(img, b.flag_base).union(
                changes::classic_hrl_windows(img),
            ),
        ),
        changes::confined(f.0, d.0, changes::de_window(img)),
    ensures
        all_last(
            img,
            out,
            b,
            scanner::repointed(d.0, b.record, pointer),
            seq![identity, classic_modify::classic_speed_lever(), r.1, f.1, d.1],
        ),
{
    let done = scanner::repointed(d.0, b.record, pointer);
    lemma_suffixes(img, r.0, f.0, d.0, b.flag_base, b.record, pointer);
    lemma_emitter_spared(img, out, b.flag_base, b.record);
    lasting::lemma_region_lasts(
        emitter(out),
        out,
        table,
        b.flag_base,
        Reason::ClassicRegionRange,
        cap,
        done,
        after_rawread(img, b.record),
        after_region(img, b.flag_base, b.record),
    );
    lemma_rawread_lasts(img, r.0, table, b.flag_base, cap, b.record, done);
    lasting::lemma_de_lasts(img, f.0, chip, b.record, pointer);
}

/// The levers of a classic image last.
#[verifier::rlimit(40)]
proof fn lemma_levers_last(
    img: Seq<u8>,
    layout: Layout,
    out: Seq<u8>,
    b: Base,
    identity: Lever,
    chip: ChipInfo,
    cap: Capability,
    pointer: u32,
)
    requires
        raw::addressable(img),
        out.len() == img.len(),
        changes::classic_hooked(img, layout) == Ok::<Seq<u8>, FwError>(out),
        changes::confined(img, out, changes::boot_window(img)),
    ensures
        ({
            let (w, levers) = classic_modify::classic_levers(
                img,
                out,
                layout.covered@,
                b.flag_base,
                identity,
                chip,
                cap,
            );
            all_last(img, out, b, scanner::repointed(w, b.record, pointer), levers)
        }),
{
    lemma_stages(img, layout, out, b.flag_base, identity, chip, cap);
    let table = layout.covered@;
    let region = mt1939_classic::region_emission_classic(out, table, b.flag_base);
    let r = modify::region_lever_of(out, region, cap);
    let f = classic_modify::classic_rawread_lever(img, r.0, table, b.flag_base, cap);
    let d = modify::de_lever(img, f.0, chip);
    lemma_each_lasts(img, out, table, b, r, f, d, identity, chip, cap, pointer);
}

/// What a lever of a classic image is reported to have applied is in the image that is
/// handed out: every call that the report names goes to its stub, and the stubs and the
/// downgrade byte are there. Excepted are a call that lies over the downgrade byte or the
/// record's pointer, bytes of a stub that a later call took, and bytes written that
/// look like erased flash, which a later stub may be put over.
#[verifier::rlimit(40)]
pub proof fn law_classic_applied_levers_last(
    img: Seq<u8>,
    layout: Layout,
    chip: ChipInfo,
    cap: Capability,
    m: Modified,
)
    requires
        raw::addressable(img),
        !modify::carries_magic(img),
        classic_modify::modify_classic(img, layout, chip, cap) == Ok::<Modified, FwError>(m),
    ensures
        base::classic_base(img, layout) matches Ok(b) && changes::classic_hooked(
            img,
            layout,
        ) matches Ok(out) && all_last(img, out, b, m.image, m.levers),
{
    let b = base::classic_base(img, layout)->Ok_0;
    let (out, _, _) = mt1939_classic::classic_boot(img, b, layout.covered@)->Ok_0;
    changes::lemma_classic_base_confined(img, layout, b);
    lemma_levers_last(
        img,
        layout,
        out,
        b,
        classic_modify::classic_identity_lever(b),
        chip,
        cap,
        create::entry_pointer(b.handler_va),
    );
}

} // verus!
