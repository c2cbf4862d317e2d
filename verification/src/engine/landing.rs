//! What a passed audit says of an image, and what of it every patched image has.
use crate::abi;
use crate::engine::audit;
use crate::engine::audit::Check;
use crate::engine::base;
use crate::engine::base::{Base, Layout};
use crate::engine::changes;
use crate::engine::classic_modify;
use crate::engine::create;
use crate::engine::create::Created;
use crate::engine::emit;
use crate::engine::lever::{Fact, Lever, LeverId, Modified};
use crate::engine::marks;
use crate::engine::modify;
use crate::engine::mt1939_classic;
use crate::engine::scanner;
use crate::engine::space;
use crate::engine::sram;
use crate::engine::vid;
use crate::error::{FwError, Reason};
use crate::family::{Capability, ChipInfo};
use crate::raw;
use crate::thumb;
use crate::thumb::{BranchShape, CommandRecord};
use vstd::prelude::*;

verus! {

/// Every check passed.
pub open spec fn all_passed(checks: Seq<Check>) -> bool {
    forall|i: int| 0 <= i < checks.len() ==> (#[trigger] checks[i]).ok
}

/// The `bl` at `site` goes to `stub`, which was written.
pub open spec fn calls(img: Seq<u8>, site: u32, stub: u32) -> bool {
    &&& thumb::branch_target(BranchShape::Bl, img, site as int) == Some(stub)
    &&& audit::stub_written(img, stub)
}

/// The branch at `site`, of either kind, goes to `stub`, which was written.
pub open spec fn branches(img: Seq<u8>, site: u32, stub: u32) -> bool {
    &&& audit::branches_to(BranchShape::BWide, img, site, stub) || audit::branches_to(
        BranchShape::Bl,
        img,
        site,
        stub,
    )
    &&& audit::stub_written(img, stub)
}

/// A lever that names a site and a stub has the call between them.
pub open spec fn wired(
    img: Seq<u8>,
    l: Lever,
    site_key: Seq<char>,
    delta: u32,
    stub_key: Seq<char>,
) -> bool {
    match (audit::fact_of(l.facts, site_key), audit::fact_of(l.facts, stub_key)) {
        (Some(site), Some(stub)) => calls(img, audit::moved(site, delta), stub),
        _ => true,
    }
}

/// The Identity lever landed: the record points at the handler, which was written with the
/// identity text and, where there is one, with the boot function's address.
pub open spec fn identity_landed(img: Seq<u8>, l: Lever) -> bool {
    match (audit::fact_of(l.facts, "handler_va"@), audit::fact_of(l.facts, "record_off"@)) {
        (Some(handler), Some(record)) => {
            &&& record + 8 <= img.len()
            &&& raw::u32_at(img, record + 4) == audit::tagged(handler)
            &&& modify::carries_magic(img)
            &&& audit::stub_written(img, handler)
            &&& audit::fact_of(l.facts, "boot_function_entry"@) matches Some(entry) ==> entry != 0
                ==> audit::handler_holds(img, handler, audit::tagged(entry))
        },
        _ => false,
    }
}

/// The Raw-read lever landed: every detour that it names is in place, and it names one of
/// the three that every image has; a deny block that it leaves alone is as it was.
pub open spec fn rawread_landed(original: Seq<u8>, img: Seq<u8>, l: Lever) -> bool {
    &&& audit::core_checks(img, l).len() > 0
    &&& match (audit::fact_of(l.facts, "ake_site"@), audit::fact_of(l.facts, "ake_stub_va"@)) {
        (Some(site), Some(stub)) => branches(img, site, stub),
        _ => true,
    }
    &&& wired(img, l, "gatea_gate"@, 0, "gatea_stub_va"@)
    &&& wired(img, l, "deny_site"@, 0, "deny_stub_va"@)
    &&& wired(img, l, "uhd_site"@, 0, "uhd_stub_va"@)
    &&& wired(img, l, "hrl_site"@, 0, "hrl_stub_va"@)
    &&& wired(img, l, "hrl_site2"@, 0, "hrl_stub_va"@)
    &&& wired(img, l, "hrl_site3"@, 0, "hrl_stub_va"@)
    &&& wired(img, l, "bd_site"@, 0, "bd_stub_va"@)
    &&& wired(img, l, "auth_cell_site"@, 0, "auth_cell_stub_va"@)
    &&& audit::fact_of(l.facts, "deny"@) matches Some(at) ==> audit::same_block(original, img, at)
    &&& audit::fact_of(l.facts, "scratch"@) matches Some(v) ==> v == 0 || vid::RUNTIME_LO <= v
        < vid::RUNTIME_HI
}

/// The lever landed in the image.
pub open spec fn landed(original: Seq<u8>, img: Seq<u8>, l: Lever) -> bool {
    match l.id {
        LeverId::Identity => identity_landed(img, l),
        LeverId::Speed => wired(img, l, "speed_gate"@, 4, "speed_stub_va"@),
        LeverId::RegionFree => wired(img, l, "region_emitter"@, 6, "region_stub_va"@),
        LeverId::RawRead => rawread_landed(original, img, l),
        LeverId::DowngradeEnable => audit::fact_of(l.facts, "de_off"@) matches Some(at) ==> at
            < img.len() && img[at as int] == create::DE_BYTE,
    }
}

/// An encoding is determined by its displacement.
proof fn lemma_canonical(h1: u16, h2: u16)
    requires
        h1 & 0xF800 == 0xF000,
        h2 & 0xD000 == 0xD000,
    ensures
        thumb::disp_ok(thumb::hw_disp(h1, h2)),
        h1 == thumb::branch_hw1(thumb::hw_disp(h1, h2)),
        h2 == thumb::branch_hw2(thumb::hw_disp(h1, h2), 0xD000),
{
    assert(h1 & 0xF800 == 0xF000 && h2 & 0xD000 == 0xD000 ==> thumb::disp_ok(
        thumb::hw_disp(h1, h2),
    ) && h1 == thumb::branch_hw1(thumb::hw_disp(h1, h2)) && h2 == thumb::branch_hw2(
        thumb::hw_disp(h1, h2),
        0xD000,
    )) by (bit_vector);
}

/// The check of a call passes exactly when the call is in place.
proof fn lemma_call_check(lever: Seq<char>, what: Seq<char>, img: Seq<u8>, site: u32, stub: u32)
    ensures
        audit::call_check(lever, what, img, site, stub).ok <==> calls(img, site, stub),
{
    let bl = thumb::branch_bytes(BranchShape::Bl, site, stub);
    if site + 4 <= img.len() {
        if thumb::disp_ok(thumb::branch_disp(site, stub)) && raw::occurs_at(img, bl, site as int) {
            thumb::law_installed_branch_decodes(BranchShape::Bl, img, site as int, stub);
        }
        let h1 = raw::hw_at(img, site as int);
        let h2 = raw::hw_at(img, site + 2);
        if thumb::branch_target(BranchShape::Bl, img, site as int) == Some(stub) {
            lemma_canonical(h1, h2);
            let d = thumb::hw_disp(h1, h2);
            assert(thumb::branch_disp(site, stub) == d) by {
                lemma_displaced(site, d);
            }
            assert(raw::occurs_at(img, bl, site as int));
        }
    }
}

/// The displacement of a branch is what it adds.
proof fn lemma_displaced(site: u32, d: u32)
    ensures
        thumb::branch_disp(site, (site + 4 + d) as u32) == d,
{
    assert(((site + 4 + d) as u32 - (site + 4)) as u32 == d) by (bit_vector);
}

/// Checks of two parts.
proof fn lemma_both(a: Seq<Check>, b: Seq<Check>)
    ensures
        all_passed(a + b) <==> all_passed(a) && all_passed(b),
{
    if all_passed(a + b) {
        assert forall|i: int| 0 <= i < a.len() implies (#[trigger] a[i]).ok by {
            assert((a + b)[i].ok);
        }
        assert forall|i: int| 0 <= i < b.len() implies (#[trigger] b[i]).ok by {
            assert((a + b)[a.len() + i].ok);
        }
    }
}

/// One check.
proof fn lemma_one(c: Check)
    ensures
        all_passed(seq![c]) <==> c.ok,
{
    assert(seq![c][0] == c);
}

/// The check of a placed call passes exactly when the lever is wired there.
proof fn lemma_placed(
    img: Seq<u8>,
    l: Lever,
    what: Seq<char>,
    site_key: Seq<char>,
    delta: u32,
    stub_key: Seq<char>,
)
    ensures
        all_passed(audit::placed_call(img, l, what, site_key, delta, stub_key)) <==> wired(
            img,
            l,
            site_key,
            delta,
            stub_key,
        ),
{
    reveal(audit::placed_call);
    match (audit::fact_of(l.facts, site_key), audit::fact_of(l.facts, stub_key)) {
        (Some(site), Some(stub)) => {
            let at = audit::moved(site, delta);
            lemma_call_check(l.id.label_text(), what, img, at, stub);
            lemma_one(audit::call_check(l.id.label_text(), what, img, at, stub));
        },
        _ => {},
    }
}

/// The checks of Identity pass exactly when it landed.
proof fn lemma_identity(img: Seq<u8>, l: Lever)
    ensures
        all_passed(audit::identity_checks(img, l)) <==> identity_landed(img, l),
{
    let name = l.id.label_text();
    let checks = audit::identity_checks(img, l);
    match (audit::fact_of(l.facts, "handler_va"@), audit::fact_of(l.facts, "record_off"@)) {
        (Some(handler), Some(record)) => {
            let a = audit::record_check(name, img, record, handler);
            let b = audit::handler_check(name, img, handler);
            assert(checks[0] == a);
            assert(checks[1] == b);
            match audit::fact_of(l.facts, "boot_function_entry"@) {
                Some(entry) => if entry != 0 {
                    let c = audit::reboot_check(name, img, handler, entry);
                    assert(checks[2] == c);
                    assert(checks.len() == 3);
                },
                None => {},
            }
        },
        _ => {
            assert(!checks[0].ok);
        },
    }
}

/// The checks of the detours that Raw-read has to have.
proof fn lemma_core(img: Seq<u8>, l: Lever)
    ensures
        all_passed(audit::core_checks(img, l)) <==> {
            &&& match (
                audit::fact_of(l.facts, "ake_site"@),
                audit::fact_of(l.facts, "ake_stub_va"@),
            ) {
                (Some(site), Some(stub)) => branches(img, site, stub),
                _ => true,
            }
            &&& wired(img, l, "gatea_gate"@, 0, "gatea_stub_va"@)
            &&& wired(img, l, "deny_site"@, 0, "deny_stub_va"@)
        },
{
    reveal(audit::core_checks);
    let ake = audit::ake_checks(img, l);
    let gate = audit::placed_call(
        img,
        l,
        "Gate-A detour bl"@,
        "gatea_gate"@,
        0,
        "gatea_stub_va"@,
    );
    let deny = audit::placed_call(
        img,
        l,
        "deny-reset detour bl"@,
        "deny_site"@,
        0,
        "deny_stub_va"@,
    );
    lemma_placed(img, l, "Gate-A detour bl"@, "gatea_gate"@, 0, "gatea_stub_va"@);
    lemma_placed(img, l, "deny-reset detour bl"@, "deny_site"@, 0, "deny_stub_va"@);
    lemma_both(ake, gate);
    lemma_both(ake + gate, deny);
    match (audit::fact_of(l.facts, "ake_site"@), audit::fact_of(l.facts, "ake_stub_va"@)) {
        (Some(site), Some(stub)) => {
            lemma_one(audit::ake_check(l.id.label_text(), img, site, stub));
        },
        _ => {},
    }
}

/// The checks of the detours that Raw-read may have.
proof fn lemma_media(img: Seq<u8>, l: Lever)
    ensures
        all_passed(audit::media_checks(img, l)) <==> {
            &&& wired(img, l, "uhd_site"@, 0, "uhd_stub_va"@)
            &&& wired(img, l, "hrl_site"@, 0, "hrl_stub_va"@)
            &&& wired(img, l, "hrl_site2"@, 0, "hrl_stub_va"@)
            &&& wired(img, l, "hrl_site3"@, 0, "hrl_stub_va"@)
            &&& wired(img, l, "bd_site"@, 0, "bd_stub_va"@)
            &&& wired(img, l, "auth_cell_site"@, 0, "auth_cell_stub_va"@)
        },
{
    reveal(audit::media_checks);
    let hrl = "HRL-skip detour bl"@;
    let a = audit::placed_call(img, l, "UHD detour bl"@, "uhd_site"@, 0, "uhd_stub_va"@);
    let b = audit::placed_call(img, l, hrl, "hrl_site"@, 0, "hrl_stub_va"@);
    let c = audit::placed_call(img, l, hrl, "hrl_site2"@, 0, "hrl_stub_va"@);
    let d = audit::placed_call(img, l, hrl, "hrl_site3"@, 0, "hrl_stub_va"@);
    let e = audit::placed_call(img, l, "BD-refuse detour bl"@, "bd_site"@, 0, "bd_stub_va"@);
    let f = audit::placed_call(
        img,
        l,
        "auth-cell widen detour bl"@,
        "auth_cell_site"@,
        0,
        "auth_cell_stub_va"@,
    );
    lemma_placed(img, l, "UHD detour bl"@, "uhd_site"@, 0, "uhd_stub_va"@);
    lemma_placed(img, l, hrl, "hrl_site"@, 0, "hrl_stub_va"@);
    lemma_placed(img, l, hrl, "hrl_site2"@, 0, "hrl_stub_va"@);
    lemma_placed(img, l, hrl, "hrl_site3"@, 0, "hrl_stub_va"@);
    lemma_placed(img, l, "BD-refuse detour bl"@, "bd_site"@, 0, "bd_stub_va"@);
    lemma_placed(
        img,
        l,
        "auth-cell widen detour bl"@,
        "auth_cell_site"@,
        0,
        "auth_cell_stub_va"@,
    );
    lemma_both(a, b);
    lemma_both(a + b, c);
    lemma_both(a + b + c, d);
    lemma_both(a + b + c + d, e);
    lemma_both(a + b + c + d + e, f);
}

/// The checks of Raw-read pass exactly when it landed.
proof fn lemma_rawread(original: Seq<u8>, img: Seq<u8>, l: Lever)
    ensures
        all_passed(audit::rawread_checks(original, img, l)) <==> rawread_landed(original, img, l),
{
    let core = audit::core_checks(img, l);
    let media = audit::media_checks(img, l);
    let deny = audit::deny_checks(original, img, l);
    let scratch = audit::scratch_checks(l);
    let last = if core.len() == 0 {
        seq![audit::unfounded(l)]
    } else {
        Seq::empty()
    };
    lemma_core(img, l);
    lemma_media(img, l);
    lemma_both(core, media);
    lemma_both(core + media, deny);
    lemma_both(core + media + deny, scratch);
    lemma_both(core + media + deny + scratch, last);
    lemma_one(audit::unfounded(l));
    reveal(audit::deny_checks);
    reveal(audit::scratch_checks);
    if deny.len() > 0 {
        assert(deny =~= seq![deny[0]]);
        lemma_one(deny[0]);
    }
    if scratch.len() > 0 {
        assert(scratch =~= seq![scratch[0]]);
        lemma_one(scratch[0]);
    }
}

/// The checks of a lever pass exactly when it was not applied, or landed.
proof fn lemma_lever(original: Seq<u8>, img: Seq<u8>, l: Lever)
    ensures
        all_passed(audit::lever_checks(original, img, l)) <==> (l.outcome is Applied ==> landed(
            original,
            img,
            l,
        )),
{
    reveal(audit::lever_checks);
    if l.outcome is Applied {
        match l.id {
            LeverId::Identity => lemma_identity(img, l),
            LeverId::Speed => lemma_placed(
                img,
                l,
                "speed detour bl"@,
                "speed_gate"@,
                4,
                "speed_stub_va"@,
            ),
            LeverId::RegionFree => lemma_placed(
                img,
                l,
                "region detour bl"@,
                "region_emitter"@,
                6,
                "region_stub_va"@,
            ),
            LeverId::RawRead => lemma_rawread(original, img, l),
            LeverId::DowngradeEnable => {
                let checks = audit::de_checks(img, l);
                if checks.len() > 0 {
                    assert(checks =~= seq![checks[0]]);
                    lemma_one(checks[0]);
                }
            },
        }
    }
}

/// The checks of the first `n` levers.
proof fn lemma_levers(original: Seq<u8>, img: Seq<u8>, levers: Seq<Lever>, n: nat)
    requires
        n <= levers.len(),
    ensures
        all_passed(audit::levers_checks(original, img, levers, n)) <==> forall|i: int|
            0 <= i < n && (#[trigger] levers[i]).outcome is Applied ==> landed(
                original,
                img,
                levers[i],
            ),
    decreases n,
{
    if n > 0 {
        let m = (n - 1) as nat;
        lemma_levers(original, img, levers, m);
        lemma_lever(original, img, levers[n - 1]);
        lemma_both(
            audit::levers_checks(original, img, levers, m),
            audit::lever_checks(original, img, levers[n - 1]),
        );
        let passed = all_passed(audit::levers_checks(original, img, levers, n));
        if passed {
            assert forall|i: int| 0 <= i < n && (#[trigger] levers[i]).outcome is Applied implies landed(
                original,
                img,
                levers[i],
            ) by {}
        }
    }
}

/// An audit passes exactly when the image verifies and every applied lever landed in it:
/// its branches are where the report has them and go to code that was written, the record
/// points at the handler, and the downgrade byte is set.
pub proof fn law_audit_passes_exactly_when_the_levers_landed(
    original: Seq<u8>,
    report: Modified,
    integrity: bool,
)
    ensures
        all_passed(audit::audit(original, report, integrity)) <==> integrity && forall|i: int|
            0 <= i < report.levers.len() && (#[trigger] report.levers[i]).outcome is Applied
                ==> landed(original, report.image, report.levers[i]),
{
    let n = report.levers.len();
    let checks = audit::levers_checks(original, report.image, report.levers, n);
    let last = Check {
        lever: "integrity"@,
        what: "CMAC tables verify"@,
        ok: integrity,
        detail: "AES-CMAC over active regions"@,
    };
    lemma_levers(original, report.image, report.levers, n);
    lemma_one(last);
    lemma_both(checks, seq![last]);
    assert(checks.push(last) =~= checks + seq![last]);
}

/// The four bytes of a branch are none of them blank, and no later change touches them.
pub open spec fn fixed_at(img: Seq<u8>, touched: Set<int>, site: u32) -> bool {
    forall|i: int| site <= i < site + 4 ==> #[trigger] img[i] != 0xFF && !touched.contains(i)
}

/// The stub has a byte among its first sixteen that is not blank and that no later change
/// touches.
pub open spec fn rooted_at(img: Seq<u8>, touched: Set<int>, stub: u32) -> bool {
    exists|i: int| stub <= i < stub + 16 && #[trigger] img[i] != 0xFF && !touched.contains(i)
}

/// A detour that landed stays: a change that keeps to erased flash and to bytes that are
/// neither the branch's nor all of the stub's leaves the branch going to the stub, and the
/// stub written. So what the levers put in place one after the other is still there in the
/// image that they leave, unless one of them takes the bytes of another.
pub proof fn law_landed_detour_stays(
    before: Seq<u8>,
    after: Seq<u8>,
    touched: Set<int>,
    site: u32,
    stub: u32,
)
    requires
        changes::confined(before, after, touched),
        site + 4 <= before.len(),
        fixed_at(before, touched, site),
        rooted_at(before, touched, stub),
    ensures
        calls(before, site, stub) ==> calls(after, site, stub),
        branches(before, site, stub) ==> branches(after, site, stub),
{
    let at = site as int;
    assert(before[at] != 0xFF && before[at + 1] != 0xFF && before[at + 2] != 0xFF && before[at + 3]
        != 0xFF);
    assert(after[at] == before[at]);
    assert(after[at + 1] == before[at + 1]);
    assert(after[at + 2] == before[at + 2]);
    assert(after[at + 3] == before[at + 3]);
    if audit::stub_written(before, stub) {
        let i = choose|i: int|
            stub <= i < stub + 16 && #[trigger] before[i] != 0xFF && !touched.contains(i);
        assert(after[i] == before[i]);
    }
}

/// A pointer that was written over a record reads back.
proof fn lemma_repointed(img: Seq<u8>, rec: CommandRecord, va: u32)
    requires
        rec.off + 8 <= img.len(),
        va % 4 == 0,
    ensures
        raw::u32_at(
            scanner::repointed(img, rec, create::entry_pointer(va)),
            rec.off + 4,
        ) == audit::tagged(va),
{
    let p = create::entry_pointer(va);
    let done = scanner::repointed(img, rec, p);
    assert(done[rec.off + 4] == raw::le_bytes(p)[0]);
    assert(done[rec.off + 5] == raw::le_bytes(p)[1]);
    assert(done[rec.off + 6] == raw::le_bytes(p)[2]);
    assert(done[rec.off + 7] == raw::le_bytes(p)[3]);
}

/// A handler is placed at a multiple of four.
proof fn lemma_aligned(img: Seq<u8>, layout: Layout, b: Base)
    requires
        raw::addressable(img),
        changes::placed(img, layout, b),
    ensures
        b.handler_va % 4 == 0,
{
    space::law_free_space_is_blank_and_covered(
        img,
        layout.covered@,
        (b.handler.len() + emit::SPARE) as int,
        b.handler_va,
    );
}

/// The record that was taken over points at the handler that was built.
pub proof fn law_created_record_points_at_the_handler(img: Seq<u8>, layout: Layout, c: Created)
    requires
        raw::addressable(img),
        create::create_modern(img, layout) == Ok::<Created, FwError>(c)
            || mt1939_classic::create_classic(img, layout) == Ok::<Created, FwError>(c),
    ensures
        c.record.off + 8 <= c.image.len(),
        raw::u32_at(c.image, c.record.off + 4) == audit::tagged(c.handler_va),
{
    if create::create_modern(img, layout) == Ok::<Created, FwError>(c) {
        let (b, pair) = base::modern_base(img, layout)->Ok_0;
        let table = layout.covered@;
        let (out, site, va) = emit::boot_emission(img, b.image, table, b.flag_base, pair)->Ok_0;
        changes::lemma_modern_base_confined(img, layout, b, pair, out, site, va);
        changes::lemma_features_confined(img, out, layout);
        lemma_aligned(img, layout, b);
        marks::lemma_record_among_solid(
            img,
            abi::READ_BUFFER_OPCODE,
            layout.live_record_windows@,
            0,
            FwError::Refused(Reason::RecordWindow { opcode: abi::READ_BUFFER_OPCODE }),
        );
        let f = create::modern_features(img, out, layout, sram::FLAG_TABLE_BASE).2;
        lemma_repointed(create::with_de(img, f.0), b.record, b.handler_va);
    } else {
        let b = base::classic_base(img, layout)->Ok_0;
        changes::lemma_classic_base_confined(img, layout, b);
        changes::lemma_classic_body_confined(img, layout, b);
        lemma_aligned(img, layout, b);
        marks::lemma_record_solid(
            img,
            abi::READ_BUFFER_OPCODE,
            base::CLASSIC_TABLE_LO as int,
            base::CLASSIC_TABLE_HI as int,
        );
        let f = mt1939_classic::classic_body(img, b, layout.covered@).1;
        lemma_repointed(create::with_de(img, f.image), b.record, b.handler_va);
    }
}

/// The record that an Identity lever names points at the handler that it names.
pub open spec fn record_landed(img: Seq<u8>, l: Lever) -> bool {
    match (audit::fact_of(l.facts, "handler_va"@), audit::fact_of(l.facts, "record_off"@)) {
        (Some(handler), Some(record)) => {
            &&& record + 8 <= img.len()
            &&& raw::u32_at(img, record + 4) == audit::tagged(handler)
        },
        _ => false,
    }
}

/// The first two facts of an Identity lever are its handler and its record.
pub proof fn lemma_identity_facts(facts: Seq<Fact>, handler: u32, record: u32)
    requires
        facts.len() >= 2,
        facts[0] == ("handler_va"@, handler),
        facts[1] == ("record_off"@, record),
    ensures
        audit::fact_of(facts, "handler_va"@) == Some(handler),
        audit::fact_of(facts, "record_off"@) == Some(record),
{
    reveal_strlit("handler_va");
    reveal_strlit("record_off");
    assert("handler_va"@[0] != "record_off"@[0]);
    lemma_first_fact(facts, "handler_va"@, 0, facts.len());
    lemma_first_fact(facts, "record_off"@, 1, facts.len());
}

/// The first fact with a name is the one that is found.
pub proof fn lemma_first_fact(facts: Seq<Fact>, key: Seq<char>, at: int, n: nat)
    requires
        0 <= at < n <= facts.len(),
        facts[at].0 == key,
        forall|i: int| 0 <= i < at ==> (#[trigger] facts[i]).0 != key,
    ensures
        audit::fact_among(facts, key, n) == Some(facts[at].1),
    decreases n,
{
    if n - 1 > at {
        lemma_first_fact(facts, key, at, (n - 1) as nat);
    } else {
        lemma_no_fact(facts, key, at as nat);
    }
}

/// A name that no fact has is not found.
proof fn lemma_no_fact(facts: Seq<Fact>, key: Seq<char>, n: nat)
    requires
        n <= facts.len(),
        forall|i: int| 0 <= i < n ==> (#[trigger] facts[i]).0 != key,
    ensures
        audit::fact_among(facts, key, n) is None,
    decreases n,
{
    if n > 0 {
        lemma_no_fact(facts, key, (n - 1) as nat);
    }
}

/// A lever that begins with a handler and a record, over an image whose record was
/// repointed at that handler.
proof fn lemma_record_done(w: Seq<u8>, b: Base, l: Lever)
    requires
        raw::addressable(w),
        b.record.off + 8 <= w.len(),
        b.handler_va % 4 == 0,
        l.facts.len() >= 2,
        l.facts[0] == ("handler_va"@, b.handler_va),
        l.facts[1] == ("record_off"@, b.record.off as u32),
    ensures
        record_landed(scanner::repointed(w, b.record, create::entry_pointer(b.handler_va)), l),
{
    lemma_repointed(w, b.record, b.handler_va);
    lemma_identity_facts(l.facts, b.handler_va, b.record.off as u32);
}

/// The levers of a modern image begin with Identity.
proof fn lemma_modern_first(
    img: Seq<u8>,
    out: Seq<u8>,
    layout: Layout,
    identity: Lever,
    chip: ChipInfo,
    cap: Capability,
)
    ensures
        ({
            let levers = modify::modern_levers(
                img,
                out,
                layout,
                sram::FLAG_TABLE_BASE,
                identity,
                chip,
                cap,
            ).1;
            levers.len() == 5 && levers[0] == identity
        }),
{
    reveal(modify::modern_levers);
}

/// The levers of a classic image begin with Identity.
proof fn lemma_classic_first(
    img: Seq<u8>,
    out: Seq<u8>,
    layout: Layout,
    flag_base: u32,
    identity: Lever,
    chip: ChipInfo,
    cap: Capability,
)
    ensures
        ({
            let levers = classic_modify::classic_levers(
                img,
                out,
                layout.covered@,
                flag_base,
                identity,
                chip,
                cap,
            ).1;
            levers.len() == 5 && levers[0] == identity
        }),
{
    reveal(classic_modify::classic_levers);
}

/// The record of a modern image fits in it, and its handler is at a multiple of four.
pub proof fn lemma_modern_ground(
    img: Seq<u8>,
    layout: Layout,
    b: Base,
    pair: (usize, u32),
    out: Seq<u8>,
    site: u32,
    va: u32,
)
    requires
        raw::addressable(img),
        base::modern_base(img, layout) == Ok::<(Base, (usize, u32)), FwError>((b, pair)),
        emit::boot_emission(img, b.image, layout.covered@, b.flag_base, pair) == Ok::<
            (Seq<u8>, u32, u32),
            FwError,
        >((out, site, va)),
    ensures
        b.handler_va % 4 == 0,
        b.record.off + 8 <= img.len(),
        b.flag_base == sram::FLAG_TABLE_BASE,
        out.len() == img.len(),
        scanner::live_record(img, abi::READ_BUFFER_OPCODE, layout.live_record_windows@) == Ok::<
            CommandRecord,
            FwError,
        >(b.record),
{
    changes::lemma_modern_base_confined(img, layout, b, pair, out, site, va);
    lemma_aligned(img, layout, b);
    marks::lemma_record_among_solid(
        img,
        abi::READ_BUFFER_OPCODE,
        layout.live_record_windows@,
        0,
        FwError::Refused(Reason::RecordWindow { opcode: abi::READ_BUFFER_OPCODE }),
    );
}

/// The levers of a modern image keep its length.
proof fn lemma_modern_kept(
    img: Seq<u8>,
    out: Seq<u8>,
    layout: Layout,
    identity: Lever,
    chip: ChipInfo,
    cap: Capability,
)
    requires
        raw::addressable(out),
        out.len() == img.len(),
    ensures
        modify::modern_levers(
            img,
            out,
            layout,
            sram::FLAG_TABLE_BASE,
            identity,
            chip,
            cap,
        ).0.len() == img.len(),
{
    changes::lemma_levers_confined(img, out, layout, identity, chip, cap);
}

/// The record of a modern image.
proof fn lemma_modern_record(
    img: Seq<u8>,
    layout: Layout,
    chip: ChipInfo,
    cap: Capability,
    m: Modified,
)
    requires
        raw::addressable(img),
        !modify::carries_magic(img),
        modify::modify_modern(img, layout, chip, cap) == Ok::<Modified, FwError>(m),
    ensures
        m.levers.len() == 5,
        m.levers[0].id is Identity,
        m.levers[0].outcome is Applied,
        record_landed(m.image, m.levers[0]),
{
    let table = layout.covered@;
    let (b, pair) = base::modern_base(img, layout)->Ok_0;
    let (out, site, va) = emit::boot_emission(img, b.image, table, b.flag_base, pair)->Ok_0;
    lemma_modern_ground(img, layout, b, pair, out, site, va);
    let identity = modify::identity_lever(b, site, va);
    let w = modify::modern_levers(
        img,
        out,
        layout,
        sram::FLAG_TABLE_BASE,
        identity,
        chip,
        cap,
    ).0;
    lemma_modern_kept(img, out, layout, identity, chip, cap);
    lemma_modern_first(img, out, layout, identity, chip, cap);
    lemma_record_done(w, b, identity);
}

/// The record of a classic image fits in it, and its handler is at a multiple of four.
pub proof fn lemma_classic_ground(img: Seq<u8>, layout: Layout, b: Base)
    requires
        raw::addressable(img),
        base::classic_base(img, layout) == Ok::<Base, FwError>(b),
    ensures
        b.handler_va % 4 == 0,
        b.record.off + 8 <= img.len(),
{
    changes::lemma_classic_base_confined(img, layout, b);
    lemma_aligned(img, layout, b);
    marks::lemma_record_solid(
        img,
        abi::READ_BUFFER_OPCODE,
        base::CLASSIC_TABLE_LO as int,
        base::CLASSIC_TABLE_HI as int,
    );
}

/// The levers of a classic image keep its length.
proof fn lemma_classic_kept(
    img: Seq<u8>,
    layout: Layout,
    b: Base,
    out: Seq<u8>,
    site: u32,
    va: u32,
    identity: Lever,
    chip: ChipInfo,
    cap: Capability,
)
    requires
        raw::addressable(img),
        base::classic_base(img, layout) == Ok::<Base, FwError>(b),
        mt1939_classic::classic_boot(img, b, layout.covered@) == Ok::<
            (Seq<u8>, u32, u32),
            FwError,
        >((out, site, va)),
    ensures
        classic_modify::classic_levers(
            img,
            out,
            layout.covered@,
            b.flag_base,
            identity,
            chip,
            cap,
        ).0.len() == img.len(),
{
    changes::lemma_classic_base_confined(img, layout, b);
    changes::lemma_classic_levers_confined(img, layout, out, b.flag_base, identity, chip, cap);
}

/// The record of a classic image.
proof fn lemma_classic_record(
    img: Seq<u8>,
    layout: Layout,
    chip: ChipInfo,
    cap: Capability,
    m: Modified,
)
    requires
        raw::addressable(img),
        !modify::carries_magic(img),
        classic_modify::modify_classic(img, layout, chip, cap) == Ok::<Modified, FwError>(m),
    ensures
        m.levers.len() == 5,
        m.levers[0].id is Identity,
        m.levers[0].outcome is Applied,
        record_landed(m.image, m.levers[0]),
{
    let table = layout.covered@;
    let b = base::classic_base(img, layout)->Ok_0;
    let (out, site, va) = mt1939_classic::classic_boot(img, b, table)->Ok_0;
    let identity = classic_modify::classic_identity_lever(b);
    lemma_classic_ground(img, layout, b);
    let w = classic_modify::classic_levers(
        img,
        out,
        table,
        b.flag_base,
        identity,
        chip,
        cap,
    ).0;
    lemma_classic_kept(img, layout, b, out, site, va, identity, chip, cap);
    lemma_classic_first(img, out, layout, b.flag_base, identity, chip, cap);
    lemma_record_done(w, b, identity);
}

/// An image that was modified has its record point at the handler that its report names.
pub proof fn law_modified_record_points_at_the_handler(
    img: Seq<u8>,
    layout: Layout,
    chip: ChipInfo,
    cap: Capability,
    m: Modified,
)
    requires
        raw::addressable(img),
        !modify::carries_magic(img),
        modify::modify_modern(img, layout, chip, cap) == Ok::<Modified, FwError>(m)
            || classic_modify::modify_classic(img, layout, chip, cap) == Ok::<Modified, FwError>(m),
    ensures
        m.levers.len() == 5,
        m.levers[0].id is Identity,
        m.levers[0].outcome is Applied,
        record_landed(m.image, m.levers[0]),
{
    if modify::modify_modern(img, layout, chip, cap) == Ok::<Modified, FwError>(m) {
        lemma_modern_record(img, layout, chip, cap, m);
    } else {
        lemma_classic_record(img, layout, chip, cap, m);
    }
}

} // verus!
