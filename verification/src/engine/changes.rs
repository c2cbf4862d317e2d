//! What patching leaves alone: an image changes in erased flash and at the places that
//! were found for it, nowhere else.
use crate::abi;
use crate::engine::base;
use crate::engine::base::{Base, Layout};
use crate::engine::boot;
use crate::engine::classic_modify;
use crate::engine::code;
use crate::engine::create;
use crate::engine::create::Created;
use crate::engine::detours;
use crate::engine::emit;
use crate::engine::emit::Checks;
use crate::engine::flash;
use crate::engine::gates;
use crate::engine::handler;
use crate::engine::lever::{Lever, Modified};
use crate::engine::modify;
use crate::engine::mt1939_classic;
use crate::engine::rawread;
use crate::engine::rawread::Grounds;
use crate::engine::scanner;
use crate::engine::space;
use crate::engine::space::TableEntry;
use crate::engine::sram;
use crate::engine::stubs;
use crate::error::{FwError, Reason, Step};
use crate::family::{Capability, ChipInfo};
use crate::program::AsmOp;
use crate::raw;
use crate::thumb::{BranchShape, CommandRecord};
use vstd::prelude::*;

verus! {

/// The four bytes that a branch, or a pointer, at `site` takes.
pub open spec fn window(site: int) -> Set<int> {
    Set::new(|i: int| site <= i < site + 4)
}

/// The bytes that branches at all of `sites` take.
pub open spec fn windows(sites: Seq<usize>) -> Set<int> {
    Set::new(|i: int| exists|k: int| 0 <= k < sites.len() && #[trigger] sites[k] <= i < sites[k] + 4)
}

/// The bytes of a detour that is planned.
pub open spec fn plan_window(plan: Result<(usize, Seq<AsmOp>), FwError>) -> Set<int> {
    match plan {
        Ok((site, _)) => window(site as int),
        Err(_) => Set::empty(),
    }
}

/// `after` is `before` but for erased flash and the bytes of `touched`.
pub open spec fn confined(before: Seq<u8>, after: Seq<u8>, touched: Set<int>) -> bool {
    &&& after.len() == before.len()
    &&& forall|i: int|
        0 <= i < before.len() && before[i] != 0xFF && !touched.contains(i) ==> #[trigger] after[i]
            == before[i]
}

/// The bytes that the boot hook takes over.
pub open spec fn boot_window(img: Seq<u8>) -> Set<int> {
    match boot::boot_init_pair(img) {
        Ok(pair) => window(pair.0 as int),
        Err(_) => Set::empty(),
    }
}

/// The bytes that the Speed detour takes over.
pub open spec fn speed_window(img: Seq<u8>) -> Set<int> {
    match gates::speed_gate(img) {
        Ok((gate, _)) => window(gate + 4),
        Err(_) => Set::empty(),
    }
}

/// The bytes that the Region detour takes over.
pub open spec fn region_window(img: Seq<u8>) -> Set<int> {
    match gates::region_emitter(img) {
        Ok(at) => window(at + 6),
        Err(_) => Set::empty(),
    }
}

/// The bytes that the AKE, Volume ID and deny detours take over.
pub open spec fn core_windows(g: Grounds) -> Set<int> {
    window(g.ake.site as int).union(window(g.gatea_site)).union(window(g.deny_site))
}

/// The bytes that the revocation detours take over.
pub open spec fn hrl_windows(img: Seq<u8>) -> Set<int> {
    match gates::hrl_skip_sites(img) {
        Ok((sites, _)) => windows(sites),
        Err(_) => Set::empty(),
    }
}

/// The bytes that the Raw-read lever takes over.
pub open spec fn rawread_windows(img: Seq<u8>, flag_base: u32) -> Set<int> {
    match rawread::grounds(img, flag_base) {
        Ok(g) => core_windows(g).union(plan_window(detours::uhd_plan(img, flag_base))).union(
            hrl_windows(img),
        ).union(plan_window(detours::bd_plan(img, flag_base))),
        Err(_) => Set::empty(),
    }
}

/// The downgrade-enable byte.
pub open spec fn de_window(img: Seq<u8>) -> Set<int> {
    match gates::de_byte(img) {
        Ok(at) => Set::empty().insert(at as int),
        Err(_) => Set::empty(),
    }
}

/// The pointer of the dispatch record.
pub open spec fn record_window(img: Seq<u8>, layout: Layout) -> Set<int> {
    match scanner::live_record(img, abi::READ_BUFFER_OPCODE, layout.live_record_windows@) {
        Ok(record) => window(record.off + scanner::HANDLER_OFF),
        Err(_) => Set::empty(),
    }
}

/// The bytes that the features of a modern image take over, and the downgrade byte.
pub open spec fn feature_windows(img: Seq<u8>) -> Set<int> {
    speed_window(img).union(region_window(img)).union(
        rawread_windows(img, sram::FLAG_TABLE_BASE),
    ).union(de_window(img))
}

/// Every byte of a modern image that is not erased flash and may be changed: the
/// branches of the boot hook and the features, the downgrade byte, and the record's
/// pointer.
pub open spec fn modern_windows(img: Seq<u8>, layout: Layout) -> Set<int> {
    boot_window(img).union(feature_windows(img)).union(record_window(img, layout))
}

/// Changes one after the other.
pub proof fn lemma_confined_chain(
    a: Seq<u8>,
    b: Seq<u8>,
    c: Seq<u8>,
    s: Set<int>,
    t: Set<int>,
)
    requires
        confined(a, b, s),
        confined(b, c, t),
    ensures
        confined(a, c, s.union(t)),
{
    assert forall|i: int|
        0 <= i < a.len() && a[i] != 0xFF && !s.union(t).contains(i) implies #[trigger] c[i]
        == a[i] by {
        assert(b[i] == a[i]);
    }
}

/// A detour changes erased flash and the branch at its site.
pub proof fn lemma_detour_confined(
    out: Seq<u8>,
    table: Seq<TableEntry>,
    shape: BranchShape,
    site: int,
    stub: Seq<u8>,
    out_of_range: Reason,
    w: Seq<u8>,
    va: u32,
)
    requires
        raw::addressable(out),
        emit::with_detour(out, table, shape, site, stub, out_of_range) == Ok::<
            (Seq<u8>, u32),
            FwError,
        >((w, va)),
    ensures
        confined(out, w, window(site)),
{
    space::law_free_space_is_blank_and_covered(out, table, (stub.len() + emit::SPARE) as int, va);
    assert forall|i: int|
        0 <= i < out.len() && out[i] != 0xFF && !window(site).contains(i) implies #[trigger] w[i]
        == out[i] by {}
}

/// Calls of one stub change the bytes at their sites.
proof fn lemma_calls_confined(out: Seq<u8>, sites: Seq<usize>, va: u32, n: nat)
    requires
        n <= sites.len(),
    ensures
        emit::with_calls(out, sites, va, n).len() == out.len(),
        forall|i: int|
            0 <= i < out.len() && !windows(sites).contains(i) ==> #[trigger] emit::with_calls(
                out,
                sites,
                va,
                n,
            )[i] == out[i],
    decreases n,
{
    if n > 0 {
        lemma_calls_confined(out, sites, va, (n - 1) as nat);
        assert forall|i: int| 0 <= i < out.len() && !windows(sites).contains(i) implies #[trigger] emit::with_calls(
            out,
            sites,
            va,
            n,
        )[i] == out[i] by {
            assert(!(sites[n - 1] <= i < sites[n - 1] + 4));
            assert(emit::with_calls(out, sites, va, (n - 1) as nat)[i] == out[i]);
        }
    }
}

/// A shared detour changes erased flash and the branches at its sites.
pub proof fn lemma_shared_detour_confined(
    out: Seq<u8>,
    table: Seq<TableEntry>,
    sites: Seq<usize>,
    stub: Seq<u8>,
    checks: Checks,
    w: Seq<u8>,
    va: u32,
)
    requires
        raw::addressable(out),
        emit::with_shared_detour(out, table, sites, stub, checks) == Ok::<
            (Seq<u8>, u32),
            FwError,
        >((w, va)),
    ensures
        confined(out, w, windows(sites)),
{
    space::law_free_space_is_blank_and_covered(out, table, (stub.len() + emit::SPARE) as int, va);
    let placed = raw::patched(out, va as int, stub);
    lemma_calls_confined(placed, sites, va, sites.len());
    assert forall|i: int|
        0 <= i < out.len() && out[i] != 0xFF && !windows(sites).contains(i) implies #[trigger] w[i]
        == out[i] by {
        assert(placed[i] == out[i]);
    }
}

/// The handler of `b` is in the roomiest free space of `img`, and its image is `img` with
/// the handler written there.
pub open spec fn placed(img: Seq<u8>, layout: Layout, b: Base) -> bool {
    &&& space::free_at(img, layout.covered@, b.handler.len() + emit::SPARE) == Ok::<u32, FwError>(
        b.handler_va,
    )
    &&& b.image == raw::patched(img, b.handler_va as int, b.handler)
}

/// The handler changes erased flash only.
proof fn lemma_handler_confined(
    img: Seq<u8>,
    layout: Layout,
    record: CommandRecord,
    flag_base: u32,
    boot_entry: u32,
    step: Step,
    b: Base,
)
    requires
        raw::addressable(img),
        base::with_handler(img, layout, record, flag_base, boot_entry, step) == Ok::<Base, FwError>(b),
    ensures
        confined(img, b.image, Set::empty()),
{
    space::law_free_space_is_blank_and_covered(
        img,
        layout.covered@,
        (b.handler.len() + emit::SPARE) as int,
        b.handler_va,
    );
}

/// The boot hook changes erased flash and the call that it takes over.
pub proof fn lemma_boot_confined(
    img: Seq<u8>,
    out: Seq<u8>,
    table: Seq<TableEntry>,
    flag_base: u32,
    pair: (usize, u32),
    w: Seq<u8>,
    site: u32,
    va: u32,
)
    requires
        raw::addressable(out),
        emit::boot_emission(img, out, table, flag_base, pair) == Ok::<
            (Seq<u8>, u32, u32),
            FwError,
        >((w, site, va)),
    ensures
        confined(out, w, window(pair.0 as int)),
{
    let home = flash::nv_block(img)->Ok_0;
    lemma_detour_confined(
        out,
        table,
        BranchShape::Bl,
        pair.0 as int,
        emit::code_of(handler::boot_program(flag_base, pair.1, home)),
        Reason::BootRange,
        w,
        va,
    );
}

/// The Speed detour, taken or missed, changes erased flash and the test that it takes
/// over.
pub proof fn lemma_speed_confined(
    img: Seq<u8>,
    out: Seq<u8>,
    table: Seq<TableEntry>,
    flag_base: u32,
)
    requires
        raw::addressable(out),
    ensures
        emit::speed_emission(img, out, table, flag_base) matches Ok((w, _, _)) ==> confined(
            out,
            w,
            speed_window(img),
        ),
{
    if let Ok((w, _, va)) = emit::speed_emission(img, out, table, flag_base) {
        let (gate, reg) = gates::speed_gate(img)->Ok_0;
        let h = raw::hw_at(img, gate + 6);
        lemma_detour_confined(
            out,
            table,
            BranchShape::Bl,
            gate + 4,
            emit::code_of(
                stubs::speed_program(
                    flag_base,
                    (gate + 8) as u32,
                    code::address(code::cond_target(gate + 6, h)),
                    reg,
                ),
            ),
            Reason::SpeedRange,
            w,
            va,
        );
    }
}

/// A Region detour changes erased flash and the store that it takes over.
pub proof fn lemma_region_confined(
    emitter: Result<u32, FwError>,
    out: Seq<u8>,
    table: Seq<TableEntry>,
    flag_base: u32,
    out_of_range: Reason,
)
    requires
        raw::addressable(out),
    ensures
        emit::region_emission_at(emitter, out, table, flag_base, out_of_range) matches Ok(
            (w, at, _),
        ) ==> emitter == Ok::<u32, FwError>(at) && confined(out, w, window(at + 6)),
{
    if let Ok((w, at, va)) = emit::region_emission_at(
        emitter,
        out,
        table,
        flag_base,
        out_of_range,
    ) {
        lemma_detour_confined(
            out,
            table,
            BranchShape::Bl,
            at + 6,
            emit::code_of(stubs::region_program(flag_base)),
            out_of_range,
            w,
            va,
        );
    }
}

/// An optional detour changes erased flash and the bytes that it takes over.
pub proof fn lemma_optional_confined(
    plan: Result<(usize, Seq<AsmOp>), FwError>,
    out: Seq<u8>,
    table: Seq<TableEntry>,
    out_of_range: Reason,
)
    requires
        raw::addressable(out),
    ensures
        rawread::optional_emission(plan, out, table, out_of_range) matches Ok((w, _, _))
            ==> confined(out, w, plan_window(plan)),
{
    if let Ok((w, _, va)) = rawread::optional_emission(plan, out, table, out_of_range) {
        if let Ok((site, ops)) = plan {
            lemma_detour_confined(
                out,
                table,
                BranchShape::Bl,
                site as int,
                emit::code_of(ops),
                out_of_range,
                w,
                va,
            );
        }
    }
}

/// The revocation detours change erased flash and the checks that they take over.
pub proof fn lemma_hrl_confined(img: Seq<u8>, out: Seq<u8>, table: Seq<TableEntry>, flag_base: u32)
    requires
        raw::addressable(out),
    ensures
        rawread::hrl_emission(img, out, table, flag_base) matches Ok((w, _, _)) ==> confined(
            out,
            w,
            hrl_windows(img),
        ),
{
    if let Ok((w, _, va)) = rawread::hrl_emission(img, out, table, flag_base) {
        if let Ok((sites, revoke)) = gates::hrl_skip_sites(img) {
            lemma_shared_detour_confined(
                out,
                table,
                sites,
                emit::code_of(stubs::hrl_skip_program(flag_base, revoke)),
                Checks::Modern,
                w,
                va,
            );
        }
    }
}

/// The AKE, Volume ID and deny detours change erased flash and the bytes that they
/// take over.
pub proof fn lemma_core_confined(g: Grounds, out: Seq<u8>, table: Seq<TableEntry>)
    requires
        raw::addressable(out),
    ensures
        rawread::core_emission(g, out, table) matches Ok((w, _, _, _)) ==> confined(
            out,
            w,
            core_windows(g),
        ),
{
    if let Ok((w, ake_va, gatea_va, deny_va)) = rawread::core_emission(g, out, table) {
        let ake = emit::code_of(g.ake.ops);
        let gatea = emit::code_of(g.gatea);
        let deny = emit::code_of(stubs::deny_reset_program(g.reset));
        let s1 = g.ake.site as int;
        let (w1, _) = emit::with_detour(out, table, g.ake.shape, s1, ake, Reason::AkeInstall)->Ok_0;
        lemma_detour_confined(out, table, g.ake.shape, s1, ake, Reason::AkeInstall, w1, ake_va);
        let (w2, _) = emit::with_detour(
            w1,
            table,
            BranchShape::Bl,
            g.gatea_site,
            gatea,
            Reason::GateRange,
        )->Ok_0;
        lemma_detour_confined(
            w1,
            table,
            BranchShape::Bl,
            g.gatea_site,
            gatea,
            Reason::GateRange,
            w2,
            gatea_va,
        );
        lemma_detour_confined(
            w2,
            table,
            BranchShape::Bl,
            g.deny_site,
            deny,
            Reason::DenyRange,
            w,
            deny_va,
        );
        lemma_confined_chain(out, w1, w2, window(s1), window(g.gatea_site));
        lemma_confined_chain(
            out,
            w2,
            w,
            window(s1).union(window(g.gatea_site)),
            window(g.deny_site),
        );
    }
}

/// The Raw-read lever, taken or missed, changes erased flash and the bytes that its
/// detours take over.
pub proof fn lemma_rawread_confined(
    img: Seq<u8>,
    out: Seq<u8>,
    table: Seq<TableEntry>,
    flag_base: u32,
)
    requires
        raw::addressable(out),
    ensures
        rawread::rawread_emission(img, out, table, flag_base) matches Ok((w, _)) ==> confined(
            out,
            w,
            rawread_windows(img, flag_base),
        ),
{
    if let Ok((w, f)) = rawread::rawread_emission(img, out, table, flag_base) {
        let g = rawread::grounds(img, flag_base)->Ok_0;
        let uhd = detours::uhd_plan(img, flag_base);
        let bd = detours::bd_plan(img, flag_base);
        lemma_core_confined(g, out, table);
        let (w3, _, _, _) = rawread::core_emission(g, out, table)->Ok_0;
        lemma_optional_confined(uhd, w3, table, Reason::UhdRange);
        let (w4, _, _) = rawread::optional_emission(uhd, w3, table, Reason::UhdRange)->Ok_0;
        lemma_hrl_confined(img, w4, table, flag_base);
        let (w5, _, _) = rawread::hrl_emission(img, w4, table, flag_base)->Ok_0;
        lemma_optional_confined(bd, w5, table, Reason::BdRange);
        lemma_confined_chain(out, w3, w4, core_windows(g), plan_window(uhd));
        let t = core_windows(g).union(plan_window(uhd));
        lemma_confined_chain(out, w4, w5, t, hrl_windows(img));
        lemma_confined_chain(out, w5, w, t.union(hrl_windows(img)), plan_window(bd));
    }
}

/// More room to change is no less confined.
pub proof fn lemma_confined_within(a: Seq<u8>, b: Seq<u8>, s: Set<int>, t: Set<int>)
    requires
        confined(a, b, s),
        s.subset_of(t),
    ensures
        confined(a, b, t),
{
    assert forall|i: int| 0 <= i < a.len() && a[i] != 0xFF && !t.contains(i) implies #[trigger] b[i]
        == a[i] by {
        assert(!s.contains(i));
    }
}

/// The downgrade byte changes itself only.
pub proof fn lemma_de_confined(img: Seq<u8>, out: Seq<u8>, chip: ChipInfo)
    requires
        out.len() == img.len(),
    ensures
        confined(out, create::with_de(img, out), de_window(img)),
        confined(out, modify::de_lever(img, out, chip).0, de_window(img)),
{
    reveal(modify::de_lever);
}

/// The handler and the boot hook of a modern image change erased flash and the call
/// that the hook takes over.
pub proof fn lemma_modern_base_confined(
    img: Seq<u8>,
    layout: Layout,
    b: Base,
    pair: (usize, u32),
    out: Seq<u8>,
    site: u32,
    va: u32,
)
    requires
        raw::addressable(img),
        base::modern_base(img, layout) == Ok::<(Base, (usize, u32)), FwError>((b, pair)),
        emit::boot_emission(img, b.image, layout.covered@, b.flag_base, pair) == Ok::<
            (Seq<u8>, u32, u32),
            FwError,
        >((out, site, va)),
    ensures
        confined(img, out, boot_window(img)),
        confined(b.image, out, boot_window(img)),
        placed(img, layout, b),
        b.flag_base == sram::FLAG_TABLE_BASE,
        scanner::live_record(img, abi::READ_BUFFER_OPCODE, layout.live_record_windows@) == Ok::<
            CommandRecord,
            FwError,
        >(b.record),
{
    lemma_handler_confined(
        img,
        layout,
        b.record,
        sram::FLAG_TABLE_BASE,
        base::boot_function(pair.0),
        Step::Handler,
        b,
    );
    lemma_boot_confined(img, b.image, layout.covered@, b.flag_base, pair, out, site, va);
    lemma_confined_chain(img, b.image, out, Set::empty(), window(pair.0 as int));
    lemma_confined_within(
        img,
        out,
        Set::empty().union(window(pair.0 as int)),
        boot_window(img),
    );
}

/// Four changes one after the other.
proof fn lemma_confined_steps(
    img: Seq<u8>,
    out: Seq<u8>,
    s: Seq<u8>,
    r: Seq<u8>,
    f: Seq<u8>,
    d: Seq<u8>,
)
    requires
        confined(out, s, speed_window(img)),
        confined(s, r, region_window(img)),
        confined(r, f, rawread_windows(img, sram::FLAG_TABLE_BASE)),
        confined(f, d, de_window(img)),
    ensures
        confined(out, d, feature_windows(img)),
{
    let t2 = speed_window(img).union(region_window(img));
    let t3 = t2.union(rawread_windows(img, sram::FLAG_TABLE_BASE));
    lemma_confined_chain(out, s, r, speed_window(img), region_window(img));
    lemma_confined_chain(out, r, f, t2, rawread_windows(img, sram::FLAG_TABLE_BASE));
    lemma_confined_chain(out, f, d, t3, de_window(img));
}

/// The features of a modern image, taken or missed, change erased flash and the bytes
/// that they take over.
pub proof fn lemma_features_confined(img: Seq<u8>, out: Seq<u8>, layout: Layout)
    requires
        raw::addressable(out),
        out.len() == img.len(),
    ensures
        confined(
            out,
            create::with_de(
                img,
                create::modern_features(img, out, layout, sram::FLAG_TABLE_BASE).2.0,
            ),
            feature_windows(img),
        ),
        create::modern_features(img, out, layout, sram::FLAG_TABLE_BASE).2.0.len() == out.len(),
{
    reveal(create::modern_features);
    let table = layout.covered@;
    let (s, r, f) = create::modern_features(img, out, layout, sram::FLAG_TABLE_BASE);
    lemma_speed_confined(img, out, table, sram::FLAG_TABLE_BASE);
    lemma_region_confined(
        gates::region_emitter(img),
        s.0,
        table,
        sram::FLAG_TABLE_BASE,
        Reason::RegionRange,
    );
    lemma_rawread_confined(img, r.0, table, sram::FLAG_TABLE_BASE);
    lemma_de_confined(img, f.0, arbitrary());
    lemma_confined_steps(img, out, s.0, r.0, f.0, create::with_de(img, f.0));
}

/// The levers of a modern image, however they end, change erased flash and the bytes
/// that they take over.
pub proof fn lemma_levers_confined(
    img: Seq<u8>,
    out: Seq<u8>,
    layout: Layout,
    identity: Lever,
    chip: ChipInfo,
    cap: Capability,
)
    requires
        raw::addressable(out),
        out.len() == img.len(),
    ensures
        confined(
            out,
            modify::modern_levers(
                img,
                out,
                layout,
                sram::FLAG_TABLE_BASE,
                identity,
                chip,
                cap,
            ).0,
            feature_windows(img),
        ),
{
    reveal(modify::modern_levers);
    let table = layout.covered@;
    let s = modify::speed_lever(img, out, table, sram::FLAG_TABLE_BASE, cap).0;
    let r = modify::region_lever(img, s, table, sram::FLAG_TABLE_BASE, cap).0;
    let f = modify::rawread_lever(img, r, table, sram::FLAG_TABLE_BASE, cap).0;
    assert(confined(out, s, speed_window(img))) by {
        reveal(modify::speed_lever);
        lemma_speed_confined(img, out, table, sram::FLAG_TABLE_BASE);
    }
    assert(confined(s, r, region_window(img))) by {
        reveal(modify::region_lever_of);
        lemma_region_confined(
            gates::region_emitter(img),
            s,
            table,
            sram::FLAG_TABLE_BASE,
            Reason::RegionRange,
        );
    }
    assert(confined(r, f, rawread_windows(img, sram::FLAG_TABLE_BASE))) by {
        reveal(modify::rawread_lever);
        lemma_rawread_confined(img, r, table, sram::FLAG_TABLE_BASE);
    }
    lemma_de_confined(img, f, chip);
    lemma_confined_steps(img, out, s, r, f, modify::de_lever(img, f, chip).0);
}

/// A base with its features, and the record pointed at the handler.
pub proof fn lemma_repoint_confined(
    img: Seq<u8>,
    out: Seq<u8>,
    d: Seq<u8>,
    record: CommandRecord,
    pointer: u32,
    s: Set<int>,
    t: Set<int>,
)
    requires
        confined(img, out, s),
        confined(out, d, t),
    ensures
        confined(
            img,
            scanner::repointed(d, record, pointer),
            s.union(t).union(window(record.off + scanner::HANDLER_OFF)),
        ),
{
    let at = window(record.off + scanner::HANDLER_OFF);
    lemma_confined_chain(img, out, d, s, t);
    assert(confined(d, scanner::repointed(d, record, pointer), at));
    lemma_confined_chain(img, d, scanner::repointed(d, record, pointer), s.union(t), at);
}

/// Building firmware for a modern image changes erased flash, the branches and the
/// pointer that it takes over and the downgrade byte; every other byte stays as it was,
/// and so does the image's length.
pub proof fn law_create_changes_only_its_places(img: Seq<u8>, layout: Layout, c: Created)
    requires
        raw::addressable(img),
        create::create_modern(img, layout) == Ok::<Created, FwError>(c),
    ensures
        confined(img, c.image, modern_windows(img, layout)),
{
    let (b, pair) = base::modern_base(img, layout)->Ok_0;
    let table = layout.covered@;
    let (out, site, va) = emit::boot_emission(img, b.image, table, b.flag_base, pair)->Ok_0;
    lemma_modern_base_confined(img, layout, b, pair, out, site, va);
    lemma_features_confined(img, out, layout);
    let f = create::modern_features(img, out, layout, sram::FLAG_TABLE_BASE).2;
    lemma_repoint_confined(
        img,
        out,
        create::with_de(img, f.0),
        b.record,
        create::entry_pointer(b.handler_va),
        boot_window(img),
        feature_windows(img),
    );
}

/// Modifying a modern image changes erased flash, the branches and the pointer that it
/// takes over and the downgrade byte; every other byte stays as it was, and so does the
/// image's length.
pub proof fn law_modify_changes_only_its_places(
    img: Seq<u8>,
    layout: Layout,
    chip: ChipInfo,
    cap: Capability,
    m: Modified,
)
    requires
        raw::addressable(img),
        modify::modify_modern(img, layout, chip, cap) == Ok::<Modified, FwError>(m),
    ensures
        confined(img, m.image, modern_windows(img, layout)),
{
    if !modify::carries_magic(img) {
        let (b, pair) = base::modern_base(img, layout)->Ok_0;
        let table = layout.covered@;
        let (out, site, va) = emit::boot_emission(img, b.image, table, b.flag_base, pair)->Ok_0;
        lemma_modern_base_confined(img, layout, b, pair, out, site, va);
        let identity = modify::identity_lever(b, site, va);
        lemma_levers_confined(img, out, layout, identity, chip, cap);
        let (w, _) = modify::modern_levers(
            img,
            out,
            layout,
            sram::FLAG_TABLE_BASE,
            identity,
            chip,
            cap,
        );
        lemma_repoint_confined(
            img,
            out,
            w,
            b.record,
            create::entry_pointer(b.handler_va),
            boot_window(img),
            feature_windows(img),
        );
    }
}

/// A classic image with its handler and its boot hook in place.
pub open spec fn classic_hooked(img: Seq<u8>, layout: Layout) -> Result<Seq<u8>, FwError> {
    match base::classic_base(img, layout) {
        Err(e) => Err(e),
        Ok(b) => match mt1939_classic::classic_boot(img, b, layout.covered@) {
            Err(e) => Err(e),
            Ok((out, _, _)) => Ok(out),
        },
    }
}

/// The bytes that the classic Region detour takes over; its emitter is looked for once
/// the boot hook is in place.
pub open spec fn classic_region_window(img: Seq<u8>, layout: Layout) -> Set<int> {
    match classic_hooked(img, layout) {
        Ok(out) => match gates::region_emitter_in(
            out,
            mt1939_classic::CLASSIC_EMITTER_LO as int,
            mt1939_classic::CLASSIC_EMITTER_HI as int,
        ) {
            Ok(at) => window(at + 6),
            Err(_) => Set::empty(),
        },
        Err(_) => Set::empty(),
    }
}

/// The bytes that the classic Raw-read detours take over.
pub open spec fn classic_rawread_windows(img: Seq<u8>, flag_base: u32) -> Set<int> {
    match mt1939_classic::classic_grounds(img, flag_base) {
        Ok(g) => window(g.gatea_site).union(window(g.ake + 6)),
        Err(_) => Set::empty(),
    }
}

/// The bytes that the classic revocation detours take over.
pub open spec fn classic_hrl_windows(img: Seq<u8>) -> Set<int> {
    match mt1939_classic::classic_hrl_sites(img) {
        Ok((sites, _)) => windows(sites),
        Err(_) => Set::empty(),
    }
}

/// The bytes that the features of a classic image take over, and the downgrade byte.
pub open spec fn classic_feature_windows(img: Seq<u8>, layout: Layout, flag_base: u32) -> Set<int> {
    classic_region_window(img, layout).union(classic_rawread_windows(img, flag_base)).union(
        plan_window(detours::uhd_plan(img, flag_base)),
    ).union(plan_window(detours::bd_plan(img, flag_base))).union(classic_hrl_windows(img)).union(
        de_window(img),
    )
}

/// Every byte of a classic image with base `b` that is not erased flash and may be
/// changed.
pub open spec fn classic_windows(img: Seq<u8>, layout: Layout, b: Base) -> Set<int> {
    boot_window(img).union(classic_feature_windows(img, layout, b.flag_base)).union(
        window(b.record.off + scanner::HANDLER_OFF),
    )
}

/// The handler and the boot hook of a classic image.
pub proof fn lemma_classic_base_confined(img: Seq<u8>, layout: Layout, b: Base)
    requires
        raw::addressable(img),
        base::classic_base(img, layout) == Ok::<Base, FwError>(b),
    ensures
        confined(img, b.image, boot_window(img)),
        placed(img, layout, b),
        mt1939_classic::classic_boot(img, b, layout.covered@) matches Ok((out, _, _)) ==> confined(
            img,
            out,
            boot_window(img),
        ) && confined(b.image, out, boot_window(img)),
{
    lemma_handler_confined(img, layout, b.record, b.flag_base, 0, Step::ClassicHandler, b);
    lemma_confined_within(img, b.image, Set::empty(), boot_window(img));
    if let Ok((out, site, va)) = mt1939_classic::classic_boot(img, b, layout.covered@) {
        let pair = boot::boot_init_pair(img)->Ok_0;
        lemma_boot_confined(img, b.image, layout.covered@, b.flag_base, pair, out, site, va);
        lemma_confined_chain(img, b.image, out, boot_window(img), window(pair.0 as int));
        lemma_confined_within(
            img,
            out,
            boot_window(img).union(window(pair.0 as int)),
            boot_window(img),
        );
    }
}

/// The classic Raw-read detours, taken or missed.
pub proof fn lemma_classic_rawread_confined(
    img: Seq<u8>,
    out: Seq<u8>,
    table: Seq<TableEntry>,
    flag_base: u32,
)
    requires
        raw::addressable(out),
    ensures
        mt1939_classic::rawread_emission_classic(img, out, table, flag_base) matches Ok((w, _))
            ==> confined(out, w, classic_rawread_windows(img, flag_base)),
{
    if let Ok((w, f)) = mt1939_classic::rawread_emission_classic(img, out, table, flag_base) {
        let g = mt1939_classic::classic_grounds(img, flag_base)->Ok_0;
        let gatea = emit::code_of(g.gatea);
        let ake = emit::code_of(g.ake_ops);
        let (w1, _) = emit::with_detour(
            out,
            table,
            BranchShape::Bl,
            g.gatea_site,
            gatea,
            Reason::ClassicGateRange,
        )->Ok_0;
        lemma_detour_confined(
            out,
            table,
            BranchShape::Bl,
            g.gatea_site,
            gatea,
            Reason::ClassicGateRange,
            w1,
            f.gatea_stub_va,
        );
        lemma_detour_confined(
            w1,
            table,
            BranchShape::Bl,
            g.ake + 6,
            ake,
            Reason::ClassicAkeRange,
            w,
            f.ake_stub_va,
        );
        lemma_confined_chain(out, w1, w, window(g.gatea_site), window(g.ake + 6));
    }
}

/// The classic revocation detours, taken or missed.
pub proof fn lemma_classic_hrl_confined(
    img: Seq<u8>,
    out: Seq<u8>,
    table: Seq<TableEntry>,
    flag_base: u32,
)
    requires
        raw::addressable(out),
    ensures
        mt1939_classic::hrl_emission_classic(img, out, table, flag_base) matches Ok((w, _, _))
            ==> confined(out, w, classic_hrl_windows(img)),
{
    if let Ok((w, _, va)) = mt1939_classic::hrl_emission_classic(img, out, table, flag_base) {
        let (sites, revoke) = mt1939_classic::classic_hrl_sites(img)->Ok_0;
        lemma_shared_detour_confined(
            out,
            table,
            sites,
            emit::code_of(stubs::hrl_skip_program(flag_base, revoke)),
            Checks::Classic,
            w,
            va,
        );
    }
}

/// The classic Region detour, taken or missed.
pub proof fn lemma_classic_region_confined(
    img: Seq<u8>,
    layout: Layout,
    out: Seq<u8>,
    flag_base: u32,
)
    requires
        raw::addressable(out),
        classic_hooked(img, layout) == Ok::<Seq<u8>, FwError>(out),
    ensures
        mt1939_classic::region_emission_classic(out, layout.covered@, flag_base) matches Ok(
            (w, _, _),
        ) ==> confined(out, w, classic_region_window(img, layout)),
{
    lemma_region_confined(
        gates::region_emitter_in(
            out,
            mt1939_classic::CLASSIC_EMITTER_LO as int,
            mt1939_classic::CLASSIC_EMITTER_HI as int,
        ),
        out,
        layout.covered@,
        flag_base,
        Reason::ClassicRegionRange,
    );
}

/// The features of a classic image, taken or missed.
pub proof fn lemma_classic_features_confined(
    img: Seq<u8>,
    layout: Layout,
    out: Seq<u8>,
    flag_base: u32,
)
    requires
        raw::addressable(out),
        out.len() == img.len(),
        classic_hooked(img, layout) == Ok::<Seq<u8>, FwError>(out),
    ensures
        confined(
            out,
            create::with_de(
                img,
                mt1939_classic::classic_features(img, out, layout.covered@, flag_base).image,
            ),
            classic_feature_windows(img, layout, flag_base),
        ),
        mt1939_classic::classic_features(img, out, layout.covered@, flag_base).image.len()
            == out.len(),
{
    reveal(mt1939_classic::classic_features);
    let table = layout.covered@;
    let uhd = detours::uhd_plan(img, flag_base);
    let bd = detours::bd_plan(img, flag_base);
    let r = create::or_unwired(
        out,
        mt1939_classic::region_emission_classic(out, table, flag_base),
    ).0;
    lemma_classic_region_confined(img, layout, out, flag_base);
    let w2 = match mt1939_classic::rawread_emission_classic(img, r, table, flag_base) {
        Ok((w, _)) => w,
        Err(_) => r,
    };
    lemma_classic_rawread_confined(img, r, table, flag_base);
    let u = mt1939_classic::tried(uhd, w2, table, Reason::UhdRange).0;
    lemma_optional_confined(uhd, w2, table, Reason::UhdRange);
    let b = mt1939_classic::tried(bd, u, table, Reason::BdRange).0;
    lemma_optional_confined(bd, u, table, Reason::BdRange);
    let w5 = mt1939_classic::classic_features(img, out, table, flag_base).image;
    lemma_classic_hrl_confined(img, b, table, flag_base);
    let d = create::with_de(img, w5);
    lemma_de_confined(img, w5, arbitrary());
    let t1 = classic_region_window(img, layout);
    let t2 = t1.union(classic_rawread_windows(img, flag_base));
    let t3 = t2.union(plan_window(uhd));
    let t4 = t3.union(plan_window(bd));
    let t5 = t4.union(classic_hrl_windows(img));
    lemma_confined_chain(out, r, w2, t1, classic_rawread_windows(img, flag_base));
    lemma_confined_chain(out, w2, u, t2, plan_window(uhd));
    lemma_confined_chain(out, u, b, t3, plan_window(bd));
    lemma_confined_chain(out, b, w5, t4, classic_hrl_windows(img));
    lemma_confined_chain(out, w5, d, t5, de_window(img));
}

/// The levers of a classic image, however they end.
pub proof fn lemma_classic_levers_confined(
    img: Seq<u8>,
    layout: Layout,
    out: Seq<u8>,
    flag_base: u32,
    identity: Lever,
    chip: ChipInfo,
    cap: Capability,
)
    requires
        raw::addressable(out),
        out.len() == img.len(),
        classic_hooked(img, layout) == Ok::<Seq<u8>, FwError>(out),
    ensures
        confined(
            out,
            classic_modify::classic_levers(
                img,
                out,
                layout.covered@,
                flag_base,
                identity,
                chip,
                cap,
            ).0,
            classic_feature_windows(img, layout, flag_base),
        ),
{
    reveal(classic_modify::classic_levers);
    let table = layout.covered@;
    let region = mt1939_classic::region_emission_classic(out, table, flag_base);
    let r = modify::region_lever_of(out, region, cap).0;
    let f = classic_modify::classic_rawread_lever(img, r, table, flag_base, cap).0;
    let t1 = classic_region_window(img, layout);
    let raw_t = classic_rawread_windows(img, flag_base).union(classic_hrl_windows(img));
    assert(confined(out, r, t1)) by {
        reveal(modify::region_lever_of);
        lemma_classic_region_confined(img, layout, out, flag_base);
    }
    assert(confined(r, f, raw_t)) by {
        reveal(classic_modify::classic_rawread_lever);
        lemma_classic_rawread_confined(img, r, table, flag_base);
        if let Ok((w, _)) = mt1939_classic::rawread_emission_classic(img, r, table, flag_base) {
            lemma_classic_hrl_confined(img, w, table, flag_base);
            let facts = Seq::empty();
            let w2 = classic_modify::with_classic_hrl(img, w, table, flag_base, facts).0;
            lemma_confined_chain(
                r,
                w,
                w2,
                classic_rawread_windows(img, flag_base),
                classic_hrl_windows(img),
            );
        }
    }
    lemma_de_confined(img, f, chip);
    let d = modify::de_lever(img, f, chip).0;
    lemma_confined_chain(out, r, f, t1, raw_t);
    lemma_confined_chain(out, f, d, t1.union(raw_t), de_window(img));
    lemma_confined_within(
        out,
        d,
        t1.union(raw_t).union(de_window(img)),
        classic_feature_windows(img, layout, flag_base),
    );
}

/// The features of a classic image, or none of them where the boot hook is missing.
pub proof fn lemma_classic_body_confined(img: Seq<u8>, layout: Layout, b: Base)
    requires
        raw::addressable(img),
        base::classic_base(img, layout) == Ok::<Base, FwError>(b),
    ensures
        ({
            let f = mt1939_classic::classic_body(img, b, layout.covered@).1;
            let out = match mt1939_classic::classic_boot(img, b, layout.covered@) {
                Ok((out, _, _)) => out,
                Err(_) => b.image,
            };
            &&& f.image.len() == img.len()
            &&& confined(img, out, boot_window(img))
            &&& confined(
                out,
                create::with_de(img, f.image),
                classic_feature_windows(img, layout, b.flag_base),
            )
        }),
{
    lemma_classic_base_confined(img, layout, b);
    match mt1939_classic::classic_boot(img, b, layout.covered@) {
        Ok((out, _, _)) => {
            lemma_classic_features_confined(img, layout, out, b.flag_base);
        },
        Err(_) => {
            let d = create::with_de(img, b.image);
            lemma_de_confined(img, b.image, arbitrary());
            lemma_confined_within(
                b.image,
                d,
                de_window(img),
                classic_feature_windows(img, layout, b.flag_base),
            );
        },
    }
}

/// Building firmware for a classic image changes erased flash, the branches and the
/// pointer that it takes over and the downgrade byte; every other byte stays as it was,
/// and so does the image's length.
pub proof fn law_classic_create_changes_only_its_places(img: Seq<u8>, layout: Layout, c: Created)
    requires
        raw::addressable(img),
        mt1939_classic::create_classic(img, layout) == Ok::<Created, FwError>(c),
    ensures
        base::classic_base(img, layout) matches Ok(b) && confined(
            img,
            c.image,
            classic_windows(img, layout, b),
        ),
{
    let b = base::classic_base(img, layout)->Ok_0;
    let f = mt1939_classic::classic_body(img, b, layout.covered@).1;
    let out = match mt1939_classic::classic_boot(img, b, layout.covered@) {
        Ok((out, _, _)) => out,
        Err(_) => b.image,
    };
    lemma_classic_body_confined(img, layout, b);
    lemma_repoint_confined(
        img,
        out,
        create::with_de(img, f.image),
        b.record,
        create::entry_pointer(b.handler_va),
        boot_window(img),
        classic_feature_windows(img, layout, b.flag_base),
    );
}

/// Modifying a classic image changes erased flash, the branches and the pointer that it
/// takes over and the downgrade byte; every other byte stays as it was, and so does the
/// image's length.
pub proof fn law_classic_modify_changes_only_its_places(
    img: Seq<u8>,
    layout: Layout,
    chip: ChipInfo,
    cap: Capability,
    m: Modified,
)
    requires
        raw::addressable(img),
        classic_modify::modify_classic(img, layout, chip, cap) == Ok::<Modified, FwError>(m),
    ensures
        m.image == img || (base::classic_base(img, layout) matches Ok(b) && confined(
            img,
            m.image,
            classic_windows(img, layout, b),
        )),
{
    if !modify::carries_magic(img) {
        let b = base::classic_base(img, layout)->Ok_0;
        let table = layout.covered@;
        let (out, _, _) = mt1939_classic::classic_boot(img, b, table)->Ok_0;
        let identity = classic_modify::classic_identity_lever(b);
        lemma_classic_base_confined(img, layout, b);
        lemma_classic_levers_confined(img, layout, out, b.flag_base, identity, chip, cap);
        let (w, _) = classic_modify::classic_levers(
            img,
            out,
            table,
            b.flag_base,
            identity,
            chip,
            cap,
        );
        lemma_repoint_confined(
            img,
            out,
            w,
            b.record,
            create::entry_pointer(b.handler_va),
            boot_window(img),
            classic_feature_windows(img, layout, b.flag_base),
        );
    }
}

} // verus!
