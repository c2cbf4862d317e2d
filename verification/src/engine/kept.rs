//! What every image that is handed out has kept, and what it has had set: the flags of the
//! record that was taken over, and the downgrade byte.
use crate::abi;
use crate::engine::base;
use crate::engine::base::{Base, Layout};
use crate::engine::boot;
use crate::engine::changes;
use crate::engine::classic_modify;
use crate::engine::create;
use crate::engine::create::Created;
use crate::engine::detours;
use crate::engine::emit;
use crate::engine::gates;
use crate::engine::marks;
use crate::engine::modify;
use crate::engine::mt1939_classic;
use crate::engine::rawread;
use crate::engine::scanner;
use crate::engine::spots;
use crate::engine::spots::Spot;
use crate::engine::sram;
use crate::error::{FwError, Reason};
use crate::family::{Capability, ChipInfo};
use crate::raw;
use crate::thumb::CommandRecord;
use vstd::prelude::*;

verus! {

/// A live record is at `p`, as far as its first four bytes go.
pub open spec fn heads(img: Seq<u8>, p: int) -> bool {
    &&& 0 <= p
    &&& p + 4 <= img.len()
    &&& img[p] == abi::READ_BUFFER_OPCODE
    &&& img[p + 1] == scanner::LIVE_FLAGS
    &&& img[p + 2] == 0
    &&& img[p + 3] == 0
}

/// Two halfwords of code whose high bytes no record has where they would meet its flags.
spec fn codelike(img: Seq<u8>, site: int) -> bool {
    &&& 0 <= site
    &&& site + 4 <= img.len()
    &&& img[site + 1] != 0
    &&& img[site + 1] != 1
    &&& img[site + 1] != abi::READ_BUFFER_OPCODE
    &&& img[site + 3] != 1
}

/// Code is not where a record's flags are.
proof fn lemma_codelike(img: Seq<u8>, p: int, site: int)
    requires
        heads(img, p),
        codelike(img, site),
    ensures
        !changes::window(site).contains(p + 1),
{
}

/// A place that a detour takes over is code.
proof fn lemma_spot_codelike(img: Seq<u8>, site: int, kind: Spot)
    requires
        spots::spot(img, site, kind),
    ensures
        codelike(img, site),
{
    let h0 = raw::hw_at(img, site);
    let h1 = raw::hw_at(img, site + 2);
    assert(img[site + 1] == h0 / 256);
    assert(img[site + 3] == h1 / 256);
}

/// A revocation place is not where a record's flags are.
proof fn lemma_windows_spare(img: Seq<u8>, p: int, sites: Seq<usize>)
    requires
        heads(img, p),
        forall|i: int|
            0 <= i < sites.len() ==> spots::spot(img, #[trigger] sites[i] as int, Spot::Hrl),
    ensures
        !changes::windows(sites).contains(p + 1),
{
    if changes::windows(sites).contains(p + 1) {
        let k = choose|k: int|
            0 <= k < sites.len() && #[trigger] sites[k] <= p + 1 < sites[k] + 4;
        lemma_spot_codelike(img, sites[k] as int, Spot::Hrl);
        lemma_codelike(img, p, sites[k] as int);
    }
}

/// The boot hook does not take a record's flags.
proof fn lemma_boot_spares(img: Seq<u8>, p: int)
    requires
        raw::addressable(img),
        heads(img, p),
    ensures
        !changes::boot_window(img).contains(p + 1),
{
    spots::lemma_boot_spot(img);
    if let Ok(pair) = boot::boot_init_pair(img) {
        assert(img[pair.0 + 1] == raw::hw_at(img, pair.0 as int) / 256);
        assert(img[pair.0 + 3] == raw::hw_at(img, pair.0 + 2) / 256);
        lemma_codelike(img, p, pair.0 as int);
    }
}

/// The Speed and Region detours do not take a record's flags.
proof fn lemma_speed_region_spare(img: Seq<u8>, p: int)
    requires
        raw::addressable(img),
        heads(img, p),
    ensures
        !changes::speed_window(img).contains(p + 1),
        !changes::region_window(img).contains(p + 1),
{
    spots::lemma_speed_spot(img);
    spots::lemma_region_spot(img, 0, img.len() as int);
    if let Ok((gate, _)) = gates::speed_gate(img) {
        lemma_spot_codelike(img, gate + 4, Spot::Speed);
        lemma_codelike(img, p, gate + 4);
    }
    if let Ok(at) = gates::region_emitter(img) {
        lemma_spot_codelike(img, at + 6, Spot::Region);
        lemma_codelike(img, p, at + 6);
    }
}

/// The UHD and BD detours do not take a record's flags.
proof fn lemma_plans_spare(img: Seq<u8>, p: int, flag_base: u32)
    requires
        raw::addressable(img),
        heads(img, p),
    ensures
        !changes::plan_window(detours::uhd_plan(img, flag_base)).contains(p + 1),
        !changes::plan_window(detours::bd_plan(img, flag_base)).contains(p + 1),
{
    spots::lemma_uhd_spot(img, flag_base);
    spots::lemma_bd_spot(img, flag_base);
    if let Ok((site, _)) = detours::uhd_plan(img, flag_base) {
        lemma_spot_codelike(img, site as int, Spot::Uhd);
        lemma_codelike(img, p, site as int);
    }
    if let Ok((site, _)) = detours::bd_plan(img, flag_base) {
        lemma_spot_codelike(img, site as int, Spot::Bd);
        lemma_codelike(img, p, site as int);
    }
}

/// The Raw-read detours do not take a record's flags.
proof fn lemma_rawread_spares(img: Seq<u8>, p: int, flag_base: u32)
    requires
        raw::addressable(img),
        heads(img, p),
    ensures
        !changes::rawread_windows(img, flag_base).contains(p + 1),
{
    if let Ok(g) = rawread::grounds(img, flag_base) {
        spots::lemma_core_spots(img, flag_base);
        lemma_spot_codelike(img, g.ake.site as int, Spot::Ake);
        lemma_codelike(img, p, g.ake.site as int);
        lemma_spot_codelike(img, g.gatea_site, Spot::Gate);
        lemma_codelike(img, p, g.gatea_site);
        lemma_spot_codelike(img, g.deny_site, Spot::Deny);
        lemma_codelike(img, p, g.deny_site);
        lemma_plans_spare(img, p, flag_base);
        spots::lemma_hrl_spots(img);
        if let Ok((sites, _)) = gates::hrl_skip_sites(img) {
            lemma_windows_spare(img, p, sites);
        }
    }
}

/// Nothing that a modern image's patch takes over but the downgrade byte is a record's
/// flags.
#[verifier::rlimit(40)]
proof fn lemma_modern_spares(img: Seq<u8>, layout: Layout, r: CommandRecord)
    requires
        raw::addressable(img),
        scanner::live_record(img, abi::READ_BUFFER_OPCODE, layout.live_record_windows@) == Ok::<
            CommandRecord,
            FwError,
        >(r),
        r.off + 1 != marks::de_slot(),
    ensures
        r.off + 8 <= img.len(),
        img[r.off + 1] == scanner::LIVE_FLAGS,
        !changes::modern_windows(img, layout).contains(r.off + 1),
{
    marks::lemma_record_among_solid(
        img,
        abi::READ_BUFFER_OPCODE,
        layout.live_record_windows@,
        0,
        FwError::Refused(Reason::RecordWindow { opcode: abi::READ_BUFFER_OPCODE }),
    );
    assert(raw::hw_at(img, r.off + 2) == 0);
    assert(heads(img, r.off as int));
    lemma_boot_spares(img, r.off as int);
    lemma_speed_region_spare(img, r.off as int);
    lemma_rawread_spares(img, r.off as int, sram::FLAG_TABLE_BASE);
}

/// The record of a modern base is the one that was found.
proof fn lemma_modern_record(img: Seq<u8>, layout: Layout)
    ensures
        base::modern_base(img, layout) matches Ok((b, _)) ==> scanner::live_record(
            img,
            abi::READ_BUFFER_OPCODE,
            layout.live_record_windows@,
        ) == Ok::<CommandRecord, FwError>(b.record),
{
}

/// The record that is taken over keeps its flags: it stays live in what is built and in
/// what an image is modified to. The one exception is a record whose flags are the
/// downgrade byte.
#[verifier::rlimit(40)]
pub proof fn law_record_stays_live(img: Seq<u8>, layout: Layout, b: Base, pair: (usize, u32))
    requires
        raw::addressable(img),
        base::modern_base(img, layout) == Ok::<(Base, (usize, u32)), FwError>((b, pair)),
        b.record.off + 1 != marks::de_slot(),
    ensures
        img[b.record.off + 1] == scanner::LIVE_FLAGS,
        create::create_modern(img, layout) matches Ok(c) ==> c.record == b.record
            && c.image[c.record.off + 1] == img[c.record.off + 1],
        forall|chip: ChipInfo, cap: Capability|
            #![trigger modify::modify_modern(img, layout, chip, cap)]
            modify::modify_modern(img, layout, chip, cap) matches Ok(m) ==> m.image[b.record.off
                + 1] == img[b.record.off + 1],
{
    lemma_modern_record(img, layout);
    lemma_modern_spares(img, layout, b.record);
    if let Ok(c) = create::create_modern(img, layout) {
        changes::law_create_changes_only_its_places(img, layout, c);
    }
    assert forall|chip: ChipInfo, cap: Capability|
        #![trigger modify::modify_modern(img, layout, chip, cap)]
        modify::modify_modern(img, layout, chip, cap) matches Ok(m) implies
        modify::modify_modern(img, layout, chip, cap)->Ok_0.image[b.record.off + 1]
        == img[b.record.off + 1] by {
        let m = modify::modify_modern(img, layout, chip, cap)->Ok_0;
        changes::law_modify_changes_only_its_places(img, layout, chip, cap, m);
    }
}

/// A place at an even offset does not take the flags of a record at an even offset.
proof fn lemma_even_spares(img: Seq<u8>, p: int, site: int, kind: Spot)
    requires
        p % 2 == 0,
        0 <= p,
        p + 2 <= img.len(),
        img[p + 1] == 1,
        spots::spot(img, site, kind),
    ensures
        !changes::window(site).contains(p + 1),
{
    lemma_spot_codelike(img, site, kind);
}

/// The record of a classic base is live, at an even offset.
#[verifier::rlimit(40)]
proof fn lemma_classic_record(img: Seq<u8>, layout: Layout, b: Base)
    requires
        raw::addressable(img),
        base::classic_base(img, layout) == Ok::<Base, FwError>(b),
    ensures
        b.record.off + 8 <= img.len(),
        b.record.off % 2 == 0,
        heads(img, b.record.off as int),
{
    marks::lemma_record_solid(
        img,
        abi::READ_BUFFER_OPCODE,
        base::CLASSIC_TABLE_LO as int,
        base::CLASSIC_TABLE_HI as int,
    );
    assert(raw::hw_at(img, b.record.off + 2) == 0);
}

/// The classic Raw-read detours do not take the flags of a record at an even offset.
proof fn lemma_classic_rawread_spares(img: Seq<u8>, p: int, flag_base: u32)
    requires
        raw::addressable(img),
        heads(img, p),
        p % 2 == 0,
    ensures
        !changes::classic_rawread_windows(img, flag_base).contains(p + 1),
        !changes::classic_hrl_windows(img).contains(p + 1),
{
    spots::lemma_classic_hrl_spots(img);
    if let Ok((sites, _)) = mt1939_classic::classic_hrl_sites(img) {
        lemma_windows_spare(img, p, sites);
    }
    spots::lemma_classic_core_spots(img, flag_base);
    if let Ok(g) = mt1939_classic::classic_grounds(img, flag_base) {
        lemma_even_spares(img, p, g.gatea_site, Spot::Gate);
        lemma_even_spares(img, p, g.ake + 6, Spot::ClassicAke);
    }
}

/// Nothing that a classic image's patch takes over is the flags of its record.
#[verifier::rlimit(40)]
proof fn lemma_classic_spares(img: Seq<u8>, layout: Layout, b: Base)
    requires
        raw::addressable(img),
        base::classic_base(img, layout) == Ok::<Base, FwError>(b),
    ensures
        b.record.off + 8 <= img.len(),
        img[b.record.off + 1] == scanner::LIVE_FLAGS,
        !changes::classic_windows(img, layout, b).contains(b.record.off + 1),
{
    let p = b.record.off as int;
    lemma_classic_record(img, layout, b);
    lemma_boot_spares(img, p);
    lemma_plans_spare(img, p, b.flag_base);
    lemma_classic_rawread_spares(img, p, b.flag_base);
    lemma_classic_region_spares(img, layout, b);
    lemma_apart(
        p + 1,
        changes::boot_window(img),
        changes::classic_region_window(img, layout),
        changes::classic_rawread_windows(img, b.flag_base),
        changes::plan_window(detours::uhd_plan(img, b.flag_base)),
        changes::plan_window(detours::bd_plan(img, b.flag_base)),
        changes::classic_hrl_windows(img),
        changes::window(p + scanner::HANDLER_OFF),
        img,
    );
}

/// A byte at an odd offset that is in none of the windows is not in their union with the
/// downgrade byte.
proof fn lemma_apart(
    i: int,
    boot: Set<int>,
    region: Set<int>,
    raw: Set<int>,
    uhd: Set<int>,
    bd: Set<int>,
    hrl: Set<int>,
    record: Set<int>,
    img: Seq<u8>,
)
    requires
        i % 2 == 1,
        !boot.contains(i),
        !region.contains(i),
        !raw.contains(i),
        !uhd.contains(i),
        !bd.contains(i),
        !hrl.contains(i),
        !record.contains(i),
    ensures
        !boot.union(
            region.union(raw).union(uhd).union(bd).union(hrl).union(changes::de_window(img)),
        ).union(record).contains(i),
{
}

/// The classic Region detour does not take the flags of the record.
#[verifier::rlimit(40)]
proof fn lemma_classic_region_spares(img: Seq<u8>, layout: Layout, b: Base)
    requires
        raw::addressable(img),
        base::classic_base(img, layout) == Ok::<Base, FwError>(b),
        b.record.off % 2 == 0,
        heads(img, b.record.off as int),
    ensures
        !changes::classic_region_window(img, layout).contains(b.record.off + 1),
{
    let p = b.record.off as int;
    changes::lemma_classic_base_confined(img, layout, b);
    lemma_boot_spares(img, p);
    if let Ok((out, _, _)) = mt1939_classic::classic_boot(img, b, layout.covered@) {
        assert(out[p + 1] == img[p + 1]);
        let lo = mt1939_classic::CLASSIC_EMITTER_LO as int;
        let hi = mt1939_classic::CLASSIC_EMITTER_HI as int;
        spots::lemma_region_spot(out, lo, hi);
        if let Ok(at) = gates::region_emitter_in(out, lo, hi) {
            lemma_even_spares(out, p, at + 6, Spot::Region);
        }
    }
}

/// The record of a classic image that is taken over keeps its flags: it stays live in what
/// is built and in what the image is modified to.
#[verifier::rlimit(40)]
pub proof fn law_classic_record_stays_live(img: Seq<u8>, layout: Layout, b: Base)
    requires
        raw::addressable(img),
        base::classic_base(img, layout) == Ok::<Base, FwError>(b),
    ensures
        img[b.record.off + 1] == scanner::LIVE_FLAGS,
        mt1939_classic::create_classic(img, layout) matches Ok(c) ==> c.record == b.record
            && c.image[c.record.off + 1] == img[c.record.off + 1],
        forall|chip: ChipInfo, cap: Capability|
            #![trigger classic_modify::modify_classic(img, layout, chip, cap)]
            classic_modify::modify_classic(img, layout, chip, cap) matches Ok(m)
                ==> m.image[b.record.off + 1] == img[b.record.off + 1],
{
    lemma_classic_spares(img, layout, b);
    if let Ok(c) = mt1939_classic::create_classic(img, layout) {
        changes::law_classic_create_changes_only_its_places(img, layout, c);
    }
    assert forall|chip: ChipInfo, cap: Capability|
        #![trigger classic_modify::modify_classic(img, layout, chip, cap)]
        classic_modify::modify_classic(img, layout, chip, cap) matches Ok(m) implies
        classic_modify::modify_classic(img, layout, chip, cap)->Ok_0.image[b.record.off + 1]
        == img[b.record.off + 1] by {
        let m = classic_modify::modify_classic(img, layout, chip, cap)->Ok_0;
        changes::law_classic_modify_changes_only_its_places(img, layout, chip, cap, m);
    }
}

/// The downgrade byte that was set stays set when the record is pointed elsewhere.
proof fn lemma_de_set(img: Seq<u8>, w: Seq<u8>, record: CommandRecord, pointer: u32)
    requires
        w.len() == img.len(),
        gates::de_byte(img) is Ok,
        !changes::window(record.off + scanner::HANDLER_OFF).contains(marks::de_slot()),
    ensures
        scanner::repointed(create::with_de(img, w), record, pointer)[marks::de_slot()]
            == create::DE_BYTE,
        gates::de_byte(img) == Ok::<u32, FwError>(marks::de_slot() as u32),
        marks::de_slot() as u32 == marks::de_slot(),
{
}

/// The downgrade byte of what is built for a modern image.
proof fn lemma_modern_de(img: Seq<u8>, layout: Layout, c: Created)
    requires
        raw::addressable(img),
        create::create_modern(img, layout) == Ok::<Created, FwError>(c),
        gates::de_byte(img) is Ok,
        !changes::window(c.record.off + scanner::HANDLER_OFF).contains(marks::de_slot()),
    ensures
        c.de_off == marks::de_slot(),
        c.image[marks::de_slot()] == create::DE_BYTE,
{
    let (b, pair) = base::modern_base(img, layout)->Ok_0;
    let table = layout.covered@;
    let (out, site, va) = emit::boot_emission(img, b.image, table, b.flag_base, pair)->Ok_0;
    let w = create::modern_features(img, out, layout, b.flag_base).2.0;
    assert(w.len() == img.len()) by {
        changes::lemma_modern_base_confined(img, layout, b, pair, out, site, va);
        changes::lemma_features_confined(img, out, layout);
    }
    lemma_de_set(img, w, b.record, create::entry_pointer(b.handler_va));
}

/// The features of a classic image keep its length.
proof fn lemma_classic_len(img: Seq<u8>, layout: Layout, b: Base)
    requires
        raw::addressable(img),
        base::classic_base(img, layout) == Ok::<Base, FwError>(b),
    ensures
        mt1939_classic::classic_body(img, b, layout.covered@).1.image.len() == img.len(),
{
    changes::lemma_classic_body_confined(img, layout, b);
}

/// The downgrade byte of what is built for a classic image.
proof fn lemma_classic_de(img: Seq<u8>, layout: Layout, c: Created)
    requires
        raw::addressable(img),
        mt1939_classic::create_classic(img, layout) == Ok::<Created, FwError>(c),
        gates::de_byte(img) is Ok,
        !changes::window(c.record.off + scanner::HANDLER_OFF).contains(marks::de_slot()),
    ensures
        c.de_off == marks::de_slot(),
        c.image[marks::de_slot()] == create::DE_BYTE,
{
    let b = base::classic_base(img, layout)->Ok_0;
    let w = mt1939_classic::classic_body(img, b, layout.covered@).1.image;
    lemma_classic_len(img, layout, b);
    lemma_de_set(img, w, b.record, create::entry_pointer(b.handler_va));
}

/// The downgrade byte of what is built is set, unless the record's pointer was written over
/// it.
#[verifier::rlimit(40)]
pub proof fn law_created_downgrade_byte_is_set(img: Seq<u8>, layout: Layout, c: Created)
    requires
        raw::addressable(img),
        create::create_modern(img, layout) == Ok::<Created, FwError>(c)
            || mt1939_classic::create_classic(img, layout) == Ok::<Created, FwError>(c),
        gates::de_byte(img) is Ok,
        !changes::window(c.record.off + scanner::HANDLER_OFF).contains(marks::de_slot()),
    ensures
        c.de_off == marks::de_slot(),
        c.image[c.de_off as int] == create::DE_BYTE,
{
    if create::create_modern(img, layout) == Ok::<Created, FwError>(c) {
        lemma_modern_de(img, layout, c);
    } else {
        lemma_classic_de(img, layout, c);
    }
}

} // verus!
