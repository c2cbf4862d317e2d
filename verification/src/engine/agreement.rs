//! Building an image and modifying it are two ways to the same bytes.
use crate::engine::base;
use crate::engine::base::Layout;
use crate::engine::changes;
use crate::engine::classic_modify;
use crate::engine::create;
use crate::engine::create::Created;
use crate::engine::detours;
use crate::engine::emit;
use crate::engine::gates;
use crate::engine::lever::Lever;
use crate::engine::modify;
use crate::engine::mt1939_classic;
use crate::engine::rawread;
use crate::engine::scanner;
use crate::engine::space;
use crate::engine::space::TableEntry;
use crate::engine::sram;
use crate::engine::stubs;
use crate::error::{FwError, Reason};
use crate::family::{Capability, ChipInfo};
use crate::program::AsmOp;
use crate::raw;
use crate::thumb::BranchShape;
use vstd::prelude::*;

verus! {

/// The drive is capable of everything, and its identity page is there.
pub open spec fn fully_capable(chip: ChipInfo, cap: Capability) -> bool {
    &&& cap.bd_aacs
    &&& cap.region_lockable
    &&& chip.descriptor_present
}

/// The downgrade byte is written alike.
proof fn lemma_same_de(img: Seq<u8>, out: Seq<u8>, chip: ChipInfo)
    requires
        chip.descriptor_present,
        out.len() == img.len(),
    ensures
        modify::de_lever(img, out, chip).0 == create::with_de(img, out),
{
    reveal(modify::de_lever);
    if let Ok(at) = gates::de_byte(img) {
        if out[at as int] == create::DE_BYTE {
            assert(out.update(at as int, create::DE_BYTE) =~= out);
        }
    }
}

/// The Speed detour is written alike.
proof fn lemma_same_speed(
    img: Seq<u8>,
    out: Seq<u8>,
    layout: Layout,
    flag_base: u32,
    cap: Capability,
)
    requires
        cap.bd_aacs,
    ensures
        modify::speed_lever(img, out, layout.covered@, flag_base, cap).0
            == create::modern_features(img, out, layout, flag_base).0.0,
{
    reveal(modify::speed_lever);
    reveal(create::modern_features);
}

/// The Region detour is written alike.
proof fn lemma_same_region(
    img: Seq<u8>,
    out: Seq<u8>,
    layout: Layout,
    flag_base: u32,
    cap: Capability,
)
    requires
        cap.region_lockable,
    ensures
        ({
            let (s, r, _) = create::modern_features(img, out, layout, flag_base);
            modify::region_lever(img, s.0, layout.covered@, flag_base, cap).0 == r.0
        }),
{
    reveal(modify::region_lever_of);
    reveal(create::modern_features);
}

/// The Raw-read detours are written alike.
proof fn lemma_same_rawread(
    img: Seq<u8>,
    out: Seq<u8>,
    layout: Layout,
    flag_base: u32,
    cap: Capability,
)
    requires
        cap.bd_aacs,
    ensures
        ({
            let (_, r, f) = create::modern_features(img, out, layout, flag_base);
            modify::rawread_lever(img, r.0, layout.covered@, flag_base, cap).0 == f.0
        }),
{
    reveal(modify::rawread_lever);
    reveal(create::modern_features);
}

/// The features of a modern image are written alike.
proof fn lemma_same_features(
    img: Seq<u8>,
    out: Seq<u8>,
    layout: Layout,
    identity: Lever,
    chip: ChipInfo,
    cap: Capability,
)
    requires
        fully_capable(chip, cap),
        raw::addressable(out),
        out.len() == img.len(),
    ensures
        modify::modern_levers(img, out, layout, sram::FLAG_TABLE_BASE, identity, chip, cap).0
            == create::with_de(
            img,
            create::modern_features(img, out, layout, sram::FLAG_TABLE_BASE).2.0,
        ),
{
    let f = create::modern_features(img, out, layout, sram::FLAG_TABLE_BASE).2;
    lemma_same_speed(img, out, layout, sram::FLAG_TABLE_BASE, cap);
    lemma_same_region(img, out, layout, sram::FLAG_TABLE_BASE, cap);
    lemma_same_rawread(img, out, layout, sram::FLAG_TABLE_BASE, cap);
    changes::lemma_features_confined(img, out, layout);
    lemma_same_de(img, f.0, chip);
    reveal(modify::modern_levers);
}

/// On an image that was not patched before, for a drive that is capable of everything,
/// building and modifying give the same image, and either is refused only where the
/// other is. Modifying owes the sense setter as well.
pub proof fn law_create_and_modify_agree(
    img: Seq<u8>,
    layout: Layout,
    chip: ChipInfo,
    cap: Capability,
)
    requires
        raw::addressable(img),
        !modify::carries_magic(img),
        fully_capable(chip, cap),
        scanner::sense_setter_of(img) is Ok,
    ensures
        match (
            create::create_modern(img, layout),
            modify::modify_modern(img, layout, chip, cap),
        ) {
            (Ok(c), Ok(m)) => c.image == m.image,
            (Err(e), Err(f)) => e == f,
            _ => false,
        },
{
    if let Ok((b, pair)) = base::modern_base(img, layout) {
        if let Ok((out, site, va)) = emit::boot_emission(
            img,
            b.image,
            layout.covered@,
            b.flag_base,
            pair,
        ) {
            changes::lemma_modern_base_confined(
                img,
                layout,
                b,
                pair,
                out,
                site,
                va,
            );
            lemma_same_features(
                img,
                out,
                layout,
                modify::identity_lever(b, site, va),
                chip,
                cap,
            );
        }
    }
}

/// A detour whose stub is nowhere was not written.
proof fn lemma_untried(
    plan: Result<(usize, Seq<AsmOp>), FwError>,
    w: Seq<u8>,
    table: Seq<TableEntry>,
    out_of_range: Reason,
)
    requires
        raw::addressable(w),
        mt1939_classic::tried(plan, w, table, out_of_range).2 == 0,
    ensures
        mt1939_classic::tried(plan, w, table, out_of_range).0 == w,
{
    if let Ok((site, ops)) = plan {
        let stub = emit::code_of(ops);
        if let Ok((_, va)) = emit::with_detour(
            w,
            table,
            BranchShape::Bl,
            site as int,
            stub,
            out_of_range,
        ) {
            space::law_free_space_is_blank_and_covered(
                w,
                table,
                (stub.len() + emit::SPARE) as int,
                va,
            );
        }
    }
}

/// Revocation detours whose stub is nowhere were not written.
proof fn lemma_no_classic_hrl(
    img: Seq<u8>,
    w: Seq<u8>,
    table: Seq<TableEntry>,
    flag_base: u32,
)
    requires
        raw::addressable(w),
    ensures
        mt1939_classic::hrl_emission_classic(img, w, table, flag_base) matches Ok((_, _, va))
            ==> va != 0,
{
    if let Ok((_, _, va)) = mt1939_classic::hrl_emission_classic(img, w, table, flag_base) {
        let (_, revoke) = mt1939_classic::classic_hrl_sites(img)->Ok_0;
        let stub = emit::code_of(stubs::hrl_skip_program(flag_base, revoke));
        space::law_free_space_is_blank_and_covered(w, table, (stub.len() + emit::SPARE) as int, va);
    }
}

/// Raw-read detours that were written have a Volume ID stub.
proof fn lemma_classic_gatea(img: Seq<u8>, w: Seq<u8>, table: Seq<TableEntry>, flag_base: u32)
    requires
        raw::addressable(w),
    ensures
        mt1939_classic::rawread_emission_classic(img, w, table, flag_base) matches Ok((_, f))
            ==> f.gatea_stub_va != 0,
{
    if let Ok((_, f)) = mt1939_classic::rawread_emission_classic(img, w, table, flag_base) {
        let g = mt1939_classic::classic_grounds(img, flag_base)->Ok_0;
        let stub = emit::code_of(g.gatea);
        space::law_free_space_is_blank_and_covered(
            w,
            table,
            (stub.len() + emit::SPARE) as int,
            f.gatea_stub_va,
        );
    }
}

/// The features of a classic image are written alike, where building it wired neither
/// UHD nor BD, and the revocation detours only along with Raw read.
proof fn lemma_same_classic_features(
    img: Seq<u8>,
    layout: Layout,
    out: Seq<u8>,
    flag_base: u32,
    identity: Lever,
    chip: ChipInfo,
    cap: Capability,
)
    requires
        fully_capable(chip, cap),
        raw::addressable(out),
        out.len() == img.len(),
        changes::classic_hooked(img, layout) == Ok::<Seq<u8>, FwError>(out),
        ({
            let f = mt1939_classic::classic_features(img, out, layout.covered@, flag_base);
            &&& f.uhd.1 == 0
            &&& f.bd.1 == 0
            &&& mt1939_classic::rawread_or_zeros(f.rawread).gatea_stub_va != 0 || f.hrl.1 == 0
        }),
    ensures
        classic_modify::classic_levers(
            img,
            out,
            layout.covered@,
            flag_base,
            identity,
            chip,
            cap,
        ).0 == create::with_de(
            img,
            mt1939_classic::classic_features(img, out, layout.covered@, flag_base).image,
        ),
{
    let table = layout.covered@;
    let region = mt1939_classic::region_emission_classic(out, table, flag_base);
    let r = create::or_unwired(out, region).0;
    let rawread = mt1939_classic::rawread_emission_classic(img, r, table, flag_base);
    let w2 = match rawread {
        Ok((w, _)) => w,
        Err(_) => r,
    };
    let uhd = detours::uhd_plan(img, flag_base);
    let bd = detours::bd_plan(img, flag_base);
    let features = mt1939_classic::classic_features(img, out, table, flag_base).image;
    assert(features == match mt1939_classic::hrl_emission_classic(img, w2, table, flag_base) {
        Ok((w, _, _)) => w,
        Err(_) => w2,
    } && (rawread is Ok || mt1939_classic::hrl_emission_classic(
        img,
        w2,
        table,
        flag_base,
    ) is Err)) by {
        reveal(mt1939_classic::classic_features);
        changes::lemma_classic_region_confined(img, layout, out, flag_base);
        changes::lemma_classic_rawread_confined(img, r, table, flag_base);
        lemma_untried(uhd, w2, table, Reason::UhdRange);
        lemma_untried(bd, w2, table, Reason::BdRange);
        lemma_no_classic_hrl(img, w2, table, flag_base);
        lemma_classic_gatea(img, r, table, flag_base);
    }
    assert(modify::region_lever_of(out, region, cap).0 == r) by {
        reveal(modify::region_lever_of);
    }
    assert(classic_modify::classic_rawread_lever(img, r, table, flag_base, cap).0 == features) by {
        reveal(classic_modify::classic_rawread_lever);
    }
    changes::lemma_classic_features_confined(img, layout, out, flag_base);
    lemma_same_de(img, features, chip);
    reveal(classic_modify::classic_levers);
}

/// For a drive that is capable of everything, building a classic image and modifying it
/// give the same image, wherever the boot hook is in place, neither UHD nor BD is wired
/// (modifying a classic image has no lever for them) and the revocation detours ride
/// along with Raw read.
pub proof fn law_classic_create_and_modify_agree(
    img: Seq<u8>,
    layout: Layout,
    chip: ChipInfo,
    cap: Capability,
    c: Created,
)
    requires
        raw::addressable(img),
        fully_capable(chip, cap),
        mt1939_classic::create_classic(img, layout) == Ok::<Created, FwError>(c),
        c.boot_stub_va != 0,
        c.uhd_stub_va == 0,
        c.bd_stub_va == 0,
        c.gatea_stub_va != 0 || c.hrl_stub_va == 0,
    ensures
        classic_modify::modify_classic(img, layout, chip, cap) matches Ok(m) && m.image == c.image,
{
    let b = base::classic_base(img, layout)->Ok_0;
    let (out, _, _) = mt1939_classic::classic_boot(img, b, layout.covered@)->Ok_0;
    changes::lemma_classic_base_confined(img, layout, b);
    lemma_same_classic_features(
        img,
        layout,
        out,
        b.flag_base,
        classic_modify::classic_identity_lever(b),
        chip,
        cap,
    );
}

} // verus!
