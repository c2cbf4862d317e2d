//! What is still in a finished image of its handler and its boot hook.
use crate::engine::base;
use crate::engine::base::{Base, Layout};
use crate::engine::boot;
use crate::engine::changes;
use crate::engine::classic_modify;
use crate::engine::create;
use crate::engine::create::Created;
use crate::engine::detours;
use crate::engine::emit;
use crate::engine::flash;
use crate::engine::gates;
use crate::engine::handler;
use crate::engine::lasting;
use crate::engine::lever::{Lever, Modified};
use crate::engine::modify;
use crate::engine::mt1939_classic;
use crate::engine::rawread;
use crate::engine::scanner;
use crate::engine::space;
use crate::engine::space::TableEntry;
use crate::engine::spots;
use crate::engine::spots::Spot;
use crate::engine::sram;
use crate::error::{FwError, Reason};
use crate::family::{Capability, ChipInfo};
use crate::raw;
use crate::thumb;
use crate::thumb::{BranchShape, CommandRecord};
use vstd::prelude::*;

verus! {

/// Every byte of the handler is in `done` that does not look like erased flash and that
/// `later` did not take.
pub open spec fn handler_lasts(done: Seq<u8>, b: Base, later: Set<int>) -> bool {
    forall|k: int|
        0 <= k < b.handler.len() && #[trigger] b.handler[k] != 0xFF && !later.contains(
            b.handler_va + k,
        ) ==> done[b.handler_va + k] == b.handler[k]
}

/// The boot hook and the handler of an image are in `done`: the call goes to the stub that
/// restores the flag table, unless one of `taken` is among its bytes, and the stub and the
/// handler are there.
pub open spec fn rooted(
    img: Seq<u8>,
    b: Base,
    pair: (usize, u32),
    va: u32,
    done: Seq<u8>,
    taken: Set<int>,
    later: Set<int>,
) -> bool {
    &&& handler_lasts(done, b, changes::window(pair.0 as int).union(later))
    &&& flash::nv_block(img) matches Ok(home) && lasting::lasts(
        done,
        BranchShape::Bl,
        pair.0 as int,
        va,
        emit::code_of(handler::boot_program(b.flag_base, pair.1, home)),
        taken,
        later,
    )
}

/// What is written over a modern image once its boot hook is in.
pub open spec fn after_boot(img: Seq<u8>, record: CommandRecord) -> Set<int> {
    changes::feature_windows(img).union(changes::window(record.off + scanner::HANDLER_OFF))
}

/// What can take the boot hook's call in a modern image: the handshake detour, where it is
/// on the same call, the downgrade byte and the record's pointer.
pub open spec fn takes_boot(img: Seq<u8>, record: CommandRecord) -> Set<int> {
    (match rawread::grounds(img, sram::FLAG_TABLE_BASE) {
        Ok(g) => changes::window(g.ake.site as int),
        Err(_) => Set::empty(),
    }).union(changes::de_window(img)).union(changes::window(record.off + scanner::HANDLER_OFF))
}

/// What is written over a classic image once its boot hook is in.
pub open spec fn classic_after_boot(img: Seq<u8>, layout: Layout, b: Base) -> Set<int> {
    changes::classic_feature_windows(img, layout, b.flag_base).union(
        changes::window(b.record.off + scanner::HANDLER_OFF),
    )
}

/// What can take the boot hook's call in a classic image: the downgrade byte and the
/// record's pointer.
pub open spec fn classic_takes_boot(img: Seq<u8>, b: Base) -> Set<int> {
    changes::de_window(img).union(changes::window(b.record.off + scanner::HANDLER_OFF))
}

/// The handler is in the image that it was put into, and stays.
proof fn lemma_handler(img: Seq<u8>, layout: Layout, b: Base, done: Seq<u8>, later: Set<int>)
    requires
        raw::addressable(img),
        changes::placed(img, layout, b),
        changes::confined(b.image, done, later),
    ensures
        handler_lasts(done, b, later),
{
    space::law_free_space_is_blank_and_covered(
        img,
        layout.covered@,
        (b.handler.len() + emit::SPARE) as int,
        b.handler_va,
    );
    assert forall|k: int|
        0 <= k < b.handler.len() && #[trigger] b.handler[k] != 0xFF && !later.contains(
            b.handler_va + k,
        ) implies done[b.handler_va + k] == b.handler[k] by {
        assert(b.image[b.handler_va + k] == b.handler[k]);
    }
}

/// A boot hook that was just installed stays, and so does the handler.
proof fn lemma_rooted(
    img: Seq<u8>,
    layout: Layout,
    b: Base,
    pair: (usize, u32),
    out: Seq<u8>,
    site: u32,
    va: u32,
    done: Seq<u8>,
    taken: Set<int>,
    later: Set<int>,
)
    requires
        raw::addressable(img),
        b.image.len() == img.len(),
        changes::placed(img, layout, b),
        pair.0 + 4 <= img.len(),
        emit::boot_emission(img, b.image, layout.covered@, b.flag_base, pair) == Ok::<
            (Seq<u8>, u32, u32),
            FwError,
        >((out, site, va)),
        changes::confined(out, done, later),
        lasting::spared(pair.0 as int, later, taken),
    ensures
        rooted(img, b, pair, va, done, taken, later),
{
    let table = layout.covered@;
    let home = flash::nv_block(img)->Ok_0;
    changes::lemma_boot_confined(img, b.image, table, b.flag_base, pair, out, site, va);
    changes::lemma_confined_chain(b.image, out, done, changes::window(pair.0 as int), later);
    lemma_handler(img, layout, b, done, changes::window(pair.0 as int).union(later));
    lasting::lemma_lasts(
        b.image,
        table,
        BranchShape::Bl,
        pair.0 as int,
        emit::code_of(handler::boot_program(b.flag_base, pair.1, home)),
        Reason::BootRange,
        out,
        va,
        done,
        taken,
        later,
    );
}

/// A modern feature takes the boot hook's call only where it shares it.
#[verifier::rlimit(40)]
proof fn lemma_boot_spared(img: Seq<u8>, record: CommandRecord)
    requires
        raw::addressable(img),
    ensures
        boot::boot_init_pair(img) matches Ok(pair) ==> pair.0 + 4 <= img.len() && lasting::spared(
            pair.0 as int,
            after_boot(img, record),
            takes_boot(img, record),
        ),
{
    if let Ok(pair) = boot::boot_init_pair(img) {
        let site = pair.0 as int;
        spots::lemma_boot_spot(img);
        spots::lemma_speed_spot(img);
        spots::lemma_region_spot(img, 0, img.len() as int);
        lasting::lemma_media_apart(img, site, Spot::Boot);
        spots::lemma_core_spots(img, sram::FLAG_TABLE_BASE);
        if let Ok((gate, _)) = gates::speed_gate(img) {
            spots::law_detour_places_never_overlap(img, site, Spot::Boot, gate + 4, Spot::Speed);
        }
        if let Ok(at) = gates::region_emitter(img) {
            spots::law_detour_places_never_overlap(img, site, Spot::Boot, at + 6, Spot::Region);
        }
        if let Ok(g) = rawread::grounds(img, sram::FLAG_TABLE_BASE) {
            spots::law_detour_places_never_overlap(
                img,
                site,
                Spot::Boot,
                g.gatea_site,
                Spot::Gate,
            );
            spots::law_detour_places_never_overlap(img, site, Spot::Boot, g.deny_site, Spot::Deny);
        }
    }
}

/// A repointed record is the last change.
proof fn lemma_pointed(
    out: Seq<u8>,
    d: Seq<u8>,
    record: CommandRecord,
    pointer: u32,
    t: Set<int>,
)
    requires
        changes::confined(out, d, t),
    ensures
        changes::confined(
            out,
            scanner::repointed(d, record, pointer),
            t.union(changes::window(record.off + scanner::HANDLER_OFF)),
        ),
{
    let at = changes::window(record.off + scanner::HANDLER_OFF);
    assert(changes::confined(d, scanner::repointed(d, record, pointer), at));
    changes::lemma_confined_chain(out, d, scanner::repointed(d, record, pointer), t, at);
}

/// Firmware that is built for a modern image has its handler and its boot hook: the call
/// goes to the stub that restores the flags, and the stub and the handler are there.
/// Excepted are a call that the handshake detour shares or that lies over the downgrade
/// byte or the record's pointer, bytes that a later branch took, and bytes written that
/// look like erased flash.
#[verifier::rlimit(40)]
pub proof fn law_created_boot_hook_and_handler_last(img: Seq<u8>, layout: Layout, c: Created)
    requires
        raw::addressable(img),
        create::create_modern(img, layout) == Ok::<Created, FwError>(c),
    ensures
        base::modern_base(img, layout) matches Ok((b, pair)) && rooted(
            img,
            b,
            pair,
            c.boot_stub_va,
            c.image,
            takes_boot(img, b.record),
            after_boot(img, b.record),
        ),
{
    let (b, pair) = base::modern_base(img, layout)->Ok_0;
    let table = layout.covered@;
    let (out, site, va) = emit::boot_emission(img, b.image, table, b.flag_base, pair)->Ok_0;
    changes::lemma_modern_base_confined(img, layout, b, pair, out, site, va);
    changes::lemma_features_confined(img, out, layout);
    let f = create::modern_features(img, out, layout, sram::FLAG_TABLE_BASE).2;
    lemma_pointed(
        out,
        create::with_de(img, f.0),
        b.record,
        create::entry_pointer(b.handler_va),
        changes::feature_windows(img),
    );
    lemma_boot_spared(img, b.record);
    lemma_rooted(
        img,
        layout,
        b,
        pair,
        out,
        site,
        va,
        c.image,
        takes_boot(img, b.record),
        after_boot(img, b.record),
    );
}

/// The first of the levers is Identity.
proof fn lemma_first_lever(
    img: Seq<u8>,
    out: Seq<u8>,
    layout: Layout,
    identity: Lever,
    chip: ChipInfo,
    cap: Capability,
)
    ensures
        ({
            let levers = modify::modern_levers(
                img,
                out,
                layout,
                sram::FLAG_TABLE_BASE,
                identity,
                chip,
                cap,
            ).1;
            levers.len() == 5 && levers[0] == identity
        }),
{
    reveal(modify::modern_levers);
}

/// A modified modern image has its handler and its boot hook, with the same exceptions.
#[verifier::rlimit(40)]
pub proof fn law_modified_boot_hook_and_handler_last(
    img: Seq<u8>,
    layout: Layout,
    chip: ChipInfo,
    cap: Capability,
    m: Modified,
)
    requires
        raw::addressable(img),
        !modify::carries_magic(img),
        modify::modify_modern(img, layout, chip, cap) == Ok::<Modified, FwError>(m),
    ensures
        base::modern_base(img, layout) matches Ok((b, pair)) && emit::boot_emission(
            img,
            b.image,
            layout.covered@,
            b.flag_base,
            pair,
        ) matches Ok((_, site, va)) && m.levers.len() == 5 && m.levers[0]
            == modify::identity_lever(b, site, va) && site == pair.0 && rooted(
            img,
            b,
            pair,
            va,
            m.image,
            takes_boot(img, b.record),
            after_boot(img, b.record),
        ),
{
    let (b, pair) = base::modern_base(img, layout)->Ok_0;
    let table = layout.covered@;
    let (out, site, va) = emit::boot_emission(img, b.image, table, b.flag_base, pair)->Ok_0;
    changes::lemma_modern_base_confined(img, layout, b, pair, out, site, va);
    let identity = modify::identity_lever(b, site, va);
    changes::lemma_levers_confined(img, out, layout, identity, chip, cap);
    let (w, _) = modify::modern_levers(
        img,
        out,
        layout,
        sram::FLAG_TABLE_BASE,
        identity,
        chip,
        cap,
    );
    lemma_first_lever(img, out, layout, identity, chip, cap);
    lemma_pointed(
        out,
        w,
        b.record,
        create::entry_pointer(b.handler_va),
        changes::feature_windows(img),
    );
    lemma_boot_spared(img, b.record);
    lemma_rooted(
        img,
        layout,
        b,
        pair,
        out,
        site,
        va,
        m.image,
        takes_boot(img, b.record),
        after_boot(img, b.record),
    );
}

/// The call that was just installed is a call.
proof fn lemma_hook_is_call(
    img: Seq<u8>,
    table: Seq<TableEntry>,
    b: Base,
    out: Seq<u8>,
    site: u32,
    va: u32,
)
    requires
        raw::addressable(img),
        b.image.len() == img.len(),
        mt1939_classic::classic_boot(img, b, table) == Ok::<(Seq<u8>, u32, u32), FwError>(
            (out, site, va),
        ),
    ensures
        boot::boot_init_pair(img) matches Ok(pair) && spots::spot(
            out,
            pair.0 as int,
            Spot::Boot,
        ),
{
    let pair = boot::boot_init_pair(img)->Ok_0;
    spots::lemma_boot_spot(img);
    let at = pair.0 as int;
    let bytes = thumb::branch_bytes(BranchShape::Bl, at as u32, va);
    let home = flash::nv_block(img)->Ok_0;
    changes::lemma_boot_confined(img, b.image, table, b.flag_base, pair, out, site, va);
    assert(raw::occurs_at(out, bytes, at)) by {
        assert forall|k: int| 0 <= k < 4 implies #[trigger] out[at + k] == bytes[k] by {}
    }
    thumb::law_installed_branch_decodes(BranchShape::Bl, out, at, va);
    spots::lemma_call_shape(out, at);
}

/// A classic feature takes the boot hook's call only where it shares it.
#[verifier::rlimit(40)]
proof fn lemma_classic_boot_spared(
    img: Seq<u8>,
    layout: Layout,
    b: Base,
    out: Seq<u8>,
    site: u32,
    va: u32,
)
    requires
        raw::addressable(img),
        b.image.len() == img.len(),
        out.len() == img.len(),
        base::classic_base(img, layout) == Ok::<Base, FwError>(b),
        mt1939_classic::classic_boot(img, b, layout.covered@) == Ok::<
            (Seq<u8>, u32, u32),
            FwError,
        >((out, site, va)),
    ensures
        boot::boot_init_pair(img) matches Ok(pair) && pair.0 + 4 <= img.len() && lasting::spared(
            pair.0 as int,
            classic_after_boot(img, layout, b),
            classic_takes_boot(img, b),
        ),
{
    let pair = boot::boot_init_pair(img)->Ok_0;
    let at = pair.0 as int;
    spots::lemma_boot_spot(img);
    lemma_hook_is_call(img, layout.covered@, b, out, site, va);
    spots::lemma_region_spot(
        out,
        mt1939_classic::CLASSIC_EMITTER_LO as int,
        mt1939_classic::CLASSIC_EMITTER_HI as int,
    );
    spots::lemma_classic_core_spots(img, b.flag_base);
    spots::lemma_classic_hrl_spots(img);
    spots::lemma_uhd_spot(img, b.flag_base);
    spots::lemma_bd_spot(img, b.flag_base);
    if let Ok(e) = gates::region_emitter_in(
        out,
        mt1939_classic::CLASSIC_EMITTER_LO as int,
        mt1939_classic::CLASSIC_EMITTER_HI as int,
    ) {
        spots::law_detour_places_never_overlap(out, at, Spot::Boot, e + 6, Spot::Region);
    }
    if let Ok(g) = mt1939_classic::classic_grounds(img, b.flag_base) {
        spots::law_detour_places_never_overlap(img, at, Spot::Boot, g.gatea_site, Spot::Gate);
        spots::law_detour_places_never_overlap(img, at, Spot::Boot, g.ake + 6, Spot::ClassicAke);
    }
    if let Ok((s, _)) = detours::uhd_plan(img, b.flag_base) {
        spots::law_detour_places_never_overlap(img, at, Spot::Boot, s as int, Spot::Uhd);
    }
    if let Ok((s, _)) = detours::bd_plan(img, b.flag_base) {
        spots::law_detour_places_never_overlap(img, at, Spot::Boot, s as int, Spot::Bd);
    }
    if let Ok((sites, _)) = mt1939_classic::classic_hrl_sites(img) {
        lasting::lemma_checks_apart(img, at, Spot::Boot, sites);
    }
}

/// Firmware that is built for a classic image has its handler, and its boot hook where
/// there is one, with the same exceptions; no detour shares the hook's call.
#[verifier::rlimit(40)]
pub proof fn law_classic_created_boot_hook_and_handler_last(
    img: Seq<u8>,
    layout: Layout,
    c: Created,
)
    requires
        raw::addressable(img),
        mt1939_classic::create_classic(img, layout) == Ok::<Created, FwError>(c),
    ensures
        base::classic_base(img, layout) matches Ok(b) && match mt1939_classic::classic_boot(
            img,
            b,
            layout.covered@,
        ) {
            Ok((_, _, va)) => c.boot_stub_va == va && (boot::boot_init_pair(img) matches Ok(pair)
                && rooted(
                img,
                b,
                pair,
                va,
                c.image,
                classic_takes_boot(img, b),
                classic_after_boot(img, layout, b),
            )),
            Err(_) => handler_lasts(c.image, b, classic_after_boot(img, layout, b)),
        },
{
    let b = base::classic_base(img, layout)->Ok_0;
    let f = mt1939_classic::classic_body(img, b, layout.covered@).1;
    changes::lemma_classic_body_confined(img, layout, b);
    changes::lemma_classic_base_confined(img, layout, b);
    let out = match mt1939_classic::classic_boot(img, b, layout.covered@) {
        Ok((out, _, _)) => out,
        Err(_) => b.image,
    };
    lemma_pointed(
        out,
        create::with_de(img, f.image),
        b.record,
        create::entry_pointer(b.handler_va),
        changes::classic_feature_windows(img, layout, b.flag_base),
    );
    match mt1939_classic::classic_boot(img, b, layout.covered@) {
        Ok((_, site, va)) => {
            lemma_classic_boot_spared(img, layout, b, out, site, va);
            lemma_rooted(
                img,
                layout,
                b,
                boot::boot_init_pair(img)->Ok_0,
                out,
                site,
                va,
                c.image,
                classic_takes_boot(img, b),
                classic_after_boot(img, layout, b),
            );
        },
        Err(_) => {
            lemma_handler(img, layout, b, c.image, classic_after_boot(img, layout, b));
        },
    }
}

/// A modified classic image has its handler and its boot hook, with the same exceptions.
#[verifier::rlimit(40)]
pub proof fn law_classic_modified_boot_hook_and_handler_last(
    img: Seq<u8>,
    layout: Layout,
    chip: ChipInfo,
    cap: Capability,
    m: Modified,
)
    requires
        raw::addressable(img),
        !modify::carries_magic(img),
        classic_modify::modify_classic(img, layout, chip, cap) == Ok::<Modified, FwError>(m),
    ensures
        base::classic_base(img, layout) matches Ok(b) && mt1939_classic::classic_boot(
            img,
            b,
            layout.covered@,
        ) matches Ok((_, _, va)) && boot::boot_init_pair(img) matches Ok(pair) && rooted(
            img,
            b,
            pair,
            va,
            m.image,
            classic_takes_boot(img, b),
            classic_after_boot(img, layout, b),
        ),
{
    let b = base::classic_base(img, layout)->Ok_0;
    let table = layout.covered@;
    let (out, site, va) = mt1939_classic::classic_boot(img, b, table)->Ok_0;
    let identity = classic_modify::classic_identity_lever(b);
    changes::lemma_classic_base_confined(img, layout, b);
    changes::lemma_classic_levers_confined(img, layout, out, b.flag_base, identity, chip, cap);
    let (w, _) = classic_modify::classic_levers(
        img,
        out,
        table,
        b.flag_base,
        identity,
        chip,
        cap,
    );
    lemma_pointed(
        out,
        w,
        b.record,
        create::entry_pointer(b.handler_va),
        changes::classic_feature_windows(img, layout, b.flag_base),
    );
    lemma_classic_boot_spared(img, layout, b, out, site, va);
    lemma_rooted(
        img,
        layout,
        b,
        boot::boot_init_pair(img)->Ok_0,
        out,
        site,
        va,
        m.image,
        classic_takes_boot(img, b),
        classic_after_boot(img, layout, b),
    );
}

} // verus!
