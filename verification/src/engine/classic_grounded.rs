//! The handler of a finished classic image serves for the record that it took over, and the
//! boot hook for the call that it took over.
use crate::abi;
use crate::engine::audit;
use crate::engine::base;
use crate::engine::base::{Base, Layout};
use crate::engine::boot;
use crate::engine::changes;
use crate::engine::classic_modify;
use crate::engine::create::Created;
use crate::engine::emit;
use crate::engine::found;
use crate::engine::grounded;
use crate::engine::landing;
use crate::engine::lever::Modified;
use crate::engine::modify;
use crate::engine::mt1939_classic;
use crate::engine::rooted;
use crate::engine::sram;
use crate::error::FwError;
use crate::family::{Capability, ChipInfo};
use crate::raw;
use crate::thumb::CommandRecord;
use vstd::prelude::*;

verus! {

/// What the base of a classic image stands on: a record of its table window, and a cell of
/// its own for the flags.
proof fn lemma_classic_base(img: Seq<u8>, layout: Layout, b: Base)
    requires
        raw::addressable(img),
        base::classic_base(img, layout) == Ok::<Base, FwError>(b),
    ensures
        found::recorded(img, b.record, 0x3C),
        0x1a_0000 <= b.record.off,
        base::handler_code(
            img,
            layout.commit_windows@,
            b.record.handler,
            b.flag_base,
            b.boot_entry,
        ) == Ok::<Seq<u8>, FwError>(b.handler),
        sram::free_cell(img) == Ok::<u32, FwError>(b.flag_base),
        b.boot_entry == 0,
{
    found::law_live_record_of_a_window_is_in_the_image(
        img,
        abi::READ_BUFFER_OPCODE,
        base::CLASSIC_TABLE_LO as int,
        base::CLASSIC_TABLE_HI as int,
    );
}

/// The handler of a base is grounded once the boot hook is in, or without one.
proof fn lemma_classic_handler(
    img: Seq<u8>,
    layout: Layout,
    b: Base,
    done: Seq<u8>,
    site: u32,
    later: Set<int>,
)
    requires
        raw::addressable(img),
        base::classic_base(img, layout) == Ok::<Base, FwError>(b),
        rooted::handler_lasts(done, b, later) || rooted::handler_lasts(
            done,
            b,
            changes::window(site as int).union(later),
        ),
    ensures
        grounded::handler_grounded(
            img,
            layout.commit_windows@,
            b.record.off as int,
            done,
            b.handler_va,
            b.flag_base,
            0,
            changes::window(site as int).union(later),
        ),
{
    lemma_classic_base(img, layout, b);
    grounded::lemma_handler_grounded(
        img,
        layout,
        b,
        done,
        changes::window(site as int).union(later),
    );
}

/// Firmware that is built for a classic image serves as the record that it took over: the
/// record is in the image that went in, it points at the handler in the image that comes
/// out, the facts of the handler there are those of the image, and a command without a
/// knock is left to the handler that the record pointed at. The boot hook, where there is
/// one, restores the flags and makes the call that it took over.
#[verifier::rlimit(80)]
pub proof fn law_classic_created_handler_serves_for_the_record(
    img: Seq<u8>,
    layout: Layout,
    c: Created,
)
    requires
        raw::addressable(img),
        mt1939_classic::create_classic(img, layout) == Ok::<Created, FwError>(c),
    ensures
        found::recorded(img, c.record, 0x3C),
        raw::u32_at(c.image, c.record.off + 4) == c.handler_va + 1,
        sram::free_cell(img) == Ok::<u32, FwError>(c.flag_base),
        c.boot_function_entry == 0,
        base::classic_base(img, layout) matches Ok(b) && {
            let later = rooted::classic_after_boot(img, layout, b);
            &&& grounded::handler_grounded(
                img,
                layout.commit_windows@,
                c.record.off as int,
                c.image,
                c.handler_va,
                c.flag_base,
                0,
                changes::window(c.boot_init_site as int).union(later),
            )
            &&& c.boot_stub_va != 0 ==> grounded::boot_grounded(
                img,
                c.image,
                c.boot_init_site as int,
                c.boot_stub_va,
                c.flag_base,
                rooted::classic_takes_boot(img, b),
                later,
            )
        },
{
    let b = base::classic_base(img, layout)->Ok_0;
    landing::lemma_classic_ground(img, layout, b);
    landing::law_created_record_points_at_the_handler(img, layout, c);
    rooted::law_classic_created_boot_hook_and_handler_last(img, layout, c);
    lemma_classic_base(img, layout, b);
    let later = rooted::classic_after_boot(img, layout, b);
    if mt1939_classic::classic_boot(img, b, layout.covered@) is Ok {
        let pair = boot::boot_init_pair(img)->Ok_0;
        boot::law_boot_hook_takes_over_a_call(img, pair.0, pair.1);
        assert(c.boot_init_site == pair.0);
        grounded::lemma_boot_grounded(
            img,
            b,
            pair,
            c.boot_stub_va,
            c.image,
            rooted::classic_takes_boot(img, b),
            later,
        );
    }
    lemma_classic_handler(img, layout, b, c.image, c.boot_init_site, later);
}

/// The Identity lever of a classic report names a handler, its record and the flags.
pub open spec fn identified(m: Modified, record: CommandRecord, va: u32, flag_base: u32) -> bool {
    &&& m.levers.len() == 5
    &&& audit::fact_of(m.levers[0].facts, "handler_va"@) == Some(va)
    &&& audit::fact_of(m.levers[0].facts, "record_off"@) == Some(record.off as u32)
    &&& audit::fact_of(m.levers[0].facts, "flag_base"@) == Some(flag_base)
    &&& audit::fact_of(m.levers[0].facts, "boot_function_entry"@) == Some(0u32)
}

/// What the Identity lever of a classic image names.
proof fn lemma_identity_names(b: Base)
    ensures
        ({
            let facts = classic_modify::classic_identity_lever(b).facts;
            &&& audit::fact_of(facts, "handler_va"@) == Some(b.handler_va)
            &&& audit::fact_of(facts, "record_off"@) == Some(b.record.off as u32)
            &&& audit::fact_of(facts, "flag_base"@) == Some(b.flag_base)
            &&& audit::fact_of(facts, "boot_function_entry"@) == Some(b.boot_entry)
        }),
{
    let facts = classic_modify::classic_identity_lever(b).facts;
    landing::lemma_identity_facts(facts, b.handler_va, b.record.off as u32);
    reveal_strlit("handler_va");
    reveal_strlit("record_off");
    reveal_strlit("flag_base");
    reveal_strlit("boot_function_entry");
    assert(facts[0].0.len() == 10 && facts[1].0.len() == 10 && facts[2].0.len() == 9
        && facts[3].0.len() == 19);
    landing::lemma_first_fact(facts, "flag_base"@, 2, facts.len());
    landing::lemma_first_fact(facts, "boot_function_entry"@, 3, facts.len());
}

/// The first of the classic levers is Identity.
proof fn lemma_first_lever(
    img: Seq<u8>,
    out: Seq<u8>,
    layout: Layout,
    b: Base,
    chip: ChipInfo,
    cap: Capability,
)
    ensures
        ({
            let levers = classic_modify::classic_levers(
                img,
                out,
                layout.covered@,
                b.flag_base,
                classic_modify::classic_identity_lever(b),
                chip,
                cap,
            ).1;
            levers.len() == 5 && levers[0] == classic_modify::classic_identity_lever(b)
        }),
{
    reveal(classic_modify::classic_levers);
}

/// The same of a classic image that is modified, which always has its boot hook; the Identity
/// lever names the handler, the record and the flags.
#[verifier::rlimit(80)]
pub proof fn law_classic_modified_handler_serves_for_the_record(
    img: Seq<u8>,
    layout: Layout,
    chip: ChipInfo,
    cap: Capability,
    m: Modified,
)
    requires
        raw::addressable(img),
        !modify::carries_magic(img),
        classic_modify::modify_classic(img, layout, chip, cap) == Ok::<Modified, FwError>(m),
    ensures
        base::classic_base(img, layout) matches Ok(b) && boot::boot_init_pair(img) matches Ok(pair)
            && {
            let later = rooted::classic_after_boot(img, layout, b);
            &&& found::recorded(img, b.record, 0x3C)
            &&& identified(m, b.record, b.handler_va, b.flag_base)
            &&& raw::u32_at(m.image, b.record.off + 4) == b.handler_va + 1
            &&& sram::free_cell(img) == Ok::<u32, FwError>(b.flag_base)
            &&& grounded::handler_grounded(
                img,
                layout.commit_windows@,
                b.record.off as int,
                m.image,
                b.handler_va,
                b.flag_base,
                0,
                changes::window(pair.0 as int).union(later),
            )
            &&& exists|stub: u32| #[trigger]
                grounded::boot_grounded(
                    img,
                    m.image,
                    pair.0 as int,
                    stub,
                    b.flag_base,
                    rooted::classic_takes_boot(img, b),
                    later,
                )
        },
{
    let b = base::classic_base(img, layout)->Ok_0;
    let pair = boot::boot_init_pair(img)->Ok_0;
    let (out, _, stub) = mt1939_classic::classic_boot(img, b, layout.covered@)->Ok_0;
    landing::lemma_classic_ground(img, layout, b);
    landing::law_modified_record_points_at_the_handler(img, layout, chip, cap, m);
    rooted::law_classic_modified_boot_hook_and_handler_last(img, layout, chip, cap, m);
    boot::law_boot_hook_takes_over_a_call(img, pair.0, pair.1);
    lemma_classic_base(img, layout, b);
    let later = rooted::classic_after_boot(img, layout, b);
    lemma_classic_handler(img, layout, b, m.image, pair.0 as u32, later);
    grounded::lemma_boot_grounded(
        img,
        b,
        pair,
        stub,
        m.image,
        rooted::classic_takes_boot(img, b),
        later,
    );
    lemma_first_lever(img, out, layout, b, chip, cap);
    lemma_identity_names(b);
    assert(m.levers[0] == classic_modify::classic_identity_lever(b));
}

} // verus!
