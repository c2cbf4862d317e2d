//! The handler of a finished image serves for the record that it took over, and the boot hook
//! for the call that it took over.
use crate::abi;
use crate::engine::audit;
use crate::engine::base;
use crate::engine::base::{Base, Layout};
use crate::engine::boot;
use crate::engine::changes;
use crate::engine::create;
use crate::engine::create::Created;
use crate::engine::emit;
use crate::engine::flash;
use crate::engine::found;
use crate::engine::handler;
use crate::engine::handler::HandlerFacts;
use crate::engine::landing;
use crate::engine::lasting;
use crate::engine::lever::Modified;
use crate::engine::modify;
use crate::engine::oem;
use crate::engine::protocol;
use crate::engine::response;
use crate::engine::rooted;
use crate::engine::scanner;
use crate::error::FwError;
use crate::family::{Capability, ChipInfo};
use crate::machine;
use crate::machine::{Cpu, World};
use crate::program::AsmOp;
use crate::raw;
use crate::thumb::{BranchShape, CommandRecord};
use vstd::prelude::*;

verus! {

/// The facts of a handler are those of the image: the OEM handler is the word of the record
/// at `off`, and each of the others is what its own finder answers.
pub open spec fn founded(
    img: Seq<u8>,
    commit_windows: Seq<(usize, usize)>,
    off: int,
    f: HandlerFacts,
) -> bool {
    &&& f.oem_handler == raw::u32_at(img, off + 4)
    &&& scanner::cdb_base(img) == Ok::<u32, FwError>(f.cdb)
    &&& response::response_writer(img) == Ok::<(u32, u32), FwError>((f.writer, f.commit_off))
    &&& response::response_commit(img, commit_windows) == Ok::<(u32, u32), FwError>(
        (f.commit, f.length_field),
    )
    &&& flash::flash_program(img) == Ok::<u32, FwError>(f.flash_program)
    &&& flash::nv_block(img) == Ok::<u32, FwError>(f.save_home)
    &&& flash::nv_dram_base(img) == Ok::<u32, FwError>(f.nv_ptr)
    &&& 0x1E_A000 <= f.save_home < 0x1E_B000
}

/// The command at `cdb` carries neither knock.
pub open spec fn unknocked(s: Cpu, cdb: u32) -> bool {
    let second = s.mem[machine::plus(cdb, 2)];
    let third = s.mem[machine::plus(cdb, 3)];
    ||| s.mem[machine::plus(cdb, 1)] != 0x0E
    ||| !(second == 0xC0 && third == 0xDE) && !(second == 0xDE && third == 0xB9)
}

/// The program leaves to `oem` with memory as it was and with nothing called.
pub open spec fn leaves_to(w: World, s: Cpu, oem: u32, ops: Seq<AsmOp>) -> bool {
    machine::outcome(w, ops, 0, s) matches Some((at, t)) && {
        &&& at == oem | 1
        &&& t.mem == s.mem
        &&& t.stores == s.stores
        &&& t.calls == s.calls
        &&& forall|r: int| 0 <= r < 15 && r != 0 && r != 3 ==> #[trigger] t.regs[r] == s.regs[r]
    }
}

/// Every command at `cdb` without a knock is left to `oem`.
pub open spec fn hands_on(cdb: u32, oem: u32, ops: Seq<AsmOp>) -> bool {
    forall|w: World, s: Cpu|
        s.whole() && unknocked(s, cdb) ==> #[trigger] leaves_to(w, s, oem, ops)
}

/// Every byte of `code` is in `done` from `va` on that does not look like erased flash and
/// that `later` did not take.
pub open spec fn in_place(done: Seq<u8>, va: u32, code: Seq<u8>, later: Set<int>) -> bool {
    forall|k: int|
        0 <= k < code.len() && #[trigger] code[k] != 0xFF && !later.contains(va + k) ==> done[va
            + k] == code[k]
}

/// A handler for the record at `off` is in `done`: its facts are those of the image, and a
/// command without a knock goes to where the record pointed.
pub open spec fn handler_grounded(
    img: Seq<u8>,
    commit_windows: Seq<(usize, usize)>,
    off: int,
    done: Seq<u8>,
    va: u32,
    flag_base: u32,
    boot_entry: u32,
    later: Set<int>,
) -> bool {
    exists|f: HandlerFacts|
        {
            &&& #[trigger] founded(img, commit_windows, off, f)
            &&& f.flag_base == flag_base
            &&& f.boot_entry == boot_entry
            &&& in_place(done, va, emit::code_of(handler::handler_program(f)), later)
            &&& hands_on(f.cdb, raw::u32_at(img, off + 4), handler::handler_program(f))
        }
}

/// A handler leaves commands without a knock to its OEM handler.
proof fn lemma_hands_on(f: HandlerFacts)
    ensures
        hands_on(f.cdb, f.oem_handler, handler::handler_program(f)),
{
    let ops = handler::handler_program(f);
    assert forall|w: World, s: Cpu| s.whole() && unknocked(s, f.cdb) implies #[trigger] leaves_to(
        w,
        s,
        f.oem_handler,
        ops,
    ) by {
        let cdb = protocol::received(s.mem, f);
        assert(cdb[1] == s.mem[machine::plus(f.cdb, 1)]);
        assert(cdb[2] == s.mem[machine::plus(f.cdb, 2)]);
        assert(cdb[3] == s.mem[machine::plus(f.cdb, 3)]);
        protocol::law_foreign_command_goes_to_the_oem_handler(w, f, s);
    }
}

/// A base's handler is grounded where its bytes are.
pub proof fn lemma_handler_grounded(
    img: Seq<u8>,
    layout: Layout,
    b: Base,
    done: Seq<u8>,
    later: Set<int>,
)
    requires
        found::recorded(img, b.record, 0x3C),
        base::handler_code(
            img,
            layout.commit_windows@,
            b.record.handler,
            b.flag_base,
            b.boot_entry,
        ) == Ok::<Seq<u8>, FwError>(b.handler),
        rooted::handler_lasts(done, b, later),
    ensures
        handler_grounded(
            img,
            layout.commit_windows@,
            b.record.off as int,
            done,
            b.handler_va,
            b.flag_base,
            b.boot_entry,
            later,
        ),
{
    let f = base::handler_facts(
        img,
        layout.commit_windows@,
        b.record.handler,
        b.flag_base,
        b.boot_entry,
    )->Ok_0;
    lemma_hands_on(f);
    assert(founded(img, layout.commit_windows@, b.record.off as int, f));
}

/// The boot function starts sixteen bytes before the call.
proof fn lemma_boot_function(site: usize)
    requires
        site <= raw::IMAGE_LIMIT,
    ensures
        base::boot_function(site) == machine::plus(site as u32, -16),
{
    reveal(machine::plus);
    let d = site - 16;
    if d < 0 {
        assert(d % 0x1_0000_0000 == d + 0x1_0000_0000);
    } else {
        assert(d % 0x1_0000_0000 == d);
    }
}

/// What the base of a modern image stands on.
proof fn lemma_modern_base(img: Seq<u8>, layout: Layout, b: Base, pair: (usize, u32))
    requires
        raw::addressable(img),
        base::modern_base(img, layout) == Ok::<(Base, (usize, u32)), FwError>((b, pair)),
    ensures
        found::recorded(img, b.record, 0x3C),
        base::handler_code(
            img,
            layout.commit_windows@,
            b.record.handler,
            b.flag_base,
            b.boot_entry,
        ) == Ok::<Seq<u8>, FwError>(b.handler),
        b.flag_base == 0x0200_0e40,
        b.boot_entry == machine::plus(pair.0 as u32, -16),
{
    found::law_live_record_is_in_the_image(
        img,
        abi::READ_BUFFER_OPCODE,
        layout.live_record_windows@,
    );
    boot::law_boot_hook_takes_over_a_call(img, pair.0, pair.1);
    lemma_boot_function(pair.0);
}

/// The boot hook at `site` is in `done`: its stub restores the flags that were saved, and
/// makes the call that the image makes there.
pub open spec fn boot_grounded(
    img: Seq<u8>,
    done: Seq<u8>,
    site: int,
    va: u32,
    flag_base: u32,
    taken: Set<int>,
    later: Set<int>,
) -> bool {
    flash::nv_block(img) matches Ok(home) && exists|ops: Seq<AsmOp>|
        lasting::lasts(done, BranchShape::Bl, site, va, emit::code_of(ops), taken, later)
            && #[trigger] oem::boot_obeys(img, site, flag_base, home, ops)
}

/// A hook that is rooted is grounded.
pub proof fn lemma_boot_grounded(
    img: Seq<u8>,
    b: Base,
    pair: (usize, u32),
    va: u32,
    done: Seq<u8>,
    taken: Set<int>,
    later: Set<int>,
)
    requires
        raw::addressable(img),
        boot::boot_init_pair(img) == Ok::<(usize, u32), FwError>(pair),
        rooted::rooted(img, b, pair, va, done, taken, later),
    ensures
        boot_grounded(img, done, pair.0 as int, va, b.flag_base, taken, later),
{
    let home = flash::nv_block(img)->Ok_0;
    let ops = handler::boot_program(b.flag_base, pair.1, home);
    oem::law_boot_hook_makes_the_call(img, b.flag_base, home, pair);
    assert(oem::boot_obeys(img, pair.0 as int, b.flag_base, home, ops));
}

/// Firmware that is built for a modern image serves as the record that it took over: the
/// record is in the image that went in, it points at the handler in the image that comes
/// out, the facts of the handler there are those of the image, and a command without a
/// knock is left to the handler that the record pointed at. The boot hook restores the
/// flags, and makes the call that it took over.
#[verifier::rlimit(80)]
pub proof fn law_created_handler_serves_for_the_record(img: Seq<u8>, layout: Layout, c: Created)
    requires
        raw::addressable(img),
        create::create_modern(img, layout) == Ok::<Created, FwError>(c),
    ensures
        found::recorded(img, c.record, 0x3C),
        raw::u32_at(c.image, c.record.off + 4) == c.handler_va + 1,
        c.flag_base == 0x0200_0e40,
        c.boot_function_entry == machine::plus(c.boot_init_site, -16),
        scanner::cdb_base(img) == Ok::<u32, FwError>(c.cdb_base),
        handler_grounded(
            img,
            layout.commit_windows@,
            c.record.off as int,
            c.image,
            c.handler_va,
            c.flag_base,
            c.boot_function_entry,
            changes::window(c.boot_init_site as int).union(rooted::after_boot(img, c.record)),
        ),
        boot_grounded(
            img,
            c.image,
            c.boot_init_site as int,
            c.boot_stub_va,
            c.flag_base,
            rooted::takes_boot(img, c.record),
            rooted::after_boot(img, c.record),
        ),
{
    let (b, pair) = base::modern_base(img, layout)->Ok_0;
    let (out, site, va) = emit::boot_emission(
        img,
        b.image,
        layout.covered@,
        b.flag_base,
        pair,
    )->Ok_0;
    landing::lemma_modern_ground(img, layout, b, pair, out, site, va);
    landing::law_created_record_points_at_the_handler(img, layout, c);
    rooted::law_created_boot_hook_and_handler_last(img, layout, c);
    boot::law_boot_hook_takes_over_a_call(img, pair.0, pair.1);
    lemma_modern_base(img, layout, b, pair);
    let later = changes::window(pair.0 as int).union(rooted::after_boot(img, b.record));
    lemma_handler_grounded(img, layout, b, c.image, later);
    lemma_boot_grounded(
        img,
        b,
        pair,
        va,
        c.image,
        rooted::takes_boot(img, b.record),
        rooted::after_boot(img, b.record),
    );
}

/// The same of a modern image that is modified; the Identity lever names the handler, the
/// record and the hook.
#[verifier::rlimit(80)]
pub proof fn law_modified_handler_serves_for_the_record(
    img: Seq<u8>,
    layout: Layout,
    chip: ChipInfo,
    cap: Capability,
    m: Modified,
)
    requires
        raw::addressable(img),
        !modify::carries_magic(img),
        modify::modify_modern(img, layout, chip, cap) == Ok::<Modified, FwError>(m),
    ensures
        exists|record: CommandRecord, va: u32, site: u32, stub: u32, entry: u32|
            {
                let later = rooted::after_boot(img, record);
                &&& found::recorded(img, record, 0x3C)
                &&& #[trigger] identified(m, record, va, site, stub, entry)
                &&& raw::u32_at(m.image, record.off + 4) == va + 1
                &&& entry == machine::plus(site, -16)
                &&& handler_grounded(
                    img,
                    layout.commit_windows@,
                    record.off as int,
                    m.image,
                    va,
                    0x0200_0e40,
                    entry,
                    changes::window(site as int).union(later),
                )
                &&& boot_grounded(
                    img,
                    m.image,
                    site as int,
                    stub,
                    0x0200_0e40,
                    rooted::takes_boot(img, record),
                    later,
                )
            },
{
    let (b, pair) = base::modern_base(img, layout)->Ok_0;
    let (out, site, stub) = emit::boot_emission(
        img,
        b.image,
        layout.covered@,
        b.flag_base,
        pair,
    )->Ok_0;
    landing::lemma_modern_ground(img, layout, b, pair, out, site, stub);
    landing::law_modified_record_points_at_the_handler(img, layout, chip, cap, m);
    rooted::law_modified_boot_hook_and_handler_last(img, layout, chip, cap, m);
    boot::law_boot_hook_takes_over_a_call(img, pair.0, pair.1);
    lemma_modern_base(img, layout, b, pair);
    let later = changes::window(pair.0 as int).union(rooted::after_boot(img, b.record));
    lemma_handler_grounded(img, layout, b, m.image, later);
    lemma_boot_grounded(
        img,
        b,
        pair,
        stub,
        m.image,
        rooted::takes_boot(img, b.record),
        rooted::after_boot(img, b.record),
    );
    lemma_identity_names(b, site, stub);
    assert(identified(m, b.record, b.handler_va, site, stub, b.boot_entry));
}

/// The Identity lever of a report names a handler, its record, a boot hook and the boot
/// function.
pub open spec fn identified(
    m: Modified,
    record: CommandRecord,
    va: u32,
    site: u32,
    stub: u32,
    entry: u32,
) -> bool {
    &&& m.levers.len() == 5
    &&& audit::fact_of(m.levers[0].facts, "handler_va"@) == Some(va)
    &&& audit::fact_of(m.levers[0].facts, "record_off"@) == Some(record.off as u32)
    &&& audit::fact_of(m.levers[0].facts, "boot_init_site"@) == Some(site)
    &&& audit::fact_of(m.levers[0].facts, "boot_stub_va"@) == Some(stub)
    &&& audit::fact_of(m.levers[0].facts, "boot_function_entry"@) == Some(entry)
}

/// What the Identity lever of a modern image names.
proof fn lemma_identity_names(b: Base, site: u32, stub: u32)
    ensures
        ({
            let facts = modify::identity_lever(b, site, stub).facts;
            &&& audit::fact_of(facts, "handler_va"@) == Some(b.handler_va)
            &&& audit::fact_of(facts, "record_off"@) == Some(b.record.off as u32)
            &&& audit::fact_of(facts, "boot_init_site"@) == Some(site)
            &&& audit::fact_of(facts, "boot_stub_va"@) == Some(stub)
            &&& audit::fact_of(facts, "boot_function_entry"@) == Some(b.boot_entry)
        }),
{
    let facts = modify::identity_lever(b, site, stub).facts;
    landing::lemma_identity_facts(facts, b.handler_va, b.record.off as u32);
    reveal_strlit("handler_va");
    reveal_strlit("record_off");
    reveal_strlit("boot_init_site");
    reveal_strlit("boot_stub_va");
    reveal_strlit("boot_function_entry");
    assert(facts[0].0.len() == 10 && facts[1].0.len() == 10 && facts[2].0.len() == 14
        && facts[3].0.len() == 12 && facts[4].0.len() == 19);
    landing::lemma_first_fact(facts, "boot_init_site"@, 2, facts.len());
    landing::lemma_first_fact(facts, "boot_stub_va"@, 3, facts.len());
    landing::lemma_first_fact(facts, "boot_function_entry"@, 4, facts.len());
}

} // verus!
