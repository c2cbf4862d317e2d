//! The injected handler assembles whatever facts it is built from.
use crate::abi;
use crate::engine::handler;
use crate::engine::handler::HandlerFacts;
use crate::engine::placement;
use crate::program;
use crate::program::AsmOp;
use vstd::prelude::*;

verus! {

/// `whole` binds every label that the handler reserves.
spec fn bound(whole: Seq<AsmOp>) -> bool {
    forall|l: u16| l < handler::LABELS ==> #[trigger] program::binds(whole, l)
}

/// `t` is `s` and `n` more steps of a sound program, with `code` bytes of code and `pool`
/// bytes of literals; the labels of the program `whole` are where `at` has them.
spec fn grows(
    s: Seq<AsmOp>,
    t: Seq<AsmOp>,
    at: Seq<int>,
    whole: Seq<AsmOp>,
    n: int,
    code: int,
    pool: int,
) -> bool {
    &&& t.len() == s.len() + n
    &&& program::label_count(t) == program::label_count(s)
    &&& program::code_len(t) == program::code_len(s) + code
    &&& program::pool_bound(t) == program::pool_bound(s) + pool
    &&& program::all_encodable(s) ==> program::all_encodable(t)
    &&& program::laid(s, at) ==> program::laid(t, at)
    &&& bound(whole) && program::closed_in(s, whole) ==> program::closed_in(t, whole)
    &&& program::names_blob(s, handler::LABELS) ==> program::names_blob(t, handler::LABELS)
}

/// Taking the address.
proof fn lemma_address(s: Seq<AsmOp>, at: Seq<int>, whole: Seq<AsmOp>)
    ensures
        grows(s, handler::take_address(s), at, whole, 10, 20, 0),
{
    broadcast use {program::group_program, program::group_laid};
}

/// A word of the reply.
proof fn lemma_word(s: Seq<AsmOp>, at: Seq<int>, whole: Seq<AsmOp>, src: u16, off: u8)
    requires
        src <= 7,
    ensures
        grows(s, handler::reply_word(s, src, off), at, whole, 19, 38, 0),
{
    broadcast use {program::group_program, program::group_laid};
}

/// Filling the flags.
proof fn lemma_fill(s: Seq<AsmOp>, at: Seq<int>, whole: Seq<AsmOp>)
    ensures
        grows(s, handler::fill_flags(s, 8), at, whole, 8, 16, 0),
{
    broadcast use {program::group_program, program::group_laid};

    reveal_with_fuel(handler::fill_flags, 9);
}

/// Copying the table.
proof fn lemma_copy(s: Seq<AsmOp>, at: Seq<int>, whole: Seq<AsmOp>, to: u16)
    requires
        to <= 7,
    ensures
        grows(s, handler::copy_table(s, to, 8), at, whole, 16, 32, 0),
{
    broadcast use {program::group_program, program::group_laid};

    reveal_with_fuel(handler::copy_table, 9);
}

/// Staging the table.
proof fn lemma_stage(s: Seq<AsmOp>, at: Seq<int>, whole: Seq<AsmOp>)
    ensures
        grows(s, handler::stage(s, 8), at, whole, 16, 32, 0),
{
    broadcast use {program::group_program, program::group_laid};

    reveal_with_fuel(handler::stage, 9);
}

/// Programming the table.
proof fn lemma_flash(s: Seq<AsmOp>, at: Seq<int>, whole: Seq<AsmOp>, f: HandlerFacts)
    ensures
        grows(s, handler::flash_write(
            s,
            f.nv_ptr,
            f.save_home,
            f.flag_base,
            handler::SAVE_LEN,
            f.flash_program,
        ), at, whole, 28, 56, 20),
{
    broadcast use {program::group_program, program::group_laid};

    let s1 = s.push(AsmOp::LdrLit(0, f.nv_ptr)).push(AsmOp::LdrImm(6, 0, 0)).push(
        AsmOp::LdrLit(0, (f.nv_ptr + 4) as u32),
    ).push(AsmOp::LdrImm(5, 0, 0)).push(AsmOp::AddsReg(6, 6, 5)).push(
        AsmOp::LdrLit(0, f.flag_base),
    );
    lemma_stage(s1, at, whole);
}

/// The knock check.
proof fn lemma_knock(s: Seq<AsmOp>, at: Seq<int>, whole: Seq<AsmOp>, f: HandlerFacts)
    requires
        program::label_count(s) >= handler::LABELS,
        at[handler::NOT_SAFE as int] == s.len() + 11,
        at[handler::TAIL as int] == s.len() + 18,
    ensures
        grows(s, handler::knock(s, f.cdb, f.oem_handler), at, whole, 21, 38, 8),
{
    broadcast use {program::group_program, program::group_laid};
}

/// The reboot arm.
proof fn lemma_reboot(s: Seq<AsmOp>, at: Seq<int>, whole: Seq<AsmOp>, entry: u32)
    requires
        program::label_count(s) >= handler::LABELS,
        at[handler::DEBUG_DONE as int] == s.len() + 5,
    ensures
        grows(s, handler::reboot_arm(s, entry), at, whole, 5, 10, 4),
{
    broadcast use {program::group_program, program::group_laid};
}

/// The debug verbs.
proof fn lemma_debug(s: Seq<AsmOp>, at: Seq<int>, whole: Seq<AsmOp>, f: HandlerFacts)
    requires
        program::label_count(s) >= handler::LABELS,
        at[handler::DEBUG_OK as int] == s.len() + 0,
        at[handler::NOT_CALL as int] == s.len() + 21,
        at[handler::NOT_POKE as int] == s.len() + 37,
    ensures
        grows(s, handler::debug_verbs(s, f.writer), at, whole, 38, 70, 4),
{
    broadcast use {program::group_program, program::group_laid};

    let s1 = s.push(AsmOp::Bind(handler::DEBUG_OK)).push(AsmOp::Push(0x01F0)).push(
        AsmOp::LdrLit(7, f.writer | 1),
    ).push(AsmOp::LdrbImm(4, 3, 4)).push(AsmOp::Compare(4, 0x0C)).push(
        AsmOp::Bne(handler::NOT_CALL),
    );
    lemma_address(s1, at, whole);
    let s2 = handler::take_address(s1);
    let s3 = s2.push(AsmOp::LdrbImm(0, 3, 9)).push(AsmOp::MovsImm(1, 1)).push(
        AsmOp::Orrs(6, 1),
    ).push(AsmOp::Blx(6)).push(AsmOp::B(handler::DEBUG_DONE)).push(
        AsmOp::Bind(handler::NOT_CALL),
    ).push(AsmOp::Compare(4, 0x0D)).push(AsmOp::Bne(handler::NOT_POKE));
    lemma_address(s3, at, whole);
}

/// The end of the debug verbs.
proof fn lemma_debug_end(s: Seq<AsmOp>, at: Seq<int>, whole: Seq<AsmOp>)
    requires
        program::label_count(s) >= handler::LABELS,
        at[handler::DEBUG_DONE as int] == s.len() + 0,
    ensures
        grows(s, handler::debug_end(s), at, whole, 3, 4, 0),
{
    broadcast use {program::group_program, program::group_laid};
}

/// SET.
proof fn lemma_set(s: Seq<AsmOp>, at: Seq<int>, whole: Seq<AsmOp>, f: HandlerFacts)
    requires
        program::label_count(s) >= handler::LABELS,
        at[handler::KNOCK_OK as int] == s.len() + 0,
        at[handler::NOT_SET as int] == s.len() + 14,
        at[handler::CLR as int] == s.len() + 95,
    ensures
        grows(s, handler::set_verb(s, f.writer, f.flag_base), at, whole, 15, 26, 8),
{
    broadcast use {program::group_program, program::group_laid};
}

/// RESET.
proof fn lemma_reset(s: Seq<AsmOp>, at: Seq<int>, whole: Seq<AsmOp>, f: HandlerFacts)
    requires
        program::label_count(s) >= handler::LABELS,
        at[handler::RESET_FLASH as int] == s.len() + 44,
        at[handler::NOT_RESET as int] == s.len() + 79,
        at[handler::CLR as int] == s.len() + 80,
    ensures
        grows(s, handler::reset_verb(s, f.flag_base, f.nv_ptr, f.save_home, f.flash_program), at, whole, 80, 156, 36),
{
    broadcast use {program::group_program, program::group_laid};

    let s1 = s.push(AsmOp::Compare(4, 0x04)).push(AsmOp::Bne(handler::NOT_RESET)).push(
        AsmOp::LdrbImm(0, 3, 6),
    ).push(AsmOp::Compare(0, abi::RESET_TO_OEM)).push(AsmOp::Bne(handler::RESET_FLASH)).push(
        AsmOp::LdrLit(0, f.flag_base),
    ).push(AsmOp::MovsImm(1, abi::STATE_PASSTHROUGH));
    lemma_fill(s1, at, whole);
    let s2 = handler::fill_flags(s1, 8);
    lemma_flash(s2, at, whole, f);
    let s3 = handler::flash_write(
        s2,
        f.nv_ptr,
        f.save_home,
        f.flag_base,
        handler::SAVE_LEN,
        f.flash_program,
    );
    let s4 = s3.push(AsmOp::B(handler::CLR)).push(AsmOp::Bind(handler::RESET_FLASH)).push(
        AsmOp::LdrLit(6, f.flag_base),
    ).push(AsmOp::LdrLit(2, f.save_home));
    lemma_copy(s4, at, whole, 6);
    let s5 = handler::copy_table(s4, 6, 8);
    let s6 = s5.push(AsmOp::Compare(0, abi::RESET_TO_DEFAULTS)).push(
        AsmOp::Bne(handler::CLR),
    ).push(AsmOp::LdrLit(0, f.flag_base)).push(AsmOp::MovsImm(1, abi::STATE_PASSTHROUGH));
    lemma_fill(s6, at, whole);
}

/// Clearing the reply.
proof fn lemma_clear(s: Seq<AsmOp>, at: Seq<int>, whole: Seq<AsmOp>)
    requires
        program::label_count(s) >= handler::LABELS,
        at[handler::CLR as int] == s.len() + 0,
        at[handler::CLR_LOOP as int] == s.len() + 2,
        at[handler::CLRD as int] == s.len() + 10,
    ensures
        grows(s, handler::clear_reply(s), at, whole, 11, 16, 0),
{
    broadcast use {program::group_program, program::group_laid};
}

/// FLASHWRITE.
proof fn lemma_flashwrite(s: Seq<AsmOp>, at: Seq<int>, whole: Seq<AsmOp>, f: HandlerFacts)
    requires
        program::label_count(s) >= handler::LABELS,
        at[handler::FLASH_REFUSE as int] == s.len() + 29,
        at[handler::FLASH_REPLY as int] == s.len() + 31,
        at[handler::NOT_FLASH as int] == s.len() + 71,
    ensures
        grows(s, handler::flashwrite_verb(s, f.flag_base, f.flash_program), at, whole, 72, 138, 24),
{
    broadcast use {program::group_program, program::group_laid};

    let s1 = s.push(AsmOp::Compare(4, 0x0A)).push(AsmOp::Bne(handler::NOT_FLASH));
    lemma_address(s1, at, whole);
    let s2 = handler::take_address(s1);
    let scratch = (f.flag_base + handler::FLASHWRITE_SCRATCH_OFF) as u32;
    let s3 = s2.push(AsmOp::LdrbImm(0, 3, 9)).push(AsmOp::LdrLit(1, scratch)).push(
        AsmOp::StrbImm(0, 1, 0),
    ).push(AsmOp::LdrLit(0, handler::FLASHWRITE_ALLOW_LO)).push(AsmOp::CompareReg(6, 0)).push(
        AsmOp::Blo(handler::FLASH_REFUSE),
    ).push(AsmOp::LdrLit(0, handler::FLASHWRITE_ALLOW_HI)).push(AsmOp::CompareReg(6, 0)).push(
        AsmOp::Bhs(handler::FLASH_REFUSE),
    ).push(AsmOp::LdrLit(0, scratch)).push(AsmOp::MovReg(1, 6)).push(AsmOp::MovsImm(2, 1)).push(
        AsmOp::MovsImm(3, 1),
    ).push(AsmOp::LdrLit(5, f.flash_program | 1)).push(AsmOp::Blx(5)).push(
        AsmOp::MovReg(4, 0),
    ).push(AsmOp::B(handler::FLASH_REPLY)).push(AsmOp::Bind(handler::FLASH_REFUSE)).push(
        AsmOp::LdrLit(4, handler::FLASHWRITE_REFUSE_STATUS),
    ).push(AsmOp::Bind(handler::FLASH_REPLY));
    lemma_word(s3, at, whole, 6, 0);
    let s4 = handler::reply_word(s3, 6, 0);
    lemma_word(s4, at, whole, 4, 4);
}

/// SAVE.
proof fn lemma_save(s: Seq<AsmOp>, at: Seq<int>, whole: Seq<AsmOp>, f: HandlerFacts)
    requires
        program::label_count(s) >= handler::LABELS,
        at[handler::NOT_SAVE as int] == s.len() + 51,
    ensures
        grows(s, handler::save_verb(s, f.flag_base, f.nv_ptr, f.save_home, f.flash_program), at, whole, 52, 102, 20),
{
    broadcast use {program::group_program, program::group_laid};

    let s1 = s.push(AsmOp::Compare(4, 0x0B)).push(AsmOp::Bne(handler::NOT_SAVE));
    lemma_flash(s1, at, whole, f);
    let s2 = handler::flash_write(
        s1,
        f.nv_ptr,
        f.save_home,
        f.flag_base,
        handler::SAVE_LEN,
        f.flash_program,
    );
    lemma_word(s2.push(AsmOp::MovReg(4, 0)), at, whole, 4, 0);
}

/// GET.
proof fn lemma_get(s: Seq<AsmOp>, at: Seq<int>, whole: Seq<AsmOp>, f: HandlerFacts)
    requires
        program::label_count(s) >= handler::LABELS,
        at[handler::NOT_GET as int] == s.len() + 11,
    ensures
        grows(s, handler::get_verb(s, f.flag_base), at, whole, 12, 22, 4),
{
    broadcast use {program::group_program, program::group_laid};
}

/// DUMPALL.
proof fn lemma_dump(s: Seq<AsmOp>, at: Seq<int>, whole: Seq<AsmOp>)
    requires
        program::label_count(s) >= handler::LABELS,
        at[handler::DUMP_LOOP as int] == s.len() + 13,
        at[handler::NOT_DUMP as int] == s.len() + 21,
        at[handler::DOCOMMIT as int] == s.len() + 48,
    ensures
        grows(s, handler::dump_verb(s), at, whole, 22, 40, 0),
{
    broadcast use {program::group_program, program::group_laid};

    let s1 = s.push(AsmOp::Compare(4, 0x09)).push(AsmOp::Bne(handler::NOT_DUMP));
    lemma_address(s1, at, whole);
}

/// The identity reply.
proof fn lemma_identity_reply(s: Seq<AsmOp>, at: Seq<int>, whole: Seq<AsmOp>, f: HandlerFacts)
    requires
        program::label_count(s) >= handler::LABELS,
        at[handler::ID_LOOP as int] == s.len() + 1,
        at[handler::ID_DONE as int] == s.len() + 9,
        at[handler::TBL_LOOP as int] == s.len() + 13,
        at[handler::DOCOMMIT as int] == s.len() + 22,
    ensures
        grows(s, handler::identity_reply(s, f.flag_base), at, whole, 22, 38, 4),
{
    broadcast use {program::group_program, program::group_laid};
}

/// IDENTITY: the text is the blob behind the reserved labels.
proof fn lemma_identity(s: Seq<AsmOp>, at: Seq<int>, whole: Seq<AsmOp>, f: HandlerFacts)
    requires
        program::label_count(s) == handler::LABELS,
        at[handler::ID_LOOP as int] == s.len() + 5,
        at[handler::ID_DONE as int] == s.len() + 13,
        at[handler::TBL_LOOP as int] == s.len() + 17,
        at[handler::DOCOMMIT as int] == s.len() + 26,
    ensures
        ({
            let t = handler::identity_verb(s, f.flag_base);
            &&& t.len() == s.len() + 26
            &&& program::label_count(t) == handler::LABELS + 1
            &&& program::code_len(t) == program::code_len(s) + 44
            &&& program::pool_bound(t) == program::pool_bound(s) + 20
            &&& program::all_encodable(s) ==> program::all_encodable(t)
            &&& program::laid(s, at) ==> program::laid(t, at)
            &&& bound(whole) && program::names_blob(whole, handler::LABELS) && program::closed_in(
                s,
                whole,
            ) ==> program::closed_in(t, whole)
            &&& program::names_blob(t, handler::LABELS)
        }),
{
    broadcast use {program::group_program, program::group_laid};

    let s1 = s.push(AsmOp::Compare(4, 0x01)).push(AsmOp::Bne(handler::DOCOMMIT));
    let s2 = s1.push(AsmOp::Blob(handler::IDENTITY@)).push(AsmOp::Adr(6, handler::LABELS));
    lemma_identity_reply(s2, at, whole, f);
}

/// The commit.
proof fn lemma_commit(s: Seq<AsmOp>, at: Seq<int>, whole: Seq<AsmOp>, f: HandlerFacts)
    requires
        program::label_count(s) >= handler::LABELS,
        at[handler::DOCOMMIT as int] == s.len() + 0,
    ensures
        grows(s, handler::commit_reply(s, f.length_field, f.commit_off, f.commit), at, whole, 8, 14, 12),
{
    broadcast use {program::group_program, program::group_laid};
}

/// The labels come first.
proof fn lemma_labels(at: Seq<int>, whole: Seq<AsmOp>, n: nat)
    ensures
        ({
            let s = handler::reserve(Seq::empty(), n);
            &&& s.len() == n
            &&& program::label_count(s) == n
            &&& program::code_len(s) == 0
            &&& program::pool_bound(s) == 0
            &&& program::all_encodable(s)
            &&& program::laid(s, at)
            &&& program::closed_in(s, whole)
        }),
    decreases n,
{
    broadcast use {program::group_program, program::group_laid};

    if n > 0 {
        lemma_labels(at, whole, (n - 1) as nat);
    }
}

/// Where the labels are, by number; the durable verbs begin at `b`.
spec fn places(b: int) -> Seq<int> {
    seq![
        42,
        b,
        b + 14,
        b + 94,
        b + 59,
        b + 229,
        b + 95,
        b + 97,
        b + 105,
        b + 241,
        b + 177,
        b + 135,
        b + 137,
        b + 263,
        b + 255,
        b + 269,
        b + 277,
        b + 281,
        b + 290,
        35,
        45,
        66,
        82,
        b - 3,
    ]
}

/// The handler binds every label it reserves.
proof fn lemma_bound(f: HandlerFacts)
    ensures
        bound(handler::handler_program(f)),
{
    let ops = handler::handler_program(f);
    let at = places(45 + placement::debug_len(f));
    placement::lemma_laid_out(f);
    assert forall|l: u16| l < handler::LABELS implies #[trigger] program::binds(ops, l) by {
        assert(placement::first(ops, l, at[l as int]));
        program::lemma_binds_at(ops, at[l as int], l);
    }
}

/// Whatever it is built from, the handler assembles.
pub proof fn lemma_handler_sound(f: HandlerFacts)
    ensures
        program::sound(handler::handler_program(f)),
        program::code_len(handler::handler_program(f)) >= 0x20,
{
    reveal(handler::handler_program);
    let whole = handler::handler_program(f);
    let b = 45 + placement::debug_len(f);
    let at = places(b);
    lemma_bound(f);
    let s0 = handler::reserve(Seq::empty(), handler::LABELS as nat);
    lemma_labels(at, whole, handler::LABELS as nat);
    let s1 = handler::knock(s0, f.cdb, f.oem_handler);
    lemma_knock(s0, at, whole, f);
    let s2 = handler::debug_dispatch(s1, f.writer, f.boot_entry);
    let d1 = handler::debug_verbs(s1, f.writer);
    lemma_debug(s1, at, whole, f);
    if f.boot_entry != 0 {
        lemma_reboot(d1, at, whole, f.boot_entry);
        lemma_debug_end(handler::reboot_arm(d1, f.boot_entry), at, whole);
    } else {
        lemma_debug_end(d1, at, whole);
    }
    let s3 = handler::set_verb(s2, f.writer, f.flag_base);
    lemma_set(s2, at, whole, f);
    let s4 = handler::reset_verb(s3, f.flag_base, f.nv_ptr, f.save_home, f.flash_program);
    lemma_reset(s3, at, whole, f);
    let s5 = handler::clear_reply(s4);
    lemma_clear(s4, at, whole);
    let s6 = handler::flashwrite_verb(s5, f.flag_base, f.flash_program);
    lemma_flashwrite(s5, at, whole, f);
    let s7 = handler::save_verb(s6, f.flag_base, f.nv_ptr, f.save_home, f.flash_program);
    lemma_save(s6, at, whole, f);
    let s8 = handler::get_verb(s7, f.flag_base);
    lemma_get(s7, at, whole, f);
    let s9 = handler::dump_verb(s8);
    lemma_dump(s8, at, whole);
    let s10 = handler::identity_verb(s9, f.flag_base);
    lemma_identity(s9, at, whole, f);
    lemma_commit(s10, at, whole, f);
    program::lemma_laid_in_reach(whole, at);
}

} // verus!
