//! Where the parts of the injected handler and their labels are.
use crate::abi;
use crate::engine::handler;
use crate::engine::handler::HandlerFacts;
use crate::program;
use crate::program::AsmOp;
use vstd::prelude::*;

verus! {

/// The part of the handler that binds a label.
pub open spec fn owner(l: u16) -> int {
    if l == handler::TAIL || l == handler::NOT_SAFE {
        1
    } else if l == handler::DEBUG_OK || l == handler::NOT_CALL || l == handler::NOT_POKE || l
        == handler::DEBUG_DONE {
        2
    } else if l == handler::KNOCK_OK || l == handler::NOT_SET {
        3
    } else if l == handler::RESET_FLASH || l == handler::NOT_RESET {
        4
    } else if l == handler::CLR || l == handler::CLR_LOOP || l == handler::CLRD {
        5
    } else if l == handler::NOT_FLASH || l == handler::FLASH_REFUSE || l == handler::FLASH_REPLY {
        6
    } else if l == handler::NOT_SAVE {
        7
    } else if l == handler::NOT_GET {
        8
    } else if l == handler::NOT_DUMP || l == handler::DUMP_LOOP {
        9
    } else if l == handler::ID_LOOP || l == handler::ID_DONE || l == handler::TBL_LOOP {
        10
    } else {
        11
    }
}

/// `t` is `s` and `n` more.
spec fn extends(s: Seq<AsmOp>, t: Seq<AsmOp>, n: int) -> bool {
    &&& t.len() == s.len() + n
    &&& forall|j: int| 0 <= j < s.len() ==> #[trigger] t[j] == s[j]
}

/// The labels that are bound from `lo` up to `hi` belong to `part`.
spec fn owned(ops: Seq<AsmOp>, lo: int, hi: int, part: int) -> bool {
    forall|j: int|
        lo <= j < hi ==> (#[trigger] ops[j] matches AsmOp::Bind(l) ==> owner(l) == part)
}

/// What `t` has behind `s` binds `label` at `p` first.
spec fn first_in(s: Seq<AsmOp>, t: Seq<AsmOp>, label: u16, p: int) -> bool {
    &&& t[s.len() + p] == AsmOp::Bind(label)
    &&& forall|j: int| 0 <= j < p ==> #[trigger] t[s.len() + j] != AsmOp::Bind(label)
}

/// `label` is first bound at `p`.
pub open spec fn first(ops: Seq<AsmOp>, label: u16, p: int) -> bool {
    &&& 0 <= p < ops.len()
    &&& ops[p] == AsmOp::Bind(label)
    &&& forall|j: int| 0 <= j < p ==> #[trigger] ops[j] != AsmOp::Bind(label)
}

/// The knock check from `b` on.
#[verifier::opaque]
pub open spec fn knock_code(ops: Seq<AsmOp>, f: HandlerFacts, b: int) -> bool {
    &&& ops[b] == AsmOp::LdrLit(3, f.cdb)
    &&& ops[b + 1] == AsmOp::LdrbImm(0, 3, 1)
    &&& ops[b + 2] == AsmOp::Compare(0, abi::KNOCK_MODE)
    &&& ops[b + 3] == AsmOp::Bne(handler::TAIL)
    &&& ops[b + 4] == AsmOp::LdrbImm(0, 3, 2)
    &&& ops[b + 5] == AsmOp::Compare(0, 0xC0)
    &&& ops[b + 6] == AsmOp::Bne(handler::NOT_SAFE)
    &&& ops[b + 7] == AsmOp::LdrbImm(0, 3, 3)
    &&& ops[b + 8] == AsmOp::Compare(0, 0xDE)
    &&& ops[b + 9] == AsmOp::Bne(handler::TAIL)
    &&& ops[b + 10] == AsmOp::B(handler::KNOCK_OK)
    &&& ops[b + 11] == AsmOp::Bind(handler::NOT_SAFE)
    &&& ops[b + 12] == AsmOp::Compare(0, 0xDE)
    &&& ops[b + 13] == AsmOp::Bne(handler::TAIL)
    &&& ops[b + 14] == AsmOp::LdrbImm(0, 3, 3)
    &&& ops[b + 15] == AsmOp::Compare(0, 0xB9)
    &&& ops[b + 16] == AsmOp::Bne(handler::TAIL)
    &&& ops[b + 17] == AsmOp::B(handler::DEBUG_OK)
    &&& ops[b + 18] == AsmOp::Bind(handler::TAIL)
    &&& ops[b + 19] == AsmOp::LdrLit(3, f.oem_handler | 1)
    &&& ops[b + 20] == AsmOp::Bx(3)
}

/// Behind any instructions, the knock check is as listed and binds its own labels only.
proof fn lemma_knock_code(s: Seq<AsmOp>, f: HandlerFacts)
    ensures
        ({
            let t = handler::knock(s, f.cdb, f.oem_handler);
            &&& extends(s, t, 21)
            &&& owned(t, s.len() as int, t.len() as int, 1)
            &&& knock_code(t, f, s.len() as int)
            &&& first_in(s, t, handler::NOT_SAFE, 11)
            &&& first_in(s, t, handler::TAIL, 18)
        }),
{
    reveal(knock_code);
}

/// What follows does not move the knock check.
proof fn lemma_knock_moved(t: Seq<AsmOp>, ops: Seq<AsmOp>, n: int, f: HandlerFacts, b: int)
    requires
        extends(t, ops, n),
        0 <= b,
        b + 21 <= t.len(),
        knock_code(t, f, b),
    ensures
        knock_code(ops, f, b),
{
    reveal(knock_code);
}

/// The entry of the durable verbs and SET from `b` on.
#[verifier::opaque]
pub open spec fn set_code(ops: Seq<AsmOp>, f: HandlerFacts, b: int) -> bool {
    &&& ops[b] == AsmOp::Bind(handler::KNOCK_OK)
    &&& ops[b + 1] == AsmOp::Push(0x01F0)
    &&& ops[b + 2] == AsmOp::LdrLit(7, f.writer | 1)
    &&& ops[b + 3] == AsmOp::LdrbImm(4, 3, 4)
    &&& ops[b + 4] == AsmOp::Compare(4, 0x02)
    &&& ops[b + 5] == AsmOp::Bne(handler::NOT_SET)
    &&& ops[b + 6] == AsmOp::LdrLit(0, f.flag_base)
    &&& ops[b + 7] == AsmOp::LdrbImm(1, 3, 5)
    &&& ops[b + 8] == AsmOp::Compare(1, 8)
    &&& ops[b + 9] == AsmOp::Bhs(handler::CLR)
    &&& ops[b + 10] == AsmOp::AddsReg(0, 0, 1)
    &&& ops[b + 11] == AsmOp::LdrbImm(1, 3, 6)
    &&& ops[b + 12] == AsmOp::StrbImm(1, 0, 0)
    &&& ops[b + 13] == AsmOp::B(handler::CLR)
    &&& ops[b + 14] == AsmOp::Bind(handler::NOT_SET)
}

/// Behind any instructions, SET is as listed and binds its own labels only.
proof fn lemma_set_code(s: Seq<AsmOp>, f: HandlerFacts)
    ensures
        ({
            let t = handler::set_verb(s, f.writer, f.flag_base);
            &&& extends(s, t, 15)
            &&& owned(t, s.len() as int, t.len() as int, 3)
            &&& set_code(t, f, s.len() as int)
            &&& first_in(s, t, handler::KNOCK_OK, 0)
            &&& first_in(s, t, handler::NOT_SET, 14)
        }),
{
    reveal(set_code);
}

/// What follows does not move SET.
proof fn lemma_set_moved(t: Seq<AsmOp>, ops: Seq<AsmOp>, n: int, f: HandlerFacts, b: int)
    requires
        extends(t, ops, n),
        0 <= b,
        b + 15 <= t.len(),
        set_code(t, f, b),
    ensures
        set_code(ops, f, b),
{
    reveal(set_code);
}

/// RESET from `b` on.
#[verifier::opaque]
pub open spec fn reset_code(ops: Seq<AsmOp>, f: HandlerFacts, b: int) -> bool {
    &&& reset_head_code(ops, f, b)
    &&& flash_code(ops, f, b + 15)
    &&& reset_tail_code(ops, f, b + 43)
}

/// The staging of the flags and the call of the flash routine from `p` on.
pub open spec fn flash_code(ops: Seq<AsmOp>, f: HandlerFacts, p: int) -> bool {
    &&& ops[p] == AsmOp::LdrLit(0, f.nv_ptr)
    &&& ops[p + 1] == AsmOp::LdrImm(6, 0, 0)
    &&& ops[p + 2] == AsmOp::LdrLit(0, (f.nv_ptr + 4) as u32)
    &&& ops[p + 3] == AsmOp::LdrImm(5, 0, 0)
    &&& ops[p + 4] == AsmOp::AddsReg(6, 6, 5)
    &&& ops[p + 5] == AsmOp::LdrLit(0, f.flag_base)
    &&& forall|k: int|
        0 <= k < 8 ==> #[trigger] ops[p + 6 + 2 * k] == AsmOp::LdrbImm(1, 0, k as u16)
    &&& forall|k: int|
        0 <= k < 8 ==> #[trigger] ops[p + 6 + 2 * k + 1] == AsmOp::StrbImm(1, 6, k as u16)
    &&& ops[p + 22] == AsmOp::MovReg(0, 5)
    &&& ops[p + 23] == AsmOp::LdrLit(1, f.save_home)
    &&& ops[p + 24] == AsmOp::MovsImm(2, handler::SAVE_LEN)
    &&& ops[p + 25] == AsmOp::MovsImm(3, 1)
    &&& ops[p + 26] == AsmOp::LdrLit(5, f.flash_program | 1)
    &&& ops[p + 27] == AsmOp::Blx(5)
}

/// Behind any instructions, a write of the flags to flash is as listed and binds no label.
#[verifier::rlimit(60)]
proof fn lemma_flash_code(s: Seq<AsmOp>, f: HandlerFacts)
    ensures
        ({
            let t = handler::flash_write(
                s,
                f.nv_ptr,
                f.save_home,
                f.flag_base,
                handler::SAVE_LEN,
                f.flash_program,
            );
            &&& extends(s, t, 28)
            &&& flash_code(t, f, s.len() as int)
            &&& forall|j: int| s.len() <= j < t.len() ==> !((#[trigger] t[j]) is Bind)
        }),
{
    reveal_with_fuel(handler::stage, 9);
}

/// What follows does not move a write of the flags to flash.
proof fn lemma_flash_moved(t: Seq<AsmOp>, ops: Seq<AsmOp>, n: int, f: HandlerFacts, p: int)
    requires
        extends(t, ops, n),
        0 <= p,
        p + 28 <= t.len(),
        flash_code(t, f, p),
    ensures
        flash_code(ops, f, p),
{
}

/// The first arm of RESET from `b` on, up to the write to flash.
pub open spec fn reset_head_code(ops: Seq<AsmOp>, f: HandlerFacts, b: int) -> bool {
    &&& ops[b] == AsmOp::Compare(4, 0x04)
    &&& ops[b + 1] == AsmOp::Bne(handler::NOT_RESET)
    &&& ops[b + 2] == AsmOp::LdrbImm(0, 3, 6)
    &&& ops[b + 3] == AsmOp::Compare(0, abi::RESET_TO_OEM)
    &&& ops[b + 4] == AsmOp::Bne(handler::RESET_FLASH)
    &&& ops[b + 5] == AsmOp::LdrLit(0, f.flag_base)
    &&& ops[b + 6] == AsmOp::MovsImm(1, abi::STATE_PASSTHROUGH)
    &&& forall|k: int| 0 <= k < 8 ==> #[trigger] ops[b + 7 + k] == AsmOp::StrbImm(1, 0, k as u16)
}

/// The first arm of RESET.
proof fn lemma_reset_head(s: Seq<AsmOp>, f: HandlerFacts) -> (s2: Seq<AsmOp>)
    ensures
        s2 == handler::fill_flags(
            s.push(AsmOp::Compare(4, 0x04)).push(AsmOp::Bne(handler::NOT_RESET)).push(
                AsmOp::LdrbImm(0, 3, 6),
            ).push(AsmOp::Compare(0, abi::RESET_TO_OEM)).push(
                AsmOp::Bne(handler::RESET_FLASH),
            ).push(AsmOp::LdrLit(0, f.flag_base)).push(
                AsmOp::MovsImm(1, abi::STATE_PASSTHROUGH),
            ),
            8,
        ),
        extends(s, s2, 15),
        forall|j: int| s.len() <= j < s2.len() ==> !((#[trigger] s2[j]) is Bind),
        reset_head_code(s2, f, s.len() as int),
{
    reveal_with_fuel(handler::fill_flags, 9);
    handler::fill_flags(
        s.push(AsmOp::Compare(4, 0x04)).push(AsmOp::Bne(handler::NOT_RESET)).push(
            AsmOp::LdrbImm(0, 3, 6),
        ).push(AsmOp::Compare(0, abi::RESET_TO_OEM)).push(AsmOp::Bne(handler::RESET_FLASH)).push(
            AsmOp::LdrLit(0, f.flag_base),
        ).push(AsmOp::MovsImm(1, abi::STATE_PASSTHROUGH)),
        8,
    )
}

/// The other arms of RESET, from `b` on.
pub open spec fn reset_tail_code(ops: Seq<AsmOp>, f: HandlerFacts, b: int) -> bool {
    &&& ops[b] == AsmOp::B(handler::CLR)
    &&& ops[b + 1] == AsmOp::Bind(handler::RESET_FLASH)
    &&& ops[b + 2] == AsmOp::LdrLit(6, f.flag_base)
    &&& ops[b + 3] == AsmOp::LdrLit(2, f.save_home)
    &&& forall|k: int|
        0 <= k < 8 ==> #[trigger] ops[b + 4 + 2 * k] == AsmOp::LdrbImm(1, 2, k as u16)
    &&& forall|k: int|
        0 <= k < 8 ==> #[trigger] ops[b + 4 + 2 * k + 1] == AsmOp::StrbImm(1, 6, k as u16)
    &&& ops[b + 20] == AsmOp::Compare(0, abi::RESET_TO_DEFAULTS)
    &&& ops[b + 21] == AsmOp::Bne(handler::CLR)
    &&& ops[b + 22] == AsmOp::LdrLit(0, f.flag_base)
    &&& ops[b + 23] == AsmOp::MovsImm(1, abi::STATE_PASSTHROUGH)
    &&& forall|k: int| 0 <= k < 8 ==> #[trigger] ops[b + 24 + k] == AsmOp::StrbImm(1, 0, k as u16)
    &&& ops[b + 32] == AsmOp::MovsImm(1, abi::STATE_ON)
    &&& ops[b + 33] == AsmOp::StrbImm(1, 0, 3)
    &&& ops[b + 34] == AsmOp::StrbImm(1, 0, 4)
    &&& ops[b + 35] == AsmOp::B(handler::CLR)
    &&& ops[b + 36] == AsmOp::Bind(handler::NOT_RESET)
}

/// The other arms of RESET behind any instructions.
#[verifier::rlimit(60)]
proof fn lemma_reset_tail(s3: Seq<AsmOp>, f: HandlerFacts) -> (t: Seq<AsmOp>)
    ensures
        ({
            let s4 = s3.push(AsmOp::B(handler::CLR)).push(AsmOp::Bind(handler::RESET_FLASH)).push(
                AsmOp::LdrLit(6, f.flag_base),
            ).push(AsmOp::LdrLit(2, f.save_home));
            let s5 = handler::copy_table(s4, 6, 8);
            let s6 = s5.push(AsmOp::Compare(0, abi::RESET_TO_DEFAULTS)).push(
                AsmOp::Bne(handler::CLR),
            ).push(AsmOp::LdrLit(0, f.flag_base)).push(
                AsmOp::MovsImm(1, abi::STATE_PASSTHROUGH),
            );
            let s7 = handler::fill_flags(s6, 8);
            t == s7.push(AsmOp::MovsImm(1, abi::STATE_ON)).push(AsmOp::StrbImm(1, 0, 3)).push(
                AsmOp::StrbImm(1, 0, 4),
            ).push(AsmOp::B(handler::CLR)).push(AsmOp::Bind(handler::NOT_RESET))
        }),
        extends(s3, t, 37),
        reset_tail_code(t, f, s3.len() as int),
        forall|j: int|
            s3.len() <= j < t.len() && j != s3.len() + 1 && j != s3.len() + 36 ==> !((
            #[trigger] t[j]) is Bind),
{
    reveal_with_fuel(handler::fill_flags, 9);
    reveal_with_fuel(handler::copy_table, 9);
    let s4 = s3.push(AsmOp::B(handler::CLR)).push(AsmOp::Bind(handler::RESET_FLASH)).push(
        AsmOp::LdrLit(6, f.flag_base),
    ).push(AsmOp::LdrLit(2, f.save_home));
    let s5 = handler::copy_table(s4, 6, 8);
    let s6 = s5.push(AsmOp::Compare(0, abi::RESET_TO_DEFAULTS)).push(
        AsmOp::Bne(handler::CLR),
    ).push(AsmOp::LdrLit(0, f.flag_base)).push(AsmOp::MovsImm(1, abi::STATE_PASSTHROUGH));
    let s7 = handler::fill_flags(s6, 8);
    s7.push(AsmOp::MovsImm(1, abi::STATE_ON)).push(AsmOp::StrbImm(1, 0, 3)).push(
        AsmOp::StrbImm(1, 0, 4),
    ).push(AsmOp::B(handler::CLR)).push(AsmOp::Bind(handler::NOT_RESET))
}

/// Behind any instructions, RESET is as listed and binds its own labels only.
proof fn lemma_reset_code(s: Seq<AsmOp>, f: HandlerFacts)
    ensures
        ({
            let t = handler::reset_verb(s, f.flag_base, f.nv_ptr, f.save_home, f.flash_program);
            &&& extends(s, t, 80)
            &&& owned(t, s.len() as int, t.len() as int, 4)
            &&& reset_code(t, f, s.len() as int)
            &&& first_in(s, t, handler::RESET_FLASH, 44)
            &&& first_in(s, t, handler::NOT_RESET, 79)
        }),
{
    let s2 = lemma_reset_head(s, f);
    lemma_flash_code(s2, f);
    let s3 = handler::flash_write(
        s2,
        f.nv_ptr,
        f.save_home,
        f.flag_base,
        handler::SAVE_LEN,
        f.flash_program,
    );
    let t = lemma_reset_tail(s3, f);
    assert(t == handler::reset_verb(s, f.flag_base, f.nv_ptr, f.save_home, f.flash_program));
    lemma_extends(s, s2, s3, 15, 28);
    lemma_extends(s, s3, t, 43, 37);
    lemma_extends(s2, s3, t, 28, 37);
    lemma_flash_moved(s3, t, 37, f, s2.len() as int);
    lemma_reset_parts(s, s2, s3, t, f);
}

/// The arms of RESET make it up.
proof fn lemma_reset_parts(
    s: Seq<AsmOp>,
    s2: Seq<AsmOp>,
    s3: Seq<AsmOp>,
    t: Seq<AsmOp>,
    f: HandlerFacts,
)
    requires
        extends(s, s2, 15),
        extends(s2, s3, 28),
        extends(s3, t, 37),
        extends(s2, t, 65),
        extends(s, t, 80),
        forall|j: int| s.len() <= j < s2.len() ==> !((#[trigger] s2[j]) is Bind),
        forall|j: int| s2.len() <= j < s3.len() ==> !((#[trigger] s3[j]) is Bind),
        forall|j: int|
            s3.len() <= j < t.len() && j != s3.len() + 1 && j != s3.len() + 36 ==> !((
            #[trigger] t[j]) is Bind),
        reset_head_code(s2, f, s.len() as int),
        flash_code(t, f, s2.len() as int),
        reset_tail_code(t, f, s3.len() as int),
    ensures
        owned(t, s.len() as int, t.len() as int, 4),
        reset_code(t, f, s.len() as int),
        first_in(s, t, handler::RESET_FLASH, 44),
        first_in(s, t, handler::NOT_RESET, 79),
{
    reveal(reset_code);
    let b = s.len() as int;
    assert forall|j: int| b <= j < t.len() && j != b + 44 && j != b + 79 implies !((
    #[trigger] t[j]) is Bind) by {
        if j < b + 15 {
            assert(t[j] == s2[j]);
        } else if j < b + 43 {
            assert(t[j] == s3[j]);
        }
    }
    assert(t[b + 44] == AsmOp::Bind(handler::RESET_FLASH));
    assert(t[b + 79] == AsmOp::Bind(handler::NOT_RESET));
    assert forall|k: int| 0 <= k < 8 implies #[trigger] t[b + 7 + k] == AsmOp::StrbImm(
        1,
        0,
        k as u16,
    ) by {
        assert(t[b + 7 + k] == s2[b + 7 + k]);
    }
}

/// What follows does not move RESET.
proof fn lemma_reset_moved(t: Seq<AsmOp>, ops: Seq<AsmOp>, n: int, f: HandlerFacts, b: int)
    requires
        extends(t, ops, n),
        0 <= b,
        b + 80 <= t.len(),
        reset_code(t, f, b),
    ensures
        reset_code(ops, f, b),
{
    reveal(reset_code);
}

/// The clearing of the reply from `b` on.
#[verifier::opaque]
pub open spec fn clear_code(ops: Seq<AsmOp>, b: int) -> bool {
    &&& ops[b] == AsmOp::Bind(handler::CLR)
    &&& ops[b + 1] == AsmOp::MovsImm(5, 0)
    &&& ops[b + 2] == AsmOp::Bind(handler::CLR_LOOP)
    &&& ops[b + 3] == AsmOp::Compare(5, handler::CLEAR_LEN)
    &&& ops[b + 4] == AsmOp::Bhs(handler::CLRD)
    &&& ops[b + 5] == AsmOp::MovReg(0, 5)
    &&& ops[b + 6] == AsmOp::MovsImm(1, 0)
    &&& ops[b + 7] == AsmOp::Blx(7)
    &&& ops[b + 8] == AsmOp::AddsImm(5, 1)
    &&& ops[b + 9] == AsmOp::B(handler::CLR_LOOP)
    &&& ops[b + 10] == AsmOp::Bind(handler::CLRD)
}

/// Behind any instructions, the clearing of the reply is as listed and binds its own labels only.
proof fn lemma_clear_code(s: Seq<AsmOp>, f: HandlerFacts)
    ensures
        ({
            let t = handler::clear_reply(s);
            &&& extends(s, t, 11)
            &&& owned(t, s.len() as int, t.len() as int, 5)
            &&& clear_code(t, s.len() as int)
            &&& first_in(s, t, handler::CLR, 0)
            &&& first_in(s, t, handler::CLR_LOOP, 2)
            &&& first_in(s, t, handler::CLRD, 10)
        }),
{
    reveal(clear_code);
}

/// What follows does not move the clearing of the reply.
proof fn lemma_clear_moved(t: Seq<AsmOp>, ops: Seq<AsmOp>, n: int, f: HandlerFacts, b: int)
    requires
        extends(t, ops, n),
        0 <= b,
        b + 11 <= t.len(),
        clear_code(t, b),
    ensures
        clear_code(ops, b),
{
    reveal(clear_code);
}

/// FLASHWRITE from `b` on.
#[verifier::opaque]
pub open spec fn flashwrite_code(ops: Seq<AsmOp>, f: HandlerFacts, b: int) -> bool {
    &&& ops[b] == AsmOp::Compare(4, 0x0A)
    &&& ops[b + 1] == AsmOp::Bne(handler::NOT_FLASH)
    &&& ops[b + 2] == AsmOp::LdrbImm(6, 3, 5)
    &&& ops[b + 3] == AsmOp::LslsImm(6, 6, 8)
    &&& ops[b + 4] == AsmOp::LdrbImm(0, 3, 6)
    &&& ops[b + 5] == AsmOp::AddsReg(6, 6, 0)
    &&& ops[b + 6] == AsmOp::LslsImm(6, 6, 8)
    &&& ops[b + 7] == AsmOp::LdrbImm(0, 3, 7)
    &&& ops[b + 8] == AsmOp::AddsReg(6, 6, 0)
    &&& ops[b + 9] == AsmOp::LslsImm(6, 6, 8)
    &&& ops[b + 10] == AsmOp::LdrbImm(0, 3, 8)
    &&& ops[b + 11] == AsmOp::AddsReg(6, 6, 0)
    &&& ops[b + 12] == AsmOp::LdrbImm(0, 3, 9)
    &&& ops[b + 13] == AsmOp::LdrLit(1, (f.flag_base + handler::FLASHWRITE_SCRATCH_OFF) as u32)
    &&& ops[b + 14] == AsmOp::StrbImm(0, 1, 0)
    &&& ops[b + 15] == AsmOp::LdrLit(0, handler::FLASHWRITE_ALLOW_LO)
    &&& ops[b + 16] == AsmOp::CompareReg(6, 0)
    &&& ops[b + 17] == AsmOp::Blo(handler::FLASH_REFUSE)
    &&& ops[b + 18] == AsmOp::LdrLit(0, handler::FLASHWRITE_ALLOW_HI)
    &&& ops[b + 19] == AsmOp::CompareReg(6, 0)
    &&& ops[b + 20] == AsmOp::Bhs(handler::FLASH_REFUSE)
    &&& ops[b + 21] == AsmOp::LdrLit(0, (f.flag_base + handler::FLASHWRITE_SCRATCH_OFF) as u32)
    &&& ops[b + 22] == AsmOp::MovReg(1, 6)
    &&& ops[b + 23] == AsmOp::MovsImm(2, 1)
    &&& ops[b + 24] == AsmOp::MovsImm(3, 1)
    &&& ops[b + 25] == AsmOp::LdrLit(5, f.flash_program | 1)
    &&& ops[b + 26] == AsmOp::Blx(5)
    &&& ops[b + 27] == AsmOp::MovReg(4, 0)
    &&& ops[b + 28] == AsmOp::B(handler::FLASH_REPLY)
    &&& ops[b + 29] == AsmOp::Bind(handler::FLASH_REFUSE)
    &&& ops[b + 30] == AsmOp::LdrLit(4, handler::FLASHWRITE_REFUSE_STATUS)
    &&& ops[b + 31] == AsmOp::Bind(handler::FLASH_REPLY)
    &&& ops[b + 32] == AsmOp::LsrsImm(5, 6, 24)
    &&& ops[b + 33] == AsmOp::MovsImm(0, 0)
    &&& ops[b + 34] == AsmOp::MovReg(1, 5)
    &&& ops[b + 35] == AsmOp::Blx(7)
    &&& ops[b + 36] == AsmOp::LslsImm(5, 6, 8)
    &&& ops[b + 37] == AsmOp::LsrsImm(5, 5, 24)
    &&& ops[b + 38] == AsmOp::MovsImm(0, 1)
    &&& ops[b + 39] == AsmOp::MovReg(1, 5)
    &&& ops[b + 40] == AsmOp::Blx(7)
    &&& ops[b + 41] == AsmOp::LslsImm(5, 6, 16)
    &&& ops[b + 42] == AsmOp::LsrsImm(5, 5, 24)
    &&& ops[b + 43] == AsmOp::MovsImm(0, 2)
    &&& ops[b + 44] == AsmOp::MovReg(1, 5)
    &&& ops[b + 45] == AsmOp::Blx(7)
    &&& ops[b + 46] == AsmOp::LslsImm(5, 6, 24)
    &&& ops[b + 47] == AsmOp::LsrsImm(5, 5, 24)
    &&& ops[b + 48] == AsmOp::MovsImm(0, 3)
    &&& ops[b + 49] == AsmOp::MovReg(1, 5)
    &&& ops[b + 50] == AsmOp::Blx(7)
    &&& ops[b + 51] == AsmOp::LsrsImm(5, 4, 24)
    &&& ops[b + 52] == AsmOp::MovsImm(0, 4)
    &&& ops[b + 53] == AsmOp::MovReg(1, 5)
    &&& ops[b + 54] == AsmOp::Blx(7)
    &&& ops[b + 55] == AsmOp::LslsImm(5, 4, 8)
    &&& ops[b + 56] == AsmOp::LsrsImm(5, 5, 24)
    &&& ops[b + 57] == AsmOp::MovsImm(0, 5)
    &&& ops[b + 58] == AsmOp::MovReg(1, 5)
    &&& ops[b + 59] == AsmOp::Blx(7)
    &&& ops[b + 60] == AsmOp::LslsImm(5, 4, 16)
    &&& ops[b + 61] == AsmOp::LsrsImm(5, 5, 24)
    &&& ops[b + 62] == AsmOp::MovsImm(0, 6)
    &&& ops[b + 63] == AsmOp::MovReg(1, 5)
    &&& ops[b + 64] == AsmOp::Blx(7)
    &&& ops[b + 65] == AsmOp::LslsImm(5, 4, 24)
    &&& ops[b + 66] == AsmOp::LsrsImm(5, 5, 24)
    &&& ops[b + 67] == AsmOp::MovsImm(0, 7)
    &&& ops[b + 68] == AsmOp::MovReg(1, 5)
    &&& ops[b + 69] == AsmOp::Blx(7)
    &&& ops[b + 70] == AsmOp::B(handler::DOCOMMIT)
    &&& ops[b + 71] == AsmOp::Bind(handler::NOT_FLASH)
}

/// Behind any instructions, FLASHWRITE is as listed and binds its own labels only.
#[verifier::rlimit(100)]
#[verifier::spinoff_prover]
proof fn lemma_flashwrite_code(s: Seq<AsmOp>, f: HandlerFacts)
    ensures
        ({
            let t = handler::flashwrite_verb(s, f.flag_base, f.flash_program);
            &&& extends(s, t, 72)
            &&& owned(t, s.len() as int, t.len() as int, 6)
            &&& flashwrite_code(t, f, s.len() as int)
            &&& first_in(s, t, handler::FLASH_REFUSE, 29)
            &&& first_in(s, t, handler::FLASH_REPLY, 31)
            &&& first_in(s, t, handler::NOT_FLASH, 71)
        }),
{
    reveal(flashwrite_code);
}

/// What follows does not move FLASHWRITE.
proof fn lemma_flashwrite_moved(t: Seq<AsmOp>, ops: Seq<AsmOp>, n: int, f: HandlerFacts, b: int)
    requires
        extends(t, ops, n),
        0 <= b,
        b + 72 <= t.len(),
        flashwrite_code(t, f, b),
    ensures
        flashwrite_code(ops, f, b),
{
    reveal(flashwrite_code);
}

/// SAVE from `b` on.
#[verifier::opaque]
pub open spec fn save_code(ops: Seq<AsmOp>, f: HandlerFacts, b: int) -> bool {
    &&& ops[b] == AsmOp::Compare(4, 0x0B)
    &&& ops[b + 1] == AsmOp::Bne(handler::NOT_SAVE)
    &&& ops[b + 2] == AsmOp::LdrLit(0, f.nv_ptr)
    &&& ops[b + 3] == AsmOp::LdrImm(6, 0, 0)
    &&& ops[b + 4] == AsmOp::LdrLit(0, (f.nv_ptr + 4) as u32)
    &&& ops[b + 5] == AsmOp::LdrImm(5, 0, 0)
    &&& ops[b + 6] == AsmOp::AddsReg(6, 6, 5)
    &&& ops[b + 7] == AsmOp::LdrLit(0, f.flag_base)
    &&& ops[b + 24] == AsmOp::MovReg(0, 5)
    &&& ops[b + 25] == AsmOp::LdrLit(1, f.save_home)
    &&& ops[b + 26] == AsmOp::MovsImm(2, handler::SAVE_LEN)
    &&& ops[b + 27] == AsmOp::MovsImm(3, 1)
    &&& ops[b + 28] == AsmOp::LdrLit(5, f.flash_program | 1)
    &&& ops[b + 29] == AsmOp::Blx(5)
    &&& ops[b + 30] == AsmOp::MovReg(4, 0)
    &&& ops[b + 31] == AsmOp::LsrsImm(5, 4, 24)
    &&& ops[b + 32] == AsmOp::MovsImm(0, 0)
    &&& ops[b + 33] == AsmOp::MovReg(1, 5)
    &&& ops[b + 34] == AsmOp::Blx(7)
    &&& ops[b + 35] == AsmOp::LslsImm(5, 4, 8)
    &&& ops[b + 36] == AsmOp::LsrsImm(5, 5, 24)
    &&& ops[b + 37] == AsmOp::MovsImm(0, 1)
    &&& ops[b + 38] == AsmOp::MovReg(1, 5)
    &&& ops[b + 39] == AsmOp::Blx(7)
    &&& ops[b + 40] == AsmOp::LslsImm(5, 4, 16)
    &&& ops[b + 41] == AsmOp::LsrsImm(5, 5, 24)
    &&& ops[b + 42] == AsmOp::MovsImm(0, 2)
    &&& ops[b + 43] == AsmOp::MovReg(1, 5)
    &&& ops[b + 44] == AsmOp::Blx(7)
    &&& ops[b + 45] == AsmOp::LslsImm(5, 4, 24)
    &&& ops[b + 46] == AsmOp::LsrsImm(5, 5, 24)
    &&& ops[b + 47] == AsmOp::MovsImm(0, 3)
    &&& ops[b + 48] == AsmOp::MovReg(1, 5)
    &&& ops[b + 49] == AsmOp::Blx(7)
    &&& ops[b + 50] == AsmOp::B(handler::DOCOMMIT)
    &&& ops[b + 51] == AsmOp::Bind(handler::NOT_SAVE)
    &&& forall|k: int|
        0 <= k < 8 ==> #[trigger] ops[b + 8 + 2 * k] == AsmOp::LdrbImm(1, 0, k as u16)
    &&& forall|k: int|
        0 <= k < 8 ==> #[trigger] ops[b + 8 + 2 * k + 1] == AsmOp::StrbImm(1, 6, k as u16)
}

/// Behind any instructions, SAVE is as listed and binds its own labels only.
#[verifier::rlimit(60)]
proof fn lemma_save_code(s: Seq<AsmOp>, f: HandlerFacts)
    ensures
        ({
            let t = handler::save_verb(s, f.flag_base, f.nv_ptr, f.save_home, f.flash_program);
            &&& extends(s, t, 52)
            &&& owned(t, s.len() as int, t.len() as int, 7)
            &&& save_code(t, f, s.len() as int)
            &&& first_in(s, t, handler::NOT_SAVE, 51)
        }),
{
    reveal(save_code);
    reveal_with_fuel(handler::stage, 9);
}

/// What follows does not move SAVE.
proof fn lemma_save_moved(t: Seq<AsmOp>, ops: Seq<AsmOp>, n: int, f: HandlerFacts, b: int)
    requires
        extends(t, ops, n),
        0 <= b,
        b + 52 <= t.len(),
        save_code(t, f, b),
    ensures
        save_code(ops, f, b),
{
    reveal(save_code);
}

/// GET from `b` on.
#[verifier::opaque]
pub open spec fn get_code(ops: Seq<AsmOp>, f: HandlerFacts, b: int) -> bool {
    &&& ops[b] == AsmOp::Compare(4, 0x03)
    &&& ops[b + 1] == AsmOp::Bne(handler::NOT_GET)
    &&& ops[b + 2] == AsmOp::LdrLit(0, f.flag_base)
    &&& ops[b + 3] == AsmOp::LdrbImm(1, 3, 5)
    &&& ops[b + 4] == AsmOp::Compare(1, 8)
    &&& ops[b + 5] == AsmOp::Bhs(handler::NOT_GET)
    &&& ops[b + 6] == AsmOp::AddsReg(0, 0, 1)
    &&& ops[b + 7] == AsmOp::LdrbImm(1, 0, 0)
    &&& ops[b + 8] == AsmOp::MovsImm(0, 0)
    &&& ops[b + 9] == AsmOp::Blx(7)
    &&& ops[b + 10] == AsmOp::B(handler::DOCOMMIT)
    &&& ops[b + 11] == AsmOp::Bind(handler::NOT_GET)
}

/// Behind any instructions, GET is as listed and binds its own labels only.
proof fn lemma_get_code(s: Seq<AsmOp>, f: HandlerFacts)
    ensures
        ({
            let t = handler::get_verb(s, f.flag_base);
            &&& extends(s, t, 12)
            &&& owned(t, s.len() as int, t.len() as int, 8)
            &&& get_code(t, f, s.len() as int)
            &&& first_in(s, t, handler::NOT_GET, 11)
        }),
{
    reveal(get_code);
}

/// What follows does not move GET.
proof fn lemma_get_moved(t: Seq<AsmOp>, ops: Seq<AsmOp>, n: int, f: HandlerFacts, b: int)
    requires
        extends(t, ops, n),
        0 <= b,
        b + 12 <= t.len(),
        get_code(t, f, b),
    ensures
        get_code(ops, f, b),
{
    reveal(get_code);
}

/// DUMPALL from `b` on.
#[verifier::opaque]
pub open spec fn dump_code(ops: Seq<AsmOp>, b: int) -> bool {
    &&& ops[b] == AsmOp::Compare(4, 0x09)
    &&& ops[b + 1] == AsmOp::Bne(handler::NOT_DUMP)
    &&& ops[b + 2] == AsmOp::LdrbImm(6, 3, 5)
    &&& ops[b + 3] == AsmOp::LslsImm(6, 6, 8)
    &&& ops[b + 4] == AsmOp::LdrbImm(0, 3, 6)
    &&& ops[b + 5] == AsmOp::AddsReg(6, 6, 0)
    &&& ops[b + 6] == AsmOp::LslsImm(6, 6, 8)
    &&& ops[b + 7] == AsmOp::LdrbImm(0, 3, 7)
    &&& ops[b + 8] == AsmOp::AddsReg(6, 6, 0)
    &&& ops[b + 9] == AsmOp::LslsImm(6, 6, 8)
    &&& ops[b + 10] == AsmOp::LdrbImm(0, 3, 8)
    &&& ops[b + 11] == AsmOp::AddsReg(6, 6, 0)
    &&& ops[b + 12] == AsmOp::MovsImm(5, 0)
    &&& ops[b + 13] == AsmOp::Bind(handler::DUMP_LOOP)
    &&& ops[b + 14] == AsmOp::Compare(5, handler::CLEAR_LEN)
    &&& ops[b + 15] == AsmOp::Bhs(handler::DOCOMMIT)
    &&& ops[b + 16] == AsmOp::MovReg(0, 5)
    &&& ops[b + 17] == AsmOp::LdrbReg(1, 6, 5)
    &&& ops[b + 18] == AsmOp::Blx(7)
    &&& ops[b + 19] == AsmOp::AddsImm(5, 1)
    &&& ops[b + 20] == AsmOp::B(handler::DUMP_LOOP)
    &&& ops[b + 21] == AsmOp::Bind(handler::NOT_DUMP)
}

/// Behind any instructions, DUMPALL is as listed and binds its own labels only.
proof fn lemma_dump_code(s: Seq<AsmOp>, f: HandlerFacts)
    ensures
        ({
            let t = handler::dump_verb(s);
            &&& extends(s, t, 22)
            &&& owned(t, s.len() as int, t.len() as int, 9)
            &&& dump_code(t, s.len() as int)
            &&& first_in(s, t, handler::DUMP_LOOP, 13)
            &&& first_in(s, t, handler::NOT_DUMP, 21)
        }),
{
    reveal(dump_code);
}

/// What follows does not move DUMPALL.
proof fn lemma_dump_moved(t: Seq<AsmOp>, ops: Seq<AsmOp>, n: int, f: HandlerFacts, b: int)
    requires
        extends(t, ops, n),
        0 <= b,
        b + 22 <= t.len(),
        dump_code(t, b),
    ensures
        dump_code(ops, b),
{
    reveal(dump_code);
}

/// IDENTITY from `b` on.
#[verifier::opaque]
pub open spec fn identity_code(ops: Seq<AsmOp>, f: HandlerFacts, b: int) -> bool {
    &&& ops[b] == AsmOp::Compare(4, 0x01)
    &&& ops[b + 1] == AsmOp::Bne(handler::DOCOMMIT)
    &&& ops[b + 4] == AsmOp::MovsImm(5, 0)
    &&& ops[b + 5] == AsmOp::Bind(handler::ID_LOOP)
    &&& ops[b + 6] == AsmOp::Compare(5, handler::ID_LEN)
    &&& ops[b + 7] == AsmOp::Bhs(handler::ID_DONE)
    &&& ops[b + 8] == AsmOp::MovReg(0, 5)
    &&& ops[b + 9] == AsmOp::LdrbReg(1, 6, 5)
    &&& ops[b + 10] == AsmOp::Blx(7)
    &&& ops[b + 11] == AsmOp::AddsImm(5, 1)
    &&& ops[b + 12] == AsmOp::B(handler::ID_LOOP)
    &&& ops[b + 13] == AsmOp::Bind(handler::ID_DONE)
    &&& ops[b + 14] == AsmOp::LdrLit(6, f.flag_base)
    &&& ops[b + 15] == AsmOp::MovsImm(5, handler::ID_LEN)
    &&& ops[b + 16] == AsmOp::MovsImm(2, 1)
    &&& ops[b + 17] == AsmOp::Bind(handler::TBL_LOOP)
    &&& ops[b + 18] == AsmOp::Compare(2, 8)
    &&& ops[b + 19] == AsmOp::Bhs(handler::DOCOMMIT)
    &&& ops[b + 20] == AsmOp::LdrbReg(1, 6, 2)
    &&& ops[b + 21] == AsmOp::MovReg(0, 5)
    &&& ops[b + 22] == AsmOp::Blx(7)
    &&& ops[b + 23] == AsmOp::AddsImm(5, 1)
    &&& ops[b + 24] == AsmOp::AddsImm(2, 1)
    &&& ops[b + 25] == AsmOp::B(handler::TBL_LOOP)
    &&& ops[b + 2] is Blob
    &&& ops[b + 3] matches AsmOp::Adr(r, _) && r == 6
}

/// Behind any instructions, IDENTITY is as listed and binds its own labels only.
proof fn lemma_identity_code(s: Seq<AsmOp>, f: HandlerFacts)
    ensures
        ({
            let t = handler::identity_verb(s, f.flag_base);
            &&& extends(s, t, 26)
            &&& owned(t, s.len() as int, t.len() as int, 10)
            &&& identity_code(t, f, s.len() as int)
            &&& first_in(s, t, handler::ID_LOOP, 5)
            &&& first_in(s, t, handler::ID_DONE, 13)
            &&& first_in(s, t, handler::TBL_LOOP, 17)
        }),
{
    reveal(identity_code);
}

/// What follows does not move IDENTITY.
proof fn lemma_identity_moved(t: Seq<AsmOp>, ops: Seq<AsmOp>, n: int, f: HandlerFacts, b: int)
    requires
        extends(t, ops, n),
        0 <= b,
        b + 26 <= t.len(),
        identity_code(t, f, b),
    ensures
        identity_code(ops, f, b),
{
    reveal(identity_code);
}

/// The end of a reply from `b` on.
#[verifier::opaque]
pub open spec fn commit_code(ops: Seq<AsmOp>, f: HandlerFacts, b: int) -> bool {
    &&& ops[b] == AsmOp::Bind(handler::DOCOMMIT)
    &&& ops[b + 1] == AsmOp::MovsImm(0, handler::CLEAR_LEN)
    &&& ops[b + 2] == AsmOp::LdrLit(1, f.length_field)
    &&& ops[b + 3] == AsmOp::StrhImm(0, 1, 0)
    &&& ops[b + 4] == AsmOp::LdrLit(0, f.commit_off)
    &&& ops[b + 5] == AsmOp::LdrLit(2, f.commit | 1)
    &&& ops[b + 6] == AsmOp::Blx(2)
    &&& ops[b + 7] == AsmOp::Pop(0x01F0)
}

/// Behind any instructions, the end of a reply is as listed and binds its own labels only.
proof fn lemma_commit_code(s: Seq<AsmOp>, f: HandlerFacts)
    ensures
        ({
            let t = handler::commit_reply(s, f.length_field, f.commit_off, f.commit);
            &&& extends(s, t, 8)
            &&& owned(t, s.len() as int, t.len() as int, 11)
            &&& commit_code(t, f, s.len() as int)
            &&& first_in(s, t, handler::DOCOMMIT, 0)
        }),
{
    reveal(commit_code);
}

/// The debug verbs from `b` on.
#[verifier::opaque]
pub open spec fn debug_code(ops: Seq<AsmOp>, f: HandlerFacts, b: int) -> bool {
    let e = b + debug_len(f);
    &&& ops[b] == AsmOp::Bind(handler::DEBUG_OK)
    &&& ops[b + 1] == AsmOp::Push(0x01F0)
    &&& ops[b + 2] == AsmOp::LdrLit(7, f.writer | 1)
    &&& ops[b + 3] == AsmOp::LdrbImm(4, 3, 4)
    &&& ops[b + 4] == AsmOp::Compare(4, 0x0C)
    &&& ops[b + 5] == AsmOp::Bne(handler::NOT_CALL)
    &&& ops[b + 6] == AsmOp::LdrbImm(6, 3, 5)
    &&& ops[b + 7] == AsmOp::LslsImm(6, 6, 8)
    &&& ops[b + 8] == AsmOp::LdrbImm(0, 3, 6)
    &&& ops[b + 9] == AsmOp::AddsReg(6, 6, 0)
    &&& ops[b + 10] == AsmOp::LslsImm(6, 6, 8)
    &&& ops[b + 11] == AsmOp::LdrbImm(0, 3, 7)
    &&& ops[b + 12] == AsmOp::AddsReg(6, 6, 0)
    &&& ops[b + 13] == AsmOp::LslsImm(6, 6, 8)
    &&& ops[b + 14] == AsmOp::LdrbImm(0, 3, 8)
    &&& ops[b + 15] == AsmOp::AddsReg(6, 6, 0)
    &&& ops[b + 16] == AsmOp::LdrbImm(0, 3, 9)
    &&& ops[b + 17] == AsmOp::MovsImm(1, 1)
    &&& ops[b + 18] == AsmOp::Orrs(6, 1)
    &&& ops[b + 19] == AsmOp::Blx(6)
    &&& ops[b + 20] == AsmOp::B(handler::DEBUG_DONE)
    &&& ops[b + 21] == AsmOp::Bind(handler::NOT_CALL)
    &&& ops[b + 22] == AsmOp::Compare(4, 0x0D)
    &&& ops[b + 23] == AsmOp::Bne(handler::NOT_POKE)
    &&& ops[b + 24] == AsmOp::LdrbImm(6, 3, 5)
    &&& ops[b + 25] == AsmOp::LslsImm(6, 6, 8)
    &&& ops[b + 26] == AsmOp::LdrbImm(0, 3, 6)
    &&& ops[b + 27] == AsmOp::AddsReg(6, 6, 0)
    &&& ops[b + 28] == AsmOp::LslsImm(6, 6, 8)
    &&& ops[b + 29] == AsmOp::LdrbImm(0, 3, 7)
    &&& ops[b + 30] == AsmOp::AddsReg(6, 6, 0)
    &&& ops[b + 31] == AsmOp::LslsImm(6, 6, 8)
    &&& ops[b + 32] == AsmOp::LdrbImm(0, 3, 8)
    &&& ops[b + 33] == AsmOp::AddsReg(6, 6, 0)
    &&& ops[b + 34] == AsmOp::LdrbImm(0, 3, 9)
    &&& ops[b + 35] == AsmOp::StrbImm(0, 6, 0)
    &&& ops[b + 36] == AsmOp::B(handler::DEBUG_DONE)
    &&& ops[b + 37] == AsmOp::Bind(handler::NOT_POKE)
    &&& f.boot_entry != 0 ==> {
        &&& ops[b + 38] == AsmOp::Compare(4, 0x0F)
        &&& ops[b + 39] == AsmOp::Bne(handler::DEBUG_DONE)
        &&& ops[b + 40] == AsmOp::MovsImm(0, 4)
        &&& ops[b + 41] == AsmOp::LdrLit(5, f.boot_entry | 1)
        &&& ops[b + 42] == AsmOp::Blx(5)
    }
    &&& ops[e - 3] == AsmOp::Bind(handler::DEBUG_DONE)
    &&& ops[e - 2] == AsmOp::MovsImm(4, 0)
    &&& ops[e - 1] == AsmOp::B(handler::CLR)
}

/// Behind any instructions, the debug verbs is as listed and binds its own labels only.
#[verifier::rlimit(60)]
proof fn lemma_debug_code(s: Seq<AsmOp>, f: HandlerFacts)
    ensures
        ({
            let t = handler::debug_dispatch(s, f.writer, f.boot_entry);
            &&& extends(s, t, debug_len(f))
            &&& owned(t, s.len() as int, t.len() as int, 2)
            &&& debug_code(t, f, s.len() as int)
            &&& first_in(s, t, handler::DEBUG_OK, 0)
            &&& first_in(s, t, handler::NOT_CALL, 21)
            &&& first_in(s, t, handler::NOT_POKE, 37)
            &&& first_in(s, t, handler::DEBUG_DONE, debug_len(f) - 3)
        }),
{
    reveal(debug_code);
}

/// What follows does not move the debug verbs.
proof fn lemma_debug_moved(t: Seq<AsmOp>, ops: Seq<AsmOp>, n: int, f: HandlerFacts, b: int)
    requires
        extends(t, ops, n),
        0 <= b,
        b + debug_len(f) <= t.len(),
        debug_code(t, f, b),
    ensures
        debug_code(ops, f, b),
{
    reveal(debug_code);
}

/// Instructions of the debug verbs.
pub open spec fn debug_len(f: HandlerFacts) -> int {
    if f.boot_entry != 0 {
        46
    } else {
        41
    }
}

/// The parts of the handler behind the knock check, with the durable verbs from `b` on.
pub open spec fn laid_out(ops: Seq<AsmOp>, f: HandlerFacts, b: int) -> bool {
    &&& b == 45 + debug_len(f)
    &&& ops.len() == b + 298
    &&& set_code(ops, f, b)
    &&& reset_code(ops, f, b + 15)
    &&& clear_code(ops, b + 95)
    &&& flashwrite_code(ops, f, b + 106)
    &&& save_code(ops, f, b + 178)
    &&& get_code(ops, f, b + 230)
    &&& dump_code(ops, b + 242)
    &&& identity_code(ops, f, b + 264)
    &&& commit_code(ops, f, b + 290)
}

/// The knock check and the debug verbs are behind the labels.
pub open spec fn opens(ops: Seq<AsmOp>, f: HandlerFacts) -> bool {
    &&& forall|j: int| 0 <= j < 24 ==> #[trigger] ops[j] is Label
    &&& knock_code(ops, f, 24)
    &&& debug_code(ops, f, 45)
}

/// Where the labels are.
pub open spec fn labelled(ops: Seq<AsmOp>, b: int) -> bool {
    &&& first(ops, handler::NOT_SAFE, 35)
    &&& first(ops, handler::TAIL, 42)
    &&& first(ops, handler::KNOCK_OK, b)
    &&& first(ops, handler::NOT_SET, b + 14)
    &&& first(ops, handler::RESET_FLASH, b + 59)
    &&& first(ops, handler::NOT_RESET, b + 94)
    &&& first(ops, handler::CLR, b + 95)
    &&& first(ops, handler::CLR_LOOP, b + 97)
    &&& first(ops, handler::CLRD, b + 105)
    &&& first(ops, handler::NOT_FLASH, b + 177)
    &&& first(ops, handler::NOT_SAVE, b + 229)
    &&& first(ops, handler::NOT_GET, b + 241)
    &&& first(ops, handler::NOT_DUMP, b + 263)
    &&& first(ops, handler::FLASH_REFUSE, b + 135)
    &&& first(ops, handler::ID_LOOP, b + 269)
    &&& first(ops, handler::ID_DONE, b + 277)
    &&& first(ops, handler::TBL_LOOP, b + 281)
    &&& first(ops, handler::DOCOMMIT, b + 290)
    &&& first(ops, handler::DUMP_LOOP, b + 255)
    &&& first(ops, handler::FLASH_REPLY, b + 137)
    &&& first(ops, handler::DEBUG_OK, 45)
    &&& first(ops, handler::NOT_CALL, 66)
    &&& first(ops, handler::NOT_POKE, 82)
    &&& first(ops, handler::DEBUG_DONE, b - 3)
}

/// Reserved labels.
proof fn lemma_reserved(n: nat)
    ensures
        handler::reserve(Seq::empty(), n).len() == n,
        forall|j: int| 0 <= j < n ==> #[trigger] handler::reserve(Seq::empty(), n)[j] is Label,
    decreases n,
{
    if n > 0 {
        lemma_reserved((n - 1) as nat);
    }
}

/// `t` extends `s`, and so does all that extends `t`.
proof fn lemma_extends(s: Seq<AsmOp>, t: Seq<AsmOp>, u: Seq<AsmOp>, n: int, m: int)
    requires
        extends(s, t, n),
        extends(t, u, m),
        n >= 0,
        m >= 0,
    ensures
        extends(s, u, n + m),
{
    assert forall|j: int| 0 <= j < s.len() implies #[trigger] u[j] == s[j] by {
        assert(u[j] == t[j]);
        assert(t[j] == s[j]);
    }
}

/// The labels that a part binds belong to it in the whole program too.
proof fn lemma_owned(t: Seq<AsmOp>, u: Seq<AsmOp>, n: int, lo: int, hi: int, part: int)
    requires
        extends(t, u, n),
        0 <= lo,
        hi <= t.len(),
        owned(t, lo, hi, part),
    ensures
        owned(u, lo, hi, part),
{
    assert forall|j: int| lo <= j < hi implies (#[trigger] u[j] matches AsmOp::Bind(l) ==> owner(l)
        == part) by {
        assert(u[j] == t[j]);
    }
}

/// Every part binds its own labels only.
spec fn parted(ops: Seq<AsmOp>, b: int) -> bool {
    &&& b >= 45
    &&& forall|j: int| 0 <= j < 24 ==> #[trigger] ops[j] is Label
    &&& owned(ops, 24, 45, 1)
    &&& owned(ops, 45, b, 2)
    &&& owned(ops, b, b + 15, 3)
    &&& owned(ops, b + 15, b + 95, 4)
    &&& owned(ops, b + 95, b + 106, 5)
    &&& owned(ops, b + 106, b + 178, 6)
    &&& owned(ops, b + 178, b + 230, 7)
    &&& owned(ops, b + 230, b + 242, 8)
    &&& owned(ops, b + 242, b + 264, 9)
    &&& owned(ops, b + 264, b + 290, 10)
    &&& owned(ops, b + 290, b + 298, 11)
}

/// The parts make up the handler.
proof fn lemma_joined(
    f: HandlerFacts,
    s0: Seq<AsmOp>,
    s1: Seq<AsmOp>,
    s2: Seq<AsmOp>,
    s3: Seq<AsmOp>,
    s4: Seq<AsmOp>,
    s5: Seq<AsmOp>,
    s6: Seq<AsmOp>,
    s7: Seq<AsmOp>,
    s8: Seq<AsmOp>,
    s9: Seq<AsmOp>,
    s10: Seq<AsmOp>,
    s11: Seq<AsmOp>,
)
    requires
        s0.len() == 24,
        forall|j: int| 0 <= j < 24 ==> #[trigger] s0[j] is Label,
        extends(s0, s1, 21),
        owned(s1, s0.len() as int, s1.len() as int, 1),
        knock_code(s1, f, s0.len() as int),
        first_in(s0, s1, handler::NOT_SAFE, 11),
        first_in(s0, s1, handler::TAIL, 18),
        extends(s1, s2, debug_len(f)),
        owned(s2, s1.len() as int, s2.len() as int, 2),
        debug_code(s2, f, s1.len() as int),
        first_in(s1, s2, handler::DEBUG_OK, 0),
        first_in(s1, s2, handler::NOT_CALL, 21),
        first_in(s1, s2, handler::NOT_POKE, 37),
        first_in(s1, s2, handler::DEBUG_DONE, debug_len(f) - 3),
        extends(s2, s3, 15),
        owned(s3, s2.len() as int, s3.len() as int, 3),
        set_code(s3, f, s2.len() as int),
        first_in(s2, s3, handler::KNOCK_OK, 0),
        first_in(s2, s3, handler::NOT_SET, 14),
        extends(s3, s4, 80),
        owned(s4, s3.len() as int, s4.len() as int, 4),
        reset_code(s4, f, s3.len() as int),
        first_in(s3, s4, handler::RESET_FLASH, 44),
        first_in(s3, s4, handler::NOT_RESET, 79),
        extends(s4, s5, 11),
        owned(s5, s4.len() as int, s5.len() as int, 5),
        clear_code(s5, s4.len() as int),
        first_in(s4, s5, handler::CLR, 0),
        first_in(s4, s5, handler::CLR_LOOP, 2),
        first_in(s4, s5, handler::CLRD, 10),
        extends(s5, s6, 72),
        owned(s6, s5.len() as int, s6.len() as int, 6),
        flashwrite_code(s6, f, s5.len() as int),
        first_in(s5, s6, handler::FLASH_REFUSE, 29),
        first_in(s5, s6, handler::FLASH_REPLY, 31),
        first_in(s5, s6, handler::NOT_FLASH, 71),
        extends(s6, s7, 52),
        owned(s7, s6.len() as int, s7.len() as int, 7),
        save_code(s7, f, s6.len() as int),
        first_in(s6, s7, handler::NOT_SAVE, 51),
        extends(s7, s8, 12),
        owned(s8, s7.len() as int, s8.len() as int, 8),
        get_code(s8, f, s7.len() as int),
        first_in(s7, s8, handler::NOT_GET, 11),
        extends(s8, s9, 22),
        owned(s9, s8.len() as int, s9.len() as int, 9),
        dump_code(s9, s8.len() as int),
        first_in(s8, s9, handler::DUMP_LOOP, 13),
        first_in(s8, s9, handler::NOT_DUMP, 21),
        extends(s9, s10, 26),
        owned(s10, s9.len() as int, s10.len() as int, 10),
        identity_code(s10, f, s9.len() as int),
        first_in(s9, s10, handler::ID_LOOP, 5),
        first_in(s9, s10, handler::ID_DONE, 13),
        first_in(s9, s10, handler::TBL_LOOP, 17),
        extends(s10, s11, 8),
        owned(s11, s10.len() as int, s11.len() as int, 11),
        commit_code(s11, f, s10.len() as int),
        first_in(s10, s11, handler::DOCOMMIT, 0),
    ensures
        opens(s11, f),
        laid_out(s11, f, 45 + debug_len(f)),
        labelled(s11, 45 + debug_len(f)),
{
    let b = 45 + debug_len(f);
    let ops = s11;
    assert(extends(s10, ops, 8));
    lemma_extends(s9, s10, ops, 26, 8);
    lemma_extends(s8, s9, ops, 22, 34);
    lemma_extends(s7, s8, ops, 12, 56);
    lemma_extends(s6, s7, ops, 52, 68);
    lemma_extends(s5, s6, ops, 72, 120);
    lemma_extends(s4, s5, ops, 11, 192);
    lemma_extends(s3, s4, ops, 80, 203);
    lemma_extends(s2, s3, ops, 15, 283);
    lemma_extends(s1, s2, ops, debug_len(f), 298);
    lemma_extends(s0, s1, ops, 21, 298 + debug_len(f));
    lemma_owned(s1, ops, 298 + debug_len(f), 24, 45, 1);
    lemma_knock_moved(s1, ops, 298 + debug_len(f), f, 24);
    lemma_owned(s2, ops, 298, 45, b, 2);
    lemma_debug_moved(s2, ops, 298, f, 45);
    lemma_owned(s3, ops, 283, b, b + 15, 3);
    lemma_set_moved(s3, ops, 283, f, b);
    lemma_owned(s4, ops, 203, b + 15, b + 95, 4);
    lemma_reset_moved(s4, ops, 203, f, b + 15);
    lemma_owned(s5, ops, 192, b + 95, b + 106, 5);
    lemma_clear_moved(s5, ops, 192, f, b + 95);
    lemma_owned(s6, ops, 120, b + 106, b + 178, 6);
    lemma_flashwrite_moved(s6, ops, 120, f, b + 106);
    lemma_owned(s7, ops, 68, b + 178, b + 230, 7);
    lemma_save_moved(s7, ops, 68, f, b + 178);
    lemma_owned(s8, ops, 56, b + 230, b + 242, 8);
    lemma_get_moved(s8, ops, 56, f, b + 230);
    lemma_owned(s9, ops, 34, b + 242, b + 264, 9);
    lemma_dump_moved(s9, ops, 34, f, b + 242);
    lemma_owned(s10, ops, 8, b + 264, b + 290, 10);
    lemma_identity_moved(s10, ops, 8, f, b + 264);
    assert(parted(ops, b)) by {
        assert forall|j: int| 0 <= j < 24 implies #[trigger] ops[j] is Label by {
            assert(ops[j] == s0[j]);
        }
    }
    lemma_first(s0, s1, ops, b, handler::NOT_SAFE, 24, 35, 1);
    lemma_first(s0, s1, ops, b, handler::TAIL, 24, 42, 1);
    lemma_first(s1, s2, ops, b, handler::DEBUG_OK, 45, 45, 2);
    lemma_first(s1, s2, ops, b, handler::NOT_CALL, 45, 66, 2);
    lemma_first(s1, s2, ops, b, handler::NOT_POKE, 45, 82, 2);
    lemma_first(s1, s2, ops, b, handler::DEBUG_DONE, 45, b - 3, 2);
    lemma_first(s2, s3, ops, b, handler::KNOCK_OK, b, b + 0, 3);
    lemma_first(s2, s3, ops, b, handler::NOT_SET, b, b + 14, 3);
    lemma_first(s3, s4, ops, b, handler::RESET_FLASH, b + 15, b + 15 + 44, 4);
    lemma_first(s3, s4, ops, b, handler::NOT_RESET, b + 15, b + 15 + 79, 4);
    lemma_first(s4, s5, ops, b, handler::CLR, b + 95, b + 95 + 0, 5);
    lemma_first(s4, s5, ops, b, handler::CLR_LOOP, b + 95, b + 95 + 2, 5);
    lemma_first(s4, s5, ops, b, handler::CLRD, b + 95, b + 95 + 10, 5);
    lemma_first(s5, s6, ops, b, handler::FLASH_REFUSE, b + 106, b + 106 + 29, 6);
    lemma_first(s5, s6, ops, b, handler::FLASH_REPLY, b + 106, b + 106 + 31, 6);
    lemma_first(s5, s6, ops, b, handler::NOT_FLASH, b + 106, b + 106 + 71, 6);
    lemma_first(s6, s7, ops, b, handler::NOT_SAVE, b + 178, b + 178 + 51, 7);
    lemma_first(s7, s8, ops, b, handler::NOT_GET, b + 230, b + 230 + 11, 8);
    lemma_first(s8, s9, ops, b, handler::DUMP_LOOP, b + 242, b + 242 + 13, 9);
    lemma_first(s8, s9, ops, b, handler::NOT_DUMP, b + 242, b + 242 + 21, 9);
    lemma_first(s9, s10, ops, b, handler::ID_LOOP, b + 264, b + 264 + 5, 10);
    lemma_first(s9, s10, ops, b, handler::ID_DONE, b + 264, b + 264 + 13, 10);
    lemma_first(s9, s10, ops, b, handler::TBL_LOOP, b + 264, b + 264 + 17, 10);
    lemma_first(s10, s11, ops, b, handler::DOCOMMIT, b + 290, b + 290 + 0, 11);
}

/// Where the parts of the handler are.
pub proof fn lemma_laid_out(f: HandlerFacts)
    ensures
        opens(handler::handler_program(f), f),
        laid_out(handler::handler_program(f), f, 45 + debug_len(f)),
        labelled(handler::handler_program(f), 45 + debug_len(f)),
{
    reveal(handler::handler_program);
    let s0 = handler::reserve(Seq::empty(), handler::LABELS as nat);
    let s1 = handler::knock(s0, f.cdb, f.oem_handler);
    let s2 = handler::debug_dispatch(s1, f.writer, f.boot_entry);
    let s3 = handler::set_verb(s2, f.writer, f.flag_base);
    let s4 = handler::reset_verb(s3, f.flag_base, f.nv_ptr, f.save_home, f.flash_program);
    let s5 = handler::clear_reply(s4);
    let s6 = handler::flashwrite_verb(s5, f.flag_base, f.flash_program);
    let s7 = handler::save_verb(s6, f.flag_base, f.nv_ptr, f.save_home, f.flash_program);
    let s8 = handler::get_verb(s7, f.flag_base);
    let s9 = handler::dump_verb(s8);
    let s10 = handler::identity_verb(s9, f.flag_base);
    let s11 = handler::commit_reply(s10, f.length_field, f.commit_off, f.commit);
    lemma_reserved(handler::LABELS as nat);
    lemma_knock_code(s0, f);
    lemma_debug_code(s1, f);
    lemma_set_code(s2, f);
    lemma_reset_code(s3, f);
    lemma_clear_code(s4, f);
    lemma_flashwrite_code(s5, f);
    lemma_save_code(s6, f);
    lemma_get_code(s7, f);
    lemma_dump_code(s8, f);
    lemma_identity_code(s9, f);
    lemma_commit_code(s10, f);
    lemma_joined(f, s0, s1, s2, s3, s4, s5, s6, s7, s8, s9, s10, s11);
}

/// A label is first bound where its part first binds it.
proof fn lemma_first(
    s: Seq<AsmOp>,
    t: Seq<AsmOp>,
    ops: Seq<AsmOp>,
    b: int,
    label: u16,
    lo: int,
    p: int,
    part: int,
)
    requires
        parted(ops, b),
        s.len() == lo,
        24 <= lo <= p < t.len() <= ops.len(),
        ops.len() == b + 298,
        extends(t, ops, ops.len() - t.len()),
        owner(label) == part,
        first_in(s, t, label, p - lo),
        part_start(b, part) == lo,
    ensures
        first(ops, label, p),
{
    assert forall|j: int| 0 <= j < p implies #[trigger] ops[j] != AsmOp::Bind(label) by {
        if j >= lo {
            assert(t[s.len() + (j - lo)] == ops[j]);
        }
    }
}

/// Where a part begins.
spec fn part_start(b: int, part: int) -> int {
    if part == 1 {
        24
    } else if part == 2 {
        45
    } else if part == 3 {
        b
    } else if part == 4 {
        b + 15
    } else if part == 5 {
        b + 95
    } else if part == 6 {
        b + 106
    } else if part == 7 {
        b + 178
    } else if part == 8 {
        b + 230
    } else if part == 9 {
        b + 242
    } else if part == 10 {
        b + 264
    } else if part == 11 {
        b + 290
    } else {
        0
    }
}

} // verus!
