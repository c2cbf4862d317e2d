//! The injected `0x3C` handler and the always-on boot hook, section by section.
use crate::abi;
use crate::engine::mt1959::Mt1959Engine;
use crate::engine::reach;
use crate::error::FwError;
use crate::program;
use crate::program::AsmOp;
use thumb_asm::Asm;
use vstd::prelude::*;

verus! {

/// Bytes of every reply.
pub const CLEAR_LEN: u8 = 64;

/// Feature flags in the table; slot 0 comes before them.
pub const NUM_FEATURES: u8 = 7;

/// Bytes of the persisted flag table.
pub const SAVE_LEN: u8 = 8;

/// Lowest flash offset the write probe accepts.
pub const FLASHWRITE_ALLOW_LO: u32 = 0x001E_A000;

/// First flash offset past the window the write probe accepts.
pub const FLASHWRITE_ALLOW_HI: u32 = 0x001E_B000;

/// Offset of the write probe's staging byte from the flag table.
pub const FLASHWRITE_SCRATCH_OFF: u32 = 0x10;

/// `"REFU"`, the status of a refused write.
pub const FLASHWRITE_REFUSE_STATUS: u32 = 0x5245_4655;

/// Bytes of the identity text.
pub const ID_LEN: u8 = 13;

/// `"freemkv 0.1.0"`, what the identity reply leads with.
pub const IDENTITY: [u8; 13] = [
    0x66,
    0x72,
    0x65,
    0x65,
    0x6D,
    0x6B,
    0x76,
    0x20,
    0x30,
    0x2E,
    0x31,
    0x2E,
    0x30,
];

/// Label of the OEM tail call.
pub const TAIL: u16 = 0;

/// Label of the durable verbs.
pub const KNOCK_OK: u16 = 1;

/// Label of after SET.
pub const NOT_SET: u16 = 2;

/// Label of after RESET.
pub const NOT_RESET: u16 = 3;

/// Label of reset from flash.
pub const RESET_FLASH: u16 = 4;

/// Label of after SAVE.
pub const NOT_SAVE: u16 = 5;

/// Label of the reply clear.
pub const CLR: u16 = 6;

/// Label of the clear loop.
pub const CLR_LOOP: u16 = 7;

/// Label of after the clear.
pub const CLRD: u16 = 8;

/// Label of after GET.
pub const NOT_GET: u16 = 9;

/// Label of after FLASHWRITE.
pub const NOT_FLASH: u16 = 10;

/// Label of a refused write.
pub const FLASH_REFUSE: u16 = 11;

/// Label of the write reply.
pub const FLASH_REPLY: u16 = 12;

/// Label of after DUMPALL.
pub const NOT_DUMP: u16 = 13;

/// Label of the dump loop.
pub const DUMP_LOOP: u16 = 14;

/// Label of the identity loop.
pub const ID_LOOP: u16 = 15;

/// Label of after the identity text.
pub const ID_DONE: u16 = 16;

/// Label of the flag loop.
pub const TBL_LOOP: u16 = 17;

/// Label of the commit.
pub const DOCOMMIT: u16 = 18;

/// Label of a knock other than the safe one.
pub const NOT_SAFE: u16 = 19;

/// Label of the debug verbs.
pub const DEBUG_OK: u16 = 20;

/// Label of after CALL.
pub const NOT_CALL: u16 = 21;

/// Label of after POKE.
pub const NOT_POKE: u16 = 22;

/// Label of the end of the debug verbs.
pub const DEBUG_DONE: u16 = 23;

/// Labels the handler reserves up front.
pub const LABELS: u16 = 24;

/// The facts the handler is built from.
#[derive(Debug, Clone, Copy, PartialEq, Eq, Structural)]
pub struct HandlerFacts {
    /// Address the incoming CDB is read from.
    pub cdb: u32,
    /// The handler that served the opcode before.
    pub oem_handler: u32,
    /// The response byte-writer.
    pub writer: u32,
    /// The buffer offset the commit routine takes.
    pub commit_off: u32,
    /// The response-commit routine.
    pub commit: u32,
    /// The transfer-length cell.
    pub length_field: u32,
    /// The OEM flash PROGRAM routine.
    pub flash_program: u32,
    /// Flash home of the persisted flag table.
    pub save_home: u32,
    /// Cell that holds the NV window base.
    pub nv_ptr: u32,
    /// SRAM flag table.
    pub flag_base: u32,
    /// Boot function entry, or 0 where there is none to re-enter.
    pub boot_entry: u32,
}

/// `n` reserved labels.
pub open spec fn reserve(s: Seq<AsmOp>, n: nat) -> Seq<AsmOp>
    decreases n,
{
    if n == 0 {
        s
    } else {
        reserve(s, (n - 1) as nat).push(AsmOp::Label)
    }
}

/// Stores `r1` into the first `n` bytes `r0` points at.
pub open spec fn fill_flags(s: Seq<AsmOp>, n: nat) -> Seq<AsmOp>
    decreases n,
{
    if n == 0 {
        s
    } else {
        fill_flags(s, (n - 1) as nat).push(AsmOp::StrbImm(1, 0, (n - 1) as u16))
    }
}

/// Copies `n` bytes from where `r2` points to where register `to` points.
pub open spec fn copy_table(s: Seq<AsmOp>, to: u16, n: nat) -> Seq<AsmOp>
    decreases n,
{
    if n == 0 {
        s
    } else {
        copy_table(s, to, (n - 1) as nat).push(AsmOp::LdrbImm(1, 2, (n - 1) as u16)).push(
            AsmOp::StrbImm(1, to, (n - 1) as u16),
        )
    }
}

/// Copies `n` bytes from where `r0` points to where `r6` points.
pub open spec fn stage(s: Seq<AsmOp>, n: u8) -> Seq<AsmOp>
    decreases n,
{
    if n == 0 {
        s
    } else {
        stage(s, (n - 1) as u8).push(AsmOp::LdrbImm(1, 0, (n - 1) as u16)).push(
            AsmOp::StrbImm(1, 6, (n - 1) as u16),
        )
    }
}

fn emit_reserve(a: &mut Asm, n: u16)
    ensures
        program::asm_ops(*final(a)) == reserve(program::asm_ops(*old(a)), n as nat),
{
    let mut i: u16 = 0;
    while i < n
        invariant
            i <= n,
            program::asm_ops(*a) == reserve(program::asm_ops(*old(a)), i as nat),
        decreases n - i,
    {
        program::label(a);
        i += 1;
    }
}

fn emit_fill_flags(a: &mut Asm, n: u16)
    ensures
        program::asm_ops(*final(a)) == fill_flags(program::asm_ops(*old(a)), n as nat),
{
    let mut i: u16 = 0;
    while i < n
        invariant
            i <= n,
            program::asm_ops(*a) == fill_flags(program::asm_ops(*old(a)), i as nat),
        decreases n - i,
    {
        program::strb_imm(a, 1, 0, i);
        i += 1;
    }
}

fn emit_copy_table(a: &mut Asm, to: u16, n: u16)
    ensures
        program::asm_ops(*final(a)) == copy_table(program::asm_ops(*old(a)), to, n as nat),
{
    let mut i: u16 = 0;
    while i < n
        invariant
            i <= n,
            program::asm_ops(*a) == copy_table(program::asm_ops(*old(a)), to, i as nat),
        decreases n - i,
    {
        program::ldrb_imm(a, 1, 2, i);
        program::strb_imm(a, 1, to, i);
        i += 1;
    }
}

fn emit_stage(a: &mut Asm, n: u8)
    ensures
        program::asm_ops(*final(a)) == stage(program::asm_ops(*old(a)), n),
{
    let mut i: u8 = 0;
    while i < n
        invariant
            i <= n,
            program::asm_ops(*a) == stage(program::asm_ops(*old(a)), i),
        decreases n - i,
    {
        program::ldrb_imm(a, 1, 0, i as u16);
        program::strb_imm(a, 1, 6, i as u16);
        i += 1;
    }
}

/// Loads the big-endian word at `cdb[5..9]` into `r6`; `r3` holds the CDB.
pub open spec fn take_address(s: Seq<AsmOp>) -> Seq<AsmOp> {
    s
        .push(AsmOp::LdrbImm(6, 3, 5))
        .push(AsmOp::LslsImm(6, 6, 8))
        .push(AsmOp::LdrbImm(0, 3, 6))
        .push(AsmOp::AddsReg(6, 6, 0))
        .push(AsmOp::LslsImm(6, 6, 8))
        .push(AsmOp::LdrbImm(0, 3, 7))
        .push(AsmOp::AddsReg(6, 6, 0))
        .push(AsmOp::LslsImm(6, 6, 8))
        .push(AsmOp::LdrbImm(0, 3, 8))
        .push(AsmOp::AddsReg(6, 6, 0))
}

fn emit_take_address(a: &mut Asm)
    ensures
        program::asm_ops(*final(a)) == take_address(program::asm_ops(*old(a))),
{
    program::ldrb_imm(a, 6, 3, 5);
    program::lsls_imm(a, 6, 6, 8);
    program::ldrb_imm(a, 0, 3, 6);
    program::adds_reg(a, 6, 6, 0);
    program::lsls_imm(a, 6, 6, 8);
    program::ldrb_imm(a, 0, 3, 7);
    program::adds_reg(a, 6, 6, 0);
    program::lsls_imm(a, 6, 6, 8);
    program::ldrb_imm(a, 0, 3, 8);
    program::adds_reg(a, 6, 6, 0);
}

/// Checks mode and knock: the safe knock goes on at `KNOCK_OK`, the debug knock at
/// `DEBUG_OK`, and anything else is handed to the OEM handler as it came.
pub open spec fn knock(s: Seq<AsmOp>, cdb: u32, oem_handler: u32) -> Seq<AsmOp> {
    s
        .push(AsmOp::LdrLit(3, cdb))
        .push(AsmOp::LdrbImm(0, 3, 1))
        .push(AsmOp::Compare(0, abi::KNOCK_MODE))
        .push(AsmOp::Bne(TAIL))
        .push(AsmOp::LdrbImm(0, 3, 2))
        .push(AsmOp::Compare(0, 0xC0))
        .push(AsmOp::Bne(NOT_SAFE))
        .push(AsmOp::LdrbImm(0, 3, 3))
        .push(AsmOp::Compare(0, 0xDE))
        .push(AsmOp::Bne(TAIL))
        .push(AsmOp::B(KNOCK_OK))
        .push(AsmOp::Bind(NOT_SAFE))
        .push(AsmOp::Compare(0, 0xDE))
        .push(AsmOp::Bne(TAIL))
        .push(AsmOp::LdrbImm(0, 3, 3))
        .push(AsmOp::Compare(0, 0xB9))
        .push(AsmOp::Bne(TAIL))
        .push(AsmOp::B(DEBUG_OK))
        .push(AsmOp::Bind(TAIL))
        .push(AsmOp::LdrLit(3, oem_handler | 1))
        .push(AsmOp::Bx(3))
}

fn emit_knock(a: &mut Asm, cdb: u32, oem_handler: u32)
    ensures
        program::asm_ops(*final(a)) == knock(program::asm_ops(*old(a)), cdb, oem_handler),
{
    program::ldr_lit(a, 3, cdb);
    program::ldrb_imm(a, 0, 3, 1);
    program::compare(a, 0, abi::KNOCK_MODE);
    program::bne(a, TAIL);
    program::ldrb_imm(a, 0, 3, 2);
    program::compare(a, 0, 0xC0);
    program::bne(a, NOT_SAFE);
    program::ldrb_imm(a, 0, 3, 3);
    program::compare(a, 0, 0xDE);
    program::bne(a, TAIL);
    program::b(a, KNOCK_OK);
    program::bind(a, NOT_SAFE);
    program::compare(a, 0, 0xDE);
    program::bne(a, TAIL);
    program::ldrb_imm(a, 0, 3, 3);
    program::compare(a, 0, 0xB9);
    program::bne(a, TAIL);
    program::b(a, DEBUG_OK);
    program::bind(a, TAIL);
    program::ldr_lit(a, 3, oem_handler | 1);
    program::bx(a, 3);
}

/// Re-enters the boot function at `entry` with 4, the cold path.
pub open spec fn reboot_arm(s: Seq<AsmOp>, entry: u32) -> Seq<AsmOp> {
    s
        .push(AsmOp::Compare(4, 0x0F))
        .push(AsmOp::Bne(DEBUG_DONE))
        .push(AsmOp::MovsImm(0, 4))
        .push(AsmOp::LdrLit(5, entry | 1))
        .push(AsmOp::Blx(5))
}

fn emit_reboot_arm(a: &mut Asm, entry: u32)
    ensures
        program::asm_ops(*final(a)) == reboot_arm(program::asm_ops(*old(a)), entry),
{
    program::compare(a, 4, 0x0F);
    program::bne(a, DEBUG_DONE);
    program::movs_imm(a, 0, 4);
    program::ldr_lit(a, 5, entry | 1);
    program::blx(a, 5);
}

/// The debug verbs: call an address, store a byte. Every path ends with no verb left
/// to run, so the reply is zeroed.
pub open spec fn debug_verbs(s: Seq<AsmOp>, writer: u32) -> Seq<AsmOp> {
    let s1 = s
        .push(AsmOp::Bind(DEBUG_OK))
        .push(AsmOp::Push(0x01F0))
        .push(AsmOp::LdrLit(7, writer | 1))
        .push(AsmOp::LdrbImm(4, 3, 4))
        .push(AsmOp::Compare(4, 0x0C))
        .push(AsmOp::Bne(NOT_CALL));
    let s2 = take_address(s1);
    let s3 = s2
        .push(AsmOp::LdrbImm(0, 3, 9))
        .push(AsmOp::MovsImm(1, 1))
        .push(AsmOp::Orrs(6, 1))
        .push(AsmOp::Blx(6))
        .push(AsmOp::B(DEBUG_DONE))
        .push(AsmOp::Bind(NOT_CALL))
        .push(AsmOp::Compare(4, 0x0D))
        .push(AsmOp::Bne(NOT_POKE));
    let s4 = take_address(s3);
    s4
        .push(AsmOp::LdrbImm(0, 3, 9))
        .push(AsmOp::StrbImm(0, 6, 0))
        .push(AsmOp::B(DEBUG_DONE))
        .push(AsmOp::Bind(NOT_POKE))
}

fn emit_debug_verbs(a: &mut Asm, writer: u32)
    ensures
        program::asm_ops(*final(a)) == debug_verbs(program::asm_ops(*old(a)), writer),
{
    program::bind(a, DEBUG_OK);
    program::push(a, 0x01F0);
    program::ldr_lit(a, 7, writer | 1);
    program::ldrb_imm(a, 4, 3, 4);
    program::compare(a, 4, 0x0C);
    program::bne(a, NOT_CALL);
    emit_take_address(a);
    program::ldrb_imm(a, 0, 3, 9);
    program::movs_imm(a, 1, 1);
    program::orrs(a, 6, 1);
    program::blx(a, 6);
    program::b(a, DEBUG_DONE);
    program::bind(a, NOT_CALL);
    program::compare(a, 4, 0x0D);
    program::bne(a, NOT_POKE);
    emit_take_address(a);
    program::ldrb_imm(a, 0, 3, 9);
    program::strb_imm(a, 0, 6, 0);
    program::b(a, DEBUG_DONE);
    program::bind(a, NOT_POKE);
}

/// Drops the verb and joins the common reply.
pub open spec fn debug_end(s: Seq<AsmOp>) -> Seq<AsmOp> {
    s
        .push(AsmOp::Bind(DEBUG_DONE))
        .push(AsmOp::MovsImm(4, 0))
        .push(AsmOp::B(CLR))
}

fn emit_debug_end(a: &mut Asm)
    ensures
        program::asm_ops(*final(a)) == debug_end(program::asm_ops(*old(a))),
{
    program::bind(a, DEBUG_DONE);
    program::movs_imm(a, 4, 0);
    program::b(a, CLR);
}

/// Entry of the durable verbs, and SET: one bounded flag store.
pub open spec fn set_verb(s: Seq<AsmOp>, writer: u32, flag_base: u32) -> Seq<AsmOp> {
    s
        .push(AsmOp::Bind(KNOCK_OK))
        .push(AsmOp::Push(0x01F0))
        .push(AsmOp::LdrLit(7, writer | 1))
        .push(AsmOp::LdrbImm(4, 3, 4))
        .push(AsmOp::Compare(4, 0x02))
        .push(AsmOp::Bne(NOT_SET))
        .push(AsmOp::LdrLit(0, flag_base))
        .push(AsmOp::LdrbImm(1, 3, 5))
        .push(AsmOp::Compare(1, 8))
        .push(AsmOp::Bhs(CLR))
        .push(AsmOp::AddsReg(0, 0, 1))
        .push(AsmOp::LdrbImm(1, 3, 6))
        .push(AsmOp::StrbImm(1, 0, 0))
        .push(AsmOp::B(CLR))
        .push(AsmOp::Bind(NOT_SET))
}

fn emit_set_verb(a: &mut Asm, writer: u32, flag_base: u32)
    ensures
        program::asm_ops(*final(a)) == set_verb(program::asm_ops(*old(a)), writer, flag_base),
{
    program::bind(a, KNOCK_OK);
    program::push(a, 0x01F0);
    program::ldr_lit(a, 7, writer | 1);
    program::ldrb_imm(a, 4, 3, 4);
    program::compare(a, 4, 0x02);
    program::bne(a, NOT_SET);
    program::ldr_lit(a, 0, flag_base);
    program::ldrb_imm(a, 1, 3, 5);
    program::compare(a, 1, 8);
    program::bhs(a, CLR);
    program::adds_reg(a, 0, 0, 1);
    program::ldrb_imm(a, 1, 3, 6);
    program::strb_imm(a, 1, 0, 0);
    program::b(a, CLR);
    program::bind(a, NOT_SET);
}

/// The flags that an image ships with: UHD and BD on, every other slot passthrough.
pub open spec fn default_flags() -> Seq<u8> {
    Seq::new(
        8,
        |k: int|
            if k == abi::Feature::Uhd.wire() || k == abi::Feature::Bd.wire() {
                abi::STATE_ON
            } else {
                abi::STATE_PASSTHROUGH
            },
    )
}

/// RESET: refill the table with passthrough and program the flash block to match, or copy
/// the saved table back from flash, or lay the shipped flags over what was copied. The
/// saved table is copied as it is; no marker is tested.
pub open spec fn reset_verb(
    s: Seq<AsmOp>,
    flag_base: u32,
    nv_ptr: u32,
    save_home: u32,
    flash_program: u32,
) -> Seq<AsmOp> {
    let s1 = s
        .push(AsmOp::Compare(4, 0x04))
        .push(AsmOp::Bne(NOT_RESET))
        .push(AsmOp::LdrbImm(0, 3, 6))
        .push(AsmOp::Compare(0, abi::RESET_TO_OEM))
        .push(AsmOp::Bne(RESET_FLASH))
        .push(AsmOp::LdrLit(0, flag_base))
        .push(AsmOp::MovsImm(1, abi::STATE_PASSTHROUGH));
    let s2 = fill_flags(s1, 8);
    let s3 = flash_write(s2, nv_ptr, save_home, flag_base, SAVE_LEN, flash_program);
    let s4 = s3
        .push(AsmOp::B(CLR))
        .push(AsmOp::Bind(RESET_FLASH))
        .push(AsmOp::LdrLit(6, flag_base))
        .push(AsmOp::LdrLit(2, save_home));
    let s5 = copy_table(s4, 6, 8);
    let s6 = s5
        .push(AsmOp::Compare(0, abi::RESET_TO_DEFAULTS))
        .push(AsmOp::Bne(CLR))
        .push(AsmOp::LdrLit(0, flag_base))
        .push(AsmOp::MovsImm(1, abi::STATE_PASSTHROUGH));
    let s7 = fill_flags(s6, 8);
    s7
        .push(AsmOp::MovsImm(1, abi::STATE_ON))
        .push(AsmOp::StrbImm(1, 0, 3))
        .push(AsmOp::StrbImm(1, 0, 4))
        .push(AsmOp::B(CLR))
        .push(AsmOp::Bind(NOT_RESET))
}

fn emit_reset_verb(a: &mut Asm, flag_base: u32, nv_ptr: u32, save_home: u32, flash_program: u32)
    requires
        nv_ptr + 4 <= u32::MAX,
    ensures
        program::asm_ops(*final(a)) == reset_verb(program::asm_ops(*old(a)), flag_base, nv_ptr, save_home, flash_program),
{
    program::compare(a, 4, 0x04);
    program::bne(a, NOT_RESET);
    program::ldrb_imm(a, 0, 3, 6);
    program::compare(a, 0, abi::RESET_TO_OEM);
    program::bne(a, RESET_FLASH);
    program::ldr_lit(a, 0, flag_base);
    program::movs_imm(a, 1, abi::STATE_PASSTHROUGH);
    emit_fill_flags(a, 8);
    emit_flash_write(a, nv_ptr, save_home, flag_base, SAVE_LEN, flash_program);
    program::b(a, CLR);
    program::bind(a, RESET_FLASH);
    program::ldr_lit(a, 6, flag_base);
    program::ldr_lit(a, 2, save_home);
    emit_copy_table(a, 6, 8);
    program::compare(a, 0, abi::RESET_TO_DEFAULTS);
    program::bne(a, CLR);
    program::ldr_lit(a, 0, flag_base);
    program::movs_imm(a, 1, abi::STATE_PASSTHROUGH);
    emit_fill_flags(a, 8);
    program::movs_imm(a, 1, abi::STATE_ON);
    program::strb_imm(a, 1, 0, 3);
    program::strb_imm(a, 1, 0, 4);
    program::b(a, CLR);
    program::bind(a, NOT_RESET);
}

/// Zeroes the whole reply window through the byte-writer in `r7`.
pub open spec fn clear_reply(s: Seq<AsmOp>) -> Seq<AsmOp> {
    s
        .push(AsmOp::Bind(CLR))
        .push(AsmOp::MovsImm(5, 0))
        .push(AsmOp::Bind(CLR_LOOP))
        .push(AsmOp::Compare(5, CLEAR_LEN))
        .push(AsmOp::Bhs(CLRD))
        .push(AsmOp::MovReg(0, 5))
        .push(AsmOp::MovsImm(1, 0))
        .push(AsmOp::Blx(7))
        .push(AsmOp::AddsImm(5, 1))
        .push(AsmOp::B(CLR_LOOP))
        .push(AsmOp::Bind(CLRD))
}

fn emit_clear_reply(a: &mut Asm)
    ensures
        program::asm_ops(*final(a)) == clear_reply(program::asm_ops(*old(a))),
{
    program::bind(a, CLR);
    program::movs_imm(a, 5, 0);
    program::bind(a, CLR_LOOP);
    program::compare(a, 5, CLEAR_LEN);
    program::bhs(a, CLRD);
    program::mov_reg(a, 0, 5);
    program::movs_imm(a, 1, 0);
    program::blx(a, 7);
    program::adds_imm(a, 5, 1);
    program::b(a, CLR_LOOP);
    program::bind(a, CLRD);
}

/// Writes `src` big-endian into the reply at `at` through the byte-writer in `r7`.
pub open spec fn reply_word(s: Seq<AsmOp>, src: u16, at: u8) -> Seq<AsmOp> {
    s
        .push(AsmOp::LsrsImm(5, src, 24))
        .push(AsmOp::MovsImm(0, at))
        .push(AsmOp::MovReg(1, 5))
        .push(AsmOp::Blx(7))
        .push(AsmOp::LslsImm(5, src, 8))
        .push(AsmOp::LsrsImm(5, 5, 24))
        .push(AsmOp::MovsImm(0, (at + 1) as u8))
        .push(AsmOp::MovReg(1, 5))
        .push(AsmOp::Blx(7))
        .push(AsmOp::LslsImm(5, src, 16))
        .push(AsmOp::LsrsImm(5, 5, 24))
        .push(AsmOp::MovsImm(0, (at + 2) as u8))
        .push(AsmOp::MovReg(1, 5))
        .push(AsmOp::Blx(7))
        .push(AsmOp::LslsImm(5, src, 24))
        .push(AsmOp::LsrsImm(5, 5, 24))
        .push(AsmOp::MovsImm(0, (at + 3) as u8))
        .push(AsmOp::MovReg(1, 5))
        .push(AsmOp::Blx(7))
}

fn emit_reply_word(a: &mut Asm, src: u16, at: u8)
    requires
        at <= 252,
    ensures
        program::asm_ops(*final(a)) == reply_word(program::asm_ops(*old(a)), src, at),
{
    program::lsrs_imm(a, 5, src, 24);
    program::movs_imm(a, 0, at);
    program::mov_reg(a, 1, 5);
    program::blx(a, 7);
    program::lsls_imm(a, 5, src, 8);
    program::lsrs_imm(a, 5, 5, 24);
    program::movs_imm(a, 0, at + 1);
    program::mov_reg(a, 1, 5);
    program::blx(a, 7);
    program::lsls_imm(a, 5, src, 16);
    program::lsrs_imm(a, 5, 5, 24);
    program::movs_imm(a, 0, at + 2);
    program::mov_reg(a, 1, 5);
    program::blx(a, 7);
    program::lsls_imm(a, 5, src, 24);
    program::lsrs_imm(a, 5, 5, 24);
    program::movs_imm(a, 0, at + 3);
    program::mov_reg(a, 1, 5);
    program::blx(a, 7);
}

/// Stages `len` bytes from `src` in the NV window and has the OEM routine program them
/// at `dest`; the status word is left in `r0`.
pub open spec fn flash_write(
    s: Seq<AsmOp>,
    nv_ptr: u32,
    dest: u32,
    src: u32,
    len: u8,
    flash_program: u32,
) -> Seq<AsmOp> {
    let s1 = s
        .push(AsmOp::LdrLit(0, nv_ptr))
        .push(AsmOp::LdrImm(6, 0, 0))
        .push(AsmOp::LdrLit(0, (nv_ptr + 4) as u32))
        .push(AsmOp::LdrImm(5, 0, 0))
        .push(AsmOp::AddsReg(6, 6, 5))
        .push(AsmOp::LdrLit(0, src));
    let s2 = stage(s1, len);
    s2
        .push(AsmOp::MovReg(0, 5))
        .push(AsmOp::LdrLit(1, dest))
        .push(AsmOp::MovsImm(2, len))
        .push(AsmOp::MovsImm(3, 1))
        .push(AsmOp::LdrLit(5, flash_program | 1))
        .push(AsmOp::Blx(5))
}

fn emit_flash_write(a: &mut Asm, nv_ptr: u32, dest: u32, src: u32, len: u8, flash_program: u32)
    requires
        nv_ptr + 4 <= u32::MAX,
        len <= 32,
    ensures
        program::asm_ops(*final(a)) == flash_write(program::asm_ops(*old(a)), nv_ptr, dest, src, len, flash_program),
{
    program::ldr_lit(a, 0, nv_ptr);
    program::ldr_imm(a, 6, 0, 0);
    program::ldr_lit(a, 0, nv_ptr + 4);
    program::ldr_imm(a, 5, 0, 0);
    program::adds_reg(a, 6, 6, 5);
    program::ldr_lit(a, 0, src);
    emit_stage(a, len);
    program::mov_reg(a, 0, 5);
    program::ldr_lit(a, 1, dest);
    program::movs_imm(a, 2, len);
    program::movs_imm(a, 3, 1);
    program::ldr_lit(a, 5, flash_program | 1);
    program::blx(a, 5);
}

/// FLASHWRITE: program one byte, but only inside the allowed window.
pub open spec fn flashwrite_verb(s: Seq<AsmOp>, flag_base: u32, flash_program: u32) -> Seq<AsmOp> {
    let s1 = s
        .push(AsmOp::Compare(4, 0x0A))
        .push(AsmOp::Bne(NOT_FLASH));
    let s2 = take_address(s1);
    let s3 = s2
        .push(AsmOp::LdrbImm(0, 3, 9))
        .push(AsmOp::LdrLit(1, (flag_base + FLASHWRITE_SCRATCH_OFF) as u32))
        .push(AsmOp::StrbImm(0, 1, 0))
        .push(AsmOp::LdrLit(0, FLASHWRITE_ALLOW_LO))
        .push(AsmOp::CompareReg(6, 0))
        .push(AsmOp::Blo(FLASH_REFUSE))
        .push(AsmOp::LdrLit(0, FLASHWRITE_ALLOW_HI))
        .push(AsmOp::CompareReg(6, 0))
        .push(AsmOp::Bhs(FLASH_REFUSE))
        .push(AsmOp::LdrLit(0, (flag_base + FLASHWRITE_SCRATCH_OFF) as u32))
        .push(AsmOp::MovReg(1, 6))
        .push(AsmOp::MovsImm(2, 1))
        .push(AsmOp::MovsImm(3, 1))
        .push(AsmOp::LdrLit(5, flash_program | 1))
        .push(AsmOp::Blx(5))
        .push(AsmOp::MovReg(4, 0))
        .push(AsmOp::B(FLASH_REPLY))
        .push(AsmOp::Bind(FLASH_REFUSE))
        .push(AsmOp::LdrLit(4, FLASHWRITE_REFUSE_STATUS))
        .push(AsmOp::Bind(FLASH_REPLY));
    let s4 = reply_word(s3, 6, 0);
    let s5 = reply_word(s4, 4, 4);
    s5
        .push(AsmOp::B(DOCOMMIT))
        .push(AsmOp::Bind(NOT_FLASH))
}

fn emit_flashwrite_verb(a: &mut Asm, flag_base: u32, flash_program: u32)
    requires
        flag_base + FLASHWRITE_SCRATCH_OFF <= u32::MAX,
    ensures
        program::asm_ops(*final(a)) == flashwrite_verb(program::asm_ops(*old(a)), flag_base, flash_program),
{
    program::compare(a, 4, 0x0A);
    program::bne(a, NOT_FLASH);
    emit_take_address(a);
    program::ldrb_imm(a, 0, 3, 9);
    program::ldr_lit(a, 1, flag_base + FLASHWRITE_SCRATCH_OFF);
    program::strb_imm(a, 0, 1, 0);
    program::ldr_lit(a, 0, FLASHWRITE_ALLOW_LO);
    program::compare_reg(a, 6, 0);
    program::blo(a, FLASH_REFUSE);
    program::ldr_lit(a, 0, FLASHWRITE_ALLOW_HI);
    program::compare_reg(a, 6, 0);
    program::bhs(a, FLASH_REFUSE);
    program::ldr_lit(a, 0, flag_base + FLASHWRITE_SCRATCH_OFF);
    program::mov_reg(a, 1, 6);
    program::movs_imm(a, 2, 1);
    program::movs_imm(a, 3, 1);
    program::ldr_lit(a, 5, flash_program | 1);
    program::blx(a, 5);
    program::mov_reg(a, 4, 0);
    program::b(a, FLASH_REPLY);
    program::bind(a, FLASH_REFUSE);
    program::ldr_lit(a, 4, FLASHWRITE_REFUSE_STATUS);
    program::bind(a, FLASH_REPLY);
    emit_reply_word(a, 6, 0);
    emit_reply_word(a, 4, 4);
    program::b(a, DOCOMMIT);
    program::bind(a, NOT_FLASH);
}

/// SAVE: program the flag table to its flash home and reply with the status.
pub open spec fn save_verb(
    s: Seq<AsmOp>,
    flag_base: u32,
    nv_ptr: u32,
    save_home: u32,
    flash_program: u32,
) -> Seq<AsmOp> {
    let s1 = s
        .push(AsmOp::Compare(4, 0x0B))
        .push(AsmOp::Bne(NOT_SAVE));
    let s2 = flash_write(s1, nv_ptr, save_home, flag_base, SAVE_LEN, flash_program);
    let s3 = s2
        .push(AsmOp::MovReg(4, 0));
    let s4 = reply_word(s3, 4, 0);
    s4
        .push(AsmOp::B(DOCOMMIT))
        .push(AsmOp::Bind(NOT_SAVE))
}

fn emit_save_verb(a: &mut Asm, flag_base: u32, nv_ptr: u32, save_home: u32, flash_program: u32)
    requires
        nv_ptr + 4 <= u32::MAX,
    ensures
        program::asm_ops(*final(a)) == save_verb(program::asm_ops(*old(a)), flag_base, nv_ptr, save_home, flash_program),
{
    program::compare(a, 4, 0x0B);
    program::bne(a, NOT_SAVE);
    emit_flash_write(a, nv_ptr, save_home, flag_base, SAVE_LEN, flash_program);
    program::mov_reg(a, 4, 0);
    emit_reply_word(a, 4, 0);
    program::b(a, DOCOMMIT);
    program::bind(a, NOT_SAVE);
}

/// GET: reply with one bounded flag byte.
pub open spec fn get_verb(s: Seq<AsmOp>, flag_base: u32) -> Seq<AsmOp> {
    s
        .push(AsmOp::Compare(4, 0x03))
        .push(AsmOp::Bne(NOT_GET))
        .push(AsmOp::LdrLit(0, flag_base))
        .push(AsmOp::LdrbImm(1, 3, 5))
        .push(AsmOp::Compare(1, 8))
        .push(AsmOp::Bhs(NOT_GET))
        .push(AsmOp::AddsReg(0, 0, 1))
        .push(AsmOp::LdrbImm(1, 0, 0))
        .push(AsmOp::MovsImm(0, 0))
        .push(AsmOp::Blx(7))
        .push(AsmOp::B(DOCOMMIT))
        .push(AsmOp::Bind(NOT_GET))
}

fn emit_get_verb(a: &mut Asm, flag_base: u32)
    ensures
        program::asm_ops(*final(a)) == get_verb(program::asm_ops(*old(a)), flag_base),
{
    program::compare(a, 4, 0x03);
    program::bne(a, NOT_GET);
    program::ldr_lit(a, 0, flag_base);
    program::ldrb_imm(a, 1, 3, 5);
    program::compare(a, 1, 8);
    program::bhs(a, NOT_GET);
    program::adds_reg(a, 0, 0, 1);
    program::ldrb_imm(a, 1, 0, 0);
    program::movs_imm(a, 0, 0);
    program::blx(a, 7);
    program::b(a, DOCOMMIT);
    program::bind(a, NOT_GET);
}

/// DUMPALL: reply with the memory at the given address.
pub open spec fn dump_verb(s: Seq<AsmOp>) -> Seq<AsmOp> {
    let s1 = s
        .push(AsmOp::Compare(4, 0x09))
        .push(AsmOp::Bne(NOT_DUMP));
    let s2 = take_address(s1);
    s2
        .push(AsmOp::MovsImm(5, 0))
        .push(AsmOp::Bind(DUMP_LOOP))
        .push(AsmOp::Compare(5, CLEAR_LEN))
        .push(AsmOp::Bhs(DOCOMMIT))
        .push(AsmOp::MovReg(0, 5))
        .push(AsmOp::LdrbReg(1, 6, 5))
        .push(AsmOp::Blx(7))
        .push(AsmOp::AddsImm(5, 1))
        .push(AsmOp::B(DUMP_LOOP))
        .push(AsmOp::Bind(NOT_DUMP))
}

fn emit_dump_verb(a: &mut Asm)
    ensures
        program::asm_ops(*final(a)) == dump_verb(program::asm_ops(*old(a))),
{
    program::compare(a, 4, 0x09);
    program::bne(a, NOT_DUMP);
    emit_take_address(a);
    program::movs_imm(a, 5, 0);
    program::bind(a, DUMP_LOOP);
    program::compare(a, 5, CLEAR_LEN);
    program::bhs(a, DOCOMMIT);
    program::mov_reg(a, 0, 5);
    program::ldrb_reg(a, 1, 6, 5);
    program::blx(a, 7);
    program::adds_imm(a, 5, 1);
    program::b(a, DUMP_LOOP);
    program::bind(a, NOT_DUMP);
}

/// Copies the identity text `r6` points at, then the feature flags, into the reply.
pub open spec fn identity_reply(s: Seq<AsmOp>, flag_base: u32) -> Seq<AsmOp> {
    s
        .push(AsmOp::MovsImm(5, 0))
        .push(AsmOp::Bind(ID_LOOP))
        .push(AsmOp::Compare(5, ID_LEN))
        .push(AsmOp::Bhs(ID_DONE))
        .push(AsmOp::MovReg(0, 5))
        .push(AsmOp::LdrbReg(1, 6, 5))
        .push(AsmOp::Blx(7))
        .push(AsmOp::AddsImm(5, 1))
        .push(AsmOp::B(ID_LOOP))
        .push(AsmOp::Bind(ID_DONE))
        .push(AsmOp::LdrLit(6, flag_base))
        .push(AsmOp::MovsImm(5, ID_LEN))
        .push(AsmOp::MovsImm(2, 1))
        .push(AsmOp::Bind(TBL_LOOP))
        .push(AsmOp::Compare(2, 8))
        .push(AsmOp::Bhs(DOCOMMIT))
        .push(AsmOp::LdrbReg(1, 6, 2))
        .push(AsmOp::MovReg(0, 5))
        .push(AsmOp::Blx(7))
        .push(AsmOp::AddsImm(5, 1))
        .push(AsmOp::AddsImm(2, 1))
        .push(AsmOp::B(TBL_LOOP))
}

fn emit_identity_reply(a: &mut Asm, flag_base: u32)
    ensures
        program::asm_ops(*final(a)) == identity_reply(program::asm_ops(*old(a)), flag_base),
{
    program::movs_imm(a, 5, 0);
    program::bind(a, ID_LOOP);
    program::compare(a, 5, ID_LEN);
    program::bhs(a, ID_DONE);
    program::mov_reg(a, 0, 5);
    program::ldrb_reg(a, 1, 6, 5);
    program::blx(a, 7);
    program::adds_imm(a, 5, 1);
    program::b(a, ID_LOOP);
    program::bind(a, ID_DONE);
    program::ldr_lit(a, 6, flag_base);
    program::movs_imm(a, 5, ID_LEN);
    program::movs_imm(a, 2, 1);
    program::bind(a, TBL_LOOP);
    program::compare(a, 2, 8);
    program::bhs(a, DOCOMMIT);
    program::ldrb_reg(a, 1, 6, 2);
    program::mov_reg(a, 0, 5);
    program::blx(a, 7);
    program::adds_imm(a, 5, 1);
    program::adds_imm(a, 2, 1);
    program::b(a, TBL_LOOP);
}

/// Sets the transfer length, commits the reply and returns.
pub open spec fn commit_reply(
    s: Seq<AsmOp>,
    length_field: u32,
    commit_off: u32,
    commit: u32,
) -> Seq<AsmOp> {
    s
        .push(AsmOp::Bind(DOCOMMIT))
        .push(AsmOp::MovsImm(0, CLEAR_LEN))
        .push(AsmOp::LdrLit(1, length_field))
        .push(AsmOp::StrhImm(0, 1, 0))
        .push(AsmOp::LdrLit(0, commit_off))
        .push(AsmOp::LdrLit(2, commit | 1))
        .push(AsmOp::Blx(2))
        .push(AsmOp::Pop(0x01F0))
}

fn emit_commit_reply(a: &mut Asm, length_field: u32, commit_off: u32, commit: u32)
    ensures
        program::asm_ops(*final(a)) == commit_reply(program::asm_ops(*old(a)), length_field, commit_off, commit),
{
    program::bind(a, DOCOMMIT);
    program::movs_imm(a, 0, CLEAR_LEN);
    program::ldr_lit(a, 1, length_field);
    program::strh_imm(a, 0, 1, 0);
    program::ldr_lit(a, 0, commit_off);
    program::ldr_lit(a, 2, commit | 1);
    program::blx(a, 2);
    program::pop(a, 0x01F0);
}

/// The debug dispatch; without a boot entry the reboot arm is left out.
pub open spec fn debug_dispatch(s: Seq<AsmOp>, writer: u32, boot_entry: u32) -> Seq<AsmOp> {
    let s1 = debug_verbs(s, writer);
    debug_end(
        if boot_entry != 0 {
            reboot_arm(s1, boot_entry)
        } else {
            s1
        },
    )
}

/// IDENTITY: the text, then the live feature flags; an unknown verb replies zeroed.
pub open spec fn identity_verb(s: Seq<AsmOp>, flag_base: u32) -> Seq<AsmOp> {
    let s1 = s.push(AsmOp::Compare(4, 0x01)).push(AsmOp::Bne(DOCOMMIT));
    let blob = program::label_count(s1) as u16;
    identity_reply(s1.push(AsmOp::Blob(IDENTITY@)).push(AsmOp::Adr(6, blob)), flag_base)
}

/// The whole handler.
#[verifier::opaque]
pub open spec fn handler_program(f: HandlerFacts) -> Seq<AsmOp> {
    let s = reserve(Seq::empty(), LABELS as nat);
    let s = knock(s, f.cdb, f.oem_handler);
    let s = debug_dispatch(s, f.writer, f.boot_entry);
    let s = set_verb(s, f.writer, f.flag_base);
    let s = reset_verb(s, f.flag_base, f.nv_ptr, f.save_home, f.flash_program);
    let s = clear_reply(s);
    let s = flashwrite_verb(s, f.flag_base, f.flash_program);
    let s = save_verb(s, f.flag_base, f.nv_ptr, f.save_home, f.flash_program);
    let s = get_verb(s, f.flag_base);
    let s = dump_verb(s);
    let s = identity_verb(s, f.flag_base);
    commit_reply(s, f.length_field, f.commit_off, f.commit)
}

/// The boot hook: fill the flag table with passthrough, lay the persisted table over
/// it, then run the original init routine. No marker is tested: the eight bytes are laid
/// over the table whatever they are, and those of erased flash leave it passthrough.
pub open spec fn boot_program(flag_base: u32, orig_init: u32, save_home: u32) -> Seq<AsmOp> {
    let s1 = fill_flags(
        Seq::empty().push(AsmOp::Push(0x010F)).push(AsmOp::LdrLit(0, flag_base)).push(
            AsmOp::MovsImm(1, abi::STATE_PASSTHROUGH),
        ),
        8,
    );
    copy_table(s1.push(AsmOp::LdrLit(2, save_home)), 0, 8).push(AsmOp::Pop(0x000F)).push(
        AsmOp::LdrLit(3, orig_init | 1),
    ).push(AsmOp::Blx(3)).push(AsmOp::Pop(0x0100))
}

/// The identity text: the magic and the version.
pub fn identity_blob() -> (v: Vec<u8>)
    ensures
        v@ == IDENTITY@,
        abi::leads_with_magic(v@),
{
    let v: Vec<u8> =
        vec![
        0x66, 0x72, 0x65, 0x65, 0x6D, 0x6B, 0x76, 0x20, 0x30, 0x2E, 0x31, 0x2E, 0x30,
    ];
    assert(v@ =~= IDENTITY@);
    assert(v@.subrange(0, 7) =~= abi::RESP_MAGIC@);
    v
}

impl Mt1959Engine {
    /// Assembles the handler from its facts.
    pub fn assemble_handler(&self, f: &HandlerFacts) -> (r: Result<Vec<u8>, FwError>)
        requires
            f.flag_base + FLASHWRITE_SCRATCH_OFF <= u32::MAX,
            f.nv_ptr + 4 <= u32::MAX,
        ensures
            r matches Ok(v) && program::assembled(handler_program(*f)) == Some(v@),
            r matches Ok(v) && program::holds_data(v@, IDENTITY@, 0x20),
    {
        reveal(handler_program);
        let mut a: Asm = program::new();
        emit_reserve(&mut a, LABELS);
        emit_knock(&mut a, f.cdb, f.oem_handler);
        emit_debug_verbs(&mut a, f.writer);
        if f.boot_entry != 0 {
            emit_reboot_arm(&mut a, f.boot_entry);
        }
        emit_debug_end(&mut a);
        emit_set_verb(&mut a, f.writer, f.flag_base);
        emit_reset_verb(&mut a, f.flag_base, f.nv_ptr, f.save_home, f.flash_program);
        emit_clear_reply(&mut a);
        emit_flashwrite_verb(&mut a, f.flag_base, f.flash_program);
        emit_save_verb(&mut a, f.flag_base, f.nv_ptr, f.save_home, f.flash_program);
        emit_get_verb(&mut a, f.flag_base);
        emit_dump_verb(&mut a);
        program::compare(&mut a, 4, 0x01);
        program::bne(&mut a, DOCOMMIT);
        let blob: u16 = program::data_blob(&mut a, identity_blob());
        let ghost at = program::asm_ops(a).len() - 1;
        program::adr(&mut a, 6, blob);
        emit_identity_reply(&mut a, f.flag_base);
        emit_commit_reply(&mut a, f.length_field, f.commit_off, f.commit);
        assert(program::asm_ops(a) == handler_program(*f));
        assert(program::asm_ops(a)[at] == AsmOp::Blob(IDENTITY@));
        proof {
            reach::lemma_handler_sound(*f);
        }
        Ok(program::assemble(&mut a))
    }

    /// Builds the boot hook.
    pub fn build_boot_init(&self, flag_base: u32, orig_init: u32, save_home: u32) -> (r: Result<
        Vec<u8>,
        FwError,
    >)
        ensures
            r matches Ok(v) && program::assembled(boot_program(flag_base, orig_init, save_home))
                == Some(v@),
    {
        broadcast use program::group_program;

        let mut a: Asm = program::new();
        program::push(&mut a, 0x010F);
        program::ldr_lit(&mut a, 0, flag_base);
        program::movs_imm(&mut a, 1, abi::STATE_PASSTHROUGH);
        emit_fill_flags(&mut a, 8);
        program::ldr_lit(&mut a, 2, save_home);
        emit_copy_table(&mut a, 0, 8);
        program::pop(&mut a, 0x000F);
        program::ldr_lit(&mut a, 3, orig_init | 1);
        program::blx(&mut a, 3);
        program::pop(&mut a, 0x0100);
        assert(program::asm_ops(a) == boot_program(flag_base, orig_init, save_home));
        assert(program::sound(program::asm_ops(a))) by {
            reveal_with_fuel(fill_flags, 9);
            reveal_with_fuel(copy_table, 9);
        }
        Ok(program::assemble(&mut a))
    }
}

} // verus!
