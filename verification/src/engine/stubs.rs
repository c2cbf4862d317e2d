//! The flag-gated trampolines: what each detour runs instead of the OEM code it
//! replaces.
//!
//! Every trampoline reads one byte of the feature-flag table and either replays
//! the replaced OEM instructions or takes the feature's own path. Each one is
//! stated as the exact list of instructions it is assembled from.
use crate::abi;
use crate::engine::mt1959::Mt1959Engine;
use crate::error::FwError;
use crate::program;
use crate::program::AsmOp;
use thumb_asm::Asm;
use vstd::prelude::*;

verus! {

/// Bit that enables the bus-encryption stage of the read datapath; the register
/// sits at `1 << 26`.
pub const BUSENC_ENABLE_BIT: u8 = 0x10;

/// Flag slot of the retired bus feature.
pub const BUS_SLOT: u32 = 7;

/// DVD region masks: only region N enabled.
pub const DVD_MASKS: [u8; 8] = [0xFE, 0xFD, 0xFB, 0xF7, 0xEF, 0xDF, 0xBF, 0x7F];

/// BD region A, B and C masks.
pub const BD_MASKS: [u8; 3] = [0x01, 0x02, 0x04];

fn dvd_masks() -> (v: Vec<u8>)
    ensures
        v@ == DVD_MASKS@,
{
    let v: Vec<u8> = vec![0xFE, 0xFD, 0xFB, 0xF7, 0xEF, 0xDF, 0xBF, 0x7F];
    assert(v@ =~= DVD_MASKS@);
    v
}

fn bd_masks() -> (v: Vec<u8>)
    ensures
        v@ == BD_MASKS@,
{
    let v: Vec<u8> = vec![0x01, 0x02, 0x04];
    assert(v@ =~= BD_MASKS@);
    v
}

/// Address of a feature's flag byte.
pub open spec fn flag_cell(flag_base: u32, feature: abi::Feature) -> u32 {
    (flag_base + feature.wire()) as u32
}

/// The desktop handshake gate, in place of the reset writer: state 6 when the
/// handshake is off, the OEM state 1 otherwise, then on at `back`.
pub open spec fn ake_program(flag_base: u32, back: u32) -> Seq<AsmOp> {
    Seq::empty()
        .push(AsmOp::Label)
        .push(AsmOp::Label)
        .push(AsmOp::LdrLit(2, flag_cell(flag_base, abi::Feature::Encryption)))
        .push(AsmOp::LdrbImm(2, 2, 0))
        .push(AsmOp::Compare(2, abi::STATE_OFF))
        .push(AsmOp::Beq(0))
        .push(AsmOp::MovsImm(1, 1))
        .push(AsmOp::B(1))
        .push(AsmOp::Bind(0))
        .push(AsmOp::MovsImm(1, 6))
        .push(AsmOp::Bind(1))
        .push(AsmOp::LdrLit(2, back | 1))
        .push(AsmOp::Bx(2))
}

/// The shared-call handshake gate: `r1` is kept unless the handshake is off, then
/// on at `back`.
pub open spec fn ake_nb_program(flag_base: u32, back: u32) -> Seq<AsmOp> {
    Seq::empty()
        .push(AsmOp::Label)
        .push(AsmOp::Label)
        .push(AsmOp::LdrLit(2, flag_cell(flag_base, abi::Feature::Encryption)))
        .push(AsmOp::LdrbImm(2, 2, 0))
        .push(AsmOp::Compare(2, abi::STATE_OFF))
        .push(AsmOp::Beq(0))
        .push(AsmOp::B(1))
        .push(AsmOp::Bind(0))
        .push(AsmOp::MovsImm(1, 6))
        .push(AsmOp::Bind(1))
        .push(AsmOp::LdrLit(2, back | 1))
        .push(AsmOp::Bx(2))
}

/// The classic handshake gate: replay `lsrs r0,r0,#6`, then as the desktop one.
pub open spec fn ake_classic_program(flag_base: u32, back: u32) -> Seq<AsmOp> {
    Seq::empty()
        .push(AsmOp::Label)
        .push(AsmOp::Label)
        .push(AsmOp::LsrsImm(0, 0, 6))
        .push(AsmOp::LdrLit(2, flag_cell(flag_base, abi::Feature::Encryption)))
        .push(AsmOp::LdrbImm(2, 2, 0))
        .push(AsmOp::Compare(2, abi::STATE_OFF))
        .push(AsmOp::Beq(0))
        .push(AsmOp::MovsImm(1, 1))
        .push(AsmOp::B(1))
        .push(AsmOp::Bind(0))
        .push(AsmOp::MovsImm(1, 6))
        .push(AsmOp::Bind(1))
        .push(AsmOp::LdrLit(2, back | 1))
        .push(AsmOp::Bx(2))
}

/// The VID producer's gate: with the handshake off, reset the AGID selector, clear
/// the session through `aacs_reset` and go on as authenticated; otherwise the OEM
/// decision on the auth byte.
pub open spec fn gatea_program(
    flag_base: u32,
    agid_struct: u32,
    authed: u32,
    deny: u32,
    aacs_reset: u32,
) -> Seq<AsmOp> {
    Seq::empty()
        .push(AsmOp::Label)
        .push(AsmOp::Label)
        .push(AsmOp::LdrLit(2, flag_cell(flag_base, abi::Feature::Encryption)))
        .push(AsmOp::LdrbImm(2, 2, 0))
        .push(AsmOp::Compare(2, abi::STATE_OFF))
        .push(AsmOp::Beq(0))
        .push(AsmOp::Compare(0, 6))
        .push(AsmOp::Beq(1))
        .push(AsmOp::LdrLit(2, deny | 1))
        .push(AsmOp::Bx(2))
        .push(AsmOp::Bind(0))
        .push(AsmOp::LdrLit(2, agid_struct))
        .push(AsmOp::LdrbImm(3, 2, 0xA))
        .push(AsmOp::MovsImm(1, 0xC0))
        .push(AsmOp::Bics(3, 1))
        .push(AsmOp::StrbImm(3, 2, 0xA))
        .push(AsmOp::LdrLit(2, aacs_reset | 1))
        .push(AsmOp::Blx(2))
        .push(AsmOp::Bind(1))
        .push(AsmOp::LdrLit(2, authed | 1))
        .push(AsmOp::Bx(2))
}

/// The deny path: idle the AACS engine, replay the sense setup, return.
pub open spec fn deny_reset_program(reset: u32) -> Seq<AsmOp> {
    Seq::empty()
        .push(AsmOp::Push(0x0110))
        .push(AsmOp::LdrLit(2, reset | 1))
        .push(AsmOp::Blx(2))
        .push(AsmOp::MovsImm(2, 2))
        .push(AsmOp::MovsImm(1, 0x6F))
        .push(AsmOp::Pop(0x0110))
}

/// The data-key path: replay the key programming call, then clear the bus-encryption
/// enable bit when the flag slot reads off.
pub open spec fn busenc_program(flag_base: u32, keyprog: u32) -> Seq<AsmOp> {
    Seq::empty()
        .push(AsmOp::Label)
        .push(AsmOp::Push(0x0110))
        .push(AsmOp::LdrLit(4, keyprog | 1))
        .push(AsmOp::Blx(4))
        .push(AsmOp::LdrLit(3, (flag_base + BUS_SLOT) as u32))
        .push(AsmOp::LdrbImm(3, 3, 0))
        .push(AsmOp::Compare(3, abi::STATE_OFF))
        .push(AsmOp::Bne(0))
        .push(AsmOp::MovsImm(1, 1))
        .push(AsmOp::LslsImm(1, 1, 26))
        .push(AsmOp::LdrImm(2, 1, 0))
        .push(AsmOp::MovsImm(3, BUSENC_ENABLE_BIT))
        .push(AsmOp::Bics(2, 3))
        .push(AsmOp::StrImm(2, 1, 0))
        .push(AsmOp::Bind(0))
        .push(AsmOp::Pop(0x0110))
}

/// The byte-extraction classifier: replay the version reload and the loop seed, and
/// zero the version when UHD is on.
pub open spec fn uhd_program(flag_base: u32) -> Seq<AsmOp> {
    Seq::empty()
        .push(AsmOp::Label)
        .push(AsmOp::Raw16(0x980E))
        .push(AsmOp::MovsImm(5, 6))
        .push(AsmOp::LdrLit(3, flag_cell(flag_base, abi::Feature::Uhd)))
        .push(AsmOp::LdrbImm(3, 3, 0))
        .push(AsmOp::Compare(3, abi::STATE_ON))
        .push(AsmOp::Bne(0))
        .push(AsmOp::MovsImm(0, 0))
        .push(AsmOp::Bind(0))
        .push(AsmOp::Bx(14))
}

/// The version-compare classifier: on goes to `arm_c_va`, off goes to `mode1_va`, and
/// anything else replays the load and the compare.
pub open spec fn uhd_ver_program(flag_base: u32, arm_c_va: u32, mode1_va: u32) -> Seq<AsmOp> {
    Seq::empty()
        .push(AsmOp::Label)
        .push(AsmOp::Label)
        .push(AsmOp::Raw16(0x8808))
        .push(AsmOp::LdrLit(3, flag_cell(flag_base, abi::Feature::Uhd)))
        .push(AsmOp::LdrbImm(3, 3, 0))
        .push(AsmOp::Compare(3, abi::STATE_ON))
        .push(AsmOp::Beq(0))
        .push(AsmOp::Compare(3, abi::STATE_OFF))
        .push(AsmOp::Beq(1))
        .push(AsmOp::Compare(0, 0x63))
        .push(AsmOp::Bx(14))
        .push(AsmOp::Bind(0))
        .push(AsmOp::LdrLit(3, arm_c_va | 1))
        .push(AsmOp::Bx(3))
        .push(AsmOp::Bind(1))
        .push(AsmOp::LdrLit(3, mode1_va | 1))
        .push(AsmOp::Bx(3))
}

/// The explicit media gate: replay the class load and compare, or compare against a
/// class no disc has when BD is off.
pub open spec fn bd_program(flag_base: u32) -> Seq<AsmOp> {
    Seq::empty()
        .push(AsmOp::Label)
        .push(AsmOp::Raw16(0x79D0))
        .push(AsmOp::LdrLit(3, flag_cell(flag_base, abi::Feature::Bd)))
        .push(AsmOp::LdrbImm(3, 3, 0))
        .push(AsmOp::Compare(3, abi::STATE_OFF))
        .push(AsmOp::Beq(0))
        .push(AsmOp::Compare(0, 2))
        .push(AsmOp::Bx(14))
        .push(AsmOp::Bind(0))
        .push(AsmOp::Compare(0, 0xFF))
        .push(AsmOp::Bx(14))
}

/// The descriptor-classifier media gate: replay the frame reserve and the mode test,
/// or go to the OEM deny block for a BD disc when BD is off.
pub open spec fn bd_ver_program(flag_base: u32, subsp_hw: u16, deny_va: u32) -> Seq<AsmOp> {
    Seq::empty()
        .push(AsmOp::Label)
        .push(AsmOp::Raw16(subsp_hw))
        .push(AsmOp::Push(0x0008))
        .push(AsmOp::LdrLit(3, flag_cell(flag_base, abi::Feature::Bd)))
        .push(AsmOp::LdrbImm(3, 3, 0))
        .push(AsmOp::Compare(3, abi::STATE_OFF))
        .push(AsmOp::Bne(0))
        .push(AsmOp::Compare(2, 0))
        .push(AsmOp::Bne(0))
        .push(AsmOp::Pop(0x0008))
        .push(AsmOp::LdrLit(3, deny_va | 1))
        .push(AsmOp::Bx(3))
        .push(AsmOp::Bind(0))
        .push(AsmOp::Pop(0x0008))
        .push(AsmOp::Compare(2, 0))
        .push(AsmOp::Bx(14))
}

/// The revocation check: clean when the feature is off or the lookup said clean, else
/// on at `revoke`.
pub open spec fn hrl_skip_program(flag_base: u32, revoke: u32) -> Seq<AsmOp> {
    Seq::empty()
        .push(AsmOp::Label)
        .push(AsmOp::Push(0x0008))
        .push(AsmOp::LdrLit(3, flag_cell(flag_base, abi::Feature::Hrl)))
        .push(AsmOp::LdrbImm(3, 3, 0))
        .push(AsmOp::Compare(3, abi::STATE_OFF))
        .push(AsmOp::Beq(0))
        .push(AsmOp::Compare(0, 0))
        .push(AsmOp::Beq(0))
        .push(AsmOp::Pop(0x0008))
        .push(AsmOp::LdrLit(3, revoke | 1))
        .push(AsmOp::Bx(3))
        .push(AsmOp::Bind(0))
        .push(AsmOp::Pop(0x0008))
        .push(AsmOp::Bx(14))
}

/// The RPC-state emitter: locked, forced DVD or BD region, region-free, or the OEM
/// frame, by the region flag.
pub open spec fn region_program(flag_base: u32) -> Seq<AsmOp> {
    Seq::empty()
        .push(AsmOp::Label)
        .push(AsmOp::Label)
        .push(AsmOp::Label)
        .push(AsmOp::Label)
        .push(AsmOp::Label)
        .push(AsmOp::Label)
        .push(AsmOp::LdrLit(3, flag_cell(flag_base, abi::Feature::Region)))
        .push(AsmOp::LdrbImm(3, 3, 0))
        .push(AsmOp::Compare(3, abi::REGION_FREE))
        .push(AsmOp::Beq(0))
        .push(AsmOp::Compare(3, abi::STATE_OFF))
        .push(AsmOp::Beq(1))
        .push(AsmOp::Compare(3, 9))
        .push(AsmOp::Blo(2))
        .push(AsmOp::Compare(3, abi::REGION_BD_A))
        .push(AsmOp::Blo(4))
        .push(AsmOp::Compare(3, 13))
        .push(AsmOp::Blo(3))
        .push(AsmOp::Bind(4))
        .push(AsmOp::StrbImm(2, 0, 8))
        .push(AsmOp::Raw16(0x466B))
        .push(AsmOp::LdrbImm(2, 3, 3))
        .push(AsmOp::StrbImm(2, 0, 8))
        .push(AsmOp::StrbImm(4, 0, 8))
        .push(AsmOp::B(5))
        .push(AsmOp::Bind(0))
        .push(AsmOp::StrbImm(1, 0, 8))
        .push(AsmOp::StrbImm(1, 0, 8))
        .push(AsmOp::StrbImm(1, 0, 8))
        .push(AsmOp::B(5))
        .push(AsmOp::Bind(1))
        .push(AsmOp::StrbImm(2, 0, 8))
        .push(AsmOp::MovsImm(2, 0xFF))
        .push(AsmOp::StrbImm(2, 0, 8))
        .push(AsmOp::StrbImm(4, 0, 8))
        .push(AsmOp::B(5))
        .push(AsmOp::Bind(2))
        .push(AsmOp::Blob(DVD_MASKS@))
        .push(AsmOp::StrbImm(2, 0, 8))
        .push(AsmOp::SubsImm(3, 1))
        .push(AsmOp::Adr(2, 6))
        .push(AsmOp::LdrbReg(2, 2, 3))
        .push(AsmOp::StrbImm(2, 0, 8))
        .push(AsmOp::StrbImm(4, 0, 8))
        .push(AsmOp::B(5))
        .push(AsmOp::Bind(3))
        .push(AsmOp::Blob(BD_MASKS@))
        .push(AsmOp::StrbImm(2, 0, 8))
        .push(AsmOp::SubsImm(3, abi::REGION_BD_A))
        .push(AsmOp::Adr(2, 7))
        .push(AsmOp::LdrbReg(2, 2, 3))
        .push(AsmOp::StrbImm(2, 0, 8))
        .push(AsmOp::StrbImm(4, 0, 8))
        .push(AsmOp::B(5))
        .push(AsmOp::Bind(5))
        .push(AsmOp::StrbImm(1, 0, 8))
        .push(AsmOp::Pop(0x0118))
}

/// The ramp ceiling with the speed index in `r2`: no ceiling when the limiter is off,
/// the OEM band when passthrough, else the flag byte itself.
pub open spec fn speed_program_r2(flag_base: u32, fallthrough: u32, exit: u32) -> Seq<AsmOp> {
    Seq::empty()
        .push(AsmOp::Label)
        .push(AsmOp::Label)
        .push(AsmOp::Label)
        .push(AsmOp::Label)
        .push(AsmOp::Push(0x0001))
        .push(AsmOp::LdrLit(0, flag_cell(flag_base, abi::Feature::Speed)))
        .push(AsmOp::LdrbImm(0, 0, 0))
        .push(AsmOp::Compare(0, abi::SPEED_MAX))
        .push(AsmOp::Beq(0))
        .push(AsmOp::Compare(0, abi::STATE_PASSTHROUGH))
        .push(AsmOp::Beq(1))
        .push(AsmOp::CompareReg(2, 0))
        .push(AsmOp::B(2))
        .push(AsmOp::Bind(0))
        .push(AsmOp::Compare(2, 0xFF))
        .push(AsmOp::B(2))
        .push(AsmOp::Bind(1))
        .push(AsmOp::Compare(2, 0x32))
        .push(AsmOp::Bind(2))
        .push(AsmOp::Pop(0x0001))
        .push(AsmOp::Bhi(3))
        .push(AsmOp::LdrLit(2, fallthrough | 1))
        .push(AsmOp::Bx(2))
        .push(AsmOp::Bind(3))
        .push(AsmOp::LdrLit(2, exit | 1))
        .push(AsmOp::Bx(2))
}

/// The ramp ceiling with the speed index in `r0`.
pub open spec fn speed_program_r0(flag_base: u32, fallthrough: u32, exit: u32) -> Seq<AsmOp> {
    Seq::empty()
        .push(AsmOp::Label)
        .push(AsmOp::Label)
        .push(AsmOp::Label)
        .push(AsmOp::Label)
        .push(AsmOp::Push(0x0002))
        .push(AsmOp::LdrLit(1, flag_cell(flag_base, abi::Feature::Speed)))
        .push(AsmOp::LdrbImm(1, 1, 0))
        .push(AsmOp::Compare(1, abi::SPEED_MAX))
        .push(AsmOp::Beq(0))
        .push(AsmOp::Compare(1, abi::STATE_PASSTHROUGH))
        .push(AsmOp::Beq(1))
        .push(AsmOp::CompareReg(0, 1))
        .push(AsmOp::B(2))
        .push(AsmOp::Bind(0))
        .push(AsmOp::Compare(0, 0xFF))
        .push(AsmOp::B(2))
        .push(AsmOp::Bind(1))
        .push(AsmOp::Compare(0, 0x32))
        .push(AsmOp::Bind(2))
        .push(AsmOp::Pop(0x0002))
        .push(AsmOp::Bhi(3))
        .push(AsmOp::LdrLit(0, fallthrough | 1))
        .push(AsmOp::Bx(0))
        .push(AsmOp::Bind(3))
        .push(AsmOp::LdrLit(0, exit | 1))
        .push(AsmOp::Bx(0))
}

/// The Speed stub for a ramp that holds its index in `idx_reg`: `r2`, or else `r0`.
pub open spec fn speed_program(
    flag_base: u32,
    fallthrough: u32,
    exit: u32,
    idx_reg: u8,
) -> Seq<AsmOp> {
    if idx_reg == 2 {
        speed_program_r2(flag_base, fallthrough, exit)
    } else {
        speed_program_r0(flag_base, fallthrough, exit)
    }
}

/// The region trampoline is short enough to assemble.
#[verifier::spinoff_prover]
#[verifier::rlimit(40)]
proof fn lemma_region_sound(flag_base: u32)
    ensures
        program::sound(region_program(flag_base)),
{
    broadcast use program::group_program;

    assert(program::short(region_program(flag_base)));
}

impl Mt1959Engine {
    /// Builds the Speed stub for a ramp that holds its index in `idx_reg`.
    pub fn build_speed_stub(&self, flag_base: u32, fallthrough: u32, exit: u32, idx_reg: u8) -> (r:
        Result<Vec<u8>, FwError>)
        requires
            flag_base + 1 <= u32::MAX,
        ensures
            r matches Ok(v) && program::assembled(
                speed_program(flag_base, fallthrough, exit, idx_reg),
            ) == Some(v@),
    {
        if idx_reg == 2 {
            self.build_speed_stub_r2(flag_base, fallthrough, exit)
        } else {
            self.build_speed_stub_r0(flag_base, fallthrough, exit)
        }
    }

    /// Builds the handshake trampoline that replaces the reset writer `movs r1,#1; b <back>`.
    pub fn build_ake_stub(&self, flag_base: u32, back: u32) -> (r: Result<Vec<u8>, FwError>)
        requires
            flag_base + 6 <= u32::MAX,
        ensures
            r matches Ok(v) && program::assembled(ake_program(flag_base, back)) == Some(v@),
    {
        broadcast use program::group_program;

        let mut a: Asm = program::new();
        let accept: u16 = program::label(&mut a);
        let done: u16 = program::label(&mut a);
        program::ldr_lit(&mut a, 2, flag_base + abi::Feature::Encryption.code() as u32);
        program::ldrb_imm(&mut a, 2, 2, 0);
        program::compare(&mut a, 2, abi::STATE_OFF);
        program::beq(&mut a, accept);
        program::movs_imm(&mut a, 1, 1);
        program::b(&mut a, done);
        program::bind(&mut a, accept);
        program::movs_imm(&mut a, 1, 6);
        program::bind(&mut a, done);
        program::ldr_lit(&mut a, 2, back | 1);
        program::bx(&mut a, 2);
        assert(program::asm_ops(a) == ake_program(flag_base, back));
        assert(program::sound(ake_program(flag_base, back)));
        Ok(program::assemble(&mut a))
    }

    /// Builds the handshake trampoline that replaces the shared `bl set_agid_state` both
    /// arms reach; it keeps `r1` unless the handshake is off.
    pub fn build_ake_stub_nb(&self, flag_base: u32, back: u32) -> (r: Result<Vec<u8>, FwError>)
        requires
            flag_base + 6 <= u32::MAX,
        ensures
            r matches Ok(v) && program::assembled(ake_nb_program(flag_base, back)) == Some(v@),
    {
        broadcast use program::group_program;

        let mut a: Asm = program::new();
        let force: u16 = program::label(&mut a);
        let keep: u16 = program::label(&mut a);
        program::ldr_lit(&mut a, 2, flag_base + abi::Feature::Encryption.code() as u32);
        program::ldrb_imm(&mut a, 2, 2, 0);
        program::compare(&mut a, 2, abi::STATE_OFF);
        program::beq(&mut a, force);
        program::b(&mut a, keep);
        program::bind(&mut a, force);
        program::movs_imm(&mut a, 1, 6);
        program::bind(&mut a, keep);
        program::ldr_lit(&mut a, 2, back | 1);
        program::bx(&mut a, 2);
        assert(program::asm_ops(a) == ake_nb_program(flag_base, back));
        assert(program::sound(ake_nb_program(flag_base, back)));
        Ok(program::assemble(&mut a))
    }

    /// Builds the classic handshake trampoline. The four replaced bytes hold the AGID
    /// shift as well as the reject writer, so the shift is replayed first.
    pub fn build_ake_stub_classic(&self, flag_base: u32, back: u32) -> (r: Result<Vec<u8>, FwError>)
        requires
            flag_base + 6 <= u32::MAX,
        ensures
            r matches Ok(v) && program::assembled(ake_classic_program(flag_base, back)) == Some(v@),
    {
        broadcast use program::group_program;

        let mut a: Asm = program::new();
        let accept: u16 = program::label(&mut a);
        let done: u16 = program::label(&mut a);
        program::lsrs_imm(&mut a, 0, 0, 6);
        program::ldr_lit(&mut a, 2, flag_base + abi::Feature::Encryption.code() as u32);
        program::ldrb_imm(&mut a, 2, 2, 0);
        program::compare(&mut a, 2, abi::STATE_OFF);
        program::beq(&mut a, accept);
        program::movs_imm(&mut a, 1, 1);
        program::b(&mut a, done);
        program::bind(&mut a, accept);
        program::movs_imm(&mut a, 1, 6);
        program::bind(&mut a, done);
        program::ldr_lit(&mut a, 2, back | 1);
        program::bx(&mut a, 2);
        assert(program::asm_ops(a) == ake_classic_program(flag_base, back));
        assert(program::sound(ake_classic_program(flag_base, back)));
        Ok(program::assemble(&mut a))
    }

    /// Builds the producer-gate trampoline that replaces `cmp r0,#6; bne <deny>`.
    pub fn build_gatea_stub(
        &self,
        flag_base: u32,
        agid_struct: u32,
        authed: u32,
        deny: u32,
        aacs_reset: u32,
    ) -> (r: Result<Vec<u8>, FwError>)
        requires
            flag_base + 6 <= u32::MAX,
        ensures
            r matches Ok(v) && program::assembled(gatea_program(flag_base, agid_struct, authed, deny, aacs_reset)) == Some(v@),
    {
        broadcast use program::group_program;

        let mut a: Asm = program::new();
        let rearm: u16 = program::label(&mut a);
        let authed_direct: u16 = program::label(&mut a);
        program::ldr_lit(&mut a, 2, flag_base + abi::Feature::Encryption.code() as u32);
        program::ldrb_imm(&mut a, 2, 2, 0);
        program::compare(&mut a, 2, abi::STATE_OFF);
        program::beq(&mut a, rearm);
        program::compare(&mut a, 0, 6);
        program::beq(&mut a, authed_direct);
        program::ldr_lit(&mut a, 2, deny | 1);
        program::bx(&mut a, 2);
        program::bind(&mut a, rearm);
        program::ldr_lit(&mut a, 2, agid_struct);
        program::ldrb_imm(&mut a, 3, 2, 0xA);
        program::movs_imm(&mut a, 1, 0xC0);
        program::bics(&mut a, 3, 1);
        program::strb_imm(&mut a, 3, 2, 0xA);
        program::ldr_lit(&mut a, 2, aacs_reset | 1);
        program::blx(&mut a, 2);
        program::bind(&mut a, authed_direct);
        program::ldr_lit(&mut a, 2, authed | 1);
        program::bx(&mut a, 2);
        assert(program::asm_ops(a) == gatea_program(flag_base, agid_struct, authed, deny, aacs_reset));
        assert(program::sound(gatea_program(flag_base, agid_struct, authed, deny, aacs_reset)));
        Ok(program::assemble(&mut a))
    }

    /// Builds the deny-path trampoline that replaces `movs r2,#2; movs r1,#0x6f`.
    pub fn build_deny_reset_stub(&self, reset: u32) -> (r: Result<Vec<u8>, FwError>)
        ensures
            r matches Ok(v) && program::assembled(deny_reset_program(reset)) == Some(v@),
    {
        broadcast use program::group_program;

        let mut a: Asm = program::new();
        program::push(&mut a, 0x0110);
        program::ldr_lit(&mut a, 2, reset | 1);
        program::blx(&mut a, 2);
        program::movs_imm(&mut a, 2, 2);
        program::movs_imm(&mut a, 1, 0x6F);
        program::pop(&mut a, 0x0110);
        assert(program::asm_ops(a) == deny_reset_program(reset));
        assert(program::sound(deny_reset_program(reset)));
        Ok(program::assemble(&mut a))
    }

    /// Builds the data-key trampoline that replaces the arm's leading `bl <key-prog>`.
    pub fn build_busenc_stub(&self, flag_base: u32, keyprog: u32) -> (r: Result<Vec<u8>, FwError>)
        requires
            flag_base + 7 <= u32::MAX,
        ensures
            r matches Ok(v) && program::assembled(busenc_program(flag_base, keyprog)) == Some(v@),
    {
        broadcast use program::group_program;

        let mut a: Asm = program::new();
        let skip: u16 = program::label(&mut a);
        program::push(&mut a, 0x0110);
        program::ldr_lit(&mut a, 4, keyprog | 1);
        program::blx(&mut a, 4);
        program::ldr_lit(&mut a, 3, flag_base + BUS_SLOT);
        program::ldrb_imm(&mut a, 3, 3, 0);
        program::compare(&mut a, 3, abi::STATE_OFF);
        program::bne(&mut a, skip);
        program::movs_imm(&mut a, 1, 1);
        program::lsls_imm(&mut a, 1, 1, 26);
        program::ldr_imm(&mut a, 2, 1, 0);
        program::movs_imm(&mut a, 3, BUSENC_ENABLE_BIT);
        program::bics(&mut a, 2, 3);
        program::str_imm(&mut a, 2, 1, 0);
        program::bind(&mut a, skip);
        program::pop(&mut a, 0x0110);
        assert(program::asm_ops(a) == busenc_program(flag_base, keyprog));
        assert(program::sound(busenc_program(flag_base, keyprog)));
        Ok(program::assemble(&mut a))
    }

    /// Builds the classifier trampoline that replaces `ldr r0,[sp,#0x38]; movs r5,#6`.
    pub fn build_uhd_stub(&self, flag_base: u32) -> (r: Result<Vec<u8>, FwError>)
        requires
            flag_base + 3 <= u32::MAX,
        ensures
            r matches Ok(v) && program::assembled(uhd_program(flag_base)) == Some(v@),
    {
        broadcast use program::group_program;

        let mut a: Asm = program::new();
        let skip: u16 = program::label(&mut a);
        program::raw16(&mut a, 0x980E);
        program::movs_imm(&mut a, 5, 6);
        program::ldr_lit(&mut a, 3, flag_base + abi::Feature::Uhd.code() as u32);
        program::ldrb_imm(&mut a, 3, 3, 0);
        program::compare(&mut a, 3, abi::STATE_ON);
        program::bne(&mut a, skip);
        program::movs_imm(&mut a, 0, 0);
        program::bind(&mut a, skip);
        program::bx(&mut a, 14);
        assert(program::asm_ops(a) == uhd_program(flag_base));
        assert(program::sound(uhd_program(flag_base)));
        Ok(program::assemble(&mut a))
    }

    /// Builds the classifier trampoline that replaces `ldrh r0,[r1]; cmp r0,#0x63`.
    pub fn build_uhd_stub_ver(
        &self,
        flag_base: u32,
        arm_c_va: u32,
        mode1_va: u32,
    ) -> (r: Result<Vec<u8>, FwError>)
        requires
            flag_base + 3 <= u32::MAX,
        ensures
            r matches Ok(v) && program::assembled(uhd_ver_program(flag_base, arm_c_va, mode1_va)) == Some(v@),
    {
        broadcast use program::group_program;

        let mut a: Asm = program::new();
        let force_on: u16 = program::label(&mut a);
        let force_off: u16 = program::label(&mut a);
        program::raw16(&mut a, 0x8808);
        program::ldr_lit(&mut a, 3, flag_base + abi::Feature::Uhd.code() as u32);
        program::ldrb_imm(&mut a, 3, 3, 0);
        program::compare(&mut a, 3, abi::STATE_ON);
        program::beq(&mut a, force_on);
        program::compare(&mut a, 3, abi::STATE_OFF);
        program::beq(&mut a, force_off);
        program::compare(&mut a, 0, 0x63);
        program::bx(&mut a, 14);
        program::bind(&mut a, force_on);
        program::ldr_lit(&mut a, 3, arm_c_va | 1);
        program::bx(&mut a, 3);
        program::bind(&mut a, force_off);
        program::ldr_lit(&mut a, 3, mode1_va | 1);
        program::bx(&mut a, 3);
        assert(program::asm_ops(a) == uhd_ver_program(flag_base, arm_c_va, mode1_va));
        assert(program::sound(uhd_ver_program(flag_base, arm_c_va, mode1_va)));
        Ok(program::assemble(&mut a))
    }

    /// Builds the media-gate trampoline that replaces `ldrb r0,[r2,#7]; cmp r0,#2`.
    pub fn build_bd_stub(&self, flag_base: u32) -> (r: Result<Vec<u8>, FwError>)
        requires
            flag_base + 4 <= u32::MAX,
        ensures
            r matches Ok(v) && program::assembled(bd_program(flag_base)) == Some(v@),
    {
        broadcast use program::group_program;

        let mut a: Asm = program::new();
        let refuse: u16 = program::label(&mut a);
        program::raw16(&mut a, 0x79D0);
        program::ldr_lit(&mut a, 3, flag_base + abi::Feature::Bd.code() as u32);
        program::ldrb_imm(&mut a, 3, 3, 0);
        program::compare(&mut a, 3, abi::STATE_OFF);
        program::beq(&mut a, refuse);
        program::compare(&mut a, 0, 2);
        program::bx(&mut a, 14);
        program::bind(&mut a, refuse);
        program::compare(&mut a, 0, 0xFF);
        program::bx(&mut a, 14);
        assert(program::asm_ops(a) == bd_program(flag_base));
        assert(program::sound(bd_program(flag_base)));
        Ok(program::assemble(&mut a))
    }

    /// Builds the media-gate trampoline that replaces `cmp r2,#0; sub sp,#imm`; `subsp_hw`
    /// is the replaced frame reserve.
    pub fn build_bd_stub_ver(
        &self,
        flag_base: u32,
        subsp_hw: u16,
        deny_va: u32,
    ) -> (r: Result<Vec<u8>, FwError>)
        requires
            flag_base + 4 <= u32::MAX,
        ensures
            r matches Ok(v) && program::assembled(bd_ver_program(flag_base, subsp_hw, deny_va)) == Some(v@),
    {
        broadcast use program::group_program;

        let mut a: Asm = program::new();
        let stealth: u16 = program::label(&mut a);
        program::raw16(&mut a, subsp_hw);
        program::push(&mut a, 0x0008);
        program::ldr_lit(&mut a, 3, flag_base + abi::Feature::Bd.code() as u32);
        program::ldrb_imm(&mut a, 3, 3, 0);
        program::compare(&mut a, 3, abi::STATE_OFF);
        program::bne(&mut a, stealth);
        program::compare(&mut a, 2, 0);
        program::bne(&mut a, stealth);
        program::pop(&mut a, 0x0008);
        program::ldr_lit(&mut a, 3, deny_va | 1);
        program::bx(&mut a, 3);
        program::bind(&mut a, stealth);
        program::pop(&mut a, 0x0008);
        program::compare(&mut a, 2, 0);
        program::bx(&mut a, 14);
        assert(program::asm_ops(a) == bd_ver_program(flag_base, subsp_hw, deny_va));
        assert(program::sound(bd_ver_program(flag_base, subsp_hw, deny_va)));
        Ok(program::assemble(&mut a))
    }

    /// Builds the revocation trampoline that replaces `cmp r0,#0; bne <revoke>`.
    pub fn build_hrl_skip_stub(&self, flag_base: u32, revoke: u32) -> (r: Result<Vec<u8>, FwError>)
        requires
            flag_base + 5 <= u32::MAX,
        ensures
            r matches Ok(v) && program::assembled(hrl_skip_program(flag_base, revoke)) == Some(v@),
    {
        broadcast use program::group_program;

        let mut a: Asm = program::new();
        let clean: u16 = program::label(&mut a);
        program::push(&mut a, 0x0008);
        program::ldr_lit(&mut a, 3, flag_base + abi::Feature::Hrl.code() as u32);
        program::ldrb_imm(&mut a, 3, 3, 0);
        program::compare(&mut a, 3, abi::STATE_OFF);
        program::beq(&mut a, clean);
        program::compare(&mut a, 0, 0);
        program::beq(&mut a, clean);
        program::pop(&mut a, 0x0008);
        program::ldr_lit(&mut a, 3, revoke | 1);
        program::bx(&mut a, 3);
        program::bind(&mut a, clean);
        program::pop(&mut a, 0x0008);
        program::bx(&mut a, 14);
        assert(program::asm_ops(a) == hrl_skip_program(flag_base, revoke));
        assert(program::sound(hrl_skip_program(flag_base, revoke)));
        Ok(program::assemble(&mut a))
    }

    /// Builds the emitter trampoline that replaces the `frame[4]` store and `mov r3,sp`.
    pub fn build_region_stub(&self, flag_base: u32) -> (r: Result<Vec<u8>, FwError>)
        requires
            flag_base + 2 <= u32::MAX,
        ensures
            r matches Ok(v) && program::assembled(region_program(flag_base)) == Some(v@),
    {
        broadcast use program::group_program;

        let mut a: Asm = program::new();
        let region_free: u16 = program::label(&mut a);
        let region_lock: u16 = program::label(&mut a);
        let dvd_force: u16 = program::label(&mut a);
        let bd_force: u16 = program::label(&mut a);
        let oem: u16 = program::label(&mut a);
        let tail: u16 = program::label(&mut a);
        program::ldr_lit(&mut a, 3, flag_base + abi::Feature::Region.code() as u32);
        program::ldrb_imm(&mut a, 3, 3, 0);
        program::compare(&mut a, 3, abi::REGION_FREE);
        program::beq(&mut a, region_free);
        program::compare(&mut a, 3, abi::STATE_OFF);
        program::beq(&mut a, region_lock);
        program::compare(&mut a, 3, 9);
        program::blo(&mut a, dvd_force);
        program::compare(&mut a, 3, abi::REGION_BD_A);
        program::blo(&mut a, oem);
        program::compare(&mut a, 3, 13);
        program::blo(&mut a, bd_force);
        program::bind(&mut a, oem);
        program::strb_imm(&mut a, 2, 0, 8);
        program::raw16(&mut a, 0x466B);
        program::ldrb_imm(&mut a, 2, 3, 3);
        program::strb_imm(&mut a, 2, 0, 8);
        program::strb_imm(&mut a, 4, 0, 8);
        program::b(&mut a, tail);
        program::bind(&mut a, region_free);
        program::strb_imm(&mut a, 1, 0, 8);
        program::strb_imm(&mut a, 1, 0, 8);
        program::strb_imm(&mut a, 1, 0, 8);
        program::b(&mut a, tail);
        program::bind(&mut a, region_lock);
        program::strb_imm(&mut a, 2, 0, 8);
        program::movs_imm(&mut a, 2, 0xFF);
        program::strb_imm(&mut a, 2, 0, 8);
        program::strb_imm(&mut a, 4, 0, 8);
        program::b(&mut a, tail);
        program::bind(&mut a, dvd_force);
        let dvd: u16 = program::data_blob(&mut a, dvd_masks());
        program::strb_imm(&mut a, 2, 0, 8);
        program::subs_imm(&mut a, 3, 1);
        program::adr(&mut a, 2, dvd);
        program::ldrb_reg(&mut a, 2, 2, 3);
        program::strb_imm(&mut a, 2, 0, 8);
        program::strb_imm(&mut a, 4, 0, 8);
        program::b(&mut a, tail);
        program::bind(&mut a, bd_force);
        let bd: u16 = program::data_blob(&mut a, bd_masks());
        program::strb_imm(&mut a, 2, 0, 8);
        program::subs_imm(&mut a, 3, abi::REGION_BD_A);
        program::adr(&mut a, 2, bd);
        program::ldrb_reg(&mut a, 2, 2, 3);
        program::strb_imm(&mut a, 2, 0, 8);
        program::strb_imm(&mut a, 4, 0, 8);
        program::b(&mut a, tail);
        program::bind(&mut a, tail);
        program::strb_imm(&mut a, 1, 0, 8);
        program::pop(&mut a, 0x0118);
        assert(program::asm_ops(a) == region_program(flag_base));
        proof {
            lemma_region_sound(flag_base);
        }
        Ok(program::assemble(&mut a))
    }

    /// Builds the ramp trampoline for a ramp that holds its index in `r2`.
    fn build_speed_stub_r2(
        &self,
        flag_base: u32,
        fallthrough: u32,
        exit: u32,
    ) -> (r: Result<Vec<u8>, FwError>)
        requires
            flag_base + 1 <= u32::MAX,
        ensures
            r matches Ok(v) && program::assembled(speed_program_r2(flag_base, fallthrough, exit)) == Some(v@),
    {
        broadcast use program::group_program;

        let mut a: Asm = program::new();
        let patched: u16 = program::label(&mut a);
        let oem: u16 = program::label(&mut a);
        let decide: u16 = program::label(&mut a);
        let go_exit: u16 = program::label(&mut a);
        program::push(&mut a, 0x0001);
        program::ldr_lit(&mut a, 0, flag_base + abi::Feature::Speed.code() as u32);
        program::ldrb_imm(&mut a, 0, 0, 0);
        program::compare(&mut a, 0, abi::SPEED_MAX);
        program::beq(&mut a, patched);
        program::compare(&mut a, 0, abi::STATE_PASSTHROUGH);
        program::beq(&mut a, oem);
        program::compare_reg(&mut a, 2, 0);
        program::b(&mut a, decide);
        program::bind(&mut a, patched);
        program::compare(&mut a, 2, 0xFF);
        program::b(&mut a, decide);
        program::bind(&mut a, oem);
        program::compare(&mut a, 2, 0x32);
        program::bind(&mut a, decide);
        program::pop(&mut a, 0x0001);
        program::bhi(&mut a, go_exit);
        program::ldr_lit(&mut a, 2, fallthrough | 1);
        program::bx(&mut a, 2);
        program::bind(&mut a, go_exit);
        program::ldr_lit(&mut a, 2, exit | 1);
        program::bx(&mut a, 2);
        assert(program::asm_ops(a) == speed_program_r2(flag_base, fallthrough, exit));
        assert(program::sound(speed_program_r2(flag_base, fallthrough, exit)));
        Ok(program::assemble(&mut a))
    }

    /// Builds the ramp trampoline for a ramp that holds its index in `r0`.
    fn build_speed_stub_r0(
        &self,
        flag_base: u32,
        fallthrough: u32,
        exit: u32,
    ) -> (r: Result<Vec<u8>, FwError>)
        requires
            flag_base + 1 <= u32::MAX,
        ensures
            r matches Ok(v) && program::assembled(speed_program_r0(flag_base, fallthrough, exit)) == Some(v@),
    {
        broadcast use program::group_program;

        let mut a: Asm = program::new();
        let patched: u16 = program::label(&mut a);
        let oem: u16 = program::label(&mut a);
        let decide: u16 = program::label(&mut a);
        let go_exit: u16 = program::label(&mut a);
        program::push(&mut a, 0x0002);
        program::ldr_lit(&mut a, 1, flag_base + abi::Feature::Speed.code() as u32);
        program::ldrb_imm(&mut a, 1, 1, 0);
        program::compare(&mut a, 1, abi::SPEED_MAX);
        program::beq(&mut a, patched);
        program::compare(&mut a, 1, abi::STATE_PASSTHROUGH);
        program::beq(&mut a, oem);
        program::compare_reg(&mut a, 0, 1);
        program::b(&mut a, decide);
        program::bind(&mut a, patched);
        program::compare(&mut a, 0, 0xFF);
        program::b(&mut a, decide);
        program::bind(&mut a, oem);
        program::compare(&mut a, 0, 0x32);
        program::bind(&mut a, decide);
        program::pop(&mut a, 0x0002);
        program::bhi(&mut a, go_exit);
        program::ldr_lit(&mut a, 0, fallthrough | 1);
        program::bx(&mut a, 0);
        program::bind(&mut a, go_exit);
        program::ldr_lit(&mut a, 0, exit | 1);
        program::bx(&mut a, 0);
        assert(program::asm_ops(a) == speed_program_r0(flag_base, fallthrough, exit));
        assert(program::sound(speed_program_r0(flag_base, fallthrough, exit)));
        Ok(program::assemble(&mut a))
    }
}

} // verus!
