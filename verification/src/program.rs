//! The Thumb assembler of `thumb_asm` as a list of instructions, and what is
//! known of the bytes it lays out.
use crate::raw;
use thumb_asm::Asm;
use vstd::prelude::*;

verus! {

/// The assembler under construction.
#[verifier::external_type_specification]
#[verifier::external_body]
pub struct ExAsm(thumb_asm::Asm);

/// Why the assembler refused a program.
#[verifier::external_type_specification]
#[verifier::external_body]
pub struct ExAsmError(thumb_asm::AsmError);

/// One step of an assembly program. Registers and immediates are as the mnemonic
/// names them.
pub enum AsmOp {
    /// A label reserved for a later `bind`.
    Label,
    /// Data laid out after the code, reserving a label for it.
    Blob(Seq<u8>),
    /// `label:`
    Bind(u16),
    /// A halfword given as it stands.
    Raw16(u16),
    /// `ldr rt,=value`
    LdrLit(u16, u32),
    /// `ldrb rt,[rn,#imm5]`
    LdrbImm(u16, u16, u16),
    /// `ldr rt,[rn,#imm]`
    LdrImm(u16, u16, u16),
    /// `strh rt,[rn,#imm]`
    StrhImm(u16, u16, u16),
    /// `str rt,[rn,#imm]`
    StrImm(u16, u16, u16),
    /// `strb rt,[rn,#imm5]`
    StrbImm(u16, u16, u16),
    /// `bics rd,rm`
    Bics(u16, u16),
    /// `orrs rd,rm`
    Orrs(u16, u16),
    /// `cmp rn,#imm8`
    Compare(u16, u8),
    /// `cmp rn,rm`
    CompareReg(u16, u16),
    /// `movs rt,#imm8`
    MovsImm(u16, u8),
    /// `push {reglist}`
    Push(u16),
    /// `pop {reglist}`
    Pop(u16),
    /// `blx rm`
    Blx(u16),
    /// `bx rm`
    Bx(u16),
    /// `beq label`
    Beq(u16),
    /// `bne label`
    Bne(u16),
    /// `bhs label`
    Bhs(u16),
    /// `blo label`
    Blo(u16),
    /// `bhi label`
    Bhi(u16),
    /// `b label`
    B(u16),
    /// `ldrb rt,[rn,rm]`
    LdrbReg(u16, u16, u16),
    /// `adds rt,#imm8`
    AddsImm(u16, u8),
    /// `subs rt,#imm8`
    SubsImm(u16, u8),
    /// `lsls rd,rm,#imm5`
    LslsImm(u16, u16, u16),
    /// `lsrs rd,rm,#imm5`
    LsrsImm(u16, u16, u16),
    /// `adds rd,rn,rm`
    AddsReg(u16, u16, u16),
    /// `mov rd,rm`
    MovReg(u16, u16),
    /// `adr rd,blob_label`
    Adr(u16, u16),
}

/// The steps given to `a` so far.
pub uninterp spec fn asm_ops(a: thumb_asm::Asm) -> Seq<AsmOp>;

/// The bytes the program `ops` assembles to, unless it is refused.
pub uninterp spec fn assembled(ops: Seq<AsmOp>) -> Option<Seq<u8>>;

/// Labels reserved by `ops`; they are numbered from zero in that order.
#[verifier::opaque]
pub open spec fn label_count(ops: Seq<AsmOp>) -> nat
    decreases ops.len(),
{
    if ops.len() == 0 {
        0
    } else {
        label_count(ops.drop_last()) + (if ops.last() is Label || ops.last() is Blob {
            1nat
        } else {
            0nat
        })
    }
}

/// The step emits an instruction.
pub open spec fn is_insn(op: AsmOp) -> bool {
    !(op is Label || op is Bind || op is Blob)
}

/// Bytes of code in `ops`, two per instruction.
#[verifier::opaque]
pub open spec fn code_len(ops: Seq<AsmOp>) -> nat
    decreases ops.len(),
{
    if ops.len() == 0 {
        0
    } else {
        code_len(ops.drop_last()) + (if is_insn(ops.last()) {
            2nat
        } else {
            0nat
        })
    }
}

/// An upper bound on the bytes `ops` needs for its literals and data.
#[verifier::opaque]
pub open spec fn pool_bound(ops: Seq<AsmOp>) -> nat
    decreases ops.len(),
{
    if ops.len() == 0 {
        0
    } else {
        pool_bound(ops.drop_last()) + (match ops.last() {
            AsmOp::LdrLit(_, _) => 4nat,
            AsmOp::Blob(b) => b.len() + 3,
            _ => 0nat,
        })
    }
}

/// `label` is bound somewhere in `ops`.
#[verifier::opaque]
pub open spec fn binds(ops: Seq<AsmOp>, label: u16) -> bool
    decreases ops.len(),
{
    ops.len() > 0 && (ops.last() == AsmOp::Bind(label) || binds(ops.drop_last(), label))
}

/// `label` belongs to a data blob of `ops`.
#[verifier::opaque]
pub open spec fn names_blob(ops: Seq<AsmOp>, label: u16) -> bool
    decreases ops.len(),
{
    ops.len() > 0 && ((ops.last() is Blob && label_count(ops.drop_last()) == label) || names_blob(
        ops.drop_last(),
        label,
    ))
}

/// The operands of `op`, coming after `before`, are ones its encoding holds.
pub open spec fn encodable(before: Seq<AsmOp>, op: AsmOp) -> bool {
    match op {
        AsmOp::Label | AsmOp::Blob(_) | AsmOp::Raw16(_) => true,
        AsmOp::Bind(l) => l < label_count(before),
        AsmOp::LdrLit(rt, _) => rt <= 7,
        AsmOp::LdrbImm(rt, rn, i) => rt <= 7 && rn <= 7 && i <= 31,
        AsmOp::StrbImm(rt, rn, i) => rt <= 7 && rn <= 7 && i <= 31,
        AsmOp::LdrImm(rt, rn, i) => rt <= 7 && rn <= 7 && i <= 124 && i % 4 == 0,
        AsmOp::StrImm(rt, rn, i) => rt <= 7 && rn <= 7 && i <= 124 && i % 4 == 0,
        AsmOp::StrhImm(rt, rn, i) => rt <= 7 && rn <= 7 && i <= 62 && i % 2 == 0,
        AsmOp::Bics(rd, rm) => rd <= 7 && rm <= 7,
        AsmOp::Orrs(rd, rm) => rd <= 7 && rm <= 7,
        AsmOp::Compare(rn, _) => rn <= 7,
        AsmOp::CompareReg(rn, rm) => rn <= 7 && rm <= 7,
        AsmOp::MovsImm(rt, _) => rt <= 7,
        AsmOp::Push(l) => 0 < l <= 0x1FF,
        AsmOp::Pop(l) => 0 < l <= 0x1FF,
        AsmOp::Blx(rm) => rm <= 14,
        AsmOp::Bx(rm) => rm <= 15,
        AsmOp::LdrbReg(rt, rn, rm) => rt <= 7 && rn <= 7 && rm <= 7,
        AsmOp::AddsImm(rt, _) => rt <= 7,
        AsmOp::SubsImm(rt, _) => rt <= 7,
        AsmOp::LslsImm(rd, rm, i) => rd <= 7 && rm <= 7 && i <= 31,
        AsmOp::LsrsImm(rd, rm, i) => rd <= 7 && rm <= 7 && i <= 31,
        AsmOp::AddsReg(rd, rn, rm) => rd <= 7 && rn <= 7 && rm <= 7,
        AsmOp::MovReg(rd, rm) => rd <= 15 && rm <= 15,
        AsmOp::Adr(rd, _) => rd <= 7,
        AsmOp::Beq(_) | AsmOp::Bne(_) | AsmOp::Bhs(_) | AsmOp::Blo(_) | AsmOp::Bhi(_) | AsmOp::B(
            _,
        ) => true,
    }
}

/// Every step of `ops` is encodable where it stands.
#[verifier::opaque]
pub open spec fn all_encodable(ops: Seq<AsmOp>) -> bool
    decreases ops.len(),
{
    ops.len() == 0 || (all_encodable(ops.drop_last()) && encodable(ops.drop_last(), ops.last()))
}

/// The label `op` refers to is one that `whole` defines.
pub open spec fn refers_into(op: AsmOp, whole: Seq<AsmOp>) -> bool {
    match op {
        AsmOp::Beq(l) | AsmOp::Bne(l) | AsmOp::Bhs(l) | AsmOp::Blo(l) | AsmOp::Bhi(l) | AsmOp::B(
            l,
        ) => binds(whole, l),
        AsmOp::Adr(_, l) => names_blob(whole, l),
        _ => true,
    }
}

/// Every label that `part` refers to is one that `whole` defines.
#[verifier::opaque]
pub open spec fn closed_in(part: Seq<AsmOp>, whole: Seq<AsmOp>) -> bool
    decreases part.len(),
{
    part.len() == 0 || (closed_in(part.drop_last(), whole) && refers_into(part.last(), whole))
}

/// `op` is a conditional branch, and `target` binds its label.
pub open spec fn branches_to(op: AsmOp, target: AsmOp) -> bool {
    match op {
        AsmOp::Beq(l) | AsmOp::Bne(l) | AsmOp::Bhs(l) | AsmOp::Blo(l) | AsmOp::Bhi(l) => target
            == AsmOp::Bind(l),
        _ => false,
    }
}

/// Every conditional branch of `ops` reaches its label, which is from 252 bytes before
/// the branch to 258 bytes past it.
#[verifier::opaque]
pub open spec fn in_reach(ops: Seq<AsmOp>) -> bool {
    forall|i: int, j: int|
        0 <= i < ops.len() && 0 <= j < ops.len() && #[trigger] branches_to(ops[i], ops[j])
            ==> -252 <= code_len(ops.take(j)) - code_len(ops.take(i)) <= 258
}

/// A program with encodable operands, no dangling label and every conditional branch in
/// reach, short enough for its other branches, its literals and its addresses.
pub open spec fn sound(ops: Seq<AsmOp>) -> bool {
    &&& all_encodable(ops)
    &&& closed_in(ops, ops)
    &&& in_reach(ops)
    &&& code_len(ops) + pool_bound(ops) <= 900
}

/// A program so short that every conditional branch in it is in reach.
pub open spec fn short(ops: Seq<AsmOp>) -> bool {
    &&& all_encodable(ops)
    &&& closed_in(ops, ops)
    &&& code_len(ops) <= 254
    &&& code_len(ops) + pool_bound(ops) <= 900
}

/// The word `value` is one of the little-endian words of `bytes`.
pub open spec fn holds_word(bytes: Seq<u8>, value: u32) -> bool {
    exists|p: int| 0 <= p && p + 4 <= bytes.len() && #[trigger] raw::u32_at(bytes, p) == value
}

/// `data` occurs in `bytes` no sooner than `from`.
pub open spec fn holds_data(bytes: Seq<u8>, data: Seq<u8>, from: int) -> bool {
    exists|p: int| from <= p && #[trigger] raw::occurs_at(bytes, data, p)
}

/// `thumb_asm::Asm::new` starts an empty program.
#[verifier::external_body]
pub(crate) fn new() -> (a: Asm)
    ensures
        asm_ops(a) == Seq::<AsmOp>::empty(),
{
    Asm::new()
}

/// `thumb_asm::Asm::label` reserves the next label number.
#[verifier::external_body]
pub(crate) fn label(a: &mut Asm) -> (l: u16)
    ensures
        asm_ops(*final(a)) == asm_ops(*old(a)).push(AsmOp::Label),
        l == label_count(asm_ops(*old(a))) as u16,
{
    a.label()
}

/// `thumb_asm::Asm::data_blob` reserves the next label number for `data`, which is
/// laid out after the code.
#[verifier::external_body]
pub(crate) fn data_blob(a: &mut Asm, data: Vec<u8>) -> (l: u16)
    ensures
        asm_ops(*final(a)) == asm_ops(*old(a)).push(AsmOp::Blob(data@)),
        l == label_count(asm_ops(*old(a))) as u16,
{
    a.data_blob(data)
}

/// `thumb_asm::Asm::finish` lays the program out and leaves an empty assembler.
/// A closed program with encodable operands whose branches, literals and addresses
/// are in reach is never refused; the code comes first, and every pooled literal and every data blob is in the result.
/// Which bytes the instructions themselves become is left to the assembler.
#[verifier::external_body]
pub(crate) fn finish(a: &mut Asm) -> (r: Result<Vec<u8>, thumb_asm::AsmError>)
    ensures
        asm_ops(*final(a)) == Seq::<AsmOp>::empty(),
        r is Ok <==> assembled(asm_ops(*old(a))) is Some,
        r matches Ok(v) ==> assembled(asm_ops(*old(a))) == Some(v@),
        sound(asm_ops(*old(a))) ==> r is Ok,
        r matches Ok(v) ==> v@.len() >= code_len(asm_ops(*old(a))),
        r matches Ok(v) ==> forall|i: int|
            #![trigger asm_ops(*old(a))[i]]
            0 <= i < asm_ops(*old(a)).len() ==> (asm_ops(*old(a))[i] matches AsmOp::LdrLit(_, w)
                ==> holds_word(v@, w)),
        r matches Ok(v) ==> forall|i: int|
            #![trigger asm_ops(*old(a))[i]]
            0 <= i < asm_ops(*old(a)).len() ==> (asm_ops(*old(a))[i] matches AsmOp::Blob(data)
                ==> holds_data(v@, data, code_len(asm_ops(*old(a))) as int)),
{
    a.finish()
}

/// The bytes of a program that is not refused.
pub(crate) fn assemble(a: &mut Asm) -> (v: Vec<u8>)
    requires
        sound(asm_ops(*old(a))),
    ensures
        asm_ops(*final(a)) == Seq::<AsmOp>::empty(),
        assembled(asm_ops(*old(a))) == Some(v@),
        v@.len() >= code_len(asm_ops(*old(a))),
        forall|i: int|
            #![trigger asm_ops(*old(a))[i]]
            0 <= i < asm_ops(*old(a)).len() ==> (asm_ops(*old(a))[i] matches AsmOp::LdrLit(_, w)
                ==> holds_word(v@, w)),
        forall|i: int|
            #![trigger asm_ops(*old(a))[i]]
            0 <= i < asm_ops(*old(a)).len() ==> (asm_ops(*old(a))[i] matches AsmOp::Blob(data)
                ==> holds_data(v@, data, code_len(asm_ops(*old(a))) as int)),
{
    match finish(a) {
        Ok(v) => v,
        Err(_) => vstd::pervasive::unreached(),
    }
}

/// `thumb_asm::Asm::bind` binds `label` to the current position; operands it cannot
/// encode are held back until `finish`.
#[verifier::external_body]
pub(crate) fn bind(a: &mut Asm, label: u16)
    ensures
        asm_ops(*final(a)) == asm_ops(*old(a)).push(AsmOp::Bind(label)),
{
    a.bind(label);
}

/// `thumb_asm::Asm::raw16` appends the halfword `insn` as it stands; operands it cannot
/// encode are held back until `finish`.
#[verifier::external_body]
pub(crate) fn raw16(a: &mut Asm, insn: u16)
    ensures
        asm_ops(*final(a)) == asm_ops(*old(a)).push(AsmOp::Raw16(insn)),
{
    a.raw16(insn);
}

/// `thumb_asm::Asm::ldr_lit` appends a load of the pooled literal `value` into `rt`;
/// operands it cannot encode are held back until `finish`.
#[verifier::external_body]
pub(crate) fn ldr_lit(a: &mut Asm, rt: u16, value: u32)
    ensures
        asm_ops(*final(a)) == asm_ops(*old(a)).push(AsmOp::LdrLit(rt, value)),
{
    a.ldr_lit(rt, value);
}

/// `thumb_asm::Asm::ldrb_imm` appends `ldrb rt,[rn,#imm5]`; operands it cannot encode are held back
/// until `finish`.
#[verifier::external_body]
pub(crate) fn ldrb_imm(a: &mut Asm, rt: u16, rn: u16, imm5: u16)
    ensures
        asm_ops(*final(a)) == asm_ops(*old(a)).push(AsmOp::LdrbImm(rt, rn, imm5)),
{
    a.ldrb_imm(rt, rn, imm5);
}

/// `thumb_asm::Asm::ldr_imm` appends `ldr rt,[rn,#imm]`; operands it cannot encode are held back
/// until `finish`.
#[verifier::external_body]
pub(crate) fn ldr_imm(a: &mut Asm, rt: u16, rn: u16, imm: u16)
    ensures
        asm_ops(*final(a)) == asm_ops(*old(a)).push(AsmOp::LdrImm(rt, rn, imm)),
{
    a.ldr_imm(rt, rn, imm);
}

/// `thumb_asm::Asm::strh_imm` appends `strh rt,[rn,#imm]`; operands it cannot encode are held back
/// until `finish`.
#[verifier::external_body]
pub(crate) fn strh_imm(a: &mut Asm, rt: u16, rn: u16, imm: u16)
    ensures
        asm_ops(*final(a)) == asm_ops(*old(a)).push(AsmOp::StrhImm(rt, rn, imm)),
{
    a.strh_imm(rt, rn, imm);
}

/// `thumb_asm::Asm::str_imm` appends `str rt,[rn,#imm]`; operands it cannot encode are held back
/// until `finish`.
#[verifier::external_body]
pub(crate) fn str_imm(a: &mut Asm, rt: u16, rn: u16, imm: u16)
    ensures
        asm_ops(*final(a)) == asm_ops(*old(a)).push(AsmOp::StrImm(rt, rn, imm)),
{
    a.str_imm(rt, rn, imm);
}

/// `thumb_asm::Asm::strb_imm` appends `strb rt,[rn,#imm5]`; operands it cannot encode are held back
/// until `finish`.
#[verifier::external_body]
pub(crate) fn strb_imm(a: &mut Asm, rt: u16, rn: u16, imm5: u16)
    ensures
        asm_ops(*final(a)) == asm_ops(*old(a)).push(AsmOp::StrbImm(rt, rn, imm5)),
{
    a.strb_imm(rt, rn, imm5);
}

/// `thumb_asm::Asm::bics` appends `bics rd,rm`; operands it cannot encode are held back
/// until `finish`.
#[verifier::external_body]
pub(crate) fn bics(a: &mut Asm, rd: u16, rm: u16)
    ensures
        asm_ops(*final(a)) == asm_ops(*old(a)).push(AsmOp::Bics(rd, rm)),
{
    a.bics(rd, rm);
}

/// `thumb_asm::Asm::orrs` appends `orrs rd,rm`; operands it cannot encode are held back
/// until `finish`.
#[verifier::external_body]
pub(crate) fn orrs(a: &mut Asm, rd: u16, rm: u16)
    ensures
        asm_ops(*final(a)) == asm_ops(*old(a)).push(AsmOp::Orrs(rd, rm)),
{
    a.orrs(rd, rm);
}

/// `thumb_asm::Asm::cmp_imm` appends `cmp rn,#imm8`; operands it cannot encode are held back
/// until `finish`.
#[verifier::external_body]
pub(crate) fn compare(a: &mut Asm, rn: u16, imm8: u8)
    ensures
        asm_ops(*final(a)) == asm_ops(*old(a)).push(AsmOp::Compare(rn, imm8)),
{
    a.cmp_imm(rn, imm8);
}

/// `thumb_asm::Asm::cmp_reg` appends `cmp rn,rm`; operands it cannot encode are held back
/// until `finish`.
#[verifier::external_body]
pub(crate) fn compare_reg(a: &mut Asm, rn: u16, rm: u16)
    ensures
        asm_ops(*final(a)) == asm_ops(*old(a)).push(AsmOp::CompareReg(rn, rm)),
{
    a.cmp_reg(rn, rm);
}

/// `thumb_asm::Asm::movs_imm` appends `movs rt,#imm8`; operands it cannot encode are held back
/// until `finish`.
#[verifier::external_body]
pub(crate) fn movs_imm(a: &mut Asm, rt: u16, imm8: u8)
    ensures
        asm_ops(*final(a)) == asm_ops(*old(a)).push(AsmOp::MovsImm(rt, imm8)),
{
    a.movs_imm(rt, imm8);
}

/// `thumb_asm::Asm::push` appends `push {reglist}`, bit 8 standing for `lr`; operands it
/// cannot encode are held back until `finish`.
#[verifier::external_body]
pub(crate) fn push(a: &mut Asm, reglist: u16)
    ensures
        asm_ops(*final(a)) == asm_ops(*old(a)).push(AsmOp::Push(reglist)),
{
    a.push(reglist);
}

/// `thumb_asm::Asm::pop` appends `pop {reglist}`, bit 8 standing for `pc`; operands it
/// cannot encode are held back until `finish`.
#[verifier::external_body]
pub(crate) fn pop(a: &mut Asm, reglist: u16)
    ensures
        asm_ops(*final(a)) == asm_ops(*old(a)).push(AsmOp::Pop(reglist)),
{
    a.pop(reglist);
}

/// `thumb_asm::Asm::blx` appends `blx rm`; operands it cannot encode are held back
/// until `finish`.
#[verifier::external_body]
pub(crate) fn blx(a: &mut Asm, rm: u16)
    ensures
        asm_ops(*final(a)) == asm_ops(*old(a)).push(AsmOp::Blx(rm)),
{
    a.blx(rm);
}

/// `thumb_asm::Asm::bx` appends `bx rm`; operands it cannot encode are held back
/// until `finish`.
#[verifier::external_body]
pub(crate) fn bx(a: &mut Asm, rm: u16)
    ensures
        asm_ops(*final(a)) == asm_ops(*old(a)).push(AsmOp::Bx(rm)),
{
    a.bx(rm);
}

/// `thumb_asm::Asm::beq` appends `beq label`; operands it cannot encode are held back
/// until `finish`.
#[verifier::external_body]
pub(crate) fn beq(a: &mut Asm, label: u16)
    ensures
        asm_ops(*final(a)) == asm_ops(*old(a)).push(AsmOp::Beq(label)),
{
    a.beq(label);
}

/// `thumb_asm::Asm::bne` appends `bne label`; operands it cannot encode are held back
/// until `finish`.
#[verifier::external_body]
pub(crate) fn bne(a: &mut Asm, label: u16)
    ensures
        asm_ops(*final(a)) == asm_ops(*old(a)).push(AsmOp::Bne(label)),
{
    a.bne(label);
}

/// `thumb_asm::Asm::bhs` appends `bhs label`; operands it cannot encode are held back
/// until `finish`.
#[verifier::external_body]
pub(crate) fn bhs(a: &mut Asm, label: u16)
    ensures
        asm_ops(*final(a)) == asm_ops(*old(a)).push(AsmOp::Bhs(label)),
{
    a.bhs(label);
}

/// `thumb_asm::Asm::blo` appends `blo label`; operands it cannot encode are held back
/// until `finish`.
#[verifier::external_body]
pub(crate) fn blo(a: &mut Asm, label: u16)
    ensures
        asm_ops(*final(a)) == asm_ops(*old(a)).push(AsmOp::Blo(label)),
{
    a.blo(label);
}

/// `thumb_asm::Asm::bhi` appends `bhi label`; operands it cannot encode are held back
/// until `finish`.
#[verifier::external_body]
pub(crate) fn bhi(a: &mut Asm, label: u16)
    ensures
        asm_ops(*final(a)) == asm_ops(*old(a)).push(AsmOp::Bhi(label)),
{
    a.bhi(label);
}

/// `thumb_asm::Asm::b` appends `b label`; operands it cannot encode are held back
/// until `finish`.
#[verifier::external_body]
pub(crate) fn b(a: &mut Asm, label: u16)
    ensures
        asm_ops(*final(a)) == asm_ops(*old(a)).push(AsmOp::B(label)),
{
    a.b(label);
}

/// `thumb_asm::Asm::ldrb_reg` appends `ldrb rt,[rn,rm]`; operands it cannot encode are held back
/// until `finish`.
#[verifier::external_body]
pub(crate) fn ldrb_reg(a: &mut Asm, rt: u16, rn: u16, rm: u16)
    ensures
        asm_ops(*final(a)) == asm_ops(*old(a)).push(AsmOp::LdrbReg(rt, rn, rm)),
{
    a.ldrb_reg(rt, rn, rm);
}

/// `thumb_asm::Asm::adds_imm` appends `adds rt,#imm8`; operands it cannot encode are held back
/// until `finish`.
#[verifier::external_body]
pub(crate) fn adds_imm(a: &mut Asm, rt: u16, imm8: u8)
    ensures
        asm_ops(*final(a)) == asm_ops(*old(a)).push(AsmOp::AddsImm(rt, imm8)),
{
    a.adds_imm(rt, imm8);
}

/// `thumb_asm::Asm::subs_imm` appends `subs rt,#imm8`; operands it cannot encode are held back
/// until `finish`.
#[verifier::external_body]
pub(crate) fn subs_imm(a: &mut Asm, rt: u16, imm8: u8)
    ensures
        asm_ops(*final(a)) == asm_ops(*old(a)).push(AsmOp::SubsImm(rt, imm8)),
{
    a.subs_imm(rt, imm8);
}

/// `thumb_asm::Asm::lsls_imm` appends `lsls rd,rm,#imm5`; operands it cannot encode are held back
/// until `finish`.
#[verifier::external_body]
pub(crate) fn lsls_imm(a: &mut Asm, rd: u16, rm: u16, imm5: u16)
    ensures
        asm_ops(*final(a)) == asm_ops(*old(a)).push(AsmOp::LslsImm(rd, rm, imm5)),
{
    a.lsls_imm(rd, rm, imm5);
}

/// `thumb_asm::Asm::lsrs_imm` appends `lsrs rd,rm,#imm5`; operands it cannot encode are held back
/// until `finish`.
#[verifier::external_body]
pub(crate) fn lsrs_imm(a: &mut Asm, rd: u16, rm: u16, imm5: u16)
    ensures
        asm_ops(*final(a)) == asm_ops(*old(a)).push(AsmOp::LsrsImm(rd, rm, imm5)),
{
    a.lsrs_imm(rd, rm, imm5);
}

/// `thumb_asm::Asm::adds_reg` appends `adds rd,rn,rm`; operands it cannot encode are held back
/// until `finish`.
#[verifier::external_body]
pub(crate) fn adds_reg(a: &mut Asm, rd: u16, rn: u16, rm: u16)
    ensures
        asm_ops(*final(a)) == asm_ops(*old(a)).push(AsmOp::AddsReg(rd, rn, rm)),
{
    a.adds_reg(rd, rn, rm);
}

/// `thumb_asm::Asm::mov_reg` appends `mov rd,rm`; operands it cannot encode are held back
/// until `finish`.
#[verifier::external_body]
pub(crate) fn mov_reg(a: &mut Asm, rd: u16, rm: u16)
    ensures
        asm_ops(*final(a)) == asm_ops(*old(a)).push(AsmOp::MovReg(rd, rm)),
{
    a.mov_reg(rd, rm);
}

/// `thumb_asm::Asm::adr` appends `adr rd,blob_label`; operands it cannot encode are held back
/// until `finish`.
#[verifier::external_body]
pub(crate) fn adr(a: &mut Asm, rd: u16, blob_label: u16)
    ensures
        asm_ops(*final(a)) == asm_ops(*old(a)).push(AsmOp::Adr(rd, blob_label)),
{
    a.adr(rd, blob_label);
}

pub broadcast proof fn lemma_label_count_push(s: Seq<AsmOp>, op: AsmOp)
    ensures
        #[trigger] label_count(s.push(op)) == label_count(s) + (if op is Label || op is Blob {
            1nat
        } else {
            0nat
        }),
{
    reveal(label_count);
    assert(s.push(op).drop_last() =~= s);
}

pub broadcast proof fn lemma_code_len_push(s: Seq<AsmOp>, op: AsmOp)
    ensures
        #[trigger] code_len(s.push(op)) == code_len(s) + (if is_insn(op) {
            2nat
        } else {
            0nat
        }),
{
    reveal(code_len);
    assert(s.push(op).drop_last() =~= s);
}

pub broadcast proof fn lemma_pool_bound_push(s: Seq<AsmOp>, op: AsmOp)
    ensures
        #[trigger] pool_bound(s.push(op)) == pool_bound(s) + (match op {
            AsmOp::LdrLit(_, _) => 4nat,
            AsmOp::Blob(b) => b.len() + 3,
            _ => 0nat,
        }),
{
    reveal(pool_bound);
    assert(s.push(op).drop_last() =~= s);
}

pub broadcast proof fn lemma_binds_push(s: Seq<AsmOp>, op: AsmOp, label: u16)
    ensures
        #[trigger] binds(s.push(op), label) == (op == AsmOp::Bind(label) || binds(s, label)),
{
    reveal(binds);
    assert(s.push(op).drop_last() =~= s);
}

pub broadcast proof fn lemma_names_blob_push(s: Seq<AsmOp>, op: AsmOp, label: u16)
    ensures
        #[trigger] names_blob(s.push(op), label) == ((op is Blob && label_count(s) == label)
            || names_blob(s, label)),
{
    reveal(names_blob);
    assert(s.push(op).drop_last() =~= s);
}

pub broadcast proof fn lemma_all_encodable_push(s: Seq<AsmOp>, op: AsmOp)
    ensures
        #[trigger] all_encodable(s.push(op)) == (all_encodable(s) && encodable(s, op)),
{
    reveal(all_encodable);
    assert(s.push(op).drop_last() =~= s);
}

pub broadcast proof fn lemma_closed_in_push(s: Seq<AsmOp>, op: AsmOp, whole: Seq<AsmOp>)
    ensures
        #[trigger] closed_in(s.push(op), whole) == (closed_in(s, whole) && refers_into(op, whole)),
{
    reveal(closed_in);
    assert(s.push(op).drop_last() =~= s);
}

pub broadcast proof fn lemma_label_count_empty(s: Seq<AsmOp>)
    requires
        s == Seq::<AsmOp>::empty(),
    ensures
        #[trigger] label_count(s) == 0,
{
    reveal(label_count);
}

pub broadcast proof fn lemma_code_len_empty(s: Seq<AsmOp>)
    requires
        s == Seq::<AsmOp>::empty(),
    ensures
        #[trigger] code_len(s) == 0,
{
    reveal(code_len);
}

pub broadcast proof fn lemma_pool_bound_empty(s: Seq<AsmOp>)
    requires
        s == Seq::<AsmOp>::empty(),
    ensures
        #[trigger] pool_bound(s) == 0,
{
    reveal(pool_bound);
}

pub broadcast proof fn lemma_binds_empty(s: Seq<AsmOp>, label: u16)
    requires
        s == Seq::<AsmOp>::empty(),
    ensures
        !#[trigger] binds(s, label),
{
    reveal(binds);
}

pub broadcast proof fn lemma_names_blob_empty(s: Seq<AsmOp>, label: u16)
    requires
        s == Seq::<AsmOp>::empty(),
    ensures
        !#[trigger] names_blob(s, label),
{
    reveal(names_blob);
}

pub broadcast proof fn lemma_all_encodable_empty(s: Seq<AsmOp>)
    requires
        s == Seq::<AsmOp>::empty(),
    ensures
        #[trigger] all_encodable(s),
{
    reveal(all_encodable);
}

pub broadcast proof fn lemma_closed_in_empty(s: Seq<AsmOp>, whole: Seq<AsmOp>)
    requires
        s == Seq::<AsmOp>::empty(),
    ensures
        #[trigger] closed_in(s, whole),
{
    reveal(closed_in);
}

/// Code grows by at most two bytes a step.
pub proof fn lemma_code_len_span(ops: Seq<AsmOp>, i: int, j: int)
    requires
        0 <= i <= j <= ops.len(),
    ensures
        0 <= code_len(ops.take(j)) - code_len(ops.take(i)) <= 2 * (j - i),
    decreases j - i,
{
    if i < j {
        lemma_code_len_span(ops, i, j - 1);
        assert(ops.take(j) =~= ops.take(j - 1).push(ops[j - 1]));
        lemma_code_len_push(ops.take(j - 1), ops[j - 1]);
    }
}

/// A branch comes before the end of the code.
proof fn lemma_branch_inside(ops: Seq<AsmOp>, i: int)
    requires
        0 <= i < ops.len(),
        is_insn(ops[i]),
    ensures
        code_len(ops.take(i)) + 2 <= code_len(ops),
{
    assert(ops.take(i + 1) =~= ops.take(i).push(ops[i]));
    lemma_code_len_push(ops.take(i), ops[i]);
    lemma_code_len_span(ops, i + 1, ops.len() as int);
    assert(ops.take(ops.len() as int) =~= ops);
}

/// A short program is in reach of all its branches.
pub broadcast proof fn lemma_short_is_sound(ops: Seq<AsmOp>)
    requires
        short(ops),
    ensures
        #[trigger] sound(ops),
{
    reveal(in_reach);
    assert forall|i: int, j: int|
        0 <= i < ops.len() && 0 <= j < ops.len() && #[trigger] branches_to(
            ops[i],
            ops[j],
        ) implies -252 <= code_len(ops.take(j)) - code_len(ops.take(i)) <= 258 by {
        lemma_branch_inside(ops, i);
        lemma_code_len_span(ops, j, ops.len() as int);
        assert(ops.take(ops.len() as int) =~= ops);
    }
}

/// Step `i` of a program is `op`, and the labels are where `at` has them: a label bound
/// here is, and one that a conditional branch names is near.
pub open spec fn fits(i: int, op: AsmOp, at: Seq<int>) -> bool {
    match op {
        AsmOp::Bind(l) => at[l as int] == i,
        AsmOp::Beq(l) | AsmOp::Bne(l) | AsmOp::Bhs(l) | AsmOp::Blo(l) | AsmOp::Bhi(l) => -126
            <= at[l as int] - i <= 129,
        _ => true,
    }
}

/// `at` has the step where each label of `part` is bound, near its conditional branches.
#[verifier::opaque]
pub open spec fn laid(part: Seq<AsmOp>, at: Seq<int>) -> bool
    decreases part.len(),
{
    part.len() == 0 || (laid(part.drop_last(), at) && fits(part.len() - 1, part.last(), at))
}

pub broadcast proof fn lemma_laid_push(s: Seq<AsmOp>, op: AsmOp, at: Seq<int>)
    ensures
        #[trigger] laid(s.push(op), at) == (laid(s, at) && fits(s.len() as int, op, at)),
{
    reveal(laid);
    assert(s.push(op).drop_last() =~= s);
}

pub broadcast proof fn lemma_laid_empty(s: Seq<AsmOp>, at: Seq<int>)
    requires
        s == Seq::<AsmOp>::empty(),
    ensures
        #[trigger] laid(s, at),
{
    reveal(laid);
}

/// Every step of a laid program fits.
proof fn lemma_laid_step(ops: Seq<AsmOp>, at: Seq<int>, i: int)
    requires
        laid(ops, at),
        0 <= i < ops.len(),
    ensures
        fits(i, ops[i], at),
    decreases ops.len(),
{
    reveal(laid);
    if i < ops.len() - 1 {
        lemma_laid_step(ops.drop_last(), at, i);
    }
}

/// Where the labels are near their conditional branches, the branches reach them.
pub proof fn lemma_laid_in_reach(ops: Seq<AsmOp>, at: Seq<int>)
    requires
        laid(ops, at),
    ensures
        in_reach(ops),
{
    reveal(in_reach);
    assert forall|i: int, j: int|
        0 <= i < ops.len() && 0 <= j < ops.len() && #[trigger] branches_to(
            ops[i],
            ops[j],
        ) implies -252 <= code_len(ops.take(j)) - code_len(ops.take(i)) <= 258 by {
        lemma_laid_step(ops, at, i);
        lemma_laid_step(ops, at, j);
        if i <= j {
            lemma_code_len_span(ops, i, j);
        } else {
            lemma_code_len_span(ops, j, i);
        }
    }
}

/// A label is bound where a step binds it.
pub proof fn lemma_binds_at(ops: Seq<AsmOp>, p: int, label: u16)
    requires
        0 <= p < ops.len(),
        ops[p] == AsmOp::Bind(label),
    ensures
        binds(ops, label),
    decreases ops.len(),
{
    reveal(binds);
    if p < ops.len() - 1 {
        lemma_binds_at(ops.drop_last(), p, label);
    }
}

/// How the measures of a program grow step by step.
pub broadcast group group_program {
    lemma_label_count_push,
    lemma_code_len_push,
    lemma_pool_bound_push,
    lemma_binds_push,
    lemma_names_blob_push,
    lemma_all_encodable_push,
    lemma_closed_in_push,
    lemma_label_count_empty,
    lemma_code_len_empty,
    lemma_pool_bound_empty,
    lemma_binds_empty,
    lemma_names_blob_empty,
    lemma_all_encodable_empty,
    lemma_closed_in_empty,
    lemma_short_is_sound,
}

/// How the places of a program's labels are found step by step.
pub broadcast group group_laid {
    lemma_laid_push,
    lemma_laid_empty,
}

} // verus!
