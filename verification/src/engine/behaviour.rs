//! What each trampoline does when it runs. A flag that passes through leaves the drive
//! with the decision of the code that the trampoline took over.
use crate::abi;
use crate::engine::stubs;
use crate::machine;
use crate::machine::{Cpu, World};
use crate::program::AsmOp;
use vstd::prelude::*;

verus! {

/// The registers are the same but for those of `r`.
pub open spec fn same_registers(s: Cpu, t: Cpu, r: Set<int>) -> bool {
    &&& t.whole()
    &&& forall|k: int| 0 <= k < 15 && !r.contains(k) ==> #[trigger] t.regs[k] == s.regs[k]
}

/// `t` is `s` but for the registers of `r` and the flags.
pub open spec fn differs_in(s: Cpu, t: Cpu, r: Set<int>) -> bool {
    &&& same_registers(s, t, r)
    &&& t.mem == s.mem
    &&& t.stores == s.stores
    &&& t.calls == s.calls
}

/// The memory of `t` is that of `s` but for the word below its stack, where register `r`
/// was kept for a while.
pub open spec fn spills(s: Cpu, t: Cpu, r: u16) -> bool {
    &&& t.mem == machine::spilled(s.mem, machine::plus(s.reg(machine::SP), -4), s.reg(r))
    &&& t.stores == s.stores
    &&& t.calls == s.calls
}

/// Address `a` is not in the word below the stack.
pub open spec fn off_stack(s: Cpu, a: u32) -> bool {
    let sp = s.reg(machine::SP);
    a != machine::plus(sp, -1) && a != machine::plus(sp, -2) && a != machine::plus(sp, -3) && a
        != machine::plus(sp, -4)
}

/// The flag byte of a feature.
pub open spec fn flag(s: Cpu, flag_base: u32, feature: abi::Feature) -> u8 {
    s.byte(stubs::flag_cell(flag_base, feature))
}

/// The highest speed index that a flag lets the ramp go on from.
pub open spec fn ceiling(flag: u8) -> int {
    if flag == abi::SPEED_MAX {
        0xFF
    } else if flag == abi::STATE_PASSTHROUGH {
        0x32
    } else {
        flag as int
    }
}

/// A register that is pushed comes back when it is popped, and the stack pointer with it.
pub proof fn lemma_one_register(s: Cpu, r: u16)
    requires
        s.whole(),
        r < 13,
    ensures
        ({
            let sp = machine::plus(s.reg(machine::SP), -4);
            let mem = machine::spilled(s.mem, sp, s.reg(r));
            &&& machine::plus(sp, 4) == s.reg(machine::SP)
            &&& machine::plus(sp, 0) == sp
            &&& machine::word_at(mem, sp) == s.reg(r)
            &&& forall|a: u32| off_stack(s, a) ==> #[trigger] mem[a] == s.mem[a]
        }),
{
    reveal(machine::plus);
    let sp = machine::plus(s.reg(machine::SP), -4);
    machine::lemma_spilled(s.mem, sp, s.reg(r));
    assert(machine::plus(sp, 1) == machine::plus(s.reg(machine::SP), -3));
    assert(machine::plus(sp, 2) == machine::plus(s.reg(machine::SP), -2));
    assert(machine::plus(sp, 3) == machine::plus(s.reg(machine::SP), -1));
}

/// The bus-encryption register.
pub const BUS_REGISTER: u32 = 0x0400_0000;

/// The two words below the stack.
pub open spec fn frame(s: Cpu) -> u32 {
    machine::plus(s.reg(machine::SP), -8)
}

/// The memory with `r4` and the link register in those words.
pub open spec fn framed(s: Cpu) -> Map<u32, u8> {
    machine::spilled(
        machine::spilled(s.mem, frame(s), s.reg(4)),
        machine::plus(frame(s), 4),
        s.reg(machine::LR),
    )
}

/// The two words below the stack are not the bus-encryption register.
pub open spec fn off_bus(s: Cpu) -> bool {
    forall|k: int, j: int|
        0 <= k < 8 && 0 <= j < 4 ==> #[trigger] machine::plus(frame(s), k) != #[trigger] machine::plus(
            BUS_REGISTER,
            j,
        )
}

/// `s` with the frame of `sub sp,#imm` reserved.
pub open spec fn reserved(s: Cpu, h: u16) -> Cpu {
    s.set(machine::SP, machine::plus(s.reg(machine::SP), -4 * (h % 128)))
}

/// The port that frames are written to is not on the stack, and not where the masks are.
pub open spec fn off_frame(s: Cpu) -> bool {
    let port = machine::plus(s.reg(0), 8);
    forall|k: int| 0 <= k < 12 ==> #[trigger] machine::plus(s.reg(machine::SP), k) != port
}

/// The region masks are where the assembler put them.
pub open spec fn masks_laid_out(w: World, s: Cpu) -> bool {
    let port = machine::plus(s.reg(0), 8);
    &&& forall|k: int|
        0 <= k < 8 ==> s.mem[#[trigger] machine::plus((w.data)(6), k)] == stubs::DVD_MASKS@[k]
            && machine::plus((w.data)(6), k) != port
    &&& forall|k: int|
        0 <= k < 3 ==> s.mem[#[trigger] machine::plus((w.data)(7), k)] == stubs::BD_MASKS@[k]
            && machine::plus((w.data)(7), k) != port
}

/// The region mask that a flag leads to: free, locked, a DVD region, a BD region, or the
/// one that the OEM code staged on its stack.
pub open spec fn region_mask(s: Cpu, flag: u8) -> u8 {
    if flag == abi::REGION_FREE {
        (s.reg(1) % 256) as u8
    } else if flag == abi::STATE_OFF {
        0xFF
    } else if flag < 9 {
        stubs::DVD_MASKS@[flag - 1]
    } else if abi::REGION_BD_A <= flag < 13 {
        stubs::BD_MASKS@[flag - abi::REGION_BD_A]
    } else {
        s.byte(machine::plus(s.reg(machine::SP), 3))
    }
}

/// The frame ends with the bytes of `code`, `mask`, `scheme` and the reserved byte, and
/// control returns to where the OEM emitter would have, with `r3` and `r4` restored.
pub open spec fn emits(s: Cpu, at: u32, t: Cpu, code: u32, mask: u8, scheme: u32) -> bool {
    let port = machine::plus(s.reg(0), 8);
    &&& at == s.word(machine::plus(s.reg(machine::SP), 8))
    &&& t.stores == s.stores.push((port, (code % 256) as u8)).push((port, mask)).push(
        (port, (scheme % 256) as u8),
    ).push((port, (s.reg(1) % 256) as u8))
    &&& t.calls == s.calls
    &&& t.reg(machine::SP) == machine::plus(s.reg(machine::SP), 12)
    &&& t.reg(3) == s.word(s.reg(machine::SP))
    &&& t.reg(4) == s.word(machine::plus(s.reg(machine::SP), 4))
}

/// Three words of the stack are what their bytes are.
pub proof fn lemma_three_words(s: Cpu, mem: Map<u32, u8>)
    requires
        forall|k: int|
            0 <= k < 12 ==> mem[#[trigger] machine::plus(s.reg(machine::SP), k)]
                == s.mem[machine::plus(s.reg(machine::SP), k)],
    ensures
        machine::word_at(mem, s.reg(machine::SP)) == s.word(s.reg(machine::SP)),
        machine::word_at(mem, machine::plus(s.reg(machine::SP), 4)) == s.word(
            machine::plus(s.reg(machine::SP), 4),
        ),
        machine::word_at(mem, machine::plus(s.reg(machine::SP), 8)) == s.word(
            machine::plus(s.reg(machine::SP), 8),
        ),
{
    reveal(machine::plus);
    let sp = s.reg(machine::SP);
    assert(machine::plus(sp, 0) == sp);
    assert(machine::plus(machine::plus(sp, 4), 1) == machine::plus(sp, 5));
    assert(machine::plus(machine::plus(sp, 4), 2) == machine::plus(sp, 6));
    assert(machine::plus(machine::plus(sp, 4), 3) == machine::plus(sp, 7));
    assert(machine::plus(machine::plus(sp, 8), 1) == machine::plus(sp, 9));
    assert(machine::plus(machine::plus(sp, 8), 2) == machine::plus(sp, 10));
    assert(machine::plus(machine::plus(sp, 8), 3) == machine::plus(sp, 11));
    machine::lemma_word_kept(mem, s.mem, sp);
    machine::lemma_word_kept(mem, s.mem, machine::plus(sp, 4));
    machine::lemma_word_kept(mem, s.mem, machine::plus(sp, 8));
}

/// `r4` and the link register, pushed, can be popped again as long as the memory of the
/// frame is kept.
proof fn lemma_two_registers(s: Cpu, mem: Map<u32, u8>)
    requires
        s.whole(),
        forall|k: int|
            0 <= k < 8 ==> mem[#[trigger] machine::plus(frame(s), k)] == framed(s)[machine::plus(
                frame(s),
                k,
            )],
    ensures
        machine::plus(frame(s), 8) == s.reg(machine::SP),
        machine::word_at(mem, frame(s)) == s.reg(4),
        machine::word_at(mem, machine::plus(frame(s), 4)) == s.reg(machine::LR),
{
    reveal(machine::plus);
    let sp = frame(s);
    let one = machine::spilled(s.mem, sp, s.reg(4));
    machine::lemma_spilled(s.mem, sp, s.reg(4));
    machine::lemma_spilled(one, machine::plus(sp, 4), s.reg(machine::LR));
    assert(machine::plus(sp, 0) == sp);
    assert(machine::plus(machine::plus(sp, 4), 1) == machine::plus(sp, 5));
    assert(machine::plus(machine::plus(sp, 4), 2) == machine::plus(sp, 6));
    assert(machine::plus(machine::plus(sp, 4), 3) == machine::plus(sp, 7));
    machine::lemma_word_kept(mem, framed(s), machine::plus(sp, 4));
    assert(machine::plus(sp, 1) != machine::plus(sp, 4));
    machine::lemma_word_kept(framed(s), one, sp);
    machine::lemma_word_kept(mem, framed(s), sp);
}

/// The handshake trampoline: it goes on where the OEM code did, with state 6 when the
/// handshake is off and the OEM state 1 otherwise.
pub proof fn law_ake_stub(w: World, s: Cpu, flag_base: u32, back: u32)
    requires
        s.whole(),
    ensures
        machine::outcome(w, stubs::ake_program(flag_base, back), 0, s) matches Some((at, t)) && {
            &&& at == back | 1
            &&& t.reg(1) == if flag(s, flag_base, abi::Feature::Encryption) == abi::STATE_OFF {
                6u32
            } else {
                1
            }
            &&& differs_in(s, t, set![1, 2])
        },
{
    broadcast use machine::lemma_plus_zero;

    let ops = stubs::ake_program(flag_base, back);
    let cell = stubs::flag_cell(flag_base, abi::Feature::Encryption);
    machine::pass(w, ops, 0, s, 2);
    let t1 = machine::ldr_lit(w, ops, 2, s, 2, cell);
    let t2 = machine::ldrb_imm(w, ops, 3, t1, 2, 2, 0);
    let t3 = machine::compare(w, ops, 4, t2, 2, abi::STATE_OFF);
    if s.byte(cell) == abi::STATE_OFF {
        machine::jump(w, ops, 5, t3, 0, 8);
        let t4 = machine::movs_imm(w, ops, 9, t3, 1, 6);
        machine::pass(w, ops, 10, t4, 11);
        let t5 = machine::ldr_lit(w, ops, 11, t4, 2, back | 1);
        machine::bx(w, ops, 12, t5, 2);
    } else {
        machine::stay(w, ops, 5, t3, 0);
        let t6 = machine::movs_imm(w, ops, 6, t3, 1, 1);
        machine::jump(w, ops, 7, t6, 1, 10);
        let t7 = machine::ldr_lit(w, ops, 11, t6, 2, back | 1);
        machine::bx(w, ops, 12, t7, 2);
    }
}

/// The handshake trampoline at the shared call: the state that the OEM code chose is
/// kept, unless the handshake is off.
pub proof fn law_ake_nb_stub(w: World, s: Cpu, flag_base: u32, back: u32)
    requires
        s.whole(),
    ensures
        machine::outcome(w, stubs::ake_nb_program(flag_base, back), 0, s) matches Some((at, t)) && {
            &&& at == back | 1
            &&& t.reg(1) == if flag(s, flag_base, abi::Feature::Encryption) == abi::STATE_OFF {
                6u32
            } else {
                s.reg(1)
            }
            &&& differs_in(s, t, set![1, 2])
        },
{
    broadcast use machine::lemma_plus_zero;

    let ops = stubs::ake_nb_program(flag_base, back);
    let cell = stubs::flag_cell(flag_base, abi::Feature::Encryption);
    machine::pass(w, ops, 0, s, 2);
    let t1 = machine::ldr_lit(w, ops, 2, s, 2, cell);
    let t2 = machine::ldrb_imm(w, ops, 3, t1, 2, 2, 0);
    let t3 = machine::compare(w, ops, 4, t2, 2, abi::STATE_OFF);
    if s.byte(cell) == abi::STATE_OFF {
        machine::jump(w, ops, 5, t3, 0, 7);
        let t4 = machine::movs_imm(w, ops, 8, t3, 1, 6);
        machine::pass(w, ops, 9, t4, 10);
        let t5 = machine::ldr_lit(w, ops, 10, t4, 2, back | 1);
        machine::bx(w, ops, 11, t5, 2);
    } else {
        machine::stay(w, ops, 5, t3, 0);
        machine::jump(w, ops, 6, t3, 1, 9);
        let t6 = machine::ldr_lit(w, ops, 10, t3, 2, back | 1);
        machine::bx(w, ops, 11, t6, 2);
    }
}

/// The classic handshake trampoline: the AGID shift that it took over is replayed, and
/// then it does as the desktop one.
pub proof fn law_ake_classic_stub(w: World, s: Cpu, flag_base: u32, back: u32)
    requires
        s.whole(),
    ensures
        machine::outcome(
            w,
            stubs::ake_classic_program(flag_base, back),
            0,
            s,
        ) matches Some((at, t)) && {
            &&& at == back | 1
            &&& t.reg(0) == s.reg(0) >> 6
            &&& t.reg(1) == if flag(s, flag_base, abi::Feature::Encryption) == abi::STATE_OFF {
                6u32
            } else {
                1
            }
            &&& differs_in(s, t, set![0, 1, 2])
        },
{
    broadcast use machine::lemma_plus_zero;

    let ops = stubs::ake_classic_program(flag_base, back);
    let cell = stubs::flag_cell(flag_base, abi::Feature::Encryption);
    reveal(machine::data_step);
    machine::pass(w, ops, 0, s, 2);
    let t1 = machine::data(w, ops, 2, s, AsmOp::LsrsImm(0, 0, 6));
    let t2 = machine::ldr_lit(w, ops, 3, t1, 2, cell);
    let t3 = machine::ldrb_imm(w, ops, 4, t2, 2, 2, 0);
    let t4 = machine::compare(w, ops, 5, t3, 2, abi::STATE_OFF);
    if s.byte(cell) == abi::STATE_OFF {
        machine::jump(w, ops, 6, t4, 0, 9);
        let t5 = machine::movs_imm(w, ops, 10, t4, 1, 6);
        machine::pass(w, ops, 11, t5, 12);
        let t6 = machine::ldr_lit(w, ops, 12, t5, 2, back | 1);
        machine::bx(w, ops, 13, t6, 2);
    } else {
        machine::stay(w, ops, 6, t4, 0);
        let t7 = machine::movs_imm(w, ops, 7, t4, 1, 1);
        machine::jump(w, ops, 8, t7, 1, 11);
        let t8 = machine::ldr_lit(w, ops, 12, t7, 2, back | 1);
        machine::bx(w, ops, 13, t8, 2);
    }
}

/// The Volume ID trampoline while the handshake is on: it decides as the OEM compare did,
/// and changes nothing but its scratch register.
pub proof fn law_gatea_stub_is_oem(
    w: World,
    s: Cpu,
    flag_base: u32,
    agid_struct: u32,
    authed: u32,
    deny: u32,
    aacs_reset: u32,
)
    requires
        s.whole(),
        flag(s, flag_base, abi::Feature::Encryption) != abi::STATE_OFF,
    ensures
        machine::outcome(
            w,
            stubs::gatea_program(flag_base, agid_struct, authed, deny, aacs_reset),
            0,
            s,
        ) matches Some((at, t)) && {
            &&& at == if s.reg(0) == 6 {
                authed | 1
            } else {
                deny | 1
            }
            &&& differs_in(s, t, set![2])
        },
{
    broadcast use machine::lemma_plus_zero;

    let ops = stubs::gatea_program(flag_base, agid_struct, authed, deny, aacs_reset);
    let cell = stubs::flag_cell(flag_base, abi::Feature::Encryption);
    machine::pass(w, ops, 0, s, 2);
    let t1 = machine::ldr_lit(w, ops, 2, s, 2, cell);
    let t2 = machine::ldrb_imm(w, ops, 3, t1, 2, 2, 0);
    let t3 = machine::compare(w, ops, 4, t2, 2, abi::STATE_OFF);
    machine::stay(w, ops, 5, t3, 0);
    let t4 = machine::compare(w, ops, 6, t3, 0, 6);
    if s.reg(0) == 6 {
        machine::jump(w, ops, 7, t4, 1, 18);
        let t5 = machine::ldr_lit(w, ops, 19, t4, 2, authed | 1);
        machine::bx(w, ops, 20, t5, 2);
    } else {
        machine::stay(w, ops, 7, t4, 1);
        let t6 = machine::ldr_lit(w, ops, 8, t4, 2, deny | 1);
        machine::bx(w, ops, 9, t6, 2);
    }
}

/// The Volume ID trampoline with the handshake off: the AGID bits of the session struct
/// are cleared, the session is reset, and it goes on as authenticated.
pub proof fn law_gatea_stub_opens(
    w: World,
    s: Cpu,
    flag_base: u32,
    agid_struct: u32,
    authed: u32,
    deny: u32,
    aacs_reset: u32,
)
    requires
        s.whole(),
        w.behaves(),
        flag(s, flag_base, abi::Feature::Encryption) == abi::STATE_OFF,
    ensures
        machine::outcome(
            w,
            stubs::gatea_program(flag_base, agid_struct, authed, deny, aacs_reset),
            0,
            s,
        ) matches Some((at, t)) && {
            let selector = machine::plus(agid_struct, 0xA);
            let cleared = ((s.byte(selector) as u32 & !0xC0u32) % 256) as u8;
            &&& at == authed | 1
            &&& exists|c: Cpu|
                {
                    &&& c.mem == s.mem.insert(selector, cleared)
                    &&& c.stores == s.stores.push((selector, cleared))
                    &&& c.calls == s.calls.push(
                        machine::Call { to: aacs_reset | 1, r0: c.reg(0), r1: c.reg(1) },
                    )
                    &&& t == (#[trigger] (w.call)(aacs_reset | 1, c)).set(2, authed | 1)
                }
        },
{
    broadcast use machine::lemma_plus_zero;

    let ops = stubs::gatea_program(flag_base, agid_struct, authed, deny, aacs_reset);
    let cell = stubs::flag_cell(flag_base, abi::Feature::Encryption);
    reveal(machine::data_step);
    machine::pass(w, ops, 0, s, 2);
    let t1 = machine::ldr_lit(w, ops, 2, s, 2, cell);
    let t2 = machine::ldrb_imm(w, ops, 3, t1, 2, 2, 0);
    let t3 = machine::compare(w, ops, 4, t2, 2, abi::STATE_OFF);
    machine::jump(w, ops, 5, t3, 0, 10);
    let t4 = machine::ldr_lit(w, ops, 11, t3, 2, agid_struct);
    let t5 = machine::ldrb_imm(w, ops, 12, t4, 3, 2, 0xA);
    let t6 = machine::movs_imm(w, ops, 13, t5, 1, 0xC0);
    let t7 = machine::data(w, ops, 14, t6, AsmOp::Bics(3, 1));
    let t8 = machine::strb_imm(w, ops, 15, t7, 3, 2, 0xA);
    let t9 = machine::ldr_lit(w, ops, 16, t8, 2, aacs_reset | 1);
    let t10 = machine::blx(w, ops, 17, t9, 2);
    machine::pass(w, ops, 18, t10, 19);
    let t11 = machine::ldr_lit(w, ops, 19, t10, 2, authed | 1);
    machine::bx(w, ops, 20, t11, 2);
}

/// The UHD trampoline of the byte-extraction classifier: the OEM version and the loop seed
/// are reloaded, the version reads as zero when UHD is on, and control returns.
pub proof fn law_uhd_stub(w: World, s: Cpu, flag_base: u32)
    requires
        s.whole(),
    ensures
        machine::outcome(w, stubs::uhd_program(flag_base), 0, s) matches Some((at, t)) && {
            &&& at == s.reg(machine::LR)
            &&& t.reg(5) == 6
            &&& t.reg(0) == if flag(s, flag_base, abi::Feature::Uhd) == abi::STATE_ON {
                0u32
            } else {
                s.word(machine::plus(s.reg(machine::SP), 0x38))
            }
            &&& differs_in(s, t, set![0, 3, 5])
        },
{
    broadcast use machine::lemma_plus_zero;

    let ops = stubs::uhd_program(flag_base);
    let cell = stubs::flag_cell(flag_base, abi::Feature::Uhd);
    reveal(machine::data_step);
    machine::pass(w, ops, 0, s, 1);
    let t1 = machine::data(w, ops, 1, s, AsmOp::Raw16(0x980E));
    let t2 = machine::movs_imm(w, ops, 2, t1, 5, 6);
    let t3 = machine::ldr_lit(w, ops, 3, t2, 3, cell);
    let t4 = machine::ldrb_imm(w, ops, 4, t3, 3, 3, 0);
    let t5 = machine::compare(w, ops, 5, t4, 3, abi::STATE_ON);
    if s.byte(cell) != abi::STATE_ON {
        machine::jump(w, ops, 6, t5, 0, 8);
        machine::bx(w, ops, 9, t5, 14);
    } else {
        machine::stay(w, ops, 6, t5, 0);
        let t6 = machine::movs_imm(w, ops, 7, t5, 0, 0);
        machine::pass(w, ops, 8, t6, 9);
        machine::bx(w, ops, 9, t6, 14);
    }
}

/// The UHD trampoline of the version compare: on and off go to their arms, and anything
/// else returns with the OEM version loaded and compared.
pub proof fn law_uhd_ver_stub(w: World, s: Cpu, flag_base: u32, arm_c_va: u32, mode1_va: u32)
    requires
        s.whole(),
    ensures
        machine::outcome(
            w,
            stubs::uhd_ver_program(flag_base, arm_c_va, mode1_va),
            0,
            s,
        ) matches Some((at, t)) && {
            let flag = flag(s, flag_base, abi::Feature::Uhd);
            let version = s.byte(s.reg(1)) + 256 * s.byte(machine::plus(s.reg(1), 1));
            &&& at == if flag == abi::STATE_ON {
                arm_c_va | 1
            } else if flag == abi::STATE_OFF {
                mode1_va | 1
            } else {
                s.reg(machine::LR)
            }
            &&& t.reg(0) == version
            &&& flag != abi::STATE_ON && flag != abi::STATE_OFF ==> t.z == (version == 0x63) && t.c
                == (version >= 0x63)
            &&& differs_in(s, t, set![0, 3])
        },
{
    broadcast use machine::lemma_plus_zero;

    let ops = stubs::uhd_ver_program(flag_base, arm_c_va, mode1_va);
    let cell = stubs::flag_cell(flag_base, abi::Feature::Uhd);
    reveal(machine::data_step);
    machine::pass(w, ops, 0, s, 2);
    let t1 = machine::data(w, ops, 2, s, AsmOp::Raw16(0x8808));
    let t2 = machine::ldr_lit(w, ops, 3, t1, 3, cell);
    let t3 = machine::ldrb_imm(w, ops, 4, t2, 3, 3, 0);
    let t4 = machine::compare(w, ops, 5, t3, 3, abi::STATE_ON);
    if s.byte(cell) == abi::STATE_ON {
        machine::jump(w, ops, 6, t4, 0, 11);
        let t5 = machine::ldr_lit(w, ops, 12, t4, 3, arm_c_va | 1);
        machine::bx(w, ops, 13, t5, 3);
    } else {
        machine::stay(w, ops, 6, t4, 0);
        let t6 = machine::compare(w, ops, 7, t4, 3, abi::STATE_OFF);
        if s.byte(cell) == abi::STATE_OFF {
            machine::jump(w, ops, 8, t6, 1, 14);
            let t7 = machine::ldr_lit(w, ops, 15, t6, 3, mode1_va | 1);
            machine::bx(w, ops, 16, t7, 3);
        } else {
            machine::stay(w, ops, 8, t6, 1);
            let t8 = machine::compare(w, ops, 9, t6, 0, 0x63);
            machine::bx(w, ops, 10, t8, 14);
        }
    }
}

/// The BD trampoline of the explicit gate: the OEM class is loaded and compared with 2, or
/// with a class that no disc has when BD is off, and control returns.
pub proof fn law_bd_stub(w: World, s: Cpu, flag_base: u32)
    requires
        s.whole(),
    ensures
        machine::outcome(w, stubs::bd_program(flag_base), 0, s) matches Some((at, t)) && {
            let class = s.byte(machine::plus(s.reg(2), 7));
            let want: int = if flag(s, flag_base, abi::Feature::Bd) == abi::STATE_OFF {
                0xFF
            } else {
                2
            };
            &&& at == s.reg(machine::LR)
            &&& t.reg(0) == class
            &&& t.z == (class == want)
            &&& t.c == (class >= want)
            &&& differs_in(s, t, set![0, 3])
        },
{
    broadcast use machine::lemma_plus_zero;

    let ops = stubs::bd_program(flag_base);
    let cell = stubs::flag_cell(flag_base, abi::Feature::Bd);
    reveal(machine::data_step);
    machine::pass(w, ops, 0, s, 1);
    let t1 = machine::data(w, ops, 1, s, AsmOp::Raw16(0x79D0));
    let t2 = machine::ldr_lit(w, ops, 2, t1, 3, cell);
    let t3 = machine::ldrb_imm(w, ops, 3, t2, 3, 3, 0);
    let t4 = machine::compare(w, ops, 4, t3, 3, abi::STATE_OFF);
    if s.byte(cell) == abi::STATE_OFF {
        machine::jump(w, ops, 5, t4, 0, 8);
        let t5 = machine::compare(w, ops, 9, t4, 0, 0xFF);
        machine::bx(w, ops, 10, t5, 14);
    } else {
        machine::stay(w, ops, 5, t4, 0);
        let t6 = machine::compare(w, ops, 6, t4, 0, 2);
        machine::bx(w, ops, 7, t6, 14);
    }
}

/// The revocation trampoline: the check passes when the feature is off or the lookup found
/// nothing, and goes to the revoke path otherwise, as the OEM check did.
pub proof fn law_hrl_skip_stub(w: World, s: Cpu, flag_base: u32, revoke: u32)
    requires
        s.whole(),
        off_stack(s, stubs::flag_cell(flag_base, abi::Feature::Hrl)),
    ensures
        machine::outcome(
            w,
            stubs::hrl_skip_program(flag_base, revoke),
            0,
            s,
        ) matches Some((at, t)) && {
            let clean = flag(s, flag_base, abi::Feature::Hrl) == abi::STATE_OFF || s.reg(0) == 0;
            &&& at == if clean {
                s.reg(machine::LR)
            } else {
                revoke | 1
            }
            &&& spills(s, t, 3)
            &&& same_registers(s, t, if clean {
                Set::empty()
            } else {
                set![3]
            })
        },
{
    broadcast use machine::lemma_plus_zero;

    let ops = stubs::hrl_skip_program(flag_base, revoke);
    let cell = stubs::flag_cell(flag_base, abi::Feature::Hrl);
    lemma_one_register(s, 3);
    machine::lemma_listed(machine::LR);
    machine::lemma_listed(machine::PC);
    machine::pass(w, ops, 0, s, 1);
    let t1 = machine::push_one(w, ops, 1, s, 0x0008, 3);
    let t2 = machine::ldr_lit(w, ops, 2, t1, 3, cell);
    let t3 = machine::ldrb_imm(w, ops, 3, t2, 3, 3, 0);
    let t4 = machine::compare(w, ops, 4, t3, 3, abi::STATE_OFF);
    if s.byte(cell) == abi::STATE_OFF {
        machine::jump(w, ops, 5, t4, 0, 11);
        let t5 = machine::pop_one(w, ops, 12, t4, 0x0008, 3);
        machine::bx(w, ops, 13, t5, 14);
    } else {
        machine::stay(w, ops, 5, t4, 0);
        let t6 = machine::compare(w, ops, 6, t4, 0, 0);
        if s.reg(0) == 0 {
            machine::jump(w, ops, 7, t6, 0, 11);
            let t7 = machine::pop_one(w, ops, 12, t6, 0x0008, 3);
            machine::bx(w, ops, 13, t7, 14);
        } else {
            machine::stay(w, ops, 7, t6, 0);
            let t8 = machine::pop_one(w, ops, 8, t6, 0x0008, 3);
            let t9 = machine::ldr_lit(w, ops, 9, t8, 3, revoke | 1);
            machine::bx(w, ops, 10, t9, 3);
        }
    }
}

/// The ramp ceiling with its index in `r2`: the ramp goes on while the index is not above
/// the ceiling, which is the flag byte, the OEM band when the flag passes through, and
/// beyond any index when the limiter is off.
pub proof fn law_speed_stub_r2(w: World, s: Cpu, flag_base: u32, fallthrough: u32, exit: u32)
    requires
        s.whole(),
        off_stack(s, stubs::flag_cell(flag_base, abi::Feature::Speed)),
    ensures
        machine::outcome(
            w,
            stubs::speed_program_r2(flag_base, fallthrough, exit),
            0,
            s,
        ) matches Some((at, t)) && {
            &&& at == if s.reg(2) > ceiling(flag(s, flag_base, abi::Feature::Speed)) {
                exit | 1
            } else {
                fallthrough | 1
            }
            &&& spills(s, t, 0)
            &&& same_registers(s, t, set![2])
        },
{
    broadcast use machine::lemma_plus_zero;

    let ops = stubs::speed_program_r2(flag_base, fallthrough, exit);
    let cell = stubs::flag_cell(flag_base, abi::Feature::Speed);
    lemma_one_register(s, 0);
    machine::lemma_listed(machine::LR);
    machine::lemma_listed(machine::PC);
    machine::pass(w, ops, 0, s, 4);
    let t1 = machine::push_one(w, ops, 4, s, 0x0001, 0);
    let t2 = machine::ldr_lit(w, ops, 5, t1, 0, cell);
    let t3 = machine::ldrb_imm(w, ops, 6, t2, 0, 0, 0);
    let t4 = machine::compare(w, ops, 7, t3, 0, abi::SPEED_MAX);
    if s.byte(cell) == abi::SPEED_MAX {
        machine::jump(w, ops, 8, t4, 0, 13);
        let t5 = machine::compare(w, ops, 14, t4, 2, 0xFF);
        machine::jump(w, ops, 15, t5, 2, 18);
        let t6 = machine::pop_one(w, ops, 19, t5, 0x0001, 0);
        if s.reg(2) > ceiling(s.byte(cell)) {
            machine::jump(w, ops, 20, t6, 3, 23);
            let t7 = machine::ldr_lit(w, ops, 24, t6, 2, exit | 1);
            machine::bx(w, ops, 25, t7, 2);
        } else {
            machine::stay(w, ops, 20, t6, 3);
            let t8 = machine::ldr_lit(w, ops, 21, t6, 2, fallthrough | 1);
            machine::bx(w, ops, 22, t8, 2);
        }
    } else {
        machine::stay(w, ops, 8, t4, 0);
        let t9 = machine::compare(w, ops, 9, t4, 0, abi::STATE_PASSTHROUGH);
        if s.byte(cell) == abi::STATE_PASSTHROUGH {
            machine::jump(w, ops, 10, t9, 1, 16);
            let t10 = machine::compare(w, ops, 17, t9, 2, 0x32);
            machine::pass(w, ops, 18, t10, 19);
            let t11 = machine::pop_one(w, ops, 19, t10, 0x0001, 0);
            if s.reg(2) > ceiling(s.byte(cell)) {
                machine::jump(w, ops, 20, t11, 3, 23);
                let t12 = machine::ldr_lit(w, ops, 24, t11, 2, exit | 1);
                machine::bx(w, ops, 25, t12, 2);
            } else {
                machine::stay(w, ops, 20, t11, 3);
                let t13 = machine::ldr_lit(w, ops, 21, t11, 2, fallthrough | 1);
                machine::bx(w, ops, 22, t13, 2);
            }
        } else {
            machine::stay(w, ops, 10, t9, 1);
            let t14 = machine::compare_reg(w, ops, 11, t9, 2, 0);
            machine::jump(w, ops, 12, t14, 2, 18);
            let t15 = machine::pop_one(w, ops, 19, t14, 0x0001, 0);
            if s.reg(2) > ceiling(s.byte(cell)) {
                machine::jump(w, ops, 20, t15, 3, 23);
                let t16 = machine::ldr_lit(w, ops, 24, t15, 2, exit | 1);
                machine::bx(w, ops, 25, t16, 2);
            } else {
                machine::stay(w, ops, 20, t15, 3);
                let t17 = machine::ldr_lit(w, ops, 21, t15, 2, fallthrough | 1);
                machine::bx(w, ops, 22, t17, 2);
            }
        }
    }
}

/// The ramp ceiling with its index in `r0`: the ramp goes on while the index is not above
/// the ceiling, which is the flag byte, the OEM band when the flag passes through, and
/// beyond any index when the limiter is off.
pub proof fn law_speed_stub_r0(w: World, s: Cpu, flag_base: u32, fallthrough: u32, exit: u32)
    requires
        s.whole(),
        off_stack(s, stubs::flag_cell(flag_base, abi::Feature::Speed)),
    ensures
        machine::outcome(
            w,
            stubs::speed_program_r0(flag_base, fallthrough, exit),
            0,
            s,
        ) matches Some((at, t)) && {
            &&& at == if s.reg(0) > ceiling(flag(s, flag_base, abi::Feature::Speed)) {
                exit | 1
            } else {
                fallthrough | 1
            }
            &&& spills(s, t, 1)
            &&& same_registers(s, t, set![0])
        },
{
    broadcast use machine::lemma_plus_zero;

    let ops = stubs::speed_program_r0(flag_base, fallthrough, exit);
    let cell = stubs::flag_cell(flag_base, abi::Feature::Speed);
    lemma_one_register(s, 1);
    machine::lemma_listed(machine::LR);
    machine::lemma_listed(machine::PC);
    machine::pass(w, ops, 0, s, 4);
    let t1 = machine::push_one(w, ops, 4, s, 0x0002, 1);
    let t2 = machine::ldr_lit(w, ops, 5, t1, 1, cell);
    let t3 = machine::ldrb_imm(w, ops, 6, t2, 1, 1, 0);
    let t4 = machine::compare(w, ops, 7, t3, 1, abi::SPEED_MAX);
    if s.byte(cell) == abi::SPEED_MAX {
        machine::jump(w, ops, 8, t4, 0, 13);
        let t5 = machine::compare(w, ops, 14, t4, 0, 0xFF);
        machine::jump(w, ops, 15, t5, 2, 18);
        let t6 = machine::pop_one(w, ops, 19, t5, 0x0002, 1);
        if s.reg(0) > ceiling(s.byte(cell)) {
            machine::jump(w, ops, 20, t6, 3, 23);
            let t7 = machine::ldr_lit(w, ops, 24, t6, 0, exit | 1);
            machine::bx(w, ops, 25, t7, 0);
        } else {
            machine::stay(w, ops, 20, t6, 3);
            let t8 = machine::ldr_lit(w, ops, 21, t6, 0, fallthrough | 1);
            machine::bx(w, ops, 22, t8, 0);
        }
    } else {
        machine::stay(w, ops, 8, t4, 0);
        let t9 = machine::compare(w, ops, 9, t4, 1, abi::STATE_PASSTHROUGH);
        if s.byte(cell) == abi::STATE_PASSTHROUGH {
            machine::jump(w, ops, 10, t9, 1, 16);
            let t10 = machine::compare(w, ops, 17, t9, 0, 0x32);
            machine::pass(w, ops, 18, t10, 19);
            let t11 = machine::pop_one(w, ops, 19, t10, 0x0002, 1);
            if s.reg(0) > ceiling(s.byte(cell)) {
                machine::jump(w, ops, 20, t11, 3, 23);
                let t12 = machine::ldr_lit(w, ops, 24, t11, 0, exit | 1);
                machine::bx(w, ops, 25, t12, 0);
            } else {
                machine::stay(w, ops, 20, t11, 3);
                let t13 = machine::ldr_lit(w, ops, 21, t11, 0, fallthrough | 1);
                machine::bx(w, ops, 22, t13, 0);
            }
        } else {
            machine::stay(w, ops, 10, t9, 1);
            let t14 = machine::compare_reg(w, ops, 11, t9, 0, 1);
            machine::jump(w, ops, 12, t14, 2, 18);
            let t15 = machine::pop_one(w, ops, 19, t14, 0x0002, 1);
            if s.reg(0) > ceiling(s.byte(cell)) {
                machine::jump(w, ops, 20, t15, 3, 23);
                let t16 = machine::ldr_lit(w, ops, 24, t15, 0, exit | 1);
                machine::bx(w, ops, 25, t16, 0);
            } else {
                machine::stay(w, ops, 20, t15, 3);
                let t17 = machine::ldr_lit(w, ops, 21, t15, 0, fallthrough | 1);
                machine::bx(w, ops, 22, t17, 0);
            }
        }
    }
}

/// The deny path's trampoline: the AACS engine is idled, the OEM sense set-up is replayed,
/// and control returns with the caller's registers.
pub proof fn law_deny_reset_stub(w: World, s: Cpu, reset: u32)
    requires
        s.whole(),
        w.behaves(),
    ensures
        machine::outcome(w, stubs::deny_reset_program(reset), 0, s) matches Some((at, t)) && {
            &&& at == s.reg(machine::LR)
            &&& t.reg(2) == 2
            &&& t.reg(1) == 0x6F
            &&& t.reg(4) == s.reg(4)
            &&& t.reg(machine::SP) == s.reg(machine::SP)
            &&& exists|c: Cpu|
                {
                    &&& c.calls == s.calls.push(
                        machine::Call { to: reset | 1, r0: c.reg(0), r1: c.reg(1) },
                    )
                    &&& c.stores == s.stores
                    &&& t.calls == (#[trigger] (w.call)(reset | 1, c)).calls
                    &&& t.stores == (w.call)(reset | 1, c).stores
                    &&& t.mem == (w.call)(reset | 1, c).mem
                }
        },
{
    broadcast use machine::lemma_plus_zero;

    let ops = stubs::deny_reset_program(reset);
    machine::lemma_listed(machine::LR);
    machine::lemma_listed(machine::PC);
    let t1 = machine::push_two(w, ops, 0, s, 0x0110, 4);
    let t2 = machine::ldr_lit(w, ops, 1, t1, 2, reset | 1);
    let t3 = machine::blx(w, ops, 2, t2, 2);
    lemma_two_registers(s, t3.mem);
    let t4 = machine::movs_imm(w, ops, 3, t3, 2, 2);
    let t5 = machine::movs_imm(w, ops, 4, t4, 1, 0x6F);
    let t6 = machine::pop_two(w, ops, 5, t5, 0x0110, 4);
}

/// The data-key trampoline: the OEM key programming call is made, the bus-encryption bit
/// is cleared afterwards when the flag slot reads off, and control returns.
pub proof fn law_busenc_stub(w: World, s: Cpu, flag_base: u32, keyprog: u32)
    requires
        s.whole(),
        w.behaves(),
        off_bus(s),
    ensures
        machine::outcome(
            w,
            stubs::busenc_program(flag_base, keyprog),
            0,
            s,
        ) matches Some((at, t)) && {
            &&& at == s.reg(machine::LR)
            &&& t.reg(4) == s.reg(4)
            &&& t.reg(machine::SP) == s.reg(machine::SP)
            &&& exists|c: Cpu|
                {
                    let d = #[trigger] (w.call)(keyprog | 1, c);
                    let off = d.byte((flag_base + stubs::BUS_SLOT) as u32) == abi::STATE_OFF;
                    let cleared = d.word(BUS_REGISTER) & !(stubs::BUSENC_ENABLE_BIT as u32);
                    &&& c.calls == s.calls.push(
                        machine::Call { to: keyprog | 1, r0: c.reg(0), r1: c.reg(1) },
                    )
                    &&& c.stores == s.stores
                    &&& t.calls == d.calls
                    &&& t.mem == if off {
                        d.store_word(BUS_REGISTER, cleared).mem
                    } else {
                        d.mem
                    }
                    &&& t.stores == if off {
                        d.store_word(BUS_REGISTER, cleared).stores
                    } else {
                        d.stores
                    }
                }
        },
{
    broadcast use machine::lemma_plus_zero;

    let ops = stubs::busenc_program(flag_base, keyprog);
    machine::lemma_listed(machine::LR);
    machine::lemma_listed(machine::PC);
    
    reveal(machine::data_step);
    assert(1u32 << 26u16 == 0x0400_0000u32) by (bit_vector);
    assert(machine::plus(BUS_REGISTER, 0) == BUS_REGISTER);
    machine::pass(w, ops, 0, s, 1);
    let t1 = machine::push_two(w, ops, 1, s, 0x0110, 4);
    let t2 = machine::ldr_lit(w, ops, 2, t1, 4, keyprog | 1);
    let t3 = machine::blx(w, ops, 3, t2, 4);
    let t4 = machine::ldr_lit(w, ops, 4, t3, 3, (flag_base + stubs::BUS_SLOT) as u32);
    let t5 = machine::ldrb_imm(w, ops, 5, t4, 3, 3, 0);
    let t6 = machine::compare(w, ops, 6, t5, 3, abi::STATE_OFF);
    if t5.reg(3) != abi::STATE_OFF {
        machine::jump(w, ops, 7, t6, 0, 14);
        lemma_two_registers(s, t6.mem);
        let t7 = machine::pop_two(w, ops, 15, t6, 0x0110, 4);
    } else {
        machine::stay(w, ops, 7, t6, 0);
        let t8 = machine::movs_imm(w, ops, 8, t6, 1, 1);
        let t9 = machine::data(w, ops, 9, t8, AsmOp::LslsImm(1, 1, 26));
        let t10 = machine::data(w, ops, 10, t9, AsmOp::LdrImm(2, 1, 0));
        let t11 = machine::movs_imm(w, ops, 11, t10, 3, stubs::BUSENC_ENABLE_BIT);
        let t12 = machine::data(w, ops, 12, t11, AsmOp::Bics(2, 3));
        machine::lemma_spilled(t12.mem, BUS_REGISTER, t12.reg(2));
        let t13 = machine::data(w, ops, 13, t12, AsmOp::StrImm(2, 1, 0));
        machine::pass(w, ops, 14, t13, 15);
        lemma_two_registers(s, t13.mem);
        let t14 = machine::pop_two(w, ops, 15, t13, 0x0110, 4);
    }
}

/// The BD trampoline of the descriptor classifier: the OEM frame is reserved; a BD disc goes
/// to the deny block when BD is off, and otherwise control returns with the OEM mode test
/// done.
pub proof fn law_bd_ver_stub(w: World, s: Cpu, flag_base: u32, subsp_hw: u16, deny_va: u32)
    requires
        s.whole(),
        subsp_hw / 128 == 353,
        off_stack(reserved(s, subsp_hw), stubs::flag_cell(flag_base, abi::Feature::Bd)),
    ensures
        machine::outcome(
            w,
            stubs::bd_ver_program(flag_base, subsp_hw, deny_va),
            0,
            s,
        ) matches Some((at, t)) && {
            let refused = flag(s, flag_base, abi::Feature::Bd) == abi::STATE_OFF && s.reg(2) == 0;
            &&& at == if refused {
                deny_va | 1
            } else {
                s.reg(machine::LR)
            }
            &&& !refused ==> t.z == (s.reg(2) == 0) && t.c
            &&& spills(reserved(s, subsp_hw), t, 3)
            &&& same_registers(reserved(s, subsp_hw), t, if refused {
                set![3]
            } else {
                Set::empty()
            })
        },
{
    broadcast use machine::lemma_plus_zero;

    let ops = stubs::bd_ver_program(flag_base, subsp_hw, deny_va);
    let cell = stubs::flag_cell(flag_base, abi::Feature::Bd);
    lemma_one_register(reserved(s, subsp_hw), 3);
    machine::lemma_listed(machine::LR);
    machine::lemma_listed(machine::PC);
    reveal(machine::data_step);
    machine::pass(w, ops, 0, s, 1);
    let t1 = machine::data(w, ops, 1, s, AsmOp::Raw16(subsp_hw));
    let t2 = machine::push_one(w, ops, 2, t1, 0x0008, 3);
    let t3 = machine::ldr_lit(w, ops, 3, t2, 3, cell);
    let t4 = machine::ldrb_imm(w, ops, 4, t3, 3, 3, 0);
    let t5 = machine::compare(w, ops, 5, t4, 3, abi::STATE_OFF);
    if s.byte(cell) != abi::STATE_OFF {
        machine::jump(w, ops, 6, t5, 0, 12);
        let t6 = machine::pop_one(w, ops, 13, t5, 0x0008, 3);
        let t7 = machine::compare(w, ops, 14, t6, 2, 0);
        machine::bx(w, ops, 15, t7, 14);
    } else {
        machine::stay(w, ops, 6, t5, 0);
        let t8 = machine::compare(w, ops, 7, t5, 2, 0);
        if s.reg(2) != 0 {
            machine::jump(w, ops, 8, t8, 0, 12);
            let t9 = machine::pop_one(w, ops, 13, t8, 0x0008, 3);
            let t10 = machine::compare(w, ops, 14, t9, 2, 0);
            machine::bx(w, ops, 15, t10, 14);
        } else {
            machine::stay(w, ops, 8, t8, 0);
            let t11 = machine::pop_one(w, ops, 9, t8, 0x0008, 3);
            let t12 = machine::ldr_lit(w, ops, 10, t11, 3, deny_va | 1);
            machine::bx(w, ops, 11, t12, 3);
        }
    }
}

/// Region-free.
#[verifier::rlimit(50)]
proof fn lemma_region_free(w: World, s: Cpu, flag_base: u32)
    requires
        s.whole(),
        off_frame(s),
        masks_laid_out(w, s),
        flag(s, flag_base, abi::Feature::Region) == abi::REGION_FREE,
    ensures
        machine::outcome(w, stubs::region_program(flag_base), 0, s) matches Some((at, t)) && {
            emits(s, at, t, s.reg(1), (s.reg(1) % 256) as u8, s.reg(1))
        },
{
    broadcast use machine::lemma_plus_zero;

    let ops = stubs::region_program(flag_base);
    let cell = stubs::flag_cell(flag_base, abi::Feature::Region);
    machine::lemma_listed(machine::PC);
    reveal(machine::data_step);
    machine::pass(w, ops, 0, s, 6);
    let t1 = machine::ldr_lit(w, ops, 6, s, 3, cell);
    let t2 = machine::ldrb_imm(w, ops, 7, t1, 3, 3, 0);
    let t3 = machine::compare(w, ops, 8, t2, 3, abi::REGION_FREE);
    machine::jump(w, ops, 9, t3, 0, 25);
    let t4 = machine::strb_imm(w, ops, 26, t3, 1, 0, 8);
    let t5 = machine::strb_imm(w, ops, 27, t4, 1, 0, 8);
    let t6 = machine::strb_imm(w, ops, 28, t5, 1, 0, 8);
    machine::jump(w, ops, 29, t6, 5, 54);
    let t7 = machine::strb_imm(w, ops, 55, t6, 1, 0, 8);
    lemma_three_words(s, t7.mem);
    let t8 = machine::pop_three(w, ops, 56, t7, 0x0118, 3, 4);
}

/// Locked.
#[verifier::rlimit(50)]
proof fn lemma_region_locked(w: World, s: Cpu, flag_base: u32)
    requires
        s.whole(),
        off_frame(s),
        masks_laid_out(w, s),
        flag(s, flag_base, abi::Feature::Region) == abi::STATE_OFF,
    ensures
        machine::outcome(w, stubs::region_program(flag_base), 0, s) matches Some((at, t)) && {
            emits(s, at, t, s.reg(2), 0xFF, s.reg(4))
        },
{
    broadcast use machine::lemma_plus_zero;

    let ops = stubs::region_program(flag_base);
    let cell = stubs::flag_cell(flag_base, abi::Feature::Region);
    machine::lemma_listed(machine::PC);
    reveal(machine::data_step);
    machine::pass(w, ops, 0, s, 6);
    let t1 = machine::ldr_lit(w, ops, 6, s, 3, cell);
    let t2 = machine::ldrb_imm(w, ops, 7, t1, 3, 3, 0);
    let t3 = machine::compare(w, ops, 8, t2, 3, abi::REGION_FREE);
    machine::stay(w, ops, 9, t3, 0);
    let t4 = machine::compare(w, ops, 10, t3, 3, abi::STATE_OFF);
    machine::jump(w, ops, 11, t4, 1, 30);
    let t5 = machine::strb_imm(w, ops, 31, t4, 2, 0, 8);
    let t6 = machine::movs_imm(w, ops, 32, t5, 2, 0xFF);
    let t7 = machine::strb_imm(w, ops, 33, t6, 2, 0, 8);
    let t8 = machine::strb_imm(w, ops, 34, t7, 4, 0, 8);
    machine::jump(w, ops, 35, t8, 5, 54);
    let t9 = machine::strb_imm(w, ops, 55, t8, 1, 0, 8);
    lemma_three_words(s, t9.mem);
    let t10 = machine::pop_three(w, ops, 56, t9, 0x0118, 3, 4);
}

/// A DVD region.
#[verifier::rlimit(50)]
proof fn lemma_region_dvd(w: World, s: Cpu, flag_base: u32)
    requires
        s.whole(),
        off_frame(s),
        masks_laid_out(w, s),
        0 < flag(s, flag_base, abi::Feature::Region) < 9,
    ensures
        machine::outcome(w, stubs::region_program(flag_base), 0, s) matches Some((at, t)) && {
            let region = flag(s, flag_base, abi::Feature::Region);
            emits(s, at, t, s.reg(2), stubs::DVD_MASKS@[region - 1], s.reg(4))
        },
{
    broadcast use machine::lemma_plus_zero;

    let ops = stubs::region_program(flag_base);
    let cell = stubs::flag_cell(flag_base, abi::Feature::Region);
    machine::lemma_listed(machine::PC);
    reveal(machine::data_step);
    assert(machine::plus(s.byte(cell) as u32, -(1u8 as int)) == s.byte(cell) - 1u8) by {
        reveal(machine::plus);
    }
    machine::pass(w, ops, 0, s, 6);
    let t1 = machine::ldr_lit(w, ops, 6, s, 3, cell);
    let t2 = machine::ldrb_imm(w, ops, 7, t1, 3, 3, 0);
    let t3 = machine::compare(w, ops, 8, t2, 3, abi::REGION_FREE);
    machine::stay(w, ops, 9, t3, 0);
    let t4 = machine::compare(w, ops, 10, t3, 3, abi::STATE_OFF);
    machine::stay(w, ops, 11, t4, 1);
    let t5 = machine::compare(w, ops, 12, t4, 3, 9);
    machine::jump(w, ops, 13, t5, 2, 36);
    machine::pass(w, ops, 37, t5, 38);
    let t6 = machine::strb_imm(w, ops, 38, t5, 2, 0, 8);
    let t7 = machine::data(w, ops, 39, t6, AsmOp::SubsImm(3, 1));
    let t8 = machine::adr(w, ops, 40, t7, 2, 6);
    let t9 = machine::data(w, ops, 41, t8, AsmOp::LdrbReg(2, 2, 3));
    let t10 = machine::strb_imm(w, ops, 42, t9, 2, 0, 8);
    let t11 = machine::strb_imm(w, ops, 43, t10, 4, 0, 8);
    machine::jump(w, ops, 44, t11, 5, 54);
    let t12 = machine::strb_imm(w, ops, 55, t11, 1, 0, 8);
    lemma_three_words(s, t12.mem);
    let t13 = machine::pop_three(w, ops, 56, t12, 0x0118, 3, 4);
}

/// A BD region.
#[verifier::rlimit(50)]
proof fn lemma_region_bd(w: World, s: Cpu, flag_base: u32)
    requires
        s.whole(),
        off_frame(s),
        masks_laid_out(w, s),
        abi::REGION_BD_A <= flag(s, flag_base, abi::Feature::Region) < 13,
    ensures
        machine::outcome(w, stubs::region_program(flag_base), 0, s) matches Some((at, t)) && {
            let region = flag(s, flag_base, abi::Feature::Region);
            emits(s, at, t, s.reg(2), stubs::BD_MASKS@[region - abi::REGION_BD_A], s.reg(4))
        },
{
    broadcast use machine::lemma_plus_zero;

    let ops = stubs::region_program(flag_base);
    let cell = stubs::flag_cell(flag_base, abi::Feature::Region);
    machine::lemma_listed(machine::PC);
    reveal(machine::data_step);
    assert(machine::plus(s.byte(cell) as u32, -(abi::REGION_BD_A as int)) == s.byte(cell)
        - abi::REGION_BD_A) by {
        reveal(machine::plus);
    }
    machine::pass(w, ops, 0, s, 6);
    let t1 = machine::ldr_lit(w, ops, 6, s, 3, cell);
    let t2 = machine::ldrb_imm(w, ops, 7, t1, 3, 3, 0);
    let t3 = machine::compare(w, ops, 8, t2, 3, abi::REGION_FREE);
    machine::stay(w, ops, 9, t3, 0);
    let t4 = machine::compare(w, ops, 10, t3, 3, abi::STATE_OFF);
    machine::stay(w, ops, 11, t4, 1);
    let t5 = machine::compare(w, ops, 12, t4, 3, 9);
    machine::stay(w, ops, 13, t5, 2);
    let t6 = machine::compare(w, ops, 14, t5, 3, abi::REGION_BD_A);
    machine::stay(w, ops, 15, t6, 4);
    let t7 = machine::compare(w, ops, 16, t6, 3, 13);
    machine::jump(w, ops, 17, t7, 3, 45);
    machine::pass(w, ops, 46, t7, 47);
    let t8 = machine::strb_imm(w, ops, 47, t7, 2, 0, 8);
    let t9 = machine::data(w, ops, 48, t8, AsmOp::SubsImm(3, abi::REGION_BD_A));
    let t10 = machine::adr(w, ops, 49, t9, 2, 7);
    let t11 = machine::data(w, ops, 50, t10, AsmOp::LdrbReg(2, 2, 3));
    let t12 = machine::strb_imm(w, ops, 51, t11, 2, 0, 8);
    let t13 = machine::strb_imm(w, ops, 52, t12, 4, 0, 8);
    machine::jump(w, ops, 53, t13, 5, 54);
    let t14 = machine::strb_imm(w, ops, 55, t13, 1, 0, 8);
    lemma_three_words(s, t14.mem);
    let t15 = machine::pop_three(w, ops, 56, t14, 0x0118, 3, 4);
}

/// The OEM frame, for a flag between the DVD and the BD regions.
#[verifier::rlimit(50)]
proof fn lemma_region_oem_low(w: World, s: Cpu, flag_base: u32)
    requires
        s.whole(),
        off_frame(s),
        masks_laid_out(w, s),
        9 <= flag(s, flag_base, abi::Feature::Region) < abi::REGION_BD_A,
    ensures
        machine::outcome(w, stubs::region_program(flag_base), 0, s) matches Some((at, t)) && {
            emits(s, at, t, s.reg(2), s.byte(machine::plus(s.reg(machine::SP), 3)), s.reg(4))
        },
{
    broadcast use machine::lemma_plus_zero;

    let ops = stubs::region_program(flag_base);
    let cell = stubs::flag_cell(flag_base, abi::Feature::Region);
    machine::lemma_listed(machine::PC);
    reveal(machine::data_step);
    machine::pass(w, ops, 0, s, 6);
    let t1 = machine::ldr_lit(w, ops, 6, s, 3, cell);
    let t2 = machine::ldrb_imm(w, ops, 7, t1, 3, 3, 0);
    let t3 = machine::compare(w, ops, 8, t2, 3, abi::REGION_FREE);
    machine::stay(w, ops, 9, t3, 0);
    let t4 = machine::compare(w, ops, 10, t3, 3, abi::STATE_OFF);
    machine::stay(w, ops, 11, t4, 1);
    let t5 = machine::compare(w, ops, 12, t4, 3, 9);
    machine::stay(w, ops, 13, t5, 2);
    let t6 = machine::compare(w, ops, 14, t5, 3, abi::REGION_BD_A);
    machine::jump(w, ops, 15, t6, 4, 18);
    let t7 = machine::strb_imm(w, ops, 19, t6, 2, 0, 8);
    let t8 = machine::data(w, ops, 20, t7, AsmOp::Raw16(0x466B));
    let t9 = machine::ldrb_imm(w, ops, 21, t8, 2, 3, 3);
    let t10 = machine::strb_imm(w, ops, 22, t9, 2, 0, 8);
    let t11 = machine::strb_imm(w, ops, 23, t10, 4, 0, 8);
    machine::jump(w, ops, 24, t11, 5, 54);
    let t12 = machine::strb_imm(w, ops, 55, t11, 1, 0, 8);
    lemma_three_words(s, t12.mem);
    let t13 = machine::pop_three(w, ops, 56, t12, 0x0118, 3, 4);
}

/// The OEM frame, for a flag above the BD regions.
#[verifier::rlimit(50)]
proof fn lemma_region_oem(w: World, s: Cpu, flag_base: u32)
    requires
        s.whole(),
        off_frame(s),
        masks_laid_out(w, s),
        13 <= flag(s, flag_base, abi::Feature::Region),
        flag(s, flag_base, abi::Feature::Region) != abi::REGION_FREE,
    ensures
        machine::outcome(w, stubs::region_program(flag_base), 0, s) matches Some((at, t)) && {
            emits(s, at, t, s.reg(2), s.byte(machine::plus(s.reg(machine::SP), 3)), s.reg(4))
        },
{
    broadcast use machine::lemma_plus_zero;

    let ops = stubs::region_program(flag_base);
    let cell = stubs::flag_cell(flag_base, abi::Feature::Region);
    machine::lemma_listed(machine::PC);
    reveal(machine::data_step);
    machine::pass(w, ops, 0, s, 6);
    let t1 = machine::ldr_lit(w, ops, 6, s, 3, cell);
    let t2 = machine::ldrb_imm(w, ops, 7, t1, 3, 3, 0);
    let t3 = machine::compare(w, ops, 8, t2, 3, abi::REGION_FREE);
    machine::stay(w, ops, 9, t3, 0);
    let t4 = machine::compare(w, ops, 10, t3, 3, abi::STATE_OFF);
    machine::stay(w, ops, 11, t4, 1);
    let t5 = machine::compare(w, ops, 12, t4, 3, 9);
    machine::stay(w, ops, 13, t5, 2);
    let t6 = machine::compare(w, ops, 14, t5, 3, abi::REGION_BD_A);
    machine::stay(w, ops, 15, t6, 4);
    let t7 = machine::compare(w, ops, 16, t6, 3, 13);
    machine::stay(w, ops, 17, t7, 3);
    machine::pass(w, ops, 18, t7, 19);
    let t8 = machine::strb_imm(w, ops, 19, t7, 2, 0, 8);
    let t9 = machine::data(w, ops, 20, t8, AsmOp::Raw16(0x466B));
    let t10 = machine::ldrb_imm(w, ops, 21, t9, 2, 3, 3);
    let t11 = machine::strb_imm(w, ops, 22, t10, 2, 0, 8);
    let t12 = machine::strb_imm(w, ops, 23, t11, 4, 0, 8);
    machine::jump(w, ops, 24, t12, 5, 54);
    let t13 = machine::strb_imm(w, ops, 55, t12, 1, 0, 8);
    lemma_three_words(s, t13.mem);
    let t14 = machine::pop_three(w, ops, 56, t13, 0x0118, 3, 4);
}

/// The RPC-state trampoline writes the last four bytes of the frame and returns as the OEM
/// emitter did: type code, region mask, scheme and the reserved byte. The mask is the OEM
/// one when the flag passes through, and that of the forced region, or of none, otherwise;
/// a region-free drive answers with the reserved byte throughout.
pub proof fn law_region_stub(w: World, s: Cpu, flag_base: u32)
    requires
        s.whole(),
        off_frame(s),
        masks_laid_out(w, s),
    ensures
        machine::outcome(w, stubs::region_program(flag_base), 0, s) matches Some((at, t)) && {
            let flag = flag(s, flag_base, abi::Feature::Region);
            &&& emits(
                s,
                at,
                t,
                if flag == abi::REGION_FREE {
                    s.reg(1)
                } else {
                    s.reg(2)
                },
                region_mask(s, flag),
                if flag == abi::REGION_FREE {
                    s.reg(1)
                } else {
                    s.reg(4)
                },
            )
        },
{
    let flag = flag(s, flag_base, abi::Feature::Region);
    if flag == abi::REGION_FREE {
        lemma_region_free(w, s, flag_base);
    } else if flag == abi::STATE_OFF {
        lemma_region_locked(w, s, flag_base);
    } else if flag < 9 {
        lemma_region_dvd(w, s, flag_base);
    } else if flag < abi::REGION_BD_A {
        lemma_region_oem_low(w, s, flag_base);
    } else if flag < 13 {
        lemma_region_bd(w, s, flag_base);
    } else {
        lemma_region_oem(w, s, flag_base);
    }
}

} // verus!
