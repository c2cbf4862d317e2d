//! What the boot hook and the injected `0x3C` handler do when they run.
use crate::abi;
use crate::engine::handler;
use crate::engine::handler::HandlerFacts;
use crate::engine::placement;
use crate::machine;
use crate::machine::{Call, Cpu, World};
use crate::program::AsmOp;
use vstd::prelude::*;

verus! {

/// Address `x` is one of the `n` bytes from `a` on.
pub open spec fn within(x: u32, a: u32, n: int) -> bool {
    exists|k: int| 0 <= k < n && x == #[trigger] machine::plus(a, k)
}

/// The `n` bytes from `a` on and the `m` bytes from `b` on have none in common.
pub open spec fn apart(a: u32, n: int, b: u32, m: int) -> bool {
    forall|j: int, k: int|
        0 <= j < n && 0 <= k < m ==> #[trigger] machine::plus(a, j) != #[trigger] machine::plus(
            b,
            k,
        )
}

/// `t` is `s` but for the memory at the `n` bytes from `a` on, the record of stores, and
/// the scratch register `r1`.
pub open spec fn stored(s: Cpu, t: Cpu, a: u32, n: int) -> bool {
    &&& t.whole()
    &&& forall|r: int| 0 <= r < 15 && r != 1 ==> #[trigger] t.regs[r] == s.regs[r]
    &&& t.calls == s.calls
    &&& forall|x: u32| !within(x, a, n) ==> #[trigger] t.mem[x] == s.mem[x]
}

/// Flags filled with the byte of `r1`.
proof fn lemma_fill(w: World, ops: Seq<AsmOp>, i: int, s: Cpu, n: nat) -> (t: Cpu)
    requires
        s.whole(),
        n <= 8,
        0 <= i,
        i + n <= ops.len(),
        forall|k: int| 0 <= k < n ==> #[trigger] ops[i + k] == AsmOp::StrbImm(1, 0, k as u16),
    ensures
        machine::outcome(w, ops, i, s) == machine::outcome(w, ops, i + n, t),
        stored(s, t, s.reg(0), n as int),
        t.regs == s.regs,
        forall|k: int|
            0 <= k < n ==> t.mem[#[trigger] machine::plus(s.reg(0), k)] == (s.reg(1) % 256) as u8,
    decreases n,
{
    if n == 0 {
        s
    } else {
        let m = (n - 1) as nat;
        let u = lemma_fill(w, ops, i, s, m);
        assert(ops[i + m] == AsmOp::StrbImm(1, 0, m as u16));
        let t = machine::strb_imm(w, ops, i + m, u, 1, 0, m as u16);
        assert forall|k: int| 0 <= k < n implies t.mem[#[trigger] machine::plus(s.reg(0), k)] == (
        s.reg(1) % 256) as u8 by {
            if k < m {
                machine::lemma_plus_differ(s.reg(0), k, m as int);
            }
        }
        assert forall|x: u32| !within(x, s.reg(0), n as int) implies #[trigger] t.mem[x]
            == s.mem[x] by {
            assert(!within(x, s.reg(0), m as int));
        }
        t
    }
}

/// Bytes copied from where `from` points to where `to` points.
proof fn lemma_copy(
    w: World,
    ops: Seq<AsmOp>,
    i: int,
    s: Cpu,
    from: u16,
    to: u16,
    n: nat,
) -> (t: Cpu)
    requires
        s.whole(),
        n <= 8,
        0 <= i,
        i + 2 * n <= ops.len(),
        from == 0 || from == 2,
        to == 0 || to == 6,
        apart(s.reg(from), 8, s.reg(to), 8),
        forall|k: int|
            0 <= k < n ==> #[trigger] ops[i + 2 * k] == AsmOp::LdrbImm(1, from, k as u16),
        forall|k: int|
            0 <= k < n ==> #[trigger] ops[i + 2 * k + 1] == AsmOp::StrbImm(1, to, k as u16),
    ensures
        machine::outcome(w, ops, i, s) == machine::outcome(w, ops, i + 2 * n, t),
        stored(s, t, s.reg(to), n as int),
        forall|k: int|
            0 <= k < n ==> t.mem[#[trigger] machine::plus(s.reg(to), k)] == s.mem[machine::plus(
                s.reg(from),
                k,
            )],
    decreases n,
{
    if n == 0 {
        s
    } else {
        let m = (n - 1) as nat;
        let u = lemma_copy(w, ops, i, s, from, to, m);
        let base = s.reg(to);
        assert(ops[i + 2 * m] == AsmOp::LdrbImm(1, from, m as u16));
        assert(ops[i + 2 * m + 1] == AsmOp::StrbImm(1, to, m as u16));
        assert(u.reg(from) == s.reg(from));
        assert(u.reg(to) == base);
        let v = machine::ldrb_imm(w, ops, i + 2 * m, u, 1, from, m as u16);
        let t = machine::strb_imm(w, ops, i + 2 * m + 1, v, 1, to, m as u16);
        assert(!within(machine::plus(s.reg(from), m as int), base, m as int));
        assert forall|k: int| 0 <= k < n implies t.mem[#[trigger] machine::plus(base, k)]
            == s.mem[machine::plus(s.reg(from), k)] by {
            if k < m {
                machine::lemma_plus_differ(base, k, m as int);
            }
        }
        assert forall|x: u32| !within(x, base, n as int) implies #[trigger] t.mem[x]
            == s.mem[x] by {
            assert(!within(x, base, m as int));
        }
        t
    }
}

/// The words of a frame of five that was kept.
proof fn lemma_frame_words(s: Cpu, rs: Seq<u16>, mem: Map<u32, u8>)
    requires
        rs.len() == 5,
        forall|k: int|
            0 <= k < 20 ==> mem[#[trigger] machine::plus(machine::frame_at(s, rs), k)]
                == machine::frame_mem(s, rs)[machine::plus(machine::frame_at(s, rs), k)],
    ensures
        ({
            let sp = machine::frame_at(s, rs);
            &&& machine::word_at(mem, machine::plus(sp, 0)) == s.reg(rs[0])
            &&& machine::word_at(mem, machine::plus(sp, 4)) == s.reg(rs[1])
            &&& machine::word_at(mem, machine::plus(sp, 8)) == s.reg(rs[2])
            &&& machine::word_at(mem, machine::plus(sp, 12)) == s.reg(rs[3])
            &&& machine::word_at(mem, machine::plus(sp, 16)) == s.reg(rs[4])
        }),
{
    let sp = machine::frame_at(s, rs);
    machine::lemma_pushed(s, rs, sp, 5);
    machine::lemma_frame_kept(mem, machine::frame_mem(s, rs), sp, 5);
    assert(machine::plus(sp, 4int * 0) == machine::plus(sp, 0));
    assert(machine::plus(sp, 4int * 1) == machine::plus(sp, 4));
    assert(machine::plus(sp, 4int * 2) == machine::plus(sp, 8));
    assert(machine::plus(sp, 4int * 3) == machine::plus(sp, 12));
    assert(machine::plus(sp, 4int * 4) == machine::plus(sp, 16));
}

/// The last word of a frame of five is kept by a routine that keeps what is above.
proof fn lemma_word_above(m: Map<u32, u8>, n: Map<u32, u8>, sp: u32)
    requires
        forall|k: int|
            0 <= k < 64 ==> n[#[trigger] machine::plus(machine::plus(sp, 16), k)]
                == m[machine::plus(machine::plus(sp, 16), k)],
    ensures
        machine::word_at(n, machine::plus(machine::plus(sp, 16), 0)) == machine::word_at(
            m,
            machine::plus(sp, 16),
        ),
{
    broadcast use machine::lemma_plus_zero;

    let a = machine::plus(sp, 16);
    assert(machine::plus(a, 0) == a);
    machine::lemma_word_kept(m, n, a);
}

/// The instructions of the boot hook.
proof fn lemma_boot_code(flag_base: u32, orig_init: u32, save_home: u32)
    ensures
        ({
            let ops = handler::boot_program(flag_base, orig_init, save_home);
            &&& ops.len() == 32
            &&& ops[0] == AsmOp::Push(0x010F)
            &&& ops[1] == AsmOp::LdrLit(0, flag_base)
            &&& ops[2] == AsmOp::MovsImm(1, abi::STATE_PASSTHROUGH)
            &&& forall|k: int| 0 <= k < 8 ==> #[trigger] ops[3 + k] == AsmOp::StrbImm(1, 0, k as u16)
            &&& ops[11] == AsmOp::LdrLit(2, save_home)
            &&& forall|k: int|
                0 <= k < 8 ==> #[trigger] ops[12 + 2 * k] == AsmOp::LdrbImm(1, 2, k as u16)
            &&& forall|k: int|
                0 <= k < 8 ==> #[trigger] ops[12 + 2 * k + 1] == AsmOp::StrbImm(1, 0, k as u16)
            &&& ops[28] == AsmOp::Pop(0x000F)
            &&& ops[29] == AsmOp::LdrLit(3, orig_init | 1)
            &&& ops[30] == AsmOp::Blx(3)
            &&& ops[31] == AsmOp::Pop(0x0100)
        }),
{
    reveal_with_fuel(handler::fill_flags, 9);
    reveal_with_fuel(handler::copy_table, 9);
}

/// The boot hook: when the original init routine is called, with the arguments that the
/// boot code had for it, the flag table holds what was saved in flash, whatever that is;
/// then control returns as from that routine.
pub proof fn law_boot_hook(w: World, s: Cpu, flag_base: u32, orig_init: u32, save_home: u32)
    requires
        s.whole(),
        w.behaves(),
        apart(save_home, 8, flag_base, 8),
        apart(machine::plus(s.reg(machine::SP), -20), 20, flag_base, 8),
        apart(machine::plus(s.reg(machine::SP), -20), 20, save_home, 8),
    ensures
        machine::outcome(
            w,
            handler::boot_program(flag_base, orig_init, save_home),
            0,
            s,
        ) matches Some(
            (at, t),
        ) && exists|c: Cpu|
            {
                &&& c.calls == s.calls.push(
                    Call { to: orig_init | 1, r0: s.reg(0), r1: s.reg(1) },
                )
                &&& c.reg(0) == s.reg(0)
                &&& c.reg(1) == s.reg(1)
                &&& c.reg(2) == s.reg(2)
                &&& forall|k: int|
                    0 <= k < 8 ==> c.mem[#[trigger] machine::plus(flag_base, k)]
                        == s.mem[machine::plus(save_home, k)]
                &&& at == s.reg(machine::LR)
                &&& t.reg(machine::SP) == s.reg(machine::SP)
                &&& t == (#[trigger] (w.call)(orig_init | 1, c)).set(
                    machine::SP,
                    s.reg(machine::SP),
                )
            },
{
    broadcast use machine::lemma_plus_zero;

    let ops = handler::boot_program(flag_base, orig_init, save_home);
    let rs = seq![0u16, 1, 2, 3, machine::LR];
    let sp = machine::frame_at(s, rs);
    let mem = machine::frame_mem(s, rs);
    lemma_boot_code(flag_base, orig_init, save_home);
    machine::lemma_listed_frames();
    machine::lemma_pushed(s, rs, sp, 5);
    let t1 = machine::push_all(w, ops, 0, s, 0x010F, rs);
    let t2 = machine::ldr_lit(w, ops, 1, t1, 0, flag_base);
    let t3 = machine::movs_imm(w, ops, 2, t2, 1, abi::STATE_PASSTHROUGH);
    let t4 = lemma_fill(w, ops, 3, t3, 8);
    let t5 = machine::ldr_lit(w, ops, 11, t4, 2, save_home);
    let t6 = lemma_copy(w, ops, 12, t5, 2, 0, 8);
    assert forall|k: int| 0 <= k < 20 implies t6.mem[#[trigger] machine::plus(sp, k)]
        == mem[machine::plus(sp, k)] by {
        assert(!within(machine::plus(sp, k), flag_base, 8));
    }
    assert forall|k: int| 0 <= k < 8 implies t5.mem[#[trigger] machine::plus(save_home, k)]
        == s.mem[machine::plus(save_home, k)] by {
        assert(!within(machine::plus(save_home, k), flag_base, 8));
    }
    lemma_frame_words(s, rs, t6.mem);
    let t7 = machine::pop_scratch(w, ops, 28, t6);
    let t8 = machine::ldr_lit(w, ops, 29, t7, 3, orig_init | 1);
    let t9 = machine::blx(w, ops, 30, t8, 3);
    lemma_word_above(t8.mem, t9.mem, sp);
    let t10 = machine::pop_back(w, ops, 31, t9);
    machine::lemma_plus_plus(sp, 16, 4);
    machine::lemma_plus_plus(s.reg(machine::SP), -20, 20);
    assert(t10 == (w.call)(orig_init | 1, t8.calling(orig_init | 1)).set(
        machine::SP,
        s.reg(machine::SP),
    ));
}

/// The command that the handler is called for.
pub open spec fn received(mem: Map<u32, u8>, f: HandlerFacts) -> Seq<u8> {
    Seq::new(abi::CDB_LEN as nat, |k: int| mem[machine::plus(f.cdb, k)])
}

/// The flag table.
pub open spec fn table(mem: Map<u32, u8>, f: HandlerFacts) -> Seq<u8> {
    Seq::new(8, |k: int| mem[machine::plus(f.flag_base, k)])
}

/// Where the identity text is.
pub open spec fn text_at(w: World, f: HandlerFacts) -> u32 {
    (w.data)(handler::handler_program(f)[45 + placement::debug_len(f) + 267]->Adr_1)
}

/// The identity text.
pub open spec fn text(w: World, mem: Map<u32, u8>, f: HandlerFacts) -> Seq<u8> {
    Seq::new(handler::ID_LEN as nat, |k: int| mem[machine::plus(text_at(w, f), k)])
}

/// The registers that the handler keeps on the stack.
pub open spec fn kept() -> Seq<u16> {
    seq![4u16, 5, 6, 7, machine::LR]
}

/// The byte-writer keeps the command, the flags, the text and the registers `r2` and `r3`, and the
/// commit routine keeps the flags.
pub open spec fn quiet(w: World, f: HandlerFacts) -> bool {
    &&& forall|c: Cpu| #![trigger (w.call)(f.writer | 1, c)]
        c.whole() ==> {
            let d = (w.call)(f.writer | 1, c);
            &&& d.reg(2) == c.reg(2)
            &&& d.reg(3) == c.reg(3)
            &&& received(d.mem, f) == received(c.mem, f)
            &&& table(d.mem, f) == table(c.mem, f)
            &&& text(w, d.mem, f) == text(w, c.mem, f)
        }
    &&& forall|c: Cpu| #![trigger (w.call)(f.commit | 1, c)]
        c.whole() ==> table((w.call)(f.commit | 1, c).mem, f) == table(c.mem, f)
}

/// The byte-writer keeps the byte at `x`.
pub open spec fn untouched(w: World, f: HandlerFacts, x: u32) -> bool {
    forall|c: Cpu| #![trigger (w.call)(f.writer | 1, c)]
        c.whole() ==> (w.call)(f.writer | 1, c).mem[x] == c.mem[x]
}

/// The handler is called where it can do its work: the routines that it calls behave, and
/// its stack frame, the command, the flags, the saved flags, the length cell and the text
/// are apart.
pub open spec fn ready(w: World, f: HandlerFacts, s: Cpu) -> bool {
    let sp = machine::frame_at(s, kept());
    &&& s.whole()
    &&& w.behaves()
    &&& quiet(w, f)
    &&& apart(f.cdb, 10, sp, 20)
    &&& apart(f.flag_base, 8, sp, 20)
    &&& apart(f.save_home, 8, sp, 20)
    &&& apart(f.length_field, 2, sp, 20)
    &&& apart(f.cdb, 10, f.flag_base, 8)
    &&& apart(f.save_home, 8, f.flag_base, 8)
    &&& apart(f.length_field, 2, f.flag_base, 8)
    &&& apart(text_at(w, f), 13, sp, 20)
    &&& apart(text_at(w, f), 13, f.flag_base, 8)
}

/// The call that commits the reply.
pub open spec fn committed(f: HandlerFacts) -> Call {
    Call { to: f.commit | 1, r0: f.commit_off, r1: f.length_field }
}

/// The transfer length that `mem` holds.
pub open spec fn transfer(mem: Map<u32, u8>, f: HandlerFacts) -> int {
    mem[f.length_field] + 256 * mem[machine::plus(f.length_field, 1)]
}

/// The call that puts byte `v` at `k` of the reply.
pub open spec fn replied(f: HandlerFacts, k: u32, v: u32) -> Call {
    Call { to: f.writer | 1, r0: k, r1: v }
}

/// The calls that clear the reply from `n` on.
pub open spec fn cleared(f: HandlerFacts, n: int) -> Seq<Call> {
    Seq::new((64 - n) as nat, |k: int| replied(f, (n + k) as u32, 0))
}

/// `ops` makes the calls of `made`, clears the reply, makes those of `reply`, commits the
/// reply and returns to its caller; the commit routine, which is called last, finds the
/// length of the reply as the transfer length, and the flags are then those of `flags`.
pub open spec fn serves(
    w: World,
    ops: Seq<AsmOp>,
    f: HandlerFacts,
    s: Cpu,
    made: Seq<Call>,
    reply: Seq<Call>,
    flags: Seq<u8>,
) -> bool {
    machine::outcome(w, ops, 0, s) matches Some((at, t)) && {
        &&& at == s.reg(machine::LR)
        &&& t.whole()
        &&& t.reg(machine::SP) == s.reg(machine::SP)
        &&& t.reg(4) == s.reg(4)
        &&& t.reg(5) == s.reg(5)
        &&& t.reg(6) == s.reg(6)
        &&& t.reg(7) == s.reg(7)
        &&& t.calls == (s.calls + made + cleared(f, 0) + reply).push(committed(f))
        &&& transfer(t.found, f) == handler::CLEAR_LEN
        &&& table(t.mem, f) == flags
    }
}

/// The handler clears the reply, makes the calls of `reply`, which put its bytes there,
/// commits it and returns to its caller; the flags are then those of `flags`.
pub open spec fn answers(
    w: World,
    f: HandlerFacts,
    s: Cpu,
    reply: Seq<Call>,
    flags: Seq<u8>,
) -> bool {
    serves(w, handler::handler_program(f), f, s, Seq::empty(), reply, flags)
}

/// The frame for the caller's state `s` is as pushed, and the byte-writer is at hand.
spec fn framed(w: World, f: HandlerFacts, s: Cpu, u: Cpu) -> bool {
    let sp = machine::frame_at(s, kept());
    &&& ready(w, f, s)
    &&& u.whole()
    &&& u.reg(machine::SP) == sp
    &&& forall|k: int|
        0 <= k < 20 ==> u.mem[#[trigger] machine::plus(sp, k)] == machine::frame_mem(
            s,
            kept(),
        )[machine::plus(sp, k)]
    &&& u.reg(7) == f.writer | 1
}

/// The handler is at work for the caller's state `s`: besides its frame, the command and
/// the text are at hand.
spec fn at_work(w: World, f: HandlerFacts, s: Cpu, u: Cpu) -> bool {
    &&& framed(w, f, s, u)
    &&& u.reg(3) == f.cdb
    &&& received(u.mem, f) == received(s.mem, f)
    &&& text(w, u.mem, f) == text(w, s.mem, f)
}

/// `u` goes on as `t` at `j`, with the same calls and flags.
spec fn goes_on(
    w: World,
    ops: Seq<AsmOp>,
    f: HandlerFacts,
    i: int,
    u: Cpu,
    j: int,
    t: Cpu,
) -> bool {
    &&& machine::outcome(w, ops, i, u) == machine::outcome(w, ops, j, t)
    &&& t.calls == u.calls
    &&& table(t.mem, f) == table(u.mem, f)
}

/// A change of the scratch registers and flags leaves the handler at work.
proof fn lemma_scratch(w: World, f: HandlerFacts, s: Cpu, u: Cpu, t: Cpu)
    requires
        framed(w, f, s, u),
        t.whole(),
        t.mem == u.mem,
        t.reg(machine::SP) == u.reg(machine::SP),
        t.reg(7) == u.reg(7),
    ensures
        framed(w, f, s, t),
        at_work(w, f, s, u) && t.reg(3) == u.reg(3) ==> at_work(w, f, s, t),
{
}

/// A call of any routine keeps the frame.
proof fn lemma_called(w: World, f: HandlerFacts, s: Cpu, u: Cpu, to: u32)
    requires
        framed(w, f, s, u),
    ensures
        ({
            let d = (w.call)(to, u.calling(to));
            &&& framed(w, f, s, d)
            &&& d.calls == u.calls.push(Call { to, r0: u.reg(0), r1: u.reg(1) })
            &&& d.reg(4) == u.reg(4)
            &&& d.reg(5) == u.reg(5)
            &&& d.reg(6) == u.reg(6)
        }),
{
    let c = u.calling(to);
    let d = (w.call)(to, c);
    assert(c.whole());
    assert(d.reg(machine::SP) == c.reg(machine::SP));
}

/// A call of the byte-writer leaves the handler at work.
proof fn lemma_writer(w: World, f: HandlerFacts, s: Cpu, u: Cpu)
    requires
        framed(w, f, s, u),
    ensures
        ({
            let d = (w.call)(f.writer | 1, u.calling(f.writer | 1));
            &&& framed(w, f, s, d)
            &&& at_work(w, f, s, u) ==> at_work(w, f, s, d)
            &&& d.calls == u.calls.push(replied(f, u.reg(0), u.reg(1)))
            &&& d.reg(2) == u.reg(2)
            &&& d.reg(4) == u.reg(4)
            &&& d.reg(5) == u.reg(5)
            &&& d.reg(6) == u.reg(6)
            &&& table(d.mem, f) == table(u.mem, f)
            &&& forall|x: u32| untouched(w, f, x) ==> #[trigger] d.mem[x] == u.mem[x]
        }),
{
    lemma_called(w, f, s, u, f.writer | 1);
    assert(u.calling(f.writer | 1).whole());
}

/// A command without the safe knock or the debug knock is handed to the OEM handler as it
/// came: only the scratch registers `r0` and `r3` and the condition flags differ.
pub proof fn law_foreign_command_goes_to_the_oem_handler(w: World, f: HandlerFacts, s: Cpu)
    requires
        s.whole(),
        ({
            let cdb = received(s.mem, f);
            ||| cdb[1] != abi::KNOCK_MODE
            ||| !abi::has_safe_knock(cdb) && !abi::has_debug_knock(cdb)
        }),
    ensures
        machine::outcome(w, handler::handler_program(f), 0, s) matches Some((at, t)) && {
            &&& at == f.oem_handler | 1
            &&& t.mem == s.mem
            &&& t.stores == s.stores
            &&& t.calls == s.calls
            &&& t.whole()
            &&& forall|r: int| 0 <= r < 15 && r != 0 && r != 3 ==> #[trigger] t.regs[r] == s.regs[r]
        },
{
    let ops = handler::handler_program(f);
    placement::lemma_laid_out(f);
    lemma_foreign(w, ops, f, s);
}

/// The path of a command without a knock.
proof fn lemma_foreign(w: World, ops: Seq<AsmOp>, f: HandlerFacts, s: Cpu)
    requires
        s.whole(),
        placement::opens(ops, f),
        placement::laid_out(ops, f, 45 + placement::debug_len(f)),
        placement::labelled(ops, 45 + placement::debug_len(f)),
        ({
            let cdb = received(s.mem, f);
            ||| cdb[1] != abi::KNOCK_MODE
            ||| !abi::has_safe_knock(cdb) && !abi::has_debug_knock(cdb)
        }),
    ensures
        machine::outcome(w, ops, 0, s) matches Some((at, t)) && {
            &&& at == f.oem_handler | 1
            &&& t.mem == s.mem
            &&& t.stores == s.stores
            &&& t.calls == s.calls
            &&& t.whole()
            &&& forall|r: int| 0 <= r < 15 && r != 0 && r != 3 ==> #[trigger] t.regs[r] == s.regs[r]
        },
{
    reveal(placement::knock_code);
    let cdb = received(s.mem, f);
    machine::pass(w, ops, 0, s, 24);
    let t1 = machine::ldr_lit(w, ops, 24, s, 3, f.cdb);
    let t2 = machine::ldrb_imm(w, ops, 25, t1, 0, 3, 1);
    assert(t2.reg(0) == cdb[1]);
    let t3 = machine::compare(w, ops, 26, t2, 0, abi::KNOCK_MODE);
    if cdb[1] != abi::KNOCK_MODE {
        machine::jump(w, ops, 27, t3, handler::TAIL, 42);
        let t4 = machine::ldr_lit(w, ops, 43, t3, 3, f.oem_handler | 1);
        machine::bx(w, ops, 44, t4, 3);
    } else {
        machine::stay(w, ops, 27, t3, handler::TAIL);
        let t4 = machine::ldrb_imm(w, ops, 28, t3, 0, 3, 2);
        assert(t4.reg(0) == cdb[2]);
        let t5 = machine::compare(w, ops, 29, t4, 0, 0xC0);
        if cdb[2] == 0xC0 {
            machine::stay(w, ops, 30, t5, handler::NOT_SAFE);
            let t6 = machine::ldrb_imm(w, ops, 31, t5, 0, 3, 3);
            assert(t6.reg(0) == cdb[3]);
            let t7 = machine::compare(w, ops, 32, t6, 0, 0xDE);
            machine::jump(w, ops, 33, t7, handler::TAIL, 42);
            let t8 = machine::ldr_lit(w, ops, 43, t7, 3, f.oem_handler | 1);
            machine::bx(w, ops, 44, t8, 3);
        } else {
            machine::jump(w, ops, 30, t5, handler::NOT_SAFE, 35);
            let t6 = machine::compare(w, ops, 36, t5, 0, 0xDE);
            if cdb[2] != 0xDE {
                machine::jump(w, ops, 37, t6, handler::TAIL, 42);
                let t7 = machine::ldr_lit(w, ops, 43, t6, 3, f.oem_handler | 1);
                machine::bx(w, ops, 44, t7, 3);
            } else {
                machine::stay(w, ops, 37, t6, handler::TAIL);
                let t7 = machine::ldrb_imm(w, ops, 38, t6, 0, 3, 3);
                assert(t7.reg(0) == cdb[3]);
                let t8 = machine::compare(w, ops, 39, t7, 0, 0xB9);
                machine::jump(w, ops, 40, t8, handler::TAIL, 42);
                let t9 = machine::ldr_lit(w, ops, 43, t8, 3, f.oem_handler | 1);
                machine::bx(w, ops, 44, t9, 3);
            }
        }
    }
}

/// The entry of the verbs, at `i`: the frame is pushed, and the verb is taken.
proof fn lemma_taken(w: World, ops: Seq<AsmOp>, f: HandlerFacts, s: Cpu, t: Cpu, i: int) -> (u: Cpu)
    requires
        0 <= i,
        i + 3 <= ops.len(),
        ops[i] == AsmOp::Push(0x01F0),
        ops[i + 1] == AsmOp::LdrLit(7, f.writer | 1),
        ops[i + 2] == AsmOp::LdrbImm(4, 3, 4),
        ready(w, f, s),
        t.whole(),
        t.mem == s.mem,
        t.calls == s.calls,
        forall|r: int| 0 <= r < 15 && r != 0 && r != 3 ==> #[trigger] t.regs[r] == s.regs[r],
        t.reg(3) == f.cdb,
    ensures
        goes_on(w, ops, f, i, t, i + 3, u),
        at_work(w, f, s, u),
        u.reg(4) == received(s.mem, f)[4],
        u.reg(1) == s.reg(1),
        forall|x: u32|
            !within(x, machine::frame_at(s, kept()), 20) ==> #[trigger] u.mem[x] == s.mem[x],
{
    let rs = kept();
    let sp = machine::frame_at(s, rs);
    machine::lemma_listed_frames();
    let t8 = machine::push_all(w, ops, i, t, 0x01F0, rs);
    lemma_pushed_alike(s, t);
    machine::lemma_pushed(s, rs, sp, 5);
    assert forall|x: u32| !within(x, sp, 20) implies #[trigger] t8.mem[x] == s.mem[x] by {}
    assert forall|k: int| 0 <= k < 8 implies t8.mem[#[trigger] machine::plus(f.flag_base, k)]
        == s.mem[machine::plus(f.flag_base, k)] by {}
    assert forall|k: int| 0 <= k < 10 implies t8.mem[#[trigger] machine::plus(f.cdb, k)]
        == s.mem[machine::plus(f.cdb, k)] by {}
    assert forall|k: int| 0 <= k < 13 implies t8.mem[#[trigger] machine::plus(text_at(w, f), k)]
        == s.mem[machine::plus(text_at(w, f), k)] by {}
    assert(received(t8.mem, f) =~= received(s.mem, f));
    assert(text(w, t8.mem, f) =~= text(w, s.mem, f));
    assert(table(t8.mem, f) =~= table(s.mem, f));
    let t9 = machine::ldr_lit(w, ops, i + 1, t8, 7, f.writer | 1);
    let u = machine::ldrb_imm(w, ops, i + 2, t9, 4, 3, 4);
    assert(u.reg(4) == received(t8.mem, f)[4]);
    u
}

/// The way from the entry to the durable verbs.
proof fn lemma_enter(w: World, ops: Seq<AsmOp>, f: HandlerFacts, b: int, s: Cpu) -> (u: Cpu)
    requires
        placement::opens(ops, f),
        placement::laid_out(ops, f, b),
        placement::labelled(ops, b),
        ready(w, f, s),
        received(s.mem, f)[1] == abi::KNOCK_MODE,
        abi::has_safe_knock(received(s.mem, f)),
    ensures
        goes_on(w, ops, f, 0, s, b + 4, u),
        at_work(w, f, s, u),
        u.reg(4) == received(s.mem, f)[4],
        forall|x: u32|
            !within(x, machine::frame_at(s, kept()), 20) ==> #[trigger] u.mem[x] == s.mem[x],
{
    reveal(placement::set_code);
    reveal(placement::knock_code);
    let cdb = received(s.mem, f);
    machine::pass(w, ops, 0, s, 24);
    let t1 = machine::ldr_lit(w, ops, 24, s, 3, f.cdb);
    let t2 = machine::ldrb_imm(w, ops, 25, t1, 0, 3, 1);
    assert(t2.reg(0) == cdb[1]);
    let t3 = machine::compare(w, ops, 26, t2, 0, abi::KNOCK_MODE);
    machine::stay(w, ops, 27, t3, handler::TAIL);
    let t4 = machine::ldrb_imm(w, ops, 28, t3, 0, 3, 2);
    assert(t4.reg(0) == cdb[2]);
    let t5 = machine::compare(w, ops, 29, t4, 0, 0xC0);
    machine::stay(w, ops, 30, t5, handler::NOT_SAFE);
    let t6 = machine::ldrb_imm(w, ops, 31, t5, 0, 3, 3);
    assert(t6.reg(0) == cdb[3]);
    let t7 = machine::compare(w, ops, 32, t6, 0, 0xDE);
    machine::stay(w, ops, 33, t7, handler::TAIL);
    machine::jump(w, ops, 34, t7, handler::KNOCK_OK, b);
    lemma_taken(w, ops, f, s, t7, b + 1)
}

/// The way from the entry to the debug verbs.
proof fn lemma_enter_debug(w: World, ops: Seq<AsmOp>, f: HandlerFacts, b: int, s: Cpu) -> (u: Cpu)
    requires
        placement::opens(ops, f),
        placement::laid_out(ops, f, b),
        placement::labelled(ops, b),
        ready(w, f, s),
        received(s.mem, f)[1] == abi::KNOCK_MODE,
        abi::has_debug_knock(received(s.mem, f)),
    ensures
        goes_on(w, ops, f, 0, s, 49, u),
        at_work(w, f, s, u),
        u.reg(4) == received(s.mem, f)[4],
        u.reg(1) == s.reg(1),
        forall|x: u32|
            !within(x, machine::frame_at(s, kept()), 20) ==> #[trigger] u.mem[x] == s.mem[x],
{
    reveal(placement::debug_code);
    reveal(placement::knock_code);
    let cdb = received(s.mem, f);
    machine::pass(w, ops, 0, s, 24);
    let t1 = machine::ldr_lit(w, ops, 24, s, 3, f.cdb);
    let t2 = machine::ldrb_imm(w, ops, 25, t1, 0, 3, 1);
    assert(t2.reg(0) == cdb[1]);
    let t3 = machine::compare(w, ops, 26, t2, 0, abi::KNOCK_MODE);
    machine::stay(w, ops, 27, t3, handler::TAIL);
    let t4 = machine::ldrb_imm(w, ops, 28, t3, 0, 3, 2);
    assert(t4.reg(0) == cdb[2]);
    let t5 = machine::compare(w, ops, 29, t4, 0, 0xC0);
    machine::jump(w, ops, 30, t5, handler::NOT_SAFE, 35);
    let t6 = machine::compare(w, ops, 36, t5, 0, 0xDE);
    machine::stay(w, ops, 37, t6, handler::TAIL);
    let t7 = machine::ldrb_imm(w, ops, 38, t6, 0, 3, 3);
    assert(t7.reg(0) == cdb[3]);
    let t8 = machine::compare(w, ops, 39, t7, 0, 0xB9);
    machine::stay(w, ops, 40, t8, handler::TAIL);
    machine::jump(w, ops, 41, t8, handler::DEBUG_OK, 45);
    lemma_taken(w, ops, f, s, t8, 46)
}

/// The same frame is pushed whatever the scratch registers are.
proof fn lemma_pushed_alike(s: Cpu, t: Cpu)
    requires
        s.whole(),
        t.whole(),
        s.mem == t.mem,
        s.reg(4) == t.reg(4),
        s.reg(5) == t.reg(5),
        s.reg(6) == t.reg(6),
        s.reg(7) == t.reg(7),
        s.reg(machine::LR) == t.reg(machine::LR),
        s.reg(machine::SP) == t.reg(machine::SP),
    ensures
        machine::frame_at(s, kept()) == machine::frame_at(t, kept()),
        machine::frame_mem(s, kept()) == machine::frame_mem(t, kept()),
{
    reveal_with_fuel(machine::pushed, 6);
}

/// The loop that clears the reply, from its test on.
proof fn lemma_clear_loop(
    w: World,
    ops: Seq<AsmOp>,
    f: HandlerFacts,
    b: int,
    s: Cpu,
    u: Cpu,
    n: int,
) -> (t: Cpu)
    requires
        placement::laid_out(ops, f, b),
        placement::labelled(ops, b),
        framed(w, f, s, u),
        0 <= n <= 64,
        u.reg(5) == n,
    ensures
        machine::outcome(w, ops, b + 98, u) == machine::outcome(w, ops, b + 106, t),
        framed(w, f, s, t),
        at_work(w, f, s, u) ==> at_work(w, f, s, t),
        t.reg(4) == u.reg(4),
        t.calls == u.calls + cleared(f, n),
        forall|x: u32| untouched(w, f, x) ==> #[trigger] t.mem[x] == u.mem[x],
        table(t.mem, f) == table(u.mem, f),
    decreases 64 - n,
{
    reveal(placement::clear_code);
    let t1 = machine::compare(w, ops, b + 98, u, 5, handler::CLEAR_LEN);
    if n == 64 {
        machine::jump(w, ops, b + 99, t1, handler::CLRD, b + 105);
        lemma_scratch(w, f, s, u, t1);
        assert(t1.calls =~= u.calls + cleared(f, 64));
        t1
    } else {
        machine::stay(w, ops, b + 99, t1, handler::CLRD);
        reveal(machine::data_step);
        let t2 = machine::data(w, ops, b + 100, t1, AsmOp::MovReg(0, 5));
        let t3 = machine::movs_imm(w, ops, b + 101, t2, 1, 0);
        lemma_scratch(w, f, s, u, t3);
        lemma_writer(w, f, s, t3);
        let t4 = machine::blx(w, ops, b + 102, t3, 7);
        let t5 = machine::data(w, ops, b + 103, t4, AsmOp::AddsImm(5, 1));
        assert(t5.reg(5) == n + 1) by {
            reveal(machine::plus);
        }
        lemma_scratch(w, f, s, t4, t5);
        machine::jump(w, ops, b + 104, t5, handler::CLR_LOOP, b + 97);
        let t = lemma_clear_loop(w, ops, f, b, s, t5, n + 1);
        assert(u.calls.push(replied(f, n as u32, 0)) + cleared(f, n + 1) =~= u.calls + cleared(f, n));
        t
    }
}

/// The clearing of the reply.
proof fn lemma_clear(w: World, ops: Seq<AsmOp>, f: HandlerFacts, b: int, s: Cpu, u: Cpu) -> (t: Cpu)
    requires
        placement::laid_out(ops, f, b),
        placement::labelled(ops, b),
        framed(w, f, s, u),
    ensures
        machine::outcome(w, ops, b + 96, u) == machine::outcome(w, ops, b + 106, t),
        framed(w, f, s, t),
        at_work(w, f, s, u) ==> at_work(w, f, s, t),
        t.reg(4) == u.reg(4),
        t.calls == u.calls + cleared(f, 0),
        forall|x: u32| untouched(w, f, x) ==> #[trigger] t.mem[x] == u.mem[x],
        table(t.mem, f) == table(u.mem, f),
{
    reveal(placement::clear_code);
    let t1 = machine::movs_imm(w, ops, b + 96, u, 5, 0);
    machine::pass(w, ops, b + 97, t1, b + 98);
    lemma_scratch(w, f, s, u, t1);
    lemma_clear_loop(w, ops, f, b, s, t1, 0)
}

/// The end of a reply.
proof fn lemma_finish(
    w: World,
    ops: Seq<AsmOp>,
    f: HandlerFacts,
    b: int,
    s: Cpu,
    u: Cpu,
) -> (t: Cpu)
    requires
        placement::laid_out(ops, f, b),
        framed(w, f, s, u),
    ensures
        machine::outcome(w, ops, b + 291, u) == Some((s.reg(machine::LR), t)),
        t.whole(),
        t.reg(machine::SP) == s.reg(machine::SP),
        t.reg(4) == s.reg(4),
        t.reg(5) == s.reg(5),
        t.reg(6) == s.reg(6),
        t.reg(7) == s.reg(7),
        t.calls == u.calls.push(committed(f)),
        transfer(t.found, f) == handler::CLEAR_LEN,
        table(t.mem, f) == table(u.mem, f),
{
    broadcast use machine::lemma_plus_zero;

    reveal(placement::commit_code);
    let sp = machine::frame_at(s, kept());
    let mem = machine::frame_mem(s, kept());
    let t1 = machine::movs_imm(w, ops, b + 291, u, 0, handler::CLEAR_LEN);
    let t2 = machine::ldr_lit(w, ops, b + 292, t1, 1, f.length_field);
    reveal(machine::data_step);
    let t3 = machine::data(w, ops, b + 293, t2, AsmOp::StrhImm(0, 1, 0));
    let a = machine::plus(f.length_field, 0);
    let c = machine::plus(f.length_field, 1);
    assert forall|k: int| 0 <= k < 20 implies t3.mem[#[trigger] machine::plus(sp, k)]
        == mem[machine::plus(sp, k)] by {
        assert(machine::plus(sp, k) != a && machine::plus(sp, k) != c);
    }
    assert forall|k: int| 0 <= k < 8 implies t3.mem[#[trigger] machine::plus(f.flag_base, k)]
        == u.mem[machine::plus(f.flag_base, k)] by {
        assert(machine::plus(f.flag_base, k) != a && machine::plus(f.flag_base, k) != c);
    }
    assert(table(t3.mem, f) =~= table(u.mem, f));
    let t4 = machine::ldr_lit(w, ops, b + 294, t3, 0, f.commit_off);
    let t5 = machine::ldr_lit(w, ops, b + 295, t4, 2, f.commit | 1);
    let t6 = machine::blx(w, ops, b + 296, t5, 2);
    let called = t5.calling(f.commit | 1);
    machine::lemma_plus_differ(f.length_field, 0, 1);
    assert(transfer(called.found, f) == handler::CLEAR_LEN);
    assert(called.whole());
    assert(called.reg(machine::SP) == sp);
    assert forall|k: int| 0 <= k < 20 implies t6.mem[#[trigger] machine::plus(sp, k)]
        == mem[machine::plus(sp, k)] by {
        assert(t6.mem[machine::plus(sp, k)] == called.mem[machine::plus(sp, k)]);
    }
    lemma_frame_words(s, kept(), t6.mem);
    let t = machine::pop_saved(w, ops, b + 297, t6);
    machine::lemma_plus_plus(s.reg(machine::SP), -20, 20);
    t
}

/// A verb that is neither FLASHWRITE nor SAVE goes on at GET.
proof fn lemma_past_flash(
    w: World,
    ops: Seq<AsmOp>,
    f: HandlerFacts,
    b: int,
    s: Cpu,
    u: Cpu,
) -> (t: Cpu)
    requires
        placement::laid_out(ops, f, b),
        placement::labelled(ops, b),
        framed(w, f, s, u),
        u.reg(4) != 0x0A,
        u.reg(4) != 0x0B,
    ensures
        goes_on(w, ops, f, b + 106, u, b + 230, t),
        t.mem == u.mem,
        framed(w, f, s, t),
        at_work(w, f, s, u) ==> at_work(w, f, s, t),
        t.reg(4) == u.reg(4),
{
    reveal(placement::flashwrite_code);
    reveal(placement::save_code);
    let t1 = machine::compare(w, ops, b + 106, u, 4, 0x0A);
    machine::jump(w, ops, b + 107, t1, handler::NOT_FLASH, b + 177);
    let t2 = machine::compare(w, ops, b + 178, t1, 4, 0x0B);
    machine::jump(w, ops, b + 179, t2, handler::NOT_SAVE, b + 229);
    t2
}

/// A verb that is neither DUMPALL nor IDENTITY goes to the end of the reply.
proof fn lemma_past_reads(
    w: World,
    ops: Seq<AsmOp>,
    f: HandlerFacts,
    b: int,
    s: Cpu,
    u: Cpu,
) -> (t: Cpu)
    requires
        placement::laid_out(ops, f, b),
        placement::labelled(ops, b),
        framed(w, f, s, u),
        u.reg(4) != 0x09,
        u.reg(4) != 0x01,
    ensures
        goes_on(w, ops, f, b + 242, u, b + 291, t),
        t.mem == u.mem,
        framed(w, f, s, t),
        at_work(w, f, s, u) ==> at_work(w, f, s, t),
        t.reg(4) == u.reg(4),
{
    reveal(placement::dump_code);
    reveal(placement::identity_code);
    let t1 = machine::compare(w, ops, b + 242, u, 4, 0x09);
    machine::jump(w, ops, b + 243, t1, handler::NOT_DUMP, b + 263);
    let t2 = machine::compare(w, ops, b + 264, t1, 4, 0x01);
    machine::jump(w, ops, b + 265, t2, handler::DOCOMMIT, b + 290);
    t2
}

/// From the clearing on, with a verb that puts nothing into the reply.
proof fn lemma_silent(
    w: World,
    ops: Seq<AsmOp>,
    f: HandlerFacts,
    b: int,
    s: Cpu,
    u: Cpu,
    made: Seq<Call>,
)
    requires
        placement::laid_out(ops, f, b),
        placement::labelled(ops, b),
        framed(w, f, s, u),
        u.calls == s.calls + made,
        u.reg(4) != 0x0A,
        u.reg(4) != 0x0B,
        u.reg(4) != 0x09,
        u.reg(4) != 0x01,
        u.reg(4) != 0x03,
        machine::outcome(w, ops, 0, s) == machine::outcome(w, ops, b + 96, u),
    ensures
        serves(w, ops, f, s, made, Seq::empty(), table(u.mem, f)),
{
    reveal(placement::get_code);
    let t1 = lemma_clear(w, ops, f, b, s, u);
    let t2 = lemma_past_flash(w, ops, f, b, s, t1);
    let t3 = machine::compare(w, ops, b + 230, t2, 4, 0x03);
    machine::jump(w, ops, b + 231, t3, handler::NOT_GET, b + 241);
    lemma_scratch(w, f, s, t2, t3);
    let t4 = lemma_past_reads(w, ops, f, b, s, t3);
    lemma_finish(w, ops, f, b, s, t4);
    assert(s.calls + made + cleared(f, 0) + Seq::<Call>::empty() =~= s.calls + made + cleared(
        f,
        0,
    ));
}

/// From the clearing on, with GET for a feature beyond the table.
proof fn lemma_get_beyond(w: World, ops: Seq<AsmOp>, f: HandlerFacts, b: int, s: Cpu, u: Cpu)
    requires
        placement::laid_out(ops, f, b),
        placement::labelled(ops, b),
        at_work(w, f, s, u),
        u.calls == s.calls,
        u.reg(4) == 0x03,
        received(s.mem, f)[5] >= 8,
        machine::outcome(w, ops, 0, s) == machine::outcome(w, ops, b + 96, u),
    ensures
        serves(w, ops, f, s, Seq::empty(), Seq::empty(), table(u.mem, f)),
{
    reveal(placement::get_code);
    let t1 = lemma_clear(w, ops, f, b, s, u);
    let t2 = lemma_past_flash(w, ops, f, b, s, t1);
    let t3 = machine::compare(w, ops, b + 230, t2, 4, 0x03);
    machine::stay(w, ops, b + 231, t3, handler::NOT_GET);
    let t4 = machine::ldr_lit(w, ops, b + 232, t3, 0, f.flag_base);
    let t5 = machine::ldrb_imm(w, ops, b + 233, t4, 1, 3, 5);
    assert(t5.reg(1) == received(t2.mem, f)[5]);
    let t6 = machine::compare(w, ops, b + 234, t5, 1, 8);
    machine::jump(w, ops, b + 235, t6, handler::NOT_GET, b + 241);
    lemma_scratch(w, f, s, t2, t6);
    let t7 = lemma_past_reads(w, ops, f, b, s, t6);
    lemma_finish(w, ops, f, b, s, t7);
    let none = Seq::<Call>::empty();
    assert(s.calls + none + cleared(f, 0) + none =~= s.calls + cleared(f, 0));
}

/// A change of the flags leaves the handler at work.
proof fn lemma_flags_changed(w: World, f: HandlerFacts, s: Cpu, u: Cpu, t: Cpu)
    requires
        at_work(w, f, s, u),
        t.whole(),
        forall|x: u32| !within(x, f.flag_base, 8) ==> #[trigger] t.mem[x] == u.mem[x],
        t.reg(machine::SP) == u.reg(machine::SP),
        t.reg(3) == u.reg(3),
        t.reg(7) == u.reg(7),
    ensures
        at_work(w, f, s, t),
{
    let sp = machine::frame_at(s, kept());
    assert forall|k: int| 0 <= k < 20 implies t.mem[#[trigger] machine::plus(sp, k)]
        == machine::frame_mem(s, kept())[machine::plus(sp, k)] by {
        assert(!within(machine::plus(sp, k), f.flag_base, 8));
    }
    assert forall|k: int| 0 <= k < 10 implies t.mem[#[trigger] machine::plus(f.cdb, k)]
        == u.mem[machine::plus(f.cdb, k)] by {
        assert(!within(machine::plus(f.cdb, k), f.flag_base, 8));
    }
    assert forall|k: int| 0 <= k < 13 implies t.mem[#[trigger] machine::plus(text_at(w, f), k)]
        == u.mem[machine::plus(text_at(w, f), k)] by {
        assert(!within(machine::plus(text_at(w, f), k), f.flag_base, 8));
    }
    assert(received(t.mem, f) =~= received(u.mem, f));
    assert(text(w, t.mem, f) =~= text(w, u.mem, f));
}

/// SET: one flag is the state of the command, the others are kept, and the reply is zero.
/// A feature beyond the table changes nothing.
pub proof fn law_set_stores_the_state(w: World, f: HandlerFacts, s: Cpu)
    requires
        ready(w, f, s),
        received(s.mem, f)[1] == abi::KNOCK_MODE,
        abi::has_safe_knock(received(s.mem, f)),
        received(s.mem, f)[4] == abi::Verb::SetState.wire(),
    ensures
        ({
            let cdb = received(s.mem, f);
            let before = table(s.mem, f);
            answers(
                w,
                f,
                s,
                Seq::empty(),
                if cdb[5] < 8 {
                    before.update(cdb[5] as int, cdb[6])
                } else {
                    before
                },
            )
        }),
{
    placement::lemma_laid_out(f);
    lemma_set(w, handler::handler_program(f), f, 45 + placement::debug_len(f), s);
}

/// The path of SET.
proof fn lemma_set(w: World, ops: Seq<AsmOp>, f: HandlerFacts, b: int, s: Cpu)
    requires
        placement::opens(ops, f),
        placement::laid_out(ops, f, b),
        placement::labelled(ops, b),
        ready(w, f, s),
        received(s.mem, f)[1] == abi::KNOCK_MODE,
        abi::has_safe_knock(received(s.mem, f)),
        received(s.mem, f)[4] == 0x02,
    ensures
        ({
            let cdb = received(s.mem, f);
            let before = table(s.mem, f);
            serves(
                w,
                ops,
                f,
                s,
                Seq::empty(),
                Seq::empty(),
                if cdb[5] < 8 {
                    before.update(cdb[5] as int, cdb[6])
                } else {
                    before
                },
            )
        }),
{
    reveal(placement::set_code);
    let cdb = received(s.mem, f);
    let u = lemma_enter(w, ops, f, b, s);
    let t1 = machine::compare(w, ops, b + 4, u, 4, 0x02);
    machine::stay(w, ops, b + 5, t1, handler::NOT_SET);
    let t2 = machine::ldr_lit(w, ops, b + 6, t1, 0, f.flag_base);
    let t3 = machine::ldrb_imm(w, ops, b + 7, t2, 1, 3, 5);
    assert(t3.reg(1) == received(u.mem, f)[5]);
    let t4 = machine::compare(w, ops, b + 8, t3, 1, 8);
    if cdb[5] >= 8 {
        machine::jump(w, ops, b + 9, t4, handler::CLR, b + 95);
        lemma_scratch(w, f, s, u, t4);
        lemma_silent(w, ops, f, b, s, t4, Seq::empty());
    } else {
        machine::stay(w, ops, b + 9, t4, handler::CLR);
        reveal(machine::data_step);
        let t5 = machine::data(w, ops, b + 10, t4, AsmOp::AddsReg(0, 0, 1));
        let t6 = machine::ldrb_imm(w, ops, b + 11, t5, 1, 3, 6);
        assert(t6.reg(1) == received(u.mem, f)[6]);
        let t7 = machine::strb_imm(w, ops, b + 12, t6, 1, 0, 0);
        let a = machine::plus(f.flag_base, cdb[5] as int);
        assert(t7.mem == u.mem.insert(a, cdb[6])) by {
            broadcast use machine::lemma_plus_zero;

            assert(machine::plus(t6.reg(0), 0) == a);
        }
        machine::jump(w, ops, b + 13, t7, handler::CLR, b + 95);
        assert forall|x: u32| !within(x, f.flag_base, 8) implies #[trigger] t7.mem[x]
            == u.mem[x] by {
            assert(x != machine::plus(f.flag_base, cdb[5] as int));
        }
        lemma_flags_changed(w, f, s, u, t7);
        assert forall|k: int| 0 <= k < 8 implies table(t7.mem, f)[k] == table(s.mem, f).update(
            cdb[5] as int,
            cdb[6],
        )[k] by {
            assert(table(u.mem, f)[k] == table(s.mem, f)[k]);
            if k != cdb[5] {
                machine::lemma_plus_differ(f.flag_base, k, cdb[5] as int);
            }
        }
        assert(table(t7.mem, f) =~= table(s.mem, f).update(cdb[5] as int, cdb[6]));
        lemma_silent(w, ops, f, b, s, t7, Seq::empty());
    }
}

/// GET: the reply leads with the flag that was asked for, and the flags are kept. A
/// feature beyond the table is answered with a zero reply.
pub proof fn law_get_replies_with_the_state(w: World, f: HandlerFacts, s: Cpu)
    requires
        ready(w, f, s),
        received(s.mem, f)[1] == abi::KNOCK_MODE,
        abi::has_safe_knock(received(s.mem, f)),
        received(s.mem, f)[4] == abi::Verb::Get.wire(),
    ensures
        ({
            let cdb = received(s.mem, f);
            let flags = table(s.mem, f);
            answers(
                w,
                f,
                s,
                if cdb[5] < 8 {
                    seq![replied(f, 0, flags[cdb[5] as int] as u32)]
                } else {
                    Seq::empty()
                },
                flags,
            )
        }),
{
    placement::lemma_laid_out(f);
    lemma_get(w, handler::handler_program(f), f, 45 + placement::debug_len(f), s);
}

/// A verb other than SET and RESET goes straight to the clearing.
proof fn lemma_no_write(
    w: World,
    ops: Seq<AsmOp>,
    f: HandlerFacts,
    b: int,
    s: Cpu,
    u: Cpu,
) -> (t: Cpu)
    requires
        placement::laid_out(ops, f, b),
        placement::labelled(ops, b),
        framed(w, f, s, u),
        u.reg(4) != 0x02,
        u.reg(4) != 0x04,
    ensures
        goes_on(w, ops, f, b + 4, u, b + 96, t),
        t.mem == u.mem,
        framed(w, f, s, t),
        at_work(w, f, s, u) ==> at_work(w, f, s, t),
        t.reg(4) == u.reg(4),
{
    reveal(placement::set_code);
    reveal(placement::reset_code);
    reveal(placement::clear_code);
    let t1 = machine::compare(w, ops, b + 4, u, 4, 0x02);
    machine::jump(w, ops, b + 5, t1, handler::NOT_SET, b + 14);
    let t2 = machine::compare(w, ops, b + 15, t1, 4, 0x04);
    machine::jump(w, ops, b + 16, t2, handler::NOT_RESET, b + 94);
    machine::pass(w, ops, b + 95, t2, b + 96);
    t2
}

/// The path of GET.
proof fn lemma_get(w: World, ops: Seq<AsmOp>, f: HandlerFacts, b: int, s: Cpu)
    requires
        placement::opens(ops, f),
        placement::laid_out(ops, f, b),
        placement::labelled(ops, b),
        ready(w, f, s),
        received(s.mem, f)[1] == abi::KNOCK_MODE,
        abi::has_safe_knock(received(s.mem, f)),
        received(s.mem, f)[4] == 0x03,
    ensures
        ({
            let cdb = received(s.mem, f);
            let flags = table(s.mem, f);
            serves(
                w,
                ops,
                f,
                s,
                Seq::empty(),
                if cdb[5] < 8 {
                    seq![replied(f, 0, flags[cdb[5] as int] as u32)]
                } else {
                    Seq::empty()
                },
                flags,
            )
        }),
{
    reveal(placement::get_code);
    let cdb = received(s.mem, f);
    let u = lemma_enter(w, ops, f, b, s);
    let v = lemma_no_write(w, ops, f, b, s, u);
    if cdb[5] >= 8 {
        lemma_get_beyond(w, ops, f, b, s, v);
    } else {
        let t1 = lemma_clear(w, ops, f, b, s, v);
        let t2 = lemma_past_flash(w, ops, f, b, s, t1);
        let t3 = machine::compare(w, ops, b + 230, t2, 4, 0x03);
        machine::stay(w, ops, b + 231, t3, handler::NOT_GET);
        let t4 = machine::ldr_lit(w, ops, b + 232, t3, 0, f.flag_base);
        let t5 = machine::ldrb_imm(w, ops, b + 233, t4, 1, 3, 5);
        assert(t5.reg(1) == received(t2.mem, f)[5]);
        let t6 = machine::compare(w, ops, b + 234, t5, 1, 8);
        machine::stay(w, ops, b + 235, t6, handler::NOT_GET);
        reveal(machine::data_step);
        let t7 = machine::data(w, ops, b + 236, t6, AsmOp::AddsReg(0, 0, 1));
        let t8 = machine::ldrb_imm(w, ops, b + 237, t7, 1, 0, 0);
        assert(t8.reg(1) == table(t2.mem, f)[cdb[5] as int]) by {
            broadcast use machine::lemma_plus_zero;

            assert(machine::plus(t7.reg(0), 0) == machine::plus(f.flag_base, cdb[5] as int));
        }
        let t9 = machine::movs_imm(w, ops, b + 238, t8, 0, 0);
        lemma_scratch(w, f, s, t2, t9);
        lemma_writer(w, f, s, t9);
        let t10 = machine::blx(w, ops, b + 239, t9, 7);
        machine::jump(w, ops, b + 240, t10, handler::DOCOMMIT, b + 290);
        let t11 = lemma_finish(w, ops, f, b, s, t10);
        let reply = seq![replied(f, 0, table(s.mem, f)[cdb[5] as int] as u32)];
        assert((s.calls + cleared(f, 0)).push(reply[0]) =~= s.calls + Seq::<Call>::empty()
            + cleared(f, 0) + reply);
    }
}

/// The flash routine keeps the flags.
pub open spec fn flags_kept_by_flash(w: World, f: HandlerFacts) -> bool {
    forall|c: Cpu| #![trigger (w.call)(f.flash_program | 1, c)]
        c.whole() ==> table((w.call)(f.flash_program | 1, c).mem, f) == table(c.mem, f)
}

/// Every flag passes through.
pub open spec fn all_passthrough() -> Seq<u8> {
    Seq::new(8, |k: int| abi::STATE_PASSTHROUGH)
}

/// RESET to what ships or to what was saved: the flags are the shipped ones, UHD and BD on
/// and the rest passthrough, when the command asks for them, and for every other mode but
/// the OEM one what was saved in flash, whatever that is; nothing is called but for the
/// zero reply, so flash stays as it is.
pub proof fn law_reset_refills_the_table(w: World, f: HandlerFacts, s: Cpu)
    requires
        ready(w, f, s),
        received(s.mem, f)[1] == abi::KNOCK_MODE,
        abi::has_safe_knock(received(s.mem, f)),
        received(s.mem, f)[4] == abi::Verb::Reset.wire(),
        received(s.mem, f)[6] != abi::RESET_TO_OEM,
    ensures
        answers(
            w,
            f,
            s,
            Seq::empty(),
            if received(s.mem, f)[6] == abi::RESET_TO_DEFAULTS {
                handler::default_flags()
            } else {
                Seq::new(8, |k: int| s.mem[machine::plus(f.save_home, k)])
            },
        ),
{
    placement::lemma_laid_out(f);
    lemma_reset(w, handler::handler_program(f), f, 45 + placement::debug_len(f), s);
}

/// The path of RESET up to its mode.
proof fn lemma_mode(w: World, ops: Seq<AsmOp>, f: HandlerFacts, b: int, s: Cpu, u: Cpu) -> (t: Cpu)
    requires
        placement::laid_out(ops, f, b),
        placement::labelled(ops, b),
        at_work(w, f, s, u),
        u.reg(4) == 0x04,
    ensures
        goes_on(w, ops, f, b + 4, u, b + 18, t),
        t.mem == u.mem,
        at_work(w, f, s, t),
        t.reg(0) == received(s.mem, f)[6],
        t.reg(4) == 0x04,
{
    reveal(placement::set_code);
    reveal(placement::reset_code);
    let t1 = machine::compare(w, ops, b + 4, u, 4, 0x02);
    machine::jump(w, ops, b + 5, t1, handler::NOT_SET, b + 14);
    let t2 = machine::compare(w, ops, b + 15, t1, 4, 0x04);
    machine::stay(w, ops, b + 16, t2, handler::NOT_RESET);
    let t3 = machine::ldrb_imm(w, ops, b + 17, t2, 0, 3, 6);
    assert(t3.reg(0) == received(u.mem, f)[6]);
    lemma_scratch(w, f, s, u, t3);
    t3
}

/// The path of RESET from its mode to the flags that are copied from flash.
proof fn lemma_reloaded(w: World, ops: Seq<AsmOp>, f: HandlerFacts, b: int, s: Cpu, u: Cpu) -> (t:
    Cpu)
    requires
        placement::laid_out(ops, f, b),
        placement::labelled(ops, b),
        at_work(w, f, s, u),
        u.reg(0) == received(s.mem, f)[6],
        u.reg(0) != abi::RESET_TO_OEM,
        forall|x: u32|
            !within(x, machine::frame_at(s, kept()), 20) ==> #[trigger] u.mem[x] == s.mem[x],
    ensures
        machine::outcome(w, ops, b + 18, u) == machine::outcome(w, ops, b + 78, t),
        t.calls == u.calls,
        at_work(w, f, s, t),
        t.reg(0) == u.reg(0),
        t.reg(4) == u.reg(4),
        table(t.mem, f) == Seq::new(8, |k: int| s.mem[machine::plus(f.save_home, k)]),
{
    reveal(placement::reset_code);
    let t4 = machine::compare(w, ops, b + 18, u, 0, abi::RESET_TO_OEM);
    machine::jump(w, ops, b + 19, t4, handler::RESET_FLASH, b + 59);
    let t5 = machine::ldr_lit(w, ops, b + 60, t4, 6, f.flag_base);
    let t6 = machine::ldr_lit(w, ops, b + 61, t5, 2, f.save_home);
    assert forall|k: int| 0 <= k < 8 implies #[trigger] ops[b + 62 + 2 * k] == AsmOp::LdrbImm(
        1,
        2,
        k as u16,
    ) by {
        assert(ops[b + 15 + 43 + 4 + 2 * k] == AsmOp::LdrbImm(1, 2, k as u16));
    }
    assert forall|k: int| 0 <= k < 8 implies #[trigger] ops[b + 62 + 2 * k + 1] == AsmOp::StrbImm(
        1,
        6,
        k as u16,
    ) by {
        assert(ops[b + 15 + 43 + 4 + 2 * k + 1] == AsmOp::StrbImm(1, 6, k as u16));
    }
    let t7 = lemma_copy(w, ops, b + 62, t6, 2, 6, 8);
    assert forall|k: int| 0 <= k < 8 implies t6.mem[#[trigger] machine::plus(f.save_home, k)]
        == s.mem[machine::plus(f.save_home, k)] by {
        assert(!within(machine::plus(f.save_home, k), machine::frame_at(s, kept()), 20));
    }
    lemma_flags_changed(w, f, s, u, t7);
    assert(table(t7.mem, f) =~= Seq::new(8, |k: int| s.mem[machine::plus(f.save_home, k)]));
    t7
}

/// The path of RESET that lays the shipped flags over the table.
proof fn lemma_shipped(w: World, ops: Seq<AsmOp>, f: HandlerFacts, b: int, s: Cpu, u: Cpu) -> (t:
    Cpu)
    requires
        placement::laid_out(ops, f, b),
        placement::labelled(ops, b),
        at_work(w, f, s, u),
    ensures
        machine::outcome(w, ops, b + 80, u) == machine::outcome(w, ops, b + 96, t),
        t.calls == u.calls,
        at_work(w, f, s, t),
        t.reg(4) == u.reg(4),
        table(t.mem, f) == handler::default_flags(),
{
    reveal(placement::reset_code);
    let t1 = machine::ldr_lit(w, ops, b + 80, u, 0, f.flag_base);
    let t2 = machine::movs_imm(w, ops, b + 81, t1, 1, abi::STATE_PASSTHROUGH);
    assert forall|k: int| 0 <= k < 8 implies #[trigger] ops[b + 82 + k] == AsmOp::StrbImm(
        1,
        0,
        k as u16,
    ) by {
        assert(ops[b + 15 + 43 + 24 + k] == AsmOp::StrbImm(1, 0, k as u16));
    }
    let t3 = lemma_fill(w, ops, b + 82, t2, 8);
    let t4 = machine::movs_imm(w, ops, b + 90, t3, 1, abi::STATE_ON);
    let t5 = machine::strb_imm(w, ops, b + 91, t4, 1, 0, 3);
    let t6 = machine::strb_imm(w, ops, b + 92, t5, 1, 0, 4);
    machine::jump(w, ops, b + 93, t6, handler::CLR, b + 95);
    assert forall|x: u32| !within(x, f.flag_base, 8) implies #[trigger] t6.mem[x] == u.mem[x] by {
        assert(x != machine::plus(f.flag_base, 3));
        assert(x != machine::plus(f.flag_base, 4));
    }
    lemma_flags_changed(w, f, s, u, t6);
    assert forall|k: int| 0 <= k < 8 implies table(t6.mem, f)[k] == handler::default_flags()[k] by {
        assert(t3.mem[machine::plus(f.flag_base, k)] == abi::STATE_PASSTHROUGH);
        if k != 3 {
            machine::lemma_plus_differ(f.flag_base, k, 3);
        }
        if k != 4 {
            machine::lemma_plus_differ(f.flag_base, k, 4);
        }
    }
    assert(table(t6.mem, f) =~= handler::default_flags());
    t6
}

/// The path of RESET to what ships or to what was saved.
proof fn lemma_reset(w: World, ops: Seq<AsmOp>, f: HandlerFacts, b: int, s: Cpu)
    requires
        placement::opens(ops, f),
        placement::laid_out(ops, f, b),
        placement::labelled(ops, b),
        ready(w, f, s),
        received(s.mem, f)[1] == abi::KNOCK_MODE,
        abi::has_safe_knock(received(s.mem, f)),
        received(s.mem, f)[4] == 0x04,
        received(s.mem, f)[6] != abi::RESET_TO_OEM,
    ensures
        serves(
            w,
            ops,
            f,
            s,
            Seq::empty(),
            Seq::empty(),
            if received(s.mem, f)[6] == abi::RESET_TO_DEFAULTS {
                handler::default_flags()
            } else {
                Seq::new(8, |k: int| s.mem[machine::plus(f.save_home, k)])
            },
        ),
{
    let u = lemma_enter(w, ops, f, b, s);
    let t1 = lemma_mode(w, ops, f, b, s, u);
    let t2 = lemma_reloaded(w, ops, f, b, s, t1);
    assert(ops[b + 78] == AsmOp::Compare(0, abi::RESET_TO_DEFAULTS) && ops[b + 79] == AsmOp::Bne(
        handler::CLR,
    )) by {
        reveal(placement::reset_code);
    }
    let t3 = machine::compare(w, ops, b + 78, t2, 0, abi::RESET_TO_DEFAULTS);
    lemma_scratch(w, f, s, t2, t3);
    if received(s.mem, f)[6] == abi::RESET_TO_DEFAULTS {
        machine::stay(w, ops, b + 79, t3, handler::CLR);
        let t4 = lemma_shipped(w, ops, f, b, s, t3);
        lemma_silent(w, ops, f, b, s, t4, Seq::empty());
    } else {
        machine::jump(w, ops, b + 79, t3, handler::CLR, b + 95);
        lemma_silent(w, ops, f, b, s, t3, Seq::empty());
    }
}

/// A verb that the handler does not serve under the everyday knock, be it unknown or one of
/// the debug verbs, is answered with a zero reply and changes nothing.
pub proof fn law_unknown_verb_is_answered_with_zeros(w: World, f: HandlerFacts, s: Cpu)
    requires
        ready(w, f, s),
        received(s.mem, f)[1] == abi::KNOCK_MODE,
        abi::has_safe_knock(received(s.mem, f)),
        ({
            let verb = received(s.mem, f)[4];
            verb != 0x01 && verb != 0x02 && verb != 0x03 && verb != 0x04 && verb != 0x09 && verb
                != 0x0A && verb != 0x0B
        }),
    ensures
        answers(w, f, s, Seq::empty(), table(s.mem, f)),
{
    let ops = handler::handler_program(f);
    let b = 45 + placement::debug_len(f);
    placement::lemma_laid_out(f);
    lemma_unknown(w, ops, f, b, s);
}

/// The path of an unknown verb.
proof fn lemma_unknown(w: World, ops: Seq<AsmOp>, f: HandlerFacts, b: int, s: Cpu)
    requires
        placement::opens(ops, f),
        placement::laid_out(ops, f, b),
        placement::labelled(ops, b),
        ready(w, f, s),
        received(s.mem, f)[1] == abi::KNOCK_MODE,
        abi::has_safe_knock(received(s.mem, f)),
        ({
            let verb = received(s.mem, f)[4];
            verb != 0x01 && verb != 0x02 && verb != 0x03 && verb != 0x04 && verb != 0x09 && verb
                != 0x0A && verb != 0x0B
        }),
    ensures
        serves(w, ops, f, s, Seq::empty(), Seq::empty(), table(s.mem, f)),
{
    let u = lemma_enter(w, ops, f, b, s);
    let v = lemma_no_write(w, ops, f, b, s, u);
    lemma_silent(w, ops, f, b, s, v, Seq::empty());
}

/// The calls that put the identity text into the reply, from its byte `n` on.
pub open spec fn text_replied(f: HandlerFacts, n: int) -> Seq<Call> {
    Seq::new(
        (13 - n) as nat,
        |k: int| replied(f, (n + k) as u32, handler::IDENTITY@[n + k] as u32),
    )
}

/// The calls that put the flags behind the text, from flag `n` on.
pub open spec fn flags_replied(f: HandlerFacts, flags: Seq<u8>, n: int) -> Seq<Call> {
    Seq::new((8 - n) as nat, |k: int| replied(f, (12 + n + k) as u32, flags[n + k] as u32))
}

/// The loop over the identity text, from its test on.
#[verifier::spinoff_prover]
#[verifier::rlimit(60)]
proof fn lemma_text_loop(
    w: World,
    ops: Seq<AsmOp>,
    f: HandlerFacts,
    b: int,
    s: Cpu,
    u: Cpu,
    n: int,
) -> (t: Cpu)
    requires
        placement::laid_out(ops, f, b),
        placement::labelled(ops, b),
        at_work(w, f, s, u),
        text(w, s.mem, f) == handler::IDENTITY@,
        0 <= n <= 13,
        u.reg(5) == n,
        u.reg(6) == text_at(w, f),
    ensures
        machine::outcome(w, ops, b + 270, u) == machine::outcome(w, ops, b + 278, t),
        at_work(w, f, s, t),
        t.calls == u.calls + text_replied(f, n),
        table(t.mem, f) == table(u.mem, f),
    decreases 13 - n,
{
    reveal(placement::identity_code);
    let t1 = machine::compare(w, ops, b + 270, u, 5, handler::ID_LEN);
    if n == 13 {
        machine::jump(w, ops, b + 271, t1, handler::ID_DONE, b + 277);
        lemma_scratch(w, f, s, u, t1);
        assert(t1.calls =~= u.calls + text_replied(f, 13));
        t1
    } else {
        machine::stay(w, ops, b + 271, t1, handler::ID_DONE);
        reveal(machine::data_step);
        let t2 = machine::data(w, ops, b + 272, t1, AsmOp::MovReg(0, 5));
        let t3 = machine::data(w, ops, b + 273, t2, AsmOp::LdrbReg(1, 6, 5));
        assert(t3.reg(1) == text(w, u.mem, f)[n]);
        lemma_scratch(w, f, s, u, t3);
        lemma_writer(w, f, s, t3);
        let t4 = machine::blx(w, ops, b + 274, t3, 7);
        let t5 = machine::data(w, ops, b + 275, t4, AsmOp::AddsImm(5, 1));
        assert(t5.reg(5) == n + 1) by {
            reveal(machine::plus);
        }
        lemma_scratch(w, f, s, t4, t5);
        machine::jump(w, ops, b + 276, t5, handler::ID_LOOP, b + 269);
        let t = lemma_text_loop(w, ops, f, b, s, t5, n + 1);
        assert(u.calls.push(replied(f, n as u32, handler::IDENTITY@[n] as u32)) + text_replied(
            f,
            n + 1,
        ) =~= u.calls + text_replied(f, n));
        t
    }
}

/// The loop over the flags, from its test on.
#[verifier::spinoff_prover]
#[verifier::rlimit(60)]
proof fn lemma_flags_loop(
    w: World,
    ops: Seq<AsmOp>,
    f: HandlerFacts,
    b: int,
    s: Cpu,
    u: Cpu,
    n: int,
) -> (t: Cpu)
    requires
        placement::laid_out(ops, f, b),
        placement::labelled(ops, b),
        at_work(w, f, s, u),
        1 <= n <= 8,
        u.reg(2) == n,
        u.reg(5) == 12 + n,
        u.reg(6) == f.flag_base,
    ensures
        machine::outcome(w, ops, b + 282, u) == machine::outcome(w, ops, b + 291, t),
        at_work(w, f, s, t),
        t.calls == u.calls + flags_replied(f, table(u.mem, f), n),
        table(t.mem, f) == table(u.mem, f),
    decreases 8 - n,
{
    reveal(placement::identity_code);
    let flags = table(u.mem, f);
    let t1 = machine::compare(w, ops, b + 282, u, 2, 8);
    if n == 8 {
        machine::jump(w, ops, b + 283, t1, handler::DOCOMMIT, b + 290);
        lemma_scratch(w, f, s, u, t1);
        assert(t1.calls =~= u.calls + flags_replied(f, flags, 8));
        t1
    } else {
        machine::stay(w, ops, b + 283, t1, handler::DOCOMMIT);
        reveal(machine::data_step);
        let t2 = machine::data(w, ops, b + 284, t1, AsmOp::LdrbReg(1, 6, 2));
        assert(t2.reg(1) == flags[n]);
        let t3 = machine::data(w, ops, b + 285, t2, AsmOp::MovReg(0, 5));
        lemma_scratch(w, f, s, u, t3);
        lemma_writer(w, f, s, t3);
        let t4 = machine::blx(w, ops, b + 286, t3, 7);
        let t5 = machine::data(w, ops, b + 287, t4, AsmOp::AddsImm(5, 1));
        let t6 = machine::data(w, ops, b + 288, t5, AsmOp::AddsImm(2, 1));
        assert(t6.reg(5) == 13 + n && t6.reg(2) == n + 1) by {
            reveal(machine::plus);
        }
        lemma_scratch(w, f, s, t4, t6);
        machine::jump(w, ops, b + 289, t6, handler::TBL_LOOP, b + 281);
        let t = lemma_flags_loop(w, ops, f, b, s, t6, n + 1);
        assert(u.calls.push(replied(f, (12 + n) as u32, flags[n] as u32)) + flags_replied(
            f,
            flags,
            n + 1,
        ) =~= u.calls + flags_replied(f, flags, n));
        t
    }
}

/// The path of IDENTITY.
proof fn lemma_identity(w: World, ops: Seq<AsmOp>, f: HandlerFacts, b: int, s: Cpu)
    requires
        placement::opens(ops, f),
        placement::laid_out(ops, f, b),
        placement::labelled(ops, b),
        ready(w, f, s),
        received(s.mem, f)[1] == abi::KNOCK_MODE,
        abi::has_safe_knock(received(s.mem, f)),
        received(s.mem, f)[4] == 0x01,
        text(w, s.mem, f) == handler::IDENTITY@,
        text_at(w, f) == (w.data)(ops[b + 267]->Adr_1),
    ensures
        serves(
            w,
            ops,
            f,
            s,
            Seq::empty(),
            text_replied(f, 0) + flags_replied(f, table(s.mem, f), 1),
            table(s.mem, f),
        ),
{
    reveal(placement::get_code);
    reveal(placement::dump_code);
    reveal(placement::identity_code);
    let u = lemma_enter(w, ops, f, b, s);
    let v = lemma_no_write(w, ops, f, b, s, u);
    let t1 = lemma_clear(w, ops, f, b, s, v);
    let t2 = lemma_past_flash(w, ops, f, b, s, t1);
    let t3 = machine::compare(w, ops, b + 230, t2, 4, 0x03);
    machine::jump(w, ops, b + 231, t3, handler::NOT_GET, b + 241);
    let t4 = machine::compare(w, ops, b + 242, t3, 4, 0x09);
    machine::jump(w, ops, b + 243, t4, handler::NOT_DUMP, b + 263);
    let t5 = machine::compare(w, ops, b + 264, t4, 4, 0x01);
    machine::stay(w, ops, b + 265, t5, handler::DOCOMMIT);
    machine::pass(w, ops, b + 266, t5, b + 267);
    let t6 = machine::adr(w, ops, b + 267, t5, 6, ops[b + 267]->Adr_1);
    let t7 = machine::movs_imm(w, ops, b + 268, t6, 5, 0);
    machine::pass(w, ops, b + 269, t7, b + 270);
    lemma_scratch(w, f, s, t2, t7);
    let t8 = lemma_text_loop(w, ops, f, b, s, t7, 0);
    let t9 = machine::ldr_lit(w, ops, b + 278, t8, 6, f.flag_base);
    let t10 = machine::movs_imm(w, ops, b + 279, t9, 5, handler::ID_LEN);
    let t11 = machine::movs_imm(w, ops, b + 280, t10, 2, 1);
    machine::pass(w, ops, b + 281, t11, b + 282);
    lemma_scratch(w, f, s, t8, t11);
    let t12 = lemma_flags_loop(w, ops, f, b, s, t11, 1);
    lemma_finish(w, ops, f, b, s, t12);
    let flags = flags_replied(f, table(s.mem, f), 1);
    assert(s.calls + cleared(f, 0) + text_replied(f, 0) + flags =~= s.calls + Seq::<Call>::empty()
        + cleared(f, 0) + (text_replied(f, 0) + flags));
}

/// IDENTITY: the reply leads with the identity text, which leads with the magic that hosts
/// look for, and goes on with the seven feature flags; the flags are kept.
pub proof fn law_identity_replies_with_text_and_flags(w: World, f: HandlerFacts, s: Cpu)
    requires
        ready(w, f, s),
        received(s.mem, f)[1] == abi::KNOCK_MODE,
        abi::has_safe_knock(received(s.mem, f)),
        received(s.mem, f)[4] == abi::Verb::Identity.wire(),
        text(w, s.mem, f) == handler::IDENTITY@,
    ensures
        answers(
            w,
            f,
            s,
            text_replied(f, 0) + flags_replied(f, table(s.mem, f), 1),
            table(s.mem, f),
        ),
        abi::leads_with_magic(handler::IDENTITY@),
{
    placement::lemma_laid_out(f);
    lemma_identity(w, handler::handler_program(f), f, 45 + placement::debug_len(f), s);
    assert(handler::IDENTITY@.subrange(0, 7) =~= abi::RESP_MAGIC@);
}

/// What SET stored is what GET gives back, as long as the flags are left alone in between.
pub proof fn law_get_gives_back_what_set_stored(
    w: World,
    f: HandlerFacts,
    s: Cpu,
    t: Cpu,
    feature: abi::Feature,
    state: u8,
    n: u16,
    m: u16,
)
    requires
        ready(w, f, s),
        ready(w, f, t),
        received(s.mem, f) == abi::safe_frame(abi::Verb::SetState, Some(feature), Some(state), n),
        received(t.mem, f) == abi::safe_frame(abi::Verb::Get, Some(feature), None, m),
        machine::outcome(w, handler::handler_program(f), 0, s) matches Some((_, after)) ==> table(
            t.mem,
            f,
        ) == table(after.mem, f),
    ensures
        answers(w, f, t, seq![replied(f, 0, state as u32)], table(t.mem, f)),
{
    law_set_stores_the_state(w, f, s);
    law_get_replies_with_the_state(w, f, t);
}

/// Byte `q` of `v`, most significant first.
pub open spec fn be_byte(v: u32, q: int) -> u32 {
    if q == 0 {
        v / 16777216
    } else if q == 1 {
        v / 65536 % 256
    } else if q == 2 {
        v / 256 % 256
    } else {
        v % 256
    }
}

/// The calls that put `v` into the reply from `at` on, most significant byte first.
pub open spec fn word_replied(f: HandlerFacts, at: int, v: u32) -> Seq<Call> {
    Seq::new(4, |q: int| replied(f, (at + q) as u32, be_byte(v, q)))
}

/// The instructions that put `src` into the reply from `at` on.
spec fn word_code(ops: Seq<AsmOp>, i: int, src: u16, at: u8) -> bool {
    &&& ops[i] == AsmOp::LsrsImm(5, src, 24)
    &&& ops[i + 1] == AsmOp::MovsImm(0, at)
    &&& ops[i + 2] == AsmOp::MovReg(1, 5)
    &&& ops[i + 3] == AsmOp::Blx(7)
    &&& ops[i + 4] == AsmOp::LslsImm(5, src, 8)
    &&& ops[i + 5] == AsmOp::LsrsImm(5, 5, 24)
    &&& ops[i + 6] == AsmOp::MovsImm(0, (at + 1) as u8)
    &&& ops[i + 7] == AsmOp::MovReg(1, 5)
    &&& ops[i + 8] == AsmOp::Blx(7)
    &&& ops[i + 9] == AsmOp::LslsImm(5, src, 16)
    &&& ops[i + 10] == AsmOp::LsrsImm(5, 5, 24)
    &&& ops[i + 11] == AsmOp::MovsImm(0, (at + 2) as u8)
    &&& ops[i + 12] == AsmOp::MovReg(1, 5)
    &&& ops[i + 13] == AsmOp::Blx(7)
    &&& ops[i + 14] == AsmOp::LslsImm(5, src, 24)
    &&& ops[i + 15] == AsmOp::LsrsImm(5, 5, 24)
    &&& ops[i + 16] == AsmOp::MovsImm(0, (at + 3) as u8)
    &&& ops[i + 17] == AsmOp::MovReg(1, 5)
    &&& ops[i + 18] == AsmOp::Blx(7)
}

/// A word is put into the reply.
#[verifier::rlimit(50)]
proof fn lemma_word(
    w: World,
    ops: Seq<AsmOp>,
    f: HandlerFacts,
    s: Cpu,
    u: Cpu,
    i: int,
    src: u16,
    at: u8,
) -> (t: Cpu)
    requires
        0 <= i,
        i + 19 <= ops.len(),
        word_code(ops, i, src, at),
        framed(w, f, s, u),
        src == 4 || src == 6,
        at <= 252,
    ensures
        machine::outcome(w, ops, i, u) == machine::outcome(w, ops, i + 19, t),
        framed(w, f, s, t),
        at_work(w, f, s, u) ==> at_work(w, f, s, t),
        t.reg(4) == u.reg(4),
        t.reg(6) == u.reg(6),
        t.calls == u.calls + word_replied(f, at as int, u.reg(src)),
        table(t.mem, f) == table(u.mem, f),
{
    let v = u.reg(src);
    assert(v >> 24u16 == v / 16777216) by (bit_vector);
    assert((v << 8u16) >> 24u16 == v / 65536 % 256) by (bit_vector);
    assert((v << 16u16) >> 24u16 == v / 256 % 256) by (bit_vector);
    assert((v << 24u16) >> 24u16 == v % 256) by (bit_vector);
    reveal(machine::data_step);
    let t1 = machine::data(w, ops, i, u, AsmOp::LsrsImm(5, src, 24));
    let t2 = machine::movs_imm(w, ops, i + 1, t1, 0, at);
    let t3 = machine::data(w, ops, i + 2, t2, AsmOp::MovReg(1, 5));
    assert(t3.reg(1) == be_byte(v, 0));
    lemma_scratch(w, f, s, u, t3);
    lemma_writer(w, f, s, t3);
    let t4 = machine::blx(w, ops, i + 3, t3, 7);
    let t5 = machine::data(w, ops, i + 4, t4, AsmOp::LslsImm(5, src, 8));
    let t6 = machine::data(w, ops, i + 5, t5, AsmOp::LsrsImm(5, 5, 24));
    let t7 = machine::movs_imm(w, ops, i + 6, t6, 0, (at + 1) as u8);
    let t8 = machine::data(w, ops, i + 7, t7, AsmOp::MovReg(1, 5));
    assert(t8.reg(1) == be_byte(v, 1));
    lemma_scratch(w, f, s, t4, t8);
    lemma_writer(w, f, s, t8);
    let t9 = machine::blx(w, ops, i + 8, t8, 7);
    let t10 = machine::data(w, ops, i + 9, t9, AsmOp::LslsImm(5, src, 16));
    let t11 = machine::data(w, ops, i + 10, t10, AsmOp::LsrsImm(5, 5, 24));
    let t12 = machine::movs_imm(w, ops, i + 11, t11, 0, (at + 2) as u8);
    let t13 = machine::data(w, ops, i + 12, t12, AsmOp::MovReg(1, 5));
    assert(t13.reg(1) == be_byte(v, 2));
    lemma_scratch(w, f, s, t9, t13);
    lemma_writer(w, f, s, t13);
    let t14 = machine::blx(w, ops, i + 13, t13, 7);
    let t15 = machine::data(w, ops, i + 14, t14, AsmOp::LslsImm(5, src, 24));
    let t16 = machine::data(w, ops, i + 15, t15, AsmOp::LsrsImm(5, 5, 24));
    let t17 = machine::movs_imm(w, ops, i + 16, t16, 0, (at + 3) as u8);
    let t18 = machine::data(w, ops, i + 17, t17, AsmOp::MovReg(1, 5));
    assert(t18.reg(1) == be_byte(v, 3));
    lemma_scratch(w, f, s, t14, t18);
    lemma_writer(w, f, s, t18);
    let t19 = machine::blx(w, ops, i + 18, t18, 7);
    assert(t19.calls =~= u.calls + word_replied(f, at as int, v));
    t19
}

/// A byte shifted in.
proof fn lemma_shifted(v: u32, d: u32)
    ensures
        v < 0x100_0000 && d < 256 ==> machine::plus(v << 8u16, d as int) == 256 * v + d,
{
    if v < 0x100_0000 && d < 256 {
        assert(v << 8u16 == mul_256(v)) by (bit_vector)
            requires
                v < 0x100_0000,
        ;
        reveal(machine::plus);
    }
}

/// `256 * v`.
spec fn mul_256(v: u32) -> u32 {
    (256 * v) as u32
}

/// The write probe's staging byte.
pub open spec fn scratch_at(f: HandlerFacts) -> u32 {
    (f.flag_base + handler::FLASHWRITE_SCRATCH_OFF) as u32
}

/// The instructions that take the address of a command.
spec fn address_code(ops: Seq<AsmOp>, i: int) -> bool {
    &&& ops[i] == AsmOp::LdrbImm(6, 3, 5)
    &&& ops[i + 1] == AsmOp::LslsImm(6, 6, 8)
    &&& ops[i + 2] == AsmOp::LdrbImm(0, 3, 6)
    &&& ops[i + 3] == AsmOp::AddsReg(6, 6, 0)
    &&& ops[i + 4] == AsmOp::LslsImm(6, 6, 8)
    &&& ops[i + 5] == AsmOp::LdrbImm(0, 3, 7)
    &&& ops[i + 6] == AsmOp::AddsReg(6, 6, 0)
    &&& ops[i + 7] == AsmOp::LslsImm(6, 6, 8)
    &&& ops[i + 8] == AsmOp::LdrbImm(0, 3, 8)
    &&& ops[i + 9] == AsmOp::AddsReg(6, 6, 0)
}

/// The address that a command carries.
pub open spec fn address(cdb: Seq<u8>) -> int {
    16777216 * cdb[5] + 65536 * cdb[6] + 256 * cdb[7] + cdb[8]
}

/// The address of a command is taken into `r6`.
#[verifier::rlimit(50)]
proof fn lemma_address(
    w: World,
    ops: Seq<AsmOp>,
    f: HandlerFacts,
    s: Cpu,
    u: Cpu,
    i: int,
    off: u32,
) -> (t: Cpu)
    requires
        0 <= i,
        i + 10 <= ops.len(),
        address_code(ops, i),
        at_work(w, f, s, u),
        address(received(s.mem, f)) == off,
    ensures
        machine::outcome(w, ops, i, u) == machine::outcome(w, ops, i + 10, t),
        at_work(w, f, s, t),
        t.mem == u.mem,
        t.calls == u.calls,
        t.reg(6) == off,
        t.reg(4) == u.reg(4),
{
    reveal(machine::data_step);
    let t1 = machine::ldrb_imm(w, ops, i, u, 6, 3, 5);
    assert(t1.reg(6) == received(u.mem, f)[5]);
    let t2 = machine::data(w, ops, i + 1, t1, AsmOp::LslsImm(6, 6, 8));
    let t3 = machine::ldrb_imm(w, ops, i + 2, t2, 0, 3, 6);
    assert(t3.reg(0) == received(u.mem, f)[6]);
    lemma_shifted(t1.reg(6), t3.reg(0));
    let t4 = machine::data(w, ops, i + 3, t3, AsmOp::AddsReg(6, 6, 0));
    let t5 = machine::data(w, ops, i + 4, t4, AsmOp::LslsImm(6, 6, 8));
    let t6 = machine::ldrb_imm(w, ops, i + 5, t5, 0, 3, 7);
    assert(t6.reg(0) == received(u.mem, f)[7]);
    lemma_shifted(t4.reg(6), t6.reg(0));
    let t7 = machine::data(w, ops, i + 6, t6, AsmOp::AddsReg(6, 6, 0));
    let t8 = machine::data(w, ops, i + 7, t7, AsmOp::LslsImm(6, 6, 8));
    let t9 = machine::ldrb_imm(w, ops, i + 8, t8, 0, 3, 8);
    assert(t9.reg(0) == received(u.mem, f)[8]);
    lemma_shifted(t7.reg(6), t9.reg(0));
    let t10 = machine::data(w, ops, i + 9, t9, AsmOp::AddsReg(6, 6, 0));
    lemma_scratch(w, f, s, u, t10);
    t10
}

/// The path of FLASHWRITE from the clearing on, up to the test of its window.
proof fn lemma_staging(
    w: World,
    ops: Seq<AsmOp>,
    f: HandlerFacts,
    b: int,
    s: Cpu,
    u: Cpu,
    off: u32,
    val: u8,
) -> (t: Cpu)
    requires
        placement::laid_out(ops, f, b),
        at_work(w, f, s, u),
        u.reg(4) == 0x0A,
        received(s.mem, f) == abi::addressed_frame(false, abi::Verb::FlashWrite, off, val),
        scratch_free(w, f, s),
    ensures
        machine::outcome(w, ops, b + 106, u) == machine::outcome(w, ops, b + 121, t),
        at_work(w, f, s, t),
        t.reg(6) == off,
        t.calls == u.calls,
        t.byte(scratch_at(f)) == val,
        table(t.mem, f) == table(u.mem, f),
{
    broadcast use machine::lemma_plus_zero;

    reveal(placement::flashwrite_code);
    let t0 = machine::compare(w, ops, b + 106, u, 4, 0x0A);
    machine::stay(w, ops, b + 107, t0, handler::NOT_FLASH);
    lemma_scratch(w, f, s, u, t0);
    assert(address_code(ops, b + 108));
    let t11 = lemma_address(w, ops, f, s, t0, b + 108, off);
    let t12 = machine::ldrb_imm(w, ops, b + 118, t11, 0, 3, 9);
    assert(t12.reg(0) == received(t11.mem, f)[9]);
    let t13 = machine::ldr_lit(w, ops, b + 119, t12, 1, scratch_at(f));
    let t14 = machine::strb_imm(w, ops, b + 120, t13, 0, 1, 0);
    lemma_scratch(w, f, s, t11, t13);
    lemma_staged(w, f, s, t13, t14);
    t14
}

/// The path of a refused FLASHWRITE, from the test of its window on.
proof fn lemma_refused(
    w: World,
    ops: Seq<AsmOp>,
    f: HandlerFacts,
    b: int,
    s: Cpu,
    u: Cpu,
) -> (t: Cpu)
    requires
        placement::laid_out(ops, f, b),
        placement::labelled(ops, b),
        framed(w, f, s, u),
        !(handler::FLASHWRITE_ALLOW_LO <= u.reg(6) < handler::FLASHWRITE_ALLOW_HI),
    ensures
        goes_on(w, ops, f, b + 121, u, b + 138, t),
        framed(w, f, s, t),
        t.reg(4) == handler::FLASHWRITE_REFUSE_STATUS,
        t.reg(6) == u.reg(6),
{
    reveal(placement::flashwrite_code);
    let t15 = machine::ldr_lit(w, ops, b + 121, u, 0, handler::FLASHWRITE_ALLOW_LO);
    let t16 = machine::compare_reg(w, ops, b + 122, t15, 6, 0);
    if u.reg(6) < handler::FLASHWRITE_ALLOW_LO {
        machine::jump(w, ops, b + 123, t16, handler::FLASH_REFUSE, b + 135);
        let t17 = machine::ldr_lit(w, ops, b + 136, t16, 4, handler::FLASHWRITE_REFUSE_STATUS);
        machine::pass(w, ops, b + 137, t17, b + 138);
        lemma_scratch(w, f, s, u, t17);
        t17
    } else {
        machine::stay(w, ops, b + 123, t16, handler::FLASH_REFUSE);
        let t17 = machine::ldr_lit(w, ops, b + 124, t16, 0, handler::FLASHWRITE_ALLOW_HI);
        let t18 = machine::compare_reg(w, ops, b + 125, t17, 6, 0);
        machine::jump(w, ops, b + 126, t18, handler::FLASH_REFUSE, b + 135);
        let t19 = machine::ldr_lit(w, ops, b + 136, t18, 4, handler::FLASHWRITE_REFUSE_STATUS);
        machine::pass(w, ops, b + 137, t19, b + 138);
        lemma_scratch(w, f, s, u, t19);
        t19
    }
}

/// The path of a FLASHWRITE that is let through, from the test of its window up to the call
/// of the flash routine.
proof fn lemma_let_through(
    w: World,
    ops: Seq<AsmOp>,
    f: HandlerFacts,
    b: int,
    s: Cpu,
    u: Cpu,
) -> (c: Cpu)
    requires
        placement::laid_out(ops, f, b),
        placement::labelled(ops, b),
        framed(w, f, s, u),
        handler::FLASHWRITE_ALLOW_LO <= u.reg(6) < handler::FLASHWRITE_ALLOW_HI,
    ensures
        goes_on(w, ops, f, b + 121, u, b + 132, c),
        framed(w, f, s, c),
        c.mem == u.mem,
        c.reg(0) == scratch_at(f),
        c.reg(1) == u.reg(6),
        c.reg(2) == 1,
        c.reg(3) == 1,
        c.reg(5) == f.flash_program | 1,
        c.reg(6) == u.reg(6),
{
    reveal(placement::flashwrite_code);
    let t1 = machine::ldr_lit(w, ops, b + 121, u, 0, handler::FLASHWRITE_ALLOW_LO);
    let t2 = machine::compare_reg(w, ops, b + 122, t1, 6, 0);
    machine::stay(w, ops, b + 123, t2, handler::FLASH_REFUSE);
    let t3 = machine::ldr_lit(w, ops, b + 124, t2, 0, handler::FLASHWRITE_ALLOW_HI);
    let t4 = machine::compare_reg(w, ops, b + 125, t3, 6, 0);
    machine::stay(w, ops, b + 126, t4, handler::FLASH_REFUSE);
    let t5 = machine::ldr_lit(w, ops, b + 127, t4, 0, scratch_at(f));
    reveal(machine::data_step);
    let t6 = machine::data(w, ops, b + 128, t5, AsmOp::MovReg(1, 6));
    let t7 = machine::movs_imm(w, ops, b + 129, t6, 2, 1);
    let t8 = machine::movs_imm(w, ops, b + 130, t7, 3, 1);
    let t9 = machine::ldr_lit(w, ops, b + 131, t8, 5, f.flash_program | 1);
    lemma_scratch(w, f, s, u, t9);
    t9
}

/// The staging byte is apart from all that the handler works with.
pub open spec fn scratch_free(w: World, f: HandlerFacts, s: Cpu) -> bool {
    &&& apart(scratch_at(f), 1, machine::frame_at(s, kept()), 20)
    &&& apart(scratch_at(f), 1, f.cdb, 10)
    &&& apart(scratch_at(f), 1, f.flag_base, 8)
    &&& apart(scratch_at(f), 1, text_at(w, f), 13)
}

/// Staging a byte leaves the handler at work.
proof fn lemma_staged(w: World, f: HandlerFacts, s: Cpu, u: Cpu, t: Cpu)
    requires
        at_work(w, f, s, u),
        scratch_free(w, f, s),
        t.regs == u.regs,
        exists|v: u8| t.mem == u.mem.insert(scratch_at(f), v),
    ensures
        at_work(w, f, s, t),
        table(t.mem, f) == table(u.mem, f),
{
    let sp = machine::frame_at(s, kept());
    let a = machine::plus(scratch_at(f), 0);
    machine::lemma_plus_zero(scratch_at(f));
    assert forall|k: int| 0 <= k < 20 implies t.mem[#[trigger] machine::plus(sp, k)]
        == u.mem[machine::plus(sp, k)] by {
        assert(machine::plus(sp, k) != a);
    }
    assert forall|k: int| 0 <= k < 10 implies t.mem[#[trigger] machine::plus(f.cdb, k)]
        == u.mem[machine::plus(f.cdb, k)] by {
        assert(machine::plus(f.cdb, k) != a);
    }
    assert forall|k: int| 0 <= k < 8 implies t.mem[#[trigger] machine::plus(f.flag_base, k)]
        == u.mem[machine::plus(f.flag_base, k)] by {
        assert(machine::plus(f.flag_base, k) != a);
    }
    assert forall|k: int| 0 <= k < 13 implies t.mem[#[trigger] machine::plus(text_at(w, f), k)]
        == u.mem[machine::plus(text_at(w, f), k)] by {
        assert(machine::plus(text_at(w, f), k) != a);
    }
    assert(received(t.mem, f) =~= received(u.mem, f));
    assert(text(w, t.mem, f) =~= text(w, u.mem, f));
    assert(table(t.mem, f) =~= table(u.mem, f));
}

/// The path of a refused FLASHWRITE.
proof fn lemma_flashwrite_refused(
    w: World,
    ops: Seq<AsmOp>,
    f: HandlerFacts,
    b: int,
    s: Cpu,
    off: u32,
    val: u8,
)
    requires
        placement::opens(ops, f),
        placement::laid_out(ops, f, b),
        placement::labelled(ops, b),
        ready(w, f, s),
        received(s.mem, f) == abi::addressed_frame(false, abi::Verb::FlashWrite, off, val),
        !(handler::FLASHWRITE_ALLOW_LO <= off < handler::FLASHWRITE_ALLOW_HI),
        scratch_free(w, f, s),
    ensures
        serves(
            w,
            ops,
            f,
            s,
            Seq::empty(),
            word_replied(f, 0, off) + word_replied(f, 4, handler::FLASHWRITE_REFUSE_STATUS),
            table(s.mem, f),
        ),
{
    reveal(placement::flashwrite_code);
    let u = lemma_enter(w, ops, f, b, s);
    let v = lemma_no_write(w, ops, f, b, s, u);
    let t1 = lemma_clear(w, ops, f, b, s, v);
    let t0 = lemma_staging(w, ops, f, b, s, t1, off, val);
    let t2 = lemma_refused(w, ops, f, b, s, t0);
    assert(word_code(ops, b + 138, 6, 0));
    let t3 = lemma_word(w, ops, f, s, t2, b + 138, 6, 0);
    assert(word_code(ops, b + 157, 4, 4));
    let t4 = lemma_word(w, ops, f, s, t3, b + 157, 4, 4);
    machine::jump(w, ops, b + 176, t4, handler::DOCOMMIT, b + 290);
    lemma_finish(w, ops, f, b, s, t4);
    let address = word_replied(f, 0, off);
    let status = word_replied(f, 4, handler::FLASHWRITE_REFUSE_STATUS);
    assert(s.calls + cleared(f, 0) + address + status =~= s.calls + Seq::<Call>::empty() + cleared(
        f,
        0,
    ) + (address + status));
}

/// FLASHWRITE outside of its window is refused: the flash routine is not called, and the
/// reply is the address and the refusal.
pub proof fn law_flashwrite_outside_its_window_is_refused(
    w: World,
    f: HandlerFacts,
    s: Cpu,
    off: u32,
    val: u8,
)
    requires
        ready(w, f, s),
        received(s.mem, f) == abi::addressed_frame(false, abi::Verb::FlashWrite, off, val),
        !(handler::FLASHWRITE_ALLOW_LO <= off < handler::FLASHWRITE_ALLOW_HI),
        scratch_free(w, f, s),
    ensures
        answers(
            w,
            f,
            s,
            word_replied(f, 0, off) + word_replied(f, 4, handler::FLASHWRITE_REFUSE_STATUS),
            table(s.mem, f),
        ),
{
    placement::lemma_laid_out(f);
    lemma_flashwrite_refused(w, handler::handler_program(f), f, 45 + placement::debug_len(f), s, off, val);
}

/// The call of the flash routine, with its staging address and its destination.
pub open spec fn programmed(f: HandlerFacts, from: u32, dest: u32) -> Call {
    Call { to: f.flash_program | 1, r0: from, r1: dest }
}

/// `c` is about to have `n` bytes programmed from `from` to `dest`.
pub open spec fn programs(f: HandlerFacts, s: Cpu, c: Cpu, from: u32, dest: u32, n: u32) -> bool {
    &&& c.calls == s.calls + cleared(f, 0)
    &&& c.reg(0) == from
    &&& c.reg(1) == dest
    &&& c.reg(2) == n
    &&& c.reg(3) == 1
}

/// What the flash routine leaves behind.
pub open spec fn flashed(w: World, f: HandlerFacts, c: Cpu) -> Cpu {
    (w.call)(f.flash_program | 1, c.calling(f.flash_program | 1))
}

/// The path of a FLASHWRITE that is let through.
proof fn lemma_flashwrite_done(
    w: World,
    ops: Seq<AsmOp>,
    f: HandlerFacts,
    b: int,
    s: Cpu,
    off: u32,
    val: u8,
) -> (c: Cpu)
    requires
        placement::opens(ops, f),
        placement::laid_out(ops, f, b),
        placement::labelled(ops, b),
        ready(w, f, s),
        received(s.mem, f) == abi::addressed_frame(false, abi::Verb::FlashWrite, off, val),
        handler::FLASHWRITE_ALLOW_LO <= off < handler::FLASHWRITE_ALLOW_HI,
        scratch_free(w, f, s),
    ensures
        programs(f, s, c, scratch_at(f), off, 1),
        c.byte(scratch_at(f)) == val,
        serves(
            w,
            ops,
            f,
            s,
            Seq::empty(),
            seq![programmed(f, scratch_at(f), off)] + word_replied(f, 0, off) + word_replied(
                f,
                4,
                flashed(w, f, c).reg(0),
            ),
            table(flashed(w, f, c).mem, f),
        ),
{
    reveal(placement::flashwrite_code);
    let u = lemma_enter(w, ops, f, b, s);
    let v = lemma_no_write(w, ops, f, b, s, u);
    let t1 = lemma_clear(w, ops, f, b, s, v);
    let t2 = lemma_staging(w, ops, f, b, s, t1, off, val);
    let c = lemma_let_through(w, ops, f, b, s, t2);
    lemma_called(w, f, s, c, f.flash_program | 1);
    let d = machine::blx(w, ops, b + 132, c, 5);
    reveal(machine::data_step);
    let t3 = machine::data(w, ops, b + 133, d, AsmOp::MovReg(4, 0));
    machine::jump(w, ops, b + 134, t3, handler::FLASH_REPLY, b + 137);
    lemma_scratch(w, f, s, d, t3);
    assert(word_code(ops, b + 138, 6, 0));
    let t4 = lemma_word(w, ops, f, s, t3, b + 138, 6, 0);
    assert(word_code(ops, b + 157, 4, 4));
    let t5 = lemma_word(w, ops, f, s, t4, b + 157, 4, 4);
    machine::jump(w, ops, b + 176, t5, handler::DOCOMMIT, b + 290);
    lemma_finish(w, ops, f, b, s, t5);
    let call = programmed(f, scratch_at(f), off);
    let address = word_replied(f, 0, off);
    let status = word_replied(f, 4, d.reg(0));
    assert((s.calls + cleared(f, 0)).push(call) + address + status =~= s.calls
        + Seq::<Call>::empty() + cleared(f, 0) + (seq![call] + address + status));
    c
}

/// FLASHWRITE inside of its window: the byte is staged and the flash routine is called for
/// it once; the reply is the address and the status that the routine returned.
pub proof fn law_flashwrite_inside_its_window_is_done(
    w: World,
    f: HandlerFacts,
    s: Cpu,
    off: u32,
    val: u8,
)
    requires
        ready(w, f, s),
        received(s.mem, f) == abi::addressed_frame(false, abi::Verb::FlashWrite, off, val),
        handler::FLASHWRITE_ALLOW_LO <= off < handler::FLASHWRITE_ALLOW_HI,
        scratch_free(w, f, s),
    ensures
        exists|c: Cpu|
            {
                &&& #[trigger] programs(f, s, c, scratch_at(f), off, 1)
                &&& c.byte(scratch_at(f)) == val
                &&& answers(
                    w,
                    f,
                    s,
                    seq![programmed(f, scratch_at(f), off)] + word_replied(f, 0, off)
                        + word_replied(f, 4, flashed(w, f, c).reg(0)),
                    table(flashed(w, f, c).mem, f),
                )
            },
{
    placement::lemma_laid_out(f);
    let b = 45 + placement::debug_len(f);
    let c = lemma_flashwrite_done(w, handler::handler_program(f), f, b, s, off, val);
    assert(programs(f, s, c, scratch_at(f), off, 1));
}

/// Where SAVE stages the flags: the NV window that two cells describe.
pub open spec fn window_at(s: Cpu, f: HandlerFacts) -> u32 {
    machine::plus(s.word(f.nv_ptr), s.word(machine::plus(f.nv_ptr, 4)) as int)
}

/// The cells that describe the NV window are kept by the byte-writer, and they and the
/// window are apart from what the handler works with.
pub open spec fn window_free(w: World, f: HandlerFacts, s: Cpu) -> bool {
    let sp = machine::frame_at(s, kept());
    &&& apart(f.nv_ptr, 8, sp, 20)
    &&& apart(window_at(s, f), 8, sp, 20)
    &&& apart(f.flag_base, 8, window_at(s, f), 8)
    &&& forall|k: int| 0 <= k < 8 ==> untouched(w, f, #[trigger] machine::plus(f.nv_ptr, k))
}

/// The words that describe the NV window are what their bytes are.
proof fn lemma_window(s: Cpu, u: Cpu, f: HandlerFacts)
    requires
        forall|k: int|
            0 <= k < 8 ==> u.mem[#[trigger] machine::plus(f.nv_ptr, k)] == s.mem[machine::plus(
                f.nv_ptr,
                k,
            )],
    ensures
        u.word(f.nv_ptr) == s.word(f.nv_ptr),
        u.word(machine::plus(f.nv_ptr, 4)) == s.word(machine::plus(f.nv_ptr, 4)),
{
    machine::lemma_frame_kept(u.mem, s.mem, f.nv_ptr, 2);
    machine::lemma_plus_zero(f.nv_ptr);
    assert(machine::plus(f.nv_ptr, 4int * 0) == f.nv_ptr);
    assert(machine::plus(f.nv_ptr, 4int * 1) == machine::plus(f.nv_ptr, 4));
}

/// The path from `p`, where the flags are staged, up to the call of the flash routine.
#[verifier::rlimit(50)]
proof fn lemma_window_filled(
    w: World,
    ops: Seq<AsmOp>,
    f: HandlerFacts,
    p: int,
    s: Cpu,
    u: Cpu,
) -> (c: Cpu)
    requires
        0 <= p,
        p + 28 <= ops.len(),
        placement::flash_code(ops, f, p),
        framed(w, f, s, u),
        f.nv_ptr + 4 <= u32::MAX,
        u.word(f.nv_ptr) == s.word(f.nv_ptr),
        u.word(machine::plus(f.nv_ptr, 4)) == s.word(machine::plus(f.nv_ptr, 4)),
        window_free(w, f, s),
    ensures
        machine::outcome(w, ops, p, u) == machine::outcome(w, ops, p + 27, c),
        framed(w, f, s, c),
        c.calls == u.calls,
        c.reg(0) == s.word(machine::plus(f.nv_ptr, 4)),
        c.reg(1) == f.save_home,
        c.reg(2) == 8,
        c.reg(3) == 1,
        c.reg(4) == u.reg(4),
        c.reg(5) == f.flash_program | 1,
        table(c.mem, f) == table(u.mem, f),
        forall|k: int|
            0 <= k < 8 ==> c.mem[#[trigger] machine::plus(window_at(s, f), k)] == table(
                u.mem,
                f,
            )[k],
{
    broadcast use machine::lemma_plus_zero;

    let sp = machine::frame_at(s, kept());
    let t3 = machine::ldr_lit(w, ops, p, u, 0, f.nv_ptr);
    reveal(machine::data_step);
    let t4 = machine::data(w, ops, p + 1, t3, AsmOp::LdrImm(6, 0, 0));
    let t5 = machine::ldr_lit(w, ops, p + 2, t4, 0, (f.nv_ptr + 4) as u32);
    assert((f.nv_ptr + 4) as u32 == machine::plus(f.nv_ptr, 4)) by {
        reveal(machine::plus);
    }
    let t6 = machine::data(w, ops, p + 3, t5, AsmOp::LdrImm(5, 0, 0));
    let t7 = machine::data(w, ops, p + 4, t6, AsmOp::AddsReg(6, 6, 5));
    assert(t7.reg(6) == window_at(s, f));
    let t8 = machine::ldr_lit(w, ops, p + 5, t7, 0, f.flag_base);
    let t9 = lemma_copy(w, ops, p + 6, t8, 0, 6, 8);
    assert forall|k: int| 0 <= k < 20 implies t9.mem[#[trigger] machine::plus(sp, k)]
        == machine::frame_mem(s, kept())[machine::plus(sp, k)] by {
        assert(!within(machine::plus(sp, k), window_at(s, f), 8));
    }
    assert forall|k: int| 0 <= k < 8 implies t9.mem[#[trigger] machine::plus(f.flag_base, k)]
        == u.mem[machine::plus(f.flag_base, k)] by {
        assert(!within(machine::plus(f.flag_base, k), window_at(s, f), 8));
    }
    let t10 = machine::data(w, ops, p + 22, t9, AsmOp::MovReg(0, 5));
    let t11 = machine::ldr_lit(w, ops, p + 23, t10, 1, f.save_home);
    let t12 = machine::movs_imm(w, ops, p + 24, t11, 2, handler::SAVE_LEN);
    let t13 = machine::movs_imm(w, ops, p + 25, t12, 3, 1);
    let c = machine::ldr_lit(w, ops, p + 26, t13, 5, f.flash_program | 1);
    assert(table(c.mem, f) =~= table(u.mem, f));
    c
}

/// The path of SAVE from its test up to the call of the flash routine.
proof fn lemma_saving(
    w: World,
    ops: Seq<AsmOp>,
    f: HandlerFacts,
    b: int,
    s: Cpu,
    u: Cpu,
) -> (c: Cpu)
    requires
        placement::laid_out(ops, f, b),
        placement::labelled(ops, b),
        framed(w, f, s, u),
        u.reg(4) == 0x0B,
        f.nv_ptr + 4 <= u32::MAX,
        u.word(f.nv_ptr) == s.word(f.nv_ptr),
        u.word(machine::plus(f.nv_ptr, 4)) == s.word(machine::plus(f.nv_ptr, 4)),
        window_free(w, f, s),
    ensures
        machine::outcome(w, ops, b + 106, u) == machine::outcome(w, ops, b + 207, c),
        framed(w, f, s, c),
        c.calls == u.calls,
        c.reg(0) == s.word(machine::plus(f.nv_ptr, 4)),
        c.reg(1) == f.save_home,
        c.reg(2) == 8,
        c.reg(3) == 1,
        c.reg(5) == f.flash_program | 1,
        forall|k: int|
            0 <= k < 8 ==> c.mem[#[trigger] machine::plus(window_at(s, f), k)] == table(
                u.mem,
                f,
            )[k],
{
    reveal(placement::flashwrite_code);
    reveal(placement::save_code);
    let t1 = machine::compare(w, ops, b + 106, u, 4, 0x0A);
    machine::jump(w, ops, b + 107, t1, handler::NOT_FLASH, b + 177);
    let t2 = machine::compare(w, ops, b + 178, t1, 4, 0x0B);
    machine::stay(w, ops, b + 179, t2, handler::NOT_SAVE);
    lemma_scratch(w, f, s, u, t2);
    lemma_window_filled(w, ops, f, b + 180, s, t2)
}

/// The path of RESET to the OEM state.
proof fn lemma_oem(w: World, ops: Seq<AsmOp>, f: HandlerFacts, b: int, s: Cpu) -> (c: Cpu)
    requires
        placement::opens(ops, f),
        placement::laid_out(ops, f, b),
        placement::labelled(ops, b),
        ready(w, f, s),
        received(s.mem, f)[1] == abi::KNOCK_MODE,
        abi::has_safe_knock(received(s.mem, f)),
        received(s.mem, f)[4] == 0x04,
        received(s.mem, f)[6] == abi::RESET_TO_OEM,
        f.nv_ptr + 4 <= u32::MAX,
        window_free(w, f, s),
        apart(f.nv_ptr, 8, f.flag_base, 8),
    ensures
        c.whole(),
        programs_silently(f, s, c),
        serves(
            w,
            ops,
            f,
            s,
            seq![programmed(f, s.word(machine::plus(f.nv_ptr, 4)), f.save_home)],
            Seq::empty(),
            table(flashed(w, f, c).mem, f),
        ),
{
    let u = lemma_enter(w, ops, f, b, s);
    let t1 = lemma_mode(w, ops, f, b, s, u);
    reveal(placement::reset_code);
    let t2 = machine::compare(w, ops, b + 18, t1, 0, abi::RESET_TO_OEM);
    machine::stay(w, ops, b + 19, t2, handler::RESET_FLASH);
    let t3 = machine::ldr_lit(w, ops, b + 20, t2, 0, f.flag_base);
    let t4 = machine::movs_imm(w, ops, b + 21, t3, 1, abi::STATE_PASSTHROUGH);
    assert forall|k: int| 0 <= k < 8 implies #[trigger] ops[b + 22 + k] == AsmOp::StrbImm(
        1,
        0,
        k as u16,
    ) by {
        assert(ops[b + 15 + 7 + k] == AsmOp::StrbImm(1, 0, k as u16));
    }
    let t5 = lemma_fill(w, ops, b + 22, t4, 8);
    lemma_flags_changed(w, f, s, u, t5);
    assert(table(t5.mem, f) =~= all_passthrough());
    assert forall|k: int| 0 <= k < 8 implies t5.mem[#[trigger] machine::plus(f.nv_ptr, k)]
        == s.mem[machine::plus(f.nv_ptr, k)] by {
        assert(!within(machine::plus(f.nv_ptr, k), machine::frame_at(s, kept()), 20));
        assert(!within(machine::plus(f.nv_ptr, k), f.flag_base, 8));
        assert(t4.mem[machine::plus(f.nv_ptr, k)] == u.mem[machine::plus(f.nv_ptr, k)]);
    }
    lemma_window(s, t5, f);
    let c = lemma_window_filled(w, ops, f, b + 30, s, t5);
    lemma_called(w, f, s, c, f.flash_program | 1);
    let d = machine::blx(w, ops, b + 57, c, 5);
    machine::jump(w, ops, b + 58, d, handler::CLR, b + 95);
    let call = programmed(f, s.word(machine::plus(f.nv_ptr, 4)), f.save_home);
    assert(d.calls =~= s.calls + seq![call]);
    lemma_silent(w, ops, f, b, s, d, seq![call]);
    c
}

/// In `c` the flags pass through, and the flash routine is about to be called to program
/// eight bytes that do, staged in the NV window, to the flags' flash home.
pub open spec fn programs_silently(f: HandlerFacts, s: Cpu, c: Cpu) -> bool {
    &&& c.calls == s.calls
    &&& c.reg(0) == s.word(machine::plus(f.nv_ptr, 4))
    &&& c.reg(1) == f.save_home
    &&& c.reg(2) == 8
    &&& c.reg(3) == 1
    &&& table(c.mem, f) == all_passthrough()
    &&& forall|k: int|
        0 <= k < 8 ==> c.mem[#[trigger] machine::plus(window_at(s, f), k)]
            == abi::STATE_PASSTHROUGH
}

/// RESET to the OEM state: every flag passes through, and the flash routine is called once
/// to program eight bytes that do to the flags' flash home; then the reply is cleared. The
/// flags stay so when the flash routine keeps them.
pub proof fn law_reset_to_oem_blanks_flags_and_flash(w: World, f: HandlerFacts, s: Cpu)
    requires
        ready(w, f, s),
        received(s.mem, f)[1] == abi::KNOCK_MODE,
        abi::has_safe_knock(received(s.mem, f)),
        received(s.mem, f)[4] == abi::Verb::Reset.wire(),
        received(s.mem, f)[6] == abi::RESET_TO_OEM,
        f.nv_ptr + 4 <= u32::MAX,
        window_free(w, f, s),
        apart(f.nv_ptr, 8, f.flag_base, 8),
    ensures
        exists|c: Cpu|
            {
                &&& #[trigger] programs_silently(f, s, c)
                &&& serves(
                    w,
                    handler::handler_program(f),
                    f,
                    s,
                    seq![programmed(f, s.word(machine::plus(f.nv_ptr, 4)), f.save_home)],
                    Seq::empty(),
                    table(flashed(w, f, c).mem, f),
                )
                &&& flags_kept_by_flash(w, f) ==> table(flashed(w, f, c).mem, f)
                    == all_passthrough()
            },
{
    placement::lemma_laid_out(f);
    let b = 45 + placement::debug_len(f);
    let c = lemma_oem(w, handler::handler_program(f), f, b, s);
    assert(c.calling(f.flash_program | 1).whole());
    assert(programs_silently(f, s, c));
}

/// The path of SAVE.
proof fn lemma_save(w: World, ops: Seq<AsmOp>, f: HandlerFacts, b: int, s: Cpu) -> (c: Cpu)
    requires
        placement::opens(ops, f),
        placement::laid_out(ops, f, b),
        placement::labelled(ops, b),
        ready(w, f, s),
        received(s.mem, f)[1] == abi::KNOCK_MODE,
        abi::has_safe_knock(received(s.mem, f)),
        received(s.mem, f)[4] == 0x0B,
        f.nv_ptr + 4 <= u32::MAX,
        window_free(w, f, s),
    ensures
        programs(f, s, c, s.word(machine::plus(f.nv_ptr, 4)), f.save_home, 8),
        forall|k: int|
            0 <= k < 8 ==> c.mem[#[trigger] machine::plus(window_at(s, f), k)] == table(
                s.mem,
                f,
            )[k],
        serves(
            w,
            ops,
            f,
            s,
            Seq::empty(),
            seq![programmed(f, s.word(machine::plus(f.nv_ptr, 4)), f.save_home)] + word_replied(
                f,
                0,
                flashed(w, f, c).reg(0),
            ),
            table(flashed(w, f, c).mem, f),
        ),
{
    reveal(placement::save_code);
    let u = lemma_enter(w, ops, f, b, s);
    let v = lemma_no_write(w, ops, f, b, s, u);
    let t1 = lemma_clear(w, ops, f, b, s, v);
    assert forall|k: int| 0 <= k < 8 implies t1.mem[#[trigger] machine::plus(f.nv_ptr, k)]
        == s.mem[machine::plus(f.nv_ptr, k)] by {
        assert(!within(machine::plus(f.nv_ptr, k), machine::frame_at(s, kept()), 20));
        assert(untouched(w, f, machine::plus(f.nv_ptr, k)));
        assert(v.mem[machine::plus(f.nv_ptr, k)] == u.mem[machine::plus(f.nv_ptr, k)]);
    }
    lemma_window(s, t1, f);
    let c = lemma_saving(w, ops, f, b, s, t1);
    lemma_called(w, f, s, c, f.flash_program | 1);
    let d = machine::blx(w, ops, b + 207, c, 5);
    reveal(machine::data_step);
    let t2 = machine::data(w, ops, b + 208, d, AsmOp::MovReg(4, 0));
    lemma_scratch(w, f, s, d, t2);
    assert(word_code(ops, b + 209, 4, 0));
    let t3 = lemma_word(w, ops, f, s, t2, b + 209, 4, 0);
    machine::jump(w, ops, b + 228, t3, handler::DOCOMMIT, b + 290);
    lemma_finish(w, ops, f, b, s, t3);
    let call = programmed(f, s.word(machine::plus(f.nv_ptr, 4)), f.save_home);
    let status = word_replied(f, 0, d.reg(0));
    assert((s.calls + cleared(f, 0)).push(call) + status =~= s.calls + Seq::<Call>::empty()
        + cleared(f, 0) + (seq![call] + status));
    c
}

/// SAVE: the flags are staged in the NV window, and the flash routine is called once to
/// program them to their flash home; the reply is the status that it returned.
pub proof fn law_save_programs_the_flags(w: World, f: HandlerFacts, s: Cpu)
    requires
        ready(w, f, s),
        received(s.mem, f)[1] == abi::KNOCK_MODE,
        abi::has_safe_knock(received(s.mem, f)),
        received(s.mem, f)[4] == abi::Verb::Save.wire(),
        f.nv_ptr + 4 <= u32::MAX,
        window_free(w, f, s),
    ensures
        exists|c: Cpu|
            {
                &&& #[trigger] programs(
                    f,
                    s,
                    c,
                    s.word(machine::plus(f.nv_ptr, 4)),
                    f.save_home,
                    8,
                )
                &&& forall|k: int|
                    0 <= k < 8 ==> c.mem[#[trigger] machine::plus(window_at(s, f), k)] == table(
                        s.mem,
                        f,
                    )[k]
                &&& answers(
                    w,
                    f,
                    s,
                    seq![programmed(f, s.word(machine::plus(f.nv_ptr, 4)), f.save_home)]
                        + word_replied(f, 0, flashed(w, f, c).reg(0)),
                    table(flashed(w, f, c).mem, f),
                )
            },
{
    placement::lemma_laid_out(f);
    let b = 45 + placement::debug_len(f);
    let c = lemma_save(w, handler::handler_program(f), f, b, s);
    assert(programs(f, s, c, s.word(machine::plus(f.nv_ptr, 4)), f.save_home, 8));
}

/// The calls that put the 64 bytes from `a` on into the reply, from byte `n` on.
pub open spec fn memory_replied(f: HandlerFacts, mem: Map<u32, u8>, a: u32, n: int) -> Seq<Call> {
    Seq::new(
        (64 - n) as nat,
        |k: int| replied(f, (n + k) as u32, mem[machine::plus(a, n + k)] as u32),
    )
}

/// The loop over memory, from its test on.
proof fn lemma_dump_loop(
    w: World,
    ops: Seq<AsmOp>,
    f: HandlerFacts,
    b: int,
    s: Cpu,
    u: Cpu,
    n: int,
) -> (t: Cpu)
    requires
        placement::laid_out(ops, f, b),
        placement::labelled(ops, b),
        framed(w, f, s, u),
        0 <= n <= 64,
        u.reg(5) == n,
        forall|k: int| 0 <= k < 64 ==> untouched(w, f, #[trigger] machine::plus(u.reg(6), k)),
    ensures
        machine::outcome(w, ops, b + 256, u) == machine::outcome(w, ops, b + 291, t),
        framed(w, f, s, t),
        t.calls == u.calls + memory_replied(f, u.mem, u.reg(6), n),
        table(t.mem, f) == table(u.mem, f),
    decreases 64 - n,
{
    reveal(placement::dump_code);
    let a = u.reg(6);
    let t1 = machine::compare(w, ops, b + 256, u, 5, handler::CLEAR_LEN);
    if n == 64 {
        machine::jump(w, ops, b + 257, t1, handler::DOCOMMIT, b + 290);
        lemma_scratch(w, f, s, u, t1);
        assert(t1.calls =~= u.calls + memory_replied(f, u.mem, a, 64));
        t1
    } else {
        machine::stay(w, ops, b + 257, t1, handler::DOCOMMIT);
        reveal(machine::data_step);
        let t2 = machine::data(w, ops, b + 258, t1, AsmOp::MovReg(0, 5));
        let t3 = machine::data(w, ops, b + 259, t2, AsmOp::LdrbReg(1, 6, 5));
        lemma_scratch(w, f, s, u, t3);
        lemma_writer(w, f, s, t3);
        let t4 = machine::blx(w, ops, b + 260, t3, 7);
        let t5 = machine::data(w, ops, b + 261, t4, AsmOp::AddsImm(5, 1));
        assert(t5.reg(5) == n + 1) by {
            reveal(machine::plus);
        }
        lemma_scratch(w, f, s, t4, t5);
        machine::jump(w, ops, b + 262, t5, handler::DUMP_LOOP, b + 255);
        let t = lemma_dump_loop(w, ops, f, b, s, t5, n + 1);
        assert forall|k: int| 0 <= k < 64 implies t5.mem[#[trigger] machine::plus(a, k)]
            == u.mem[machine::plus(a, k)] by {
            assert(untouched(w, f, machine::plus(a, k)));
        }
        assert(memory_replied(f, t5.mem, a, n + 1) =~= memory_replied(f, u.mem, a, n + 1));
        assert(u.calls.push(replied(f, n as u32, u.mem[machine::plus(a, n)] as u32))
            + memory_replied(f, u.mem, a, n + 1) =~= u.calls + memory_replied(f, u.mem, a, n));
        t
    }
}

/// The path of DUMPALL.
proof fn lemma_dump(w: World, ops: Seq<AsmOp>, f: HandlerFacts, b: int, s: Cpu, addr: u32, val: u8)
    requires
        placement::opens(ops, f),
        placement::laid_out(ops, f, b),
        placement::labelled(ops, b),
        ready(w, f, s),
        received(s.mem, f) == abi::addressed_frame(false, abi::Verb::DumpAll, addr, val),
        forall|k: int| 0 <= k < 64 ==> untouched(w, f, #[trigger] machine::plus(addr, k)),
        apart(addr, 64, machine::frame_at(s, kept()), 20),
    ensures
        serves(
            w,
            ops,
            f,
            s,
            Seq::empty(),
            memory_replied(f, s.mem, addr, 0),
            table(s.mem, f),
        ),
{
    reveal(placement::get_code);
    reveal(placement::dump_code);
    let u = lemma_enter(w, ops, f, b, s);
    let v = lemma_no_write(w, ops, f, b, s, u);
    let t1 = lemma_clear(w, ops, f, b, s, v);
    let t2 = lemma_past_flash(w, ops, f, b, s, t1);
    let t3 = machine::compare(w, ops, b + 230, t2, 4, 0x03);
    machine::jump(w, ops, b + 231, t3, handler::NOT_GET, b + 241);
    let t4 = machine::compare(w, ops, b + 242, t3, 4, 0x09);
    machine::stay(w, ops, b + 243, t4, handler::NOT_DUMP);
    lemma_scratch(w, f, s, t2, t4);
    assert(address_code(ops, b + 244));
    let t5 = lemma_address(w, ops, f, s, t4, b + 244, addr);
    let t6 = machine::movs_imm(w, ops, b + 254, t5, 5, 0);
    machine::pass(w, ops, b + 255, t6, b + 256);
    lemma_scratch(w, f, s, t5, t6);
    let t7 = lemma_dump_loop(w, ops, f, b, s, t6, 0);
    lemma_finish(w, ops, f, b, s, t7);
    assert forall|k: int| 0 <= k < 64 implies t6.mem[#[trigger] machine::plus(addr, k)]
        == s.mem[machine::plus(addr, k)] by {
        assert(untouched(w, f, machine::plus(addr, k)));
        assert(!within(machine::plus(addr, k), machine::frame_at(s, kept()), 20));
        assert(t1.mem[machine::plus(addr, k)] == v.mem[machine::plus(addr, k)]);
    }
    let reply = memory_replied(f, s.mem, addr, 0);
    assert(memory_replied(f, t6.mem, addr, 0) =~= reply);
    assert(s.calls + cleared(f, 0) + reply =~= s.calls + Seq::<Call>::empty() + cleared(f, 0)
        + reply);
}

/// DUMPALL: the reply is the 64 bytes of memory at the address of the command.
pub proof fn law_dump_replies_with_memory(w: World, f: HandlerFacts, s: Cpu, addr: u32, val: u8)
    requires
        ready(w, f, s),
        received(s.mem, f) == abi::addressed_frame(false, abi::Verb::DumpAll, addr, val),
        forall|k: int| 0 <= k < 64 ==> untouched(w, f, #[trigger] machine::plus(addr, k)),
        apart(addr, 64, machine::frame_at(s, kept()), 20),
    ensures
        answers(w, f, s, memory_replied(f, s.mem, addr, 0), table(s.mem, f)),
{
    placement::lemma_laid_out(f);
    lemma_dump(
        w,
        handler::handler_program(f),
        f,
        45 + placement::debug_len(f),
        s,
        addr,
        val,
    );
}

/// The end of a debug verb: no verb is left to serve, and the reply is zero.
proof fn lemma_debug_end(
    w: World,
    ops: Seq<AsmOp>,
    f: HandlerFacts,
    b: int,
    s: Cpu,
    u: Cpu,
    made: Seq<Call>,
)
    requires
        placement::opens(ops, f),
        placement::laid_out(ops, f, b),
        placement::labelled(ops, b),
        framed(w, f, s, u),
        u.calls == s.calls + made,
        machine::outcome(w, ops, 0, s) == machine::outcome(w, ops, b - 2, u),
    ensures
        serves(w, ops, f, s, made, Seq::empty(), table(u.mem, f)),
{
    reveal(placement::debug_code);
    let t1 = machine::movs_imm(w, ops, b - 2, u, 4, 0);
    machine::jump(w, ops, b - 1, t1, handler::CLR, b + 95);
    lemma_scratch(w, f, s, u, t1);
    lemma_silent(w, ops, f, b, s, t1, made);
}

/// A debug verb other than CALL and POKE goes on behind them.
proof fn lemma_past_poke(
    w: World,
    ops: Seq<AsmOp>,
    f: HandlerFacts,
    b: int,
    s: Cpu,
    u: Cpu,
) -> (t: Cpu)
    requires
        placement::opens(ops, f),
        placement::laid_out(ops, f, b),
        placement::labelled(ops, b),
        framed(w, f, s, u),
        u.reg(4) != 0x0C,
        u.reg(4) != 0x0D,
    ensures
        goes_on(w, ops, f, 49, u, 83, t),
        framed(w, f, s, t),
        t.reg(1) == u.reg(1),
        t.reg(4) == u.reg(4),
        t.mem == u.mem,
{
    reveal(placement::debug_code);
    let t1 = machine::compare(w, ops, 49, u, 4, 0x0C);
    machine::jump(w, ops, 50, t1, handler::NOT_CALL, 66);
    let t2 = machine::compare(w, ops, 67, t1, 4, 0x0D);
    machine::jump(w, ops, 68, t2, handler::NOT_POKE, 82);
    t2
}

/// The call of CALL.
pub open spec fn invoked(addr: u32, val: u8) -> Call {
    Call { to: addr | 1, r0: val as u32, r1: 1 }
}

/// The path of CALL.
proof fn lemma_call(
    w: World,
    ops: Seq<AsmOp>,
    f: HandlerFacts,
    b: int,
    s: Cpu,
    addr: u32,
    val: u8,
) -> (c: Cpu)
    requires
        placement::opens(ops, f),
        placement::laid_out(ops, f, b),
        placement::labelled(ops, b),
        ready(w, f, s),
        received(s.mem, f) == abi::addressed_frame(true, abi::Verb::Call, addr, val),
    ensures
        c.calls == s.calls,
        c.reg(0) == val,
        table(c.mem, f) == table(s.mem, f),
        serves(
            w,
            ops,
            f,
            s,
            seq![invoked(addr, val)],
            Seq::empty(),
            table((w.call)(addr | 1, c.calling(addr | 1)).mem, f),
        ),
{
    reveal(placement::debug_code);
    let u = lemma_enter_debug(w, ops, f, b, s);
    let t1 = machine::compare(w, ops, 49, u, 4, 0x0C);
    machine::stay(w, ops, 50, t1, handler::NOT_CALL);
    lemma_scratch(w, f, s, u, t1);
    assert(address_code(ops, 51));
    let t2 = lemma_address(w, ops, f, s, t1, 51, addr);
    let t3 = machine::ldrb_imm(w, ops, 61, t2, 0, 3, 9);
    assert(t3.reg(0) == received(t2.mem, f)[9]);
    let t4 = machine::movs_imm(w, ops, 62, t3, 1, 1);
    reveal(machine::data_step);
    let c = machine::data(w, ops, 63, t4, AsmOp::Orrs(6, 1));
    lemma_scratch(w, f, s, t2, c);
    lemma_called(w, f, s, c, addr | 1);
    let d = machine::blx(w, ops, 64, c, 6);
    machine::jump(w, ops, 65, d, handler::DEBUG_DONE, b - 3);
    assert(d.calls =~= s.calls + seq![invoked(addr, val)]);
    lemma_debug_end(w, ops, f, b, s, d, seq![invoked(addr, val)]);
    c
}

/// CALL, under the debug knock: the routine at the address of the command is called once,
/// with the value of the command as its argument; the reply is zero.
pub proof fn law_call_calls_the_address(w: World, f: HandlerFacts, s: Cpu, addr: u32, val: u8)
    requires
        ready(w, f, s),
        received(s.mem, f) == abi::addressed_frame(true, abi::Verb::Call, addr, val),
    ensures
        exists|c: Cpu|
            {
                &&& c.calls == s.calls
                &&& c.reg(0) == val
                &&& table(c.mem, f) == table(s.mem, f)
                &&& serves(
                    w,
                    handler::handler_program(f),
                    f,
                    s,
                    seq![invoked(addr, val)],
                    Seq::empty(),
                    table((w.call)(addr | 1, #[trigger] c.calling(addr | 1)).mem, f),
                )
            },
{
    placement::lemma_laid_out(f);
    let b = 45 + placement::debug_len(f);
    let c = lemma_call(w, handler::handler_program(f), f, b, s, addr, val);
    assert(c.calling(addr | 1).calls.len() == s.calls.len() + 1);
}

/// The path of POKE.
proof fn lemma_poke(w: World, ops: Seq<AsmOp>, f: HandlerFacts, b: int, s: Cpu, addr: u32, val: u8)
    requires
        placement::opens(ops, f),
        placement::laid_out(ops, f, b),
        placement::labelled(ops, b),
        ready(w, f, s),
        received(s.mem, f) == abi::addressed_frame(true, abi::Verb::Poke, addr, val),
        !within(addr, machine::frame_at(s, kept()), 20),
    ensures
        serves(
            w,
            ops,
            f,
            s,
            Seq::empty(),
            Seq::empty(),
            table(s.mem.insert(addr, val), f),
        ),
{
    broadcast use machine::lemma_plus_zero;

    reveal(placement::debug_code);
    let sp = machine::frame_at(s, kept());
    let u = lemma_enter_debug(w, ops, f, b, s);
    let t1 = machine::compare(w, ops, 49, u, 4, 0x0C);
    machine::jump(w, ops, 50, t1, handler::NOT_CALL, 66);
    let t2 = machine::compare(w, ops, 67, t1, 4, 0x0D);
    machine::stay(w, ops, 68, t2, handler::NOT_POKE);
    lemma_scratch(w, f, s, u, t2);
    assert(address_code(ops, 69));
    let t3 = lemma_address(w, ops, f, s, t2, 69, addr);
    let t4 = machine::ldrb_imm(w, ops, 79, t3, 0, 3, 9);
    assert(t4.reg(0) == received(t3.mem, f)[9]);
    let t5 = machine::strb_imm(w, ops, 80, t4, 0, 6, 0);
    machine::jump(w, ops, 81, t5, handler::DEBUG_DONE, b - 3);
    assert(t5.mem == u.mem.insert(addr, val));
    assert forall|k: int| 0 <= k < 20 implies t5.mem[#[trigger] machine::plus(sp, k)]
        == u.mem[machine::plus(sp, k)] by {}
    assert forall|k: int| 0 <= k < 8 implies u.mem[#[trigger] machine::plus(f.flag_base, k)]
        == s.mem[machine::plus(f.flag_base, k)] by {
        assert(!within(machine::plus(f.flag_base, k), sp, 20));
    }
    assert(table(t5.mem, f) =~= table(s.mem.insert(addr, val), f));
    lemma_debug_end(w, ops, f, b, s, t5, Seq::empty());
}

/// POKE, under the debug knock: the value of the command is stored at its address; the
/// reply is zero.
pub proof fn law_poke_stores_the_byte(w: World, f: HandlerFacts, s: Cpu, addr: u32, val: u8)
    requires
        ready(w, f, s),
        received(s.mem, f) == abi::addressed_frame(true, abi::Verb::Poke, addr, val),
        !within(addr, machine::frame_at(s, kept()), 20),
    ensures
        answers(w, f, s, Seq::empty(), table(s.mem.insert(addr, val), f)),
{
    placement::lemma_laid_out(f);
    let b = 45 + placement::debug_len(f);
    lemma_poke(w, handler::handler_program(f), f, b, s, addr, val);
}

/// The call of REBOOT: the boot function is entered with 4, its cold path.
pub open spec fn rebooted(f: HandlerFacts, s: Cpu) -> Call {
    Call { to: f.boot_entry | 1, r0: 4, r1: s.reg(1) }
}

/// The path of REBOOT where there is a boot function to re-enter.
proof fn lemma_reboot(w: World, ops: Seq<AsmOp>, f: HandlerFacts, b: int, s: Cpu) -> (c: Cpu)
    requires
        placement::opens(ops, f),
        placement::laid_out(ops, f, b),
        placement::labelled(ops, b),
        ready(w, f, s),
        received(s.mem, f) == abi::reboot_frame(),
        f.boot_entry != 0,
    ensures
        c.calls == s.calls,
        c.reg(0) == 4,
        table(c.mem, f) == table(s.mem, f),
        serves(
            w,
            ops,
            f,
            s,
            seq![rebooted(f, s)],
            Seq::empty(),
            table((w.call)(f.boot_entry | 1, c.calling(f.boot_entry | 1)).mem, f),
        ),
{
    reveal(placement::debug_code);
    let u = lemma_enter_debug(w, ops, f, b, s);
    let t1 = lemma_past_poke(w, ops, f, b, s, u);
    let t2 = machine::compare(w, ops, 83, t1, 4, 0x0F);
    machine::stay(w, ops, 84, t2, handler::DEBUG_DONE);
    let t3 = machine::movs_imm(w, ops, 85, t2, 0, 4);
    let c = machine::ldr_lit(w, ops, 86, t3, 5, f.boot_entry | 1);
    lemma_scratch(w, f, s, t1, c);
    lemma_called(w, f, s, c, f.boot_entry | 1);
    let d = machine::blx(w, ops, 87, c, 5);
    machine::pass(w, ops, 88, d, 89);
    assert(d.calls =~= s.calls + seq![rebooted(f, s)]);
    lemma_debug_end(w, ops, f, b, s, d, seq![rebooted(f, s)]);
    c
}

/// REBOOT, under the debug knock: the boot function is re-entered on its cold path. Should
/// it return, the reply is zero.
pub proof fn law_reboot_enters_the_boot_function(w: World, f: HandlerFacts, s: Cpu)
    requires
        ready(w, f, s),
        received(s.mem, f) == abi::reboot_frame(),
        f.boot_entry != 0,
    ensures
        exists|c: Cpu|
            {
                &&& c.calls == s.calls
                &&& c.reg(0) == 4
                &&& table(c.mem, f) == table(s.mem, f)
                &&& serves(
                    w,
                    handler::handler_program(f),
                    f,
                    s,
                    seq![rebooted(f, s)],
                    Seq::empty(),
                    table(
                        (w.call)(f.boot_entry | 1, #[trigger] c.calling(f.boot_entry | 1)).mem,
                        f,
                    ),
                )
            },
{
    placement::lemma_laid_out(f);
    let b = 45 + placement::debug_len(f);
    let c = lemma_reboot(w, handler::handler_program(f), f, b, s);
    assert(c.calling(f.boot_entry | 1).calls.len() == s.calls.len() + 1);
}

/// The path of any other debug verb.
proof fn lemma_debug_unknown(w: World, ops: Seq<AsmOp>, f: HandlerFacts, b: int, s: Cpu)
    requires
        placement::opens(ops, f),
        placement::laid_out(ops, f, b),
        placement::labelled(ops, b),
        ready(w, f, s),
        received(s.mem, f)[1] == abi::KNOCK_MODE,
        abi::has_debug_knock(received(s.mem, f)),
        received(s.mem, f)[4] != 0x0C,
        received(s.mem, f)[4] != 0x0D,
        f.boot_entry != 0 ==> received(s.mem, f)[4] != 0x0F,
    ensures
        serves(w, ops, f, s, Seq::empty(), Seq::empty(), table(s.mem, f)),
{
    reveal(placement::debug_code);
    let u = lemma_enter_debug(w, ops, f, b, s);
    let t1 = lemma_past_poke(w, ops, f, b, s, u);
    if f.boot_entry != 0 {
        let t2 = machine::compare(w, ops, 83, t1, 4, 0x0F);
        machine::jump(w, ops, 84, t2, handler::DEBUG_DONE, b - 3);
        lemma_scratch(w, f, s, t1, t2);
        lemma_debug_end(w, ops, f, b, s, t2, Seq::empty());
    } else {
        machine::pass(w, ops, 83, t1, 84);
        lemma_debug_end(w, ops, f, b, s, t1, Seq::empty());
    }
}

/// The debug knock authorizes the debug verbs only: a durable verb under it, and REBOOT
/// where there is no boot function to re-enter, is answered with a zero reply and changes
/// nothing.
pub proof fn law_debug_knock_serves_no_durable_verb(w: World, f: HandlerFacts, s: Cpu)
    requires
        ready(w, f, s),
        received(s.mem, f)[1] == abi::KNOCK_MODE,
        abi::has_debug_knock(received(s.mem, f)),
        received(s.mem, f)[4] != abi::Verb::Call.wire(),
        received(s.mem, f)[4] != abi::Verb::Poke.wire(),
        f.boot_entry != 0 ==> received(s.mem, f)[4] != abi::Verb::Reboot.wire(),
    ensures
        answers(w, f, s, Seq::empty(), table(s.mem, f)),
{
    placement::lemma_laid_out(f);
    let b = 45 + placement::debug_len(f);
    lemma_debug_unknown(w, handler::handler_program(f), f, b, s);
}

} // verus!
