//! What injected code does when it runs: the processor's state, and how the
//! instructions of an assembly program change it.
use crate::program::AsmOp;
use crate::raw;
use vstd::prelude::*;

verus! {

/// The stack pointer's number.
pub const SP: u16 = 13;

/// The link register's number.
pub const LR: u16 = 14;

/// The program counter's number.
pub const PC: u16 = 15;

/// A call of a routine, with its first two arguments.
pub struct Call {
    /// The routine.
    pub to: u32,
    /// Its first argument.
    pub r0: u32,
    /// Its second argument.
    pub r1: u32,
}

/// Registers, flags and memory, with every byte that was stored in order (a store to a
/// device register counts each time, a push does not count) and every call that was made.
#[verifier::ext_equal]
pub struct Cpu {
    /// `r0` to `r14`.
    pub regs: Seq<u32>,
    /// Zero flag.
    pub z: bool,
    /// Carry flag.
    pub c: bool,
    /// Memory.
    pub mem: Map<u32, u8>,
    /// Bytes stored.
    pub stores: Seq<(u32, u8)>,
    /// Calls made.
    pub calls: Seq<Call>,
    /// The memory that the routine called last found.
    pub found: Map<u32, u8>,
}

/// The rest of the drive: where the assembler put the data of a program, and what a
/// routine that is called leaves behind.
pub struct World {
    /// Address of the data behind a label.
    pub data: spec_fn(u16) -> u32,
    /// What calling a routine does.
    pub call: spec_fn(u32, Cpu) -> Cpu,
}

impl World {
    /// Routines that are called keep the stack and the registers `r4` to `r7`, as the
    /// procedure call standard has it. What they call themselves is not recorded.
    pub open spec fn behaves(self) -> bool {
        forall|f: u32, c: Cpu| #![trigger (self.call)(f, c)]
            c.whole() ==> {
                let d = (self.call)(f, c);
                &&& d.whole()
                &&& d.calls == c.calls
                &&& d.found == c.found
                &&& d.reg(SP) == c.reg(SP)
                &&& d.reg(4) == c.reg(4)
                &&& d.reg(5) == c.reg(5)
                &&& d.reg(6) == c.reg(6)
                &&& d.reg(7) == c.reg(7)
                &&& forall|k: int|
                    0 <= k < 64 ==> d.mem[#[trigger] plus(c.reg(SP), k)] == c.mem[plus(
                        c.reg(SP),
                        k,
                    )]
            }
    }
}

/// `a + d`, modulo 2^32.
#[verifier::opaque]
pub open spec fn plus(a: u32, d: int) -> u32 {
    ((a + d) % 0x1_0000_0000) as u32
}

/// Adding nothing.
pub broadcast proof fn lemma_plus_zero(a: u32)
    ensures
        #[trigger] plus(a, 0) == a,
{
    reveal(plus);
}

/// Adding twice is adding the sum.
pub proof fn lemma_plus_plus(a: u32, d: int, e: int)
    ensures
        plus(plus(a, d), e) == plus(a, d + e),
{
    reveal(plus);
}

/// Different offsets lead to different addresses.
pub proof fn lemma_plus_differ(a: u32, d: int, e: int)
    requires
        d != e,
        -0x1000 < d - e < 0x1000,
    ensures
        plus(a, d) != plus(a, e),
{
    reveal(plus);
}

impl Cpu {
    /// The processor has all its registers.
    pub open spec fn whole(self) -> bool {
        self.regs.len() == 15
    }

    /// Register `r`.
    pub open spec fn reg(self, r: u16) -> u32 {
        self.regs[r as int]
    }

    /// With register `r` set.
    pub open spec fn set(self, r: u16, v: u32) -> Cpu {
        Cpu { regs: self.regs.update(r as int, v), ..self }
    }

    /// With the zero flag of the result `v`.
    pub open spec fn test(self, v: u32) -> Cpu {
        Cpu { z: v == 0, ..self }
    }

    /// With the flags of `a - b`.
    pub open spec fn compared(self, a: u32, b: u32) -> Cpu {
        Cpu { z: a == b, c: a >= b, ..self }
    }

    /// With a call of `to` on record.
    pub open spec fn calling(self, to: u32) -> Cpu {
        Cpu {
            calls: self.calls.push(Call { to, r0: self.reg(0), r1: self.reg(1) }),
            found: self.mem,
            ..self
        }
    }

    /// The byte at `a`.
    pub open spec fn byte(self, a: u32) -> u8 {
        self.mem[a]
    }

    /// The word at `a`.
    pub open spec fn word(self, a: u32) -> u32 {
        word_at(self.mem, a)
    }

    /// With a byte stored at `a`.
    pub open spec fn store(self, a: u32, b: u8) -> Cpu {
        Cpu { mem: self.mem.insert(a, b), stores: self.stores.push((a, b)), ..self }
    }

    /// With a word stored at `a`.
    pub open spec fn store_word(self, a: u32, w: u32) -> Cpu {
        let b = raw::le_bytes(w);
        Cpu {
            mem: spilled(self.mem, a, w),
            stores: self.stores.push((a, b[0])).push((plus(a, 1), b[1])).push(
                (plus(a, 2), b[2]),
            ).push((plus(a, 3), b[3])),
            ..self
        }
    }
}

/// The word that `mem` holds at `a`.
#[verifier::opaque]
pub open spec fn word_at(mem: Map<u32, u8>, a: u32) -> u32 {
    (mem[a] + 256 * mem[plus(a, 1)] + 65536 * mem[plus(a, 2)] + 16777216 * mem[plus(a, 3)]) as u32
}

/// `mem` with a word written at `a`.
#[verifier::opaque]
pub open spec fn spilled(mem: Map<u32, u8>, a: u32, v: u32) -> Map<u32, u8> {
    let b = raw::le_bytes(v);
    mem.insert(a, b[0]).insert(plus(a, 1), b[1]).insert(plus(a, 2), b[2]).insert(plus(a, 3), b[3])
}

/// Where control goes next.
pub enum Next {
    /// To the instruction with this index.
    At(int, Cpu),
    /// To an address outside of the program.
    Out(u32, Cpu),
    /// Nowhere that is modelled.
    Stuck,
}

/// The place from `i` on that binds `label`; programs bind a label once.
pub open spec fn bound(ops: Seq<AsmOp>, label: u16, i: int) -> int
    decreases ops.len() - i,
{
    if i >= ops.len() {
        ops.len() as int
    } else if ops[i] == AsmOp::Bind(label) {
        i
    } else {
        bound(ops, label, i + 1)
    }
}

/// Bit `k` of a register list. The first eight bits name `r0` to `r7`; the ninth names
/// the link register when pushing and the program counter when popping.
pub open spec fn names(list: u16, k: int) -> bool {
    if k == 0 {
        list % 2 == 1
    } else if k == 1 {
        list / 2 % 2 == 1
    } else if k == 2 {
        list / 4 % 2 == 1
    } else if k == 3 {
        list / 8 % 2 == 1
    } else if k == 4 {
        list / 16 % 2 == 1
    } else if k == 5 {
        list / 32 % 2 == 1
    } else if k == 6 {
        list / 64 % 2 == 1
    } else if k == 7 {
        list / 128 % 2 == 1
    } else {
        list / 256 % 2 == 1
    }
}

/// The registers that the first `n` bits of `list` name, in ascending order; `ninth` is
/// what its ninth bit names.
pub open spec fn listed(list: u16, n: nat, ninth: u16) -> Seq<u16>
    decreases n,
{
    if n == 0 {
        Seq::empty()
    } else {
        let before = listed(list, (n - 1) as nat, ninth);
        if names(list, n - 1) {
            before.push(
                if n == 9 {
                    ninth
                } else {
                    (n - 1) as u16
                },
            )
        } else {
            before
        }
    }
}

/// `s` with the first `n` registers of `from` written from `sp` on.
pub open spec fn pushed(s: Cpu, from: Seq<u16>, sp: u32, n: nat) -> Cpu
    decreases n,
{
    if n == 0 {
        s
    } else {
        let before = pushed(s, from, sp, (n - 1) as nat);
        Cpu { mem: spilled(before.mem, plus(sp, 4 * (n - 1)), s.reg(from[n - 1])), ..before }
    }
}

/// `s` with the first `n` registers of `to` loaded from `sp` on; the program counter is
/// no register of its own.
pub open spec fn popped(s: Cpu, to: Seq<u16>, sp: u32, n: nat) -> Cpu
    decreases n,
{
    if n == 0 {
        s
    } else {
        let before = popped(s, to, sp, (n - 1) as nat);
        if to[n - 1] == PC {
            before
        } else {
            before.set(to[n - 1], s.word(plus(sp, 4 * (n - 1))))
        }
    }
}

/// An instruction that is given as a halfword: a load from the stack, a halfword or a
/// byte load, a move, or a stack reserve.
pub open spec fn raw_step(h: u16, s: Cpu) -> Option<Cpu> {
    let rt = h % 8;
    let rn = h / 8 % 8;
    let d = h / 64 % 32;
    if h / 2048 == 19 {
        Some(s.set(h / 256 % 8, s.word(plus(s.reg(SP), 4 * (h % 256)))))
    } else if h / 2048 == 17 {
        let a = plus(s.reg(rn), 2 * d);
        Some(s.set(rt, (s.byte(a) + 256 * s.byte(plus(a, 1))) as u32))
    } else if h / 2048 == 15 {
        Some(s.set(rt, s.byte(plus(s.reg(rn), d as int)) as u32))
    } else if h / 256 == 0x46 && h / 8 % 16 < 15 && rt + 8 * (h / 128 % 2) < 15 {
        Some(s.set((rt + 8 * (h / 128 % 2)) as u16, s.reg(h / 8 % 16)))
    } else if h / 128 == 353 {
        Some(s.set(SP, plus(s.reg(SP), -4 * (h % 128))))
    } else {
        None
    }
}

/// A push or a pop at `i`.
#[verifier::opaque]
pub open spec fn stack_step(op: AsmOp, i: int, s: Cpu) -> Next {
    match op {
        AsmOp::Push(list) => {
            let from = listed(list, 9, LR);
            let sp = plus(s.reg(SP), -4 * from.len());
            Next::At(i + 1, pushed(s, from, sp, from.len()).set(SP, sp))
        },
        AsmOp::Pop(list) => {
            let to = listed(list, 9, PC);
            let sp = s.reg(SP);
            let t = popped(s, to, sp, to.len()).set(SP, plus(sp, (4 * to.len()) as int));
            if to.len() > 0 && to.last() == PC {
                Next::Out(s.word(plus(sp, 4 * (to.len() - 1))), t)
            } else {
                Next::At(i + 1, t)
            }
        },
        _ => Next::Stuck,
    }
}

/// Arithmetic, and loads and stores of more than a byte.
#[verifier::opaque]
pub open spec fn data_step(op: AsmOp, s: Cpu) -> Option<Cpu> {
    match op {
        AsmOp::LdrImm(rt, rn, d) => Some(s.set(rt, s.word(plus(s.reg(rn), d as int)))),
        AsmOp::StrImm(rt, rn, d) => Some(s.store_word(plus(s.reg(rn), d as int), s.reg(rt))),
        AsmOp::StrhImm(rt, rn, d) => {
            let a = plus(s.reg(rn), d as int);
            let b = raw::le_bytes(s.reg(rt));
            Some(s.store(a, b[0]).store(plus(a, 1), b[1]))
        },
        AsmOp::LdrbReg(rt, rn, rm) => Some(
            s.set(rt, s.byte(plus(s.reg(rn), s.reg(rm) as int)) as u32),
        ),
        AsmOp::Bics(rd, rm) => {
            let v = s.reg(rd) & !s.reg(rm);
            Some(s.set(rd, v).test(v))
        },
        AsmOp::Orrs(rd, rm) => {
            let v = s.reg(rd) | s.reg(rm);
            Some(s.set(rd, v).test(v))
        },
        AsmOp::AddsImm(rt, d) => {
            let v = plus(s.reg(rt), d as int);
            let t = s.set(rt, v).test(v);
            Some(Cpu { c: s.reg(rt) + d > u32::MAX, ..t })
        },
        AsmOp::AddsReg(rd, rn, rm) => {
            let v = plus(s.reg(rn), s.reg(rm) as int);
            let t = s.set(rd, v).test(v);
            Some(Cpu { c: s.reg(rn) + s.reg(rm) > u32::MAX, ..t })
        },
        AsmOp::SubsImm(rt, d) => Some(
            s.compared(s.reg(rt), d as u32).set(rt, plus(s.reg(rt), -(d as int))),
        ),
        AsmOp::LslsImm(rd, rm, d) => {
            let v = s.reg(rm) << d;
            let t = s.set(rd, v).test(v);
            Some(
                if d == 0 {
                    t
                } else {
                    Cpu { c: (s.reg(rm) >> (32 - d)) % 2 == 1, ..t }
                },
            )
        },
        AsmOp::LsrsImm(rd, rm, d) => {
            let v = if d == 0 {
                0
            } else {
                s.reg(rm) >> d
            };
            let t = s.set(rd, v).test(v);
            let out = if d == 0 {
                31
            } else {
                d - 1
            };
            Some(Cpu { c: (s.reg(rm) >> out) % 2 == 1, ..t })
        },
        AsmOp::MovReg(rd, rm) => if rd < 15 && rm < 15 {
            Some(s.set(rd, s.reg(rm)))
        } else {
            None
        },
        AsmOp::Raw16(h) => raw_step(h, s),
        _ => None,
    }
}

/// The instruction at `i`.
#[verifier::opaque]
pub open spec fn step(w: World, ops: Seq<AsmOp>, i: int, s: Cpu) -> Next {
    match ops[i] {
        AsmOp::Label | AsmOp::Blob(_) | AsmOp::Bind(_) => Next::At(i + 1, s),
        AsmOp::LdrLit(rt, v) => Next::At(i + 1, s.set(rt, v)),
        AsmOp::LdrbImm(rt, rn, d) => Next::At(
            i + 1,
            s.set(rt, s.byte(plus(s.reg(rn), d as int)) as u32),
        ),
        AsmOp::StrbImm(rt, rn, d) => Next::At(
            i + 1,
            s.store(plus(s.reg(rn), d as int), (s.reg(rt) % 256) as u8),
        ),
        AsmOp::MovsImm(rt, v) => Next::At(i + 1, s.set(rt, v as u32).test(v as u32)),
        AsmOp::Compare(rn, v) => Next::At(i + 1, s.compared(s.reg(rn), v as u32)),
        AsmOp::CompareReg(rn, rm) => Next::At(i + 1, s.compared(s.reg(rn), s.reg(rm))),
        AsmOp::Beq(l) => Next::At(
            if s.z {
                bound(ops, l, 0)
            } else {
                i + 1
            },
            s,
        ),
        AsmOp::Bne(l) => Next::At(
            if s.z {
                i + 1
            } else {
                bound(ops, l, 0)
            },
            s,
        ),
        AsmOp::Bhi(l) => Next::At(
            if s.c && !s.z {
                bound(ops, l, 0)
            } else {
                i + 1
            },
            s,
        ),
        AsmOp::Blo(l) => Next::At(
            if s.c {
                i + 1
            } else {
                bound(ops, l, 0)
            },
            s,
        ),
        AsmOp::B(l) => Next::At(bound(ops, l, 0), s),
        AsmOp::Bx(rm) => Next::Out(s.reg(rm), s),
        AsmOp::Bhs(l) => Next::At(
            if s.c {
                bound(ops, l, 0)
            } else {
                i + 1
            },
            s,
        ),
        AsmOp::Blx(rm) => Next::At(
            i + 1,
            (w.call)(s.reg(rm), s.calling(s.reg(rm))),
        ),
        AsmOp::Adr(rd, l) => Next::At(i + 1, s.set(rd, (w.data)(l))),
        AsmOp::Push(_) | AsmOp::Pop(_) => stack_step(ops[i], i, s),
        _ => match data_step(ops[i], s) {
            Some(t) => Next::At(i + 1, t),
            None => Next::Stuck,
        },
    }
}

/// Where the program leaves off from `i` on, in no more than `n` steps, and how.
pub open spec fn run(w: World, ops: Seq<AsmOp>, i: int, s: Cpu, n: nat) -> Option<(u32, Cpu)>
    decreases n,
{
    if n == 0 || !(0 <= i < ops.len()) {
        None
    } else {
        match step(w, ops, i, s) {
            Next::At(j, t) => run(w, ops, j, t, (n - 1) as nat),
            Next::Out(a, t) => Some((a, t)),
            Next::Stuck => None,
        }
    }
}

/// Where the program leaves off from `i` on and how, when it does.
#[verifier::opaque]
pub open spec fn outcome(w: World, ops: Seq<AsmOp>, i: int, s: Cpu) -> Option<(u32, Cpu)> {
    if exists|n: nat| run(w, ops, i, s, n) is Some {
        run(w, ops, i, s, choose|n: nat| run(w, ops, i, s, n) is Some)
    } else {
        None
    }
}

/// More steps change nothing once the program has left off.
proof fn lemma_run_grows(w: World, ops: Seq<AsmOp>, i: int, s: Cpu, n: nat, m: nat)
    requires
        run(w, ops, i, s, n) is Some,
        n <= m,
    ensures
        run(w, ops, i, s, m) == run(w, ops, i, s, n),
    decreases n,
{
    if let Next::At(j, t) = step(w, ops, i, s) {
        lemma_run_grows(w, ops, j, t, (n - 1) as nat, (m - 1) as nat);
    }
}

/// The outcome is that of any run that leaves off.
proof fn lemma_outcome(w: World, ops: Seq<AsmOp>, i: int, s: Cpu, n: nat)
    requires
        run(w, ops, i, s, n) is Some,
    ensures
        outcome(w, ops, i, s) == run(w, ops, i, s, n),
{
    reveal(outcome);
    let m = choose|n: nat| run(w, ops, i, s, n) is Some;
    if m <= n {
        lemma_run_grows(w, ops, i, s, m, n);
    } else {
        lemma_run_grows(w, ops, i, s, n, m);
    }
}

/// An instruction hands on to the next.
pub proof fn lemma_at(w: World, ops: Seq<AsmOp>, i: int, s: Cpu, j: int, t: Cpu)
    requires
        0 <= i < ops.len(),
        step(w, ops, i, s) == Next::At(j, t),
    ensures
        outcome(w, ops, i, s) == outcome(w, ops, j, t),
{
    reveal(outcome);
    if exists|n: nat| run(w, ops, j, t, n) is Some {
        let n = choose|n: nat| run(w, ops, j, t, n) is Some;
        assert(run(w, ops, i, s, n + 1) == run(w, ops, j, t, n));
        lemma_outcome(w, ops, i, s, n + 1);
        lemma_outcome(w, ops, j, t, n);
    } else if exists|n: nat| run(w, ops, i, s, n) is Some {
        let n = choose|n: nat| run(w, ops, i, s, n) is Some;
        assert(run(w, ops, j, t, (n - 1) as nat) is Some);
    }
}

/// An instruction leaves the program.
pub proof fn lemma_out(w: World, ops: Seq<AsmOp>, i: int, s: Cpu, a: u32, t: Cpu)
    requires
        0 <= i < ops.len(),
        step(w, ops, i, s) == Next::Out(a, t),
    ensures
        outcome(w, ops, i, s) == Some((a, t)),
{
    assert(run(w, ops, i, s, 1) == Some((a, t)));
    lemma_outcome(w, ops, i, s, 1);
}

/// A label is where it is first bound.
pub proof fn lemma_bound(ops: Seq<AsmOp>, label: u16, i: int, k: int)
    requires
        0 <= i <= k < ops.len(),
        ops[k] == AsmOp::Bind(label),
        forall|j: int| i <= j < k ==> #[trigger] ops[j] != AsmOp::Bind(label),
    ensures
        bound(ops, label, i) == k,
    decreases k - i,
{
    if i < k {
        assert(ops[i] != AsmOp::Bind(label));
        lemma_bound(ops, label, i + 1, k);
    }
}

/// Labels and data take no time.
pub proof fn pass(w: World, ops: Seq<AsmOp>, i: int, s: Cpu, j: int)
    requires
        0 <= i <= j <= ops.len(),
        forall|k: int|
            i <= k < j ==> (#[trigger] ops[k] is Label || ops[k] is Blob || ops[k] is Bind),
    ensures
        outcome(w, ops, i, s) == outcome(w, ops, j, s),
    decreases j - i,
{
    if i < j {
        assert(ops[i] is Label || ops[i] is Blob || ops[i] is Bind);
        reveal(step);
        lemma_at(w, ops, i, s, i + 1, s);
        pass(w, ops, i + 1, s, j);
    }
}

/// `ldr rt,=v`
pub proof fn ldr_lit(w: World, ops: Seq<AsmOp>, i: int, s: Cpu, rt: u16, v: u32) -> (t: Cpu)
    requires
        0 <= i < ops.len(),
        ops[i] == AsmOp::LdrLit(rt, v),
    ensures
        t == s.set(rt, v),
        outcome(w, ops, i, s) == outcome(w, ops, i + 1, t),
{
    reveal(step);
    lemma_at(w, ops, i, s, i + 1, s.set(rt, v));
    s.set(rt, v)
}

/// `ldrb rt,[rn,#d]`
pub proof fn ldrb_imm(
    w: World,
    ops: Seq<AsmOp>,
    i: int,
    s: Cpu,
    rt: u16,
    rn: u16,
    d: u16,
) -> (t: Cpu)
    requires
        0 <= i < ops.len(),
        ops[i] == AsmOp::LdrbImm(rt, rn, d),
    ensures
        t == s.set(rt, s.byte(plus(s.reg(rn), d as int)) as u32),
        outcome(w, ops, i, s) == outcome(w, ops, i + 1, t),
{
    reveal(step);
    let t = s.set(rt, s.byte(plus(s.reg(rn), d as int)) as u32);
    lemma_at(w, ops, i, s, i + 1, t);
    t
}

/// `strb rt,[rn,#d]`
pub proof fn strb_imm(
    w: World,
    ops: Seq<AsmOp>,
    i: int,
    s: Cpu,
    rt: u16,
    rn: u16,
    d: u16,
) -> (t: Cpu)
    requires
        0 <= i < ops.len(),
        ops[i] == AsmOp::StrbImm(rt, rn, d),
    ensures
        t == s.store(plus(s.reg(rn), d as int), (s.reg(rt) % 256) as u8),
        outcome(w, ops, i, s) == outcome(w, ops, i + 1, t),
{
    reveal(step);
    let t = s.store(plus(s.reg(rn), d as int), (s.reg(rt) % 256) as u8);
    lemma_at(w, ops, i, s, i + 1, t);
    t
}

/// `movs rt,#v`
pub proof fn movs_imm(w: World, ops: Seq<AsmOp>, i: int, s: Cpu, rt: u16, v: u8) -> (t: Cpu)
    requires
        0 <= i < ops.len(),
        ops[i] == AsmOp::MovsImm(rt, v),
    ensures
        t == s.set(rt, v as u32).test(v as u32),
        outcome(w, ops, i, s) == outcome(w, ops, i + 1, t),
{
    reveal(step);
    let t = s.set(rt, v as u32).test(v as u32);
    lemma_at(w, ops, i, s, i + 1, t);
    t
}

/// `cmp rn,#v`
pub proof fn compare(w: World, ops: Seq<AsmOp>, i: int, s: Cpu, rn: u16, v: u8) -> (t: Cpu)
    requires
        0 <= i < ops.len(),
        ops[i] == AsmOp::Compare(rn, v),
    ensures
        t == s.compared(s.reg(rn), v as u32),
        outcome(w, ops, i, s) == outcome(w, ops, i + 1, t),
{
    reveal(step);
    let t = s.compared(s.reg(rn), v as u32);
    lemma_at(w, ops, i, s, i + 1, t);
    t
}

/// `cmp rn,rm`
pub proof fn compare_reg(w: World, ops: Seq<AsmOp>, i: int, s: Cpu, rn: u16, rm: u16) -> (t: Cpu)
    requires
        0 <= i < ops.len(),
        ops[i] == AsmOp::CompareReg(rn, rm),
    ensures
        t == s.compared(s.reg(rn), s.reg(rm)),
        outcome(w, ops, i, s) == outcome(w, ops, i + 1, t),
{
    reveal(step);
    let t = s.compared(s.reg(rn), s.reg(rm));
    lemma_at(w, ops, i, s, i + 1, t);
    t
}

/// Whether the branch at `i` is taken.
pub open spec fn taken(op: AsmOp, s: Cpu) -> bool {
    match op {
        AsmOp::Beq(_) => s.z,
        AsmOp::Bne(_) => !s.z,
        AsmOp::Bhs(_) => s.c,
        AsmOp::Blo(_) => !s.c,
        AsmOp::Bhi(_) => s.c && !s.z,
        AsmOp::B(_) => true,
        _ => false,
    }
}

/// `op` is a branch to `label`.
pub open spec fn branches(op: AsmOp, label: u16) -> bool {
    op == AsmOp::Beq(label) || op == AsmOp::Bne(label) || op == AsmOp::Bhs(label) || op
        == AsmOp::Blo(label) || op == AsmOp::Bhi(label) || op == AsmOp::B(label)
}

/// A branch that is taken goes to where its label is first bound.
pub proof fn jump(w: World, ops: Seq<AsmOp>, i: int, s: Cpu, label: u16, k: int)
    requires
        0 <= i < ops.len(),
        branches(ops[i], label),
        taken(ops[i], s),
        0 <= k < ops.len(),
        ops[k] == AsmOp::Bind(label),
        forall|j: int| 0 <= j < k ==> #[trigger] ops[j] != AsmOp::Bind(label),
    ensures
        outcome(w, ops, i, s) == outcome(w, ops, k + 1, s),
{
    reveal(step);
    lemma_bound(ops, label, 0, k);
    lemma_at(w, ops, i, s, k, s);
    lemma_at(w, ops, k, s, k + 1, s);
}

/// A branch that is not taken goes on.
pub proof fn stay(w: World, ops: Seq<AsmOp>, i: int, s: Cpu, label: u16)
    requires
        0 <= i < ops.len(),
        branches(ops[i], label),
        !taken(ops[i], s),
    ensures
        outcome(w, ops, i, s) == outcome(w, ops, i + 1, s),
{
    reveal(step);
    lemma_at(w, ops, i, s, i + 1, s);
}

/// `bx rm`
pub proof fn bx(w: World, ops: Seq<AsmOp>, i: int, s: Cpu, rm: u16)
    requires
        0 <= i < ops.len(),
        ops[i] == AsmOp::Bx(rm),
    ensures
        outcome(w, ops, i, s) == Some((s.reg(rm), s)),
{
    reveal(step);
    lemma_out(w, ops, i, s, s.reg(rm), s);
}

/// `blx rm`
pub proof fn blx(w: World, ops: Seq<AsmOp>, i: int, s: Cpu, rm: u16) -> (t: Cpu)
    requires
        0 <= i < ops.len(),
        ops[i] == AsmOp::Blx(rm),
    ensures
        t == (w.call)(s.reg(rm), s.calling(s.reg(rm))),
        outcome(w, ops, i, s) == outcome(w, ops, i + 1, t),
{
    reveal(step);
    let t = (w.call)(s.reg(rm), s.calling(s.reg(rm)));
    lemma_at(w, ops, i, s, i + 1, t);
    t
}

/// `adr rd,label`
pub proof fn adr(w: World, ops: Seq<AsmOp>, i: int, s: Cpu, rd: u16, label: u16) -> (t: Cpu)
    requires
        0 <= i < ops.len(),
        ops[i] == AsmOp::Adr(rd, label),
    ensures
        t == s.set(rd, (w.data)(label)),
        outcome(w, ops, i, s) == outcome(w, ops, i + 1, t),
{
    reveal(step);
    let t = s.set(rd, (w.data)(label));
    lemma_at(w, ops, i, s, i + 1, t);
    t
}

/// `op` is arithmetic, or a load or store of more than a byte.
pub open spec fn is_data(op: AsmOp) -> bool {
    op is LdrImm || op is StrImm || op is StrhImm || op is LdrbReg || op is Bics || op is Orrs
        || op is AddsImm || op is AddsReg || op is SubsImm || op is LslsImm || op is LsrsImm
        || op is MovReg || op is Raw16
}

/// Arithmetic, or a load or store of more than a byte.
pub proof fn data(w: World, ops: Seq<AsmOp>, i: int, s: Cpu, op: AsmOp) -> (t: Cpu)
    requires
        0 <= i < ops.len(),
        ops[i] == op,
        is_data(op),
        data_step(op, s) is Some,
    ensures
        Some(t) == data_step(op, s),
        outcome(w, ops, i, s) == outcome(w, ops, i + 1, t),
{
    reveal(step);
    let t = data_step(op, s)->Some_0;
    lemma_at(w, ops, i, s, i + 1, t);
    t
}

/// `push {list}`
pub proof fn push(w: World, ops: Seq<AsmOp>, i: int, s: Cpu, list: u16) -> (t: Cpu)
    requires
        0 <= i < ops.len(),
        ops[i] == AsmOp::Push(list),
    ensures
        ({
            let from = listed(list, 9, LR);
            let sp = plus(s.reg(SP), -4 * from.len());
            t == pushed(s, from, sp, from.len()).set(SP, sp)
        }),
        outcome(w, ops, i, s) == outcome(w, ops, i + 1, t),
{
    reveal(step);
    reveal(stack_step);
    let from = listed(list, 9, LR);
    let sp = plus(s.reg(SP), -4 * from.len());
    let t = pushed(s, from, sp, from.len()).set(SP, sp);
    lemma_at(w, ops, i, s, i + 1, t);
    t
}

/// `pop {list}`, which leaves the program when the program counter is in the list.
pub proof fn pop(w: World, ops: Seq<AsmOp>, i: int, s: Cpu, list: u16) -> (t: Cpu)
    requires
        0 <= i < ops.len(),
        ops[i] == AsmOp::Pop(list),
    ensures
        ({
            let to = listed(list, 9, PC);
            let sp = s.reg(SP);
            &&& t == popped(s, to, sp, to.len()).set(SP, plus(sp, (4 * to.len()) as int))
            &&& if to.len() > 0 && to.last() == PC {
                outcome(w, ops, i, s) == Some((s.word(plus(sp, 4 * (to.len() - 1))), t))
            } else {
                outcome(w, ops, i, s) == outcome(w, ops, i + 1, t)
            }
        }),
{
    reveal(step);
    reveal(stack_step);
    let to = listed(list, 9, PC);
    let sp = s.reg(SP);
    let t = popped(s, to, sp, to.len()).set(SP, plus(sp, (4 * to.len()) as int));
    if to.len() > 0 && to.last() == PC {
        lemma_out(w, ops, i, s, s.word(plus(sp, 4 * (to.len() - 1))), t);
    } else {
        lemma_at(w, ops, i, s, i + 1, t);
    }
    t
}

/// `push` of one register.
pub proof fn push_one(w: World, ops: Seq<AsmOp>, i: int, s: Cpu, list: u16, r: u16) -> (t: Cpu)
    requires
        0 <= i < ops.len(),
        ops[i] == AsmOp::Push(list),
        listed(list, 9, LR) == seq![r],
    ensures
        ({
            let sp = plus(s.reg(SP), -4);
            t == (Cpu { mem: spilled(s.mem, sp, s.reg(r)), ..s }).set(SP, sp)
        }),
        outcome(w, ops, i, s) == outcome(w, ops, i + 1, t),
{
    reveal(plus);
    reveal_with_fuel(pushed, 2);
    assert(plus(plus(s.reg(SP), -4), 0) == plus(s.reg(SP), -4));
    push(w, ops, i, s, list)
}

/// `pop` of one register.
pub proof fn pop_one(w: World, ops: Seq<AsmOp>, i: int, s: Cpu, list: u16, r: u16) -> (t: Cpu)
    requires
        0 <= i < ops.len(),
        ops[i] == AsmOp::Pop(list),
        listed(list, 9, PC) == seq![r],
        r != PC,
    ensures
        t == s.set(r, s.word(s.reg(SP))).set(SP, plus(s.reg(SP), 4)),
        outcome(w, ops, i, s) == outcome(w, ops, i + 1, t),
{
    reveal(plus);
    reveal_with_fuel(popped, 2);
    assert(plus(s.reg(SP), 0) == s.reg(SP));
    pop(w, ops, i, s, list)
}

/// `push` of one register and the link register.
pub proof fn push_two(w: World, ops: Seq<AsmOp>, i: int, s: Cpu, list: u16, r: u16) -> (t: Cpu)
    requires
        0 <= i < ops.len(),
        ops[i] == AsmOp::Push(list),
        listed(list, 9, LR) == seq![r, LR],
    ensures
        ({
            let sp = plus(s.reg(SP), -8);
            let mem = spilled(spilled(s.mem, sp, s.reg(r)), plus(sp, 4), s.reg(LR));
            t == (Cpu { mem, ..s }).set(SP, sp)
        }),
        outcome(w, ops, i, s) == outcome(w, ops, i + 1, t),
{
    reveal(plus);
    reveal_with_fuel(pushed, 3);
    assert(plus(plus(s.reg(SP), -8), 0) == plus(s.reg(SP), -8));
    push(w, ops, i, s, list)
}

/// `pop` of one register and the program counter.
pub proof fn pop_two(w: World, ops: Seq<AsmOp>, i: int, s: Cpu, list: u16, r: u16) -> (t: Cpu)
    requires
        0 <= i < ops.len(),
        ops[i] == AsmOp::Pop(list),
        listed(list, 9, PC) == seq![r, PC],
        r != PC,
    ensures
        t == s.set(r, s.word(s.reg(SP))).set(SP, plus(s.reg(SP), 8)),
        outcome(w, ops, i, s) == Some((s.word(plus(s.reg(SP), 4)), t)),
{
    reveal(plus);
    reveal_with_fuel(popped, 3);
    assert(plus(s.reg(SP), 0) == s.reg(SP));
    pop(w, ops, i, s, list)
}

/// `pop` of two registers and the program counter.
pub proof fn pop_three(
    w: World,
    ops: Seq<AsmOp>,
    i: int,
    s: Cpu,
    list: u16,
    r: u16,
    q: u16,
) -> (t: Cpu)
    requires
        0 <= i < ops.len(),
        ops[i] == AsmOp::Pop(list),
        listed(list, 9, PC) == seq![r, q, PC],
        r != PC,
        q != PC,
    ensures
        t == s.set(r, s.word(s.reg(SP))).set(q, s.word(plus(s.reg(SP), 4))).set(
            SP,
            plus(s.reg(SP), 12),
        ),
        outcome(w, ops, i, s) == Some((s.word(plus(s.reg(SP), 8)), t)),
{
    reveal(plus);
    reveal_with_fuel(popped, 4);
    assert(plus(s.reg(SP), 0) == s.reg(SP));
    pop(w, ops, i, s, list)
}

/// `push` of `rs`.
pub proof fn push_all(
    w: World,
    ops: Seq<AsmOp>,
    i: int,
    s: Cpu,
    list: u16,
    rs: Seq<u16>,
) -> (t: Cpu)
    requires
        0 <= i < ops.len(),
        ops[i] == AsmOp::Push(list),
        listed(list, 9, LR) == rs,
    ensures
        t == (Cpu { mem: frame_mem(s, rs), ..s }).set(SP, frame_at(s, rs)),
        outcome(w, ops, i, s) == outcome(w, ops, i + 1, t),
{
    let t = push(w, ops, i, s, list);
    lemma_pushed_only(s, rs, frame_at(s, rs), rs.len());
    t
}

/// Where the frame with `rs` begins.
pub open spec fn frame_at(s: Cpu, rs: Seq<u16>) -> u32 {
    plus(s.reg(SP), -4 * rs.len())
}

/// The memory with `rs` pushed.
pub open spec fn frame_mem(s: Cpu, rs: Seq<u16>) -> Map<u32, u8> {
    pushed(s, rs, frame_at(s, rs), rs.len()).mem
}

/// A push changes nothing but memory.
proof fn lemma_pushed_only(s: Cpu, from: Seq<u16>, sp: u32, n: nat)
    ensures
        pushed(s, from, sp, n) == (Cpu { mem: pushed(s, from, sp, n).mem, ..s }),
    decreases n,
{
    if n > 0 {
        lemma_pushed_only(s, from, sp, (n - 1) as nat);
    }
}

/// What was pushed is in the frame, and the memory outside of it has not changed.
pub proof fn lemma_pushed(s: Cpu, from: Seq<u16>, sp: u32, n: nat)
    requires
        n <= 8,
    ensures
        forall|i: int|
            0 <= i < n ==> word_at(pushed(s, from, sp, n).mem, #[trigger] plus(sp, 4 * i))
                == s.reg(from[i]),
        forall|x: u32|
            (forall|k: int| 0 <= k < 4 * n ==> x != #[trigger] plus(sp, k))
                ==> #[trigger] pushed(s, from, sp, n).mem[x] == s.mem[x],
    decreases n,
{
    if n > 0 {
        let m = (n - 1) as nat;
        let before = pushed(s, from, sp, m).mem;
        let after = pushed(s, from, sp, n).mem;
        lemma_pushed(s, from, sp, m);
        lemma_spilled_at(before, sp, 4 * (n - 1), s.reg(from[m as int]));
        assert forall|i: int| 0 <= i < n implies word_at(after, #[trigger] plus(sp, 4 * i))
            == s.reg(from[i]) by {
            if i < m {
                lemma_word_off(before, after, sp, 4 * i, 4 * (n - 1));
            }
        }
        assert forall|x: u32|
            (forall|k: int| 0 <= k < 4 * n ==> x != #[trigger] plus(sp, k)) implies #[trigger] after[x]
            == s.mem[x] by {
            assert(forall|k: int| 4 * m <= k < 4 * m + 4 ==> x != #[trigger] plus(sp, k));
            assert(forall|k: int| 0 <= k < 4 * m ==> x != #[trigger] plus(sp, k));
        }
    }
}

/// A word written at an offset of a frame reads back, and nothing else has changed.
proof fn lemma_spilled_at(mem: Map<u32, u8>, sp: u32, d: int, v: u32)
    ensures
        word_at(spilled(mem, plus(sp, d), v), plus(sp, d)) == v,
        forall|x: u32|
            (forall|k: int| d <= k < d + 4 ==> x != #[trigger] plus(sp, k))
                ==> #[trigger] spilled(mem, plus(sp, d), v)[x] == mem[x],
{
    reveal(plus);
    let a = plus(sp, d);
    lemma_spilled(mem, a, v);
    assert forall|x: u32|
        (forall|k: int| d <= k < d + 4 ==> x != #[trigger] plus(sp, k)) implies #[trigger] spilled(
        mem,
        a,
        v,
    )[x] == mem[x] by {
        assert(x != plus(sp, d + 1) && x != plus(sp, d + 2) && x != plus(sp, d + 3));
        assert(plus(a, 1) == plus(sp, d + 1));
        assert(plus(a, 2) == plus(sp, d + 2));
        assert(plus(a, 3) == plus(sp, d + 3));
    }
}

/// A word is kept when only another word of the same frame has changed.
proof fn lemma_word_off(m: Map<u32, u8>, n: Map<u32, u8>, sp: u32, i: int, d: int)
    requires
        0 <= i,
        i + 4 <= d,
        d + 4 <= 64,
        forall|x: u32|
            (forall|k: int| d <= k < d + 4 ==> x != #[trigger] plus(sp, k)) ==> #[trigger] n[x]
                == m[x],
    ensures
        word_at(n, plus(sp, i)) == word_at(m, plus(sp, i)),
{
    let b = plus(sp, i);
    assert forall|j: int| 0 <= j < 4 implies n[#[trigger] plus(sp, i + j)] == m[plus(
        sp,
        i + j,
    )] by {
        assert forall|k: int| d <= k < d + 4 implies plus(sp, i + j) != #[trigger] plus(sp, k) by {
            lemma_plus_differ(sp, i + j, k);
        }
    }
    assert(plus(sp, i + 0) == b);
    assert(plus(b, 1) == plus(sp, i + 1)) by {
        reveal(plus);
    }
    assert(plus(b, 2) == plus(sp, i + 2)) by {
        reveal(plus);
    }
    assert(plus(b, 3) == plus(sp, i + 3)) by {
        reveal(plus);
    }
    lemma_word_kept(n, m, b);
}

/// The words of a frame are what its bytes are.
pub proof fn lemma_frame_kept(m: Map<u32, u8>, n: Map<u32, u8>, sp: u32, len: int)
    requires
        forall|k: int| 0 <= k < 4 * len ==> m[#[trigger] plus(sp, k)] == n[plus(sp, k)],
    ensures
        forall|i: int|
            0 <= i < len ==> word_at(m, #[trigger] plus(sp, 4 * i)) == word_at(n, plus(sp, 4 * i)),
{
    reveal(plus);
    assert forall|i: int| 0 <= i < len implies word_at(m, #[trigger] plus(sp, 4 * i)) == word_at(
        n,
        plus(sp, 4 * i),
    ) by {
        let b = plus(sp, 4 * i);
        assert(plus(b, 1) == plus(sp, 4 * i + 1));
        assert(plus(b, 2) == plus(sp, 4 * i + 2));
        assert(plus(b, 3) == plus(sp, 4 * i + 3));
        lemma_word_kept(m, n, b);
    }
}

/// `pop {r4-r7,pc}`
pub proof fn pop_saved(w: World, ops: Seq<AsmOp>, i: int, s: Cpu) -> (t: Cpu)
    requires
        0 <= i < ops.len(),
        ops[i] == AsmOp::Pop(0x01F0),
    ensures
        ({
            let sp = s.reg(SP);
            t == s.set(4, s.word(plus(sp, 0))).set(5, s.word(plus(sp, 4))).set(
                6,
                s.word(plus(sp, 8)),
            ).set(7, s.word(plus(sp, 12))).set(SP, plus(sp, 20))
        }),
        outcome(w, ops, i, s) == Some((s.word(plus(s.reg(SP), 16)), t)),
{
    lemma_listed_frames();
    reveal_with_fuel(popped, 6);
    pop(w, ops, i, s, 0x01F0)
}

/// `pop {r0-r3}`
pub proof fn pop_scratch(w: World, ops: Seq<AsmOp>, i: int, s: Cpu) -> (t: Cpu)
    requires
        0 <= i < ops.len(),
        ops[i] == AsmOp::Pop(0x000F),
    ensures
        ({
            let sp = s.reg(SP);
            t == s.set(0, s.word(plus(sp, 0))).set(1, s.word(plus(sp, 4))).set(
                2,
                s.word(plus(sp, 8)),
            ).set(3, s.word(plus(sp, 12))).set(SP, plus(sp, 16))
        }),
        outcome(w, ops, i, s) == outcome(w, ops, i + 1, t),
{
    lemma_listed_frames();
    reveal_with_fuel(popped, 5);
    pop(w, ops, i, s, 0x000F)
}

/// `pop {pc}`
pub proof fn pop_back(w: World, ops: Seq<AsmOp>, i: int, s: Cpu) -> (t: Cpu)
    requires
        0 <= i < ops.len(),
        ops[i] == AsmOp::Pop(0x0100),
    ensures
        t == s.set(SP, plus(s.reg(SP), 4)),
        outcome(w, ops, i, s) == Some((s.word(plus(s.reg(SP), 0)), t)),
{
    lemma_listed_frames();
    reveal_with_fuel(popped, 2);
    pop(w, ops, i, s, 0x0100)
}

/// The register lists of the handler and of the boot hook.
pub proof fn lemma_listed_frames()
    ensures
        listed(0x01F0, 9, LR) == seq![4u16, 5, 6, 7, LR],
        listed(0x01F0, 9, PC) == seq![4u16, 5, 6, 7, PC],
        listed(0x010F, 9, LR) == seq![0u16, 1, 2, 3, LR],
        listed(0x000F, 9, PC) == seq![0u16, 1, 2, 3],
        listed(0x0100, 9, PC) == seq![PC],
{
    reveal_with_fuel(listed, 10);
    assert(listed(0x01F0, 9, LR) =~= seq![4u16, 5, 6, 7, LR]);
    assert(listed(0x01F0, 9, PC) =~= seq![4u16, 5, 6, 7, PC]);
    assert(listed(0x010F, 9, LR) =~= seq![0u16, 1, 2, 3, LR]);
    assert(listed(0x000F, 9, PC) =~= seq![0u16, 1, 2, 3]);
    assert(listed(0x0100, 9, PC) =~= seq![PC]);
}

/// The register lists that trampolines use.
pub proof fn lemma_listed(ninth: u16)
    ensures
        listed(0x0001, 9, ninth) == seq![0u16],
        listed(0x0002, 9, ninth) == seq![1u16],
        listed(0x0008, 9, ninth) == seq![3u16],
        listed(0x0110, 9, ninth) == seq![4u16, ninth],
        listed(0x0118, 9, ninth) == seq![3u16, 4, ninth],
{
    reveal_with_fuel(listed, 10);
    assert(listed(0x0001, 9, ninth) =~= seq![0u16]);
    assert(listed(0x0002, 9, ninth) =~= seq![1u16]);
    assert(listed(0x0008, 9, ninth) =~= seq![3u16]);
    assert(listed(0x0110, 9, ninth) =~= seq![4u16, ninth]);
    assert(listed(0x0118, 9, ninth) =~= seq![3u16, 4, ninth]);
}

/// A word that was written reads back, and nothing else has changed.
pub proof fn lemma_spilled(mem: Map<u32, u8>, a: u32, v: u32)
    ensures
        word_at(spilled(mem, a, v), a) == v,
        forall|x: u32|
            x != a && x != plus(a, 1) && x != plus(a, 2) && x != plus(a, 3)
                ==> #[trigger] spilled(mem, a, v)[x] == mem[x],
{
    reveal(plus);
    reveal(word_at);
    reveal(spilled);
    assert(plus(a, 1) != a && plus(a, 2) != a && plus(a, 3) != a);
    assert(plus(a, 1) != plus(a, 2) && plus(a, 1) != plus(a, 3) && plus(a, 2) != plus(a, 3));
}

/// A word is what its four bytes are.
pub proof fn lemma_word_kept(m: Map<u32, u8>, n: Map<u32, u8>, a: u32)
    requires
        m[a] == n[a],
        m[plus(a, 1)] == n[plus(a, 1)],
        m[plus(a, 2)] == n[plus(a, 2)],
        m[plus(a, 3)] == n[plus(a, 3)],
    ensures
        word_at(m, a) == word_at(n, a),
{
    reveal(word_at);
}

} // verus!
