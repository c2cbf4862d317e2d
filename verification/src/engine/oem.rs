//! The code that a detour takes over, run from the image itself: while its flag passes
//! through, a detour leaves the drive where that code would have.
use crate::engine::behaviour;
use crate::engine::boot;
use crate::engine::code;
use crate::engine::detours;
use crate::engine::detours::AkePlan;
use crate::engine::emit;
use crate::engine::gates;
use crate::engine::handler;
use crate::engine::lasting;
use crate::engine::mt1939_classic;
use crate::engine::protocol;
use crate::engine::rawread;
use crate::engine::scanner;
use crate::engine::signatures::{AKE_GATE_SIG, REGION_EMIT_SIG, SPEED_GATE_SIG, SPEED_GATE_SIG_R0};
use crate::engine::space::TableEntry;
use crate::engine::spots;
use crate::engine::stubs;
use crate::engine::vid;
use crate::error::{FwError, Reason};
use crate::machine;
use crate::machine::{Cpu, World};
use crate::program::AsmOp;
use crate::raw;
use crate::sig;
use crate::thumb;
use crate::thumb::BranchShape;
use vstd::prelude::*;

verus! {

/// The displacement of a conditional branch, in halfwords behind the next but one.
pub open spec fn short_hop(h: u16) -> int {
    if h % 256 < 128 {
        (h % 256) as int
    } else {
        h % 256 - 256
    }
}

/// The displacement of an unconditional branch.
pub open spec fn long_hop(h: u16) -> int {
    if h % 2048 < 1024 {
        (h % 2048) as int
    } else {
        h % 2048 - 2048
    }
}

/// Whether a conditional branch is taken: `beq`, `bne` or `bhi`.
pub open spec fn condition(h: u16, s: Cpu) -> bool {
    if h / 256 == 0xD0 {
        s.z
    } else if h / 256 == 0xD1 {
        !s.z
    } else {
        s.c && !s.z
    }
}

/// The instruction of the image at `pc`: where it hands on to, and how. These are a compare
/// and a move of a constant, the branches, a shift, a byte store, a call, `pop {r3,r4,pc}`,
/// and the loads, moves and reserves that are given as halfwords.
pub open spec fn step(img: Seq<u8>, pc: u32, s: Cpu) -> Option<(u32, Cpu)> {
    let h = raw::hw_at(img, pc as int);
    let next = machine::plus(pc, 2);
    if h / 2048 == 5 {
        Some((next, s.compared(s.reg(h / 256 % 8), (h % 256) as u32)))
    } else if h / 2048 == 4 {
        Some((next, s.set(h / 256 % 8, (h % 256) as u32).test((h % 256) as u32)))
    } else if h / 256 == 0xD0 || h / 256 == 0xD1 || h / 256 == 0xD8 {
        Some(
            (
                if condition(h, s) {
                    machine::plus(pc, 4 + 2 * short_hop(h))
                } else {
                    next
                },
                s,
            ),
        )
    } else if h / 2048 == 28 {
        Some((machine::plus(pc, 4 + 2 * long_hop(h)), s))
    } else if h / 2048 == 1 && h / 64 % 32 != 0 {
        let v = s.reg(h / 8 % 8) >> (h / 64 % 32);
        Some((next, s.set(h % 8, v).test(v)))
    } else if h / 2048 == 14 {
        let to = machine::plus(s.reg(h / 8 % 8), (h / 64 % 32) as int);
        Some((next, s.store(to, (s.reg(h % 8) % 256) as u8)))
    } else if h / 2048 == 30 {
        match thumb::branch_target(BranchShape::Bl, img, pc as int) {
            Some(t) => Some((t, s.set(machine::LR, machine::plus(pc, 4) | 1))),
            None => None,
        }
    } else if h == 0xBD18 {
        let sp = s.reg(machine::SP);
        let t = s.set(3, s.word(sp)).set(4, s.word(machine::plus(sp, 4)));
        Some((s.word(machine::plus(sp, 8)), t.set(machine::SP, machine::plus(sp, 12))))
    } else {
        match machine::raw_step(h, s) {
            Some(t) => Some((next, t)),
            None => None,
        }
    }
}

/// `n` instructions of the image from `pc` on.
pub open spec fn runs(img: Seq<u8>, pc: u32, s: Cpu, n: nat) -> Option<(u32, Cpu)>
    decreases n,
{
    if n == 0 {
        Some((pc, s))
    } else {
        match step(img, pc, s) {
            Some((to, t)) => runs(img, to, t, (n - 1) as nat),
            None => None,
        }
    }
}

/// The processor as the branch at `site` hands on to a stub: a call has left the way back.
pub open spec fn entered(shape: BranchShape, site: int, s: Cpu) -> Cpu {
    match shape {
        BranchShape::Bl => s.set(machine::LR, machine::plus(site as u32, 4) | 1),
        BranchShape::BWide => s,
    }
}

/// The stub `ops`, entered from `site`, leaves the drive where the `n` instructions of the
/// image there do: at the same place, with the same stores and calls made, and with the same
/// registers and memory but for the registers of `scratch`, the link register and the word
/// below the stack.
pub open spec fn replays(
    w: World,
    ops: Seq<AsmOp>,
    img: Seq<u8>,
    site: int,
    shape: BranchShape,
    n: nat,
    s: Cpu,
    scratch: Set<int>,
) -> bool {
    match (machine::outcome(w, ops, 0, entered(shape, site, s)), runs(img, site as u32, s, n)) {
        (Some((at, t)), Some((pc, u))) => {
            &&& at == pc | 1
            &&& t.whole()
            &&& forall|k: int|
                0 <= k < 14 && !scratch.contains(k) ==> #[trigger] t.regs[k] == u.regs[k]
            &&& forall|a: u32| behaviour::off_stack(u, a) ==> #[trigger] t.mem[a] == u.mem[a]
            &&& t.stores == u.stores
            &&& t.calls == u.calls
        },
        _ => false,
    }
}

/// The flag byte of slot `k` of the table at `flag_base`.
pub open spec fn slot(s: Cpu, flag_base: u32, k: int) -> u8 {
    s.byte((flag_base + k) as u32)
}

/// A conditional branch goes where it says, modulo 2^32.
pub proof fn lemma_short_hop(p: int, h: u16)
    requires
        0 <= p < 0x7FFF_8000,
    ensures
        code::address(code::cond_target(p, h)) == machine::plus(p as u32, 4 + 2 * short_hop(h)),
{
    reveal(machine::plus);
}

/// An unconditional branch goes where it says, modulo 2^32.
proof fn lemma_long_hop(p: int, h: u16)
    requires
        0 <= p < 0x7FFF_8000,
    ensures
        code::address(code::jump_target(p, h)) == machine::plus(p as u32, 4 + 2 * long_hop(h)),
{
    reveal(machine::plus);
}

/// Small steps in an image do not wrap.
proof fn lemma_ahead(p: int, d: int)
    requires
        0 <= p < 0x7FFF_8000,
        0 <= d <= 0x100,
    ensures
        machine::plus(p as u32, d) == p + d,
{
    reveal(machine::plus);
}

/// Two instructions one after the other.
proof fn lemma_two(img: Seq<u8>, site: int, s: Cpu)
    requires
        0 <= site <= raw::IMAGE_LIMIT,
    ensures
        runs(img, site as u32, s, 2) == match step(img, site as u32, s) {
            Some((to, t)) => step(img, to, t),
            None => None,
        },
        machine::plus(site as u32, 2) == site + 2,
        machine::plus((site + 2) as u32, 2) == machine::plus(site as u32, 4),
        machine::plus(site as u32, 4) == site + 4,
{
    reveal_with_fuel(runs, 3);
    lemma_ahead(site, 2);
    lemma_ahead(site, 4);
    lemma_ahead(site + 2, 2);
}

/// A compare with a constant and a conditional branch, `bne` or `bhi`.
proof fn lemma_compare_branch(img: Seq<u8>, site: int, s: Cpu)
    requires
        0 <= site <= raw::IMAGE_LIMIT,
        raw::hw_at(img, site) / 2048 == 5,
        raw::hw_at(img, site + 2) / 256 == 0xD1 || raw::hw_at(img, site + 2) / 256 == 0xD8,
    ensures
        ({
            let h = raw::hw_at(img, site);
            let b = raw::hw_at(img, site + 2);
            let t = s.compared(s.reg(h / 256 % 8), (h % 256) as u32);
            runs(img, site as u32, s, 2) == Some(
                (
                    if condition(b, t) {
                        code::address(code::cond_target(site + 2, b))
                    } else {
                        (site + 4) as u32
                    },
                    t,
                ),
            )
        }),
{
    lemma_two(img, site, s);
    lemma_short_hop(site + 2, raw::hw_at(img, site + 2));
}

/// The Volume ID gate at `site` and its stub `ops`: with the handshake flag anything but off
/// the stub decides as the compare and the branch in the image do; with the flag off it
/// clears the AGID bits of the session struct `agid`, calls `reset`, and goes on behind the
/// branch.
pub open spec fn gate_case(
    w: World,
    s: Cpu,
    img: Seq<u8>,
    site: int,
    flag_base: u32,
    agid: u32,
    reset: u32,
    ops: Seq<AsmOp>,
) -> bool {
    let cell = machine::plus(agid, 10);
    let kept = ((s.byte(cell) as u32 & !0xC0u32) % 256) as u8;
    if slot(s, flag_base, 6) != 0 {
        replays(w, ops, img, site, BranchShape::Bl, 2, s, set![2])
    } else {
        w.behaves() ==> (machine::outcome(
            w,
            ops,
            0,
            entered(BranchShape::Bl, site, s),
        ) matches Some((at, t)) && {
            &&& at == (site + 4) as u32 | 1
            &&& exists|c: Cpu|
                {
                    &&& c.mem == s.mem.insert(cell, kept)
                    &&& c.stores == s.stores.push((cell, kept))
                    &&& c.calls == s.calls.push(
                        machine::Call { to: reset | 1, r0: c.reg(0), r1: c.reg(1) },
                    )
                    &&& t.mem == (#[trigger] (w.call)(reset | 1, c)).mem
                    &&& t.stores == (w.call)(reset | 1, c).stores
                    &&& t.calls == (w.call)(reset | 1, c).calls
                }
        })
    }
}

/// [`gate_case`] from every state of the processor.
pub open spec fn gate_obeys(
    img: Seq<u8>,
    site: int,
    flag_base: u32,
    agid: u32,
    reset: u32,
    ops: Seq<AsmOp>,
) -> bool {
    forall|w: World, s: Cpu|
        s.whole() ==> #[trigger] gate_case(w, s, img, site, flag_base, agid, reset, ops)
}

/// The stub of a Volume ID gate, from one state.
proof fn lemma_gate_case(
    w: World,
    s: Cpu,
    img: Seq<u8>,
    site: int,
    flag_base: u32,
    agid: u32,
    reset: u32,
)
    requires
        s.whole(),
        0 <= site <= raw::IMAGE_LIMIT,
        raw::hw_at(img, site) == 0x2806,
        raw::hw_at(img, site + 2) / 256 == 0xD1,
    ensures
        gate_case(
            w,
            s,
            img,
            site,
            flag_base,
            agid,
            reset,
            stubs::gatea_program(
                flag_base,
                agid,
                (site + 4) as u32,
                code::address(code::cond_target(site + 2, raw::hw_at(img, site + 2))),
                reset,
            ),
        ),
{
    let authed = (site + 4) as u32;
    let deny = code::address(code::cond_target(site + 2, raw::hw_at(img, site + 2)));
    let e = entered(BranchShape::Bl, site, s);
    if slot(s, flag_base, 6) != 0 {
        lemma_compare_branch(img, site, s);
        behaviour::law_gatea_stub_is_oem(w, e, flag_base, agid, authed, deny, reset);
    } else if w.behaves() {
        behaviour::law_gatea_stub_opens(w, e, flag_base, agid, authed, deny, reset);
    }
}

/// The stub of a Volume ID gate.
proof fn lemma_gate_obeys(img: Seq<u8>, site: int, flag_base: u32, agid: u32, reset: u32)
    requires
        0 <= site <= raw::IMAGE_LIMIT,
        raw::hw_at(img, site) == 0x2806,
        raw::hw_at(img, site + 2) / 256 == 0xD1,
    ensures
        gate_obeys(
            img,
            site,
            flag_base,
            agid,
            reset,
            stubs::gatea_program(
                flag_base,
                agid,
                (site + 4) as u32,
                code::address(code::cond_target(site + 2, raw::hw_at(img, site + 2))),
                reset,
            ),
        ),
{
    let deny = code::address(code::cond_target(site + 2, raw::hw_at(img, site + 2)));
    let ops = stubs::gatea_program(flag_base, agid, (site + 4) as u32, deny, reset);
    assert forall|w: World, s: Cpu| s.whole() implies #[trigger] gate_case(
        w,
        s,
        img,
        site,
        flag_base,
        agid,
        reset,
        ops,
    ) by {
        lemma_gate_case(w, s, img, site, flag_base, agid, reset);
    }
}

/// The Volume ID detour of an image on which the Raw-read lever can be applied.
pub proof fn law_gate_detour_decides_as_the_image(img: Seq<u8>, flag_base: u32)
    requires
        raw::addressable(img),
        rawread::grounds(img, flag_base) is Ok,
    ensures
        ({
            let g = rawread::grounds(img, flag_base)->Ok_0;
            &&& 0 <= g.gatea_site
            &&& g.gatea_site + 4 <= img.len()
            &&& vid::agid_struct(img) matches Ok(agid) && vid::session_reset(img) == Ok::<
                u32,
                FwError,
            >(g.reset) && gate_obeys(img, g.gatea_site, flag_base, agid, g.reset, g.gatea)
        }),
{
    let g = rawread::grounds(img, flag_base)->Ok_0;
    spots::lemma_core_spots(img, flag_base);
    lemma_gate_obeys(img, g.gatea_site, flag_base, vid::agid_struct(img)->Ok_0, g.reset);
}

/// The Volume ID detour of a classic image; the session struct is the command block.
pub proof fn law_classic_gate_detour_decides_as_the_image(img: Seq<u8>, flag_base: u32)
    requires
        raw::addressable(img),
        mt1939_classic::classic_grounds(img, flag_base) is Ok,
    ensures
        ({
            let g = mt1939_classic::classic_grounds(img, flag_base)->Ok_0;
            &&& 0 <= g.gatea_site
            &&& g.gatea_site + 4 <= img.len()
            &&& scanner::cdb_base(img) matches Ok(agid) && vid::session_reset(img) matches Ok(
                reset,
            ) && gate_obeys(img, g.gatea_site, flag_base, agid, reset, g.gatea)
        }),
{
    let g = mt1939_classic::classic_grounds(img, flag_base)->Ok_0;
    spots::lemma_classic_core_spots(img, flag_base);
    lemma_gate_obeys(
        img,
        g.gatea_site,
        flag_base,
        scanner::cdb_base(img)->Ok_0,
        vid::session_reset(img)->Ok_0,
    );
}

/// The handshake writer, the `n` instructions at `site`, and its stub `ops`: the stub ends
/// where the writer does and with the registers that it leaves, but the state in `r1` is 6
/// when the handshake flag is off. A writer that is jumped over, or a single call, keeps
/// its link register too.
pub open spec fn ake_case(
    w: World,
    s: Cpu,
    img: Seq<u8>,
    site: int,
    shape: BranchShape,
    n: nat,
    flag_base: u32,
    ops: Seq<AsmOp>,
) -> bool {
    match (machine::outcome(w, ops, 0, entered(shape, site, s)), runs(img, site as u32, s, n)) {
        (Some((at, t)), Some((pc, u))) => {
            &&& at == pc | 1
            &&& t.whole()
            &&& forall|k: int|
                0 <= k < 14 && k != 1 && k != 2 ==> #[trigger] t.regs[k] == u.regs[k]
            &&& t.reg(1) == if slot(s, flag_base, 6) == 0 {
                6u32
            } else {
                u.reg(1)
            }
            &&& n == 1 || shape is BWide ==> t.reg(machine::LR) == u.reg(machine::LR)
            &&& t.mem == u.mem
            &&& t.stores == u.stores
            &&& t.calls == u.calls
        },
        _ => false,
    }
}

/// [`ake_case`] from every state of the processor.
pub open spec fn ake_obeys(
    img: Seq<u8>,
    site: int,
    shape: BranchShape,
    n: nat,
    flag_base: u32,
    ops: Seq<AsmOp>,
) -> bool {
    forall|w: World, s: Cpu|
        s.whole() ==> #[trigger] ake_case(w, s, img, site, shape, n, flag_base, ops)
}

/// The desktop line's reset writer, from one state.
proof fn lemma_ake_desktop(w: World, s: Cpu, img: Seq<u8>, flag_base: u32, gate: u32)
    requires
        s.whole(),
        raw::addressable(img),
        gate + 16 <= img.len(),
        raw::hw_at(img, gate + 12) == 0x2101,
        raw::hw_at(img, gate + 14) / 2048 == 28,
    ensures
        ake_case(
            w,
            s,
            img,
            gate + 12,
            BranchShape::BWide,
            2,
            flag_base,
            stubs::ake_program(
                flag_base,
                code::address(code::jump_target(gate + 14, raw::hw_at(img, gate + 14))),
            ),
        ),
{
    let site = gate + 12;
    let back = code::address(code::jump_target(site + 2, raw::hw_at(img, site + 2)));
    lemma_two(img, site, s);
    lemma_long_hop(site + 2, raw::hw_at(img, site + 2));
    behaviour::law_ake_stub(w, s, flag_base, back);
}

/// The portable lines' shared call, from one state.
proof fn lemma_ake_shared(w: World, s: Cpu, img: Seq<u8>, flag_base: u32, site: int, back: u32)
    requires
        s.whole(),
        raw::addressable(img),
        0 <= site,
        site + 4 <= img.len(),
        thumb::branch_target(BranchShape::Bl, img, site) == Some(back),
    ensures
        ake_case(
            w,
            s,
            img,
            site,
            BranchShape::Bl,
            1,
            flag_base,
            stubs::ake_nb_program(flag_base, back),
        ),
{
    let h = raw::hw_at(img, site);
    assert(h & 0xF800 == 0xF000 ==> h / 2048 == 30) by (bit_vector);
    reveal_with_fuel(runs, 2);
    behaviour::law_ake_nb_stub(w, entered(BranchShape::Bl, site, s), flag_base, back);
}

/// How many instructions the handshake detour takes over: the writer and its jump, or the
/// shared call.
pub open spec fn taken_over(p: AkePlan) -> nat {
    match p.shape {
        BranchShape::BWide => 2,
        BranchShape::Bl => 1,
    }
}

/// The handshake detour does as the writer that it takes over, but for the state it leaves
/// when the handshake is off.
#[verifier::rlimit(40)]
pub proof fn law_ake_detour_does_as_the_image(img: Seq<u8>, flag_base: u32, p: AkePlan)
    requires
        raw::addressable(img),
        detours::ake_plan(img, flag_base) == Ok::<AkePlan, FwError>(p),
    ensures
        p.site + 4 <= img.len(),
        ake_obeys(img, p.site as int, p.shape, taken_over(p), flag_base, p.ops),
{
    spots::lemma_ake_spot(img, flag_base);
    lasting::lemma_room(img, AKE_GATE_SIG@, 0, img.len() as int);
    assert forall|w: World, s: Cpu| s.whole() implies #[trigger] ake_case(
        w,
        s,
        img,
        p.site as int,
        p.shape,
        taken_over(p),
        flag_base,
        p.ops,
    ) by {
        match gates::ake_gate(img) {
            Ok(gate) => {
                lemma_ake_desktop(w, s, img, flag_base, gate);
            },
            Err(_) => {
                let back = thumb::branch_target(BranchShape::Bl, img, p.site as int)->Some_0;
                lemma_ake_shared(w, s, img, flag_base, p.site as int, back);
            },
        }
    }
}

/// The classic reject writer, from one state.
proof fn lemma_ake_classic(w: World, s: Cpu, img: Seq<u8>, flag_base: u32, site: int)
    requires
        s.whole(),
        0 <= site <= raw::IMAGE_LIMIT,
        raw::hw_at(img, site) == 0x0980,
        raw::hw_at(img, site + 2) == 0x2101,
    ensures
        ake_case(
            w,
            s,
            img,
            site,
            BranchShape::Bl,
            2,
            flag_base,
            stubs::ake_classic_program(flag_base, (site + 4) as u32),
        ),
{
    lemma_two(img, site, s);
    behaviour::law_ake_classic_stub(
        w,
        entered(BranchShape::Bl, site, s),
        flag_base,
        (site + 4) as u32,
    );
}

/// The classic handshake detour does as the writer that it takes over, but for the state it
/// leaves when the handshake is off.
#[verifier::rlimit(40)]
pub proof fn law_classic_ake_detour_does_as_the_image(img: Seq<u8>, flag_base: u32)
    requires
        raw::addressable(img),
        mt1939_classic::classic_grounds(img, flag_base) is Ok,
    ensures
        ({
            let g = mt1939_classic::classic_grounds(img, flag_base)->Ok_0;
            &&& 0 <= g.ake
            &&& g.ake + 10 <= img.len()
            &&& ake_obeys(img, g.ake + 6, BranchShape::Bl, 2, flag_base, g.ake_ops)
        }),
{
    let g = mt1939_classic::classic_grounds(img, flag_base)->Ok_0;
    let site = g.ake + 6;
    spots::lemma_classic_core_spots(img, flag_base);
    assert forall|w: World, s: Cpu| s.whole() implies #[trigger] ake_case(
        w,
        s,
        img,
        site,
        BranchShape::Bl,
        2,
        flag_base,
        g.ake_ops,
    ) by {
        lemma_ake_classic(w, s, img, flag_base, site);
    }
}

/// The deny path's sense set-up at `site` and its stub: `reset` is called, and then `r1` and
/// `r2` are as the two instructions of the image leave them, and control is behind them.
pub open spec fn deny_case(
    w: World,
    s: Cpu,
    img: Seq<u8>,
    site: int,
    reset: u32,
    ops: Seq<AsmOp>,
) -> bool {
    match (
        machine::outcome(w, ops, 0, entered(BranchShape::Bl, site, s)),
        runs(img, site as u32, s, 2),
    ) {
        (Some((at, t)), Some((pc, u))) => {
            &&& at == pc | 1
            &&& t.reg(1) == u.reg(1)
            &&& t.reg(2) == u.reg(2)
            &&& t.reg(4) == u.reg(4)
            &&& t.reg(machine::SP) == u.reg(machine::SP)
            &&& exists|c: Cpu|
                {
                    &&& c.calls == s.calls.push(
                        machine::Call { to: reset | 1, r0: c.reg(0), r1: c.reg(1) },
                    )
                    &&& c.stores == s.stores
                    &&& t.calls == (#[trigger] (w.call)(reset | 1, c)).calls
                    &&& t.stores == (w.call)(reset | 1, c).stores
                    &&& t.mem == (w.call)(reset | 1, c).mem
                }
        },
        _ => false,
    }
}

/// [`deny_case`] from every state of the processor.
pub open spec fn deny_obeys(img: Seq<u8>, site: int, reset: u32, ops: Seq<AsmOp>) -> bool {
    forall|w: World, s: Cpu|
        s.whole() && w.behaves() ==> #[trigger] deny_case(w, s, img, site, reset, ops)
}

/// The deny stub, from every state.
#[verifier::rlimit(60)]
proof fn lemma_deny_obeys(img: Seq<u8>, site: int, reset: u32)
    requires
        0 <= site <= raw::IMAGE_LIMIT,
        raw::hw_at(img, site) == 0x2202,
        raw::hw_at(img, site + 2) == 0x216F,
    ensures
        deny_obeys(img, site, reset, stubs::deny_reset_program(reset)),
{
    let ops = stubs::deny_reset_program(reset);
    assert forall|w: World, s: Cpu| s.whole() && w.behaves() implies #[trigger] deny_case(
        w,
        s,
        img,
        site,
        reset,
        ops,
    ) by {
        lemma_two(img, site, s);
        behaviour::law_deny_reset_stub(w, entered(BranchShape::Bl, site, s), reset);
    }
}

/// The deny detour idles the AACS engine and sets the sense up as the image does. It is on
/// the path that the Volume ID gate denies with.
#[verifier::rlimit(40)]
pub proof fn law_deny_detour_sets_up_the_same_sense(img: Seq<u8>, flag_base: u32)
    requires
        raw::addressable(img),
        rawread::grounds(img, flag_base) is Ok,
    ensures
        ({
            let g = rawread::grounds(img, flag_base)->Ok_0;
            let h = raw::hw_at(img, g.gatea_site + 2);
            &&& 0 <= g.deny_site
            &&& g.deny_site + 4 <= img.len()
            &&& g.deny_site == machine::plus((g.gatea_site + 2) as u32, 4 + 2 * short_hop(h)) + 16
            &&& deny_obeys(img, g.deny_site, g.reset, stubs::deny_reset_program(g.reset))
        }),
{
    let g = rawread::grounds(img, flag_base)->Ok_0;
    spots::lemma_core_spots(img, flag_base);
    lemma_short_hop(g.gatea_site + 2, raw::hw_at(img, g.gatea_site + 2));
    lemma_deny_obeys(img, g.deny_site, g.reset);
}

/// The disc-version classifier at `site` and its stub. A flag other than on or off leaves
/// the drive as the two instructions of the image do, condition flags of a compare included.
/// In the byte-extraction shape on reads the version as zero, and off is no different from
/// that; in the version-compare shape on goes to where the image holds `movs r2,#3` and off
/// to where it holds `movs r2,#2`.
pub open spec fn uhd_case(
    w: World,
    s: Cpu,
    img: Seq<u8>,
    site: int,
    flag_base: u32,
    ops: Seq<AsmOp>,
) -> bool {
    let f = slot(s, flag_base, 3);
    match (
        machine::outcome(w, ops, 0, entered(BranchShape::Bl, site, s)),
        runs(img, site as u32, s, 2),
    ) {
        (Some((at, t)), Some((pc, u))) => if f > 1 || f == 0 && raw::hw_at(img, site + 2) / 2048
            == 4 {
            &&& replays(w, ops, img, site, BranchShape::Bl, 2, s, set![3])
            &&& raw::hw_at(img, site + 2) / 2048 == 5 ==> t.z == u.z && t.c == u.c
        } else if raw::hw_at(img, site + 2) / 2048 == 4 {
            &&& at == pc | 1
            &&& t.reg(0) == 0
            &&& behaviour::same_registers(u, t, set![0, 3, 14])
            &&& t.mem == u.mem && t.stores == u.stores && t.calls == u.calls
        } else {
            let to: int = if f == 1 {
                site + 24
            } else {
                site + 6
            };
            &&& at == to as u32 | 1
            &&& 0 <= to
            &&& to + 2 <= img.len()
            &&& raw::hw_at(img, to) == if f == 1 {
                0x2203u16
            } else {
                0x2202
            }
            &&& behaviour::same_registers(u, t, set![3, 14])
            &&& t.mem == u.mem && t.stores == u.stores && t.calls == u.calls
        },
        _ => false,
    }
}

/// [`uhd_case`] from every state of the processor.
pub open spec fn uhd_obeys(img: Seq<u8>, site: int, flag_base: u32, ops: Seq<AsmOp>) -> bool {
    forall|w: World, s: Cpu| s.whole() ==> #[trigger] uhd_case(w, s, img, site, flag_base, ops)
}

/// The byte-extraction classifier, from one state.
#[verifier::rlimit(40)]
proof fn lemma_uhd_prologue(w: World, s: Cpu, img: Seq<u8>, flag_base: u32, site: int)
    requires
        s.whole(),
        0 <= site <= raw::IMAGE_LIMIT,
        raw::hw_at(img, site) == 0x980E,
        raw::hw_at(img, site + 2) == 0x2506,
    ensures
        uhd_case(w, s, img, site, flag_base, stubs::uhd_program(flag_base)),
{
    lemma_two(img, site, s);
    behaviour::law_uhd_stub(w, entered(BranchShape::Bl, site, s), flag_base);
}

/// The version compare, from one state.
#[verifier::rlimit(40)]
proof fn lemma_uhd_compare(w: World, s: Cpu, img: Seq<u8>, flag_base: u32, site: int)
    requires
        s.whole(),
        raw::addressable(img),
        0 <= site,
        site + 26 <= img.len(),
        raw::hw_at(img, site) == 0x8808,
        raw::hw_at(img, site + 2) == 0x2863,
        raw::hw_at(img, site + 6) == 0x2202,
        raw::hw_at(img, site + 24) == 0x2203,
    ensures
        uhd_case(
            w,
            s,
            img,
            site,
            flag_base,
            stubs::uhd_ver_program(flag_base, (site + 24) as u32, (site + 6) as u32),
        ),
{
    broadcast use machine::lemma_plus_zero;

    lemma_two(img, site, s);
    behaviour::law_uhd_ver_stub(
        w,
        entered(BranchShape::Bl, site, s),
        flag_base,
        (site + 24) as u32,
        (site + 6) as u32,
    );
}

/// The UHD detour obeys its flag, and the image where the flag says nothing.
#[verifier::rlimit(40)]
pub proof fn law_uhd_detour_obeys_its_flag(
    img: Seq<u8>,
    flag_base: u32,
    site: usize,
    ops: Seq<AsmOp>,
)
    requires
        raw::addressable(img),
        detours::uhd_plan(img, flag_base) == Ok::<(usize, Seq<AsmOp>), FwError>((site, ops)),
    ensures
        site + 4 <= img.len(),
        uhd_obeys(img, site as int, flag_base, ops),
{
    spots::lemma_uhd_spot(img, flag_base);
    spots::lemma_uhd_even(img);
    let anchor = gates::uhd_classifier(img)->Ok_0;
    assert forall|w: World, s: Cpu| s.whole() implies #[trigger] uhd_case(
        w,
        s,
        img,
        site as int,
        flag_base,
        ops,
    ) by {
        if raw::hw_at(img, anchor as int) == 0xB40F {
            lemma_uhd_prologue(w, s, img, flag_base, site as int);
        } else {
            lemma_uhd_compare(w, s, img, flag_base, site as int);
        }
    }
}

/// The media gate at `site` and its stub. With the flag anything but off the stub leaves the
/// drive as the two instructions of the image do, condition flags included; with it off the
/// explicit gate compares the class with one that no disc has, and the descriptor classifier
/// sends a BD disc to where the image holds the deny block's `movs r2,#1`.
pub open spec fn bd_case(
    w: World,
    s: Cpu,
    img: Seq<u8>,
    site: int,
    flag_base: u32,
    ops: Seq<AsmOp>,
) -> bool {
    let off = slot(s, flag_base, 4) == 0;
    runs(img, site as u32, s, 2) matches Some((pc, u)) && (behaviour::off_stack(
        u,
        (flag_base + 4) as u32,
    ) ==> (machine::outcome(w, ops, 0, entered(BranchShape::Bl, site, s)) matches Some((at, t))
        && if !off || raw::hw_at(img, site) == 0x2A00 && s.reg(2) != 0 {
        &&& replays(w, ops, img, site, BranchShape::Bl, 2, s, set![3])
        &&& t.z == u.z && t.c == u.c
    } else if raw::hw_at(img, site) == 0x79D0 {
        &&& at == pc | 1
        &&& t.z == (u.reg(0) == 0xFF)
        &&& behaviour::same_registers(u, t, set![3, 14])
        &&& t.mem == u.mem && t.stores == u.stores && t.calls == u.calls
    } else {
        &&& at == (site + 58) as u32 | 1
        &&& site + 60 <= img.len()
        &&& raw::hw_at(img, site + 58) == 0x2201
        &&& behaviour::same_registers(u, t, set![3, 14])
        &&& t.stores == u.stores && t.calls == u.calls
    }))
}

/// [`bd_case`] from every state of the processor.
pub open spec fn bd_obeys(img: Seq<u8>, site: int, flag_base: u32, ops: Seq<AsmOp>) -> bool {
    forall|w: World, s: Cpu| s.whole() ==> #[trigger] bd_case(w, s, img, site, flag_base, ops)
}

/// The explicit media gate, from one state.
#[verifier::rlimit(40)]
proof fn lemma_bd_explicit(w: World, s: Cpu, img: Seq<u8>, flag_base: u32, site: int)
    requires
        s.whole(),
        0 <= site <= raw::IMAGE_LIMIT,
        raw::hw_at(img, site) == 0x79D0,
        raw::hw_at(img, site + 2) == 0x2802,
    ensures
        bd_case(w, s, img, site, flag_base, stubs::bd_program(flag_base)),
{
    lemma_two(img, site, s);
    behaviour::law_bd_stub(w, entered(BranchShape::Bl, site, s), flag_base);
}

/// The descriptor classifier, from one state.
#[verifier::rlimit(40)]
proof fn lemma_bd_classifier(w: World, s: Cpu, img: Seq<u8>, flag_base: u32, site: int)
    requires
        s.whole(),
        raw::addressable(img),
        0 <= site,
        site + 60 <= img.len(),
        raw::hw_at(img, site) == 0x2A00,
        raw::hw_at(img, site + 2) / 128 == 353,
        raw::hw_at(img, site + 58) == 0x2201,
    ensures
        bd_case(
            w,
            s,
            img,
            site,
            flag_base,
            stubs::bd_ver_program(flag_base, raw::hw_at(img, site + 2), (site + 58) as u32),
        ),
{
    let h = raw::hw_at(img, site + 2);
    let e = entered(BranchShape::Bl, site, s);
    let u = behaviour::reserved(s.compared(s.reg(2), 0), h);
    lemma_two(img, site, s);
    assert(runs(img, site as u32, s, 2) == Some(((site + 4) as u32, u)));
    if behaviour::off_stack(u, (flag_base + 4) as u32) {
        assert(behaviour::reserved(e, h).reg(machine::SP) == u.reg(machine::SP));
        behaviour::law_bd_ver_stub(w, e, flag_base, h, (site + 58) as u32);
        behaviour::lemma_one_register(behaviour::reserved(e, h), 3);
    }
}

/// The BD detour obeys its flag, and the image where the flag says nothing.
#[verifier::rlimit(40)]
pub proof fn law_bd_detour_obeys_its_flag(
    img: Seq<u8>,
    flag_base: u32,
    site: usize,
    ops: Seq<AsmOp>,
)
    requires
        raw::addressable(img),
        detours::bd_plan(img, flag_base) == Ok::<(usize, Seq<AsmOp>), FwError>((site, ops)),
    ensures
        site + 4 <= img.len(),
        bd_obeys(img, site as int, flag_base, ops),
{
    spots::lemma_bd_spot(img, flag_base);
    spots::lemma_bd_even(img);
    let anchor = gates::bd_gate(img)->Ok_0;
    let h = raw::hw_at(img, site + 2);
    assert(h & 0xFF80 == 0xB080 ==> h / 128 == 353) by (bit_vector);
    assert forall|w: World, s: Cpu| s.whole() implies #[trigger] bd_case(
        w,
        s,
        img,
        site as int,
        flag_base,
        ops,
    ) by {
        if raw::hw_at(img, anchor as int) == 0x2801 {
            lemma_bd_explicit(w, s, img, flag_base, site as int);
        } else {
            lemma_bd_classifier(w, s, img, flag_base, site as int);
        }
    }
}

/// A revocation check at `site` and its stub: with the flag anything but off the stub decides
/// as the compare and the branch in the image do; with the flag off the check passes.
pub open spec fn hrl_case(
    w: World,
    s: Cpu,
    img: Seq<u8>,
    site: int,
    flag_base: u32,
    ops: Seq<AsmOp>,
) -> bool {
    if slot(s, flag_base, 5) != 0 {
        replays(w, ops, img, site, BranchShape::Bl, 2, s, set![3])
    } else {
        machine::outcome(w, ops, 0, entered(BranchShape::Bl, site, s)) matches Some((at, t)) && {
            &&& at == (site + 4) as u32 | 1
            &&& behaviour::same_registers(s, t, set![14])
            &&& t.stores == s.stores && t.calls == s.calls
        }
    }
}

/// [`hrl_case`] from every state of the processor whose flag is not on its stack.
pub open spec fn hrl_obeys(img: Seq<u8>, site: int, flag_base: u32, ops: Seq<AsmOp>) -> bool {
    forall|w: World, s: Cpu|
        s.whole() && behaviour::off_stack(s, (flag_base + 5) as u32) ==> #[trigger] hrl_case(
            w,
            s,
            img,
            site,
            flag_base,
            ops,
        )
}

/// A revocation check, from one state.
#[verifier::rlimit(40)]
proof fn lemma_hrl_case(w: World, s: Cpu, img: Seq<u8>, flag_base: u32, site: int)
    requires
        s.whole(),
        behaviour::off_stack(s, (flag_base + 5) as u32),
        0 <= site <= raw::IMAGE_LIMIT,
        raw::hw_at(img, site) == 0x2800,
        raw::hw_at(img, site + 2) / 256 == 0xD1,
    ensures
        hrl_case(
            w,
            s,
            img,
            site,
            flag_base,
            stubs::hrl_skip_program(
                flag_base,
                code::address(code::cond_target(site + 2, raw::hw_at(img, site + 2))),
            ),
        ),
{
    let e = entered(BranchShape::Bl, site, s);
    lemma_compare_branch(img, site, s);
    behaviour::lemma_one_register(e, 3);
    behaviour::law_hrl_skip_stub(
        w,
        e,
        flag_base,
        code::address(code::cond_target(site + 2, raw::hw_at(img, site + 2))),
    );
    machine::lemma_plus_differ(s.reg(machine::SP), 0, 1);
    lemma_ahead(site, 4);
}

/// The place that a conditional branch of the image at `p` goes to.
pub open spec fn branch_to(img: Seq<u8>, p: int) -> u32 {
    machine::plus(p as u32, 4 + 2 * short_hop(raw::hw_at(img, p)))
}

/// Checks that are all revocation places and all branch to `revoke` share its stub.
proof fn lemma_checks_obey(img: Seq<u8>, flag_base: u32, sites: Seq<usize>, revoke: u32)
    requires
        raw::addressable(img),
        forall|i: int|
            0 <= i < sites.len() ==> spots::spot(img, #[trigger] sites[i] as int, spots::Spot::Hrl),
        forall|i: int|
            0 <= i < sites.len() ==> (#[trigger] gates::revoke_targets(img, sites)[i]) == revoke,
    ensures
        forall|i: int|
            0 <= i < sites.len() ==> branch_to(img, #[trigger] sites[i] + 2) == revoke && hrl_obeys(
                img,
                sites[i] as int,
                flag_base,
                stubs::hrl_skip_program(flag_base, revoke),
            ),
{
    assert forall|i: int| 0 <= i < sites.len() implies branch_to(img, #[trigger] sites[i] + 2)
        == revoke && hrl_obeys(
        img,
        sites[i] as int,
        flag_base,
        stubs::hrl_skip_program(flag_base, revoke),
    ) by {
        let site = sites[i] as int;
        assert(gates::revoke_targets(img, sites)[i] == revoke);
        lemma_short_hop(site + 2, raw::hw_at(img, site + 2));
        assert forall|w: World, s: Cpu|
            s.whole() && behaviour::off_stack(s, (flag_base + 5) as u32) implies #[trigger] hrl_case(
            w,
            s,
            img,
            site,
            flag_base,
            stubs::hrl_skip_program(flag_base, revoke),
        ) by {
            lemma_hrl_case(w, s, img, flag_base, site);
        }
    }
}

/// When revocation checks are found there is one, every one of them branches to the revoke
/// path that is answered, the OEM head of that path is there, and the stub that they share
/// decides at each of them as the image does, or passes when the feature is off.
#[verifier::rlimit(40)]
pub proof fn law_revocation_checks_share_their_revoke_path(
    img: Seq<u8>,
    flag_base: u32,
    sites: Seq<usize>,
    revoke: u32,
)
    requires
        raw::addressable(img),
        gates::hrl_skip_sites(img) == Ok::<(Seq<usize>, u32), FwError>((sites, revoke)),
    ensures
        sites.len() > 0,
        revoke + 6 <= img.len(),
        raw::hw_at(img, revoke as int) == 0x78A0,
        raw::hw_at(img, revoke + 2) == 0x2800,
        raw::hw_at(img, revoke + 4) / 256 == 0xD1,
        forall|i: int|
            0 <= i < sites.len() ==> {
                &&& (#[trigger] sites[i]) + 4 <= img.len()
                &&& raw::hw_at(img, sites[i] as int) == 0x2800
                &&& raw::hw_at(img, sites[i] + 2) / 256 == 0xD1
                &&& branch_to(img, sites[i] + 2) == revoke
                &&& hrl_obeys(
                    img,
                    sites[i] as int,
                    flag_base,
                    stubs::hrl_skip_program(flag_base, revoke),
                )
            },
{
    spots::lemma_hrl_spots(img);
    let found = gates::hrl_skip_sites(img)->Ok_0.0;
    assert(found == sites);
    assert forall|i: int| 0 <= i < sites.len() implies spots::spot(
        img,
        #[trigger] sites[i] as int,
        spots::Spot::Hrl,
    ) by {
        assert(found[i] == sites[i]);
    }
    lemma_checks_obey(img, flag_base, sites, revoke);
}

/// The same of a classic image, whose revoke path has a head of its own.
#[verifier::rlimit(40)]
pub proof fn law_classic_revocation_checks_share_their_revoke_path(
    img: Seq<u8>,
    flag_base: u32,
    sites: Seq<usize>,
    revoke: u32,
)
    requires
        raw::addressable(img),
        mt1939_classic::classic_hrl_sites(img) == Ok::<(Seq<usize>, u32), FwError>(
            (sites, revoke),
        ),
    ensures
        sites.len() > 0,
        revoke + 8 <= img.len(),
        raw::hw_at(img, revoke as int) == 0x78A8,
        raw::hw_at(img, revoke + 2) == 0x2800,
        raw::hw_at(img, revoke + 4) / 256 == 0xD1,
        raw::hw_at(img, revoke + 6) == 0x206F,
        forall|i: int|
            0 <= i < sites.len() ==> {
                &&& (#[trigger] sites[i]) + 4 <= img.len()
                &&& raw::hw_at(img, sites[i] as int) == 0x2800
                &&& raw::hw_at(img, sites[i] + 2) / 256 == 0xD1
                &&& branch_to(img, sites[i] + 2) == revoke
                &&& hrl_obeys(
                    img,
                    sites[i] as int,
                    flag_base,
                    stubs::hrl_skip_program(flag_base, revoke),
                )
            },
{
    spots::lemma_classic_hrl_spots(img);
    let found = mt1939_classic::classic_hrl_sites(img)->Ok_0.0;
    assert(found == sites);
    assert forall|i: int| 0 <= i < sites.len() implies spots::spot(
        img,
        #[trigger] sites[i] as int,
        spots::Spot::Hrl,
    ) by {
        assert(found[i] == sites[i]);
    }
    lemma_checks_obey(img, flag_base, sites, revoke);
}

/// A ramp-ceiling gate with its speed index in register `reg` is at `p`: the index is loaded
/// into it, and compared with 0x32, and the ramp is left when it is higher.
pub open spec fn ramp_gate(img: Seq<u8>, p: int, reg: u8) -> bool {
    &&& raw::hw_at(img, p) / 256 == 0x49
    &&& raw::hw_at(img, p + 2) == 0x7808 + reg
    &&& raw::hw_at(img, p + 4) == 0x2832 + 256 * reg
    &&& raw::hw_at(img, p + 6) / 256 == 0xD8
}

/// A halfword under the masks of a ramp gate.
proof fn lemma_ramp_masks(h: u16)
    ensures
        h & 0xFFFF == h,
        h & 0xFF00 == 0x4900 <==> h / 256 == 0x49,
        h & 0xFF00 == 0xD800 <==> h / 256 == 0xD8,
{
    assert(h & 0xFFFF == h && (h & 0xFF00 == 0x4900 <==> h / 256 == 0x49) && (h & 0xFF00 == 0xD800
        <==> h / 256 == 0xD8)) by (bit_vector);
}

/// The two signatures say what a ramp gate is.
proof fn lemma_ramp_signatures(img: Seq<u8>, p: int)
    ensures
        sig::sig_at(img, SPEED_GATE_SIG@, p) <==> ramp_gate(img, p, 2),
        sig::sig_at(img, SPEED_GATE_SIG_R0@, p) <==> ramp_gate(img, p, 0),
{
    let a = SPEED_GATE_SIG@;
    let b = SPEED_GATE_SIG_R0@;
    lemma_ramp_masks(raw::hw_at(img, p));
    lemma_ramp_masks(raw::hw_at(img, p + 2));
    lemma_ramp_masks(raw::hw_at(img, p + 4));
    lemma_ramp_masks(raw::hw_at(img, p + 6));
    assert(a[0] == (0x4900u16, 0xFF00u16) && a[1] == (0x780Au16, 0xFFFFu16) && a[2] == (
        0x2A32u16,
        0xFFFFu16,
    ) && a[3] == (0xD800u16, 0xFF00u16));
    assert(b[0] == (0x4900u16, 0xFF00u16) && b[1] == (0x7808u16, 0xFFFFu16) && b[2] == (
        0x2832u16,
        0xFFFFu16,
    ) && b[3] == (0xD800u16, 0xFF00u16));
    assert(p + 2 * 0 == p && p + 2 * 1 == p + 2 && p + 2 * 2 == p + 4 && p + 2 * 3 == p + 6);
    if sig::sig_at(img, a, p) {
        assert(raw::hw_at(img, p + 2 * 0) & a[0].1 == a[0].0);
        assert(raw::hw_at(img, p + 2 * 1) & a[1].1 == a[1].0);
        assert(raw::hw_at(img, p + 2 * 2) & a[2].1 == a[2].0);
        assert(raw::hw_at(img, p + 2 * 3) & a[3].1 == a[3].0);
    }
    if sig::sig_at(img, b, p) {
        assert(raw::hw_at(img, p + 2 * 0) & b[0].1 == b[0].0);
        assert(raw::hw_at(img, p + 2 * 1) & b[1].1 == b[1].0);
        assert(raw::hw_at(img, p + 2 * 2) & b[2].1 == b[2].0);
        assert(raw::hw_at(img, p + 2 * 3) & b[3].1 == b[3].0);
    }
    if ramp_gate(img, p, 2) {
        assert forall|k: int| 0 <= k < a.len() implies raw::hw_at(img, p + 2 * k) & (
        #[trigger] a[k]).1 == a[k].0 by {
            assert(k == 0 || k == 1 || k == 2 || k == 3);
        }
    }
    if ramp_gate(img, p, 0) {
        assert forall|k: int| 0 <= k < b.len() implies raw::hw_at(img, p + 2 * k) & (
        #[trigger] b[k]).1 == b[k].0 by {
            assert(k == 0 || k == 1 || k == 2 || k == 3);
        }
    }
}

/// A scan that finds one match finds the only one.
pub proof fn lemma_only_match(img: Seq<u8>, pat: Seq<(u16, u16)>, lo: int, hi: int, p: int)
    requires
        raw::addressable(img),
        0 <= lo <= p < hi,
        (p - lo) % 2 == 0,
        p + 2 * pat.len() <= img.len(),
        sig::sig_at(img, pat, p),
    ensures
        sig::find_all(img, pat, lo, hi).len() > 0,
        sig::find_all(img, pat, lo, hi).len() == 1 ==> sig::find_all(img, pat, lo, hi)[0] == p,
{
    let all = sig::find_all(img, pat, lo, hi);
    sig::law_scan_reports_every_match(img, pat, lo, hi, p as usize);
    assert(all.contains(p as usize));
    let i = choose|i: int| 0 <= i < all.len() && all[i] == p as usize;
}

/// What is found as the ramp-ceiling gate is one, with the register that it names, and no
/// other one of that register is in the code that is searched; one with its index in `r0` is
/// taken only where none has it in `r2`. And what is not found, with a gate there, is not
/// the only one.
#[verifier::rlimit(40)]
pub proof fn law_ramp_gate_is_the_only_one(img: Seq<u8>)
    requires
        raw::addressable(img),
    ensures
        gates::speed_gate(img) matches Ok((at, reg)) ==> {
            &&& reg == 0 || reg == 2
            &&& 0x1_0000 <= at < 0x2_0000
            &&& at % 2 == 0
            &&& at + 8 <= img.len()
            &&& ramp_gate(img, at as int, reg)
            &&& forall|p: int, r: u8|
                0x1_0000 <= p < 0x2_0000 && p % 2 == 0 && p + 8 <= img.len() && (r == reg || r == 2)
                    && #[trigger] ramp_gate(img, p, r) ==> p == at && r == reg
        },
        gates::speed_gate(img) is Err ==> forall|p: int|
            0x1_0000 <= p < 0x2_0000 && p % 2 == 0 && p + 8 <= img.len() && #[trigger] ramp_gate(
                img,
                p,
                2,
            ) ==> exists|q: int|
                q != p && 0x1_0000 <= q < 0x2_0000 && #[trigger] ramp_gate(img, q, 2),
{
    let lo = scanner::least(0x0001_0000, img.len() as int);
    let hi = scanner::least(0x0002_0000, img.len() as int);
    let first = SPEED_GATE_SIG@;
    let second = SPEED_GATE_SIG_R0@;
    let a = sig::find_all(img, first, lo, hi);
    let b = sig::find_all(img, second, lo, hi);
    sig::lemma_find_all_inside(img, first, lo, hi, sig::steps(lo, sig::scan_end(img, first, hi)));
    sig::lemma_find_all_inside(img, second, lo, hi, sig::steps(lo, sig::scan_end(img, second, hi)));
    assert forall|p: int, r: u8|
        0x1_0000 <= p < 0x2_0000 && p % 2 == 0 && p + 8 <= img.len() && #[trigger] ramp_gate(
            img,
            p,
            r,
        ) implies (r == 2 ==> a.len() > 0 && (a.len() == 1 ==> a[0] == p)) && (r == 0 ==> b.len()
        > 0 && (b.len() == 1 ==> b[0] == p)) by {
        lemma_ramp_signatures(img, p);
        if r == 2 {
            lemma_only_match(img, first, lo, hi, p);
        }
        if r == 0 {
            lemma_only_match(img, second, lo, hi, p);
        }
    }
    if let Ok((at, reg)) = gates::speed_gate(img) {
        lemma_ramp_signatures(img, at as int);
        if a.len() == 1 {
            assert(sig::inside(img, first, lo, a[0] as int));
            sig::law_scan_reports_every_match(img, first, lo, hi, a[0]);
            assert(a.contains(a[0]));
        } else {
            assert(sig::inside(img, second, lo, b[0] as int));
            sig::law_scan_reports_every_match(img, second, lo, hi, b[0]);
            assert(b.contains(b[0]));
        }
    } else {
        assert forall|p: int|
            0x1_0000 <= p < 0x2_0000 && p % 2 == 0 && p + 8 <= img.len() && #[trigger] ramp_gate(
                img,
                p,
                2,
            ) implies exists|q: int|
            q != p && 0x1_0000 <= q < 0x2_0000 && #[trigger] ramp_gate(img, q, 2) by {
            assert(a.len() > 1);
            sig::lemma_hits_distinct(img, first, lo, sig::steps(lo, sig::scan_end(img, first, hi)));
            let q = if a[0] == p {
                a[1] as int
            } else {
                a[0] as int
            };
            assert(a[0] != a[1]);
            assert(sig::inside(img, first, lo, a[0] as int) && sig::inside(
                img,
                first,
                lo,
                a[1] as int,
            ));
            sig::law_scan_reports_every_match(img, first, lo, hi, q as usize);
            assert(a.contains(q as usize));
            lemma_ramp_signatures(img, q);
            assert(ramp_gate(img, q, 2));
        }
    }
}

/// The ramp test at `site`, of register `reg`, and its stub: with the flag at passthrough the
/// stub decides as the compare and the branch in the image do; zero leaves the ramp to no
/// index, and any other flag to those above it.
pub open spec fn ramp_case(
    w: World,
    s: Cpu,
    img: Seq<u8>,
    site: int,
    reg: u16,
    flag_base: u32,
    ops: Seq<AsmOp>,
) -> bool {
    let f = slot(s, flag_base, 1);
    if f == 0xFF {
        replays(w, ops, img, site, BranchShape::Bl, 2, s, set![reg as int])
    } else {
        machine::outcome(w, ops, 0, entered(BranchShape::Bl, site, s)) matches Some((at, t)) && {
            let high = if f == 0 {
                s.reg(reg) > 0xFF
            } else {
                s.reg(reg) > f
            };
            &&& at == if high {
                branch_to(img, site + 2) | 1
            } else {
                (site + 4) as u32 | 1
            }
            &&& behaviour::same_registers(s, t, set![reg as int, 14])
            &&& t.stores == s.stores && t.calls == s.calls
        }
    }
}

/// [`ramp_case`] from every state of the processor whose flag is not on its stack.
pub open spec fn ramp_obeys(
    img: Seq<u8>,
    site: int,
    reg: u16,
    flag_base: u32,
    ops: Seq<AsmOp>,
) -> bool {
    forall|w: World, s: Cpu|
        s.whole() && behaviour::off_stack(s, (flag_base + 1) as u32) ==> #[trigger] ramp_case(
            w,
            s,
            img,
            site,
            reg,
            flag_base,
            ops,
        )
}

/// The ramp test, from one state.
#[verifier::rlimit(60)]
proof fn lemma_ramp_case(w: World, s: Cpu, img: Seq<u8>, flag_base: u32, gate: int, reg: u8)
    requires
        s.whole(),
        behaviour::off_stack(s, (flag_base + 1) as u32),
        0 <= gate < raw::IMAGE_LIMIT - 8,
        reg == 0 || reg == 2,
        ramp_gate(img, gate, reg),
    ensures
        ramp_case(
            w,
            s,
            img,
            gate + 4,
            reg as u16,
            flag_base,
            stubs::speed_program(
                flag_base,
                (gate + 8) as u32,
                code::address(code::cond_target(gate + 6, raw::hw_at(img, gate + 6))),
                reg,
            ),
        ),
{
    let site = gate + 4;
    let e = entered(BranchShape::Bl, site, s);
    let exit = code::address(code::cond_target(gate + 6, raw::hw_at(img, gate + 6)));
    lemma_compare_branch(img, site, s);
    lemma_short_hop(site + 2, raw::hw_at(img, site + 2));
    if reg == 2 {
        behaviour::lemma_one_register(e, 0);
        behaviour::law_speed_stub_r2(w, e, flag_base, (gate + 8) as u32, exit);
    } else {
        behaviour::lemma_one_register(e, 1);
        behaviour::law_speed_stub_r0(w, e, flag_base, (gate + 8) as u32, exit);
    }
}

/// The stub of the ramp test that is found.
pub proof fn lemma_ramp_obeys(img: Seq<u8>, flag_base: u32)
    requires
        raw::addressable(img),
    ensures
        gates::speed_gate(img) matches Ok((gate, reg)) ==> gate + 8 <= img.len() && raw::hw_at(
            img,
            gate + 4,
        ) == 0x2832 + 256 * reg && ramp_obeys(
            img,
            gate + 4,
            reg as u16,
            flag_base,
            stubs::speed_program(
                flag_base,
                (gate + 8) as u32,
                code::address(code::cond_target(gate + 6, raw::hw_at(img, gate + 6))),
                reg,
            ),
        ),
{
    law_ramp_gate_is_the_only_one(img);
    if let Ok((gate, reg)) = gates::speed_gate(img) {
        let exit = code::address(code::cond_target(gate + 6, raw::hw_at(img, gate + 6)));
        let ops = stubs::speed_program(flag_base, (gate + 8) as u32, exit, reg);
        assert forall|w: World, s: Cpu|
            s.whole() && behaviour::off_stack(
                s,
                (flag_base + 1) as u32,
            ) implies #[trigger] ramp_case(w, s, img, gate + 4, reg as u16, flag_base, ops) by {
            lemma_ramp_case(w, s, img, flag_base, gate as int, reg);
        }
    }
}

/// What the Speed lever writes: the call at the ramp's compare goes to a stub that decides as
/// the image does while its flag passes through, and by the flag otherwise. The stub is
/// whole unless the call was written into it.
#[verifier::rlimit(40)]
pub proof fn law_speed_detour_obeys_its_flag(
    img: Seq<u8>,
    out: Seq<u8>,
    table: Seq<TableEntry>,
    flag_base: u32,
    done: Seq<u8>,
    gate: u32,
    va: u32,
)
    requires
        raw::addressable(img),
        out.len() == img.len(),
        emit::speed_emission(img, out, table, flag_base) == Ok::<(Seq<u8>, u32, u32), FwError>(
            (done, gate, va),
        ),
    ensures
        thumb::branch_target(BranchShape::Bl, done, gate + 4) == Some(va),
        exists|ops: Seq<AsmOp>, reg: u16|
            {
                let stub = #[trigger] emit::code_of(ops);
                &&& raw::hw_at(img, gate + 4) == 0x2832 + 256 * reg
                &&& #[trigger] ramp_obeys(img, gate + 4, reg, flag_base, ops)
                &&& gate + 8 <= va || va + stub.len() <= gate + 4 ==> raw::occurs_at(
                    done,
                    stub,
                    va as int,
                )
            },
{
    lemma_ramp_obeys(img, flag_base);
    let reg = gates::speed_gate(img)->Ok_0.1;
    let exit = code::address(code::cond_target(gate + 6, raw::hw_at(img, gate + 6)));
    let ops = stubs::speed_program(flag_base, (gate + 8) as u32, exit, reg);
    assert(ramp_obeys(img, gate + 4, reg as u16, flag_base, ops));
    emit::law_detour_is_found(
        out,
        table,
        BranchShape::Bl,
        gate + 4,
        emit::code_of(ops),
        Reason::SpeedRange,
        done,
        va,
    );
}

/// The region mask that a flag forces, when it forces one: a DVD region's leaves that
/// region's bit clear alone, a BD region's sets its bit alone, and off is every bit.
pub open spec fn forced_mask(f: u8) -> Option<u8> {
    if f == 0 {
        Some(0xFF)
    } else if f == 1 {
        Some(0b1111_1110)
    } else if f == 2 {
        Some(0b1111_1101)
    } else if f == 3 {
        Some(0b1111_1011)
    } else if f == 4 {
        Some(0b1111_0111)
    } else if f == 5 {
        Some(0b1110_1111)
    } else if f == 6 {
        Some(0b1101_1111)
    } else if f == 7 {
        Some(0b1011_1111)
    } else if f == 8 {
        Some(0b0111_1111)
    } else if f == 10 {
        Some(0b001)
    } else if f == 11 {
        Some(0b010)
    } else if f == 12 {
        Some(0b100)
    } else {
        None
    }
}

/// The last four bytes of the region frame at `site` and the stub that writes them: it
/// returns as the image does, and writes what the image does, but for the mask that the flag
/// forces; region-free writes the reserved byte four times.
pub open spec fn region_case(
    w: World,
    s: Cpu,
    img: Seq<u8>,
    site: int,
    flag_base: u32,
    ops: Seq<AsmOp>,
) -> bool {
    let f = slot(s, flag_base, 2);
    let port = machine::plus(s.reg(0), 8);
    let blank = (port, (s.reg(1) % 256) as u8);
    match (
        machine::outcome(w, ops, 0, entered(BranchShape::Bl, site, s)),
        runs(img, site as u32, s, 7),
    ) {
        (Some((at, t)), Some((pc, u))) => {
            &&& at == pc
            &&& t.reg(3) == u.reg(3)
            &&& t.reg(4) == u.reg(4)
            &&& t.reg(machine::SP) == u.reg(machine::SP)
            &&& t.calls == u.calls
            &&& u.stores.len() == s.stores.len() + 4
            &&& t.stores == if f == 15 {
                s.stores.push(blank).push(blank).push(blank).push(blank)
            } else {
                match forced_mask(f) {
                    Some(mask) => u.stores.update(s.stores.len() as int + 1, (port, mask)),
                    None => u.stores,
                }
            }
        },
        _ => false,
    }
}

/// [`region_case`] from every state of the processor whose frame is apart from the port.
pub open spec fn region_obeys(img: Seq<u8>, site: int, flag_base: u32, ops: Seq<AsmOp>) -> bool {
    forall|w: World, s: Cpu|
        s.whole() && behaviour::off_frame(s) && behaviour::masks_laid_out(
            w,
            s,
        ) ==> #[trigger] region_case(w, s, img, site, flag_base, ops)
}

/// The emitter's tail from `site` on.
pub open spec fn emitter_tail(img: Seq<u8>, site: int) -> bool {
    &&& raw::hw_at(img, site) == 0x7202
    &&& raw::hw_at(img, site + 2) == 0x466B
    &&& raw::hw_at(img, site + 4) == 0x78DA
    &&& raw::hw_at(img, site + 6) == 0x7202
    &&& raw::hw_at(img, site + 8) == 0x7204
    &&& raw::hw_at(img, site + 10) == 0x7201
    &&& raw::hw_at(img, site + 12) == 0xBD18
}

/// What the emitter's tail does.
#[verifier::rlimit(60)]
proof fn lemma_tail(img: Seq<u8>, site: int, s: Cpu)
    requires
        s.whole(),
        0 <= site <= raw::IMAGE_LIMIT - 14,
        emitter_tail(img, site),
        behaviour::off_frame(s),
    ensures
        runs(img, site as u32, s, 7) matches Some((pc, u)) && {
            let port = machine::plus(s.reg(0), 8);
            let sp = s.reg(machine::SP);
            let mask = s.byte(machine::plus(sp, 3));
            &&& pc == s.word(machine::plus(sp, 8))
            &&& u.stores == s.stores.push((port, (s.reg(2) % 256) as u8)).push((port, mask)).push(
                (port, (s.reg(4) % 256) as u8),
            ).push((port, (s.reg(1) % 256) as u8))
            &&& u.calls == s.calls
            &&& u.reg(machine::SP) == machine::plus(sp, 12)
            &&& u.reg(3) == s.word(sp)
            &&& u.reg(4) == s.word(machine::plus(sp, 4))
        },
{
    reveal_with_fuel(runs, 8);
    let port = machine::plus(s.reg(0), 8);
    let sp = s.reg(machine::SP);
    lemma_ahead(site, 2);
    lemma_ahead(site + 2, 2);
    lemma_ahead(site + 4, 2);
    lemma_ahead(site + 6, 2);
    lemma_ahead(site + 8, 2);
    lemma_ahead(site + 10, 2);
    let s1 = s.store(port, (s.reg(2) % 256) as u8);
    let s2 = s1.set(3, sp);
    let s3 = s2.set(2, s2.byte(machine::plus(sp, 3)) as u32);
    assert(machine::plus(sp, 3) != port);
    let s4 = s3.store(port, (s3.reg(2) % 256) as u8);
    let s5 = s4.store(port, (s.reg(4) % 256) as u8);
    let s6 = s5.store(port, (s.reg(1) % 256) as u8);
    assert(step(img, site as u32, s) == Some(((site + 2) as u32, s1)));
    assert(step(img, (site + 2) as u32, s1) == Some(((site + 4) as u32, s2)));
    assert(step(img, (site + 4) as u32, s2) == Some(((site + 6) as u32, s3)));
    assert(step(img, (site + 6) as u32, s3) == Some(((site + 8) as u32, s4)));
    assert(step(img, (site + 8) as u32, s4) == Some(((site + 10) as u32, s5)));
    assert(step(img, (site + 10) as u32, s5) == Some(((site + 12) as u32, s6)));
    behaviour::lemma_three_words(s, s6.mem);
}

/// The region frame, from one state.
#[verifier::rlimit(60)]
proof fn lemma_region_case(w: World, s: Cpu, img: Seq<u8>, flag_base: u32, site: int)
    requires
        s.whole(),
        0 <= site <= raw::IMAGE_LIMIT - 14,
        emitter_tail(img, site),
        behaviour::off_frame(s),
        behaviour::masks_laid_out(w, s),
    ensures
        region_case(w, s, img, site, flag_base, stubs::region_program(flag_base)),
{
    let e = entered(BranchShape::Bl, site, s);
    lemma_tail(img, site, s);
    assert(behaviour::off_frame(e) && behaviour::masks_laid_out(w, e)) by {
        assert(e.reg(0) == s.reg(0) && e.reg(machine::SP) == s.reg(machine::SP));
    }
    behaviour::law_region_stub(w, e, flag_base);
    let (at, t) = machine::outcome(w, stubs::region_program(flag_base), 0, e)->Some_0;
    let (pc, u) = runs(img, site as u32, s, 7)->Some_0;
    let f = slot(s, flag_base, 2);
    let port = machine::plus(s.reg(0), 8);
    if let Some(mask) = forced_mask(f) {
        assert(behaviour::region_mask(e, f) == mask);
        assert(t.stores =~= u.stores.update(s.stores.len() as int + 1, (port, mask)));
    }
}

/// What is found as the RPC-state emitter ends as one does.
#[verifier::rlimit(40)]
proof fn lemma_emitter_found(img: Seq<u8>, lo: int, hi: int)
    requires
        raw::addressable(img),
        0 <= lo,
    ensures
        gates::region_emitter_in(img, lo, hi) matches Ok(at) ==> at + 20 <= img.len()
            && emitter_tail(img, at + 6),
{
    let pat = REGION_EMIT_SIG@;
    let from = scanner::least(lo, img.len() as int);
    let to = scanner::least(hi, img.len() as int);
    sig::lemma_find_all_inside(img, pat, from, to, sig::steps(from, sig::scan_end(img, pat, to)));
    if let Ok(at) = gates::region_emitter_in(img, lo, hi) {
        assert(sig::inside(img, pat, from, sig::find_all(img, pat, from, to)[0] as int));
        lemma_sig_full(img, pat, at as int, 3, 0x7202);
        lemma_sig_full(img, pat, at as int, 4, 0x466B);
        lemma_sig_full(img, pat, at as int, 5, 0x78DA);
        lemma_sig_full(img, pat, at as int, 6, 0x7202);
        lemma_sig_full(img, pat, at as int, 7, 0x7204);
        lemma_sig_full(img, pat, at as int, 8, 0x7201);
        lemma_sig_full(img, pat, at as int, 9, 0xBD18);
    }
}

/// A halfword of a match that is not masked.
pub proof fn lemma_sig_full(img: Seq<u8>, pat: Seq<(u16, u16)>, at: int, k: int, v: u16)
    requires
        sig::sig_at(img, pat, at),
        0 <= k < pat.len(),
        pat[k] == (v, 0xFFFFu16),
    ensures
        raw::hw_at(img, at + 2 * k) == v,
{
    let h = raw::hw_at(img, at + 2 * k);
    assert(h & 0xFFFF == h) by (bit_vector);
    assert(h & pat[k].1 == pat[k].0);
}

/// The stub of the emitter that is found.
pub proof fn lemma_region_obeys(img: Seq<u8>, lo: int, hi: int, flag_base: u32)
    requires
        raw::addressable(img),
        0 <= lo,
    ensures
        gates::region_emitter_in(img, lo, hi) matches Ok(at) ==> at + 20 <= img.len()
            && region_obeys(img, at + 6, flag_base, stubs::region_program(flag_base)),
{
    lemma_emitter_found(img, lo, hi);
    if let Ok(at) = gates::region_emitter_in(img, lo, hi) {
        let ops = stubs::region_program(flag_base);
        assert forall|w: World, s: Cpu|
            s.whole() && behaviour::off_frame(s) && behaviour::masks_laid_out(
                w,
                s,
            ) implies #[trigger] region_case(w, s, img, at + 6, flag_base, ops) by {
            lemma_region_case(w, s, img, flag_base, at + 6);
        }
    }
}

/// What the Region lever writes: the call at the emitter's store goes to a stub that returns
/// and answers as the image does, but for the mask that its flag forces.
#[verifier::rlimit(40)]
pub proof fn law_region_detour_obeys_its_flag(
    img: Seq<u8>,
    lo: int,
    hi: int,
    out: Seq<u8>,
    table: Seq<TableEntry>,
    flag_base: u32,
    out_of_range: Reason,
    done: Seq<u8>,
    at: u32,
    va: u32,
)
    requires
        raw::addressable(img),
        0 <= lo,
        out.len() == img.len(),
        emit::region_emission_at(
            gates::region_emitter_in(img, lo, hi),
            out,
            table,
            flag_base,
            out_of_range,
        ) == Ok::<(Seq<u8>, u32, u32), FwError>((done, at, va)),
    ensures
        thumb::branch_target(BranchShape::Bl, done, at + 6) == Some(va),
        exists|ops: Seq<AsmOp>|
            {
                let stub = #[trigger] emit::code_of(ops);
                &&& region_obeys(img, at + 6, flag_base, ops)
                &&& at + 10 <= va || va + stub.len() <= at + 6 ==> raw::occurs_at(
                    done,
                    stub,
                    va as int,
                )
            },
{
    lemma_region_obeys(img, lo, hi, flag_base);
    let ops = stubs::region_program(flag_base);
    emit::law_detour_is_found(
        out,
        table,
        BranchShape::Bl,
        at + 6,
        emit::code_of(ops),
        out_of_range,
        done,
        va,
    );
}

/// The data-key call at `site` and its stub: the routine that the image calls there is
/// called, the bus-encryption bit is cleared behind it when the flag slot reads off, and
/// control is behind the call.
pub open spec fn data_key_case(
    w: World,
    s: Cpu,
    img: Seq<u8>,
    site: int,
    flag_base: u32,
    ops: Seq<AsmOp>,
) -> bool {
    match (
        machine::outcome(w, ops, 0, entered(BranchShape::Bl, site, s)),
        runs(img, site as u32, s, 1),
    ) {
        (Some((at, t)), Some((keyprog, u))) => {
            &&& at == u.reg(machine::LR)
            &&& t.reg(4) == s.reg(4)
            &&& t.reg(machine::SP) == s.reg(machine::SP)
            &&& exists|c: Cpu|
                {
                    let d = #[trigger] (w.call)(keyprog | 1, c);
                    let cleared = d.word(0x0400_0000) & !0x10u32;
                    let left = if slot(d, flag_base, 7) == 0 {
                        d.store_word(0x0400_0000, cleared)
                    } else {
                        d
                    };
                    &&& c.calls == s.calls.push(
                        machine::Call { to: keyprog | 1, r0: c.reg(0), r1: c.reg(1) },
                    )
                    &&& c.stores == s.stores
                    &&& t.calls == d.calls
                    &&& t.mem == left.mem
                    &&& t.stores == left.stores
                }
        },
        _ => false,
    }
}

/// The data-key detour makes the call that it takes over, and obeys its flag.
#[verifier::rlimit(40)]
pub proof fn law_data_key_detour_makes_the_call(
    img: Seq<u8>,
    flag_base: u32,
    site: usize,
    ops: Seq<AsmOp>,
    w: World,
    s: Cpu,
)
    requires
        raw::addressable(img),
        detours::busenc_plan(img, flag_base) == Ok::<(usize, Seq<AsmOp>), FwError>((site, ops)),
        s.whole(),
        w.behaves(),
        behaviour::off_bus(s),
    ensures
        data_key_case(w, s, img, site as int, flag_base, ops),
{
    let (at, keyprog) = gates::data_key_arm(img)->Ok_0;
    let e = entered(BranchShape::Bl, site as int, s);
    let h = raw::hw_at(img, site as int);
    assert(h & 0xF800 == 0xF000 ==> h / 2048 == 30) by (bit_vector);
    reveal_with_fuel(runs, 2);
    assert(behaviour::frame(e) == behaviour::frame(s));
    assert(behaviour::off_bus(e));
    behaviour::law_busenc_stub(w, e, flag_base, keyprog);
    assert(stubs::BUSENC_ENABLE_BIT as u32 == 0x10u32);
}

/// The boot call at `site` and its stub: when the routine that the image calls there is
/// called, with the arguments that it would have had, the eight flags are those at `home`,
/// and control is behind the call afterwards.
pub open spec fn boot_case(
    w: World,
    s: Cpu,
    img: Seq<u8>,
    site: int,
    flag_base: u32,
    home: u32,
    ops: Seq<AsmOp>,
) -> bool {
    match (
        machine::outcome(w, ops, 0, entered(BranchShape::Bl, site, s)),
        runs(img, site as u32, s, 1),
    ) {
        (Some((at, t)), Some((init, u))) => {
            &&& at == u.reg(machine::LR)
            &&& t.reg(machine::SP) == s.reg(machine::SP)
            &&& exists|c: Cpu|
                {
                    let d = #[trigger] (w.call)(init | 1, c);
                    &&& c.calls == s.calls.push(
                        machine::Call { to: init | 1, r0: s.reg(0), r1: s.reg(1) },
                    )
                    &&& c.reg(0) == s.reg(0) && c.reg(1) == s.reg(1) && c.reg(2) == s.reg(2)
                    &&& forall|k: int|
                        0 <= k < 8 ==> c.mem[#[trigger] machine::plus(flag_base, k)]
                            == s.mem[machine::plus(home, k)]
                    &&& t.mem == d.mem && t.calls == d.calls
                }
        },
        _ => false,
    }
}

/// Memory that the boot hook reads and writes is apart.
pub open spec fn boot_ready(s: Cpu, flag_base: u32, home: u32) -> bool {
    let below = machine::plus(s.reg(machine::SP), -20);
    &&& protocol::apart(home, 8, flag_base, 8)
    &&& protocol::apart(below, 20, flag_base, 8)
    &&& protocol::apart(below, 20, home, 8)
}

/// [`boot_case`] from every state of the processor with its memory apart.
pub open spec fn boot_obeys(
    img: Seq<u8>,
    site: int,
    flag_base: u32,
    home: u32,
    ops: Seq<AsmOp>,
) -> bool {
    forall|w: World, s: Cpu|
        s.whole() && w.behaves() && boot_ready(s, flag_base, home) ==> #[trigger] boot_case(
            w,
            s,
            img,
            site,
            flag_base,
            home,
            ops,
        )
}

/// The boot hook, from one state.
#[verifier::rlimit(40)]
proof fn lemma_boot_case(
    w: World,
    s: Cpu,
    img: Seq<u8>,
    flag_base: u32,
    home: u32,
    pair: (usize, u32),
)
    requires
        raw::addressable(img),
        s.whole(),
        w.behaves(),
        boot_ready(s, flag_base, home),
        boot::boot_init_pair(img) == Ok::<(usize, u32), FwError>(pair),
    ensures
        boot_case(
            w,
            s,
            img,
            pair.0 as int,
            flag_base,
            home,
            handler::boot_program(flag_base, pair.1, home),
        ),
{
    let site = pair.0 as int;
    boot::law_boot_hook_takes_over_a_call(img, pair.0, pair.1);
    let init = thumb::branch_target(BranchShape::Bl, img, site)->Some_0;
    let orig = pair.1;
    assert(init / 2 == orig / 2 ==> init | 1 == orig | 1) by (bit_vector);
    let h = raw::hw_at(img, site);
    assert(h & 0xF800 == 0xF000 ==> h / 2048 == 30) by (bit_vector);
    reveal_with_fuel(runs, 2);
    let e = entered(BranchShape::Bl, site, s);
    assert(e.reg(machine::SP) == s.reg(machine::SP));
    protocol::law_boot_hook(w, e, flag_base, orig, home);
}

/// The boot hook restores the saved flags before the routine that the image calls there, and
/// then makes that call.
pub proof fn law_boot_hook_makes_the_call(
    img: Seq<u8>,
    flag_base: u32,
    home: u32,
    pair: (usize, u32),
)
    requires
        raw::addressable(img),
        boot::boot_init_pair(img) == Ok::<(usize, u32), FwError>(pair),
    ensures
        boot_obeys(
            img,
            pair.0 as int,
            flag_base,
            home,
            handler::boot_program(flag_base, pair.1, home),
        ),
{
    let ops = handler::boot_program(flag_base, pair.1, home);
    assert forall|w: World, s: Cpu|
        s.whole() && w.behaves() && boot_ready(s, flag_base, home) implies #[trigger] boot_case(
        w,
        s,
        img,
        pair.0 as int,
        flag_base,
        home,
        ops,
    ) by {
        lemma_boot_case(w, s, img, flag_base, home, pair);
    }
}

} // verus!
