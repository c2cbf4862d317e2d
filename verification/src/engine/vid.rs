//! The Volume ID producer: its gate, its buffers, and the AACS session around it.
use crate::engine::code;
use crate::engine::mt1959::Mt1959Engine;
use crate::engine::scanner;
use crate::engine::signatures::{
    DENY_SENSE_SIG, DISPATCHER_SIG, SESSION_RESET_SIG, VID_GATE_SIG, VID_GATE_SIG_JB8,
    VID_GATE_SIG_NB,
};
use crate::error::{Anchor, FwError, Reason};
use crate::raw;
use crate::sig;
use crate::thumb;
use vstd::prelude::*;

verus! {

/// Where the AACS session cells start.
pub const AUTH_BASE: u32 = 0x0200_0c80;

/// The halfword with which the producer starts, `push {r4,r5,r6,r7,lr}`.
pub const PRODUCER_PUSH: u16 = 0xB5F0;

/// First address of the runtime RAM that the producer stages into.
pub const RUNTIME_LO: u32 = 0x0020_1000;

/// End of the runtime RAM that the producer stages into.
pub const RUNTIME_HI: u32 = 0x0030_0000;

/// The VID gate's address computation: the first of three shapes that matches at all.
pub open spec fn vid_gate(img: Seq<u8>) -> Result<usize, FwError> {
    let lo = scanner::least(0x0012_0000, img.len() as int);
    let hi = scanner::least(0x0018_0000, img.len() as int);
    sig::preferring(
        sig::find_all(img, VID_GATE_SIG@, lo, hi),
        Anchor::VidGate,
        lo,
        hi,
        sig::preferring(
            sig::find_all(img, VID_GATE_SIG_NB@, lo, hi),
            Anchor::VidGateNb,
            lo,
            hi,
            sig::find_only(img, VID_GATE_SIG_JB8@, lo, hi, Anchor::VidGateJb8),
        ),
    )
}

/// The producer's entry: the nearest prologue at or below `p`, no more than 512 bytes
/// below `gate`.
pub open spec fn producer_entry(img: Seq<u8>, gate: int, p: int) -> Option<usize>
    decreases p,
{
    if p < 2 || gate - p > 0x200 {
        None
    } else if raw::hw_at(img, p) == PRODUCER_PUSH {
        Some(p as usize)
    } else {
        producer_entry(img, gate, p - 2)
    }
}

/// The runtime RAM address that the load at `o` reads.
pub open spec fn runtime_literal(img: Seq<u8>, o: int) -> Option<u32> {
    match code::literal_at(img, o) {
        Some(v) => if RUNTIME_LO <= v < RUNTIME_HI {
            Some(v)
        } else {
            None
        },
        None => None,
    }
}

/// The runtime RAM addresses loaded in `[o, end)`.
pub open spec fn runtime_literals(img: Seq<u8>, o: int, end: int) -> Seq<u32>
    decreases end - o,
{
    if o + 2 > end {
        Seq::empty()
    } else {
        match runtime_literal(img, o) {
            Some(v) => seq![v] + runtime_literals(img, o + 2, end),
            None => runtime_literals(img, o + 2, end),
        }
    }
}

/// The producer's entry and the one runtime buffer that it stages into.
pub open spec fn vid_producer(img: Seq<u8>) -> Result<(u32, u32), FwError> {
    match vid_gate(img) {
        Err(e) => Err(e),
        Ok(at) => match producer_entry(img, at + 16, at + 16) {
            None => Err(FwError::Refused(Reason::ProducerPrologue)),
            Some(p) => match code::agreed(
                runtime_literals(img, p as int, scanner::least(at + 16 + 0x80, img.len() as int)),
                FwError::Refused(Reason::ScratchMissing),
                FwError::Refused(Reason::ScratchAmbiguous),
            ) {
                Ok(v) => Ok((p as u32, v)),
                Err(e) => Err(e),
            },
        },
    }
}

/// The buffer that the producer stages into is in runtime RAM.
pub proof fn lemma_scratch_in_runtime(img: Seq<u8>)
    ensures
        vid_producer(img) matches Ok((_, v)) ==> RUNTIME_LO <= v < RUNTIME_HI,
{
    if let Ok((p, v)) = vid_producer(img) {
        let at = vid_gate(img)->Ok_0;
        let from = producer_entry(img, at + 16, at + 16)->Some_0 as int;
        lemma_runtime_literals(img, from, scanner::least(at + 16 + 0x80, img.len() as int));
    }
}

/// Every runtime literal is in runtime RAM.
proof fn lemma_runtime_literals(img: Seq<u8>, o: int, end: int)
    ensures
        forall|i: int|
            0 <= i < runtime_literals(img, o, end).len() ==> RUNTIME_LO
                <= #[trigger] runtime_literals(img, o, end)[i] < RUNTIME_HI,
    decreases end - o,
{
    if o + 2 <= end {
        lemma_runtime_literals(img, o + 2, end);
        let rest = runtime_literals(img, o + 2, end);
        let all = runtime_literals(img, o, end);
        if let Some(v) = runtime_literal(img, o) {
            assert forall|i: int| 0 <= i < all.len() implies RUNTIME_LO <= #[trigger] all[i]
                < RUNTIME_HI by {
                if i > 0 {
                    assert(all[i] == rest[i - 1]);
                }
            }
        }
    }
}

/// The routine that `movs r1,#1; bl` at `o` calls.
pub open spec fn setter_call(img: Seq<u8>, o: int) -> Option<u32> {
    if raw::hw_at(img, o) == 0x2101 {
        code::call_target(img, o + 2)
    } else {
        None
    }
}

/// The routines that `movs r1,#1; bl` calls in `[o, end)`.
pub open spec fn setter_calls(img: Seq<u8>, o: int, end: int) -> Seq<u32>
    decreases end - o,
{
    if o + 4 > end {
        Seq::empty()
    } else {
        match setter_call(img, o) {
            Some(t) => seq![t] + setter_calls(img, o + 2, end),
            None => setter_calls(img, o + 2, end),
        }
    }
}

/// The one routine `set_agid_state` that the producer opens the VID gate with.
pub open spec fn gate_setter(img: Seq<u8>) -> Result<u32, FwError> {
    match vid_gate(img) {
        Err(e) => Err(e),
        Ok(at) => code::agreed(
            setter_calls(img, at + 16, scanner::least(at + 16 + 0x60, scanner::short_of(img, 4))),
            FwError::Refused(Reason::GateSetterMissing),
            FwError::Refused(Reason::GateSetterDisagree),
        ),
    }
}

/// What the first `ldr r7,[pc]` of an SRAM address in `[o, gate)` loads.
pub open spec fn session_load(img: Seq<u8>, o: int, gate: int) -> Option<u32>
    decreases gate - o,
{
    if o + 2 > gate {
        None
    } else if code::loads_literal_into(raw::hw_at(img, o), 7) && code::sram_literal_at(
        img,
        o,
    ) is Some {
        code::sram_literal_at(img, o)
    } else {
        session_load(img, o + 2, gate)
    }
}

/// The per-AGID session struct that the producer reads.
pub open spec fn agid_struct(img: Seq<u8>) -> Result<u32, FwError> {
    match vid_gate(img) {
        Err(e) => Err(e),
        Ok(at) => match producer_entry(img, at + 16, at + 16) {
            None => Err(FwError::Refused(Reason::AgidPrologue)),
            Some(p) => match session_load(img, p as int, at + 16) {
                Some(v) => Ok(v),
                None => Err(FwError::Refused(Reason::AgidStruct)),
            },
        },
    }
}

/// The first `n` reset loops whose inner call is `setter`.
pub open spec fn reset_loops(img: Seq<u8>, cands: Seq<usize>, setter: u32, n: nat) -> Seq<usize>
    decreases n,
{
    if n == 0 {
        Seq::empty()
    } else {
        let before = reset_loops(img, cands, setter, (n - 1) as nat);
        if code::call_target(img, cands[n - 1] + 14) == Some(setter) {
            before.push(cands[n - 1])
        } else {
            before
        }
    }
}

/// `h` pushes the link register along with `r4`, `r5` and `r6`.
pub open spec fn pushes_work_registers(h: u16) -> bool {
    code::pushes_lr(h) && h & 0x0070 == 0x0070
}

/// The reset routine's entry: the nearest prologue at or below `p`, no more than 64
/// bytes below the loop `m`.
pub open spec fn reset_entry(img: Seq<u8>, m: int, p: int) -> Option<usize>
    decreases p,
{
    if p < 2 || m - p > 0x40 {
        None
    } else if pushes_work_registers(raw::hw_at(img, p)) {
        Some(p as usize)
    } else {
        reset_entry(img, m, p - 2)
    }
}

/// Entry of the routine that idles the AACS engine.
pub open spec fn session_reset(img: Seq<u8>) -> Result<u32, FwError> {
    match gate_setter(img) {
        Err(e) => Err(e),
        Ok(setter) => {
            let cands = sig::find_all(img, SESSION_RESET_SIG@, 0, img.len() as int);
            match sig::only(
                reset_loops(img, cands, setter, cands.len()),
                Anchor::SessionReset,
                0,
                img.len() as int,
            ) {
                Err(e) => Err(e),
                Ok(m) => match reset_entry(img, m as int, m as int) {
                    Some(p) => Ok(p as u32),
                    None => Err(FwError::Refused(Reason::ResetPrologue)),
                },
            }
        },
    }
}

/// The READ DISC STRUCTURE dispatcher and the AACS auth flag: the flag's cell is
/// believed only where its base is pooled near the deny sense.
pub open spec fn aacs(img: Seq<u8>) -> Result<(u32, u32), FwError> {
    match sig::find_first(img, DISPATCHER_SIG@, 0x000a_0000, 0x000c_0000) {
        None => Err(FwError::Refused(Reason::Dispatcher)),
        Some(dispatcher) => match sig::find_first(
            img,
            DENY_SENSE_SIG@,
            0x0013_0000,
            0x0014_0000,
        ) {
            None => Err(FwError::Refused(Reason::DenySense)),
            Some(deny) => if exists|o: int|
                deny - 0x300 <= o < deny + 0x40 && #[trigger] raw::occurs_at(
                    img,
                    raw::le_bytes(AUTH_BASE),
                    o,
                ) {
                Ok((dispatcher as u32, (AUTH_BASE + 2) as u32))
            } else {
                Err(FwError::Refused(Reason::AuthFlag))
            },
        },
    }
}

fn find_producer_entry(image: &[u8], gate: usize) -> (r: Option<usize>)
    requires
        raw::addressable(image@),
        gate + 2 <= image@.len(),
    ensures
        r == producer_entry(image@, gate as int, gate as int),
        r matches Some(p) ==> 2 <= p <= gate,
{
    let mut p: usize = gate;
    while !(p < 2 || gate - p > 0x200)
        invariant
            raw::addressable(image@),
            gate + 2 <= image@.len(),
            p <= gate,
            producer_entry(image@, gate as int, gate as int) == producer_entry(
                image@,
                gate as int,
                p as int,
            ),
        decreases p,
    {
        if raw::halfword(image, p) == PRODUCER_PUSH {
            return Some(p);
        }
        p -= 2;
    }
    None
}

fn find_reset_entry(image: &[u8], m: usize) -> (r: Option<usize>)
    requires
        raw::addressable(image@),
        m + 2 <= image@.len(),
    ensures
        r == reset_entry(image@, m as int, m as int),
        r matches Some(p) ==> p <= m,
{
    let mut p: usize = m;
    while !(p < 2 || m - p > 0x40)
        invariant
            raw::addressable(image@),
            m + 2 <= image@.len(),
            p <= m,
            reset_entry(image@, m as int, m as int) == reset_entry(image@, m as int, p as int),
        decreases p,
    {
        let h: u16 = raw::halfword(image, p);
        if h / 256 == 0xB5 && h & 0x0070 == 0x0070 {
            return Some(p);
        }
        p -= 2;
    }
    None
}

impl Mt1959Engine {
    /// The VID gate's address computation; the VID gate's `ldrb r0,[r0]` is 16 bytes behind it
    /// in every shape.
    pub fn find_vid_gate(&self, image: &[u8]) -> (r: Result<usize, FwError>)
        requires
            raw::addressable(image@),
        ensures
            r == vid_gate(image@),
            r matches Ok(at) ==> at + 22 <= image@.len(),
    {
        let len: usize = image.len();
        let lo: usize = if len < 0x0012_0000 {
            len
        } else {
            0x0012_0000
        };
        let hi: usize = if len < 0x0018_0000 {
            len
        } else {
            0x0018_0000
        };
        match sig::find_at_most_one(image, &VID_GATE_SIG, lo, hi, Anchor::VidGate) {
            Err(e) => return Err(e),
            Ok(Some(at)) => return Ok(at),
            Ok(None) => {},
        }
        match sig::find_at_most_one(image, &VID_GATE_SIG_NB, lo, hi, Anchor::VidGateNb) {
            Err(e) => return Err(e),
            Ok(Some(at)) => return Ok(at),
            Ok(None) => {},
        }
        sig::find_unique(image, &VID_GATE_SIG_JB8, lo, hi, Anchor::VidGateJb8)
    }

    /// The Volume ID producer and the runtime buffer that it stages the clear ID into.
    pub fn find_vid_producer(&self, image: &[u8]) -> (r: Result<(u32, u32), FwError>)
        requires
            raw::addressable(image@),
        ensures
            r == vid_producer(image@),
    {
        let len: usize = image.len();
        let gate: usize = match self.find_vid_gate(image) {
            Ok(at) => at + 16,
            Err(e) => return Err(e),
        };
        let producer: usize = match find_producer_entry(image, gate) {
            Some(p) => p,
            None => return Err(FwError::Refused(Reason::ProducerPrologue)),
        };
        let end: usize = if gate + 0x80 < len {
            gate + 0x80
        } else {
            len
        };
        let mut seen: Vec<u32> = Vec::new();
        let mut o: usize = producer;
        while o + 2 <= end
            invariant
                raw::addressable(image@),
                len == image@.len(),
                end <= len,
                o <= len,
                runtime_literals(image@, producer as int, end as int) == seen@ + runtime_literals(
                    image@,
                    o as int,
                    end as int,
                ),
            decreases end + 2 - o,
        {
            let ghost before = seen@;
            match code::pc_literal(image, o) {
                Some(v) => {
                    if RUNTIME_LO <= v && v < RUNTIME_HI {
                        seen.push(v);
                        proof {
                            let rest = runtime_literals(image@, o + 2, end as int);
                            assert(before + (seq![v] + rest) =~= before.push(v) + rest);
                        }
                    }
                },
                None => {},
            }
            o += 2;
        }
        proof {
            assert(seen@ + Seq::<u32>::empty() =~= seen@);
        }
        match code::agree(
            &seen,
            FwError::Refused(Reason::ScratchMissing),
            FwError::Refused(Reason::ScratchAmbiguous),
        ) {
            Ok(v) => Ok((producer as u32, v)),
            Err(e) => Err(e),
        }
    }

    /// The routine `set_agid_state(r0=agid, r1=value)`: what the producer calls after
    /// `movs r1,#1`, the same at every site.
    pub fn find_vid_gate_setter(&self, image: &[u8]) -> (r: Result<u32, FwError>)
        requires
            raw::addressable(image@),
        ensures
            r == gate_setter(image@),
    {
        let len: usize = image.len();
        let gate: usize = match self.find_vid_gate(image) {
            Ok(at) => at + 16,
            Err(e) => return Err(e),
        };
        let end: usize = if gate + 0x60 < len - 4 {
            gate + 0x60
        } else {
            len - 4
        };
        let mut seen: Vec<u32> = Vec::new();
        let mut o: usize = gate;
        while o + 4 <= end
            invariant
                raw::addressable(image@),
                len == image@.len(),
                end <= len,
                o <= len,
                setter_calls(image@, gate as int, end as int) == seen@ + setter_calls(
                    image@,
                    o as int,
                    end as int,
                ),
            decreases end + 4 - o,
        {
            let ghost before = seen@;
            if raw::halfword(image, o) == 0x2101 {
                match thumb_asm::decode_bl(image, o + 2) {
                    Some(t) => {
                        seen.push(t / 2 * 2);
                        proof {
                            let rest = setter_calls(image@, o + 2, end as int);
                            let v = (t / 2 * 2) as u32;
                            assert(before + (seq![v] + rest) =~= before.push(v) + rest);
                        }
                    },
                    None => {},
                }
            }
            o += 2;
        }
        proof {
            assert(seen@ + Seq::<u32>::empty() =~= seen@);
        }
        code::agree(
            &seen,
            FwError::Refused(Reason::GateSetterMissing),
            FwError::Refused(Reason::GateSetterDisagree),
        )
    }

    /// The session struct that holds the active AGID in the top two bits of its byte
    /// 10: the first SRAM address that the producer loads into `r7`.
    pub fn find_vid_agid_struct(&self, image: &[u8]) -> (r: Result<u32, FwError>)
        requires
            raw::addressable(image@),
        ensures
            r == agid_struct(image@),
    {
        let len: usize = image.len();
        let gate: usize = match self.find_vid_gate(image) {
            Ok(at) => at + 16,
            Err(e) => return Err(e),
        };
        let producer: usize = match find_producer_entry(image, gate) {
            Some(p) => p,
            None => return Err(FwError::Refused(Reason::AgidPrologue)),
        };
        let mut o: usize = producer;
        while o + 2 <= gate
            invariant
                raw::addressable(image@),
                len == image@.len(),
                vid_gate(image@) == Ok::<usize, FwError>((gate - 16) as usize),
                gate >= 16,
                gate + 2 <= len,
                o <= len,
                producer_entry(image@, gate as int, gate as int) == Some(producer),
                session_load(image@, producer as int, gate as int) == session_load(
                    image@,
                    o as int,
                    gate as int,
                ),
            decreases gate + 2 - o,
        {
            if raw::halfword(image, o) / 256 == 0x4F {
                match code::sram_literal(image, o) {
                    Some(v) => {
                        return Ok(v);
                    },
                    None => {},
                }
            }
            o += 2;
        }
        Err(FwError::Refused(Reason::AgidStruct))
    }

    /// The routine that idles the AACS engine: the one whose AGID loop calls
    /// `set_agid_state`, from its prologue on.
    pub fn find_aacs_session_reset(&self, image: &[u8]) -> (r: Result<u32, FwError>)
        requires
            raw::addressable(image@),
        ensures
            r == session_reset(image@),
    {
        let len: usize = image.len();
        let setter: u32 = match self.find_vid_gate_setter(image) {
            Ok(t) => t,
            Err(e) => return Err(e),
        };
        let cands: Vec<usize> = sig::find_masked_all(image, &SESSION_RESET_SIG, 0, len);
        let mut hits: Vec<usize> = Vec::new();
        let mut n: usize = 0;
        while n < cands.len()
            invariant
                raw::addressable(image@),
                len == image@.len(),
                n <= cands@.len(),
                forall|i: int|
                    0 <= i < cands@.len() ==> sig::inside(
                        image@,
                        SESSION_RESET_SIG@,
                        0,
                        #[trigger] cands@[i] as int,
                    ),
                hits@ == reset_loops(image@, cands@, setter, n as nat),
                forall|i: int| 0 <= i < hits@.len() ==> #[trigger] hits@[i] + 28 <= len,
            decreases cands@.len() - n,
        {
            assert(sig::inside(image@, SESSION_RESET_SIG@, 0, cands@[n as int] as int));
            match code::decode_bl_target(image, cands[n] + 14) {
                Some(t) => {
                    if t == setter {
                        hits.push(cands[n]);
                    }
                },
                None => {},
            }
            n += 1;
        }
        if hits.len() != 1 {
            return Err(
                FwError::Matches {
                    what: Anchor::SessionReset,
                    count: hits.len(),
                    lo: 0,
                    hi: image.len(),
                },
            );
        }
        match find_reset_entry(image, hits[0]) {
            Some(p) => Ok(p as u32),
            None => Err(FwError::Refused(Reason::ResetPrologue)),
        }
    }

    /// The READ DISC STRUCTURE format dispatcher and the AACS auth-granted flag.
    pub fn find_aacs(&self, image: &[u8]) -> (r: Result<(u32, u32), FwError>)
        requires
            raw::addressable(image@),
        ensures
            r == aacs(image@),
    {
        let dispatcher: usize = match sig::find_masked(
            image,
            &DISPATCHER_SIG,
            0x000a_0000,
            0x000c_0000,
        ) {
            Some(at) => at,
            None => return Err(FwError::Refused(Reason::Dispatcher)),
        };
        let deny: usize = match sig::find_masked(
            image,
            &DENY_SENSE_SIG,
            0x0013_0000,
            0x0014_0000,
        ) {
            Some(at) => at,
            None => return Err(FwError::Refused(Reason::DenySense)),
        };
        match thumb::find_word(image, AUTH_BASE, deny - 0x300) {
            Some(o) => {
                if o < deny + 0x40 {
                    return Ok((dispatcher as u32, AUTH_BASE + 2));
                }
            },
            None => {},
        }
        Err(FwError::Refused(Reason::AuthFlag))
    }
}

} // verus!
