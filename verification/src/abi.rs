//! The freemkv vendor-command wire frame.
//!
//! A freemkv command is a standard SCSI `READ BUFFER` (`0x3C`) with an OEM-unused
//! mode and a two-byte knock. The grammar is `verb [feature] [state]`:
//!
//! ```text
//!   cdb[0]    = 0x3C  READ BUFFER
//!   cdb[1]    = 0x0E  KNOCK_MODE
//!   cdb[2..4] = KNOCK (or DEBUG_KNOCK)
//!   cdb[4]    = verb
//!   cdb[5]    = feature id, SET and GET only
//!   cdb[6]    = state byte, SET and RESET only
//!   cdb[7..9] = allocation length, 16-bit big-endian
//!   cdb[9]    = control
//! ```
//!
//! The verbs that take an address carry it big-endian in `cdb[5..9]` instead, and
//! a value byte, where they take one, in `cdb[9]`.
use vstd::prelude::*;

verus! {

/// Standard SCSI `READ BUFFER` opcode, the command freemkv hijacks.
pub const READ_BUFFER_OPCODE: u8 = 0x3C;

/// The freemkv sub-command mode at `cdb[1]`; the OEM jump table rejects modes
/// from `0x0E` on.
pub const KNOCK_MODE: u8 = 0x0E;

/// The safe knock at `cdb[2..4]`, carried by every durable verb.
pub const KNOCK: [u8; 2] = [0xC0, 0xDE];

/// The debug knock at `cdb[2..4]`, the only one that authorizes the debug verbs.
pub const DEBUG_KNOCK: [u8; 2] = [0xDE, 0xB9];

/// `"freemkv"`, which leads a self-identifying reply.
pub const RESP_MAGIC: [u8; 7] = [0x66, 0x72, 0x65, 0x65, 0x6D, 0x6B, 0x76];

/// Reserved vendor sense (KEY / ASC / ASCQ) for error signalling.
pub const SENSE_IDENTITY: [u8; 3] = [0x09, 0xF0, 0x00];

/// Length of the Volume ID read back after an AACS unlock.
pub const VID_LEN: usize = 16;

/// Length of a freemkv CDB.
pub const CDB_LEN: usize = 10;

/// Offset of the opcode byte.
pub const CDB_OPCODE: usize = 0;

/// Offset of the mode byte.
pub const CDB_MODE: usize = 1;

/// Offset of the first knock byte.
pub const CDB_KNOCK: usize = 2;

/// Offset of the verb byte.
pub const CDB_VERB: usize = 4;

/// Offset of the feature-id byte.
pub const CDB_FEATURE: usize = 5;

/// Offset of the state byte.
pub const CDB_STATE: usize = 6;

/// Offset of the 16-bit big-endian allocation length.
pub const CDB_ALLOC_LEN: usize = 7;

/// Minimum data-in allocation length a vendor command requests: the drive aborts
/// transfers below about 16 bytes.
pub const MIN_ALLOC_LEN: u16 = 64;

/// Bytes returned by one memory read.
pub const MEMREAD_LEN: usize = 64;

/// Feature state: passthrough, exactly as the drive shipped.
pub const STATE_PASSTHROUGH: u8 = 0xFF;

/// Feature state: actively off.
pub const STATE_OFF: u8 = 0x00;

/// Feature state: on.
pub const STATE_ON: u8 = 0x01;

/// Reset mode: reload the saved table from flash, in RAM only. The eight bytes are taken
/// as they are; no marker is tested. Where nothing was ever saved they are erased flash,
/// which is passthrough throughout.
pub const RESET_TO_FLASH: u8 = 0x00;

/// Reset mode: restore the flags that the image ships with, UHD and BD on and the rest
/// passthrough, in RAM only.
pub const RESET_TO_DEFAULTS: u8 = 0x01;

/// Reset mode: force every feature to passthrough in RAM, and program the saved table in
/// flash to all passthrough too.
pub const RESET_TO_OEM: u8 = 0xFF;

/// Host-revocation-list state reserved for the gated one-time wipe.
pub const HRL_WIPE_ONCE: u8 = 0x02;

/// Speed state: the limiter is off, the drive runs uncapped.
pub const SPEED_MAX: u8 = 0x00;

/// Region state base: DVD region N is `REGION_DVD_BASE + N`.
pub const REGION_DVD_BASE: u8 = 0x00;

/// Region state: force BD region A.
pub const REGION_BD_A: u8 = 0x0A;

/// Region state: force BD region B.
pub const REGION_BD_B: u8 = 0x0B;

/// Region state: force BD region C.
pub const REGION_BD_C: u8 = 0x0C;

/// Region state: any disc plays.
pub const REGION_FREE: u8 = 0x0F;

/// The verb selector in `cdb[4]`.
#[derive(Debug, Clone, Copy, PartialEq, Eq, Structural)]
pub enum Verb {
    /// Status: the magic, the version and the feature-state table.
    Identity,
    /// Set one feature to a state.
    SetState,
    /// Read one feature's state.
    Get,
    /// Restore the feature-state table.
    Reset,
    /// Peek 64 bytes of memory.
    DumpAll,
    /// Diagnostic single-byte flash write.
    FlashWrite,
    /// Persist the feature-state table to flash.
    Save,
    /// Debug knock only: call an address with one argument.
    Call,
    /// Debug knock only: store one byte.
    Poke,
    /// Debug knock only: re-enter the firmware's boot function.
    Reboot,
}

impl Verb {
    /// The verb's number on the wire.
    pub open spec fn wire(self) -> u8 {
        match self {
            Verb::Identity => 0x01,
            Verb::SetState => 0x02,
            Verb::Get => 0x03,
            Verb::Reset => 0x04,
            Verb::DumpAll => 0x09,
            Verb::FlashWrite => 0x0A,
            Verb::Save => 0x0B,
            Verb::Call => 0x0C,
            Verb::Poke => 0x0D,
            Verb::Reboot => 0x0F,
        }
    }

    /// The verb's number on the wire.
    pub fn code(self) -> (r: u8)
        ensures
            r == self.wire(),
    {
        match self {
            Verb::Identity => 0x01,
            Verb::SetState => 0x02,
            Verb::Get => 0x03,
            Verb::Reset => 0x04,
            Verb::DumpAll => 0x09,
            Verb::FlashWrite => 0x0A,
            Verb::Save => 0x0B,
            Verb::Call => 0x0C,
            Verb::Poke => 0x0D,
            Verb::Reboot => 0x0F,
        }
    }
}

/// The feature selector in `cdb[5]`.
#[derive(Debug, Clone, Copy, PartialEq, Eq, Structural)]
pub enum Feature {
    /// Read-speed ceiling; `0x00` lifts it, `0x01..=0xFE` is an explicit cap.
    Speed,
    /// Region control.
    Region,
    /// UHD (AACS 2.0) capability gate.
    Uhd,
    /// Blu-ray (AACS 1.0) capability gate.
    Bd,
    /// Host-revocation-list handling; off skips the lookup.
    Hrl,
    /// Drive-host handshake; off bypasses it.
    Encryption,
}

impl Feature {
    /// The feature's number on the wire, and its slot in the flag table.
    pub open spec fn wire(self) -> u8 {
        match self {
            Feature::Speed => 0x01,
            Feature::Region => 0x02,
            Feature::Uhd => 0x03,
            Feature::Bd => 0x04,
            Feature::Hrl => 0x05,
            Feature::Encryption => 0x06,
        }
    }

    /// The feature's number on the wire, and its slot in the flag table.
    pub fn code(self) -> (r: u8)
        ensures
            r == self.wire(),
    {
        match self {
            Feature::Speed => 0x01,
            Feature::Region => 0x02,
            Feature::Uhd => 0x03,
            Feature::Bd => 0x04,
            Feature::Hrl => 0x05,
            Feature::Encryption => 0x06,
        }
    }
}

/// A safe-knock frame with feature, state and allocation length.
pub open spec fn safe_frame(
    verb: Verb,
    feature: Option<Feature>,
    state: Option<u8>,
    alloc_len: u16,
) -> Seq<u8> {
    seq![
        READ_BUFFER_OPCODE,
        KNOCK_MODE,
        0xC0u8,
        0xDEu8,
        verb.wire(),
        match feature {
            Some(f) => f.wire(),
            None => 0u8,
        },
        match state {
            Some(s) => s,
            None => 0u8,
        },
        (alloc_len / 256) as u8,
        (alloc_len % 256) as u8,
        0u8,
    ]
}

/// A frame that carries a 32-bit address big-endian and one value byte.
pub open spec fn addressed_frame(debug: bool, verb: Verb, addr: u32, value: u8) -> Seq<u8> {
    seq![
        READ_BUFFER_OPCODE,
        KNOCK_MODE,
        if debug {
            0xDEu8
        } else {
            0xC0u8
        },
        if debug {
            0xB9u8
        } else {
            0xDEu8
        },
        verb.wire(),
        (addr / 16777216) as u8,
        (addr / 65536 % 256) as u8,
        (addr / 256 % 256) as u8,
        (addr % 256) as u8,
        value,
    ]
}

/// The reboot frame: the debug knock and a floored allocation length, nothing else.
pub open spec fn reboot_frame() -> Seq<u8> {
    seq![
        READ_BUFFER_OPCODE,
        KNOCK_MODE,
        0xDEu8,
        0xB9u8,
        Verb::Reboot.wire(),
        0u8,
        0u8,
        0u8,
        64u8,
        0u8,
    ]
}

/// The frame authorizes the debug verbs.
pub open spec fn has_debug_knock(cdb: Seq<u8>) -> bool {
    cdb[2] == DEBUG_KNOCK[0] && cdb[3] == DEBUG_KNOCK[1]
}

/// The frame authorizes the durable verbs.
pub open spec fn has_safe_knock(cdb: Seq<u8>) -> bool {
    cdb[2] == KNOCK[0] && cdb[3] == KNOCK[1]
}

/// Builds a safe-knock frame; `feature` and `state` are zero where absent.
pub fn build_cdb(verb: Verb, feature: Option<Feature>, state: Option<u8>, alloc_len: u16) -> (cdb:
    [u8; CDB_LEN])
    ensures
        cdb@ == safe_frame(verb, feature, state, alloc_len),
{
    let f: u8 = match feature {
        Some(x) => x.code(),
        None => 0,
    };
    let s: u8 = match state {
        Some(x) => x,
        None => 0,
    };
    let cdb: [u8; CDB_LEN] = [
        READ_BUFFER_OPCODE,
        KNOCK_MODE,
        0xC0,
        0xDE,
        verb.code(),
        f,
        s,
        (alloc_len / 256) as u8,
        (alloc_len % 256) as u8,
        0,
    ];
    assert(cdb@ =~= safe_frame(verb, feature, state, alloc_len));
    cdb
}

fn addressed_cdb(debug: bool, verb: Verb, addr: u32, value: u8) -> (cdb: [u8; CDB_LEN])
    ensures
        cdb@ == addressed_frame(debug, verb, addr, value),
{
    let k0: u8 = if debug {
        0xDE
    } else {
        0xC0
    };
    let k1: u8 = if debug {
        0xB9
    } else {
        0xDE
    };
    let cdb: [u8; CDB_LEN] = [
        READ_BUFFER_OPCODE,
        KNOCK_MODE,
        k0,
        k1,
        verb.code(),
        (addr / 16777216) as u8,
        (addr / 65536 % 256) as u8,
        (addr / 256 % 256) as u8,
        (addr % 256) as u8,
        value,
    ];
    assert(cdb@ =~= addressed_frame(debug, verb, addr, value));
    cdb
}

/// Builds a `SET feature = state` frame.
pub fn build_set_cdb(feature: Feature, state: u8) -> (cdb: [u8; CDB_LEN])
    ensures
        cdb@ == safe_frame(Verb::SetState, Some(feature), Some(state), MIN_ALLOC_LEN),
{
    build_cdb(Verb::SetState, Some(feature), Some(state), MIN_ALLOC_LEN)
}

/// Builds a `GET feature` frame.
pub fn build_get_cdb(feature: Feature) -> (cdb: [u8; CDB_LEN])
    ensures
        cdb@ == safe_frame(Verb::Get, Some(feature), None, MIN_ALLOC_LEN),
{
    build_cdb(Verb::Get, Some(feature), None, MIN_ALLOC_LEN)
}

/// Builds a `RESET` frame; `mode` rides in the state slot.
pub fn build_reset_cdb(mode: u8) -> (cdb: [u8; CDB_LEN])
    ensures
        cdb@ == safe_frame(Verb::Reset, None, Some(mode), MIN_ALLOC_LEN),
{
    build_cdb(Verb::Reset, None, Some(mode), MIN_ALLOC_LEN)
}

/// Builds a `SAVE` frame.
pub fn build_save_cdb() -> (cdb: [u8; CDB_LEN])
    ensures
        cdb@ == safe_frame(Verb::Save, None, None, MIN_ALLOC_LEN),
{
    build_cdb(Verb::Save, None, None, MIN_ALLOC_LEN)
}

/// Builds an `IDENTITY` frame; `alloc_len` sizes the reply.
pub fn build_identity_cdb(alloc_len: u16) -> (cdb: [u8; CDB_LEN])
    ensures
        cdb@ == safe_frame(Verb::Identity, None, None, alloc_len),
{
    build_cdb(Verb::Identity, None, None, alloc_len)
}

/// Builds a memory-read frame for `addr`.
pub fn build_memread_cdb(addr: u32) -> (cdb: [u8; CDB_LEN])
    ensures
        cdb@ == addressed_frame(false, Verb::DumpAll, addr, 0),
{
    addressed_cdb(false, Verb::DumpAll, addr, 0)
}

/// Builds a flash-write probe frame: `val` to flash offset `off`.
pub fn build_flashwrite_cdb(off: u32, val: u8) -> (cdb: [u8; CDB_LEN])
    ensures
        cdb@ == addressed_frame(false, Verb::FlashWrite, off, val),
{
    addressed_cdb(false, Verb::FlashWrite, off, val)
}

/// Builds a debug call frame: call `target` with `r0`.
pub fn build_call_cdb(target: u32, r0: u8) -> (cdb: [u8; CDB_LEN])
    ensures
        cdb@ == addressed_frame(true, Verb::Call, target, r0),
{
    addressed_cdb(true, Verb::Call, target, r0)
}

/// Builds a debug poke frame: store `val` at `target`.
pub fn build_poke_cdb(target: u32, val: u8) -> (cdb: [u8; CDB_LEN])
    ensures
        cdb@ == addressed_frame(true, Verb::Poke, target, val),
{
    addressed_cdb(true, Verb::Poke, target, val)
}

/// Builds a debug reboot frame.
pub fn build_reboot_cdb() -> (cdb: [u8; CDB_LEN])
    ensures
        cdb@ == reboot_frame(),
{
    let cdb: [u8; CDB_LEN] = [
        READ_BUFFER_OPCODE,
        KNOCK_MODE,
        0xDE,
        0xB9,
        Verb::Reboot.code(),
        0,
        0,
        (MIN_ALLOC_LEN / 256) as u8,
        (MIN_ALLOC_LEN % 256) as u8,
        0,
    ];
    assert(cdb@ =~= reboot_frame());
    cdb
}

/// A reply leads with the magic.
pub open spec fn leads_with_magic(bytes: Seq<u8>) -> bool {
    bytes.len() >= 7 && bytes.subrange(0, 7) == RESP_MAGIC@
}

/// Whether a device reply leads with [`RESP_MAGIC`].
pub fn verify_response(bytes: &[u8]) -> (r: bool)
    ensures
        r == leads_with_magic(bytes@),
{
    if bytes.len() < 7 {
        return false;
    }
    let mut i: usize = 0;
    while i < 7
        invariant
            i <= 7 <= bytes@.len(),
            forall|k: int| 0 <= k < i ==> #[trigger] bytes@[k] == RESP_MAGIC@[k],
        decreases 7 - i,
    {
        if bytes[i] != RESP_MAGIC[i] {
            assert(bytes@.subrange(0, 7)[i as int] != RESP_MAGIC@[i as int]);
            return false;
        }
        i += 1;
    }
    assert(bytes@.subrange(0, 7) =~= RESP_MAGIC@);
    true
}

/// The knocks never cross: no frame that carries a durable verb authorizes a debug
/// verb, and no frame that carries a debug verb authorizes a durable one.
pub proof fn law_knocks_never_cross(
    verb: Verb,
    feature: Option<Feature>,
    state: Option<u8>,
    alloc_len: u16,
    addr: u32,
    value: u8,
)
    ensures
        has_safe_knock(safe_frame(verb, feature, state, alloc_len)),
        !has_debug_knock(safe_frame(verb, feature, state, alloc_len)),
        has_safe_knock(addressed_frame(false, verb, addr, value)),
        !has_debug_knock(addressed_frame(false, verb, addr, value)),
        has_debug_knock(addressed_frame(true, verb, addr, value)),
        !has_safe_knock(addressed_frame(true, verb, addr, value)),
        has_debug_knock(reboot_frame()),
        !has_safe_knock(reboot_frame()),
{
}

/// The address an address-carrying frame was built for is the big-endian word at
/// `cdb[5..9]`, and the value byte is the last one.
pub proof fn law_addressed_frame_carries_its_address(
    debug: bool,
    verb: Verb,
    addr: u32,
    value: u8,
)
    ensures
        ({
            let cdb = addressed_frame(debug, verb, addr, value);
            &&& cdb[5] * 16777216 + cdb[6] * 65536 + cdb[7] * 256 + cdb[8] == addr
            &&& cdb[9] == value
        }),
{
}

/// Distinct verbs, and distinct features, have distinct numbers on the wire.
pub proof fn law_wire_numbers_are_distinct(v: Verb, w: Verb, f: Feature, g: Feature)
    ensures
        v.wire() == w.wire() ==> v == w,
        f.wire() == g.wire() ==> f == g,
{
}

/// Every frame whose builder does not take a length asks for at least
/// [`MIN_ALLOC_LEN`] bytes.
pub proof fn law_vendor_commands_floor_the_transfer(feature: Feature, state: u8)
    ensures
        ({
            let asked = |cdb: Seq<u8>| cdb[7] * 256 + cdb[8];
            &&& asked(safe_frame(Verb::SetState, Some(feature), Some(state), MIN_ALLOC_LEN)) == 64
            &&& asked(safe_frame(Verb::Get, Some(feature), None, MIN_ALLOC_LEN)) == 64
            &&& asked(safe_frame(Verb::Reset, None, Some(state), MIN_ALLOC_LEN)) == 64
            &&& asked(safe_frame(Verb::Save, None, None, MIN_ALLOC_LEN)) == 64
            &&& asked(reboot_frame()) == 64
        }),
{
}

} // verus!
