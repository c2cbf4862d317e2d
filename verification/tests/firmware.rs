//! Whole images: what is found in them, what is written into them, and what the
//! reports say.
//!
//! The substrate is a 2 MiB image that holds one instance of every routine the
//! finders look for, zero elsewhere, with two erased stretches: one that the integrity
//! table covers, where injected code goes, and one that it does not, where tests lay
//! further routines down without moving a stub.

use freemkv_fw::abi::{Feature, READ_BUFFER_OPCODE, RESP_MAGIC};
use freemkv_fw::api::{build, create, RegionVerdict};
use freemkv_fw::engine::audit::{audit_image, fact};
use freemkv_fw::engine::base::Layout;
use freemkv_fw::engine::boot::BootInitSite;
use freemkv_fw::engine::create::CreateReport;
use freemkv_fw::engine::handler::HandlerFacts;
use freemkv_fw::engine::lever::{LeverId, LeverOutcome, LeverReport, ModifyReport};
use freemkv_fw::engine::modify::is_freemkv_patched;
use freemkv_fw::engine::mt1939::Mt1939Engine;
use freemkv_fw::engine::mt1959::Mt1959Engine;
use freemkv_fw::engine::scanner::LIVE_FLAGS;
use freemkv_fw::engine::signatures::{
    AKE_GATE_SIG, AKE_GATE_SIG_CLASSIC, BD_GATE_SIG, BOOT_INIT_SIG, BOOT_INIT_SIG_CLASSIC,
    DENY_SENSE_SIG, DISPATCHER_SIG, FLASH_PROGRAM_SIG,
    HRL_LOOKUP_SIG, HRL_LOOKUP_SIG_CLASSIC, REGION_EMIT_SIG, RESPONSE_WRITER_SIG,
    SESSION_RESET_SIG, SPEED_GATE_SIG, UHD_CLASSIFIER_SIG, VID_GATE_SIG, VID_GATE_SIG_CLASSIC,
};
use freemkv_fw::engine::space::TableEntry;
use freemkv_fw::engine::Engine;
use freemkv_fw::error::{Anchor, Cause, FwError, Reason, SramCell, Step};
use freemkv_fw::family::{Capability, ChipFamily, ChipInfo};
use freemkv_fw::sig::{find_masked_all, masked_matches};
use thumb_asm as thumb;

// --- substrate offsets -----------------------------------------------------

/// Command scanner entry.
const SCANNER: usize = 0x0001_9000;
/// Read-ramp ceiling gate.
const SPEED: usize = 0x0001_a000;
/// Response byte-writer.
const WRITER: usize = 0x0009_8000;
/// Response commit routine.
const COMMIT: usize = 0x000a_1000;
/// Flash PROGRAM routine.
const PROGRAM: usize = 0x000b_4000;
/// RPC-state emitter of the modern line.
const EMITTER: usize = 0x0011_9890;
/// Volume ID producer.
const PRODUCER: usize = 0x0013_675c;
/// Volume ID gate, 0x40 bytes into the producer.
const GATE: usize = 0x0013_679c;
/// The deny path.
const DENY: usize = 0x0013_6800;
/// `set_agid_state`.
const SETTER: usize = 0x0013_6a00;
/// AACS session reset.
const RESET: usize = 0x0013_6b00;
/// Handshake state writers.
const HANDSHAKE: usize = 0x0013_7000;
/// Disc-version classifier.
const CLASSIFIER: usize = 0x0013_8000;
/// Media accept gate.
const MEDIA: usize = 0x0013_9000;
/// Revocation lookup of the modern line.
const LOOKUP: usize = 0x0013_a000;
/// Revoke path of the modern line.
const REVOKED: usize = 0x0013_a200;
/// Boot-mode prologue.
const BOOT: usize = 0x0013_d416;
/// Dispatch table of the modern line.
const DISPATCH: usize = 0x0017_0000;
/// Where injected code goes.
const FREE: usize = 0x0015_3968;
/// Drive descriptor.
const DESCRIPTOR: usize = 0x001e_c000;
/// Block that settings are saved to.
const NV_BLOCK: usize = 0x001e_a000;

/// The halfwords of a signature, with `low` filled in where its mask leaves room.
fn lay(img: &mut [u8], at: usize, sig: &[(u16, u16)], low: u16) {
    for (k, &(value, mask)) in sig.iter().enumerate() {
        put_hw(img, at + 2 * k, &[(value & mask) | (low & !mask)]);
    }
}

fn put_u32(img: &mut [u8], off: usize, v: u32) {
    img[off..off + 4].copy_from_slice(&v.to_le_bytes());
}

fn put_bl(img: &mut [u8], off: usize, target: usize) {
    let bl = thumb::encode_bl(off, target as u32).expect("bl in range");
    thumb::write(img, off, &bl);
}

/// Lays a dispatch table of twelve records down, the sixth a live one for READ BUFFER.
fn lay_table(img: &mut [u8], at: usize) {
    for i in 0..12usize {
        img[at + i * 8..at + i * 8 + 8].copy_from_slice(&[0, 0, 0, 0, 0, 0, 0, 0]);
    }
    let live = at + 5 * 8;
    img[live] = READ_BUFFER_OPCODE;
    img[live + 1] = LIVE_FLAGS;
    put_u32(img, live + 4, OEM_3C_HANDLER);
}

fn fixture() -> Vec<u8> {
    let mut img = vec![0u8; 0x20_0000];
    img[FREE..0x0015_8000].fill(0xFF);
    img[0x001c_3810..0x001d_8000].fill(0xFF);

    // The scanner: prologue, load of the command block, mode gate.
    put_hw(&mut img, SCANNER, &[0xB570, 0x4B10]);
    put_u32(&mut img, SCANNER + 0x44, 0x0200_0d38);
    put_hw(
        &mut img,
        SCANNER + 0x80,
        &[0x2A06, 0x2A07, 0x2A0A, 0x2A0B, 0x2A0C],
    );
    // The call that sets sense data up.
    put_hw(&mut img, SCANNER + 0x20, &[0x2224, 0x2100, 0x2005]);
    put_bl(&mut img, SCANNER + 0x26, 0x0002_0000);
    lay(&mut img, SPEED, &SPEED_GATE_SIG, 0x0010);

    // The OEM handler, and how it answers.
    put_hw(&mut img, (OEM_3C_HANDLER & !1) as usize, &[0xB5F0]);
    lay(&mut img, WRITER, &RESPONSE_WRITER_SIG, 0x0010);
    put_u32(&mut img, WRITER + 0x44, 0x0000_1234);
    put_hw(&mut img, COMMIT, &[0x4908, 0x6288, 0x4808]);
    put_u32(&mut img, COMMIT + 0x24, 0x0200_0f00);
    put_u32(&mut img, COMMIT + 0x28, 0x0200_0f10);

    // Flash programming: the routine, its constants, two helpers that share a cell.
    lay(&mut img, PROGRAM, &FLASH_PROGRAM_SIG, 0);
    put_bl(&mut img, PROGRAM + 0x10, PROGRAM + 0x1000);
    put_bl(&mut img, PROGRAM + 0x14, PROGRAM + 0x1100);
    put_u32(&mut img, PROGRAM + 0x100, 0x0200_1200);
    put_u32(&mut img, PROGRAM + 0x104, 0x0400_2240);
    put_u32(&mut img, PROGRAM + 0x108, 0x01ff_9000);
    for helper in [PROGRAM + 0x1000, PROGRAM + 0x1100] {
        put_hw(&mut img, helper, &[0x4808]);
        put_u32(&mut img, helper + 0x24, 0x0200_0a00);
    }
    // One more load, of the cell below the widest stretch that nothing refers to.
    put_hw(&mut img, PROGRAM + 0x1200, &[0x4808]);
    put_u32(&mut img, PROGRAM + 0x1224, 0x0200_1208);
    img[NV_BLOCK..NV_BLOCK + 0x4c0].fill(0xFF);
    img[NV_BLOCK + 0x4b0..NV_BLOCK + 0x4b3].copy_from_slice(&[0x00, 0x04, 0x05]);

    lay(&mut img, EMITTER, &REGION_EMIT_SIG, 0);

    // The Volume ID producer: session struct, staging buffer, gate, state setter.
    put_hw(&mut img, PRODUCER, &[0xB5F0, 0x4F08, 0x4808]);
    put_u32(&mut img, PRODUCER + 0x24, 0x0200_0d40);
    put_u32(&mut img, PRODUCER + 0x28, 0x0021_0c00);
    lay(&mut img, GATE, &VID_GATE_SIG, 0);
    let d = (DENY - (GATE + 20) - 4) / 2;
    put_hw(&mut img, GATE + 20, &[0xD100 | d as u16]);
    put_hw(&mut img, GATE + 24, &[0x2101]);
    put_bl(&mut img, GATE + 26, SETTER);
    put_hw(&mut img, DENY + 0x10, &[0x2202, 0x216F]);
    put_hw(&mut img, RESET, &[0xB570]);
    lay(&mut img, RESET + 8, &SESSION_RESET_SIG, 0);
    put_bl(&mut img, RESET + 8 + 14, SETTER);

    lay(&mut img, HANDSHAKE, &AKE_GATE_SIG, 0x0012);
    lay(&mut img, CLASSIFIER, &UHD_CLASSIFIER_SIG, 0);
    lay(&mut img, MEDIA, &BD_GATE_SIG, 0x0004);

    // The revocation lookup, its two callers and the path they branch to.
    lay(&mut img, LOOKUP, &HRL_LOOKUP_SIG, 0);
    put_bl(&mut img, LOOKUP + 8, 0x1000);
    put_bl(&mut img, LOOKUP + 16, 0x1000);
    put_hw(&mut img, REVOKED, &[0x78A0, 0x2800, 0xD1FE]);
    for call in [REVOKED + 0x40, REVOKED + 0x60] {
        put_bl(&mut img, call, LOOKUP);
        put_hw(&mut img, call + 4, &[0x2200, 0x2800, bne_to(call + 8, REVOKED)]);
    }

    // The boot path: the reload's `bmi` lands on a call.
    lay(&mut img, BOOT, &BOOT_INIT_SIG, 0x0010);
    put_bl(&mut img, BOOT + 18, 0x0014_0000);

    lay_table(&mut img, DISPATCH);
    img[DESCRIPTOR + 0x34..DESCRIPTOR + 0x3c].copy_from_slice(b"MTEKMT19");
    img
}

/// The substrate's integrity table: everything below the uncovered stretch.
fn table() -> Vec<TableEntry> {
    vec![
        TableEntry {
            active: false,
            start: 0x001c_0000,
            end: 0x001f_ffff,
        },
        TableEntry {
            active: true,
            start: 0x0001_1000,
            end: 0x001b_ffff,
        },
    ]
}

fn layout() -> Layout {
    Layout {
        covered: table(),
        live_record_windows: vec![(0x0016_0000, 0x0017_8000)],
        commit_windows: vec![(0x000a_0000, 0x000a_8000)],
    }
}

fn chip(family: ChipFamily) -> ChipInfo {
    ChipInfo {
        family,
        vendor: "HL-DT-ST".into(),
        model: "BD-RE BU40N".into(),
        rev: "1.00".into(),
        vendor_specific: String::new(),
        descriptor_present: true,
    }
}

fn capable() -> Capability {
    Capability {
        media: "BD/UHD".into(),
        bd_class: true,
        bd_aacs: true,
        region_lockable: true,
    }
}

// --- graft offsets ---------------------------------------------------------

/// Classic VID-producer gate anchor. `cmp r0,#6` lands at `VID+30`, `bne` at `VID+32`.
const VID: usize = 0x001c_4000;
/// Classic AKE accept/reject gate anchor. Reject writer at `AKE+6`, `bl` back at `AKE+0xa`.
const AKE: usize = 0x001c_4100;
/// Classic HRL lookup routine.
const HRL: usize = 0x001c_5000;
/// The shared OEM revoke target carrying the `6F`-deny head.
const REVOKE: usize = 0x001c_5200;
/// An address that is deliberately NOT a revoke head (erased flash). Decoy
/// branches in the grafts aim here so that any mis-anchored site the finder
/// might latch onto fails the `6F`-deny head check instead of passing by luck.
const DECOY_TARGET: usize = 0x001c_5220;
/// Classic RPC-state (Region) emitter anchor — must sit in `0x150000..0x160000`
/// but OUTSIDE the covered erased run (`0x153968..0x158000`) the stubs use.
const REGION: usize = 0x0015_9000;
/// Classic `0x3C` dispatch table, inside the classic `~0x1a4000` window.
const TABLE: usize = 0x001a_6b00;
/// The OEM `0x3C` handler the grafted classic record points at.
const OEM_3C_HANDLER: u32 = 0x0009_ad5b;
/// The flag-table base the standalone emit tests use (the value does not matter
/// to the emitters — only that it shows up unmodified in the stub literals).
const FLAG_BASE: u32 = 0x0200_120c;

fn put_hw(img: &mut [u8], off: usize, hws: &[u16]) {
    for (k, &h) in hws.iter().enumerate() {
        img[off + 2 * k..off + 2 * k + 2].copy_from_slice(&h.to_le_bytes());
    }
}

/// True when the 32-bit little-endian word `needle` appears anywhere in `hay`
/// (how a `ldr rX,[pc]` literal is checked inside an emitted stub).
fn has_u32_le(hay: &[u8], needle: u32) -> bool {
    hay.windows(4)
        .any(|w| u32::from_le_bytes([w[0], w[1], w[2], w[3]]) == needle)
}

/// The bytes of the stub that starts at `va` (up to `len`), as the emitters wrote them.
fn stub_at(img: &[u8], va: u32, len: usize) -> &[u8] {
    &img[va as usize..va as usize + len]
}

/// Graft `VID_GATE_SIG_CLASSIC` at `at`, with `bne_lo` as the VID gate `bne`'s imm8.
/// Every masked halfword is filled with a concrete, non-degenerate value so a
/// mutated index lands on a byte that *differs* (an all-zero filler would let
/// several index mutations read back the value they were looking for).
fn plant_vid_gate(img: &mut [u8], at: usize, bne_lo: u8) {
    put_hw(
        img,
        at,
        &[
            0x7AA8,                     // ldrb r0,[r5,#0xa]
            0x4901,                     // ldr  r1,[pc,#4]
            0x0980,                     // lsrs r0,r0,#6
            0x1840,                     // adds r0,r0,r1
            0x4902,                     // ldr  r1,[pc,#8]
            0x0400,                     // lsls r0,r0,#16
            0x6809,                     // ldr  r1,[r1]
            0x0C00,                     // lsrs r0,r0,#16
            0x1808,                     // adds r0,r1,r0
            0x4903,                     // ldr  r1,[pc,#0xc]
            0x0200,                     // lsls r0,r0,#8
            0x6809,                     // ldr  r1,[r1]
            0x0A00,                     // lsrs r0,r0,#8
            0x1840,                     // adds r0,r0,r1
            0x7800,                     // ldrb r0,[r0]        (+28)
            0x2806,                     // cmp  r0,#6          (+30, the VID Gate-A detour site)
            0xD100 | u16::from(bne_lo), // bne <deny>          (+32)
        ],
    );
}

/// Graft `AKE_GATE_SIG_CLASSIC` at `at`. The `b` at `+4` deliberately carries a
/// low byte of `0x12` (not `0x01`): with `0x01` the mutation that reads the
/// reject writer's `movs` one halfword EARLY would read back a coincidental
/// `0x2101` and survive.
fn plant_ake_gate(img: &mut [u8], at: usize) {
    put_hw(
        img,
        at,
        &[
            0x0980, // lsrs r0,r0,#6
            0x2106, // movs r1,#6        (accept)
            0xE012, // b    <skip>
            0x0980, // lsrs r0,r0,#6     (+6, the AKE detour site)
            0x2101, // movs r1,#1        (reject)
            0xF000, // bl   set_agid_state  (+0xa, the shared call both arms reach)
        ],
    );
}

/// Graft `HRL_LOOKUP_SIG_CLASSIC` at `at`. The two body `bl`s are real encodings
/// aimed at an unrelated low address so they can never be mistaken for a
/// `bl <hrl>` cert-path call.
fn plant_hrl_routine(img: &mut [u8], at: usize) {
    put_hw(
        img,
        at,
        &[
            0xB5F3, 0xB083, 0x9803, 0x000C, 0x0000, 0x0000, 0x0007, 0x0020, 0x0000, 0x0000, 0x9002,
            0x4901, 0x1D20, 0x680A, 0x0200, 0x0A00, 0x1880, 0x7800, 0x466B, 0x7158,
        ],
    );
    let filler = thumb::encode_bl(at + 8, 0x1000).expect("filler bl in range");
    thumb::write(img, at + 8, &filler);
    let filler = thumb::encode_bl(at + 16, 0x1000).expect("filler bl in range");
    thumb::write(img, at + 16, &filler);
}

/// Graft the version-invariant classic OEM revoke head
/// (`ldrb r0,[r5,#2]; cmp r0,#0; bne …; movs r0,#0x6f`) at `at`.
fn plant_revoke_head(img: &mut [u8], at: usize) {
    put_hw(img, at, &[0x78A8, 0x2800, 0xD1FE, 0x206F]);
}

/// `bne <revoke>` halfword for a `bne` sitting at `bne_off`. Panics when the
/// displacement does not fit the conditional branch's signed imm8 — which would
/// silently make the graft unrepresentable rather than test what it claims to.
fn bne_to(bne_off: usize, revoke: usize) -> u16 {
    let d = (revoke as isize - bne_off as isize - 4) / 2;
    assert!(
        (-128..=127).contains(&d),
        "bne displacement {d} out of imm8 range — move the graft"
    );
    0xD100 | ((d as u16) & 0xFF)
}

/// Graft one classic cert-path check site: `bl <hrl>`, two filler instructions,
/// then `cmp r0,#0; bne <revoke>`. Returns the `cmp` offset — the value
/// `emit_hrl_classic` reports and detours.
///
/// The two fillers are load-bearing. They make the finder actually WALK forward
/// from the `bl` instead of matching on the very first halfword (which exercises
/// the walk's step budget, its `b`-hop test and its cursor advance), and the
/// SECOND filler is a `bne` to an address that is NOT the revoke head: a site
/// must be recognised by `cmp r0,#0` **and** a following `bne` together, so a
/// lone `bne` in the OEM code between the call and the check cannot be mistaken
/// for the cert-path test.
fn plant_hrl_site(img: &mut [u8], bl_at: usize, hrl: usize, revoke: usize) -> usize {
    let bl = thumb::encode_bl(bl_at, hrl as u32).expect("cert-path bl in range");
    thumb::write(img, bl_at, &bl);
    // movs r2,#0 ; bne <not-the-revoke-head>
    put_hw(img, bl_at + 4, &[0x2200, bne_to(bl_at + 6, DECOY_TARGET)]);
    let cmp = bl_at + 8;
    put_hw(img, cmp, &[0x2800, bne_to(cmp + 2, revoke)]);
    cmp
}

/// The standard two-site classic HRL image: unique lookup routine, two cert-path
/// check sites agreeing on one revoke target, and that target carrying the OEM
/// `6F`-deny head. Returns `(image, [cmp_site_0, cmp_site_1])`.
fn classic_hrl_image() -> (Vec<u8>, [usize; 2]) {
    let mut img = fixture();
    plant_hrl_routine(&mut img, HRL);
    plant_revoke_head(&mut img, REVOKE);
    let s0 = plant_hrl_site(&mut img, 0x001c_5280, HRL, REVOKE);
    let s1 = plant_hrl_site(&mut img, 0x001c_52c0, HRL, REVOKE);
    (img, [s0, s1])
}

// ---------------------------------------------------------------------------
// find_vid_agid_struct_classic
// ---------------------------------------------------------------------------

/// The classic AGID struct base IS the CDB base the classic scanner loads into
/// `r5`. Pinning it to the image-derived CDB base (and asserting it is neither
/// `0` nor `1`) is what stops the VID Gate-A `04 01` rearm from poking a wrong SRAM
/// cell — the whole reason the classic finder exists separately from the modern
/// `ldr r7,[pc]` heuristic.
#[test]
fn classic_agid_struct_is_the_image_derived_cdb_base_never_a_constant() {
    let img = fixture();
    let cdb = Mt1959Engine.find_cdb_base(&img).expect("cdb base");
    let got = Mt1959Engine
        .find_vid_agid_struct_classic(&img)
        .expect("classic agid struct");
    assert_eq!(
        got, cdb,
        "classic AGID struct must be the scanner-derived CDB base, not a constant"
    );
    assert_eq!(
        got, 0x0200_0d38,
        "the CDB base is a live SRAM cell derived from THIS image; a hardcoded 0/1 would \
         make the VID Gate-A rearm write to address 0"
    );
}

// ---------------------------------------------------------------------------
// build_ake_stub_classic
// ---------------------------------------------------------------------------

/// The classic AKE stub reads `flag[Encryption]`, not some other flag cell, and
/// returns into the shared OEM `bl set_agid_state` with the Thumb bit set. Both
/// are baked as `ldr rX,[pc]` literals, so they are asserted as literals: a
/// wrong flag offset gates on a neighbouring feature's byte, and a wrong return
/// literal lands the `bx` in ARM mode (instant fault on a Thumb-only core).
#[test]
fn classic_ake_stub_bakes_the_encryption_flag_cell_and_a_thumb_tagged_return() {
    let back: u32 = 0x0017_f2de;
    let stub = Mt1959Engine
        .build_ake_stub_classic(FLAG_BASE, back)
        .expect("classic ake stub");
    assert!(
        has_u32_le(&stub, FLAG_BASE + u32::from(Feature::Encryption.code())),
        "stub must load &flag[Encryption] (flag_base + 0x{:x}); any other arithmetic gates \
         the AKE accept on the wrong feature byte",
        u32::from(Feature::Encryption.code())
    );
    assert!(
        !has_u32_le(&stub, FLAG_BASE),
        "the bare flag_base is flag[0] — a reserved slot, never the AKE gate"
    );
    assert!(
        has_u32_le(&stub, back | 1),
        "stub must return to the shared `bl set_agid_state` site with the Thumb bit set"
    );
}

/// Thumb-tagging the return address must be idempotent: an already-tagged `back`
/// has to come out unchanged. This pins the `|` in `back | 1` — an `^` there
/// would silently CLEAR the Thumb bit on any odd input and branch into ARM mode.
#[test]
fn classic_ake_stub_thumb_tag_is_idempotent_on_an_already_tagged_return() {
    let back: u32 = 0x0017_f2df; // already Thumb-tagged
    let stub = Mt1959Engine
        .build_ake_stub_classic(FLAG_BASE, back)
        .expect("classic ake stub");
    assert!(
        has_u32_le(&stub, back),
        "an already-tagged return must survive unchanged (OR, never XOR — XOR clears the bit)"
    );
    assert!(
        !has_u32_le(&stub, back & !1),
        "the stub must never bake an ARM-mode (even) return address"
    );
}

// ---------------------------------------------------------------------------
// commit_classic_detour
// ---------------------------------------------------------------------------

/// The best-effort classic detour commit must place the stub in CMAC-covered
/// free space, write a `bl` at the site, and report the REAL stub VA. A constant
/// `Some(0)`/`Some(1)` return would be recorded in the `CreateReport` as the
/// feature's stub address and pass every downstream "is it wired?" check while
/// pointing at nothing.
#[test]
fn commit_classic_detour_reports_the_real_stub_va_and_installs_a_decodable_bl() {
    let mut out = fixture();
    let site = 0x001c_4800usize;
    let bytes: Vec<u8> = (0..24u8).collect();
    let va = Mt1959Engine
        .commit_classic_detour(&mut out, &table(), site, &bytes, Reason::ClassicGateRange)
        .expect("free space + bl range are both available on the fixture");
    assert_eq!(
        va, 0x0015_3968,
        "the stub must land in the fixture's largest CMAC-covered erased run"
    );
    assert_eq!(
        &out[va as usize..va as usize + bytes.len()],
        &bytes[..],
        "the stub bytes must actually be written at the reported VA"
    );
    assert_eq!(
        thumb::decode_bl(&out, site),
        Some(va),
        "the installed `bl` must decode back to the reported stub VA — the decode-back \
         guard is what stops a silently mis-encoded branch from shipping"
    );
}

/// The decode-back guard must ACCEPT a correct install. Inverting its comparison
/// turns every good commit into a silent miss (feature left unwired with no
/// diagnostic), which is indistinguishable from "this image has no such gate".
#[test]
fn commit_classic_detour_accepts_a_correctly_installed_bl() {
    let mut out = fixture();
    assert!(
        Mt1959Engine
            .commit_classic_detour(
                &mut out,
                &table(),
                0x001c_4800,
                &vec![0u8; 32],
                Reason::ClassicGateRange,
            )
            .is_some(),
        "a well-formed install must return Some — a None here silently drops the feature"
    );
}

// ---------------------------------------------------------------------------
// emit_region_classic
// ---------------------------------------------------------------------------

/// Classic Region-free: the anchor is found in the classic `0x15xxxx` window and
/// the detour `bl` replaces the `frame[4]` store at **anchor+6**. The `+6` is the
/// whole contract — at any other offset the `bl` overwrites a different pair of
/// OEM instructions and the RPC frame is emitted from a corrupted register state.
#[test]
fn classic_region_emit_detours_the_frame4_store_at_anchor_plus_six() {
    let mut out = fixture();
    put_hw(
        &mut out,
        REGION,
        &[
            0x466B, 0x789B, 0x18D2, 0x7202, 0x466B, 0x78DA, 0x7202, 0x7204, 0x7201, 0xBD18,
        ],
    );
    let before = out.clone();
    let (emitter, stub_va) = Mt1959Engine
        .emit_region_classic(&mut out, &table(), FLAG_BASE)
        .expect("classic region emit");
    assert_eq!(
        emitter, REGION as u32,
        "the reported emitter must be the grafted anchor, not a constant"
    );
    assert_eq!(
        stub_va, 0x0015_3968,
        "the region stub must land in the fixture's covered erased run"
    );
    assert_eq!(
        thumb::decode_bl(&out, REGION + 6),
        Some(stub_va),
        "the detour `bl` must sit at anchor+6 (the `strb r2,[r0,#8]` frame[4] store)"
    );
    assert_eq!(
        before[REGION..REGION + 6],
        out[REGION..REGION + 6],
        "the anchor's first three halfwords are OEM prologue and must be untouched"
    );
}

// ---------------------------------------------------------------------------
// emit_rawread_classic
// ---------------------------------------------------------------------------

/// Build the classic Raw-read image: unique VID gate + unique AKE gate.
fn classic_rawread_image(bne_lo: u8) -> Vec<u8> {
    let mut img = fixture();
    plant_vid_gate(&mut img, VID, bne_lo);
    plant_ake_gate(&mut img, AKE);
    img
}

/// Every address `emit_rawread_classic` derives is asserted EXACTLY, because
/// each is an address a `bl` or a `bx` is aimed at:
///
/// * `gatea_gate = vid+30` — the `cmp r0,#6` the VID Gate-A `bl` replaces;
/// * `gatea_authed = gatea_gate+4` — where the stub resumes to stage the VID;
/// * `deny` — the OEM deny block the stub falls back to, decoded from the VID gate
///   `bne`'s signed imm8;
/// * `ake_site = ake+6` — the reject writer the AKE `bl` replaces;
/// * `ake_gate` / `ake_back = ake+0xa` — the shared `bl set_agid_state` both
///   arms converge on.
///
/// An off-by-one in any of them is a `bl` landing mid-instruction on a drive.
#[test]
fn classic_rawread_emit_grounds_every_gate_address_and_installs_both_detours() {
    let img = classic_rawread_image(0x12); // forward `bne`, d = +18
    let mut out = img.clone();
    let facts = Mt1959Engine
        .emit_rawread_classic(&img, &mut out, &table(), FLAG_BASE)
        .expect("classic raw-read emit");
    assert_eq!(
        facts.gatea_gate,
        (VID + 30) as u32,
        "Gate-A detours the `cmp r0,#6` at VID_GATE_SIG_CLASSIC match+30"
    );
    assert_eq!(
        facts.gatea_authed,
        (VID + 34) as u32,
        "the authed resume point is the halfword AFTER the `cmp`/`bne` pair"
    );
    assert_eq!(
        facts.deny,
        (VID + 36 + 18 * 2) as u32,
        "the deny target is decoded from the VID gate `bne`'s imm8 (pc = bne+4, imm8 * 2)"
    );
    assert_eq!(
        facts.ake_gate,
        AKE as u32,
        "the AKE anchor is the signature match itself"
    );
    assert_eq!(
        facts.ake_site,
        (AKE + 6) as u32,
        "the AKE detour replaces the reject writer at match+6"
    );
    assert_eq!(
        facts.vid_producer,
        0x0013_675c,
        "the audit-only VID producer anchor still comes from the image"
    );
    assert_eq!(facts.scratch, 0x0021_0c00, "audit-only clear-VID scratch");

    // Both detours installed and decodable.
    let gatea_stub_va = facts.gatea_stub_va;
    let ake_stub_va = facts.ake_stub_va;
    assert_ne!(gatea_stub_va, 0, "Gate-A stub must be placed");
    assert_ne!(ake_stub_va, 0, "AKE stub must be placed");
    assert_ne!(
        gatea_stub_va, ake_stub_va,
        "the two stubs must not be written on top of each other"
    );
    assert_eq!(
        thumb::decode_bl(&out, VID + 30),
        Some(gatea_stub_va),
        "Gate-A `bl` must decode back to the reported stub"
    );
    assert_eq!(
        thumb::decode_bl(&out, AKE + 6),
        Some(ake_stub_va),
        "AKE `bl` must decode back to the reported stub"
    );

    // The stubs must carry the addresses the facts advertise.
    let gatea = stub_at(&out, gatea_stub_va, 96);
    assert!(
        has_u32_le(gatea, facts.gatea_authed | 1),
        "the VID Gate-A stub must branch to the Thumb-tagged authed resume point"
    );
    assert!(
        has_u32_le(gatea, facts.deny | 1),
        "the VID Gate-A stub must keep the OEM deny fallback"
    );
    assert!(
        has_u32_le(gatea, FLAG_BASE + u32::from(Feature::Encryption.code())),
        "the VID Gate-A stub gates on flag[Encryption]"
    );
    let ake = stub_at(&out, ake_stub_va, 64);
    assert!(
        has_u32_le(ake, (AKE as u32 + 0xa) | 1),
        "the AKE stub must fall through to the shared `bl set_agid_state` at match+0xa — \
         a wrong return address here skips the OEM state store entirely"
    );

    // Classic ships NO deny detour: the deny block stays byte-identical to OEM.
    let deny = facts.deny as usize;
    assert_eq!(
        img[deny..deny + 0x40],
        out[deny..deny + 0x40],
        "the classic deny path must stay byte-identical to OEM (its clear-output shape \
         is inferred; touching it risks a SCSI-FIFO desync)"
    );
}

/// The VID gate `bne`'s imm8 is SIGNED. A classic image whose deny block sits
/// *behind* the VID gate encodes `0x80..=0xFF`, and the decode must sign-extend —
/// otherwise the VID Gate-A stub's fallback `bx` jumps ~512 bytes past the VID gate into
/// the middle of an unrelated routine.
#[test]
fn classic_rawread_deny_target_sign_extends_a_backward_gate_branch() {
    let img = classic_rawread_image(0x90); // d = 0x90 - 0x100 = -112
    let mut out = img.clone();
    let facts = Mt1959Engine
        .emit_rawread_classic(&img, &mut out, &table(), FLAG_BASE)
        .expect("classic raw-read emit");
    let deny = facts.deny;
    assert_eq!(
        deny,
        (VID + 36 - 112 * 2) as u32,
        "a 0x90 imm8 is -112 halfwords, so the deny block is BEHIND the VID gate"
    );
    let gatea_stub_va = facts.gatea_stub_va;
    assert!(
        has_u32_le(stub_at(&out, gatea_stub_va, 96), deny | 1),
        "the sign-extended deny target must be what the stub actually branches to"
    );
}

/// Fail-closed, hit count 0: no classic VID gate at all must refuse, not emit.
#[test]
fn classic_rawread_refuses_when_the_vid_gate_is_absent() {
    let img = fixture();
    let mut out = img.clone();
    let e = Mt1959Engine
        .emit_rawread_classic(&img, &mut out, &table(), FLAG_BASE)
        .expect_err("no classic VID gate present — must refuse");
    assert!(
        e.message().contains("classic VID gate matched 0 time(s)"),
        "got: {e:?}"
    );
    assert_eq!(out, img, "a refused emit must not have touched the image");
}

/// Fail-closed, hit count > 1: an ambiguous VID gate must refuse rather than
/// pick one. Two matches means the anchor is not the producer's gate on this
/// image, and detouring the wrong one corrupts the AACS path.
#[test]
fn classic_rawread_refuses_when_the_vid_gate_is_ambiguous() {
    let mut img = classic_rawread_image(0x12);
    plant_vid_gate(&mut img, VID + 0x200, 0x12);
    let mut out = img.clone();
    let e = Mt1959Engine
        .emit_rawread_classic(&img, &mut out, &table(), FLAG_BASE)
        .expect_err("two classic VID gates — must refuse");
    assert!(
        e.message().contains("classic VID gate matched 2 time(s)"),
        "got: {e:?}"
    );
}

/// Same fail-closed rule for the AKE accept gate.
#[test]
fn classic_rawread_refuses_when_the_ake_gate_is_absent_or_ambiguous() {
    let mut img = fixture();
    plant_vid_gate(&mut img, VID, 0x12);
    let mut out = img.clone();
    let e = Mt1959Engine
        .emit_rawread_classic(&img, &mut out, &table(), FLAG_BASE)
        .expect_err("no classic AKE gate — must refuse");
    assert!(
        e.message().contains("classic AKE gate matched 0 time(s)"),
        "got: {e:?}"
    );

    let mut img = classic_rawread_image(0x12);
    plant_ake_gate(&mut img, AKE + 0x200);
    let mut out = img.clone();
    let e = Mt1959Engine
        .emit_rawread_classic(&img, &mut out, &table(), FLAG_BASE)
        .expect_err("two classic AKE gates — must refuse");
    assert!(
        e.message().contains("classic AKE gate matched 2 time(s)"),
        "got: {e:?}"
    );
}

// ---------------------------------------------------------------------------
// emit_hrl_classic
// ---------------------------------------------------------------------------

/// The classic HRL-skip emit: locate the unique lookup routine, find every
/// cert-path `cmp r0,#0; bne <revoke>` that follows a `bl <hrl>`, prove they all
/// agree on one revoke target, prove that target carries the OEM `6F`-deny head,
/// and only then detour each check site to the shared skip stub.
#[test]
fn classic_hrl_emit_detours_every_agreeing_cert_check_site() {
    let (img, sites) = classic_hrl_image();
    let mut out = img.clone();
    let (got, stub_va) = Mt1959Engine
        .emit_hrl_classic(&img, &mut out, &table(), FLAG_BASE)
        .expect("classic hrl emit");

    assert_eq!(
        got,
        vec![sites[0] as u32, sites[1] as u32],
        "every cert-path check site must be reported, at the `cmp r0,#0` offset the \
         detour `bl` replaces — a wrong offset here patches a live instruction"
    );
    assert_eq!(
        stub_va, 0x0015_3968,
        "the shared skip stub must land in the fixture's covered erased run"
    );
    for &s in &sites {
        assert_eq!(
            thumb::decode_bl(&out, s),
            Some(stub_va),
            "each site's `bl` must decode back to the shared stub"
        );
    }
    let stub = stub_at(&out, stub_va, 64);
    assert!(
        has_u32_le(stub, REVOKE as u32 | 1),
        "the stub must keep the OEM revoke path as a Thumb-tagged branch target — the \
         whole point is that an UNARMED image behaves exactly like OEM"
    );
    assert!(
        has_u32_le(stub, FLAG_BASE + u32::from(Feature::Hrl.code())),
        "the stub must gate on flag[Hrl]"
    );
}

/// Sites that disagree on the revoke target mean the anchor is not what we think
/// it is. Refusing is mandatory: detouring both would send one cert path to the
/// other's deny block.
#[test]
fn classic_hrl_refuses_when_two_check_sites_disagree_on_the_revoke_target() {
    let mut img = fixture();
    plant_hrl_routine(&mut img, HRL);
    plant_revoke_head(&mut img, REVOKE);
    plant_revoke_head(&mut img, REVOKE + 0x40);
    plant_hrl_site(&mut img, 0x001c_5280, HRL, REVOKE);
    plant_hrl_site(&mut img, 0x001c_52c0, HRL, REVOKE + 0x40);
    let mut out = img.clone();
    let e = Mt1959Engine
        .emit_hrl_classic(&img, &mut out, &table(), FLAG_BASE)
        .expect_err("disagreeing revoke targets must refuse");
    assert!(
        e.message().contains("disagree on the revoke target"),
        "got: {e:?}"
    );
    assert_eq!(out, img, "a refused emit must not have touched the image");
}

/// Sites that AGREE must be accepted — the agreement guard has to be a real
/// comparison, not an unconditional accept/reject. (The accept direction is
/// covered by the positive test above; this pins the *count*, i.e. that the
/// second agreeing site is kept rather than treated as a conflict.)
#[test]
fn classic_hrl_keeps_every_agreeing_site_rather_than_stopping_at_the_first() {
    let (img, sites) = classic_hrl_image();
    let mut out = img.clone();
    let (got, _) = Mt1959Engine
        .emit_hrl_classic(&img, &mut out, &table(), FLAG_BASE)
        .expect("classic hrl emit");
    assert_eq!(
        got.len(),
        2,
        "both agreeing cert-path sites must be detoured; leaving one OEM means a revoked \
         host cert is still rejected on that path"
    );
    assert_eq!(got[1], sites[1] as u32);
}

/// The classic `bl hrl; b <check>` layout: the check is reached through a single
/// unconditional T2 `b`, and the `b` here is BACKWARD (`imm11 >= 0x400`), so the
/// hop's displacement must be sign-extended. Without the hop — or with the hop
/// mis-decoded — the site is never found and HRL silently ships unwired.
///
/// A decoy `cmp r0,#0; bne <not-the-head>` sits 8 bytes before the hop target,
/// so the hop has to land EXACTLY on its computed address: an off-by-one branch
/// arithmetic error drops the walk onto the decoy and adopts a foreign revoke
/// target instead of quietly resolving the right site anyway.
#[test]
fn classic_hrl_follows_one_backward_unconditional_b_to_reach_the_check() {
    let mut img = fixture();
    plant_hrl_routine(&mut img, HRL);
    plant_revoke_head(&mut img, REVOKE);

    let bl_at = 0x001c_5280usize;
    let check = 0x001c_5240usize;
    let bl = thumb::encode_bl(bl_at, HRL as u32).expect("bl in range");
    thumb::write(&mut img, bl_at, &bl);
    // `b <check>`: pc = (bl_at+4)+4, imm11 is signed and here NEGATIVE.
    let d = (check as isize - (bl_at as isize + 8)) / 2;
    assert!((-1024..0).contains(&d), "the hop must be backward");
    put_hw(&mut img, bl_at + 4, &[0xE000 | ((d as u16) & 0x7FF)]);
    put_hw(
        &mut img,
        check - 8,
        &[0x2800, bne_to(check - 6, DECOY_TARGET)],
    );
    put_hw(&mut img, check, &[0x2800, bne_to(check + 2, REVOKE)]);

    let mut out = img.clone();
    let (sites, stub_va) = Mt1959Engine
        .emit_hrl_classic(&img, &mut out, &table(), FLAG_BASE)
        .expect("the `bl hrl; b <check>` layout must resolve");
    assert_eq!(
        sites,
        vec![check as u32],
        "the site is the `cmp r0,#0` on the far side of the unconditional `b`"
    );
    assert_eq!(
        thumb::decode_bl(&out, check),
        Some(stub_va),
        "the detour must be installed at the hopped-to check, not at the `b`"
    );
}

/// The walk must start AFTER the `bl <hrl>`: the check that matters is the one
/// testing the lookup's result. A `cmp r0,#0; bne` sitting just BEFORE the call
/// tests something else entirely, and anchoring on it sends the HRL stub to a
/// foreign revoke target.
#[test]
fn classic_hrl_ignores_a_cmp_bne_that_precedes_the_lookup_call() {
    let mut img = fixture();
    plant_hrl_routine(&mut img, HRL);
    plant_revoke_head(&mut img, REVOKE);
    let bl_at = 0x001c_5280usize;
    // A decoy `cmp r0,#0; bne <elsewhere>` immediately before the call. Its
    // target is erased flash, so anchoring on it cannot pass the head check.
    put_hw(
        &mut img,
        bl_at - 4,
        &[0x2800, bne_to(bl_at - 2, 0x001c_5300)],
    );
    let site = plant_hrl_site(&mut img, bl_at, HRL, REVOKE);

    let mut out = img.clone();
    let (sites, _) = Mt1959Engine
        .emit_hrl_classic(&img, &mut out, &table(), FLAG_BASE)
        .expect("the real post-call check must still resolve");
    assert_eq!(
        sites,
        vec![site as u32],
        "only the check AFTER the `bl <hrl>` is a cert-path site"
    );
}

/// The forward walk is budgeted. A `bl <hrl>` that is NOT a cert-path call (the
/// routine has other callers) must contribute no site — the budget is what stops
/// the walk running on until it trips over an unrelated `cmp r0,#0; bne` and
/// poisons the agreement check.
#[test]
fn classic_hrl_walk_stops_at_its_step_budget_after_a_non_cert_path_call() {
    let (mut img, sites) = classic_hrl_image();
    let orphan = 0x001c_6000usize;
    let bl = thumb::encode_bl(orphan, HRL as u32).expect("bl in range");
    thumb::write(&mut img, orphan, &bl);
    // The walk checks p = orphan+4 .. orphan+82 (40 steps). Park an unrelated
    // `cmp r0,#0; bne` at the FIRST halfword past the budget.
    let past = orphan + 84;
    put_hw(&mut img, past, &[0x2800, bne_to(past + 2, past + 0x40)]);

    let mut out = img.clone();
    let (got, _) = Mt1959Engine
        .emit_hrl_classic(&img, &mut out, &table(), FLAG_BASE)
        .expect("the two real cert-path sites must still resolve");
    assert_eq!(
        got,
        vec![sites[0] as u32, sites[1] as u32],
        "a `cmp r0,#0; bne` beyond the walk budget must NOT be adopted as a cert-path \
         site — it disagrees with the real revoke target and would fail the whole emit"
    );
}

/// The lookup routine must be unique image-wide. Two matches means the signature
/// is not identifying the routine on this image.
#[test]
fn classic_hrl_refuses_a_non_unique_or_absent_lookup_routine() {
    let img = fixture();
    let mut out = img.clone();
    let e = Mt1959Engine
        .emit_hrl_classic(&img, &mut out, &table(), FLAG_BASE)
        .expect_err("no classic HRL routine — must refuse");
    assert!(e.message().contains("matched 0 time(s)"), "got: {e:?}");

    let (mut img, _) = classic_hrl_image();
    plant_hrl_routine(&mut img, HRL + 0x80);
    let mut out = img.clone();
    let e = Mt1959Engine
        .emit_hrl_classic(&img, &mut out, &table(), FLAG_BASE)
        .expect_err("two classic HRL routines — must refuse");
    assert!(e.message().contains("matched 2 time(s)"), "got: {e:?}");
}

/// A `bl <hrl>` with no cert-path check anywhere is not a cert path: the emit
/// must refuse (HRL left unwired) rather than invent a revoke target.
#[test]
fn classic_hrl_refuses_when_no_cert_path_check_site_resolves() {
    let mut img = fixture();
    plant_hrl_routine(&mut img, HRL);
    plant_revoke_head(&mut img, REVOKE);
    let bl = thumb::encode_bl(0x001c_5280, HRL as u32).expect("bl in range");
    thumb::write(&mut img, 0x001c_5280, &bl);
    let mut out = img.clone();
    let e = Mt1959Engine
        .emit_hrl_classic(&img, &mut out, &table(), FLAG_BASE)
        .expect_err("no `cmp r0,#0; bne` after the call — must refuse");
    assert!(
        e.message().contains("no classic HRL cert-path"),
        "got: {e:?}"
    );
}

/// Every halfword of the version-invariant OEM `6F`-deny head is load-bearing.
/// Corrupting any ONE of them must make the emit refuse: a revoke target that is
/// not the OEM deny head means the `bne` we decoded points somewhere else, and
/// the skip stub would `bx` into the middle of an unrelated routine on every
/// revoked cert.
#[test]
fn classic_hrl_refuses_when_any_single_halfword_of_the_oem_6f_deny_head_is_wrong() {
    // (offset into the head, replacement halfword, what it breaks)
    let cases: [(usize, u16, &str); 4] = [
        (
            0,
            0x78A0,
            "ldrb r0,[r5,#2] (classic r5 — 0x78A0 is the MODERN r4 head)",
        ),
        (2, 0x2801, "cmp r0,#0"),
        (4, 0xD000, "bne <loop>"),
        (6, 0x2000, "movs r0,#0x6f (the 6F copy-protection sense)"),
    ];
    for (off, bad, what) in cases {
        let (mut img, _) = classic_hrl_image();
        put_hw(&mut img, REVOKE + off, &[bad]);
        let mut out = img.clone();
        let e = match Mt1959Engine.emit_hrl_classic(&img, &mut out, &table(), FLAG_BASE) {
            Err(e) => e,
            Ok(got) => panic!(
                "a broken `{what}` in the revoke head must REFUSE, but the emit succeeded \
                 with {got:x?} — a mis-anchored revoke target corrupts the cert path"
            ),
        };
        assert!(
            e.message().contains("lacks the OEM 6F-deny head"),
            "broken `{what}`: got {e:?}"
        );
        assert_eq!(out, img, "a refused emit must not have touched the image");
    }
}

/// A revoke target that runs off the end of the image must refuse, not index
/// past the tail.
#[test]
fn classic_hrl_refuses_a_revoke_target_without_room_for_the_head() {
    let (mut img, _) = classic_hrl_image();
    put_hw(&mut img, REVOKE, &[0xFFFF]);
    let mut out = img.clone();
    assert!(
        Mt1959Engine
            .emit_hrl_classic(&img, &mut out, &table(), FLAG_BASE)
            .is_err(),
        "a revoke target without the OEM head must refuse"
    );
}

// ---------------------------------------------------------------------------
// build_report_classic / build_modify_classic  (whole-path)
// ---------------------------------------------------------------------------

/// A "classic" image: the fixture with a classic `~0x1a4000` dispatch
/// table, the classic region anchor, the classic VID/AKE gates and the classic
/// HRL cert path all grafted on.
fn classic_full_image() -> Vec<u8> {
    let mut img = fixture();

    // Classic 0x3C dispatch table: 12 coherent records (the finder needs a run
    // of >= 8), one of them the live 0x3C pointing at the OEM handler.
    for i in 0..12usize {
        let p = TABLE + i * 8;
        img[p..p + 8].copy_from_slice(&[0, 0, 0, 0, 0, 0, 0, 0]);
    }
    let live = TABLE + 5 * 8;
    img[live] = READ_BUFFER_OPCODE;
    img[live + 1] = LIVE_FLAGS;
    img[live + 4..live + 8].copy_from_slice(&OEM_3C_HANDLER.to_le_bytes());

    put_hw(
        &mut img,
        REGION,
        &[
            0x466B, 0x789B, 0x18D2, 0x7202, 0x466B, 0x78DA, 0x7202, 0x7204, 0x7201, 0xBD18,
        ],
    );
    plant_vid_gate(&mut img, VID, 0x12);
    plant_ake_gate(&mut img, AKE);
    plant_hrl_routine(&mut img, HRL);
    plant_revoke_head(&mut img, REVOKE);
    plant_hrl_site(&mut img, 0x001c_5280, HRL, REVOKE);
    plant_hrl_site(&mut img, 0x001c_52c0, HRL, REVOKE);
    img
}

/// Whole classic CREATE path. The assertions that matter are the ones a wrong
/// value would make invisible: the dispatch record must be repointed at the
/// injected handler **with the Thumb bit set** (an even handler address faults
/// the drive on the first vendor CDB), and every reported feature fact must be
/// the address actually patched — the report is what the audit
/// checks against.
#[test]
fn classic_create_repoints_the_record_thumb_tagged_and_reports_the_real_facts() {
    let img = classic_full_image();
    let r = Mt1959Engine
        .build_report_classic(&img, &layout())
        .expect("classic create on the grafted classic image");

    assert_eq!(
        thumb::read_u32(&r.image, r.record.off + 4),
        r.handler_va | 1,
        "the classic 0x3C record must point at the injected handler with the Thumb bit \
         set; a cleared bit switches the core to ARM mode on the first vendor CDB"
    );
    assert_eq!(
        r.image[r.record.off + 1],
        LIVE_FLAGS,
        "the record's media-gated flags must stay live"
    );
    assert_ne!(r.handler_va, 0, "the handler must be injected somewhere");
    assert_eq!(r.cdb_base, 0x0200_0d38, "classic base: CDB base");
    assert_eq!(r.flag_base, 0x0200_120c, "classic base: derived SRAM cell");

    // Feature facts must be the grafted addresses, not neighbouring fields.
    assert_eq!(
        r.gatea_gate,
        (VID + 30) as u32,
        "the VID Gate-A fact must be the VID Gate-A site — reading a neighbouring fact out of \
         the raw-read key/value list silently mislabels the whole report"
    );
    assert_eq!(r.ake_gate, AKE as u32, "the AKE anchor fact");
    assert_eq!(
        r.deny_reset_gate,
        (VID + 36 + 18 * 2) as u32,
        "the deny fact"
    );
    assert_eq!(r.vid_producer, 0x0013_675c, "the VID producer fact");
    assert_eq!(r.region_emitter, REGION as u32, "the region emitter fact");
    assert_eq!(
        r.hrl_sites,
        vec![0x001c_5288, 0x001c_52c8],
        "both classic HRL cert-check sites must be reported"
    );
    assert_ne!(r.boot_stub_va, 0, "the always-on boot hook must be emitted");
    assert_ne!(r.region_stub_va, 0);
    assert_ne!(r.gatea_stub_va, 0);
    assert_ne!(r.ake_stub_va, 0);
    assert_ne!(r.hrl_stub_va, 0);
    assert_eq!(r.de_off, 0x001e_c056, "the DE byte offset");
    assert_eq!(r.image[r.de_off as usize], 0xDE, "DE byte written");
    assert_eq!(r.image.len(), img.len());

    // Classic never wires Speed or the deny detour.
    assert_eq!(
        r.speed_gate, 0,
        "Speed is a documented classic architecture miss"
    );
    assert_eq!(r.deny_stub_va, 0, "classic ships no deny-reset detour");
}

/// **The classic safety coupling.** The boot-init hook is what writes `0xFF`
/// into every flag byte at power-on, and that 0xFF-fill is the only reason the
/// tri-state `0x00 == OFF` convention is safe. If the boot hook cannot be
/// emitted, the build MUST fall back to a bare base and ship NO feature stub —
/// otherwise a freshly powered drive boots every feature into its OFF state
/// (region-locked, BD refused). This is the single most important invariant on
/// the classic path, so it is tested by actually breaking the boot site.
#[test]
fn classic_create_ships_no_feature_stub_when_the_boot_hook_cannot_be_emitted() {
    let mut img = classic_full_image();
    // Blow away the cold/warm-boot convergence `bl <orig_init>` so
    // `resolve_boot_init_pair` cannot resolve a site.
    let conv = Mt1959Engine
        .resolve_boot_init_pair(&img)
        .expect("the fixture normally resolves a boot-init pair")
        .0;
    put_hw(&mut img, conv, &[0x0000, 0x0000]);
    assert!(
        Mt1959Engine.resolve_boot_init_pair(&img).is_err(),
        "precondition: the boot-init pair must now be unresolvable"
    );

    let r = Mt1959Engine
        .build_report_classic(&img, &layout())
        .expect("the BARE classic base must still ship");

    assert_eq!(r.boot_init_site, 0, "no boot hook");
    assert_eq!(r.boot_stub_va, 0, "no boot stub");
    // ... and therefore NOTHING flag-gated.
    for (what, va) in [
        ("region", r.region_stub_va),
        ("Gate-A", r.gatea_stub_va),
        ("AKE", r.ake_stub_va),
        ("UHD", r.uhd_stub_va),
        ("BD", r.bd_stub_va),
        ("HRL", r.hrl_stub_va),
    ] {
        assert_eq!(
            va, 0,
            "{what} stub was emitted WITHOUT the boot-init 0xFF fill — a freshly powered \
             drive would boot that feature into its OFF state"
        );
    }
    assert!(
        r.hrl_sites.is_empty(),
        "no HRL sites may be detoured either"
    );
    // The bare base itself still ships (handler + record repoint + DE + re-sign).
    assert_ne!(r.handler_va, 0, "the bare base must still be produced");
    assert_eq!(r.image[r.de_off as usize], 0xDE, "DE is boot-independent");
}

/// Whole classic MODIFY path: the same base, reported as levers. Identity,
/// Region-free and Raw-read must all come back Applied, the HRL facts must be
/// folded into the Raw-read lever (so classic create and modify stay
/// byte-identical), and the record must be repointed Thumb-tagged.
#[test]
fn classic_modify_applies_every_classic_lever_and_folds_in_the_hrl_facts() {
    let img = classic_full_image();
    let chip = chip(ChipFamily::Mt1959);
    let cap = capable();
    let r = Mt1959Engine
        .build_modify_classic(&img, &layout(), &chip, &cap)
        .expect("classic modify must produce a report, not refuse");

    let get = |id| {
        r.levers
            .iter()
            .find(|l| l.id == id)
            .unwrap_or_else(|| panic!("{id:?} lever present"))
    };
    assert_eq!(get(LeverId::Identity).outcome, LeverOutcome::Applied);
    assert_eq!(get(LeverId::RegionFree).outcome, LeverOutcome::Applied);
    assert_eq!(get(LeverId::RawRead).outcome, LeverOutcome::Applied);
    assert!(get(LeverId::DowngradeEnable).outcome.is_effective());
    assert!(
        matches!(
            get(LeverId::Speed).outcome,
            LeverOutcome::SignatureNotFound { .. }
        ),
        "Speed has no classic ramp-ceiling gate to detour"
    );

    let rr = get(LeverId::RawRead);
    let fact = |k: &str| rr.facts.iter().find(|(n, _)| *n == k).map(|(_, v)| *v);
    assert_eq!(fact("gatea_gate"), Some((VID + 30) as u32));
    assert!(
        fact("hrl_stub_va").is_some_and(|v| v != 0),
        "the HRL stub VA must be folded into the RawRead lever — without it classic \
         create and modify produce different images from the same base"
    );
    assert_eq!(fact("hrl_site"), Some(0x001c_5288));
    assert_eq!(fact("hrl_site2"), Some(0x001c_52c8));

    let rec_off = get(LeverId::Identity)
        .facts
        .iter()
        .find(|(n, _)| *n == "record_off")
        .unwrap()
        .1 as usize;
    let handler_va = get(LeverId::Identity)
        .facts
        .iter()
        .find(|(n, _)| *n == "handler_va")
        .unwrap()
        .1;
    assert_eq!(
        thumb::read_u32(&r.image, rec_off + 4),
        handler_va | 1,
        "the classic record must be repointed at the injected handler, Thumb-tagged"
    );
}

/// An image with nothing to modify must refuse — but an image where levers DID
/// apply must never refuse. Inverting that test turns every successful classic
/// modify into "nothing modifiable on this classic MT1939 image".
#[test]
fn classic_modify_returns_a_report_whenever_any_lever_is_effective() {
    let img = classic_full_image();
    let chip = chip(ChipFamily::Mt1959);
    let cap = capable();
    let r = Mt1959Engine
        .build_modify_classic(&img, &layout(), &chip, &cap)
        .expect("levers applied — must not bail with `nothing modifiable`");
    assert!(
        r.levers.iter().any(|l| l.outcome.is_effective()),
        "precondition for the refusal guard: at least one lever is effective"
    );
}

/// Signature sanity: none of the grafted classic shapes exist in the untouched
/// modern fixture, so every classic test above is measuring its own graft and
/// not a coincidental match in OEM code.
#[test]
fn the_modern_fixture_carries_none_of_the_classic_signatures() {
    let img = fixture();
    for (name, sig) in [
        ("VID_GATE_SIG_CLASSIC", &VID_GATE_SIG_CLASSIC[..]),
        ("AKE_GATE_SIG_CLASSIC", &AKE_GATE_SIG_CLASSIC[..]),
        ("HRL_LOOKUP_SIG_CLASSIC", &HRL_LOOKUP_SIG_CLASSIC[..]),
    ] {
        assert!(
            masked_matches(&img, sig, 0, img.len()).is_empty(),
            "{name} must not match the modern fixture"
        );
    }
}

// ---------------------------------------------------------------------------
// build_report / build_modify (whole-path, modern line)
// ---------------------------------------------------------------------------

fn created(img: &[u8]) -> CreateReport {
    match Mt1959Engine.create(img, &layout()) {
        Ok(r) => r,
        Err(e) => panic!("create refused: {}", e.message()),
    }
}

fn modified(img: &[u8]) -> ModifyReport {
    match Mt1959Engine.modify(img, &layout(), &chip(ChipFamily::Mt1959), &capable()) {
        Ok(r) => r,
        Err(e) => panic!("modify refused: {}", e.message()),
    }
}

fn lever(r: &ModifyReport, id: LeverId) -> &LeverReport {
    r.levers
        .iter()
        .find(|l| l.id == id)
        .unwrap_or_else(|| panic!("{id:?} lever present"))
}

#[test]
fn modern_create_writes_every_detour_of_the_substrate() {
    let img = fixture();
    let r = created(&img);
    assert_eq!(r.image.len(), img.len());
    assert_eq!(r.handler_va, FREE as u32);
    assert_eq!(r.scanner_entry, SCANNER as u32);
    assert_eq!(r.cdb_base, 0x0200_0d38);
    assert_eq!(r.flag_base, 0x0200_0e40);
    assert_eq!(r.free_sram_cell, 0x0200_120c);
    assert_eq!(r.sense_setter, 0x0002_0000);
    assert_eq!(r.vid_producer, PRODUCER as u32);
    assert_eq!(r.vid_out_buf, 0x0021_0c00);
    assert_eq!(r.vid_gate_setter, SETTER as u32);
    assert_eq!(r.speed_gate, SPEED as u32);
    assert_eq!(r.region_emitter, EMITTER as u32);
    assert_eq!(r.ake_gate, HANDSHAKE as u32);
    assert_eq!(r.gatea_gate, (GATE + 18) as u32);
    assert_eq!(r.deny_reset_gate, (DENY + 0x10) as u32);
    assert_eq!(r.uhd_classifier_site, (CLASSIFIER + 6) as u32);
    assert_eq!(r.bd_gate_site, (MEDIA + 16) as u32);
    assert_eq!(r.hrl_sites.len(), 2);
    assert_eq!(r.de_off, 0x001e_c056);

    let img = &r.image;
    assert_eq!(thumb::read_u32(img, r.record.off + 4), r.handler_va | 1);
    assert_eq!(&img[FREE..FREE + r.handler_bytes.len()], &r.handler_bytes[..]);
    assert_eq!(img[0x001e_c056], 0xDE);
    for (what, site, stub) in [
        ("boot", r.boot_init_site, r.boot_stub_va),
        ("speed", r.speed_gate + 4, r.speed_stub_va),
        ("region", r.region_emitter + 6, r.region_stub_va),
        ("Gate-A", r.gatea_gate, r.gatea_stub_va),
        ("deny", r.deny_reset_gate, r.deny_stub_va),
        ("UHD", r.uhd_classifier_site, r.uhd_stub_va),
        ("BD", r.bd_gate_site, r.bd_stub_va),
        ("HRL", r.hrl_sites[0], r.hrl_stub_va),
        ("HRL, second", r.hrl_sites[1], r.hrl_stub_va),
    ] {
        assert_eq!(thumb::decode_bl(img, site as usize), Some(stub), "{what}");
    }
    let b = u16::from_le_bytes([
        img[r.ake_gate as usize + 12],
        img[r.ake_gate as usize + 13],
    ]);
    assert_eq!(b >> 11, 0x1E, "the handshake detour is a wide branch");
}

#[test]
fn only_the_reported_places_change() {
    let img = fixture();
    let r = created(&img);
    let code_end = [
        r.boot_stub_va,
        r.speed_stub_va,
        r.region_stub_va,
        r.ake_stub_va,
        r.gatea_stub_va,
        r.deny_stub_va,
        r.uhd_stub_va,
        r.hrl_stub_va,
        r.bd_stub_va,
    ]
    .iter()
    .max()
    .map(|va| *va as usize + 0x100)
    .unwrap();
    assert!(code_end < 0x0015_8000);
    let mut places = vec![
        (FREE, code_end),
        (r.record.off + 4, r.record.off + 8),
        (r.de_off as usize, r.de_off as usize + 1),
    ];
    for site in [
        r.boot_init_site,
        r.speed_gate + 4,
        r.region_emitter + 6,
        r.ake_gate + 12,
        r.gatea_gate,
        r.deny_reset_gate,
        r.uhd_classifier_site,
        r.bd_gate_site,
        r.hrl_sites[0],
        r.hrl_sites[1],
    ] {
        places.push((site as usize, site as usize + 4));
    }
    for at in 0..img.len() {
        if img[at] != r.image[at] {
            assert!(
                places.iter().any(|p| p.0 <= at && at < p.1),
                "0x{at:08x} changed"
            );
        }
    }
}

#[test]
fn modern_modify_applies_every_lever_and_passes_its_audit() {
    let img = fixture();
    let r = modified(&img);
    for id in [
        LeverId::Identity,
        LeverId::Speed,
        LeverId::RegionFree,
        LeverId::RawRead,
        LeverId::DowngradeEnable,
    ] {
        assert_eq!(lever(&r, id).outcome, LeverOutcome::Applied, "{id:?}");
    }
    assert_eq!(r.engine, "MT1959");
    assert_eq!(r.model, "BD-RE BU40N");
    assert!(r.any_effective());
    assert_eq!(
        fact(lever(&r, LeverId::RegionFree), "region_emitter"),
        Some(EMITTER as u32)
    );
    assert_eq!(fact(lever(&r, LeverId::RegionFree), "speed_gate"), None);

    let audit = audit_image(&img, &r, true);
    assert!(audit.ok(), "{:?}", audit.failures());
    let audited: Vec<&str> = audit.checks.iter().map(|c| c.what.as_str()).collect();
    assert_eq!(
        audited,
        vec![
            "record repointed to injected handler",
            "handler injected (RESP_MAGIC present)",
            "Reboot boot-function-entry literal baked",
            "speed detour bl",
            "region detour bl",
            "AKE detour branch",
            "Gate-A detour bl",
            "deny-reset detour bl",
            "UHD detour bl",
            "HRL-skip detour bl",
            "HRL-skip detour bl",
            "BD-refuse detour bl",
            "DE byte set",
            "CMAC tables verify",
        ]
    );
    assert!(!audit_image(&img, &r, false).ok(), "an unsigned image does not pass");
}

#[test]
fn an_audit_finds_what_did_not_land() {
    let img = fixture();
    let mut r = modified(&img);
    r.image[SPEED + 4..SPEED + 8].copy_from_slice(&img[SPEED + 4..SPEED + 8]);
    let audit = audit_image(&img, &r, true);
    let failed: Vec<&str> = audit.failures().iter().map(|c| c.lever).collect();
    assert_eq!(failed, vec![LeverId::Speed.label()]);
}

/// Where two images of one size first differ.
fn first_difference(a: &[u8], b: &[u8]) -> Option<usize> {
    assert_eq!(a.len(), b.len());
    (0..a.len()).find(|k| a[*k] != b[*k])
}

#[test]
fn create_and_modify_agree_on_the_image() {
    let img = fixture();
    assert_eq!(first_difference(&created(&img).image, &modified(&img).image), None);

    // Classic firmware has neither media gate of the modern line.
    let mut classic = classic_full_image();
    classic[CLASSIFIER..CLASSIFIER + 64].fill(0);
    classic[MEDIA..MEDIA + 64].fill(0);
    let created = Mt1959Engine
        .build_report_classic(&classic, &layout())
        .expect("classic create");
    let modified = Mt1959Engine
        .build_modify_classic(
            &classic,
            &layout(),
            &chip(ChipFamily::Mt1959),
            &capable(),
        )
        .expect("classic modify");
    assert_eq!(first_difference(&created.image, &modified.image), None);
}

#[test]
fn a_patched_image_is_recognised_and_left_alone() {
    let img = fixture();
    assert!(!is_freemkv_patched(&img));
    let once = modified(&img).image;
    assert!(is_freemkv_patched(&once));
    assert!(once.windows(7).any(|w| w == RESP_MAGIC));

    let again = modified(&once);
    assert_eq!(again.image, once);
    for id in [
        LeverId::Identity,
        LeverId::Speed,
        LeverId::RegionFree,
        LeverId::RawRead,
        LeverId::DowngradeEnable,
    ] {
        assert_eq!(
            lever(&again, id).outcome,
            LeverOutcome::AlreadyPresent,
            "{id:?}"
        );
    }

    let classic = Mt1959Engine
        .build_report_classic(&classic_full_image(), &layout())
        .expect("classic create")
        .image;
    assert_eq!(
        Mt1959Engine.build_report_classic(&classic, &layout()).err(),
        Some(FwError::Refused(Reason::AlreadyPatched))
    );
    let again = Mt1959Engine
        .build_modify_classic(
            &classic,
            &layout(),
            &chip(ChipFamily::Mt1959),
            &capable(),
        )
        .expect("classic modify");
    assert_eq!(again.image, classic);
}

#[test]
fn a_drive_without_the_media_gets_no_lever_for_them() {
    let img = fixture();
    let none = Capability {
        media: "DVD".into(),
        bd_class: false,
        bd_aacs: false,
        region_lockable: false,
    };
    let mut plain = chip(ChipFamily::Mt1959);
    plain.descriptor_present = false;
    let r = Mt1959Engine
        .modify(&img, &layout(), &plain, &none)
        .expect("identity alone is worth a report");
    assert_eq!(lever(&r, LeverId::Identity).outcome, LeverOutcome::Applied);
    for id in [
        LeverId::RegionFree,
        LeverId::RawRead,
        LeverId::DowngradeEnable,
    ] {
        assert!(
            matches!(
                lever(&r, id).outcome,
                LeverOutcome::NotApplicable { .. }
            ),
            "{id:?}: {:?}",
            lever(&r, id).outcome
        );
    }
    assert_eq!(r.image[DESCRIPTOR + 0x56], img[DESCRIPTOR + 0x56]);
    assert_eq!(&r.image[EMITTER..EMITTER + 20], &img[EMITTER..EMITTER + 20]);
}

#[test]
fn the_downgrade_byte_is_set_once() {
    let img = fixture();
    let mut out = img.clone();
    let first = Mt1959Engine.lever_de(&img, &mut out, &chip(ChipFamily::Mt1959));
    assert_eq!(first.outcome, LeverOutcome::Applied);
    assert_eq!(first.facts, vec![("de_off", 0x001e_c056)]);
    assert_eq!(out[0x001e_c056], 0xDE);
    let once = out.clone();
    let second = Mt1959Engine.lever_de(&once, &mut out, &chip(ChipFamily::Mt1959));
    assert_eq!(second.outcome, LeverOutcome::AlreadyPresent);
    assert_eq!(out, once);
}

#[test]
fn the_modern_engine_serves_both_families() {
    let img = fixture();
    let r = Mt1939Engine
        .modify(&img, &layout(), &chip(ChipFamily::Mt1939), &capable())
        .expect("an MT1939 image of the modern line");
    assert_eq!(lever(&r, LeverId::Identity).outcome, LeverOutcome::Applied);
    assert_eq!(r.family, "MT1939");
}

/// An image built from the substrate is handed out with its signed bytes once it verifies.
#[test]
fn create_succeeds_on_the_oem_base_and_hands_back_the_report_image() {
    let img = fixture();
    let built = build(&img, &layout(), &chip(ChipFamily::Mt1959)).expect("build");
    assert_eq!(built.engine, "MT1959");
    let mut signed = built.report.image.clone();
    signed[0x001c_0000] ^= 0xFF;
    let verdict = RegionVerdict {
        start: 0x0001_1000,
        end: 0x001b_ffff,
        ok: true,
    };
    let out = create(
        built,
        Some(chip(ChipFamily::Mt1959)),
        signed.clone(),
        vec![verdict],
    )
    .expect("a signed image that verifies is handed out");
    assert_eq!(out.image(), &signed[..]);
    assert_eq!(out.report.handler_va, FREE as u32);
    assert_eq!(out.verdicts.len(), 1);
    assert!(out.chip.is_some());

    let built = build(&img, &layout(), &chip(ChipFamily::Mt1959)).expect("build");
    assert_eq!(
        create(built, None, signed, vec![]).err(),
        Some(FwError::Refused(Reason::Reverify))
    );
}

// ---------------------------------------------------------------------------
// refusals
// ---------------------------------------------------------------------------

fn without(at: usize, len: usize) -> Vec<u8> {
    let mut img = fixture();
    img[at..at + len].fill(0);
    img
}

fn with_hw(at: usize, h: u16) -> Vec<u8> {
    let mut img = fixture();
    put_hw(&mut img, at, &[h]);
    img
}

fn with_u32(at: usize, v: u32) -> Vec<u8> {
    let mut img = fixture();
    put_u32(&mut img, at, v);
    img
}

fn refused<T>(r: Result<T, FwError>, reason: Reason) {
    assert_eq!(r.err(), Some(FwError::Refused(reason)));
}

fn matched<T>(r: Result<T, FwError>, what: Anchor, count: usize) {
    match r.err() {
        Some(FwError::Matches { what: w, count: c, .. }) => assert_eq!((w, c), (what, count)),
        other => panic!("{other:?}"),
    }
}

#[test]
fn the_scanner_and_its_command_block_have_to_be_there() {
    let e = Mt1959Engine;
    refused(
        e.find_scanner_entry(&without(SCANNER + 0x80, 10)),
        Reason::ScannerMissing,
    );
    assert!(matches!(
        e.find_scanner_entry(&with_hw(SCANNER, 0x0000)),
        Err(FwError::Refused(Reason::ScannerPrologue { .. }))
    ));
    refused(
        e.find_cdb_base(&with_hw(SCANNER + 2, 0x0000)),
        Reason::ScannerLoad { got: 0 },
    );
    refused(
        e.find_cdb_base(&with_u32(SCANNER + 0x44, 0x0000_1234)),
        Reason::ScannerLiteral { value: 0x1234 },
    );
    let mut short = with_hw(SCANNER + 2, 0x4BFF);
    short.truncate(SCANNER + 0x100);
    let at = ((SCANNER + 6) / 4 * 4 + 4 * 0xFF) as u32;
    refused(e.find_cdb_base(&short), Reason::ScannerPool { at });

    refused(
        e.sense_setter(&without(SCANNER + 0x20, 10)),
        Reason::SenseSetter,
    );
    assert_eq!(e.sense_setter(&fixture()), Ok(0x0002_0000));
}

#[test]
fn the_live_record_and_its_handler_have_to_be_there() {
    let e = Mt1959Engine;
    let windows = layout().live_record_windows;
    refused(
        e.find_live_record(&fixture(), READ_BUFFER_OPCODE, &vec![]),
        Reason::RecordWindow { opcode: READ_BUFFER_OPCODE },
    );
    matched(
        e.find_live_record(
            &without(DISPATCH + 5 * 8, 8),
            READ_BUFFER_OPCODE,
            &windows,
        ),
        Anchor::LiveRecord { opcode: READ_BUFFER_OPCODE },
        0,
    );
    refused(
        e.create(&with_hw((OEM_3C_HANDLER & !1) as usize, 0), &layout()),
        Reason::HandlerPrologue {
            opcode: READ_BUFFER_OPCODE,
            at: OEM_3C_HANDLER,
        },
    );
    assert_eq!(
        e.create(&without(WRITER, 16), &layout()).err(),
        Some(FwError::Within {
            step: Step::Handler,
            cause: Cause::Refused(Reason::ResponseWriter),
        })
    );
    refused(
        e.find_response_commit(&fixture(), &vec![]),
        Reason::CommitWindow,
    );
    refused(
        e.find_response_commit(&without(COMMIT, 6), &layout().commit_windows),
        Reason::Commit,
    );
}

#[test]
fn flash_programming_and_its_cells_have_to_be_there() {
    let e = Mt1959Engine;
    matched(
        e.find_flash_program(&without(PROGRAM, 4)),
        Anchor::FlashProgram,
        0,
    );
    assert_eq!(e.find_nv_dram_base(&fixture()), Ok(0x0200_0a00));
    matched(
        e.find_nv_dram_base(&with_u32(PROGRAM + 0x1124, 0x0200_0b00)),
        Anchor::NvDramBase,
        0,
    );
    matched(
        e.find_nv_block(&without(NV_BLOCK + 0x4b0, 3)),
        Anchor::NvBlock,
        0,
    );
}

#[test]
fn cells_and_room_have_to_be_free() {
    let e = Mt1959Engine;
    let img = fixture();
    assert_eq!(e.find_free_sram_cell(&img), Ok(0x0200_120c));
    let cell = SramCell::FlagTable;
    assert!(e.assert_sram_cell_free(&img, 0x0200_1210, 8, cell).is_ok());
    refused(
        e.assert_sram_cell_free(&img, 0x0100_0000, 8, cell),
        Reason::SramUnmapped {
            cell,
            base: 0x0100_0000,
            end: 0x0100_0008,
        },
    );
    let taken = e
        .assert_sram_cell_free(&img, 0x0200_1208, 8, cell)
        .expect_err("a referenced cell");
    assert!(
        matches!(
            taken,
            FwError::Refused(Reason::SramReferenced {
                base: 0x0200_1208,
                end: 0x0200_1210,
                at: 0x0200_1204..=0x0200_120b,
                ..
            })
        ),
        "{taken:?}"
    );
    let room = e.free_space(&img, &table(), 64).expect("room");
    assert_eq!(room, FREE as u32);
    refused(
        e.find_room(&img, &vec![], 64),
        Reason::FreeSpace { need: 80 },
    );
    let mut bare = layout();
    bare.covered = vec![];
    assert!(matches!(
        e.create(&img, &bare),
        Err(FwError::Refused(Reason::FreeSpace { .. }))
    ));
}

#[test]
fn the_volume_id_producer_has_to_be_there() {
    let e = Mt1959Engine;
    matched(e.find_vid_gate(&without(GATE, 24)), Anchor::VidGateJb8, 0);
    refused(
        e.find_vid_producer(&with_hw(PRODUCER, 0)),
        Reason::ProducerPrologue,
    );
    refused(
        e.find_vid_producer(&with_u32(PRODUCER + 0x28, 0x0200_0000)),
        Reason::ScratchMissing,
    );
    refused(
        e.find_vid_producer(&with_u32(PRODUCER + 0x24, 0x0021_0d00)),
        Reason::ScratchAmbiguous,
    );
    refused(
        e.find_vid_gate_setter(&with_hw(GATE + 24, 0)),
        Reason::GateSetterMissing,
    );
    let mut img = fixture();
    put_hw(&mut img, GATE + 0x30, &[0x2101]);
    put_bl(&mut img, GATE + 0x32, SETTER + 0x20);
    refused(e.find_vid_gate_setter(&img), Reason::GateSetterDisagree);
    refused(
        e.find_vid_agid_struct(&with_hw(PRODUCER + 2, 0)),
        Reason::AgidStruct,
    );
    refused(
        e.find_vid_agid_struct(&with_hw(PRODUCER, 0)),
        Reason::AgidPrologue,
    );
    assert_ne!(
        FwError::Refused(Reason::AgidPrologue).message(),
        FwError::Refused(Reason::ProducerPrologue).message()
    );
    matched(
        e.find_aacs_session_reset(&without(RESET + 8, 14)),
        Anchor::SessionReset,
        0,
    );
    refused(
        e.find_aacs_session_reset(&with_hw(RESET, 0)),
        Reason::ResetPrologue,
    );
}

#[test]
fn the_auth_flag_is_believed_only_near_the_deny_sense() {
    let e = Mt1959Engine;
    let mut img = fixture();
    refused(e.find_aacs(&img), Reason::Dispatcher);
    lay(&mut img, 0x000a_8000, &DISPATCHER_SIG, 0);
    img[DENY + 0x10..DENY + 0x14].fill(0);
    refused(e.find_aacs(&img), Reason::DenySense);
    lay(&mut img, DENY + 0x10, &DENY_SENSE_SIG, 0);
    refused(e.find_aacs(&img), Reason::AuthFlag);
    put_u32(&mut img, DENY + 0x40, 0x0200_0c80);
    assert_eq!(e.find_aacs(&img), Ok((0x000a_8000, 0x0200_0c82)));
}

#[test]
fn a_signature_that_matches_twice_is_refused() {
    let e = Mt1959Engine;
    let twice = |at: usize, sig: &[(u16, u16)], low: u16| {
        let mut img = fixture();
        lay(&mut img, at, sig, low);
        img
    };
    matched(
        e.find_vid_gate(&twice(0x0014_8000, &VID_GATE_SIG, 0)),
        Anchor::VidGate,
        2,
    );
    matched(
        e.find_ake_gate(&twice(0x0014_8000, &AKE_GATE_SIG, 0x12)),
        Anchor::AkeGate,
        2,
    );
    matched(
        e.find_hrl_lookup(&twice(0x0014_8000, &HRL_LOOKUP_SIG, 0)),
        Anchor::HrlLookup,
        2,
    );
    matched(
        e.find_boot_init(&twice(0x0014_8000, &BOOT_INIT_SIG, 0x10)),
        Anchor::BootInit,
        2,
    );
    matched(
        e.find_boot_init(&{
            let mut img = without(BOOT, 16);
            lay(&mut img, 0x0014_8000, &BOOT_INIT_SIG_CLASSIC, 0x10);
            lay(&mut img, 0x0014_9000, &BOOT_INIT_SIG_CLASSIC, 0x10);
            img
        }),
        Anchor::BootInitClassic,
        2,
    );
    assert_eq!(
        e.find_vid_gate(&twice(0x0014_8000, &VID_GATE_SIG, 0))
            .expect_err("two gates")
            .message(),
        "VID gate signature matched 2 time(s) in [0x120000,0x180000) (want exactly 1) — \
         refusing to patch"
    );
}

#[test]
fn a_boot_hook_needs_one_call_to_take_over() {
    let e = Mt1959Engine;
    let img = fixture();
    let (at, init) = e.resolve_boot_init_pair(&img).expect("boot pair");
    assert_eq!(thumb::decode_bl(&img, at), Some(init));
    assert_eq!(
        e.find_boot_init(&img),
        Ok(Some(BootInitSite::Modern((BOOT + 4) as u32)))
    );
    refused(
        e.resolve_boot_init_pair(&without(BOOT, 16)),
        Reason::BootUnknown,
    );
    refused(
        e.resolve_boot_init_pair(&without(at, 4)),
        Reason::BootConvergence {
            at: (BOOT + 4) as u32,
        },
    );

    // The classic leaf helper is entered four bytes before its reload.
    let mut classic = without(BOOT, 16);
    lay(&mut classic, 0x0014_8000, &BOOT_INIT_SIG_CLASSIC, 0x10);
    refused(
        e.resolve_boot_init_pair(&classic),
        Reason::BootCaller { at: 0x0014_8000 },
    );
    put_bl(&mut classic, 0x0014_9000, 0x0014_8000);
    assert_eq!(
        e.resolve_boot_init_pair(&classic),
        Ok((0x0014_9000, 0x0014_8000))
    );
    put_bl(&mut classic, 0x0014_9100, 0x0014_8000);
    refused(
        e.resolve_boot_init_pair(&classic),
        Reason::BootCaller { at: 0x0014_8000 },
    );
}

#[test]
fn a_detour_needs_the_code_that_it_stands_in_for() {
    let e = Mt1959Engine;
    matched(
        e.ake_detour(&with_hw(HANDSHAKE + 12, 0x2102), FLAG_BASE)
            .map(|_| ()),
        Anchor::AkeGateNbV5,
        0,
    );
    refused(
        e.emit_rawread(
            &with_hw(DENY + 0x12, 0x2170),
            &mut fixture(),
            &table(),
            FLAG_BASE,
        ),
        Reason::DenySetup {
            at: (DENY + 0x10) as u32,
            first: 0x2202,
            second: 0x2170,
        },
    );
    refused(
        e.find_hrl_skip_sites(&with_hw(REVOKED + 2, 0x2801)),
        Reason::HrlHead { at: REVOKED as u32 },
    );
    let mut apart = fixture();
    put_hw(&mut apart, REVOKED + 0x68, &[bne_to(REVOKED + 0x68, REVOKED + 0x10)]);
    refused(e.find_hrl_skip_sites(&apart), Reason::HrlDisagree);
    let mut gone = fixture();
    gone[REVOKED + 0x40..REVOKED + 0x70].fill(0);
    refused(e.find_hrl_skip_sites(&gone), Reason::HrlSites);
    assert_eq!(
        e.busenc_detour(&fixture(), FLAG_BASE).map(|d| d.0),
        Err(FwError::Matches {
            what: Anchor::DataKeyArmB,
            count: 0,
            lo: 0,
            hi: fixture().len(),
        })
    );
}

#[test]
fn the_downgrade_byte_needs_the_descriptor() {
    let e = Mt1959Engine;
    assert_eq!(e.find_de_byte(&fixture()), Ok(0x001e_c056));
    refused(
        e.find_de_byte(&without(DESCRIPTOR + 0x34, 8)),
        Reason::DescriptorTag {
            at: (DESCRIPTOR + 0x34) as u32,
        },
    );
    refused(
        e.find_de_byte(&vec![0u8; 0x1000]),
        Reason::DescriptorSize { at: 0x001e_c056 },
    );
}

#[test]
fn an_empty_revocation_list_counts_no_entry() {
    assert_eq!(
        Mt1959Engine.hrl_valid_empty_record(),
        [0x21, 0x00, 0x00, 0x0C, 0x00, 0x00, 0x00, 0x00]
    );
}

#[test]
fn a_failed_emission_writes_nothing() {
    let img = fixture();
    let mut out = img.clone();
    assert!(Mt1959Engine
        .emit_rawread(&with_hw(DENY + 0x12, 0x2170), &mut out, &table(), FLAG_BASE)
        .is_err());
    assert_eq!(out, img);
    assert!(Mt1959Engine
        .emit_speed(&without(SPEED, 8), &mut out, &table(), FLAG_BASE)
        .is_err());
    assert_eq!(out, img);
}

// ---------------------------------------------------------------------------
// reports in words
// ---------------------------------------------------------------------------

#[test]
fn a_report_is_told_in_words_and_in_json() {
    let mut r = modified(&fixture());
    r.vendor_specific = "a\"b\\c\u{1}".into();
    let json = r.to_json();
    assert!(json.contains("\"MT1959\""));
    assert!(json.contains("BD-RE BU40N"));
    assert!(json.contains("de_off"));
    assert!(json.starts_with('{') && json.trim_end().ends_with('}'));
    assert_eq!(
        json.matches('{').count(),
        json.matches('}').count(),
        "braces pair up"
    );
    let words = r.summary();
    for id in [LeverId::Identity, LeverId::Speed, LeverId::RawRead] {
        assert!(words.contains(id.label()), "{words}");
    }
}

// ---------------------------------------------------------------------------
// edges of the image and of RAM
// ---------------------------------------------------------------------------

#[test]
fn a_match_flush_with_the_end_of_the_image_counts() {
    let twice = [0x11, 0x22, 0x11, 0x22];
    assert_eq!(find_masked_all(&twice, &[(0x2211, 0xFFFF)], 0, 4), [0, 2]);
    assert_eq!(find_masked_all(&twice, &[(0x2211, 0xFFFF)], 0, 2), [0]);
    assert!(find_masked_all(&twice[..1], &[(0x2211, 0xFFFF)], 0, 1).is_empty());

    let mut two = vec![0u8; 40];
    lay(&mut two, 0, &REGION_EMIT_SIG, 0);
    lay(&mut two, 20, &REGION_EMIT_SIG, 0);
    matched(
        Mt1959Engine.find_region_emitter(&two),
        Anchor::RegionEmitter,
        2,
    );
    assert_eq!(Mt1959Engine.find_region_emitter(&two[20..]), Ok(0));
}

#[test]
fn a_second_session_reset_flush_with_the_end_is_ambiguous() {
    let mut img = fixture();
    let at = img.len() - 2 * SESSION_RESET_SIG.len();
    lay(&mut img, at, &SESSION_RESET_SIG, 0);
    put_bl(&mut img, at + 14, SETTER);
    let twice = Mt1959Engine.find_aacs_session_reset(&img);
    assert_eq!(
        twice.expect_err("two loops").message(),
        "aacs_session_reset signature matched 2 time(s) (want exactly 1) — refusing"
    );
}

#[test]
fn the_guard_below_a_cell_has_to_be_mapped_too() {
    let e = Mt1959Engine;
    let cell = SramCell::Scratch;
    for base in [0x0200_0000u32, 0x0200_0003] {
        refused(
            e.assert_sram_cell_free(&[], base, 4, cell),
            Reason::SramUnmapped {
                cell,
                base,
                end: base + 4,
            },
        );
    }
    assert!(e.assert_sram_cell_free(&[], 0x0200_0004, 4, cell).is_ok());
    assert!(e.assert_sram_cell_free(&[], 0x0200_19f8, 4, cell).is_ok());
    assert_eq!(
        e.assert_sram_cell_free(&[], 0x0200_19f9, 4, cell)
            .expect_err("past the end")
            .message(),
        "flash-write scratch cell 0x020019f9..0x020019fd is outside mapped SRAM \
         [0x02000000, 0x02001a00) — would be discarded/unmapped"
    );
}

#[test]
fn the_record_stays_live_and_a_second_modify_changes_nothing() {
    let img = fixture();
    let built = created(&img);
    assert_eq!(built.image[built.record.off], READ_BUFFER_OPCODE);
    assert_eq!(built.image[built.record.off + 1], LIVE_FLAGS);
    let first = modified(&img);
    assert_eq!(first.image[built.record.off + 1], LIVE_FLAGS);
    assert_eq!(first.image[0x001e_c056], 0xDE);
    let second = modified(&first.image);
    assert_eq!(second.image, first.image);
}

#[test]
fn refusals_name_what_was_found_and_where() {
    let e = Mt1959Engine;
    let says = |r: FwError| r.message();
    assert_eq!(
        says(e.find_region_emitter(&[0u8; 64]).expect_err("no emitter")),
        "RPC-state emitter signature matched 0 time(s) in [0x0,0x40) (want exactly 1) — \
         refusing to patch"
    );
    assert_eq!(
        says(
            e.find_live_record(&fixture(), READ_BUFFER_OPCODE, &vec![(0, 8)])
                .expect_err("no record there")
        ),
        "expected exactly one live 0x3C record in a coherent table, found 0 — ambiguous, \
         refusing to patch"
    );
    assert_eq!(
        says(
            e.find_cdb_base(&with_hw(SCANNER + 2, 0x4601))
                .expect_err("not a load")
        ),
        "scanner entry+2 is not `ldr r3/r5,[pc,#imm]` (got 0x4601)"
    );
    assert_eq!(
        says(
            e.uhd_detour(&with_hw(CLASSIFIER + 8, 0x2507), FLAG_BASE)
                .expect_err("not the reload")
        ),
        says(
            e.find_uhd_classifier(&with_hw(CLASSIFIER + 8, 0x2507))
                .err()
                .unwrap_or(FwError::Refused(Reason::UhdReload {
                    at: (CLASSIFIER + 6) as u32,
                    ldr: 0x980E,
                    movs: 0x2507,
                }))
        )
    );
    assert_eq!(
        says(FwError::Refused(Reason::FreeSpace { need: 80 })),
        "no CMAC-covered free space of 80 bytes in the code region"
    );
    assert_eq!(
        says(FwError::Refused(Reason::BdLandmarks {
            at: 0x0013_9000,
            test: 0x2A00,
            reserve: 0xB082,
            deny: 0x0001,
        })),
        "BD (ver) gate landmarks off at anchor 0x139000 (cmp@+6=0x2a00 sub@+8=0xb082 \
         deny@+0x40=0x0001)"
    );
}

#[test]
fn an_mt1939_image_that_cannot_be_built_says_which_build_failed() {
    let modern = Mt1939Engine
        .create(&vec![0u8; 0x0002_0000], &layout())
        .expect_err("nothing to build on");
    assert_eq!(
        modern.cause(),
        Cause::Refused(Reason::ScannerMissing)
    );
    assert_eq!(
        modern.message(),
        "MT1939 create: MT1959 scanner signature (READ BUFFER mode-gate cmp chain) not found — \
         cannot prove the dispatch record format; refusing to patch (base build failed; use \
         `modify` for the downgrade-enable lever)"
    );
    assert_eq!(
        FwError::Mt1939Create {
            classic: true,
            step: None,
            cause: Cause::Refused(Reason::AlreadyPatched),
        }
        .message(),
        "MT1939 classic create: image already carries a freemkv base (classic); nothing to create"
    );
}

#[test]
fn a_base_that_cannot_be_built_says_at_which_step() {
    let e = Mt1959Engine;
    let classic = |blank: usize, n: usize| {
        let mut img = classic_full_image();
        img[blank..blank + n].fill(0);
        e.build_report_classic(&img, &layout()).expect_err("no base")
    };
    assert_eq!(
        classic(SCANNER + 0x80, 10).message(),
        "classic base: dispatch scanner not found: MT1959 scanner signature (READ BUFFER \
         mode-gate cmp chain) not found — cannot prove the dispatch record format; refusing to \
         patch"
    );
    assert_eq!(
        classic(SCANNER + 2, 2).message(),
        "classic base: CDB base: scanner entry+2 is not `ldr r3/r5,[pc,#imm]` (got 0x0000)"
    );
    assert_eq!(
        classic(WRITER, 16).message(),
        "classic base: response writer: response byte-writer signature not found"
    );
    assert_eq!(
        classic(COMMIT, 6).message(),
        "classic base: response commit: response-commit anchors (str [rN,#0x28] + length load) \
         not found"
    );
    assert_eq!(
        classic(TABLE + 5 * 8, 8).message(),
        "classic base: live 0x3C dispatch record: expected exactly one live 0x3C record in a \
         coherent table, found 0 — ambiguous, refusing to patch"
    );
    let blocked = classic(NV_BLOCK + 0x4b0, 3);
    assert_eq!(blocked.step(), Some(Step::ClassicHandler));
    assert!(
        blocked
            .message()
            .starts_with("classic base: assembling the 3C-0E handler: NV region record"),
        "{blocked:?}"
    );
    let modern = e
        .create(&without(NV_BLOCK + 0x4b0, 3), &layout())
        .expect_err("no home for the flags");
    assert!(
        modern
            .message()
            .starts_with("assembling the 3C-0E handler: NV region record"),
        "{modern:?}"
    );
    assert!(
        Mt1939Engine
            .create(&without(NV_BLOCK + 0x4b0, 3), &layout())
            .expect_err("no home for the flags")
            .message()
            .starts_with("MT1939 create: assembling the 3C-0E handler: NV region record")
    );
}

#[test]
fn a_classic_image_without_a_free_cell_says_so() {
    let r = FwError::Refused(Reason::SramGap { bytes: 12 }).within(Step::ClassicCell);
    assert_eq!(
        r.message(),
        "classic base: free SRAM cell for the flag table: largest unreferenced SRAM gap is only \
         12 bytes — too small for a flag table; refusing to guess a cell"
    );
    assert_eq!(r.cause(), Cause::Refused(Reason::SramGap { bytes: 12 }));
}

#[test]
fn an_image_without_a_scanner_has_nothing_modifiable() {
    let blind = Mt1959Engine
        .modify(
            &without(SCANNER + 0x80, 10),
            &layout(),
            &chip(ChipFamily::Mt1959),
            &capable(),
        )
        .expect_err("no scanner");
    assert_eq!(blind.step(), Some(Step::ModifyScanner));
    assert!(
        blind.message().starts_with(
            "nothing modifiable: dispatch scanner signature not found: MT1959 scanner signature"
        ),
        "{blind:?}"
    );
    let no_cdb = Mt1959Engine
        .modify(
            &with_hw(SCANNER + 2, 0x4601),
            &layout(),
            &chip(ChipFamily::Mt1959),
            &capable(),
        )
        .expect_err("no command block");
    assert_eq!(no_cdb, FwError::Refused(Reason::ScannerLoad { got: 0x4601 }));
}

#[test]
fn a_classic_check_that_is_too_far_off_is_named() {
    let far = 0x0120_0000;
    let (near, sites) = classic_hrl_image();
    let block = 0x001c_3810..0x001d_8000;
    let mut img = fixture();
    img.resize(0x0140_0000, 0);
    img[block.start + far..block.end + far].copy_from_slice(&near[block]);
    let site = sites[0] + far;
    let mut out = img.clone();
    let r = Mt1959Engine.emit_hrl_classic(&img, &mut out, &table(), FLAG_BASE);
    assert_eq!(r, Err(FwError::Refused(Reason::ClassicHrlRange { at: site })));
    assert_eq!(out, img);
    assert_eq!(
        FwError::Refused(Reason::ClassicHrlRange { at: site }).message(),
        format!("classic HRL detour `bl` out of range at 0x{site:x}")
    );
}

#[test]
fn the_handler_assembles_whatever_it_is_built_from() {
    for word in [0u32, 1, 0x0200_0d38, 0x7FFF_FFFF, 0xFFFF_FFEF] {
        for boot_entry in [0u32, 0x0013_d406] {
            let facts = HandlerFacts {
                cdb: word,
                oem_handler: word,
                writer: word,
                commit_off: word,
                commit: word,
                length_field: word,
                flash_program: word,
                save_home: word,
                nv_ptr: word,
                flag_base: word,
                boot_entry,
            };
            let code = Mt1959Engine.assemble_handler(&facts).expect("assembles");
            assert!(code.len() > 0x20 && code.len() <= 900, "{}", code.len());
            assert!(code.windows(7).any(|w| w == RESP_MAGIC));
        }
    }
}
