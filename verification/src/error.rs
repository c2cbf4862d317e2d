//! Why an image, or one lever on it, was refused.
use crate::text;
use vstd::prelude::*;

verus! {

/// A signature that has to match exactly once.
#[derive(Debug, Clone, Copy, PartialEq, Eq, Structural)]
pub enum Anchor {
    /// VID gate.
    VidGate,
    /// VID gate (NB-class).
    VidGateNb,
    /// VID gate (JB8).
    VidGateJb8,
    /// Speed ramp-ceiling gate.
    SpeedGate,
    /// Speed ramp-ceiling gate (r0).
    SpeedGateR0,
    /// RPC-state emitter.
    RegionEmitter,
    /// AACS AKE accept gate.
    AkeGate,
    /// AACS AKE accept gate (NB).
    AkeGateNb,
    /// AACS AKE accept gate (NB 1.V5).
    AkeGateNbV5,
    /// SetDiscMode.
    SetDiscMode,
    /// AACS opcode-0x45 arm (A).
    DataKeyArm,
    /// AACS opcode-0x45 arm.
    DataKeyArmB,
    /// UHD disc-version classifier.
    UhdClassifier,
    /// UHD disc-version classifier (version-compare).
    UhdClassifierVer,
    /// AACS REPORT KEY BD accept gate.
    BdGate,
    /// AACS media accept gate (descriptor-classifier).
    BdGateVer,
    /// HRL lookup routine.
    HrlLookup,
    /// boot-init signature.
    BootInit,
    /// classic boot-init signature.
    BootInitClassic,
    /// flash PROGRAM routine.
    FlashProgram,
    /// NV DRAM-window base pointer.
    NvDramBase,
    /// NV region record.
    NvBlock,
    /// aacs_session_reset signature.
    SessionReset,
    /// classic VID gate.
    ClassicVidGate,
    /// classic AKE gate.
    ClassicAkeGate,
    /// classic HRL lookup.
    ClassicHrlLookup,
    /// live dispatch record of an opcode.
    LiveRecord {
        /// The opcode.
        opcode: u8,
    },
}

/// A text.
fn started(t: &str) -> (s: String)
    ensures
        s@ == t@,
{
    let mut s: String = String::new();
    s.push_str(t);
    proof {
        assert(Seq::<char>::empty() + t@ =~= t@);
    }
    s
}

impl Anchor {
    /// What is said of the signature before the number of its matches.
    pub open spec fn text(self) -> Seq<char> {
        match self {
            Anchor::VidGate => "VID gate signature matched "@,
            Anchor::VidGateNb => "VID gate (NB-class) signature matched "@,
            Anchor::VidGateJb8 => "VID gate (JB8) signature matched "@,
            Anchor::SpeedGate => "Speed ramp-ceiling gate signature matched "@,
            Anchor::SpeedGateR0 => "Speed ramp-ceiling gate (r0) signature matched "@,
            Anchor::RegionEmitter => "RPC-state emitter signature matched "@,
            Anchor::AkeGate => "AACS AKE accept gate signature matched "@,
            Anchor::AkeGateNb => "AACS AKE accept gate (NB) signature matched "@,
            Anchor::AkeGateNbV5 => "AACS AKE accept gate (NB 1.V5) signature matched "@,
            Anchor::SetDiscMode => "SetDiscMode signature matched "@,
            Anchor::DataKeyArm => "AACS opcode-0x45 arm (A) matched "@,
            Anchor::DataKeyArmB => "AACS opcode-0x45 arm signature matched "@,
            Anchor::UhdClassifier => "UHD disc-version classifier signature matched "@,
            Anchor::UhdClassifierVer => "UHD disc-version classifier (version-compare) signature matched "@,
            Anchor::BdGate => "AACS REPORT KEY BD accept gate matched "@,
            Anchor::BdGateVer => "AACS media accept gate (descriptor-classifier) signature matched "@,
            Anchor::HrlLookup => "HRL lookup routine signature matched "@,
            Anchor::BootInit => "boot-init signature matched "@,
            Anchor::BootInitClassic => "classic boot-init signature matched "@,
            Anchor::FlashProgram => "flash PROGRAM routine (prologue + mailbox 0x02001200 + controller 0x04002240 + 0x01ff descriptor) matched "@,
            Anchor::NvDramBase => "NV DRAM-window base pointer: "@,
            Anchor::NvBlock => "NV region record (00 04 05 at block+0x4b0 with a blank head) matched "@,
            Anchor::SessionReset => "aacs_session_reset signature matched "@,
            Anchor::ClassicVidGate => "classic VID gate matched "@,
            Anchor::ClassicAkeGate => "classic AKE gate matched "@,
            Anchor::ClassicHrlLookup => "classic HRL lookup matched "@,
            Anchor::LiveRecord { opcode } => "expected exactly one live 0x"@ + text::capital_hex(
                opcode,
            ) + " record in a coherent table, found "@,
        }
    }

    /// The stretch that was searched is named.
    pub open spec fn names_stretch(self) -> bool {
        match self {
            Anchor::DataKeyArm
            | Anchor::BdGate
            | Anchor::BootInit
            | Anchor::BootInitClassic
            | Anchor::FlashProgram
            | Anchor::NvDramBase
            | Anchor::NvBlock
            | Anchor::SessionReset
            | Anchor::ClassicHrlLookup
            | Anchor::LiveRecord { .. } => false,
            _ => true,
        }
    }

    /// What is said of the signature at the end.
    pub open spec fn rest(self) -> Seq<char> {
        match self {
            Anchor::DataKeyArm => " time(s) (want exactly 1) — refusing to patch"@,
            Anchor::BdGate => " time(s) full-image (want exactly 1) — refusing to patch"@,
            Anchor::BootInit => " time(s) (want 0 on MT1939-classic or exactly 1 on MT1959) — refusing to patch"@,
            Anchor::BootInitClassic => " time(s) (want exactly 1) — refusing to patch"@,
            Anchor::FlashProgram => " candidate(s) (want exactly 1) — refusing to patch"@,
            Anchor::NvDramBase => " SRAM literal(s) loaded by >=2 PROGRAM copy helpers (want exactly 1) — refusing to resolve the flash-write staging base"@,
            Anchor::NvBlock => " candidate(s) in the top 192 KiB (want exactly 1) — refusing to resolve SAVE home"@,
            Anchor::SessionReset => " time(s) (want exactly 1) — refusing"@,
            Anchor::ClassicVidGate => ") (want 1)"@,
            Anchor::ClassicAkeGate => ") (want 1)"@,
            Anchor::ClassicHrlLookup => " time(s) image-wide (want 1)"@,
            Anchor::LiveRecord { .. } => " — ambiguous, refusing to patch"@,
            _ => ") (want exactly 1) — refusing to patch"@,
        }
    }

    /// What is said of the signature before the number of its matches.
    pub fn words(self) -> (r: String)
        ensures
            r@ == self.text(),
    {
        match self {
            Anchor::VidGate => started("VID gate signature matched "),
            Anchor::VidGateNb => started("VID gate (NB-class) signature matched "),
            Anchor::VidGateJb8 => started("VID gate (JB8) signature matched "),
            Anchor::SpeedGate => started("Speed ramp-ceiling gate signature matched "),
            Anchor::SpeedGateR0 => started("Speed ramp-ceiling gate (r0) signature matched "),
            Anchor::RegionEmitter => started("RPC-state emitter signature matched "),
            Anchor::AkeGate => started("AACS AKE accept gate signature matched "),
            Anchor::AkeGateNb => started("AACS AKE accept gate (NB) signature matched "),
            Anchor::AkeGateNbV5 => started("AACS AKE accept gate (NB 1.V5) signature matched "),
            Anchor::SetDiscMode => started("SetDiscMode signature matched "),
            Anchor::DataKeyArm => started("AACS opcode-0x45 arm (A) matched "),
            Anchor::DataKeyArmB => started("AACS opcode-0x45 arm signature matched "),
            Anchor::UhdClassifier => started("UHD disc-version classifier signature matched "),
            Anchor::UhdClassifierVer => started("UHD disc-version classifier (version-compare) signature matched "),
            Anchor::BdGate => started("AACS REPORT KEY BD accept gate matched "),
            Anchor::BdGateVer => started("AACS media accept gate (descriptor-classifier) signature matched "),
            Anchor::HrlLookup => started("HRL lookup routine signature matched "),
            Anchor::BootInit => started("boot-init signature matched "),
            Anchor::BootInitClassic => started("classic boot-init signature matched "),
            Anchor::FlashProgram => started("flash PROGRAM routine (prologue + mailbox 0x02001200 + controller 0x04002240 + 0x01ff descriptor) matched "),
            Anchor::NvDramBase => started("NV DRAM-window base pointer: "),
            Anchor::NvBlock => started("NV region record (00 04 05 at block+0x4b0 with a blank head) matched "),
            Anchor::SessionReset => started("aacs_session_reset signature matched "),
            Anchor::ClassicVidGate => started("classic VID gate matched "),
            Anchor::ClassicAkeGate => started("classic AKE gate matched "),
            Anchor::ClassicHrlLookup => started("classic HRL lookup matched "),
            Anchor::LiveRecord { opcode } => {
                let mut s: String = started("expected exactly one live 0x");
                text::push_capital_hex(&mut s, opcode);
                s.push_str(" record in a coherent table, found ");
                s
            },
        }
    }

    /// Whether the stretch that was searched is named.
    pub fn stretch_named(self) -> (r: bool)
        ensures
            r == self.names_stretch(),
    {
        match self {
            Anchor::DataKeyArm
            | Anchor::BdGate
            | Anchor::BootInit
            | Anchor::BootInitClassic
            | Anchor::FlashProgram
            | Anchor::NvDramBase
            | Anchor::NvBlock
            | Anchor::SessionReset
            | Anchor::ClassicHrlLookup
            | Anchor::LiveRecord { .. } => false,
            _ => true,
        }
    }

    /// What is said of the signature at the end.
    pub fn ending(self) -> (r: &'static str)
        ensures
            r@ == self.rest(),
    {
        match self {
            Anchor::DataKeyArm => " time(s) (want exactly 1) — refusing to patch",
            Anchor::BdGate => " time(s) full-image (want exactly 1) — refusing to patch",
            Anchor::BootInit => " time(s) (want 0 on MT1939-classic or exactly 1 on MT1959) — refusing to patch",
            Anchor::BootInitClassic => " time(s) (want exactly 1) — refusing to patch",
            Anchor::FlashProgram => " candidate(s) (want exactly 1) — refusing to patch",
            Anchor::NvDramBase => " SRAM literal(s) loaded by >=2 PROGRAM copy helpers (want exactly 1) — refusing to resolve the flash-write staging base",
            Anchor::NvBlock => " candidate(s) in the top 192 KiB (want exactly 1) — refusing to resolve SAVE home",
            Anchor::SessionReset => " time(s) (want exactly 1) — refusing",
            Anchor::ClassicVidGate => ") (want 1)",
            Anchor::ClassicAkeGate => ") (want 1)",
            Anchor::ClassicHrlLookup => " time(s) image-wide (want 1)",
            Anchor::LiveRecord { .. } => " — ambiguous, refusing to patch",
            _ => ") (want exactly 1) — refusing to patch",
        }
    }
}

/// An SRAM cell that has to be free.
#[derive(Debug, Clone, Copy, PartialEq, Eq, Structural)]
pub enum SramCell {
    /// The flag table.
    FlagTable,
    /// The byte that FLASHWRITE stages its source in.
    Scratch,
}

impl SramCell {
    /// What the cell is for.
    pub open spec fn text(self) -> Seq<char> {
        match self {
            SramCell::FlagTable => "flag table"@,
            SramCell::Scratch => "flash-write scratch"@,
        }
    }

    /// What the cell is for.
    pub fn label(self) -> (r: &'static str)
        ensures
            r@ == self.text(),
    {
        match self {
            SramCell::FlagTable => "flag table",
            SramCell::Scratch => "flash-write scratch",
        }
    }
}

/// Why a step was refused, other than by the number of a signature's matches.
#[derive(Debug, Clone, Copy, PartialEq, Eq, Structural)]
pub enum Reason {
    /// Scanner mode-gate found but no push-lr prologue before it.
    ScannerPrologue {
        /// Where.
        at: u32,
    },
    /// Scanner signature (READ BUFFER mode-gate compare chain) not found; refusing to patch.
    ScannerMissing,
    /// Scanner entry+2 runs past the image tail.
    ScannerTail {
        /// Where.
        at: u32,
    },
    /// Scanner entry+2 is not `ldr r3/r5,[pc,#imm]`.
    ScannerLoad {
        /// What is there.
        got: u16,
    },
    /// Scanner cdb-base literal pool runs past the image tail.
    ScannerPool {
        /// Where.
        at: u32,
    },
    /// Scanner cdb-base literal is not in the expected SRAM window.
    ScannerLiteral {
        /// The literal.
        value: u32,
    },
    /// Could not locate the sense-setter (movs r2/r1/r0 + bl) inside the scanner.
    SenseSetter,
    /// No dispatch-table window configured for this lineage.
    RecordWindow {
        /// The opcode.
        opcode: u8,
    },
    /// Handler has no push-lr prologue; not a real handler.
    HandlerPrologue {
        /// The opcode.
        opcode: u8,
        /// Where.
        at: u32,
    },
    /// Response byte-writer signature not found.
    ResponseWriter,
    /// Writer's first ldr is not pc-relative.
    ResponseWriterLiteral,
    /// No response-commit window configured for this lineage.
    CommitWindow,
    /// Response-commit anchors (str [rN,#0x28] + length load) not found.
    Commit,
    /// READ DISC STRUCTURE format-dispatcher signature not found.
    Dispatcher,
    /// AACS deny sense (5/6F/02) signature not found.
    DenySense,
    /// AACS auth-flag base literal not found near the VID gate.
    AuthFlag,
    /// VID producer prologue (push {r4-r7,lr}) not found before the VID gate.
    ProducerPrologue,
    /// VID producer prologue not found before the VID gate, for the AGID struct.
    AgidPrologue,
    /// VID producer loads more than one runtime scratch literal; ambiguous.
    ScratchAmbiguous,
    /// VID producer scratch-buffer literal not found.
    ScratchMissing,
    /// VID gate-setter call sites disagree; ambiguous.
    GateSetterDisagree,
    /// VID gate-setter (movs r1,#1; bl) not found in the producer.
    GateSetterMissing,
    /// VID AGID session-struct literal (ldr r7,[pc]) not found in the producer.
    AgidStruct,
    /// Aacs_session_reset prologue (push {..r4-r6..,lr}) not found before the loop.
    ResetPrologue,
    /// Image too small to contain the drive-descriptor DE byte.
    DescriptorSize {
        /// Where.
        at: u32,
    },
    /// Drive-descriptor family tag not found; refusing to place the DE byte.
    DescriptorTag {
        /// Where.
        at: u32,
    },
    /// Cell is outside mapped SRAM.
    SramUnmapped {
        /// The cell.
        cell: SramCell,
        /// Its start.
        base: u32,
        /// Its end.
        end: u32,
    },
    /// Cell overlaps a code-referenced SRAM address; refusing to clobber live state.
    SramReferenced {
        /// The cell.
        cell: SramCell,
        /// Its start.
        base: u32,
        /// Its end.
        end: u32,
        /// Where.
        at: u32,
    },
    /// Largest unreferenced SRAM gap is too small for a flag table.
    SramGap {
        /// How large it is.
        bytes: usize,
    },
    /// Resolved NV/SAVE block is outside the flash-write window.
    SaveHome {
        /// Where.
        at: u32,
    },
    /// No CMAC-covered free space in the code region.
    FreeSpace {
        /// How many bytes.
        need: usize,
    },
    /// UHD classifier reload (ldr r0,[sp,#0x38]; movs r5,#6) not in place.
    UhdReload {
        /// Where.
        at: u32,
        /// What is there for the reload.
        ldr: u16,
        /// What is there behind it.
        movs: u16,
    },
    /// UHD version-compare classifier landmarks off.
    UhdLandmarks {
        /// Where.
        at: u32,
        /// What is there for the load.
        ldrh: u16,
        /// What is there for the compare.
        test: u16,
        /// What is there for the refused class.
        mode1: u16,
        /// What is there for the accepted class.
        arm_c: u16,
    },
    /// BD gate mode-0 class check (ldrb r0,[r2,#7]; cmp r0,#2) not in place.
    BdClassCheck {
        /// Where.
        at: u32,
        /// What is there for the load.
        ldrb: u16,
        /// What is there for the compare.
        test: u16,
    },
    /// BD (ver) gate landmarks off.
    BdLandmarks {
        /// Where.
        at: u32,
        /// What is there for the compare.
        test: u16,
        /// What is there for the frame.
        reserve: u16,
        /// What is there for the deny block.
        deny: u16,
    },
    /// AACS opcode-0x45 arm does not start with a `bl <key-prog>`.
    DataKeyCall {
        /// Where.
        at: u32,
    },
    /// HRL check sites disagree on the revoke target.
    HrlDisagree,
    /// No HRL cert-path `cmp r0,#0; bne` sites found.
    HrlSites,
    /// HRL revoke target lacks the OEM revoke HEAD shape; refusing.
    HrlHead {
        /// Where.
        at: u32,
    },
    /// AKE reset writer `movs r1,#1` not in place.
    AkeWriter {
        /// Where.
        at: u32,
        /// What is there.
        got: u16,
    },
    /// AKE reset writer `b` not in place.
    AkeBranch {
        /// Where.
        at: u32,
        /// What is there.
        got: u16,
    },
    /// NB AKE reject writer `movs r1,#1` not in place.
    AkeNbWriter {
        /// Where.
        at: u32,
        /// What is there.
        got: u16,
    },
    /// NB AKE: no `bl set_agid_state`.
    AkeNbCall {
        /// Where.
        at: u32,
    },
    /// NB 1.V5 AKE reject writer `movs r1,#1` not in place.
    AkeV5Writer {
        /// Where.
        at: u32,
        /// What is there.
        got: u16,
    },
    /// NB 1.V5 AKE: no `bl set_agid_state`.
    AkeV5Call {
        /// Where.
        at: u32,
    },
    /// Boot-init convergence `bl <orig_init>` not resolvable; refusing to ship an unverified boot hook.
    BootConvergence {
        /// Where.
        at: u32,
    },
    /// Classic boot-init site is hardware-unconfirmed; refusing to ship an unblessed boot hook.
    BootUnblessed {
        /// Where.
        at: u32,
    },
    /// Classic boot-init helper does not have exactly one `bl` caller; refusing to ship an ambiguous detour.
    BootCaller {
        /// Where.
        at: u32,
    },
    /// Tri-state OFF is unsafe without a boot-init site: no known boot-init prologue found.
    BootUnknown,
    /// Boot-init detour `bl` out of range.
    BootRange,
    /// Speed gate `bhi` not in place.
    SpeedBranch {
        /// Where.
        at: u32,
        /// What is there.
        got: u16,
    },
    /// Speed detour `bl` out of range.
    SpeedRange,
    /// Region detour `bl` out of range.
    RegionRange,
    /// VID gate `cmp r0,#6` not in place.
    GateCompare {
        /// Where.
        at: u32,
        /// What is there.
        got: u16,
    },
    /// VID gate `bne` not in place.
    GateBranch {
        /// Where.
        at: u32,
        /// What is there.
        got: u16,
    },
    /// Deny sense-setup site is past the end of the image.
    DenyTail {
        /// Where.
        at: u64,
    },
    /// Deny sense-setup (movs r2,#2; movs r1,#0x6f) not in place.
    DenySetup {
        /// Where.
        at: u32,
        /// What is there.
        first: u16,
        /// What is there behind it.
        second: u16,
    },
    /// AKE detour branch could not be installed.
    AkeInstall,
    /// Gate-A detour `bl` out of range.
    GateRange,
    /// Deny-reset detour `bl` out of range.
    DenyRange,
    /// UHD media-gate detour `bl` out of range.
    UhdRange,
    /// HRL-skip detour `bl` out of range.
    HrlRange,
    /// BD-refuse detour `bl` out of range.
    BdRange,
    /// An installed detour branch does not decode back to its stub.
    BranchMismatch,
    /// Classic VID gate `cmp r0,#6` not in place.
    ClassicGateCompare {
        /// Where.
        at: u32,
        /// What is there.
        got: u16,
    },
    /// Classic VID gate `bne` not in place.
    ClassicGateBranch {
        /// Where.
        at: u32,
        /// What is there.
        got: u16,
    },
    /// Classic AKE reject writer (lsrs r0,#6; movs r1,#1) not in place.
    ClassicAkeWriter {
        /// Where.
        at: u32,
        /// What is there.
        first: u16,
        /// What is there behind it.
        second: u16,
    },
    /// Classic Gate-A detour `bl` out of range.
    ClassicGateRange,
    /// Classic AKE detour `bl` out of range.
    ClassicAkeRange,
    /// Classic Region detour `bl` out of range.
    ClassicRegionRange,
    /// Classic HRL check sites disagree on the revoke target.
    ClassicHrlDisagree,
    /// No classic HRL cert-path `cmp r0,#0; bne` site found.
    ClassicHrlSites,
    /// Classic HRL revoke target lacks the OEM 6F-deny head; refusing.
    ClassicHrlHead {
        /// Where.
        at: u32,
    },
    /// Classic HRL detour `bl` out of range.
    ClassicHrlRange {
        /// Where.
        at: usize,
    },
    /// Image already carries a freemkv base (classic); nothing to create.
    AlreadyPatched,
    /// Nothing modifiable on this MT1939 image (no identity page for the DE byte).
    NothingModifiableMt1939,
    /// Internal error: re-signed image does not self-verify.
    SelfVerify,
    /// Internal error: modified image does not re-verify.
    Reverify,
}

impl Reason {
    /// The refusal in words.
    pub open spec fn text(self) -> Seq<char> {
        match self {
            Reason::ScannerPrologue { at } => "scanner mode-gate found near 0x"@ + text::short_hex(at as nat) + " but no push-lr prologue before it"@,
            Reason::ScannerMissing => "MT1959 scanner signature (READ BUFFER mode-gate cmp chain) not found — cannot prove the dispatch record format; refusing to patch"@,
            Reason::ScannerTail { at } => "scanner entry+2 (0x"@ + text::short_hex(at as nat) + ") runs past the image tail"@,
            Reason::ScannerLoad { got } => "scanner entry+2 is not `ldr r3/r5,[pc,#imm]` (got 0x"@ + text::hex(got as nat, 4) + ")"@,
            Reason::ScannerPool { at } => "scanner cdb-base literal pool (0x"@ + text::short_hex(at as nat) + ") runs past the image tail"@,
            Reason::ScannerLiteral { value } => "scanner cdb-base literal 0x"@ + text::hex(value as nat, 8) + " is not in the expected SRAM window"@,
            Reason::SenseSetter => "could not locate the sense-setter (movs r2/r1/r0 + bl) inside the scanner"@,
            Reason::RecordWindow { opcode } => "no dispatch-table window configured for this lineage (opcode 0x"@ + text::hex(opcode as nat, 2) + ")"@,
            Reason::HandlerPrologue { opcode, at } => "0x"@ + text::capital_hex(opcode) + " handler 0x"@ + text::hex(at as nat, 8) + " has no push-lr prologue — not a real handler"@,
            Reason::ResponseWriter => "response byte-writer signature not found"@,
            Reason::ResponseWriterLiteral => "writer's first ldr is not pc-relative"@,
            Reason::CommitWindow => "no response-commit window configured for this lineage"@,
            Reason::Commit => "response-commit anchors (str [rN,#0x28] + length load) not found"@,
            Reason::Dispatcher => "READ DISC STRUCTURE format-dispatcher signature not found"@,
            Reason::DenySense => "AACS deny sense (5/6F/02) signature not found"@,
            Reason::AuthFlag => "AACS auth-flag base literal not found near the VID gate"@,
            Reason::ProducerPrologue => "VID producer prologue (push {r4-r7,lr}) not found before the VID gate"@,
            Reason::AgidPrologue => "VID producer prologue not found before the VID gate (AGID struct)"@,
            Reason::ScratchAmbiguous => "VID producer loads more than one runtime scratch literal — ambiguous"@,
            Reason::ScratchMissing => "VID producer scratch-buffer literal (~0x210c00) not found"@,
            Reason::GateSetterDisagree => "VID gate-setter call sites disagree — ambiguous"@,
            Reason::GateSetterMissing => "VID gate-setter (movs r1,#1; bl) not found in the producer"@,
            Reason::AgidStruct => "VID AGID session-struct literal (ldr r7,[pc] → SRAM) not found in the producer"@,
            Reason::ResetPrologue => "aacs_session_reset prologue (push {..r4-r6..,lr}) not found before the loop"@,
            Reason::DescriptorSize { at } => "image too small to contain the drive-descriptor DE byte at 0x"@ + text::short_hex(at as nat),
            Reason::DescriptorTag { at } => "drive-descriptor family tag not at 0x"@ + text::short_hex(at as nat) + " — refusing to place the DE byte"@,
            Reason::SramUnmapped { cell, base, end } => cell.text() + " cell 0x"@ + text::hex(base as nat, 8) + "..0x"@ + text::hex(end as nat, 8) + " is outside mapped SRAM [0x02000000, 0x02001a00) — would be discarded/unmapped"@,
            Reason::SramReferenced { cell, base, end, at } => cell.text() + " cell 0x"@ + text::hex(base as nat, 8) + "..0x"@ + text::hex(end as nat, 8) + " overlaps a code-referenced SRAM address 0x"@ + text::hex(at as nat, 8) + " (+guard) — refusing to clobber live state"@,
            Reason::SramGap { bytes } => "largest unreferenced SRAM gap is only "@ + text::decimal(bytes as nat) + " bytes — too small for a flag table; refusing to guess a cell"@,
            Reason::SaveHome { at } => "resolved NV/SAVE block 0x"@ + text::short_hex(at as nat) + " is outside the flash-write window 0x1ea000..0x1eb000"@,
            Reason::FreeSpace { need } => "no CMAC-covered free space of "@ + text::decimal(need as nat) + " bytes in the code region"@,
            Reason::UhdReload { at, ldr, movs } => "UHD classifier reload (ldr r0,[sp,#0x38]; movs r5,#6) not at 0x"@ + text::short_hex(at as nat) + " (got 0x"@ + text::hex(ldr as nat, 4) + " 0x"@ + text::hex(movs as nat, 4) + ")"@,
            Reason::UhdLandmarks { at, ldrh, test, mode1, arm_c } => "UHD version-compare classifier landmarks off at anchor 0x"@ + text::short_hex(at as nat) + " (ldrh@-2=0x"@ + text::hex(ldrh as nat, 4) + " cmp=0x"@ + text::hex(test as nat, 4) + " mode1@+4=0x"@ + text::hex(mode1 as nat, 4) + " armC@+0x16=0x"@ + text::hex(arm_c as nat, 4) + ")"@,
            Reason::BdClassCheck { at, ldrb, test } => "BD gate mode-0 class check (ldrb r0,[r2,#7]; cmp r0,#2) not at 0x"@ + text::short_hex(at as nat) + " (got 0x"@ + text::hex(ldrb as nat, 4) + " 0x"@ + text::hex(test as nat, 4) + ")"@,
            Reason::BdLandmarks { at, test, reserve, deny } => "BD (ver) gate landmarks off at anchor 0x"@ + text::short_hex(at as nat) + " (cmp@+6=0x"@ + text::hex(test as nat, 4) + " sub@+8=0x"@ + text::hex(reserve as nat, 4) + " deny@+0x40=0x"@ + text::hex(deny as nat, 4) + ")"@,
            Reason::DataKeyCall { at } => "AACS opcode-0x45 arm at 0x"@ + text::short_hex(at as nat) + " does not start with a `bl <key-prog>`"@,
            Reason::HrlDisagree => "HRL check sites disagree on the revoke target"@,
            Reason::HrlSites => "no HRL cert-path `cmp r0,#0; bne` sites found"@,
            Reason::HrlHead { at } => "HRL revoke target 0x"@ + text::short_hex(at as nat) + " lacks the OEM revoke HEAD shape — refusing"@,
            Reason::AkeWriter { at, got } => "AKE reset writer `movs r1,#1` not at 0x"@ + text::short_hex(at as nat) + " (got 0x"@ + text::hex(got as nat, 4) + ")"@,
            Reason::AkeBranch { at, got } => "AKE reset writer `b` not at 0x"@ + text::short_hex(at as nat) + " (got 0x"@ + text::hex(got as nat, 4) + ")"@,
            Reason::AkeNbWriter { at, got } => "NB AKE reject writer `movs r1,#1` not at 0x"@ + text::short_hex(at as nat) + " (got 0x"@ + text::hex(got as nat, 4) + ")"@,
            Reason::AkeNbCall { at } => "NB AKE: no `bl set_agid_state` at 0x"@ + text::short_hex(at as nat),
            Reason::AkeV5Writer { at, got } => "NB 1.V5 AKE reject writer `movs r1,#1` not at 0x"@ + text::short_hex(at as nat) + " (got 0x"@ + text::hex(got as nat, 4) + ")"@,
            Reason::AkeV5Call { at } => "NB 1.V5 AKE: no `bl set_agid_state` at 0x"@ + text::short_hex(at as nat),
            Reason::BootConvergence { at } => "boot-init convergence `bl <orig_init>` not resolvable from anchor at 0x"@ + text::short_hex(at as nat) + " (the bmi target is not a 32-bit Thumb bl) — refusing to ship an unverified boot hook rather than mis-patch"@,
            Reason::BootUnblessed { at } => "boot-init site 0x"@ + text::short_hex(at as nat) + " resolved via the MT1939-classic signature is a called leaf helper whose power-on call-order is hardware-unconfirmed. Refusing to ship an unblessed classic boot hook (could brick the drive) — CLASSIC_BOOT_BLESSED is false until the site is verified on silicon."@,
            Reason::BootCaller { at } => "classic boot-init: the helper at anchor 0x"@ + text::short_hex(at as nat) + " does not have exactly one `bl` caller image-wide (want 1) — refusing to ship an ambiguous detour"@,
            Reason::BootUnknown => "tri-state OFF is unsafe without a boot-init site: no known boot-init prologue found on this image (unknown shape). Refusing to ship — a flag table that boots all-0x00 would disable every feature at power-on."@,
            Reason::BootRange => "boot-init detour `bl` out of range"@,
            Reason::SpeedBranch { at, got } => "speed gate `bhi` not at 0x"@ + text::short_hex(at as nat) + " (got 0x"@ + text::hex(got as nat, 4) + ")"@,
            Reason::SpeedRange => "Speed detour `bl` out of range"@,
            Reason::RegionRange => "Region detour `bl` out of range"@,
            Reason::GateCompare { at, got } => "VID gate `cmp r0,#6` not at 0x"@ + text::short_hex(at as nat) + " (got 0x"@ + text::hex(got as nat, 4) + ")"@,
            Reason::GateBranch { at, got } => "VID gate `bne` not at 0x"@ + text::short_hex(at as nat) + " (got 0x"@ + text::hex(got as nat, 4) + ")"@,
            Reason::DenyTail { at } => "deny sense-setup site 0x"@ + text::short_hex(at as nat) + " is past the end of the image"@,
            Reason::DenySetup { at, first, second } => "deny sense-setup (movs r2,#2; movs r1,#0x6f) not at 0x"@ + text::short_hex(at as nat) + " (got 0x"@ + text::hex(first as nat, 4) + " 0x"@ + text::hex(second as nat, 4) + ")"@,
            Reason::AkeInstall => "AKE detour branch could not be installed"@,
            Reason::GateRange => "Gate-A detour `bl` out of range"@,
            Reason::DenyRange => "deny-reset detour `bl` out of range"@,
            Reason::UhdRange => "UHD media-gate detour `bl` out of range"@,
            Reason::HrlRange => "HRL-skip detour `bl` out of range"@,
            Reason::BdRange => "BD-refuse detour `bl` out of range"@,
            Reason::BranchMismatch => "an installed detour branch does not decode back to its stub"@,
            Reason::ClassicGateCompare { at, got } => "classic VID gate `cmp r0,#6` not at 0x"@ + text::short_hex(at as nat) + " (got 0x"@ + text::hex(got as nat, 4) + ")"@,
            Reason::ClassicGateBranch { at, got } => "classic VID gate `bne` not at 0x"@ + text::short_hex(at as nat) + " (got 0x"@ + text::hex(got as nat, 4) + ")"@,
            Reason::ClassicAkeWriter { at, first, second } => "classic AKE reject writer (lsrs r0,#6; movs r1,#1) not at 0x"@ + text::short_hex(at as nat) + " (got 0x"@ + text::hex(first as nat, 4) + " 0x"@ + text::hex(second as nat, 4) + ")"@,
            Reason::ClassicGateRange => "classic Gate-A detour `bl` out of range"@,
            Reason::ClassicAkeRange => "classic AKE detour `bl` out of range"@,
            Reason::ClassicRegionRange => "classic Region detour `bl` out of range"@,
            Reason::ClassicHrlDisagree => "classic HRL check sites disagree on the revoke target"@,
            Reason::ClassicHrlSites => "no classic HRL cert-path `cmp r0,#0; bne` site found"@,
            Reason::ClassicHrlHead { at } => "classic HRL revoke target 0x"@ + text::short_hex(at as nat) + " lacks the OEM 6F-deny head — refusing"@,
            Reason::ClassicHrlRange { at } => "classic HRL detour `bl` out of range at 0x"@ + text::short_hex(at as nat),
            Reason::AlreadyPatched => "image already carries a freemkv base (classic); nothing to create"@,
            Reason::NothingModifiableMt1939 => "nothing modifiable on this MT1939 image (no identity page for the DE byte)"@,
            Reason::SelfVerify => "internal error: re-signed image does not self-verify"@,
            Reason::Reverify => "internal error: modified image does not re-verify"@,
        }
    }

    /// The refusal in words.
    pub fn words(self) -> (r: String)
        ensures
            r@ == self.text(),
    {
        match self {
            Reason::ScannerPrologue { at } => {
                let mut s: String = started("scanner mode-gate found near 0x");
                text::push_short_hex(&mut s, at as u64);
                s.push_str(" but no push-lr prologue before it");
                s
            },
            Reason::ScannerMissing => started("MT1959 scanner signature (READ BUFFER mode-gate cmp chain) not found — cannot prove the dispatch record format; refusing to patch"),
            Reason::ScannerTail { at } => {
                let mut s: String = started("scanner entry+2 (0x");
                text::push_short_hex(&mut s, at as u64);
                s.push_str(") runs past the image tail");
                s
            },
            Reason::ScannerLoad { got } => {
                let mut s: String = started("scanner entry+2 is not `ldr r3/r5,[pc,#imm]` (got 0x");
                text::push_hex(&mut s, got as u32, 4);
                s.push_str(")");
                s
            },
            Reason::ScannerPool { at } => {
                let mut s: String = started("scanner cdb-base literal pool (0x");
                text::push_short_hex(&mut s, at as u64);
                s.push_str(") runs past the image tail");
                s
            },
            Reason::ScannerLiteral { value } => {
                let mut s: String = started("scanner cdb-base literal 0x");
                text::push_hex(&mut s, value, 8);
                s.push_str(" is not in the expected SRAM window");
                s
            },
            Reason::SenseSetter => started("could not locate the sense-setter (movs r2/r1/r0 + bl) inside the scanner"),
            Reason::RecordWindow { opcode } => {
                let mut s: String = started("no dispatch-table window configured for this lineage (opcode 0x");
                text::push_hex(&mut s, opcode as u32, 2);
                s.push_str(")");
                s
            },
            Reason::HandlerPrologue { opcode, at } => {
                let mut s: String = started("0x");
                text::push_capital_hex(&mut s, opcode);
                s.push_str(" handler 0x");
                text::push_hex(&mut s, at, 8);
                s.push_str(" has no push-lr prologue — not a real handler");
                s
            },
            Reason::ResponseWriter => started("response byte-writer signature not found"),
            Reason::ResponseWriterLiteral => started("writer's first ldr is not pc-relative"),
            Reason::CommitWindow => started("no response-commit window configured for this lineage"),
            Reason::Commit => started("response-commit anchors (str [rN,#0x28] + length load) not found"),
            Reason::Dispatcher => started("READ DISC STRUCTURE format-dispatcher signature not found"),
            Reason::DenySense => started("AACS deny sense (5/6F/02) signature not found"),
            Reason::AuthFlag => started("AACS auth-flag base literal not found near the VID gate"),
            Reason::ProducerPrologue => started("VID producer prologue (push {r4-r7,lr}) not found before the VID gate"),
            Reason::AgidPrologue => started("VID producer prologue not found before the VID gate (AGID struct)"),
            Reason::ScratchAmbiguous => started("VID producer loads more than one runtime scratch literal — ambiguous"),
            Reason::ScratchMissing => started("VID producer scratch-buffer literal (~0x210c00) not found"),
            Reason::GateSetterDisagree => started("VID gate-setter call sites disagree — ambiguous"),
            Reason::GateSetterMissing => started("VID gate-setter (movs r1,#1; bl) not found in the producer"),
            Reason::AgidStruct => started("VID AGID session-struct literal (ldr r7,[pc] → SRAM) not found in the producer"),
            Reason::ResetPrologue => started("aacs_session_reset prologue (push {..r4-r6..,lr}) not found before the loop"),
            Reason::DescriptorSize { at } => {
                let mut s: String = started("image too small to contain the drive-descriptor DE byte at 0x");
                text::push_short_hex(&mut s, at as u64);
                s
            },
            Reason::DescriptorTag { at } => {
                let mut s: String = started("drive-descriptor family tag not at 0x");
                text::push_short_hex(&mut s, at as u64);
                s.push_str(" — refusing to place the DE byte");
                s
            },
            Reason::SramUnmapped { cell, base, end } => {
                let mut s: String = started(cell.label());
                s.push_str(" cell 0x");
                text::push_hex(&mut s, base, 8);
                s.push_str("..0x");
                text::push_hex(&mut s, end, 8);
                s.push_str(" is outside mapped SRAM [0x02000000, 0x02001a00) — would be discarded/unmapped");
                s
            },
            Reason::SramReferenced { cell, base, end, at } => {
                let mut s: String = started(cell.label());
                s.push_str(" cell 0x");
                text::push_hex(&mut s, base, 8);
                s.push_str("..0x");
                text::push_hex(&mut s, end, 8);
                s.push_str(" overlaps a code-referenced SRAM address 0x");
                text::push_hex(&mut s, at, 8);
                s.push_str(" (+guard) — refusing to clobber live state");
                s
            },
            Reason::SramGap { bytes } => {
                let mut s: String = started("largest unreferenced SRAM gap is only ");
                text::push_decimal(&mut s, bytes as u64);
                s.push_str(" bytes — too small for a flag table; refusing to guess a cell");
                s
            },
            Reason::SaveHome { at } => {
                let mut s: String = started("resolved NV/SAVE block 0x");
                text::push_short_hex(&mut s, at as u64);
                s.push_str(" is outside the flash-write window 0x1ea000..0x1eb000");
                s
            },
            Reason::FreeSpace { need } => {
                let mut s: String = started("no CMAC-covered free space of ");
                text::push_decimal(&mut s, need as u64);
                s.push_str(" bytes in the code region");
                s
            },
            Reason::UhdReload { at, ldr, movs } => {
                let mut s: String = started("UHD classifier reload (ldr r0,[sp,#0x38]; movs r5,#6) not at 0x");
                text::push_short_hex(&mut s, at as u64);
                s.push_str(" (got 0x");
                text::push_hex(&mut s, ldr as u32, 4);
                s.push_str(" 0x");
                text::push_hex(&mut s, movs as u32, 4);
                s.push_str(")");
                s
            },
            Reason::UhdLandmarks { at, ldrh, test, mode1, arm_c } => {
                let mut s: String = started("UHD version-compare classifier landmarks off at anchor 0x");
                text::push_short_hex(&mut s, at as u64);
                s.push_str(" (ldrh@-2=0x");
                text::push_hex(&mut s, ldrh as u32, 4);
                s.push_str(" cmp=0x");
                text::push_hex(&mut s, test as u32, 4);
                s.push_str(" mode1@+4=0x");
                text::push_hex(&mut s, mode1 as u32, 4);
                s.push_str(" armC@+0x16=0x");
                text::push_hex(&mut s, arm_c as u32, 4);
                s.push_str(")");
                s
            },
            Reason::BdClassCheck { at, ldrb, test } => {
                let mut s: String = started("BD gate mode-0 class check (ldrb r0,[r2,#7]; cmp r0,#2) not at 0x");
                text::push_short_hex(&mut s, at as u64);
                s.push_str(" (got 0x");
                text::push_hex(&mut s, ldrb as u32, 4);
                s.push_str(" 0x");
                text::push_hex(&mut s, test as u32, 4);
                s.push_str(")");
                s
            },
            Reason::BdLandmarks { at, test, reserve, deny } => {
                let mut s: String = started("BD (ver) gate landmarks off at anchor 0x");
                text::push_short_hex(&mut s, at as u64);
                s.push_str(" (cmp@+6=0x");
                text::push_hex(&mut s, test as u32, 4);
                s.push_str(" sub@+8=0x");
                text::push_hex(&mut s, reserve as u32, 4);
                s.push_str(" deny@+0x40=0x");
                text::push_hex(&mut s, deny as u32, 4);
                s.push_str(")");
                s
            },
            Reason::DataKeyCall { at } => {
                let mut s: String = started("AACS opcode-0x45 arm at 0x");
                text::push_short_hex(&mut s, at as u64);
                s.push_str(" does not start with a `bl <key-prog>`");
                s
            },
            Reason::HrlDisagree => started("HRL check sites disagree on the revoke target"),
            Reason::HrlSites => started("no HRL cert-path `cmp r0,#0; bne` sites found"),
            Reason::HrlHead { at } => {
                let mut s: String = started("HRL revoke target 0x");
                text::push_short_hex(&mut s, at as u64);
                s.push_str(" lacks the OEM revoke HEAD shape — refusing");
                s
            },
            Reason::AkeWriter { at, got } => {
                let mut s: String = started("AKE reset writer `movs r1,#1` not at 0x");
                text::push_short_hex(&mut s, at as u64);
                s.push_str(" (got 0x");
                text::push_hex(&mut s, got as u32, 4);
                s.push_str(")");
                s
            },
            Reason::AkeBranch { at, got } => {
                let mut s: String = started("AKE reset writer `b` not at 0x");
                text::push_short_hex(&mut s, at as u64);
                s.push_str(" (got 0x");
                text::push_hex(&mut s, got as u32, 4);
                s.push_str(")");
                s
            },
            Reason::AkeNbWriter { at, got } => {
                let mut s: String = started("NB AKE reject writer `movs r1,#1` not at 0x");
                text::push_short_hex(&mut s, at as u64);
                s.push_str(" (got 0x");
                text::push_hex(&mut s, got as u32, 4);
                s.push_str(")");
                s
            },
            Reason::AkeNbCall { at } => {
                let mut s: String = started("NB AKE: no `bl set_agid_state` at 0x");
                text::push_short_hex(&mut s, at as u64);
                s
            },
            Reason::AkeV5Writer { at, got } => {
                let mut s: String = started("NB 1.V5 AKE reject writer `movs r1,#1` not at 0x");
                text::push_short_hex(&mut s, at as u64);
                s.push_str(" (got 0x");
                text::push_hex(&mut s, got as u32, 4);
                s.push_str(")");
                s
            },
            Reason::AkeV5Call { at } => {
                let mut s: String = started("NB 1.V5 AKE: no `bl set_agid_state` at 0x");
                text::push_short_hex(&mut s, at as u64);
                s
            },
            Reason::BootConvergence { at } => {
                let mut s: String = started("boot-init convergence `bl <orig_init>` not resolvable from anchor at 0x");
                text::push_short_hex(&mut s, at as u64);
                s.push_str(" (the bmi target is not a 32-bit Thumb bl) — refusing to ship an unverified boot hook rather than mis-patch");
                s
            },
            Reason::BootUnblessed { at } => {
                let mut s: String = started("boot-init site 0x");
                text::push_short_hex(&mut s, at as u64);
                s.push_str(" resolved via the MT1939-classic signature is a called leaf helper whose power-on call-order is hardware-unconfirmed. Refusing to ship an unblessed classic boot hook (could brick the drive) — CLASSIC_BOOT_BLESSED is false until the site is verified on silicon.");
                s
            },
            Reason::BootCaller { at } => {
                let mut s: String = started("classic boot-init: the helper at anchor 0x");
                text::push_short_hex(&mut s, at as u64);
                s.push_str(" does not have exactly one `bl` caller image-wide (want 1) — refusing to ship an ambiguous detour");
                s
            },
            Reason::BootUnknown => started("tri-state OFF is unsafe without a boot-init site: no known boot-init prologue found on this image (unknown shape). Refusing to ship — a flag table that boots all-0x00 would disable every feature at power-on."),
            Reason::BootRange => started("boot-init detour `bl` out of range"),
            Reason::SpeedBranch { at, got } => {
                let mut s: String = started("speed gate `bhi` not at 0x");
                text::push_short_hex(&mut s, at as u64);
                s.push_str(" (got 0x");
                text::push_hex(&mut s, got as u32, 4);
                s.push_str(")");
                s
            },
            Reason::SpeedRange => started("Speed detour `bl` out of range"),
            Reason::RegionRange => started("Region detour `bl` out of range"),
            Reason::GateCompare { at, got } => {
                let mut s: String = started("VID gate `cmp r0,#6` not at 0x");
                text::push_short_hex(&mut s, at as u64);
                s.push_str(" (got 0x");
                text::push_hex(&mut s, got as u32, 4);
                s.push_str(")");
                s
            },
            Reason::GateBranch { at, got } => {
                let mut s: String = started("VID gate `bne` not at 0x");
                text::push_short_hex(&mut s, at as u64);
                s.push_str(" (got 0x");
                text::push_hex(&mut s, got as u32, 4);
                s.push_str(")");
                s
            },
            Reason::DenyTail { at } => {
                let mut s: String = started("deny sense-setup site 0x");
                text::push_short_hex(&mut s, at);
                s.push_str(" is past the end of the image");
                s
            },
            Reason::DenySetup { at, first, second } => {
                let mut s: String = started("deny sense-setup (movs r2,#2; movs r1,#0x6f) not at 0x");
                text::push_short_hex(&mut s, at as u64);
                s.push_str(" (got 0x");
                text::push_hex(&mut s, first as u32, 4);
                s.push_str(" 0x");
                text::push_hex(&mut s, second as u32, 4);
                s.push_str(")");
                s
            },
            Reason::AkeInstall => started("AKE detour branch could not be installed"),
            Reason::GateRange => started("Gate-A detour `bl` out of range"),
            Reason::DenyRange => started("deny-reset detour `bl` out of range"),
            Reason::UhdRange => started("UHD media-gate detour `bl` out of range"),
            Reason::HrlRange => started("HRL-skip detour `bl` out of range"),
            Reason::BdRange => started("BD-refuse detour `bl` out of range"),
            Reason::BranchMismatch => started("an installed detour branch does not decode back to its stub"),
            Reason::ClassicGateCompare { at, got } => {
                let mut s: String = started("classic VID gate `cmp r0,#6` not at 0x");
                text::push_short_hex(&mut s, at as u64);
                s.push_str(" (got 0x");
                text::push_hex(&mut s, got as u32, 4);
                s.push_str(")");
                s
            },
            Reason::ClassicGateBranch { at, got } => {
                let mut s: String = started("classic VID gate `bne` not at 0x");
                text::push_short_hex(&mut s, at as u64);
                s.push_str(" (got 0x");
                text::push_hex(&mut s, got as u32, 4);
                s.push_str(")");
                s
            },
            Reason::ClassicAkeWriter { at, first, second } => {
                let mut s: String = started("classic AKE reject writer (lsrs r0,#6; movs r1,#1) not at 0x");
                text::push_short_hex(&mut s, at as u64);
                s.push_str(" (got 0x");
                text::push_hex(&mut s, first as u32, 4);
                s.push_str(" 0x");
                text::push_hex(&mut s, second as u32, 4);
                s.push_str(")");
                s
            },
            Reason::ClassicGateRange => started("classic Gate-A detour `bl` out of range"),
            Reason::ClassicAkeRange => started("classic AKE detour `bl` out of range"),
            Reason::ClassicRegionRange => started("classic Region detour `bl` out of range"),
            Reason::ClassicHrlDisagree => started("classic HRL check sites disagree on the revoke target"),
            Reason::ClassicHrlSites => started("no classic HRL cert-path `cmp r0,#0; bne` site found"),
            Reason::ClassicHrlHead { at } => {
                let mut s: String = started("classic HRL revoke target 0x");
                text::push_short_hex(&mut s, at as u64);
                s.push_str(" lacks the OEM 6F-deny head — refusing");
                s
            },
            Reason::ClassicHrlRange { at } => {
                let mut s: String = started("classic HRL detour `bl` out of range at 0x");
                text::push_short_hex(&mut s, at as u64);
                s
            },
            Reason::AlreadyPatched => started("image already carries a freemkv base (classic); nothing to create"),
            Reason::NothingModifiableMt1939 => started("nothing modifiable on this MT1939 image (no identity page for the DE byte)"),
            Reason::SelfVerify => started("internal error: re-signed image does not self-verify"),
            Reason::Reverify => started("internal error: modified image does not re-verify"),
        }
    }
}

/// What stopped a step.
#[derive(Debug, Clone, Copy, PartialEq, Eq, Structural)]
pub enum Cause {
    /// A signature matched `count` times where exactly one match was wanted.
    Matches {
        /// The signature.
        what: Anchor,
        /// How often it matched.
        count: usize,
        /// Where the stretch starts that was searched.
        lo: usize,
        /// Where it ends.
        hi: usize,
    },
    /// Any other refusal.
    Refused(Reason),
}

impl Cause {
    /// The cause in words.
    pub open spec fn text(self) -> Seq<char> {
        match self {
            Cause::Matches { what, count, lo, hi } => if what is SessionReset && count == 0 {
                "aacs_session_reset AGID-reset loop signature not found"@
            } else if what.names_stretch() {
                what.text() + text::decimal(count as nat) + " time(s) in [0x"@ + text::short_hex(
                    lo as nat,
                ) + ",0x"@ + text::short_hex(hi as nat) + what.rest()
            } else {
                what.text() + text::decimal(count as nat) + what.rest()
            },
            Cause::Refused(reason) => reason.text(),
        }
    }

    /// The cause in words.
    pub fn words(self) -> (r: String)
        ensures
            r@ == self.text(),
    {
        match self {
            Cause::Matches { what, count, lo, hi } => {
                if count == 0 && what == Anchor::SessionReset {
                    return started("aacs_session_reset AGID-reset loop signature not found");
                }
                let mut s: String = what.words();
                text::push_decimal(&mut s, count as u64);
                if what.stretch_named() {
                    s.push_str(" time(s) in [0x");
                    text::push_short_hex(&mut s, lo as u64);
                    s.push_str(",0x");
                    text::push_short_hex(&mut s, hi as u64);
                }
                s.push_str(what.ending());
                s
            },
            Cause::Refused(reason) => reason.words(),
        }
    }
}

/// A step that says so when it is refused.
#[derive(Debug, Clone, Copy, PartialEq, Eq, Structural)]
pub enum Step {
    /// The dispatch scanner of a classic image.
    ClassicScanner,
    /// The CDB base of a classic image.
    ClassicCdbBase,
    /// The response writer of a classic image.
    ClassicWriter,
    /// The response commit of a classic image.
    ClassicCommit,
    /// The dispatch record of a classic image.
    ClassicRecord,
    /// The flag table's cell on a classic image.
    ClassicCell,
    /// The handler of a classic image.
    ClassicHandler,
    /// The handler of a modern image.
    Handler,
    /// The dispatch scanner of an image that is to be modified.
    ModifyScanner,
}

impl Step {
    /// The step in words.
    pub open spec fn text(self) -> Seq<char> {
        match self {
            Step::ClassicScanner => "classic base: dispatch scanner not found"@,
            Step::ClassicCdbBase => "classic base: CDB base"@,
            Step::ClassicWriter => "classic base: response writer"@,
            Step::ClassicCommit => "classic base: response commit"@,
            Step::ClassicRecord => "classic base: live 0x3C dispatch record"@,
            Step::ClassicCell => "classic base: free SRAM cell for the flag table"@,
            Step::ClassicHandler => "classic base: assembling the 3C-0E handler"@,
            Step::Handler => "assembling the 3C-0E handler"@,
            Step::ModifyScanner => "nothing modifiable: dispatch scanner signature not found"@,
        }
    }

    /// The step in words.
    pub fn label(self) -> (r: &'static str)
        ensures
            r@ == self.text(),
    {
        match self {
            Step::ClassicScanner => "classic base: dispatch scanner not found",
            Step::ClassicCdbBase => "classic base: CDB base",
            Step::ClassicWriter => "classic base: response writer",
            Step::ClassicCommit => "classic base: response commit",
            Step::ClassicRecord => "classic base: live 0x3C dispatch record",
            Step::ClassicCell => "classic base: free SRAM cell for the flag table",
            Step::ClassicHandler => "classic base: assembling the 3C-0E handler",
            Step::Handler => "assembling the 3C-0E handler",
            Step::ModifyScanner => "nothing modifiable: dispatch scanner signature not found",
        }
    }
}

/// Why a step was refused.
#[derive(Debug, Clone, Copy, PartialEq, Eq, Structural)]
pub enum FwError {
    /// A signature matched `count` times where exactly one match was wanted.
    Matches {
        /// The signature.
        what: Anchor,
        /// How often it matched.
        count: usize,
        /// Where the stretch starts that was searched.
        lo: usize,
        /// Where it ends.
        hi: usize,
    },
    /// Any other refusal.
    Refused(Reason),
    /// A step that is named was refused.
    Within {
        /// The step.
        step: Step,
        /// What stopped it.
        cause: Cause,
    },
    /// Firmware for an MT1939 image could not be built.
    Mt1939Create {
        /// The image is of the classic generation.
        classic: bool,
        /// The step that was refused, when it is named.
        step: Option<Step>,
        /// What stopped it.
        cause: Cause,
    },
}

impl FwError {
    /// What stopped the step.
    pub open spec fn because(self) -> Cause {
        match self {
            FwError::Matches { what, count, lo, hi } => Cause::Matches { what, count, lo, hi },
            FwError::Refused(reason) => Cause::Refused(reason),
            FwError::Within { cause, .. } => cause,
            FwError::Mt1939Create { cause, .. } => cause,
        }
    }

    /// What stopped the step.
    pub fn cause(self) -> (r: Cause)
        ensures
            r == self.because(),
    {
        match self {
            FwError::Matches { what, count, lo, hi } => Cause::Matches { what, count, lo, hi },
            FwError::Refused(reason) => Cause::Refused(reason),
            FwError::Within { cause, .. } => cause,
            FwError::Mt1939Create { cause, .. } => cause,
        }
    }

    /// The step that was refused, when it is named.
    pub open spec fn named(self) -> Option<Step> {
        match self {
            FwError::Within { step, .. } => Some(step),
            FwError::Mt1939Create { step, .. } => step,
            _ => None,
        }
    }

    /// The step that was refused, when it is named.
    pub fn step(self) -> (r: Option<Step>)
        ensures
            r == self.named(),
    {
        match self {
            FwError::Within { step, .. } => Some(step),
            FwError::Mt1939Create { step, .. } => step,
            _ => None,
        }
    }

    /// The refusal as one of `step`.
    pub open spec fn of(self, step: Step) -> FwError {
        FwError::Within { step, cause: self.because() }
    }

    /// The refusal as one of `step`.
    pub fn within(self, step: Step) -> (r: FwError)
        ensures
            r == self.of(step),
    {
        FwError::Within { step, cause: self.cause() }
    }

    /// The refusal as one of building firmware for an MT1939 image.
    pub open spec fn of_mt1939(self, classic: bool) -> FwError {
        FwError::Mt1939Create { classic, step: self.named(), cause: self.because() }
    }

    /// The refusal as one of building firmware for an MT1939 image.
    pub fn within_mt1939(self, classic: bool) -> (r: FwError)
        ensures
            r == self.of_mt1939(classic),
    {
        FwError::Mt1939Create { classic, step: self.step(), cause: self.cause() }
    }

    /// The cause, behind the step when it is named.
    pub open spec fn detail(self) -> Seq<char> {
        match self.named() {
            Some(step) => step.text() + ": "@ + self.because().text(),
            None => self.because().text(),
        }
    }

    /// The cause, behind the step when it is named.
    pub fn details(self) -> (r: String)
        ensures
            r@ == self.detail(),
    {
        let inner: String = self.cause().words();
        match self.step() {
            Some(step) => {
                let mut s: String = started(step.label());
                s.push_str(": ");
                s.push_str(inner.as_str());
                s
            },
            None => inner,
        }
    }

    /// The message shown for this refusal.
    pub open spec fn text(self) -> Seq<char> {
        match self {
            FwError::Mt1939Create { classic, .. } => if classic {
                "MT1939 classic create: "@ + self.detail()
            } else {
                "MT1939 create: "@ + self.detail()
                    + " (base build failed; use `modify` for the downgrade-enable lever)"@
            },
            _ => self.detail(),
        }
    }

    /// The message shown for this refusal.
    pub fn message(self) -> (r: String)
        ensures
            r@ == self.text(),
    {
        let inner: String = self.details();
        match self {
            FwError::Mt1939Create { classic, .. } => {
                let mut s: String = if classic {
                    started("MT1939 classic create: ")
                } else {
                    started("MT1939 create: ")
                };
                s.push_str(inner.as_str());
                if !classic {
                    s.push_str(
                        " (base build failed; use `modify` for the downgrade-enable lever)",
                    );
                }
                s
            },
            _ => inner,
        }
    }
}

} // verus!
