//! Instruction signatures: `(value, mask)` halfword pairs.
use vstd::prelude::*;

verus! {

/// Prologue of the OEM flash PROGRAM routine; a decoy erase routine shares it.
pub const FLASH_PROGRAM_SIG: [(u16, u16); 7] = [
    (0xB5FF, 0xFFFF), // push {r0,r1,r2,r3,r4,r5,r6,r7,lr}
    (0x000E, 0xFFFF), // movs r6,r1 (dest)
    (0x0015, 0xFFFF), // movs r5,r2 (len)
    (0x001C, 0xFFFF), // movs r4,r3 (op)
    (0x2B04, 0xFFFF), // cmp r3,#4
    (0xB081, 0xFFFF), // sub sp,#4
    (0xD302, 0xFFFF), // bcc <..>
];

/// The main-task prologue that reads the boot-mode word; the hook site is `match+4`.
pub const BOOT_INIT_SIG: [(u16, u16); 7] = [
    (0x4800, 0xFF00), // ldr r0,[pc,#imm] (boot-status base; imm varies - masked)
    (0xB570, 0xFFFF), // push {r4,r5,r6,lr}
    (0x6980, 0xFFFF), // ldr r0,[r0,#0x18]
    (0x0600, 0xFFFF), // lsls r0,r0,#0x18
    (0xD403, 0xFFFF), // bmi <..>
    (0x2100, 0xFFFF), // movs r1,#0
    (0x2000, 0xFFFF), // movs r0,#0
];

/// The classic boot-mode leaf helper; tried only where the modern prologue is absent.
pub const BOOT_INIT_SIG_CLASSIC: [(u16, u16); 5] = [
    (0x4800, 0xFF00), // ldr r0,[pc,#imm] (boot-status base; imm varies - masked)
    (0x38C0, 0xFFFF), // subs r0,#0xc0 (classic discriminator)
    (0x6980, 0xFFFF), // ldr r0,[r0,#0x18]
    (0x0600, 0xFFFF), // lsls r0,r0,#0x18
    (0xD400, 0xFF00), // bmi <..> (displacement varies - masked)
];

/// The read-ramp ceiling gate with its index in `r2`; the compare is at `match+4`.
pub const SPEED_GATE_SIG: [(u16, u16); 4] = [
    (0x4900, 0xFF00), // ldr r1,[pc,#imm] (speed_index SRAM cell literal)
    (0x780A, 0xFFFF), // ldrb r2,[r1] r2 = speed_index
    (0x2A32, 0xFFFF), // cmp r2,#0x32 ramp self-ceiling band
    (0xD800, 0xFF00), // bhi <ramp-exit> stop ramping once past the ceiling
];

/// The read-ramp ceiling gate with its index in `r0`.
pub const SPEED_GATE_SIG_R0: [(u16, u16); 4] = [
    (0x4900, 0xFF00), // ldr r1,[pc,#imm] (speed_index SRAM cell literal)
    (0x7808, 0xFFFF), // ldrb r0,[r1] r0 = speed_index (variant register)
    (0x2832, 0xFFFF), // cmp r0,#0x32 ramp self-ceiling band
    (0xD800, 0xFF00), // bhi <ramp-exit>
];

/// The per-AGID state writers of the handshake; the reset writer is at `match+12`.
pub const AKE_GATE_SIG: [(u16, u16); 8] = [
    (0x7AA8, 0xFFFF), // ldrb r0,[r5,#0xa] AGID byte
    (0x0980, 0xFFFF), // lsrs r0,r0,#6 r0 = AGID
    (0x2106, 0xFFFF), // movs r1,#6 success: state 6 (authenticated)
    (0xE000, 0xF800), // b <set_agid_state>
    (0x7AA8, 0xFFFF), // ldrb r0,[r5,#0xa]
    (0x0980, 0xFFFF), // lsrs r0,r0,#6 r0 = AGID
    (0x2101, 0xFFFF), // movs r1,#1 reset: state 1
    (0xE000, 0xF800), // b <set_agid_state>
];

/// The NB-class handshake writers, which share one call at `match+12`.
pub const AKE_GATE_SIG_NB: [(u16, u16); 6] = [
    (0x7AA0, 0xFFFF), // ldrb r0,[r4,#0xa] AGID byte (r4, not r5)
    (0x0980, 0xFFFF), // lsrs r0,r0,#6 r0 = AGID (accept arm)
    (0x2106, 0xFFFF), // movs r1,#6 accept: state 6
    (0xE000, 0xF800), // b <shared bl @ +12>
    (0x0980, 0xFFFF), // lsrs r0,r0,#6 reject arm (no second ldrb)
    (0x2101, 0xFFFF), // movs r1,#1 reject: state 1 (bare, 2 bytes)
];

/// The NB-class `1.V5` handshake writers, which share one call at `match+14`.
pub const AKE_GATE_SIG_NB_V5: [(u16, u16); 7] = [
    (0x7AA0, 0xFFFF), // ldrb r0,[r4,#0xa] AGID byte (r4) (accept arm)
    (0x0980, 0xFFFF), // lsrs r0,r0,#6 r0 = AGID
    (0x2106, 0xFFFF), // movs r1,#6 accept: state 6
    (0xE000, 0xF800), // b <shared bl @ +14>
    (0x7AA0, 0xFFFF), // ldrb r0,[r4,#0xa] reject arm RE-READS (unlike NB)
    (0x0980, 0xFFFF), // lsrs r0,r0,#6 r0 = AGID
    (0x2101, 0xFFFF), // movs r1,#1 reject: state 1
];

/// The RPC-state emitter tail; the `frame[4]` store is at `match+6`.
pub const REGION_EMIT_SIG: [(u16, u16); 10] = [
    (0x466B, 0xFFFF), // mov r3,sp
    (0x789B, 0xFFFF), // ldrb r3,[r3,#2] s2
    (0x18D2, 0xFFFF), // adds r2,r2,r3
    (0x7202, 0xFFFF), // strb r2,[r0,#8] frame[4] = TypeCode/resets/changes
    (0x466B, 0xFFFF), // mov r3,sp (consumed by the 4-byte bl)
    (0x78DA, 0xFFFF), // ldrb r2,[r3,#3] s3 (RegionMask source, re-read by the stub)
    (0x7202, 0xFFFF), // strb r2,[r0,#8] frame[5] = RegionMask
    (0x7204, 0xFFFF), // strb r4,[r0,#8] frame[6] = RPCScheme (r4==1)
    (0x7201, 0xFFFF), // strb r1,[r0,#8] frame[7] = 0 (reserved)
    (0xBD18, 0xFFFF), // pop {r3,r4,pc} emitter epilogue (replicated by the stub)
];

/// The VID producer's gate; its byte load is at `match+16`.
pub const VID_GATE_SIG: [(u16, u16); 11] = [
    (0x0400, 0xFFFF), // lsls r0,r0,#16
    (0x0C00, 0xFFFF), // lsrs r0,r0,#16
    (0x1808, 0xFFFF), // adds r0,r1,r0
    (0x4900, 0xFF00), // ldr r1,[pc,#imm] (SRAM base-ptr cell)
    (0x0200, 0xFFFF), // lsls r0,r0,#8
    (0x6809, 0xFFFF), // ldr r1,[r1]
    (0x0A00, 0xFFFF), // lsrs r0,r0,#8
    (0x1840, 0xFFFF), // adds r0,r0,r1
    (0x7800, 0xFFFF), // ldrb r0,[r0] (auth-state byte)
    (0x2806, 0xFFFF), // cmp r0,#6
    (0xD100, 0xFF00), // bne <skip>
];

/// The NB-class VID producer gate.
pub const VID_GATE_SIG_NB: [(u16, u16); 11] = [
    (0x1840, 0xFFFF), // adds r0,r0,r1
    (0x6801, 0xFFC7), // ldr r1,[rN] (SRAM base-ptr deref; rN = r5/r6 per build)
    (0x1808, 0xFFFF), // adds r0,r1,r0
    (0x4900, 0xFF00), // ldr r1,[pc,#imm] (SRAM base-ptr cell)
    (0x0200, 0xFFFF), // lsls r0,r0,#8
    (0x6809, 0xFFFF), // ldr r1,[r1]
    (0x0A00, 0xFFFF), // lsrs r0,r0,#8
    (0x1840, 0xFFFF), // adds r0,r0,r1
    (0x7800, 0xFFFF), // ldrb r0,[r0] (auth-state byte)
    (0x2806, 0xFFFF), // cmp r0,#6
    (0xD100, 0xFF00), // bne <skip>
];

/// The JB8 VID producer gate.
pub const VID_GATE_SIG_JB8: [(u16, u16); 11] = [
    (0x6809, 0xFFFF), // ldr r1,[r1] (round-1 SRAM base-ptr deref)
    (0x0C00, 0xFFFF), // lsrs r0,r0,#0x10
    (0x1808, 0xFFFF), // adds r0,r1,r0
    (0x4900, 0xFF00), // ldr r1,[pc,#imm] (round-2 SRAM base-ptr cell)
    (0x0200, 0xFFFF), // lsls r0,r0,#8
    (0x6809, 0xFFFF), // ldr r1,[r1]
    (0x0A00, 0xFFFF), // lsrs r0,r0,#8
    (0x1840, 0xFFFF), // adds r0,r0,r1
    (0x7800, 0xFFFF), // ldrb r0,[r0] (auth-state byte)
    (0x2806, 0xFFFF), // cmp r0,#6
    (0xD100, 0xFF00), // bne <skip>
];

/// The disc-mode dispatcher's prologue.
pub const SETDISCMODE_SIG: [(u16, u16); 6] = [
    (0xB510, 0xFFFF), // push {r4,lr}
    (0x0004, 0xFFFF), // movs r4,r0 (r4 = mode)
    (0x2000, 0xFFFF), // movs r0,#0
    (0xF000, 0xF800), // bl <early-init> hw1
    (0xD000, 0xD000), // bl hw2
    (0x1EE3, 0xFFFF), // subs r3,r4,#3 (mode-3 jump-table index)
];

/// The data-key arm, notebook order; it starts with the key-programming call.
pub const AACS45_ARM_SIG_A: [(u16, u16); 8] = [
    (0xF000, 0xF800), // bl <key-prog> hi
    (0xF800, 0xF800), // lo
    (0x2006, 0xFFFF), // movs r0,#6
    (0x4900, 0xFF00), // ldr r1,[pc,#imm]
    (0x4360, 0xFFFF), // muls r0,r4,r0
    (0x310C, 0xFFFF), // adds r1,#0xc
    (0x5A08, 0xFFFF), // ldrh r0,[r1,r0]
    (0x9009, 0xFFFF), // str r0,[sp,#0x24]
];

/// The data-key arm, desktop order.
pub const AACS45_ARM_SIG_B: [(u16, u16); 7] = [
    (0xF000, 0xF800), // bl <key-prog> hi
    (0xF800, 0xF800), // lo
    (0x2006, 0xFFFF), // movs r0,#6
    (0x4360, 0xFFFF), // muls r0,r4,r0
    (0x4900, 0xFF00), // ldr r1,[pc,#imm]
    (0x5A08, 0xFFFF), // ldrh r0,[r1,r0]
    (0x9009, 0xFFFF), // str r0,[sp,#0x24]
];

/// The byte-extraction disc-version classifier; the reload is at `match+6`.
pub const UHD_CLASSIFIER_SIG: [(u16, u16); 5] = [
    (0xB40F, 0xFFFF), // push {r0,r1,r2,r3}
    (0xB5F0, 0xFFFF), // push {r4,r5,r6,r7,lr}
    (0xB089, 0xFFFF), // sub sp,#0x24
    (0x980E, 0xFFFF), // ldr r0,[sp,#0x38] disc-version reload
    (0x2506, 0xFFFF), // movs r5,#6 (match+8; consumed by the 4-byte detour bl)
];

/// The version-compare disc classifier; the version load is at `match-2`.
pub const UHD_CLASSIFIER_SIG_VER: [(u16, u16); 10] = [
    (0x2863, 0xFFFF), // cmp r0,#0x63
    (0xD900, 0xFF00), // bls <lo-band>
    (0x2202, 0xFFFF), // movs r2,#2 class = UHD/BD (mode-1, the refused bucket)
    (0xE000, 0xF800), // b <join1>
    (0x8808, 0xFFFF), // ldrh r0,[r1] reload for the second compare
    (0x285E, 0xFFFF), // cmp r0,#0x5e
    (0xD900, 0xFF00), // bls <arm-C>
    (0x2201, 0xFFFF), // movs r2,#1
    (0x2173, 0xFFFF), // movs r1,#0x73
    (0x2001, 0xFFFF), // movs r0,#1
];

/// The explicit media accept gate; the mode-0 class check is at `match+16`.
pub const BD_GATE_SIG: [(u16, u16); 11] = [
    (0x2801, 0xFFFF), // cmp r0,#1
    (0xD100, 0xFF00), // bne <mode-not-1>
    (0x79D0, 0xFFFF), // ldrb r0,[r2,#7]
    (0x2803, 0xFFFF), // cmp r0,#3
    (0xD100, 0xFF00), // bne <deny>
    (0x7808, 0xFFFF), // ldrb r0,[r1,#0]
    (0x2800, 0xFFFF), // cmp r0,#0 mode==0 (BD)?
    (0xD100, 0xFF00), // bne <accept>
    (0x79D0, 0xFFFF), // ldrb r0,[r2,#7]
    (0x2802, 0xFFFF), // cmp r0,#2 BD accepts iff class==2
    (0xD000, 0xFF00), // beq <accept>
];

/// The descriptor-classifier media accept gate; the mode test is at `match+6`.
pub const BD_GATE_SIG_VER: [(u16, u16); 9] = [
    (0x780A, 0xFFFF), // ldrb r2,[r1]
    (0x2501, 0xFFFF), // movs r5,#1
    (0x4900, 0xFF00), // ldr r1,[pc,#imm]
    (0x2A00, 0xFFFF), // cmp r2,#0 mode==0 (BD)?
    (0xB080, 0xFF80), // sub sp,#imm (frame reserve; imm masked)
    (0xD102, 0xFFFF), // bne <mode-not-0>
    (0x798A, 0xFFFF), // ldrb r2,[r1,#6] BD-path descriptor gate byte
    (0x2A00, 0xFFFF), // cmp r2,#0
    (0xD000, 0xFF00), // beq <class-check>
];

/// The host-revocation-list lookup routine.
pub const HRL_LOOKUP_SIG: [(u16, u16); 12] = [
    (0xB5F3, 0xFFFF), // push {r0,r1,r4,r5,r6,r7,lr}
    (0xB083, 0xFFFF), // sub sp,#0xc
    (0x9803, 0xFFFF), // ldr r0,[sp,#0xc]
    (0x000C, 0xFFFF), // movs r4,r1
    (0xF000, 0xF800), // bl <count-reader> hi
    (0xF800, 0xF800), // lo
    (0x0007, 0xFFFF), // movs r7,r0
    (0x0020, 0xFFFF), // movs r0,r4
    (0xF000, 0xF800), // bl <..> hi
    (0xF800, 0xF800), // lo
    (0x9002, 0xFFFF), // str r0,[sp,#8]
    (0x1D20, 0xFFFF), // adds r0,r4,#4
];

/// The classic VID producer gate; the compare is at `match+30`.
pub const VID_GATE_SIG_CLASSIC: [(u16, u16); 17] = [
    (0x7AA8, 0xFFFF), // ldrb r0,[r5,#0xa]
    (0x4900, 0xFF00), // ldr r1,[pc,#imm8] (scratch/table base)
    (0x0980, 0xFFFF), // lsrs r0,r0,#6
    (0x1840, 0xFFFF), // adds r0,r0,r1
    (0x4900, 0xFF00), // ldr r1,[pc,#imm8] (auth-state ptr A)
    (0x0400, 0xFFFF), // lsls r0,r0,#16
    (0x6809, 0xFFFF), // ldr r1,[r1]
    (0x0C00, 0xFFFF), // lsrs r0,r0,#16
    (0x1808, 0xFFFF), // adds r0,r1,r0
    (0x4900, 0xFF00), // ldr r1,[pc,#imm8] (auth-state ptr B)
    (0x0200, 0xFFFF), // lsls r0,r0,#8
    (0x6809, 0xFFFF), // ldr r1,[r1]
    (0x0A00, 0xFFFF), // lsrs r0,r0,#8
    (0x1840, 0xFFFF), // adds r0,r0,r1
    (0x7800, 0xFFFF), // ldrb r0,[r0] (gate load, match+28)
    (0x2806, 0xFFFF), // cmp r0,#6 (gate, match+30)
    (0xD100, 0xFF00), // bne <deny> (detour anchor)
];

/// The classic handshake writers; the reject writer is at `match+6`.
pub const AKE_GATE_SIG_CLASSIC: [(u16, u16); 6] = [
    (0x0980, 0xFFFF), // lsrs r0,r0,#6
    (0x2106, 0xFFFF), // movs r1,#6 (accept)
    (0xE000, 0xF800), // b <skip reject>
    (0x0980, 0xFFFF), // lsrs r0,r0,#6 (detour site, match+6)
    (0x2101, 0xFFFF), // movs r1,#1 (reject)
    (0xF000, 0xF800), // bl set_agid_state
];

/// The classic data-key arm.
pub const AACS45_ARM_SIG_CLASSIC: [(u16, u16); 7] = [
    (0xF000, 0xF800), // bl <key-prog> hi
    (0xF800, 0xF800), // lo
    (0x2006, 0xFFFF), // movs r0,#6
    (0x4360, 0xFFFF), // muls r0,r4,r0
    (0x4900, 0xFF00), // ldr r1,[pc,#imm]
    (0x5A08, 0xFFFF), // ldrh r0,[r1,r0]
    (0x9007, 0xFFFF), // str r0,[sp,#0x1c] (classic frame slot - generation marker)
];

/// The classic host-revocation-list lookup routine.
pub const HRL_LOOKUP_SIG_CLASSIC: [(u16, u16); 20] = [
    (0xB5F3, 0xFFFF), // push {r0,r1,r4,r5,r6,r7,lr}
    (0xB083, 0xFFFF), // sub sp,#0xc
    (0x9803, 0xFFFF), // ldr r0,[sp,#0xc]
    (0x000C, 0xFFFF), // movs r4,r1
    (0xF000, 0xF800), // bl <count-reader> hi
    (0xF800, 0xF800), // lo
    (0x0007, 0xFFFF), // movs r7,r0
    (0x0020, 0xFFFF), // movs r0,r4
    (0xF000, 0xF800), // bl <helper> hi
    (0xF800, 0xF800), // lo
    (0x9002, 0xFFFF), // str r0,[sp,#8]
    (0x4900, 0xF800), // ldr r1,[pc,#imm8] (classic divergence: HRL base cell)
    (0x1D20, 0xFFFF), // adds r0,r4,#4
    (0x680A, 0xFFFF), // ldr r2,[r1]
    (0x0200, 0xFFFF), // lsls r0,r0,#8
    (0x0A00, 0xFFFF), // lsrs r0,r0,#8
    (0x1880, 0xFFFF), // adds r0,r0,r2
    (0x7800, 0xFFFF), // ldrb r0,[r0]
    (0x466B, 0xFFFF), // mov r3,sp
    (0x7158, 0xFFFF), // strb r0,[r3,#5]
];

/// The response byte-writer; its first load is the commit offset.
pub const RESPONSE_WRITER_SIG: [(u16, u16); 12] = [
    (0x4A00, 0xFF00),
    (0x1880, 0xFFFF),
    (0x4A00, 0xFF00),
    (0x6812, 0xFFFF),
    (0x1810, 0xFFFF),
    (0x4A00, 0xFF00),
    (0x0200, 0xFFFF),
    (0x6812, 0xFFFF),
    (0x0A00, 0xFFFF),
    (0x1880, 0xFFFF),
    (0x7001, 0xFFFF),
    (0x4770, 0xFFFF),
];

/// The READ DISC STRUCTURE format dispatcher.
pub const DISPATCHER_SIG: [(u16, u16); 4] = [
    (0xB510, 0xFFFF),
    (0x79C1, 0xFFFF),
    (0x297F, 0xFFFF),
    (0xD800, 0xFF00),
];

/// The AGID-reset loop; the inner call is at `match+14`.
pub const SESSION_RESET_SIG: [(u16, u16); 14] = [
    (0x2100, 0xFFFF), // movs r1,#0
    (0x2000, 0xFFFF), // movs r0,#0
    (0x0000, 0x0000), // bl <mailbox> (lo)
    (0x0000, 0x0000), // bl <mailbox> (hi)
    (0x2300, 0xFFFF), // movs r3,#0
    (0x2101, 0xFFFF), // movs r1,#1
    (0x0018, 0xFFFF), // mov r0,r3
    (0x0000, 0x0000), // bl <set_agid_state> (lo)
    (0x0000, 0x0000), // bl <set_agid_state> (hi)
    (0x1C5B, 0xFFFF), // adds r3,#1
    (0x061B, 0xFFFF), // lsls r3,#0x18
    (0x0E1B, 0xFFFF), // lsrs r3,#0x18
    (0x2B02, 0xFFFF), // cmp r3,#2
    (0xD300, 0xFF00), // blo <loop top>
];

/// The AACS deny sense set-up.
pub const DENY_SENSE_SIG: [(u16, u16); 3] = [
    (0x2202, 0xFFFF),
    (0x216F, 0xFFFF),
    (0x2005, 0xFFFF),
];

} // verus!
