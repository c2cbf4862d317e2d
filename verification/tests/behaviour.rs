//! Injected code, run: the assembled bytes on a small model of the processor.

use freemkv_fw::abi::{
    build_call_cdb, build_flashwrite_cdb, build_get_cdb, build_identity_cdb, build_memread_cdb,
    build_poke_cdb, build_reboot_cdb, build_reset_cdb, build_save_cdb, build_set_cdb, Feature,
    RESET_TO_DEFAULTS, RESET_TO_FLASH, RESET_TO_OEM,
};
use freemkv_fw::engine::handler::HandlerFacts;
use freemkv_fw::engine::mt1959::Mt1959Engine;
use std::collections::HashMap;

const CODE: u32 = 0x0015_4000;
const STACK: u32 = 0x0200_8000;
const BACK: u32 = 0x0012_3457;
const FLAGS: u32 = 0x0200_120c;

struct Cpu {
    r: [u32; 15],
    z: bool,
    c: bool,
    mem: HashMap<u32, u8>,
    stores: Vec<(u32, u8)>,
    calls: Vec<(u32, u32, u32)>,
}

impl Cpu {
    /// A processor with `code` in memory and a recognizable value in every register.
    fn with(code: &[u8]) -> Cpu {
        let mut cpu = Cpu {
            r: [0; 15],
            z: false,
            c: false,
            mem: HashMap::new(),
            stores: vec![],
            calls: vec![],
        };
        for k in 0..13u32 {
            cpu.r[k as usize] = 0x5A00_0000 + k;
        }
        cpu.r[13] = STACK;
        cpu.r[14] = BACK;
        for (k, b) in code.iter().enumerate() {
            cpu.mem.insert(CODE + k as u32, *b);
        }
        cpu
    }

    fn byte(&self, a: u32) -> u8 {
        *self.mem.get(&a).unwrap_or(&0)
    }

    fn half(&self, a: u32) -> u32 {
        u32::from(self.byte(a)) | u32::from(self.byte(a + 1)) << 8
    }

    fn word(&self, a: u32) -> u32 {
        self.half(a) | self.half(a + 2) << 16
    }

    fn put(&mut self, a: u32, b: u8) {
        self.mem.insert(a, b);
        self.stores.push((a, b));
    }

    fn put_word(&mut self, a: u32, v: u32) {
        for (k, b) in v.to_le_bytes().iter().enumerate() {
            self.mem.insert(a + k as u32, *b);
        }
    }

    fn set_flags(&mut self, flags: [u8; 8]) {
        for (k, b) in flags.iter().enumerate() {
            self.mem.insert(FLAGS + k as u32, *b);
        }
    }

    fn flags(&self) -> Vec<u8> {
        (0..8).map(|k| self.byte(FLAGS + k)).collect()
    }

    /// Runs until control leaves the code, and says where it went. Routines that are
    /// called do nothing but return.
    fn run(&mut self) -> u32 {
        let mut pc = CODE;
        for _ in 0..10_000 {
            let h = self.half(pc);
            let rd = (h & 7) as usize;
            let rn = (h >> 3 & 7) as usize;
            let rm = (h >> 6 & 7) as usize;
            let r8 = (h >> 8 & 7) as usize;
            let imm = h & 0xFF;
            let d = h >> 6 & 31;
            let mut next = pc + 2;
            match h >> 8 {
                0x00..=0x07 => {
                    self.r[rd] = self.r[rn] << d;
                    self.z = self.r[rd] == 0;
                }
                0x08..=0x0F => {
                    self.r[rd] = self.r[rn] >> d;
                    self.z = self.r[rd] == 0;
                }
                0x18 | 0x19 => {
                    self.r[rd] = self.r[rn].wrapping_add(self.r[rm]);
                    self.z = self.r[rd] == 0;
                }
                0x20..=0x27 => {
                    self.r[r8] = imm;
                    self.z = imm == 0;
                }
                0x28..=0x2F => {
                    self.z = self.r[r8] == imm;
                    self.c = self.r[r8] >= imm;
                }
                0x30..=0x37 => {
                    self.r[r8] = self.r[r8].wrapping_add(imm);
                    self.z = self.r[r8] == 0;
                }
                0x38..=0x3F => {
                    self.c = self.r[r8] >= imm;
                    self.r[r8] = self.r[r8].wrapping_sub(imm);
                    self.z = self.r[r8] == 0;
                }
                0x42 => {
                    assert_eq!(h & 0xC0, 0x80, "cmp rn,rm");
                    self.z = self.r[rd] == self.r[rn];
                    self.c = self.r[rd] >= self.r[rn];
                }
                0x43 => {
                    self.r[rd] = match h & 0xC0 {
                        0x00 => self.r[rd] | self.r[rn],
                        0x80 => self.r[rd] & !self.r[rn],
                        _ => panic!("{h:04x} is not modelled"),
                    };
                    self.z = self.r[rd] == 0;
                }
                0x46 => {
                    let to = rd | (h >> 4 & 8) as usize;
                    self.r[to] = self.r[(h >> 3 & 15) as usize];
                }
                0x47 => {
                    let to = self.r[(h >> 3 & 15) as usize];
                    if h & 0x80 == 0 {
                        return to;
                    }
                    self.calls.push((to, self.r[0], self.r[1]));
                    self.r[14] = next | 1;
                }
                0x48..=0x4F => self.r[r8] = self.word(((pc + 4) & !3) + 4 * imm),
                0x5C | 0x5D => {
                    let a = self.r[rn].wrapping_add(self.r[rm]);
                    self.r[rd] = u32::from(self.byte(a));
                }
                0x60..=0x67 => {
                    let v = self.r[rd];
                    for (k, b) in v.to_le_bytes().iter().enumerate() {
                        self.put(self.r[rn] + 4 * d + k as u32, *b);
                    }
                }
                0x68..=0x6F => self.r[rd] = self.word(self.r[rn] + 4 * d),
                0x70..=0x77 => self.put(self.r[rn] + d, self.r[rd] as u8),
                0x78..=0x7F => self.r[rd] = u32::from(self.byte(self.r[rn] + d)),
                0x80..=0x87 => {
                    let v = self.r[rd];
                    self.put(self.r[rn] + 2 * d, v as u8);
                    self.put(self.r[rn] + 2 * d + 1, (v >> 8) as u8);
                }
                0x88..=0x8F => self.r[rd] = self.half(self.r[rn] + 2 * d),
                0x98..=0x9F => self.r[r8] = self.word(self.r[13] + 4 * imm),
                0xA0..=0xA7 => self.r[r8] = ((pc + 4) & !3) + 4 * imm,
                0xB0 => {
                    assert_eq!(h & 0x80, 0x80, "sub sp");
                    self.r[13] -= 4 * (h & 0x7F);
                }
                0xB4 | 0xB5 => {
                    let mut list: Vec<usize> = (0..8).filter(|k| h >> k & 1 == 1).collect();
                    if h >> 8 & 1 == 1 {
                        list.push(14);
                    }
                    self.r[13] -= 4 * list.len() as u32;
                    for (k, r) in list.iter().enumerate() {
                        self.put_word(self.r[13] + 4 * k as u32, self.r[*r]);
                    }
                }
                0xBC | 0xBD => {
                    for k in (0..8).filter(|k| h >> k & 1 == 1) {
                        self.r[k] = self.word(self.r[13]);
                        self.r[13] += 4;
                    }
                    if h >> 8 & 1 == 1 {
                        let to = self.word(self.r[13]);
                        self.r[13] += 4;
                        return to;
                    }
                }
                0xD0 | 0xD1 | 0xD2 | 0xD3 | 0xD8 => {
                    let taken = match h >> 8 {
                        0xD0 => self.z,
                        0xD1 => !self.z,
                        0xD2 => self.c,
                        0xD3 => !self.c,
                        _ => self.c && !self.z,
                    };
                    if taken {
                        next = (pc + 4).wrapping_add((imm as u8 as i8 as i32 * 2) as u32);
                    }
                }
                0xE0..=0xE7 => {
                    let off = ((h & 0x7FF) << 21) as i32 >> 20;
                    next = (pc + 4).wrapping_add(off as u32);
                }
                _ => panic!("{h:04x} is not modelled"),
            }
            pc = next;
        }
        panic!("the code does not leave off");
    }
}

/// Every register but those of `but` has the value that it began with.
fn kept(cpu: &Cpu, but: &[usize]) {
    for k in 0..13usize {
        if !but.contains(&k) {
            assert_eq!(cpu.r[k], 0x5A00_0000 + k as u32, "r{k}");
        }
    }
}

fn flag(feature: Feature) -> u32 {
    FLAGS + u32::from(feature.code())
}

const STATES: [u8; 4] = [0x00, 0x01, 0x32, 0xFF];

#[test]
fn the_handshake_stubs_choose_the_state() {
    for state in STATES {
        let mut cpu = Cpu::with(&Mt1959Engine.build_ake_stub(FLAGS, 0x0017_f2de).unwrap());
        cpu.mem.insert(flag(Feature::Encryption), state);
        assert_eq!(cpu.run(), 0x0017_f2df);
        assert_eq!(cpu.r[1], if state == 0 { 6 } else { 1 });
        kept(&cpu, &[1, 2]);
        assert!(cpu.stores.is_empty());

        let mut cpu = Cpu::with(&Mt1959Engine.build_ake_stub_nb(FLAGS, 0x0017_f2de).unwrap());
        cpu.mem.insert(flag(Feature::Encryption), state);
        assert_eq!(cpu.run(), 0x0017_f2df);
        assert_eq!(cpu.r[1], if state == 0 { 6 } else { 0x5A00_0001 });
        kept(&cpu, &[1, 2]);

        let mut cpu = Cpu::with(&Mt1959Engine.build_ake_stub_classic(FLAGS, 0x0017_f2de).unwrap());
        cpu.mem.insert(flag(Feature::Encryption), state);
        assert_eq!(cpu.run(), 0x0017_f2df);
        assert_eq!(cpu.r[0], 0x5A00_0000 >> 6);
        assert_eq!(cpu.r[1], if state == 0 { 6 } else { 1 });
        kept(&cpu, &[0, 1, 2]);
    }
}

#[test]
fn the_volume_id_stub_decides_as_the_compare_did_until_the_handshake_is_off() {
    let build = || {
        Mt1959Engine
            .build_gatea_stub(FLAGS, 0x0200_0d40, 0x0013_67b4, 0x0013_6800, 0x0013_6b00)
            .unwrap()
    };
    for state in [0x01, 0xFF] {
        for class in [6, 5] {
            let mut cpu = Cpu::with(&build());
            cpu.mem.insert(flag(Feature::Encryption), state);
            cpu.r[0] = class;
            let at = cpu.run();
            assert_eq!(at, if class == 6 { 0x0013_67b5 } else { 0x0013_6801 });
            kept(&cpu, &[0, 2]);
            assert_eq!(cpu.r[0], class);
            assert!(cpu.stores.is_empty() && cpu.calls.is_empty());
        }
    }
    let mut cpu = Cpu::with(&build());
    cpu.mem.insert(flag(Feature::Encryption), 0);
    cpu.mem.insert(0x0200_0d4a, 0xE5);
    assert_eq!(cpu.run(), 0x0013_67b5);
    assert_eq!(cpu.stores, vec![(0x0200_0d4a, 0x25)]);
    assert_eq!(cpu.calls.len(), 1);
    assert_eq!(cpu.calls[0].0, 0x0013_6b01);
}

#[test]
fn the_deny_stub_idles_the_engine_and_replays_the_sense() {
    let mut cpu = Cpu::with(&Mt1959Engine.build_deny_reset_stub(0x0013_6b00).unwrap());
    assert_eq!(cpu.run(), BACK);
    assert_eq!((cpu.r[2], cpu.r[1]), (2, 0x6F));
    assert_eq!(cpu.calls[0].0, 0x0013_6b01);
    assert_eq!(cpu.r[13], STACK);
    kept(&cpu, &[1, 2]);
}

#[test]
fn the_data_key_stub_clears_the_bus_encryption_bit_when_it_is_off() {
    for (state, after) in [(0x00, 0xFFFF_FFEF), (0x01, 0xFFFF_FFFF), (0xFF, 0xFFFF_FFFF)] {
        let mut cpu = Cpu::with(&Mt1959Engine.build_busenc_stub(FLAGS, 0x0014_1000).unwrap());
        cpu.mem.insert(FLAGS + 7, state);
        cpu.put_word(0x0400_0000, 0xFFFF_FFFF);
        assert_eq!(cpu.run(), BACK);
        assert_eq!(cpu.calls[0].0, 0x0014_1001);
        assert_eq!(cpu.word(0x0400_0000), after);
        assert_eq!(cpu.r[13], STACK);
        kept(&cpu, &[1, 2, 3]);
    }
}

#[test]
fn the_uhd_stubs_choose_the_version() {
    for state in STATES {
        let mut cpu = Cpu::with(&Mt1959Engine.build_uhd_stub(FLAGS).unwrap());
        cpu.mem.insert(flag(Feature::Uhd), state);
        cpu.put_word(STACK + 0x38, 0x1234_5678);
        assert_eq!(cpu.run(), BACK);
        assert_eq!(cpu.r[0], if state == 1 { 0 } else { 0x1234_5678 });
        assert_eq!(cpu.r[5], 6);
        kept(&cpu, &[0, 3, 5]);

        for version in [0x0062u32, 0x0063, 0x0164] {
            let stub = Mt1959Engine
                .build_uhd_stub_ver(FLAGS, 0x0013_8100, 0x0013_8200)
                .unwrap();
            let mut cpu = Cpu::with(&stub);
            cpu.mem.insert(flag(Feature::Uhd), state);
            cpu.r[1] = 0x0200_2000;
            cpu.put_word(0x0200_2000, version);
            let at = cpu.run();
            assert_eq!(cpu.r[0], version);
            match state {
                1 => assert_eq!(at, 0x0013_8101),
                0 => assert_eq!(at, 0x0013_8201),
                _ => {
                    assert_eq!(at, BACK);
                    assert_eq!(cpu.z, version == 0x63);
                    assert_eq!(cpu.c, version >= 0x63);
                }
            }
            kept(&cpu, &[0, 1, 3]);
        }
    }
}

#[test]
fn the_bd_stubs_refuse_a_disc_when_bd_is_off() {
    for state in STATES {
        for class in [0u8, 1, 2, 3] {
            let mut cpu = Cpu::with(&Mt1959Engine.build_bd_stub(FLAGS).unwrap());
            cpu.mem.insert(flag(Feature::Bd), state);
            cpu.r[2] = 0x0200_2000;
            cpu.mem.insert(0x0200_2007, class);
            assert_eq!(cpu.run(), BACK);
            assert_eq!(cpu.r[0], u32::from(class));
            assert_eq!(cpu.z, class == 2 && state != 0);
            kept(&cpu, &[0, 2, 3]);
        }
        for mode in [0u32, 1] {
            let stub = Mt1959Engine
                .build_bd_stub_ver(FLAGS, 0xB084, 0x0013_9100)
                .unwrap();
            let mut cpu = Cpu::with(&stub);
            cpu.mem.insert(flag(Feature::Bd), state);
            cpu.r[2] = mode;
            let at = cpu.run();
            let refused = state == 0 && mode == 0;
            assert_eq!(at, if refused { 0x0013_9101 } else { BACK });
            assert_eq!(cpu.r[13], STACK - 16, "the frame of the code it stands in for");
            if !refused {
                assert_eq!(cpu.z, mode == 0);
                kept(&cpu, &[2]);
            }
        }
    }
}

#[test]
fn the_revocation_stub_passes_a_clean_disc_and_any_disc_when_it_is_off() {
    for state in STATES {
        for found in [0u32, 1] {
            let stub = Mt1959Engine.build_hrl_skip_stub(FLAGS, 0x0013_a200).unwrap();
            let mut cpu = Cpu::with(&stub);
            cpu.mem.insert(flag(Feature::Hrl), state);
            cpu.r[0] = found;
            let clean = state == 0 || found == 0;
            assert_eq!(cpu.run(), if clean { BACK } else { 0x0013_a201 });
            assert_eq!(cpu.r[13], STACK);
            kept(&cpu, if clean { &[0] } else { &[0, 3] });
        }
    }
}

/// The last four bytes of the RPC-state frame under a region flag.
fn rpc_tail(state: u8) -> Vec<u8> {
    let mut cpu = Cpu::with(&Mt1959Engine.build_region_stub(FLAGS).unwrap());
    cpu.mem.insert(flag(Feature::Region), state);
    cpu.r[0] = 0x0400_1000;
    cpu.r[1] = 0x01;
    cpu.r[2] = 0x22;
    cpu.r[4] = 0x44;
    cpu.put_word(STACK, 0x7A00_0000);
    cpu.put_word(STACK + 4, 0x0BAD_CAFE);
    cpu.put_word(STACK + 8, 0x0011_9901);
    assert_eq!(cpu.run(), 0x0011_9901);
    assert_eq!(cpu.r[13], STACK + 12);
    assert_eq!((cpu.r[3], cpu.r[4]), (0x7A00_0000, 0x0BAD_CAFE));
    assert!(cpu.stores.iter().all(|s| s.0 == 0x0400_1008));
    cpu.stores.iter().map(|s| s.1).collect()
}

#[test]
fn the_region_stub_writes_the_mask_of_the_forced_region() {
    assert_eq!(rpc_tail(0xFF), [0x22, 0x7A, 0x44, 0x01], "as the drive has it");
    assert_eq!(rpc_tail(0x0F), [0x01, 0x01, 0x01, 0x01], "free");
    assert_eq!(rpc_tail(0x00), [0x22, 0xFF, 0x44, 0x01], "locked");
    for n in 1..=8u8 {
        let mask = !(1u8 << (n - 1));
        assert_eq!(rpc_tail(n), [0x22, mask, 0x44, 0x01], "DVD region {n}");
    }
    for (state, mask) in [(0x0A, 0x01), (0x0B, 0x02), (0x0C, 0x04)] {
        assert_eq!(rpc_tail(state), [0x22, mask, 0x44, 0x01], "BD region");
    }
    for state in [0x09, 0x0D, 0x0E, 0x10] {
        assert_eq!(rpc_tail(state), [0x22, 0x7A, 0x44, 0x01], "no region");
    }
}

#[test]
fn the_speed_stubs_stop_the_ramp_above_the_ceiling() {
    for (register, scratch) in [(2usize, 0usize), (0, 1)] {
        for (state, index, on) in [
            (0xFFu8, 0x32u32, true),
            (0xFF, 0x33, false),
            (0x00, 0xFF, true),
            (0x10, 0x10, true),
            (0x10, 0x11, false),
        ] {
            let stub = Mt1959Engine
                .build_speed_stub(FLAGS, 0x0001_a008, 0x0001_a040, register as u8)
                .unwrap();
            let mut cpu = Cpu::with(&stub);
            cpu.mem.insert(flag(Feature::Speed), state);
            cpu.r[register] = index;
            assert_eq!(cpu.run(), if on { 0x0001_a009 } else { 0x0001_a041 });
            assert_eq!(cpu.r[13], STACK);
            assert_eq!(cpu.r[scratch], 0x5A00_0000 + scratch as u32);
        }
    }
}

#[test]
fn the_boot_hook_lays_the_saved_flags_down_before_the_init_routine() {
    let hook = Mt1959Engine
        .build_boot_init(FLAGS, 0x0014_0000, 0x001e_a4b3)
        .unwrap();
    let mut cpu = Cpu::with(&hook);
    let saved = [0xFF, 0x00, 0x0A, 0x01, 0xFF, 0x00, 0x00, 0xFF];
    for (k, b) in saved.iter().enumerate() {
        cpu.mem.insert(0x001e_a4b3 + k as u32, *b);
    }
    assert_eq!(cpu.run(), BACK);
    assert_eq!(cpu.flags(), saved);
    assert_eq!(cpu.calls, vec![(0x0014_0001, 0x5A00_0000, 0x5A00_0001)]);
    assert_eq!(cpu.r[13], STACK);
    kept(&cpu, &[3]);
}

// --- the handler -----------------------------------------------------------

const CDB: u32 = 0x0200_0d38;
const WRITER: u32 = 0x0009_8000;
const COMMIT: u32 = 0x000a_1000;
const LENGTH: u32 = 0x0200_0f10;
const SAVED: u32 = 0x001e_a4b3;

fn handler_facts(boot_entry: u32) -> HandlerFacts {
    HandlerFacts {
        cdb: CDB,
        oem_handler: 0x0009_ad5a,
        writer: WRITER,
        commit_off: 0x1234,
        commit: COMMIT,
        length_field: LENGTH,
        flash_program: 0x000b_4000,
        save_home: SAVED,
        nv_ptr: 0x0200_0a00,
        flag_base: FLAGS,
        boot_entry,
    }
}

/// Runs the handler on a command and gives back the processor and where it went.
fn command(boot_entry: u32, cdb: &[u8], flags: [u8; 8]) -> (Cpu, u32) {
    let code = Mt1959Engine
        .assemble_handler(&handler_facts(boot_entry))
        .expect("handler");
    let mut cpu = Cpu::with(&code);
    cpu.set_flags(flags);
    for (k, b) in cdb.iter().enumerate() {
        cpu.mem.insert(CDB + k as u32, *b);
    }
    for k in 0..8u32 {
        cpu.mem.insert(SAVED + k, 0x30 + k as u8);
    }
    let at = cpu.run();
    (cpu, at)
}

/// The reply that a served command leaves: what is written over the cleared window.
fn reply(cpu: &Cpu) -> Vec<(u32, u32)> {
    let writes: Vec<(u32, u32)> = cpu
        .calls
        .iter()
        .filter(|c| c.0 == WRITER | 1)
        .map(|c| (c.1, c.2))
        .collect();
    assert!(writes.len() >= 64);
    for (k, w) in writes[..64].iter().enumerate() {
        assert_eq!(*w, (k as u32, 0), "the window is cleared first");
    }
    writes[64..].to_vec()
}

/// The command was served: the reply is committed and the caller's registers are back.
fn served(cpu: &Cpu, at: u32) {
    assert_eq!(at, BACK);
    assert_eq!(cpu.r[13], STACK);
    for k in 4..8usize {
        assert_eq!(cpu.r[k], 0x5A00_0000 + k as u32);
    }
    assert_eq!(cpu.calls.last(), Some(&(COMMIT | 1, 0x1234, LENGTH)));
    assert_eq!((cpu.byte(LENGTH), cpu.byte(LENGTH + 1)), (64, 0));
}

const LIVE: [u8; 8] = [0xFF, 0x00, 0x0F, 0x01, 0xFF, 0x00, 0x32, 0xFF];

#[test]
fn a_foreign_command_goes_to_the_oem_handler_untouched() {
    let mut frames = vec![
        vec![0x3C, 0x02, 0xC0, 0xDE, 0x02, 0x01, 0x00, 0, 64, 0],
        vec![0x3C, 0x0E, 0xC0, 0xDD, 0x02, 0x01, 0x00, 0, 64, 0],
        vec![0x3C, 0x0E, 0xDE, 0xDE, 0x02, 0x01, 0x00, 0, 64, 0],
        vec![0x3C, 0x0E, 0x00, 0x00, 0x02, 0x01, 0x00, 0, 64, 0],
    ];
    frames.push(vec![0x3C, 0x0E, 0xB9, 0xDE, 0x01, 0, 0, 0, 64, 0]);
    for frame in frames {
        for boot_entry in [0, 0x0013_d406] {
            let (cpu, at) = command(boot_entry, &frame, LIVE);
            assert_eq!(at, 0x0009_ad5b, "{frame:02x?}");
            assert!(cpu.stores.is_empty() && cpu.calls.is_empty());
            assert_eq!(cpu.r[13], STACK);
            kept(&cpu, &[0, 3]);
        }
    }
}

#[test]
fn get_gives_back_what_set_stored() {
    for boot_entry in [0, 0x0013_d406] {
        for (feature, state) in [
            (Feature::Speed, 0x10),
            (Feature::Region, 0x0B),
            (Feature::Encryption, 0x00),
        ] {
            let (cpu, at) = command(boot_entry, &build_set_cdb(feature, state), LIVE);
            served(&cpu, at);
            assert!(reply(&cpu).is_empty(), "SET replies with zeros");
            let mut want = LIVE;
            want[usize::from(feature.code())] = state;
            assert_eq!(cpu.flags(), want);

            let (cpu, at) = command(boot_entry, &build_get_cdb(feature), want);
            served(&cpu, at);
            assert_eq!(reply(&cpu), vec![(0, u32::from(state))]);
            assert_eq!(cpu.flags(), want);
        }
    }
}

#[test]
fn a_feature_beyond_the_table_is_neither_stored_nor_read() {
    for verb in [0x02, 0x03] {
        let frame = [0x3C, 0x0E, 0xC0, 0xDE, verb, 0x08, 0x77, 0, 64, 0];
        let (cpu, at) = command(0, &frame, LIVE);
        served(&cpu, at);
        assert!(reply(&cpu).is_empty());
        assert_eq!(cpu.flags(), LIVE);
        assert_eq!(cpu.byte(FLAGS + 8), 0);
    }
}

#[test]
fn reset_refills_the_table() {
    let (cpu, at) = command(0, &build_reset_cdb(RESET_TO_OEM), LIVE);
    served(&cpu, at);
    assert_eq!(cpu.flags(), [0xFF; 8]);
    let (cpu, at) = command(0, &build_reset_cdb(RESET_TO_FLASH), LIVE);
    served(&cpu, at);
    assert_eq!(cpu.flags(), [0x30, 0x31, 0x32, 0x33, 0x34, 0x35, 0x36, 0x37]);
    assert!(reply(&cpu).is_empty());
}

#[test]
fn reset_to_defaults_turns_the_media_features_on_and_leaves_flash_alone() {
    let (cpu, at) = command(0, &build_reset_cdb(RESET_TO_DEFAULTS), LIVE);
    served(&cpu, at);
    assert_eq!(
        cpu.flags(),
        [0xFF, 0xFF, 0xFF, 0x01, 0x01, 0xFF, 0xFF, 0xFF]
    );
    assert!(cpu.calls.iter().all(|c| c.0 != 0x000b_4001));
    assert!(reply(&cpu).is_empty());
}

#[test]
fn reset_to_oem_blanks_the_saved_flags_too() {
    let mut memory = vec![];
    for (a, v) in [(0x0200_0a00u32, 0x0060_0000u32), (0x0200_0a04, 0x0000_4000)] {
        for (k, b) in v.to_le_bytes().iter().enumerate() {
            memory.push((a + k as u32, *b));
        }
    }
    let (cpu, at) = command_with(0, &build_reset_cdb(RESET_TO_OEM), &memory);
    served(&cpu, at);
    assert_eq!(cpu.flags(), [0xFF; 8]);
    let staged: Vec<u8> = (0..8).map(|k| cpu.byte(0x0060_4000 + k)).collect();
    assert_eq!(staged, [0xFF; 8]);
    let program: Vec<&(u32, u32, u32)> = cpu
        .calls
        .iter()
        .filter(|c| c.0 == 0x000b_4001)
        .collect();
    assert_eq!(program, vec![&(0x000b_4001, 0x4000, SAVED)]);
}

#[test]
fn identity_replies_with_the_text_and_the_flags() {
    let (cpu, at) = command(0, &build_identity_cdb(96), LIVE);
    served(&cpu, at);
    let bytes: Vec<u8> = reply(&cpu).iter().map(|w| w.1 as u8).collect();
    let places: Vec<u32> = reply(&cpu).iter().map(|w| w.0).collect();
    assert_eq!(&bytes[..13], b"freemkv 0.1.0");
    assert_eq!(&bytes[13..], &LIVE[1..]);
    assert_eq!(places, (0..20).collect::<Vec<u32>>());
    assert!(freemkv_fw::abi::verify_response(&bytes));
}

#[test]
fn flashwrite_outside_its_window_is_refused() {
    for off in [0u32, 0x001e_9fff, 0x001e_b000, 0xFFFF_FFFF] {
        let (cpu, at) = command(0, &build_flashwrite_cdb(off, 0x5A), LIVE);
        served(&cpu, at);
        let bytes: Vec<u8> = reply(&cpu).iter().map(|w| w.1 as u8).collect();
        assert_eq!(&bytes[..4], &off.to_be_bytes());
        assert_eq!(&bytes[4..], b"REFU");
        assert!(cpu.calls.iter().all(|c| c.0 != 0x000b_4001));
        assert_eq!(cpu.flags(), LIVE);
    }
    let (cpu, at) = command(0, &build_flashwrite_cdb(0x001e_a004, 0x5A), LIVE);
    served(&cpu, at);
    let program: Vec<&(u32, u32, u32)> = cpu
        .calls
        .iter()
        .filter(|c| c.0 == 0x000b_4001)
        .collect();
    assert_eq!(program, vec![&(0x000b_4001, FLAGS + 0x10, 0x001e_a004)]);
    assert_eq!(cpu.byte(FLAGS + 0x10), 0x5A, "the byte is staged beside the table");
}

#[test]
fn an_unknown_verb_is_answered_with_zeros() {
    for verb in [0x00, 0x05, 0x0C, 0x0F, 0xFF] {
        let frame = [0x3C, 0x0E, 0xC0, 0xDE, verb, 0x01, 0x00, 0, 64, 0];
        let (cpu, at) = command(0x0013_d406, &frame, LIVE);
        served(&cpu, at);
        assert!(reply(&cpu).is_empty());
        assert_eq!(cpu.flags(), LIVE);
        assert_eq!(cpu.calls.len(), 65);
    }
}

/// Runs the handler with further memory.
fn command_with(boot_entry: u32, cdb: &[u8], memory: &[(u32, u8)]) -> (Cpu, u32) {
    let code = Mt1959Engine
        .assemble_handler(&handler_facts(boot_entry))
        .expect("handler");
    let mut cpu = Cpu::with(&code);
    cpu.set_flags(LIVE);
    for (k, b) in cdb.iter().enumerate() {
        cpu.mem.insert(CDB + k as u32, *b);
    }
    for (a, b) in memory {
        cpu.mem.insert(*a, *b);
    }
    let at = cpu.run();
    (cpu, at)
}

#[test]
fn save_stages_the_flags_and_has_them_programmed() {
    let mut memory = vec![];
    for (a, v) in [(0x0200_0a00u32, 0x0060_0000u32), (0x0200_0a04, 0x0000_4000)] {
        for (k, b) in v.to_le_bytes().iter().enumerate() {
            memory.push((a + k as u32, *b));
        }
    }
    let (cpu, at) = command_with(0, &build_save_cdb(), &memory);
    served(&cpu, at);
    let staged: Vec<u8> = (0..8).map(|k| cpu.byte(0x0060_4000 + k)).collect();
    assert_eq!(staged, LIVE);
    let program: Vec<&(u32, u32, u32)> = cpu
        .calls
        .iter()
        .filter(|c| c.0 == 0x000b_4001)
        .collect();
    assert_eq!(program, vec![&(0x000b_4001, 0x4000, SAVED)]);
    let bytes: Vec<u8> = reply(&cpu).iter().map(|w| w.1 as u8).collect();
    assert_eq!(bytes, [0x00, 0x00, 0x40, 0x00], "the status is handed on");
    assert_eq!(cpu.flags(), LIVE);
}

#[test]
fn a_dump_replies_with_memory() {
    let memory: Vec<(u32, u8)> = (0..70).map(|k| (0x0030_0000 + k, 3 * k as u8)).collect();
    let (cpu, at) = command_with(0, &build_memread_cdb(0x0030_0000), &memory);
    served(&cpu, at);
    let want: Vec<(u32, u32)> = (0..64).map(|k| (k, 3 * k)).collect();
    assert_eq!(reply(&cpu), want);
}

#[test]
fn the_debug_verbs_call_store_and_reboot() {
    let (cpu, at) = command_with(0, &build_call_cdb(0x0012_0000, 0x2A), &[]);
    served(&cpu, at);
    assert_eq!(cpu.calls[0], (0x0012_0001, 0x2A, 1));
    assert!(reply(&cpu).is_empty());

    let (cpu, at) = command_with(0, &build_poke_cdb(0x0200_4444, 0x5B), &[]);
    served(&cpu, at);
    assert_eq!(cpu.byte(0x0200_4444), 0x5B);
    assert!(reply(&cpu).is_empty());

    let (cpu, at) = command_with(0x0013_d406, &build_reboot_cdb(), &[]);
    served(&cpu, at);
    assert_eq!(cpu.calls[0], (0x0013_d407, 4, 0x5A00_0001));

    let (cpu, at) = command_with(0, &build_reboot_cdb(), &[]);
    served(&cpu, at);
    assert_eq!(cpu.calls.len(), 65, "there is nothing to re-enter");
}

#[test]
fn the_debug_knock_serves_no_durable_verb() {
    for verb in [0x01, 0x02, 0x03, 0x04, 0x09, 0x0A, 0x0B] {
        let frame = [0x3C, 0x0E, 0xDE, 0xB9, verb, 0x01, 0x77, 0, 64, 0];
        let (cpu, at) = command_with(0x0013_d406, &frame, &[]);
        served(&cpu, at);
        assert!(reply(&cpu).is_empty());
        assert_eq!(cpu.flags(), LIVE);
        assert_eq!(cpu.calls.len(), 65);
    }
}
