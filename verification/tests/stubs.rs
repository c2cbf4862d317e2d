//! What the stubs assemble to, halfword by halfword, literals and data behind the code.

use freemkv_fw::engine::mt1959::Mt1959Engine;

const FLAG_BASE: u32 = 0x0200_120c;

fn halfwords(bytes: &[u8]) -> Vec<u16> {
    assert_eq!(bytes.len() % 2, 0);
    bytes
        .chunks(2)
        .map(|h| u16::from_le_bytes([h[0], h[1]]))
        .collect()
}

#[test]
fn the_ake_stub_assembles_to_its_code() {
    let stub = Mt1959Engine.build_ake_stub(FLAG_BASE, 0x0017_f2de).expect("ake stub");
    let want: Vec<u16> = vec![
        0x4a04, 0x7812, 0x2a00, 0xd001, 0x2101, 0xe000, 0x2106, 0x4a02, 0x4710, 0x0000,
        0x1212, 0x0200, 0xf2df, 0x0017,
    ];
    assert_eq!(halfwords(&stub), want);
}

#[test]
fn the_ake_nb_stub_assembles_to_its_code() {
    let stub = Mt1959Engine.build_ake_stub_nb(FLAG_BASE, 0x0017_f2de).expect("ake_nb stub");
    let want: Vec<u16> = vec![
        0x4a03, 0x7812, 0x2a00, 0xd000, 0xe000, 0x2106, 0x4a01, 0x4710, 0x1212, 0x0200,
        0xf2df, 0x0017,
    ];
    assert_eq!(halfwords(&stub), want);
}

#[test]
fn the_ake_classic_stub_assembles_to_its_code() {
    let stub = Mt1959Engine.build_ake_stub_classic(FLAG_BASE, 0x0017_f2de).expect("ake_classic stub");
    let want: Vec<u16> = vec![
        0x0980, 0x4a04, 0x7812, 0x2a00, 0xd001, 0x2101, 0xe000, 0x2106, 0x4a01, 0x4710,
        0x1212, 0x0200, 0xf2df, 0x0017,
    ];
    assert_eq!(halfwords(&stub), want);
}

#[test]
fn the_gatea_stub_assembles_to_its_code() {
    let stub = Mt1959Engine.build_gatea_stub(FLAG_BASE, 0x0200_0d40, 0x0013_67b4, 0x0013_6800, 0x0013_6b00).expect("gatea stub");
    let want: Vec<u16> = vec![
        0x4a08, 0x7812, 0x2a00, 0xd003, 0x2806, 0xd008, 0x4a06, 0x4710, 0x4a06, 0x7a93,
        0x21c0, 0x438b, 0x7293, 0x4a05, 0x4790, 0x4a05, 0x4710, 0x0000, 0x1212, 0x0200,
        0x6801, 0x0013, 0x0d40, 0x0200, 0x6b01, 0x0013, 0x67b5, 0x0013,
    ];
    assert_eq!(halfwords(&stub), want);
}

#[test]
fn the_deny_reset_stub_assembles_to_its_code() {
    let stub = Mt1959Engine.build_deny_reset_stub(0x0013_6b00).expect("deny_reset stub");
    let want: Vec<u16> = vec![
        0xb510, 0x4a02, 0x4790, 0x2202, 0x216f, 0xbd10, 0x6b01, 0x0013,
    ];
    assert_eq!(halfwords(&stub), want);
}

#[test]
fn the_busenc_stub_assembles_to_its_code() {
    let stub = Mt1959Engine.build_busenc_stub(FLAG_BASE, 0x0014_1000).expect("busenc stub");
    let want: Vec<u16> = vec![
        0xb510, 0x4c06, 0x47a0, 0x4b06, 0x781b, 0x2b00, 0xd105, 0x2101, 0x0689, 0x680a,
        0x2310, 0x439a, 0x600a, 0xbd10, 0x1001, 0x0014, 0x1213, 0x0200,
    ];
    assert_eq!(halfwords(&stub), want);
}

#[test]
fn the_uhd_stub_assembles_to_its_code() {
    let stub = Mt1959Engine.build_uhd_stub(FLAG_BASE).expect("uhd stub");
    let want: Vec<u16> = vec![
        0x980e, 0x2506, 0x4b02, 0x781b, 0x2b01, 0xd100, 0x2000, 0x4770, 0x120f, 0x0200,
    ];
    assert_eq!(halfwords(&stub), want);
}

#[test]
fn the_uhd_ver_stub_assembles_to_its_code() {
    let stub = Mt1959Engine.build_uhd_stub_ver(FLAG_BASE, 0x0013_8100, 0x0013_8200).expect("uhd_ver stub");
    let want: Vec<u16> = vec![
        0x8808, 0x4b06, 0x781b, 0x2b01, 0xd003, 0x2b00, 0xd003, 0x2863, 0x4770, 0x4b03,
        0x4718, 0x4b03, 0x4718, 0x0000, 0x120f, 0x0200, 0x8101, 0x0013, 0x8201, 0x0013,
    ];
    assert_eq!(halfwords(&stub), want);
}

#[test]
fn the_bd_stub_assembles_to_its_code() {
    let stub = Mt1959Engine.build_bd_stub(FLAG_BASE).expect("bd stub");
    let want: Vec<u16> = vec![
        0x79d0, 0x4b04, 0x781b, 0x2b00, 0xd001, 0x2802, 0x4770, 0x28ff, 0x4770, 0x0000,
        0x1210, 0x0200,
    ];
    assert_eq!(halfwords(&stub), want);
}

#[test]
fn the_bd_ver_stub_assembles_to_its_code() {
    let stub = Mt1959Engine.build_bd_stub_ver(FLAG_BASE, 0xb084, 0x0013_9100).expect("bd_ver stub");
    let want: Vec<u16> = vec![
        0xb084, 0xb408, 0x4b05, 0x781b, 0x2b00, 0xd104, 0x2a00, 0xd102, 0xbc08, 0x4b03,
        0x4718, 0xbc08, 0x2a00, 0x4770, 0x1210, 0x0200, 0x9101, 0x0013,
    ];
    assert_eq!(halfwords(&stub), want);
}

#[test]
fn the_hrl_skip_stub_assembles_to_its_code() {
    let stub = Mt1959Engine.build_hrl_skip_stub(FLAG_BASE, 0x0013_a200).expect("hrl_skip stub");
    let want: Vec<u16> = vec![
        0xb408, 0x4b05, 0x781b, 0x2b00, 0xd004, 0x2800, 0xd002, 0xbc08, 0x4b02, 0x4718,
        0xbc08, 0x4770, 0x1211, 0x0200, 0xa201, 0x0013,
    ];
    assert_eq!(halfwords(&stub), want);
}

#[test]
fn the_region_stub_assembles_to_its_code() {
    let mut stub = Mt1959Engine.build_region_stub(FLAG_BASE).expect("region stub");
    assert_eq!(stub.pop(), Some(0x04));
    let want: Vec<u16> = vec![
        0x4b15, 0x781b, 0x2b0f, 0xd00d, 0x2b00, 0xd00f, 0x2b09, 0xd312, 0x2b0a, 0xd301,
        0x2b0d, 0xd315, 0x7202, 0x466b, 0x78da, 0x7202, 0x7204, 0xe016, 0x7201, 0x7201,
        0x7201, 0xe012, 0x7202, 0x22ff, 0x7202, 0x7204, 0xe00d, 0x7202, 0x3b01, 0xa208,
        0x5cd2, 0x7202, 0x7204, 0xe006, 0x7202, 0x3b0a, 0xa206, 0x5cd2, 0x7202, 0x7204,
        0xe7ff, 0x7201, 0xbd18, 0x0000, 0x120e, 0x0200, 0xfdfe, 0xf7fb, 0xdfef, 0x7fbf,
        0x0201,
    ];
    assert_eq!(halfwords(&stub), want);
}

#[test]
fn the_speed_r2_stub_assembles_to_its_code() {
    let stub = Mt1959Engine.build_speed_stub(FLAG_BASE, 0x0001_a008, 0x0001_a040, 2).expect("speed_r2 stub");
    let want: Vec<u16> = vec![
        0xb401, 0x4808, 0x7800, 0x2800, 0xd003, 0x28ff, 0xd003, 0x4282, 0xe002, 0x2aff,
        0xe000, 0x2a32, 0xbc01, 0xd801, 0x4a02, 0x4710, 0x4a02, 0x4710, 0x120d, 0x0200,
        0xa009, 0x0001, 0xa041, 0x0001,
    ];
    assert_eq!(halfwords(&stub), want);
}

#[test]
fn the_speed_r0_stub_assembles_to_its_code() {
    let stub = Mt1959Engine.build_speed_stub(FLAG_BASE, 0x0001_a008, 0x0001_a040, 0).expect("speed_r0 stub");
    let want: Vec<u16> = vec![
        0xb402, 0x4908, 0x7809, 0x2900, 0xd003, 0x29ff, 0xd003, 0x4288, 0xe002, 0x28ff,
        0xe000, 0x2832, 0xbc02, 0xd801, 0x4802, 0x4700, 0x4802, 0x4700, 0x120d, 0x0200,
        0xa009, 0x0001, 0xa041, 0x0001,
    ];
    assert_eq!(halfwords(&stub), want);
}

#[test]
fn the_boot_hook_assembles_to_its_code() {
    let hook = Mt1959Engine
        .build_boot_init(FLAG_BASE, 0x0014_0000, 0x001e_a4b3)
        .expect("boot hook");
    let want: Vec<u16> = vec![
        0xb50f, 0x480f, 0x21ff, 0x7001, 0x7041, 0x7081, 0x70c1, 0x7101, 0x7141, 0x7181,
        0x71c1, 0x4a0b, 0x7811, 0x7001, 0x7851, 0x7041, 0x7891, 0x7081, 0x78d1, 0x70c1,
        0x7911, 0x7101, 0x7951, 0x7141, 0x7991, 0x7181, 0x79d1, 0x71c1, 0xbc0f, 0x4b03,
        0x4798, 0xbd00, 0x120c, 0x0200, 0xa4b3, 0x001e, 0x0001, 0x0014,
    ];
    assert_eq!(halfwords(&hook), want);
}
