//! Choosing an engine, and what every engine refuses.

use freemkv_fw::engine::base::Layout;
use freemkv_fw::engine::mt1959::Mt1959Engine;
use freemkv_fw::engine::{detect, for_family, Engine};
use freemkv_fw::family::{ChipFamily, ChipInfo};

fn layout() -> Layout {
    Layout {
        covered: vec![],
        live_record_windows: vec![(0x0016_0000, 0x0017_8000)],
        commit_windows: vec![(0x000a_0000, 0x000a_8000)],
    }
}

#[test]
fn for_family_selects_engines() {
    // MT1959 resolves to its full engine.
    let e = for_family(ChipFamily::Mt1959).expect("mt1959 engine");
    assert_eq!(e.name(), "MT1959");
    // MT1939 resolves to its engine; `create`, the strict full build, refuses an image
    // that holds nothing.
    let m = for_family(ChipFamily::Mt1939).expect("mt1939 engine");
    assert_eq!(m.name(), "MT1939");
    assert!(
        m.create(&[0u8; 0x20_0000], &layout()).is_err(),
        "MT1939 full create is pending"
    );
}

#[test]
fn create_refuses_a_non_image() {
    // A buffer that isn't a real MT1959 image has no scanner signature, so the
    // grounded find fails loudly rather than emitting a wrong patch.
    let junk = vec![0u8; 0x20_0000];
    assert!(Mt1959Engine.create(&junk, &layout()).is_err());
}

#[test]
fn detect_goes_by_the_chip_family() {
    for (family, name) in [
        (ChipFamily::Mt1959, "MT1959"),
        (ChipFamily::Mt1939, "MT1939"),
    ] {
        let chip = ChipInfo {
            family,
            vendor: "v".into(),
            model: "m".into(),
            rev: "r".into(),
            vendor_specific: String::new(),
            descriptor_present: true,
        };
        assert_eq!(detect(&chip).expect("an engine").name(), name);
        assert_eq!(family.label(), name);
    }
}
