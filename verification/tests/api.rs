//! What verifying, signing, building and probing decide.

use freemkv_fw::abi::{verify_response, RESP_MAGIC};
use freemkv_fw::api::{
    build, probe_cdb, probe_outcome, sign, verify, RegionChange, RegionVerdict, PROBE_LEN,
};
use freemkv_fw::engine::base::Layout;
use freemkv_fw::family::{ChipFamily, ChipInfo};

/// The verdict on the one active region of an image.
fn verdict(ok: bool) -> RegionVerdict {
    RegionVerdict {
        start: 0x1000,
        end: 0x1FFF,
        ok,
    }
}

#[test]
fn verify_reports_ok_only_when_every_active_region_matches() {
    let outcome = verify("MTK AES-CMAC", vec![verdict(true)]);
    assert_eq!(outcome.verdicts.len(), 1);
    assert!(
        outcome.ok,
        "an image whose single active region matches must report ok — a \
         wrapper that never says ok makes `verify` useless as a gate"
    );

    let outcome = verify("MTK AES-CMAC", vec![verdict(false)]);
    assert!(
        !outcome.ok,
        "a mismatching digest must report NOT ok — a GUI gates a flash on this \
         boolean, and a false ok writes a corrupt image to real hardware"
    );

    let outcome = verify("MTK AES-CMAC", vec![verdict(true), verdict(false)]);
    assert!(!outcome.ok, "one matching region does not excuse another");
    assert_eq!(outcome.scheme, "MTK AES-CMAC");
}

#[test]
fn verify_reports_not_ok_when_the_image_has_no_active_regions() {
    // `all()` over an empty verdict list is vacuously true, so the non-empty
    // check is the only thing standing between "nothing was checked" and
    // "everything passed".
    let outcome = verify("MTK AES-CMAC", vec![]);
    assert!(
        outcome.verdicts.is_empty(),
        "an all-inactive table yields no verdicts"
    );
    assert!(
        !outcome.ok,
        "zero active regions must NOT report ok — an empty verdict list proves \
         nothing about the image and must never pass as a clean verify"
    );
}

#[test]
fn sign_returns_a_self_verifying_image_for_a_normal_image() {
    let signed = vec![0x5Au8; 0x20000];
    let change = RegionChange {
        start: 0x1000,
        end: 0x1FFF,
    };
    let outcome = sign(
        "MTK AES-CMAC",
        signed.clone(),
        vec![change],
        &vec![verdict(true)],
    )
    .expect("re-signing a recognizable image must succeed");
    assert_eq!(
        outcome.changes.len(),
        1,
        "exactly the one active region's digest changed"
    );
    assert_eq!(outcome.image, signed, "the signed bytes are handed on");
    assert!(
        verify(outcome.scheme, vec![verdict(true)]).ok,
        "the returned bytes must self-verify — that guarantee is the whole \
         contract of `sign`"
    );

    let err = sign("MTK AES-CMAC", signed, vec![change], &vec![verdict(false)])
        .expect_err("a signed image that does not verify is not handed out");
    assert_eq!(
        err.message(),
        "internal error: re-signed image does not self-verify"
    );
}

#[test]
fn sign_refuses_an_image_with_no_active_regions() {
    assert!(
        sign("MTK AES-CMAC", vec![0u8; 0x20000], vec![], &vec![]).is_err(),
        "re-signing must refuse when the produced image has zero active \
         regions: there is no digest standing behind those bytes, so handing \
         them back as 'signed' is a lie the caller cannot detect"
    );
}

#[test]
fn create_refuses_an_image_no_engine_recognizes() {
    let mut img = vec![0u8; 0x20000];
    for (i, b) in img.iter_mut().enumerate() {
        *b = (i * 7 + 3) as u8;
    }
    let layout = Layout {
        covered: vec![],
        live_record_windows: vec![(0x0016_0000, 0x0017_8000)],
        commit_windows: vec![(0x000a_0000, 0x000a_8000)],
    };
    for family in [ChipFamily::Mt1959, ChipFamily::Mt1939] {
        let chip = ChipInfo {
            family,
            vendor: String::new(),
            model: String::new(),
            rev: String::new(),
            vendor_specific: String::new(),
            descriptor_present: false,
        };
        assert!(
            build(&img, &layout, &chip).is_err(),
            "a synthetic CMAC-only buffer is not a real firmware image; create must \
             refuse it rather than emit something unflashable"
        );
    }
}

#[test]
fn a_probe_sends_the_identity_knock_and_reads_the_version_behind_the_magic() {
    assert_eq!(PROBE_LEN, 96);
    assert_eq!(
        probe_cdb(),
        [0x3C, 0x0E, 0xC0, 0xDE, 0x01, 0x00, 0x00, 0x00, 0x60, 0x00]
    );

    let mut reply = RESP_MAGIC.to_vec();
    let bare = probe_outcome(Some(&reply));
    assert!(bare.detected);
    assert_eq!(bare.detail, "DETECTED");

    reply.push(0x2A);
    assert!(verify_response(&reply));
    let versioned = probe_outcome(Some(&reply));
    assert!(versioned.detected);
    assert_eq!(versioned.detail, "DETECTED (version 0x2a)");

    for other in [None, Some(&b"HL-DT-ST"[..]), Some(&[][..])] {
        let stock = probe_outcome(other);
        assert!(!stock.detected);
        assert_eq!(stock.detail, "NOT DETECTED (stock/OEM or other firmware)");
    }
}
