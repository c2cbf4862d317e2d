//! Tallies of builds over many images.

use freemkv_fw::engine::boot::BootInitSite;
use freemkv_fw::error::{Anchor, FwError, Reason};
use freemkv_fw::survey::{BuildOutcome, FamilyRow, Survey};

fn seen(built: bool, verified: bool, boot: Result<Option<BootInitSite>, FwError>) -> Survey {
    Survey {
        flash_program: built,
        boot,
        built,
        verified,
    }
}

#[test]
fn a_build_that_does_not_verify_is_no_success() {
    let modern = Ok(Some(BootInitSite::Modern(0x1000)));
    let classic = Ok(Some(BootInitSite::ClassicUnconfirmed(0x1000)));
    assert_eq!(seen(true, true, modern).outcome(), BuildOutcome::Built);
    assert_eq!(seen(true, false, modern).outcome(), BuildOutcome::Errored);
    assert_eq!(seen(true, false, classic).outcome(), BuildOutcome::Errored);
    assert_eq!(seen(false, false, classic).outcome(), BuildOutcome::FailClosed);
    assert_eq!(seen(false, false, modern).outcome(), BuildOutcome::Errored);
    assert_eq!(seen(false, false, Ok(None)).outcome(), BuildOutcome::Errored);
}

#[test]
fn a_tally_adds_up_and_tallies_add() {
    let twice = Err(FwError::Matches {
        what: Anchor::BootInit,
        count: 2,
        lo: 0,
        hi: 0x0020_0000,
    });
    let mut row = FamilyRow::new();
    row.count(&seen(true, true, Ok(Some(BootInitSite::Modern(8)))));
    row.count(&seen(
        false,
        false,
        Ok(Some(BootInitSite::ClassicUnconfirmed(8))),
    ));
    row.count(&seen(false, false, Ok(None)));
    row.count(&seen(false, false, twice));
    let want = FamilyRow {
        total: 4,
        built: 1,
        fail_closed: 1,
        errored: 2,
        flash_n1: 1,
        boot_modern: 1,
        boot_classic: 1,
        boot_none: 1,
        boot_ambiguous: 1,
    };
    assert_eq!(row, want);

    let mut all = FamilyRow::new();
    all.take_in(&row);
    all.take_in(&row);
    assert_eq!(all.total, 8);
    assert_eq!(all.built + all.fail_closed + all.errored, 8);
    assert_eq!(all.boot_ambiguous, 2);
    assert_eq!(
        FwError::Refused(Reason::BootUnblessed { at: 0x0014_8004 }).message(),
        "boot-init site 0x148004 resolved via the MT1939-classic signature is a called leaf \
         helper whose power-on call-order is hardware-unconfirmed. Refusing to ship an \
         unblessed classic boot hook (could brick the drive) — CLASSIC_BOOT_BLESSED is false \
         until the site is verified on silicon."
    );
}
