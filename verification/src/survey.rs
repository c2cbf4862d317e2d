//! Tallies of what building does over many images of one drive model.
use crate::engine::boot::BootInitSite;
use crate::error::FwError;
use vstd::prelude::*;

verus! {

/// What was seen of one image.
#[derive(Debug, Clone, Copy)]
pub struct Survey {
    /// The flash PROGRAM routine was found, and not at the start of the image.
    pub flash_program: bool,
    /// The boot-status reload.
    pub boot: Result<Option<BootInitSite>, FwError>,
    /// Building succeeded.
    pub built: bool,
    /// What was built has an active region, and every region of it matches.
    pub verified: bool,
}

/// How building an image ended.
#[derive(Debug, Clone, Copy, PartialEq, Eq, Structural)]
pub enum BuildOutcome {
    /// Built, and the result verifies.
    Built,
    /// Refused on an image whose boot hook would be the unconfirmed classic one.
    FailClosed,
    /// Any other refusal, or a result that does not verify.
    Errored,
}

/// The reload is the classic generation's leaf helper.
pub open spec fn unconfirmed(boot: Result<Option<BootInitSite>, FwError>) -> bool {
    boot matches Ok(Some(BootInitSite::ClassicUnconfirmed(_)))
}

impl Survey {
    /// How building ended.
    pub open spec fn ended(self) -> BuildOutcome {
        if self.built && self.verified {
            BuildOutcome::Built
        } else if !self.built && unconfirmed(self.boot) {
            BuildOutcome::FailClosed
        } else {
            BuildOutcome::Errored
        }
    }

    /// How building ended.
    pub fn outcome(&self) -> (r: BuildOutcome)
        ensures
            r == self.ended(),
    {
        if self.built {
            if self.verified {
                BuildOutcome::Built
            } else {
                BuildOutcome::Errored
            }
        } else {
            match self.boot {
                Ok(Some(BootInitSite::ClassicUnconfirmed(_))) => BuildOutcome::FailClosed,
                _ => BuildOutcome::Errored,
            }
        }
    }
}

/// The tally of one drive model, or of all of them.
#[derive(Debug, Clone, Copy, PartialEq, Eq, Structural)]
pub struct FamilyRow {
    /// Images.
    pub total: u32,
    /// Images that were built.
    pub built: u32,
    /// Images that were refused for their unconfirmed boot hook.
    pub fail_closed: u32,
    /// Images that failed otherwise.
    pub errored: u32,
    /// Images whose flash PROGRAM routine was found.
    pub flash_n1: u32,
    /// Images with the modern reload.
    pub boot_modern: u32,
    /// Images with the classic reload.
    pub boot_classic: u32,
    /// Images without a reload.
    pub boot_none: u32,
    /// Images with more than one.
    pub boot_ambiguous: u32,
}

/// One, when `yes`.
pub open spec fn one(yes: bool) -> int {
    if yes {
        1
    } else {
        0
    }
}

impl FamilyRow {
    /// Every image ended in one of three ways, and its reload is one of four kinds.
    pub open spec fn adds_up(self) -> bool {
        &&& self.total == self.built + self.fail_closed + self.errored
        &&& self.total == self.boot_modern + self.boot_classic + self.boot_none
            + self.boot_ambiguous
        &&& self.flash_n1 <= self.total
    }

    /// `after` is this tally with one more image.
    pub open spec fn grown(self, s: Survey, after: FamilyRow) -> bool {
        &&& after.total == self.total + 1
        &&& after.built == self.built + one(s.ended() is Built)
        &&& after.fail_closed == self.fail_closed + one(s.ended() is FailClosed)
        &&& after.errored == self.errored + one(s.ended() is Errored)
        &&& after.flash_n1 == self.flash_n1 + one(s.flash_program)
        &&& after.boot_modern == self.boot_modern + one(
            s.boot matches Ok(Some(BootInitSite::Modern(_))),
        )
        &&& after.boot_classic == self.boot_classic + one(unconfirmed(s.boot))
        &&& after.boot_none == self.boot_none + one(s.boot matches Ok(None))
        &&& after.boot_ambiguous == self.boot_ambiguous + one(s.boot is Err)
    }

    /// An empty tally.
    pub fn new() -> (r: Self)
        ensures
            r.adds_up(),
            r.total == 0,
    {
        FamilyRow {
            total: 0,
            built: 0,
            fail_closed: 0,
            errored: 0,
            flash_n1: 0,
            boot_modern: 0,
            boot_classic: 0,
            boot_none: 0,
            boot_ambiguous: 0,
        }
    }

    /// Counts one more image.
    pub fn count(&mut self, s: &Survey)
        requires
            old(self).adds_up(),
            old(self).total < u32::MAX,
        ensures
            old(self).grown(*s, *final(self)),
            final(self).adds_up(),
    {
        self.total += 1;
        match s.outcome() {
            BuildOutcome::Built => self.built += 1,
            BuildOutcome::FailClosed => self.fail_closed += 1,
            BuildOutcome::Errored => self.errored += 1,
        }
        if s.flash_program {
            self.flash_n1 += 1;
        }
        match s.boot {
            Ok(Some(BootInitSite::Modern(_))) => self.boot_modern += 1,
            Ok(Some(BootInitSite::ClassicUnconfirmed(_))) => self.boot_classic += 1,
            Ok(None) => self.boot_none += 1,
            Err(_) => self.boot_ambiguous += 1,
        }
    }

    /// Takes another tally into this one.
    pub fn take_in(&mut self, other: &FamilyRow)
        requires
            old(self).adds_up(),
            other.adds_up(),
            old(self).total + other.total <= u32::MAX,
        ensures
            final(self).adds_up(),
            final(self).total == old(self).total + other.total,
            final(self).built == old(self).built + other.built,
            final(self).fail_closed == old(self).fail_closed + other.fail_closed,
            final(self).errored == old(self).errored + other.errored,
            final(self).flash_n1 == old(self).flash_n1 + other.flash_n1,
            final(self).boot_modern == old(self).boot_modern + other.boot_modern,
            final(self).boot_classic == old(self).boot_classic + other.boot_classic,
            final(self).boot_none == old(self).boot_none + other.boot_none,
            final(self).boot_ambiguous == old(self).boot_ambiguous + other.boot_ambiguous,
    {
        self.total += other.total;
        self.built += other.built;
        self.fail_closed += other.fail_closed;
        self.errored += other.errored;
        self.flash_n1 += other.flash_n1;
        self.boot_modern += other.boot_modern;
        self.boot_classic += other.boot_classic;
        self.boot_none += other.boot_none;
        self.boot_ambiguous += other.boot_ambiguous;
    }
}

} // verus!
