//! Platform engines: what is known of each controller family's code, and how an
//! image of it is patched.
pub mod agreement;
pub mod audit;
pub mod audited;
pub mod base;
pub mod behaviour;
pub mod boot;
pub mod changes;
pub mod classic_audited;
pub mod classic_grounded;
pub mod classic_lasting;
pub mod classic_modify;
pub mod classic_serving;
pub mod code;
pub mod create;
pub mod detours;
pub mod emit;
pub mod facts;
pub mod flash;
pub mod found;
pub mod gates;
pub mod grounded;
pub mod handler;
pub mod kept;
pub mod landing;
pub mod lasting;
pub mod lever;
pub mod marks;
pub mod modify;
pub mod mt1939;
pub mod mt1939_classic;
pub mod mt1959;
pub mod oem;
pub mod placement;
pub mod places;
pub mod protocol;
pub mod rawread;
pub mod reach;
pub mod response;
pub mod rooted;
pub mod scanner;
pub mod serving;
pub mod signatures;
pub mod space;
pub mod spots;
pub mod sram;
pub mod stubs;
pub mod vid;

use crate::engine::base::Layout;
use crate::engine::create::{CreateReport, Created};
use crate::engine::lever::{Modified, ModifyReport};
use crate::engine::mt1939::Mt1939Engine;
use crate::engine::mt1959::Mt1959Engine;
use crate::error::FwError;
use crate::family::{Capability, ChipFamily, ChipInfo};
use crate::raw;
use vstd::prelude::*;

verus! {

/// What is known of one controller family, and how its images are patched.
pub trait Engine {
    /// The engine's label.
    spec fn label(&self) -> Seq<char>;

    /// What building firmware from `img` gives.
    spec fn creates(&self, img: Seq<u8>, layout: Layout) -> Result<Created, FwError>;

    /// What modifying `img` gives.
    spec fn modifies(
        &self,
        img: Seq<u8>,
        layout: Layout,
        chip: ChipInfo,
        cap: Capability,
    ) -> Result<Modified, FwError>;

    /// The engine's label.
    fn name(&self) -> (r: &'static str)
        ensures
            r@ == self.label(),
    ;

    /// Builds firmware from an image: everything is found in the image's own code, or
    /// the build is refused.
    fn create(&self, image: &[u8], layout: &Layout) -> (r: Result<CreateReport, FwError>)
        requires
            raw::addressable(image@),
            layout.fits(),
        ensures
            create::created(r, self.creates(image@, *layout)),
            r matches Ok(c) ==> modify::carries_magic(c@.image),
    ;

    /// Modifies what can be modified and reports how each lever ended.
    fn modify(&self, image: &[u8], layout: &Layout, chip: &ChipInfo, cap: &Capability) -> (r:
        Result<ModifyReport, FwError>)
        requires
            raw::addressable(image@),
            layout.fits(),
        ensures
            modify::modified(r, self.modifies(image@, *layout, *chip, *cap)),
    ;
}

/// The engine of a family.
pub enum PlatformEngine {
    /// MT1959.
    Mt1959(Mt1959Engine),
    /// MT1939.
    Mt1939(Mt1939Engine),
}

impl Engine for PlatformEngine {
    open spec fn label(&self) -> Seq<char> {
        match *self {
            PlatformEngine::Mt1959(e) => e.label(),
            PlatformEngine::Mt1939(e) => e.label(),
        }
    }

    open spec fn creates(&self, img: Seq<u8>, layout: Layout) -> Result<Created, FwError> {
        match *self {
            PlatformEngine::Mt1959(e) => e.creates(img, layout),
            PlatformEngine::Mt1939(e) => e.creates(img, layout),
        }
    }

    open spec fn modifies(
        &self,
        img: Seq<u8>,
        layout: Layout,
        chip: ChipInfo,
        cap: Capability,
    ) -> Result<Modified, FwError> {
        match *self {
            PlatformEngine::Mt1959(e) => e.modifies(img, layout, chip, cap),
            PlatformEngine::Mt1939(e) => e.modifies(img, layout, chip, cap),
        }
    }

    fn name(&self) -> (r: &'static str) {
        match self {
            PlatformEngine::Mt1959(e) => e.name(),
            PlatformEngine::Mt1939(e) => e.name(),
        }
    }

    fn create(&self, image: &[u8], layout: &Layout) -> (r: Result<CreateReport, FwError>) {
        match self {
            PlatformEngine::Mt1959(e) => e.create(image, layout),
            PlatformEngine::Mt1939(e) => e.create(image, layout),
        }
    }

    fn modify(&self, image: &[u8], layout: &Layout, chip: &ChipInfo, cap: &Capability) -> (r:
        Result<ModifyReport, FwError>) {
        match self {
            PlatformEngine::Mt1959(e) => e.modify(image, layout, chip, cap),
            PlatformEngine::Mt1939(e) => e.modify(image, layout, chip, cap),
        }
    }
}

/// The engine of a chip family.
pub open spec fn engine_of(fam: ChipFamily) -> PlatformEngine {
    match fam {
        ChipFamily::Mt1959 => PlatformEngine::Mt1959(Mt1959Engine),
        ChipFamily::Mt1939 => PlatformEngine::Mt1939(Mt1939Engine),
    }
}

/// Selects the engine of a known chip family; every family has one.
pub fn for_family(fam: ChipFamily) -> (r: Result<PlatformEngine, FwError>)
    ensures
        r == Ok::<PlatformEngine, FwError>(engine_of(fam)),
{
    match fam {
        ChipFamily::Mt1959 => Ok(PlatformEngine::Mt1959(Mt1959Engine)),
        ChipFamily::Mt1939 => Ok(PlatformEngine::Mt1939(Mt1939Engine)),
    }
}

/// Selects the engine for a detected chip.
pub fn detect(chip: &ChipInfo) -> (r: Result<PlatformEngine, FwError>)
    ensures
        r == Ok::<PlatformEngine, FwError>(engine_of(chip.family)),
{
    for_family(chip.family)
}

} // verus!
