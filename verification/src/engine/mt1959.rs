//! The MT1959 engine.
use crate::engine::base::Layout;
use crate::engine::create;
use crate::engine::create::{CreateReport, Created};
use crate::engine::lever::{Modified, ModifyReport};
use crate::engine::marks;
use crate::engine::modify;
use crate::engine::Engine;
use crate::error::FwError;
use crate::family::{Capability, ChipInfo};
use vstd::prelude::*;

verus! {

/// The MT1959 platform engine.
pub struct Mt1959Engine;

impl Engine for Mt1959Engine {
    open spec fn label(&self) -> Seq<char> {
        "MT1959"@
    }

    open spec fn creates(&self, img: Seq<u8>, layout: Layout) -> Result<Created, FwError> {
        create::create_modern(img, layout)
    }

    open spec fn modifies(
        &self,
        img: Seq<u8>,
        layout: Layout,
        chip: ChipInfo,
        cap: Capability,
    ) -> Result<Modified, FwError> {
        modify::modify_modern(img, layout, chip, cap)
    }

    fn name(&self) -> (r: &'static str) {
        "MT1959"
    }

    fn create(&self, image: &[u8], layout: &Layout) -> (r: Result<CreateReport, FwError>) {
        self.build_report(image, layout)
    }

    fn modify(&self, image: &[u8], layout: &Layout, chip: &ChipInfo, cap: &Capability) -> (r:
        Result<ModifyReport, FwError>)
        ensures
            r matches Ok(m) ==> modify::carries_magic(m@.image) && marks::settled(m@.image),
    {
        self.build_modify(image, layout, chip, cap)
    }
}

} // verus!
