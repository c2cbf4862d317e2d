//! What a drive says of itself: its controller family, its descriptor, and what its
//! model can do.
use vstd::prelude::*;

verus! {

/// Controller family.
#[derive(Debug, Clone, Copy, PartialEq, Eq, Structural)]
pub enum ChipFamily {
    /// MT1959.
    Mt1959,
    /// MT1939.
    Mt1939,
}

impl ChipFamily {
    /// The family's label.
    pub open spec fn text(self) -> Seq<char> {
        match self {
            ChipFamily::Mt1959 => "MT1959"@,
            ChipFamily::Mt1939 => "MT1939"@,
        }
    }

    /// The family's label.
    pub fn label(self) -> (r: &'static str)
        ensures
            r@ == self.text(),
    {
        match self {
            ChipFamily::Mt1959 => "MT1959",
            ChipFamily::Mt1939 => "MT1939",
        }
    }
}

/// What an image's drive descriptor says.
#[derive(Debug, Clone)]
pub struct ChipInfo {
    /// Controller family.
    pub family: ChipFamily,
    /// Drive vendor.
    pub vendor: String,
    /// Drive model.
    pub model: String,
    /// Drive revision.
    pub rev: String,
    /// Vendor-specific text.
    pub vendor_specific: String,
    /// The image has a well-formed identity page.
    pub descriptor_present: bool,
}

/// What a model can do.
#[derive(Debug, Clone)]
pub struct Capability {
    /// Media class label.
    pub media: String,
    /// The media class is BD or above.
    pub bd_class: bool,
    /// The drive reads AACS media.
    pub bd_aacs: bool,
    /// The drive is region locked.
    pub region_lockable: bool,
}

} // verus!
