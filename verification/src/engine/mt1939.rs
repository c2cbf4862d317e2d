//! The MT1939 engine: which of its two generations an image is, and the downgrade
//! byte as what always remains.
use crate::engine::base::Layout;
use crate::engine::classic_modify;
use crate::engine::create;
use crate::engine::create::{CreateReport, Created};
use crate::engine::gates;
use crate::engine::gates::{DESCRIPTOR_OFFSET, DE_BYTE_OFF};
use crate::engine::lever;
use crate::engine::lever::{Lever, LeverId, LeverOutcome, LeverReport, Modified, ModifyReport, Outcome};
use crate::engine::marks;
use crate::engine::modify;
use crate::engine::mt1939_classic;
use crate::engine::mt1959::Mt1959Engine;
use crate::engine::signatures::{AKE_GATE_SIG_CLASSIC, VID_GATE_SIG_CLASSIC};
use crate::engine::Engine;
use crate::error::{FwError, Reason};
use crate::family::{Capability, ChipInfo};
use crate::raw;
use crate::sig;
use vstd::prelude::*;

verus! {

/// Where an image's boot banner is.
pub const BANNER_OFFSET: usize = 0x3000;

/// How the banner of a classic image starts: `MT1939 Boot`.
pub const CLASSIC_BANNER: [u8; 11] = [
    0x4D, 0x54, 0x31, 0x39, 0x33, 0x39, 0x20, 0x42, 0x6F, 0x6F, 0x74,
];

/// The MT1939 platform engine.
pub struct Mt1939Engine;

/// The image is of the classic generation.
pub open spec fn classic(img: Seq<u8>) -> bool {
    BANNER_OFFSET + 16 <= img.len() && raw::occurs_at(
        img,
        CLASSIC_BANNER@,
        BANNER_OFFSET as int,
    )
}

/// The classic Volume ID and AKE gates, when each matches once.
pub open spec fn rawread_anchors(img: Seq<u8>) -> Option<(u32, u32)> {
    let vid = sig::find_loose(img, VID_GATE_SIG_CLASSIC@, 0, img.len() as int);
    let ake = sig::find_loose(img, AKE_GATE_SIG_CLASSIC@, 0, img.len() as int);
    if vid.len() == 1 && ake.len() == 1 {
        Some((vid[0] as u32, ake[0] as u32))
    } else {
        None
    }
}

/// The downgrade-enable lever on its own: the byte is written wherever the drive has a
/// descriptor.
pub open spec fn bare_de_lever(img: Seq<u8>, chip: ChipInfo) -> (Seq<u8>, Lever) {
    let at = DESCRIPTOR_OFFSET + DE_BYTE_OFF;
    let facts = seq![("de_off"@, at as u32)];
    if !chip.descriptor_present {
        (img, lever::not_applicable(LeverId::DowngradeEnable, "no MTEK identity page"@))
    } else if at >= img.len() {
        (img, lever::not_applicable(LeverId::DowngradeEnable, "identity page truncated"@))
    } else if img[at] == create::DE_BYTE {
        (img, lever::already(LeverId::DowngradeEnable, facts))
    } else {
        (img.update(at, create::DE_BYTE), lever::applied(LeverId::DowngradeEnable, facts))
    }
}

/// The Region lever without a base.
pub open spec fn pending_region() -> Lever {
    lever::missed(
        LeverId::RegionFree,
        "MT1939 classic generation — RPC emitter transfers but the flag-gated detour needs the classic Identity base (sense-setter + injected handler)"@,
    )
}

/// The Raw-read lever without a base: where its gates are, when they are found.
pub open spec fn pending_rawread(img: Seq<u8>) -> Lever {
    match rawread_anchors(img) {
        Some((vid, ake)) => Lever {
            id: LeverId::RawRead,
            outcome: Outcome::SignatureNotFound(
                "classic VID + AKE gates located (reversed, proven-unique); full raw-read detour pending the classic Identity base"@,
            ),
            facts: seq![("vid_gate_classic"@, vid), ("ake_gate_classic"@, ake)],
        },
        None => lever::missed(
            LeverId::RawRead,
            "MT1939 classic generation — VID/AKE gate anchors not located in this image"@,
        ),
    }
}

/// The Speed lever without a base.
pub open spec fn pending_speed() -> Lever {
    lever::missed(
        LeverId::Speed,
        "MT1939 classic generation — no MT1959-style ramp-ceiling gate exists (classic uses a disc-type halfword read-speed clamp through a shared limiter primitive, no byte speed_index ramp / no 0x32 ceiling); residual RE miss, independent of the other levers"@,
    )
}

/// The modification that always remains: the downgrade byte alone.
pub open spec fn de_only(img: Seq<u8>, chip: ChipInfo, cap: Capability) -> Result<
    Modified,
    FwError,
> {
    let d = bare_de_lever(img, chip);
    if d.1.outcome.effective() {
        Ok(
            modify::report(
                "MT1939"@,
                chip,
                cap,
                seq![d.1, pending_region(), pending_rawread(img), pending_speed()],
                d.0,
            ),
        )
    } else {
        Err(FwError::Refused(Reason::NothingModifiableMt1939))
    }
}

/// Firmware for an MT1939 image of either generation.
pub open spec fn create_mt1939(img: Seq<u8>, layout: Layout) -> Result<Created, FwError> {
    let built = if classic(img) {
        mt1939_classic::create_classic(img, layout)
    } else {
        create::create_modern(img, layout)
    };
    match built {
        Ok(c) => Ok(c),
        Err(e) => Err(e.of_mt1939(classic(img))),
    }
}

/// The modification of an MT1939 image of either generation; where its base cannot be
/// built, the downgrade byte alone.
pub open spec fn modify_mt1939(
    img: Seq<u8>,
    layout: Layout,
    chip: ChipInfo,
    cap: Capability,
) -> Result<Modified, FwError> {
    if classic(img) {
        match classic_modify::modify_classic(img, layout, chip, cap) {
            Ok(m) => Ok(m),
            Err(_) => de_only(img, chip, cap),
        }
    } else {
        match modify::modify_modern(img, layout, chip, cap) {
            Ok(m) => Ok(Modified { engine: "MT1939"@, ..m }),
            Err(_) => de_only(img, chip, cap),
        }
    }
}

/// Whether an MT1939 image is of the classic generation, by its banner.
pub fn is_classic(image: &[u8]) -> (r: bool)
    requires
        raw::addressable(image@),
    ensures
        r == classic(image@),
{
    BANNER_OFFSET + 16 <= image.len() && gates::holds_at(image, &CLASSIC_BANNER, BANNER_OFFSET)
}

/// Where the classic Volume ID and AKE gates are, when each matches once.
pub fn classic_rawread_anchors(image: &[u8]) -> (r: Option<(u32, u32)>)
    requires
        raw::addressable(image@),
    ensures
        r == rawread_anchors(image@),
{
    let vid: Vec<usize> = sig::masked_matches(image, &VID_GATE_SIG_CLASSIC, 0, image.len());
    let ake: Vec<usize> = sig::masked_matches(image, &AKE_GATE_SIG_CLASSIC, 0, image.len());
    if vid.len() == 1 && ake.len() == 1 {
        Some((vid[0] as u32, ake[0] as u32))
    } else {
        None
    }
}

impl Mt1939Engine {
    /// The downgrade-enable lever on its own.
    fn lever_bare_de(&self, out: &mut Vec<u8>, chip: &ChipInfo) -> (r: LeverReport)
        ensures
            (final(out)@, r@) == bare_de_lever(old(out)@, *chip),
    {
        if !chip.descriptor_present {
            return LeverReport::not_applicable(LeverId::DowngradeEnable, "no MTEK identity page");
        }
        let at: usize = DESCRIPTOR_OFFSET + DE_BYTE_OFF;
        if at >= out.len() {
            return LeverReport::not_applicable(
                LeverId::DowngradeEnable,
                "identity page truncated",
            );
        }
        let mut facts: Vec<(&'static str, u32)> = Vec::new();
        facts.push(("de_off", at as u32));
        assert(lever::facts_view(facts@) =~= seq![("de_off"@, at as u32)]);
        if out[at] == create::DE_BYTE {
            LeverReport::already(LeverId::DowngradeEnable, facts)
        } else {
            out[at] = create::DE_BYTE;
            LeverReport::applied(LeverId::DowngradeEnable, facts)
        }
    }

    /// The Raw-read lever without a base.
    fn lever_pending_rawread(&self, image: &[u8]) -> (r: LeverReport)
        requires
            raw::addressable(image@),
        ensures
            r@ == pending_rawread(image@),
    {
        match classic_rawread_anchors(image) {
            Some((vid, ake)) => {
                let mut facts: Vec<(&'static str, u32)> = Vec::new();
                facts.push(("vid_gate_classic", vid));
                facts.push(("ake_gate_classic", ake));
                assert(lever::facts_view(facts@) =~= seq![
                    ("vid_gate_classic"@, vid),
                    ("ake_gate_classic"@, ake),
                ]);
                LeverReport {
                    id: LeverId::RawRead,
                    outcome: LeverOutcome::SignatureNotFound {
                        detail: "classic VID + AKE gates located (reversed, proven-unique); full raw-read detour pending the classic Identity base".to_owned(),
                    },
                    facts,
                }
            },
            None => LeverReport::missed(
                LeverId::RawRead,
                "MT1939 classic generation — VID/AKE gate anchors not located in this image",
            ),
        }
    }

    /// The downgrade byte alone, with what is pending said of the other levers.
    pub fn modify_de_only(&self, image: &[u8], chip: &ChipInfo, cap: &Capability) -> (r: Result<
        ModifyReport,
        FwError,
    >)
        requires
            raw::addressable(image@),
        ensures
            modify::modified(r, de_only(image@, *chip, *cap)),
    {
        let mut out: Vec<u8> = vstd::slice::slice_to_vec(image);
        assert(out@ =~= image@);
        let de: LeverReport = self.lever_bare_de(&mut out, chip);
        if !de.outcome.is_effective() {
            return Err(FwError::Refused(Reason::NothingModifiableMt1939));
        }
        let region: LeverReport = LeverReport::missed(
            LeverId::RegionFree,
            "MT1939 classic generation — RPC emitter transfers but the flag-gated detour needs the classic Identity base (sense-setter + injected handler)",
        );
        let rawread: LeverReport = self.lever_pending_rawread(image);
        let speed: LeverReport = LeverReport::missed(
            LeverId::Speed,
            "MT1939 classic generation — no MT1959-style ramp-ceiling gate exists (classic uses a disc-type halfword read-speed clamp through a shared limiter primitive, no byte speed_index ramp / no 0x32 ceiling); residual RE miss, independent of the other levers",
        );
        let ghost want = seq![de@, region@, rawread@, speed@];
        let mut levers: Vec<LeverReport> = Vec::new();
        levers.push(de);
        levers.push(region);
        levers.push(rawread);
        levers.push(speed);
        assert(lever::levers_view(levers@) =~= want);
        Ok(modify::report_on("MT1939", chip, cap, levers, out))
    }
}

impl Engine for Mt1939Engine {
    open spec fn label(&self) -> Seq<char> {
        "MT1939"@
    }

    open spec fn creates(&self, img: Seq<u8>, layout: Layout) -> Result<Created, FwError> {
        create_mt1939(img, layout)
    }

    open spec fn modifies(
        &self,
        img: Seq<u8>,
        layout: Layout,
        chip: ChipInfo,
        cap: Capability,
    ) -> Result<Modified, FwError> {
        modify_mt1939(img, layout, chip, cap)
    }

    fn name(&self) -> (r: &'static str) {
        "MT1939"
    }

    fn create(&self, image: &[u8], layout: &Layout) -> (r: Result<CreateReport, FwError>) {
        let classic: bool = is_classic(image);
        let built: Result<CreateReport, FwError> = if classic {
            Mt1959Engine.build_report_classic(image, layout)
        } else {
            Mt1959Engine.build_report(image, layout)
        };
        match built {
            Ok(report) => Ok(report),
            Err(e) => Err(e.within_mt1939(classic)),
        }
    }

    fn modify(&self, image: &[u8], layout: &Layout, chip: &ChipInfo, cap: &Capability) -> (r:
        Result<ModifyReport, FwError>)
        ensures
            r matches Ok(m) ==> modify::carries_magic(m@.image) && marks::settled(m@.image)
                || de_only(
                image@,
                *chip,
                *cap,
            ) == Ok::<Modified, FwError>(m@),
    {
        if is_classic(image) {
            match Mt1959Engine.build_modify_classic(image, layout, chip, cap) {
                Ok(report) => {
                    return Ok(report);
                },
                Err(_) => {},
            }
        } else {
            match Mt1959Engine.build_modify(image, layout, chip, cap) {
                Ok(mut report) => {
                    report.engine = "MT1939";
                    return Ok(report);
                },
                Err(_) => {},
            }
        }
        self.modify_de_only(image, chip, cap)
    }
}

} // verus!
