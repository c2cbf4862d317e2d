//! The front end's operations as plain values: what verifying, signing, building and
//! probing decide, with the signing and the device left to the caller.
use crate::abi;
use crate::abi::{Verb, CDB_LEN};
use crate::engine;
use crate::engine::base::Layout;
use crate::engine::create::{CreateReport, Created};
use crate::engine::{Engine, PlatformEngine};
use crate::error::{FwError, Reason};
use crate::family::ChipInfo;
use crate::raw;
use crate::text;
use vstd::prelude::*;

verus! {

/// Bytes that a probe asks for.
pub const PROBE_LEN: u16 = 96;

/// Whether one region of an integrity table matches its digest.
#[derive(Debug, Clone, Copy, PartialEq, Eq, Structural)]
pub struct RegionVerdict {
    /// First byte of the region.
    pub start: u32,
    /// Last byte of the region.
    pub end: u32,
    /// The digest matches.
    pub ok: bool,
}

/// A region whose digest was rewritten.
#[derive(Debug, Clone, Copy, PartialEq, Eq, Structural)]
pub struct RegionChange {
    /// First byte of the region.
    pub start: u32,
    /// Last byte of the region.
    pub end: u32,
}

/// There is an active region, and every region matches.
pub open spec fn all_match(verdicts: Seq<RegionVerdict>) -> bool {
    verdicts.len() > 0 && forall|i: int| 0 <= i < verdicts.len() ==> (#[trigger] verdicts[i]).ok
}

/// The outcome of verifying an image.
#[derive(Debug)]
pub struct VerifyOutcome {
    /// The integrity scheme.
    pub scheme: &'static str,
    /// Each region's verdict.
    pub verdicts: Vec<RegionVerdict>,
    /// There is an active region, and every region matches.
    pub ok: bool,
}

/// Whether every region matches, and there is one.
fn is_intact(verdicts: &Vec<RegionVerdict>) -> (r: bool)
    ensures
        r == all_match(verdicts@),
{
    if verdicts.len() == 0 {
        return false;
    }
    let mut k: usize = 0;
    while k < verdicts.len()
        invariant
            verdicts@.len() > 0,
            k <= verdicts@.len(),
            forall|i: int| 0 <= i < k ==> (#[trigger] verdicts@[i]).ok,
        decreases verdicts@.len() - k,
    {
        if !verdicts[k].ok {
            return false;
        }
        k += 1;
    }
    true
}

/// What the verdicts of `scheme` on an image come to.
pub fn verify(scheme: &'static str, verdicts: Vec<RegionVerdict>) -> (r: VerifyOutcome)
    ensures
        r.scheme == scheme,
        r.verdicts == verdicts,
        r.ok == all_match(verdicts@),
{
    let ok: bool = is_intact(&verdicts);
    VerifyOutcome { scheme, verdicts, ok }
}

/// The outcome of signing an image.
#[derive(Debug)]
pub struct SignOutcome {
    /// The integrity scheme.
    pub scheme: &'static str,
    /// The signed image.
    pub image: Vec<u8>,
    /// The regions whose digests changed.
    pub changes: Vec<RegionChange>,
}

/// Hands out a signed image only when it verifies itself: `verdicts` are those on the
/// signed image.
pub fn sign(
    scheme: &'static str,
    signed: Vec<u8>,
    changes: Vec<RegionChange>,
    verdicts: &Vec<RegionVerdict>,
) -> (r: Result<SignOutcome, FwError>)
    ensures
        all_match(verdicts@) ==> (r matches Ok(o) && o.scheme == scheme && o.image == signed
            && o.changes == changes),
        !all_match(verdicts@) ==> r == Err::<SignOutcome, FwError>(
            FwError::Refused(Reason::SelfVerify),
        ),
{
    if !is_intact(verdicts) {
        return Err(FwError::Refused(Reason::SelfVerify));
    }
    Ok(SignOutcome { scheme, image: signed, changes })
}

/// Firmware that was built and is still to be signed.
#[derive(Debug)]
pub struct Build {
    /// The engine that built it.
    pub engine: &'static str,
    /// What was built.
    pub report: CreateReport,
}

/// What building firmware for a chip gives: the engine's label and its report.
pub open spec fn built(img: Seq<u8>, layout: Layout, chip: ChipInfo) -> Result<
    (Seq<char>, Created),
    FwError,
> {
    let e = engine::engine_of(chip.family);
    match e.creates(img, layout) {
        Ok(c) => Ok((e.label(), c)),
        Err(f) => Err(f),
    }
}

/// Builds firmware from an image with the engine of its chip.
pub fn build(image: &[u8], layout: &Layout, chip: &ChipInfo) -> (r: Result<Build, FwError>)
    requires
        raw::addressable(image@),
        layout.fits(),
    ensures
        match (r, built(image@, *layout, *chip)) {
            (Ok(b), Ok((name, c))) => b.engine@ == name && b.report@ == c,
            (Err(e), Err(f)) => e == f,
            _ => false,
        },
{
    let eng: PlatformEngine = match engine::detect(chip) {
        Ok(e) => e,
        Err(e) => return Err(e),
    };
    match eng.create(image, layout) {
        Ok(report) => Ok(Build { engine: eng.name(), report }),
        Err(e) => Err(e),
    }
}

/// The outcome of building firmware.
#[derive(Debug)]
pub struct CreateOutcome {
    /// The engine that built the image.
    pub engine: &'static str,
    /// The chip that the image is for, where it was identified.
    pub chip: Option<ChipInfo>,
    /// What was built; its image is signed.
    pub report: CreateReport,
    /// The verdicts on the signed image.
    pub verdicts: Vec<RegionVerdict>,
}

impl CreateOutcome {
    /// The firmware image.
    pub fn image(&self) -> (r: &[u8])
        ensures
            r@ == self.report@.image,
    {
        self.report.image.as_slice()
    }
}

/// Hands out firmware only when its signed image verifies: `signed` is the image of
/// `build` with its digests rewritten, and `verdicts` are those on it.
pub fn create(
    build: Build,
    chip: Option<ChipInfo>,
    signed: Vec<u8>,
    verdicts: Vec<RegionVerdict>,
) -> (r: Result<CreateOutcome, FwError>)
    ensures
        all_match(verdicts@) ==> (r matches Ok(o) && o.engine == build.engine && o.chip == chip
            && o.verdicts == verdicts && o.report@ == (Created {
            image: signed@,
            ..build.report@
        })),
        !all_match(verdicts@) ==> r == Err::<CreateOutcome, FwError>(
            FwError::Refused(Reason::Reverify),
        ),
{
    if !is_intact(&verdicts) {
        return Err(FwError::Refused(Reason::Reverify));
    }
    let mut report: CreateReport = build.report;
    report.image = signed;
    Ok(CreateOutcome { engine: build.engine, chip, report, verdicts })
}

/// The outcome of probing a drive.
#[derive(Debug)]
pub struct ProbeOutcome {
    /// The drive answered the identity knock.
    pub detected: bool,
    /// One line on it.
    pub detail: String,
}

/// The identity command that a probe sends.
pub fn probe_cdb() -> (cdb: [u8; CDB_LEN])
    ensures
        cdb@ == abi::safe_frame(Verb::Identity, None, None, PROBE_LEN),
{
    abi::build_cdb(Verb::Identity, None, None, PROBE_LEN)
}

/// The line for a reply: the byte behind the magic is the version.
pub open spec fn probe_detail(reply: Option<Seq<u8>>) -> Seq<char> {
    match reply {
        Some(b) => if !abi::leads_with_magic(b) {
            "NOT DETECTED (stock/OEM or other firmware)"@
        } else if b.len() > 7 {
            "DETECTED (version 0x"@ + text::hex(b[7] as nat, 2) + ")"@
        } else {
            "DETECTED"@
        },
        None => "NOT DETECTED (stock/OEM or other firmware)"@,
    }
}

/// What a drive's reply to the probe says; `None` is a command that failed.
pub fn probe_outcome(reply: Option<&[u8]>) -> (r: ProbeOutcome)
    ensures
        r.detected == (reply matches Some(b) && abi::leads_with_magic(b@)),
        r.detail@ == probe_detail(
            match reply {
                Some(b) => Some(b@),
                None => None,
            },
        ),
{
    match reply {
        Some(b) => if abi::verify_response(b) {
            let mut detail: String = String::new();
            if b.len() > 7 {
                detail.push_str("DETECTED (version 0x");
                text::push_hex(&mut detail, b[7] as u32, 2);
                detail.push_str(")");
                assert(detail@ =~= "DETECTED (version 0x"@ + text::hex(b@[7] as nat, 2) + ")"@);
            } else {
                detail.push_str("DETECTED");
                assert(detail@ =~= "DETECTED"@);
            }
            return ProbeOutcome { detected: true, detail };
        },
        None => {},
    }
    ProbeOutcome {
        detected: false,
        detail: "NOT DETECTED (stock/OEM or other firmware)".to_owned(),
    }
}

} // verus!
