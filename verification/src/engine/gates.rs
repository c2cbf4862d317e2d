//! The gates that feature detours sit at, and the identity page.
use crate::engine::code;
use crate::engine::mt1959::Mt1959Engine;
use crate::engine::scanner;
use crate::engine::signatures::{
    AACS45_ARM_SIG_A, AACS45_ARM_SIG_B, AKE_GATE_SIG, AKE_GATE_SIG_NB, AKE_GATE_SIG_NB_V5,
    BD_GATE_SIG, BD_GATE_SIG_VER, HRL_LOOKUP_SIG, REGION_EMIT_SIG, SETDISCMODE_SIG,
    SPEED_GATE_SIG, SPEED_GATE_SIG_R0, UHD_CLASSIFIER_SIG, UHD_CLASSIFIER_SIG_VER,
};
use crate::error::{Anchor, FwError, Reason};
use crate::raw;
use crate::sig;
use crate::thumb;
use vstd::prelude::*;

verus! {

/// Where the drive descriptor is in an image.
pub const DESCRIPTOR_OFFSET: usize = 0x001E_C000;

/// Offset of the family tag in the descriptor.
pub const FAMILY_TAG_OFF: usize = 0x34;

/// The family tag, `MTEKMT19`.
pub const FAMILY_TAG: [u8; 8] = [0x4D, 0x54, 0x45, 0x4B, 0x4D, 0x54, 0x31, 0x39];

/// Offset of the downgrade-enable byte in the descriptor.
pub const DE_BYTE_OFF: usize = 0x56;

/// A match as an address.
pub open spec fn as_address(r: Result<usize, FwError>) -> Result<u32, FwError> {
    match r {
        Ok(at) => Ok(at as u32),
        Err(e) => Err(e),
    }
}

/// The disc-mode dispatcher.
pub open spec fn setdiscmode(img: Seq<u8>) -> Result<u32, FwError> {
    as_address(
        sig::find_only(
            img,
            SETDISCMODE_SIG@,
            scanner::least(0x0004_0000, img.len() as int),
            scanner::least(0x0005_0000, img.len() as int),
            Anchor::SetDiscMode,
        ),
    )
}

/// The ramp-ceiling gate and the register that holds the speed index: `r2` in the
/// preferred shape, `r0` in the other.
pub open spec fn speed_gate(img: Seq<u8>) -> Result<(u32, u8), FwError> {
    let lo = scanner::least(0x0001_0000, img.len() as int);
    let hi = scanner::least(0x0002_0000, img.len() as int);
    match sig::at_most_one(
        sig::find_all(img, SPEED_GATE_SIG@, lo, hi),
        Anchor::SpeedGate,
        lo,
        hi,
    ) {
        Err(e) => Err(e),
        Ok(Some(at)) => Ok((at as u32, 2)),
        Ok(None) => match sig::find_only(img, SPEED_GATE_SIG_R0@, lo, hi, Anchor::SpeedGateR0) {
            Ok(at) => Ok((at as u32, 0)),
            Err(e) => Err(e),
        },
    }
}

/// The RPC-state emitter in `[lo, hi)`.
pub open spec fn region_emitter_in(img: Seq<u8>, lo: int, hi: int) -> Result<u32, FwError> {
    as_address(
        sig::find_only(
            img,
            REGION_EMIT_SIG@,
            scanner::least(lo, img.len() as int),
            scanner::least(hi, img.len() as int),
            Anchor::RegionEmitter,
        ),
    )
}

/// The RPC-state emitter.
pub open spec fn region_emitter(img: Seq<u8>) -> Result<u32, FwError> {
    region_emitter_in(img, 0, img.len() as int)
}

/// The AKE accept gate of the desktop line.
pub open spec fn ake_gate(img: Seq<u8>) -> Result<u32, FwError> {
    as_address(sig::find_only(img, AKE_GATE_SIG@, 0, img.len() as int, Anchor::AkeGate))
}

/// The AKE accept gate of the portable line.
pub open spec fn ake_gate_nb(img: Seq<u8>) -> Result<u32, FwError> {
    as_address(sig::find_only(img, AKE_GATE_SIG_NB@, 0, img.len() as int, Anchor::AkeGateNb))
}

/// The AKE accept gate of the portable `1.V5` line.
pub open spec fn ake_gate_nb_v5(img: Seq<u8>) -> Result<u32, FwError> {
    as_address(sig::find_only(img, AKE_GATE_SIG_NB_V5@, 0, img.len() as int, Anchor::AkeGateNbV5))
}

/// The Read Data Key arm and the routine that it calls first.
pub open spec fn data_key_arm(img: Seq<u8>) -> Result<(usize, u32), FwError> {
    let len = img.len() as int;
    match sig::preferring(
        sig::find_all(img, AACS45_ARM_SIG_A@, 0, len),
        Anchor::DataKeyArm,
        0,
        len,
        sig::find_only(img, AACS45_ARM_SIG_B@, 0, len, Anchor::DataKeyArmB),
    ) {
        Err(e) => Err(e),
        Ok(arm) => match thumb::branch_target(thumb::BranchShape::Bl, img, arm as int) {
            Some(t) => Ok((arm, t)),
            None => Err(FwError::Refused(Reason::DataKeyCall { at: arm as u32 })),
        },
    }
}

/// The disc-version classifier: its prologue, or else its version compare.
pub open spec fn uhd_classifier(img: Seq<u8>) -> Result<u32, FwError> {
    let len = img.len() as int;
    as_address(
        sig::preferring(
            sig::find_all(img, UHD_CLASSIFIER_SIG@, 0, len),
            Anchor::UhdClassifier,
            0,
            len,
            sig::find_only(img, UHD_CLASSIFIER_SIG_VER@, 0, len, Anchor::UhdClassifierVer),
        ),
    )
}

/// The media accept gate: the explicit REPORT KEY gate, or else the descriptor
/// classifier.
pub open spec fn bd_gate(img: Seq<u8>) -> Result<u32, FwError> {
    let len = img.len() as int;
    as_address(
        sig::preferring(
            sig::find_all(img, BD_GATE_SIG@, 0, len),
            Anchor::BdGate,
            0,
            len,
            sig::find_only(img, BD_GATE_SIG_VER@, 0, len, Anchor::BdGateVer),
        ),
    )
}

/// The host revocation list lookup.
pub open spec fn hrl_lookup(img: Seq<u8>) -> Result<u32, FwError> {
    as_address(sig::find_only(img, HRL_LOOKUP_SIG@, 0, img.len() as int, Anchor::HrlLookup))
}

/// Where `cmp r0,#0; bne` first starts in `[p, end)`.
pub open spec fn check_after(img: Seq<u8>, p: int, end: int) -> Option<usize>
    decreases end - p,
{
    if p + 4 > end {
        None
    } else if raw::hw_at(img, p) == 0x2800 && raw::hw_at(img, p + 2) / 256 == 0xD1 {
        Some(p as usize)
    } else {
        check_after(img, p + 2, end)
    }
}

/// The check that follows a call of `lookup` at `o` within twelve halfwords.
pub open spec fn checked_call(img: Seq<u8>, o: int, lookup: u32) -> Option<usize> {
    if code::call_target(img, o) == Some(lookup) {
        check_after(img, o + 4, scanner::least(o + 28, scanner::short_of(img, 4)))
    } else {
        None
    }
}

/// The checks that follow calls of `lookup` from `o` on.
pub open spec fn lookup_checks(img: Seq<u8>, o: int, lookup: u32) -> Seq<usize>
    decreases img.len() - o,
{
    if o + 4 > img.len() {
        Seq::empty()
    } else {
        match checked_call(img, o, lookup) {
            Some(p) => seq![p] + lookup_checks(img, o + 2, lookup),
            None => lookup_checks(img, o + 2, lookup),
        }
    }
}

/// Where each check branches when its result is not zero.
pub open spec fn revoke_targets(img: Seq<u8>, sites: Seq<usize>) -> Seq<u32> {
    Seq::new(
        sites.len(),
        |i: int| code::address(code::cond_target(sites[i] + 2, raw::hw_at(img, sites[i] + 2))),
    )
}

/// The revoke path starts at `t`: `ldrb r0,[r4,#2]; cmp r0,#0; bne`.
pub open spec fn revoke_head(img: Seq<u8>, t: int) -> bool {
    &&& t + 6 <= img.len()
    &&& raw::hw_at(img, t) == 0x78A0
    &&& raw::hw_at(img, t + 2) == 0x2800
    &&& raw::hw_at(img, t + 4) / 256 == 0xD1
}

/// The checks of the revocation lookup's result, and the revoke path that all of
/// them branch to.
pub open spec fn hrl_skip_sites(img: Seq<u8>) -> Result<(Seq<usize>, u32), FwError> {
    match hrl_lookup(img) {
        Err(e) => Err(e),
        Ok(lookup) => {
            let sites = lookup_checks(img, 0, lookup);
            match code::agreed(
                revoke_targets(img, sites),
                FwError::Refused(Reason::HrlSites),
                FwError::Refused(Reason::HrlDisagree),
            ) {
                Err(e) => Err(e),
                Ok(t) => if revoke_head(img, t as int) {
                    Ok((sites, t))
                } else {
                    Err(FwError::Refused(Reason::HrlHead { at: t }))
                },
            }
        },
    }
}

/// Offset of the downgrade-enable byte, in an image whose descriptor is tagged.
pub open spec fn de_byte(img: Seq<u8>) -> Result<u32, FwError> {
    if DESCRIPTOR_OFFSET + DE_BYTE_OFF >= img.len() {
        Err(
            FwError::Refused(
                Reason::DescriptorSize { at: (DESCRIPTOR_OFFSET + DE_BYTE_OFF) as u32 },
            ),
        )
    } else if !raw::occurs_at(img, FAMILY_TAG@, DESCRIPTOR_OFFSET + FAMILY_TAG_OFF) {
        Err(
            FwError::Refused(
                Reason::DescriptorTag { at: (DESCRIPTOR_OFFSET + FAMILY_TAG_OFF) as u32 },
            ),
        )
    } else {
        Ok((DESCRIPTOR_OFFSET + DE_BYTE_OFF) as u32)
    }
}

/// `bytes` are in the image at `at`.
pub fn holds_at(image: &[u8], bytes: &[u8], at: usize) -> (r: bool)
    requires
        raw::addressable(image@),
        at <= raw::IMAGE_LIMIT,
        bytes@.len() <= raw::IMAGE_LIMIT,
    ensures
        r == raw::occurs_at(image@, bytes@, at as int),
{
    let len: usize = image.len();
    if at + bytes.len() > len {
        return false;
    }
    let mut k: usize = 0;
    while k < bytes.len()
        invariant
            len == image@.len(),
            raw::addressable(image@),
            at + bytes@.len() <= len,
            k <= bytes@.len(),
            forall|j: int| 0 <= j < k ==> #[trigger] image@[at + j] == bytes@[j],
        decreases bytes@.len() - k,
    {
        if image[at + k] != bytes[k] {
            assert(image@[at + (k as int)] != bytes@[k as int]);
            return false;
        }
        k += 1;
    }
    true
}

fn find_check_after(image: &[u8], p: usize, end: usize) -> (r: Option<usize>)
    requires
        raw::addressable(image@),
        p <= image@.len(),
        end <= image@.len(),
    ensures
        r == check_after(image@, p as int, end as int),
        r matches Some(q) ==> p <= q && q + 4 <= end,
{
    let len: usize = image.len();
    let mut q: usize = p;
    while q + 4 <= end
        invariant
            raw::addressable(image@),
            len == image@.len(),
            p <= q <= len,
            end <= len,
            check_after(image@, p as int, end as int) == check_after(image@, q as int, end as int),
        decreases end + 4 - q,
    {
        if raw::halfword(image, q) == 0x2800 && raw::halfword(image, q + 2) / 256 == 0xD1 {
            return Some(q);
        }
        q += 2;
    }
    None
}

impl Mt1959Engine {
    /// The read datapath's disc-mode dispatcher.
    pub fn find_setdiscmode(&self, image: &[u8]) -> (r: Result<u32, FwError>)
        requires
            raw::addressable(image@),
        ensures
            r == setdiscmode(image@),
    {
        let len: usize = image.len();
        let lo: usize = if len < 0x0004_0000 {
            len
        } else {
            0x0004_0000
        };
        let hi: usize = if len < 0x0005_0000 {
            len
        } else {
            0x0005_0000
        };
        match sig::find_unique(image, &SETDISCMODE_SIG, lo, hi, Anchor::SetDiscMode) {
            Ok(at) => Ok(at as u32),
            Err(e) => Err(e),
        }
    }

    /// The ramp-ceiling gate and the register that the ramp holds its index in; the
    /// `cmp; bhi` that a detour replaces is four bytes behind it.
    pub fn find_speed_gate(&self, image: &[u8]) -> (r: Result<(u32, u8), FwError>)
        requires
            raw::addressable(image@),
        ensures
            r == speed_gate(image@),
            r matches Ok((at, _)) ==> at + 8 <= image@.len(),
    {
        let len: usize = image.len();
        let lo: usize = if len < 0x0001_0000 {
            len
        } else {
            0x0001_0000
        };
        let hi: usize = if len < 0x0002_0000 {
            len
        } else {
            0x0002_0000
        };
        match sig::find_at_most_one(image, &SPEED_GATE_SIG, lo, hi, Anchor::SpeedGate) {
            Err(e) => return Err(e),
            Ok(Some(at)) => return Ok((at as u32, 2)),
            Ok(None) => {},
        }
        match sig::find_unique(image, &SPEED_GATE_SIG_R0, lo, hi, Anchor::SpeedGateR0) {
            Ok(at) => Ok((at as u32, 0)),
            Err(e) => Err(e),
        }
    }

    /// The RPC-state emitter; the store that a detour replaces is six bytes behind it.
    pub fn find_region_emitter(&self, image: &[u8]) -> (r: Result<u32, FwError>)
        requires
            raw::addressable(image@),
        ensures
            r == region_emitter(image@),
            r matches Ok(at) ==> at + 20 <= image@.len(),
    {
        self.find_region_emitter_in(image, 0, image.len())
    }

    /// [`Self::find_region_emitter`] in one window.
    pub fn find_region_emitter_in(&self, image: &[u8], lo: usize, hi: usize) -> (r: Result<
        u32,
        FwError,
    >)
        requires
            raw::addressable(image@),
        ensures
            r == region_emitter_in(image@, lo as int, hi as int),
            r matches Ok(at) ==> at + 20 <= image@.len(),
    {
        let len: usize = image.len();
        let from: usize = if lo < len {
            lo
        } else {
            len
        };
        let to: usize = if hi < len {
            hi
        } else {
            len
        };
        match sig::find_unique(image, &REGION_EMIT_SIG, from, to, Anchor::RegionEmitter) {
            Ok(at) => Ok(at as u32),
            Err(e) => Err(e),
        }
    }

    /// The desktop line's AKE accept gate; its reset writer is twelve bytes behind it.
    pub fn find_ake_gate(&self, image: &[u8]) -> (r: Result<u32, FwError>)
        requires
            raw::addressable(image@),
        ensures
            r == ake_gate(image@),
            r matches Ok(at) ==> at + 16 <= image@.len(),
    {
        match sig::find_unique(image, &AKE_GATE_SIG, 0, image.len(), Anchor::AkeGate) {
            Ok(at) => Ok(at as u32),
            Err(e) => Err(e),
        }
    }

    /// The portable line's AKE accept gate; the shared call is twelve bytes behind it.
    pub fn find_ake_gate_nb(&self, image: &[u8]) -> (r: Result<u32, FwError>)
        requires
            raw::addressable(image@),
        ensures
            r == ake_gate_nb(image@),
            r matches Ok(at) ==> at + 12 <= image@.len(),
    {
        match sig::find_unique(image, &AKE_GATE_SIG_NB, 0, image.len(), Anchor::AkeGateNb) {
            Ok(at) => Ok(at as u32),
            Err(e) => Err(e),
        }
    }

    /// The portable `1.V5` line's AKE accept gate; the shared call is fourteen bytes
    /// behind it.
    pub fn find_ake_gate_nb_v5(&self, image: &[u8]) -> (r: Result<u32, FwError>)
        requires
            raw::addressable(image@),
        ensures
            r == ake_gate_nb_v5(image@),
            r matches Ok(at) ==> at + 14 <= image@.len(),
    {
        match sig::find_unique(image, &AKE_GATE_SIG_NB_V5, 0, image.len(), Anchor::AkeGateNbV5) {
            Ok(at) => Ok(at as u32),
            Err(e) => Err(e),
        }
    }

    /// The Read Data Key arm, and the key-programming routine that it calls first.
    pub fn find_aacs45_arm(&self, image: &[u8]) -> (r: Result<(usize, u32), FwError>)
        requires
            raw::addressable(image@),
        ensures
            r == data_key_arm(image@),
    {
        let len: usize = image.len();
        let arm: usize = match sig::find_at_most_one(
            image,
            &AACS45_ARM_SIG_A,
            0,
            len,
            Anchor::DataKeyArm,
        ) {
            Err(e) => return Err(e),
            Ok(Some(at)) => at,
            Ok(None) => match sig::find_unique(
                image,
                &AACS45_ARM_SIG_B,
                0,
                len,
                Anchor::DataKeyArmB,
            ) {
                Ok(at) => at,
                Err(e) => return Err(e),
            },
        };
        match thumb_asm::decode_bl(image, arm) {
            Some(t) => Ok((arm, t)),
            None => Err(FwError::Refused(Reason::DataKeyCall { at: arm as u32 })),
        }
    }

    /// The disc-version classifier, in either of its two shapes.
    pub fn find_uhd_classifier(&self, image: &[u8]) -> (r: Result<u32, FwError>)
        requires
            raw::addressable(image@),
        ensures
            r == uhd_classifier(image@),
            r matches Ok(at) ==> at + 10 <= image@.len(),
    {
        let len: usize = image.len();
        match sig::find_at_most_one(image, &UHD_CLASSIFIER_SIG, 0, len, Anchor::UhdClassifier) {
            Err(e) => return Err(e),
            Ok(Some(at)) => return Ok(at as u32),
            Ok(None) => {},
        }
        match sig::find_unique(image, &UHD_CLASSIFIER_SIG_VER, 0, len, Anchor::UhdClassifierVer) {
            Ok(at) => Ok(at as u32),
            Err(e) => Err(e),
        }
    }

    /// The media accept gate, in either of its two shapes.
    pub fn find_bd_gate(&self, image: &[u8]) -> (r: Result<u32, FwError>)
        requires
            raw::addressable(image@),
        ensures
            r == bd_gate(image@),
            r matches Ok(at) ==> at + 18 <= image@.len(),
    {
        let len: usize = image.len();
        match sig::find_at_most_one(image, &BD_GATE_SIG, 0, len, Anchor::BdGate) {
            Err(e) => return Err(e),
            Ok(Some(at)) => return Ok(at as u32),
            Ok(None) => {},
        }
        match sig::find_unique(image, &BD_GATE_SIG_VER, 0, len, Anchor::BdGateVer) {
            Ok(at) => Ok(at as u32),
            Err(e) => Err(e),
        }
    }

    /// The host revocation list lookup.
    pub fn find_hrl_lookup(&self, image: &[u8]) -> (r: Result<u32, FwError>)
        requires
            raw::addressable(image@),
        ensures
            r == hrl_lookup(image@),
    {
        match sig::find_unique(image, &HRL_LOOKUP_SIG, 0, image.len(), Anchor::HrlLookup) {
            Ok(at) => Ok(at as u32),
            Err(e) => Err(e),
        }
    }

    /// The checks of the revocation lookup's result and the revoke path that they
    /// share: each follows a call of the lookup, all branch to one place, and that
    /// place is the revoke path.
    pub fn find_hrl_skip_sites(&self, image: &[u8]) -> (r: Result<(Vec<usize>, u32), FwError>)
        requires
            raw::addressable(image@),
        ensures
            match (r, hrl_skip_sites(image@)) {
                (Ok((v, t)), Ok((s, u))) => v@ == s && t == u,
                (Err(e), Err(f)) => e == f,
                _ => false,
            },
            r matches Ok((v, _)) ==> v@.len() > 0 && forall|i: int|
                0 <= i < v@.len() ==> #[trigger] v@[i] + 8 <= image@.len(),
    {
        let len: usize = image.len();
        let lookup: u32 = match self.find_hrl_lookup(image) {
            Ok(t) => t,
            Err(e) => return Err(e),
        };
        let mut sites: Vec<usize> = Vec::new();
        let mut targets: Vec<u32> = Vec::new();
        let mut o: usize = 0;
        while o + 4 <= len
            invariant
                raw::addressable(image@),
                len == image@.len(),
                o <= len,
                lookup_checks(image@, 0, lookup) == sites@ + lookup_checks(
                    image@,
                    o as int,
                    lookup,
                ),
                targets@ == revoke_targets(image@, sites@),
                forall|i: int| 0 <= i < sites@.len() ==> #[trigger] sites@[i] + 8 <= len,
            decreases len + 4 - o,
        {
            match code::decode_bl_target(image, o) {
                Some(t) => {
                    if t == lookup {
                        let end: usize = if o + 28 < len - 4 {
                            o + 28
                        } else {
                            len - 4
                        };
                        match find_check_after(image, o + 4, end) {
                            Some(p) => {
                                let ghost before = sites@;
                                sites.push(p);
                                targets.push(
                                    code::cond_branch(p + 2, raw::halfword(image, p + 2)),
                                );
                                proof {
                                    let rest = lookup_checks(image@, o + 2, lookup);
                                    assert(before + (seq![p] + rest) =~= before.push(p) + rest);
                                }
                            },
                            None => {},
                        }
                    }
                },
                None => {},
            }
            o += 2;
        }
        proof {
            assert(sites@ + Seq::<usize>::empty() =~= sites@);
        }
        let t: u32 = match code::agree(
            &targets,
            FwError::Refused(Reason::HrlSites),
            FwError::Refused(Reason::HrlDisagree),
        ) {
            Ok(t) => t,
            Err(e) => return Err(e),
        };
        if len < 6 || t as usize > len - 6 {
            return Err(FwError::Refused(Reason::HrlHead { at: t }));
        }
        let at: usize = t as usize;
        if raw::halfword(image, at) != 0x78A0 || raw::halfword(image, at + 2) != 0x2800
            || raw::halfword(image, at + 4) / 256 != 0xD1 {
            return Err(FwError::Refused(Reason::HrlHead { at: t }));
        }
        Ok((sites, t))
    }

    /// The downgrade-enable byte: its place in the drive descriptor, when the family
    /// tag shows that the descriptor is there.
    pub fn find_de_byte(&self, image: &[u8]) -> (r: Result<u32, FwError>)
        requires
            raw::addressable(image@),
        ensures
            r == de_byte(image@),
            r matches Ok(at) ==> at < image@.len(),
    {
        if DESCRIPTOR_OFFSET + DE_BYTE_OFF >= image.len() {
            return Err(
            FwError::Refused(
                Reason::DescriptorSize { at: (DESCRIPTOR_OFFSET + DE_BYTE_OFF) as u32 },
            ),
        );
        }
        if !holds_at(image, &FAMILY_TAG, DESCRIPTOR_OFFSET + FAMILY_TAG_OFF) {
            return Err(
            FwError::Refused(
                Reason::DescriptorTag { at: (DESCRIPTOR_OFFSET + FAMILY_TAG_OFF) as u32 },
            ),
        );
        }
        Ok((DESCRIPTOR_OFFSET + DE_BYTE_OFF) as u32)
    }
}

} // verus!
