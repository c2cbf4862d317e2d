//! Feature detours: the place that each takes over and the stub it goes to.
use crate::engine::code;
use crate::engine::gates;
use crate::engine::mt1959::Mt1959Engine;
use crate::engine::stubs;
use crate::error::{FwError, Reason};
use crate::program;
use crate::program::AsmOp;
use crate::raw;
use crate::thumb;
use crate::thumb::BranchShape;
use vstd::prelude::*;

verus! {

/// Offset of the deny block from the descriptor classifier's gate.
pub const BD_GATE_VER_DENY_OFF: usize = 0x40;

/// A flag table at `flag_base` does not wrap.
pub open spec fn flags_fit(flag_base: u32) -> bool {
    flag_base + 0x10 <= u32::MAX
}

/// `got` is the site of `plan` with its program assembled, or its refusal.
pub open spec fn realises(
    got: Result<(usize, Vec<u8>), FwError>,
    plan: Result<(usize, Seq<AsmOp>), FwError>,
) -> bool {
    match (got, plan) {
        (Ok((site, v)), Ok((at, ops))) => site == at && program::assembled(ops) == Some(v@),
        (Err(e), Err(f)) => e == f,
        _ => false,
    }
}

/// The UHD detour. In the prologue shape it takes over the disc-version reload; in
/// the version-compare shape the load and compare, with the class arms as exits.
pub open spec fn uhd_plan(img: Seq<u8>, flag_base: u32) -> Result<(usize, Seq<AsmOp>), FwError> {
    match gates::uhd_classifier(img) {
        Err(e) => Err(e),
        Ok(anchor) => if raw::hw_at(img, anchor as int) == 0xB40F {
            if raw::hw_at(img, anchor + 6) == 0x980E && raw::hw_at(img, anchor + 8) == 0x2506 {
                Ok(((anchor + 6) as usize, stubs::uhd_program(flag_base)))
            } else {
                Err(
                    FwError::Refused(
                        Reason::UhdReload {
                            at: (anchor + 6) as u32,
                            ldr: raw::hw_at(img, anchor + 6),
                            movs: raw::hw_at(img, anchor + 8),
                        },
                    ),
                )
            }
        } else if anchor >= 2 && anchor + 0x18 <= img.len() && raw::hw_at(img, anchor - 2) == 0x8808
            && raw::hw_at(img, anchor as int) == 0x2863 && raw::hw_at(img, anchor + 4) == 0x2202
            && raw::hw_at(img, anchor + 0x16) == 0x2203 {
            Ok(
                (
                    (anchor - 2) as usize,
                    stubs::uhd_ver_program(flag_base, (anchor + 0x16) as u32, (anchor + 4) as u32),
                ),
            )
        } else {
            Err(
                FwError::Refused(
                    Reason::UhdLandmarks {
                        at: anchor,
                        ldrh: raw::shown(img, anchor - 2),
                        test: raw::shown(img, anchor as int),
                        mode1: raw::shown(img, anchor + 4),
                        arm_c: raw::shown(img, anchor + 0x16),
                    },
                ),
            )
        },
    }
}

/// The BD detour. In the explicit gate it takes over the class check; in the
/// descriptor classifier the mode test, with the deny block as its exit.
pub open spec fn bd_plan(img: Seq<u8>, flag_base: u32) -> Result<(usize, Seq<AsmOp>), FwError> {
    match gates::bd_gate(img) {
        Err(e) => Err(e),
        Ok(anchor) => if raw::hw_at(img, anchor as int) == 0x2801 {
            if anchor + 20 <= img.len() && raw::hw_at(img, anchor + 16) == 0x79D0 && raw::hw_at(
                img,
                anchor + 18,
            ) == 0x2802 {
                Ok(((anchor + 16) as usize, stubs::bd_program(flag_base)))
            } else {
                Err(
                    FwError::Refused(
                        Reason::BdClassCheck {
                            at: (anchor + 16) as u32,
                            ldrb: raw::shown(img, anchor + 16),
                            test: raw::shown(img, anchor + 18),
                        },
                    ),
                )
            }
        } else if anchor + BD_GATE_VER_DENY_OFF + 2 <= img.len() && raw::hw_at(img, anchor + 6)
            == 0x2A00 && raw::hw_at(img, anchor + 8) & 0xFF80 == 0xB080 && raw::hw_at(
            img,
            anchor + BD_GATE_VER_DENY_OFF,
        ) == 0x2201 {
            Ok(
                (
                    (anchor + 6) as usize,
                    stubs::bd_ver_program(
                        flag_base,
                        raw::hw_at(img, anchor + 8),
                        (anchor + BD_GATE_VER_DENY_OFF) as u32,
                    ),
                ),
            )
        } else {
            Err(
                FwError::Refused(
                    Reason::BdLandmarks {
                        at: anchor,
                        test: raw::hw_at(img, anchor + 6),
                        reserve: raw::hw_at(img, anchor + 8),
                        deny: raw::shown(img, anchor + BD_GATE_VER_DENY_OFF),
                    },
                ),
            )
        },
    }
}

/// The bus-encryption detour: it takes over the Read Data Key arm's first call.
pub open spec fn busenc_plan(img: Seq<u8>, flag_base: u32) -> Result<
    (usize, Seq<AsmOp>),
    FwError,
> {
    match gates::data_key_arm(img) {
        Ok((site, keyprog)) => Ok((site, stubs::busenc_program(flag_base, keyprog))),
        Err(e) => Err(e),
    }
}

/// Where an AKE detour goes: its site, its stub, the AKE gate that it belongs to, and the
/// branch that it is installed as.
pub struct AkePlan {
    /// Where the branch is written.
    pub site: usize,
    /// The stub.
    pub ops: Seq<AsmOp>,
    /// The AKE anchor.
    pub gate: u32,
    /// The branch's kind.
    pub shape: BranchShape,
}

/// The desktop line's AKE detour: a jump over the reset writer, whose own jump the
/// stub ends with.
pub open spec fn ake_desktop_plan(img: Seq<u8>, flag_base: u32, gate: u32) -> Result<
    AkePlan,
    FwError,
> {
    let site = gate + 12;
    if raw::hw_at(img, site) != 0x2101 {
        Err(
            FwError::Refused(Reason::AkeWriter { at: site as u32, got: raw::hw_at(img, site) }),
        )
    } else if raw::hw_at(img, site + 2) / 2048 != 28 {
        Err(
            FwError::Refused(
                Reason::AkeBranch { at: (site + 2) as u32, got: raw::hw_at(img, site + 2) },
            ),
        )
    } else {
        let back = code::address(code::jump_target(site + 2, raw::hw_at(img, site + 2)));
        Ok(
            AkePlan {
                site: site as usize,
                ops: stubs::ake_program(flag_base, back),
                gate,
                shape: BranchShape::BWide,
            },
        )
    }
}

/// A portable line's AKE detour: a call in place of the shared call at `site`, which
/// the reject writer precedes.
pub open spec fn ake_shared_plan(
    img: Seq<u8>,
    flag_base: u32,
    gate: u32,
    site: int,
    no_writer: Reason,
    no_call: Reason,
) -> Result<AkePlan, FwError> {
    if raw::hw_at(img, site - 2) != 0x2101 {
        Err(FwError::Refused(no_writer))
    } else {
        match thumb::branch_target(BranchShape::Bl, img, site) {
            None => Err(FwError::Refused(no_call)),
            Some(back) => Ok(
                AkePlan {
                    site: site as usize,
                    ops: stubs::ake_nb_program(flag_base, back),
                    gate,
                    shape: BranchShape::Bl,
                },
            ),
        }
    }
}

/// The AKE detour of the first of three lines whose gate the image has.
pub open spec fn ake_plan(img: Seq<u8>, flag_base: u32) -> Result<AkePlan, FwError> {
    match (gates::ake_gate(img), gates::ake_gate_nb(img), gates::ake_gate_nb_v5(img)) {
        (Ok(gate), _, _) => ake_desktop_plan(img, flag_base, gate),
        (_, Ok(gate), _) => ake_shared_plan(
            img,
            flag_base,
            gate,
            gate + 12,
            Reason::AkeNbWriter { at: (gate + 10) as u32, got: raw::hw_at(img, gate + 10) },
            Reason::AkeNbCall { at: (gate + 12) as u32 },
        ),
        (_, _, Ok(gate)) => ake_shared_plan(
            img,
            flag_base,
            gate,
            gate + 14,
            Reason::AkeV5Writer { at: (gate + 12) as u32, got: raw::hw_at(img, gate + 12) },
            Reason::AkeV5Call { at: (gate + 14) as u32 },
        ),
        (_, _, Err(e)) => Err(e),
    }
}

/// The AKE detour of an image.
pub struct AkeDetour {
    /// Where the branch is written.
    pub site: usize,
    /// The stub, assembled.
    pub bytes: Vec<u8>,
    /// The AKE anchor.
    pub gate: u32,
    /// The branch's kind.
    pub shape: BranchShape,
}

/// `got` is `plan` with its program assembled, or its refusal.
pub open spec fn realises_ake(
    got: Result<AkeDetour, FwError>,
    plan: Result<AkePlan, FwError>,
) -> bool {
    match (got, plan) {
        (Ok(d), Ok(p)) => d.site == p.site && d.gate == p.gate && d.shape == p.shape
            && program::assembled(p.ops) == Some(d.bytes@),
        (Err(e), Err(f)) => e == f,
        _ => false,
    }
}

impl Mt1959Engine {
    /// The UHD classifier detour: its site and its stub. The bytes that it replaces
    /// and the arms that it goes to are checked first.
    pub fn uhd_detour(&self, image: &[u8], flag_base: u32) -> (r: Result<
        (usize, Vec<u8>),
        FwError,
    >)
        requires
            raw::addressable(image@),
            flags_fit(flag_base),
        ensures
            realises(r, uhd_plan(image@, flag_base)),
            r matches Ok((site, _)) ==> site + 4 <= image@.len(),
    {
        let len: usize = image.len();
        let anchor: usize = match self.find_uhd_classifier(image) {
            Ok(at) => at as usize,
            Err(e) => return Err(e),
        };
        if raw::halfword(image, anchor) == 0xB40F {
            if raw::halfword(image, anchor + 6) != 0x980E || raw::halfword(image, anchor + 8)
                != 0x2506 {
                return Err(
                    FwError::Refused(
                        Reason::UhdReload {
                            at: (anchor + 6) as u32,
                            ldr: raw::halfword(image, anchor + 6),
                            movs: raw::halfword(image, anchor + 8),
                        },
                    ),
                );
            }
            return match self.build_uhd_stub(flag_base) {
                Ok(v) => Ok((anchor + 6, v)),
                Err(e) => Err(e),
            };
        }
        if anchor < 2 || anchor + 0x18 > len || raw::halfword(image, anchor - 2) != 0x8808
            || raw::halfword(image, anchor) != 0x2863 || raw::halfword(image, anchor + 4) != 0x2202
            || raw::halfword(image, anchor + 0x16) != 0x2203 {
            let ldrh: u16 = if anchor < 2 {
                0
            } else {
                raw::show(image, anchor - 2)
            };
            return Err(
                FwError::Refused(
                    Reason::UhdLandmarks {
                        at: anchor as u32,
                        ldrh,
                        test: raw::show(image, anchor),
                        mode1: raw::show(image, anchor + 4),
                        arm_c: raw::show(image, anchor + 0x16),
                    },
                ),
            );
        }
        match self.build_uhd_stub_ver(flag_base, (anchor + 0x16) as u32, (anchor + 4) as u32) {
            Ok(v) => Ok((anchor - 2, v)),
            Err(e) => Err(e),
        }
    }

    /// The media gate's BD detour: its site and its stub. The bytes that it replaces
    /// and the deny block are checked first.
    pub fn bd_detour(&self, image: &[u8], flag_base: u32) -> (r: Result<(usize, Vec<u8>), FwError>)
        requires
            raw::addressable(image@),
            flags_fit(flag_base),
        ensures
            realises(r, bd_plan(image@, flag_base)),
            r matches Ok((site, _)) ==> site + 4 <= image@.len(),
    {
        let len: usize = image.len();
        let anchor: usize = match self.find_bd_gate(image) {
            Ok(at) => at as usize,
            Err(e) => return Err(e),
        };
        if raw::halfword(image, anchor) == 0x2801 {
            if anchor + 20 > len || raw::halfword(image, anchor + 16) != 0x79D0 || raw::halfword(
                image,
                anchor + 18,
            ) != 0x2802 {
                return Err(
                    FwError::Refused(
                        Reason::BdClassCheck {
                            at: (anchor + 16) as u32,
                            ldrb: raw::show(image, anchor + 16),
                            test: raw::show(image, anchor + 18),
                        },
                    ),
                );
            }
            return match self.build_bd_stub(flag_base) {
                Ok(v) => Ok((anchor + 16, v)),
                Err(e) => Err(e),
            };
        }
        let deny: usize = anchor + BD_GATE_VER_DENY_OFF;
        let subsp: u16 = raw::halfword(image, anchor + 8);
        if deny + 2 > len || raw::halfword(image, anchor + 6) != 0x2A00 || subsp & 0xFF80 != 0xB080
            || raw::halfword(image, deny) != 0x2201 {
            return Err(
                FwError::Refused(
                    Reason::BdLandmarks {
                        at: anchor as u32,
                        test: raw::halfword(image, anchor + 6),
                        reserve: subsp,
                        deny: raw::show(image, deny),
                    },
                ),
            );
        }
        match self.build_bd_stub_ver(flag_base, subsp, deny as u32) {
            Ok(v) => Ok((anchor + 6, v)),
            Err(e) => Err(e),
        }
    }

    /// The bus-encryption detour: its site and its stub.
    pub fn busenc_detour(&self, image: &[u8], flag_base: u32) -> (r: Result<
        (usize, Vec<u8>),
        FwError,
    >)
        requires
            raw::addressable(image@),
            flags_fit(flag_base),
        ensures
            realises(r, busenc_plan(image@, flag_base)),
    {
        let (site, keyprog): (usize, u32) = match self.find_aacs45_arm(image) {
            Ok(arm) => arm,
            Err(e) => return Err(e),
        };
        match self.build_busenc_stub(flag_base, keyprog) {
            Ok(v) => Ok((site, v)),
            Err(e) => Err(e),
        }
    }

    /// The revocation-check detours: the checks that go to the one stub, the revoke
    /// path that the stub ends with, and the stub.
    pub fn hrl_skip_detour(&self, image: &[u8], flag_base: u32) -> (r: Result<
        (Vec<usize>, u32, Vec<u8>),
        FwError,
    >)
        requires
            raw::addressable(image@),
            flags_fit(flag_base),
        ensures
            match (r, gates::hrl_skip_sites(image@)) {
                (Ok((v, t, b)), Ok((s, u))) => v@ == s && t == u && program::assembled(
                    stubs::hrl_skip_program(flag_base, u),
                ) == Some(b@),
                (Err(e), Err(f)) => e == f,
                _ => false,
            },
            r matches Ok((v, _, _)) ==> forall|i: int|
                0 <= i < v@.len() ==> #[trigger] v@[i] + 8 <= image@.len(),
    {
        let (sites, revoke): (Vec<usize>, u32) = match self.find_hrl_skip_sites(image) {
            Ok(s) => s,
            Err(e) => return Err(e),
        };
        match self.build_hrl_skip_stub(flag_base, revoke) {
            Ok(v) => Ok((sites, revoke, v)),
            Err(e) => Err(e),
        }
    }

    /// A valid host revocation list without entries. Its count field is zero, not the
    /// all-ones of erased flash, which the lookup takes for a missing list.
    pub fn hrl_valid_empty_record(&self) -> (r: [u8; 8])
        ensures
            r@ == seq![0x21u8, 0, 0, 0x0C, 0, 0, 0, 0],
    {
        [0x21, 0x00, 0x00, 0x0C, 0x00, 0x00, 0x00, 0x00]
    }

    /// The AKE detour of whichever gate the image carries.
    pub fn ake_detour(&self, image: &[u8], flag_base: u32) -> (r: Result<AkeDetour, FwError>)
        requires
            raw::addressable(image@),
            flags_fit(flag_base),
        ensures
            realises_ake(r, ake_plan(image@, flag_base)),
            r matches Ok(d) ==> d.site + 4 <= image@.len(),
    {
        match self.find_ake_gate(image) {
            Ok(gate) => {
                let site: usize = gate as usize + 12;
                if raw::halfword(image, site) != 0x2101 {
                    return Err(
                        FwError::Refused(
                            Reason::AkeWriter {
                                at: site as u32,
                                got: raw::halfword(image, site),
                            },
                        ),
                    );
                }
                let h: u16 = raw::halfword(image, site + 2);
                if h / 2048 != 28 {
                    return Err(
                        FwError::Refused(Reason::AkeBranch { at: (site + 2) as u32, got: h }),
                    );
                }
                let back: u32 = code::jump(site + 2, h);
                return match self.build_ake_stub(flag_base, back) {
                    Ok(bytes) => Ok(AkeDetour { site, bytes, gate, shape: BranchShape::BWide }),
                    Err(e) => Err(e),
                };
            },
            Err(_) => {},
        }
        match self.find_ake_gate_nb(image) {
            Ok(gate) => {
                return self.ake_shared_detour(
                    image,
                    flag_base,
                    gate,
                    12,
                    Reason::AkeNbWriter {
                        at: gate + 10,
                        got: raw::halfword(image, gate as usize + 10),
                    },
                    Reason::AkeNbCall { at: gate + 12 },
                );
            },
            Err(_) => {},
        }
        match self.find_ake_gate_nb_v5(image) {
            Ok(gate) => self.ake_shared_detour(
                image,
                flag_base,
                gate,
                14,
                Reason::AkeV5Writer {
                    at: gate + 12,
                    got: raw::halfword(image, gate as usize + 12),
                },
                Reason::AkeV5Call { at: gate + 14 },
            ),
            Err(e) => Err(e),
        }
    }

    /// The AKE detour over the shared call that is `off` bytes behind `gate`.
    fn ake_shared_detour(
        &self,
        image: &[u8],
        flag_base: u32,
        gate: u32,
        off: usize,
        no_writer: Reason,
        no_call: Reason,
    ) -> (r: Result<AkeDetour, FwError>)
        requires
            raw::addressable(image@),
            flags_fit(flag_base),
            2 <= off <= 0x100,
            gate + off <= image@.len(),
        ensures
            realises_ake(
                r,
                ake_shared_plan(image@, flag_base, gate, gate + off, no_writer, no_call),
            ),
            r matches Ok(d) ==> d.site + 4 <= image@.len(),
    {
        let site: usize = gate as usize + off;
        if raw::halfword(image, site - 2) != 0x2101 {
            return Err(FwError::Refused(no_writer));
        }
        let back: u32 = match thumb_asm::decode_bl(image, site) {
            Some(t) => t,
            None => return Err(FwError::Refused(no_call)),
        };
        match self.build_ake_stub_nb(flag_base, back) {
            Ok(bytes) => Ok(AkeDetour { site, bytes, gate, shape: BranchShape::Bl }),
            Err(e) => Err(e),
        }
    }
}

} // verus!
