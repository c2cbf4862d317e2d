//! The Raw-read lever: the AKE accept, the Volume ID gate, the deny path, and the
//! media detours that ride along.
use crate::engine::code;
use crate::engine::detours;
use crate::engine::detours::{AkeDetour, AkePlan};
use crate::engine::emit;
use crate::engine::emit::Checks;
use crate::engine::gates;
use crate::engine::mt1959::Mt1959Engine;
use crate::engine::space::TableEntry;
use crate::engine::stubs;
use crate::engine::vid;
use crate::error::{FwError, Reason};
use crate::program;
use crate::program::AsmOp;
use crate::raw;
use crate::thumb::BranchShape;
use vstd::prelude::*;

verus! {

/// What the Raw-read lever wrote, and what it rests on. A detour that the image has
/// no place for is zero, or an empty list.
#[derive(Debug, Clone)]
pub struct RawReadFacts {
    /// AKE gate.
    pub ake_gate: u32,
    /// Where the AKE branch is.
    pub ake_site: u32,
    /// AKE stub.
    pub ake_stub_va: u32,
    /// The Volume ID gate's compare, where its call is.
    pub gatea_site: u32,
    /// Volume ID gate stub.
    pub gatea_stub_va: u32,
    /// The deny path's sense setup, where its call is.
    pub deny_site: u32,
    /// Deny stub.
    pub deny_stub_va: u32,
    /// Where the UHD call is.
    pub uhd_site: u32,
    /// UHD stub.
    pub uhd_stub_va: u32,
    /// Where the revocation calls are.
    pub hrl_sites: Vec<u32>,
    /// Revocation stub.
    pub hrl_stub_va: u32,
    /// Where the BD call is.
    pub bd_site: u32,
    /// BD stub.
    pub bd_stub_va: u32,
    /// Volume ID producer.
    pub vid_producer: u32,
}

/// [`RawReadFacts`] with the revocation calls as a sequence.
pub struct RawRead {
    /// AKE gate.
    pub ake_gate: u32,
    /// Where the AKE branch is.
    pub ake_site: u32,
    /// AKE stub.
    pub ake_stub_va: u32,
    /// The Volume ID gate's compare.
    pub gatea_site: u32,
    /// Volume ID gate stub.
    pub gatea_stub_va: u32,
    /// The deny path's sense setup.
    pub deny_site: u32,
    /// Deny stub.
    pub deny_stub_va: u32,
    /// Where the UHD call is.
    pub uhd_site: u32,
    /// UHD stub.
    pub uhd_stub_va: u32,
    /// Where the revocation calls are.
    pub hrl_sites: Seq<u32>,
    /// Revocation stub.
    pub hrl_stub_va: u32,
    /// Where the BD call is.
    pub bd_site: u32,
    /// BD stub.
    pub bd_stub_va: u32,
    /// Volume ID producer.
    pub vid_producer: u32,
}

impl View for RawReadFacts {
    type V = RawRead;

    open spec fn view(&self) -> RawRead {
        RawRead {
            ake_gate: self.ake_gate,
            ake_site: self.ake_site,
            ake_stub_va: self.ake_stub_va,
            gatea_site: self.gatea_site,
            gatea_stub_va: self.gatea_stub_va,
            deny_site: self.deny_site,
            deny_stub_va: self.deny_stub_va,
            uhd_site: self.uhd_site,
            uhd_stub_va: self.uhd_stub_va,
            hrl_sites: self.hrl_sites@,
            hrl_stub_va: self.hrl_stub_va,
            bd_site: self.bd_site,
            bd_stub_va: self.bd_stub_va,
            vid_producer: self.vid_producer,
        }
    }
}

/// Nothing written.
pub open spec fn unwired() -> RawRead {
    RawRead {
        ake_gate: 0,
        ake_site: 0,
        ake_stub_va: 0,
        gatea_site: 0,
        gatea_stub_va: 0,
        deny_site: 0,
        deny_stub_va: 0,
        uhd_site: 0,
        uhd_stub_va: 0,
        hrl_sites: Seq::empty(),
        hrl_stub_va: 0,
        bd_site: 0,
        bd_stub_va: 0,
        vid_producer: 0,
    }
}

impl RawReadFacts {
    /// Nothing written.
    pub fn none() -> (r: Self)
        ensures
            r@ == unwired(),
    {
        let r: RawReadFacts = RawReadFacts {
            ake_gate: 0,
            ake_site: 0,
            ake_stub_va: 0,
            gatea_site: 0,
            gatea_stub_va: 0,
            deny_site: 0,
            deny_stub_va: 0,
            uhd_site: 0,
            uhd_stub_va: 0,
            hrl_sites: Vec::new(),
            hrl_stub_va: 0,
            bd_site: 0,
            bd_stub_va: 0,
            vid_producer: 0,
        };
        assert(r@.hrl_sites =~= Seq::<u32>::empty());
        r
    }
}

/// What the lever needs of an image before anything is written.
pub struct Grounds {
    /// The AKE detour.
    pub ake: AkePlan,
    /// The Volume ID gate's compare.
    pub gatea_site: int,
    /// The VID gate's stub.
    pub gatea: Seq<AsmOp>,
    /// The deny path's sense setup.
    pub deny_site: int,
    /// The routine that idles the AACS engine.
    pub reset: u32,
    /// The Volume ID producer.
    pub producer: u32,
}

/// The Volume ID gate at `gate`: its compare and branch are in place, and the deny
/// path that it branches to sets the sense up where the detour goes.
pub open spec fn gate_grounds(
    img: Seq<u8>,
    flag_base: u32,
    ake: AkePlan,
    gate: int,
) -> Result<Grounds, FwError> {
    let at = gate + 18;
    let h = raw::hw_at(img, at + 2);
    let deny = code::address(code::cond_target(at + 2, h));
    if raw::hw_at(img, at) != 0x2806 {
        Err(FwError::Refused(Reason::GateCompare { at: at as u32, got: raw::hw_at(img, at) }))
    } else if h / 256 != 0xD1 {
        Err(FwError::Refused(Reason::GateBranch { at: (at + 2) as u32, got: h }))
    } else {
        match (vid::agid_struct(img), vid::session_reset(img), vid::vid_producer(img)) {
            (Err(e), _, _) => Err(e),
            (_, Err(e), _) => Err(e),
            (Ok(agid), Ok(reset), producer) => if deny + 0x14 > img.len() {
                Err(FwError::Refused(Reason::DenyTail { at: (deny + 0x10) as u64 }))
            } else if raw::hw_at(img, deny + 0x10) != 0x2202 || raw::hw_at(img, deny + 0x12)
                != 0x216F {
                Err(
                    FwError::Refused(
                        Reason::DenySetup {
                            at: (deny + 0x10) as u32,
                            first: raw::hw_at(img, deny + 0x10),
                            second: raw::hw_at(img, deny + 0x12),
                        },
                    ),
                )
            } else {
                match producer {
                    Err(e) => Err(e),
                    Ok((entry, _)) => Ok(
                        Grounds {
                            ake,
                            gatea_site: at,
                            gatea: stubs::gatea_program(
                                flag_base,
                                agid,
                                (at + 4) as u32,
                                deny,
                                reset,
                            ),
                            deny_site: deny + 0x10,
                            reset,
                            producer: entry,
                        },
                    ),
                }
            },
        }
    }
}

/// What the lever needs of an image before anything is written, or what is missing.
pub open spec fn grounds(img: Seq<u8>, flag_base: u32) -> Result<Grounds, FwError> {
    match (detours::ake_plan(img, flag_base), vid::vid_gate(img)) {
        (Err(e), _) => Err(e),
        (_, Err(e)) => Err(e),
        (Ok(ake), Ok(gate)) => gate_grounds(img, flag_base, ake, gate as int),
    }
}

/// A detour that an image may have no place for: without one `w` stays as it is.
pub open spec fn optional_emission(
    plan: Result<(usize, Seq<AsmOp>), FwError>,
    w: Seq<u8>,
    table: Seq<TableEntry>,
    out_of_range: Reason,
) -> Result<(Seq<u8>, u32, u32), FwError> {
    match plan {
        Err(_) => Ok((w, 0, 0)),
        Ok((site, ops)) => emit::located(
            emit::with_detour(
                w,
                table,
                BranchShape::Bl,
                site as int,
                emit::code_of(ops),
                out_of_range,
            ),
            site as u32,
        ),
    }
}

/// Offsets as addresses.
pub open spec fn addresses(sites: Seq<usize>) -> Seq<u32> {
    Seq::new(sites.len(), |i: int| sites[i] as u32)
}

/// The revocation detours, when the image has places for them.
pub open spec fn hrl_emission(
    img: Seq<u8>,
    w: Seq<u8>,
    table: Seq<TableEntry>,
    flag_base: u32,
) -> Result<(Seq<u8>, Seq<u32>, u32), FwError> {
    match gates::hrl_skip_sites(img) {
        Err(_) => Ok((w, Seq::empty(), 0)),
        Ok((sites, revoke)) => match emit::with_shared_detour(
            w,
            table,
            sites,
            emit::code_of(stubs::hrl_skip_program(flag_base, revoke)),
            Checks::Modern,
        ) {
            Ok((w2, va)) => Ok((w2, addresses(sites), va)),
            Err(e) => Err(e),
        },
    }
}

/// The detours that every Raw-read image gets: AKE, Volume ID gate, deny path.
pub open spec fn core_emission(
    g: Grounds,
    out: Seq<u8>,
    table: Seq<TableEntry>,
) -> Result<(Seq<u8>, u32, u32, u32), FwError> {
    match emit::with_detour(
        out,
        table,
        g.ake.shape,
        g.ake.site as int,
        emit::code_of(g.ake.ops),
        Reason::AkeInstall,
    ) {
        Err(e) => Err(e),
        Ok((w1, ake_va)) => match emit::with_detour(
            w1,
            table,
            BranchShape::Bl,
            g.gatea_site,
            emit::code_of(g.gatea),
            Reason::GateRange,
        ) {
            Err(e) => Err(e),
            Ok((w2, gatea_va)) => match emit::with_detour(
                w2,
                table,
                BranchShape::Bl,
                g.deny_site,
                emit::code_of(stubs::deny_reset_program(g.reset)),
                Reason::DenyRange,
            ) {
                Err(e) => Err(e),
                Ok((w3, deny_va)) => Ok((w3, ake_va, gatea_va, deny_va)),
            },
        },
    }
}

/// The media detours that ride along where an image has places for them: UHD,
/// revocation, BD.
pub open spec fn media_emission(
    img: Seq<u8>,
    w: Seq<u8>,
    table: Seq<TableEntry>,
    flag_base: u32,
) -> Result<(Seq<u8>, (u32, u32), (Seq<u32>, u32), (u32, u32)), FwError> {
    match optional_emission(detours::uhd_plan(img, flag_base), w, table, Reason::UhdRange) {
        Err(e) => Err(e),
        Ok((w4, uhd_site, uhd_va)) => match hrl_emission(img, w4, table, flag_base) {
            Err(e) => Err(e),
            Ok((w5, hrl_sites, hrl_va)) => match optional_emission(
                detours::bd_plan(img, flag_base),
                w5,
                table,
                Reason::BdRange,
            ) {
                Err(e) => Err(e),
                Ok((w6, bd_site, bd_va)) => Ok(
                    (w6, (uhd_site, uhd_va), (hrl_sites, hrl_va), (bd_site, bd_va)),
                ),
            },
        },
    }
}

/// The Raw-read lever: all of its detours, or none and what is missing.
pub open spec fn rawread_emission(
    img: Seq<u8>,
    out: Seq<u8>,
    table: Seq<TableEntry>,
    flag_base: u32,
) -> Result<(Seq<u8>, RawRead), FwError> {
    match grounds(img, flag_base) {
        Err(e) => Err(e),
        Ok(g) => match core_emission(g, out, table) {
            Err(e) => Err(e),
            Ok((w3, ake_va, gatea_va, deny_va)) => match media_emission(
                img,
                w3,
                table,
                flag_base,
            ) {
                Err(e) => Err(e),
                Ok((w6, uhd, hrl, bd)) => Ok(
                    (
                        w6,
                        RawRead {
                            ake_gate: g.ake.gate,
                            ake_site: g.ake.site as u32,
                            ake_stub_va: ake_va,
                            gatea_site: g.gatea_site as u32,
                            gatea_stub_va: gatea_va,
                            deny_site: g.deny_site as u32,
                            deny_stub_va: deny_va,
                            uhd_site: uhd.0,
                            uhd_stub_va: uhd.1,
                            hrl_sites: hrl.0,
                            hrl_stub_va: hrl.1,
                            bd_site: bd.0,
                            bd_stub_va: bd.1,
                            vid_producer: g.producer,
                        },
                    ),
                ),
            },
        },
    }
}

/// [`Grounds`] with the stubs assembled.
pub struct RawReadGrounds {
    /// The AKE detour.
    pub ake: AkeDetour,
    /// The Volume ID gate's compare.
    pub gatea_site: usize,
    /// The VID gate's stub.
    pub gatea: Vec<u8>,
    /// The deny path's sense setup.
    pub deny_site: usize,
    /// The deny path's stub.
    pub deny_stub: Vec<u8>,
    /// The Volume ID producer.
    pub producer: u32,
}

impl RawReadGrounds {
    /// These are `g` with its programs assembled.
    pub open spec fn realises(self, g: Grounds) -> bool {
        &&& self.ake.site == g.ake.site
        &&& self.ake.gate == g.ake.gate
        &&& self.ake.shape == g.ake.shape
        &&& program::assembled(g.ake.ops) == Some(self.ake.bytes@)
        &&& self.gatea_site == g.gatea_site
        &&& program::assembled(g.gatea) == Some(self.gatea@)
        &&& self.deny_site == g.deny_site
        &&& program::assembled(stubs::deny_reset_program(g.reset)) == Some(self.deny_stub@)
        &&& self.producer == g.producer
    }

    /// Every place is in an image of `len` bytes.
    pub open spec fn fits(self, len: nat) -> bool {
        &&& self.ake.site + 4 <= len
        &&& self.gatea_site + 4 <= len
        &&& self.deny_site + 4 <= len
    }
}

/// `r` is `plan` with its programs assembled, or its refusal.
pub open spec fn grounded(
    r: Result<RawReadGrounds, FwError>,
    plan: Result<Grounds, FwError>,
) -> bool {
    match (r, plan) {
        (Ok(g), Ok(p)) => g.realises(p),
        (Err(e), Err(f)) => e == f,
        _ => false,
    }
}

/// The offsets as addresses.
pub fn to_addresses(sites: &Vec<usize>) -> (r: Vec<u32>)
    requires
        forall|i: int| 0 <= i < sites@.len() ==> #[trigger] sites@[i] <= raw::IMAGE_LIMIT,
    ensures
        r@ == addresses(sites@),
{
    let mut r: Vec<u32> = Vec::new();
    let mut k: usize = 0;
    while k < sites.len()
        invariant
            k <= sites@.len(),
            r@.len() == k,
            forall|i: int| 0 <= i < k ==> #[trigger] r@[i] == sites@[i] as u32,
        decreases sites@.len() - k,
    {
        r.push(sites[k] as u32);
        k += 1;
    }
    assert(r@ =~= addresses(sites@));
    r
}

impl Mt1959Engine {
    /// Installs a detour where the image has a place for it; answers the place and the
    /// stub, or zeros.
    fn emit_optional(
        &self,
        w: &mut Vec<u8>,
        table: &Vec<TableEntry>,
        detour: Result<(usize, Vec<u8>), FwError>,
        out_of_range: Reason,
        Ghost(plan): Ghost<Result<(usize, Seq<AsmOp>), FwError>>,
    ) -> (r: Result<(u32, u32), FwError>)
        requires
            raw::addressable(old(w)@),
            detours::realises(detour, plan),
            detour matches Ok((site, _)) ==> site + 4 <= old(w)@.len(),
        ensures
            emit::emitted(
                r,
                old(w)@,
                final(w)@,
                optional_emission(plan, old(w)@, table@, out_of_range),
            ),
            final(w)@.len() == old(w)@.len(),
    {
        match detour {
            Err(_) => Ok((0, 0)),
            Ok((site, stub)) => match self.install_call(w, table, site, &stub, out_of_range) {
                Ok(va) => Ok((site as u32, va)),
                Err(e) => Err(e),
            },
        }
    }

    /// What the lever needs of the image, or what is missing.
    fn find_grounds(&self, image: &[u8], flag_base: u32) -> (r: Result<RawReadGrounds, FwError>)
        requires
            raw::addressable(image@),
            detours::flags_fit(flag_base),
        ensures
            grounded(r, grounds(image@, flag_base)),
            r matches Ok(g) ==> g.fits(image@.len()),
    {
        let len: usize = image.len();
        let ake: AkeDetour = match self.ake_detour(image, flag_base) {
            Ok(d) => d,
            Err(e) => return Err(e),
        };
        let at: usize = match self.find_vid_gate(image) {
            Ok(gate) => gate + 18,
            Err(e) => return Err(e),
        };
        if raw::halfword(image, at) != 0x2806 {
            return Err(
                FwError::Refused(
                    Reason::GateCompare { at: at as u32, got: raw::halfword(image, at) },
                ),
            );
        }
        let h: u16 = raw::halfword(image, at + 2);
        if h / 256 != 0xD1 {
            return Err(FwError::Refused(Reason::GateBranch { at: (at + 2) as u32, got: h }));
        }
        let deny: u32 = code::cond_branch(at + 2, h);
        let agid: u32 = match self.find_vid_agid_struct(image) {
            Ok(a) => a,
            Err(e) => return Err(e),
        };
        let reset: u32 = match self.find_aacs_session_reset(image) {
            Ok(a) => a,
            Err(e) => return Err(e),
        };
        let gatea: Vec<u8> = match self.build_gatea_stub(
            flag_base,
            agid,
            (at + 4) as u32,
            deny,
            reset,
        ) {
            Ok(v) => v,
            Err(e) => return Err(e),
        };
        if len < 0x14 || deny as usize > len - 0x14 {
            return Err(FwError::Refused(Reason::DenyTail { at: deny as u64 + 0x10 }));
        }
        let deny_site: usize = deny as usize + 0x10;
        if raw::halfword(image, deny_site) != 0x2202 || raw::halfword(image, deny_site + 2)
            != 0x216F {
            return Err(
                FwError::Refused(
                    Reason::DenySetup {
                        at: deny_site as u32,
                        first: raw::halfword(image, deny_site),
                        second: raw::halfword(image, deny_site + 2),
                    },
                ),
            );
        }
        let deny_stub: Vec<u8> = match self.build_deny_reset_stub(reset) {
            Ok(v) => v,
            Err(e) => return Err(e),
        };
        match self.find_vid_producer(image) {
            Ok((producer, _)) => Ok(
                RawReadGrounds { ake, gatea_site: at, gatea, deny_site, deny_stub, producer },
            ),
            Err(e) => Err(e),
        }
    }

    /// Installs the AKE, Volume ID gate and deny detours; answers their stubs.
    fn emit_core(
        &self,
        w: &mut Vec<u8>,
        table: &Vec<TableEntry>,
        g: &RawReadGrounds,
        Ghost(plan): Ghost<Grounds>,
    ) -> (r: Result<(u32, u32, u32), FwError>)
        requires
            raw::addressable(old(w)@),
            g.realises(plan),
            g.fits(old(w)@.len()),
        ensures
            match (r, core_emission(plan, old(w)@, table@)) {
                (Ok((a, b, c)), Ok((img, x, y, z))) => a == x && b == y && c == z && final(w)@
                    == img,
                (Err(e), Err(f)) => e == f,
                _ => false,
            },
            final(w)@.len() == old(w)@.len(),
    {
        let ake_va: u32 = match self.install_detour(
            w,
            table,
            g.ake.shape,
            g.ake.site,
            &g.ake.bytes,
            Reason::AkeInstall,
        ) {
            Ok(va) => va,
            Err(e) => return Err(e),
        };
        let gatea_va: u32 = match self.install_call(
            w,
            table,
            g.gatea_site,
            &g.gatea,
            Reason::GateRange,
        ) {
            Ok(va) => va,
            Err(e) => return Err(e),
        };
        match self.install_call(w, table, g.deny_site, &g.deny_stub, Reason::DenyRange) {
            Ok(va) => Ok((ake_va, gatea_va, va)),
            Err(e) => Err(e),
        }
    }

    /// Installs the revocation detours where the image has places for them; answers
    /// the places and the stub.
    fn emit_hrl(
        &self,
        image: &[u8],
        w: &mut Vec<u8>,
        table: &Vec<TableEntry>,
        flag_base: u32,
    ) -> (r: Result<(Vec<u32>, u32), FwError>)
        requires
            raw::addressable(image@),
            old(w)@.len() == image@.len(),
            detours::flags_fit(flag_base),
        ensures
            match (r, hrl_emission(image@, old(w)@, table@, flag_base)) {
                (Ok((v, va)), Ok((img, s, a))) => v@ == s && va == a && final(w)@ == img,
                (Err(e), Err(f)) => e == f,
                _ => false,
            },
            final(w)@.len() == old(w)@.len(),
    {
        match self.hrl_skip_detour(image, flag_base) {
            Err(_) => Ok((Vec::new(), 0)),
            Ok((sites, _, stub)) => match self.install_shared(
                w,
                table,
                &sites,
                &stub,
                Checks::Modern,
            ) {
                Ok(va) => Ok((to_addresses(&sites), va)),
                Err(e) => Err(e),
            },
        }
    }

    /// Installs the media detours that the image has places for; answers each one's
    /// place and stub.
    fn emit_media(
        &self,
        image: &[u8],
        w: &mut Vec<u8>,
        table: &Vec<TableEntry>,
        flag_base: u32,
    ) -> (r: Result<((u32, u32), (Vec<u32>, u32), (u32, u32)), FwError>)
        requires
            raw::addressable(image@),
            old(w)@.len() == image@.len(),
            detours::flags_fit(flag_base),
        ensures
            match (r, media_emission(image@, old(w)@, table@, flag_base)) {
                (Ok((u, (v, va), b)), Ok((img, x, (s, a), y))) => u == x && v@ == s && va == a && b
                    == y && final(w)@ == img,
                (Err(e), Err(f)) => e == f,
                _ => false,
            },
            final(w)@.len() == old(w)@.len(),
    {
        let uhd: Result<(usize, Vec<u8>), FwError> = self.uhd_detour(image, flag_base);
        let uhd_at: (u32, u32) = match self.emit_optional(
            w,
            table,
            uhd,
            Reason::UhdRange,
            Ghost(detours::uhd_plan(image@, flag_base)),
        ) {
            Ok(p) => p,
            Err(e) => return Err(e),
        };
        let hrl_at: (Vec<u32>, u32) = match self.emit_hrl(image, w, table, flag_base) {
            Ok(p) => p,
            Err(e) => return Err(e),
        };
        let bd: Result<(usize, Vec<u8>), FwError> = self.bd_detour(image, flag_base);
        match self.emit_optional(
            w,
            table,
            bd,
            Reason::BdRange,
            Ghost(detours::bd_plan(image@, flag_base)),
        ) {
            Ok(bd_at) => Ok((uhd_at, hrl_at, bd_at)),
            Err(e) => Err(e),
        }
    }

    /// Installs the Raw-read detours. Everything that the lever needs is checked
    /// before anything is written, and `out` is replaced only when all of it is done.
    pub fn emit_rawread(
        &self,
        image: &[u8],
        out: &mut Vec<u8>,
        table: &Vec<TableEntry>,
        flag_base: u32,
    ) -> (r: Result<RawReadFacts, FwError>)
        requires
            raw::addressable(image@),
            old(out)@.len() == image@.len(),
            detours::flags_fit(flag_base),
        ensures
            match (r, rawread_emission(image@, old(out)@, table@, flag_base)) {
                (Ok(f), Ok((w, v))) => f@ == v && final(out)@ == w,
                (Err(e), Err(f)) => e == f && final(out)@ == old(out)@,
                _ => false,
            },
            final(out)@.len() == old(out)@.len(),
    {
        let g: RawReadGrounds = match self.find_grounds(image, flag_base) {
            Ok(g) => g,
            Err(e) => return Err(e),
        };
        let mut w: Vec<u8> = out.clone();
        assert(w@ =~= out@);
        let (ake_stub_va, gatea_stub_va, deny_stub_va): (u32, u32, u32) = match self.emit_core(
            &mut w,
            table,
            &g,
            Ghost(grounds(image@, flag_base)->Ok_0),
        ) {
            Ok(p) => p,
            Err(e) => return Err(e),
        };
        let (uhd, hrl, bd): ((u32, u32), (Vec<u32>, u32), (u32, u32)) = match self.emit_media(
            image,
            &mut w,
            table,
            flag_base,
        ) {
            Ok(p) => p,
            Err(e) => return Err(e),
        };
        *out = w;
        Ok(
            RawReadFacts {
                ake_gate: g.ake.gate,
                ake_site: g.ake.site as u32,
                ake_stub_va,
                gatea_site: g.gatea_site as u32,
                gatea_stub_va,
                deny_site: g.deny_site as u32,
                deny_stub_va,
                uhd_site: uhd.0,
                uhd_stub_va: uhd.1,
                hrl_sites: hrl.0,
                hrl_stub_va: hrl.1,
                bd_site: bd.0,
                bd_stub_va: bd.1,
                vid_producer: g.producer,
            },
        )
    }
}

} // verus!
