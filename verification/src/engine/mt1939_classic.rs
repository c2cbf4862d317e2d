//! The classic MT1939 generation: its own gates, its own revocation lookup, and how an
//! image of it is built and modified.
use crate::engine::base;
use crate::engine::base::{BaseImage, Layout};
use crate::engine::boot;
use crate::engine::code;
use crate::engine::create;
use crate::engine::create::{CreateReport, Created};
use crate::engine::detours;
use crate::engine::emit;
use crate::engine::emit::Checks;
use crate::engine::flash;
use crate::engine::gates;
use crate::engine::handler;
use crate::engine::marks;
use crate::engine::modify;
use crate::engine::mt1959::Mt1959Engine;
use crate::engine::rawread;
use crate::engine::scanner;
use crate::engine::signatures::{
    AKE_GATE_SIG_CLASSIC, HRL_LOOKUP_SIG_CLASSIC, VID_GATE_SIG_CLASSIC,
};
use crate::engine::space;
use crate::engine::space::TableEntry;
use crate::engine::stubs;
use crate::engine::vid;
use crate::error::{Anchor, FwError, Reason};
use crate::program::AsmOp;
use crate::raw;
use crate::sig;
use crate::thumb;
use crate::thumb::BranchShape;
use vstd::prelude::*;

verus! {

/// Start of the window that holds the classic RPC-state emitter.
pub const CLASSIC_EMITTER_LO: usize = 0x0015_0000;

/// End of the window that holds the classic RPC-state emitter.
pub const CLASSIC_EMITTER_HI: usize = 0x0016_0000;

/// Instructions within which a revocation check has to follow its lookup.
pub const CHECK_STEPS: usize = 40;

/// The classic Region detour; the emitter is looked for in the image being patched.
pub open spec fn region_emission_classic(
    out: Seq<u8>,
    table: Seq<TableEntry>,
    flag_base: u32,
) -> Result<(Seq<u8>, u32, u32), FwError> {
    emit::region_emission_at(
        gates::region_emitter_in(out, CLASSIC_EMITTER_LO as int, CLASSIC_EMITTER_HI as int),
        out,
        table,
        flag_base,
        Reason::ClassicRegionRange,
    )
}

/// What the classic Raw-read lever wrote, and what it rests on.
#[derive(Debug, Clone, Copy, PartialEq, Eq, Structural)]
pub struct ClassicRawRead {
    /// The Volume ID gate's compare, where its call is.
    pub gatea_gate: u32,
    /// Volume ID gate stub.
    pub gatea_stub_va: u32,
    /// Where an authenticated read goes on.
    pub gatea_authed: u32,
    /// Where the AKE call is.
    pub ake_site: u32,
    /// AKE stub.
    pub ake_stub_va: u32,
    /// AKE gate.
    pub ake_gate: u32,
    /// The deny path, which stays as it is.
    pub deny: u32,
    /// The buffer that the producer stages into, or 0.
    pub scratch: u32,
    /// The Volume ID producer, or 0.
    pub vid_producer: u32,
}

/// What the classic Raw-read lever needs before anything is written.
pub struct ClassicGrounds {
    /// The Volume ID gate's compare.
    pub gatea_site: int,
    /// The deny path.
    pub deny: u32,
    /// The VID gate's stub.
    pub gatea: Seq<AsmOp>,
    /// The producer and its buffer, or zeros.
    pub producer: (u32, u32),
    /// The AKE gate.
    pub ake: int,
    /// The AKE stub.
    pub ake_ops: Seq<AsmOp>,
}

/// The classic AKE gate at `ake`: its reject writer is in place.
pub open spec fn classic_ake_grounds(
    img: Seq<u8>,
    flag_base: u32,
    gatea_site: int,
    deny: u32,
    gatea: Seq<AsmOp>,
) -> Result<ClassicGrounds, FwError> {
    match sig::only(
        sig::find_loose(img, AKE_GATE_SIG_CLASSIC@, 0, img.len() as int),
        Anchor::ClassicAkeGate,
        0,
        img.len() as int,
    ) {
        Err(e) => Err(e),
        Ok(ake) => if raw::hw_at(img, ake + 6) != 0x0980 || raw::hw_at(img, ake + 8) != 0x2101 {
            Err(
                FwError::Refused(
                    Reason::ClassicAkeWriter {
                        at: (ake + 6) as u32,
                        first: raw::hw_at(img, ake + 6),
                        second: raw::hw_at(img, ake + 8),
                    },
                ),
            )
        } else {
            Ok(
                ClassicGrounds {
                    gatea_site,
                    deny,
                    gatea,
                    producer: create::or_zeros(vid::vid_producer(img)),
                    ake: ake as int,
                    ake_ops: stubs::ake_classic_program(flag_base, (ake + 10) as u32),
                },
            )
        },
    }
}

/// What the classic Raw-read lever needs, or what is missing. The session struct is
/// the command block.
pub open spec fn classic_grounds(img: Seq<u8>, flag_base: u32) -> Result<ClassicGrounds, FwError> {
    match sig::only(
        sig::find_loose(img, VID_GATE_SIG_CLASSIC@, 0, img.len() as int),
        Anchor::ClassicVidGate,
        0,
        img.len() as int,
    ) {
        Err(e) => Err(e),
        Ok(gate) => {
            let at = gate + 30;
            let h = raw::hw_at(img, at + 2);
            let deny = code::address(code::cond_target(at + 2, h));
            if raw::hw_at(img, at) != 0x2806 {
                Err(
                    FwError::Refused(
                        Reason::ClassicGateCompare { at: at as u32, got: raw::hw_at(img, at) },
                    ),
                )
            } else if h / 256 != 0xD1 {
                Err(FwError::Refused(Reason::ClassicGateBranch { at: (at + 2) as u32, got: h }))
            } else {
                match (scanner::cdb_base(img), vid::session_reset(img)) {
                    (Err(e), _) => Err(e),
                    (_, Err(e)) => Err(e),
                    (Ok(agid), Ok(reset)) => classic_ake_grounds(
                        img,
                        flag_base,
                        at,
                        deny,
                        stubs::gatea_program(flag_base, agid, (at + 4) as u32, deny, reset),
                    ),
                }
            }
        },
    }
}

/// The classic Raw-read detours: the Volume ID gate and the AKE accept. The deny path
/// is left alone.
pub open spec fn rawread_emission_classic(
    img: Seq<u8>,
    out: Seq<u8>,
    table: Seq<TableEntry>,
    flag_base: u32,
) -> Result<(Seq<u8>, ClassicRawRead), FwError> {
    match classic_grounds(img, flag_base) {
        Err(e) => Err(e),
        Ok(g) => match emit::with_detour(
            out,
            table,
            BranchShape::Bl,
            g.gatea_site,
            emit::code_of(g.gatea),
            Reason::ClassicGateRange,
        ) {
            Err(e) => Err(e),
            Ok((w1, gatea_va)) => match emit::with_detour(
                w1,
                table,
                BranchShape::Bl,
                g.ake + 6,
                emit::code_of(g.ake_ops),
                Reason::ClassicAkeRange,
            ) {
                Err(e) => Err(e),
                Ok((w2, ake_va)) => Ok(
                    (
                        w2,
                        ClassicRawRead {
                            gatea_gate: g.gatea_site as u32,
                            gatea_stub_va: gatea_va,
                            gatea_authed: (g.gatea_site + 4) as u32,
                            ake_site: (g.ake + 6) as u32,
                            ake_stub_va: ake_va,
                            ake_gate: g.ake as u32,
                            deny: g.deny,
                            scratch: g.producer.1,
                            vid_producer: g.producer.0,
                        },
                    ),
                ),
            },
        },
    }
}

/// The check that `n` instructions from `p` on lead to; one jump is followed.
pub open spec fn classic_check(img: Seq<u8>, p: int, hopped: bool, n: nat) -> Option<usize>
    decreases n,
{
    if n == 0 || p < 0 || p + 4 > img.len() {
        None
    } else if raw::hw_at(img, p) == 0x2800 && raw::hw_at(img, p + 2) / 256 == 0xD1 {
        Some(p as usize)
    } else if !hopped && raw::hw_at(img, p) / 2048 == 28 {
        classic_check(img, code::jump_target(p, raw::hw_at(img, p)), true, (n - 1) as nat)
    } else {
        classic_check(img, p + 2, hopped, (n - 1) as nat)
    }
}

/// The check that a call of `lookup` at `o` leads to.
pub open spec fn classic_checked_call(img: Seq<u8>, o: int, lookup: u32) -> Option<usize> {
    if thumb::branch_target(BranchShape::Bl, img, o) == Some(lookup) {
        classic_check(img, o + 4, false, CHECK_STEPS as nat)
    } else {
        None
    }
}

/// The checks that calls of `lookup` from `o` on lead to.
pub open spec fn classic_checks(img: Seq<u8>, o: int, lookup: u32) -> Seq<usize>
    decreases img.len() - o,
{
    if o + 4 > img.len() {
        Seq::empty()
    } else {
        match classic_checked_call(img, o, lookup) {
            Some(p) => seq![p] + classic_checks(img, o + 2, lookup),
            None => classic_checks(img, o + 2, lookup),
        }
    }
}

/// The classic revoke path starts at `t`: `ldrb r0,[r5,#2]; cmp r0,#0; bne; movs
/// r0,#0x6f`.
pub open spec fn classic_revoke_head(img: Seq<u8>, t: int) -> bool {
    &&& t + 8 <= img.len()
    &&& raw::hw_at(img, t) == 0x78A8
    &&& raw::hw_at(img, t + 2) == 0x2800
    &&& raw::hw_at(img, t + 4) / 256 == 0xD1
    &&& raw::hw_at(img, t + 6) == 0x206F
}

/// The checks of the classic revocation lookup and the revoke path that they share.
pub open spec fn classic_hrl_sites(img: Seq<u8>) -> Result<(Seq<usize>, u32), FwError> {
    match sig::only(
        sig::find_loose(img, HRL_LOOKUP_SIG_CLASSIC@, 0, img.len() as int),
        Anchor::ClassicHrlLookup,
        0,
        img.len() as int,
    ) {
        Err(e) => Err(e),
        Ok(lookup) => {
            let sites = classic_checks(img, 0, lookup as u32);
            match code::agreed(
                gates::revoke_targets(img, sites),
                FwError::Refused(Reason::ClassicHrlSites),
                FwError::Refused(Reason::ClassicHrlDisagree),
            ) {
                Err(e) => Err(e),
                Ok(t) => if classic_revoke_head(img, t as int) {
                    Ok((sites, t))
                } else {
                    Err(FwError::Refused(Reason::ClassicHrlHead { at: t }))
                },
            }
        },
    }
}

/// The classic revocation detours.
pub open spec fn hrl_emission_classic(
    img: Seq<u8>,
    out: Seq<u8>,
    table: Seq<TableEntry>,
    flag_base: u32,
) -> Result<(Seq<u8>, Seq<u32>, u32), FwError> {
    match classic_hrl_sites(img) {
        Err(e) => Err(e),
        Ok((sites, revoke)) => match emit::with_shared_detour(
            out,
            table,
            sites,
            emit::code_of(stubs::hrl_skip_program(flag_base, revoke)),
            Checks::Classic,
        ) {
            Ok((w, va)) => Ok((w, rawread::addresses(sites), va)),
            Err(e) => Err(e),
        },
    }
}

fn find_classic_check(image: &[u8], start: usize) -> (r: Option<usize>)
    requires
        raw::addressable(image@),
        start <= image@.len(),
    ensures
        r == classic_check(image@, start as int, false, CHECK_STEPS as nat),
        r matches Some(p) ==> p + 4 <= image@.len(),
{
    let len: usize = image.len();
    let mut p: usize = start;
    let mut hopped: bool = false;
    let mut n: usize = CHECK_STEPS;
    while n > 0 && p + 4 <= len
        invariant
            raw::addressable(image@),
            len == image@.len(),
            p <= len + 0x1000,
            classic_check(image@, start as int, false, CHECK_STEPS as nat) == classic_check(
                image@,
                p as int,
                hopped,
                n as nat,
            ),
        decreases n,
    {
        let h: u16 = raw::halfword(image, p);
        if h == 0x2800 && raw::halfword(image, p + 2) / 256 == 0xD1 {
            return Some(p);
        }
        if !hopped && h / 2048 == 28 {
            let imm: usize = (h % 2048) as usize;
            if imm >= 1024 {
                let back: usize = 2 * (2048 - imm);
                if p + 4 < back {
                    assert(classic_check(
                        image@,
                        code::jump_target(p as int, h),
                        true,
                        (n - 1) as nat,
                    ) is None);
                    return None;
                }
                p = p + 4 - back;
            } else {
                p = p + 4 + 2 * imm;
            }
            hopped = true;
        } else {
            p += 2;
        }
        n -= 1;
    }
    None
}

impl Mt1959Engine {
    /// The classic session struct: the producer reads the AGID off the command block.
    pub fn find_vid_agid_struct_classic(&self, image: &[u8]) -> (r: Result<u32, FwError>)
        requires
            raw::addressable(image@),
        ensures
            r == scanner::cdb_base(image@),
    {
        self.find_cdb_base(image)
    }

    /// Installs the classic Region detour.
    pub fn emit_region_classic(
        &self,
        out: &mut Vec<u8>,
        table: &Vec<TableEntry>,
        flag_base: u32,
    ) -> (r: Result<(u32, u32), FwError>)
        requires
            raw::addressable(old(out)@),
            detours::flags_fit(flag_base),
        ensures
            emit::emitted(
                r,
                old(out)@,
                final(out)@,
                region_emission_classic(old(out)@, table@, flag_base),
            ),
            final(out)@.len() == old(out)@.len(),
    {
        let at: u32 = match self.find_region_emitter_in(
            out.as_slice(),
            CLASSIC_EMITTER_LO,
            CLASSIC_EMITTER_HI,
        ) {
            Ok(at) => at,
            Err(e) => return Err(e),
        };
        let stub: Vec<u8> = match self.build_region_stub(flag_base) {
            Ok(v) => v,
            Err(e) => return Err(e),
        };
        match self.install_call(out, table, at as usize + 6, &stub, Reason::ClassicRegionRange) {
            Ok(va) => Ok((at, va)),
            Err(e) => Err(e),
        }
    }

    /// Installs the classic Raw-read detours. Everything is checked before anything is
    /// written, and `out` is replaced only when all of it is done.
    pub fn emit_rawread_classic(
        &self,
        image: &[u8],
        out: &mut Vec<u8>,
        table: &Vec<TableEntry>,
        flag_base: u32,
    ) -> (r: Result<ClassicRawRead, FwError>)
        requires
            raw::addressable(image@),
            old(out)@.len() == image@.len(),
            detours::flags_fit(flag_base),
        ensures
            match (r, rawread_emission_classic(image@, old(out)@, table@, flag_base)) {
                (Ok(f), Ok((w, v))) => f == v && final(out)@ == w,
                (Err(e), Err(f)) => e == f && final(out)@ == old(out)@,
                _ => false,
            },
            final(out)@.len() == old(out)@.len(),
    {
        let len: usize = image.len();
        let gates_found: Vec<usize> = sig::masked_matches(image, &VID_GATE_SIG_CLASSIC, 0, len);
        if gates_found.len() != 1 {
            return Err(
                FwError::Matches {
                    what: Anchor::ClassicVidGate,
                    count: gates_found.len(),
                    lo: 0,
                    hi: len,
                },
            );
        }
        let at: usize = gates_found[0] + 30;
        if raw::halfword(image, at) != 0x2806 {
            return Err(
                FwError::Refused(
                    Reason::ClassicGateCompare { at: at as u32, got: raw::halfword(image, at) },
                ),
            );
        }
        let h: u16 = raw::halfword(image, at + 2);
        if h / 256 != 0xD1 {
            return Err(
                FwError::Refused(Reason::ClassicGateBranch { at: (at + 2) as u32, got: h }),
            );
        }
        let deny: u32 = code::cond_branch(at + 2, h);
        let agid: u32 = match self.find_vid_agid_struct_classic(image) {
            Ok(a) => a,
            Err(e) => return Err(e),
        };
        let reset: u32 = match self.find_aacs_session_reset(image) {
            Ok(a) => a,
            Err(e) => return Err(e),
        };
        let gatea: Vec<u8> = match self.build_gatea_stub(
            flag_base,
            agid,
            (at + 4) as u32,
            deny,
            reset,
        ) {
            Ok(v) => v,
            Err(e) => return Err(e),
        };
        let (vid_producer, scratch): (u32, u32) = create::places_or_zeros(
            self.find_vid_producer(image),
        );
        let akes_found: Vec<usize> = sig::masked_matches(image, &AKE_GATE_SIG_CLASSIC, 0, len);
        if akes_found.len() != 1 {
            return Err(
                FwError::Matches {
                    what: Anchor::ClassicAkeGate,
                    count: akes_found.len(),
                    lo: 0,
                    hi: len,
                },
            );
        }
        let ake: usize = akes_found[0];
        if raw::halfword(image, ake + 6) != 0x0980 || raw::halfword(image, ake + 8) != 0x2101 {
            return Err(
                FwError::Refused(
                    Reason::ClassicAkeWriter {
                        at: (ake + 6) as u32,
                        first: raw::halfword(image, ake + 6),
                        second: raw::halfword(image, ake + 8),
                    },
                ),
            );
        }
        let ake_stub: Vec<u8> = match self.build_ake_stub_classic(flag_base, (ake + 10) as u32) {
            Ok(v) => v,
            Err(e) => return Err(e),
        };
        let mut w: Vec<u8> = out.clone();
        assert(w@ =~= out@);
        let gatea_stub_va: u32 = match self.install_call(
            &mut w,
            table,
            at,
            &gatea,
            Reason::ClassicGateRange,
        ) {
            Ok(va) => va,
            Err(e) => return Err(e),
        };
        let ake_stub_va: u32 = match self.install_call(
            &mut w,
            table,
            ake + 6,
            &ake_stub,
            Reason::ClassicAkeRange,
        ) {
            Ok(va) => va,
            Err(e) => return Err(e),
        };
        *out = w;
        Ok(
            ClassicRawRead {
                gatea_gate: at as u32,
                gatea_stub_va,
                gatea_authed: (at + 4) as u32,
                ake_site: (ake + 6) as u32,
                ake_stub_va,
                ake_gate: ake as u32,
                deny,
                scratch,
                vid_producer,
            },
        )
    }

    /// The checks of the classic revocation lookup's result and the revoke path that
    /// they share.
    pub fn find_hrl_sites_classic(&self, image: &[u8]) -> (r: Result<(Vec<usize>, u32), FwError>)
        requires
            raw::addressable(image@),
        ensures
            match (r, classic_hrl_sites(image@)) {
                (Ok((v, t)), Ok((s, u))) => v@ == s && t == u,
                (Err(e), Err(f)) => e == f,
                _ => false,
            },
            r matches Ok((v, _)) ==> forall|i: int|
                0 <= i < v@.len() ==> #[trigger] v@[i] + 4 <= image@.len(),
    {
        let len: usize = image.len();
        let found: Vec<usize> = sig::masked_matches(image, &HRL_LOOKUP_SIG_CLASSIC, 0, len);
        if found.len() != 1 {
            return Err(
                FwError::Matches {
                    what: Anchor::ClassicHrlLookup,
                    count: found.len(),
                    lo: 0,
                    hi: len,
                },
            );
        }
        let lookup: u32 = found[0] as u32;
        let mut sites: Vec<usize> = Vec::new();
        let mut targets: Vec<u32> = Vec::new();
        let mut o: usize = 0;
        while o + 4 <= len
            invariant
                raw::addressable(image@),
                len == image@.len(),
                o <= len,
                classic_checks(image@, 0, lookup) == sites@ + classic_checks(
                    image@,
                    o as int,
                    lookup,
                ),
                targets@ == gates::revoke_targets(image@, sites@),
                forall|i: int| 0 <= i < sites@.len() ==> #[trigger] sites@[i] + 4 <= len,
            decreases len + 4 - o,
        {
            match thumb_asm::decode_bl(image, o) {
                Some(t) => {
                    if t == lookup {
                        match find_classic_check(image, o + 4) {
                            Some(p) => {
                                let ghost before = sites@;
                                sites.push(p);
                                targets.push(
                                    code::cond_branch(p + 2, raw::halfword(image, p + 2)),
                                );
                                proof {
                                    let rest = classic_checks(image@, o + 2, lookup);
                                    assert(before + (seq![p] + rest) =~= before.push(p) + rest);
                                }
                            },
                            None => {},
                        }
                    }
                },
                None => {},
            }
            o += 2;
        }
        proof {
            assert(sites@ + Seq::<usize>::empty() =~= sites@);
        }
        let t: u32 = match code::agree(
            &targets,
            FwError::Refused(Reason::ClassicHrlSites),
            FwError::Refused(Reason::ClassicHrlDisagree),
        ) {
            Ok(t) => t,
            Err(e) => return Err(e),
        };
        if len < 8 || t as usize > len - 8 {
            return Err(FwError::Refused(Reason::ClassicHrlHead { at: t }));
        }
        let at: usize = t as usize;
        if raw::halfword(image, at) != 0x78A8 || raw::halfword(image, at + 2) != 0x2800
            || raw::halfword(image, at + 4) / 256 != 0xD1 || raw::halfword(image, at + 6)
            != 0x206F {
            return Err(FwError::Refused(Reason::ClassicHrlHead { at: t }));
        }
        Ok((sites, t))
    }

    /// Installs the classic revocation detours: one stub, a call of it at every check;
    /// nothing is written unless every call reaches.
    pub fn emit_hrl_classic(
        &self,
        image: &[u8],
        out: &mut Vec<u8>,
        table: &Vec<TableEntry>,
        flag_base: u32,
    ) -> (r: Result<(Vec<u32>, u32), FwError>)
        requires
            raw::addressable(image@),
            old(out)@.len() == image@.len(),
            detours::flags_fit(flag_base),
        ensures
            match (r, hrl_emission_classic(image@, old(out)@, table@, flag_base)) {
                (Ok((v, va)), Ok((w, s, a))) => v@ == s && va == a && final(out)@ == w,
                (Err(e), Err(f)) => e == f && final(out)@ == old(out)@,
                _ => false,
            },
            final(out)@.len() == old(out)@.len(),
    {
        let (sites, revoke): (Vec<usize>, u32) = match self.find_hrl_sites_classic(image) {
            Ok(s) => s,
            Err(e) => return Err(e),
        };
        let stub: Vec<u8> = match self.build_hrl_skip_stub(flag_base, revoke) {
            Ok(v) => v,
            Err(e) => return Err(e),
        };
        match self.install_shared(out, table, &sites, &stub, Checks::Classic) {
            Ok(va) => Ok((rawread::to_addresses(&sites), va)),
            Err(e) => Err(e),
        }
    }
}

/// The boot hook of a classic image, where its call is known and the hook fits.
pub open spec fn classic_boot(img: Seq<u8>, b: base::Base, table: Seq<TableEntry>) -> Result<
    (Seq<u8>, u32, u32),
    FwError,
> {
    match boot::boot_init_pair(img) {
        Err(e) => Err(e),
        Ok(pair) => emit::boot_emission(img, b.image, table, b.flag_base, pair),
    }
}

/// The classic detours that ride on the boot hook, and the image they leave.
pub struct ClassicFeatures {
    /// The image.
    pub image: Seq<u8>,
    /// The RPC-state emitter and its stub, or zeros.
    pub region: (u32, u32),
    /// The Raw-read detours, or `None`.
    pub rawread: Option<ClassicRawRead>,
    /// The UHD call and its stub, or zeros.
    pub uhd: (u32, u32),
    /// The BD call and its stub, or zeros.
    pub bd: (u32, u32),
    /// The revocation calls and their stub.
    pub hrl: (Seq<u32>, u32),
}

/// A detour that is planned and fits, or the image as it is.
pub open spec fn tried(
    plan: Result<(usize, Seq<AsmOp>), FwError>,
    w: Seq<u8>,
    table: Seq<TableEntry>,
    out_of_range: Reason,
) -> (Seq<u8>, u32, u32) {
    create::or_unwired(w, rawread::optional_emission(plan, w, table, out_of_range))
}

/// Every classic feature that the image has a place for: Region, Raw read, UHD, BD,
/// revocation.
#[verifier::opaque]
pub open spec fn classic_features(
    img: Seq<u8>,
    out: Seq<u8>,
    table: Seq<TableEntry>,
    flag_base: u32,
) -> ClassicFeatures {
    let r = create::or_unwired(out, region_emission_classic(out, table, flag_base));
    let (w2, f) = match rawread_emission_classic(img, r.0, table, flag_base) {
        Ok((w, f)) => (w, Some(f)),
        Err(_) => (r.0, None),
    };
    let u = tried(detours::uhd_plan(img, flag_base), w2, table, Reason::UhdRange);
    let b = tried(detours::bd_plan(img, flag_base), u.0, table, Reason::BdRange);
    let (w5, sites, va) = match hrl_emission_classic(img, b.0, table, flag_base) {
        Ok(h) => h,
        Err(_) => (b.0, Seq::empty(), 0),
    };
    ClassicFeatures {
        image: w5,
        region: (r.1, r.2),
        rawread: f,
        uhd: (u.1, u.2),
        bd: (b.1, b.2),
        hrl: (sites, va),
    }
}

/// The features of an image without a boot hook: none.
pub open spec fn no_features(out: Seq<u8>) -> ClassicFeatures {
    ClassicFeatures {
        image: out,
        region: (0, 0),
        rawread: None,
        uhd: (0, 0),
        bd: (0, 0),
        hrl: (Seq::empty(), 0),
    }
}

/// The Raw-read detours, or zeros.
pub open spec fn rawread_or_zeros(f: Option<ClassicRawRead>) -> ClassicRawRead {
    match f {
        Some(v) => v,
        None => ClassicRawRead {
            gatea_gate: 0,
            gatea_stub_va: 0,
            gatea_authed: 0,
            ake_site: 0,
            ake_stub_va: 0,
            ake_gate: 0,
            deny: 0,
            scratch: 0,
            vid_producer: 0,
        },
    }
}

/// The boot hook and the features that ride on it: without the hook there is none.
pub open spec fn classic_body(img: Seq<u8>, b: base::Base, table: Seq<TableEntry>) -> (
    (u32, u32),
    ClassicFeatures,
) {
    match classic_boot(img, b, table) {
        Ok((out, site, va)) => ((site, va), classic_features(img, out, table, b.flag_base)),
        Err(_) => ((0, 0), no_features(b.image)),
    }
}

/// Firmware for a classic image.
pub open spec fn create_classic(img: Seq<u8>, layout: Layout) -> Result<Created, FwError> {
    if modify::carries_magic(img) {
        Err(FwError::Refused(Reason::AlreadyPatched))
    } else {
        match base::classic_base(img, layout) {
            Err(e) => Err(e),
            Ok(b) => {
                let (boot, f) = classic_body(img, b, layout.covered@);
                let raw = rawread_or_zeros(f.rawread);
                Ok(
                    Created {
                        image: scanner::repointed(
                            create::with_de(img, f.image),
                            b.record,
                            create::entry_pointer(b.handler_va),
                        ),
                        scanner_entry: create::or_zero(scanner::scanner_entry(img)),
                        cdb_base: create::or_zero(scanner::cdb_base(img)),
                        sense_setter: create::or_zero(scanner::sense_setter_of(img)),
                        record: b.record,
                        handler_va: b.handler_va,
                        handler_bytes: b.handler,
                        boot_init_site: boot.0,
                        boot_stub_va: boot.1,
                        boot_function_entry: b.boot_entry,
                        vid_producer: raw.vid_producer,
                        vid_out_buf: 0,
                        vid_gate_setter: 0,
                        setdiscmode: 0,
                        speed_gate: 0,
                        speed_stub_va: 0,
                        region_emitter: f.region.0,
                        region_stub_va: f.region.1,
                        ake_gate: raw.ake_gate,
                        ake_stub_va: raw.ake_stub_va,
                        gatea_gate: raw.gatea_gate,
                        gatea_stub_va: raw.gatea_stub_va,
                        deny_reset_gate: raw.deny,
                        deny_stub_va: 0,
                        uhd_classifier_site: f.uhd.0,
                        uhd_stub_va: f.uhd.1,
                        bd_gate_site: f.bd.0,
                        bd_stub_va: f.bd.1,
                        hrl_sites: f.hrl.0,
                        hrl_stub_va: f.hrl.1,
                        de_off: create::or_zero(gates::de_byte(img)),
                        flag_base: b.flag_base,
                        free_sram_cell: b.flag_base,
                    },
                )
            },
        }
    }
}

/// Without the boot hook that fills the flag table at power-on, a classic image gets
/// no feature detour: a flag that reads zero would switch the feature off.
pub proof fn law_no_classic_feature_without_boot_hook(img: Seq<u8>, layout: Layout, c: Created)
    requires
        create_classic(img, layout) == Ok::<Created, FwError>(c),
        c.boot_stub_va == 0,
        raw::addressable(img),
    ensures
        c.region_stub_va == 0,
        c.gatea_stub_va == 0,
        c.ake_stub_va == 0,
        c.uhd_stub_va == 0,
        c.bd_stub_va == 0,
        c.hrl_stub_va == 0,
        c.hrl_sites.len() == 0,
{
    let b = base::classic_base(img, layout)->Ok_0;
    match classic_boot(img, b, layout.covered@) {
        Ok((out, site, va)) => {
            let pair = boot::boot_init_pair(img)->Ok_0;
            let home = flash::nv_block(img)->Ok_0;
            let stub = emit::code_of(
                handler::boot_program(b.flag_base, pair.1, home),
            );
            space::law_free_space_is_blank_and_covered(
                b.image,
                layout.covered@,
                (stub.len() + emit::SPARE) as int,
                va,
            );
        },
        Err(_) => {},
    }
}

/// Zeros, or the Raw-read detours.
fn rawread_or_none(f: Result<ClassicRawRead, FwError>) -> (r: ClassicRawRead)
    ensures
        r == rawread_or_zeros(f.ok()),
{
    match f {
        Ok(v) => v,
        Err(_) => ClassicRawRead {
            gatea_gate: 0,
            gatea_stub_va: 0,
            gatea_authed: 0,
            ake_site: 0,
            ake_stub_va: 0,
            ake_gate: 0,
            deny: 0,
            scratch: 0,
            vid_producer: 0,
        },
    }
}

/// The classic features as they were installed.
struct ClassicWork {
    region: (u32, u32),
    rawread: ClassicRawRead,
    uhd: (u32, u32),
    bd: (u32, u32),
    hrl: (Vec<u32>, u32),
}

/// `w` over `image` is `f`.
spec fn did(w: ClassicWork, image: Seq<u8>, f: ClassicFeatures) -> bool {
    &&& image == f.image
    &&& w.region == f.region
    &&& w.rawread == rawread_or_zeros(f.rawread)
    &&& w.uhd == f.uhd
    &&& w.bd == f.bd
    &&& w.hrl.0@ == f.hrl.0
    &&& w.hrl.1 == f.hrl.1
}

impl Mt1959Engine {
    /// Installs a planned detour; `None` where there is no room for it or its branch
    /// does not reach.
    pub fn commit_classic_detour(
        &self,
        out: &mut Vec<u8>,
        table: &Vec<TableEntry>,
        site: usize,
        bytes: &Vec<u8>,
        out_of_range: Reason,
    ) -> (r: Option<u32>)
        requires
            raw::addressable(old(out)@),
            site + 4 <= old(out)@.len(),
        ensures
            match (
                r,
                emit::with_detour(
                    old(out)@,
                    table@,
                    BranchShape::Bl,
                    site as int,
                    bytes@,
                    out_of_range,
                ),
            ) {
                (Some(va), Ok((img, v))) => va == v && final(out)@ == img,
                (None, Err(_)) => final(out)@ == old(out)@,
                _ => false,
            },
            final(out)@.len() == old(out)@.len(),
    {
        match self.install_call(out, table, site, bytes, out_of_range) {
            Ok(va) => Some(va),
            Err(_) => None,
        }
    }

    /// Tries a detour; answers its place and its stub, or zeros.
    fn try_detour(
        &self,
        out: &mut Vec<u8>,
        table: &Vec<TableEntry>,
        detour: Result<(usize, Vec<u8>), FwError>,
        out_of_range: Reason,
        Ghost(plan): Ghost<Result<(usize, Seq<AsmOp>), FwError>>,
    ) -> (r: (u32, u32))
        requires
            raw::addressable(old(out)@),
            detours::realises(detour, plan),
            detour matches Ok((site, _)) ==> site + 4 <= old(out)@.len(),
        ensures
            (final(out)@, r.0, r.1) == tried(plan, old(out)@, table@, out_of_range),
            final(out)@.len() == old(out)@.len(),
    {
        match detour {
            Ok((site, bytes)) => match self.commit_classic_detour(
                out,
                table,
                site,
                &bytes,
                out_of_range,
            ) {
                Some(va) => (site as u32, va),
                None => (0, 0),
            },
            Err(_) => (0, 0),
        }
    }

    /// Installs every classic feature that the image has a place for.
    fn emit_classic_features(
        &self,
        image: &[u8],
        out: &mut Vec<u8>,
        table: &Vec<TableEntry>,
        flag_base: u32,
    ) -> (r: ClassicWork)
        requires
            raw::addressable(image@),
            old(out)@.len() == image@.len(),
            detours::flags_fit(flag_base),
        ensures
            did(r, final(out)@, classic_features(image@, old(out)@, table@, flag_base)),
            final(out)@.len() == old(out)@.len(),
    {
        proof {
            reveal(classic_features);
        }
        let region: (u32, u32) = create::places_or_zeros(
            self.emit_region_classic(out, table, flag_base),
        );
        let rawread: ClassicRawRead = rawread_or_none(
            self.emit_rawread_classic(image, out, table, flag_base),
        );
        let uhd_detour: Result<(usize, Vec<u8>), FwError> = self.uhd_detour(image, flag_base);
        let uhd: (u32, u32) = self.try_detour(
            out,
            table,
            uhd_detour,
            Reason::UhdRange,
            Ghost(detours::uhd_plan(image@, flag_base)),
        );
        let bd_detour: Result<(usize, Vec<u8>), FwError> = self.bd_detour(image, flag_base);
        let bd: (u32, u32) = self.try_detour(
            out,
            table,
            bd_detour,
            Reason::BdRange,
            Ghost(detours::bd_plan(image@, flag_base)),
        );
        let hrl: (Vec<u32>, u32) = match self.emit_hrl_classic(image, out, table, flag_base) {
            Ok(h) => h,
            Err(_) => (Vec::new(), 0),
        };
        ClassicWork { region, rawread, uhd, bd, hrl }
    }

    /// Installs the boot hook of a classic image.
    fn emit_classic_boot(
        &self,
        image: &[u8],
        out: &mut Vec<u8>,
        table: &Vec<TableEntry>,
        flag_base: u32,
        Ghost(b): Ghost<base::Base>,
    ) -> (r: Result<(u32, u32), FwError>)
        requires
            raw::addressable(image@),
            old(out)@.len() == image@.len(),
            b.image == old(out)@,
            b.flag_base == flag_base,
        ensures
            emit::emitted(r, old(out)@, final(out)@, classic_boot(image@, b, table@)),
            final(out)@.len() == old(out)@.len(),
    {
        match self.resolve_boot_init_pair(image) {
            Ok(pair) => self.emit_boot_init(image, out, table, flag_base, pair),
            Err(e) => Err(e),
        }
    }

    /// Builds firmware from a classic image. The boot hook goes first, and every
    /// feature rides on it: where the hook cannot be installed only the base is built.
    /// What is built is recognised as patched.
    pub fn build_report_classic(&self, image: &[u8], layout: &Layout) -> (r: Result<
        CreateReport,
        FwError,
    >)
        requires
            raw::addressable(image@),
            layout.fits(),
        ensures
            create::created(r, create_classic(image@, *layout)),
            r matches Ok(c) ==> modify::carries_magic(c@.image),
    {
        let r: Result<CreateReport, FwError> = self.compose_report_classic(image, layout);
        proof {
            if r is Ok {
                marks::lemma_classic_create_recognised(image@, *layout, r->Ok_0@);
            }
        }
        r
    }

    /// [`Mt1959Engine::build_report_classic`], and that the base it rests on is workable.
    fn compose_report_classic(&self, image: &[u8], layout: &Layout) -> (r: Result<
        CreateReport,
        FwError,
    >)
        requires
            raw::addressable(image@),
            layout.fits(),
        ensures
            create::created(r, create_classic(image@, *layout)),
            r is Ok ==> (base::classic_base(image@, *layout) matches Ok(b) && base::workable(
                b,
                image@.len(),
            )),
    {
        if modify::is_freemkv_patched(image) {
            return Err(FwError::Refused(Reason::AlreadyPatched));
        }
        let b: BaseImage = match self.build_classic_base(image, layout) {
            Ok(b) => b,
            Err(e) => return Err(e),
        };
        let ghost plan = b@;
        let table: &Vec<TableEntry> = &layout.covered;
        let flag_base: u32 = b.flag_base;
        let mut out: Vec<u8> = b.image;
        let (boot_init_site, boot_stub_va): (u32, u32);
        let work: ClassicWork;
        match self.emit_classic_boot(image, &mut out, table, flag_base, Ghost(plan)) {
            Ok((site, va)) => {
                boot_init_site = site;
                boot_stub_va = va;
                work = self.emit_classic_features(image, &mut out, table, flag_base);
            },
            Err(_) => {
                boot_init_site = 0;
                boot_stub_va = 0;
                work =
                ClassicWork {
                    region: (0, 0),
                    rawread: rawread_or_none(Err(FwError::Refused(Reason::BootUnknown))),
                    uhd: (0, 0),
                    bd: (0, 0),
                    hrl: (Vec::new(), 0),
                };
                assert(did(work, out@, no_features(plan.image)));
            },
        }
        let ghost body = classic_body(image@, plan, table@);
        assert(body.0 == (boot_init_site, boot_stub_va));
        assert(did(work, out@, body.1));
        let de_off: u32 = self.write_de(image, &mut out);
        scanner::repoint(&mut out, &b.record, b.handler_va + 1);
        Ok(
            CreateReport {
                image: out,
                scanner_entry: create::place_or_zero(self.find_scanner_entry(image)),
                cdb_base: create::place_or_zero(self.find_cdb_base(image)),
                sense_setter: create::place_or_zero(self.sense_setter(image)),
                record: b.record,
                handler_va: b.handler_va,
                handler_bytes: b.handler,
                boot_init_site,
                boot_stub_va,
                boot_function_entry: b.boot_entry,
                vid_producer: work.rawread.vid_producer,
                vid_out_buf: 0,
                vid_gate_setter: 0,
                setdiscmode: 0,
                speed_gate: 0,
                speed_stub_va: 0,
                region_emitter: work.region.0,
                region_stub_va: work.region.1,
                ake_gate: work.rawread.ake_gate,
                ake_stub_va: work.rawread.ake_stub_va,
                gatea_gate: work.rawread.gatea_gate,
                gatea_stub_va: work.rawread.gatea_stub_va,
                deny_reset_gate: work.rawread.deny,
                deny_stub_va: 0,
                uhd_classifier_site: work.uhd.0,
                uhd_stub_va: work.uhd.1,
                bd_gate_site: work.bd.0,
                bd_stub_va: work.bd.1,
                hrl_sites: work.hrl.0,
                hrl_stub_va: work.hrl.1,
                de_off,
                flag_base,
                free_sram_cell: flag_base,
            },
        )
    }
}

} // verus!
