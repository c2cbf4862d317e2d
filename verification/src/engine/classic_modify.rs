//! Modifying a classic MT1939 image lever by lever.
use crate::engine::audit;
use crate::engine::base;
use crate::engine::base::{BaseImage, Layout};
use crate::engine::changes;
use crate::engine::classic_audited;
use crate::engine::create;
use crate::engine::detours;
use crate::engine::landing;
use crate::engine::lever;
use crate::engine::lever::{Fact, Lever, LeverId, LeverReport, Modified, ModifyReport};
use crate::engine::marks;
use crate::engine::modify;
use crate::engine::mt1939_classic;
use crate::engine::mt1939_classic::ClassicRawRead;
use crate::engine::mt1959::Mt1959Engine;
use crate::engine::scanner;
use crate::engine::space::TableEntry;
use crate::error::FwError;
use crate::family::{Capability, ChipInfo};
use crate::raw;
use vstd::prelude::*;

verus! {

/// The facts of a classic Raw-read emission.
pub open spec fn classic_rawread_facts(f: ClassicRawRead) -> Seq<Fact> {
    seq![
        ("gatea_gate"@, f.gatea_gate),
        ("gatea_stub_va"@, f.gatea_stub_va),
        ("gatea_authed"@, f.gatea_authed),
        ("ake_site"@, f.ake_site),
        ("ake_stub_va"@, f.ake_stub_va),
        ("ake_gate"@, f.ake_gate),
        ("deny"@, f.deny),
        ("scratch"@, f.scratch),
        ("vid_producer"@, f.vid_producer),
    ]
}

/// Raw-read facts with the revocation detours that ride along, and the image that
/// they leave.
pub open spec fn with_classic_hrl(
    img: Seq<u8>,
    w: Seq<u8>,
    table: Seq<TableEntry>,
    flag_base: u32,
    facts: Seq<Fact>,
) -> (Seq<u8>, Seq<Fact>) {
    match mt1939_classic::hrl_emission_classic(img, w, table, flag_base) {
        Ok((w2, sites, va)) => (w2, modify::with_hrl(facts, sites, va)),
        Err(_) => (w, facts),
    }
}

/// The classic Raw-read lever.
#[verifier::opaque]
pub open spec fn classic_rawread_lever(
    img: Seq<u8>,
    out: Seq<u8>,
    table: Seq<TableEntry>,
    flag_base: u32,
    cap: Capability,
) -> (Seq<u8>, Lever) {
    if cap.bd_aacs {
        match mt1939_classic::rawread_emission_classic(img, out, table, flag_base) {
            Ok((w, f)) => {
                let (w2, facts) = with_classic_hrl(
                    img,
                    w,
                    table,
                    flag_base,
                    classic_rawread_facts(f),
                );
                (w2, lever::applied(LeverId::RawRead, facts))
            },
            Err(e) => (out, lever::missed(LeverId::RawRead, e.text())),
        }
    } else {
        (out, lever::not_applicable(LeverId::RawRead, "no AACS/BD on this model"@))
    }
}

/// The Speed lever of a classic image: there is no ramp gate to detour.
pub open spec fn classic_speed_lever() -> Lever {
    lever::missed(
        LeverId::Speed,
        "MT1939 classic uses a disc-type halfword read-speed clamp (shared limiter primitive, no byte speed_index ramp / no 0x32 ceiling) — no MT1959-style ramp-ceiling gate exists to detour (residual RE miss)"@,
    )
}

/// The Identity lever of a classic image.
pub open spec fn classic_identity_lever(b: base::Base) -> Lever {
    lever::applied(
        LeverId::Identity,
        seq![
            ("handler_va"@, b.handler_va),
            ("record_off"@, b.record.off as u32),
            ("flag_base"@, b.flag_base),
            ("boot_function_entry"@, b.boot_entry),
        ],
    )
}

/// The levers of a classic image over `out`, and the image that they leave.
#[verifier::opaque]
pub open spec fn classic_levers(
    img: Seq<u8>,
    out: Seq<u8>,
    table: Seq<TableEntry>,
    flag_base: u32,
    identity: Lever,
    chip: ChipInfo,
    cap: Capability,
) -> (Seq<u8>, Seq<Lever>) {
    let r = modify::region_lever_of(
        out,
        mt1939_classic::region_emission_classic(out, table, flag_base),
        cap,
    );
    let f = classic_rawread_lever(img, r.0, table, flag_base, cap);
    let d = modify::de_lever(img, f.0, chip);
    (d.0, seq![identity, classic_speed_lever(), r.1, f.1, d.1])
}

/// The modification of a classic image. The base and its boot hook are owed, and every
/// lever is tried; an image that was patched before stays as it is.
pub open spec fn modify_classic(
    img: Seq<u8>,
    layout: Layout,
    chip: ChipInfo,
    cap: Capability,
) -> Result<Modified, FwError> {
    if modify::carries_magic(img) {
        Ok(modify::report("MT1959"@, chip, cap, modify::present_levers(img, chip, cap), img))
    } else {
        match base::classic_base(img, layout) {
            Err(e) => Err(e),
            Ok(b) => match mt1939_classic::classic_boot(img, b, layout.covered@) {
                Err(e) => Err(e),
                Ok((out, _, _)) => {
                    let (w, levers) = classic_levers(
                        img,
                        out,
                        layout.covered@,
                        b.flag_base,
                        classic_identity_lever(b),
                        chip,
                        cap,
                    );
                    Ok(
                        modify::report(
                            "MT1939"@,
                            chip,
                            cap,
                            levers,
                            scanner::repointed(w, b.record, create::entry_pointer(b.handler_va)),
                        ),
                    )
                },
            },
        }
    }
}

/// The Identity lever of a classic image.
fn classic_identity_report(
    handler_va: u32,
    record_off: u32,
    flag_base: u32,
    boot_entry: u32,
) -> (r: LeverReport)
    ensures
        r@ == lever::applied(
            LeverId::Identity,
            seq![
                ("handler_va"@, handler_va),
                ("record_off"@, record_off),
                ("flag_base"@, flag_base),
                ("boot_function_entry"@, boot_entry),
            ],
        ),
{
    let mut facts: Vec<(&'static str, u32)> = Vec::new();
    facts.push(("handler_va", handler_va));
    facts.push(("record_off", record_off));
    facts.push(("flag_base", flag_base));
    facts.push(("boot_function_entry", boot_entry));
    assert(lever::facts_view(facts@) =~= seq![
        ("handler_va"@, handler_va),
        ("record_off"@, record_off),
        ("flag_base"@, flag_base),
        ("boot_function_entry"@, boot_entry),
    ]);
    LeverReport::applied(LeverId::Identity, facts)
}

/// The facts of a classic Raw-read emission.
fn classic_rawread_list(f: &ClassicRawRead) -> (r: Vec<(&'static str, u32)>)
    ensures
        lever::facts_view(r@) == classic_rawread_facts(*f),
{
    let mut v: Vec<(&'static str, u32)> = Vec::new();
    v.push(("gatea_gate", f.gatea_gate));
    v.push(("gatea_stub_va", f.gatea_stub_va));
    v.push(("gatea_authed", f.gatea_authed));
    v.push(("ake_site", f.ake_site));
    v.push(("ake_stub_va", f.ake_stub_va));
    v.push(("ake_gate", f.ake_gate));
    v.push(("deny", f.deny));
    v.push(("scratch", f.scratch));
    v.push(("vid_producer", f.vid_producer));
    assert(lever::facts_view(v@) =~= classic_rawread_facts(*f));
    v
}

impl Mt1959Engine {
    /// The classic Raw-read lever.
    fn lever_rawread_classic(
        &self,
        image: &[u8],
        out: &mut Vec<u8>,
        table: &Vec<TableEntry>,
        flag_base: u32,
        cap: &Capability,
    ) -> (r: LeverReport)
        requires
            raw::addressable(image@),
            old(out)@.len() == image@.len(),
            detours::flags_fit(flag_base),
        ensures
            (final(out)@, r@) == classic_rawread_lever(
                image@,
                old(out)@,
                table@,
                flag_base,
                *cap,
            ),
            final(out)@.len() == old(out)@.len(),
    {
        reveal(classic_rawread_lever);
        if !cap.bd_aacs {
            return LeverReport::not_applicable(LeverId::RawRead, "no AACS/BD on this model");
        }
        match self.emit_rawread_classic(image, out, table, flag_base) {
            Ok(f) => {
                let mut facts: Vec<(&'static str, u32)> = classic_rawread_list(&f);
                match self.emit_hrl_classic(image, out, table, flag_base) {
                    Ok((sites, va)) => {
                        modify::push_hrl(&mut facts, &sites, va);
                    },
                    Err(_) => {},
                }
                LeverReport::applied(LeverId::RawRead, facts)
            },
            Err(e) => modify::missed_for(LeverId::RawRead, e),
        }
    }

    /// The classic Region lever.
    fn lever_region_classic(
        &self,
        out: &mut Vec<u8>,
        table: &Vec<TableEntry>,
        flag_base: u32,
        cap: &Capability,
    ) -> (r: LeverReport)
        requires
            raw::addressable(old(out)@),
            detours::flags_fit(flag_base),
        ensures
            (final(out)@, r@) == modify::region_lever_of(
                old(out)@,
                mt1939_classic::region_emission_classic(old(out)@, table@, flag_base),
                *cap,
            ),
            final(out)@.len() == old(out)@.len(),
    {
        reveal(modify::region_lever_of);
        if cap.region_lockable {
            modify::region_report(self.emit_region_classic(out, table, flag_base))
        } else {
            LeverReport::not_applicable(LeverId::RegionFree, "no region lever on this model")
        }
    }

    /// Tries every lever of a classic image, in order.
    fn run_levers_classic(
        &self,
        image: &[u8],
        out: &mut Vec<u8>,
        table: &Vec<TableEntry>,
        flag_base: u32,
        identity: LeverReport,
        chip: &ChipInfo,
        cap: &Capability,
    ) -> (r: Vec<LeverReport>)
        requires
            raw::addressable(image@),
            old(out)@.len() == image@.len(),
            detours::flags_fit(flag_base),
        ensures
            (final(out)@, lever::levers_view(r@)) == classic_levers(
                image@,
                old(out)@,
                table@,
                flag_base,
                identity@,
                *chip,
                *cap,
            ),
            final(out)@.len() == old(out)@.len(),
    {
        proof {
            reveal(classic_levers);
        }
        let speed: LeverReport = LeverReport::missed(
            LeverId::Speed,
            "MT1939 classic uses a disc-type halfword read-speed clamp (shared limiter primitive, no byte speed_index ramp / no 0x32 ceiling) — no MT1959-style ramp-ceiling gate exists to detour (residual RE miss)",
        );
        let region: LeverReport = self.lever_region_classic(out, table, flag_base, cap);
        let rawread: LeverReport = self.lever_rawread_classic(image, out, table, flag_base, cap);
        let de: LeverReport = self.lever_de(image, out, chip);
        let ghost want = seq![identity@, speed@, region@, rawread@, de@];
        let mut levers: Vec<LeverReport> = Vec::new();
        levers.push(identity);
        levers.push(speed);
        levers.push(region);
        levers.push(rawread);
        levers.push(de);
        assert(lever::levers_view(levers@) =~= want);
        levers
    }

    /// Modifies a classic image: every lever that the drive is capable of is tried, and
    /// only the base with its boot hook is owed. An image that was patched before comes
    /// back as it is, and what comes back is recognised as patched. Where nothing disturbs
    /// what was written, it passes its audit.
    pub fn build_modify_classic(
        &self,
        image: &[u8],
        layout: &Layout,
        chip: &ChipInfo,
        cap: &Capability,
    ) -> (r: Result<ModifyReport, FwError>)
        requires
            raw::addressable(image@),
            layout.fits(),
        ensures
            modify::modified(r, modify_classic(image@, *layout, *chip, *cap)),
            r matches Ok(m) ==> modify::carries_magic(m@.image) && marks::settled(m@.image),
            r matches Ok(m) ==> !modify::carries_magic(image@) ==> (base::classic_base(
                image@,
                *layout,
            ) matches Ok(b) && changes::classic_hooked(image@, *layout) matches Ok(out) && (
            classic_audited::all_clear(image@, *layout, b, out, m@.levers) ==> landing::all_passed(
                audit::audit(image@, m@, true),
            ))),
    {
        let r: Result<ModifyReport, FwError> = self.compose_modify_classic(
            image,
            layout,
            chip,
            cap,
        );
        proof {
            if r is Ok {
                let m = r->Ok_0@;
                marks::lemma_classic_modify_recognised(image@, *layout, *chip, *cap, m);
                marks::lemma_settled(m.image);
                if !modify::carries_magic(image@) {
                    let b = base::classic_base(image@, *layout)->Ok_0;
                    let out = changes::classic_hooked(image@, *layout)->Ok_0;
                    if classic_audited::all_clear(image@, *layout, b, out, m.levers) {
                        classic_audited::law_classic_modified_image_passes_its_audit(
                            image@,
                            *layout,
                            *chip,
                            *cap,
                            m,
                            b,
                            out,
                        );
                    }
                }
            }
        }
        r
    }

    /// [`Mt1959Engine::build_modify_classic`], and that the base it rests on is workable.
    fn compose_modify_classic(
        &self,
        image: &[u8],
        layout: &Layout,
        chip: &ChipInfo,
        cap: &Capability,
    ) -> (r: Result<ModifyReport, FwError>)
        requires
            raw::addressable(image@),
            layout.fits(),
        ensures
            modify::modified(r, modify_classic(image@, *layout, *chip, *cap)),
            r is Ok ==> modify::carries_magic(image@) || (base::classic_base(
                image@,
                *layout,
            ) matches Ok(b) && base::workable(b, image@.len())),
    {
        if modify::is_freemkv_patched(image) {
            return Ok(self.already_present_report(image, chip, cap, "MT1959"));
        }
        let b: BaseImage = match self.build_classic_base(image, layout) {
            Ok(b) => b,
            Err(e) => return Err(e),
        };
        let ghost plan = b@;
        let table: &Vec<TableEntry> = &layout.covered;
        let flag_base: u32 = b.flag_base;
        let identity: LeverReport = classic_identity_report(
            b.handler_va,
            b.record.off as u32,
            flag_base,
            b.boot_entry,
        );
        assert(identity@ == classic_identity_lever(plan));
        let mut out: Vec<u8> = b.image;
        match self.resolve_boot_init_pair(image) {
            Ok(pair) => match self.emit_boot_init(image, &mut out, table, flag_base, pair) {
                Ok(_) => {},
                Err(e) => return Err(e),
            },
            Err(e) => return Err(e),
        }
        let levers: Vec<LeverReport> = self.run_levers_classic(
            image,
            &mut out,
            table,
            flag_base,
            identity,
            chip,
            cap,
        );
        scanner::repoint(&mut out, &b.record, b.handler_va + 1);
        Ok(modify::report_on("MT1939", chip, cap, levers, out))
    }
}

} // verus!
