//! Modifying an image lever by lever: what can be applied is, and each lever says how
//! it ended.
use crate::abi;
use crate::engine::audit;
use crate::engine::audited;
use crate::engine::base;
use crate::engine::base::{BaseImage, Layout};
use crate::engine::create;
use crate::engine::detours;
use crate::engine::emit;
use crate::engine::gates;
use crate::engine::landing;
use crate::engine::lever;
use crate::engine::lever::{
    Fact, Lever, LeverId, LeverReport, Modified, ModifyReport, Validation,
};
use crate::engine::marks;
use crate::engine::mt1959::Mt1959Engine;
use crate::engine::rawread;
use crate::engine::rawread::RawReadFacts;
use crate::engine::scanner;
use crate::engine::space::TableEntry;
use crate::error::{FwError, Step};
use crate::family::{Capability, ChipInfo};
use crate::raw;
use vstd::prelude::*;

verus! {

/// The image carries the text that only an injected handler holds.
pub open spec fn carries_magic(img: Seq<u8>) -> bool {
    exists|at: int| #[trigger] raw::occurs_at(img, abi::RESP_MAGIC@, at)
}

/// Whether the image was patched before: it carries the text that only an injected
/// handler holds.
pub fn is_freemkv_patched(image: &[u8]) -> (r: bool)
    requires
        raw::addressable(image@),
    ensures
        r == carries_magic(image@),
{
    let len: usize = image.len();
    let mut at: usize = 0;
    while at < len
        invariant
            raw::addressable(image@),
            len == image@.len(),
            at <= len,
            forall|b: int| 0 <= b < at ==> !#[trigger] raw::occurs_at(image@, abi::RESP_MAGIC@, b),
        decreases len - at,
    {
        if gates::holds_at(image, &abi::RESP_MAGIC, at) {
            return true;
        }
        at += 1;
    }
    false
}

/// The Speed lever.
#[verifier::opaque]
pub open spec fn speed_lever(
    img: Seq<u8>,
    out: Seq<u8>,
    table: Seq<TableEntry>,
    flag_base: u32,
    cap: Capability,
) -> (Seq<u8>, Lever) {
    if cap.bd_class || cap.bd_aacs {
        match emit::speed_emission(img, out, table, flag_base) {
            Ok((w, gate, va)) => (
                w,
                lever::applied(
                    LeverId::Speed,
                    seq![("speed_gate"@, gate), ("speed_stub_va"@, va)],
                ),
            ),
            Err(e) => (out, lever::missed(LeverId::Speed, e.text())),
        }
    } else {
        (out, lever::not_applicable(LeverId::Speed, "no BD read-ramp on this model"@))
    }
}

/// How a Region emission reads as a lever.
#[verifier::opaque]
pub open spec fn region_lever_of(
    out: Seq<u8>,
    emission: Result<(Seq<u8>, u32, u32), FwError>,
    cap: Capability,
) -> (Seq<u8>, Lever) {
    if cap.region_lockable {
        match emission {
            Ok((w, at, va)) => (
                w,
                lever::applied(
                    LeverId::RegionFree,
                    seq![("region_emitter"@, at), ("region_stub_va"@, va)],
                ),
            ),
            Err(e) => (out, lever::missed(LeverId::RegionFree, e.text())),
        }
    } else {
        (out, lever::not_applicable(LeverId::RegionFree, "no region lever on this model"@))
    }
}

/// The Region lever.
pub open spec fn region_lever(
    img: Seq<u8>,
    out: Seq<u8>,
    table: Seq<TableEntry>,
    flag_base: u32,
    cap: Capability,
) -> (Seq<u8>, Lever) {
    region_lever_of(out, emit::region_emission(img, out, table, flag_base), cap)
}

/// The name of the revocation call number `k`.
pub open spec fn hrl_name(k: int) -> Seq<char> {
    if k == 0 {
        "hrl_site"@
    } else if k == 1 {
        "hrl_site2"@
    } else {
        "hrl_site3"@
    }
}

/// `facts` with the first `n` revocation calls.
pub open spec fn with_hrl_sites(facts: Seq<Fact>, sites: Seq<u32>, n: nat) -> Seq<Fact>
    decreases n,
{
    if n == 0 {
        facts
    } else {
        with_hrl_sites(facts, sites, (n - 1) as nat).push((hrl_name(n - 1), sites[n - 1]))
    }
}

/// `facts` with the revocation stub and its first three calls, when there is one.
pub open spec fn with_hrl(facts: Seq<Fact>, sites: Seq<u32>, va: u32) -> Seq<Fact> {
    if va == 0 {
        facts
    } else {
        with_hrl_sites(
            facts.push(("hrl_stub_va"@, va)),
            sites,
            if sites.len() < 3 {
                sites.len()
            } else {
                3
            },
        )
    }
}

/// `facts` with a place and its stub, when there is one.
pub open spec fn with_pair(
    facts: Seq<Fact>,
    site_name: Seq<char>,
    site: u32,
    stub_name: Seq<char>,
    va: u32,
) -> Seq<Fact> {
    if va == 0 {
        facts
    } else {
        facts.push((site_name, site)).push((stub_name, va))
    }
}

/// The facts of a Raw-read emission.
pub open spec fn rawread_facts(f: rawread::RawRead) -> Seq<Fact> {
    let core = seq![
        ("ake_gate"@, f.ake_gate),
        ("ake_site"@, f.ake_site),
        ("ake_stub_va"@, f.ake_stub_va),
        ("gatea_gate"@, f.gatea_site),
        ("gatea_stub_va"@, f.gatea_stub_va),
        ("deny_site"@, f.deny_site),
        ("deny_stub_va"@, f.deny_stub_va),
        ("vid_producer"@, f.vid_producer),
    ];
    let uhd = with_pair(core, "uhd_site"@, f.uhd_site, "uhd_stub_va"@, f.uhd_stub_va);
    let hrl = with_hrl(uhd, f.hrl_sites, f.hrl_stub_va);
    with_pair(hrl, "bd_site"@, f.bd_site, "bd_stub_va"@, f.bd_stub_va)
}

/// The Raw-read lever.
#[verifier::opaque]
pub open spec fn rawread_lever(
    img: Seq<u8>,
    out: Seq<u8>,
    table: Seq<TableEntry>,
    flag_base: u32,
    cap: Capability,
) -> (Seq<u8>, Lever) {
    if cap.bd_aacs {
        match rawread::rawread_emission(img, out, table, flag_base) {
            Ok((w, f)) => (w, lever::applied(LeverId::RawRead, rawread_facts(f))),
            Err(e) => (out, lever::missed(LeverId::RawRead, e.text())),
        }
    } else {
        (out, lever::not_applicable(LeverId::RawRead, "no AACS/BD on this model"@))
    }
}

/// The downgrade-enable lever.
#[verifier::opaque]
pub open spec fn de_lever(img: Seq<u8>, out: Seq<u8>, chip: ChipInfo) -> (Seq<u8>, Lever) {
    if !chip.descriptor_present {
        (
            out,
            lever::not_applicable(
                LeverId::DowngradeEnable,
                "no MTEK identity page in this image"@,
            ),
        )
    } else {
        match gates::de_byte(img) {
            Err(e) => (out, lever::missed(LeverId::DowngradeEnable, e.text())),
            Ok(at) => {
                let facts = seq![("de_off"@, at)];
                if out[at as int] == create::DE_BYTE {
                    (out, lever::already(LeverId::DowngradeEnable, facts))
                } else {
                    (
                        out.update(at as int, create::DE_BYTE),
                        lever::applied(LeverId::DowngradeEnable, facts),
                    )
                }
            },
        }
    }
}

/// A report on `image` with these levers.
pub open spec fn report(
    engine: Seq<char>,
    chip: ChipInfo,
    cap: Capability,
    levers: Seq<Lever>,
    image: Seq<u8>,
) -> Modified {
    Modified {
        engine,
        family: chip.family.text(),
        vendor: chip.vendor@,
        model: chip.model@,
        rev: chip.rev@,
        vendor_specific: chip.vendor_specific@,
        media: cap.media@,
        levers,
        image,
        validation: Validation::StaticOnly,
    }
}

/// The levers of an image that was patched before: nothing is applied.
pub open spec fn present_levers(img: Seq<u8>, chip: ChipInfo, cap: Capability) -> Seq<Lever> {
    seq![
        lever::already(LeverId::Identity, Seq::empty()),
        if cap.bd_class || cap.bd_aacs {
            lever::already(LeverId::Speed, Seq::empty())
        } else {
            lever::not_applicable(LeverId::Speed, "no BD read-ramp on this model"@)
        },
        if cap.region_lockable {
            lever::already(LeverId::RegionFree, Seq::empty())
        } else {
            lever::not_applicable(LeverId::RegionFree, "no region lever on this model"@)
        },
        if cap.bd_aacs {
            lever::already(LeverId::RawRead, Seq::empty())
        } else {
            lever::not_applicable(LeverId::RawRead, "no AACS/BD on this model"@)
        },
        if !chip.descriptor_present {
            lever::not_applicable(
                LeverId::DowngradeEnable,
                "no MTEK identity page in this image"@,
            )
        } else {
            match gates::de_byte(img) {
                Ok(at) => lever::already(LeverId::DowngradeEnable, seq![("de_off"@, at)]),
                Err(e) => lever::missed(LeverId::DowngradeEnable, e.text()),
            }
        },
    ]
}

/// The Identity lever of a modern image.
pub open spec fn identity_lever(b: base::Base, boot_site: u32, boot_va: u32) -> Lever {
    lever::applied(
        LeverId::Identity,
        seq![
            ("handler_va"@, b.handler_va),
            ("record_off"@, b.record.off as u32),
            ("boot_init_site"@, boot_site),
            ("boot_stub_va"@, boot_va),
            ("boot_function_entry"@, b.boot_entry),
        ],
    )
}

/// The levers of a modern image over `out`, and the image that they leave.
#[verifier::opaque]
pub open spec fn modern_levers(
    img: Seq<u8>,
    out: Seq<u8>,
    layout: Layout,
    flag_base: u32,
    identity: Lever,
    chip: ChipInfo,
    cap: Capability,
) -> (Seq<u8>, Seq<Lever>) {
    let table = layout.covered@;
    let s = speed_lever(img, out, table, flag_base, cap);
    let r = region_lever(img, s.0, table, flag_base, cap);
    let f = rawread_lever(img, r.0, table, flag_base, cap);
    let d = de_lever(img, f.0, chip);
    (d.0, seq![identity, s.1, r.1, f.1, d.1])
}

/// The modification of a modern image. One that was patched before stays as it is;
/// otherwise the base and its boot hook are owed, and every lever is tried.
pub open spec fn modify_modern(
    img: Seq<u8>,
    layout: Layout,
    chip: ChipInfo,
    cap: Capability,
) -> Result<Modified, FwError> {
    if carries_magic(img) {
        Ok(report("MT1959"@, chip, cap, present_levers(img, chip, cap), img))
    } else {
        match (
            scanner::scanner_entry(img),
            scanner::cdb_base(img),
            scanner::sense_setter_of(img),
            base::modern_base(img, layout),
        ) {
            (Err(e), _, _, _) => Err(e.of(Step::ModifyScanner)),
            (_, Err(e), _, _) => Err(e),
            (_, _, Err(e), _) => Err(e),
            (_, _, _, Err(e)) => Err(e),
            (Ok(_), Ok(_), Ok(_), Ok((b, pair))) => match emit::boot_emission(
                img,
                b.image,
                layout.covered@,
                b.flag_base,
                pair,
            ) {
                Err(e) => Err(e),
                Ok((out, boot_site, boot_va)) => {
                    let (w, levers) = modern_levers(
                        img,
                        out,
                        layout,
                        b.flag_base,
                        identity_lever(b, boot_site, boot_va),
                        chip,
                        cap,
                    );
                    Ok(
                        report(
                            "MT1959"@,
                            chip,
                            cap,
                            levers,
                            scanner::repointed(w, b.record, create::entry_pointer(b.handler_va)),
                        ),
                    )
                },
            },
        }
    }
}

/// `r` is what `plan` says.
pub open spec fn modified(
    r: Result<ModifyReport, FwError>,
    plan: Result<Modified, FwError>,
) -> bool {
    match (r, plan) {
        (Ok(m), Ok(p)) => m@ == p,
        (Err(e), Err(f)) => e == f,
        _ => false,
    }
}

/// A report on `image` with these levers.
pub fn report_on(
    engine: &'static str,
    chip: &ChipInfo,
    cap: &Capability,
    levers: Vec<LeverReport>,
    image: Vec<u8>,
) -> (r: ModifyReport)
    ensures
        r@ == report(engine@, *chip, *cap, lever::levers_view(levers@), image@),
{
    ModifyReport {
        engine,
        family: chip.family.label().to_owned(),
        vendor: chip.vendor.clone(),
        model: chip.model.clone(),
        rev: chip.rev.clone(),
        vendor_specific: chip.vendor_specific.clone(),
        media: cap.media.clone(),
        levers,
        image,
        validation: Validation::StaticOnly,
    }
}

/// One fact as a list.
fn one_fact(name: &'static str, value: u32) -> (r: Vec<(&'static str, u32)>)
    ensures
        lever::facts_view(r@) == seq![(name@, value)],
{
    let mut v: Vec<(&'static str, u32)> = Vec::new();
    v.push((name, value));
    assert(lever::facts_view(v@) =~= seq![(name@, value)]);
    v
}

/// Two facts as a list.
fn two_facts(a: &'static str, x: u32, b: &'static str, y: u32) -> (r: Vec<(&'static str, u32)>)
    ensures
        lever::facts_view(r@) == seq![(a@, x), (b@, y)],
{
    let mut v: Vec<(&'static str, u32)> = Vec::new();
    v.push((a, x));
    v.push((b, y));
    assert(lever::facts_view(v@) =~= seq![(a@, x), (b@, y)]);
    v
}

/// Adds one fact.
fn push_fact(facts: &mut Vec<(&'static str, u32)>, name: &'static str, value: u32)
    ensures
        lever::facts_view(final(facts)@) == lever::facts_view(old(facts)@).push((name@, value)),
{
    facts.push((name, value));
    assert(lever::facts_view(facts@) =~= lever::facts_view(old(facts)@).push((name@, value)));
}

/// Adds a place and its stub, when there is one.
fn push_pair(
    facts: &mut Vec<(&'static str, u32)>,
    site_name: &'static str,
    site: u32,
    stub_name: &'static str,
    va: u32,
)
    ensures
        lever::facts_view(final(facts)@) == with_pair(
            lever::facts_view(old(facts)@),
            site_name@,
            site,
            stub_name@,
            va,
        ),
{
    if va != 0 {
        push_fact(facts, site_name, site);
        push_fact(facts, stub_name, va);
    }
}

/// Adds the revocation stub and its first three calls, when there is one.
pub fn push_hrl(facts: &mut Vec<(&'static str, u32)>, sites: &Vec<u32>, va: u32)
    ensures
        lever::facts_view(final(facts)@) == with_hrl(lever::facts_view(old(facts)@), sites@, va),
{
    if va == 0 {
        return ;
    }
    push_fact(facts, "hrl_stub_va", va);
    let ghost start = lever::facts_view(facts@);
    let mut k: usize = 0;
    while k < sites.len() && k < 3
        invariant
            k <= sites@.len(),
            k <= 3,
            lever::facts_view(facts@) == with_hrl_sites(start, sites@, k as nat),
        decreases 3 - k,
    {
        let name: &'static str = if k == 0 {
            "hrl_site"
        } else if k == 1 {
            "hrl_site2"
        } else {
            "hrl_site3"
        };
        push_fact(facts, name, sites[k]);
        k += 1;
    }
}

/// The facts of a Raw-read emission.
fn rawread_fact_list(f: &RawReadFacts) -> (r: Vec<(&'static str, u32)>)
    ensures
        lever::facts_view(r@) == rawread_facts(f@),
{
    let mut v: Vec<(&'static str, u32)> = Vec::new();
    v.push(("ake_gate", f.ake_gate));
    v.push(("ake_site", f.ake_site));
    v.push(("ake_stub_va", f.ake_stub_va));
    v.push(("gatea_gate", f.gatea_site));
    v.push(("gatea_stub_va", f.gatea_stub_va));
    v.push(("deny_site", f.deny_site));
    v.push(("deny_stub_va", f.deny_stub_va));
    v.push(("vid_producer", f.vid_producer));
    assert(lever::facts_view(v@) =~= seq![
        ("ake_gate"@, f.ake_gate),
        ("ake_site"@, f.ake_site),
        ("ake_stub_va"@, f.ake_stub_va),
        ("gatea_gate"@, f.gatea_site),
        ("gatea_stub_va"@, f.gatea_stub_va),
        ("deny_site"@, f.deny_site),
        ("deny_stub_va"@, f.deny_stub_va),
        ("vid_producer"@, f.vid_producer),
    ]);
    push_pair(&mut v, "uhd_site", f.uhd_site, "uhd_stub_va", f.uhd_stub_va);
    push_hrl(&mut v, &f.hrl_sites, f.hrl_stub_va);
    push_pair(&mut v, "bd_site", f.bd_site, "bd_stub_va", f.bd_stub_va);
    v
}

/// A lever that was in scope and missed.
pub fn missed_for(id: LeverId, e: FwError) -> (r: LeverReport)
    ensures
        r@ == lever::missed(id, e.text()),
{
    let detail: String = e.message();
    LeverReport::missed(id, detail.as_str())
}

/// How a Region emission reads as a lever.
pub fn region_report(emission: Result<(u32, u32), FwError>) -> (r: LeverReport)
    ensures
        r@ == (match emission {
            Ok((at, va)) => lever::applied(
                LeverId::RegionFree,
                seq![("region_emitter"@, at), ("region_stub_va"@, va)],
            ),
            Err(e) => lever::missed(LeverId::RegionFree, e.text()),
        }),
{
    match emission {
        Ok((at, va)) => LeverReport::applied(
            LeverId::RegionFree,
            two_facts("region_emitter", at, "region_stub_va", va),
        ),
        Err(e) => missed_for(LeverId::RegionFree, e),
    }
}

impl Mt1959Engine {
    /// The Speed lever.
    fn lever_speed(
        &self,
        image: &[u8],
        out: &mut Vec<u8>,
        table: &Vec<TableEntry>,
        flag_base: u32,
        cap: &Capability,
    ) -> (r: LeverReport)
        requires
            raw::addressable(image@),
            old(out)@.len() == image@.len(),
            detours::flags_fit(flag_base),
        ensures
            (final(out)@, r@) == speed_lever(image@, old(out)@, table@, flag_base, *cap),
            final(out)@.len() == old(out)@.len(),
    {
        reveal(speed_lever);
        if cap.bd_class || cap.bd_aacs {
            match self.emit_speed(image, out, table, flag_base) {
                Ok((gate, va)) => LeverReport::applied(
                    LeverId::Speed,
                    two_facts("speed_gate", gate, "speed_stub_va", va),
                ),
                Err(e) => missed_for(LeverId::Speed, e),
            }
        } else {
            LeverReport::not_applicable(LeverId::Speed, "no BD read-ramp on this model")
        }
    }

    /// The Region lever.
    fn lever_region(
        &self,
        image: &[u8],
        out: &mut Vec<u8>,
        table: &Vec<TableEntry>,
        flag_base: u32,
        cap: &Capability,
    ) -> (r: LeverReport)
        requires
            raw::addressable(image@),
            old(out)@.len() == image@.len(),
            detours::flags_fit(flag_base),
        ensures
            (final(out)@, r@) == region_lever(image@, old(out)@, table@, flag_base, *cap),
            final(out)@.len() == old(out)@.len(),
    {
        reveal(region_lever_of);
        if cap.region_lockable {
            region_report(self.emit_region(image, out, table, flag_base))
        } else {
            LeverReport::not_applicable(LeverId::RegionFree, "no region lever on this model")
        }
    }

    /// The Raw-read lever.
    fn lever_rawread(
        &self,
        image: &[u8],
        out: &mut Vec<u8>,
        table: &Vec<TableEntry>,
        flag_base: u32,
        cap: &Capability,
    ) -> (r: LeverReport)
        requires
            raw::addressable(image@),
            old(out)@.len() == image@.len(),
            detours::flags_fit(flag_base),
        ensures
            (final(out)@, r@) == rawread_lever(image@, old(out)@, table@, flag_base, *cap),
            final(out)@.len() == old(out)@.len(),
    {
        reveal(rawread_lever);
        if cap.bd_aacs {
            match self.emit_rawread(image, out, table, flag_base) {
                Ok(f) => LeverReport::applied(LeverId::RawRead, rawread_fact_list(&f)),
                Err(e) => missed_for(LeverId::RawRead, e),
            }
        } else {
            LeverReport::not_applicable(LeverId::RawRead, "no AACS/BD on this model")
        }
    }

    /// The downgrade-enable lever: it sets the byte unless it is set already.
    pub fn lever_de(&self, image: &[u8], out: &mut Vec<u8>, chip: &ChipInfo) -> (r: LeverReport)
        requires
            raw::addressable(image@),
            old(out)@.len() == image@.len(),
        ensures
            (final(out)@, r@) == de_lever(image@, old(out)@, *chip),
            final(out)@.len() == old(out)@.len(),
    {
        reveal(de_lever);
        if !chip.descriptor_present {
            return LeverReport::not_applicable(
                LeverId::DowngradeEnable,
                "no MTEK identity page in this image",
            );
        }
        match self.find_de_byte(image) {
            Ok(at) => {
                if out[at as usize] == create::DE_BYTE {
                    LeverReport::already(LeverId::DowngradeEnable, one_fact("de_off", at))
                } else {
                    out[at as usize] = create::DE_BYTE;
                    LeverReport::applied(LeverId::DowngradeEnable, one_fact("de_off", at))
                }
            },
            Err(e) => missed_for(LeverId::DowngradeEnable, e),
        }
    }

    /// The report on an image that was patched before: nothing is applied, and the
    /// image is handed back as it is.
    pub fn already_present_report(
        &self,
        image: &[u8],
        chip: &ChipInfo,
        cap: &Capability,
        engine: &'static str,
    ) -> (r: ModifyReport)
        requires
            raw::addressable(image@),
        ensures
            r@ == report(engine@, *chip, *cap, present_levers(image@, *chip, *cap), image@),
    {
        let mut levers: Vec<LeverReport> = Vec::new();
        levers.push(present(LeverId::Identity));
        levers.push(
            if cap.bd_class || cap.bd_aacs {
                present(LeverId::Speed)
            } else {
                LeverReport::not_applicable(LeverId::Speed, "no BD read-ramp on this model")
            },
        );
        levers.push(
            if cap.region_lockable {
                present(LeverId::RegionFree)
            } else {
                LeverReport::not_applicable(LeverId::RegionFree, "no region lever on this model")
            },
        );
        levers.push(
            if cap.bd_aacs {
                present(LeverId::RawRead)
            } else {
                LeverReport::not_applicable(LeverId::RawRead, "no AACS/BD on this model")
            },
        );
        levers.push(
            if !chip.descriptor_present {
                LeverReport::not_applicable(
                    LeverId::DowngradeEnable,
                    "no MTEK identity page in this image",
                )
            } else {
                match self.find_de_byte(image) {
                    Ok(at) => LeverReport::already(
                        LeverId::DowngradeEnable,
                        one_fact("de_off", at),
                    ),
                    Err(e) => missed_for(LeverId::DowngradeEnable, e),
                }
            },
        );
        assert(lever::levers_view(levers@) =~= present_levers(image@, *chip, *cap));
        report_on(engine, chip, cap, levers, vstd::slice::slice_to_vec(image))
    }

    /// Tries every lever of a modern image, in order.
    fn run_levers(
        &self,
        image: &[u8],
        out: &mut Vec<u8>,
        layout: &Layout,
        flag_base: u32,
        identity: LeverReport,
        chip: &ChipInfo,
        cap: &Capability,
    ) -> (r: Vec<LeverReport>)
        requires
            raw::addressable(image@),
            old(out)@.len() == image@.len(),
            detours::flags_fit(flag_base),
        ensures
            (final(out)@, lever::levers_view(r@)) == modern_levers(
                image@,
                old(out)@,
                *layout,
                flag_base,
                identity@,
                *chip,
                *cap,
            ),
            final(out)@.len() == old(out)@.len(),
    {
        proof {
            reveal(modern_levers);
        }
        let table: &Vec<TableEntry> = &layout.covered;
        let speed: LeverReport = self.lever_speed(image, out, table, flag_base, cap);
        let region: LeverReport = self.lever_region(image, out, table, flag_base, cap);
        let rawread: LeverReport = self.lever_rawread(image, out, table, flag_base, cap);
        let de: LeverReport = self.lever_de(image, out, chip);
        let ghost want = seq![identity@, speed@, region@, rawread@, de@];
        let mut levers: Vec<LeverReport> = Vec::new();
        levers.push(identity);
        levers.push(speed);
        levers.push(region);
        levers.push(rawread);
        levers.push(de);
        assert(lever::levers_view(levers@) =~= want);
        levers
    }

    /// Modifies a modern image: every lever that the drive is capable of is tried, and
    /// only the base is owed. An image that was patched before comes back as it is, and
    /// what comes back is recognised as patched, so that modifying it changes nothing. Where
    /// nothing disturbs what was written, it passes its audit.
    pub fn build_modify(
        &self,
        image: &[u8],
        layout: &Layout,
        chip: &ChipInfo,
        cap: &Capability,
    ) -> (r: Result<ModifyReport, FwError>)
        requires
            raw::addressable(image@),
            layout.fits(),
        ensures
            modified(r, modify_modern(image@, *layout, *chip, *cap)),
            r matches Ok(m) ==> carries_magic(m@.image) && marks::settled(m@.image),
            r matches Ok(m) ==> !carries_magic(image@) && audited::all_clear(
                image@,
                *layout,
                m@.levers,
            ) ==> landing::all_passed(audit::audit(image@, m@, true)),
    {
        let r: Result<ModifyReport, FwError> = self.compose_modify(image, layout, chip, cap);
        proof {
            if r is Ok {
                let m = r->Ok_0@;
                marks::lemma_modify_recognised(image@, *layout, *chip, *cap, m);
                marks::lemma_settled(m.image);
                if !carries_magic(image@) && audited::all_clear(image@, *layout, m.levers) {
                    audited::law_modified_image_passes_its_audit(
                        image@,
                        *layout,
                        *chip,
                        *cap,
                        m,
                    );
                }
            }
        }
        r
    }

    /// [`Mt1959Engine::build_modify`], and that the base it rests on is workable.
    fn compose_modify(
        &self,
        image: &[u8],
        layout: &Layout,
        chip: &ChipInfo,
        cap: &Capability,
    ) -> (r: Result<ModifyReport, FwError>)
        requires
            raw::addressable(image@),
            layout.fits(),
        ensures
            modified(r, modify_modern(image@, *layout, *chip, *cap)),
            r is Ok ==> carries_magic(image@) || (base::modern_base(image@, *layout) matches Ok(
                (b, _),
            ) && base::workable(b, image@.len())),
    {
        if is_freemkv_patched(image) {
            return Ok(self.already_present_report(image, chip, cap, "MT1959"));
        }
        match self.find_scanner_entry(image) {
            Ok(_) => {},
            Err(e) => return Err(e.within(Step::ModifyScanner)),
        }
        match self.find_cdb_base(image) {
            Ok(_) => {},
            Err(e) => return Err(e),
        }
        match self.sense_setter(image) {
            Ok(_) => {},
            Err(e) => return Err(e),
        }
        let (b, pair): (BaseImage, (usize, u32)) = match self.build_modern_base(image, layout) {
            Ok(v) => v,
            Err(e) => return Err(e),
        };
        let ghost plan = b@;
        let table: &Vec<TableEntry> = &layout.covered;
        let flag_base: u32 = b.flag_base;
        let mut out: Vec<u8> = b.image;
        let (boot_site, boot_va): (u32, u32) = match self.emit_boot_init(
            image,
            &mut out,
            table,
            flag_base,
            pair,
        ) {
            Ok(p) => p,
            Err(e) => return Err(e),
        };
        let identity: LeverReport = identity_report(
            b.handler_va,
            b.record.off as u32,
            boot_site,
            boot_va,
            b.boot_entry,
        );
        assert(identity@ == identity_lever(plan, boot_site, boot_va));
        let levers: Vec<LeverReport> = self.run_levers(
            image,
            &mut out,
            layout,
            flag_base,
            identity,
            chip,
            cap,
        );
        scanner::repoint(&mut out, &b.record, b.handler_va + 1);
        Ok(report_on("MT1959", chip, cap, levers, out))
    }
}

/// The Identity lever of a modern image.
fn identity_report(
    handler_va: u32,
    record_off: u32,
    boot_site: u32,
    boot_va: u32,
    boot_entry: u32,
) -> (r: LeverReport)
    ensures
        r@ == lever::applied(
            LeverId::Identity,
            seq![
                ("handler_va"@, handler_va),
                ("record_off"@, record_off),
                ("boot_init_site"@, boot_site),
                ("boot_stub_va"@, boot_va),
                ("boot_function_entry"@, boot_entry),
            ],
        ),
{
    let mut facts: Vec<(&'static str, u32)> = Vec::new();
    facts.push(("handler_va", handler_va));
    facts.push(("record_off", record_off));
    facts.push(("boot_init_site", boot_site));
    facts.push(("boot_stub_va", boot_va));
    facts.push(("boot_function_entry", boot_entry));
    assert(lever::facts_view(facts@) =~= seq![
        ("handler_va"@, handler_va),
        ("record_off"@, record_off),
        ("boot_init_site"@, boot_site),
        ("boot_stub_va"@, boot_va),
        ("boot_function_entry"@, boot_entry),
    ]);
    LeverReport::applied(LeverId::Identity, facts)
}

/// A lever that is in the image already, without facts.
fn present(id: LeverId) -> (r: LeverReport)
    ensures
        r@ == lever::already(id, Seq::empty()),
{
    let none: Vec<(&'static str, u32)> = Vec::new();
    assert(lever::facts_view(none@) =~= Seq::<Fact>::empty());
    LeverReport::already(id, none)
}

} // verus!
