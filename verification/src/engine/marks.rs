//! The text by which a patched image is recognised: once the handler is in place it
//! stays whole, so an image that was patched is not patched again.
use crate::abi;
use crate::engine::base;
use crate::engine::base::{Base, Layout};
use crate::engine::boot;
use crate::engine::changes;
use crate::engine::classic_modify;
use crate::engine::code;
use crate::engine::create;
use crate::engine::create::Created;
use crate::engine::detours;
use crate::engine::emit;
use crate::engine::gates;
use crate::engine::handler;
use crate::engine::lever::{Lever, Modified};
use crate::engine::modify;
use crate::engine::mt1939;
use crate::engine::mt1939_classic;
use crate::engine::rawread;
use crate::engine::scanner;
use crate::engine::detours::AkePlan;
use crate::engine::signatures::{
    AKE_GATE_SIG, AKE_GATE_SIG_NB, AKE_GATE_SIG_NB_V5, BD_GATE_SIG, BD_GATE_SIG_VER,
    HRL_LOOKUP_SIG_CLASSIC, REGION_EMIT_SIG, SPEED_GATE_SIG, SPEED_GATE_SIG_R0, UHD_CLASSIFIER_SIG,
    UHD_CLASSIFIER_SIG_VER,
};
use crate::engine::space;
use crate::engine::sram;
use crate::engine::vid;
use crate::error::{Anchor, FwError, Reason};
use crate::family::{Capability, ChipInfo};
use crate::raw;
use crate::sig;
use crate::thumb;
use crate::thumb::{BranchShape, CommandRecord};
use vstd::prelude::*;

verus! {

/// One of the four bytes at `site` is not erased.
pub open spec fn solid(img: Seq<u8>, site: int) -> bool {
    exists|j: int| site <= j < site + 4 && #[trigger] img[j] != 0xFF
}

/// The bytes of `touched` are the branches of solid places.
pub open spec fn all_solid(img: Seq<u8>, touched: Set<int>) -> bool {
    forall|i: int| #[trigger]
        touched.contains(i) ==> exists|site: int|
            #[trigger] solid(img, site) && site <= i < site + 4
}

proof fn lemma_hw_solid(img: Seq<u8>, site: int, off: int)
    requires
        raw::hw_at(img, off) != 0xFFFF,
        site <= off <= site + 2,
    ensures
        solid(img, site),
{
    if img[off] == 0xFF {
        assert(img[off + 1] != 0xFF);
    }
}

proof fn lemma_window_solid(img: Seq<u8>, site: int)
    requires
        solid(img, site),
    ensures
        all_solid(img, changes::window(site)),
{
}

proof fn lemma_call_solid(img: Seq<u8>, site: int)
    requires
        thumb::branch_target(BranchShape::Bl, img, site) is Some,
    ensures
        solid(img, site),
{
    let h = raw::hw_at(img, site);
    assert(h & 0xF800 == 0xF000 ==> h != 0xFFFF) by (bit_vector);
    lemma_hw_solid(img, site, site);
}

/// A halfword under a full mask is itself.
proof fn lemma_full_mask(h: u16)
    ensures
        h & 0xFFFF == h,
{
    assert(h & 0xFFFF == h) by (bit_vector);
}

proof fn lemma_boot_solid(img: Seq<u8>)
    requires
        raw::addressable(img),
    ensures
        all_solid(img, changes::boot_window(img)),
{
    if let Ok(pair) = boot::boot_init_pair(img) {
        boot::law_boot_hook_takes_over_a_call(img, pair.0, pair.1);
        lemma_call_solid(img, pair.0 as int);
        lemma_window_solid(img, pair.0 as int);
    }
}

proof fn lemma_speed_solid(img: Seq<u8>)
    requires
        raw::addressable(img),
    ensures
        all_solid(img, changes::speed_window(img)),
{
    if let Ok((gate, _)) = gates::speed_gate(img) {
        let lo = scanner::least(0x0001_0000, img.len() as int);
        let hi = scanner::least(0x0002_0000, img.len() as int);
        let first = SPEED_GATE_SIG@;
        let second = SPEED_GATE_SIG_R0@;
        sig::lemma_find_all_inside(img, first, lo, hi, sig::steps(lo, sig::scan_end(img, first, hi)));
        sig::lemma_find_all_inside(
            img,
            second,
            lo,
            hi,
            sig::steps(lo, sig::scan_end(img, second, hi)),
        );
        assert(first[2] == (0x2A32u16, 0xFFFFu16));
        assert(second[2] == (0x2832u16, 0xFFFFu16));
        lemma_full_mask(raw::hw_at(img, gate + 4));
        lemma_hw_solid(img, gate + 4, gate + 4);
        lemma_window_solid(img, gate + 4);
    }
}

/// The store that a Region detour takes over.
pub proof fn lemma_region_store(img: Seq<u8>, lo: int, hi: int)
    requires
        raw::addressable(img),
        0 <= lo,
    ensures
        gates::region_emitter_in(img, lo, hi) matches Ok(at) ==> {
            &&& at + 20 <= img.len()
            &&& sig::sig_at(img, REGION_EMIT_SIG@, at as int)
            &&& raw::hw_at(img, at + 6) == 0x7202
        },
{
    if let Ok(at) = gates::region_emitter_in(img, lo, hi) {
        let from = scanner::least(lo, img.len() as int);
        let to = scanner::least(hi, img.len() as int);
        let s = REGION_EMIT_SIG@;
        sig::lemma_find_all_inside(img, s, from, to, sig::steps(from, sig::scan_end(img, s, to)));
        assert(s[3] == (0x7202u16, 0xFFFFu16));
        lemma_full_mask(raw::hw_at(img, at + 6));
    }
}

proof fn lemma_region_solid(img: Seq<u8>)
    requires
        raw::addressable(img),
    ensures
        all_solid(img, changes::region_window(img)),
{
    if let Ok(at) = gates::region_emitter(img) {
        lemma_region_store(img, 0, img.len() as int);
        lemma_hw_solid(img, at + 6, at + 6);
        lemma_window_solid(img, at + 6);
    }
}

/// A place that was found is in the image.
proof fn lemma_only_inside(img: Seq<u8>, pat: Seq<(u16, u16)>, what: Anchor)
    requires
        raw::addressable(img),
    ensures
        sig::find_only(img, pat, 0, img.len() as int, what) matches Ok(at) ==> at + 2 * pat.len()
            <= img.len(),
{
    let hi = img.len() as int;
    sig::lemma_find_all_inside(img, pat, 0, hi, sig::steps(0, sig::scan_end(img, pat, hi)));
}

proof fn lemma_ake_solid(img: Seq<u8>, flag_base: u32)
    requires
        raw::addressable(img),
    ensures
        detours::ake_plan(img, flag_base) matches Ok(p) ==> solid(img, p.site as int),
{
    lemma_only_inside(img, AKE_GATE_SIG@, Anchor::AkeGate);
    lemma_only_inside(img, AKE_GATE_SIG_NB@, Anchor::AkeGateNb);
    lemma_only_inside(img, AKE_GATE_SIG_NB_V5@, Anchor::AkeGateNbV5);
    if let Ok(p) = detours::ake_plan(img, flag_base) {
        match (gates::ake_gate(img), gates::ake_gate_nb(img), gates::ake_gate_nb_v5(img)) {
            (Ok(gate), _, _) => {
                assert(p.site == gate + 12);
                lemma_hw_solid(img, gate + 12, gate + 12);
            },
            (_, Ok(gate), _) => {
                assert(p.site == gate + 12);
                lemma_call_solid(img, gate + 12);
            },
            (_, _, Ok(gate)) => {
                assert(p.site == gate + 14);
                lemma_call_solid(img, gate + 14);
            },
            _ => {},
        }
    }
}

proof fn lemma_gate_solid(img: Seq<u8>, flag_base: u32, ake: AkePlan, gate: int)
    ensures
        rawread::gate_grounds(img, flag_base, ake, gate) matches Ok(g) ==> {
            &&& g.ake == ake
            &&& solid(img, g.gatea_site)
            &&& solid(img, g.deny_site)
        },
{
    if let Ok(g) = rawread::gate_grounds(img, flag_base, ake, gate) {
        lemma_hw_solid(img, g.gatea_site, g.gatea_site);
        lemma_hw_solid(img, g.deny_site, g.deny_site);
    }
}

proof fn lemma_core_solid(img: Seq<u8>, flag_base: u32)
    requires
        raw::addressable(img),
    ensures
        rawread::grounds(img, flag_base) matches Ok(g) ==> all_solid(
            img,
            changes::core_windows(g),
        ),
{
    if let Ok(g) = rawread::grounds(img, flag_base) {
        let ake = detours::ake_plan(img, flag_base)->Ok_0;
        let gate = vid::vid_gate(img)->Ok_0;
        lemma_ake_solid(img, flag_base);
        lemma_gate_solid(img, flag_base, ake, gate as int);
    }
}

proof fn lemma_plans_solid(img: Seq<u8>, flag_base: u32)
    requires
        raw::addressable(img),
    ensures
        all_solid(img, changes::plan_window(detours::uhd_plan(img, flag_base))),
        all_solid(img, changes::plan_window(detours::bd_plan(img, flag_base))),
{
    lemma_only_inside(img, UHD_CLASSIFIER_SIG_VER@, Anchor::UhdClassifierVer);
    lemma_only_inside(img, BD_GATE_SIG_VER@, Anchor::BdGateVer);
    lemma_only_inside(img, UHD_CLASSIFIER_SIG@, Anchor::UhdClassifier);
    lemma_only_inside(img, BD_GATE_SIG@, Anchor::BdGate);
    if let Ok((site, _)) = detours::uhd_plan(img, flag_base) {
        lemma_hw_solid(img, site as int, site as int);
        lemma_window_solid(img, site as int);
    }
    if let Ok((site, _)) = detours::bd_plan(img, flag_base) {
        lemma_hw_solid(img, site as int, site as int);
        lemma_window_solid(img, site as int);
    }
}

proof fn lemma_check_after(img: Seq<u8>, p: int, end: int)
    requires
        raw::addressable(img),
        0 <= p,
        end <= img.len(),
    ensures
        gates::check_after(img, p, end) matches Some(q) ==> raw::hw_at(img, q as int) == 0x2800,
    decreases end - p,
{
    if p + 4 <= end {
        lemma_check_after(img, p + 2, end);
    }
}

/// Every revocation check is a compare.
proof fn lemma_checks_compare(img: Seq<u8>, o: int, lookup: u32)
    requires
        raw::addressable(img),
        0 <= o,
    ensures
        forall|i: int|
            0 <= i < gates::lookup_checks(img, o, lookup).len() ==> raw::hw_at(
                img,
                #[trigger] gates::lookup_checks(img, o, lookup)[i] as int,
            ) == 0x2800,
    decreases img.len() - o,
{
    if o + 4 <= img.len() {
        lemma_checks_compare(img, o + 2, lookup);
        lemma_check_after(img, o + 4, scanner::least(o + 28, scanner::short_of(img, 4)));
        let rest = gates::lookup_checks(img, o + 2, lookup);
        let all = gates::lookup_checks(img, o, lookup);
        assert forall|i: int| 0 <= i < all.len() implies raw::hw_at(img, #[trigger] all[i] as int)
            == 0x2800 by {
            if gates::checked_call(img, o, lookup) is Some {
                if i > 0 {
                    assert(all[i] == rest[i - 1]);
                }
            } else {
                assert(all[i] == rest[i]);
            }
        }
    }
}

/// Places that all start with a compare are solid.
proof fn lemma_compares_solid(img: Seq<u8>, sites: Seq<usize>)
    requires
        forall|i: int|
            0 <= i < sites.len() ==> raw::hw_at(img, #[trigger] sites[i] as int) == 0x2800,
    ensures
        all_solid(img, changes::windows(sites)),
{
    assert forall|i: int| #[trigger] changes::windows(sites).contains(i) implies exists|site: int|
        #[trigger] solid(img, site) && site <= i < site + 4 by {
        let k = choose|k: int| 0 <= k < sites.len() && #[trigger] sites[k] <= i < sites[k] + 4;
        lemma_hw_solid(img, sites[k] as int, sites[k] as int);
    }
}

proof fn lemma_hrl_solid(img: Seq<u8>)
    requires
        raw::addressable(img),
    ensures
        all_solid(img, changes::hrl_windows(img)),
{
    if let Ok((sites, _)) = gates::hrl_skip_sites(img) {
        let lookup = gates::hrl_lookup(img)->Ok_0;
        lemma_checks_compare(img, 0, lookup);
        lemma_compares_solid(img, sites);
    }
}

/// A well-formed record for `opcode` that serves it, whole words from `lo`.
pub open spec fn serves(img: Seq<u8>, r: CommandRecord, opcode: u8, lo: int) -> bool {
    &&& scanner::record_at(img, r.off as int)
    &&& scanner::live_at(img, r.off as int, opcode)
    &&& r == scanner::record_of(img, r.off as int)
    &&& lo <= r.off
    &&& (r.off - lo) % 4 == 0
}

/// A live record among those of a run is a well-formed one.
proof fn lemma_live_in_run(img: Seq<u8>, p: int, n: nat, opcode: u8)
    requires
        raw::addressable(img),
        0 <= p,
        n <= scanner::record_run(img, p),
    ensures
        forall|i: int|
            0 <= i < scanner::live_in_run(img, p, n, opcode).len() ==> serves(
                img,
                #[trigger] scanner::live_in_run(img, p, n, opcode)[i],
                opcode,
                p,
            ),
    decreases n,
{
    if n > 0 {
        lemma_live_in_run(img, p, (n - 1) as nat, opcode);
        lemma_run_records(img, p, n - 1);
        let before = scanner::live_in_run(img, p, (n - 1) as nat, opcode);
        let all = scanner::live_in_run(img, p, n, opcode);
        assert forall|i: int| 0 <= i < all.len() implies serves(
            img,
            #[trigger] all[i],
            opcode,
            p,
        ) by {
            if i < before.len() {
                assert(all[i] == before[i]);
            }
        }
    }
}

/// Every place of a run holds a well-formed record.
proof fn lemma_run_records(img: Seq<u8>, p: int, k: int)
    requires
        0 <= k < scanner::record_run(img, p),
    ensures
        scanner::record_at(img, p + scanner::STRIDE * k),
    decreases k,
{
    if k > 0 {
        lemma_run_records(img, p + scanner::STRIDE, k - 1);
    }
}

/// A live record of a window is a well-formed one.
proof fn lemma_live_records(img: Seq<u8>, off: int, end: int, opcode: u8)
    requires
        raw::addressable(img),
        0 <= off,
    ensures
        forall|i: int|
            0 <= i < scanner::live_records(img, off, end, opcode).len() ==> serves(
                img,
                #[trigger] scanner::live_records(img, off, end, opcode)[i],
                opcode,
                off,
            ),
    decreases
            if off < end {
                end - off
            } else {
                0
            },
{
    if off + scanner::STRIDE <= end {
        let n = scanner::record_run(img, off);
        if n >= scanner::MIN_RUN {
            let first = scanner::live_in_run(img, off, n, opcode);
            let rest = scanner::live_records(img, off + scanner::STRIDE * n, end, opcode);
            lemma_live_in_run(img, off, n, opcode);
            lemma_live_records(img, off + scanner::STRIDE * n, end, opcode);
            let all = scanner::live_records(img, off, end, opcode);
            assert(all == first + rest);
            assert forall|i: int| 0 <= i < all.len() implies serves(
                img,
                #[trigger] all[i],
                opcode,
                off,
            ) by {
                if i < first.len() {
                    assert(all[i] == first[i]);
                } else {
                    assert(all[i] == rest[i - first.len()]);
                    assert(serves(img, all[i], opcode, off + scanner::STRIDE * n));
                }
            }
        } else {
            lemma_live_records(img, off + 4, end, opcode);
            assert(scanner::live_records(img, off, end, opcode) == scanner::live_records(
                img,
                off + 4,
                end,
                opcode,
            ));
        }
    } else {
        assert(scanner::live_records(img, off, end, opcode).len() == 0);
    }
}

/// The pointer of a record that was found is solid: it is below the flash's end.
pub proof fn lemma_record_solid(img: Seq<u8>, opcode: u8, lo: int, hi: int)
    requires
        raw::addressable(img),
        0 <= lo,
    ensures
        scanner::live_record_in(img, opcode, lo, hi) matches Ok(r) ==> solid(
            img,
            r.off + scanner::HANDLER_OFF,
        ) && r.off + 8 <= img.len() && serves(img, r, opcode, lo),
{
    lemma_live_records(img, lo, scanner::least(hi, img.len() as int), opcode);
    if let Ok(r) = scanner::live_record_in(img, opcode, lo, hi) {
        let found = scanner::live_records(
            img,
            lo,
            scanner::least(hi, img.len() as int),
            opcode,
        );
        assert(serves(img, found[0], opcode, lo));
        assert(img[r.off + 7] != 0xFF);
    }
}

/// The pointer of the record that was found in one of the windows is solid.
pub proof fn lemma_record_among_solid(
    img: Seq<u8>,
    opcode: u8,
    windows: Seq<(usize, usize)>,
    k: int,
    last: FwError,
)
    requires
        raw::addressable(img),
        0 <= k,
    ensures
        scanner::live_record_among(img, opcode, windows, k, last) matches Ok(r) ==> solid(
            img,
            r.off + scanner::HANDLER_OFF,
        ) && r.off + 8 <= img.len() && scanner::record_at(img, r.off as int) && scanner::live_at(
            img,
            r.off as int,
            opcode,
        ) && r == scanner::record_of(img, r.off as int),
    decreases windows.len() - k,
{
    if k < windows.len() {
        let (lo, hi) = windows[k];
        lemma_record_solid(img, opcode, lo as int, hi as int);
        if let Err(e) = scanner::live_record_in(img, opcode, lo as int, hi as int) {
            lemma_record_among_solid(img, opcode, windows, k + 1, e);
        }
    }
}

/// Where the downgrade byte goes.
pub open spec fn de_slot() -> int {
    gates::DESCRIPTOR_OFFSET + gates::DE_BYTE_OFF
}

/// No occurrence of the text in `out` has a byte in `extra`.
pub open spec fn spares_text(out: Seq<u8>, extra: Set<int>) -> bool {
    forall|p: int, i: int|
        #![trigger raw::occurs_at(out, abi::RESP_MAGIC@, p), extra.contains(i)]
        raw::occurs_at(out, abi::RESP_MAGIC@, p) && p <= i < p + abi::RESP_MAGIC@.len()
            ==> !extra.contains(i)
}

/// The handler of `b` holds the text at `p` of the image, behind its code.
spec fn text_home(b: Base, p: int) -> bool {
    &&& b.handler_va + 0x20 <= p
    &&& p + handler::IDENTITY@.len() <= b.handler_va + b.handler.len()
    &&& raw::occurs_at(b.image, abi::RESP_MAGIC@, p)
}

/// A handler in place has such a home.
proof fn lemma_text_home(img: Seq<u8>, layout: Layout, b: Base)
    requires
        raw::addressable(img),
        base::workable(b, img.len()),
        changes::placed(img, layout, b),
    ensures
        exists|p: int| text_home(b, p),
{
    let va = b.handler_va as int;
    space::law_free_space_is_blank_and_covered(
        img,
        layout.covered@,
        (b.handler.len() + emit::SPARE) as int,
        b.handler_va,
    );
    let p0 = choose|p: int| 0x20 <= p && #[trigger] raw::occurs_at(b.handler, handler::IDENTITY@, p);
    assert(raw::occurs_at(b.handler, handler::IDENTITY@, p0));
    let p = va + p0;
    let text = abi::RESP_MAGIC@;
    assert forall|k: int| 0 <= k < text.len() implies #[trigger] b.image[p + k] == text[k] by {
        assert(handler::IDENTITY@[k] == text[k]);
        assert(b.handler[p0 + k] == handler::IDENTITY@[k]);
    }
    assert(text_home(b, p));
}

/// A change at solid places misses the handler's text.
proof fn lemma_solid_misses(img: Seq<u8>, layout: Layout, b: Base, p: int, touched: Set<int>)
    requires
        raw::addressable(img),
        changes::placed(img, layout, b),
        text_home(b, p),
        all_solid(img, touched),
    ensures
        forall|i: int| p <= i < p + abi::RESP_MAGIC@.len() ==> !#[trigger] touched.contains(i),
{
    space::law_free_space_is_blank_and_covered(
        img,
        layout.covered@,
        (b.handler.len() + emit::SPARE) as int,
        b.handler_va,
    );
    assert forall|i: int| p <= i < p + abi::RESP_MAGIC@.len() implies !#[trigger] touched.contains(
        i,
    ) by {
        if touched.contains(i) {
            let site = choose|site: int| #[trigger] solid(img, site) && site <= i < site + 4;
            let j = choose|j: int| site <= j < site + 4 && #[trigger] img[j] != 0xFF;
            assert(b.handler_va <= j < b.handler_va + b.handler.len() + emit::SPARE);
            assert(img[j] == 0xFF);
        }
    }
}

/// The text of a handler stays when nothing but solid places, places that spare it and
/// the downgrade byte change.
proof fn lemma_text_stays(
    img: Seq<u8>,
    layout: Layout,
    b: Base,
    out: Seq<u8>,
    after: Seq<u8>,
    boot: Set<int>,
    touched: Set<int>,
    extra: Set<int>,
)
    requires
        raw::addressable(img),
        base::workable(b, img.len()),
        changes::placed(img, layout, b),
        changes::confined(b.image, out, boot),
        changes::confined(out, after, touched.union(extra).union(changes::de_window(img))),
        all_solid(img, boot),
        all_solid(img, touched),
        spares_text(out, extra),
    ensures
        modify::carries_magic(after),
{
    lemma_text_home(img, layout, b);
    let p = choose|p: int| text_home(b, p);
    let text = abi::RESP_MAGIC@;
    lemma_solid_misses(img, layout, b, p, boot);
    lemma_solid_misses(img, layout, b, p, touched);
    space::law_free_space_is_blank_and_covered(
        img,
        layout.covered@,
        (b.handler.len() + emit::SPARE) as int,
        b.handler_va,
    );
    assert forall|k: int| 0 <= k < text.len() implies #[trigger] out[p + k] == text[k] by {
        assert(b.image[p + k] == text[k] && text[k] != 0xFF);
        assert(!boot.contains(p + k));
    }
    assert(raw::occurs_at(out, text, p));
    lemma_tag_keeps_text_off(img, layout, b, p);
    assert forall|k: int| 0 <= k < text.len() implies #[trigger] after[p + k] == text[k] by {
        assert(out[p + k] == text[k] && text[k] != 0xFF);
        assert(!touched.contains(p + k));
        assert(!extra.contains(p + k));
        assert(!changes::de_window(img).contains(p + k));
    }
    assert(raw::occurs_at(after, text, p));
}

/// The text is never put over the downgrade byte: the code in front of it would lie over
/// the family tag, which is not blank.
proof fn lemma_tag_keeps_text_off(img: Seq<u8>, layout: Layout, b: Base, p: int)
    requires
        raw::addressable(img),
        changes::placed(img, layout, b),
        text_home(b, p),
    ensures
        forall|i: int|
            p <= i < p + abi::RESP_MAGIC@.len() ==> !#[trigger] changes::de_window(img).contains(i),
{
    space::law_free_space_is_blank_and_covered(
        img,
        layout.covered@,
        (b.handler.len() + emit::SPARE) as int,
        b.handler_va,
    );
    if gates::de_byte(img) is Ok && p <= de_slot() < p + abi::RESP_MAGIC@.len() {
        let tag = gates::DESCRIPTOR_OFFSET + gates::FAMILY_TAG_OFF;
        assert(img[tag + 7] == gates::FAMILY_TAG@[7]);
        assert(b.handler_va <= tag + 7 < b.handler_va + b.handler.len());
        assert(img[tag + 7] == 0xFF);
    }
}

/// Every place that a modern image's patch takes over is solid.
proof fn lemma_modern_solid(img: Seq<u8>, layout: Layout)
    requires
        raw::addressable(img),
    ensures
        all_solid(img, modern_places(img, layout)),
{
    lemma_speed_solid(img);
    lemma_region_solid(img);
    lemma_core_solid(img, sram::FLAG_TABLE_BASE);
    lemma_plans_solid(img, sram::FLAG_TABLE_BASE);
    lemma_hrl_solid(img);
    lemma_record_among_solid(
        img,
        abi::READ_BUFFER_OPCODE,
        layout.live_record_windows@,
        0,
        FwError::Refused(Reason::RecordWindow { opcode: abi::READ_BUFFER_OPCODE }),
    );
    let record = changes::record_window(img, layout);
    assert(all_solid(img, record)) by {
        if let Ok(r) = scanner::live_record(
            img,
            abi::READ_BUFFER_OPCODE,
            layout.live_record_windows@,
        ) {
            lemma_window_solid(img, r.off + scanner::HANDLER_OFF);
        }
    }
    assert(all_solid(img, changes::rawread_windows(img, sram::FLAG_TABLE_BASE)));
}

/// The places that a modern image's patch takes over once its boot hook is in place,
/// the downgrade byte left out.
pub open spec fn modern_places(img: Seq<u8>, layout: Layout) -> Set<int> {
    changes::speed_window(img).union(changes::region_window(img)).union(
        changes::rawread_windows(img, sram::FLAG_TABLE_BASE),
    ).union(changes::record_window(img, layout))
}

/// A modern base whose features change nothing but their places is recognised.
#[verifier::rlimit(50)]
proof fn lemma_modern_recognised(
    img: Seq<u8>,
    layout: Layout,
    b: Base,
    out: Seq<u8>,
    d: Seq<u8>,
    pointer: u32,
)
    requires
        raw::addressable(img),
        base::workable(b, img.len()),
        changes::placed(img, layout, b),
        scanner::live_record(img, abi::READ_BUFFER_OPCODE, layout.live_record_windows@) == Ok::<
            CommandRecord,
            FwError,
        >(b.record),
        changes::confined(b.image, out, changes::boot_window(img)),
        changes::confined(out, d, changes::feature_windows(img)),
    ensures
        modify::carries_magic(scanner::repointed(d, b.record, pointer)),
{
    let done = scanner::repointed(d, b.record, pointer);
    let features = changes::feature_windows(img);
    let record = changes::record_window(img, layout);
    assert(changes::confined(d, done, record));
    changes::lemma_confined_chain(out, d, done, features, record);
    let places = modern_places(img, layout);
    changes::lemma_confined_within(
        out,
        done,
        features.union(record),
        places.union(Set::empty()).union(changes::de_window(img)),
    );
    lemma_boot_solid(img);
    lemma_modern_solid(img, layout);
    lemma_text_stays(
        img,
        layout,
        b,
        out,
        done,
        changes::boot_window(img),
        places,
        Set::empty(),
    );
}

/// What was built for a modern image is recognised as patched.
pub proof fn lemma_create_recognised(img: Seq<u8>, layout: Layout, c: Created)
    requires
        raw::addressable(img),
        create::create_modern(img, layout) == Ok::<Created, FwError>(c),
        base::modern_base(img, layout) matches Ok((b, _)) && base::workable(b, img.len()),
    ensures
        modify::carries_magic(c.image),
{
    let (b, pair) = base::modern_base(img, layout)->Ok_0;
    let table = layout.covered@;
    let (out, site, va) = emit::boot_emission(img, b.image, table, b.flag_base, pair)->Ok_0;
    changes::lemma_modern_base_confined(img, layout, b, pair, out, site, va);
    changes::lemma_features_confined(img, out, layout);
    let f = create::modern_features(img, out, layout, sram::FLAG_TABLE_BASE).2;
    lemma_modern_recognised(
        img,
        layout,
        b,
        out,
        create::with_de(img, f.0),
        create::entry_pointer(b.handler_va),
    );
}

/// What a modern image was modified to is recognised as patched.
pub proof fn lemma_modify_recognised(
    img: Seq<u8>,
    layout: Layout,
    chip: ChipInfo,
    cap: Capability,
    m: Modified,
)
    requires
        raw::addressable(img),
        modify::modify_modern(img, layout, chip, cap) == Ok::<Modified, FwError>(m),
        modify::carries_magic(img) || (base::modern_base(img, layout) matches Ok((b, _))
            && base::workable(b, img.len())),
    ensures
        modify::carries_magic(m.image),
{
    if !modify::carries_magic(img) {
        let (b, pair) = base::modern_base(img, layout)->Ok_0;
        let table = layout.covered@;
        let (out, site, va) = emit::boot_emission(img, b.image, table, b.flag_base, pair)->Ok_0;
        changes::lemma_modern_base_confined(img, layout, b, pair, out, site, va);
        let identity = modify::identity_lever(b, site, va);
        changes::lemma_levers_confined(img, out, layout, identity, chip, cap);
        let (w, _) = modify::modern_levers(
            img,
            out,
            layout,
            sram::FLAG_TABLE_BASE,
            identity,
            chip,
            cap,
        );
        lemma_modern_recognised(
            img,
            layout,
            b,
            out,
            w,
            create::entry_pointer(b.handler_va),
        );
    }
}

proof fn lemma_classic_check(img: Seq<u8>, p: int, hopped: bool, n: nat)
    requires
        raw::addressable(img),
    ensures
        mt1939_classic::classic_check(img, p, hopped, n) matches Some(q) ==> raw::hw_at(
            img,
            q as int,
        ) == 0x2800,
    decreases n,
{
    if n > 0 && 0 <= p && p + 4 <= img.len() {
        lemma_classic_check(
            img,
            code::jump_target(p, raw::hw_at(img, p)),
            true,
            (n - 1) as nat,
        );
        lemma_classic_check(img, p + 2, hopped, (n - 1) as nat);
    }
}

/// Every classic revocation check is a compare.
proof fn lemma_classic_checks_compare(img: Seq<u8>, o: int, lookup: u32)
    requires
        raw::addressable(img),
        0 <= o,
    ensures
        forall|i: int|
            0 <= i < mt1939_classic::classic_checks(img, o, lookup).len() ==> raw::hw_at(
                img,
                #[trigger] mt1939_classic::classic_checks(img, o, lookup)[i] as int,
            ) == 0x2800,
    decreases img.len() - o,
{
    if o + 4 <= img.len() {
        lemma_classic_checks_compare(img, o + 2, lookup);
        lemma_classic_check(img, o + 4, false, mt1939_classic::CHECK_STEPS as nat);
        let rest = mt1939_classic::classic_checks(img, o + 2, lookup);
        let all = mt1939_classic::classic_checks(img, o, lookup);
        assert forall|i: int| 0 <= i < all.len() implies raw::hw_at(img, #[trigger] all[i] as int)
            == 0x2800 by {
            if mt1939_classic::classic_checked_call(img, o, lookup) is Some {
                if i > 0 {
                    assert(all[i] == rest[i - 1]);
                }
            } else {
                assert(all[i] == rest[i]);
            }
        }
    }
}

proof fn lemma_classic_hrl_solid(img: Seq<u8>)
    requires
        raw::addressable(img),
    ensures
        all_solid(img, changes::classic_hrl_windows(img)),
{
    if let Ok((sites, _)) = mt1939_classic::classic_hrl_sites(img) {
        let lookup = sig::only(
            sig::find_loose(img, HRL_LOOKUP_SIG_CLASSIC@, 0, img.len() as int),
            Anchor::ClassicHrlLookup,
            0,
            img.len() as int,
        )->Ok_0;
        lemma_classic_checks_compare(img, 0, lookup as u32);
        lemma_compares_solid(img, sites);
    }
}

proof fn lemma_classic_rawread_solid(img: Seq<u8>, flag_base: u32)
    ensures
        all_solid(img, changes::classic_rawread_windows(img, flag_base)),
{
    if let Ok(g) = mt1939_classic::classic_grounds(img, flag_base) {
        lemma_hw_solid(img, g.gatea_site, g.gatea_site);
        lemma_hw_solid(img, g.ake + 6, g.ake + 6);
    }
}

/// The store that a Region detour takes over is not part of the text.
proof fn lemma_region_spares_text(out: Seq<u8>, lo: int, hi: int)
    requires
        raw::addressable(out),
        0 <= lo,
    ensures
        gates::region_emitter_in(out, lo, hi) matches Ok(at) ==> spares_text(
            out,
            changes::window(at + 6),
        ),
{
    if let Ok(at) = gates::region_emitter_in(out, lo, hi) {
        let s = REGION_EMIT_SIG@;
        let text = abi::RESP_MAGIC@;
        lemma_region_store(out, lo, hi);
        assert(s[1] == (0x789Bu16, 0xFFFFu16));
        assert(s[4] == (0x466Bu16, 0xFFFFu16));
        lemma_full_mask(raw::hw_at(out, at + 2));
        lemma_full_mask(raw::hw_at(out, at + 8));
        assert(raw::hw_at(out, at + 2) == 0x789B);
        assert(raw::hw_at(out, at + 8) == 0x466B);
        assert(out[at + 3] == 0x78 && out[at + 6] == 0x02 && out[at + 7] == 0x72 && out[at + 8]
            == 0x6B && out[at + 9] == 0x46);
        assert forall|p: int, i: int|
            #![trigger raw::occurs_at(out, text, p), changes::window(at + 6).contains(i)]
            raw::occurs_at(out, text, p) && p <= i < p + text.len() implies !changes::window(
            at + 6,
        ).contains(i) by {
            let k = i - p;
            assert(out[p + k] == text[k]);
            assert(out[p + 0] == text[0]);
        }
    }
}

/// The places that a classic image's patch takes over once its boot hook is in place,
/// the Region store and the downgrade byte left out.
pub open spec fn classic_places(img: Seq<u8>, b: Base) -> Set<int> {
    changes::classic_rawread_windows(img, b.flag_base).union(
        changes::plan_window(detours::uhd_plan(img, b.flag_base)),
    ).union(changes::plan_window(detours::bd_plan(img, b.flag_base))).union(
        changes::classic_hrl_windows(img),
    ).union(changes::window(b.record.off + scanner::HANDLER_OFF))
}

proof fn lemma_classic_solid(img: Seq<u8>, b: Base)
    requires
        raw::addressable(img),
        solid(img, b.record.off + scanner::HANDLER_OFF),
    ensures
        all_solid(img, classic_places(img, b)),
{
    lemma_classic_rawread_solid(img, b.flag_base);
    lemma_plans_solid(img, b.flag_base);
    lemma_classic_hrl_solid(img);
    lemma_window_solid(img, b.record.off + scanner::HANDLER_OFF);
}

/// The places of a classic patch in another order.
proof fn lemma_regrouped(
    region: Set<int>,
    raw: Set<int>,
    uhd: Set<int>,
    bd: Set<int>,
    hrl: Set<int>,
    de: Set<int>,
    record: Set<int>,
)
    ensures
        region.union(raw).union(uhd).union(bd).union(hrl).union(de).union(record).subset_of(
            raw.union(uhd).union(bd).union(hrl).union(record).union(region).union(de),
        ),
{
}

/// A classic base whose features change nothing but their places is recognised. `out`
/// is the image that the features start from.
proof fn lemma_classic_recognised(
    img: Seq<u8>,
    layout: Layout,
    b: Base,
    out: Seq<u8>,
    d: Seq<u8>,
    pointer: u32,
)
    requires
        raw::addressable(img),
        base::workable(b, img.len()),
        changes::placed(img, layout, b),
        solid(img, b.record.off + scanner::HANDLER_OFF),
        changes::confined(b.image, out, changes::boot_window(img)),
        changes::confined(out, d, changes::classic_feature_windows(img, layout, b.flag_base)),
        spares_text(out, changes::classic_region_window(img, layout)),
    ensures
        modify::carries_magic(scanner::repointed(d, b.record, pointer)),
{
    let done = scanner::repointed(d, b.record, pointer);
    let features = changes::classic_feature_windows(img, layout, b.flag_base);
    let record = changes::window(b.record.off + scanner::HANDLER_OFF);
    let region = changes::classic_region_window(img, layout);
    changes::lemma_repoint_confined(out, out, d, b.record, pointer, Set::empty(), features);
    let places = classic_places(img, b);
    lemma_regrouped(
        region,
        changes::classic_rawread_windows(img, b.flag_base),
        changes::plan_window(detours::uhd_plan(img, b.flag_base)),
        changes::plan_window(detours::bd_plan(img, b.flag_base)),
        changes::classic_hrl_windows(img),
        changes::de_window(img),
        record,
    );
    assert(Set::empty().union(features) =~= features);
    changes::lemma_confined_within(
        out,
        done,
        features.union(record),
        places.union(region).union(changes::de_window(img)),
    );
    lemma_boot_solid(img);
    lemma_classic_solid(img, b);
    lemma_text_stays(
        img,
        layout,
        b,
        out,
        done,
        changes::boot_window(img),
        places,
        region,
    );
}

/// The record of a classic base is solid.
proof fn lemma_classic_record(img: Seq<u8>, layout: Layout, b: Base)
    requires
        raw::addressable(img),
        base::classic_base(img, layout) == Ok::<Base, FwError>(b),
    ensures
        solid(img, b.record.off + scanner::HANDLER_OFF),
{
    lemma_record_solid(
        img,
        abi::READ_BUFFER_OPCODE,
        base::CLASSIC_TABLE_LO as int,
        base::CLASSIC_TABLE_HI as int,
    );
}

/// Once the boot hook is in place, the Region store spares the text; without the hook
/// there is no Region detour.
proof fn lemma_classic_region_spares(img: Seq<u8>, layout: Layout, out: Seq<u8>)
    requires
        raw::addressable(out),
        changes::classic_hooked(img, layout) matches Ok(w) ==> w == out,
    ensures
        spares_text(out, changes::classic_region_window(img, layout)),
{
    lemma_region_spares_text(
        out,
        mt1939_classic::CLASSIC_EMITTER_LO as int,
        mt1939_classic::CLASSIC_EMITTER_HI as int,
    );
}

/// What was built for a classic image is recognised as patched.
pub proof fn lemma_classic_create_recognised(img: Seq<u8>, layout: Layout, c: Created)
    requires
        raw::addressable(img),
        mt1939_classic::create_classic(img, layout) == Ok::<Created, FwError>(c),
        base::classic_base(img, layout) matches Ok(b) && base::workable(b, img.len()),
    ensures
        modify::carries_magic(c.image),
{
    let b = base::classic_base(img, layout)->Ok_0;
    let f = mt1939_classic::classic_body(img, b, layout.covered@).1;
    let out = match mt1939_classic::classic_boot(img, b, layout.covered@) {
        Ok((out, _, _)) => out,
        Err(_) => b.image,
    };
    changes::lemma_classic_base_confined(img, layout, b);
    changes::lemma_classic_body_confined(img, layout, b);
    lemma_classic_record(img, layout, b);
    lemma_classic_region_spares(img, layout, out);
    lemma_classic_recognised(
        img,
        layout,
        b,
        out,
        create::with_de(img, f.image),
        create::entry_pointer(b.handler_va),
    );
}

/// What a classic image was modified to is recognised as patched.
pub proof fn lemma_classic_modify_recognised(
    img: Seq<u8>,
    layout: Layout,
    chip: ChipInfo,
    cap: Capability,
    m: Modified,
)
    requires
        raw::addressable(img),
        classic_modify::modify_classic(img, layout, chip, cap) == Ok::<Modified, FwError>(m),
        modify::carries_magic(img) || (base::classic_base(img, layout) matches Ok(b)
            && base::workable(b, img.len())),
    ensures
        modify::carries_magic(m.image),
{
    if !modify::carries_magic(img) {
        let b = base::classic_base(img, layout)->Ok_0;
        let table = layout.covered@;
        let (out, _, _) = mt1939_classic::classic_boot(img, b, table)->Ok_0;
        let identity = classic_modify::classic_identity_lever(b);
        changes::lemma_classic_base_confined(img, layout, b);
        changes::lemma_classic_levers_confined(
            img,
            layout,
            out,
            b.flag_base,
            identity,
            chip,
            cap,
        );
        let (w, _) = classic_modify::classic_levers(
            img,
            out,
            table,
            b.flag_base,
            identity,
            chip,
            cap,
        );
        lemma_classic_record(img, layout, b);
        lemma_classic_region_spares(img, layout, out);
        lemma_classic_recognised(
            img,
            layout,
            b,
            out,
            w,
            create::entry_pointer(b.handler_va),
        );
    }
}

/// No lever of a report was newly applied.
pub open spec fn nothing_applied(levers: Seq<Lever>) -> bool {
    forall|i: int| 0 <= i < levers.len() ==> (#[trigger] levers[i]).outcome !is Applied
}

/// An image that is recognised as patched comes back as it is, and nothing is applied
/// to it, whatever its layout and its drive.
pub proof fn law_patched_image_is_left_alone(
    img: Seq<u8>,
    layout: Layout,
    chip: ChipInfo,
    cap: Capability,
)
    requires
        modify::carries_magic(img),
    ensures
        modify::modify_modern(img, layout, chip, cap) matches Ok(m) && m.image == img
            && nothing_applied(m.levers),
        classic_modify::modify_classic(img, layout, chip, cap) matches Ok(m) && m.image == img
            && nothing_applied(m.levers),
        mt1939::modify_mt1939(img, layout, chip, cap) matches Ok(m) && m.image == img
            && nothing_applied(m.levers),
{
    let levers = modify::present_levers(img, chip, cap);
    assert forall|i: int| 0 <= i < levers.len() implies (#[trigger] levers[i]).outcome !is Applied by {
        assert(i == 0 || i == 1 || i == 2 || i == 3 || i == 4);
    }
}

/// Modifying the image changes nothing and applies nothing, whatever its layout and its
/// drive.
pub open spec fn settled(img: Seq<u8>) -> bool {
    forall|layout: Layout, chip: ChipInfo, cap: Capability|
        #![trigger modify::modify_modern(img, layout, chip, cap)]
        #![trigger classic_modify::modify_classic(img, layout, chip, cap)]
        #![trigger mt1939::modify_mt1939(img, layout, chip, cap)]
        {
            &&& modify::modify_modern(img, layout, chip, cap) matches Ok(m) && m.image
                == img && nothing_applied(m.levers)
            &&& classic_modify::modify_classic(img, layout, chip, cap) matches Ok(m)
                && m.image == img && nothing_applied(m.levers)
            &&& mt1939::modify_mt1939(img, layout, chip, cap) matches Ok(m) && m.image
                == img && nothing_applied(m.levers)
        }
}

/// A patched image is settled.
pub proof fn lemma_settled(img: Seq<u8>)
    requires
        modify::carries_magic(img),
    ensures
        settled(img),
{
    assert forall|layout: Layout, chip: ChipInfo, cap: Capability|
        #![trigger modify::modify_modern(img, layout, chip, cap)]
        #![trigger classic_modify::modify_classic(img, layout, chip, cap)]
        #![trigger mt1939::modify_mt1939(img, layout, chip, cap)]
        {
            &&& modify::modify_modern(img, layout, chip, cap) matches Ok(m) && m.image
                == img && nothing_applied(m.levers)
            &&& classic_modify::modify_classic(img, layout, chip, cap) matches Ok(m)
                && m.image == img && nothing_applied(m.levers)
            &&& mt1939::modify_mt1939(img, layout, chip, cap) matches Ok(m) && m.image
                == img && nothing_applied(m.levers)
        } by {
        law_patched_image_is_left_alone(img, layout, chip, cap);
    }
}

/// Where only the downgrade byte can be set, setting it again changes nothing and is
/// reported as already done.
pub proof fn law_downgrade_byte_is_set_once(
    img: Seq<u8>,
    chip: ChipInfo,
    cap: Capability,
    m: Modified,
)
    requires
        mt1939::de_only(img, chip, cap) == Ok::<Modified, FwError>(m),
    ensures
        mt1939::de_only(m.image, chip, cap) matches Ok(again) && again.image == m.image
            && nothing_applied(again.levers),
        m.image[de_slot()] == create::DE_BYTE,
        forall|i: int| 0 <= i < img.len() && i != de_slot() ==> #[trigger] m.image[i] == img[i],
{
    let again = mt1939::de_only(m.image, chip, cap)->Ok_0;
    assert forall|i: int| 0 <= i < again.levers.len() implies (#[trigger] again.levers[i]).outcome
        !is Applied by {
        assert(i == 0 || i == 1 || i == 2 || i == 3);
    }
}

} // verus!
