//! The structural audit: whether what a report says was applied is in the image.
use crate::engine::create;
use crate::engine::gates;
use crate::engine::lever;
use crate::engine::lever::{Fact, Lever, LeverId, LeverOutcome, LeverReport, Modified, ModifyReport};
use crate::engine::modify;
use crate::engine::vid;
use crate::raw;
use crate::text;
use crate::thumb;
use crate::thumb::BranchShape;
use vstd::prelude::*;

verus! {

/// Bytes of a stub that are looked at to tell it from erased flash.
pub const STUB_PROBE: usize = 16;

/// Bytes of a handler that are searched for the boot function's address.
pub const HANDLER_SPAN: usize = 0x1000;

/// Bytes of the deny block that have to stay as they were.
pub const DENY_SPAN: usize = 0x40;

/// One structural check and its verdict.
#[derive(Debug, Clone)]
pub struct AuditCheck {
    /// The lever that the check belongs to.
    pub lever: &'static str,
    /// What was checked.
    pub what: String,
    /// Whether it passed.
    pub ok: bool,
    /// Addresses, and what was expected and found.
    pub detail: String,
}

/// A check with its text as characters.
pub struct Check {
    /// The lever that the check belongs to.
    pub lever: Seq<char>,
    /// What was checked.
    pub what: Seq<char>,
    /// Whether it passed.
    pub ok: bool,
    /// Addresses, and what was expected and found.
    pub detail: Seq<char>,
}

impl View for AuditCheck {
    type V = Check;

    open spec fn view(&self) -> Check {
        Check { lever: self.lever@, what: self.what@, ok: self.ok, detail: self.detail@ }
    }
}

/// The checks' views.
pub open spec fn checks_view(checks: Seq<AuditCheck>) -> Seq<Check> {
    Seq::new(checks.len(), |i: int| checks[i]@)
}

/// The result of an audit.
#[derive(Debug, Clone)]
pub struct AuditResult {
    /// Every check that was run, in order.
    pub checks: Vec<AuditCheck>,
}

/// The failing ones of the first `n` checks.
pub open spec fn failing(checks: Seq<AuditCheck>, n: nat) -> Seq<AuditCheck>
    decreases n,
{
    if n == 0 {
        Seq::empty()
    } else {
        let before = failing(checks, (n - 1) as nat);
        if checks[n - 1].ok {
            before
        } else {
            before.push(checks[n - 1])
        }
    }
}

/// An audit is passed exactly when nothing fails.
pub proof fn law_passed_means_no_failures(checks: Seq<AuditCheck>, n: nat)
    requires
        n <= checks.len(),
    ensures
        failing(checks, n).len() == 0 <==> forall|i: int| 0 <= i < n ==> (#[trigger] checks[i]).ok,
    decreases n,
{
    if n > 0 {
        law_passed_means_no_failures(checks, (n - 1) as nat);
        if failing(checks, n).len() == 0 {
            assert forall|i: int| 0 <= i < n implies (#[trigger] checks[i]).ok by {
                if i == n - 1 {
                    assert(checks[n - 1].ok);
                }
            }
        } else if forall|i: int| 0 <= i < n ==> (#[trigger] checks[i]).ok {
            assert(checks[n - 1].ok);
        }
    }
}

impl AuditResult {
    /// Whether every check passed.
    pub fn ok(&self) -> (r: bool)
        ensures
            r == forall|i: int| 0 <= i < self.checks@.len() ==> (#[trigger] self.checks@[i]).ok,
    {
        let mut k: usize = 0;
        while k < self.checks.len()
            invariant
                k <= self.checks@.len(),
                forall|i: int| 0 <= i < k ==> (#[trigger] self.checks@[i]).ok,
            decreases self.checks@.len() - k,
        {
            if !self.checks[k].ok {
                return false;
            }
            k += 1;
        }
        true
    }

    /// The checks that failed, in order.
    pub fn failures(&self) -> (r: Vec<&AuditCheck>)
        ensures
            r@.len() == failing(self.checks@, self.checks@.len()).len(),
            forall|i: int|
                0 <= i < r@.len() ==> *(#[trigger] r@[i]) == failing(
                    self.checks@,
                    self.checks@.len(),
                )[i],
    {
        let mut r: Vec<&AuditCheck> = Vec::new();
        let mut k: usize = 0;
        while k < self.checks.len()
            invariant
                k <= self.checks@.len(),
                r@.len() == failing(self.checks@, k as nat).len(),
                forall|i: int|
                    0 <= i < r@.len() ==> *(#[trigger] r@[i]) == failing(
                        self.checks@,
                        k as nat,
                    )[i],
            decreases self.checks@.len() - k,
        {
            if !self.checks[k].ok {
                r.push(&self.checks[k]);
            }
            k += 1;
        }
        r
    }
}

/// The value of the first of the first `n` facts with this name.
pub open spec fn fact_among(facts: Seq<Fact>, key: Seq<char>, n: nat) -> Option<u32>
    decreases n,
{
    if n == 0 {
        None
    } else {
        match fact_among(facts, key, (n - 1) as nat) {
            Some(v) => Some(v),
            None => if facts[n - 1].0 == key {
                Some(facts[n - 1].1)
            } else {
                None
            },
        }
    }
}

/// The value of the first fact with this name.
pub open spec fn fact_of(facts: Seq<Fact>, key: Seq<char>) -> Option<u32> {
    fact_among(facts, key, facts.len())
}

/// An address as text.
pub open spec fn addr(v: u32) -> Seq<char> {
    "0x"@ + text::hex(v as nat, 8)
}

/// The first `n` bytes from `at` on as text, with commas between.
pub open spec fn byte_list(b: Seq<u8>, at: int, n: nat) -> Seq<char>
    decreases n,
{
    if n == 0 {
        Seq::empty()
    } else {
        byte_list(b, at, (n - 1) as nat) + (if n > 1 {
            ", "@
        } else {
            Seq::empty()
        }) + text::hex(b[at + n - 1] as nat, 2)
    }
}

/// A stub was written at `va`: its first bytes are in the image and not all erased.
pub open spec fn stub_written(img: Seq<u8>, va: u32) -> bool {
    va + STUB_PROBE <= img.len() && !raw::erased(img, va as int, va + STUB_PROBE)
}

/// The check of a call at `site` to the stub at `stub`: the very bytes of the call are
/// there, and the stub was written.
pub open spec fn call_check(
    lever: Seq<char>,
    what: Seq<char>,
    img: Seq<u8>,
    site: u32,
    stub: u32,
) -> Check {
    let bl = thumb::branch_bytes(BranchShape::Bl, site, stub);
    if !thumb::disp_ok(thumb::branch_disp(site, stub)) {
        Check {
            lever,
            what,
            ok: false,
            detail: "bl "@ + addr(site) + " -> "@ + addr(stub) + " out of range"@,
        }
    } else if site + 4 > img.len() {
        Check {
            lever,
            what,
            ok: false,
            detail: "hook site "@ + addr(site) + " past end of image"@,
        }
    } else if raw::occurs_at(img, bl, site as int) && !stub_written(img, stub) {
        Check {
            lever,
            what,
            ok: false,
            detail: "bl present but stub at "@ + addr(stub) + " is blank (0xFF)"@,
        }
    } else {
        Check {
            lever,
            what,
            ok: raw::occurs_at(img, bl, site as int),
            detail: "site "@ + addr(site) + " -> stub "@ + addr(stub) + ": expected ["@ + byte_list(
                bl,
                0,
                4,
            ) + "], found ["@ + byte_list(img, site as int, 4) + "]"@,
        }
    }
}

/// A branch of this kind at `site` goes to `stub`, the Thumb bit aside.
pub open spec fn branches_to(shape: BranchShape, img: Seq<u8>, site: u32, stub: u32) -> bool {
    thumb::branch_target(shape, img, site as int) matches Some(t) && t / 2 == stub / 2
}

/// The check of the AKE branch, which may be of either kind.
pub open spec fn ake_check(lever: Seq<char>, img: Seq<u8>, site: u32, stub: u32) -> Check {
    let what = "AKE detour branch"@;
    let wide = branches_to(BranchShape::BWide, img, site, stub);
    let call = branches_to(BranchShape::Bl, img, site, stub);
    if site + 4 > img.len() {
        Check {
            lever,
            what,
            ok: false,
            detail: "hook site "@ + addr(site) + " past end of image"@,
        }
    } else if !wide && !call {
        Check {
            lever,
            what,
            ok: false,
            detail: "site "@ + addr(site) + " holds no bl or b.w to stub "@ + addr(stub),
        }
    } else if !stub_written(img, stub) {
        Check {
            lever,
            what,
            ok: false,
            detail: "branch present but stub at "@ + addr(stub) + " is blank (0xFF)"@,
        }
    } else {
        Check {
            lever,
            what,
            ok: true,
            detail: "site "@ + addr(site) + " -> stub "@ + addr(stub) + if wide {
                " (b.w)"@
            } else {
                " (bl)"@
            },
        }
    }
}

/// An address with its Thumb bit set.
pub open spec fn tagged(v: u32) -> u32 {
    (v / 2 * 2 + 1) as u32
}

/// The check that the record at `record` points at the handler.
pub open spec fn record_check(lever: Seq<char>, img: Seq<u8>, record: u32, handler: u32) -> Check {
    let what = "record repointed to injected handler"@;
    if record + 8 <= img.len() {
        let found = raw::u32_at(img, record + 4);
        Check {
            lever,
            what,
            ok: found == tagged(handler),
            detail: "record "@ + addr(record) + "+4 -> "@ + addr(found) + " (want "@ + addr(
                tagged(handler),
            ) + ")"@,
        }
    } else {
        Check {
            lever,
            what,
            ok: false,
            detail: "record "@ + addr(record) + "+4 past end of image (want "@ + addr(
                tagged(handler),
            ) + ")"@,
        }
    }
}

/// The check that a handler was written.
pub open spec fn handler_check(lever: Seq<char>, img: Seq<u8>, handler: u32) -> Check {
    Check {
        lever,
        what: "handler injected (RESP_MAGIC present)"@,
        ok: modify::carries_magic(img) && stub_written(img, handler),
        detail: "handler_va "@ + addr(handler),
    }
}

/// The handler at `handler` holds `word`.
pub open spec fn handler_holds(img: Seq<u8>, handler: u32, word: u32) -> bool {
    exists|at: int|
        handler <= at && at + 4 <= handler + HANDLER_SPAN && #[trigger] raw::occurs_at(
            img,
            raw::le_bytes(word),
            at,
        )
}

/// The check that the handler holds the boot function's address.
pub open spec fn reboot_check(lever: Seq<char>, img: Seq<u8>, handler: u32, entry: u32) -> Check {
    Check {
        lever,
        what: "Reboot boot-function-entry literal baked"@,
        ok: handler_holds(img, handler, tagged(entry)),
        detail: "literal "@ + addr(tagged(entry)) + " in the handler at "@ + addr(handler),
    }
}

/// The checks of an applied Identity lever.
pub open spec fn identity_checks(img: Seq<u8>, l: Lever) -> Seq<Check> {
    let name = l.id.label_text();
    match (fact_of(l.facts, "handler_va"@), fact_of(l.facts, "record_off"@)) {
        (Some(handler), Some(record)) => {
            let both = seq![
                record_check(name, img, record, handler),
                handler_check(name, img, handler),
            ];
            match fact_of(l.facts, "boot_function_entry"@) {
                Some(entry) => if entry != 0 {
                    both.push(reboot_check(name, img, handler, entry))
                } else {
                    both
                },
                None => both,
            }
        },
        _ => seq![
            Check {
                lever: name,
                what: "handler facts present"@,
                ok: false,
                detail: "missing handler_va/record_off"@,
            },
        ],
    }
}

/// The check of a call that the facts `site_key` (plus `delta`) and `stub_key` place;
/// none when a fact is missing.
#[verifier::opaque]
pub open spec fn placed_call(
    img: Seq<u8>,
    l: Lever,
    what: Seq<char>,
    site_key: Seq<char>,
    delta: u32,
    stub_key: Seq<char>,
) -> Seq<Check> {
    match (fact_of(l.facts, site_key), fact_of(l.facts, stub_key)) {
        (Some(site), Some(stub)) => seq![
            call_check(l.id.label_text(), what, img, moved(site, delta), stub),
        ],
        _ => Seq::empty(),
    }
}

/// `site` plus `delta`, modulo 2^32.
pub open spec fn moved(site: u32, delta: u32) -> u32 {
    if site + delta > u32::MAX {
        (site + delta - 0x1_0000_0000) as u32
    } else {
        (site + delta) as u32
    }
}

/// Two images have the same deny block.
pub open spec fn same_block(a: Seq<u8>, b: Seq<u8>, at: u32) -> bool {
    &&& at + DENY_SPAN <= a.len()
    &&& at + DENY_SPAN <= b.len()
    &&& forall|i: int| at <= i < at + DENY_SPAN ==> #[trigger] a[i] == b[i]
}

/// The check of the AKE branch; none when a fact is missing.
pub open spec fn ake_checks(img: Seq<u8>, l: Lever) -> Seq<Check> {
    match (fact_of(l.facts, "ake_site"@), fact_of(l.facts, "ake_stub_va"@)) {
        (Some(site), Some(stub)) => seq![ake_check(l.id.label_text(), img, site, stub)],
        _ => Seq::empty(),
    }
}

/// The check that a deny block that is not detoured stayed as it was.
#[verifier::opaque]
pub open spec fn deny_checks(original: Seq<u8>, img: Seq<u8>, l: Lever) -> Seq<Check> {
    match fact_of(l.facts, "deny"@) {
        Some(at) => seq![
            Check {
                lever: l.id.label_text(),
                what: "deny block byte-identical to OEM"@,
                ok: same_block(original, img, at),
                detail: "deny "@ + addr(at),
            },
        ],
        None => Seq::empty(),
    }
}

/// The check that a known scratch buffer is runtime RAM.
#[verifier::opaque]
pub open spec fn scratch_checks(l: Lever) -> Seq<Check> {
    match fact_of(l.facts, "scratch"@) {
        Some(v) => if v == 0 {
            Seq::empty()
        } else {
            seq![
                Check {
                    lever: l.id.label_text(),
                    what: "scratch buffer in runtime RAM window"@,
                    ok: vid::RUNTIME_LO <= v < vid::RUNTIME_HI,
                    detail: "scratch "@ + addr(v),
                },
            ]
        },
        None => Seq::empty(),
    }
}

/// The checks of the detours that a Raw-read lever has to have.
#[verifier::opaque]
pub open spec fn core_checks(img: Seq<u8>, l: Lever) -> Seq<Check> {
    ake_checks(img, l) + placed_call(
        img,
        l,
        "Gate-A detour bl"@,
        "gatea_gate"@,
        0,
        "gatea_stub_va"@,
    ) + placed_call(img, l, "deny-reset detour bl"@, "deny_site"@, 0, "deny_stub_va"@)
}

/// The checks of the detours that a Raw-read lever may have.
#[verifier::opaque]
pub open spec fn media_checks(img: Seq<u8>, l: Lever) -> Seq<Check> {
    let hrl = "HRL-skip detour bl"@;
    placed_call(img, l, "UHD detour bl"@, "uhd_site"@, 0, "uhd_stub_va"@) + placed_call(
        img,
        l,
        hrl,
        "hrl_site"@,
        0,
        "hrl_stub_va"@,
    ) + placed_call(img, l, hrl, "hrl_site2"@, 0, "hrl_stub_va"@) + placed_call(
        img,
        l,
        hrl,
        "hrl_site3"@,
        0,
        "hrl_stub_va"@,
    ) + placed_call(img, l, "BD-refuse detour bl"@, "bd_site"@, 0, "bd_stub_va"@) + placed_call(
        img,
        l,
        "auth-cell widen detour bl"@,
        "auth_cell_site"@,
        0,
        "auth_cell_stub_va"@,
    )
}

/// The complaint about a Raw-read lever that says nothing of its detours.
pub open spec fn unfounded(l: Lever) -> Check {
    Check {
        lever: l.id.label_text(),
        what: "detour facts present"@,
        ok: false,
        detail: "missing AKE/Gate-A/deny detour facts"@,
    }
}

/// The checks of an applied Raw-read lever.
pub open spec fn rawread_checks(original: Seq<u8>, img: Seq<u8>, l: Lever) -> Seq<Check> {
    let core = core_checks(img, l);
    core + media_checks(img, l) + deny_checks(original, img, l) + scratch_checks(l) + if core.len()
        == 0 {
        seq![unfounded(l)]
    } else {
        Seq::empty()
    }
}

/// The check of an applied downgrade-enable lever.
pub open spec fn de_checks(img: Seq<u8>, l: Lever) -> Seq<Check> {
    match fact_of(l.facts, "de_off"@) {
        Some(at) => {
            let found: u8 = if at < img.len() {
                img[at as int]
            } else {
                0
            };
            seq![
                Check {
                    lever: l.id.label_text(),
                    what: "DE byte set"@,
                    ok: found == create::DE_BYTE,
                    detail: addr(at) + " = 0x"@ + text::hex(found as nat, 2) + " (want 0xDE)"@,
                },
            ]
        },
        None => Seq::empty(),
    }
}

/// The checks of one lever: only one that was applied has any.
#[verifier::opaque]
pub open spec fn lever_checks(original: Seq<u8>, img: Seq<u8>, l: Lever) -> Seq<Check> {
    if !(l.outcome is Applied) {
        Seq::empty()
    } else {
        match l.id {
            LeverId::Identity => identity_checks(img, l),
            LeverId::Speed => placed_call(
                img,
                l,
                "speed detour bl"@,
                "speed_gate"@,
                4,
                "speed_stub_va"@,
            ),
            LeverId::RegionFree => placed_call(
                img,
                l,
                "region detour bl"@,
                "region_emitter"@,
                6,
                "region_stub_va"@,
            ),
            LeverId::RawRead => rawread_checks(original, img, l),
            LeverId::DowngradeEnable => de_checks(img, l),
        }
    }
}

/// The checks of the first `n` levers.
pub open spec fn levers_checks(
    original: Seq<u8>,
    img: Seq<u8>,
    levers: Seq<Lever>,
    n: nat,
) -> Seq<Check>
    decreases n,
{
    if n == 0 {
        Seq::empty()
    } else {
        levers_checks(original, img, levers, (n - 1) as nat) + lever_checks(
            original,
            img,
            levers[n - 1],
        )
    }
}

/// The checks of a report: every lever's, and the image's integrity.
pub open spec fn audit(original: Seq<u8>, report: Modified, integrity: bool) -> Seq<Check> {
    levers_checks(original, report.image, report.levers, report.levers.len()).push(
        Check {
            lever: "integrity"@,
            what: "CMAC tables verify"@,
            ok: integrity,
            detail: "AES-CMAC over active regions"@,
        },
    )
}

/// Whether two texts are the same.
fn same_text(a: &str, b: &str) -> (r: bool)
    ensures
        r == (a@ == b@),
{
    let n: usize = a.unicode_len();
    if n != b.unicode_len() {
        return false;
    }
    let mut k: usize = 0;
    while k < n
        invariant
            n == a@.len(),
            n == b@.len(),
            k <= n,
            forall|i: int| 0 <= i < k ==> a@[i] == b@[i],
        decreases n - k,
    {
        if a.get_char(k) != b.get_char(k) {
            assert(a@[k as int] != b@[k as int]);
            return false;
        }
        k += 1;
    }
    assert(a@ =~= b@);
    true
}

/// Looks up a fact of a lever's report by its name.
pub fn fact(l: &LeverReport, key: &str) -> (r: Option<u32>)
    ensures
        r == fact_of(l@.facts, key@),
{
    let mut n: usize = 0;
    while n < l.facts.len()
        invariant
            n <= l.facts@.len(),
            fact_among(l@.facts, key@, n as nat) is None,
        decreases l.facts@.len() - n,
    {
        let (k, v): (&'static str, u32) = l.facts[n];
        assert(l@.facts[n as int] == (k@, v));
        if same_text(k, key) {
            proof {
                lemma_fact_stays(l@.facts, key@, n as nat + 1, l@.facts.len(), v);
            }
            return Some(v);
        }
        n += 1;
    }
    None
}

/// The first fact that is found stays the first.
proof fn lemma_fact_stays(facts: Seq<Fact>, key: Seq<char>, m: nat, n: nat, v: u32)
    requires
        m <= n,
        fact_among(facts, key, m) == Some(v),
    ensures
        fact_among(facts, key, n) == Some(v),
    decreases n,
{
    if m < n {
        lemma_fact_stays(facts, key, m, (n - 1) as nat, v);
    }
}

/// Whether a stub was written at `va`.
pub fn stub_present(img: &[u8], va: u32) -> (r: bool)
    requires
        raw::addressable(img@),
    ensures
        r == stub_written(img@, va),
{
    let len: usize = img.len();
    if len < STUB_PROBE || va as usize > len - STUB_PROBE {
        return false;
    }
    let mut k: usize = 0;
    while k < STUB_PROBE
        invariant
            len == img@.len(),
            va + STUB_PROBE <= len,
            len <= raw::IMAGE_LIMIT,
            k <= STUB_PROBE,
            raw::erased(img@, va as int, va + k),
        decreases STUB_PROBE - k,
    {
        if img[va as usize + k] != 0xFF {
            return true;
        }
        k += 1;
    }
    false
}

fn push_addr(s: &mut String, v: u32)
    ensures
        final(s)@ == old(s)@ + addr(v),
{
    s.push_str("0x");
    text::push_hex(s, v, 8);
    assert(s@ =~= old(s)@ + addr(v));
}

fn push_bytes(s: &mut String, b: &[u8], at: usize, n: usize)
    requires
        at + n <= b@.len(),
    ensures
        final(s)@ == old(s)@ + byte_list(b@, at as int, n as nat),
{
    let ghost start = s@;
    let len: usize = b.len();
    let mut k: usize = 0;
    assert(start + byte_list(b@, at as int, 0) =~= start);
    while k < n
        invariant
            len == b@.len(),
            at + n <= len,
            k <= n,
            s@ == start + byte_list(b@, at as int, k as nat),
        decreases n - k,
    {
        if k > 0 {
            s.push_str(", ");
        }
        text::push_hex(s, b[at + k] as u32, 2);
        k += 1;
        assert(s@ =~= start + byte_list(b@, at as int, k as nat));
    }
}

/// Text, an address, text.
fn around(before: &str, v: u32, after: &str) -> (r: String)
    ensures
        r@ == before@ + addr(v) + after@,
{
    let mut s: String = String::new();
    s.push_str(before);
    push_addr(&mut s, v);
    s.push_str(after);
    assert(s@ =~= before@ + addr(v) + after@);
    s
}

/// Text, an address, text, an address, text.
fn between(before: &str, a: u32, mid: &str, b: u32, after: &str) -> (r: String)
    ensures
        r@ == before@ + addr(a) + mid@ + addr(b) + after@,
{
    let mut s: String = String::new();
    s.push_str(before);
    push_addr(&mut s, a);
    s.push_str(mid);
    push_addr(&mut s, b);
    s.push_str(after);
    assert(s@ =~= before@ + addr(a) + mid@ + addr(b) + after@);
    s
}

fn verdict(lever: &'static str, what: &str, ok: bool, detail: String) -> (r: AuditCheck)
    ensures
        r@ == (Check { lever: lever@, what: what@, ok, detail: detail@ }),
{
    AuditCheck { lever, what: what.to_owned(), ok, detail }
}

/// Checks a call at `site` to the stub at `stub`.
fn check_bl(lever: &'static str, what: &str, img: &[u8], site: u32, stub: u32) -> (r: AuditCheck)
    requires
        raw::addressable(img@),
    ensures
        r@ == call_check(lever@, what@, img@, site, stub),
{
    let len: usize = img.len();
    let bl: [u8; 4] = match thumb_asm::encode_bl(site as usize, stub) {
        Some(b) => b,
        None => {
            return verdict(
                lever,
                what,
                false,
                between("bl ", site, " -> ", stub, " out of range"),
            );
        },
    };
    if len < 4 || site as usize > len - 4 {
        return verdict(lever, what, false, around("hook site ", site, " past end of image"));
    }
    let there: bool = gates::holds_at(img, &bl, site as usize);
    if there && !stub_present(img, stub) {
        return verdict(
            lever,
            what,
            false,
            around("bl present but stub at ", stub, " is blank (0xFF)"),
        );
    }
    let mut s: String = between("site ", site, " -> stub ", stub, ": expected [");
    push_bytes(&mut s, &bl, 0, 4);
    s.push_str("], found [");
    push_bytes(&mut s, img, site as usize, 4);
    s.push_str("]");
    verdict(lever, what, there, s)
}

/// Checks the AKE branch, which may be of either kind.
fn check_ake(lever: &'static str, img: &[u8], site: u32, stub: u32) -> (r: AuditCheck)
    requires
        raw::addressable(img@),
    ensures
        r@ == ake_check(lever@, img@, site, stub),
{
    let what: &'static str = "AKE detour branch";
    let len: usize = img.len();
    if len < 4 || site as usize > len - 4 {
        return verdict(lever, what, false, around("hook site ", site, " past end of image"));
    }
    let wide: bool = thumb::verify_branch(img, site as usize, BranchShape::BWide, stub);
    let call: bool = thumb::verify_branch(img, site as usize, BranchShape::Bl, stub);
    if !wide && !call {
        let d: String = between("site ", site, " holds no bl or b.w to stub ", stub, "");
        proof {
            reveal_strlit("");
            assert(""@ =~= Seq::<char>::empty());
            assert(d@ =~= "site "@ + addr(site) + " holds no bl or b.w to stub "@ + addr(stub));
        }
        return verdict(lever, what, false, d);
    }
    if !stub_present(img, stub) {
        return verdict(
            lever,
            what,
            false,
            around("branch present but stub at ", stub, " is blank (0xFF)"),
        );
    }
    if wide {
        verdict(lever, what, true, between("site ", site, " -> stub ", stub, " (b.w)"))
    } else {
        verdict(lever, what, true, between("site ", site, " -> stub ", stub, " (bl)"))
    }
}

/// Text and an address.
fn ending(before: &str, v: u32) -> (r: String)
    ensures
        r@ == before@ + addr(v),
{
    let mut s: String = String::new();
    s.push_str(before);
    push_addr(&mut s, v);
    assert(s@ =~= before@ + addr(v));
    s
}

fn set_thumb_bit(v: u32) -> (r: u32)
    ensures
        r == tagged(v),
{
    v / 2 * 2 + 1
}

/// Checks that the record points at the handler.
fn check_record(lever: &'static str, img: &[u8], record: u32, handler: u32) -> (r: AuditCheck)
    requires
        raw::addressable(img@),
    ensures
        r@ == record_check(lever@, img@, record, handler),
{
    let what: &'static str = "record repointed to injected handler";
    let len: usize = img.len();
    let want: u32 = set_thumb_bit(handler);
    if len < 8 || record as usize > len - 8 {
        return verdict(
            lever,
            what,
            false,
            between("record ", record, "+4 past end of image (want ", want, ")"),
        );
    }
    let found: u32 = thumb_asm::read_u32(img, record as usize + 4);
    let mut s: String = between("record ", record, "+4 -> ", found, " (want ");
    push_addr(&mut s, want);
    s.push_str(")");
    verdict(lever, what, found == want, s)
}

/// Whether the handler at `handler` holds `word`.
fn holds_in_handler(img: &[u8], handler: u32, word: u32) -> (r: bool)
    requires
        raw::addressable(img@),
    ensures
        r == handler_holds(img@, handler, word),
{
    let len: usize = img.len();
    if handler as usize >= len {
        assert forall|at: int| handler <= at implies !#[trigger] raw::occurs_at(
            img@,
            raw::le_bytes(word),
            at,
        ) by {}
        return false;
    }
    match thumb::find_word(img, word, handler as usize) {
        Some(at) => at + 4 <= handler as usize + HANDLER_SPAN,
        None => false,
    }
}

/// Adds the checks of an applied Identity lever.
fn audit_identity(checks: &mut Vec<AuditCheck>, img: &[u8], l: &LeverReport)
    requires
        raw::addressable(img@),
    ensures
        checks_view(final(checks)@) == checks_view(old(checks)@) + identity_checks(img@, l@),
{
    let name: &'static str = l.id.label();
    match (fact(l, "handler_va"), fact(l, "record_off")) {
        (Some(handler), Some(record)) => {
            checks.push(check_record(name, img, record, handler));
            let ok: bool = modify::is_freemkv_patched(img) && stub_present(img, handler);
            checks.push(
                verdict(
                    name,
                    "handler injected (RESP_MAGIC present)",
                    ok,
                    ending("handler_va ", handler),
                ),
            );
            match fact(l, "boot_function_entry") {
                Some(entry) => {
                    if entry != 0 {
                        let word: u32 = set_thumb_bit(entry);
                        let mut s: String = around("literal ", word, " in the handler at ");
                        push_addr(&mut s, handler);
                        let baked: bool = holds_in_handler(img, handler, word);
                        checks.push(
                            verdict(name, "Reboot boot-function-entry literal baked", baked, s),
                        );
                    }
                },
                None => {},
            }
        },
        _ => {
            checks.push(
                verdict(
                    name,
                    "handler facts present",
                    false,
                    "missing handler_va/record_off".to_owned(),
                ),
            );
        },
    }
    assert(checks_view(checks@) =~= checks_view(old(checks)@) + identity_checks(img@, l@));
}

/// Adds the check of a call that two facts place; answers whether both are there.
fn audit_call(
    checks: &mut Vec<AuditCheck>,
    img: &[u8],
    l: &LeverReport,
    what: &str,
    site_key: &str,
    delta: u32,
    stub_key: &str,
) -> (r: bool)
    requires
        raw::addressable(img@),
    ensures
        checks_view(final(checks)@) == checks_view(old(checks)@) + placed_call(
            img@,
            l@,
            what@,
            site_key@,
            delta,
            stub_key@,
        ),
        r == (placed_call(img@, l@, what@, site_key@, delta, stub_key@).len() > 0),
{
    reveal(placed_call);
    match (fact(l, site_key), fact(l, stub_key)) {
        (Some(site), Some(stub)) => {
            let at: u32 = if site > u32::MAX - delta {
                delta - (u32::MAX - site) - 1
            } else {
                site + delta
            };
            checks.push(check_bl(l.id.label(), what, img, at, stub));
            assert(checks_view(checks@) =~= checks_view(old(checks)@) + placed_call(
                img@,
                l@,
                what@,
                site_key@,
                delta,
                stub_key@,
            ));
            true
        },
        _ => {
            assert(checks_view(checks@) =~= checks_view(old(checks)@) + Seq::<Check>::empty());
            false
        },
    }
}

/// Adds the checks of the detours that a Raw-read lever has to have; answers whether
/// there is any.
fn audit_core(checks: &mut Vec<AuditCheck>, img: &[u8], l: &LeverReport) -> (r: bool)
    requires
        raw::addressable(img@),
    ensures
        checks_view(final(checks)@) == checks_view(old(checks)@) + core_checks(img@, l@),
        r == (core_checks(img@, l@).len() > 0),
{
    reveal(core_checks);
    let ghost start = checks_view(checks@);
    let ake: bool = match (fact(l, "ake_site"), fact(l, "ake_stub_va")) {
        (Some(site), Some(stub)) => {
            checks.push(check_ake(l.id.label(), img, site, stub));
            true
        },
        _ => false,
    };
    assert(checks_view(checks@) =~= start + ake_checks(img@, l@));
    let gate: bool = audit_call(
        checks,
        img,
        l,
        "Gate-A detour bl",
        "gatea_gate",
        0,
        "gatea_stub_va",
    );
    let deny: bool = audit_call(
        checks,
        img,
        l,
        "deny-reset detour bl",
        "deny_site",
        0,
        "deny_stub_va",
    );
    assert(checks_view(checks@) =~= start + core_checks(img@, l@));
    ake || gate || deny
}

/// Adds the checks of the detours that a Raw-read lever may have.
fn audit_media(checks: &mut Vec<AuditCheck>, img: &[u8], l: &LeverReport)
    requires
        raw::addressable(img@),
    ensures
        checks_view(final(checks)@) == checks_view(old(checks)@) + media_checks(img@, l@),
{
    reveal(media_checks);
    audit_call(checks, img, l, "UHD detour bl", "uhd_site", 0, "uhd_stub_va");
    audit_call(checks, img, l, "HRL-skip detour bl", "hrl_site", 0, "hrl_stub_va");
    audit_call(checks, img, l, "HRL-skip detour bl", "hrl_site2", 0, "hrl_stub_va");
    audit_call(checks, img, l, "HRL-skip detour bl", "hrl_site3", 0, "hrl_stub_va");
    audit_call(checks, img, l, "BD-refuse detour bl", "bd_site", 0, "bd_stub_va");
    audit_call(
        checks,
        img,
        l,
        "auth-cell widen detour bl",
        "auth_cell_site",
        0,
        "auth_cell_stub_va",
    );
    assert(checks_view(checks@) =~= checks_view(old(checks)@) + media_checks(img@, l@));
}

/// Whether two images have the same deny block.
fn is_same_block(a: &[u8], b: &[u8], at: u32) -> (r: bool)
    ensures
        r == same_block(a@, b@, at),
{
    let start: usize = at as usize;
    if a.len() < DENY_SPAN || b.len() < DENY_SPAN || start > a.len() - DENY_SPAN || start > b.len()
        - DENY_SPAN {
        return false;
    }
    let end: usize = start + DENY_SPAN;
    let mut i: usize = start;
    while i < end
        invariant
            at == start,
            start <= i <= end,
            end == start + DENY_SPAN,
            end <= a@.len(),
            end <= b@.len(),
            forall|j: int| start <= j < i ==> #[trigger] a@[j] == b@[j],
        decreases end - i,
    {
        if a[i] != b[i] {
            assert(a@[i as int] != b@[i as int]);
            return false;
        }
        i += 1;
    }
    true
}

/// Adds the checks of the deny block and the scratch buffer, where they are known.
fn audit_rest(checks: &mut Vec<AuditCheck>, original: &[u8], img: &[u8], l: &LeverReport)
    ensures
        checks_view(final(checks)@) == checks_view(old(checks)@) + deny_checks(
            original@,
            img@,
            l@,
        ) + scratch_checks(l@),
{
    reveal(deny_checks);
    reveal(scratch_checks);
    let ghost start = checks_view(checks@);
    match fact(l, "deny") {
        Some(at) => {
            checks.push(
                verdict(
                    l.id.label(),
                    "deny block byte-identical to OEM",
                    is_same_block(original, img, at),
                    ending("deny ", at),
                ),
            );
        },
        None => {},
    }
    assert(checks_view(checks@) =~= start + deny_checks(original@, img@, l@));
    let ghost mid = checks_view(checks@);
    match fact(l, "scratch") {
        Some(v) => {
            if v != 0 {
                checks.push(
                    verdict(
                        l.id.label(),
                        "scratch buffer in runtime RAM window",
                        vid::RUNTIME_LO <= v && v < vid::RUNTIME_HI,
                        ending("scratch ", v),
                    ),
                );
            }
        },
        None => {},
    }
    assert(checks_view(checks@) =~= mid + scratch_checks(l@));
}

/// Adds the checks of an applied Raw-read lever.
fn audit_rawread(checks: &mut Vec<AuditCheck>, original: &[u8], img: &[u8], l: &LeverReport)
    requires
        raw::addressable(img@),
    ensures
        checks_view(final(checks)@) == checks_view(old(checks)@) + rawread_checks(
            original@,
            img@,
            l@,
        ),
{
    let founded: bool = audit_core(checks, img, l);
    audit_media(checks, img, l);
    audit_rest(checks, original, img, l);
    let ghost mid = checks_view(checks@);
    if !founded {
        let complaint: AuditCheck = verdict(
            l.id.label(),
            "detour facts present",
            false,
            "missing AKE/Gate-A/deny detour facts".to_owned(),
        );
        assert(complaint@ == unfounded(l@));
        checks.push(complaint);
        assert(checks_view(checks@) =~= mid + seq![unfounded(l@)]);
    } else {
        assert(checks_view(checks@) =~= mid + Seq::<Check>::empty());
    }
    assert(checks_view(checks@) =~= checks_view(old(checks)@) + rawread_checks(
        original@,
        img@,
        l@,
    ));
}

/// Adds the check of an applied downgrade-enable lever.
fn audit_de(checks: &mut Vec<AuditCheck>, img: &[u8], l: &LeverReport)
    ensures
        checks_view(final(checks)@) == checks_view(old(checks)@) + de_checks(img@, l@),
{
    match fact(l, "de_off") {
        Some(at) => {
            let found: u8 = if (at as usize) < img.len() {
                img[at as usize]
            } else {
                0
            };
            let mut s: String = String::new();
            push_addr(&mut s, at);
            s.push_str(" = 0x");
            text::push_hex(&mut s, found as u32, 2);
            s.push_str(" (want 0xDE)");
            assert(s@ =~= addr(at) + " = 0x"@ + text::hex(found as nat, 2) + " (want 0xDE)"@);
            checks.push(verdict(l.id.label(), "DE byte set", found == create::DE_BYTE, s));
        },
        None => {},
    }
    assert(checks_view(checks@) =~= checks_view(old(checks)@) + de_checks(img@, l@));
}

/// Adds the checks of one lever.
fn audit_lever(checks: &mut Vec<AuditCheck>, original: &[u8], img: &[u8], l: &LeverReport)
    requires
        raw::addressable(img@),
    ensures
        checks_view(final(checks)@) == checks_view(old(checks)@) + lever_checks(
            original@,
            img@,
            l@,
        ),
{
    reveal(lever_checks);
    match l.outcome {
        LeverOutcome::Applied => {},
        _ => {
            assert(checks_view(checks@) =~= checks_view(old(checks)@) + Seq::<Check>::empty());
            return ;
        },
    }
    match l.id {
        LeverId::Identity => {
            audit_identity(checks, img, l);
        },
        LeverId::Speed => {
            audit_call(checks, img, l, "speed detour bl", "speed_gate", 4, "speed_stub_va");
        },
        LeverId::RegionFree => {
            audit_call(checks, img, l, "region detour bl", "region_emitter", 6, "region_stub_va");
        },
        LeverId::RawRead => {
            audit_rawread(checks, original, img, l);
        },
        LeverId::DowngradeEnable => {
            audit_de(checks, img, l);
        },
    }
}

/// Audits a report: whether what it says was applied is in its image. `original` is
/// the image before, and `integrity` whether the image's integrity table verifies.
pub fn audit_image(original: &[u8], report: &ModifyReport, integrity: bool) -> (r: AuditResult)
    requires
        raw::addressable(report.image@),
    ensures
        checks_view(r.checks@) == audit(original@, report@, integrity),
{
    let mut checks: Vec<AuditCheck> = Vec::new();
    assert(checks_view(checks@) =~= Seq::<Check>::empty());
    let mut n: usize = 0;
    while n < report.levers.len()
        invariant
            raw::addressable(report.image@),
            n <= report.levers@.len(),
            checks_view(checks@) == levers_checks(
                original@,
                report@.image,
                report@.levers,
                n as nat,
            ),
        decreases report.levers@.len() - n,
    {
        assert(report@.levers[n as int] == report.levers@[n as int]@);
        audit_lever(&mut checks, original, report.image.as_slice(), &report.levers[n]);
        n += 1;
    }
    let ghost before = checks_view(checks@);
    checks.push(
        verdict(
            "integrity",
            "CMAC tables verify",
            integrity,
            "AES-CMAC over active regions".to_owned(),
        ),
    );
    assert(checks_view(checks@) =~= audit(original@, report@, integrity));
    AuditResult { checks }
}

} // verus!
