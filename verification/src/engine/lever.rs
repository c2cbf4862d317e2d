//! Levers: the independent units of modification, and the report on each.
use crate::text;
use vstd::prelude::*;

verus! {

/// Which lever.
#[derive(Debug, Clone, Copy, PartialEq, Eq, Structural)]
pub enum LeverId {
    /// The vendor-command handler, the base that makes toggles addressable.
    Identity,
    /// Region-free.
    RegionFree,
    /// Raw read and clear Volume ID.
    RawRead,
    /// Read-ramp ceiling unlock.
    Speed,
    /// Downgrade-enable byte.
    DowngradeEnable,
}

impl LeverId {
    /// The label that people read.
    pub open spec fn label_text(self) -> Seq<char> {
        match self {
            LeverId::Identity => "Identity"@,
            LeverId::RegionFree => "Region Free"@,
            LeverId::RawRead => "Raw read"@,
            LeverId::Speed => "Speed"@,
            LeverId::DowngradeEnable => "Downgrade (DE)"@,
        }
    }

    /// The key that programs read.
    pub open spec fn key_text(self) -> Seq<char> {
        match self {
            LeverId::Identity => "Identity"@,
            LeverId::RegionFree => "RegionFree"@,
            LeverId::RawRead => "RawRead"@,
            LeverId::Speed => "Speed"@,
            LeverId::DowngradeEnable => "DowngradeEnable"@,
        }
    }

    /// The label that people read.
    pub fn label(self) -> (r: &'static str)
        ensures
            r@ == self.label_text(),
    {
        match self {
            LeverId::Identity => "Identity",
            LeverId::RegionFree => "Region Free",
            LeverId::RawRead => "Raw read",
            LeverId::Speed => "Speed",
            LeverId::DowngradeEnable => "Downgrade (DE)",
        }
    }

    /// The key that programs read.
    pub fn key(self) -> (r: &'static str)
        ensures
            r@ == self.key_text(),
    {
        match self {
            LeverId::Identity => "Identity",
            LeverId::RegionFree => "RegionFree",
            LeverId::RawRead => "RawRead",
            LeverId::Speed => "Speed",
            LeverId::DowngradeEnable => "DowngradeEnable",
        }
    }
}

/// How an attempt at a lever ended.
#[derive(Debug, Clone, PartialEq, Eq)]
pub enum LeverOutcome {
    /// Patched on this run.
    Applied,
    /// Already in the image; nothing to do.
    AlreadyPresent,
    /// Out of scope for this drive.
    NotApplicable {
        /// Why it is.
        reason: String,
    },
    /// In scope, but not found in this image.
    SignatureNotFound {
        /// What was missing.
        detail: String,
    },
}

/// An outcome with its text as characters.
pub enum Outcome {
    /// Patched on this run.
    Applied,
    /// Already in the image.
    AlreadyPresent,
    /// Out of scope, and why.
    NotApplicable(Seq<char>),
    /// Not found, and what was missing.
    SignatureNotFound(Seq<char>),
}

impl View for LeverOutcome {
    type V = Outcome;

    open spec fn view(&self) -> Outcome {
        match *self {
            LeverOutcome::Applied => Outcome::Applied,
            LeverOutcome::AlreadyPresent => Outcome::AlreadyPresent,
            LeverOutcome::NotApplicable { reason } => Outcome::NotApplicable(reason@),
            LeverOutcome::SignatureNotFound { detail } => Outcome::SignatureNotFound(detail@),
        }
    }
}

impl Outcome {
    /// The status word.
    pub open spec fn word_text(self) -> Seq<char> {
        match self {
            Outcome::Applied => "applied"@,
            Outcome::AlreadyPresent => "already set"@,
            Outcome::NotApplicable(_) => "n/a"@,
            Outcome::SignatureNotFound(_) => "skipped"@,
        }
    }

    /// The lever has its effect in the image.
    pub open spec fn effective(self) -> bool {
        self is Applied || self is AlreadyPresent
    }

    /// The outcome as a JSON value.
    pub open spec fn json(self) -> Seq<char> {
        match self {
            Outcome::Applied => "\"Applied\""@,
            Outcome::AlreadyPresent => "\"AlreadyPresent\""@,
            Outcome::NotApplicable(t) => "{\"NotApplicable\":{\"reason\":"@ + text::json_string(t)
                + "}}"@,
            Outcome::SignatureNotFound(t) => "{\"SignatureNotFound\":{\"detail\":"@
                + text::json_string(t) + "}}"@,
        }
    }
}

impl LeverOutcome {
    /// The status word.
    pub fn word(&self) -> (r: &'static str)
        ensures
            r@ == self@.word_text(),
    {
        match self {
            LeverOutcome::Applied => "applied",
            LeverOutcome::AlreadyPresent => "already set",
            LeverOutcome::NotApplicable { .. } => "n/a",
            LeverOutcome::SignatureNotFound { .. } => "skipped",
        }
    }

    /// Whether the lever has its effect in the image.
    pub fn is_effective(&self) -> (r: bool)
        ensures
            r == self@.effective(),
    {
        match self {
            LeverOutcome::Applied => true,
            LeverOutcome::AlreadyPresent => true,
            LeverOutcome::NotApplicable { .. } => false,
            LeverOutcome::SignatureNotFound { .. } => false,
        }
    }

    /// Appends the outcome as a JSON value.
    fn push_outcome(&self, s: &mut String)
        ensures
            final(s)@ == old(s)@ + self@.json(),
    {
        match self {
            LeverOutcome::Applied => {
                s.push_str("\"Applied\"");
            },
            LeverOutcome::AlreadyPresent => {
                s.push_str("\"AlreadyPresent\"");
            },
            LeverOutcome::NotApplicable { reason } => {
                s.push_str("{\"NotApplicable\":{\"reason\":");
                text::push_json(s, reason.as_str());
                s.push_str("}}");
            },
            LeverOutcome::SignatureNotFound { detail } => {
                s.push_str("{\"SignatureNotFound\":{\"detail\":");
                text::push_json(s, detail.as_str());
                s.push_str("}}");
            },
        }
        proof {
            assert(s@ =~= old(s)@ + self@.json());
        }
    }
}

/// One edit of a halfword.
#[derive(Debug, Clone, PartialEq, Eq)]
pub struct PatchSite {
    /// File offset written.
    pub off: u32,
    /// The halfword before the edit.
    pub before: u16,
    /// The halfword after the edit.
    pub after: u16,
    /// What the edit is.
    pub what: &'static str,
}

/// A grounded fact: its name and its value.
pub type Fact = (Seq<char>, u32);

/// The names and values of `facts`.
pub open spec fn facts_view(facts: Seq<(&'static str, u32)>) -> Seq<Fact> {
    Seq::new(facts.len(), |i: int| (facts[i].0@, facts[i].1))
}

/// The outcome of one lever with its facts.
#[derive(Debug, Clone)]
pub struct LeverReport {
    /// Which lever.
    pub id: LeverId,
    /// How it ended.
    pub outcome: LeverOutcome,
    /// The addresses that it rests on.
    pub facts: Vec<(&'static str, u32)>,
}

/// A lever's report with its text as characters.
pub struct Lever {
    /// Which lever.
    pub id: LeverId,
    /// How it ended.
    pub outcome: Outcome,
    /// The addresses that it rests on.
    pub facts: Seq<Fact>,
}

impl View for LeverReport {
    type V = Lever;

    open spec fn view(&self) -> Lever {
        Lever { id: self.id, outcome: self.outcome@, facts: facts_view(self.facts@) }
    }
}

/// Applied, with its facts.
pub open spec fn applied(id: LeverId, facts: Seq<Fact>) -> Lever {
    Lever { id, outcome: Outcome::Applied, facts }
}

/// Already in the image, with its facts.
pub open spec fn already(id: LeverId, facts: Seq<Fact>) -> Lever {
    Lever { id, outcome: Outcome::AlreadyPresent, facts }
}

/// Out of scope.
pub open spec fn not_applicable(id: LeverId, reason: Seq<char>) -> Lever {
    Lever { id, outcome: Outcome::NotApplicable(reason), facts: Seq::empty() }
}

/// Not found.
pub open spec fn missed(id: LeverId, detail: Seq<char>) -> Lever {
    Lever { id, outcome: Outcome::SignatureNotFound(detail), facts: Seq::empty() }
}

impl LeverReport {
    /// Applied, with its facts.
    pub fn applied(id: LeverId, facts: Vec<(&'static str, u32)>) -> (r: Self)
        ensures
            r@ == applied(id, facts_view(facts@)),
            r.facts == facts,
    {
        LeverReport { id, outcome: LeverOutcome::Applied, facts }
    }

    /// Already in the image, with its facts.
    pub fn already(id: LeverId, facts: Vec<(&'static str, u32)>) -> (r: Self)
        ensures
            r@ == already(id, facts_view(facts@)),
            r.facts == facts,
    {
        LeverReport { id, outcome: LeverOutcome::AlreadyPresent, facts }
    }

    /// Out of scope for this drive.
    pub fn not_applicable(id: LeverId, reason: &str) -> (r: Self)
        ensures
            r@ == not_applicable(id, reason@),
    {
        let r: LeverReport = LeverReport {
            id,
            outcome: LeverOutcome::NotApplicable { reason: reason.to_owned() },
            facts: Vec::new(),
        };
        assert(r@.facts =~= Seq::<Fact>::empty());
        r
    }

    /// In scope, but not found in this image.
    pub fn missed(id: LeverId, detail: &str) -> (r: Self)
        ensures
            r@ == missed(id, detail@),
    {
        let r: LeverReport = LeverReport {
            id,
            outcome: LeverOutcome::SignatureNotFound { detail: detail.to_owned() },
            facts: Vec::new(),
        };
        assert(r@.facts =~= Seq::<Fact>::empty());
        r
    }
}

/// How far a modification has been confirmed.
#[derive(Debug, Clone, Copy, PartialEq, Eq, Structural)]
pub enum Validation {
    /// Confirmed on a drive.
    HardwareConfirmed,
    /// Structurally valid, not yet confirmed on a drive.
    StaticOnly,
}

impl Validation {
    /// The key that programs read.
    pub open spec fn key_text(self) -> Seq<char> {
        match self {
            Validation::HardwareConfirmed => "hardware-confirmed"@,
            Validation::StaticOnly => "static-only"@,
        }
    }

    /// The note that people read.
    pub open spec fn note_text(self) -> Seq<char> {
        match self {
            Validation::HardwareConfirmed => "hardware-confirmed"@,
            Validation::StaticOnly => {
                "static-only (structurally valid + self-verifying; pending hardware validation)"@
            },
        }
    }

    /// The key that programs read.
    pub fn key(self) -> (r: &'static str)
        ensures
            r@ == self.key_text(),
    {
        match self {
            Validation::HardwareConfirmed => "hardware-confirmed",
            Validation::StaticOnly => "static-only",
        }
    }

    /// The note that people read.
    pub fn note(self) -> (r: &'static str)
        ensures
            r@ == self.note_text(),
    {
        match self {
            Validation::HardwareConfirmed => "hardware-confirmed",
            Validation::StaticOnly => {
                "static-only (structurally valid + self-verifying; pending hardware validation)"
            },
        }
    }
}

/// What a modification did: the patched image and how each lever ended.
#[derive(Debug, Clone)]
pub struct ModifyReport {
    /// Engine label.
    pub engine: &'static str,
    /// Chip family label.
    pub family: String,
    /// Drive vendor.
    pub vendor: String,
    /// Drive model.
    pub model: String,
    /// Drive revision.
    pub rev: String,
    /// Vendor-specific text of the drive.
    pub vendor_specific: String,
    /// Media class label.
    pub media: String,
    /// How each lever ended, in a fixed order.
    pub levers: Vec<LeverReport>,
    /// The patched image.
    pub image: Vec<u8>,
    /// How far the modification has been confirmed.
    pub validation: Validation,
}

/// A modification's report with its text as characters.
pub struct Modified {
    /// Engine label.
    pub engine: Seq<char>,
    /// Chip family label.
    pub family: Seq<char>,
    /// Drive vendor.
    pub vendor: Seq<char>,
    /// Drive model.
    pub model: Seq<char>,
    /// Drive revision.
    pub rev: Seq<char>,
    /// Vendor-specific text of the drive.
    pub vendor_specific: Seq<char>,
    /// Media class label.
    pub media: Seq<char>,
    /// How each lever ended.
    pub levers: Seq<Lever>,
    /// The patched image.
    pub image: Seq<u8>,
    /// How far the modification has been confirmed.
    pub validation: Validation,
}

/// The reports' views.
pub open spec fn levers_view(levers: Seq<LeverReport>) -> Seq<Lever> {
    Seq::new(levers.len(), |i: int| levers[i]@)
}

impl View for ModifyReport {
    type V = Modified;

    open spec fn view(&self) -> Modified {
        Modified {
            engine: self.engine@,
            family: self.family@,
            vendor: self.vendor@,
            model: self.model@,
            rev: self.rev@,
            vendor_specific: self.vendor_specific@,
            media: self.media@,
            levers: levers_view(self.levers@),
            image: self.image@,
            validation: self.validation,
        }
    }
}

/// The labels of the first `n` levers that are applied, joined with ` + `.
pub open spec fn applied_labels(levers: Seq<Lever>, n: nat) -> Seq<char>
    decreases n,
{
    if n == 0 {
        Seq::empty()
    } else {
        let l = levers[n - 1];
        let before = applied_labels(levers, (n - 1) as nat);
        if l.outcome is Applied {
            joined(before, " + "@, l.id.label_text())
        } else {
            before
        }
    }
}

/// The labels of the first `n` levers that are already present, joined with ` + `.
pub open spec fn already_labels(levers: Seq<Lever>, n: nat) -> Seq<char>
    decreases n,
{
    if n == 0 {
        Seq::empty()
    } else {
        let l = levers[n - 1];
        let before = already_labels(levers, (n - 1) as nat);
        if l.outcome is AlreadyPresent {
            joined(before, " + "@, l.id.label_text())
        } else {
            before
        }
    }
}

/// The labels of the first `n` levers that were not found, joined with ` + `.
pub open spec fn skipped_labels(levers: Seq<Lever>, n: nat) -> Seq<char>
    decreases n,
{
    if n == 0 {
        Seq::empty()
    } else {
        let l = levers[n - 1];
        let before = skipped_labels(levers, (n - 1) as nat);
        if l.outcome is SignatureNotFound {
            joined(before, " + "@, l.id.label_text())
        } else {
            before
        }
    }
}

/// `list` with one more `item`; `sep` goes between two.
pub open spec fn joined(list: Seq<char>, sep: Seq<char>, item: Seq<char>) -> Seq<char> {
    if list.len() == 0 {
        item
    } else {
        list + sep + item
    }
}

/// `list` with `labels` and what became of them, when there are any.
pub open spec fn with_part(list: Seq<char>, labels: Seq<char>, what: Seq<char>) -> Seq<char> {
    if labels.len() == 0 {
        list
    } else {
        joined(list, " · "@, labels + what)
    }
}

/// One fact as a JSON member.
pub open spec fn fact_json(f: Fact) -> Seq<char> {
    text::json_string(f.0) + seq![':'] + text::decimal(f.1 as nat)
}

/// The first `n` facts as JSON members.
pub open spec fn facts_json(facts: Seq<Fact>, n: nat) -> Seq<char>
    decreases n,
{
    if n == 0 {
        Seq::empty()
    } else {
        facts_json(facts, (n - 1) as nat) + (if n > 1 {
            seq![',']
        } else {
            Seq::empty()
        }) + fact_json(facts[n - 1])
    }
}

/// One lever as a JSON object.
pub open spec fn lever_json(l: Lever) -> Seq<char> {
    "{\"id\":"@ + text::json_string(l.id.key_text()) + ",\"label\":"@ + text::json_string(
        l.id.label_text(),
    ) + ",\"outcome\":"@ + l.outcome.json() + ",\"facts\":{"@ + facts_json(l.facts, l.facts.len())
        + "}}"@
}

/// The first `n` levers as JSON objects.
pub open spec fn levers_json(levers: Seq<Lever>, n: nat) -> Seq<char>
    decreases n,
{
    if n == 0 {
        Seq::empty()
    } else {
        levers_json(levers, (n - 1) as nat) + (if n > 1 {
            seq![',']
        } else {
            Seq::empty()
        }) + lever_json(levers[n - 1])
    }
}

impl Modified {
    /// The groups of levers and what became of them.
    pub open spec fn groups(self) -> Seq<char> {
        let n = self.levers.len();
        let a = with_part(Seq::empty(), applied_labels(self.levers, n), " applied"@);
        let b = with_part(a, already_labels(self.levers, n), " already set"@);
        let c = with_part(b, skipped_labels(self.levers, n), " skipped"@);
        if c.len() == 0 {
            "nothing applied"@
        } else {
            c
        }
    }

    /// The one-line summary: family, media, and what became of the levers.
    pub open spec fn summary_text(self) -> Seq<char> {
        self.family + " "@ + self.media + " — "@ + self.groups()
    }

    /// Some lever has its effect in the image.
    pub open spec fn effective(self) -> bool {
        exists|i: int| 0 <= i < self.levers.len() && (#[trigger] self.levers[i]).outcome.effective()
    }

    /// The report as a JSON object.
    pub open spec fn json(self) -> Seq<char> {
        "{\"engine\":"@ + text::json_string(self.engine) + ",\"family\":"@ + text::json_string(
            self.family,
        ) + ",\"vendor\":"@ + text::json_string(self.vendor) + ",\"model\":"@ + text::json_string(
            self.model,
        ) + ",\"rev\":"@ + text::json_string(self.rev) + ",\"media\":"@ + text::json_string(
            self.media,
        ) + ",\"validation\":"@ + text::json_string(self.validation.key_text()) + ",\"summary\":"@
            + text::json_string(self.summary_text()) + ",\"levers\":["@ + levers_json(
            self.levers,
            self.levers.len(),
        ) + "]}"@
    }
}

/// Appends `item` to a list, with `sep` before it unless it is the first.
fn push_joined(list: &mut String, sep: &str, item: &str)
    ensures
        final(list)@ == joined(old(list)@, sep@, item@),
{
    if list.as_str().unicode_len() > 0 {
        list.push_str(sep);
    } else {
        assert(list@ + item@ =~= item@);
    }
    list.push_str(item);
}

/// Appends `labels` and what became of them, when there are any.
fn push_part(list: &mut String, labels: &str, what: &str)
    ensures
        final(list)@ == with_part(old(list)@, labels@, what@),
{
    if labels.unicode_len() > 0 {
        let mut part: String = String::new();
        part.push_str(labels);
        part.push_str(what);
        assert(part@ =~= labels@ + what@);
        push_joined(list, " · ", part.as_str());
    }
}

/// Appends `key` and the JSON string for `value`.
fn push_member(s: &mut String, key: &str, value: &str)
    ensures
        final(s)@ == old(s)@ + key@ + text::json_string(value@),
{
    s.push_str(key);
    text::push_json(s, value);
}

impl LeverReport {
    /// Appends the report as a JSON object.
    fn push_report(&self, s: &mut String)
        ensures
            final(s)@ == old(s)@ + lever_json(self@),
    {
        push_member(s, "{\"id\":", self.id.key());
        push_member(s, ",\"label\":", self.id.label());
        s.push_str(",\"outcome\":");
        self.outcome.push_outcome(s);
        s.push_str(",\"facts\":{");
        let ghost start = s@;
        let mut n: usize = 0;
        assert(start + facts_json(self@.facts, 0) =~= start);
        while n < self.facts.len()
            invariant
                n <= self.facts@.len(),
                s@ == start + facts_json(self@.facts, n as nat),
            decreases self.facts@.len() - n,
        {
            let ghost before = s@;
            if n > 0 {
                s.push(',');
            }
            let (k, v): (&'static str, u32) = self.facts[n];
            text::push_json(s, k);
            s.push(':');
            text::push_decimal(s, v as u64);
            n += 1;
            proof {
                assert(self@.facts[n - 1] == (k@, v));
                assert(s@ =~= start + facts_json(self@.facts, n as nat));
            }
        }
        s.push_str("}}");
        proof {
            assert(s@ =~= old(s)@ + lever_json(self@));
        }
    }
}

impl ModifyReport {
    /// The one-line summary: family, media, and what became of the levers.
    pub fn summary(&self) -> (r: String)
        ensures
            r@ == self@.summary_text(),
    {
        let mut applied: String = String::new();
        let mut already: String = String::new();
        let mut skipped: String = String::new();
        let mut n: usize = 0;
        while n < self.levers.len()
            invariant
                n <= self.levers@.len(),
                applied@ == applied_labels(self@.levers, n as nat),
                already@ == already_labels(self@.levers, n as nat),
                skipped@ == skipped_labels(self@.levers, n as nat),
            decreases self.levers@.len() - n,
        {
            assert(self@.levers[n as int] == self.levers@[n as int]@);
            let label: &'static str = self.levers[n].id.label();
            match &self.levers[n].outcome {
                LeverOutcome::Applied => {
                    push_joined(&mut applied, " + ", label);
                },
                LeverOutcome::AlreadyPresent => {
                    push_joined(&mut already, " + ", label);
                },
                LeverOutcome::NotApplicable { .. } => {},
                LeverOutcome::SignatureNotFound { .. } => {
                    push_joined(&mut skipped, " + ", label);
                },
            }
            n += 1;
        }
        let mut parts: String = String::new();
        push_part(&mut parts, applied.as_str(), " applied");
        push_part(&mut parts, already.as_str(), " already set");
        push_part(&mut parts, skipped.as_str(), " skipped");
        if parts.as_str().unicode_len() == 0 {
            parts.push_str("nothing applied");
            assert(parts@ =~= "nothing applied"@);
        }
        let mut s: String = String::new();
        s.push_str(self.family.as_str());
        s.push_str(" ");
        s.push_str(self.media.as_str());
        s.push_str(" — ");
        s.push_str(parts.as_str());
        assert(s@ =~= self@.summary_text());
        s
    }

    /// Whether some lever has its effect in the image.
    pub fn any_effective(&self) -> (r: bool)
        ensures
            r == self@.effective(),
    {
        let mut n: usize = 0;
        while n < self.levers.len()
            invariant
                n <= self.levers@.len(),
                forall|i: int|
                    0 <= i < n ==> !(#[trigger] self@.levers[i]).outcome.effective(),
            decreases self.levers@.len() - n,
        {
            assert(self@.levers[n as int] == self.levers@[n as int]@);
            if self.levers[n].outcome.is_effective() {
                return true;
            }
            n += 1;
        }
        false
    }

    /// The report as a JSON object.
    pub fn to_json(&self) -> (r: String)
        ensures
            r@ == self@.json(),
    {
        let mut s: String = String::new();
        push_member(&mut s, "{\"engine\":", self.engine);
        push_member(&mut s, ",\"family\":", self.family.as_str());
        push_member(&mut s, ",\"vendor\":", self.vendor.as_str());
        push_member(&mut s, ",\"model\":", self.model.as_str());
        push_member(&mut s, ",\"rev\":", self.rev.as_str());
        push_member(&mut s, ",\"media\":", self.media.as_str());
        push_member(&mut s, ",\"validation\":", self.validation.key());
        let summary: String = self.summary();
        push_member(&mut s, ",\"summary\":", summary.as_str());
        s.push_str(",\"levers\":[");
        let ghost start = s@;
        let mut n: usize = 0;
        assert(start + levers_json(self@.levers, 0) =~= start);
        while n < self.levers.len()
            invariant
                n <= self.levers@.len(),
                s@ == start + levers_json(self@.levers, n as nat),
            decreases self.levers@.len() - n,
        {
            if n > 0 {
                s.push(',');
            }
            self.levers[n].push_report(&mut s);
            n += 1;
            proof {
                assert(self@.levers[n - 1] == self.levers@[n - 1]@);
                assert(s@ =~= start + levers_json(self@.levers, n as nat));
            }
        }
        s.push_str("]}");
        proof {
            assert(s@ =~= self@.json());
        }
        s
    }
}

} // verus!
