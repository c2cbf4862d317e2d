//! Which facts the report of a Raw-read lever names.
use crate::engine::audit;
use crate::engine::classic_modify;
use crate::engine::landing;
use crate::engine::lever::Fact;
use crate::engine::modify;
use crate::engine::mt1939_classic::ClassicRawRead;
use crate::engine::rawread::RawRead;
use vstd::prelude::*;

verus! {

/// No name in `facts` starts as `key` does.
spec fn foreign(facts: Seq<Fact>, key: Seq<char>) -> bool {
    forall|i: int|
        0 <= i < facts.len() ==> (#[trigger] facts[i]).0.len() > 0 && facts[i].0[0] != key[0]
}

/// A name that starts otherwise than all the others is not among them.
proof fn lemma_foreign(facts: Seq<Fact>, key: Seq<char>, n: nat)
    requires
        n <= facts.len(),
        foreign(facts, key),
    ensures
        audit::fact_among(facts, key, n) is None,
    decreases n,
{
    if n > 0 {
        lemma_foreign(facts, key, (n - 1) as nat);
        assert(facts[n - 1].0 != key);
    }
}

/// The first facts of a longer list.
proof fn lemma_prefix(a: Seq<Fact>, b: Seq<Fact>, key: Seq<char>, n: nat)
    requires
        n <= a.len(),
    ensures
        audit::fact_among(a + b, key, n) == audit::fact_among(a, key, n),
    decreases n,
{
    if n > 0 {
        lemma_prefix(a, b, key, (n - 1) as nat);
        assert((a + b)[n - 1] == a[n - 1]);
    }
}

/// A fact of two lists is that of the first, or else that of the second.
proof fn lemma_concat(a: Seq<Fact>, b: Seq<Fact>, key: Seq<char>, n: nat)
    requires
        n <= b.len(),
    ensures
        audit::fact_among(a + b, key, a.len() + n) == match audit::fact_of(a, key) {
            Some(v) => Some(v),
            None => audit::fact_among(b, key, n),
        },
    decreases n,
{
    if n == 0 {
        lemma_prefix(a, b, key, a.len());
    } else {
        lemma_concat(a, b, key, (n - 1) as nat);
        assert((a + b)[a.len() + n - 1] == b[n - 1]);
    }
}

/// A fact of two lists.
proof fn lemma_either(a: Seq<Fact>, b: Seq<Fact>, key: Seq<char>)
    ensures
        audit::fact_of(a + b, key) == match audit::fact_of(a, key) {
            Some(v) => Some(v),
            None => audit::fact_of(b, key),
        },
{
    lemma_concat(a, b, key, b.len());
}

/// The facts that every Raw-read lever has.
spec fn head(f: RawRead) -> Seq<Fact> {
    seq![
        ("ake_gate"@, f.ake_gate),
        ("ake_site"@, f.ake_site),
        ("ake_stub_va"@, f.ake_stub_va),
        ("gatea_gate"@, f.gatea_site),
        ("gatea_stub_va"@, f.gatea_stub_va),
        ("deny_site"@, f.deny_site),
        ("deny_stub_va"@, f.deny_stub_va),
        ("vid_producer"@, f.vid_producer),
    ]
}

/// A place and its stub, when there is one.
spec fn pair(site_name: Seq<char>, site: u32, stub_name: Seq<char>, va: u32) -> Seq<Fact> {
    if va == 0 {
        Seq::empty()
    } else {
        seq![(site_name, site), (stub_name, va)]
    }
}

/// The revocation stub and its first calls, when there is one.
pub open spec fn calls(sites: Seq<u32>, va: u32) -> Seq<Fact> {
    if va == 0 {
        Seq::empty()
    } else if sites.len() == 0 {
        seq![("hrl_stub_va"@, va)]
    } else if sites.len() == 1 {
        seq![("hrl_stub_va"@, va), ("hrl_site"@, sites[0])]
    } else if sites.len() == 2 {
        seq![("hrl_stub_va"@, va), ("hrl_site"@, sites[0]), ("hrl_site2"@, sites[1])]
    } else {
        seq![
            ("hrl_stub_va"@, va),
            ("hrl_site"@, sites[0]),
            ("hrl_site2"@, sites[1]),
            ("hrl_site3"@, sites[2]),
        ]
    }
}

/// The revocation facts are put behind the others.
pub proof fn lemma_calls(facts: Seq<Fact>, sites: Seq<u32>, va: u32)
    ensures
        modify::with_hrl(facts, sites, va) == facts + calls(sites, va),
{
    reveal_with_fuel(modify::with_hrl_sites, 4);
    assert(modify::with_hrl(facts, sites, va) =~= facts + calls(sites, va));
}

/// The facts of a Raw-read lever, group by group.
proof fn lemma_groups(f: RawRead)
    ensures
        modify::rawread_facts(f) == head(f) + pair(
            "uhd_site"@,
            f.uhd_site,
            "uhd_stub_va"@,
            f.uhd_stub_va,
        ) + calls(f.hrl_sites, f.hrl_stub_va) + pair(
            "bd_site"@,
            f.bd_site,
            "bd_stub_va"@,
            f.bd_stub_va,
        ),
{
    let u = pair("uhd_site"@, f.uhd_site, "uhd_stub_va"@, f.uhd_stub_va);
    let h = calls(f.hrl_sites, f.hrl_stub_va);
    let b = pair("bd_site"@, f.bd_site, "bd_stub_va"@, f.bd_stub_va);
    let s1 = modify::with_pair(head(f), "uhd_site"@, f.uhd_site, "uhd_stub_va"@, f.uhd_stub_va);
    assert(s1 =~= head(f) + u);
    lemma_calls(s1, f.hrl_sites, f.hrl_stub_va);
    let s2 = modify::with_hrl(s1, f.hrl_sites, f.hrl_stub_va);
    assert(modify::with_pair(s2, "bd_site"@, f.bd_site, "bd_stub_va"@, f.bd_stub_va) =~= s2 + b);
}

/// How the names start.
proof fn lemma_initials()
    ensures
        "ake_gate"@.len() > 0 && "ake_gate"@[0] == 'a',
        "ake_site"@.len() > 0 && "ake_site"@[0] == 'a',
        "ake_stub_va"@.len() > 0 && "ake_stub_va"@[0] == 'a',
        "gatea_gate"@.len() > 0 && "gatea_gate"@[0] == 'g',
        "gatea_stub_va"@.len() > 0 && "gatea_stub_va"@[0] == 'g',
        "gatea_authed"@.len() > 0 && "gatea_authed"@[0] == 'g',
        "deny_site"@.len() > 0 && "deny_site"@[0] == 'd',
        "deny_stub_va"@.len() > 0 && "deny_stub_va"@[0] == 'd',
        "deny"@.len() > 0 && "deny"@[0] == 'd',
        "scratch"@.len() > 0 && "scratch"@[0] == 's',
        "vid_producer"@.len() > 0 && "vid_producer"@[0] == 'v',
        "uhd_site"@.len() == 8 && "uhd_site"@[0] == 'u',
        "uhd_stub_va"@.len() == 11 && "uhd_stub_va"@[0] == 'u',
        "hrl_stub_va"@.len() == 11 && "hrl_stub_va"@[0] == 'h',
        "hrl_site"@.len() == 8 && "hrl_site"@[0] == 'h',
        "hrl_site2"@.len() == 9 && "hrl_site2"@[0] == 'h',
        "hrl_site3"@.len() == 9 && "hrl_site3"@[0] == 'h',
        "hrl_site2"@ != "hrl_site3"@,
        "bd_site"@.len() == 7 && "bd_site"@[0] == 'b',
        "bd_stub_va"@.len() == 10 && "bd_stub_va"@[0] == 'b',
{
    reveal_strlit("ake_gate");
    reveal_strlit("ake_site");
    reveal_strlit("ake_stub_va");
    reveal_strlit("gatea_gate");
    reveal_strlit("gatea_stub_va");
    reveal_strlit("gatea_authed");
    reveal_strlit("deny_site");
    reveal_strlit("deny_stub_va");
    reveal_strlit("deny");
    reveal_strlit("scratch");
    reveal_strlit("vid_producer");
    reveal_strlit("uhd_site");
    reveal_strlit("uhd_stub_va");
    reveal_strlit("hrl_stub_va");
    reveal_strlit("hrl_site");
    reveal_strlit("hrl_site2");
    reveal_strlit("hrl_site3");
    reveal_strlit("bd_site");
    reveal_strlit("bd_stub_va");
    assert("hrl_site2"@[8] != "hrl_site3"@[8]);
}

/// The facts of a pair.
proof fn lemma_pair(site_name: Seq<char>, site: u32, stub_name: Seq<char>, va: u32)
    requires
        site_name != stub_name,
    ensures
        audit::fact_of(pair(site_name, site, stub_name, va), site_name) == if va == 0 {
            None
        } else {
            Some(site)
        },
        audit::fact_of(pair(site_name, site, stub_name, va), stub_name) == if va == 0 {
            None
        } else {
            Some(va)
        },
{
    if va != 0 {
        let facts = pair(site_name, site, stub_name, va);
        landing::lemma_first_fact(facts, site_name, 0, 2);
        landing::lemma_first_fact(facts, stub_name, 1, 2);
    }
}

/// The named one of the first three revocation calls.
pub open spec fn nth(sites: Seq<u32>, va: u32, k: int) -> Option<u32> {
    if va != 0 && k < sites.len() {
        Some(sites[k])
    } else {
        None
    }
}

/// The facts of the revocation calls.
pub proof fn lemma_call_facts(sites: Seq<u32>, va: u32)
    ensures
        audit::fact_of(calls(sites, va), "hrl_stub_va"@) == if va == 0 {
            None
        } else {
            Some(va)
        },
        audit::fact_of(calls(sites, va), "hrl_site"@) == nth(sites, va, 0),
        audit::fact_of(calls(sites, va), "hrl_site2"@) == nth(sites, va, 1),
        audit::fact_of(calls(sites, va), "hrl_site3"@) == nth(sites, va, 2),
{
    lemma_initials();
    reveal_with_fuel(audit::fact_among, 5);
}

/// A name of one group is looked for in that group.
proof fn lemma_in_group(
    c: Seq<Fact>,
    u: Seq<Fact>,
    h: Seq<Fact>,
    b: Seq<Fact>,
    key: Seq<char>,
)
    ensures
        foreign(c, key) && foreign(h, key) && foreign(b, key) ==> audit::fact_of(
            c + u + h + b,
            key,
        ) == audit::fact_of(u, key),
        foreign(c, key) && foreign(u, key) && foreign(b, key) ==> audit::fact_of(
            c + u + h + b,
            key,
        ) == audit::fact_of(h, key),
        foreign(c, key) && foreign(u, key) && foreign(h, key) ==> audit::fact_of(
            c + u + h + b,
            key,
        ) == audit::fact_of(b, key),
{
    lemma_either(c + u + h, b, key);
    lemma_either(c + u, h, key);
    lemma_either(c, u, key);
    if foreign(c, key) {
        lemma_foreign(c, key, c.len());
    }
    if foreign(u, key) {
        lemma_foreign(u, key, u.len());
    }
    if foreign(h, key) {
        lemma_foreign(h, key, h.len());
    }
    if foreign(b, key) {
        lemma_foreign(b, key, b.len());
    }
}

/// The facts of a Raw-read lever name the media detours that were written.
pub proof fn lemma_media_facts(f: RawRead)
    ensures
        ({
            let facts = modify::rawread_facts(f);
            &&& audit::fact_of(facts, "uhd_site"@) == if f.uhd_stub_va == 0 {
                None
            } else {
                Some(f.uhd_site)
            }
            &&& audit::fact_of(facts, "uhd_stub_va"@) == if f.uhd_stub_va == 0 {
                None
            } else {
                Some(f.uhd_stub_va)
            }
            &&& audit::fact_of(facts, "bd_site"@) == if f.bd_stub_va == 0 {
                None
            } else {
                Some(f.bd_site)
            }
            &&& audit::fact_of(facts, "bd_stub_va"@) == if f.bd_stub_va == 0 {
                None
            } else {
                Some(f.bd_stub_va)
            }
            &&& audit::fact_of(facts, "hrl_stub_va"@) == if f.hrl_stub_va == 0 {
                None
            } else {
                Some(f.hrl_stub_va)
            }
            &&& audit::fact_of(facts, "hrl_site"@) == nth(f.hrl_sites, f.hrl_stub_va, 0)
            &&& audit::fact_of(facts, "hrl_site2"@) == nth(f.hrl_sites, f.hrl_stub_va, 1)
            &&& audit::fact_of(facts, "hrl_site3"@) == nth(f.hrl_sites, f.hrl_stub_va, 2)
        }),
{
    let c = head(f);
    let u = pair("uhd_site"@, f.uhd_site, "uhd_stub_va"@, f.uhd_stub_va);
    let h = calls(f.hrl_sites, f.hrl_stub_va);
    let b = pair("bd_site"@, f.bd_site, "bd_stub_va"@, f.bd_stub_va);
    lemma_groups(f);
    lemma_initials();
    lemma_pair("uhd_site"@, f.uhd_site, "uhd_stub_va"@, f.uhd_stub_va);
    lemma_pair("bd_site"@, f.bd_site, "bd_stub_va"@, f.bd_stub_va);
    lemma_call_facts(f.hrl_sites, f.hrl_stub_va);
    lemma_in_group(c, u, h, b, "uhd_site"@);
    lemma_in_group(c, u, h, b, "uhd_stub_va"@);
    lemma_in_group(c, u, h, b, "bd_site"@);
    lemma_in_group(c, u, h, b, "bd_stub_va"@);
    lemma_in_group(c, u, h, b, "hrl_stub_va"@);
    lemma_in_group(c, u, h, b, "hrl_site"@);
    lemma_in_group(c, u, h, b, "hrl_site2"@);
    lemma_in_group(c, u, h, b, "hrl_site3"@);
}

/// The facts of a classic Raw-read lever name the revocation calls behind the others.
pub proof fn lemma_classic_call_facts(f: ClassicRawRead, sites: Seq<u32>, va: u32)
    ensures
        ({
            let facts = classic_modify::classic_rawread_facts(f) + calls(sites, va);
            &&& audit::fact_of(facts, "hrl_stub_va"@) == if va == 0 {
                None
            } else {
                Some(va)
            }
            &&& audit::fact_of(facts, "hrl_site"@) == nth(sites, va, 0)
            &&& audit::fact_of(facts, "hrl_site2"@) == nth(sites, va, 1)
            &&& audit::fact_of(facts, "hrl_site3"@) == nth(sites, va, 2)
        }),
{
    let c = classic_modify::classic_rawread_facts(f);
    let h = calls(sites, va);
    lemma_initials();
    lemma_call_facts(sites, va);
    lemma_either(c, h, "hrl_stub_va"@);
    lemma_either(c, h, "hrl_site"@);
    lemma_either(c, h, "hrl_site2"@);
    lemma_either(c, h, "hrl_site3"@);
    lemma_foreign(c, "hrl_stub_va"@, c.len());
    lemma_foreign(c, "hrl_site"@, c.len());
    lemma_foreign(c, "hrl_site2"@, c.len());
    lemma_foreign(c, "hrl_site3"@, c.len());
}

/// A name that is none of those in the list is not found.
proof fn lemma_absent(facts: Seq<Fact>, key: Seq<char>, n: nat)
    requires
        n <= facts.len(),
        forall|i: int| 0 <= i < facts.len() ==> (#[trigger] facts[i]).0 != key,
    ensures
        audit::fact_among(facts, key, n) is None,
    decreases n,
{
    if n > 0 {
        lemma_absent(facts, key, (n - 1) as nat);
        assert(facts[n - 1].0 != key);
    }
}

/// The lengths of the names that every Raw-read lever has.
proof fn lemma_lengths()
    ensures
        "ake_gate"@.len() == 8,
        "ake_site"@.len() == 8,
        "ake_stub_va"@.len() == 11,
        "gatea_gate"@.len() == 10,
        "gatea_stub_va"@.len() == 13,
        "deny_site"@.len() == 9,
        "deny_stub_va"@.len() == 12,
        "vid_producer"@.len() == 12,
        "deny"@.len() == 4,
        "scratch"@.len() == 7 && "scratch"@[0] == 's',
        "auth_cell_site"@.len() == 14,
        "auth_cell_stub_va"@.len() == 17,
{
    reveal_strlit("ake_gate");
    reveal_strlit("ake_site");
    reveal_strlit("ake_stub_va");
    reveal_strlit("gatea_gate");
    reveal_strlit("gatea_stub_va");
    reveal_strlit("deny_site");
    reveal_strlit("deny_stub_va");
    reveal_strlit("vid_producer");
    reveal_strlit("deny");
    reveal_strlit("scratch");
    reveal_strlit("auth_cell_site");
    reveal_strlit("auth_cell_stub_va");
}

/// Every name of a Raw-read lever has eight letters or more, fourteen at most, or is the
/// BD site's.
proof fn lemma_name_lengths(f: RawRead, i: int)
    requires
        0 <= i < modify::rawread_facts(f).len(),
    ensures
        ({
            let name = modify::rawread_facts(f)[i].0;
            8 <= name.len() < 14 || name.len() == 7 && name[0] == 'b'
        }),
{
    let c = head(f);
    let u = pair("uhd_site"@, f.uhd_site, "uhd_stub_va"@, f.uhd_stub_va);
    let h = calls(f.hrl_sites, f.hrl_stub_va);
    let b = pair("bd_site"@, f.bd_site, "bd_stub_va"@, f.bd_stub_va);
    lemma_groups(f);
    lemma_initials();
    lemma_lengths();
    let all = c + u + h + b;
    if i < c.len() {
        assert(all[i] == c[i]);
    } else if i < c.len() + u.len() {
        assert(all[i] == u[i - c.len()]);
    } else if i < c.len() + u.len() + h.len() {
        assert(all[i] == h[i - c.len() - u.len()]);
    } else {
        assert(all[i] == b[i - c.len() - u.len() - h.len()]);
    }
}

/// A modern Raw-read lever names no deny block, no scratch cell and no auth-cell detour.
pub proof fn lemma_absent_facts(f: RawRead)
    ensures
        ({
            let facts = modify::rawread_facts(f);
            &&& audit::fact_of(facts, "deny"@) is None
            &&& audit::fact_of(facts, "scratch"@) is None
            &&& audit::fact_of(facts, "auth_cell_site"@) is None
            &&& audit::fact_of(facts, "auth_cell_stub_va"@) is None
        }),
{
    let facts = modify::rawread_facts(f);
    lemma_lengths();
    assert forall|i: int| 0 <= i < facts.len() implies {
        let name = (#[trigger] facts[i]).0;
        &&& name != "deny"@
        &&& name != "scratch"@
        &&& name != "auth_cell_site"@
        &&& name != "auth_cell_stub_va"@
    } by {
        lemma_name_lengths(f, i);
    }
    lemma_absent(facts, "deny"@, facts.len());
    lemma_absent(facts, "scratch"@, facts.len());
    lemma_absent(facts, "auth_cell_site"@, facts.len());
    lemma_absent(facts, "auth_cell_stub_va"@, facts.len());
}

/// A classic Raw-read lever names the deny block and the scratch cell that it leaves alone,
/// and none of the detours that only the modern line has.
pub proof fn lemma_classic_absent_facts(f: ClassicRawRead, sites: Seq<u32>, va: u32)
    ensures
        ({
            let facts = classic_modify::classic_rawread_facts(f) + calls(sites, va);
            &&& audit::fact_of(facts, "deny"@) == Some(f.deny)
            &&& audit::fact_of(facts, "scratch"@) == Some(f.scratch)
            &&& audit::fact_of(facts, "deny_site"@) is None
            &&& audit::fact_of(facts, "uhd_site"@) is None
            &&& audit::fact_of(facts, "bd_site"@) is None
            &&& audit::fact_of(facts, "auth_cell_site"@) is None
        }),
{
    let c = classic_modify::classic_rawread_facts(f);
    let h = calls(sites, va);
    let facts = c + h;
    lemma_initials();
    lemma_lengths();
    reveal_strlit("gatea_authed");
    assert forall|i: int| 0 <= i < facts.len() implies {
        let name = (#[trigger] facts[i]).0;
        &&& name != "deny_site"@
        &&& name != "uhd_site"@
        &&& name != "bd_site"@
        &&& name != "auth_cell_site"@
    } by {
        if i < c.len() {
            assert(facts[i] == c[i]);
        } else {
            assert(facts[i] == h[i - c.len()]);
        }
    }
    lemma_absent(facts, "deny_site"@, facts.len());
    lemma_absent(facts, "uhd_site"@, facts.len());
    lemma_absent(facts, "bd_site"@, facts.len());
    lemma_absent(facts, "auth_cell_site"@, facts.len());
    assert(facts[6] == c[6] && facts[7] == c[7]);
    assert forall|i: int| 0 <= i < 7 implies (#[trigger] facts[i]).0 == c[i].0 by {}
    landing::lemma_first_fact(facts, "deny"@, 6, facts.len());
    landing::lemma_first_fact(facts, "scratch"@, 7, facts.len());
}

} // verus!
