//! The verbose health report's datasource probes: how one probe's outcome
//! is reported, and the order in which the probes are listed (by
//! datasource name).

use vstd::prelude::*;
use crate::text::chars_of;

verus! {

broadcast use vstd::seq_lib::group_to_multiset_ensures;

/// How long a connectivity probe may take, in seconds.
pub const PROBE_TIMEOUT_SECS: u64 = 5;

/// The report of one datasource probe.
pub struct DatasourceProbe {
    pub name: String,
    pub driver: String,
    /// `ok` or `error`.
    pub status: String,
    pub latency_ms: u64,
    pub error: Option<String>,
}

/// How a probe ended.
pub enum ProbeOutcome {
    /// A connection was made.
    Connected,
    /// Connecting failed with this error.
    Failed(String),
    /// Connecting took longer than the probe timeout.
    TimedOut,
}

/// The driver a probe connects with: the datasource's `driver` option, or
/// `unknown`.
pub fn probe_driver<'a>(configured: Option<&'a str>) -> (r: &'a str)
    ensures
        r@ == match configured {
            Some(d) => d@,
            None => "unknown"@,
        },
{
    match configured {
        Some(d) => d,
        None => "unknown",
    }
}

/// The report of a probe: `ok` with the time it took when it connected;
/// `error` with the driver's error and the time taken when it failed; and
/// `error` with the whole timeout when it timed out.
pub fn probe_result(name: &str, driver: &str, outcome: ProbeOutcome, elapsed_ms: u64) -> (r: DatasourceProbe)
    ensures
        r.name@ == name@,
        r.driver@ == driver@,
        match outcome {
            ProbeOutcome::Connected => r.status@ == "ok"@ && r.latency_ms == elapsed_ms
                && r.error is None,
            ProbeOutcome::Failed(e) => r.status@ == "error"@ && r.latency_ms == elapsed_ms && (r.error matches Some(m) && m@ == e@),
            ProbeOutcome::TimedOut => r.status@ == "error"@ && r.latency_ms == 5000 && (r.error matches Some(m) && m@ == "probe timeout (5s)"@),
        },
{
    match outcome {
        ProbeOutcome::Connected => DatasourceProbe {
            name: name.to_owned(),
            driver: driver.to_owned(),
            status: "ok".to_owned(),
            latency_ms: elapsed_ms,
            error: None,
        },
        ProbeOutcome::Failed(e) => DatasourceProbe {
            name: name.to_owned(),
            driver: driver.to_owned(),
            status: "error".to_owned(),
            latency_ms: elapsed_ms,
            error: Some(e),
        },
        ProbeOutcome::TimedOut => DatasourceProbe {
            name: name.to_owned(),
            driver: driver.to_owned(),
            status: "error".to_owned(),
            latency_ms: PROBE_TIMEOUT_SECS * 1000,
            error: Some("probe timeout (5s)".to_owned()),
        },
    }
}

/// Whether `a` comes no later than `b` in the order of names: compared
/// character by character, a proper prefix first (the order of `str`).
pub open spec fn name_le(a: Seq<char>, b: Seq<char>) -> bool
    decreases a.len(),
{
    if a.len() == 0 {
        true
    } else if b.len() == 0 {
        false
    } else if a[0] != b[0] {
        a[0] < b[0]
    } else {
        name_le(a.drop_first(), b.drop_first())
    }
}

/// The order of names is total.
pub proof fn lemma_name_le_total(a: Seq<char>, b: Seq<char>)
    ensures
        name_le(a, b) || name_le(b, a),
    decreases a.len(),
{
    if a.len() > 0 && b.len() > 0 && a[0] == b[0] {
        lemma_name_le_total(a.drop_first(), b.drop_first());
    }
}

/// The order of names is transitive.
pub proof fn lemma_name_le_transitive(a: Seq<char>, b: Seq<char>, c: Seq<char>)
    requires
        name_le(a, b),
        name_le(b, c),
    ensures
        name_le(a, c),
    decreases a.len(),
{
    if a.len() > 0 && b.len() > 0 && c.len() > 0 && a[0] == b[0] && b[0] == c[0] {
        lemma_name_le_transitive(a.drop_first(), b.drop_first(), c.drop_first());
    }
}

/// Whether `a` comes no later than `b`.
fn names_in_order(a: &str, b: &str) -> (r: bool)
    ensures
        r == name_le(a@, b@),
{
    let x = chars_of(a);
    let y = chars_of(b);
    let mut i: usize = 0;
    proof {
        assert(a@.skip(0) =~= a@);
        assert(b@.skip(0) =~= b@);
    }
    while i < x.len() && i < y.len() && x[i] == y[i]
        invariant
            x@ == a@,
            y@ == b@,
            i <= x@.len(),
            i <= y@.len(),
            name_le(a@, b@) == name_le(a@.skip(i as int), b@.skip(i as int)),
        decreases x@.len() - i,
    {
        proof {
            let sa = a@.skip(i as int);
            let sb = b@.skip(i as int);
            assert(sa.drop_first() =~= a@.skip(i + 1));
            assert(sb.drop_first() =~= b@.skip(i + 1));
        }
        i = i + 1;
    }
    proof {
        let sa = a@.skip(i as int);
        let sb = b@.skip(i as int);
        if i < x@.len() && i < y@.len() {
            assert(sa[0] == x@[i as int]);
            assert(sb[0] == y@[i as int]);
        }
    }
    if i == x.len() {
        true
    } else if i == y.len() {
        false
    } else {
        x[i] < y[i]
    }
}

/// Whether probes are listed by name.
pub open spec fn sorted_by_name(s: Seq<DatasourceProbe>) -> bool {
    forall|i: int, j: int| 0 <= i < j < s.len() ==> name_le(s[i].name@, s[j].name@)
}

proof fn lemma_insert_keeps_order(s: Seq<DatasourceProbe>, p: int, x: DatasourceProbe)
    requires
        sorted_by_name(s),
        0 <= p <= s.len(),
        forall|q: int| 0 <= q < p ==> !name_le(x.name@, s[q].name@),
        p < s.len() ==> name_le(x.name@, s[p].name@),
    ensures
        sorted_by_name(s.insert(p, x)),
{
    let t = s.insert(p, x);
    assert forall|i: int, j: int| 0 <= i < j < t.len() implies name_le(t[i].name@, t[j].name@) by {
        if i < p && j == p {
            lemma_name_le_total(x.name@, s[i].name@);
        } else if i < p && j > p {
            lemma_name_le_total(x.name@, s[i].name@);
            assert(t[j] == s[j - 1]);
        } else if i == p && j > p {
            assert(t[j] == s[j - 1]);
            if j - 1 > p {
                lemma_name_le_transitive(x.name@, s[p].name@, s[j - 1].name@);
            }
        } else if i > p {
            assert(t[i] == s[i - 1]);
            assert(t[j] == s[j - 1]);
        }
    }
}

proof fn lemma_insert_multiset(s: Seq<DatasourceProbe>, p: int, x: DatasourceProbe)
    requires
        0 <= p <= s.len(),
    ensures
        s.insert(p, x).to_multiset() =~= s.to_multiset().insert(x),
{
    let t = s.insert(p, x);
    assert(t.remove(p) =~= s);
    assert(t[p] == x);
    assert(t.remove(p).to_multiset() == t.to_multiset().remove(x));
    assert(t.to_multiset().count(x) > 0) by {
        assert(t.contains(x));
    }
}

/// Lists probes by datasource name.
pub fn sort_probes(probes: Vec<DatasourceProbe>) -> (r: Vec<DatasourceProbe>)
    ensures
        r@.to_multiset() == probes@.to_multiset(),
        sorted_by_name(r@),
{
    let mut rest = probes;
    let mut out: Vec<DatasourceProbe> = Vec::new();
    proof {
        assert(out@.to_multiset() =~= vstd::multiset::Multiset::empty());
    }
    while rest.len() > 0
        invariant
            sorted_by_name(out@),
            out@.to_multiset().add(rest@.to_multiset()) == probes@.to_multiset(),
        decreases rest@.len(),
    {
        let ghost before = rest@;
        let item = rest.pop().unwrap();
        proof {
            assert(before =~= rest@.push(item));
        }
        let mut p: usize = 0;
        while p < out.len() && !names_in_order(item.name.as_str(), out[p].name.as_str())
            invariant
                p <= out@.len(),
                forall|q: int| 0 <= q < p ==> !name_le(item.name@, out@[q].name@),
            decreases out@.len() - p,
        {
            p = p + 1;
        }
        let ghost o = out@;
        proof {
            lemma_insert_keeps_order(o, p as int, item);
            lemma_insert_multiset(o, p as int, item);
        }
        out.insert(p, item);
        proof {
            assert(out@.to_multiset().add(rest@.to_multiset()) =~= probes@.to_multiset());
        }
    }
    proof {
        assert(rest@.to_multiset() =~= vstd::multiset::Multiset::empty());
        assert(out@.to_multiset().add(rest@.to_multiset()) =~= out@.to_multiset());
    }
    out
}

} // verus!
