//! Query-string parsing for REST views.
//!
//! The query is split at `&`; empty pieces are skipped; each piece is split
//! at its first `=` into a key and a value (a bare key has an empty value);
//! both are percent-decoded, invalid UTF-8 becoming U+FFFD. Parameters are
//! kept in small maps that remember the order in which keys first appeared.

use vstd::prelude::*;
use crate::text::{char_vecs_view, chars_of, split_chars, split_on, str_eq, string_of};

verus! {

/// The percent-decoded text of `s` (`%XX` sequences decoded, the bytes then
/// read as UTF-8 with invalid sequences replaced).
pub uninterp spec fn percent_decoded(s: Seq<char>) -> Seq<char>;

/// Percent-decodes `s` with `percent_encoding::percent_decode_str` and
/// reads the bytes as UTF-8 lossily. The result is named
/// `percent_decoded(s)`.
#[verifier::external_body]
fn percent_decode(s: &str) -> (r: String)
    ensures
        r@ == percent_decoded(s@),
{
    percent_encoding::percent_decode_str(s).decode_utf8_lossy().into_owned()
}

/// Position of the first `c` in `s`, or `s.len()` when there is none.
pub open spec fn first_index(s: Seq<char>, c: char) -> int
    decreases s.len(),
{
    if s.len() == 0 {
        0
    } else if s[0] == c {
        0
    } else {
        1 + first_index(s.drop_first(), c)
    }
}

/// The key of a `key=value` piece (before the first `=`).
pub open spec fn key_part(piece: Seq<char>) -> Seq<char> {
    piece.take(first_index(piece, '='))
}

/// The value of a `key=value` piece (after the first `=`), if it has one.
pub open spec fn value_part(piece: Seq<char>) -> Option<Seq<char>> {
    let i = first_index(piece, '=');
    if i < piece.len() {
        Some(piece.skip(i + 1))
    } else {
        None
    }
}

/// The decoded `(key, value)` pairs of the first `n` pieces, skipping empty
/// pieces. With `decode_missing`, a missing value is decoded from the empty
/// text; otherwise it is the empty text itself.
pub open spec fn pairs_upto(pieces: Seq<Seq<char>>, n: int, decode_missing: bool) -> Seq<
    (Seq<char>, Seq<char>),
>
    decreases n,
{
    if n <= 0 {
        Seq::empty()
    } else if pieces[n - 1].len() == 0 {
        pairs_upto(pieces, n - 1, decode_missing)
    } else {
        let p = pieces[n - 1];
        let v = match value_part(p) {
            Some(v) => percent_decoded(v),
            None => if decode_missing {
                percent_decoded(Seq::empty())
            } else {
                Seq::empty()
            },
        };
        pairs_upto(pieces, n - 1, decode_missing).push((percent_decoded(key_part(p)), v))
    }
}

/// The decoded pairs of a query string, in order.
pub open spec fn query_pairs(q: Seq<char>, decode_missing: bool) -> Seq<(Seq<char>, Seq<char>)> {
    let ps = split_on(q, '&');
    pairs_upto(ps, ps.len() as int, decode_missing)
}

/// Each key's first value.
pub open spec fn first_values(pairs: Seq<(Seq<char>, Seq<char>)>) -> Map<Seq<char>, Seq<char>>
    decreases pairs.len(),
{
    if pairs.len() == 0 {
        Map::empty()
    } else {
        let m = first_values(pairs.drop_last());
        if m.contains_key(pairs.last().0) {
            m
        } else {
            m.insert(pairs.last().0, pairs.last().1)
        }
    }
}

/// Each key's last value.
pub open spec fn last_values(pairs: Seq<(Seq<char>, Seq<char>)>) -> Map<Seq<char>, Seq<char>>
    decreases pairs.len(),
{
    if pairs.len() == 0 {
        Map::empty()
    } else {
        last_values(pairs.drop_last()).insert(pairs.last().0, pairs.last().1)
    }
}

/// Each key's values, in order.
pub open spec fn all_values(pairs: Seq<(Seq<char>, Seq<char>)>) -> Map<Seq<char>, Seq<Seq<char>>>
    decreases pairs.len(),
{
    if pairs.len() == 0 {
        Map::empty()
    } else {
        let m = all_values(pairs.drop_last());
        let (k, v) = pairs.last();
        m.insert(
            k,
            if m.contains_key(k) {
                m[k].push(v)
            } else {
                seq![v]
            },
        )
    }
}

/// Over the same pairs, the keys with a first value, the keys with a last
/// value and the keys with values are the same, and a key's first and last
/// values are the first and the last of its values.
pub proof fn law_first_and_last_of_all_values(pairs: Seq<(Seq<char>, Seq<char>)>)
    ensures
        first_values(pairs).dom() == all_values(pairs).dom(),
        last_values(pairs).dom() == all_values(pairs).dom(),
        forall|k: Seq<char>| #[trigger] all_values(pairs).contains_key(k) ==> all_values(pairs)[k].len() > 0
            && first_values(pairs)[k] == all_values(pairs)[k][0] && last_values(pairs)[k]
            == all_values(pairs)[k].last(),
    decreases pairs.len(),
{
    if pairs.len() > 0 {
        let p = pairs.drop_last();
        law_first_and_last_of_all_values(p);
        let (k, v) = pairs.last();
        let a = all_values(pairs);
        assert(first_values(pairs).dom() =~= a.dom());
        assert(last_values(pairs).dom() =~= a.dom());
        assert forall|key: Seq<char>| #[trigger] a.contains_key(key) implies a[key].len() > 0
            && first_values(pairs)[key] == a[key][0] && last_values(pairs)[key] == a[key].last() by {
            if key == k && all_values(p).contains_key(k) {
                assert(a[key][0] == all_values(p)[k][0]);
            }
        }
    } else {
        assert(first_values(pairs).dom() =~= all_values(pairs).dom());
        assert(last_values(pairs).dom() =~= all_values(pairs).dom());
    }
}

/// The map held by the first `n` entries.
pub open spec fn entries_map<V: DeepView>(e: Seq<(String, V)>, n: int) -> Map<Seq<char>, V::V>
    decreases n,
{
    if n <= 0 {
        Map::empty()
    } else {
        entries_map(e, n - 1).insert(e[n - 1].0@, e[n - 1].1.deep_view())
    }
}

/// No key occurs twice.
pub open spec fn distinct_keys<V>(e: Seq<(String, V)>) -> bool {
    forall|i: int, j: int| 0 <= i < j < e.len() ==> e[i].0@ != e[j].0@
}

proof fn lemma_entries_lookup<V: DeepView>(e: Seq<(String, V)>, n: int, i: int)
    requires
        distinct_keys(e),
        0 <= i < n <= e.len(),
    ensures
        entries_map(e, n).contains_key(e[i].0@),
        entries_map(e, n)[e[i].0@] == e[i].1.deep_view(),
    decreases n,
{
    if i < n - 1 {
        lemma_entries_lookup(e, n - 1, i);
        assert(e[i].0@ != e[n - 1].0@);
    }
}

proof fn lemma_entries_absent<V: DeepView>(e: Seq<(String, V)>, n: int, k: Seq<char>)
    requires
        0 <= n <= e.len(),
        forall|j: int| 0 <= j < n ==> e[j].0@ != k,
    ensures
        !entries_map(e, n).contains_key(k),
    decreases n,
{
    if n > 0 {
        lemma_entries_absent(e, n - 1, k);
    }
}

proof fn lemma_entries_index<V: DeepView>(e: Seq<(String, V)>, n: int, k: Seq<char>) -> (j: int)
    requires
        0 <= n <= e.len(),
        entries_map(e, n).contains_key(k),
    ensures
        0 <= j < n,
        e[j].0@ == k,
    decreases n,
{
    if n > 0 && e[n - 1].0@ == k {
        n - 1
    } else {
        if n <= 0 {
            assert(entries_map(e, n) =~= Map::empty());
        }
        lemma_entries_index(e, n - 1, k)
    }
}

/// Query parameters keyed by name, each key once, in the order keys first
/// appeared.
pub struct QueryParams<V> {
    entries: Vec<(String, V)>,
}

impl<V: DeepView> QueryParams<V> {
    /// The parameters as a map from key to value.
    pub closed spec fn view(&self) -> Map<Seq<char>, V::V> {
        entries_map(self.entries@, self.entries@.len() as int)
    }

    /// The keys, in order of first appearance.
    pub closed spec fn keys(&self) -> Seq<Seq<char>> {
        Seq::new(self.entries@.len(), |i: int| self.entries@[i].0@)
    }

    /// No key is held twice.
    pub closed spec fn wf(&self) -> bool {
        distinct_keys(self.entries@)
    }

    /// No parameters.
    pub fn new() -> (r: Self)
        ensures
            r.wf(),
            r.view() == Map::<Seq<char>, V::V>::empty(),
            r.keys().len() == 0,
    {
        let r = QueryParams { entries: Vec::new() };
        proof {
            assert(r.view() =~= Map::<Seq<char>, V::V>::empty());
        }
        r
    }

    /// Number of distinct keys.
    pub fn len(&self) -> (n: usize)
        requires
            self.wf(),
        ensures
            n == self.view().dom().len(),
            n == self.keys().len(),
    {
        proof {
            self.lemma_dom_len();
        }
        self.entries.len()
    }

    /// Whether there are no parameters.
    pub fn is_empty(&self) -> (b: bool)
        requires
            self.wf(),
        ensures
            b == (self.view().dom().len() == 0),
    {
        proof {
            self.lemma_dom_len();
        }
        self.entries.len() == 0
    }

    proof fn lemma_dom_len(&self)
        requires
            self.wf(),
        ensures
            self.view().dom().len() == self.entries@.len(),
            self.view().dom().finite(),
    {
        let e = self.entries@;
        lemma_dom_len_upto(e, e.len() as int);
    }

    fn find(&self, key: &str) -> (r: Option<usize>)
        requires
            self.wf(),
        ensures
            match r {
                Some(i) => i < self.entries@.len() && self.entries@[i as int].0@ == key@,
                None => forall|j: int| 0 <= j < self.entries@.len() ==> self.entries@[j].0@ != key@,
            },
    {
        let mut i: usize = 0;
        while i < self.entries.len()
            invariant
                i <= self.entries@.len(),
                forall|j: int| 0 <= j < i ==> self.entries@[j].0@ != key@,
            decreases self.entries@.len() - i,
        {
            if str_eq(self.entries[i].0.as_str(), key) {
                return Some(i);
            }
            i = i + 1;
        }
        None
    }

    /// The value of `key`, if present.
    pub fn get(&self, key: &str) -> (r: Option<&V>)
        requires
            self.wf(),
        ensures
            match r {
                Some(v) => self.view().contains_key(key@) && v.deep_view() == self.view()[key@],
                None => !self.view().contains_key(key@),
            },
    {
        match self.find(key) {
            Some(i) => {
                proof {
                    lemma_entries_lookup(self.entries@, self.entries@.len() as int, i as int);
                }
                Some(&self.entries[i].1)
            },
            None => {
                proof {
                    lemma_entries_absent(self.entries@, self.entries@.len() as int, key@);
                }
                None
            },
        }
    }

    /// Adds `key` with `value` unless the key is already present.
    fn insert_first(&mut self, key: String, value: V)
        requires
            old(self).wf(),
        ensures
            final(self).wf(),
            final(self).view() == if old(self).view().contains_key(key@) {
                old(self).view()
            } else {
                old(self).view().insert(key@, value.deep_view())
            },
    {
        match self.find(key.as_str()) {
            Some(i) => {
                proof {
                    lemma_entries_lookup(self.entries@, self.entries@.len() as int, i as int);
                }
            },
            None => {
                proof {
                    lemma_entries_absent(self.entries@, self.entries@.len() as int, key@);
                }
                let ghost old_e = self.entries@;
                self.entries.push((key, value));
                proof {
                    assert(self.entries@.drop_last() =~= old_e);
                    lemma_entries_prefix(self.entries@, old_e, old_e.len() as int);
                }
            },
        }
    }

    /// Sets `key` to `value`, replacing any earlier value.
    fn insert_last(&mut self, key: String, value: V)
        requires
            old(self).wf(),
        ensures
            final(self).wf(),
            final(self).view() == old(self).view().insert(key@, value.deep_view()),
    {
        match self.find(key.as_str()) {
            Some(i) => {
                let ghost old_e = self.entries@;
                let ghost kv = key@;
                let ghost vv = value.deep_view();
                self.entries.set(i, (key, value));
                proof {
                    let e = self.entries@;
                    assert(distinct_keys(e)) by {
                        assert forall|a: int, b: int| 0 <= a < b < e.len() implies e[a].0@
                            != e[b].0@ by {
                            if a != i && b != i {
                                assert(e[a] == old_e[a] && e[b] == old_e[b]);
                            } else if a == i {
                                assert(old_e[a].0@ != old_e[b].0@);
                            } else {
                                assert(old_e[a].0@ != old_e[b].0@);
                            }
                        }
                    }
                    lemma_replace_value(old_e, e, i as int);
                }
            },
            None => {
                proof {
                    lemma_entries_absent(self.entries@, self.entries@.len() as int, key@);
                }
                let ghost old_e = self.entries@;
                self.entries.push((key, value));
                proof {
                    assert(self.entries@.drop_last() =~= old_e);
                    lemma_entries_prefix(self.entries@, old_e, old_e.len() as int);
                }
            },
        }
    }
}

proof fn lemma_dom_len_upto<V: DeepView>(e: Seq<(String, V)>, n: int)
    requires
        distinct_keys(e),
        0 <= n <= e.len(),
    ensures
        entries_map(e, n).dom().len() == n,
        entries_map(e, n).dom().finite(),
    decreases n,
{
    if n > 0 {
        lemma_dom_len_upto(e, n - 1);
        assert forall|j: int| 0 <= j < n - 1 implies #[trigger] e[j].0@ != e[n - 1].0@ by {}
        lemma_entries_absent(e, n - 1, e[n - 1].0@);
    }
}

proof fn lemma_entries_prefix<V: DeepView>(e: Seq<(String, V)>, p: Seq<(String, V)>, n: int)
    requires
        0 <= n <= p.len(),
        n <= e.len(),
        forall|j: int| 0 <= j < n ==> e[j] == p[j],
    ensures
        entries_map(e, n) == entries_map(p, n),
    decreases n,
{
    if n > 0 {
        lemma_entries_prefix(e, p, n - 1);
    }
}

proof fn lemma_replace_value<V: DeepView>(old_e: Seq<(String, V)>, e: Seq<(String, V)>, i: int)
    requires
        distinct_keys(old_e),
        distinct_keys(e),
        old_e.len() == e.len(),
        0 <= i < e.len(),
        e[i].0@ == old_e[i].0@,
        forall|j: int| 0 <= j < e.len() && j != i ==> e[j] == old_e[j],
    ensures
        entries_map(e, e.len() as int) == entries_map(old_e, old_e.len() as int).insert(
            e[i].0@,
            e[i].1.deep_view(),
        ),
{
    let n = e.len() as int;
    let m = entries_map(e, n);
    let om = entries_map(old_e, n).insert(e[i].0@, e[i].1.deep_view());
    assert forall|k: Seq<char>| #![auto] m.contains_key(k) <==> om.contains_key(k) by {
        if m.contains_key(k) {
            let j = lemma_entries_index(e, n, k);
            if j != i {
                lemma_entries_lookup(old_e, n, j);
            }
        }
        if om.contains_key(k) && k != e[i].0@ {
            let j = lemma_entries_index(old_e, n, k);
            lemma_entries_lookup(e, n, j);
        }
        if k == e[i].0@ {
            lemma_entries_lookup(e, n, i);
        }
    }
    assert forall|k: Seq<char>| #![auto] m.contains_key(k) implies m[k] == om[k] by {
        let j = lemma_entries_index(e, n, k);
        lemma_entries_lookup(e, n, j);
        if j != i {
            lemma_entries_lookup(old_e, n, j);
        }
    }
    assert(m =~= om);
}

impl QueryParams<Vec<String>> {
    /// Appends `value` to the values of `key` (the key is added when new).
    fn push_value(&mut self, key: String, value: String)
        requires
            old(self).wf(),
        ensures
            final(self).wf(),
            final(self).view() == old(self).view().insert(
                key@,
                if old(self).view().contains_key(key@) {
                    old(self).view()[key@].push(value@)
                } else {
                    seq![value@]
                },
            ),
    {
        match self.find(key.as_str()) {
            Some(i) => {
                proof {
                    lemma_entries_lookup(self.entries@, self.entries@.len() as int, i as int);
                }
                let ghost old_e = self.entries@;
                let mut vals = self.entries[i].1.clone();
                proof {
                    assert(vals.deep_view() =~= old_e[i as int].1.deep_view()) by {
                        assert forall|x: int| 0 <= x < vals@.len() implies vals@[x]@
                            == old_e[i as int].1@[x]@ by {
                            assert(vals@[x] == old_e[i as int].1@[x]);
                        }
                    }
                }
                vals.push(value);
                let ghost nv = vals.deep_view();
                proof {
                    assert(nv =~= old_e[i as int].1.deep_view().push(value@));
                }
                self.entries.set(i, (key, vals));
                proof {
                    let e = self.entries@;
                    assert(distinct_keys(e)) by {
                        assert forall|a: int, b: int| 0 <= a < b < e.len() implies e[a].0@
                            != e[b].0@ by {
                            if a != i && b != i {
                                assert(e[a] == old_e[a] && e[b] == old_e[b]);
                            } else {
                                assert(old_e[a].0@ != old_e[b].0@);
                            }
                        }
                    }
                    lemma_replace_value(old_e, e, i as int);
                }
            },
            None => {
                proof {
                    lemma_entries_absent(self.entries@, self.entries@.len() as int, key@);
                }
                let ghost old_e = self.entries@;
                let mut vals: Vec<String> = Vec::new();
                vals.push(value);
                proof {
                    assert(vals.deep_view() =~= seq![value@]);
                }
                self.entries.push((key, vals));
                proof {
                    assert(self.entries@.drop_last() =~= old_e);
                    lemma_entries_prefix(self.entries@, old_e, old_e.len() as int);
                }
            },
        }
    }
}

/// The key and the value of a piece, split at the first `=`.
fn split_pair(piece: &Vec<char>) -> (r: (String, Option<String>))
    ensures
        r.0@ == key_part(piece@),
        match value_part(piece@) {
            Some(v) => r.1 matches Some(s) && s@ == v,
            None => r.1 is None,
        },
{
    let n = piece.len();
    let mut i: usize = 0;
    proof {
        assert(piece@.skip(0) =~= piece@);
    }
    while i < n && piece[i] != '='
        invariant
            n == piece@.len(),
            i <= n,
            forall|j: int| 0 <= j < i ==> piece@[j] != '=',
            first_index(piece@, '=') == i + first_index(piece@.skip(i as int), '='),
        decreases n - i,
    {
        proof {
            let rest = piece@.skip(i as int);
            assert(rest.drop_first() =~= piece@.skip(i + 1));
        }
        i = i + 1;
    }
    proof {
        let rest = piece@.skip(i as int);
        assert(first_index(rest, '=') == 0);
    }
    let mut key: Vec<char> = Vec::new();
    let mut k: usize = 0;
    while k < i
        invariant
            i <= n == piece@.len(),
            k <= i,
            key@ == piece@.take(k as int),
        decreases i - k,
    {
        key.push(piece[k]);
        proof {
            assert(key@ =~= piece@.take(k + 1));
        }
        k = k + 1;
    }
    let key_s = string_of(key.as_slice());
    if i < n {
        let mut val: Vec<char> = Vec::new();
        let mut m: usize = i + 1;
        while m < n
            invariant
                i < n == piece@.len(),
                i + 1 <= m <= n,
                val@ == piece@.subrange(i + 1, m as int),
            decreases n - m,
        {
            val.push(piece[m]);
            proof {
                assert(val@ =~= piece@.subrange(i + 1, m + 1));
            }
            m = m + 1;
        }
        proof {
            assert(piece@.skip(i + 1) =~= piece@.subrange(i + 1, n as int));
        }
        (key_s, Some(string_of(val.as_slice())))
    } else {
        (key_s, None)
    }
}

/// The decoded `(key, value)` of each non-empty piece of `query`, with a
/// missing value decoded from empty text when `decode_missing`.
fn decoded_pairs(query: &str, decode_missing: bool) -> (r: Vec<(String, String)>)
    ensures
        r@.len() == query_pairs(query@, decode_missing).len(),
        forall|j: int|
            0 <= j < r@.len() ==> r@[j].0@ == query_pairs(query@, decode_missing)[j].0 && r@[j].1@
                == query_pairs(query@, decode_missing)[j].1,
{
    let chars = chars_of(query);
    let pieces = split_chars(chars.as_slice(), '&');
    let ghost ps = split_on(query@, '&');
    let mut out: Vec<(String, String)> = Vec::new();
    let mut i: usize = 0;
    while i < pieces.len()
        invariant
            char_vecs_view(pieces@) == ps,
            ps == split_on(query@, '&'),
            i <= pieces@.len(),
            out@.len() == pairs_upto(ps, i as int, decode_missing).len(),
            forall|j: int|
                0 <= j < out@.len() ==> out@[j].0@ == pairs_upto(ps, i as int, decode_missing)[j].0
                    && out@[j].1@ == pairs_upto(ps, i as int, decode_missing)[j].1,
        decreases pieces@.len() - i,
    {
        proof {
            assert(ps[i as int] == pieces@[i as int]@);
        }
        if pieces[i].len() > 0 {
            let (k, v) = split_pair(&pieces[i]);
            let key = percent_decode(k.as_str());
            let value = match v {
                Some(s) => percent_decode(s.as_str()),
                None => {
                    if decode_missing {
                        percent_decode("")
                    } else {
                        String::new()
                    }
                },
            };
            proof {
                if v is None && decode_missing {
                    assert(""@ =~= Seq::<char>::empty()) by {
                        reveal_strlit("");
                    }
                }
            }
            out.push((key, value));
        }
        i = i + 1;
    }
    out
}

/// Parses a query string into a map in which a repeated key keeps its last
/// value; a bare key maps to the decoding of the empty text.
pub fn parse_query_string(query: &str) -> (r: QueryParams<String>)
    ensures
        r.wf(),
        r.view() == last_values(query_pairs(query@, true)),
{
    let pairs = decoded_pairs(query, true);
    let ghost qp = query_pairs(query@, true);
    let mut m: QueryParams<String> = QueryParams::new();
    let total: usize = pairs.len();
    let mut rest = pairs;
    let mut done: usize = 0;
    proof {
        assert(m.view() =~= last_values(qp.take(0)));
    }
    while rest.len() > 0
        invariant
            done + rest@.len() == qp.len(),
            qp.len() <= usize::MAX,
            forall|j: int|
                0 <= j < rest@.len() ==> rest@[j].0@ == qp[j + done].0 && rest@[j].1@ == qp[j
                    + done].1,
            m.wf(),
            m.view() == last_values(qp.take(done as int)),
        decreases rest@.len(),
    {
        let (k, v) = rest.remove(0);
        proof {
            assert(qp.take(done + 1).drop_last() =~= qp.take(done as int));
            assert(qp.take(done + 1).last() == qp[done as int]);
        }
        m.insert_last(k, v);
        done = done + 1;
    }
    proof {
        assert(qp.take(qp.len() as int) =~= qp);
    }
    m
}

/// Parses a query string into each key's first value and each key's
/// values in order; a bare key has the empty value.
pub fn parse_query_string_multi(query: &str) -> (r: (QueryParams<String>, QueryParams<Vec<String>>))
    ensures
        r.0.wf(),
        r.1.wf(),
        r.0.view() == first_values(query_pairs(query@, false)),
        r.1.view() == all_values(query_pairs(query@, false)),
{
    let pairs = decoded_pairs(query, false);
    let ghost qp = query_pairs(query@, false);
    let mut first: QueryParams<String> = QueryParams::new();
    let mut all: QueryParams<Vec<String>> = QueryParams::new();
    let total: usize = pairs.len();
    let mut rest = pairs;
    let mut done: usize = 0;
    proof {
        assert(all.view() =~= all_values(qp.take(0)));
        assert(first.view() =~= first_values(qp.take(0)));
    }
    while rest.len() > 0
        invariant
            done + rest@.len() == qp.len(),
            qp.len() <= usize::MAX,
            forall|j: int|
                0 <= j < rest@.len() ==> rest@[j].0@ == qp[j + done].0 && rest@[j].1@ == qp[j
                    + done].1,
            first.wf(),
            all.wf(),
            first.view() == first_values(qp.take(done as int)),
            all.view() == all_values(qp.take(done as int)),
        decreases rest@.len(),
    {
        let (k, v) = rest.remove(0);
        proof {
            assert(qp.take(done + 1).drop_last() =~= qp.take(done as int));
            assert(qp.take(done + 1).last() == qp[done as int]);
        }
        let k2 = k.clone();
        let v2 = v.clone();
        first.insert_first(k, v);
        all.push_value(k2, v2);
        done = done + 1;
    }
    proof {
        assert(qp.take(qp.len() as int) =~= qp);
    }
    (first, all)
}

} // verus!
