//! Schema introspection — validates DataView fields against database
//! columns at startup, suggesting the closest column name for each field
//! that is missing.

use vstd::prelude::*;
use crate::text::{decimal, decimal_string, join, join_strings, push_str, str_eq, strings_view};

verus! {

/// Edit distance (insertions, deletions, substitutions) between two
/// character sequences.
pub open spec fn levenshtein_spec(a: Seq<char>, b: Seq<char>) -> nat
    decreases a.len() + b.len(),
{
    if a.len() == 0 {
        b.len()
    } else if b.len() == 0 {
        a.len()
    } else {
        let del = levenshtein_spec(a.drop_last(), b) + 1;
        let ins = levenshtein_spec(a, b.drop_last()) + 1;
        let sub = levenshtein_spec(a.drop_last(), b.drop_last()) + if a.last() == b.last() {
            0nat
        } else {
            1nat
        };
        min3(del, ins, sub)
    }
}

pub open spec fn min3(x: nat, y: nat, z: nat) -> nat {
    let m = if x < y { x } else { y };
    if m < z { m } else { z }
}

/// The closest column within distance 2 of `unknown`: the first column of
/// least distance, scanning `columns` in order; with its distance.
pub open spec fn best_column(unknown: Seq<char>, columns: Seq<Seq<char>>) -> Option<(Seq<char>, nat)>
    decreases columns.len(),
{
    if columns.len() == 0 {
        None
    } else {
        let prev = best_column(unknown, columns.drop_last());
        let d = levenshtein_spec(unknown, columns.last());
        if d <= 2 && (prev is None || d < (prev->0).1) {
            Some((columns.last(), d))
        } else {
            prev
        }
    }
}

/// The suggested column for `unknown`, if any column is within distance 2.
pub open spec fn suggestion_spec(unknown: Seq<char>, columns: Seq<Seq<char>>) -> Option<Seq<char>> {
    match best_column(unknown, columns) {
        Some(p) => Some(p.0),
        None => None,
    }
}

proof fn lemma_best_column(unknown: Seq<char>, columns: Seq<Seq<char>>)
    ensures
        match best_column(unknown, columns) {
            Some(p) => columns.contains(p.0) && p.1 == levenshtein_spec(unknown, p.0) && p.1 <= 2
                && forall|j: int| 0 <= j < columns.len() ==> p.1 <= levenshtein_spec(unknown, #[trigger] columns[j]),
            None => forall|j: int| 0 <= j < columns.len() ==> levenshtein_spec(unknown, #[trigger] columns[j]) > 2,
        },
    decreases columns.len(),
{
    if columns.len() > 0 {
        let rest = columns.drop_last();
        lemma_best_column(unknown, rest);
        match best_column(unknown, rest) {
            Some(p) => {
                let w = choose|w: int| 0 <= w < rest.len() && rest[w] == p.0;
                assert(columns[w] == p.0);
            },
            None => {},
        }
        assert(columns[columns.len() - 1] == columns.last());
        assert forall|j: int| 0 <= j < columns.len() - 1 implies #[trigger] columns[j] == rest[j] by {}
    }
}

/// A suggested column is one of the columns, within distance 2 of the
/// unknown name, and no column is closer; without a suggestion, every
/// column is further than 2.
pub proof fn law_suggestion_is_a_closest_column(unknown: Seq<char>, columns: Seq<Seq<char>>)
    ensures
        match suggestion_spec(unknown, columns) {
            Some(s) => columns.contains(s) && levenshtein_spec(unknown, s) <= 2 && forall|j: int|
                0 <= j < columns.len() ==> levenshtein_spec(unknown, s) <= levenshtein_spec(
                    unknown,
                    #[trigger] columns[j],
                ),
            None => forall|j: int|
                0 <= j < columns.len() ==> levenshtein_spec(unknown, #[trigger] columns[j]) > 2,
        },
{
    lemma_best_column(unknown, columns);
}

/// A single schema mismatch found during introspection.
pub struct SchemaMismatch {
    /// Name of the DataView with the mismatch.
    pub dataview_name: String,
    /// Schema field name that was not found in query results.
    pub field_name: String,
    /// Actual columns returned by the query.
    pub available_columns: Vec<String>,
    /// Levenshtein suggestion if a close match exists.
    pub suggestion: Option<String>,
}

/// The content of a mismatch as plain sequences.
pub struct MismatchView {
    pub dataview_name: Seq<char>,
    pub field_name: Seq<char>,
    pub available_columns: Seq<Seq<char>>,
    pub suggestion: Option<Seq<char>>,
}

pub open spec fn opt_view(o: Option<String>) -> Option<Seq<char>> {
    match o {
        Some(s) => Some(s@),
        None => None,
    }
}

impl SchemaMismatch {
    pub open spec fn view(&self) -> MismatchView {
        MismatchView {
            dataview_name: self.dataview_name@,
            field_name: self.field_name@,
            available_columns: strings_view(self.available_columns@),
            suggestion: opt_view(self.suggestion),
        }
    }

    /// Human-readable description of the mismatch.
    pub fn to_text(&self) -> (s: String)
        ensures
            s@ == mismatch_text(self.view()),
    {
        let mut s = String::new();
        push_str(&mut s, "DataView '");
        push_str(&mut s, self.dataview_name.as_str());
        push_str(&mut s, "' field '");
        push_str(&mut s, self.field_name.as_str());
        push_str(&mut s, "' not found — available: ");
        let joined = join_strings(&self.available_columns, ", ");
        push_str(&mut s, joined.as_str());
        match &self.suggestion {
            Some(sugg) => {
                push_str(&mut s, " — did you mean '");
                push_str(&mut s, sugg.as_str());
                push_str(&mut s, "'?");
            },
            None => {},
        }
        s
    }
}

/// The description of a mismatch:
/// `DataView '<dv>' field '<f>' not found — available: <c1, c2, ...>`,
/// followed by ` — did you mean '<s>'?` when there is a suggestion.
pub open spec fn mismatch_text(m: MismatchView) -> Seq<char> {
    "DataView '"@ + m.dataview_name + "' field '"@ + m.field_name + "' not found — available: "@ + join(
        m.available_columns,
        ", "@,
    ) + match m.suggestion {
        Some(s) => " — did you mean '"@ + s + "'?"@,
        None => Seq::empty(),
    }
}

/// Compare schema field names against actual query column names: one
/// mismatch, in field order, for every field that is not a column.
pub fn check_fields_against_columns(
    dataview_name: &str,
    schema_fields: &[String],
    actual_columns: &[String],
) -> (mismatches: Vec<SchemaMismatch>)
    ensures
        mismatches@.len() == expected_mismatches(dataview_name@, strings_view(schema_fields@), strings_view(actual_columns@)).len(),
        forall|k: int| 0 <= k < mismatches@.len() ==> #[trigger] mismatches@[k].view() == expected_mismatches(
            dataview_name@,
            strings_view(schema_fields@),
            strings_view(actual_columns@),
        )[k],
{
    let ghost fields = strings_view(schema_fields@);
    let ghost cols = strings_view(actual_columns@);
    let mut mismatches: Vec<SchemaMismatch> = Vec::new();
    let mut i: usize = 0;
    while i < schema_fields.len()
        invariant
            fields == strings_view(schema_fields@),
            cols == strings_view(actual_columns@),
            i <= schema_fields@.len(),
            mismatches@.len() == expected_mismatches(dataview_name@, fields.take(i as int), cols).len(),
            forall|k: int| 0 <= k < mismatches@.len() ==> #[trigger] mismatches@[k].view() == expected_mismatches(
                dataview_name@,
                fields.take(i as int),
                cols,
            )[k],
        decreases schema_fields@.len() - i,
    {
        proof {
            assert(fields.take(i + 1).drop_last() =~= fields.take(i as int));
            assert(fields.take(i + 1).last() == schema_fields@[i as int]@);
        }
        let field = &schema_fields[i];
        let mut found = false;
        let mut j: usize = 0;
        while j < actual_columns.len()
            invariant
                cols == strings_view(actual_columns@),
                j <= actual_columns@.len(),
                found == cols.take(j as int).contains(field@),
            decreases actual_columns@.len() - j,
        {
            proof {
                assert(cols.take(j + 1) =~= cols.take(j as int).push(cols[j as int]));
                lemma_push_contains_seq(cols.take(j as int), cols[j as int], field@);
            }
            if str_eq(actual_columns[j].as_str(), field.as_str()) {
                found = true;
            }
            j = j + 1;
        }
        proof {
            assert(cols.take(actual_columns@.len() as int) =~= cols);
        }
        if !found {
            let suggestion = suggest_column(field.as_str(), actual_columns);
            let cols_copy = copy_strings(actual_columns);
            mismatches.push(
                SchemaMismatch {
                    dataview_name: dataview_name.to_owned(),
                    field_name: field.clone(),
                    available_columns: cols_copy,
                    suggestion,
                },
            );
            proof {
                assert(strings_view(cols_copy@) =~= cols);
            }
        }
        i = i + 1;
    }
    proof {
        assert(fields.take(schema_fields@.len() as int) =~= fields);
    }
    mismatches
}

/// The mismatches for `fields`, in order: each field that is not among
/// `cols`, with all the columns and the suggestion for it.
pub open spec fn expected_mismatches(dv: Seq<char>, fields: Seq<Seq<char>>, cols: Seq<Seq<char>>) -> Seq<MismatchView>
    decreases fields.len(),
{
    if fields.len() == 0 {
        Seq::empty()
    } else {
        let prev = expected_mismatches(dv, fields.drop_last(), cols);
        let f = fields.last();
        if cols.contains(f) {
            prev
        } else {
            prev.push(
                MismatchView {
                    dataview_name: dv,
                    field_name: f,
                    available_columns: cols,
                    suggestion: suggestion_spec(f, cols),
                },
            )
        }
    }
}

proof fn lemma_push_contains_seq(s: Seq<Seq<char>>, x: Seq<char>, j: Seq<char>)
    ensures
        s.push(x).contains(j) <==> (s.contains(j) || x == j),
{
    let p = s.push(x);
    if s.contains(j) {
        let w = choose|w: int| 0 <= w < s.len() && s[w] == j;
        assert(p[w] == j);
    }
    if x == j {
        assert(p[s.len() as int] == j);
    }
    if p.contains(j) {
        let w = choose|w: int| 0 <= w < p.len() && p[w] == j;
        if w < s.len() {
            assert(s[w] == j);
        }
    }
}

fn copy_strings(v: &[String]) -> (r: Vec<String>)
    ensures
        r@ == v@,
{
    let mut r: Vec<String> = Vec::new();
    let mut i: usize = 0;
    while i < v.len()
        invariant
            i <= v@.len(),
            r@ == v@.take(i as int),
        decreases v@.len() - i,
    {
        r.push(v[i].clone());
        proof {
            assert(v@.take(i + 1) =~= v@.take(i as int).push(v@[i as int]));
        }
        i = i + 1;
    }
    proof {
        assert(v@.take(v@.len() as int) =~= v@);
    }
    r
}

/// Suggest a column name using Levenshtein distance (max distance 2).
fn suggest_column(unknown: &str, columns: &[String]) -> (r: Option<String>)
    ensures
        opt_view(r) == suggestion_spec(unknown@, strings_view(columns@)),
{
    let ghost cols = strings_view(columns@);
    let mut best: Option<usize> = None;
    let mut best_dist: usize = 0;
    let mut i: usize = 0;
    while i < columns.len()
        invariant
            cols == strings_view(columns@),
            i <= columns@.len(),
            match best_column(unknown@, cols.take(i as int)) {
                None => best is None,
                Some(p) => best is Some && best->0 < i && p.0 == cols[best->0 as int] && p.1 == best_dist,
            },
        decreases columns@.len() - i,
    {
        proof {
            assert(cols.take(i + 1).drop_last() =~= cols.take(i as int));
            assert(cols.take(i + 1).last() == columns@[i as int]@);
        }
        let dist = levenshtein(unknown, columns[i].as_str());
        if dist <= 2 {
            if best.is_none() || dist < best_dist {
                best = Some(i);
                best_dist = dist;
            }
        }
        i = i + 1;
    }
    proof {
        assert(cols.take(columns@.len() as int) =~= cols);
    }
    match best {
        Some(k) => Some(columns[k].clone()),
        None => None,
    }
}

/// Edit distance between two strings, over characters.
pub fn levenshtein(a: &str, b: &str) -> (d: usize)
    ensures
        d == levenshtein_spec(a@, b@),
{
    let av = crate::text::chars_of(a);
    let bv = crate::text::chars_of(b);
    let n = av.len();
    let m = bv.len();
    let mut prev: Vec<usize> = Vec::new();
    prev.push(0);
    let mut j: usize = 0;
    while j < m
        invariant
            m == bv@.len(),
            j <= m,
            prev@.len() == j + 1,
            forall|k: int| 0 <= k <= j ==> prev@[k] == levenshtein_spec(av@.take(0), bv@.take(k)),
        decreases m - j,
    {
        proof {
            assert(av@.take(0).len() == 0);
        }
        prev.push(j + 1);
        j = j + 1;
    }
    let mut i: usize = 0;
    while i < n
        invariant
            n == av@.len(),
            m == bv@.len(),
            i <= n,
            prev@.len() == m + 1,
            forall|k: int| 0 <= k <= m ==> prev@[k] == levenshtein_spec(av@.take(i as int), bv@.take(k)),
        decreases n - i,
    {
        let mut cur: Vec<usize> = Vec::new();
        proof {
            assert(bv@.take(0).len() == 0);
        }
        cur.push(i + 1);
        let mut j: usize = 0;
        while j < m
            invariant
                n == av@.len(),
                m == bv@.len(),
                i < n,
                j <= m,
                prev@.len() == m + 1,
                cur@.len() == j + 1,
                forall|k: int| 0 <= k <= m ==> prev@[k] == levenshtein_spec(av@.take(i as int), bv@.take(k)),
                forall|k: int| 0 <= k <= j ==> cur@[k] == levenshtein_spec(av@.take(i + 1), bv@.take(k)),
            decreases m - j,
        {
            let cost: u128 = if av[i] == bv[j] { 0 } else { 1 };
            proof {
                let ai = av@.take(i + 1);
                let bj = bv@.take(j + 1);
                assert(ai.drop_last() =~= av@.take(i as int));
                assert(bj.drop_last() =~= bv@.take(j as int));
                assert(ai.last() == av@[i as int]);
                assert(bj.last() == bv@[j as int]);
                lemma_levenshtein_bounded(ai, bj);
            }
            let del: u128 = prev[j + 1] as u128 + 1;
            let ins: u128 = cur[j] as u128 + 1;
            let sub: u128 = prev[j] as u128 + cost;
            let mut best: u128 = if del < ins { del } else { ins };
            if sub < best {
                best = sub;
            }
            cur.push(best as usize);
            j = j + 1;
        }
        prev = cur;
        i = i + 1;
    }
    proof {
        assert(av@.take(n as int) =~= av@);
        assert(bv@.take(m as int) =~= bv@);
    }
    prev[m]
}

proof fn lemma_levenshtein_bounded(a: Seq<char>, b: Seq<char>)
    ensures
        levenshtein_spec(a, b) <= if a.len() < b.len() { b.len() } else { a.len() },
    decreases a.len() + b.len(),
{
    if a.len() > 0 && b.len() > 0 {
        lemma_levenshtein_bounded(a.drop_last(), b.drop_last());
    }
}

/// Format all mismatches into a single error message for startup failure.
pub fn format_introspection_errors(mismatches: &[SchemaMismatch]) -> (s: String)
    ensures
        s@ == introspection_errors_text(Seq::new(mismatches@.len(), |i: int| mismatches@[i].view())),
{
    let ghost views = Seq::new(mismatches@.len(), |i: int| mismatches@[i].view());
    let mut s = String::new();
    if mismatches.len() == 1 {
        push_str(&mut s, "schema introspection failed: ");
        let t = mismatches[0].to_text();
        push_str(&mut s, t.as_str());
    } else {
        push_str(&mut s, "schema introspection failed — ");
        let n = decimal_string(mismatches.len() as u64);
        push_str(&mut s, n.as_str());
        push_str(&mut s, " mismatches found:\n");
        let mut details: Vec<String> = Vec::new();
        let mut i: usize = 0;
        while i < mismatches.len()
            invariant
                views == Seq::new(mismatches@.len(), |i: int| mismatches@[i].view()),
                i <= mismatches@.len(),
                details@.len() == i,
                forall|k: int| 0 <= k < i ==> #[trigger] details@[k]@ == "  "@ + mismatch_text(views[k]),
            decreases mismatches@.len() - i,
        {
            let mut line = String::new();
            push_str(&mut line, "  ");
            let t = mismatches[i].to_text();
            push_str(&mut line, t.as_str());
            details.push(line);
            i = i + 1;
        }
        let joined = join_strings(&details, "\n");
        proof {
            assert(strings_view(details@) =~= Seq::new(views.len(), |k: int| "  "@ + mismatch_text(views[k])));
        }
        push_str(&mut s, joined.as_str());
    }
    s
}

/// The startup failure message: with exactly one mismatch,
/// `schema introspection failed: <mismatch>`; otherwise
/// `schema introspection failed — <n> mismatches found:` and one line
/// `  <mismatch>` per mismatch.
pub open spec fn introspection_errors_text(ms: Seq<MismatchView>) -> Seq<char> {
    if ms.len() == 1 {
        "schema introspection failed: "@ + mismatch_text(ms[0])
    } else {
        "schema introspection failed — "@ + decimal(ms.len()) + " mismatches found:\n"@ + join(
            Seq::new(ms.len(), |k: int| "  "@ + mismatch_text(ms[k])),
            "\n"@,
        )
    }
}

} // verus!
