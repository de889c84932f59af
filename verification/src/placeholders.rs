//! Rewriting of positional SQL placeholders (`?` and `$N`) into the
//! engine's named form `$_pN`.
//!
//! The rewriter works character by character. A `?` outside a
//! single-quoted string literal becomes the next placeholder in sequence;
//! `$` followed by ASCII decimal digits (and not preceded by an ASCII
//! identifier character) keeps its own number. Inside a literal nothing is
//! rewritten, and a doubled quote `''` stays inside the literal. Every
//! other character, non-ASCII ones included, is copied unchanged. The
//! returned count is the highest placeholder number produced.

use vstd::prelude::*;
use vstd::string::*;
use crate::text::{chars_of, decimal, push_char, push_decimal};

verus! {

/// ASCII decimal digit.
pub open spec fn is_digit_char(c: char) -> bool {
    '0' <= c <= '9'
}

/// Character that may continue an identifier: ASCII letter, digit or `_`.
pub open spec fn is_ident_char(c: char) -> bool {
    is_digit_char(c) || ('A' <= c <= 'Z') || ('a' <= c <= 'z') || c == '_'
}

/// End of the run of digits that starts at `j`.
pub open spec fn digits_end(b: Seq<char>, j: int) -> int
    decreases b.len() - j,
{
    if 0 <= j < b.len() && is_digit_char(b[j]) {
        digits_end(b, j + 1)
    } else {
        j
    }
}

/// Numeric value of the decimal digits `b[s..e]`.
pub open spec fn digits_value(b: Seq<char>, s: int, e: int) -> nat
    decreases e - s,
{
    if e <= s {
        0
    } else {
        digits_value(b, s, e - 1) * 10 + (b[e - 1] as int - 48) as nat
    }
}

/// The text that stands for placeholder number `n`: `$_p` and `n` in decimal.
pub open spec fn placeholder_text(n: nat) -> Seq<char> {
    seq!['$', '_', 'p'] + decimal(n)
}

/// A numbered placeholder `$N` at position `i`: where its digits end, and
/// its number. `N` must be at least 1 and fit in a `usize`; a `$` right
/// after an identifier character is never a placeholder.
pub open spec fn numbered_at(b: Seq<char>, i: int) -> Option<(int, nat)> {
    if 0 <= i < b.len() && b[i] == '$' && !(i > 0 && is_ident_char(b[i - 1])) {
        let j = digits_end(b, i + 1);
        let n = digits_value(b, i + 1, j);
        if j > i + 1 && 1 <= n <= usize::MAX {
            Some((j, n))
        } else {
            None
        }
    } else {
        None
    }
}

/// Rewrites `b[i..]` given whether a string literal is open and the
/// highest placeholder number so far; gives the rewritten text and the
/// final highest number.
pub open spec fn rewrite_from(b: Seq<char>, i: int, in_string: bool, count: nat) -> (Seq<char>, nat)
    decreases b.len() - i,
{
    if i < 0 || i >= b.len() {
        (Seq::empty(), count)
    } else if in_string {
        if b[i] == '\'' && i + 1 < b.len() && b[i + 1] == '\'' {
            let r = rewrite_from(b, i + 2, true, count);
            (seq!['\'', '\''] + r.0, r.1)
        } else if b[i] == '\'' {
            let r = rewrite_from(b, i + 1, false, count);
            (seq!['\''] + r.0, r.1)
        } else {
            let r = rewrite_from(b, i + 1, true, count);
            (seq![b[i]] + r.0, r.1)
        }
    } else if b[i] == '\'' {
        let r = rewrite_from(b, i + 1, true, count);
        (seq!['\''] + r.0, r.1)
    } else if b[i] == '?' {
        let r = rewrite_from(b, i + 1, false, count + 1);
        (placeholder_text(count + 1) + r.0, r.1)
    } else if numbered_at(b, i) is Some {
        let (j, n) = numbered_at(b, i)->0;
        proof {
            lemma_digits_end(b, i + 1);
        }
        let r = rewrite_from(b, j, false, if n > count { n } else { count });
        (placeholder_text(n) + r.0, r.1)
    } else {
        let r = rewrite_from(b, i + 1, false, count);
        (seq![b[i]] + r.0, r.1)
    }
}

/// The rewritten SQL and the placeholder count for the text `b`.
pub open spec fn rewritten(b: Seq<char>) -> (Seq<char>, nat) {
    rewrite_from(b, 0, false, 0)
}

/// A run of digits starting at `j` ends at or after `j`, and within `b`
/// when it starts there.
pub proof fn lemma_digits_end(b: Seq<char>, j: int)
    requires
        0 <= j,
    ensures
        j <= digits_end(b, j),
        digits_end(b, j) <= b.len() || digits_end(b, j) == j,
    decreases b.len() - j,
{
    if 0 <= j < b.len() && is_digit_char(b[j]) {
        lemma_digits_end(b, j + 1);
    }
}

proof fn lemma_count_grows(b: Seq<char>, i: int, in_string: bool, count: nat)
    ensures
        count <= rewrite_from(b, i, in_string, count).1,
    decreases b.len() - i,
{
    if i < 0 || i >= b.len() {
    } else if in_string {
        if b[i] == '\'' && i + 1 < b.len() && b[i + 1] == '\'' {
            lemma_count_grows(b, i + 2, true, count);
        } else if b[i] == '\'' {
            lemma_count_grows(b, i + 1, false, count);
        } else {
            lemma_count_grows(b, i + 1, true, count);
        }
    } else if b[i] == '\'' {
        lemma_count_grows(b, i + 1, true, count);
    } else if b[i] == '?' {
        lemma_count_grows(b, i + 1, false, (count + 1) as nat);
    } else if numbered_at(b, i) is Some {
        let (j, n) = numbered_at(b, i)->0;
        lemma_digits_end(b, i + 1);
        lemma_count_grows(b, j, false, if n > count { n } else { count });
    } else {
        lemma_count_grows(b, i + 1, false, count);
    }
}

proof fn lemma_plain_suffix_unchanged(b: Seq<char>, i: int, in_string: bool, count: nat)
    requires
        0 <= i <= b.len(),
        forall|k: int| 0 <= k < b.len() ==> b[k] != '?' && b[k] != '$',
    ensures
        rewrite_from(b, i, in_string, count) == (b.skip(i), count),
    decreases b.len() - i,
{
    if i < b.len() {
        if in_string && b[i] == '\'' && i + 1 < b.len() && b[i + 1] == '\'' {
            lemma_plain_suffix_unchanged(b, i + 2, true, count);
            assert(seq!['\'', '\''] + b.skip(i + 2) =~= b.skip(i));
        } else if in_string && b[i] == '\'' {
            lemma_plain_suffix_unchanged(b, i + 1, false, count);
            assert(seq!['\''] + b.skip(i + 1) =~= b.skip(i));
        } else if in_string {
            lemma_plain_suffix_unchanged(b, i + 1, true, count);
            assert(seq![b[i]] + b.skip(i + 1) =~= b.skip(i));
        } else if b[i] == '\'' {
            lemma_plain_suffix_unchanged(b, i + 1, true, count);
            assert(seq!['\''] + b.skip(i + 1) =~= b.skip(i));
        } else {
            assert(numbered_at(b, i) is None);
            lemma_plain_suffix_unchanged(b, i + 1, false, count);
            assert(seq![b[i]] + b.skip(i + 1) =~= b.skip(i));
        }
    } else {
        assert(b.skip(i) =~= Seq::<char>::empty());
    }
}

/// SQL without `?` and `$` has no placeholders and is carried over
/// unchanged (quotes, literals and non-ASCII text included).
pub proof fn law_sql_without_placeholders_is_unchanged(b: Seq<char>)
    requires
        forall|k: int| 0 <= k < b.len() ==> b[k] != '?' && b[k] != '$',
    ensures
        rewritten(b) == (b, 0nat),
{
    lemma_plain_suffix_unchanged(b, 0, false, 0);
}

/// The decimal digits of `n` are ASCII digits.
proof fn lemma_decimal_digits(n: nat)
    ensures
        decimal(n).len() >= 1,
        forall|k: int| 0 <= k < decimal(n).len() ==> is_digit_char(#[trigger] decimal(n)[k]),
    decreases n,
{
    if n >= 10 {
        lemma_decimal_digits(n / 10);
        assert forall|k: int| 0 <= k < decimal(n).len() implies is_digit_char(
            #[trigger] decimal(n)[k],
        ) by {
            if k < decimal(n / 10).len() {
                assert(decimal(n)[k] == decimal(n / 10)[k]);
            }
        }
    }
}

/// Read back, the decimal digits of `n` stand for `n`.
proof fn lemma_decimal_value(b: Seq<char>, s: int, n: nat)
    requires
        0 <= s,
        s + decimal(n).len() <= b.len(),
        b.subrange(s, s + decimal(n).len()) == decimal(n),
    ensures
        digits_value(b, s, s + decimal(n).len()) == n,
    decreases n,
{
    let d = decimal(n);
    let e = s + d.len();
    if n < 10 {
        assert(b[s] == d[0]);
        assert(digits_value(b, s, s) == 0);
    } else {
        let h = decimal(n / 10);
        assert(d == h.push(crate::text::digit_char(n % 10)));
        assert(b.subrange(s, s + h.len()) =~= h) by {
            assert forall|k: int| 0 <= k < h.len() implies b.subrange(s, s + h.len())[k] == h[k] by {
                assert(b.subrange(s, e)[k] == d[k]);
            }
        }
        lemma_decimal_value(b, s, n / 10);
        assert(b[e - 1] == d[d.len() - 1]);
    }
}

/// A run of digits from `j` that stops at `e` ends at `e`.
proof fn lemma_digits_end_at(b: Seq<char>, j: int, e: int)
    requires
        0 <= j <= e <= b.len(),
        forall|k: int| j <= k < e ==> is_digit_char(#[trigger] b[k]),
        e == b.len() || !is_digit_char(b[e]),
    ensures
        digits_end(b, j) == e,
    decreases e - j,
{
    if j < e {
        lemma_digits_end_at(b, j + 1, e);
    }
}

/// Within `p`, a run of digits ends where it ends in `p + t` when `t`
/// does not start with a digit.
proof fn lemma_digits_end_append(p: Seq<char>, t: Seq<char>, j: int)
    requires
        0 <= j <= p.len(),
        t.len() > 0,
        !is_digit_char(t[0]),
    ensures
        digits_end(p + t, j) == digits_end(p, j),
        digits_end(p, j) <= p.len(),
    decreases p.len() - j,
{
    let b = p + t;
    if j < p.len() {
        assert(b[j] == p[j]);
        if is_digit_char(p[j]) {
            lemma_digits_end_append(p, t, j + 1);
        }
    } else {
        assert(b[j] == t[0]);
    }
}

/// The value of digits lying within `p` is the same in `p + t`.
proof fn lemma_digits_value_append(p: Seq<char>, t: Seq<char>, s: int, e: int)
    requires
        0 <= s,
        e <= p.len(),
    ensures
        digits_value(p + t, s, e) == digits_value(p, s, e),
    decreases e - s,
{
    if e > s {
        assert((p + t)[e - 1] == p[e - 1]);
        lemma_digits_value_append(p, t, s, e - 1);
    }
}

/// Text without a single quote.
pub open spec fn quote_free(p: Seq<char>) -> bool {
    forall|k: int| 0 <= k < p.len() ==> p[k] != '\''
}

/// Rewriting `p + t` runs through `p` exactly as rewriting `p` alone does,
/// when `p` has no quote and `t` does not start with a digit; then it goes
/// on into `t` with the count `p` ended with.
proof fn lemma_rewrite_append(p: Seq<char>, t: Seq<char>, i: int, c: nat)
    requires
        quote_free(p),
        0 <= i <= p.len(),
        t.len() > 0,
        !is_digit_char(t[0]),
    ensures
        ({
            let a = rewrite_from(p, i, false, c);
            let r = rewrite_from(p + t, p.len() as int, false, a.1);
            rewrite_from(p + t, i, false, c) == (a.0 + r.0, r.1)
        }),
    decreases p.len() - i,
{
    let b = p + t;
    if i == p.len() {
        let a = rewrite_from(p, i, false, c);
        assert(a.0 =~= Seq::<char>::empty());
        assert(a.0 + rewrite_from(b, i, false, c).0 =~= rewrite_from(b, i, false, c).0);
    } else {
        assert(b[i] == p[i]);
        assert(p[i] != '\'');
        if p[i] == '?' {
            lemma_rewrite_append(p, t, i + 1, c + 1);
            let a1 = rewrite_from(p, i + 1, false, c + 1);
            let r = rewrite_from(b, p.len() as int, false, a1.1);
            assert(placeholder_text(c + 1) + (a1.0 + r.0) =~= (placeholder_text(c + 1) + a1.0)
                + r.0);
        } else {
            lemma_digits_end_append(p, t, i + 1);
            let je = digits_end(p, i + 1);
            lemma_digits_value_append(p, t, i + 1, je);
            if i > 0 {
                assert(b[i - 1] == p[i - 1]);
            }
            assert(numbered_at(b, i) == numbered_at(p, i));
            if numbered_at(p, i) is Some {
                let (j, n) = numbered_at(p, i)->0;
                lemma_digits_end(p, i + 1);
                let m = if n > c { n } else { c };
                lemma_rewrite_append(p, t, j, m);
                let a1 = rewrite_from(p, j, false, m);
                let r = rewrite_from(b, p.len() as int, false, a1.1);
                assert(placeholder_text(n) + (a1.0 + r.0) =~= (placeholder_text(n) + a1.0) + r.0);
            } else {
                lemma_rewrite_append(p, t, i + 1, c);
                let a1 = rewrite_from(p, i + 1, false, c);
                let r = rewrite_from(b, p.len() as int, false, a1.1);
                assert(seq![p[i]] + (a1.0 + r.0) =~= (seq![p[i]] + a1.0) + r.0);
            }
        }
    }
}

/// A numbered placeholder `$N` (N at least 1) outside any literal and not
/// right after an identifier character is rewritten to `$_pN` with its own
/// number, whatever placeholders came before it: the rewriting of the text
/// before it is followed by `$_pN`. When it ends the text, the count is
/// the larger of the count before it and N.
pub proof fn law_numbered_placeholder_keeps_its_number(p: Seq<char>, n: nat, q: Seq<char>)
    requires
        quote_free(p),
        p.len() == 0 || !is_ident_char(p.last()),
        1 <= n <= usize::MAX,
        q.len() == 0 || !is_digit_char(q[0]),
    ensures
        ({
            let s = p + seq!['$'] + decimal(n) + q;
            let before = rewritten(p);
            let head = before.0 + placeholder_text(n);
            &&& head.len() <= rewritten(s).0.len()
            &&& rewritten(s).0.subrange(0, head.len() as int) == head
            &&& rewritten(s).1 >= n
            &&& rewritten(s).1 >= before.1
            &&& q.len() == 0 ==> rewritten(s) == (head, if n > before.1 { n } else { before.1 })
        }),
{
    let t = seq!['$'] + decimal(n) + q;
    let s = p + t;
    assert(s =~= p + seq!['$'] + decimal(n) + q);
    assert(t[0] == '$');
    lemma_rewrite_append(p, t, 0, 0);
    let before = rewritten(p);
    let pl = p.len() as int;
    let d = decimal(n);
    lemma_decimal_digits(n);
    let e = pl + 1 + d.len();
    assert forall|k: int| pl + 1 <= k < e implies is_digit_char(#[trigger] s[k]) by {
        assert(s[k] == d[k - pl - 1]);
    }
    if q.len() > 0 {
        assert(s[e] == q[0]);
    }
    lemma_digits_end_at(s, pl + 1, e);
    assert(s.subrange(pl + 1, e) =~= d);
    lemma_decimal_value(s, pl + 1, n);
    assert(s[pl] == '$');
    if pl > 0 {
        assert(s[pl - 1] == p.last());
    }
    assert(numbered_at(s, pl) == Some((e, n)));
    let m = if n > before.1 { n } else { before.1 };
    let r = rewrite_from(s, e, false, m);
    lemma_count_grows(s, e, false, m);
    assert(rewrite_from(s, pl, false, before.1) == (placeholder_text(n) + r.0, r.1));
    assert(rewritten(s).0 =~= before.0 + placeholder_text(n) + r.0);
    assert(rewritten(s).0.subrange(0, (before.0 + placeholder_text(n)).len() as int)
        =~= before.0 + placeholder_text(n));
    if q.len() == 0 {
        assert(e == s.len());
        assert(r.0 =~= Seq::<char>::empty());
        assert(rewritten(s).0 =~= before.0 + placeholder_text(n));
    }
}

/// A `?` outside any literal becomes the placeholder numbered one more
/// than the count of the text before it, and raises the count by one.
pub proof fn law_question_mark_takes_the_next_number(p: Seq<char>)
    requires
        quote_free(p),
    ensures
        rewritten(p + seq!['?']) == (
            rewritten(p).0 + placeholder_text(rewritten(p).1 + 1),
            rewritten(p).1 + 1,
        ),
{
    let t = seq!['?'];
    lemma_rewrite_append(p, t, 0, 0);
    let s = p + t;
    let c = rewritten(p).1;
    assert(s[p.len() as int] == '?');
    assert(rewrite_from(s, s.len() as int, false, c + 1).0 =~= Seq::<char>::empty());
    assert(rewrite_from(s, p.len() as int, false, c) == (placeholder_text(c + 1) + Seq::<
        char,
    >::empty(), c + 1));
    assert(placeholder_text(c + 1) + Seq::<char>::empty() =~= placeholder_text(c + 1));
}

/// Reads the digits that follow `$` at `i`: where they end, and their
/// value when it fits in a `usize`.
fn read_number(bytes: &Vec<char>, i: usize) -> (res: (usize, Option<usize>))
    requires
        i < bytes.len(),
    ensures
        res.0 as int == digits_end(bytes@, i + 1),
        res.0 <= bytes.len(),
        match res.1 {
            Some(n) => n == digits_value(bytes@, i + 1, res.0 as int),
            None => digits_value(bytes@, i + 1, res.0 as int) > usize::MAX,
        },
{
    let mut j: usize = i + 1;
    let mut n: usize = 0;
    let mut fits = true;
    while j < bytes.len() && '0' <= bytes[j] && bytes[j] <= '9'
        invariant
            i + 1 <= j <= bytes.len(),
            digits_end(bytes@, i + 1) == digits_end(bytes@, j as int),
            fits ==> n == digits_value(bytes@, i + 1, j as int),
            !fits ==> digits_value(bytes@, i + 1, j as int) > usize::MAX,
        decreases bytes.len() - j,
    {
        let d: usize = (bytes[j] as u32 - 48) as usize;
        if fits {
            match n.checked_mul(10) {
                Some(m) => match m.checked_add(d) {
                    Some(v) => {
                        n = v;
                    },
                    None => {
                        fits = false;
                    },
                },
                None => {
                    fits = false;
                },
            }
        }
        j = j + 1;
    }
    if fits {
        (j, Some(n))
    } else {
        (j, None)
    }
}

/// Rewrites every `?` and every `$N` outside single-quoted literals into
/// `$_pK`, and returns the rewritten SQL with the number of placeholders
/// (the highest number used). Every character that is not part of a
/// placeholder is copied unchanged.
pub fn rewrite_positional_placeholders(sql: &str) -> (res: (String, usize))
    requires
        rewritten(sql@).1 <= usize::MAX,
    ensures
        res.0@ == rewritten(sql@).0,
        res.1 == rewritten(sql@).1,
{
    let bytes = chars_of(sql);
    let ghost b = bytes@;
    let ghost total = rewritten(b);
    let mut out = String::new();
    let mut count: usize = 0;
    let mut in_string = false;
    let mut i: usize = 0;
    while i < bytes.len()
        invariant
            b == bytes@,
            total == rewritten(b),
            total.1 <= usize::MAX,
            i <= bytes.len(),
            out@ + rewrite_from(b, i as int, in_string, count as nat).0 == total.0,
            rewrite_from(b, i as int, in_string, count as nat).1 == total.1,
        decreases bytes.len() - i,
    {
        let c = bytes[i];
        let ghost before = out@;
        if in_string {
            if c == '\'' && i + 1 < bytes.len() && bytes[i + 1] == '\'' {
                push_char(&mut out, '\'');
                push_char(&mut out, '\'');
                proof {
                    let r = rewrite_from(b, i + 2, true, count as nat);
                    assert(out@ + r.0 =~= before + (seq!['\'', '\''] + r.0));
                }
                i = i + 2;
            } else if c == '\'' {
                push_char(&mut out, '\'');
                proof {
                    let r = rewrite_from(b, i + 1, false, count as nat);
                    assert(out@ + r.0 =~= before + (seq!['\''] + r.0));
                }
                in_string = false;
                i = i + 1;
            } else {
                push_char(&mut out, c);
                proof {
                    let r = rewrite_from(b, i + 1, true, count as nat);
                    assert(out@ + r.0 =~= before + (seq![b[i as int]] + r.0));
                }
                i = i + 1;
            }
        } else if c == '\'' {
            push_char(&mut out, '\'');
            proof {
                let r = rewrite_from(b, i + 1, true, count as nat);
                assert(out@ + r.0 =~= before + (seq!['\''] + r.0));
            }
            in_string = true;
            i = i + 1;
        } else if c == '?' {
            proof {
                lemma_count_grows(b, i + 1, false, (count + 1) as nat);
            }
            count = count + 1;
            push_char(&mut out, '$');
            push_char(&mut out, '_');
            push_char(&mut out, 'p');
            push_decimal(&mut out, count as u64);
            proof {
                let r = rewrite_from(b, i + 1, false, count as nat);
                assert(out@ + r.0 =~= before + (placeholder_text(count as nat) + r.0));
            }
            i = i + 1;
        } else {
            let mut done = false;
            if c == '$' && !(i > 0 && ('0' <= bytes[i - 1] && bytes[i - 1] <= '9' || 'A'
                <= bytes[i - 1] && bytes[i - 1] <= 'Z' || 'a' <= bytes[i - 1] && bytes[i - 1]
                <= 'z' || bytes[i - 1] == '_')) {
                let (j, num) = read_number(&bytes, i);
                if j > i + 1 {
                    match num {
                        Some(n) => {
                            if n >= 1 {
                                proof {
                                    assert(numbered_at(b, i as int) == Some((j as int, n as nat)));
                                    lemma_count_grows(
                                        b,
                                        j as int,
                                        false,
                                        if n > count { n as nat } else { count as nat },
                                    );
                                }
                                if n > count {
                                    count = n;
                                }
                                push_char(&mut out, '$');
                                push_char(&mut out, '_');
                                push_char(&mut out, 'p');
                                push_decimal(&mut out, n as u64);
                                proof {
                                    let r = rewrite_from(b, j as int, false, count as nat);
                                    assert(out@ + r.0 =~= before + (placeholder_text(n as nat)
                                        + r.0));
                                }
                                i = j;
                                done = true;
                            } else {
                                assert(numbered_at(b, i as int) is None);
                            }
                        },
                        None => {
                            assert(numbered_at(b, i as int) is None);
                        },
                    }
                } else {
                    assert(numbered_at(b, i as int) is None);
                }
            } else {
                assert(numbered_at(b, i as int) is None);
            }
            if !done {
                push_char(&mut out, c);
                proof {
                    let r = rewrite_from(b, i + 1, false, count as nat);
                    assert(out@ + r.0 =~= before + (seq![b[i as int]] + r.0));
                }
                i = i + 1;
            }
        }
    }
    proof {
        assert(out@ + Seq::<char>::empty() =~= out@);
    }
    (out, count)
}

} // verus!
