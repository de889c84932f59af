//! Text primitives shared by the rest of the crate: character views of
//! strings, building strings, decimal rendering and simple comparisons.

use vstd::prelude::*;
use vstd::string::*;

verus! {

/// The decimal digit character for `d` (`d < 10`).
pub open spec fn digit_char(d: nat) -> char {
    if d == 0 { '0' }
    else if d == 1 { '1' }
    else if d == 2 { '2' }
    else if d == 3 { '3' }
    else if d == 4 { '4' }
    else if d == 5 { '5' }
    else if d == 6 { '6' }
    else if d == 7 { '7' }
    else if d == 8 { '8' }
    else { '9' }
}

/// Decimal rendering of a natural number, most significant digit first,
/// without leading zeros (zero renders as `"0"`).
pub open spec fn decimal(n: nat) -> Seq<char>
    decreases n,
{
    if n < 10 {
        seq![digit_char(n)]
    } else {
        decimal(n / 10).push(digit_char(n % 10))
    }
}

/// Whether `p` is a prefix of `s`.
pub open spec fn has_prefix(s: Seq<char>, p: Seq<char>) -> bool {
    p.len() <= s.len() && s.subrange(0, p.len() as int) =~= p
}

/// Whether `p` is a suffix of `s`.
pub open spec fn has_suffix(s: Seq<char>, p: Seq<char>) -> bool {
    p.len() <= s.len() && s.subrange(s.len() - p.len(), s.len() as int) =~= p
}

/// Whether `p` occurs in `s` starting at position `i`.
pub open spec fn occurs_at(s: Seq<char>, p: Seq<char>, i: int) -> bool {
    0 <= i && i + p.len() <= s.len() && s.subrange(i, i + p.len()) == p
}

/// Whether `p` occurs somewhere in `s` (`str::contains`).
pub open spec fn contains_seq(s: Seq<char>, p: Seq<char>) -> bool {
    exists|i: int| occurs_at(s, p, i)
}

/// Whether `p` occurs in `s` at position `i`.
fn matches_at(s: &[char], p: &[char], i: usize) -> (r: bool)
    requires
        i + p@.len() <= s@.len(),
    ensures
        r == occurs_at(s@, p@, i as int),
{
    let sl = s.len();
    let mut k: usize = 0;
    while k < p.len()
        invariant
            sl == s@.len(),
            i + p@.len() <= s@.len(),
            k <= p@.len(),
            forall|j: int| 0 <= j < k ==> s@[i + j] == p@[j],
        decreases p.len() - k,
    {
        if s[i + k] != p[k] {
            proof {
                assert(s@.subrange(i as int, i + p@.len())[k as int] != p@[k as int]);
            }
            return false;
        }
        k = k + 1;
    }
    proof {
        assert(s@.subrange(i as int, i + p@.len()) =~= p@);
    }
    true
}

/// Whether `pat` occurs in `s`.
pub fn contains_text(s: &str, pat: &str) -> (r: bool)
    ensures
        r == contains_seq(s@, pat@),
{
    let v = chars_of(s);
    let p = chars_of(pat);
    let n = v.len();
    let m = p.len();
    if m == 0 {
        proof {
            assert(s@.subrange(0, 0) =~= pat@);
            assert(occurs_at(s@, pat@, 0));
        }
        return true;
    }
    let mut i: usize = 0;
    while m <= n && i <= n - m
        invariant
            v@ == s@,
            p@ == pat@,
            n == v@.len(),
            m == p@.len(),
            m > 0,
            forall|j: int| 0 <= j < i ==> !#[trigger] occurs_at(s@, pat@, j),
        decreases n + 1 - i,
    {
        if matches_at(v.as_slice(), p.as_slice(), i) {
            proof {
                assert(occurs_at(s@, pat@, i as int));
            }
            return true;
        }
        i = i + 1;
    }
    proof {
        assert forall|j: int| !#[trigger] occurs_at(s@, pat@, j) by {
            if j >= i {
                assert(j + m > n);
            }
        }
    }
    false
}

/// Whether `c` occurs in `s`.
pub open spec fn contains_char(s: Seq<char>, c: char) -> bool {
    exists|i: int| 0 <= i < s.len() && s[i] == c
}

/// Appends one character to a string.
#[verifier::external_body]
pub(crate) fn push_char(s: &mut String, c: char)
    ensures
        final(s)@ == old(s)@.push(c),
{
    s.push(c);
}

/// The characters of a string slice, in order.
pub fn chars_of(s: &str) -> (v: Vec<char>)
    ensures
        v@ == s@,
{
    let mut v: Vec<char> = Vec::new();
    for c in it: s.chars()
        invariant
            it.seq() == s@,
            v@ == it.seq().take(it.index() as int),
    {
        v.push(c);
    }
    v
}

/// Builds a string from a sequence of characters.
pub fn string_of(v: &[char]) -> (s: String)
    ensures
        s@ == v@,
{
    let mut s = String::new();
    let mut i: usize = 0;
    while i < v.len()
        invariant
            i <= v.len(),
            s@ == v@.take(i as int),
        decreases v.len() - i,
    {
        push_char(&mut s, v[i]);
        proof {
            assert(v@.take(i as int + 1) =~= v@.take(i as int).push(v@[i as int]));
        }
        i = i + 1;
    }
    proof {
        assert(v@.take(v.len() as int) =~= v@);
    }
    s
}

/// Appends a string slice to a string.
pub fn push_str(out: &mut String, s: &str)
    ensures
        final(out)@ == old(out)@ + s@,
{
    out.append(s);
}

/// The character for a decimal digit.
pub fn digit(d: u64) -> (c: char)
    requires
        d < 10,
    ensures
        c == digit_char(d as nat),
{
    if d == 0 { '0' }
    else if d == 1 { '1' }
    else if d == 2 { '2' }
    else if d == 3 { '3' }
    else if d == 4 { '4' }
    else if d == 5 { '5' }
    else if d == 6 { '6' }
    else if d == 7 { '7' }
    else if d == 8 { '8' }
    else { '9' }
}

/// Appends the decimal rendering of `n`.
pub fn push_decimal(out: &mut String, n: u64)
    ensures
        final(out)@ == old(out)@ + decimal(n as nat),
    decreases n,
{
    if n < 10 {
        push_char(out, digit(n));
        proof {
            assert(decimal(n as nat) =~= seq![digit_char(n as nat)]);
        }
    } else {
        push_decimal(out, n / 10);
        push_char(out, digit(n % 10));
        proof {
            assert(old(out)@ + decimal(n as nat) =~= (old(out)@ + decimal((n / 10) as nat)).push(
                digit_char((n % 10) as nat),
            ));
        }
    }
}

/// Decimal rendering of `n` as a new string.
pub fn decimal_string(n: u64) -> (s: String)
    ensures
        s@ == decimal(n as nat),
{
    let mut s = String::new();
    push_decimal(&mut s, n);
    proof {
        assert(Seq::<char>::empty() + decimal(n as nat) =~= decimal(n as nat));
    }
    s
}

/// Character-wise equality of two string slices.
pub fn str_eq(a: &str, b: &str) -> (r: bool)
    ensures
        r == (a@ == b@),
{
    let x = chars_of(a);
    let y = chars_of(b);
    slice_eq(x.as_slice(), y.as_slice())
}

/// Element-wise equality of two character slices.
pub fn slice_eq(x: &[char], y: &[char]) -> (r: bool)
    ensures
        r == (x@ == y@),
{
    if x.len() != y.len() {
        return false;
    }
    let mut i: usize = 0;
    while i < x.len()
        invariant
            x@.len() == y@.len(),
            i <= x@.len(),
            forall|j: int| 0 <= j < i ==> x@[j] == y@[j],
        decreases x.len() - i,
    {
        if x[i] != y[i] {
            return false;
        }
        i = i + 1;
    }
    proof {
        assert(x@ =~= y@);
    }
    true
}

/// Whether `p` is a prefix of `s`.
pub fn starts_with(s: &[char], p: &[char]) -> (r: bool)
    ensures
        r == has_prefix(s@, p@),
{
    if p.len() > s.len() {
        return false;
    }
    let mut i: usize = 0;
    while i < p.len()
        invariant
            p@.len() <= s@.len(),
            i <= p@.len(),
            forall|j: int| 0 <= j < i ==> s@[j] == p@[j],
        decreases p.len() - i,
    {
        if s[i] != p[i] {
            proof {
                assert(s@.subrange(0, p@.len() as int)[i as int] != p@[i as int]);
            }
            return false;
        }
        i = i + 1;
    }
    proof {
        assert(s@.subrange(0, p@.len() as int) =~= p@);
    }
    true
}

/// Whether `p` is a suffix of `s`.
pub fn ends_with(s: &[char], p: &[char]) -> (r: bool)
    ensures
        r == has_suffix(s@, p@),
{
    if p.len() > s.len() {
        return false;
    }
    let off = s.len() - p.len();
    let mut i: usize = 0;
    while i < p.len()
        invariant
            p@.len() <= s@.len(),
            s@.len() == s.len(),
            off == s@.len() - p@.len(),
            i <= p@.len(),
            forall|j: int| 0 <= j < i ==> s@[off + j] == p@[j],
        decreases p.len() - i,
    {
        if s[off + i] != p[i] {
            proof {
                assert(s@.subrange(off as int, s@.len() as int)[i as int] != p@[i as int]);
            }
            return false;
        }
        i = i + 1;
    }
    proof {
        assert(s@.subrange(off as int, s@.len() as int) =~= p@);
    }
    true
}

/// Whether `c` occurs in `s`.
pub fn has_char(s: &[char], c: char) -> (r: bool)
    ensures
        r == contains_char(s@, c),
{
    let mut i: usize = 0;
    while i < s.len()
        invariant
            i <= s@.len(),
            forall|j: int| 0 <= j < i ==> s@[j] != c,
        decreases s.len() - i,
    {
        if s[i] == c {
            return true;
        }
        i = i + 1;
    }
    false
}

/// The views of a sequence of strings.
pub open spec fn strings_view(v: Seq<String>) -> Seq<Seq<char>> {
    Seq::new(v.len(), |i: int| v[i]@)
}

/// `list` joined with `sep` between consecutive items.
pub open spec fn join(list: Seq<Seq<char>>, sep: Seq<char>) -> Seq<char>
    decreases list.len(),
{
    if list.len() == 0 {
        Seq::empty()
    } else if list.len() == 1 {
        list[0]
    } else {
        join(list.drop_last(), sep) + sep + list.last()
    }
}

/// Joins strings with a separator.
pub fn join_strings(list: &Vec<String>, sep: &str) -> (r: String)
    ensures
        r@ == join(strings_view(list@), sep@),
{
    let mut r = String::new();
    let mut i: usize = 0;
    while i < list.len()
        invariant
            i <= list@.len(),
            r@ == join(strings_view(list@).take(i as int), sep@),
        decreases list@.len() - i,
    {
        let ghost l = strings_view(list@);
        proof {
            assert(l.take(i + 1).drop_last() =~= l.take(i as int));
        }
        if i > 0 {
            push_str(&mut r, sep);
        } else {
            proof {
                assert(r@ =~= Seq::<char>::empty());
            }
        }
        push_str(&mut r, list[i].as_str());
        proof {
            if i == 0 {
                assert(l.take(1)[0] == list@[0]@);
                assert(r@ =~= l.take(1)[0]);
            }
        }
        i = i + 1;
    }
    proof {
        assert(strings_view(list@).take(list@.len() as int) =~= strings_view(list@));
    }
    r
}


/// ASCII lowercase of one character: `A`..=`Z` become `a`..=`z`, every
/// other character is kept.
pub open spec fn ascii_lower(c: char) -> char {
    if 'A' <= c <= 'Z' {
        ((c as u32) + 32) as char
    } else {
        c
    }
}

/// ASCII lowercase of a character sequence.
pub open spec fn ascii_lowercase(s: Seq<char>) -> Seq<char> {
    Seq::new(s.len(), |i: int| ascii_lower(s[i]))
}

/// Characters with the Unicode `White_Space` property, which `str::trim`
/// removes.
pub open spec fn is_white_space(c: char) -> bool {
    let n = c as u32;
    (9 <= n <= 13) || n == 32 || n == 0x85 || n == 0xA0 || n == 0x1680 || (0x2000 <= n <= 0x200A)
        || n == 0x2028 || n == 0x2029 || n == 0x202F || n == 0x205F || n == 0x3000
}

/// `s` without its leading white space.
pub open spec fn trim_start(s: Seq<char>) -> Seq<char>
    decreases s.len(),
{
    if s.len() > 0 && is_white_space(s[0]) {
        trim_start(s.drop_first())
    } else {
        s
    }
}

/// `s` without its trailing white space.
pub open spec fn trim_end(s: Seq<char>) -> Seq<char>
    decreases s.len(),
{
    if s.len() > 0 && is_white_space(s.last()) {
        trim_end(s.drop_last())
    } else {
        s
    }
}

/// `s` without leading and trailing white space.
pub open spec fn trim(s: Seq<char>) -> Seq<char> {
    trim_end(trim_start(s))
}

/// ASCII lowercase of one character.
pub fn lower_char(c: char) -> (r: char)
    ensures
        r == ascii_lower(c),
{
    if 'A' <= c && c <= 'Z' {
        let code: u32 = c as u32;
        ((code + 32) as u8) as char
    } else {
        c
    }
}

/// Whether a character is white space as `str::trim` sees it.
pub fn white_space(c: char) -> (r: bool)
    ensures
        r == is_white_space(c),
{
    let n: u32 = c as u32;
    (9 <= n && n <= 13) || n == 32 || n == 0x85 || n == 0xA0 || n == 0x1680 || (0x2000 <= n && n
        <= 0x200A) || n == 0x2028 || n == 0x2029 || n == 0x202F || n == 0x205F || n == 0x3000
}

proof fn lemma_trim_start_skip(s: Seq<char>, k: int)
    requires
        0 <= k <= s.len(),
        forall|j: int| 0 <= j < k ==> is_white_space(s[j]),
    ensures
        trim_start(s) == trim_start(s.subrange(k, s.len() as int)),
    decreases k,
{
    if k > 0 {
        assert(s.drop_first().subrange(k - 1, s.drop_first().len() as int) =~= s.subrange(
            k,
            s.len() as int,
        ));
        lemma_trim_start_skip(s.drop_first(), k - 1);
    } else {
        assert(s.subrange(0, s.len() as int) =~= s);
    }
}

proof fn lemma_trim_end_skip(s: Seq<char>, k: int)
    requires
        0 <= k <= s.len(),
        forall|j: int| k <= j < s.len() ==> is_white_space(s[j]),
    ensures
        trim_end(s) == trim_end(s.subrange(0, k)),
    decreases s.len() - k,
{
    if k < s.len() {
        assert(s.drop_last().subrange(0, k) =~= s.subrange(0, k));
        lemma_trim_end_skip(s.drop_last(), k);
    } else {
        assert(s.subrange(0, s.len() as int) =~= s);
    }
}

/// The characters of `s` without leading and trailing white space, ASCII
/// lowercased.
pub fn trim_lower(s: &str) -> (r: Vec<char>)
    ensures
        r@ == ascii_lowercase(trim(s@)),
{
    let v = chars_of(s);
    let n = v.len();
    let mut a: usize = 0;
    while a < n && white_space(v[a])
        invariant
            n == v@.len(),
            a <= n,
            forall|j: int| 0 <= j < a ==> is_white_space(v@[j]),
        decreases n - a,
    {
        a = a + 1;
    }
    let mut b: usize = n;
    while b > a && white_space(v[b - 1])
        invariant
            n == v@.len(),
            a <= b <= n,
            forall|j: int| b <= j < n ==> is_white_space(v@[j]),
        decreases b,
    {
        b = b - 1;
    }
    let ghost mid = v@.subrange(a as int, n as int);
    proof {
        lemma_trim_start_skip(v@, a as int);
        assert(a == n || !is_white_space(mid[0]));
        assert(trim_start(mid) == mid);
        assert forall|j: int| (b - a) <= j < mid.len() implies is_white_space(mid[j]) by {
            assert(mid[j] == v@[a + j]);
        }
        lemma_trim_end_skip(mid, (b - a) as int);
        let core = mid.subrange(0, (b - a) as int);
        assert(core.len() == 0 || !is_white_space(core.last())) by {
            if core.len() > 0 {
                assert(core.last() == v@[b - 1]);
            }
        }
        assert(trim_end(core) == core);
    }
    let mut r: Vec<char> = Vec::new();
    let mut i: usize = a;
    while i < b
        invariant
            n == v@.len(),
            a <= i <= b <= n,
            r@.len() == i - a,
            forall|j: int| 0 <= j < r@.len() ==> r@[j] == ascii_lower(v@[a + j]),
        decreases b - i,
    {
        r.push(lower_char(v[i]));
        i = i + 1;
    }
    proof {
        let t = v@.subrange(a as int, b as int);
        assert(trim(s@) =~= t) by {
            assert(mid.subrange(0, (b - a) as int) =~= t);
        }
        assert(r@ =~= ascii_lowercase(t));
    }
    r
}


/// Whether a character sequence equals a string slice.
pub fn chars_eq(v: &[char], s: &str) -> (r: bool)
    ensures
        r == (v@ == s@),
{
    let w = chars_of(s);
    slice_eq(v, w.as_slice())
}


/// The first `k` characters of `v`.
pub fn slice_prefix(v: &[char], k: usize) -> (r: Vec<char>)
    requires
        k <= v@.len(),
    ensures
        r@ == v@.subrange(0, k as int),
{
    let mut r: Vec<char> = Vec::new();
    let mut i: usize = 0;
    while i < k
        invariant
            i <= k <= v@.len(),
            r@ == v@.subrange(0, i as int),
        decreases k - i,
    {
        r.push(v[i]);
        proof {
            assert(r@ =~= v@.subrange(0, i + 1));
        }
        i = i + 1;
    }
    r
}


/// The pieces of `s` between occurrences of `sep`, empty pieces included
/// (`str::split`).
pub open spec fn split_on(s: Seq<char>, sep: char) -> Seq<Seq<char>>
    decreases s.len(),
{
    if s.len() == 0 {
        seq![Seq::empty()]
    } else {
        let p = split_on(s.drop_last(), sep);
        if s.last() == sep {
            p.push(Seq::empty())
        } else {
            p.update(p.len() - 1, p.last().push(s.last()))
        }
    }
}

/// The views of a sequence of character vectors.
pub open spec fn char_vecs_view(v: Seq<Vec<char>>) -> Seq<Seq<char>> {
    Seq::new(v.len(), |i: int| v[i]@)
}

/// Splits `v` at every `sep`, keeping empty pieces.
pub fn split_chars(v: &[char], sep: char) -> (r: Vec<Vec<char>>)
    ensures
        char_vecs_view(r@) == split_on(v@, sep),
{
    let mut done: Vec<Vec<char>> = Vec::new();
    let mut cur: Vec<char> = Vec::new();
    let mut i: usize = 0;
    proof {
        assert(v@.take(0) =~= Seq::<char>::empty());
        assert(char_vecs_view(done@).push(cur@) =~= split_on(v@.take(0), sep));
    }
    while i < v.len()
        invariant
            i <= v@.len(),
            char_vecs_view(done@).push(cur@) == split_on(v@.take(i as int), sep),
        decreases v@.len() - i,
    {
        let ghost pre = split_on(v@.take(i as int), sep);
        let ghost next = v@.take(i + 1);
        proof {
            assert(next.drop_last() =~= v@.take(i as int));
            assert(next.last() == v@[i as int]);
        }
        let c = v[i];
        if c == sep {
            let piece = cur;
            done.push(piece);
            cur = Vec::new();
            proof {
                assert(char_vecs_view(done@).push(cur@) =~= pre.push(Seq::<char>::empty()));
            }
        } else {
            cur.push(c);
            proof {
                assert(char_vecs_view(done@).push(cur@) =~= pre.update(
                    pre.len() - 1,
                    pre.last().push(c),
                ));
            }
        }
        i = i + 1;
    }
    proof {
        assert(v@.take(v@.len() as int) =~= v@);
    }
    let ghost before = char_vecs_view(done@);
    done.push(cur);
    proof {
        assert(char_vecs_view(done@) =~= split_on(v@, sep));
    }
    done
}

} // verus!
