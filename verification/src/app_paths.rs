//! Redaction of host filesystem paths to their app-relative logical form
//! `{app}/libraries/...`, so that stack traces, error messages and logs
//! never show the host prefix above the app directory.
//!
//! Paths are read as `std::path::Path` reads a Unix path: the text is
//! split at `/`, empty pieces (repeated or trailing separators, the root)
//! are dropped, and `.` is dropped except as the very first piece.

use vstd::prelude::*;
use crate::text::{chars_of, char_vecs_view, join, join_strings, split_chars, split_on, string_of, strings_view};

verus! {

/// Whether the piece at position `k` is a named component: not empty, not
/// `.` past the first position, and not a lone backslash.
pub open spec fn named_piece(piece: Seq<char>, k: int) -> bool {
    piece.len() > 0 && (piece != seq!['.'] || k == 0) && piece != seq!['\\']
}

/// The named components among the first `n` pieces, in order.
pub open spec fn named_upto(pieces: Seq<Seq<char>>, n: int) -> Seq<Seq<char>>
    decreases n,
{
    if n <= 0 {
        Seq::empty()
    } else if named_piece(pieces[n - 1], n - 1) {
        named_upto(pieces, n - 1).push(pieces[n - 1])
    } else {
        named_upto(pieces, n - 1)
    }
}

/// The named components of a path.
pub open spec fn path_components(s: Seq<char>) -> Seq<Seq<char>> {
    let p = split_on(s, '/');
    named_upto(p, p.len() as int)
}

/// Index of the last component equal to `name`, or -1.
pub open spec fn last_index_of(c: Seq<Seq<char>>, name: Seq<char>) -> int
    decreases c.len(),
{
    if c.len() == 0 {
        -1
    } else if c.last() == name {
        c.len() - 1
    } else {
        last_index_of(c.drop_last(), name)
    }
}

/// The text `libraries`.
pub open spec fn libraries_name() -> Seq<char> {
    seq!['l', 'i', 'b', 'r', 'a', 'r', 'i', 'e', 's']
}

/// Whether redaction rewrites `s`: some component is `libraries` and the
/// last such component has a component before it.
pub open spec fn has_app_anchor(s: Seq<char>) -> bool {
    last_index_of(path_components(s), libraries_name()) >= 1
}

/// The redacted form of `s`: the components from the app directory (the
/// one before the last `libraries`) onward joined by `/`; `s` itself when
/// there is no such anchor.
pub open spec fn redacted(s: Seq<char>) -> Seq<char> {
    if has_app_anchor(s) {
        let c = path_components(s);
        join(c.subrange(last_index_of(c, libraries_name()) - 1, c.len() as int), seq!['/'])
    } else {
        s
    }
}

proof fn lemma_split_nonempty(s: Seq<char>)
    ensures
        split_on(s, '/').len() >= 1,
    decreases s.len(),
{
    if s.len() > 0 {
        lemma_split_nonempty(s.drop_last());
    }
}

proof fn lemma_named_upto_agree(a: Seq<Seq<char>>, b: Seq<Seq<char>>, n: int)
    requires
        0 <= n <= a.len(),
        n <= b.len(),
        forall|i: int| 0 <= i < n ==> a[i] == b[i],
    ensures
        named_upto(a, n) == named_upto(b, n),
    decreases n,
{
    if n > 0 {
        lemma_named_upto_agree(a, b, n - 1);
    }
}

proof fn lemma_last_index_bounds(c: Seq<Seq<char>>, name: Seq<char>)
    ensures
        -1 <= last_index_of(c, name) < c.len(),
        last_index_of(c, name) >= 0 ==> c[last_index_of(c, name)] == name,
        forall|j: int| last_index_of(c, name) < j < c.len() ==> c[j] != name,
    decreases c.len(),
{
    if c.len() > 0 && c.last() != name {
        lemma_last_index_bounds(c.drop_last(), name);
        assert forall|j: int| last_index_of(c, name) < j < c.len() implies c[j] != name by {
            if j < c.len() - 1 {
                assert(c[j] == c.drop_last()[j]);
            }
        }
    }
}

/// Whether a piece is a named component.
fn is_named_piece(piece: &Vec<char>, k: usize) -> (r: bool)
    ensures
        r == named_piece(piece@, k as int),
{
    if piece.len() == 0 {
        return false;
    }
    if piece.len() == 1 && piece[0] == '.' && k != 0 {
        proof {
            assert(piece@ =~= seq!['.']);
        }
        return false;
    }
    if piece.len() == 1 && piece[0] == '\\' {
        proof {
            assert(piece@ =~= seq!['\\']);
        }
        return false;
    }
    proof {
        if piece@.len() == 1 {
            assert(piece@ != seq!['\\']) by {
                assert(seq!['\\'][0] == '\\');
            }
            assert(k == 0 || piece@ != seq!['.']) by {
                assert(seq!['.'][0] == '.');
            }
        }
    }
    true
}

/// The named components of a path, as `Path::components` yields them on
/// Unix (without the root and without lone backslashes).
pub fn components(path: &str) -> (r: Vec<Vec<char>>)
    ensures
        r@.len() == path_components(path@).len(),
        forall|i: int| 0 <= i < r@.len() ==> r@[i]@ == path_components(path@)[i],
{
    let chars = chars_of(path);
    let mut done: Vec<Vec<char>> = Vec::new();
    let mut cur: Vec<char> = Vec::new();
    let mut k: usize = 0;
    let mut i: usize = 0;
    proof {
        assert(chars@.take(0) =~= Seq::<char>::empty());
    }
    while i < chars.len()
        invariant
            chars@ == path@,
            i <= chars@.len(),
            k <= i,
            split_on(chars@.take(i as int), '/').len() == k + 1,
            split_on(chars@.take(i as int), '/')[k as int] == cur@,
            done@.len() == named_upto(split_on(chars@.take(i as int), '/'), k as int).len(),
            forall|j: int|
                0 <= j < done@.len() ==> done@[j]@ == named_upto(
                    split_on(chars@.take(i as int), '/'),
                    k as int,
                )[j],
        decreases chars@.len() - i,
    {
        let ghost pre = split_on(chars@.take(i as int), '/');
        let ghost next = chars@.take(i + 1);
        proof {
            assert(next.drop_last() =~= chars@.take(i as int));
            assert(next.last() == chars@[i as int]);
        }
        let c = chars[i];
        if c == '/' {
            let keep = is_named_piece(&cur, k);
            proof {
                let post = split_on(next, '/');
                assert(post == pre.push(Seq::<char>::empty()));
                lemma_named_upto_agree(pre, post, k as int);
                lemma_named_upto_agree(pre, post, k + 1);
            }
            if keep {
                let piece = cur;
                done.push(piece);
            }
            cur = Vec::new();
            k = k + 1;
            proof {
                assert(cur@ =~= Seq::<char>::empty());
            }
        } else {
            cur.push(c);
            proof {
                let post = split_on(next, '/');
                assert(post == pre.update(pre.len() - 1, pre.last().push(c)));
                lemma_named_upto_agree(pre, post, k as int);
            }
        }
        i = i + 1;
    }
    proof {
        assert(chars@.take(chars@.len() as int) =~= path@);
    }
    let keep = is_named_piece(&cur, k);
    if keep {
        done.push(cur);
    }
    done
}

/// Redacts a host filesystem path to its `{app}/libraries/...` form: the
/// components from the directory before the last `libraries` component
/// onward, joined by `/`. A path without such an anchor (no `libraries`
/// component, or nothing before it), and the empty path, come back
/// unchanged and borrowed.
pub fn redact_to_app_relative(path: &str) -> (r: std::borrow::Cow<'_, str>)
    ensures
        r@ == redacted(path@),
        (r is Borrowed) <==> !has_app_anchor(path@),
{
    let comps = components(path);
    let ghost c = path_components(path@);
    proof {
        lemma_last_index_bounds(c, libraries_name());
    }
    let lib: Vec<char> = vec!['l', 'i', 'b', 'r', 'a', 'r', 'i', 'e', 's'];
    proof {
        assert(lib@ =~= libraries_name());
    }
    let mut j: usize = comps.len();
    let mut found = false;
    while !found && j > 0
        invariant
            j <= comps@.len(),
            found ==> j > 0 && c[j - 1] == libraries_name(),
            comps@.len() == c.len(),
            forall|m: int| 0 <= m < comps@.len() ==> comps@[m]@ == c[m],
            lib@ == libraries_name(),
            forall|m: int| j <= m < c.len() ==> c[m] != libraries_name(),
        decreases j + (if found { 0int } else { 1int }),
    {
        if crate::text::slice_eq(comps[j - 1].as_slice(), lib.as_slice()) {
            found = true;
        } else {
            j = j - 1;
        }
    }
    proof {
        if found {
            assert(c[j - 1] == libraries_name());
            assert(last_index_of(c, libraries_name()) == j - 1) by {
                lemma_last_index_bounds(c, libraries_name());
                let l = last_index_of(c, libraries_name());
                if l < j - 1 {
                    assert(c[j - 1] != libraries_name());
                }
                if l > j - 1 {
                    assert(c[l] == libraries_name());
                }
            }
        } else {
            assert(last_index_of(c, libraries_name()) == -1) by {
                lemma_last_index_bounds(c, libraries_name());
                let l = last_index_of(c, libraries_name());
                if l >= 0 {
                    assert(c[l] == libraries_name());
                }
            }
        }
    }
    if !found || j < 2 {
        return std::borrow::Cow::Borrowed(path);
    }
    let start = j - 2;
    let mut parts: Vec<String> = Vec::new();
    let mut m: usize = start;
    while m < comps.len()
        invariant
            start <= m <= comps@.len(),
            comps@.len() == c.len(),
            forall|x: int| 0 <= x < comps@.len() ==> comps@[x]@ == c[x],
            parts@.len() == m - start,
            strings_view(parts@) == c.subrange(start as int, m as int),
        decreases comps@.len() - m,
    {
        let s = string_of(comps[m].as_slice());
        let ghost before = parts@;
        parts.push(s);
        proof {
            assert(s@ == c[m as int]);
            assert forall|x: int| 0 <= x < parts@.len() implies strings_view(parts@)[x] == c.subrange(
                start as int,
                m + 1,
            )[x] by {
                if x < before.len() {
                    assert(parts@[x] == before[x]);
                    assert(strings_view(before)[x] == c.subrange(start as int, m as int)[x]);
                }
            }
            assert(strings_view(parts@) =~= c.subrange(start as int, m + 1));
        }
        m = m + 1;
    }
    let slash = "/";
    proof {
        reveal_strlit("/");
    }
    proof {
        assert(slash@ =~= seq!['/']);
        assert(strings_view(parts@) == c.subrange(start as int, c.len() as int));
    }
    let out = join_strings(&parts, slash);
    std::borrow::Cow::Owned(out)
}


/// Appends the app-relative form of a path.
pub(crate) fn push_redacted(out: &mut String, path: &str)
    ensures
        final(out)@ == old(out)@ + redacted(path@),
{
    let r = redact_to_app_relative(path);
    match &r {
        std::borrow::Cow::Borrowed(b) => crate::text::push_str(out, b),
        std::borrow::Cow::Owned(o) => crate::text::push_str(out, o.as_str()),
    }
}

/// Whether the piece at position `k` is a component of the path: not
/// empty, and not `.` past the first position.
pub open spec fn path_piece(piece: Seq<char>, k: int) -> bool {
    piece.len() > 0 && (piece != seq!['.'] || k == 0)
}

/// Index of the last component among the first `n` pieces, or -1.
pub open spec fn last_component_piece(p: Seq<Seq<char>>, n: int) -> int
    decreases n,
{
    if n <= 0 {
        -1
    } else if path_piece(p[n - 1], n - 1) {
        n - 1
    } else {
        last_component_piece(p, n - 1)
    }
}

/// Index of the last `libraries` piece among the first `n` pieces, or -1.
pub open spec fn last_libraries_piece(p: Seq<Seq<char>>, n: int) -> int
    decreases n,
{
    if n <= 0 {
        -1
    } else if p[n - 1] == libraries_name() {
        n - 1
    } else {
        last_libraries_piece(p, n - 1)
    }
}

/// The app boundary above a module path: the path's text up to and
/// including the nearest directory named `libraries` among its ancestors
/// (the path's own last component is not one of them); none when there is
/// no such directory.
pub open spec fn app_boundary(s: Seq<char>) -> Option<Seq<char>> {
    let p = split_on(s, '/');
    let j = last_libraries_piece(p, last_component_piece(p, p.len() as int));
    if j < 0 {
        None
    } else {
        Some(join(p.take(j + 1), seq!['/']))
    }
}

/// Whether a piece is a component of the path.
fn is_path_piece(piece: &Vec<char>, k: usize) -> (r: bool)
    ensures
        r == path_piece(piece@, k as int),
{
    if piece.len() == 0 {
        return false;
    }
    if piece.len() == 1 && piece[0] == '.' && k != 0 {
        proof {
            assert(piece@ =~= seq!['.']);
        }
        return false;
    }
    proof {
        if piece@.len() == 1 {
            assert(k == 0 || piece@ != seq!['.']) by {
                assert(seq!['.'][0] == '.');
            }
        }
    }
    true
}

/// The app's chroot boundary for a module: the nearest ancestor directory
/// named `libraries`, as text of the module's path; none when the module
/// does not lie below one.
pub fn boundary_from_referrer(referrer: &str) -> (r: Option<String>)
    ensures
        match app_boundary(referrer@) {
            Some(b) => r matches Some(t) && t@ == b,
            None => r is None,
        },
{
    let chars = chars_of(referrer);
    let pieces = split_chars(chars.as_slice(), '/');
    let ghost p = split_on(referrer@, '/');
    proof {
        assert(char_vecs_view(pieces@) == p);
        assert forall|x: int| 0 <= x < pieces@.len() implies pieces@[x]@ == p[x] by {
            assert(char_vecs_view(pieces@)[x] == pieces@[x]@);
        }
    }
    let n = pieces.len();
    let mut i: usize = n;
    while i > 0 && !is_path_piece(&pieces[i - 1], i - 1)
        invariant
            i <= n == pieces@.len() == p.len(),
            forall|x: int| 0 <= x < pieces@.len() ==> pieces@[x]@ == p[x],
            last_component_piece(p, n as int) == last_component_piece(p, i as int),
        decreases i,
    {
        i = i - 1;
    }
    if i == 0 {
        return None;
    }
    let lib: Vec<char> = vec!['l', 'i', 'b', 'r', 'a', 'r', 'i', 'e', 's'];
    proof {
        assert(lib@ =~= libraries_name());
        assert(last_component_piece(p, n as int) == i - 1);
    }
    let mut k: usize = i - 1;
    while k > 0 && !crate::text::slice_eq(pieces[k - 1].as_slice(), lib.as_slice())
        invariant
            k < i <= n == pieces@.len() == p.len(),
            forall|x: int| 0 <= x < pieces@.len() ==> pieces@[x]@ == p[x],
            lib@ == libraries_name(),
            last_libraries_piece(p, i - 1) == last_libraries_piece(p, k as int),
        decreases k,
    {
        k = k - 1;
    }
    if k == 0 {
        return None;
    }
    let mut parts: Vec<String> = Vec::new();
    let mut m: usize = 0;
    while m < k
        invariant
            m <= k <= pieces@.len() == p.len(),
            forall|x: int| 0 <= x < pieces@.len() ==> pieces@[x]@ == p[x],
            parts@.len() == m,
            strings_view(parts@) == p.take(m as int),
        decreases k - m,
    {
        let s = string_of(pieces[m].as_slice());
        let ghost before = parts@;
        parts.push(s);
        proof {
            assert(s@ == p[m as int]);
            assert forall|x: int| 0 <= x < parts@.len() implies strings_view(parts@)[x] == p.take(
                m + 1,
            )[x] by {
                if x < before.len() {
                    assert(parts@[x] == before[x]);
                    assert(strings_view(before)[x] == p.take(m as int)[x]);
                }
            }
            assert(strings_view(parts@) =~= p.take(m + 1));
        }
        m = m + 1;
    }
    let slash = "/";
    proof {
        reveal_strlit("/");
        assert(slash@ =~= seq!['/']);
        assert(last_libraries_piece(p, i - 1) == k - 1);
    }
    Some(join_strings(&parts, slash))
}

/// Whether `x` can stand as the `i`-th component of a path written out
/// with `/`: a named piece holding no `/`.
pub open spec fn clean_component(x: Seq<char>, i: int) -> bool {
    named_piece(x, i) && !x.contains('/')
}

proof fn lemma_split_pieces_have_no_separator(s: Seq<char>)
    ensures
        forall|k: int| 0 <= k < split_on(s, '/').len() ==> !(#[trigger] split_on(s, '/')[k]).contains('/'),
    decreases s.len(),
{
    if s.len() > 0 {
        let p = split_on(s.drop_last(), '/');
        lemma_split_pieces_have_no_separator(s.drop_last());
        lemma_split_nonempty(s.drop_last());
        if s.last() != '/' {
            let q = split_on(s, '/');
            assert forall|k: int| 0 <= k < q.len() implies !(#[trigger] q[k]).contains('/') by {
                if k == q.len() - 1 {
                    if q[k].contains('/') {
                        let j = choose|j: int| 0 <= j < q[k].len() && q[k][j] == '/';
                        if j < p.last().len() {
                            assert(p.last()[j] == '/');
                            assert(p[p.len() - 1].contains('/'));
                        }
                    }
                }
            }
        } else {
            let q = split_on(s, '/');
            assert forall|k: int| 0 <= k < q.len() implies !(#[trigger] q[k]).contains('/') by {
                if k < p.len() {
                    assert(q[k] == p[k]);
                }
            }
        }
    }
}

proof fn lemma_named_upto_origin(p: Seq<Seq<char>>, n: int)
    requires
        0 <= n <= p.len(),
    ensures
        named_upto(p, n).len() <= n,
        forall|i: int|
            0 <= i < named_upto(p, n).len() ==> exists|k: int|
                i <= k < n && #[trigger] named_upto(p, n)[i] == p[k] && named_piece(p[k], k),
    decreases n,
{
    if n > 0 {
        lemma_named_upto_origin(p, n - 1);
        let prev = named_upto(p, n - 1);
        let cur = named_upto(p, n);
        assert forall|i: int| 0 <= i < cur.len() implies exists|k: int|
            i <= k < n && #[trigger] cur[i] == p[k] && named_piece(p[k], k) by {
            if i < prev.len() {
                assert(cur[i] == prev[i]);
                let k = choose|k: int| i <= k < n - 1 && prev[i] == p[k] && named_piece(p[k], k);
                assert(cur[i] == p[k]);
            } else {
                assert(cur[i] == p[n - 1]);
            }
        }
    }
}

proof fn lemma_components_clean(s: Seq<char>)
    ensures
        forall|i: int|
            0 <= i < path_components(s).len() ==> clean_component(#[trigger] path_components(s)[i], i),
{
    let p = split_on(s, '/');
    let c = path_components(s);
    lemma_named_upto_origin(p, p.len() as int);
    lemma_split_pieces_have_no_separator(s);
    assert forall|i: int| 0 <= i < c.len() implies clean_component(#[trigger] c[i], i) by {
        let k = choose|k: int| i <= k < p.len() && c[i] == p[k] && named_piece(p[k], k);
        assert(!p[k].contains('/'));
    }
}

proof fn lemma_split_without_separator(x: Seq<char>, b: Seq<char>)
    requires
        !b.contains('/'),
    ensures
        split_on(x + b, '/') == split_on(x, '/').update(
            split_on(x, '/').len() - 1,
            split_on(x, '/').last() + b,
        ),
    decreases b.len(),
{
    lemma_split_nonempty(x);
    if b.len() == 0 {
        assert(x + b =~= x);
        assert(split_on(x, '/').last() + b =~= split_on(x, '/').last());
        assert(split_on(x, '/').update(split_on(x, '/').len() - 1, split_on(x, '/').last())
            =~= split_on(x, '/'));
    } else {
        let b0 = b.drop_last();
        assert(!b0.contains('/')) by {
            if b0.contains('/') {
                let j = choose|j: int| 0 <= j < b0.len() && b0[j] == '/';
                assert(b[j] == '/');
            }
        }
        lemma_split_without_separator(x, b0);
        let y = x + b;
        assert(y.drop_last() =~= x + b0);
        assert(y.last() == b.last());
        assert(b.last() != '/') by {
            assert(b[b.len() - 1] == b.last());
        }
        lemma_split_nonempty(x + b0);
        let q = split_on(x, '/');
        assert((q.last() + b0).push(b.last()) =~= q.last() + b);
        assert(split_on(y, '/') =~= q.update(q.len() - 1, q.last() + b));
    }
}

proof fn lemma_split_join(d: Seq<Seq<char>>)
    requires
        d.len() >= 1,
        forall|i: int| 0 <= i < d.len() ==> !(#[trigger] d[i]).contains('/'),
    ensures
        split_on(join(d, seq!['/']), '/') == d,
    decreases d.len(),
{
    if d.len() == 1 {
        lemma_split_without_separator(Seq::empty(), d[0]);
        assert(Seq::<char>::empty() + d[0] =~= d[0]);
        assert(split_on(Seq::<char>::empty(), '/') =~= seq![Seq::<char>::empty()]);
        assert(Seq::<char>::empty() + d[0] =~= d[0]);
        assert(split_on(d[0], '/') =~= d);
    } else {
        let a = d.drop_last();
        assert forall|i: int| 0 <= i < a.len() implies !(#[trigger] a[i]).contains('/') by {
            assert(a[i] == d[i]);
        }
        lemma_split_join(a);
        let ja = join(a, seq!['/']);
        let x = ja + seq!['/'];
        assert(x.drop_last() =~= ja);
        assert(split_on(x, '/') == split_on(ja, '/').push(Seq::empty()));
        assert(!d.last().contains('/')) by {
            assert(d[d.len() - 1] == d.last());
        }
        lemma_split_without_separator(x, d.last());
        assert(join(d, seq!['/']) =~= x + d.last());
        assert(Seq::<char>::empty() + d.last() =~= d.last());
        assert(split_on(join(d, seq!['/']), '/') =~= d);
    }
}

proof fn lemma_named_upto_clean(d: Seq<Seq<char>>, n: int)
    requires
        0 <= n <= d.len(),
        forall|i: int| 0 <= i < d.len() ==> named_piece(#[trigger] d[i], i),
    ensures
        named_upto(d, n) == d.take(n),
    decreases n,
{
    if n > 0 {
        lemma_named_upto_clean(d, n - 1);
        assert(d.take(n - 1).push(d[n - 1]) =~= d.take(n));
    } else {
        assert(d.take(0) =~= Seq::<Seq<char>>::empty());
    }
}

proof fn lemma_last_index_of_suffix(c: Seq<Seq<char>>, name: Seq<char>, l: int)
    requires
        1 <= l,
        last_index_of(c, name) == l,
    ensures
        last_index_of(c.subrange(l - 1, c.len() as int), name) == 1,
    decreases c.len(),
{
    lemma_last_index_bounds(c, name);
    let d = c.subrange(l - 1, c.len() as int);
    if c.last() == name {
        assert(d.last() == c.last());
    } else {
        let c0 = c.drop_last();
        assert(last_index_of(c0, name) == l);
        lemma_last_index_bounds(c0, name);
        lemma_last_index_of_suffix(c0, name, l);
        assert(c0.subrange(l - 1, c0.len() as int) =~= d.drop_last());
        assert(d.last() == c.last());
    }
}

/// Redacting twice is redacting once: a path already in its app-relative
/// form comes back unchanged.
pub proof fn law_redaction_is_idempotent(s: Seq<char>)
    ensures
        redacted(redacted(s)) == redacted(s),
{
    if has_app_anchor(s) {
        let c = path_components(s);
        let l = last_index_of(c, libraries_name());
        lemma_last_index_bounds(c, libraries_name());
        let d = c.subrange(l - 1, c.len() as int);
        let r = join(d, seq!['/']);
        lemma_components_clean(s);
        assert forall|i: int| 0 <= i < d.len() implies clean_component(#[trigger] d[i], i) by {
            assert(d[i] == c[l - 1 + i]);
            assert(clean_component(c[l - 1 + i], l - 1 + i));
        }
        assert forall|i: int| 0 <= i < d.len() implies !(#[trigger] d[i]).contains('/') by {
            assert(clean_component(d[i], i));
        }
        assert forall|i: int| 0 <= i < d.len() implies named_piece(#[trigger] d[i], i) by {
            assert(clean_component(d[i], i));
        }
        lemma_split_join(d);
        lemma_named_upto_clean(d, d.len() as int);
        assert(d.take(d.len() as int) =~= d);
        assert(path_components(r) == d);
        lemma_last_index_of_suffix(c, libraries_name(), l);
        assert(has_app_anchor(r));
        assert(d.subrange(0, d.len() as int) =~= d);
    }
}

} // verus!
