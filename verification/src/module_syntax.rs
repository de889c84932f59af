//! Detection of ES module syntax in JavaScript source.
//!
//! The source is scanned byte by byte as a small lexer with four states:
//! ordinary code (remembering whether the previous byte ended a token),
//! a line comment, a block comment and a string literal (with its quote).
//! An `import` or `export` keyword met in code, right after a boundary and
//! not followed by an identifier byte, marks the source as a module.
//! Keywords inside comments and literals are never seen.

use vstd::prelude::*;
use vstd::string::*;

verus! {

/// Where the scanner stands.
#[derive(PartialEq, Eq, Structural, Clone, Copy)]
pub enum ScanState {
    /// Ordinary code; `true` when the previous byte ended a token (or at
    /// the start of the input).
    Code(bool),
    /// Inside a `//` comment.
    LineComment,
    /// Inside a `/* ... */` comment.
    BlockComment,
    /// Inside a string literal opened by the given quote byte.
    Literal(u8),
}

/// A byte that may continue a JavaScript identifier: `_`, `$` or an ASCII
/// letter or digit.
pub open spec fn js_ident_byte(c: u8) -> bool {
    c == 95 || c == 36 || (48 <= c <= 57) || (65 <= c <= 90) || (97 <= c <= 122)
}

/// A byte after which a keyword may start: whitespace, `;`, `{` or `}`.
pub open spec fn boundary_byte(c: u8) -> bool {
    c == 32 || c == 9 || c == 10 || c == 13 || c == 59 || c == 123 || c == 125
}

/// The bytes of `export`.
pub open spec fn export_bytes() -> Seq<u8> {
    seq![101u8, 120u8, 112u8, 111u8, 114u8, 116u8]
}

/// The bytes of `import`.
pub open spec fn import_bytes() -> Seq<u8> {
    seq![105u8, 109u8, 112u8, 111u8, 114u8, 116u8]
}

/// The keyword `kw` (six bytes) stands at `i` and is not continued by an
/// identifier byte.
pub open spec fn keyword_at(b: Seq<u8>, i: int, kw: Seq<u8>) -> bool {
    &&& 0 <= i
    &&& i + 6 <= b.len()
    &&& b.subrange(i, i + 6) == kw
    &&& (i + 6 == b.len() || !js_ident_byte(b[i + 6]))
}

/// Whether scanning `b` from `i` in state `st` meets a module keyword.
pub open spec fn finds_module_keyword(b: Seq<u8>, i: int, st: ScanState) -> bool
    decreases b.len() - i,
{
    if i < 0 || i >= b.len() {
        false
    } else {
        match st {
            ScanState::Code(at_boundary) => {
                if b[i] == 47 && i + 1 < b.len() && b[i + 1] == 47 {
                    finds_module_keyword(b, i + 2, ScanState::LineComment)
                } else if b[i] == 47 && i + 1 < b.len() && b[i + 1] == 42 {
                    finds_module_keyword(b, i + 2, ScanState::BlockComment)
                } else if b[i] == 34 || b[i] == 39 || b[i] == 96 {
                    finds_module_keyword(b, i + 1, ScanState::Literal(b[i]))
                } else if at_boundary && (keyword_at(b, i, export_bytes()) || keyword_at(
                    b,
                    i,
                    import_bytes(),
                )) {
                    true
                } else {
                    finds_module_keyword(b, i + 1, ScanState::Code(boundary_byte(b[i])))
                }
            },
            ScanState::LineComment => {
                if b[i] == 10 {
                    finds_module_keyword(b, i + 1, ScanState::Code(true))
                } else {
                    finds_module_keyword(b, i + 1, ScanState::LineComment)
                }
            },
            ScanState::BlockComment => {
                if i + 1 >= b.len() {
                    false
                } else if b[i] == 42 && b[i + 1] == 47 {
                    finds_module_keyword(b, i + 2, ScanState::Code(true))
                } else {
                    finds_module_keyword(b, i + 1, ScanState::BlockComment)
                }
            },
            ScanState::Literal(q) => {
                if b[i] == 92 && i + 1 < b.len() {
                    finds_module_keyword(b, i + 2, ScanState::Literal(q))
                } else if b[i] == q {
                    finds_module_keyword(b, i + 1, ScanState::Code(false))
                } else {
                    finds_module_keyword(b, i + 1, ScanState::Literal(q))
                }
            },
        }
    }
}

/// True for bytes that may form part of a JavaScript identifier.
pub fn is_ident_byte(b: u8) -> (r: bool)
    ensures
        r == js_ident_byte(b),
{
    b == 95 || b == 36 || (48 <= b && b <= 57) || (65 <= b && b <= 90) || (97 <= b && b <= 122)
}

/// Whether the six bytes at `i` are `kw` and are not followed by an
/// identifier byte.
fn keyword_here(bytes: &[u8], i: usize, kw: &[u8; 6]) -> (r: bool)
    requires
        i <= bytes.len(),
    ensures
        r == keyword_at(bytes@, i as int, kw@),
{
    if bytes.len() - i < 6 {
        return false;
    }
    let mut k: usize = 0;
    while k < 6
        invariant
            i + 6 <= bytes.len(),
            k <= 6,
            forall|m: int| 0 <= m < k ==> bytes@[i + m] == kw@[m],
        decreases 6 - k,
    {
        if bytes[i + k] != kw[k] {
            proof {
                assert(bytes@.subrange(i as int, i + 6)[k as int] != kw@[k as int]);
            }
            return false;
        }
        k = k + 1;
    }
    proof {
        assert(bytes@.subrange(i as int, i + 6) =~= kw@);
    }
    i + 6 == bytes.len() || !is_ident_byte(bytes[i + 6])
}

/// Detects whether JavaScript source uses ES module syntax: an `import`
/// or `export` keyword at a token boundary, outside comments and string
/// literals.
pub fn is_module_syntax(source: &str) -> (r: bool)
    ensures
        r == finds_module_keyword(source.spec_bytes(), 0, ScanState::Code(true)),
{
    let bytes = source.as_bytes();
    let n = bytes.len();
    let export_kw: [u8; 6] = [101, 120, 112, 111, 114, 116];
    let import_kw: [u8; 6] = [105, 109, 112, 111, 114, 116];
    proof {
        assert(export_kw@ =~= export_bytes());
        assert(import_kw@ =~= import_bytes());
    }
    let mut st = ScanState::Code(true);
    let mut i: usize = 0;
    while i < n
        invariant
            n == bytes@.len(),
            bytes@ == source.spec_bytes(),
            export_kw@ == export_bytes(),
            import_kw@ == import_bytes(),
            i <= n,
            finds_module_keyword(bytes@, i as int, st) == finds_module_keyword(
                source.spec_bytes(),
                0,
                ScanState::Code(true),
            ),
        decreases n - i,
    {
        let b = bytes[i];
        match st {
            ScanState::Code(at_boundary) => {
                if b == 47 && i + 1 < n && bytes[i + 1] == 47 {
                    st = ScanState::LineComment;
                    i = i + 2;
                } else if b == 47 && i + 1 < n && bytes[i + 1] == 42 {
                    st = ScanState::BlockComment;
                    i = i + 2;
                } else if b == 34 || b == 39 || b == 96 {
                    st = ScanState::Literal(b);
                    i = i + 1;
                } else {
                    if at_boundary && (keyword_here(bytes, i, &export_kw) || keyword_here(
                        bytes,
                        i,
                        &import_kw,
                    )) {
                        return true;
                    }
                    st = ScanState::Code(
                        b == 32 || b == 9 || b == 10 || b == 13 || b == 59 || b == 123 || b == 125,
                    );
                    i = i + 1;
                }
            },
            ScanState::LineComment => {
                if b == 10 {
                    st = ScanState::Code(true);
                }
                i = i + 1;
            },
            ScanState::BlockComment => {
                if i + 1 >= n {
                    return false;
                } else if b == 42 && bytes[i + 1] == 47 {
                    st = ScanState::Code(true);
                    i = i + 2;
                } else {
                    i = i + 1;
                }
            },
            ScanState::Literal(q) => {
                if b == 92 && i + 1 < n {
                    i = i + 2;
                } else {
                    if b == q {
                        st = ScanState::Code(false);
                    }
                    i = i + 1;
                }
            },
        }
    }
    false
}

proof fn lemma_found_keyword_occurs(b: Seq<u8>, i: int, st: ScanState)
    requires
        finds_module_keyword(b, i, st),
    ensures
        exists|j: int| i <= j && (keyword_at(b, j, export_bytes()) || keyword_at(b, j, import_bytes())),
    decreases b.len() - i,
{
    match st {
        ScanState::Code(at_boundary) => {
            if b[i] == 47 && i + 1 < b.len() && b[i + 1] == 47 {
                lemma_found_keyword_occurs(b, i + 2, ScanState::LineComment);
            } else if b[i] == 47 && i + 1 < b.len() && b[i + 1] == 42 {
                lemma_found_keyword_occurs(b, i + 2, ScanState::BlockComment);
            } else if b[i] == 34 || b[i] == 39 || b[i] == 96 {
                lemma_found_keyword_occurs(b, i + 1, ScanState::Literal(b[i]));
            } else if at_boundary && (keyword_at(b, i, export_bytes()) || keyword_at(b, i, import_bytes())) {
            } else {
                lemma_found_keyword_occurs(b, i + 1, ScanState::Code(boundary_byte(b[i])));
            }
        },
        ScanState::LineComment => {
            if b[i] == 10 {
                lemma_found_keyword_occurs(b, i + 1, ScanState::Code(true));
            } else {
                lemma_found_keyword_occurs(b, i + 1, ScanState::LineComment);
            }
        },
        ScanState::BlockComment => {
            if b[i] == 42 && b[i + 1] == 47 {
                lemma_found_keyword_occurs(b, i + 2, ScanState::Code(true));
            } else {
                lemma_found_keyword_occurs(b, i + 1, ScanState::BlockComment);
            }
        },
        ScanState::Literal(q) => {
            if b[i] == 92 && i + 1 < b.len() {
                lemma_found_keyword_occurs(b, i + 2, ScanState::Literal(q));
            } else if b[i] == q {
                lemma_found_keyword_occurs(b, i + 1, ScanState::Code(false));
            } else {
                lemma_found_keyword_occurs(b, i + 1, ScanState::Literal(q));
            }
        },
    }
}

/// A source is a module only if `import` or `export` occurs in it.
pub proof fn law_module_needs_a_keyword(b: Seq<u8>)
    ensures
        finds_module_keyword(b, 0, ScanState::Code(true)) ==> exists|j: int|
            keyword_at(b, j, export_bytes()) || keyword_at(b, j, import_bytes()),
{
    if finds_module_keyword(b, 0, ScanState::Code(true)) {
        lemma_found_keyword_occurs(b, 0, ScanState::Code(true));
    }
}

proof fn lemma_line_comment_to_end(b: Seq<u8>, i: int)
    requires
        0 <= i,
        forall|k: int| i <= k < b.len() ==> b[k] != 10,
    ensures
        !finds_module_keyword(b, i, ScanState::LineComment),
    decreases b.len() - i,
{
    if i < b.len() {
        lemma_line_comment_to_end(b, i + 1);
    }
}

/// A source that is a single line comment is never a module, whatever
/// the comment says.
pub proof fn law_line_comment_hides_keywords(b: Seq<u8>)
    requires
        b.len() >= 2,
        b[0] == 47 && b[1] == 47,
        forall|k: int| 0 <= k < b.len() ==> b[k] != 10,
    ensures
        !finds_module_keyword(b, 0, ScanState::Code(true)),
{
    lemma_line_comment_to_end(b, 2);
}

proof fn lemma_keyword_shift(p: Seq<u8>, s: Seq<u8>, k: int, kw: Seq<u8>)
    requires
        0 <= k,
    ensures
        keyword_at(p + s, p.len() + k, kw) == keyword_at(s, k, kw),
{
    let b = p + s;
    let i = p.len() + k;
    if i + 6 <= b.len() {
        assert(b.subrange(i, i + 6) =~= s.subrange(k, k + 6));
        if i + 6 < b.len() {
            assert(b[i + 6] == s[k + 6]);
        }
    }
}

/// Scanning `p + s` from inside `s` goes exactly as scanning `s` does:
/// the scanner never looks back.
proof fn lemma_scan_shift(p: Seq<u8>, s: Seq<u8>, k: int, st: ScanState)
    requires
        0 <= k,
    ensures
        finds_module_keyword(p + s, p.len() + k, st) == finds_module_keyword(s, k, st),
    decreases s.len() - k,
{
    let b = p + s;
    let i = p.len() + k;
    if k < s.len() {
        assert(b[i] == s[k]);
        if k + 1 < s.len() {
            assert(b[i + 1] == s[k + 1]);
        }
        lemma_keyword_shift(p, s, k, export_bytes());
        lemma_keyword_shift(p, s, k, import_bytes());
        lemma_scan_shift(p, s, k + 1, ScanState::LineComment);
        lemma_scan_shift(p, s, k + 1, ScanState::BlockComment);
        lemma_scan_shift(p, s, k + 1, ScanState::Literal(s[k]));
        lemma_scan_shift(p, s, k + 1, ScanState::Code(boundary_byte(s[k])));
        lemma_scan_shift(p, s, k + 1, ScanState::Code(true));
        lemma_scan_shift(p, s, k + 1, ScanState::Code(false));
        if k + 1 < s.len() {
            lemma_scan_shift(p, s, k + 2, ScanState::LineComment);
            lemma_scan_shift(p, s, k + 2, ScanState::BlockComment);
            lemma_scan_shift(p, s, k + 2, ScanState::Code(true));
        }
        match st {
            ScanState::Literal(q) => {
                lemma_scan_shift(p, s, k + 1, ScanState::Literal(q));
                if k + 1 < s.len() {
                    lemma_scan_shift(p, s, k + 2, ScanState::Literal(q));
                }
            },
            _ => {},
        }
    }
}

/// A line comment that has not ended by position `i` runs to its newline
/// and leaves the scanner at a token boundary just after it.
proof fn lemma_line_comment_skips(b: Seq<u8>, i: int, nl: int)
    requires
        0 <= i <= nl < b.len(),
        b[nl] == 10,
        forall|k: int| i <= k < nl ==> b[k] != 10,
    ensures
        finds_module_keyword(b, i, ScanState::LineComment) == finds_module_keyword(
            b,
            nl + 1,
            ScanState::Code(true),
        ),
    decreases nl - i,
{
    if i < nl {
        lemma_line_comment_skips(b, i + 1, nl);
    }
}

/// A line comment with its newline in front of a source changes nothing:
/// the newline leaves the scanner at a token boundary, so the source is a
/// module with the comment exactly when it is one without it (a keyword at
/// the start of the next line is found).
pub proof fn law_leading_line_comment_changes_nothing(comment: Seq<u8>, s: Seq<u8>)
    requires
        forall|k: int| 0 <= k < comment.len() ==> comment[k] != 10,
    ensures
        finds_module_keyword(seq![47u8, 47u8] + comment + seq![10u8] + s, 0, ScanState::Code(true))
            == finds_module_keyword(s, 0, ScanState::Code(true)),
{
    let p = seq![47u8, 47u8] + comment + seq![10u8];
    let b = p + s;
    assert(b =~= seq![47u8, 47u8] + comment + seq![10u8] + s);
    let nl = p.len() - 1;
    assert(b[0] == 47 && b[1] == 47);
    assert(b[nl] == 10);
    assert forall|k: int| 2 <= k < nl implies b[k] != 10 by {
        assert(b[k] == comment[k - 2]);
    }
    lemma_line_comment_skips(b, 2, nl);
    lemma_scan_shift(p, s, 0, ScanState::Code(true));
}

} // verus!
