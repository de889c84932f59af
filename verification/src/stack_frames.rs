//! Stack-frame formatting for JavaScript errors, with remapping through
//! parsed source maps, and the cache of parsed source maps per handler.
//!
//! A frame is printed as `\n    at {function} ({file}:{line}:{column})`.
//! When the frame has a script, a positive line and a positive column, and
//! the script's source map has a mapped token for that position, the
//! `.ts` source position is printed (1-based); otherwise the raw
//! position, with `<anonymous>`, `<unknown>` and `?` for what is missing.
//! A position whose lookup would land on a range token of an earlier line
//! that starts past the position's column (where the source map crate's
//! column arithmetic underflows) is printed raw as well.

use vstd::prelude::*;
use std::sync::Arc;
use crate::text::{decimal, push_decimal, push_str, str_eq};

verus! {

#[verifier::external_type_specification]
#[verifier::external_body]
pub struct ExSourceMap(swc_sourcemap::SourceMap);

#[verifier::external_type_specification]
#[verifier::external_body]
pub struct ExSourceMapError(swc_sourcemap::Error);

/// What a stack frame carries. Every field may be missing (native frames,
/// eval frames, absent position metadata).
#[derive(Debug)]
pub struct CallSiteInfo {
    pub script_name: Option<String>,
    pub line: Option<u32>,
    pub column: Option<u32>,
    pub function_name: Option<String>,
}

impl Default for CallSiteInfo {
    fn default() -> (r: Self)
        ensures
            r.script_name is None,
            r.line is None,
            r.column is None,
            r.function_name is None,
    {
        CallSiteInfo { script_name: None, line: None, column: None, function_name: None }
    }
}

/// The source position of a token found in a source map: 0-based line
/// and column (`u32::MAX` when unmapped) and the source file, if any.
pub struct SourcePosition {
    pub source: Option<String>,
    pub line: u32,
    pub col: u32,
}

/// The function name printed for a frame.
pub open spec fn frame_function(info: CallSiteInfo) -> Seq<char> {
    match info.function_name {
        Some(f) => if f@.len() > 0 { f@ } else { "<anonymous>"@ },
        None => "<anonymous>"@,
    }
}

/// One printed frame.
pub open spec fn frame_text(f: Seq<char>, file: Seq<char>, line: Seq<char>, col: Seq<char>) -> Seq<
    char,
> {
    "\n    at "@ + f + " ("@ + file + ":"@ + line + ":"@ + col + ")"@
}

/// A number, or `?` when it is missing.
pub open spec fn position_text(n: Option<u32>) -> Seq<char> {
    match n {
        Some(v) => decimal(v as nat),
        None => "?"@,
    }
}

/// The frame printed with the raw compiled-JS position.
pub open spec fn unmapped_frame(info: CallSiteInfo) -> Seq<char> {
    frame_text(
        frame_function(info),
        match info.script_name {
            Some(s) => s@,
            None => "<unknown>"@,
        },
        position_text(info.line),
        position_text(info.column),
    )
}

/// The 0-based position to look up in the script's source map: present
/// when the frame has a script, a positive line and a positive column.
pub open spec fn lookup_position(info: CallSiteInfo) -> Option<(Seq<char>, u32, u32)> {
    match (info.script_name, info.line, info.column) {
        (Some(s), Some(l), Some(c)) => if l > 0 && c > 0 {
            Some((s@, (l - 1) as u32, (c - 1) as u32))
        } else {
            None
        },
        _ => None,
    }
}

/// What a source map lookup found, as plain values: the source file (if
/// any), the 0-based source line and the 0-based source column.
pub type FoundPosition = (Option<Seq<char>>, u32, u32);

/// The plain value of a lookup result.
pub open spec fn position_view(token: Option<SourcePosition>) -> Option<FoundPosition> {
    match token {
        Some(t) => Some(
            (
                match t.source {
                    Some(s) => Some(s@),
                    None => None,
                },
                t.line,
                t.col,
            ),
        ),
        None => None,
    }
}

/// The printed frame, given what the source map lookup found (`None` when
/// there was no map or no token).
pub open spec fn frame_with(info: CallSiteInfo, token: Option<FoundPosition>) -> Seq<char> {
    match (lookup_position(info), token) {
        (Some((script, _, _)), Some(t)) => if t.1 != u32::MAX && t.2 != u32::MAX {
            frame_text(
                frame_function(info),
                match t.0 {
                    Some(s) => s,
                    None => script,
                },
                decimal(t.1 as nat + 1),
                decimal(t.2 as nat + 1),
            )
        } else {
            unmapped_frame(info)
        },
        _ => unmapped_frame(info),
    }
}

fn push_function_name(out: &mut String, info: &CallSiteInfo)
    ensures
        final(out)@ == old(out)@ + frame_function(*info),
{
    match &info.function_name {
        Some(f) => {
            if !f.as_str().is_empty() {
                push_str(out, f.as_str());
            } else {
                push_str(out, "<anonymous>");
            }
        },
        None => {
            push_str(out, "<anonymous>");
        },
    }
}

fn push_position(out: &mut String, n: Option<u32>)
    ensures
        final(out)@ == old(out)@ + position_text(n),
{
    match n {
        Some(v) => push_decimal(out, v as u64),
        None => push_str(out, "?"),
    }
}

/// Formats a frame given the result of the source map lookup for it.
pub fn format_frame_with(info: &CallSiteInfo, token: Option<SourcePosition>) -> (s: String)
    ensures
        s@ == frame_with(*info, position_view(token)),
{
    let ghost t0 = position_view(token);
    let mut out = String::new();
    push_str(&mut out, "\n    at ");
    push_function_name(&mut out, info);
    push_str(&mut out, " (");
    let mut mapped = false;
    if let (Some(script), Some(line), Some(col)) = (&info.script_name, info.line, info.column) {
        if line > 0 && col > 0 {
            if let Some(t) = token {
                if t.line != u32::MAX && t.col != u32::MAX {
                    match &t.source {
                        Some(src) => push_str(&mut out, src.as_str()),
                        None => push_str(&mut out, script.as_str()),
                    }
                    push_str(&mut out, ":");
                    push_decimal(&mut out, t.line as u64 + 1);
                    push_str(&mut out, ":");
                    push_decimal(&mut out, t.col as u64 + 1);
                    mapped = true;
                }
            }
        }
    }
    if !mapped {
        match &info.script_name {
            Some(s) => push_str(&mut out, s.as_str()),
            None => push_str(&mut out, "<unknown>"),
        }
        push_str(&mut out, ":");
        push_position(&mut out, info.line);
        push_str(&mut out, ":");
        push_position(&mut out, info.column);
    }
    push_str(&mut out, ")");
    proof {
        assert(out@ =~= frame_with(*info, t0));
    }
    out
}

/// A source map parsed from its raw v3 JSON, kept together with that JSON.
/// Only `parse_source_map` makes one, so the map is always the one that
/// `swc_sourcemap` parsed from the text held beside it.
pub struct ParsedSourceMap {
    raw: String,
    map: swc_sourcemap::SourceMap,
}

impl ParsedSourceMap {
    /// The raw JSON the map was parsed from.
    pub closed spec fn raw_json(&self) -> Seq<char> {
        self.raw@
    }
}

/// Whether `swc_sourcemap` parses this raw source map JSON.
pub uninterp spec fn source_map_parses(raw: Seq<char>) -> bool;

/// Parses a source map from its raw v3 JSON with
/// `swc_sourcemap::SourceMap::from_slice`, keeping the JSON beside the
/// map. Whether it succeeds depends on the text alone and is named
/// `source_map_parses(raw)`; the parsed map itself is opaque here.
#[verifier::external_body]
fn parse_source_map(raw: &str) -> (r: Result<ParsedSourceMap, swc_sourcemap::Error>)
    ensures
        r is Ok <==> source_map_parses(raw@),
        r matches Ok(p) ==> p.raw_json() == raw@,
{
    match swc_sourcemap::SourceMap::from_slice(raw.as_bytes()) {
        Ok(map) => Ok(ParsedSourceMap { raw: raw.to_string(), map }),
        Err(e) => Err(e),
    }
}

/// The tokens of the source map parsed from `raw`, in the map's order
/// (sorted by generated position): for each, its 0-based generated line,
/// its generated column and whether it is a range token.
pub uninterp spec fn source_map_entries(raw: Seq<char>) -> Seq<(u32, u32, bool)>;

/// What `swc_sourcemap::SourceMap::lookup_token` finds at a 0-based
/// generated line and column of the map parsed from `raw`: the token's
/// source file, source line and source column.
pub uninterp spec fn source_map_token(raw: Seq<char>, line: u32, col: u32) -> Option<
    FoundPosition,
>;

/// Reads token `i` of a parsed map with `swc_sourcemap::SourceMap::get_token`:
/// its generated line, generated column and range flag, or `None` past the
/// last token. The tokens are named `source_map_entries(raw)`; they sit in
/// a `Vec`, so none sits at an index of `isize::MAX` or more.
#[verifier::external_body]
fn token_entry(p: &ParsedSourceMap, i: usize) -> (r: Option<(u32, u32, bool)>)
    ensures
        r == (if i < source_map_entries(p.raw_json()).len() {
            Some(source_map_entries(p.raw_json())[i as int])
        } else {
            None
        }),
        r is Some ==> i < isize::MAX,
{
    p.map.get_token(i).map(|t| (t.get_dst_line(), t.get_dst_col(), t.is_range()))
}

/// Whether a token's generated position is at or before `(line, col)`.
pub open spec fn entry_at_or_before(e: (u32, u32, bool), line: u32, col: u32) -> bool {
    e.0 < line || (e.0 == line && e.1 <= col)
}

/// Whether token `i` is the last one at or before `(line, col)`.
pub open spec fn is_last_at_or_before(entries: Seq<(u32, u32, bool)>, i: int, line: u32, col: u32) -> bool {
    &&& 0 <= i < entries.len()
    &&& entry_at_or_before(entries[i], line, col)
    &&& (i + 1 == entries.len() || !entry_at_or_before(entries[i + 1], line, col))
}

/// Whether looking up `(line, col)` lands on a range token of an earlier
/// line whose column lies past `col`. `lookup_token` then subtracts the
/// token's column from `col` in `u32`, which underflows (a panic where
/// overflow is checked); with the tokens sorted by generated position, the
/// token it lands on is the last one at or before `(line, col)` whenever
/// that one lies strictly before, as it does here.
pub open spec fn lookup_underflows(entries: Seq<(u32, u32, bool)>, line: u32, col: u32) -> bool {
    exists|i: int|
        #![trigger is_last_at_or_before(entries, i, line, col)]
        is_last_at_or_before(entries, i, line, col) && entries[i].2 && entries[i].0 < line
            && entries[i].1 > col
}

/// Looks up the token at a 0-based generated position with
/// `swc_sourcemap::SourceMap::lookup_token` and reads its source file,
/// source line and source column. The result is named
/// `source_map_token(raw, line, col)`. The positions on which the lookup
/// underflows (see `lookup_underflows`) are left out.
#[verifier::external_body]
fn lookup_token(p: &ParsedSourceMap, line: u32, col: u32) -> (r: Option<SourcePosition>)
    requires
        !lookup_underflows(source_map_entries(p.raw_json()), line, col),
    ensures
        position_view(r) == source_map_token(p.raw_json(), line, col),
{
    p.map.lookup_token(line, col).map(
        |t| SourcePosition { source: t.get_source().map(|s| s.to_string()), line: t.get_src_line(), col: t.get_src_col() },
    )
}

/// Decides whether looking up `(line, col)` in `p` would underflow, by
/// reading its tokens in order.
pub fn lookup_would_underflow(p: &ParsedSourceMap, line: u32, col: u32) -> (r: bool)
    ensures
        r == lookup_underflows(source_map_entries(p.raw_json()), line, col),
{
    let ghost entries = source_map_entries(p.raw_json());
    let mut i: usize = 0;
    let mut prev: Option<(u32, u32, bool)> = None;
    loop
        invariant
            entries == source_map_entries(p.raw_json()),
            i <= entries.len(),
            i == 0 ==> prev is None,
            i > 0 ==> prev == Some(entries[i - 1]),
            forall|j: int|
                0 <= j && j + 1 < i ==> !(#[trigger] is_last_at_or_before(entries, j, line, col)
                    && entries[j].2 && entries[j].0 < line && entries[j].1 > col),
        decreases entries.len() - i,
    {
        let cur = token_entry(p, i);
        if let Some(e) = prev {
            let here = e.0 < line || (e.0 == line && e.1 <= col);
            let next_after = match cur {
                None => true,
                Some(c) => !(c.0 < line || (c.0 == line && c.1 <= col)),
            };
            if here && next_after && e.2 && e.0 < line && e.1 > col {
                proof {
                    assert(is_last_at_or_before(entries, i - 1, line, col));
                }
                return true;
            }
            proof {
                let j = i - 1;
                assert(!(is_last_at_or_before(entries, j, line, col) && entries[j].2
                    && entries[j].0 < line && entries[j].1 > col));
            }
        }
        match cur {
            None => {
                proof {
                    assert forall|j: int| #![trigger is_last_at_or_before(entries, j, line, col)]
                        is_last_at_or_before(entries, j, line, col) implies !(entries[j].2
                        && entries[j].0 < line && entries[j].1 > col) by {
                        assert(j + 1 < i || j == i - 1);
                    }
                }
                return false;
            },
            Some(c) => {
                prev = Some(c);
                i = i + 1;
            },
        }
    }
}

/// Cache of parsed source maps, keyed by handler path. Each path occurs at
/// most once.
pub struct SourceMapCache {
    paths: Vec<String>,
    maps: Vec<Arc<ParsedSourceMap>>,
}

impl SourceMapCache {
    /// The cached paths, in insertion order.
    pub closed spec fn keys(&self) -> Seq<Seq<char>> {
        Seq::new(self.paths@.len(), |i: int| self.paths@[i]@)
    }

    /// The cached map for the key at position `i`.
    pub closed spec fn map_at(&self, i: int) -> Arc<ParsedSourceMap> {
        self.maps@[i]
    }

    /// Paths and maps pair up, and no path occurs twice.
    pub closed spec fn wf(&self) -> bool {
        &&& self.paths@.len() == self.maps@.len()
        &&& forall|i: int, j: int|
            0 <= i < j < self.paths@.len() ==> self.paths@[i]@ != self.paths@[j]@
    }

    /// Position of `path` among the keys, or -1.
    pub open spec fn index_of(&self, path: Seq<char>) -> int {
        if exists|i: int| 0 <= i < self.keys().len() && self.keys()[i] == path {
            choose|i: int| 0 <= i < self.keys().len() && self.keys()[i] == path
        } else {
            -1
        }
    }

    /// An empty cache.
    pub fn new() -> (r: Self)
        ensures
            r.wf(),
            r.keys().len() == 0,
    {
        SourceMapCache { paths: Vec::new(), maps: Vec::new() }
    }

    /// Number of cached maps.
    pub fn len(&self) -> (n: usize)
        requires
            self.wf(),
        ensures
            n == self.keys().len(),
    {
        self.paths.len()
    }

    fn find(&self, path: &str) -> (r: Option<usize>)
        requires
            self.wf(),
        ensures
            match r {
                Some(i) => i < self.keys().len() && self.keys()[i as int] == path@,
                None => forall|i: int| 0 <= i < self.keys().len() ==> self.keys()[i] != path@,
            },
    {
        let mut i: usize = 0;
        while i < self.paths.len()
            invariant
                self.wf(),
                i <= self.paths@.len(),
                forall|k: int| 0 <= k < i ==> self.keys()[k] != path@,
            decreases self.paths@.len() - i,
        {
            if str_eq(self.paths[i].as_str(), path) {
                return Some(i);
            }
            i = i + 1;
        }
        None
    }

    /// The parsed source map for `path`: the cached one when there is one;
    /// otherwise `raw`, the bundle's source map JSON for that path, is
    /// parsed and the result cached. No map comes back when the path is not
    /// cached and the JSON is missing, empty or does not parse; the cache
    /// is then unchanged.
    pub fn get_or_parse(&mut self, path: &str, raw: Option<&str>) -> (r: Option<
        Arc<ParsedSourceMap>,
    >)
        requires
            old(self).wf(),
        ensures
            final(self).wf(),
            old(self).index_of(path@) >= 0 ==> {
                &&& *final(self) == *old(self)
                &&& r == Some(old(self).map_at(old(self).index_of(path@)))
            },
            old(self).index_of(path@) < 0 ==> match r {
                Some(m) => {
                    &&& raw is Some && raw->0@.len() > 0
                    &&& m.raw_json() == raw->0@
                    &&& final(self).keys() == old(self).keys().push(path@)
                    &&& forall|i: int|
                        0 <= i < old(self).keys().len() ==> final(self).map_at(i) == old(
                            self,
                        ).map_at(i)
                    &&& final(self).map_at(old(self).keys().len() as int) == m
                },
                None => *final(self) == *old(self),
            },
            old(self).index_of(path@) < 0 ==> (r is Some <==> (raw matches Some(t) && t@.len() > 0
                && source_map_parses(t@))),
    {
        match self.find(path) {
            Some(i) => {
                proof {
                    assert(self.keys()[i as int] == path@);
                    let j = self.index_of(path@);
                    assert(0 <= j < self.keys().len() && self.keys()[j] == path@);
                    if j != i {
                        if j < i {
                            assert(self.paths@[j]@ != self.paths@[i as int]@);
                        } else {
                            assert(self.paths@[i as int]@ != self.paths@[j]@);
                        }
                    }
                }
                Some(self.maps[i].clone())
            },
            None => {
                proof {
                    assert(self.index_of(path@) == -1);
                }
                let json = match raw {
                    Some(j) => j,
                    None => {
                        return None;
                    },
                };
                if json.is_empty() {
                    return None;
                }
                match parse_source_map(json) {
                    Ok(m) => {
                        let arc = Arc::new(m);
                        let ghost old_keys = self.keys();
                        let ghost old_paths = self.paths@;
                        let p = path.to_owned();
                        self.paths.push(p);
                        self.maps.push(arc.clone());
                        proof {
                            assert(self.keys() =~= old_keys.push(path@));
                            assert forall|i: int, j: int|
                                0 <= i < j < self.paths@.len() implies self.paths@[i]@
                                != self.paths@[j]@ by {
                                if j == old_paths.len() {
                                    assert(old_keys[i] == old_paths[i]@);
                                } else {
                                    assert(old_paths[i]@ != old_paths[j]@);
                                }
                            }
                        }
                        Some(arc)
                    },
                    Err(_) => None,
                }
            },
        }
    }

    /// Forgets every cached map.
    pub fn clear(&mut self)
        ensures
            final(self).wf(),
            final(self).keys().len() == 0,
    {
        self.paths.clear();
        self.maps.clear();
    }
}

/// Invalidates every cached parsed map (on hot reload).
pub fn clear_sourcemap_cache(cache: &mut SourceMapCache)
    ensures
        final(cache).wf(),
        final(cache).keys().len() == 0,
{
    cache.clear();
}

/// After the cache is cleared no path is cached any more, so the next
/// `get_or_parse` for any path parses its JSON again (and caches a new
/// map) instead of handing back the map it had before.
pub proof fn law_cleared_cache_parses_again(cleared: SourceMapCache, path: Seq<char>)
    requires
        cleared.wf(),
        cleared.keys().len() == 0,
    ensures
        cleared.index_of(path) < 0,
{
}

/// The raw source map JSON that a lookup for `path` goes through: the
/// cached map's when `path` is cached, else `raw` when it is present, not
/// empty and parses; `None` when there is no map.
pub open spec fn map_json_for(cache: SourceMapCache, path: Seq<char>, raw: Option<&str>) -> Option<
    Seq<char>,
> {
    if cache.index_of(path) >= 0 {
        Some(cache.map_at(cache.index_of(path)).raw_json())
    } else {
        match raw {
            Some(t) => if t@.len() > 0 && source_map_parses(t@) {
                Some(t@)
            } else {
                None
            },
            None => None,
        }
    }
}

/// What the lookup at `(line, col)` of the map parsed from `raw` gives,
/// when it does not underflow; nothing when it would.
pub open spec fn safe_lookup(raw: Seq<char>, line: u32, col: u32) -> Option<FoundPosition> {
    if lookup_underflows(source_map_entries(raw), line, col) {
        None
    } else {
        source_map_token(raw, line, col)
    }
}

/// The frame as `format_frame` prints it, given the cache before the call
/// and the bundle's source map JSON for the frame's script.
pub open spec fn remapped_frame(info: CallSiteInfo, cache: SourceMapCache, raw: Option<&str>) -> Seq<
    char,
> {
    match lookup_position(info) {
        Some((path, line, col)) => match map_json_for(cache, path, raw) {
            Some(json) => frame_with(info, safe_lookup(json, line, col)),
            None => unmapped_frame(info),
        },
        None => unmapped_frame(info),
    }
}

/// Formats a frame, remapping its position through the script's source
/// map when possible. `raw_map` is the bundle's source map JSON for the
/// frame's script, if the bundle has one; it is parsed and cached when the
/// script has no cached map yet. The position is looked up in that map
/// (0-based) and printed as `frame_with` prints the token found; a frame
/// without a lookup position, without a map, or whose lookup would land on
/// a range token of an earlier line past its column, is printed unmapped.
pub fn format_frame(info: &CallSiteInfo, cache: &mut SourceMapCache, raw_map: Option<&str>) -> (s:
    String)
    requires
        old(cache).wf(),
    ensures
        final(cache).wf(),
        s@ == remapped_frame(*info, *old(cache), raw_map),
        lookup_position(*info) is None ==> *final(cache) == *old(cache),
        lookup_position(*info) matches Some((path, _, _)) ==> final(cache).keys() == (if old(
            cache,
        ).index_of(path) < 0 && map_json_for(*old(cache), path, raw_map) is Some {
            old(cache).keys().push(path)
        } else {
            old(cache).keys()
        }),
{
    let ghost c0 = *cache;
    let mut token: Option<SourcePosition> = None;
    if let (Some(script), Some(line), Some(col)) = (&info.script_name, info.line, info.column) {
        if line > 0 && col > 0 {
            if let Some(sm) = cache.get_or_parse(script.as_str(), raw_map) {
                if !lookup_would_underflow(&*sm, line - 1, col - 1) {
                    token = lookup_token(&*sm, line - 1, col - 1);
                }
            }
        }
    }
    let s = format_frame_with(info, token);
    proof {
        assert(s@ == remapped_frame(*info, c0, raw_map));
    }
    s
}

} // verus!
