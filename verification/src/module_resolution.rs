//! The rules for ES-module import specifiers inside handler bundles: only
//! relative specifiers (`./` or `../`) with an explicit `.ts` or `.js`
//! extension resolve, and every error names the importing module by its
//! app-relative path.

use vstd::prelude::*;
use crate::app_paths::{app_boundary, boundary_from_referrer, push_redacted, redacted};
use crate::text::{chars_of, ends_with, has_prefix, has_suffix, push_str, starts_with};

verus! {

/// The line naming the importing module, if it is known.
pub open spec fn referrer_line(referrer: Option<Seq<char>>) -> Seq<char> {
    match referrer {
        Some(p) => "\n  in "@ + redacted(p),
        None => Seq::empty(),
    }
}

/// Whether a specifier is relative.
pub open spec fn is_relative(spec: Seq<char>) -> bool {
    has_prefix(spec, "./"@) || has_prefix(spec, "../"@)
}

/// Whether a specifier carries a `.ts` or `.js` extension.
pub open spec fn has_script_extension(spec: Seq<char>) -> bool {
    has_suffix(spec, ".ts"@) || has_suffix(spec, ".js"@)
}

/// Why a specifier cannot be resolved before looking at the filesystem,
/// if it cannot: a bare specifier, a missing extension, or an importing
/// module the registry does not know.
pub open spec fn specifier_refusal(spec: Seq<char>, referrer: Option<Seq<char>>) -> Option<Seq<char>> {
    if !is_relative(spec) {
        Some(
            "module resolution failed: bare specifier \""@ + spec + "\" not supported"@
                + referrer_line(referrer) + "\n  hint: use \"./\" or \"../\" relative import"@,
        )
    } else if !has_script_extension(spec) {
        Some(
            "module resolution failed: import specifier \""@ + spec + "\" has no extension"@
                + referrer_line(referrer) + "\n  hint: use \""@ + spec + ".ts\" or \""@ + spec
                + ".js\""@,
        )
    } else if referrer is None {
        Some(
            "module resolution failed: cannot identify referrer of \""@ + spec
                + "\"; module registry missing entry"@,
        )
    } else {
        None
    }
}

fn push_referrer_line(out: &mut String, referrer: Option<&str>)
    ensures
        final(out)@ == old(out)@ + referrer_line(
            match referrer {
                Some(p) => Some(p@),
                None => None,
            },
        ),
{
    match referrer {
        Some(p) => {
            push_str(out, "\n  in ");
            push_redacted(out, p);
        },
        None => {},
    }
}

/// Checks an import specifier against the resolution rules; the error
/// thrown to the importing module when it breaks one.
pub fn check_import_specifier(spec: &str, referrer: Option<&str>) -> (r: Option<String>)
    ensures
        match specifier_refusal(
            spec@,
            match referrer {
                Some(p) => Some(p@),
                None => None,
            },
        ) {
            Some(m) => r matches Some(s) && s@ == m,
            None => r is None,
        },
{
    let s = chars_of(spec);
    let dot = chars_of("./");
    let dotdot = chars_of("../");
    let ts = chars_of(".ts");
    let js = chars_of(".js");
    let ghost rv = match referrer {
        Some(p) => Some(p@),
        None => None::<Seq<char>>,
    };
    if !(starts_with(s.as_slice(), dot.as_slice()) || starts_with(s.as_slice(), dotdot.as_slice())) {
        let mut m = String::new();
        push_str(&mut m, "module resolution failed: bare specifier \"");
        push_str(&mut m, spec);
        push_str(&mut m, "\" not supported");
        push_referrer_line(&mut m, referrer);
        push_str(&mut m, "\n  hint: use \"./\" or \"../\" relative import");
        proof {
            assert(m@ =~= "module resolution failed: bare specifier \""@ + spec@ + "\" not supported"@
                + referrer_line(rv) + "\n  hint: use \"./\" or \"../\" relative import"@);
        }
        return Some(m);
    }
    if !(ends_with(s.as_slice(), ts.as_slice()) || ends_with(s.as_slice(), js.as_slice())) {
        let mut m = String::new();
        push_str(&mut m, "module resolution failed: import specifier \"");
        push_str(&mut m, spec);
        push_str(&mut m, "\" has no extension");
        push_referrer_line(&mut m, referrer);
        push_str(&mut m, "\n  hint: use \"");
        push_str(&mut m, spec);
        push_str(&mut m, ".ts\" or \"");
        push_str(&mut m, spec);
        push_str(&mut m, ".js\"");
        proof {
            assert(m@ =~= "module resolution failed: import specifier \""@ + spec@
                + "\" has no extension"@ + referrer_line(rv) + "\n  hint: use \""@ + spec@
                + ".ts\" or \""@ + spec@ + ".js\""@);
        }
        return Some(m);
    }
    if referrer.is_none() {
        let mut m = String::new();
        push_str(&mut m, "module resolution failed: cannot identify referrer of \"");
        push_str(&mut m, spec);
        push_str(&mut m, "\"; module registry missing entry");
        proof {
            assert(m@ =~= "module resolution failed: cannot identify referrer of \""@ + spec@
                + "\"; module registry missing entry"@);
        }
        return Some(m);
    }
    None
}

/// The error thrown when an import cannot be resolved on disk (`reason`
/// says why).
pub fn unresolvable_import_message(spec: &str, referrer: &str, reason: &str) -> (r: String)
    ensures
        r@ == "module resolution failed: cannot resolve \""@ + spec@ + "\"\n  in "@ + redacted(
            referrer@,
        ) + "\n  reason: "@ + reason@,
{
    let mut m = String::new();
    push_str(&mut m, "module resolution failed: cannot resolve \"");
    push_str(&mut m, spec);
    push_str(&mut m, "\"\n  in ");
    push_redacted(&mut m, referrer);
    push_str(&mut m, "\n  reason: ");
    push_str(&mut m, reason);
    proof {
        assert(m@ =~= "module resolution failed: cannot resolve \""@ + spec@ + "\"\n  in "@
            + redacted(referrer@) + "\n  reason: "@ + reason@);
    }
    m
}

/// The line naming the app boundary of the importing module, when it has
/// one.
pub open spec fn boundary_line(referrer: Seq<char>) -> Seq<char> {
    match app_boundary(referrer) {
        Some(b) => "\n  boundary: "@ + redacted(b),
        None => Seq::empty(),
    }
}

/// The error thrown when an import resolves to a module outside the app's
/// bundle: the importing module, the resolved path and the app boundary,
/// all in app-relative form.
pub fn outside_boundary_message(spec: &str, referrer: &str, resolved: &str) -> (r: String)
    ensures
        r@ == "module resolution failed: \""@ + spec@ + "\" resolves outside app boundary\n  in "@
            + redacted(referrer@) + "\n  resolved to: "@ + redacted(resolved@) + boundary_line(
            referrer@,
        ),
{
    let mut m = String::new();
    push_str(&mut m, "module resolution failed: \"");
    push_str(&mut m, spec);
    push_str(&mut m, "\" resolves outside app boundary\n  in ");
    push_redacted(&mut m, referrer);
    push_str(&mut m, "\n  resolved to: ");
    push_redacted(&mut m, resolved);
    let ghost before = m@;
    match boundary_from_referrer(referrer) {
        Some(b) => {
            push_str(&mut m, "\n  boundary: ");
            push_redacted(&mut m, b.as_str());
        },
        None => {},
    }
    proof {
        assert(m@ =~= before + boundary_line(referrer@));
        assert(m@ =~= "module resolution failed: \""@ + spec@ + "\" resolves outside app boundary\n  in "@
            + redacted(referrer@) + "\n  resolved to: "@ + redacted(resolved@) + boundary_line(
            referrer@,
        ));
    }
    m
}

} // verus!
