use riversd::module_resolution::check_import_specifier;
use riversd::module_syntax::{is_ident_byte, is_module_syntax};

#[test]
fn detects_module_keywords_at_boundaries() {
    assert!(is_module_syntax("export function handler() {}"));
    assert!(is_module_syntax("import { a } from './a.ts';"));
    assert!(is_module_syntax("const x = 1;export default x"));
    assert!(is_module_syntax("\n\timport x from './x.js'"));
}

#[test]
fn ignores_comments_and_strings() {
    assert!(!is_module_syntax("// export the thing\nfunction handler() {}"));
    assert!(!is_module_syntax("/* import x */ function f() {}"));
    assert!(!is_module_syntax("const s = \"import foo\";"));
    assert!(!is_module_syntax("const s = 'export x';"));
    assert!(!is_module_syntax("const s = `import ${x}`;"));
    assert!(!is_module_syntax("const s = \"a\\\" import b\";"));
}

#[test]
fn keyword_must_stand_alone() {
    assert!(!is_module_syntax("exports.handler = 1"));
    assert!(!is_module_syntax("importer()"));
    assert!(!is_module_syntax("x.export = 1"));
    assert!(is_module_syntax("export"));
    assert!(!is_module_syntax(""));
}

#[test]
fn keyword_after_comment_end_counts() {
    assert!(is_module_syntax("/* c */export const a = 1"));
    assert!(!is_module_syntax("/* unterminated export"));
}

#[test]
fn identifier_bytes() {
    assert!(is_ident_byte(b'_'));
    assert!(is_ident_byte(b'$'));
    assert!(is_ident_byte(b'z'));
    assert!(!is_ident_byte(b' '));
    assert!(!is_ident_byte(b'('));
}

#[test]
fn import_specifier_rules() {
    assert!(check_import_specifier("./a.ts", Some("/x/app/libraries/m.ts")).is_none());
    assert!(check_import_specifier("../b/c.js", Some("/x/app/libraries/m.ts")).is_none());
    assert_eq!(
        check_import_specifier("lodash", Some("/home/u/app/libraries/h.ts")).unwrap(),
        "module resolution failed: bare specifier \"lodash\" not supported\n  in app/libraries/h.ts\n  hint: use \"./\" or \"../\" relative import"
    );
    assert_eq!(
        check_import_specifier("./util", None).unwrap(),
        "module resolution failed: import specifier \"./util\" has no extension\n  hint: use \"./util.ts\" or \"./util.js\""
    );
    assert_eq!(
        check_import_specifier("./util.ts", None).unwrap(),
        "module resolution failed: cannot identify referrer of \"./util.ts\"; module registry missing entry"
    );
}
