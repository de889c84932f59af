use riversd::app_paths::{components, redact_to_app_relative};

#[test]
fn macos_workspace_path_redacts_to_app_relative() {
    let input = "/Users/me/proj/my-app/libraries/handlers/foo.ts";
    let out = redact_to_app_relative(input);
    assert_eq!(out, "my-app/libraries/handlers/foo.ts");
}

#[test]
fn linux_deploy_path_redacts_to_app_relative() {
    let input = "/srv/rivers/canary/libraries/setup.ts";
    let out = redact_to_app_relative(input);
    assert_eq!(out, "canary/libraries/setup.ts");
}

#[test]
fn no_libraries_segment_passes_through_unchanged() {
    let input = "inline.ts";
    let out = redact_to_app_relative(input);
    assert_eq!(out, "inline.ts");
    assert!(matches!(out, std::borrow::Cow::Borrowed(_)));
}

#[test]
fn already_relative_path_passes_through_unchanged() {
    let input = "my-app/libraries/handlers/foo.ts";
    let out = redact_to_app_relative(input);
    assert_eq!(out, "my-app/libraries/handlers/foo.ts");
}

#[test]
fn empty_string_passes_through_unchanged() {
    let out = redact_to_app_relative("");
    assert_eq!(out, "");
}

#[test]
fn deep_nesting_preserved_below_app_dir() {
    let input = "/var/lib/rivers/instances/prod/canary/libraries/handlers/orders/list.ts";
    let out = redact_to_app_relative(input);
    assert_eq!(out, "canary/libraries/handlers/orders/list.ts");
}

#[test]
fn libraries_at_root_falls_back_to_input() {
    let input = "/libraries/foo.ts";
    let out = redact_to_app_relative(input);
    assert_eq!(out, "/libraries/foo.ts");
}

#[test]
fn trailing_slash_does_not_break_walk() {
    let input = "/Users/me/my-app/libraries/handlers/foo.ts/";
    let out = redact_to_app_relative(input);
    assert_eq!(out, "my-app/libraries/handlers/foo.ts");
}

#[test]
fn redaction_is_idempotent_on_an_example() {
    let once = redact_to_app_relative("/a/b/app/libraries/x/y.ts").into_owned();
    let twice = redact_to_app_relative(&once).into_owned();
    assert_eq!(once, "app/libraries/x/y.ts");
    assert_eq!(once, twice);
}

#[test]
fn last_libraries_component_is_the_anchor() {
    let out = redact_to_app_relative("/x/libraries/app/libraries/h.ts");
    assert_eq!(out, "app/libraries/h.ts");
}

#[test]
fn repeated_separators_and_dots_are_normalised() {
    let out = redact_to_app_relative("/srv//app/./libraries/h.ts");
    assert_eq!(out, "app/libraries/h.ts");
}

#[test]
fn components_follow_path_rules() {
    let c = components("./a//b/./c/");
    let names: Vec<String> = c.iter().map(|v| v.iter().collect()).collect();
    assert_eq!(names, vec![".", "a", "b", "c"]);
    let c = components("/x/../y");
    let names: Vec<String> = c.iter().map(|v| v.iter().collect()).collect();
    assert_eq!(names, vec!["x", "..", "y"]);
}
