use riversd::placeholders::rewrite_positional_placeholders;

#[test]
fn rewrites_question_marks_to_underscored_named_placeholders() {
    let (out, n) = rewrite_positional_placeholders("SELECT * FROM t WHERE a = ? AND b = ?");
    assert_eq!(out, "SELECT * FROM t WHERE a = $_p1 AND b = $_p2");
    assert_eq!(n, 2);
}

#[test]
fn rewrites_dollar_numeric_to_underscored_named_placeholders() {
    let (out, n) = rewrite_positional_placeholders("SELECT * FROM t WHERE id = $1 AND x = $2");
    assert_eq!(out, "SELECT * FROM t WHERE id = $_p1 AND x = $_p2");
    assert_eq!(n, 2);
}

#[test]
fn preserves_string_literals_with_question_marks_and_dollars() {
    let (out, n) = rewrite_positional_placeholders(
        "INSERT INTO t (msg) VALUES ('what ? $1 ?') /* trailing */",
    );
    assert_eq!(out, "INSERT INTO t (msg) VALUES ('what ? $1 ?') /* trailing */");
    assert_eq!(n, 0);
}

#[test]
fn handles_doubled_quote_escape_inside_string_literal() {
    let (out, n) = rewrite_positional_placeholders(
        "SELECT * FROM t WHERE name = 'O''Rourke?' AND id = ?",
    );
    assert_eq!(out, "SELECT * FROM t WHERE name = 'O''Rourke?' AND id = $_p1");
    assert_eq!(n, 1);
}

#[test]
fn leaves_identifier_adjacent_dollar_alone() {
    let (out, n) = rewrite_positional_placeholders("SELECT col$1 FROM t");
    assert_eq!(out, "SELECT col$1 FROM t");
    assert_eq!(n, 0);
}

#[test]
fn sparse_dollar_numeric_tracks_max_index() {
    let (out, n) = rewrite_positional_placeholders("SELECT $1, $3 FROM t");
    assert_eq!(out, "SELECT $_p1, $_p3 FROM t");
    assert_eq!(n, 3);
}

#[test]
fn empty_sql_yields_no_placeholders() {
    let (out, n) = rewrite_positional_placeholders("");
    assert_eq!(out, "");
    assert_eq!(n, 0);
}

#[test]
fn question_marks_continue_after_highest_dollar_number() {
    let (out, n) = rewrite_positional_placeholders("a = $2 AND b = ?");
    assert_eq!(out, "a = $_p2 AND b = $_p3");
    assert_eq!(n, 3);
}

#[test]
fn dollar_zero_and_leading_zeros() {
    let (out, n) = rewrite_positional_placeholders("x = $0 AND y = $007");
    assert_eq!(out, "x = $0 AND y = $_p7");
    assert_eq!(n, 7);
}

#[test]
fn dollar_number_too_large_is_left_alone() {
    let (out, n) = rewrite_positional_placeholders("x = $99999999999999999999999");
    assert_eq!(out, "x = $99999999999999999999999");
    assert_eq!(n, 0);
}

#[test]
fn unterminated_literal_suppresses_rest() {
    let (out, n) = rewrite_positional_placeholders("'abc ? $1");
    assert_eq!(out, "'abc ? $1");
    assert_eq!(n, 0);
}

#[test]
fn non_ascii_text_is_copied_unchanged() {
    let (out, n) = rewrite_positional_placeholders("SELECT café FROM t WHERE n = ?");
    assert_eq!(out, "SELECT café FROM t WHERE n = $_p1");
    assert_eq!(n, 1);
    let (out, n) = rewrite_positional_placeholders("SELECT 'naïve ?' , é$2 , ü ? ");
    assert_eq!(out, "SELECT 'naïve ?' , é$_p2 , ü $_p3 ");
    assert_eq!(n, 3);
}
