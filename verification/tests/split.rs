use odbc_tools::split::{split_statements, ScriptSplitter, SplitError};

fn split(script: &str) -> Vec<String> {
    split_statements(script).expect("script splits")
}

#[test]
fn semicolon_in_quoted_literal_is_no_terminator() {
    assert_eq!(split("select ';'; select 2"), vec!["select ';'", "select 2"]);
}

#[test]
fn semicolon_in_double_quotes_is_no_terminator() {
    assert_eq!(split("select \"a;b\" from t; select 1;"), vec!["select \"a;b\" from t", "select 1"]);
}

#[test]
fn escaped_quote_does_not_close_the_literal() {
    assert_eq!(
        split("SELECT 'foo; b\\'ar';\nSELECT 1;"),
        vec!["SELECT 'foo; b\\'ar'", "SELECT 1"]
    );
}

#[test]
fn semicolon_in_line_comment_is_no_terminator() {
    assert_eq!(split("select 1 -- one; two\n, 2; select 3"), vec!["select 1 \n, 2", "select 3"]);
}

#[test]
fn semicolon_in_block_comment_is_no_terminator() {
    assert_eq!(split("select /* a; b */ 1; select 2"), vec!["select  1", "select 2"]);
}

#[test]
fn block_comment_opener_is_not_its_own_end() {
    assert_eq!(split("a /*/ b; */ c; d"), vec!["a  c", "d"]);
}

#[test]
fn block_comment_ends_after_several_stars() {
    assert_eq!(split("a /* x **/ b; c"), vec!["a  b", "c"]);
}

#[test]
fn comments_alone_make_no_statement() {
    assert_eq!(split("-- Foo\n---\n/* bar; */ ;\n"), Vec::<String>::new());
}

#[test]
fn empty_statements_are_dropped() {
    assert_eq!(split(" ; ;\n\t;select 1;;"), vec!["select 1"]);
    assert_eq!(split(""), Vec::<String>::new());
}

#[test]
fn statements_are_trimmed() {
    assert_eq!(split("  \n select 1 \t\r\n ;\n  select 2  "), vec!["select 1", "select 2"]);
}

#[test]
fn script_of_several_lines_splits_in_order() {
    let script = "-- Foo\n---\nCREATE DATABASE IF NOT EXISTS daily_reports;\nUSE daily_reports;\n\nSELECT *;";
    assert_eq!(
        split(script),
        vec!["CREATE DATABASE IF NOT EXISTS daily_reports", "USE daily_reports", "SELECT *"]
    );
}

#[test]
fn single_dash_and_slash_are_statement_text() {
    assert_eq!(split("select 1 - 2 / 3; select 4 * 5"), vec!["select 1 - 2 / 3", "select 4 * 5"]);
}

#[test]
fn quote_inside_comment_opens_no_literal() {
    assert_eq!(split("select 1 -- it's\n; select 2 /* \" */;"), vec!["select 1", "select 2"]);
}

#[test]
fn comment_opener_inside_literal_opens_no_comment() {
    assert_eq!(split("select '--'; select '/*'; select 3"), vec!["select '--'", "select '/*'", "select 3"]);
}

#[test]
fn non_ascii_text_is_kept() {
    assert_eq!(split("select 'zażółć; ł'; select 2"), vec!["select 'zażółć; ł'", "select 2"]);
}

#[test]
fn unterminated_single_quote_is_refused() {
    assert_eq!(split_statements("select 1; select 'abc"), Err(SplitError::UnterminatedQuote));
}

#[test]
fn unterminated_double_quote_is_refused() {
    assert_eq!(split_statements("select \"abc;"), Err(SplitError::UnterminatedQuote));
}

#[test]
fn script_ending_after_backslash_in_literal_is_refused() {
    assert_eq!(split_statements("select 'abc\\"), Err(SplitError::UnterminatedQuote));
    assert_eq!(split_statements("select 'abc\\'"), Err(SplitError::UnterminatedQuote));
}

#[test]
fn unterminated_block_comment_is_no_error() {
    assert_eq!(split("select 1; /* never closed ' "), vec!["select 1"]);
}

#[test]
fn split_error_has_a_message() {
    assert_eq!(SplitError::UnterminatedQuote.message(), "unterminated quoted literal in script");
}

#[test]
fn splitter_hands_out_statements_one_by_one() {
    let mut splitter = ScriptSplitter::new("select ';'; ; select 2 -- end\n; select 3");
    assert_eq!(splitter.next_statement(), Some(Ok("select ';'".to_string())));
    assert_eq!(splitter.next_statement(), Some(Ok("select 2".to_string())));
    assert_eq!(splitter.next_statement(), Some(Ok("select 3".to_string())));
    assert_eq!(splitter.next_statement(), None);
    assert_eq!(splitter.next_statement(), None);
}

#[test]
fn splitter_fails_after_the_statements_that_ended() {
    let mut splitter = ScriptSplitter::new("select 1; select 2; select 'abc");
    assert_eq!(splitter.next_statement(), Some(Ok("select 1".to_string())));
    assert_eq!(splitter.next_statement(), Some(Ok("select 2".to_string())));
    assert_eq!(splitter.next_statement(), Some(Err(SplitError::UnterminatedQuote)));
    assert_eq!(splitter.next_statement(), None);
}

#[test]
fn splitter_of_nothing_ends_at_once() {
    let mut splitter = ScriptSplitter::new(" ;; -- nothing\n");
    assert_eq!(splitter.next_statement(), None);
    assert_eq!(splitter.next_statement(), None);
}

#[test]
fn abandoned_splitter_hands_out_nothing_more() {
    let mut splitter = ScriptSplitter::new("select 1; select 2; select 3");
    assert_eq!(splitter.next_statement(), Some(Ok("select 1".to_string())));
    splitter.abandon();
    assert_eq!(splitter.next_statement(), None);
}

#[test]
fn splitter_and_whole_split_agree() {
    let scripts = [
        "select ';'; select 2",
        "a; b /* ; */; 'c;' ; \"d\" -- e\n; f",
        "",
        ";;;",
        "x",
        "select 'it\\'s; here'; done;",
    ];
    for script in scripts {
        let mut splitter = ScriptSplitter::new(script);
        let mut seen = Vec::new();
        while let Some(item) = splitter.next_statement() {
            seen.push(item.unwrap());
        }
        assert_eq!(Ok(seen), split_statements(script));
    }
}
