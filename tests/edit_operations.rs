use mcp_edit_core::apply_diff::{ApplyDiffTool, DiffContent};
use mcp_edit_core::edit::EditRequest;
use mcp_edit_core::error::{DiffFormatProblem, EditError};
use mcp_edit_core::insert_content::InsertContentTool;
use mcp_edit_core::render::create_diff_output;
use mcp_edit_core::search_and_replace::{SearchReplaceOperation, SearchReplaceTool};

fn op(search: &str, replace: &str) -> SearchReplaceOperation {
    SearchReplaceOperation {
        search: search.to_string(),
        replace: replace.to_string(),
        use_regex: None,
        start_line: None,
        end_line: None,
        ignore_case: None,
    }
}

fn block(search: &str, replace: &str) -> String {
    format!(
        "<<<<<<< SEARCH\n:start_line: 1\n-------\n{}\n=======\n{}\n>>>>>>> REPLACE",
        search, replace
    )
}

#[test]
fn test_regex_replacement_functionality() {
    let edits = vec![SearchReplaceOperation {
        search: r"line\d".to_string(),
        replace: "replaced".to_string(),
        use_regex: Some(true),
        start_line: None,
        end_line: None,
        ignore_case: None,
    }];

    let result = SearchReplaceTool::apply_edits("line1\nline2\nline3", &edits);
    assert!(result.is_ok());
    assert_eq!(result.unwrap(), "replaced\nreplaced\nreplaced");
}

#[test]
fn literal_round_trip_restores_content() {
    let content = "alpha beta alpha\ngamma alpha";
    let forward = SearchReplaceTool::apply_edits(content, &vec![op("alpha", "#omega")]).unwrap();
    assert_eq!(forward, "#omega beta #omega\ngamma #omega");
    let back = SearchReplaceTool::apply_edits(&forward, &vec![op("#omega", "alpha")]).unwrap();
    assert_eq!(back, content);
    let both = SearchReplaceTool::apply_edits(content, &vec![op("alpha", "#omega"), op("#omega", "alpha")]);
    assert_eq!(both.unwrap(), content);
}

#[test]
fn operations_apply_in_order() {
    let edits = vec![op("a", "b"), op("b", "c")];
    assert_eq!(SearchReplaceTool::apply_edits("ab", &edits).unwrap(), "cc");
}

#[test]
fn empty_search_matches_between_characters() {
    assert_eq!(SearchReplaceTool::apply_edits("ab", &vec![op("", "-")]).unwrap(), "-a-b-");
}

#[test]
fn line_range_restricts_replacement() {
    let mut edit = op("x", "y");
    edit.start_line = Some(2);
    edit.end_line = Some(3);
    let out = SearchReplaceTool::apply_edits("x1\nx2\nx3\nx4", &vec![edit]).unwrap();
    assert_eq!(out, "x1\ny2\ny3\nx4");

    let mut from_three = op("x", "y");
    from_three.start_line = Some(3);
    let out = SearchReplaceTool::apply_edits("x1\nx2\nx3\nx4", &vec![from_three]).unwrap();
    assert_eq!(out, "x1\nx2\ny3\ny4");
}

#[test]
fn bad_line_ranges_are_rejected() {
    let mut reversed = op("x", "y");
    reversed.start_line = Some(3);
    reversed.end_line = Some(2);
    assert_eq!(
        SearchReplaceTool::apply_edits("x\nx\nx\n", &vec![reversed]),
        Err(EditError::InvalidLineRange)
    );
    let mut beyond = op("x", "y");
    beyond.end_line = Some(4);
    assert_eq!(
        SearchReplaceTool::apply_edits("x\nx\nx\n", &vec![beyond]),
        Err(EditError::InvalidLineRange)
    );
    let mut zero = op("x", "y");
    zero.start_line = Some(0);
    assert_eq!(
        SearchReplaceTool::apply_edits("x", &vec![zero]),
        Err(EditError::InvalidLineRange)
    );
}

#[test]
fn invalid_pattern_is_rejected() {
    let mut edit = op("(unclosed", "y");
    edit.use_regex = Some(true);
    assert_eq!(SearchReplaceTool::apply_edits("text", &vec![edit]), Err(EditError::InvalidPattern));
}

#[test]
fn ignore_case_matches_literally() {
    let mut edit = op("A.B", "$1 ok");
    edit.ignore_case = Some(true);
    let out = SearchReplaceTool::apply_edits("a.b aXb A.B", &vec![edit]).unwrap();
    assert_eq!(out, "$1 ok aXb $1 ok");
}

#[test]
fn regex_replacement_expands_groups() {
    let mut edit = op(r"(\w+)@(\w+)", "$2 at $1");
    edit.use_regex = Some(true);
    let out = SearchReplaceTool::apply_edits("me@home", &vec![edit]).unwrap();
    assert_eq!(out, "home at me");
}

#[test]
fn parse_diff_extracts_both_parts() {
    let text = "<<<<<<< SEARCH\n:start_line: 3\n-------\nold one\nold two\n=======\nnew\n>>>>>>> REPLACE\n";
    let (search, replace) = ApplyDiffTool::parse_diff_content(text).unwrap();
    assert_eq!(search, "old one\nold two");
    assert_eq!(replace, "new");
}

#[test]
fn parse_diff_accepts_padded_markers_and_crlf() {
    let text = "  <<<<<<< SEARCH\r\n:start_line: 1\r\n------- \r\nold\r\n=======\r\nnew\r\n>>>>>>> REPLACE\t";
    let (search, replace) = ApplyDiffTool::parse_diff_content(text).unwrap();
    assert_eq!(search, "old");
    assert_eq!(replace, "new");
}

#[test]
fn missing_search_separator_is_malformed() {
    let text = "<<<<<<< SEARCH\n:start_line: 1\nfoo\nbar\n=======\nbaz\n>>>>>>> REPLACE";
    assert_eq!(
        ApplyDiffTool::parse_diff_content(text),
        Err(EditError::MalformedDiff(DiffFormatProblem::MissingSearchSeparator))
    );
    let request = EditRequest::ApplyDiff(ApplyDiffTool {
        path: "f.txt".to_string(),
        diff: DiffContent { content: text.to_string(), start_line: 1 },
    });
    assert_eq!(
        request.check_before_read(0),
        Err(EditError::MalformedDiff(DiffFormatProblem::MissingSearchSeparator))
    );
}

#[test]
fn other_grammar_failures() {
    assert_eq!(
        ApplyDiffTool::parse_diff_content("<<<<<<< SEARCH\n-------\n=======\n>>>>>>> REPLACE"),
        Err(EditError::MalformedDiff(DiffFormatProblem::TooShort))
    );
    assert_eq!(
        ApplyDiffTool::parse_diff_content(&block("a", "b").replacen("<<<<<<< SEARCH", "<<< SEARCH", 1)),
        Err(EditError::MalformedDiff(DiffFormatProblem::MissingHeader))
    );
    assert_eq!(
        ApplyDiffTool::parse_diff_content(&block("a", "b").replace(">>>>>>> REPLACE", "end")),
        Err(EditError::MalformedDiff(DiffFormatProblem::MissingFooter))
    );
    assert_eq!(
        ApplyDiffTool::parse_diff_content(&block("a", "b").replace("=======", "=== ===")),
        Err(EditError::MalformedDiff(DiffFormatProblem::MissingReplaceSeparator))
    );
}

#[test]
fn apply_diff_replaces_first_occurrence_only() {
    let out = ApplyDiffTool::apply_diff_to_content("foo bar foo", "foo", "baz", 7).unwrap();
    assert_eq!(out, "baz bar foo");
}

#[test]
fn apply_diff_preserves_surrounding_text() {
    let content = "héllo\nwörld\n";
    let out = ApplyDiffTool::apply_diff_to_content(content, "wörld", "earth", 2).unwrap();
    assert_eq!(out, "héllo\nearth\n");
}

#[test]
fn apply_diff_absent_text_is_not_found() {
    assert_eq!(
        ApplyDiffTool::apply_diff_to_content("bar", "foo", "baz", 1),
        Err(EditError::ContentNotFound)
    );
    let request = EditRequest::ApplyDiff(ApplyDiffTool {
        path: "f.txt".to_string(),
        diff: DiffContent { content: block("foo", "baz"), start_line: 1 },
    });
    assert_eq!(request.check_before_read(3), Ok(()));
    assert!(matches!(request.plan_edit("bar"), Err(EditError::ContentNotFound)));
}

#[test]
fn insert_at_line_zero_appends() {
    assert_eq!(
        InsertContentTool::insert_content_at_line("abc\n", 0, "tail text that is long").unwrap(),
        "abc\ntail text that is long"
    );
}

#[test]
fn insert_before_line_adds_its_lines() {
    let content = "one\ntwo\nthree\n";
    let out = InsertContentTool::insert_content_at_line(content, 2, "new\n").unwrap();
    assert_eq!(out, "one\nnew\ntwo\nthree\n");
    assert_eq!(out.matches('\n').count(), content.matches('\n').count() + 1);
    assert_eq!(out.lines().nth(1), Some("new"));
    assert_eq!(
        InsertContentTool::insert_content_at_line(content, 1, "top\n").unwrap(),
        "top\none\ntwo\nthree\n"
    );
    assert_eq!(
        InsertContentTool::insert_content_at_line(content, 9, "end").unwrap(),
        "one\ntwo\nthree\nend"
    );
}

#[test]
fn oversized_insertion_is_suspicious() {
    assert_eq!(
        InsertContentTool::insert_content_at_line("ab", 1, "abc"),
        Err(EditError::SuspiciousResultSize)
    );
    assert_eq!(
        InsertContentTool::insert_content_at_line("", 1, "x"),
        Err(EditError::SuspiciousResultSize)
    );
}

#[test]
fn large_files_are_refused_for_insertion() {
    assert_eq!(
        InsertContentTool::check_file_size(50 * 1024 * 1024 + 1),
        Err(EditError::FileTooLargeForInMemoryEdit)
    );
    assert_eq!(InsertContentTool::check_file_size(50 * 1024 * 1024), Ok(()));
    let request = EditRequest::InsertContent(InsertContentTool {
        path: "big.txt".to_string(),
        line: 1,
        content: "x".to_string(),
    });
    assert_eq!(request.check_before_read(60 * 1024 * 1024), Err(EditError::FileTooLargeForInMemoryEdit));
}

#[test]
fn preview_has_index_rule_and_hunks() {
    let preview = create_diff_output("a\nb\n", "a\nc\n", "src/x.txt");
    let expected = format!(
        "Index: src/x.txt\n{}\n--- a/src/x.txt\n+++ b/src/x.txt\n@@ -1,2 +1,2 @@\n a\n-b\n+c\n",
        "=".repeat(68)
    );
    assert_eq!(preview, expected);
    assert_eq!(create_diff_output("same\n", "same\n", "p"), format!("Index: p\n{}\n", "=".repeat(68)));
}

#[test]
fn dry_run_previews_without_writing() {
    let make = |dry: Option<bool>| {
        EditRequest::SearchReplace(SearchReplaceTool {
            path: "notes.txt".to_string(),
            edits: vec![op("cat", "dog")],
            dry_run: dry,
        })
    };
    let dry = make(Some(true));
    let wet = make(Some(false));
    assert!(!dry.writes_file());
    assert!(wet.writes_file());
    let a = dry.plan_edit("a cat\n").unwrap();
    let b = wet.plan_edit("a cat\n").unwrap();
    assert_eq!(a.diff_preview, b.diff_preview);
    assert_eq!(a.modified_content, "a dog\n");
    assert_eq!(b.modified_content, "a dog\n");
}

#[test]
fn plan_edit_renders_preview_for_insertion() {
    let request = EditRequest::InsertContent(InsertContentTool {
        path: "f.txt".to_string(),
        line: 0,
        content: "z\n".to_string(),
    });
    let outcome = request.plan_edit("y\n").unwrap();
    assert_eq!(outcome.modified_content, "y\nz\n");
    assert_eq!(outcome.diff_preview, create_diff_output("y\n", "y\nz\n", "f.txt"));
    assert!(outcome.diff_preview.contains("+z"));
}
