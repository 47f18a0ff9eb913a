use md2org::document::{find_title_line_index, get_markdown_file_title, LineError, MarkdownFile};
use md2org::element::{
    build_syntax_element_struct, get_list_order, get_syntax_element_type, ElementError,
    SyntaxElementType,
};
use md2org::org::{convert_lines, render_org_document};
use md2org::paths::{build_path, expand_home, org_output_path};
use md2org::text::{find_first, get_element_text, is_blank_line, position_of, replace_first_str, trim_string};

fn lines(text: &[&str]) -> Vec<String> {
    text.iter().map(|s| s.to_string()).collect()
}

#[test]
fn converts_sample_document() {
    let input = lines(&["# My Doc", "", "## Intro", "Hello", "- item one", "- item two", "1. step one"]);
    let out = convert_lines(input).unwrap();
    assert_eq!(
        out,
        "#+TITLE: My Doc\n\n** Intro\n\n Hello\n- item one\n- item two\n1. step one\n"
    );
}

#[test]
fn line_without_space_is_header_of_depth_zero() {
    let e = build_syntax_element_struct("Hello".to_string()).unwrap();
    assert_eq!(e.element_type, SyntaxElementType::Header);
    assert_eq!(e.element_depth, 0);
    assert_eq!(e.list_order, '*');
    assert_eq!(e.element_text, "Hello");
}

#[test]
fn home_path_is_expanded() {
    let read = expand_home("~/notes.md", "/home/alice");
    assert_eq!(read, "/home/alice/notes.md");
    assert_eq!(org_output_path(&read), "/home/alice/notes.org");
}

#[test]
fn other_paths_are_kept() {
    assert_eq!(expand_home("notes.md", "/home/alice"), "notes.md");
    assert_eq!(expand_home("/tmp/~/a.md", "/home/alice"), "/tmp/~/a.md");
    assert_eq!(build_path("docs/a.md"), Some("docs/a.md".to_string()));
}

#[test]
fn only_first_md_is_replaced() {
    assert_eq!(org_output_path("notes.md.backup.md"), "notes.org.backup.md");
    assert_eq!(org_output_path("plain"), "plain");
}

#[test]
fn lone_dash_has_no_text() {
    assert_eq!(get_element_text("-".to_string()), "");
    assert_eq!(
        build_syntax_element_struct("-".to_string()).unwrap_err(),
        ElementError::NoText
    );
}

#[test]
fn ordered_entry_keeps_first_digit_only() {
    let e = build_syntax_element_struct("10. ten".to_string()).unwrap();
    assert_eq!(e.element_type, SyntaxElementType::OrderedEntry);
    assert_eq!(e.list_order, '1');
    assert_eq!(e.element_depth, 3);
    assert_eq!(e.element_text, "ten");
}

#[test]
fn no_title_line_gives_empty_title() {
    let input = lines(&["Intro text", "- item"]);
    assert_eq!(get_markdown_file_title(&input), "");
    assert_eq!(find_title_line_index(&input), None);
    let file = MarkdownFile::new(input);
    assert_eq!(file.body_start_index, 0);
    assert_eq!(file.title, "");
}

#[test]
fn title_is_trimmed_and_loses_first_marker() {
    let input = lines(&["front", "  # Title # more  ", "- a"]);
    assert_eq!(find_title_line_index(&input), Some(1));
    assert_eq!(get_markdown_file_title(&input), "Title # more");
}

#[test]
fn blank_lines_give_no_element() {
    let input = lines(&["# T", "", "- a", "   ", "\t", "1. b", ""]);
    let file = MarkdownFile::new(input);
    let elements = file.get_syntax_elements().unwrap();
    assert_eq!(elements.len(), 2);
    assert_eq!(elements[0].element_text, "a");
    assert_eq!(elements[1].element_text, "b");
}

#[test]
fn front_matter_is_skipped() {
    let input = lines(&["- before", "# T", "- after"]);
    let file = MarkdownFile::new(input);
    assert_eq!(file.body_start_index, 2);
    let elements = file.get_syntax_elements().unwrap();
    assert_eq!(elements.len(), 1);
    assert_eq!(elements[0].element_text, "after");
}

#[test]
fn classification_is_repeatable() {
    for line in ["- a", "3. c", "## h", "text", "#"] {
        let first = get_syntax_element_type(line.to_string());
        let second = get_syntax_element_type(line.to_string());
        assert_eq!(first, second);
    }
    assert_eq!(get_syntax_element_type("- a".to_string()), SyntaxElementType::UnorderedEntry);
    assert_eq!(get_syntax_element_type("7 x".to_string()), SyntaxElementType::OrderedEntry);
    assert_eq!(get_syntax_element_type("# h".to_string()), SyntaxElementType::Header);
    assert_eq!(get_syntax_element_type("".to_string()), SyntaxElementType::Header);
}

#[test]
fn list_order_by_kind() {
    assert_eq!(get_list_order(&SyntaxElementType::Header, "## x".to_string()), '*');
    assert_eq!(get_list_order(&SyntaxElementType::UnorderedEntry, "- x".to_string()), '-');
    assert_eq!(get_list_order(&SyntaxElementType::OrderedEntry, "4. x".to_string()), '4');
}

#[test]
fn markers_are_rendered() {
    let elements = vec![
        build_syntax_element_struct("- item".to_string()).unwrap(),
        build_syntax_element_struct("### Deep".to_string()).unwrap(),
        build_syntax_element_struct("2. two".to_string()).unwrap(),
    ];
    assert_eq!(
        render_org_document("T", &elements),
        "#+TITLE: T\n- item\n\n*** Deep\n2. two\n"
    );
}

#[test]
fn text_extraction_is_idempotent() {
    let once = get_element_text("## Intro  ".to_string());
    assert_eq!(once, "Intro");
    let twice = get_element_text(once.clone());
    assert_eq!(twice, once);
    assert_eq!(get_element_text("Plain words".to_string()), "Plain words");
}

#[test]
fn deep_header_is_rejected() {
    assert_eq!(
        build_syntax_element_struct("###### Six".to_string()).unwrap_err(),
        ElementError::TooDeep
    );
    let e = build_syntax_element_struct("##### Five".to_string()).unwrap();
    assert_eq!(e.element_depth, 5);
}

#[test]
fn failing_line_is_reported() {
    let input = lines(&["# T", "- a", "", "1. ..."]);
    assert_eq!(
        convert_lines(input),
        Err(LineError { line_index: 3, error: ElementError::NoText })
    );
}

#[test]
fn text_helpers() {
    assert_eq!(trim_string("  a b \t"), "a b");
    assert!(is_blank_line(" \t "));
    assert!(is_blank_line(""));
    assert!(!is_blank_line(" x "));
    assert_eq!(position_of("ab cd", ' '), Some(2));
    assert_eq!(position_of("abcd", ' '), None);
    assert_eq!(find_first("xx# y", "# "), Some(2));
    assert_eq!(find_first("xx#y", "# "), None);
    assert_eq!(replace_first_str("a-b-c", "-", "+"), "a+b-c");
}
