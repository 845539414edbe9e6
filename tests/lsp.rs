use stylua_lsp::diff::{diff_op_to_text_edit, text_edits, DiffOp, LineEndings, TextEdit};
use stylua_lsp::folders::{WorkspaceFolder, WorkspaceFolders};
use stylua_lsp::format::{
    format_document, get_config, prepare_format, FormatConfig, FormatError, FormatJob,
    FormattingOptions, IndentType, OffsetRange,
};
use stylua_lsp::patch::{apply_change, apply_changes, ChangeEvent, PatchError};
use stylua_lsp::position::{position_to_offset, Position, Range};
use stylua_lsp::session::supports_utf8;

fn pos(line: u32, character: u32) -> Position {
    Position { line, character }
}

fn range(a: (u32, u32), b: (u32, u32)) -> Range {
    Range { start: pos(a.0, a.1), end: pos(b.0, b.1) }
}

fn edit(a: (u32, u32), b: (u32, u32), text: &str) -> (Range, String) {
    (range(a, b), text.to_string())
}

fn parts(edits: &[TextEdit]) -> Vec<(Range, String)> {
    edits.iter().map(|e| (e.range, e.new_text.clone())).collect()
}

fn folder(uri: &str, name: &str) -> WorkspaceFolder {
    WorkspaceFolder { uri: uri.to_string(), name: name.to_string() }
}

fn unix_config() -> FormatConfig {
    FormatConfig { indent_width: 4, indent_type: IndentType::Tabs, line_endings: LineEndings::Unix }
}

#[test]
fn offset_of_line_starts_and_characters() {
    let text = "ab\ncde\nf";
    assert_eq!(position_to_offset(pos(0, 0), text), Some(0));
    assert_eq!(position_to_offset(pos(0, 2), text), Some(2));
    assert_eq!(position_to_offset(pos(1, 0), text), Some(3));
    assert_eq!(position_to_offset(pos(1, 3), text), Some(6));
    assert_eq!(position_to_offset(pos(2, 0), text), Some(7));
    assert_eq!(position_to_offset(pos(2, 1), text), Some(8));
}

#[test]
fn offsets_stay_within_buffer() {
    let text = "ab\ncd\n";
    for line in 0..4u32 {
        for character in 0..10u32 {
            if let Some(o) = position_to_offset(pos(line, character), text) {
                assert!(o <= text.len());
            }
        }
    }
    assert_eq!(position_to_offset(pos(1, 3), text), Some(6));
    assert_eq!(position_to_offset(pos(1, 4), text), None);
}

#[test]
fn distinct_lines_start_at_distinct_offsets() {
    let text = "x\n\ny\n";
    let starts: Vec<usize> = (0..3).map(|l| position_to_offset(pos(l, 0), text).unwrap()).collect();
    assert_eq!(starts, vec![0, 2, 3]);
}

#[test]
fn missing_line_fails() {
    assert_eq!(position_to_offset(pos(2, 0), "a\nb\n"), None);
    assert_eq!(position_to_offset(pos(7, 0), "a\nb"), None);
    assert_eq!(position_to_offset(pos(0, 0), ""), None);
}

#[test]
fn offset_inside_a_character_fails() {
    let text = "\u{e9}x";
    assert_eq!(position_to_offset(pos(0, 1), text), None);
    assert_eq!(position_to_offset(pos(0, 2), text), Some(2));
    assert_eq!(position_to_offset(pos(0, 3), text), Some(3));
}

#[test]
fn full_replacement_yields_event_text() {
    let mut doc = "old text\nhere".to_string();
    let ev = ChangeEvent { range: None, text: "brand new\n".to_string() };
    assert_eq!(apply_change(&mut doc, &ev), Ok(()));
    assert_eq!(doc, "brand new\n");
}

#[test]
fn range_replacement_splices_text() {
    let mut doc = "hello world\n".to_string();
    let ev = ChangeEvent { range: Some(range((0, 6), (0, 11))), text: "there".to_string() };
    assert_eq!(apply_change(&mut doc, &ev), Ok(()));
    assert_eq!(doc, "hello there\n");
}

#[test]
fn batch_applies_events_against_successive_snapshots() {
    let mut doc = "abc\ndef\n".to_string();
    let events = vec![
        ChangeEvent { range: Some(range((0, 1), (0, 2))), text: "XYZ\n".to_string() },
        ChangeEvent { range: Some(range((2, 0), (2, 1))), text: "q".to_string() },
    ];
    assert_eq!(apply_changes(&mut doc, &events), Ok(()));
    assert_eq!(doc, "aXYZ\nc\nqef\n");

    let mut one_by_one = "abc\ndef\n".to_string();
    for ev in &events {
        apply_change(&mut one_by_one, ev).unwrap();
    }
    assert_eq!(doc, one_by_one);
}

#[test]
fn batch_with_unresolved_range_fails_and_keeps_document() {
    let mut doc = "abc\n".to_string();
    let events = vec![
        ChangeEvent { range: Some(range((0, 0), (0, 1))), text: "z".to_string() },
        ChangeEvent { range: Some(range((5, 0), (5, 0))), text: "q".to_string() },
    ];
    assert_eq!(apply_changes(&mut doc, &events), Err(PatchError::UnresolvedPosition(pos(5, 0))));
    assert_eq!(doc, "abc\n");
}

#[test]
fn inverted_range_fails() {
    let mut doc = "abcdef".to_string();
    let ev = ChangeEvent { range: Some(range((0, 4), (0, 1))), text: "".to_string() };
    assert_eq!(apply_change(&mut doc, &ev), Err(PatchError::InvertedRange(4, 1)));
    assert_eq!(doc, "abcdef");
}

#[test]
fn unresolved_end_fails() {
    let mut doc = "abc".to_string();
    let ev = ChangeEvent { range: Some(range((0, 0), (0, 9))), text: "".to_string() };
    assert_eq!(apply_change(&mut doc, &ev), Err(PatchError::UnresolvedPosition(pos(0, 9))));
}

#[test]
fn diff_of_identical_texts_is_empty() {
    let text = "local x = 1\nprint(x)\n";
    assert!(text_edits(text, text, LineEndings::Unix).is_empty());
}

#[test]
fn diff_replaces_changed_line() {
    let edits = text_edits("a\nb\nc\n", "a\nx\nc\n", LineEndings::Unix);
    assert_eq!(parts(&edits), vec![edit((1, 0), (2, 0), "x\n")]);
}

#[test]
fn diff_inserts_new_line() {
    let edits = text_edits("a\n", "a\nb\n", LineEndings::Unix);
    assert_eq!(parts(&edits), vec![edit((1, 0), (1, 0), "b\n")]);
}

#[test]
fn diff_deletes_removed_lines() {
    let edits = text_edits("a\nb\nc\nd\n", "a\nd\n", LineEndings::Unix);
    assert_eq!(parts(&edits), vec![edit((1, 0), (3, 0), "")]);
}

#[test]
fn diff_separates_changes_split_by_equal_lines() {
    let edits = text_edits("a\nb\nc\nd\ne\n", "A\nb\nc\nd\nE\n", LineEndings::Unix);
    assert_eq!(parts(&edits), vec![edit((0, 0), (1, 0), "A\n"), edit((4, 0), (5, 0), "E\n")]);
}

#[test]
fn diff_uses_windows_line_endings() {
    let edits = text_edits("a\r\n", "a\r\nb\r\nc\r\n", LineEndings::Windows);
    assert_eq!(parts(&edits), vec![edit((1, 0), (1, 0), "b\r\nc\r\n")]);
}

#[test]
fn equal_op_gives_no_edit() {
    let op = DiffOp::Equal { old_index: 0, new_index: 0, len: 3 };
    assert!(diff_op_to_text_edit(op, "a\nb\nc\n", LineEndings::Unix).is_none());
}

#[test]
fn delete_op_gives_empty_replacement() {
    let op = DiffOp::Delete { old_index: 2, old_len: 3, new_index: 2 };
    let e = diff_op_to_text_edit(op, "a\n", LineEndings::Unix).unwrap();
    assert_eq!((e.range, e.new_text), edit((2, 0), (5, 0), ""));
}

#[test]
fn insert_op_takes_selected_new_lines() {
    let op = DiffOp::Insert { old_index: 1, new_index: 1, new_len: 2 };
    let e = diff_op_to_text_edit(op, "a\nb\r\nc\nd", LineEndings::Unix).unwrap();
    assert_eq!((e.range, e.new_text), edit((1, 0), (1, 0), "b\nc\n"));
}

#[test]
fn replace_op_stops_at_last_new_line() {
    let op = DiffOp::Replace { old_index: 0, old_len: 1, new_index: 1, new_len: 5 };
    let e = diff_op_to_text_edit(op, "a\nb\nc", LineEndings::Windows).unwrap();
    assert_eq!((e.range, e.new_text), edit((0, 0), (1, 0), "b\r\nc\r\n"));
}

#[test]
fn formatted_document_gives_no_edits() {
    let doc = "local a = 1\n";
    assert!(format_document(doc, doc, unix_config()).is_empty());
}

#[test]
fn format_document_edits_changed_lines() {
    let edits = format_document("local  a=1\nreturn a\n", "local a = 1\nreturn a\n", unix_config());
    assert_eq!(parts(&edits), vec![edit((0, 0), (1, 0), "local a = 1\n")]);
}

#[test]
fn editor_options_override_indentation() {
    let resolved = FormatConfig { indent_width: 4, indent_type: IndentType::Tabs, line_endings: LineEndings::Windows };
    let c = get_config(resolved, FormattingOptions { tab_size: 2, insert_spaces: true });
    assert_eq!(c, FormatConfig { indent_width: 2, indent_type: IndentType::Spaces, line_endings: LineEndings::Windows });
    let c = get_config(resolved, FormattingOptions { tab_size: 8, insert_spaces: false });
    assert_eq!(c.indent_width, 8);
    assert_eq!(c.indent_type, IndentType::Tabs);
}

#[test]
fn range_format_resolves_offsets() {
    let opts = FormattingOptions { tab_size: 3, insert_spaces: true };
    let job = prepare_format("a\nbb\nc\n", unix_config(), opts, Some(range((1, 0), (2, 1)))).unwrap();
    assert_eq!(job.range, Some(OffsetRange { start: 2, end: 6 }));
    assert_eq!(job.config.indent_width, 3);
    let whole = prepare_format("a\n", unix_config(), opts, None).unwrap();
    assert_eq!(whole, FormatJob { config: get_config(unix_config(), opts), range: None });
}

#[test]
fn range_format_with_missing_start_fails() {
    let opts = FormattingOptions { tab_size: 4, insert_spaces: false };
    let r = prepare_format("a\nb\n", unix_config(), opts, Some(range((9, 0), (1, 0))));
    assert_eq!(r, Err(FormatError::UnresolvedPosition(pos(9, 0))));
}

#[test]
fn range_format_with_missing_end_fails() {
    let opts = FormattingOptions { tab_size: 4, insert_spaces: false };
    let r = prepare_format("a\nb\n", unix_config(), opts, Some(range((0, 0), (0, 7))));
    assert_eq!(r, Err(FormatError::UnresolvedPosition(pos(0, 7))));
}

#[test]
fn folder_change_removes_then_adds() {
    let mut folders = WorkspaceFolders::new();
    folders.apply_change(vec![folder("file:///a", "a"), folder("file:///b", "b")], &vec![]);
    folders.apply_change(vec![folder("file:///c", "c"), folder("file:///a", "a")], &vec![folder("file:///a", "a")]);
    let names: Vec<&str> = folders.folders.iter().map(|f| f.name.as_str()).collect();
    assert_eq!(names, vec!["b", "c", "a"]);
    folders.apply_change(vec![], &vec![folder("file:///b", "other")]);
    assert_eq!(folders.folders.len(), 3);
}

#[test]
fn utf8_encoding_is_required() {
    assert!(supports_utf8(&vec!["utf-16".to_string(), "utf-8".to_string()]));
    assert!(!supports_utf8(&vec!["utf-16".to_string(), "utf-32".to_string()]));
    assert!(!supports_utf8(&vec![]));
    assert!(!supports_utf8(&vec!["utf-8 ".to_string()]));
}
