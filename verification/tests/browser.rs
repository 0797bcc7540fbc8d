use filenav::entry::Entry;
use filenav::nav::{NavState, PreviewRequest};
use filenav::preview::{PreviewBuilder, PreviewData};
use filenav::style::Tint;

fn e(name: &str, is_dir: bool) -> Entry {
    Entry { name: name.to_string(), is_dir }
}

fn names(nav: &NavState) -> Vec<String> {
    nav.entries.iter().map(|x| x.name.clone()).collect()
}

fn line_text(line: &filenav::style::PreviewLine) -> String {
    let mut s = String::new();
    for r in line.runs.iter() {
        s.push_str(&r.text);
    }
    s
}

fn preview_text(nav: &NavState) -> Vec<String> {
    nav.preview.iter().map(line_text).collect()
}

#[test]
fn refresh_orders_directories_first_then_names() {
    let mut nav = NavState::new(vec!["home".to_string()]);
    let req = nav.refresh(Some(vec![e("b.txt", false), e("A", true), e("a.txt", false)]));
    assert_eq!(names(&nav), vec!["A", "a.txt", "b.txt"]);
    assert!(nav.entries[0].is_dir);
    assert!(!nav.entries[1].is_dir);
    assert_eq!(nav.selected, 0);
    match req {
        PreviewRequest::Directory(p) => {
            assert_eq!(p, vec!["home".to_string(), "A".to_string()])
        }
        _ => panic!("expected a directory request"),
    }
}

#[test]
fn refresh_failure_leaves_empty_entries() {
    let mut nav = NavState::new(vec!["home".to_string()]);
    nav.refresh(Some(vec![e("x", false), e("y", false)]));
    let req = nav.refresh(None);
    assert!(nav.entries.is_empty());
    assert_eq!(nav.selected, 0);
    assert!(nav.preview.is_empty());
    assert!(matches!(req, PreviewRequest::Cleared));
}

#[test]
fn refresh_clamps_selection_to_shrunken_list() {
    let mut nav = NavState::new(vec![]);
    nav.refresh(Some(vec![e("a", false), e("b", false), e("c", false)]));
    nav.move_down();
    nav.move_down();
    assert_eq!(nav.selected, 2);
    nav.refresh(Some(vec![e("a", false)]));
    assert_eq!(nav.selected, 0);
}

#[test]
fn selection_does_not_wrap_at_either_end() {
    let mut nav = NavState::new(vec![]);
    nav.refresh(Some(vec![e("a", false), e("b", false)]));
    assert_eq!(nav.selected, 0);
    let req = nav.move_up();
    assert_eq!(nav.selected, 0);
    assert!(matches!(req, PreviewRequest::Keep));
    nav.move_down();
    assert_eq!(nav.selected, 1);
    let req = nav.move_down();
    assert_eq!(nav.selected, 1);
    assert!(matches!(req, PreviewRequest::Keep));
}

#[test]
fn selection_stays_bounded_through_operation_sequences() {
    let mut nav = NavState::new(vec!["r".to_string()]);
    nav.refresh(Some(vec![e("d", true), e("f", false)]));
    let ops: Vec<u8> = vec![1, 1, 0, 2, 3, 0, 1, 2, 2, 3, 0, 0];
    for op in ops {
        match op {
            0 => {
                nav.move_up();
            }
            1 => {
                nav.move_down();
            }
            2 => {
                nav.enter(Some(vec![e("inner", false)]));
            }
            _ => {
                nav.go_parent(Some(vec![e("d", true), e("f", false)]));
            }
        }
        assert!(nav.entries.is_empty() || nav.selected < nav.entries.len());
    }
}

#[test]
fn enter_then_go_parent_returns_and_reselects() {
    let mut nav = NavState::new(vec!["home".to_string()]);
    let listing = || vec![e("sub", true), e("a.txt", false)];
    nav.refresh(Some(listing()));
    assert_eq!(nav.entries[0].name, "sub");
    let req = nav.enter(Some(vec![e("inner.txt", false)]));
    assert_eq!(nav.current_dir, vec!["home".to_string(), "sub".to_string()]);
    assert_eq!(nav.selected, 0);
    match req {
        PreviewRequest::FileContent(p) => assert_eq!(
            p,
            vec!["home".to_string(), "sub".to_string(), "inner.txt".to_string()]
        ),
        _ => panic!("expected a file request"),
    }
    nav.go_parent(Some(listing()));
    assert_eq!(nav.current_dir, vec!["home".to_string()]);
    assert_eq!(nav.entries[nav.selected].name, "sub");
}

#[test]
fn enter_on_file_is_a_no_op() {
    let mut nav = NavState::new(vec!["home".to_string()]);
    nav.refresh(Some(vec![e("a.txt", false)]));
    let req = nav.enter(Some(vec![e("ghost", false)]));
    assert_eq!(nav.current_dir, vec!["home".to_string()]);
    assert_eq!(names(&nav), vec!["a.txt"]);
    assert!(matches!(req, PreviewRequest::Keep));
}

#[test]
fn enter_into_unreadable_directory_keeps_state_intact() {
    let mut nav = NavState::new(vec!["home".to_string()]);
    nav.refresh(Some(vec![e("sub", true), e("a.txt", false)]));
    let req = nav.enter(None);
    assert_eq!(nav.current_dir, vec!["home".to_string()]);
    assert_eq!(names(&nav), vec!["sub", "a.txt"]);
    assert_eq!(nav.selected, 0);
    assert!(matches!(req, PreviewRequest::Keep));
}

#[test]
fn go_parent_at_root_is_a_no_op() {
    let mut nav = NavState::new(vec![]);
    nav.refresh(Some(vec![e("a", true)]));
    let dir_before = nav.current_dir.clone();
    let names_before = names(&nav);
    let sel_before = nav.selected;
    let req = nav.go_parent(Some(vec![e("other", true)]));
    assert_eq!(nav.current_dir, dir_before);
    assert_eq!(names(&nav), names_before);
    assert_eq!(nav.selected, sel_before);
    assert!(matches!(req, PreviewRequest::Keep));
}

#[test]
fn directory_preview_is_pure_name_order() {
    let builder = PreviewBuilder::new();
    let mut nav = NavState::new(vec!["home".to_string()]);
    nav.refresh(Some(vec![e("d", true)]));
    nav.apply_preview(
        &builder,
        PreviewData::Children(vec![e("z", false), e("y", false)]),
    );
    assert_eq!(preview_text(&nav), vec!["y", "z"]);
}

#[test]
fn directory_preview_marks_child_directories() {
    let builder = PreviewBuilder::new();
    let mut nav = NavState::new(vec![]);
    nav.refresh(Some(vec![e("d", true)]));
    nav.apply_preview(
        &builder,
        PreviewData::Children(vec![e("zdir", true), e("afile", false)]),
    );
    assert_eq!(preview_text(&nav), vec!["afile", "zdir/"]);
    assert_eq!(nav.preview[0].runs[0].tint, Tint::Plain);
    assert_eq!(nav.preview[1].runs[0].tint, Tint::Marker);
}

#[test]
fn unreadable_directory_preview_carries_the_error() {
    let builder = PreviewBuilder::new();
    let mut nav = NavState::new(vec![]);
    nav.refresh(Some(vec![e("d", true)]));
    nav.apply_preview(
        &builder,
        PreviewData::ChildrenUnreadable("permission denied".to_string()),
    );
    assert_eq!(
        preview_text(&nav),
        vec!["Cannot read directory: permission denied"]
    );
}

#[test]
fn unreadable_file_preview_is_the_single_placeholder_line() {
    let builder = PreviewBuilder::new();
    let mut nav = NavState::new(vec![]);
    nav.refresh(Some(vec![e("blob.bin", false)]));
    nav.apply_preview(&builder, PreviewData::FileUnreadable);
    assert_eq!(preview_text(&nav), vec!["[Binary file or cannot read]"]);
    assert_eq!(nav.preview[0].runs.len(), 1);
}

#[test]
fn file_preview_keeps_the_text_and_colours_known_syntax() {
    let builder = PreviewBuilder::new();
    let mut nav = NavState::new(vec![]);
    nav.refresh(Some(vec![e("main.rs", false)]));
    let content = "fn main() {\n    let x = 1;\n}\n";
    nav.apply_preview(&builder, PreviewData::FileText(content.to_string()));
    let joined: String = preview_text(&nav).concat();
    assert_eq!(joined, content);
    assert_eq!(nav.preview.len(), 3);
    let first_tint = nav.preview[0].runs[0].tint;
    assert!(matches!(first_tint, Tint::Rgb(_, _, _)));
}

#[test]
fn file_preview_of_unknown_syntax_is_plain_text() {
    let builder = PreviewBuilder::new();
    let mut nav = NavState::new(vec![]);
    nav.refresh(Some(vec![e("notes.qqzz", false)]));
    let content = "plain words\nsecond line";
    nav.apply_preview(&builder, PreviewData::FileText(content.to_string()));
    assert_eq!(preview_text(&nav), vec!["plain words\n", "second line"]);
}

#[test]
fn file_preview_truncates_long_content() {
    let builder = PreviewBuilder::new();
    let mut nav = NavState::new(vec![]);
    nav.refresh(Some(vec![e("big.qqzz", false)]));
    let content = "a".repeat(60000);
    nav.apply_preview(&builder, PreviewData::FileText(content));
    let total: usize = preview_text(&nav).iter().map(|l| l.len()).sum();
    assert_eq!(total, 50000);
}

#[test]
fn empty_file_preview_has_no_lines() {
    let builder = PreviewBuilder::new();
    let mut nav = NavState::new(vec![]);
    nav.refresh(Some(vec![e("empty.txt", false)]));
    nav.apply_preview(&builder, PreviewData::FileText(String::new()));
    assert!(nav.preview.is_empty());
}

#[test]
fn preview_follows_the_selection() {
    let builder = PreviewBuilder::new();
    let mut nav = NavState::new(vec![]);
    let req = nav.refresh(Some(vec![e("d", true), e("f.qqzz", false)]));
    match req {
        PreviewRequest::Directory(p) => assert_eq!(p, vec!["d".to_string()]),
        _ => panic!("expected a directory request"),
    }
    nav.apply_preview(&builder, PreviewData::Children(vec![e("child", false)]));
    assert_eq!(preview_text(&nav), vec!["child"]);
    let req = nav.move_down();
    assert!(nav.preview.is_empty());
    match req {
        PreviewRequest::FileContent(p) => assert_eq!(p, vec!["f.qqzz".to_string()]),
        _ => panic!("expected a file request"),
    }
    nav.apply_preview(&builder, PreviewData::FileText("hello".to_string()));
    assert_eq!(preview_text(&nav), vec!["hello"]);
}

#[test]
fn list_rows_mark_directories() {
    let mut nav = NavState::new(vec![]);
    nav.refresh(Some(vec![e("b.txt", false), e("A", true)]));
    let rows = nav.list_rows();
    assert_eq!(rows.len(), 2);
    assert_eq!(rows[0].text, "A/");
    assert_eq!(rows[0].tint, Tint::Marker);
    assert_eq!(rows[1].text, "b.txt");
    assert_eq!(rows[1].tint, Tint::Plain);
}

#[test]
fn empty_listing_keeps_selection_at_zero() {
    let mut nav = NavState::new(vec![]);
    let req = nav.refresh(Some(vec![]));
    assert_eq!(nav.selected, 0);
    assert!(nav.entries.is_empty());
    assert!(matches!(req, PreviewRequest::Cleared));
}
