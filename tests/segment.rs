use sxpres::{group_by_tag, segment, CleanTag, IsComment, SplitOnTag};

fn lines(ls: &[&str]) -> Vec<String> {
    ls.iter().map(|l| l.to_string()).collect()
}

#[test]
fn comment_lines_are_recognised() {
    assert!("# note".to_string().is_comment());
    assert!(!"note #".to_string().is_comment());
    assert!(!"".to_string().is_comment());
}

#[test]
fn segment_drops_blanks_comments_and_empty_slides() {
    let r = segment(&lines(&["a", "", "# c", "---", "b", "---", "---", "c", "---"]));
    assert_eq!(r, vec![lines(&["a"]), lines(&["b"]), lines(&["c"])]);
}

#[test]
fn segment_of_comments_only_is_empty() {
    assert!(segment(&lines(&["# one", "", "#two"])).is_empty());
}

#[test]
fn segment_rejoined_gives_content_lines() {
    let input = lines(&[".heading", "T", "", "# c", "---", ".text", "x", "---", ".list", "a"]);
    let slides = segment(&input);
    let rejoined: Vec<String> = slides.join(&"---".to_string());
    let content: Vec<String> =
        input.iter().filter(|l| !l.is_empty() && !l.starts_with('#')).cloned().collect();
    assert_eq!(rejoined, content);
}

#[test]
fn group_by_tag_starts_group_at_each_tag() {
    let r = group_by_tag(&lines(&[".heading", "T", ".text", "x", "y"]));
    assert_eq!(r, vec![lines(&[".heading", "T"]), lines(&[".text", "x", "y"])]);
}

#[test]
fn group_by_tag_keeps_leading_untagged_lines() {
    let r = lines(&["x", ".heading", "T"]).split_on_tag();
    assert_eq!(r, vec![lines(&["x"]), lines(&[".heading", "T"])]);
}

#[test]
fn clean_tag_strips_spaces_from_tag_line_only() {
    let r = lines(&[". heading ", "a b"]).clean_tag();
    assert_eq!(r, lines(&[".heading", "a b"]));
}

#[test]
fn clean_tag_strips_tabs_and_other_whitespace() {
    let r = lines(&[".\thead ing\u{a0}", "a\tb"]).clean_tag();
    assert_eq!(r, lines(&[".heading", "a\tb"]));
}
