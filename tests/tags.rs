use sxpres::{
    dispatch, file_base64, footer, heading, image, is_element_ok, logo, mermaid, ordlist,
    subheading, table, text, ulist, video, CompileError, ElementNature, MediaFile, TagOutcome,
};

fn group(lines: &[&str]) -> Vec<String> {
    lines.iter().map(|l| l.to_string()).collect()
}

fn media() -> Vec<MediaFile> {
    vec![
        MediaFile { path: "pic.png".to_string(), bytes: b"hello".to_vec() },
        MediaFile { path: "clip.mp4".to_string(), bytes: b"hi!".to_vec() },
        MediaFile { path: "noext".to_string(), bytes: b"x".to_vec() },
    ]
}

#[test]
fn heading_wraps_first_argument_only() {
    let e = heading(group(&[".heading", "Title", "ignored"])).unwrap();
    assert_eq!(e.nature, ElementNature::Heading);
    assert_eq!(e.content, "\n        <div class=\"element\"><h1>Title</h1></div>");
}

#[test]
fn subheading_wraps_first_argument() {
    let e = subheading(group(&[".subheading", "Sub"])).unwrap();
    assert_eq!(e.nature, ElementNature::Subheading);
    assert_eq!(e.content, "<div class=\"element\"><h2>Sub</h2></div>");
}

#[test]
fn text_breaks_continuation_lines() {
    let e = text(group(&[".text", "a", "b", "c"])).unwrap();
    assert_eq!(e.nature, ElementNature::Text);
    assert_eq!(e.content, "<div class=\"element\"><p>a<br>b<br>c</p></div>");
}

#[test]
fn ulist_makes_one_item_per_line() {
    let e = ulist(group(&[".list", "A", "B"])).unwrap();
    assert_eq!(e.nature, ElementNature::List);
    assert_eq!(e.content, "<div class=\"element\"><ul><li>A</li><li>B</li></ul></div>");
}

#[test]
fn ordlist_makes_one_item_per_line() {
    let e = ordlist(group(&[".ordlist", "one", "two"])).unwrap();
    assert_eq!(e.nature, ElementNature::OrdList);
    assert_eq!(e.content, "<div class=\"element\"><ol><li>one</li><li>two</li></ol></div>");
}

#[test]
fn table_splits_cells_at_pipes() {
    let e = table(group(&[".table", "a|b", "1|2", "3|4"])).unwrap();
    assert_eq!(e.nature, ElementNature::Table);
    assert_eq!(
        e.content,
        "<div class=\"element\"><table><thead><tr><th>a</th><th>b</th></tr></thead>\
         <tbody><tr><td>1</td><td>2</td></tr></tbody>\
         <tbody><tr><td>3</td><td>4</td></tr></tbody></table></div>"
    );
}

#[test]
fn mermaid_concatenates_source_lines() {
    let e = mermaid(group(&[".mermaid", "graph TD", "A-->B"])).unwrap();
    assert_eq!(e.nature, ElementNature::Mermaid);
    assert_eq!(e.content, "<div class=\"element\"><pre class=\"mermaid\">graph TDA-->B</pre></div>");
}

#[test]
fn footer_wraps_first_argument() {
    assert_eq!(footer(group(&[".footer", "Hi"])).unwrap(), "<footer>Hi</footer>");
}

#[test]
fn image_embeds_file_as_data_uri() {
    let e = image(group(&[".image", "pic.png"]), &media()).unwrap();
    assert_eq!(e.nature, ElementNature::Image);
    assert_eq!(
        e.content,
        "<div class=\"element\"><div><img src=\"data:image/png;base64,aGVsbG8=\"></img></div></div>"
    );
}

#[test]
fn image_caption_from_remaining_lines() {
    let e = image(group(&[".image", "pic.png", "cap1", "cap2"]), &media()).unwrap();
    assert_eq!(
        e.content,
        "<div class=\"element\"><div><img src=\"data:image/png;base64,aGVsbG8=\">\
         <figcaption>cap1<br>cap2</figcaption></img></div></div>"
    );
}

#[test]
fn video_embeds_file_as_data_uri() {
    let e = video(group(&[".video", "clip.mp4"]), &media()).unwrap();
    assert_eq!(e.nature, ElementNature::Video);
    assert_eq!(
        e.content,
        "<div class=element><video controls src=\"data:video/mp4;base64,aGkh\"></video></div>"
    );
}

#[test]
fn logo_embeds_file_as_image() {
    assert_eq!(
        logo(group(&[".logo", "pic.png"]), &media()).unwrap(),
        "<img class=\"logo\" src=\"data:image/png;base64,aGVsbG8=\"></img>"
    );
}

#[test]
fn file_base64_builds_data_uri() {
    assert_eq!(
        file_base64("pic.png", "image", &media()).unwrap(),
        "data:image/png;base64,aGVsbG8="
    );
}

#[test]
fn file_base64_missing_file_fails() {
    match file_base64("gone.png", "image", &media()) {
        Err(CompileError::MediaResolutionFailure(p)) => assert_eq!(p, "gone.png"),
        other => panic!("unexpected {:?}", other),
    }
}

#[test]
fn file_base64_without_extension_fails() {
    match file_base64("noext", "image", &media()) {
        Err(CompileError::MediaResolutionFailure(p)) => assert_eq!(p, "noext"),
        other => panic!("unexpected {:?}", other),
    }
}

#[test]
fn image_missing_file_fails_with_media_error() {
    match image(group(&[".image", "missing.png"]), &Vec::new()) {
        Err(CompileError::MediaResolutionFailure(p)) => assert_eq!(p, "missing.png"),
        other => panic!("unexpected {:?}", other),
    }
}

#[test]
fn element_without_argument_is_faulty() {
    match heading(group(&[".heading"])) {
        Err(CompileError::FaultyTag(t)) => assert_eq!(t, ".heading"),
        other => panic!("unexpected {:?}", other),
    }
}

#[test]
fn is_element_ok_checks_token_and_argument() {
    assert!(is_element_ok(&group(&[".text", "x"]), "text").is_ok());
    assert!(is_element_ok(&group(&[".texts", "x"]), "text").is_err());
    assert!(is_element_ok(&group(&[".text"]), "text").is_err());
}

#[test]
fn dispatch_unknown_tag_is_faulty() {
    match dispatch(group(&[".unknown", "x"]), &Vec::new()) {
        Err(CompileError::FaultyTag(t)) => assert_eq!(t, ".unknown"),
        other => panic!("unexpected {:?}", other),
    }
}

#[test]
fn dispatch_prefix_of_known_tag_is_faulty() {
    match dispatch(group(&[".headingx", "x"]), &Vec::new()) {
        Err(CompileError::FaultyTag(t)) => assert_eq!(t, ".headingx"),
        other => panic!("unexpected {:?}", other),
    }
}

#[test]
fn dispatch_side_channels() {
    assert!(matches!(dispatch(group(&[".draft"]), &Vec::new()), Ok(TagOutcome::Draft)));
    assert!(matches!(dispatch(group(&[".mermaidscript"]), &Vec::new()), Ok(TagOutcome::Nothing)));
    match dispatch(group(&[".footer", "F"]), &Vec::new()) {
        Ok(TagOutcome::Footer(f)) => assert_eq!(f, "<footer>F</footer>"),
        other => panic!("unexpected {:?}", other),
    }
    match dispatch(group(&[".list", "a"]), &Vec::new()) {
        Ok(TagOutcome::Show(e)) => assert_eq!(e.nature, ElementNature::List),
        other => panic!("unexpected {:?}", other),
    }
}

#[test]
fn dispatch_group_not_starting_with_tag_is_faulty() {
    match dispatch(group(&["Hello", "x"]), &Vec::new()) {
        Err(CompileError::FaultyTag(t)) => assert_eq!(t, "Hello"),
        other => panic!("unexpected {:?}", other),
    }
}
