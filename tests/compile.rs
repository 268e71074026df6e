use sxpres::{
    compile, media_references, render, CompileError, Discard, ElementNature, MediaFile, Slide,
    select_layout, Layout, Element,
};

fn lines(ls: &[&str]) -> Vec<String> {
    ls.iter().map(|l| l.to_string()).collect()
}

#[test]
fn heading_and_list_make_title_over_content() {
    let p = compile(&lines(&[".heading", "Title", ".list", "A", "B"]), &Vec::new()).unwrap();
    assert_eq!(p.slides.len(), 1);
    let s = &p.slides[0];
    let natures: Vec<ElementNature> = s.elements.iter().map(|e| e.nature).collect();
    assert_eq!(natures, vec![ElementNature::Heading, ElementNature::List]);
    assert_eq!(select_layout(&s.natures(), s.draft), Layout::TitleOverContent);
    let w = format!("\n{}", " ".repeat(28));
    assert_eq!(
        s.to_html(),
        format!(
            "<div class=\"slide\"><div style=\"margin-top:auto;margin-bottom:auto;display:grid\">\
             {w}<div style=\"height: 30%;\">\n        <div class=\"element\"><h1>Title</h1></div></div>\
             {w}<div style=\"height: 30%;\"><div class=\"element\"><ul><li>A</li><li>B</li></ul></div></div>\
             {w}</div></div>"
        )
    );
    assert!(p.discards.is_empty());
}

#[test]
fn six_groups_keep_four_and_report_two() {
    let input = lines(&[
        ".table", "t", ".mermaid", "m", ".list", "l", ".ordlist", "o", ".text", "x", ".heading", "h",
    ]);
    let p = compile(&input, &Vec::new()).unwrap();
    let natures: Vec<ElementNature> = p.slides[0].elements.iter().map(|e| e.nature).collect();
    assert_eq!(
        natures,
        vec![ElementNature::Heading, ElementNature::Text, ElementNature::OrdList, ElementNature::List]
    );
    assert_eq!(
        p.discards,
        vec![
            Discard { slide: 0, nature: ElementNature::Mermaid },
            Discard { slide: 0, nature: ElementNature::Table },
        ]
    );
    assert!(p.uses_mermaid);
}

#[test]
fn unknown_tag_fails_compilation() {
    match compile(&lines(&[".unknown", "x"]), &Vec::new()) {
        Err(CompileError::FaultyTag(t)) => assert_eq!(t, ".unknown"),
        other => panic!("unexpected {:?}", other.map(|p| p.slides.len())),
    }
}

#[test]
fn missing_image_fails_compilation() {
    match compile(&lines(&[".heading", "T", ".image", "nowhere.png"]), &Vec::new()) {
        Err(CompileError::MediaResolutionFailure(p)) => assert_eq!(p, "nowhere.png"),
        other => panic!("unexpected {:?}", other.map(|p| p.slides.len())),
    }
}

#[test]
fn only_comments_and_blanks_is_empty_presentation() {
    let r = compile(&lines(&["# a comment", "", "#another", ""]), &Vec::new());
    assert!(matches!(r, Err(CompileError::EmptyPresentation)));
}

#[test]
fn later_fault_stops_whole_presentation() {
    let r = compile(&lines(&[".heading", "A", "---", ".heading"]), &Vec::new());
    assert!(matches!(r, Err(CompileError::FaultyTag(t)) if t == ".heading"));
}

#[test]
fn leading_untagged_line_is_faulty() {
    let r = compile(&lines(&["Hello", ".heading", "A"]), &Vec::new());
    assert!(matches!(r, Err(CompileError::FaultyTag(t)) if t == "Hello"));
}

#[test]
fn tag_line_spaces_are_ignored() {
    let p = compile(&lines(&[". heading", "A b", ".\ttext", "c"]), &Vec::new()).unwrap();
    assert_eq!(p.slides[0].elements[1].nature, ElementNature::Text);
    assert_eq!(p.slides[0].elements[0].content, "\n        <div class=\"element\"><h1>A b</h1></div>");
}

#[test]
fn side_channels_last_writer_wins() {
    let media = vec![MediaFile { path: "l.png".to_string(), bytes: b"hello".to_vec() }];
    let p = compile(
        &lines(&[
            ".footer", "one", ".logo", "l.png", ".heading", "A", "---", ".draft", ".mermaidscript",
            ".footer", "two", ".text", "B",
        ]),
        &media,
    )
    .unwrap();
    assert_eq!(p.slides.len(), 2);
    assert!(!p.slides[0].draft);
    assert!(p.slides[1].draft);
    assert_eq!(p.slides[1].elements.len(), 1);
    assert_eq!(p.footer.as_deref(), Some("<footer>two</footer>"));
    assert_eq!(
        p.logo.as_deref(),
        Some("<img class=\"logo\" src=\"data:image/png;base64,aGVsbG8=\"></img>")
    );
    assert!(!p.uses_mermaid);
}

#[test]
fn media_references_lists_media_paths() {
    let r = media_references(&lines(&[
        ".image", "a.png", "cap", ".heading", "H", "---", ". video", "b.mp4", ".logo", "c.png",
        ".image",
    ]));
    assert_eq!(r, lines(&["a.png", "b.mp4", "c.png"]));
}

#[test]
fn render_assembles_document() {
    let slides = vec![Slide {
        elements: vec![Element { nature: ElementNature::Text, content: "X".to_string() }],
        draft: false,
    }];
    let html = render(&None, &Some("<footer>F</footer>".to_string()), false, &slides, "css", "js")
        .ok()
        .unwrap();
    let i20 = " ".repeat(20);
    let i24 = " ".repeat(24);
    assert_eq!(
        html.0,
        format!(
            "<!DOCTYPE html>\n\n{i20}<html>\n\n{i20}<head>\n\n{i20}<style>css</style><footer>F</footer>\
             \n{i20}<div id=\"marcador\"></div>\n{i20}<div id=\"popup\">\
             \n{i24}<p><span id=\"conteudo-popup\"></span></p>\n{i20}</div></head>\n\n{i20}\
             <body><div class=\"slide\"><div style=margin-top:auto;margin-bottom:auto>X</div></div></body>\
             <script>js</script>\n{i20}</html>"
        )
    );
}

#[test]
fn render_adds_mermaid_loader_when_used() {
    let slides = vec![Slide { elements: vec![], draft: false }];
    let html = render(&None, &None, true, &slides, "", "").ok().unwrap();
    assert!(html.0.contains("<script type=\"module\">import mermaid"));
}

#[test]
fn render_without_slides_is_empty_presentation() {
    assert!(matches!(render(&None, &None, false, &vec![], "", ""), Err(CompileError::EmptyPresentation)));
}
