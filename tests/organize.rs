use sxpres::{Element, ElementNature, Organize};

fn el(nature: ElementNature, content: &str) -> Element {
    Element { nature, content: content.to_string() }
}

fn summary(v: &[Element]) -> Vec<(ElementNature, String)> {
    v.iter().map(|e| (e.nature, e.content.clone())).collect()
}

#[test]
fn organize_sorts_by_rank_stably() {
    let v = vec![
        el(ElementNature::List, "l1"),
        el(ElementNature::Heading, "h"),
        el(ElementNature::List, "l2"),
    ];
    let r = v.organize();
    assert_eq!(
        summary(&r),
        vec![
            (ElementNature::Heading, "h".to_string()),
            (ElementNature::List, "l1".to_string()),
            (ElementNature::List, "l2".to_string()),
        ]
    );
}

#[test]
fn organize_keeps_at_most_four() {
    let v = vec![
        el(ElementNature::Table, "t"),
        el(ElementNature::Mermaid, "m"),
        el(ElementNature::Image, "i"),
        el(ElementNature::Video, "v"),
        el(ElementNature::List, "l"),
        el(ElementNature::Text, "x"),
    ];
    let r = v.organize();
    assert_eq!(r.len(), 4);
    let natures: Vec<ElementNature> = r.iter().map(|e| e.nature).collect();
    assert_eq!(
        natures,
        vec![ElementNature::Text, ElementNature::List, ElementNature::Video, ElementNature::Image]
    );
}

#[test]
fn organize_twice_is_organize_once() {
    let make = || {
        vec![
            el(ElementNature::Table, "t"),
            el(ElementNature::Heading, "h"),
            el(ElementNature::Text, "a"),
            el(ElementNature::Text, "b"),
            el(ElementNature::Subheading, "s"),
        ]
    };
    let once = make().organize();
    let twice = make().organize().organize();
    assert_eq!(summary(&once), summary(&twice));
}

#[test]
fn organize_empty_is_empty() {
    assert!(Vec::<Element>::new().organize().is_empty());
}

#[test]
fn nature_names() {
    assert_eq!(ElementNature::OrdList.to_string(), "\"ordered list\"");
    assert_eq!(ElementNature::Heading.to_string(), "\"heading\"");
    assert!(ElementNature::Heading.is_heading_or_subheading());
    assert!(ElementNature::Subheading.is_heading_or_subheading());
    assert!(!ElementNature::Table.is_heading_or_subheading());
}

#[test]
fn element_summary_shows_start_of_content() {
    let e = el(ElementNature::Heading, "0123456789abcdefghijKLMN");
    assert_eq!(e.to_string(), "content: \"0123456789abcdefghij\"... of nature:\"heading\"");
    let e = el(ElementNature::Text, "0123456789abcdefghijKLMN");
    assert_eq!(e.to_string(), "content: \"0123456789abcdefghij\"... of nature:\"unknown\"");
}

#[test]
fn element_summary_counts_bytes() {
    let e = el(ElementNature::Heading, &"é".repeat(20));
    assert_eq!(e.to_string(), format!("content: \"{}\"... of nature:\"heading\"", "é".repeat(10)));
}
