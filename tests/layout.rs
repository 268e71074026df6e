use sxpres::{select_layout, Element, ElementNature, Layout, Slide};
use sxpres::ElementNature::{Heading, Image, List, Subheading, Table, Text};

fn el(nature: ElementNature, content: &str) -> Element {
    Element { nature, content: content.to_string() }
}

#[test]
fn layout_by_count_and_natures() {
    assert_eq!(select_layout(&vec![], false), Layout::Blank);
    assert_eq!(select_layout(&vec![Table], false), Layout::Single);
    assert_eq!(select_layout(&vec![Heading, List], false), Layout::TitleOverContent);
    assert_eq!(select_layout(&vec![Subheading, List], false), Layout::TitleOverContent);
    assert_eq!(select_layout(&vec![Text, Image], false), Layout::SideBySide);
    assert_eq!(select_layout(&vec![Text, Heading, List], false), Layout::Rows);
    assert_eq!(select_layout(&vec![Text, List, Subheading], false), Layout::Rows);
    assert_eq!(select_layout(&vec![Heading, List, Image], false), Layout::Pyramid);
    assert_eq!(select_layout(&vec![Heading, List, Image, Table], false), Layout::Grid);
    assert_eq!(select_layout(&vec![Heading, List], true), Layout::Draft);
}

#[test]
fn layout_ignores_content() {
    let a = Slide { elements: vec![el(ElementNature::Text, "A"), el(ElementNature::Image, "B")], draft: false };
    let b = Slide { elements: vec![el(ElementNature::Text, "xx"), el(ElementNature::Image, "yy")], draft: false };
    let ha = a.to_html();
    let hb = b.to_html();
    assert_eq!(ha.replace('A', "xx").replace('B', "yy"), hb);
    assert_eq!(select_layout(&a.natures(), a.draft), select_layout(&b.natures(), b.draft));
}

#[test]
fn empty_slide_html() {
    let s = Slide { elements: vec![], draft: false };
    assert_eq!(s.to_html(), "<div class=\"slide\"></div>");
}

#[test]
fn draft_slide_html_ignores_elements() {
    let s = Slide { elements: vec![el(ElementNature::Text, "A")], draft: true };
    assert_eq!(s.to_html(), "<div class=\"slide, draft-slide\"></div>");
}

#[test]
fn single_slide_html() {
    let s = Slide { elements: vec![el(ElementNature::Text, "A")], draft: false };
    assert_eq!(
        s.to_html(),
        "<div class=\"slide\"><div style=margin-top:auto;margin-bottom:auto>A</div></div>"
    );
}

fn indent(n: usize) -> String {
    format!("\n{}", " ".repeat(n))
}

#[test]
fn grid_slide_html() {
    let s = Slide {
        elements: vec![
            el(ElementNature::Text, "A"),
            el(ElementNature::List, "B"),
            el(ElementNature::Image, "C"),
            el(ElementNature::Table, "D"),
        ],
        draft: false,
    };
    let (w28, w24) = (indent(28), indent(24));
    assert_eq!(
        s.to_html(),
        format!(
            "<div class=\"slide\"><style></style><div>{w28}<div>A</div>{w28}<div>B</div>{w24}</div>\
             {w24}<div>{w28}<div>C</div>{w28}<div>D</div>{w24}</div></div>"
        )
    );
}

#[test]
fn pyramid_slide_html() {
    let s = Slide {
        elements: vec![el(ElementNature::Text, "A"), el(ElementNature::List, "B"), el(ElementNature::Image, "C")],
        draft: false,
    };
    let (w32, w28) = (indent(32), indent(28));
    assert_eq!(
        s.to_html(),
        format!(
            "<div class=\"slide\"><div style=\"height:49vh !important;\">{w32}<div>A</div>{w28}</div>\
             {w28}<div style=\"display:inline-flex;justify-content:center;width:80vw; height:49vh !important\">\
             {w32}<div>B</div>{w32}<div>C</div>{w28}</div></div>"
        )
    );
}

#[test]
fn rows_slide_html() {
    let s = Slide {
        elements: vec![el(ElementNature::Text, "A"), el(ElementNature::Heading, "B"), el(ElementNature::List, "C")],
        draft: false,
    };
    let w = indent(28);
    let row = "<div style=\"height:29% !important;\" class=frame>";
    assert_eq!(
        s.to_html(),
        format!("<div class=\"slide\"><div>{w}{row}A</div>{w}{row}B</div>{w}{row}C</div>{w}</div></div>")
    );
}

#[test]
fn side_by_side_slide_html() {
    let s = Slide { elements: vec![el(ElementNature::Text, "A"), el(ElementNature::Image, "B")], draft: false };
    let w = indent(28);
    assert_eq!(
        s.to_html(),
        format!(
            "<div class=\"slide\"><div style=\"display:inline-flex;justify-content:center;width:100%;max-height:90%;margin-top:auto;margin-bottom:auto\">\
             {w}<div style=\"width:100%;height:100%\">A</div>{w}<div class=frame>B</div>{w}</div></div>"
        )
    );
}
