//! Layout of a slide, chosen by the number and natures of its elements.

use vstd::prelude::*;

use crate::element::{elements_view, is_title, natures_of, Element, ElementNature, ElementView, MAX_ELEMENTS};

verus! {

/// The arrangements a slide can take.
#[derive(Clone, Copy, Debug, PartialEq, Eq, Structural)]
pub enum Layout {
    /// A slide marked as a draft: an empty, marked placeholder.
    Draft,
    /// No element.
    Blank,
    /// One centred element.
    Single,
    /// A title above a second element.
    TitleOverContent,
    /// A main element beside a framed one.
    SideBySide,
    /// Three rows of equal height.
    Rows,
    /// One element on top, two side by side below.
    Pyramid,
    /// Four elements in a two by two grid, row by row.
    Grid,
}

/// The layout of a slide whose elements have the natures `ns`.
pub open spec fn layout_of(ns: Seq<ElementNature>, draft: bool) -> Layout {
    if draft {
        Layout::Draft
    } else if ns.len() == 0 {
        Layout::Blank
    } else if ns.len() == 1 {
        Layout::Single
    } else if ns.len() == 2 {
        if is_title(ns[0]) {
            Layout::TitleOverContent
        } else {
            Layout::SideBySide
        }
    } else if ns.len() == 3 {
        if is_title(ns[1]) || is_title(ns[2]) {
            Layout::Rows
        } else {
            Layout::Pyramid
        }
    } else {
        Layout::Grid
    }
}

/// The fixed HTML of a layout: the elements' contents go between consecutive pieces.
pub open spec fn frame(l: Layout) -> Seq<Seq<char>> {
    match l {
        Layout::Draft => seq!["<div class=\"slide, draft-slide\"></div>"@],
        Layout::Blank => seq!["<div class=\"slide\"></div>"@],
        Layout::Single => seq![
            "<div class=\"slide\"><div style=margin-top:auto;margin-bottom:auto>"@,
            "</div></div>"@,
        ],
        Layout::TitleOverContent => seq![
            "<div class=\"slide\"><div style=\"margin-top:auto;margin-bottom:auto;display:grid\">\n                            <div style=\"height: 30%;\">"@,
            "</div>\n                            <div style=\"height: 30%;\">"@,
            "</div>\n                            </div></div>"@,
        ],
        Layout::SideBySide => seq![
            "<div class=\"slide\"><div style=\"display:inline-flex;justify-content:center;width:100%;max-height:90%;margin-top:auto;margin-bottom:auto\">\n                            <div style=\"width:100%;height:100%\">"@,
            "</div>\n                            <div class=frame>"@,
            "</div>\n                            </div></div>"@,
        ],
        Layout::Rows => seq![
            "<div class=\"slide\"><div>\n                            <div style=\"height:29% !important;\" class=frame>"@,
            "</div>\n                            <div style=\"height:29% !important;\" class=frame>"@,
            "</div>\n                            <div style=\"height:29% !important;\" class=frame>"@,
            "</div>\n                            </div></div>"@,
        ],
        Layout::Pyramid => seq![
            "<div class=\"slide\"><div style=\"height:49vh !important;\">\n                                <div>"@,
            "</div>\n                            </div>\n                            <div style=\"display:inline-flex;justify-content:center;width:80vw; height:49vh !important\">\n                                <div>"@,
            "</div>\n                                <div>"@,
            "</div>\n                            </div></div>"@,
        ],
        Layout::Grid => seq![
            "<div class=\"slide\"><style></style><div>\n                            <div>"@,
            "</div>\n                            <div>"@,
            "</div>\n                        </div>\n                        <div>\n                            <div>"@,
            "</div>\n                            <div>"@,
            "</div>\n                        </div></div>"@,
        ],
    }
}

/// The pieces of `fr` with the texts `cs` set between them.
pub open spec fn interleave(fr: Seq<Seq<char>>, cs: Seq<Seq<char>>) -> Seq<char>
    decreases cs.len(),
{
    if cs.len() == 0 || fr.len() == 0 {
        if fr.len() == 0 {
            Seq::empty()
        } else {
            fr[0]
        }
    } else {
        interleave(fr.drop_last(), cs.drop_last()) + cs.last() + fr.last()
    }
}

pub open spec fn contents_of(s: Seq<ElementView>) -> Seq<Seq<char>> {
    s.map_values(|e: ElementView| e.content)
}

/// The HTML of a slide: the frame of its layout around its elements' contents.
pub open spec fn slide_html(s: Seq<ElementView>, draft: bool) -> Seq<char> {
    let fr = frame(layout_of(natures_of(s), draft));
    interleave(fr, contents_of(s).take(fr.len() - 1))
}

proof fn lemma_frame_len(ns: Seq<ElementNature>, draft: bool)
    requires
        ns.len() <= MAX_ELEMENTS,
    ensures
        frame(layout_of(ns, draft)).len() == if draft {
            1
        } else {
            ns.len() + 1
        },
{
}

/// Layout is a function of the elements' natures and the draft mark alone: two slides
/// whose elements have the same natures, and the same mark, have the same layout, and the
/// HTML of each is the frame of that layout with the slide's own contents set into it.
pub proof fn lemma_layout_structural(a: Seq<ElementView>, b: Seq<ElementView>, draft: bool)
    requires
        natures_of(a) == natures_of(b),
        a.len() <= MAX_ELEMENTS,
    ensures
        layout_of(natures_of(a), draft) == layout_of(natures_of(b), draft),
        ({
            let fr = frame(layout_of(natures_of(a), draft));
            &&& slide_html(a, draft) == interleave(fr, contents_of(a).take(fr.len() - 1))
            &&& slide_html(b, draft) == interleave(fr, contents_of(b).take(fr.len() - 1))
            &&& fr.len() - 1 == if draft {
                0
            } else {
                b.len()
            }
        }),
{
    lemma_frame_len(natures_of(a), draft);
    assert(natures_of(a).len() == natures_of(b).len());
}

/// The layout of a slide whose elements have the natures `natures`.
pub fn select_layout(natures: &Vec<ElementNature>, draft: bool) -> (r: Layout)
    requires
        natures.len() <= MAX_ELEMENTS,
    ensures
        r == layout_of(natures@, draft),
{
    if draft {
        Layout::Draft
    } else if natures.len() == 0 {
        Layout::Blank
    } else if natures.len() == 1 {
        Layout::Single
    } else if natures.len() == 2 {
        if natures[0].is_heading_or_subheading() {
            Layout::TitleOverContent
        } else {
            Layout::SideBySide
        }
    } else if natures.len() == 3 {
        if natures[1].is_heading_or_subheading() || natures[2].is_heading_or_subheading() {
            Layout::Rows
        } else {
            Layout::Pyramid
        }
    } else {
        Layout::Grid
    }
}

/// The pieces of a layout's HTML.
pub fn frame_pieces(l: Layout) -> (r: Vec<&'static str>)
    ensures
        r@.map_values(|s: &str| s@) == frame(l),
{
    let r = match l {
        Layout::Draft => vec!["<div class=\"slide, draft-slide\"></div>"],
        Layout::Blank => vec!["<div class=\"slide\"></div>"],
        Layout::Single => vec![
            "<div class=\"slide\"><div style=margin-top:auto;margin-bottom:auto>",
            "</div></div>",
        ],
        Layout::TitleOverContent => vec![
            "<div class=\"slide\"><div style=\"margin-top:auto;margin-bottom:auto;display:grid\">\n                            <div style=\"height: 30%;\">",
            "</div>\n                            <div style=\"height: 30%;\">",
            "</div>\n                            </div></div>",
        ],
        Layout::SideBySide => vec![
            "<div class=\"slide\"><div style=\"display:inline-flex;justify-content:center;width:100%;max-height:90%;margin-top:auto;margin-bottom:auto\">\n                            <div style=\"width:100%;height:100%\">",
            "</div>\n                            <div class=frame>",
            "</div>\n                            </div></div>",
        ],
        Layout::Rows => vec![
            "<div class=\"slide\"><div>\n                            <div style=\"height:29% !important;\" class=frame>",
            "</div>\n                            <div style=\"height:29% !important;\" class=frame>",
            "</div>\n                            <div style=\"height:29% !important;\" class=frame>",
            "</div>\n                            </div></div>",
        ],
        Layout::Pyramid => vec![
            "<div class=\"slide\"><div style=\"height:49vh !important;\">\n                                <div>",
            "</div>\n                            </div>\n                            <div style=\"display:inline-flex;justify-content:center;width:80vw; height:49vh !important\">\n                                <div>",
            "</div>\n                                <div>",
            "</div>\n                            </div></div>",
        ],
        Layout::Grid => vec![
            "<div class=\"slide\"><style></style><div>\n                            <div>",
            "</div>\n                            <div>",
            "</div>\n                        </div>\n                        <div>\n                            <div>",
            "</div>\n                            <div>",
            "</div>\n                        </div></div>",
        ],
    };
    assert(r@.map_values(|s: &str| s@) =~= frame(l));
    r
}

/// One slide of the presentation: at most four elements, in the order shown.
#[derive(Debug)]
pub struct Slide {
    pub elements: Vec<Element>,
    pub draft: bool,
}

impl Slide {
    /// The natures of the slide's elements.
    pub fn natures(&self) -> (r: Vec<ElementNature>)
        ensures
            r@ == natures_of(elements_view(self.elements@)),
    {
        let mut r: Vec<ElementNature> = Vec::new();
        let mut i: usize = 0;
        while i < self.elements.len()
            invariant
                i <= self.elements.len(),
                r@ == natures_of(elements_view(self.elements@)).take(i as int),
            decreases self.elements.len() - i,
        {
            r.push(self.elements[i].nature);
            assert(r@ =~= natures_of(elements_view(self.elements@)).take(i + 1));
            i = i + 1;
        }
        assert(r@ =~= natures_of(elements_view(self.elements@)));
        r
    }

    /// The slide as HTML, in the layout its elements call for.
    pub fn to_html(&self) -> (r: String)
        requires
            self.elements.len() <= MAX_ELEMENTS,
        ensures
            r@ == slide_html(elements_view(self.elements@), self.draft),
    {
        let ghost s = elements_view(self.elements@);
        let ghost cs = contents_of(s);
        let natures = self.natures();
        let l = select_layout(&natures, self.draft);
        let fr = frame_pieces(l);
        let ghost frv = fr@.map_values(|p: &str| p@);
        proof {
            lemma_frame_len(natures@, self.draft);
        }
        let k = fr.len() - 1;
        let mut out = String::from_str(fr[0]);
        assert(frv.take(1).drop_last() =~= Seq::<Seq<char>>::empty());
        assert(cs.take(0) =~= Seq::<Seq<char>>::empty());
        let mut i: usize = 0;
        while i < k
            invariant
                k + 1 == fr.len(),
                k <= self.elements.len(),
                i <= k,
                s == elements_view(self.elements@),
                cs == contents_of(s),
                frv == fr@.map_values(|p: &str| p@),
                out@ == interleave(frv.take(i + 1), cs.take(i as int)),
            decreases k - i,
        {
            assert(frv.take(i + 2).drop_last() =~= frv.take(i + 1));
            assert(cs.take(i + 1).drop_last() =~= cs.take(i as int));
            out.append(self.elements[i].content.as_str());
            out.append(fr[i + 1]);
            i = i + 1;
        }
        assert(frv.take(k + 1) =~= frv);
        out
    }
}

} // verus!
