//! The whole presentation: its slides, the document-level settings, and the final HTML.

use vstd::prelude::*;

use crate::element::{
    elements_view, natures_of, organize_with_overflow, organized, overflow, Element, ElementNature,
    ElementView, MAX_ELEMENTS,
};
use crate::error::{CompileError, Fault};
use crate::layout::{slide_html, Slide};
use crate::media::{media_fits, MediaFile};
use crate::segment::{cleaned_group, copy_lines, group_by_tag, groups_view, segment, slides_of, tag_groups, CleanTag};
use crate::tags::{dispatch, dispatch_spec, is_tag, tag_token, Outcome, TagOutcome};
use crate::strings::lines_view;
use crate::{TAG_IMAGE, TAG_LOGO, TAG_VIDEO};

verus! {

/// An element that a slide had to leave out, being over the cap.
#[derive(Clone, Copy, Debug, PartialEq, Eq, Structural)]
pub struct Discard {
    /// Index of the slide, from 0.
    pub slide: usize,
    pub nature: ElementNature,
}

/// What one slide's tag groups add up to.
pub struct SlideParts {
    /// The elements in the order of their tag groups, before ordering and cap.
    pub elements: Vec<Element>,
    pub draft: bool,
    /// The last footer the slide declares.
    pub footer: Option<String>,
    /// The last logo the slide declares.
    pub logo: Option<String>,
    /// Whether the slide holds a mermaid diagram.
    pub mermaid: bool,
}

pub struct SlidePartsView {
    pub elements: Seq<ElementView>,
    pub draft: bool,
    pub footer: Option<Seq<char>>,
    pub logo: Option<Seq<char>>,
    pub mermaid: bool,
}

pub open spec fn text_option(o: Option<String>) -> Option<Seq<char>> {
    match o {
        Some(s) => Some(s@),
        None => None,
    }
}

impl View for SlideParts {
    type V = SlidePartsView;

    open spec fn view(&self) -> SlidePartsView {
        SlidePartsView {
            elements: elements_view(self.elements@),
            draft: self.draft,
            footer: text_option(self.footer),
            logo: text_option(self.logo),
            mermaid: self.mermaid,
        }
    }
}

/// The compiled presentation.
pub struct Presentation {
    pub slides: Vec<Slide>,
    /// The footer shown on every slide: the last one declared.
    pub footer: Option<String>,
    /// The logo shown on every slide: the last one declared.
    pub logo: Option<String>,
    /// Whether any slide holds a mermaid diagram.
    pub uses_mermaid: bool,
    /// The elements left out of slides that had more than four.
    pub discards: Vec<Discard>,
}

pub struct SlideView {
    pub elements: Seq<ElementView>,
    pub draft: bool,
}

pub struct PresentationView {
    pub slides: Seq<SlideView>,
    pub footer: Option<Seq<char>>,
    pub logo: Option<Seq<char>>,
    pub uses_mermaid: bool,
    pub discards: Seq<Discard>,
}

pub open spec fn slides_view(v: Seq<Slide>) -> Seq<SlideView> {
    v.map_values(|s: Slide| SlideView { elements: elements_view(s.elements@), draft: s.draft })
}

impl View for Presentation {
    type V = PresentationView;

    open spec fn view(&self) -> PresentationView {
        PresentationView {
            slides: slides_view(self.slides@),
            footer: text_option(self.footer),
            logo: text_option(self.logo),
            uses_mermaid: self.uses_mermaid,
            discards: self.discards@,
        }
    }
}

pub open spec fn empty_parts() -> SlidePartsView {
    SlidePartsView { elements: Seq::empty(), draft: false, footer: None, logo: None, mermaid: false }
}

/// The slide after one more tag group's outcome.
pub open spec fn apply_outcome(acc: SlidePartsView, o: Outcome) -> SlidePartsView {
    match o {
        Outcome::Show(e) => SlidePartsView {
            elements: acc.elements.push(e),
            mermaid: acc.mermaid || e.nature is Mermaid,
            ..acc
        },
        Outcome::Footer(f) => SlidePartsView { footer: Some(f), ..acc },
        Outcome::Logo(l) => SlidePartsView { logo: Some(l), ..acc },
        Outcome::Draft => SlidePartsView { draft: true, ..acc },
        Outcome::Nothing => acc,
    }
}

/// The tag groups `gs` of a slide, read in order; the first fault stops the reading.
pub open spec fn slide_state(gs: Seq<Seq<Seq<char>>>, ms: Seq<MediaFile>) -> Result<SlidePartsView, Fault>
    decreases gs.len(),
{
    if gs.len() == 0 {
        Ok(empty_parts())
    } else {
        match slide_state(gs.drop_last(), ms) {
            Err(f) => Err(f),
            Ok(acc) => match dispatch_spec(cleaned_group(gs.last()), ms) {
                Err(f) => Err(f),
                Ok(o) => Ok(apply_outcome(acc, o)),
            },
        }
    }
}

pub open spec fn empty_presentation() -> PresentationView {
    PresentationView { slides: Seq::empty(), footer: None, logo: None, uses_mermaid: false, discards: Seq::empty() }
}

pub open spec fn discards_for(ns: Seq<ElementNature>, slide: usize) -> Seq<Discard> {
    ns.map_values(|n: ElementNature| Discard { slide, nature: n })
}

/// The presentation after one more slide, the one at index `idx`.
pub open spec fn add_slide(p: PresentationView, acc: SlidePartsView, idx: usize) -> PresentationView {
    PresentationView {
        slides: p.slides.push(SlideView { elements: organized(acc.elements), draft: acc.draft }),
        footer: if acc.footer is Some { acc.footer } else { p.footer },
        logo: if acc.logo is Some { acc.logo } else { p.logo },
        uses_mermaid: p.uses_mermaid || acc.mermaid,
        discards: p.discards + discards_for(natures_of(overflow(acc.elements)), idx),
    }
}

/// The slides `ss`, each a sequence of lines, read in order; the first fault stops the reading.
pub open spec fn presentation_state(ss: Seq<Seq<Seq<char>>>, ms: Seq<MediaFile>) -> Result<PresentationView, Fault>
    decreases ss.len(),
{
    if ss.len() == 0 {
        Ok(empty_presentation())
    } else {
        match presentation_state(ss.drop_last(), ms) {
            Err(f) => Err(f),
            Ok(p) => match slide_state(tag_groups(ss.last()), ms) {
                Err(f) => Err(f),
                Ok(acc) => Ok(add_slide(p, acc, (ss.len() - 1) as usize)),
            },
        }
    }
}

/// The presentation that the input lines `ls` compile to, or the first fault in them.
pub open spec fn compiled(ls: Seq<Seq<char>>, ms: Seq<MediaFile>) -> Result<PresentationView, Fault> {
    let ss = slides_of(ls);
    if ss.len() == 0 {
        Err(Fault::EmptyPresentation)
    } else {
        presentation_state(ss, ms)
    }
}

pub open spec fn parts_result(r: Result<SlideParts, CompileError>) -> Result<SlidePartsView, Fault> {
    match r {
        Ok(p) => Ok(p@),
        Err(e) => Err(e@),
    }
}

pub open spec fn presentation_result(r: Result<Presentation, CompileError>) -> Result<PresentationView, Fault> {
    match r {
        Ok(p) => Ok(p@),
        Err(e) => Err(e@),
    }
}

proof fn lemma_slide_state_fault(gs: Seq<Seq<Seq<char>>>, ms: Seq<MediaFile>, i: int)
    requires
        0 <= i <= gs.len(),
        slide_state(gs.take(i), ms) is Err,
    ensures
        slide_state(gs, ms) == slide_state(gs.take(i), ms),
    decreases gs.len() - i,
{
    if i < gs.len() {
        assert(gs.take(i + 1).drop_last() =~= gs.take(i));
        lemma_slide_state_fault(gs, ms, i + 1);
    } else {
        assert(gs.take(i) =~= gs);
    }
}

proof fn lemma_presentation_state_fault(ss: Seq<Seq<Seq<char>>>, ms: Seq<MediaFile>, i: int)
    requires
        0 <= i <= ss.len(),
        presentation_state(ss.take(i), ms) is Err,
    ensures
        presentation_state(ss, ms) == presentation_state(ss.take(i), ms),
    decreases ss.len() - i,
{
    if i < ss.len() {
        assert(ss.take(i + 1).drop_last() =~= ss.take(i));
        lemma_presentation_state_fault(ss, ms, i + 1);
    } else {
        assert(ss.take(i) =~= ss);
    }
}

/// Records the natures `dropped` as discarded from the slide at index `slide`.
fn push_discards(discards: &mut Vec<Discard>, dropped: &Vec<ElementNature>, slide: usize)
    ensures
        final(discards)@ == old(discards)@ + discards_for(dropped@, slide),
{
    let mut j: usize = 0;
    while j < dropped.len()
        invariant
            j <= dropped.len(),
            discards@ == old(discards)@ + discards_for(dropped@.take(j as int), slide),
        decreases dropped.len() - j,
    {
        discards.push(Discard { slide, nature: dropped[j] });
        assert(discards_for(dropped@.take(j + 1), slide) =~= discards_for(dropped@.take(j as int), slide).push(
            Discard { slide, nature: dropped@[j as int] },
        ));
        assert(discards@ =~= old(discards)@ + discards_for(dropped@.take(j + 1), slide));
        j = j + 1;
    }
    assert(dropped@.take(dropped.len() as int) =~= dropped@);
}

/// Reads one slide's lines: groups them by tag, cleans each tag line and dispatches each
/// group in order.
pub fn read_slide(lines: &Vec<String>, media: &Vec<MediaFile>) -> (r: Result<SlideParts, CompileError>)
    requires
        media_fits(media@),
    ensures
        parts_result(r) == slide_state(tag_groups(lines_view(lines@)), media@),
{
    let groups = group_by_tag(lines);
    let ghost gs = groups_view(groups@);
    let mut parts = SlideParts { elements: Vec::new(), draft: false, footer: None, logo: None, mermaid: false };
    assert(parts@.elements =~= Seq::<ElementView>::empty());
    assert(gs.take(0) =~= Seq::<Seq<Seq<char>>>::empty());
    let mut i: usize = 0;
    while i < groups.len()
        invariant
            i <= groups.len(),
            gs == groups_view(groups@),
            gs == tag_groups(lines_view(lines@)),
            forall|j: int| 0 <= j < groups.len() ==> (#[trigger] groups[j]).len() > 0,
            media_fits(media@),
            slide_state(gs.take(i as int), media@) == Ok::<SlidePartsView, Fault>(parts@),
        decreases groups.len() - i,
    {
        assert(gs.take(i + 1).drop_last() =~= gs.take(i as int));
        assert(gs.take(i + 1).last() == lines_view(groups@[i as int]@));
        let raw = copy_lines(&groups[i]);
        let group = raw.clean_tag();
        assert(lines_view(group@).len() == group@.len());
        match dispatch(group, media) {
            Err(e) => {
                proof {
                    lemma_slide_state_fault(gs, media@, i + 1);
                }
                return Err(e);
            },
            Ok(o) => {
                let ghost before = parts@;
                match o {
                    TagOutcome::Show(e) => {
                        if e.nature == ElementNature::Mermaid {
                            parts.mermaid = true;
                        }
                        parts.elements.push(e);
                        assert(parts@.elements =~= before.elements.push(e@));
                    },
                    TagOutcome::Footer(f) => {
                        parts.footer = Some(f);
                    },
                    TagOutcome::Logo(l) => {
                        parts.logo = Some(l);
                    },
                    TagOutcome::Draft => {
                        parts.draft = true;
                    },
                    TagOutcome::Nothing => {},
                }
            },
        }
        i = i + 1;
    }
    assert(gs.take(groups.len() as int) =~= gs);
    Ok(parts)
}

/// Compiles the input lines into a presentation. The bytes of the media files that the
/// markup names come in `media`, under the paths by which it names them.
pub fn compile(lines: &Vec<String>, media: &Vec<MediaFile>) -> (r: Result<Presentation, CompileError>)
    requires
        media_fits(media@),
    ensures
        presentation_result(r) == compiled(lines_view(lines@), media@),
        r matches Ok(p) ==> forall|i: int| 0 <= i < p.slides.len() ==> (#[trigger] p.slides[i]).elements.len() <= MAX_ELEMENTS,
{
    let raw_slides = segment(lines);
    let ghost ss = groups_view(raw_slides@);
    if raw_slides.len() == 0 {
        return Err(CompileError::EmptyPresentation);
    }
    let mut doc = Presentation { slides: Vec::new(), footer: None, logo: None, uses_mermaid: false, discards: Vec::new() };
    assert(doc@.slides =~= Seq::<SlideView>::empty());
    assert(ss.take(0) =~= Seq::<Seq<Seq<char>>>::empty());
    let mut i: usize = 0;
    while i < raw_slides.len()
        invariant
            i <= raw_slides.len(),
            ss == groups_view(raw_slides@),
            ss == slides_of(lines_view(lines@)),
            ss.len() > 0,
            media_fits(media@),
            presentation_state(ss.take(i as int), media@) == Ok::<PresentationView, Fault>(doc@),
            forall|j: int| 0 <= j < doc.slides.len() ==> (#[trigger] doc.slides[j]).elements.len() <= MAX_ELEMENTS,
        decreases raw_slides.len() - i,
    {
        assert(ss.take(i + 1).drop_last() =~= ss.take(i as int));
        assert(ss.take(i + 1).last() == lines_view(raw_slides@[i as int]@));
        assert(ss.take(i + 1).len() - 1 == i);
        let parts = match read_slide(&raw_slides[i], media) {
            Err(e) => {
                proof {
                    lemma_presentation_state_fault(ss, media@, i + 1);
                }
                return Err(e);
            },
            Ok(p) => p,
        };
        let ghost before = doc@;
        let ghost acc = parts@;
        let (kept, dropped) = organize_with_overflow(&parts.elements);
        let ghost old_slides = doc.slides@;
        doc.slides.push(Slide { elements: kept, draft: parts.draft });
        assert(slides_view(doc.slides@) =~= slides_view(old_slides).push(
            SlideView { elements: organized(acc.elements), draft: acc.draft },
        ));
        push_discards(&mut doc.discards, &dropped, i);
        if parts.footer.is_some() {
            doc.footer = parts.footer;
        }
        if parts.logo.is_some() {
            doc.logo = parts.logo;
        }
        doc.uses_mermaid = doc.uses_mermaid || parts.mermaid;
        assert(doc@.slides == before.slides.push(SlideView { elements: organized(acc.elements), draft: acc.draft }));
        i = i + 1;
    }
    assert(ss.take(raw_slides.len() as int) =~= ss);
    Ok(doc)
}

/// Loads the mermaid library in a document that holds diagrams.
pub const MERMAID_SCRIPT: &'static str = "<script type=\"module\">import mermaid from 'https://cdn.jsdelivr.net/npm/mermaid@11/dist/mermaid.esm.min.mjs';mermaid.initialize({ startOnLoad: true });</script>";

/// The finished document.
pub struct HTML(pub String);

pub open spec fn or_empty(o: Option<Seq<char>>) -> Seq<char> {
    match o {
        Some(s) => s,
        None => Seq::empty(),
    }
}

/// The slides' HTML, one after the other.
pub open spec fn slides_html(ss: Seq<SlideView>) -> Seq<char>
    decreases ss.len(),
{
    if ss.len() == 0 {
        Seq::empty()
    } else {
        slides_html(ss.drop_last()) + slide_html(ss.last().elements, ss.last().draft)
    }
}

/// The document: a head with the mermaid loader where diagrams are used, the style, the
/// footer and the logo; a body with the slides in order; the script last.
pub open spec fn document_html(
    logo: Option<Seq<char>>,
    footer: Option<Seq<char>>,
    mermaid: bool,
    ss: Seq<SlideView>,
    style: Seq<char>,
    script: Seq<char>,
) -> Seq<char> {
    "<!DOCTYPE html>\n\n                    <html>\n\n                    <head>\n\n                    "@ + (if mermaid {
        MERMAID_SCRIPT@
    } else {
        Seq::empty()
    }) + "<style>"@ + style + "</style>"@ + or_empty(footer) + or_empty(logo) + "\n                    <div id=\"marcador\"></div>\n                    <div id=\"popup\">\n                        <p><span id=\"conteudo-popup\"></span></p>\n                    </div></head>\n\n                    "@ + "<body>"@
        + slides_html(ss) + "</body>"@ + "<script>"@ + script + "</script>"@ + "\n                    </html>"@
}

fn append_option(out: &mut String, o: &Option<String>)
    ensures
        final(out)@ == old(out)@ + or_empty(text_option(*o)),
{
    match o {
        Some(s) => out.append(s.as_str()),
        None => {
            assert(old(out)@ + Seq::<char>::empty() =~= old(out)@);
        },
    }
}

/// Puts the slides into one HTML document, with the stylesheet `style` and the script
/// `script`. A presentation without slides is refused.
pub fn render(
    logo: &Option<String>,
    footer: &Option<String>,
    mermaid: bool,
    slides: &Vec<Slide>,
    style: &str,
    script: &str,
) -> (r: Result<HTML, CompileError>)
    requires
        forall|i: int| 0 <= i < slides.len() ==> (#[trigger] slides[i]).elements.len() <= MAX_ELEMENTS,
    ensures
        r is Err <==> slides.len() == 0,
        r matches Err(e) ==> e@ == Fault::EmptyPresentation,
        r matches Ok(h) ==> h.0@ == document_html(
            text_option(*logo),
            text_option(*footer),
            mermaid,
            slides_view(slides@),
            style@,
            script@,
        ),
{
    if slides.len() == 0 {
        return Err(CompileError::EmptyPresentation);
    }
    let ghost sv = slides_view(slides@);
    let mut body = String::from_str("<body>");
    let mut i: usize = 0;
    assert(sv.take(0) =~= Seq::<SlideView>::empty());
    while i < slides.len()
        invariant
            i <= slides.len(),
            sv == slides_view(slides@),
            forall|j: int| 0 <= j < slides.len() ==> (#[trigger] slides[j]).elements.len() <= MAX_ELEMENTS,
            body@ == "<body>"@ + slides_html(sv.take(i as int)),
        decreases slides.len() - i,
    {
        assert(sv.take(i + 1).drop_last() =~= sv.take(i as int));
        let piece = slides[i].to_html();
        body.append(piece.as_str());
        assert(body@ =~= "<body>"@ + slides_html(sv.take(i + 1)));
        i = i + 1;
    }
    assert(sv.take(slides.len() as int) =~= sv);
    let mut out = String::from_str("<!DOCTYPE html>\n\n                    <html>\n\n                    <head>\n\n                    ");
    if mermaid {
        out.append(MERMAID_SCRIPT);
    }
    out.append("<style>");
    out.append(style);
    out.append("</style>");
    append_option(&mut out, footer);
    append_option(&mut out, logo);
    out.append("\n                    <div id=\"marcador\"></div>\n                    <div id=\"popup\">\n                        <p><span id=\"conteudo-popup\"></span></p>\n                    </div></head>\n\n                    ");
    out.append(body.as_str());
    out.append("</body>");
    out.append("<script>");
    out.append(script);
    out.append("</script>");
    out.append("\n                    </html>");
    proof {
        let head: Seq<char> = "<!DOCTYPE html>\n\n                    <html>\n\n                    <head>\n\n                    "@ + (if mermaid {
            MERMAID_SCRIPT@
        } else {
            Seq::empty()
        });
        assert(head + "<style>"@ =~= if mermaid {
            "<!DOCTYPE html>\n\n                    <html>\n\n                    <head>\n\n                    "@ + MERMAID_SCRIPT@ + "<style>"@
        } else {
            "<!DOCTYPE html>\n\n                    <html>\n\n                    <head>\n\n                    "@ + "<style>"@
        });
    }
    assert(out@ =~= document_html(text_option(*logo), text_option(*footer), mermaid, sv, style@, script@));
    Ok(HTML(out))
}

/// Tag lines of the tags whose argument names a media file.
pub open spec fn is_media_tag(t: Seq<char>) -> bool {
    t == tag_token(TAG_IMAGE@) || t == tag_token(TAG_VIDEO@) || t == tag_token(TAG_LOGO@)
}

/// The media path that a tag group names, if any.
pub open spec fn group_media(g: Seq<Seq<char>>) -> Seq<Seq<char>> {
    let c = cleaned_group(g);
    if c.len() >= 2 && is_media_tag(c[0]) {
        seq![c[1]]
    } else {
        Seq::empty()
    }
}

pub open spec fn slide_media(gs: Seq<Seq<Seq<char>>>) -> Seq<Seq<char>>
    decreases gs.len(),
{
    if gs.len() == 0 {
        Seq::empty()
    } else {
        slide_media(gs.drop_last()) + group_media(gs.last())
    }
}

pub open spec fn presentation_media(ss: Seq<Seq<Seq<char>>>) -> Seq<Seq<char>>
    decreases ss.len(),
{
    if ss.len() == 0 {
        Seq::empty()
    } else {
        presentation_media(ss.drop_last()) + slide_media(tag_groups(ss.last()))
    }
}

/// The paths of the media files that the markup names, in order: those whose bytes
/// `compile` asks for.
pub fn media_references(lines: &Vec<String>) -> (r: Vec<String>)
    ensures
        lines_view(r@) == presentation_media(slides_of(lines_view(lines@))),
{
    let raw_slides = segment(lines);
    let ghost ss = groups_view(raw_slides@);
    let mut out: Vec<String> = Vec::new();
    let mut i: usize = 0;
    assert(ss.take(0) =~= Seq::<Seq<Seq<char>>>::empty());
    assert(lines_view(out@) =~= Seq::<Seq<char>>::empty());
    while i < raw_slides.len()
        invariant
            i <= raw_slides.len(),
            ss == groups_view(raw_slides@),
            lines_view(out@) == presentation_media(ss.take(i as int)),
        decreases raw_slides.len() - i,
    {
        assert(ss.take(i + 1).drop_last() =~= ss.take(i as int));
        assert(ss.take(i + 1).last() == lines_view(raw_slides@[i as int]@));
        let groups = group_by_tag(&raw_slides[i]);
        let ghost gs = groups_view(groups@);
        let ghost start = lines_view(out@);
        let mut j: usize = 0;
        assert(gs.take(0) =~= Seq::<Seq<Seq<char>>>::empty());
        assert(start + slide_media(gs.take(0)) =~= start);
        while j < groups.len()
            invariant
                j <= groups.len(),
                gs == groups_view(groups@),
                forall|k: int| 0 <= k < groups.len() ==> (#[trigger] groups[k]).len() > 0,
                lines_view(out@) == start + slide_media(gs.take(j as int)),
            decreases groups.len() - j,
        {
            assert(gs.take(j + 1).drop_last() =~= gs.take(j as int));
            assert(gs.take(j + 1).last() == lines_view(groups@[j as int]@));
            let raw = copy_lines(&groups[j]);
            let g = raw.clean_tag();
            assert(lines_view(g@).len() == g@.len());
            let ghost before = lines_view(out@);
            if g.len() >= 2 && (is_tag(g[0].as_str(), TAG_IMAGE) || is_tag(g[0].as_str(), TAG_VIDEO)
                || is_tag(g[0].as_str(), TAG_LOGO)) {
                out.push(g[1].clone());
                assert(lines_view(out@) =~= before + seq![g@[1]@]);
            } else {
                assert(before + Seq::<Seq<char>>::empty() =~= before);
            }
            assert(lines_view(out@) =~= start + slide_media(gs.take(j + 1)));
            j = j + 1;
        }
        assert(gs.take(groups.len() as int) =~= gs);
        i = i + 1;
    }
    assert(ss.take(raw_slides.len() as int) =~= ss);
    out
}

} // verus!
