//! Tag groups turned into elements or document-level settings.

use vstd::prelude::*;

use crate::element::{Element, ElementNature, ElementView};
use crate::error::{CompileError, Fault};
use crate::media::{file_base64, media_fits, resolved_media, MediaFile};
use crate::segment::cleaned_group;
use crate::strings::{
    lines_view, replace_all, replace_char, same_text, without_whitespace, wrap_each, wrap_lines,
};
use crate::{
    TAG_DRAFT, TAG_FOOTER, TAG_HEADING, TAG_IMAGE, TAG_LOGO, TAG_MARKER, TAG_MERMAID,
    TAG_MERMAIDSCRIPT, TAG_ORDLIST, TAG_SUBHEADING, TAG_TABLE, TAG_TEXT, TAG_ULIST, TAG_VIDEO,
};

verus! {

/// The tag line that names the tag `name`.
pub open spec fn tag_token(name: Seq<char>) -> Seq<char> {
    TAG_MARKER@ + name
}

/// A group for the tag `name`: the tag line names it and at least one argument follows.
pub open spec fn element_ok(g: Seq<Seq<char>>, name: Seq<char>) -> bool {
    g.len() >= 2 && g[0] == tag_token(name)
}

/// The tag name under which each nature is written.
pub open spec fn tag_name(n: ElementNature) -> Seq<char> {
    match n {
        ElementNature::Heading => TAG_HEADING@,
        ElementNature::Subheading => TAG_SUBHEADING@,
        ElementNature::Text => TAG_TEXT@,
        ElementNature::OrdList => TAG_ORDLIST@,
        ElementNature::List => TAG_ULIST@,
        ElementNature::Video => TAG_VIDEO@,
        ElementNature::Image => TAG_IMAGE@,
        ElementNature::Mermaid => TAG_MERMAID@,
        ElementNature::Table => TAG_TABLE@,
    }
}

/// The lines of `g` from index `k` on.
pub open spec fn lines_from(g: Seq<Seq<char>>, k: int) -> Seq<Seq<char>> {
    g.subrange(k, g.len() as int)
}

pub open spec fn heading_html(a: Seq<char>) -> Seq<char> {
    "\n        <div class=\"element\"><h1>"@ + a + "</h1></div>"@
}

pub open spec fn subheading_html(a: Seq<char>) -> Seq<char> {
    "<div class=\"element\"><h2>"@ + a + "</h2></div>"@
}

pub open spec fn text_html(g: Seq<Seq<char>>) -> Seq<char> {
    "<div class=\"element\"><p>"@ + g[1] + wrap_lines(lines_from(g, 2), "<br>"@, ""@)
        + "</p></div>"@
}

pub open spec fn ulist_html(g: Seq<Seq<char>>) -> Seq<char> {
    "<div class=\"element\"><ul>"@ + wrap_lines(lines_from(g, 1), "<li>"@, "</li>"@)
        + "</ul></div>"@
}

pub open spec fn ordlist_html(g: Seq<Seq<char>>) -> Seq<char> {
    "<div class=\"element\"><ol>"@ + wrap_lines(lines_from(g, 1), "<li>"@, "</li>"@)
        + "</ol></div>"@
}

pub open spec fn mermaid_html(g: Seq<Seq<char>>) -> Seq<char> {
    "<div class=\"element\"><pre class=\"mermaid\">"@ + wrap_lines(lines_from(g, 1), ""@, ""@)
        + "</pre></div>"@
}

/// Body rows of a table, cells split at `|`.
pub open spec fn table_rows(ls: Seq<Seq<char>>) -> Seq<char>
    decreases ls.len(),
{
    if ls.len() == 0 {
        Seq::empty()
    } else {
        table_rows(ls.drop_last()) + "<tbody><tr><td>"@ + replace_char(
            ls.last(),
            '|',
            "</td><td>"@,
        ) + "</td></tr></tbody>"@
    }
}

/// A table: the first argument is the header row, the others body rows.
pub open spec fn table_html(g: Seq<Seq<char>>) -> Seq<char> {
    "<div class=\"element\"><table><thead><tr><th>"@ + replace_char(g[1], '|', "</th><th>"@)
        + "</th></tr></thead>"@ + table_rows(lines_from(g, 2)) + "</table></div>"@
}

/// A caption made of the lines `cs`, if there are any.
pub open spec fn caption_html(cs: Seq<Seq<char>>) -> Seq<char> {
    if cs.len() == 0 {
        Seq::empty()
    } else {
        "<figcaption>"@ + cs[0] + wrap_lines(lines_from(cs, 1), "<br>"@, ""@) + "</figcaption>"@
    }
}

pub open spec fn image_html(uri: Seq<char>, g: Seq<Seq<char>>) -> Seq<char> {
    "<div class=\"element\"><div><img src=\""@ + uri + "\">"@ + caption_html(lines_from(g, 2))
        + "</img></div></div>"@
}

pub open spec fn video_html(uri: Seq<char>) -> Seq<char> {
    "<div class=element><video controls src=\""@ + uri + "\"></video></div>"@
}

pub open spec fn footer_html(a: Seq<char>) -> Seq<char> {
    "<footer>"@ + a + "</footer>"@
}

pub open spec fn logo_html(uri: Seq<char>) -> Seq<char> {
    "<img class=\"logo\" src=\""@ + uri + "\"></img>"@
}

/// The element that `g` renders to under the tag `name`, or the fault in `g`.
pub open spec fn element_of(
    g: Seq<Seq<char>>,
    name: Seq<char>,
    nature: ElementNature,
    html: Seq<char>,
) -> Result<ElementView, Fault> {
    if element_ok(g, name) {
        Ok(ElementView { nature, content: html })
    } else {
        Err(Fault::FaultyTag(g[0]))
    }
}

pub open spec fn heading_spec(g: Seq<Seq<char>>) -> Result<ElementView, Fault> {
    element_of(g, TAG_HEADING@, ElementNature::Heading, heading_html(g[1]))
}

pub open spec fn subheading_spec(g: Seq<Seq<char>>) -> Result<ElementView, Fault> {
    element_of(g, TAG_SUBHEADING@, ElementNature::Subheading, subheading_html(g[1]))
}

pub open spec fn text_spec(g: Seq<Seq<char>>) -> Result<ElementView, Fault> {
    element_of(g, TAG_TEXT@, ElementNature::Text, text_html(g))
}

pub open spec fn ulist_spec(g: Seq<Seq<char>>) -> Result<ElementView, Fault> {
    element_of(g, TAG_ULIST@, ElementNature::List, ulist_html(g))
}

pub open spec fn ordlist_spec(g: Seq<Seq<char>>) -> Result<ElementView, Fault> {
    element_of(g, TAG_ORDLIST@, ElementNature::OrdList, ordlist_html(g))
}

pub open spec fn table_spec(g: Seq<Seq<char>>) -> Result<ElementView, Fault> {
    element_of(g, TAG_TABLE@, ElementNature::Table, table_html(g))
}

pub open spec fn mermaid_spec(g: Seq<Seq<char>>) -> Result<ElementView, Fault> {
    element_of(g, TAG_MERMAID@, ElementNature::Mermaid, mermaid_html(g))
}

pub open spec fn image_spec(g: Seq<Seq<char>>, ms: Seq<MediaFile>) -> Result<ElementView, Fault> {
    if !element_ok(g, TAG_IMAGE@) {
        Err(Fault::FaultyTag(g[0]))
    } else {
        match resolved_media(ms, g[1], "image"@) {
            Ok(uri) => Ok(ElementView { nature: ElementNature::Image, content: image_html(uri, g) }),
            Err(f) => Err(f),
        }
    }
}

pub open spec fn video_spec(g: Seq<Seq<char>>, ms: Seq<MediaFile>) -> Result<ElementView, Fault> {
    if !element_ok(g, TAG_VIDEO@) {
        Err(Fault::FaultyTag(g[0]))
    } else {
        match resolved_media(ms, g[1], "video"@) {
            Ok(uri) => Ok(ElementView { nature: ElementNature::Video, content: video_html(uri) }),
            Err(f) => Err(f),
        }
    }
}

pub open spec fn footer_spec(g: Seq<Seq<char>>) -> Result<Seq<char>, Fault> {
    if element_ok(g, TAG_FOOTER@) {
        Ok(footer_html(g[1]))
    } else {
        Err(Fault::FaultyTag(g[0]))
    }
}

pub open spec fn logo_spec(g: Seq<Seq<char>>, ms: Seq<MediaFile>) -> Result<Seq<char>, Fault> {
    if !element_ok(g, TAG_LOGO@) {
        Err(Fault::FaultyTag(g[0]))
    } else {
        match resolved_media(ms, g[1], "image"@) {
            Ok(uri) => Ok(logo_html(uri)),
            Err(f) => Err(f),
        }
    }
}

/// What an element result holds.
pub open spec fn element_result(r: Result<Element, CompileError>) -> Result<ElementView, Fault> {
    match r {
        Ok(e) => Ok(e@),
        Err(e) => Err(e@),
    }
}

/// Checks that `raw_element` is a group for the tag `reference` with an argument.
pub fn is_element_ok(raw_element: &Vec<String>, reference: &str) -> (r: Result<(), CompileError>)
    requires
        raw_element.len() >= 1,
    ensures
        r is Ok <==> element_ok(lines_view(raw_element@), reference@),
        r matches Err(e) ==> e@ == Fault::FaultyTag(raw_element@[0]@),
{
    if raw_element.len() < 2 || !is_tag(raw_element[0].as_str(), reference) {
        Err(CompileError::FaultyTag(raw_element[0].clone()))
    } else {
        Ok(())
    }
}

/// Whether `t` is the tag line of the tag `name`.
pub fn is_tag(t: &str, name: &str) -> (r: bool)
    ensures
        r == (t@ == tag_token(name@)),
{
    let mut token = String::from_str(TAG_MARKER);
    token.append(name);
    same_text(t, token.as_str())
}

/// A paragraph: the first argument, then the others each after a line break.
pub fn text(raw_element: Vec<String>) -> (r: Result<Element, CompileError>)
    requires
        raw_element.len() >= 1,
    ensures
        element_result(r) == text_spec(lines_view(raw_element@)),
{
    if let Err(e) = is_element_ok(&raw_element, TAG_TEXT) {
        return Err(e);
    }
    let mut p = String::from_str("<div class=\"element\"><p>");
    p.append(raw_element[1].as_str());
    let rest = wrap_each(&raw_element, 2, "<br>", "");
    p.append(rest.as_str());
    p.append("</p></div>");
    assert(p@ =~= text_html(lines_view(raw_element@)));
    Ok(Element { nature: ElementNature::Text, content: p })
}

/// A heading made of the first argument; further lines are ignored.
pub fn heading(raw_element: Vec<String>) -> (r: Result<Element, CompileError>)
    requires
        raw_element.len() >= 1,
    ensures
        element_result(r) == heading_spec(lines_view(raw_element@)),
{
    if let Err(e) = is_element_ok(&raw_element, TAG_HEADING) {
        return Err(e);
    }
    let mut h = String::from_str("\n        <div class=\"element\"><h1>");
    h.append(raw_element[1].as_str());
    h.append("</h1></div>");
    assert(h@ =~= heading_html(raw_element@[1]@));
    Ok(Element { nature: ElementNature::Heading, content: h })
}

/// A subheading made of the first argument; further lines are ignored.
pub fn subheading(raw_element: Vec<String>) -> (r: Result<Element, CompileError>)
    requires
        raw_element.len() >= 1,
    ensures
        element_result(r) == subheading_spec(lines_view(raw_element@)),
{
    if let Err(e) = is_element_ok(&raw_element, TAG_SUBHEADING) {
        return Err(e);
    }
    let mut h = String::from_str("<div class=\"element\"><h2>");
    h.append(raw_element[1].as_str());
    h.append("</h2></div>");
    assert(h@ =~= subheading_html(raw_element@[1]@));
    Ok(Element { nature: ElementNature::Subheading, content: h })
}

/// A video embedded from the file named by the first argument.
pub fn video(raw_element: Vec<String>, media: &Vec<MediaFile>) -> (r: Result<Element, CompileError>)
    requires
        raw_element.len() >= 1,
        media_fits(media@),
    ensures
        element_result(r) == video_spec(lines_view(raw_element@), media@),
{
    if let Err(e) = is_element_ok(&raw_element, TAG_VIDEO) {
        return Err(e);
    }
    let uri = match file_base64(raw_element[1].as_str(), "video", media) {
        Ok(u) => u,
        Err(e) => {
            return Err(e);
        },
    };
    let mut v = String::from_str("<div class=element><video controls src=\"");
    v.append(uri.as_str());
    v.append("\"></video></div>");
    assert(v@ =~= video_html(uri@));
    Ok(Element { nature: ElementNature::Video, content: v })
}

/// A table: the first argument is the header row, the others body rows, cells split at `|`.
pub fn table(raw_element: Vec<String>) -> (r: Result<Element, CompileError>)
    requires
        raw_element.len() >= 1,
    ensures
        element_result(r) == table_spec(lines_view(raw_element@)),
{
    if let Err(e) = is_element_ok(&raw_element, TAG_TABLE) {
        return Err(e);
    }
    let ghost g = lines_view(raw_element@);
    let mut t = String::from_str("<div class=\"element\"><table><thead><tr><th>");
    let header = replace_all(raw_element[1].as_str(), '|', "</th><th>");
    t.append(header.as_str());
    t.append("</th></tr></thead>");
    let ghost head = t@;
    let mut i: usize = 2;
    assert(g.subrange(2, 2) =~= Seq::<Seq<char>>::empty());
    while i < raw_element.len()
        invariant
            2 <= i <= raw_element.len(),
            g == lines_view(raw_element@),
            t@ == head + table_rows(g.subrange(2, i as int)),
        decreases raw_element.len() - i,
    {
        assert(g.subrange(2, i + 1).drop_last() =~= g.subrange(2, i as int));
        t.append("<tbody><tr><td>");
        let row = replace_all(raw_element[i].as_str(), '|', "</td><td>");
        t.append(row.as_str());
        t.append("</td></tr></tbody>");
        i = i + 1;
    }
    t.append("</table></div>");
    assert(t@ =~= table_html(g));
    Ok(Element { nature: ElementNature::Table, content: t })
}

/// The footer shown on every slide, made of the first argument.
pub fn footer(raw_element: Vec<String>) -> (r: Result<String, CompileError>)
    requires
        raw_element.len() >= 1,
    ensures
        crate::error::text_result(r) == footer_spec(lines_view(raw_element@)),
{
    if let Err(e) = is_element_ok(&raw_element, TAG_FOOTER) {
        return Err(e);
    }
    let mut f = String::from_str("<footer>");
    f.append(raw_element[1].as_str());
    f.append("</footer>");
    assert(f@ =~= footer_html(raw_element@[1]@));
    Ok(f)
}

/// The logo shown at the top of every slide, embedded from the file named by the first
/// argument.
pub fn logo(raw_element: Vec<String>, media: &Vec<MediaFile>) -> (r: Result<String, CompileError>)
    requires
        raw_element.len() >= 1,
        media_fits(media@),
    ensures
        crate::error::text_result(r) == logo_spec(lines_view(raw_element@), media@),
{
    if let Err(e) = is_element_ok(&raw_element, TAG_LOGO) {
        return Err(e);
    }
    let uri = match file_base64(raw_element[1].as_str(), "image", media) {
        Ok(u) => u,
        Err(e) => {
            return Err(e);
        },
    };
    let mut l = String::from_str("<img class=\"logo\" src=\"");
    l.append(uri.as_str());
    l.append("\"></img>");
    assert(l@ =~= logo_html(uri@));
    Ok(l)
}

/// An image embedded from the file named by the first argument; the lines after it make
/// its caption.
pub fn image(raw_element: Vec<String>, media: &Vec<MediaFile>) -> (r: Result<Element, CompileError>)
    requires
        raw_element.len() >= 1,
        media_fits(media@),
    ensures
        element_result(r) == image_spec(lines_view(raw_element@), media@),
{
    if let Err(e) = is_element_ok(&raw_element, TAG_IMAGE) {
        return Err(e);
    }
    let ghost g = lines_view(raw_element@);
    let uri = match file_base64(raw_element[1].as_str(), "image", media) {
        Ok(u) => u,
        Err(e) => {
            return Err(e);
        },
    };
    let mut c = String::from_str("<div class=\"element\"><div><img src=\"");
    c.append(uri.as_str());
    c.append("\">");
    if raw_element.len() > 2 {
        c.append("<figcaption>");
        c.append(raw_element[2].as_str());
        let rest = wrap_each(&raw_element, 3, "<br>", "");
        c.append(rest.as_str());
        c.append("</figcaption>");
        let ghost cs = lines_from(g, 2);
        assert(cs[0] == g[2]);
        assert(lines_from(cs, 1) =~= lines_from(g, 3));
    } else {
        assert(lines_from(g, 2) =~= Seq::<Seq<char>>::empty());
    }
    c.append("</img></div></div>");
    assert(c@ =~= image_html(uri@, g));
    Ok(Element { nature: ElementNature::Image, content: c })
}

/// A mermaid diagram whose source is the arguments, one after the other.
pub fn mermaid(raw_element: Vec<String>) -> (r: Result<Element, CompileError>)
    requires
        raw_element.len() >= 1,
    ensures
        element_result(r) == mermaid_spec(lines_view(raw_element@)),
{
    if let Err(e) = is_element_ok(&raw_element, TAG_MERMAID) {
        return Err(e);
    }
    let mut m = String::from_str("<div class=\"element\"><pre class=\"mermaid\">");
    let source = wrap_each(&raw_element, 1, "", "");
    m.append(source.as_str());
    m.append("</pre></div>");
    assert(m@ =~= mermaid_html(lines_view(raw_element@)));
    Ok(Element { nature: ElementNature::Mermaid, content: m })
}

/// An unordered list, one item per argument.
pub fn ulist(raw_element: Vec<String>) -> (r: Result<Element, CompileError>)
    requires
        raw_element.len() >= 1,
    ensures
        element_result(r) == ulist_spec(lines_view(raw_element@)),
{
    if let Err(e) = is_element_ok(&raw_element, TAG_ULIST) {
        return Err(e);
    }
    let mut out = String::from_str("<div class=\"element\"><ul>");
    let items = wrap_each(&raw_element, 1, "<li>", "</li>");
    out.append(items.as_str());
    out.append("</ul></div>");
    assert(out@ =~= ulist_html(lines_view(raw_element@)));
    Ok(Element { nature: ElementNature::List, content: out })
}

/// An ordered list, one item per argument.
pub fn ordlist(raw_element: Vec<String>) -> (r: Result<Element, CompileError>)
    requires
        raw_element.len() >= 1,
    ensures
        element_result(r) == ordlist_spec(lines_view(raw_element@)),
{
    if let Err(e) = is_element_ok(&raw_element, TAG_ORDLIST) {
        return Err(e);
    }
    let mut out = String::from_str("<div class=\"element\"><ol>");
    let items = wrap_each(&raw_element, 1, "<li>", "</li>");
    out.append(items.as_str());
    out.append("</ol></div>");
    assert(out@ =~= ordlist_html(lines_view(raw_element@)));
    Ok(Element { nature: ElementNature::OrdList, content: out })
}

/// What a tag group does: show an element, or set the footer, the logo or the draft mark.
#[derive(Debug)]
pub enum TagOutcome {
    Show(Element),
    Footer(String),
    Logo(String),
    Draft,
    Nothing,
}

/// What a `TagOutcome` holds.
pub enum Outcome {
    Show(ElementView),
    Footer(Seq<char>),
    Logo(Seq<char>),
    Draft,
    Nothing,
}

impl View for TagOutcome {
    type V = Outcome;

    open spec fn view(&self) -> Outcome {
        match self {
            TagOutcome::Show(e) => Outcome::Show(e@),
            TagOutcome::Footer(f) => Outcome::Footer(f@),
            TagOutcome::Logo(l) => Outcome::Logo(l@),
            TagOutcome::Draft => Outcome::Draft,
            TagOutcome::Nothing => Outcome::Nothing,
        }
    }
}

pub open spec fn outcome_result(r: Result<TagOutcome, CompileError>) -> Result<Outcome, Fault> {
    match r {
        Ok(o) => Ok(o@),
        Err(e) => Err(e@),
    }
}

pub open spec fn shown(r: Result<ElementView, Fault>) -> Result<Outcome, Fault> {
    match r {
        Ok(e) => Ok(Outcome::Show(e)),
        Err(f) => Err(f),
    }
}

/// The tag lines that name a tag.
pub open spec fn is_known_tag(t: Seq<char>) -> bool {
    ||| t == tag_token(TAG_HEADING@)
    ||| t == tag_token(TAG_SUBHEADING@)
    ||| t == tag_token(TAG_ULIST@)
    ||| t == tag_token(TAG_ORDLIST@)
    ||| t == tag_token(TAG_TEXT@)
    ||| t == tag_token(TAG_VIDEO@)
    ||| t == tag_token(TAG_IMAGE@)
    ||| t == tag_token(TAG_TABLE@)
    ||| t == tag_token(TAG_MERMAID@)
    ||| t == tag_token(TAG_MERMAIDSCRIPT@)
    ||| t == tag_token(TAG_FOOTER@)
    ||| t == tag_token(TAG_LOGO@)
    ||| t == tag_token(TAG_DRAFT@)
}

/// What the cleaned tag group `g` does, by the tag that its first line names.
pub open spec fn dispatch_spec(g: Seq<Seq<char>>, ms: Seq<MediaFile>) -> Result<Outcome, Fault> {
    let t = g[0];
    if t == tag_token(TAG_HEADING@) {
        shown(heading_spec(g))
    } else if t == tag_token(TAG_SUBHEADING@) {
        shown(subheading_spec(g))
    } else if t == tag_token(TAG_ULIST@) {
        shown(ulist_spec(g))
    } else if t == tag_token(TAG_ORDLIST@) {
        shown(ordlist_spec(g))
    } else if t == tag_token(TAG_TEXT@) {
        shown(text_spec(g))
    } else if t == tag_token(TAG_VIDEO@) {
        shown(video_spec(g, ms))
    } else if t == tag_token(TAG_IMAGE@) {
        shown(image_spec(g, ms))
    } else if t == tag_token(TAG_TABLE@) {
        shown(table_spec(g))
    } else if t == tag_token(TAG_MERMAID@) {
        shown(mermaid_spec(g))
    } else if t == tag_token(TAG_MERMAIDSCRIPT@) {
        Ok(Outcome::Nothing)
    } else if t == tag_token(TAG_FOOTER@) {
        match footer_spec(g) {
            Ok(f) => Ok(Outcome::Footer(f)),
            Err(e) => Err(e),
        }
    } else if t == tag_token(TAG_LOGO@) {
        match logo_spec(g, ms) {
            Ok(l) => Ok(Outcome::Logo(l)),
            Err(e) => Err(e),
        }
    } else if t == tag_token(TAG_DRAFT@) {
        Ok(Outcome::Draft)
    } else {
        Err(Fault::FaultyTag(t))
    }
}

fn show(r: Result<Element, CompileError>) -> (o: Result<TagOutcome, CompileError>)
    ensures
        outcome_result(o) == shown(element_result(r)),
{
    match r {
        Ok(e) => Ok(TagOutcome::Show(e)),
        Err(e) => Err(e),
    }
}

/// Renders a cleaned tag group by the tag that its first line names.
pub fn dispatch(group: Vec<String>, media: &Vec<MediaFile>) -> (r: Result<TagOutcome, CompileError>)
    requires
        group.len() >= 1,
        media_fits(media@),
    ensures
        outcome_result(r) == dispatch_spec(lines_view(group@), media@),
{
    let t = group[0].as_str();
    if is_tag(t, TAG_HEADING) {
        show(heading(group))
    } else if is_tag(t, TAG_SUBHEADING) {
        show(subheading(group))
    } else if is_tag(t, TAG_ULIST) {
        show(ulist(group))
    } else if is_tag(t, TAG_ORDLIST) {
        show(ordlist(group))
    } else if is_tag(t, TAG_TEXT) {
        show(text(group))
    } else if is_tag(t, TAG_VIDEO) {
        show(video(group, media))
    } else if is_tag(t, TAG_IMAGE) {
        show(image(group, media))
    } else if is_tag(t, TAG_TABLE) {
        show(table(group))
    } else if is_tag(t, TAG_MERMAID) {
        show(mermaid(group))
    } else if is_tag(t, TAG_MERMAIDSCRIPT) {
        Ok(TagOutcome::Nothing)
    } else if is_tag(t, TAG_FOOTER) {
        match footer(group) {
            Ok(f) => Ok(TagOutcome::Footer(f)),
            Err(e) => Err(e),
        }
    } else if is_tag(t, TAG_LOGO) {
        match logo(group, media) {
            Ok(l) => Ok(TagOutcome::Logo(l)),
            Err(e) => Err(e),
        }
    } else if is_tag(t, TAG_DRAFT) {
        Ok(TagOutcome::Draft)
    } else {
        Err(CompileError::FaultyTag(group[0].clone()))
    }
}

/// A tag group yields an element only where its first line, whitespace taken out, is the tag
/// marker followed by the tag name of that element's nature; a group whose first line names
/// no tag fails with `FaultyTag`, naming that line.
pub proof fn lemma_dispatch_tag_token(g: Seq<Seq<char>>, ms: Seq<MediaFile>)
    requires
        g.len() >= 1,
    ensures
        dispatch_spec(cleaned_group(g), ms) matches Ok(Outcome::Show(e)) ==> without_whitespace(g[0])
            == tag_token(tag_name(e.nature)),
        !is_known_tag(without_whitespace(g[0])) ==> dispatch_spec(cleaned_group(g), ms) == Err::<
            Outcome,
            Fault,
        >(Fault::FaultyTag(without_whitespace(g[0]))),
{
    assert(cleaned_group(g)[0] == without_whitespace(g[0]));
}

} // verus!
