//! Elements, their natures, and the ordering and cap that a slide applies to them.

use vstd::prelude::*;
use vstd::utf8::{decode_utf8, encode_utf8, encode_utf8_decode_utf8, is_char_boundary};

verus! {

/// The kinds of element. The order of the variants is the order in which a slide
/// presents them: headings first.
#[derive(Clone, Copy, Debug, PartialEq, Eq, Structural, PartialOrd, Ord, Hash)]
pub enum ElementNature {
    Heading,
    Subheading,
    Text,
    OrdList,
    List,
    Video,
    Image,
    Mermaid,
    Table,
}

/// Number of element natures.
pub const NATURE_COUNT: u8 = 9;

/// Most elements that one slide shows.
pub const MAX_ELEMENTS: usize = 4;

/// Presentation priority of a nature: lower comes first.
pub open spec fn nature_rank(n: ElementNature) -> nat {
    match n {
        ElementNature::Heading => 0,
        ElementNature::Subheading => 1,
        ElementNature::Text => 2,
        ElementNature::OrdList => 3,
        ElementNature::List => 4,
        ElementNature::Video => 5,
        ElementNature::Image => 6,
        ElementNature::Mermaid => 7,
        ElementNature::Table => 8,
    }
}

/// A heading or a subheading.
pub open spec fn is_title(n: ElementNature) -> bool {
    n is Heading || n is Subheading
}

/// The name of a nature as messages print it, in quotes.
pub open spec fn nature_label(n: ElementNature) -> Seq<char> {
    match n {
        ElementNature::Heading => "\"heading\""@,
        ElementNature::Subheading => "\"subheading\""@,
        ElementNature::Text => "\"text\""@,
        ElementNature::OrdList => "\"ordered list\""@,
        ElementNature::List => "\"list\""@,
        ElementNature::Video => "\"video\""@,
        ElementNature::Image => "\"image\""@,
        ElementNature::Mermaid => "\"mermaid\""@,
        ElementNature::Table => "\"table\""@,
    }
}

impl ElementNature {
    /// Presentation priority: lower comes first.
    pub fn rank(&self) -> (r: u8)
        ensures
            r as nat == nature_rank(*self),
            r < NATURE_COUNT,
    {
        match self {
            ElementNature::Heading => 0,
            ElementNature::Subheading => 1,
            ElementNature::Text => 2,
            ElementNature::OrdList => 3,
            ElementNature::List => 4,
            ElementNature::Video => 5,
            ElementNature::Image => 6,
            ElementNature::Mermaid => 7,
            ElementNature::Table => 8,
        }
    }

    pub fn is_heading_or_subheading(&self) -> (r: bool)
        ensures
            r == is_title(*self),
    {
        match self {
            ElementNature::Heading | ElementNature::Subheading => true,
            _ => false,
        }
    }

    /// The name of the nature, in quotes.
    pub fn to_string(&self) -> (r: String)
        ensures
            r@ == nature_label(*self),
    {
        let s = match self {
            ElementNature::Heading => "\"heading\"",
            ElementNature::Subheading => "\"subheading\"",
            ElementNature::Text => "\"text\"",
            ElementNature::OrdList => "\"ordered list\"",
            ElementNature::List => "\"list\"",
            ElementNature::Video => "\"video\"",
            ElementNature::Image => "\"image\"",
            ElementNature::Mermaid => "\"mermaid\"",
            ElementNature::Table => "\"table\"",
        };
        String::from_str(s)
    }
}

/// One rendered piece of a slide: an HTML fragment of a given nature.
#[derive(Debug)]
pub struct Element {
    pub nature: ElementNature,
    pub content: String,
}

/// What an element holds.
pub struct ElementView {
    pub nature: ElementNature,
    pub content: Seq<char>,
}

impl View for Element {
    type V = ElementView;

    open spec fn view(&self) -> ElementView {
        ElementView { nature: self.nature, content: self.content@ }
    }
}

/// The characters that make up the first `SUMMARY_BYTES` bytes of `content` in UTF-8.
pub open spec fn summary_head(content: Seq<char>) -> Seq<char> {
    decode_utf8(encode_utf8(content).take(SUMMARY_BYTES as int))
}

/// A content whose UTF-8 text has at least `SUMMARY_BYTES` bytes, a character ending
/// right at that byte.
pub open spec fn summarizable(content: Seq<char>) -> bool {
    encode_utf8(content).len() >= SUMMARY_BYTES && is_char_boundary(
        encode_utf8(content),
        SUMMARY_BYTES as int,
    )
}

/// A short description of an element: the start of its content and its nature.
pub open spec fn element_summary(e: ElementView) -> Seq<char> {
    "content: \""@ + summary_head(e.content) + "\"... of nature:\""@ + (if e.nature is Heading {
        "heading"@
    } else {
        "unknown"@
    }) + "\""@
}

/// Bytes of content that a summary shows.
pub const SUMMARY_BYTES: usize = 20;

impl Element {
    /// A short description of the element, for messages.
    pub fn to_string(&self) -> (r: String)
        requires
            summarizable(self.content@),
        ensures
            r@ == element_summary(self@),
    {
        let mut r = String::from_str("content: \"");
        let (head, _rest) = self.content.as_str().split_at(SUMMARY_BYTES);
        proof {
            encode_utf8_decode_utf8(head@);
        }
        r.append(head);
        r.append("\"... of nature:\"");
        let nature = match self.nature {
            ElementNature::Heading => "heading",
            _ => "unknown",
        };
        r.append(nature);
        r.append("\"");
        assert(r@ =~= element_summary(self@));
        r
    }
}

pub open spec fn elements_view(v: Seq<Element>) -> Seq<ElementView> {
    v.map_values(|e: Element| e@)
}

pub open spec fn natures_of(s: Seq<ElementView>) -> Seq<ElementNature> {
    s.map_values(|e: ElementView| e.nature)
}

/// The elements of `s` whose nature has rank `k`, in their order in `s`.
pub open spec fn of_rank(s: Seq<ElementView>, k: nat) -> Seq<ElementView>
    decreases s.len(),
{
    if s.len() == 0 {
        Seq::empty()
    } else if nature_rank(s.last().nature) == k {
        of_rank(s.drop_last(), k).push(s.last())
    } else {
        of_rank(s.drop_last(), k)
    }
}

/// The elements of `s` whose rank is below `n`, by rank, equal ranks in their order in `s`.
pub open spec fn below_rank(s: Seq<ElementView>, n: nat) -> Seq<ElementView>
    decreases n,
{
    if n == 0 {
        Seq::empty()
    } else {
        below_rank(s, (n - 1) as nat) + of_rank(s, (n - 1) as nat)
    }
}

/// `s` sorted by rank, stably.
pub open spec fn sorted_by_rank(s: Seq<ElementView>) -> Seq<ElementView> {
    below_rank(s, NATURE_COUNT as nat)
}

/// What a slide keeps of its elements: the first four once sorted by rank.
pub open spec fn organized(s: Seq<ElementView>) -> Seq<ElementView> {
    let t = sorted_by_rank(s);
    if t.len() <= MAX_ELEMENTS {
        t
    } else {
        t.take(MAX_ELEMENTS as int)
    }
}

/// What a slide discards of its elements: those after the fourth once sorted by rank.
pub open spec fn overflow(s: Seq<ElementView>) -> Seq<ElementView> {
    let t = sorted_by_rank(s);
    if t.len() <= MAX_ELEMENTS {
        Seq::empty()
    } else {
        t.skip(MAX_ELEMENTS as int)
    }
}

pub open spec fn rank_ordered(s: Seq<ElementView>) -> bool {
    forall|i: int, j: int|
        0 <= i < j < s.len() ==> nature_rank(#[trigger] s[i].nature) <= nature_rank(
            #[trigger] s[j].nature,
        )
}

proof fn lemma_of_rank_ranks(s: Seq<ElementView>, k: nat)
    ensures
        forall|i: int|
            0 <= i < of_rank(s, k).len() ==> nature_rank(#[trigger] of_rank(s, k)[i].nature) == k,
    decreases s.len(),
{
    if s.len() > 0 {
        lemma_of_rank_ranks(s.drop_last(), k);
    }
}

proof fn lemma_of_rank_absent(s: Seq<ElementView>, k: nat)
    requires
        forall|i: int| 0 <= i < s.len() ==> nature_rank(#[trigger] s[i].nature) != k,
    ensures
        of_rank(s, k) == Seq::<ElementView>::empty(),
    decreases s.len(),
{
    if s.len() > 0 {
        let p = s.drop_last();
        assert forall|i: int| 0 <= i < p.len() implies nature_rank(#[trigger] p[i].nature) != k by {
            assert(p[i] == s[i]);
        }
        assert(s[s.len() - 1] == s.last());
        lemma_of_rank_absent(p, k);
    }
}

proof fn lemma_below_rank_ordered(s: Seq<ElementView>, n: nat)
    ensures
        rank_ordered(below_rank(s, n)),
        forall|i: int|
            0 <= i < below_rank(s, n).len() ==> nature_rank(#[trigger] below_rank(s, n)[i].nature)
                < n,
    decreases n,
{
    if n > 0 {
        let m = (n - 1) as nat;
        lemma_below_rank_ordered(s, m);
        lemma_of_rank_ranks(s, m);
        let a = below_rank(s, m);
        let b = of_rank(s, m);
        let t = a + b;
        assert(below_rank(s, n) == t);
        assert forall|i: int| 0 <= i < t.len() implies nature_rank(#[trigger] t[i].nature) < n by {
            if i >= a.len() {
                assert(t[i] == b[i - a.len()]);
            } else {
                assert(t[i] == a[i]);
            }
        }
        assert forall|i: int, j: int| 0 <= i < j < t.len() implies nature_rank(
            #[trigger] t[i].nature,
        ) <= nature_rank(#[trigger] t[j].nature) by {
            if j < a.len() {
                assert(t[i] == a[i] && t[j] == a[j]);
            } else if i >= a.len() {
                assert(t[i] == b[i - a.len()] && t[j] == b[j - a.len()]);
            } else {
                assert(t[i] == a[i] && t[j] == b[j - a.len()]);
            }
        }
    }
}

proof fn lemma_below_rank_push(p: Seq<ElementView>, x: ElementView, n: nat)
    requires
        forall|i: int| 0 <= i < p.len() ==> nature_rank(#[trigger] p[i].nature) <= nature_rank(x.nature),
    ensures
        n <= nature_rank(x.nature) ==> below_rank(p.push(x), n) == below_rank(p, n),
        n > nature_rank(x.nature) ==> below_rank(p.push(x), n) == below_rank(p, n).push(x),
    decreases n,
{
    let s = p.push(x);
    let r = nature_rank(x.nature);
    assert(s.drop_last() =~= p);
    if n > 0 {
        let m = (n - 1) as nat;
        lemma_below_rank_push(p, x, m);
        if m > r {
            assert forall|i: int| 0 <= i < p.len() implies nature_rank(#[trigger] p[i].nature) != m by {}
            lemma_of_rank_absent(p, m);
            assert(below_rank(s, n) =~= below_rank(p, n).push(x));
        } else if m == r {
            assert(below_rank(s, n) =~= below_rank(p, n).push(x));
        }
    }
}

proof fn lemma_below_rank_empty(n: nat)
    ensures
        below_rank(Seq::<ElementView>::empty(), n) == Seq::<ElementView>::empty(),
    decreases n,
{
    if n > 0 {
        lemma_below_rank_empty((n - 1) as nat);
        assert(below_rank(Seq::<ElementView>::empty(), n) =~= Seq::<ElementView>::empty());
    }
}

proof fn lemma_sorted_of_ordered(s: Seq<ElementView>)
    requires
        rank_ordered(s),
    ensures
        sorted_by_rank(s) == s,
    decreases s.len(),
{
    if s.len() > 0 {
        let p = s.drop_last();
        let x = s.last();
        assert(rank_ordered(p)) by {
            assert forall|i: int, j: int| 0 <= i < j < p.len() implies nature_rank(
                #[trigger] p[i].nature,
            ) <= nature_rank(#[trigger] p[j].nature) by {
                assert(p[i] == s[i] && p[j] == s[j]);
            }
        }
        lemma_sorted_of_ordered(p);
        assert forall|i: int| 0 <= i < p.len() implies nature_rank(#[trigger] p[i].nature) <= nature_rank(x.nature) by {
            assert(p[i] == s[i] && x == s[s.len() - 1]);
        }
        assert(p.push(x) =~= s);
        lemma_below_rank_push(p, x, NATURE_COUNT as nat);
    } else {
        lemma_below_rank_empty(NATURE_COUNT as nat);
        assert(s =~= Seq::<ElementView>::empty());
    }
}

/// Organizing is idempotent: organizing what was already organized changes nothing.
pub proof fn lemma_organize_idempotent(s: Seq<ElementView>)
    ensures
        organized(organized(s)) == organized(s),
{
    let t = sorted_by_rank(s);
    let o = organized(s);
    lemma_below_rank_ordered(s, NATURE_COUNT as nat);
    assert(rank_ordered(o)) by {
        if t.len() > MAX_ELEMENTS {
            assert forall|i: int, j: int| 0 <= i < j < o.len() implies nature_rank(
                #[trigger] o[i].nature,
            ) <= nature_rank(#[trigger] o[j].nature) by {
                assert(o[i] == t[i] && o[j] == t[j]);
            }
        }
    }
    lemma_sorted_of_ordered(o);
}

proof fn lemma_below_rank_push_len(p: Seq<ElementView>, x: ElementView, n: nat)
    ensures
        below_rank(p.push(x), n).len() == below_rank(p, n).len() + if nature_rank(x.nature) < n {
            1int
        } else {
            0int
        },
    decreases n,
{
    assert(p.push(x).drop_last() =~= p);
    if n > 0 {
        lemma_below_rank_push_len(p, x, (n - 1) as nat);
    }
}

proof fn lemma_sorted_len(s: Seq<ElementView>)
    ensures
        sorted_by_rank(s).len() == s.len(),
    decreases s.len(),
{
    if s.len() == 0 {
        lemma_below_rank_empty(NATURE_COUNT as nat);
        assert(s =~= Seq::<ElementView>::empty());
    } else {
        let p = s.drop_last();
        lemma_sorted_len(p);
        assert(p.push(s.last()) =~= s);
        lemma_below_rank_push_len(p, s.last(), NATURE_COUNT as nat);
    }
}

/// Organizing loses no element and keeps those of highest priority: the kept elements
/// followed by the discarded ones are all the elements sorted by rank (stably), all but
/// four are discarded when there are more than four, and every discarded element ranks at
/// or after every kept one.
pub proof fn lemma_discards_rank_after_kept(s: Seq<ElementView>)
    ensures
        organized(s) + overflow(s) == sorted_by_rank(s),
        organized(s).len() == if s.len() <= MAX_ELEMENTS {
            s.len() as int
        } else {
            MAX_ELEMENTS as int
        },
        overflow(s).len() == s.len() - organized(s).len(),
        forall|i: int, j: int|
            0 <= i < organized(s).len() && 0 <= j < overflow(s).len() ==> nature_rank(
                #[trigger] organized(s)[i].nature,
            ) <= nature_rank(#[trigger] overflow(s)[j].nature),
{
    let t = sorted_by_rank(s);
    lemma_sorted_len(s);
    lemma_below_rank_ordered(s, NATURE_COUNT as nat);
    if t.len() > MAX_ELEMENTS {
        assert(t.take(MAX_ELEMENTS as int) + t.skip(MAX_ELEMENTS as int) =~= t);
        assert forall|i: int, j: int|
            0 <= i < organized(s).len() && 0 <= j < overflow(s).len() implies nature_rank(
            #[trigger] organized(s)[i].nature,
        ) <= nature_rank(#[trigger] overflow(s)[j].nature) by {
            assert(organized(s)[i] == t[i]);
            assert(overflow(s)[j] == t[j + MAX_ELEMENTS]);
        }
    } else {
        assert(t + Seq::<ElementView>::empty() =~= t);
    }
}

proof fn lemma_of_rank_concat(a: Seq<ElementView>, b: Seq<ElementView>, k: nat)
    ensures
        of_rank(a + b, k) == of_rank(a, k) + of_rank(b, k),
    decreases b.len(),
{
    if b.len() == 0 {
        assert(a + b =~= a);
        assert(of_rank(a, k) + of_rank(b, k) =~= of_rank(a, k));
    } else {
        lemma_of_rank_concat(a, b.drop_last(), k);
        assert((a + b).drop_last() =~= a + b.drop_last());
        assert((a + b).last() == b.last());
        if nature_rank(b.last().nature) == k {
            assert(of_rank(a, k) + of_rank(b.drop_last(), k).push(b.last()) =~= (of_rank(a, k)
                + of_rank(b.drop_last(), k)).push(b.last()));
        }
    }
}

proof fn lemma_of_rank_all(s: Seq<ElementView>, k: nat)
    requires
        forall|i: int| 0 <= i < s.len() ==> nature_rank(#[trigger] s[i].nature) == k,
    ensures
        of_rank(s, k) == s,
    decreases s.len(),
{
    if s.len() > 0 {
        let p = s.drop_last();
        assert forall|i: int| 0 <= i < p.len() implies nature_rank(#[trigger] p[i].nature) == k by {
            assert(p[i] == s[i]);
        }
        lemma_of_rank_all(p, k);
        assert(s[s.len() - 1] == s.last());
        assert(p.push(s.last()) =~= s);
    }
}

proof fn lemma_below_rank_of_rank(s: Seq<ElementView>, n: nat, k: nat)
    ensures
        of_rank(below_rank(s, n), k) == if k < n {
            of_rank(s, k)
        } else {
            Seq::<ElementView>::empty()
        },
    decreases n,
{
    if n == 0 {
        assert(of_rank(Seq::<ElementView>::empty(), k) == Seq::<ElementView>::empty());
    } else {
        let m = (n - 1) as nat;
        lemma_below_rank_of_rank(s, m, k);
        lemma_of_rank_concat(below_rank(s, m), of_rank(s, m), k);
        lemma_of_rank_ranks(s, m);
        if k == m {
            lemma_of_rank_all(of_rank(s, m), k);
            assert(Seq::<ElementView>::empty() + of_rank(s, k) =~= of_rank(s, k));
        } else {
            lemma_of_rank_absent(of_rank(s, m), k);
            if k < m {
                assert(of_rank(s, k) + Seq::<ElementView>::empty() =~= of_rank(s, k));
            } else {
                assert(Seq::<ElementView>::empty() + Seq::<ElementView>::empty() =~= Seq::<
                    ElementView,
                >::empty());
            }
        }
    }
}

/// Organizing is stable across the cap: for each rank, the kept elements of that rank
/// followed by the discarded ones of that rank are the input's elements of that rank, in
/// input order. So a discarded element never comes before a kept element of equal rank.
pub proof fn lemma_organize_stable(s: Seq<ElementView>, k: nat)
    ensures
        of_rank(organized(s), k) + of_rank(overflow(s), k) == of_rank(s, k),
{
    lemma_discards_rank_after_kept(s);
    lemma_of_rank_concat(organized(s), overflow(s), k);
    lemma_below_rank_of_rank(s, NATURE_COUNT as nat, k);
    if k >= NATURE_COUNT {
        assert forall|i: int| 0 <= i < s.len() implies nature_rank(#[trigger] s[i].nature) != k by {}
        lemma_of_rank_absent(s, k);
    }
}

/// An organized slide never holds more than four elements.
pub proof fn lemma_organize_at_most_four(s: Seq<ElementView>)
    ensures
        organized(s).len() <= MAX_ELEMENTS,
{
}

/// A copy of `e`.
pub fn copy_element(e: &Element) -> (r: Element)
    ensures
        r@ == e@,
{
    Element { nature: e.nature, content: e.content.clone() }
}

/// The elements sorted by rank, elements of equal rank keeping their order.
pub fn sort_by_rank(elements: &Vec<Element>) -> (r: Vec<Element>)
    ensures
        elements_view(r@) == sorted_by_rank(elements_view(elements@)),
{
    let ghost s = elements_view(elements@);
    let mut out: Vec<Element> = Vec::new();
    let mut k: u8 = 0;
    while k < NATURE_COUNT
        invariant
            k <= NATURE_COUNT,
            s == elements_view(elements@),
            elements_view(out@) == below_rank(s, k as nat),
        decreases NATURE_COUNT - k,
    {
        let mut i: usize = 0;
        while i < elements.len()
            invariant
                i <= elements.len(),
                k < NATURE_COUNT,
                s == elements_view(elements@),
                elements_view(out@) == below_rank(s, k as nat) + of_rank(s.take(i as int), k as nat),
            decreases elements.len() - i,
        {
            assert(s.take(i + 1).drop_last() =~= s.take(i as int));
            assert(s.take(i + 1).last() == elements@[i as int]@);
            if elements[i].nature.rank() == k {
                let ghost before = out@;
                out.push(copy_element(&elements[i]));
                assert(elements_view(out@) =~= elements_view(before).push(elements@[i as int]@));
                assert(below_rank(s, k as nat) + of_rank(s.take(i as int), k as nat).push(elements@[i as int]@)
                    =~= (below_rank(s, k as nat) + of_rank(s.take(i as int), k as nat)).push(elements@[i as int]@));
            }
            i = i + 1;
        }
        assert(s.take(elements.len() as int) =~= s);
        k = k + 1;
    }
    out
}

/// The elements that a slide keeps, and the natures of those it discards.
pub fn organize_with_overflow(elements: &Vec<Element>) -> (r: (Vec<Element>, Vec<ElementNature>))
    ensures
        elements_view(r.0@) == organized(elements_view(elements@)),
        r.1@ == natures_of(overflow(elements_view(elements@))),
        r.0.len() <= MAX_ELEMENTS,
{
    let mut kept = sort_by_rank(elements);
    let ghost t = elements_view(kept@);
    let mut dropped: Vec<ElementNature> = Vec::new();
    if kept.len() > MAX_ELEMENTS {
        let mut i: usize = MAX_ELEMENTS;
        while i < kept.len()
            invariant
                MAX_ELEMENTS <= i <= kept.len(),
                t == elements_view(kept@),
                dropped@ == natures_of(t.subrange(MAX_ELEMENTS as int, i as int)),
            decreases kept.len() - i,
        {
            assert(t.subrange(MAX_ELEMENTS as int, i + 1) =~= t.subrange(MAX_ELEMENTS as int, i as int).push(kept@[i as int]@));
            dropped.push(kept[i].nature);
            assert(dropped@ =~= natures_of(t.subrange(MAX_ELEMENTS as int, i + 1)));
            i = i + 1;
        }
        assert(t.subrange(MAX_ELEMENTS as int, t.len() as int) =~= t.skip(MAX_ELEMENTS as int));
    } else {
        assert(dropped@ =~= natures_of(Seq::<ElementView>::empty()));
    }
    kept.truncate(MAX_ELEMENTS);
    assert(elements_view(kept@) =~= organized(elements_view(elements@)));
    (kept, dropped)
}

/// Makes sure that a slide's elements come in order of priority, four at most.
pub trait Organize: Sized {
    spec fn spec_organized(&self, r: &Self) -> bool;

    fn organize(self) -> (r: Self)
        ensures
            self.spec_organized(&r),
    ;
}

impl Organize for Vec<Element> {
    open spec fn spec_organized(&self, r: &Self) -> bool {
        elements_view(r@) == organized(elements_view(self@))
    }

    fn organize(self) -> (r: Self) {
        let (kept, _dropped) = organize_with_overflow(&self);
        kept
    }
}

} // verus!
