//! Splitting the input lines into slides, and a slide's lines into tag groups.

use vstd::prelude::*;

use crate::strings::{has_prefix, lines_view, remove_whitespace, starts_with, without_whitespace};
use crate::{COMMENT_MARKER, SEPARATOR, TAG_MARKER};

verus! {

/// A blank line holds nothing at all.
pub open spec fn is_blank(l: Seq<char>) -> bool {
    l.len() == 0
}

pub open spec fn is_comment_line(l: Seq<char>) -> bool {
    has_prefix(l, COMMENT_MARKER@)
}

pub open spec fn is_separator(l: Seq<char>) -> bool {
    has_prefix(l, SEPARATOR@)
}

pub open spec fn is_tag_line(l: Seq<char>) -> bool {
    has_prefix(l, TAG_MARKER@)
}

/// A line that is neither blank nor a comment.
pub open spec fn is_content(l: Seq<char>) -> bool {
    !is_blank(l) && !is_comment_line(l)
}

/// The content lines of `ls`, in order.
pub open spec fn content_lines(ls: Seq<Seq<char>>) -> Seq<Seq<char>>
    decreases ls.len(),
{
    if ls.len() == 0 {
        Seq::empty()
    } else if is_content(ls.last()) {
        content_lines(ls.drop_last()).push(ls.last())
    } else {
        content_lines(ls.drop_last())
    }
}

/// Appends the group under construction to the finished ones, unless it is empty.
pub open spec fn close_group(done: Seq<Seq<Seq<char>>>, cur: Seq<Seq<char>>) -> Seq<Seq<Seq<char>>> {
    if cur.len() > 0 {
        done.push(cur)
    } else {
        done
    }
}

/// Finished slides and the slide under construction after reading the content lines `c`.
pub open spec fn split_state(c: Seq<Seq<char>>) -> (Seq<Seq<Seq<char>>>, Seq<Seq<char>>)
    decreases c.len(),
{
    if c.len() == 0 {
        (Seq::empty(), Seq::empty())
    } else {
        let (done, cur) = split_state(c.drop_last());
        if is_separator(c.last()) {
            (close_group(done, cur), Seq::empty())
        } else {
            (done, cur.push(c.last()))
        }
    }
}

/// The slides of the input `ls`: its content lines cut at each separator line, which is
/// dropped, with empty slides left out.
pub open spec fn slides_of(ls: Seq<Seq<char>>) -> Seq<Seq<Seq<char>>> {
    let (done, cur) = split_state(content_lines(ls));
    close_group(done, cur)
}

/// Finished groups and the group under construction after reading the lines `ls`.
pub open spec fn group_state(ls: Seq<Seq<char>>) -> (Seq<Seq<Seq<char>>>, Seq<Seq<char>>)
    decreases ls.len(),
{
    if ls.len() == 0 {
        (Seq::empty(), Seq::empty())
    } else {
        let (done, cur) = group_state(ls.drop_last());
        if is_tag_line(ls.last()) {
            (close_group(done, cur), seq![ls.last()])
        } else {
            (done, cur.push(ls.last()))
        }
    }
}

/// The tag groups of a slide's lines: a new group begins at each tag line.
pub open spec fn tag_groups(ls: Seq<Seq<char>>) -> Seq<Seq<Seq<char>>> {
    let (done, cur) = group_state(ls);
    close_group(done, cur)
}

/// A group with the whitespace taken out of its first line.
pub open spec fn cleaned_group(g: Seq<Seq<char>>) -> Seq<Seq<char>>
    recommends
        g.len() > 0,
{
    g.update(0, without_whitespace(g[0]))
}

/// The views of a sequence of line groups.
pub open spec fn groups_view(v: Seq<Vec<String>>) -> Seq<Seq<Seq<char>>> {
    v.map_values(|g: Vec<String>| lines_view(g@))
}

/// The slides joined back together, with a separator line between two slides.
pub open spec fn joined(groups: Seq<Seq<Seq<char>>>, sep: Seq<char>) -> Seq<Seq<char>>
    decreases groups.len(),
{
    if groups.len() == 0 {
        Seq::empty()
    } else if groups.len() == 1 {
        groups[0]
    } else {
        joined(groups.drop_last(), sep).push(sep) + groups.last()
    }
}

/// Content lines whose separators are plain separator lines, each between two slides.
pub open spec fn well_separated(c: Seq<Seq<char>>) -> bool {
    &&& separated_prefix(c)
    &&& c.len() > 0 ==> !is_separator(c.last())
}

/// Content lines that could begin a well separated input: no separator line comes first
/// or right after another one, and each is a plain separator line.
pub open spec fn separated_prefix(c: Seq<Seq<char>>) -> bool {
    &&& forall|i: int| 0 <= i < c.len() && is_separator(#[trigger] c[i]) ==> c[i] == SEPARATOR@
    &&& forall|i: int|
        0 <= i < c.len() - 1 && is_separator(#[trigger] c[i]) ==> !is_separator(c[i + 1])
    &&& c.len() > 0 ==> !is_separator(c[0])
}

proof fn lemma_joined_push(d: Seq<Seq<Seq<char>>>, g: Seq<Seq<char>>, sep: Seq<char>)
    requires
        d.len() > 0,
    ensures
        joined(d.push(g), sep) == joined(d, sep).push(sep) + g,
{
    assert(d.push(g).drop_last() =~= d);
}

proof fn lemma_split_state_joined(c: Seq<Seq<char>>)
    requires
        separated_prefix(c),
    ensures
        ({
            let (done, cur) = split_state(c);
            &&& c.len() == 0 ==> done.len() == 0 && cur.len() == 0
            &&& c.len() > 0 && !is_separator(c.last()) ==> cur.len() > 0 && joined(
                done.push(cur),
                SEPARATOR@,
            ) == c
            &&& c.len() > 0 && is_separator(c.last()) ==> cur.len() == 0 && done.len() > 0
                && joined(done, SEPARATOR@).push(SEPARATOR@) == c
        }),
    decreases c.len(),
{
    if c.len() > 0 {
        let p = c.drop_last();
        let l = c.last();
        assert(separated_prefix(p)) by {
            assert forall|i: int| 0 <= i < p.len() - 1 && is_separator(#[trigger] p[i]) implies !is_separator(p[i + 1]) by {
                assert(c[i] == p[i] && c[i + 1] == p[i + 1]);
            }
            assert forall|i: int| 0 <= i < p.len() && is_separator(#[trigger] p[i]) implies p[i] == SEPARATOR@ by {
                assert(c[i] == p[i]);
            }
            if p.len() > 0 {
                assert(p[0] == c[0]);
            }
        }
        lemma_split_state_joined(p);
        let (done, cur) = split_state(p);
        if p.len() == 0 {
            assert(c[0] == l);
            assert(joined(seq![seq![l]], SEPARATOR@) == seq![l]);
            assert(seq![l] =~= c);
            assert(cur.push(l) =~= seq![l]);
        } else if !is_separator(l) {
            if !is_separator(p.last()) {
                if done.len() == 0 {
                    assert(done.push(cur) =~= seq![cur]);
                    assert(done.push(cur.push(l)) =~= seq![cur.push(l)]);
                    assert(c =~= p.push(l));
                } else {
                    lemma_joined_push(done, cur, SEPARATOR@);
                    lemma_joined_push(done, cur.push(l), SEPARATOR@);
                    assert(joined(done, SEPARATOR@).push(SEPARATOR@) + cur.push(l) =~= (joined(
                        done,
                        SEPARATOR@,
                    ).push(SEPARATOR@) + cur).push(l));
                    assert(c =~= p.push(l));
                }
            } else {
                assert(cur.push(l) =~= seq![l]);
                lemma_joined_push(done, seq![l], SEPARATOR@);
                assert(joined(done, SEPARATOR@).push(SEPARATOR@) + seq![l] =~= c);
            }
        } else {
            assert(c[p.len() - 1] == p.last());
            assert(c[c.len() - 1] == l);
            assert(l == SEPARATOR@);
            assert(!is_separator(p.last()));
            assert(c =~= p.push(SEPARATOR@));
        }
    }
}

/// Segmentation loses no content: where every separator line stands alone between two
/// slides, joining the slides back with separator lines gives the content lines again.
pub proof fn lemma_segment_round_trip(ls: Seq<Seq<char>>)
    requires
        well_separated(content_lines(ls)),
    ensures
        joined(slides_of(ls), SEPARATOR@) == content_lines(ls),
{
    let c = content_lines(ls);
    lemma_split_state_joined(c);
    if c.len() > 0 {
        assert(c[c.len() - 1] == c.last());
        assert(!is_separator(c.last()));
    }
}

/// Recognises a comment line.
pub trait IsComment {
    spec fn spec_is_comment(&self) -> bool;

    fn is_comment(&self) -> (r: bool)
        ensures
            r == self.spec_is_comment(),
    ;
}

impl IsComment for String {
    open spec fn spec_is_comment(&self) -> bool {
        is_comment_line(self@)
    }

    fn is_comment(&self) -> (r: bool) {
        starts_with(self.as_str(), COMMENT_MARKER)
    }
}

/// Splits a slide's lines into tag groups.
pub trait SplitOnTag {
    spec fn spec_split_on_tag(&self) -> Seq<Seq<Seq<char>>>;

    fn split_on_tag(self) -> (r: Vec<Vec<String>>)
        ensures
            groups_view(r@) == self.spec_split_on_tag(),
    ;
}

impl SplitOnTag for Vec<String> {
    open spec fn spec_split_on_tag(&self) -> Seq<Seq<Seq<char>>> {
        tag_groups(lines_view(self@))
    }

    fn split_on_tag(self) -> (r: Vec<Vec<String>>) {
        group_by_tag(&self)
    }
}

/// Takes the whitespace out of a tag group's tag line.
pub trait CleanTag: Sized {
    spec fn spec_can_clean(&self) -> bool;

    spec fn spec_cleaned(&self, r: &Self) -> bool;

    fn clean_tag(self) -> (r: Self)
        requires
            self.spec_can_clean(),
        ensures
            self.spec_cleaned(&r),
    ;
}

impl CleanTag for Vec<String> {
    open spec fn spec_can_clean(&self) -> bool {
        self.len() > 0
    }

    open spec fn spec_cleaned(&self, r: &Self) -> bool {
        lines_view(r@) == cleaned_group(lines_view(self@))
    }

    fn clean_tag(self) -> (r: Self) {
        let mut group = self;
        let first = remove_whitespace(group[0].as_str());
        group.set(0, first);
        assert(lines_view(group@) =~= cleaned_group(lines_view(self@)));
        group
    }
}

/// Copies a sequence of lines.
pub fn copy_lines(v: &Vec<String>) -> (r: Vec<String>)
    ensures
        r@ == v@,
{
    let mut out: Vec<String> = Vec::new();
    let mut i: usize = 0;
    while i < v.len()
        invariant
            i <= v.len(),
            out@ == v@.subrange(0, i as int),
        decreases v.len() - i,
    {
        out.push(v[i].clone());
        assert(out@ =~= v@.subrange(0, i + 1));
        i = i + 1;
    }
    assert(out@ =~= v@);
    out
}

/// Groups the input lines into slides: blank and comment lines are dropped, separator lines
/// cut, and empty slides are left out.
pub fn segment(lines: &Vec<String>) -> (r: Vec<Vec<String>>)
    ensures
        groups_view(r@) == slides_of(lines_view(lines@)),
        forall|i: int| 0 <= i < r.len() ==> (#[trigger] r[i]).len() > 0,
{
    let ghost ls = lines_view(lines@);
    let mut done: Vec<Vec<String>> = Vec::new();
    let mut cur: Vec<String> = Vec::new();
    let mut i: usize = 0;
    while i < lines.len()
        invariant
            i <= lines.len(),
            ls == lines_view(lines@),
            (groups_view(done@), lines_view(cur@)) == split_state(content_lines(ls.take(i as int))),
            forall|j: int| 0 <= j < done.len() ==> (#[trigger] done[j]).len() > 0,
        decreases lines.len() - i,
    {
        let line = &lines[i];
        assert(ls.take(i + 1).drop_last() =~= ls.take(i as int));
        assert(ls.take(i + 1).last() == line@);
        let keep = !line.as_str().is_empty() && !line.is_comment();
        if keep {
            let ghost c = content_lines(ls.take(i as int));
            assert(c.push(line@).drop_last() =~= c);
            if starts_with(line.as_str(), SEPARATOR) {
                if cur.len() > 0 {
                    let ghost old_done = done@;
                    done.push(cur);
                    assert(groups_view(done@) =~= groups_view(old_done).push(lines_view(cur@)));
                }
                cur = Vec::new();
                assert(lines_view(cur@) =~= Seq::<Seq<char>>::empty());
            } else {
                let ghost old_cur = cur@;
                cur.push(line.clone());
                assert(lines_view(cur@) =~= lines_view(old_cur).push(line@));
            }
        }
        i = i + 1;
    }
    assert(ls.take(lines.len() as int) =~= ls);
    if cur.len() > 0 {
        let ghost old_done = done@;
        done.push(cur);
        assert(groups_view(done@) =~= groups_view(old_done).push(lines_view(cur@)));
    }
    done
}

/// Groups a slide's lines: each tag line opens a group, and the lines after it, up to the
/// next tag line, are its arguments.
pub fn group_by_tag(lines: &Vec<String>) -> (r: Vec<Vec<String>>)
    ensures
        groups_view(r@) == tag_groups(lines_view(lines@)),
        forall|i: int| 0 <= i < r.len() ==> (#[trigger] r[i]).len() > 0,
{
    let ghost ls = lines_view(lines@);
    let mut done: Vec<Vec<String>> = Vec::new();
    let mut cur: Vec<String> = Vec::new();
    let mut i: usize = 0;
    while i < lines.len()
        invariant
            i <= lines.len(),
            ls == lines_view(lines@),
            (groups_view(done@), lines_view(cur@)) == group_state(ls.take(i as int)),
            forall|j: int| 0 <= j < done.len() ==> (#[trigger] done[j]).len() > 0,
        decreases lines.len() - i,
    {
        let line = &lines[i];
        assert(ls.take(i + 1).drop_last() =~= ls.take(i as int));
        assert(ls.take(i + 1).last() == line@);
        if starts_with(line.as_str(), TAG_MARKER) {
            if cur.len() > 0 {
                let ghost old_done = done@;
                done.push(cur);
                assert(groups_view(done@) =~= groups_view(old_done).push(lines_view(cur@)));
            }
            cur = Vec::new();
            cur.push(line.clone());
            assert(lines_view(cur@) =~= seq![line@]);
        } else {
            let ghost old_cur = cur@;
            cur.push(line.clone());
            assert(lines_view(cur@) =~= lines_view(old_cur).push(line@));
        }
        i = i + 1;
    }
    assert(ls.take(lines.len() as int) =~= ls);
    if cur.len() > 0 {
        let ghost old_done = done@;
        done.push(cur);
        assert(groups_view(done@) =~= groups_view(old_done).push(lines_view(cur@)));
    }
    done
}

} // verus!
