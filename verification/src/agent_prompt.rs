//! Agent prompts written as Markdown with `## Section` headers.
//!
//! The sections are kept in a vector ordered strictly by header, as an
//! ordered map keeps them; a repeated header keeps its last content.
use vstd::prelude::*;

use crate::error::AgentForgeError;
use crate::ordmap::{
    lemma_sorted_insert_last, lemma_sorted_insert_lookup_tail, lemma_sorted_insert_sorted,
    lookup, sorted_entries, sorted_insert,
};
use crate::text::{
    append_chars, append_str, chars_eq, chars_less, chars_lt, chars_of, has_prefix, is_ws,
    lemma_line_scan_concat, lemma_line_scan_newline, lemma_line_scan_open,
    lemma_line_scan_single, lemma_trim_ws_suffix, lemma_trimmed_ends, line_scan, lines,
    slice_chars, split_lines, starts_with, string_of, strip_cr, trim, trim_chars, trim_end,
    trim_start, views, lemma_trim_end_ws_suffix,
};

verus! {

// ---------------------------------------------------------------------------
// Parsing
// ---------------------------------------------------------------------------

pub open spec fn header_marker() -> Seq<char> {
    seq!['#', '#', ' ']
}

/// The parser's state after some lines: the sections closed so far, the
/// header whose section is open, and the text collected since.
pub open spec fn scan_step(
    st: (Seq<(Seq<char>, Seq<char>)>, Option<Seq<char>>, Seq<char>),
    line: Seq<char>,
) -> (Seq<(Seq<char>, Seq<char>)>, Option<Seq<char>>, Seq<char>) {
    let (sections, header, content) = st;
    if starts_with(line, header_marker()) {
        let new_header = trim(line.skip(3));
        match header {
            Some(h) => (sorted_insert(sections, h, trim(content)), Some(new_header), Seq::empty()),
            None => (sections, Some(new_header), content),
        }
    } else {
        (sections, header, content + line.push('\n'))
    }
}

pub open spec fn scan_lines(ls: Seq<Seq<char>>) -> (
    Seq<(Seq<char>, Seq<char>)>,
    Option<Seq<char>>,
    Seq<char>,
)
    decreases ls.len(),
{
    if ls.len() == 0 {
        (Seq::empty(), None, Seq::empty())
    } else {
        scan_step(scan_lines(ls.drop_last()), ls.last())
    }
}

/// The sections of a prompt text, in header order.
pub open spec fn prompt_sections(content: Seq<char>) -> Seq<(Seq<char>, Seq<char>)> {
    let (sections, header, rest) = scan_lines(lines(content));
    match header {
        Some(h) => sorted_insert(sections, h, trim(rest)),
        None => sections,
    }
}

/// The raw prompt: the whole text trimmed, kept only when no header occurs.
pub open spec fn prompt_raw(content: Seq<char>) -> Option<Seq<char>> {
    if scan_lines(lines(content)).1 is None {
        Some(trim(content))
    } else {
        None
    }
}

/// `## header\ncontent\n\n` for each section in order.
pub open spec fn render_sections(s: Seq<(Seq<char>, Seq<char>)>) -> Seq<char>
    decreases s.len(),
{
    if s.len() == 0 {
        Seq::empty()
    } else {
        render_sections(s.drop_last()) + header_marker() + s.last().0 + seq!['\n'] + s.last().1
            + seq!['\n', '\n']
    }
}

/// Lines none of which is a header leave no section and no open header.
pub proof fn lemma_scan_plain(ls: Seq<Seq<char>>)
    requires
        forall|i: int| 0 <= i < ls.len() ==> !starts_with(#[trigger] ls[i], header_marker()),
    ensures
        scan_lines(ls).0 == Seq::<(Seq<char>, Seq<char>)>::empty(),
        scan_lines(ls).1 is None,
    decreases ls.len(),
{
    if ls.len() > 0 {
        assert forall|i: int| 0 <= i < ls.drop_last().len() implies !starts_with(
            #[trigger] ls.drop_last()[i],
            header_marker(),
        ) by {
            assert(ls.drop_last()[i] == ls[i]);
        }
        lemma_scan_plain(ls.drop_last());
        assert(!starts_with(ls[ls.len() - 1], header_marker()));
    }
}

/// A prompt with no `## ` header line has no sections and is kept whole,
/// trimmed, as the raw prompt.
pub proof fn lemma_plain_text_is_raw(content: Seq<char>)
    requires
        forall|i: int|
            0 <= i < lines(content).len() ==> !starts_with(#[trigger] lines(content)[i], header_marker()),
    ensures
        prompt_sections(content) == Seq::<(Seq<char>, Seq<char>)>::empty(),
        prompt_raw(content) == Some(trim(content)),
{
    lemma_scan_plain(lines(content));
}

pub proof fn lemma_scan_sorted(ls: Seq<Seq<char>>)
    ensures
        sorted_entries(scan_lines(ls).0),
    decreases ls.len(),
{
    if ls.len() > 0 {
        lemma_scan_sorted(ls.drop_last());
        let st = scan_lines(ls.drop_last());
        if starts_with(ls.last(), header_marker()) {
            if let Some(h) = st.1 {
                lemma_sorted_insert_sorted(st.0, h, trim(st.2));
            }
        }
    }
}

// ---------------------------------------------------------------------------
// Rendering and parsing back
// ---------------------------------------------------------------------------

/// A header that reads back unchanged from its `## ` line: not empty, with
/// no surrounding whitespace and no line break.
pub open spec fn renderable_header(h: Seq<char>) -> bool {
    &&& h.len() > 0
    &&& trim(h) == h
    &&& forall|i: int| 0 <= i < h.len() ==> #[trigger] h[i] != '\n'
}

/// A content that reads back unchanged: no surrounding whitespace, no
/// carriage return, and no line of it taken for a header.
pub open spec fn renderable_content(c: Seq<char>) -> bool {
    &&& trim(c) == c
    &&& forall|i: int| 0 <= i < c.len() ==> #[trigger] c[i] != '\r'
    &&& forall|i: int|
        0 <= i < lines(c).len() ==> !starts_with(#[trigger] lines(c)[i], header_marker())
}

pub open spec fn renderable_entry(e: (Seq<char>, Seq<char>)) -> bool {
    renderable_header(e.0) && renderable_content(e.1)
}

pub open spec fn renderable(s: Seq<(Seq<char>, Seq<char>)>) -> bool {
    &&& sorted_entries(s)
    &&& forall|i: int| 0 <= i < s.len() ==> #[trigger] renderable_entry(s[i])
}

proof fn lemma_scan_lines_push(ls: Seq<Seq<char>>, l: Seq<char>)
    ensures
        scan_lines(ls.push(l)) == scan_step(scan_lines(ls), l),
{
    assert(ls.push(l).drop_last() =~= ls);
}

/// Lines that are not headers add themselves, each with its line break, to
/// the open section's text.
proof fn lemma_scan_text(pre: Seq<Seq<char>>, x: Seq<char>)
    requires
        forall|i: int| 0 <= i < x.len() ==> #[trigger] x[i] != '\r',
        forall|i: int|
            0 <= i < line_scan(x).0.len() ==> !starts_with(
                #[trigger] line_scan(x).0[i],
                header_marker(),
            ),
    ensures
        scan_lines(pre + line_scan(x).0) == (
            scan_lines(pre).0,
            scan_lines(pre).1,
            scan_lines(pre).2 + x.take(x.len() - line_scan(x).1.len()),
        ),
    decreases x.len(),
{
    let st = scan_lines(pre);
    if x.len() == 0 {
        assert(pre + line_scan(x).0 =~= pre);
        assert(st.2 + x.take(0) =~= st.2);
    } else {
        let y = x.drop_last();
        let d = line_scan(y).0;
        let c = line_scan(y).1;
        lemma_line_scan_open(y);
        assert(y.take(y.len() - c.len()) + c =~= y);
        assert forall|i: int| 0 <= i < y.len() implies #[trigger] y[i] != '\r' by {
            assert(y[i] == x[i]);
        }
        if x.last() == '\n' {
            if c.len() > 0 {
                assert(c[c.len() - 1] == y.skip(y.len() - c.len())[c.len() - 1]);
                assert(c[c.len() - 1] == y[y.len() - 1]);
            }
            assert(strip_cr(c) == c);
            assert(line_scan(x).0 == d.push(c));
            assert forall|i: int| 0 <= i < d.len() implies !starts_with(
                #[trigger] d[i],
                header_marker(),
            ) by {
                assert(d[i] == line_scan(x).0[i]);
            }
            lemma_scan_text(pre, y);
            assert(pre + d.push(c) =~= (pre + d).push(c));
            lemma_scan_lines_push(pre + d, c);
            assert(line_scan(x).0[d.len() as int] == c);
            assert(y.take(y.len() - c.len()) + c.push('\n') =~= x.take(x.len() - 0));
            assert(st.2 + y.take(y.len() - c.len()) + c.push('\n') =~= st.2 + x.take(x.len() - 0));
        } else {
            assert(line_scan(x).0 == d);
            lemma_scan_text(pre, y);
            assert(x.take(x.len() - (c.len() + 1)) =~= y.take(y.len() - c.len()));
        }
    }
}

/// A non-empty rendering begins with the `#` of its first header.
proof fn lemma_render_first(s: Seq<(Seq<char>, Seq<char>)>)
    requires
        s.len() > 0,
    ensures
        render_sections(s).len() > 0,
        render_sections(s)[0] == '#',
    decreases s.len(),
{
    let r1 = render_sections(s.drop_last());
    let tail = header_marker() + s.last().0 + seq!['\n'] + s.last().1 + seq!['\n', '\n'];
    assert(render_sections(s) =~= r1 + tail);
    if s.len() > 1 {
        lemma_render_first(s.drop_last());
        assert((r1 + tail)[0] == r1[0]);
    } else {
        assert(r1 =~= Seq::<char>::empty());
        assert((r1 + tail)[0] == tail[0]);
    }
}

/// The rendering up to the last header line: every earlier section recorded
/// and the last header opened.
proof fn lemma_scan_to_last_header(s: Seq<(Seq<char>, Seq<char>)>)
    requires
        renderable(s),
        s.len() > 0,
    ensures
        line_scan(render_sections(s.drop_last())).1.len() == 0,
        line_scan(render_sections(s.drop_last()) + (header_marker() + s.last().0).push('\n'))
            == (
            line_scan(render_sections(s.drop_last())).0.push(header_marker() + s.last().0),
            Seq::<char>::empty(),
        ),
        scan_lines(line_scan(render_sections(s.drop_last())).0.push(header_marker() + s.last().0))
            == (s.drop_last(), Some(s.last().0), Seq::<char>::empty()),
    decreases s.len(), 0int,
{
    let s1 = s.drop_last();
    let h = s.last().0;
    let head = header_marker() + h;
    let r1 = render_sections(s1);
    let p1 = line_scan(r1).0;
    assert(renderable_entry(s[s.len() - 1]));
    assert(renderable(s1)) by {
        assert forall|i: int| 0 <= i < s1.len() implies #[trigger] renderable_entry(s1[i]) by {
            assert(s1[i] == s[i]);
            assert(renderable_entry(s[i]));
        }
        assert forall|i: int, j: int| 0 <= i < j < s1.len() implies chars_lt_at(s1, i, j) by {
            assert(s1[i] == s[i] && s1[j] == s[j]);
            assert(chars_lt_at(s, i, j));
        }
    }
    lemma_scan_rendered(s1);
    assert forall|i: int| 0 <= i < head.len() implies #[trigger] head[i] != '\n' by {
        if i >= 3 {
            assert(head[i] == h[i - 3]);
        }
    }
    lemma_line_scan_single(head);
    lemma_line_scan_newline(head);
    lemma_trimmed_ends(h);
    assert(head.last() == h.last());
    assert(is_ws('\r'));
    assert(strip_cr(head) == head);
    lemma_line_scan_concat(r1, head.push('\n'));
    assert(p1 + seq![head] =~= p1.push(head));
    lemma_scan_lines_push(p1, head);
    assert(head.take(3) =~= header_marker());
    assert(head.skip(3) =~= h);
    if s1.len() > 0 {
        let c1 = s1.last().1;
        assert(renderable_entry(s1[s1.len() - 1]));
        lemma_trim_ws_suffix(c1, seq!['\n', '\n']);
        lemma_sorted_insert_last_of(s1);
    } else {
        assert(s1 =~= Seq::<(Seq<char>, Seq<char>)>::empty());
    }
}

spec fn chars_lt_at(s: Seq<(Seq<char>, Seq<char>)>, i: int, j: int) -> bool {
    chars_lt(s[i].0, s[j].0)
}

/// What scanning a whole rendering leaves: every section but the last
/// recorded, the last header open, and its content followed by the blank line.
proof fn lemma_scan_rendered(s: Seq<(Seq<char>, Seq<char>)>)
    requires
        renderable(s),
    ensures
        line_scan(render_sections(s)).1.len() == 0,
        s.len() == 0 ==> scan_lines(line_scan(render_sections(s)).0) == (
            Seq::<(Seq<char>, Seq<char>)>::empty(),
            None::<Seq<char>>,
            Seq::<char>::empty(),
        ),
        s.len() > 0 ==> scan_lines(line_scan(render_sections(s)).0) == (
            s.drop_last(),
            Some(s.last().0),
            s.last().1 + seq!['\n', '\n'],
        ),
    decreases s.len(), 1int,
{
    if s.len() == 0 {
        assert(render_sections(s) =~= Seq::<char>::empty());
    } else {
        let s1 = s.drop_last();
        let h = s.last().0;
        let c = s.last().1;
        let head = header_marker() + h;
        let r1 = render_sections(s1);
        let p1 = line_scan(r1).0;
        lemma_scan_to_last_header(s);
        assert(renderable_entry(s[s.len() - 1]));
        let x = c + seq!['\n', '\n'];
        assert(render_sections(s) =~= (r1 + head.push('\n')) + x);
        assert(x.drop_last().last() == '\n');
        assert(x.last() == '\n');
        lemma_line_scan_concat(r1 + head.push('\n'), x);
        assert(p1.push(head) + line_scan(x).0 =~= line_scan(render_sections(s)).0);
        content_scan_facts(c, x);
        lemma_scan_text(p1.push(head), x);
        assert(x.take(x.len() - 0) =~= x);
        assert(Seq::<char>::empty() + x =~= x);
    }
}

/// The lines of a content followed by a blank line: none is a header, and
/// none holds a carriage return.
proof fn content_scan_facts(c: Seq<char>, x: Seq<char>)
    requires
        renderable_content(c),
        x == c + seq!['\n', '\n'],
    ensures
        line_scan(x).1.len() == 0,
        forall|i: int| 0 <= i < x.len() ==> #[trigger] x[i] != '\r',
        forall|i: int|
            0 <= i < line_scan(x).0.len() ==> !starts_with(
                #[trigger] line_scan(x).0[i],
                header_marker(),
            ),
{
    let d = line_scan(c).0;
    let cur = line_scan(c).1;
    lemma_line_scan_open(c);
    if cur.len() > 0 {
        assert(cur[cur.len() - 1] == c.skip(c.len() - cur.len())[cur.len() - 1]);
        assert(cur[cur.len() - 1] == c[c.len() - 1]);
    }
    assert(strip_cr(cur) == cur);
    lemma_line_scan_newline(c);
    lemma_line_scan_newline(c.push('\n'));
    assert(x =~= c.push('\n').push('\n'));
    assert(strip_cr(Seq::<char>::empty()) == Seq::<char>::empty());
    let q = line_scan(x).0;
    assert(q =~= d.push(cur).push(Seq::<char>::empty()));
    assert forall|i: int| 0 <= i < x.len() implies #[trigger] x[i] != '\r' by {
        if i < c.len() {
            assert(x[i] == c[i]);
        }
    }
    assert forall|i: int| 0 <= i < q.len() implies !starts_with(#[trigger] q[i], header_marker()) by {
        if i < d.len() {
            assert(q[i] == d[i]);
            assert(lines(c)[i] == d[i]);
        } else if i == d.len() {
            if cur.len() > 0 {
                assert(lines(c)[i] == cur);
            }
        }
    }
}

/// Parsing a rendered prompt gives its sections back: for sections in header
/// order whose headers and contents read back unchanged (see `renderable`),
/// the text that `to_system_prompt` makes of them (`## header`, the content,
/// a blank line, the whole trimmed) parses with `from_str` to the same
/// sections and no raw prompt.
pub proof fn lemma_prompt_round_trip(s: Seq<(Seq<char>, Seq<char>)>)
    requires
        renderable(s),
        s.len() > 0,
    ensures
        prompt_sections(trim(render_sections(s))) == s,
        prompt_raw(trim(render_sections(s))) is None,
{
    let s1 = s.drop_last();
    let h = s.last().0;
    let c = s.last().1;
    let head = header_marker() + h;
    let r1 = render_sections(s1);
    let p1 = line_scan(r1).0;
    let r = render_sections(s);
    lemma_scan_to_last_header(s);
    assert(renderable_entry(s[s.len() - 1]));
    lemma_render_first(s);
    assert(trim_start(r) == r);
    let y = r1 + head.push('\n') + c;
    assert(r =~= y + seq!['\n', '\n']);
    lemma_trim_end_ws_suffix(y, seq!['\n', '\n']);
    lemma_trimmed_ends(h);
    assert(trim(r) == trim_end(y));
    assert forall|i: int| 0 <= i < c.len() implies #[trigger] c[i] != '\r' by {}
    if c.len() > 0 {
        lemma_trimmed_ends(c);
        assert(y.last() == c.last());
        assert(trim_end(y) == y);
        let d = line_scan(c).0;
        let cur = line_scan(c).1;
        lemma_line_scan_concat(r1 + head.push('\n'), c);
        assert(y =~= (r1 + head.push('\n')) + c);
        assert forall|i: int| 0 <= i < d.len() implies !starts_with(
            #[trigger] d[i],
            header_marker(),
        ) by {
            assert(lines(c)[i] == d[i]);
        }
        lemma_scan_text(p1.push(head), c);
        lemma_line_scan_open(c);
        if cur.len() == 0 {
            assert(lines(y) =~= p1.push(head) + d);
            assert(c.take(c.len() - 0) =~= c);
            assert(Seq::<char>::empty() + c =~= c);
        } else {
            assert(lines(y) =~= (p1.push(head) + d).push(cur));
            lemma_scan_lines_push(p1.push(head) + d, cur);
            assert(lines(c)[d.len() as int] == cur);
            assert(c.take(c.len() - cur.len()) + cur =~= c);
            assert(Seq::<char>::empty() + c.take(c.len() - cur.len()) + cur.push('\n') =~= c + seq![
                '\n',
            ]);
            lemma_trim_ws_suffix(c, seq!['\n']);
        }
    } else {
        assert(y =~= (r1 + head).push('\n'));
        lemma_trim_end_ws_suffix(r1 + head, seq!['\n']);
        assert((r1 + head).push('\n') =~= (r1 + head) + seq!['\n']);
        assert((r1 + head).last() == h.last());
        assert(trim_end(r1 + head) == r1 + head);
        assert forall|i: int| 0 <= i < head.len() implies #[trigger] head[i] != '\n' by {
            if i >= 3 {
                assert(head[i] == h[i - 3]);
            }
        }
        lemma_line_scan_single(head);
        lemma_line_scan_concat(r1, head);
        assert(p1 + Seq::<Seq<char>>::empty() =~= p1);
        assert(lines(r1 + head) =~= p1.push(head));
        assert(c =~= Seq::<char>::empty());
        assert(trim_start(c) == c);
        assert(trim(c) == c);
    }
    lemma_sorted_insert_last_of(s);
}

/// The last entry of sorted sections is placed after all the others.
proof fn lemma_sorted_insert_last_of(s: Seq<(Seq<char>, Seq<char>)>)
    requires
        sorted_entries(s),
        s.len() > 0,
    ensures
        sorted_insert(s.drop_last(), s.last().0, s.last().1) == s,
{
    assert forall|i: int| 0 <= i < s.drop_last().len() implies chars_lt(
        #[trigger] s.drop_last()[i].0,
        s.last().0,
    ) by {
        assert(s.drop_last()[i] == s[i]);
        assert(chars_lt_at(s, i, s.len() - 1));
    }
    lemma_sorted_insert_last(s.drop_last(), s.last().0, s.last().1);
    assert(s.drop_last().push(s.last()) =~= s);
}

#[derive(Debug, Clone)]
pub struct AgentPrompt {
    sections: Vec<(String, String)>,
    raw: Option<String>,
}

impl AgentPrompt {
    /// The sections, in header order.
    pub closed spec fn sections_view(&self) -> Seq<(Seq<char>, Seq<char>)> {
        string_entries_view(self.sections@)
    }

    pub closed spec fn raw_view(&self) -> Option<Seq<char>> {
        match self.raw {
            Some(r) => Some(r@),
            None => None,
        }
    }

    pub closed spec fn wf(&self) -> bool {
        sorted_entries(self.sections_view())
    }

    /// Parses a Markdown prompt. Each line that begins with `## ` opens a
    /// section named by the rest of the line, trimmed; the lines up to the
    /// next header, each followed by a newline and trimmed as a whole, are
    /// its content. Lines before the first header join the first section.
    /// With no header at all the whole text, trimmed, is kept as the raw
    /// prompt.
    pub fn from_str(content: &str) -> (res: Result<AgentPrompt, AgentForgeError>)
        ensures
            res is Ok,
            res matches Ok(p) ==> {
                &&& p.wf()
                &&& p.sections_view() == prompt_sections(content@)
                &&& p.raw_view() == prompt_raw(content@)
            },
    {
        let text = chars_of(content);
        let ls = split_lines(&text);
        let marker: Vec<char> = vec!['#', '#', ' '];
        assert(marker@ == header_marker());
        let mut sections: Vec<(Vec<char>, Vec<char>)> = Vec::new();
        let mut header: Option<Vec<char>> = None;
        let mut current: Vec<char> = Vec::new();
        let mut i: usize = 0;
        assert(views(ls@).take(0) =~= Seq::<Seq<char>>::empty());
        while i < ls.len()
            invariant
                0 <= i <= ls.len(),
                views(ls@) == lines(text@),
                marker@ == header_marker(),
                scan_lines(views(ls@).take(i as int)) == (
                    entries_view(sections@),
                    opt_view(header),
                    current@,
                ),
                sorted_entries(entries_view(sections@)),
            decreases ls.len() - i,
        {
            let line = &ls[i];
            proof {
                let pre = views(ls@).take(i as int);
                assert(views(ls@).take(i + 1).drop_last() =~= pre);
                assert(views(ls@).take(i + 1).last() == line@);
                lemma_scan_sorted(views(ls@).take(i + 1));
            }
            if has_prefix(line, &marker) {
                let stripped = slice_chars(line, 3, line.len());
                assert(stripped@ =~= line@.skip(3));
                let new_header = trim_chars(&stripped);
                match header {
                    Some(h) => {
                        let body = trim_chars(&current);
                        insert_section(&mut sections, h, body);
                        current = Vec::new();
                    },
                    None => {},
                }
                header = Some(new_header);
            } else {
                let ghost before = current@;
                append_chars(&mut current, line);
                current.push('\n');
                assert(current@ =~= before + line@.push('\n'));
            }
            i = i + 1;
        }
        assert(views(ls@).take(ls.len() as int) =~= views(ls@));
        let no_header = header.is_none();
        match header {
            Some(h) => {
                let body = trim_chars(&current);
                insert_section(&mut sections, h, body);
            },
            None => {},
        }
        let raw = if no_header {
            Some(string_of(&trim_chars(&text)))
        } else {
            None
        };
        Ok(AgentPrompt { sections: to_string_entries(sections), raw })
    }

    /// The prompt text: the raw prompt when there is one, else every section
    /// rendered as `## header`, its content and a blank line, in header
    /// order, the whole trimmed.
    pub fn to_system_prompt(&self) -> (res: String)
        ensures
            res@ == match self.raw_view() {
                Some(r) => r,
                None => trim(render_sections(self.sections_view())),
            },
    {
        if let Some(raw) = &self.raw {
            return raw.clone();
        }
        let ghost sv = self.sections_view();
        let mut out: Vec<char> = Vec::new();
        let mut i: usize = 0;
        assert(sv.take(0) =~= Seq::<(Seq<char>, Seq<char>)>::empty());
        while i < self.sections.len()
            invariant
                0 <= i <= self.sections.len(),
                sv == self.sections_view(),
                sv.len() == self.sections.len(),
                out@ == render_sections(sv.take(i as int)),
            decreases self.sections.len() - i,
        {
            let ghost before = out@;
            out.push('#');
            out.push('#');
            out.push(' ');
            append_str(&mut out, self.sections[i].0.as_str());
            out.push('\n');
            append_str(&mut out, self.sections[i].1.as_str());
            out.push('\n');
            out.push('\n');
            proof {
                let t = sv.take(i + 1);
                assert(t.drop_last() =~= sv.take(i as int));
                assert(t.last() == sv[i as int]);
                assert(sv[i as int] == (self.sections@[i as int].0@, self.sections@[i as int].1@));
                assert(out@ =~= before + header_marker() + sv[i as int].0 + seq!['\n'] + sv[
                    i as int].1 + seq!['\n', '\n']);
            }
            i = i + 1;
        }
        assert(sv.take(sv.len() as int) =~= sv);
        let trimmed = trim_chars(&out);
        string_of(&trimmed)
    }

    /// The content of the section named `name`, if there is one.
    pub fn get_section(&self, name: &str) -> (res: Option<&str>)
        ensures
            match res {
                Some(r) => lookup(self.sections_view(), name@) == Some(r@),
                None => lookup(self.sections_view(), name@) is None,
            },
    {
        let ghost sv = self.sections_view();
        let wanted = chars_of(name);
        let mut i: usize = 0;
        assert(sv.skip(0) =~= sv);
        while i < self.sections.len()
            invariant
                0 <= i <= self.sections.len(),
                sv == self.sections_view(),
                sv.len() == self.sections.len(),
                wanted@ == name@,
                lookup(sv, name@) == lookup(sv.skip(i as int), name@),
            decreases self.sections.len() - i,
        {
            let key = chars_of(self.sections[i].0.as_str());
            assert(sv.skip(i as int)[0] == sv[i as int]);
            if chars_eq(&key, &wanted) {
                return Some(self.sections[i].1.as_str());
            }
            assert(sv.skip(i as int).drop_first() =~= sv.skip(i + 1));
            i = i + 1;
        }
        assert(sv.skip(i as int).len() == 0);
        None
    }
}

/// A prompt with sections (no raw text) whose headers and contents read back
/// unchanged: the text `to_system_prompt` gives for it is parsed by
/// `from_str` into the same sections, with no raw text, so `get_section`
/// answers the same for every name.
pub proof fn lemma_system_prompt_parses_back(p: AgentPrompt, name: Seq<char>)
    requires
        p.wf(),
        p.raw_view() is None,
        p.sections_view().len() > 0,
        forall|i: int|
            0 <= i < p.sections_view().len() ==> #[trigger] renderable_entry(p.sections_view()[i]),
    ensures
        prompt_sections(trim(render_sections(p.sections_view()))) == p.sections_view(),
        prompt_raw(trim(render_sections(p.sections_view()))) is None,
        lookup(prompt_sections(trim(render_sections(p.sections_view()))), name) == lookup(
            p.sections_view(),
            name,
        ),
{
    lemma_prompt_round_trip(p.sections_view());
}

/// Records `v` as the content of header `k` in the ordered list.
fn insert_section(sections: &mut Vec<(Vec<char>, Vec<char>)>, k: Vec<char>, v: Vec<char>)
    requires
        sorted_entries(entries_view(old(sections)@)),
    ensures
        entries_view(final(sections)@) == sorted_insert(entries_view(old(sections)@), k@, v@),
        sorted_entries(entries_view(final(sections)@)),
{
    let ghost s0 = entries_view(sections@);
    proof {
        lemma_sorted_insert_sorted(s0, k@, v@);
        assert(s0.skip(0) =~= s0);
        assert(s0.take(0) =~= Seq::<(Seq<char>, Seq<char>)>::empty());
    }
    let mut i: usize = 0;
    while i < sections.len()
        invariant
            0 <= i <= sections.len(),
            sections@ == old(sections)@,
            s0 == entries_view(sections@),
            sorted_entries(sorted_insert(s0, k@, v@)),
            sorted_insert(s0, k@, v@) == s0.take(i as int) + sorted_insert(
                s0.skip(i as int),
                k@,
                v@,
            ),
        decreases sections.len() - i,
    {
        let same = chars_eq(&sections[i].0, &k);
        if same {
            proof {
                let t = s0.skip(i as int);
                assert(t[0].0 == k@);
                assert(sorted_insert(t, k@, v@) == t.update(0, (k@, v@)));
                assert(s0.take(i as int) + t.update(0, (k@, v@)) =~= s0.update(i as int, (k@, v@)));
            }
            let ghost old_sections = sections@;
            sections.set(i, (k, v));
            assert(entries_view(sections@) =~= entries_view(old_sections).update(
                i as int,
                (k@, v@),
            ));
            return;
        }
        let smaller = chars_less(&k, &sections[i].0);
        if smaller {
            proof {
                let t = s0.skip(i as int);
                assert(t[0].0 == s0[i as int].0);
                assert(sorted_insert(t, k@, v@) == seq![(k@, v@)] + t);
                assert(s0.take(i as int) + (seq![(k@, v@)] + t) =~= s0.insert(i as int, (k@, v@)));
            }
            let ghost old_sections = sections@;
            sections.insert(i, (k, v));
            assert(entries_view(sections@) =~= entries_view(old_sections).insert(
                i as int,
                (k@, v@),
            ));
            return;
        }
        proof {
            let t = s0.skip(i as int);
            assert(t[0] == s0[i as int]);
            lemma_sorted_insert_lookup_tail(t, k@, v@);
            assert(t.drop_first() =~= s0.skip(i + 1));
            assert(sorted_insert(t, k@, v@) =~= seq![t[0]] + sorted_insert(t.drop_first(), k@, v@));
            assert(s0.take(i + 1) =~= s0.take(i as int).push(s0[i as int]));
            assert(s0.take(i as int) + (seq![s0[i as int]] + sorted_insert(s0.skip(i + 1), k@, v@))
                =~= s0.take(i + 1) + sorted_insert(s0.skip(i + 1), k@, v@));
        }
        i = i + 1;
    }
    proof {
        let n = sections.len() as int;
        assert(s0.skip(n) =~= Seq::<(Seq<char>, Seq<char>)>::empty());
        assert(s0.take(n) =~= s0);
    }
    let ghost old_sections = sections@;
    sections.push((k, v));
    assert(entries_view(sections@) =~= entries_view(old_sections).push((k@, v@)));
}

/// The same entries with their text held as `String`.
fn to_string_entries(sections: Vec<(Vec<char>, Vec<char>)>) -> (res: Vec<(String, String)>)
    ensures
        string_entries_view(res@) == entries_view(sections@),
{
    let mut res: Vec<(String, String)> = Vec::new();
    let mut i: usize = 0;
    while i < sections.len()
        invariant
            0 <= i <= sections.len(),
            string_entries_view(res@) == entries_view(sections@).take(
                i as int,
            ),
        decreases sections.len() - i,
    {
        let h = string_of(&sections[i].0);
        let c = string_of(&sections[i].1);
        let ghost before = res@;
        res.push((h, c));
        assert(res@ == before.push((h, c)));
        assert(string_entries_view(before.push((h, c))) =~= string_entries_view(before).push(
            (h@, c@),
        ));
        assert(entries_view(sections@)[i as int] == (sections@[i as int].0@, sections@[i as int].1@));
        assert(entries_view(sections@).take(i + 1) =~= entries_view(sections@).take(i as int).push(
            entries_view(sections@)[i as int],
        ));
        i = i + 1;
    }
    assert(entries_view(sections@).take(sections.len() as int) =~= entries_view(sections@));
    res
}

pub open spec fn string_entries_view(s: Seq<(String, String)>) -> Seq<(Seq<char>, Seq<char>)> {
    s.map_values(|e: (String, String)| (e.0@, e.1@))
}

pub open spec fn entries_view(s: Seq<(Vec<char>, Vec<char>)>) -> Seq<(Seq<char>, Seq<char>)> {
    s.map_values(|e: (Vec<char>, Vec<char>)| (e.0@, e.1@))
}

pub open spec fn opt_view(o: Option<Vec<char>>) -> Option<Seq<char>> {
    match o {
        Some(v) => Some(v@),
        None => None,
    }
}

} // verus!
