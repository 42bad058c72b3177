//! The `search_files` (glob) and `grep_content` (regular expression) tools.
use vstd::prelude::*;
use crate::client::owned;
use crate::tools::schema::{declares, lemma_declares, object_schema, parameter, parameter_shape};
use crate::ordmap::keyed_view;

use crate::error::{error_detail, AgentForgeError};
use crate::json::{field_bool, field_text, get_bool, get_text, Json};
use crate::text::{
    append_decimal, append_str, chars_of, decimal, join, join_lines, lines, split_lines,
    starts_with, string_of, views,
};
use crate::tools::line_pattern::{regex_compiles, regex_error_text, regex_is_match, regex_matches, LinePattern};
use crate::config::{is_absolute_path, path_is_absolute};
use crate::tools::{canonicalize, path_prefix, path_starts_with, has_parent_component, is_tool_error, parent_component, tool_execution_error, agrees, is_invalid_request, required_text, resolve_outcome, resolve_path};

verus! {

pub struct FileSearchTool {
    workdir: Option<String>,
}

impl FileSearchTool {
    pub closed spec fn workdir_view(&self) -> Option<Seq<char>> {
        match self.workdir {
            Some(w) => Some(w@),
            None => None,
        }
    }

    pub fn new() -> (res: Self)
        ensures
            res.workdir_view() is None,
    {
        FileSearchTool { workdir: None }
    }

    pub fn with_workdir(self, workdir: String) -> (res: Self)
        ensures
            res.workdir_view() == Some(workdir@),
    {
        FileSearchTool { workdir: Some(workdir) }
    }

    /// Where the tool acts for `path`: the path itself without a working
    /// directory, else the path resolved inside it.
    pub fn resolve(&self, path: &str) -> (res: Result<String, AgentForgeError>)
        ensures
            self.workdir_view() is None ==> (res matches Ok(r) && r@ == path@),
            self.workdir_view() matches Some(w) ==> exists|
                cb: Result<Seq<char>, Seq<char>>,
                cr: Result<Seq<char>, Seq<char>>,
            | #[trigger] agrees(res, resolve_outcome(w, path@, cb, cr)),
            res matches Err(e) ==> e is ToolExecution,
    {
        match &self.workdir {
            Some(base) => {
                let res = resolve_path(base.as_str(), path);
                proof {
                    let (cb, cr) = choose|
                        cb: Result<Seq<char>, Seq<char>>,
                        cr: Result<Seq<char>, Seq<char>>,
                    | #[trigger] agrees(res, resolve_outcome(base@, path@, cb, cr));
                    assert(agrees(res, resolve_outcome(base@, path@, cb, cr)));
                    assert(self.workdir_view() == Some(base@));
                    assert(self.workdir_view()->Some_0 == base@);
                }
                res
            },
            None => Ok(string_of(&chars_of(path))),
        }
    }

    pub fn name(&self) -> (res: &'static str)
        ensures
            res@ == "search_files"@,
    {
        "search_files"
    }
}

/// What a `search_files` call asks for.
#[derive(Debug)]
pub struct SearchRequest {
    pub pattern: String,
    /// The directory searched from (`.` by default).
    pub base: String,
}

/// The arguments of `search_files`: `pattern` (required) and `path`.
pub fn parse_search_args(args: &Json) -> (res: Result<SearchRequest, AgentForgeError>)
    ensures
        match field_text(*args, "pattern"@) {
            Some(p) => res matches Ok(r) && r.pattern@ == p && r.base@ == match field_text(
                *args,
                "path"@,
            ) {
                Some(b) => b,
                None => "."@,
            },
            None => res matches Err(e) && is_invalid_request(e, "pattern must be a string"@),
        },
{
    let pattern = required_text(args, "pattern", "pattern must be a string")?;
    let base = match get_text(args, "path") {
        Some(b) => string_of(&chars_of(b)),
        None => string_of(&chars_of(".")),
    };
    Ok(SearchRequest { pattern, base })
}

/// The glob searched: an absolute pattern as it is, else under `base`.
pub open spec fn glob_pattern(base: Seq<char>, pattern: Seq<char>) -> Seq<char> {
    if starts_with(pattern, "/"@) {
        pattern
    } else {
        base + "/"@ + pattern
    }
}

/// The glob searched for `pattern` under the resolved directory `base`.
pub fn search_pattern(base: &str, pattern: &str) -> (res: String)
    ensures
        res@ == glob_pattern(base@, pattern@),
{
    let p = chars_of(pattern);
    if p.len() > 0 && p[0] == '/' {
        assert(starts_with(pattern@, "/"@)) by {
            reveal_strlit("/");
            assert(pattern@.take(1) =~= "/"@);
        }
        return string_of(&p);
    }
    assert(!starts_with(pattern@, "/"@)) by {
        reveal_strlit("/");
        if pattern@.len() >= 1 {
            assert(pattern@.take(1)[0] == pattern@[0]);
        }
    }
    let mut out = chars_of(base);
    append_str(&mut out, "/");
    append_str(&mut out, pattern);
    string_of(&out)
}

/// The message for a search pattern that would reach outside the working
/// directory.
pub open spec fn pattern_outside_message(pattern: Seq<char>) -> Seq<char> {
    "Pattern '"@ + pattern + "' is outside the working directory"@
}

impl FileSearchTool {
    /// The glob searched for `pattern` under the resolved directory `base`.
    /// With a working directory, a pattern that is absolute or climbs out
    /// with a `..` component is refused, so every path searched lies under
    /// `base`; without one, an absolute pattern is searched as it is.
    pub fn glob_for(&self, base: &str, pattern: &str) -> (res: Result<String, AgentForgeError>)
        ensures
            self.workdir_view() is None ==> (res matches Ok(g) && g@ == glob_pattern(base@, pattern@)),
            self.workdir_view() is Some ==> if is_absolute_path(pattern@) || has_parent_component(pattern@) {
                res matches Err(e) && is_tool_error(e, pattern_outside_message(pattern@))
            } else {
                res matches Ok(g) && g@ == base@ + "/"@ + pattern@
            },
    {
        let p = chars_of(pattern);
        if self.workdir.is_some() && (path_is_absolute(pattern) || parent_component(&p)) {
            let mut m = chars_of("Pattern '");
            append_str(&mut m, pattern);
            append_str(&mut m, "' is outside the working directory");
            return Err(tool_execution_error(&m));
        }
        let g = search_pattern(base, pattern);
        proof {
            reveal_strlit("/");
            if self.workdir_view() is Some {
                assert(!is_absolute_path(pattern@));
                if starts_with(pattern@, "/"@) {
                    assert(pattern@[0] == "/"@[0]);
                }
            }
        }
        Ok(g)
    }
}

/// A path with its canonical form, when the filesystem gave one.
pub open spec fn match_views(ms: Seq<(String, Option<String>)>) -> Seq<(Seq<char>, Option<Seq<char>>)> {
    ms.map_values(
        |m: (String, Option<String>)|
            (
                m.0@,
                match m.1 {
                    Some(c) => Some(c@),
                    None => None,
                },
            ),
    )
}

/// The paths, in order, whose canonical form is known and lies inside the
/// canonical working directory `wc`.
pub open spec fn inside_matches(wc: Seq<char>, ms: Seq<(Seq<char>, Option<Seq<char>>)>) -> Seq<
    Seq<char>,
>
    decreases ms.len(),
{
    if ms.len() == 0 {
        Seq::empty()
    } else {
        let kept = inside_matches(wc, ms.drop_last());
        match ms.last().1 {
            Some(c) => if path_prefix(c, wc) {
                kept.push(ms.last().0)
            } else {
                kept
            },
            None => kept,
        }
    }
}

/// Keeps the matches that lie inside the working directory, given the
/// canonical forms the filesystem reported: a match stays when its canonical
/// form is known and starts with the working directory's.
pub fn matches_inside(workdir_canonical: &str, matches: &Vec<(String, Option<String>)>) -> (res: Vec<
    String,
>)
    ensures
        string_views(res@) == inside_matches(workdir_canonical@, match_views(matches@)),
{
    let ghost ms = match_views(matches@);
    let mut res: Vec<String> = Vec::new();
    let mut i: usize = 0;
    while i < matches.len()
        invariant
            0 <= i <= matches.len(),
            ms == match_views(matches@),
            string_views(res@) == inside_matches(workdir_canonical@, ms.take(i as int)),
        decreases matches.len() - i,
    {
        proof {
            assert(ms.take(i + 1).drop_last() =~= ms.take(i as int));
            assert(ms.take(i + 1).last() == ms[i as int]);
        }
        match &matches[i].1 {
            Some(c) => {
                if path_starts_with(c.as_str(), workdir_canonical) {
                    let ghost before = res@;
                    res.push(string_of(&chars_of(matches[i].0.as_str())));
                    assert(string_views(res@) =~= string_views(before).push(matches@[i as int].0@));
                }
            },
            None => {},
        }
        i = i + 1;
    }
    assert(ms.take(matches.len() as int) =~= ms);
    res
}

/// The matches paired with canonical forms.
pub open spec fn paired(ms: Seq<Seq<char>>, forms: Seq<Option<Seq<char>>>) -> Seq<
    (Seq<char>, Option<Seq<char>>),
> {
    Seq::new(ms.len(), |i: int| (ms[i], forms[i]))
}

/// What `confine` keeps, given the working directory's canonical form
/// (`None` when it could not be had) and each match's.
pub open spec fn confined(
    wc: Option<Seq<char>>,
    forms: Seq<Option<Seq<char>>>,
    ms: Seq<Seq<char>>,
) -> Seq<Seq<char>> {
    match wc {
        None => Seq::empty(),
        Some(c) => inside_matches(c, paired(ms, forms)),
    }
}

/// The paths a tool confined to `workdir` may report or read. Without a working directory, all of
/// them. With one, those whose canonical form (links followed) lies
/// inside the working directory's; a match whose canonical form cannot
/// be had is left out, and so is every match when the working
/// directory's cannot.
pub fn confine_to(workdir: &Option<String>, matches: Vec<String>) -> (res: Vec<String>)
    ensures
        workdir is None ==> res@ == matches@,
        workdir is Some ==> exists|
            wc: Option<Seq<char>>,
            forms: Seq<Option<Seq<char>>>,
        |
            forms.len() == matches@.len() && #[trigger] confined(wc, forms, string_views(matches@))
                == string_views(res@),
{
    let w = match workdir {
        None => {
            return matches;
        },
        Some(w) => w,
    };
    let wc = match canonicalize(w.as_str()) {
        Ok(c) => c,
        Err(_) => {
            let res: Vec<String> = Vec::new();
            proof {
                let forms = Seq::new(matches@.len(), |i: int| None::<Seq<char>>);
                assert(confined(None, forms, string_views(matches@)) =~= string_views(res@));
            }
            return res;
        },
    };
    let mut pairs: Vec<(String, Option<String>)> = Vec::new();
    let mut i: usize = 0;
    let ghost ms = string_views(matches@);
    while i < matches.len()
        invariant
            0 <= i <= matches.len(),
            ms == string_views(matches@),
            pairs@.len() == i,
            forall|k: int| 0 <= k < i ==> (#[trigger] pairs@[k]).0@ == ms[k],
        decreases matches.len() - i,
    {
        let form = match canonicalize(matches[i].as_str()) {
            Ok(c) => Some(c),
            Err(_) => None,
        };
        let ghost before = pairs@;
        pairs.push((string_of(&chars_of(matches[i].as_str())), form));
        proof {
            assert forall|k: int| 0 <= k < i + 1 implies (#[trigger] pairs@[k]).0@ == ms[k] by {
                if k < i {
                    assert(pairs@[k] == before[k]);
                } else {
                    assert(ms[k] == matches@[k]@);
                }
            }
        }
        i = i + 1;
    }
    let res = matches_inside(wc.as_str(), &pairs);
    proof {
        let pv = match_views(pairs@);
        let forms = Seq::new(pv.len(), |k: int| pv[k].1);
        assert forall|k: int| 0 <= k < pv.len() implies #[trigger] pv[k] == (ms[k], forms[k]) by {
            assert(pairs@[k].0@ == ms[k]);
        }
        assert(paired(ms, forms) =~= pv);
        assert(confined(Some(wc@), forms, ms) == string_views(res@));
    }
    res
}

/// A canonical form that is known and starts with `wc`.
pub open spec fn lies_inside(wc: Seq<char>, form: Option<Seq<char>>) -> bool {
    match form {
        Some(c) => path_prefix(c, wc),
        None => false,
    }
}

/// Every path kept lies inside: it is one of the matches, and its
/// canonical form is known and starts with the working directory's.
pub proof fn lemma_kept_inside(wc: Seq<char>, ms: Seq<(Seq<char>, Option<Seq<char>>)>, i: int)
    requires
        0 <= i < inside_matches(wc, ms).len(),
    ensures
        exists|j: int|
            0 <= j < ms.len() && (#[trigger] ms[j]).0 == inside_matches(wc, ms)[i] && lies_inside(
                wc,
                ms[j].1,
            ),
    decreases ms.len(),
{
    let kept = inside_matches(wc, ms.drop_last());
    let last = ms.len() - 1;
    if i < kept.len() {
        lemma_kept_inside(wc, ms.drop_last(), i);
        let j = choose|j: int|
            0 <= j < ms.drop_last().len() && (#[trigger] ms.drop_last()[j]).0 == kept[i]
                && lies_inside(wc, ms.drop_last()[j].1);
        assert(ms[j] == ms.drop_last()[j]);
    } else {
        assert(ms[last] == ms.last());
    }
}

impl FileSearchTool {
    /// The matches the tool may report (see `confine_to`).
    pub fn confine(&self, matches: Vec<String>) -> (res: Vec<String>)
        ensures
            self.workdir_view() is None ==> res@ == matches@,
            self.workdir_view() is Some ==> exists|
                wc: Option<Seq<char>>,
                forms: Seq<Option<Seq<char>>>,
            |
                forms.len() == matches@.len() && #[trigger] confined(wc, forms, string_views(matches@))
                    == string_views(res@),
    {
        confine_to(&self.workdir, matches)
    }
}

impl GrepContentTool {
    /// The files the tool may read (see `confine_to`).
    pub fn confine(&self, files: Vec<String>) -> (res: Vec<String>)
        ensures
            self.workdir_view() is None ==> res@ == files@,
            self.workdir_view() is Some ==> exists|
                wc: Option<Seq<char>>,
                forms: Seq<Option<Seq<char>>>,
            |
                forms.len() == files@.len() && #[trigger] confined(wc, forms, string_views(files@))
                    == string_views(res@),
    {
        confine_to(&self.workdir, files)
    }
}

/// The answer to a search: the matching paths, one per line.
pub open spec fn search_answer(matches: Seq<Seq<char>>) -> Seq<char> {
    if matches.len() == 0 {
        "No files found matching the pattern."@
    } else {
        join(matches, "\n"@)
    }
}

pub open spec fn string_views(v: Seq<String>) -> Seq<Seq<char>> {
    v.map_values(|s: String| s@)
}

/// Joins lines of text, or answers `none` when there are none.
fn lines_or(items: &Vec<String>, none: &str) -> (res: String)
    ensures
        res@ == if items@.len() == 0 {
            none@
        } else {
            join(string_views(items@), "\n"@)
        },
{
    if items.len() == 0 {
        return string_of(&chars_of(none));
    }
    let mut ls: Vec<Vec<char>> = Vec::new();
    let mut i: usize = 0;
    while i < items.len()
        invariant
            0 <= i <= items.len(),
            views(ls@) == string_views(items@).take(i as int),
        decreases items.len() - i,
    {
        let ghost before = ls@;
        ls.push(chars_of(items[i].as_str()));
        assert(views(ls@) =~= views(before).push(items@[i as int]@));
        assert(string_views(items@).take(i + 1) =~= string_views(items@).take(i as int).push(
            items@[i as int]@,
        ));
        i = i + 1;
    }
    assert(string_views(items@).take(items.len() as int) =~= string_views(items@));
    assert(ls@.map_values(|l: Vec<char>| l@) =~= views(ls@));
    string_of(&join_lines(&ls))
}

/// The answer to a search.
pub fn search_summary(matches: &Vec<String>) -> (res: String)
    ensures
        res@ == search_answer(string_views(matches@)),
{
    lines_or(matches, "No files found matching the pattern.")
}

pub struct GrepContentTool {
    workdir: Option<String>,
}

impl GrepContentTool {
    pub closed spec fn workdir_view(&self) -> Option<Seq<char>> {
        match self.workdir {
            Some(w) => Some(w@),
            None => None,
        }
    }

    pub fn new() -> (res: Self)
        ensures
            res.workdir_view() is None,
    {
        GrepContentTool { workdir: None }
    }

    pub fn with_workdir(self, workdir: String) -> (res: Self)
        ensures
            res.workdir_view() == Some(workdir@),
    {
        GrepContentTool { workdir: Some(workdir) }
    }

    /// Where the tool acts for `path`: the path itself without a working
    /// directory, else the path resolved inside it.
    pub fn resolve(&self, path: &str) -> (res: Result<String, AgentForgeError>)
        ensures
            self.workdir_view() is None ==> (res matches Ok(r) && r@ == path@),
            self.workdir_view() matches Some(w) ==> exists|
                cb: Result<Seq<char>, Seq<char>>,
                cr: Result<Seq<char>, Seq<char>>,
            | #[trigger] agrees(res, resolve_outcome(w, path@, cb, cr)),
            res matches Err(e) ==> e is ToolExecution,
    {
        match &self.workdir {
            Some(base) => {
                let res = resolve_path(base.as_str(), path);
                proof {
                    let (cb, cr) = choose|
                        cb: Result<Seq<char>, Seq<char>>,
                        cr: Result<Seq<char>, Seq<char>>,
                    | #[trigger] agrees(res, resolve_outcome(base@, path@, cb, cr));
                    assert(agrees(res, resolve_outcome(base@, path@, cb, cr)));
                    assert(self.workdir_view() == Some(base@));
                    assert(self.workdir_view()->Some_0 == base@);
                }
                res
            },
            None => Ok(string_of(&chars_of(path))),
        }
    }

    pub fn name(&self) -> (res: &'static str)
        ensures
            res@ == "grep_content"@,
    {
        "grep_content"
    }
}

/// What a `grep_content` call asks for.
#[derive(Debug)]
pub struct GrepRequest {
    pub pattern: String,
    pub path: String,
    pub case_sensitive: bool,
}

/// The arguments of `grep_content`: `pattern` and `path` (both required)
/// and `case_sensitive` (false by default).
pub fn parse_grep_args(args: &Json) -> (res: Result<GrepRequest, AgentForgeError>)
    ensures
        match field_text(*args, "pattern"@) {
            None => res matches Err(e) && is_invalid_request(e, "pattern must be a string"@),
            Some(p) => match field_text(*args, "path"@) {
                None => res matches Err(e) && is_invalid_request(e, "path must be a string"@),
                Some(q) => res matches Ok(r) && r.pattern@ == p && r.path@ == q && r.case_sensitive
                    == (field_bool(*args, "case_sensitive"@) == Some(true)),
            },
        },
{
    let pattern = required_text(args, "pattern", "pattern must be a string")?;
    let path = required_text(args, "path", "path must be a string")?;
    let case_sensitive = match get_bool(args, "case_sensitive") {
        Some(b) => b,
        None => false,
    };
    Ok(GrepRequest { pattern, path, case_sensitive })
}

/// The expression searched for: case-insensitive unless asked otherwise.
pub open spec fn grep_source(pattern: Seq<char>, case_sensitive: bool) -> Seq<char> {
    if case_sensitive {
        pattern
    } else {
        "(?i)"@ + pattern
    }
}

/// Compiles the expression for a `grep_content` call.
pub fn compile_grep_pattern(pattern: &str, case_sensitive: bool) -> (res: Result<LinePattern, AgentForgeError>)
    ensures
        res is Ok <==> regex_compiles(grep_source(pattern@, case_sensitive)),
        res matches Ok(p) ==> p.source() == grep_source(pattern@, case_sensitive),
        res matches Err(e) ==> e is ToolExecution && error_detail(e) == "Invalid regex pattern: "@
            + regex_error_text(grep_source(pattern@, case_sensitive)),
{
    let mut src: Vec<char> = Vec::new();
    if !case_sensitive {
        append_str(&mut src, "(?i)");
    }
    append_str(&mut src, pattern);
    let s = string_of(&src);
    match LinePattern::compile(s.as_str()) {
        Ok(p) => Ok(p),
        Err(e) => {
            let mut m = chars_of("Invalid regex pattern: ");
            append_str(&mut m, e.as_str());
            Err(AgentForgeError::ToolExecution(string_of(&m)))
        },
    }
}

/// `path:n: line` for each line of `ls` (counting from 1) among the first
/// `count` that the expression matches.
pub open spec fn grep_hits(path: Seq<char>, ls: Seq<Seq<char>>, pattern: Seq<char>, count: nat) -> Seq<
    Seq<char>,
>
    decreases count,
{
    if count == 0 {
        Seq::empty()
    } else {
        let before = grep_hits(path, ls, pattern, (count - 1) as nat);
        let line = ls[count - 1];
        if regex_matches(pattern, line) {
            before.push(path + ":"@ + decimal(count) + ": "@ + line)
        } else {
            before
        }
    }
}

/// Adds to `results` the lines of `content` that `pattern` matches, each as
/// `path:n: line`.
pub fn grep_text(path: &str, content: &str, pattern: &LinePattern, results: &mut Vec<String>)
    ensures
        string_views(final(results)@) == string_views(old(results)@) + grep_hits(
            path@,
            lines(content@),
            pattern.source(),
            lines(content@).len(),
        ),
{
    let text = chars_of(content);
    let ls = split_lines(&text);
    let ghost start = string_views(results@);
    let mut i: usize = 0;
    while i < ls.len()
        invariant
            0 <= i <= ls.len(),
            views(ls@) == lines(content@),
            string_views(results@) == start + grep_hits(path@, views(ls@), pattern.source(), i as nat),
        decreases ls.len() - i,
    {
        let line = crate::text::string_of(&ls[i]);
        if regex_is_match(pattern, line.as_str()) {
            let mut hit = chars_of(path);
            append_str(&mut hit, ":");
            append_decimal(&mut hit, (i + 1) as u64);
            append_str(&mut hit, ": ");
            append_str(&mut hit, line.as_str());
            let ghost before = results@;
            results.push(string_of(&hit));
            assert(string_views(results@) =~= string_views(before).push(hit@));
        }
        i = i + 1;
    }
}

/// Whether a grep descends into a subdirectory named `name`: not when the
/// name begins with a dot.
pub fn walks_into(name: &str) -> (res: bool)
    ensures
        res == !starts_with(name@, "."@),
{
    let n = chars_of(name);
    let dot = chars_of(".");
    !crate::text::has_prefix(&n, &dot)
}

/// The answer to a grep: the hits, one per line.
pub open spec fn grep_answer(hits: Seq<Seq<char>>) -> Seq<char> {
    if hits.len() == 0 {
        "No matches found."@
    } else {
        join(hits, "\n"@)
    }
}

/// The answer to a grep.
pub fn grep_summary(hits: &Vec<String>) -> (res: String)
    ensures
        res@ == grep_answer(string_views(hits@)),
{
    lines_or(hits, "No matches found.")
}

impl FileSearchTool {
    /// What the tool is for, as the model is told.
    pub fn description(&self) -> (res: &'static str)
        ensures
            res@ == "Search for files matching a glob pattern. Supports wildcards like *.rs, **/*.md, etc."@,
    {
        "Search for files matching a glob pattern. Supports wildcards like *.rs, **/*.md, etc."
    }

    /// The arguments the tool takes.
    pub fn parameters_schema(&self) -> (res: Json)
        ensures
            declares(
                res,
                seq![
                    ("pattern"@, Some("string"@), "Glob pattern to match files (e.g., '**/*.rs' for all Rust files)"@),
                    ("path"@, Some("string"@), "Base directory to search from (defaults to current directory)"@),
                ],
                seq!["pattern"@],
            ),
    {
        let k0 = owned("pattern");
        let p0 = parameter(Some("string"), "Glob pattern to match files (e.g., '**/*.rs' for all Rust files)");
        let ghost g0 = (k0@, p0);
        let k1 = owned("path");
        let p1 = parameter(Some("string"), "Base directory to search from (defaults to current directory)");
        let ghost g1 = (k1@, p1);
        let props = vec![(k0, p0), (k1, p1)];
        let ghost fields = keyed_view(props@);
        let required = vec!["pattern"];
        let res = object_schema(props, &required);
        proof {
            reveal_strlit("pattern");
            reveal_strlit("path");
            assert("pattern"@.len() == 7 && "path"@.len() == 4);
            let params = seq![("pattern"@, Some("string"@), "Glob pattern to match files (e.g., '**/*.rs' for all Rust files)"@), ("path"@, Some("string"@), "Base directory to search from (defaults to current directory)"@)];
            assert(fields =~= seq![g0, g1]);
            assert(required@.map_values(|s: &str| s@) =~= seq!["pattern"@]);
            assert forall|i: int| 0 <= i < params.len() implies (#[trigger] fields[i]).0 == params[i].0
                && parameter_shape(fields[i].1, params[i].1, params[i].2) by {
                if i == 0 {} else if i == 1 {}
            }
            lemma_declares(res, fields, params, seq!["pattern"@]);
        }
        res
    }
}

impl GrepContentTool {
    /// What the tool is for, as the model is told.
    pub fn description(&self) -> (res: &'static str)
        ensures
            res@ == "Search for text content within files using regular expressions. Returns matching lines with file paths."@,
    {
        "Search for text content within files using regular expressions. Returns matching lines with file paths."
    }

    /// The arguments the tool takes.
    pub fn parameters_schema(&self) -> (res: Json)
        ensures
            declares(
                res,
                seq![
                    ("pattern"@, Some("string"@), "Regular expression pattern to search for"@),
                    ("path"@, Some("string"@), "Path to search in (file or directory)"@),
                    ("case_sensitive"@, Some("boolean"@), "Whether search should be case sensitive (default: false)"@),
                ],
                seq!["pattern"@, "path"@],
            ),
    {
        let k0 = owned("pattern");
        let p0 = parameter(Some("string"), "Regular expression pattern to search for");
        let ghost g0 = (k0@, p0);
        let k1 = owned("path");
        let p1 = parameter(Some("string"), "Path to search in (file or directory)");
        let ghost g1 = (k1@, p1);
        let k2 = owned("case_sensitive");
        let p2 = parameter(Some("boolean"), "Whether search should be case sensitive (default: false)");
        let ghost g2 = (k2@, p2);
        let props = vec![(k0, p0), (k1, p1), (k2, p2)];
        let ghost fields = keyed_view(props@);
        let required = vec!["pattern", "path"];
        let res = object_schema(props, &required);
        proof {
            reveal_strlit("pattern");
            reveal_strlit("path");
            reveal_strlit("case_sensitive");
            assert("pattern"@.len() == 7 && "path"@.len() == 4 && "case_sensitive"@.len() == 14);
            let params = seq![("pattern"@, Some("string"@), "Regular expression pattern to search for"@), ("path"@, Some("string"@), "Path to search in (file or directory)"@), ("case_sensitive"@, Some("boolean"@), "Whether search should be case sensitive (default: false)"@)];
            assert(fields =~= seq![g0, g1, g2]);
            assert(required@.map_values(|s: &str| s@) =~= seq!["pattern"@, "path"@]);
            assert forall|i: int| 0 <= i < params.len() implies (#[trigger] fields[i]).0 == params[i].0
                && parameter_shape(fields[i].1, params[i].1, params[i].2) by {
                if i == 0 {} else if i == 1 {} else if i == 2 {}
            }
            lemma_declares(res, fields, params, seq!["pattern"@, "path"@]);
        }
        res
    }
}

} // verus!
