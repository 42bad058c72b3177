//! File tools: where each tool looks (its path kept inside the working
//! directory), how it reads its arguments, and what it answers.
//!
//! Questions about the filesystem (whether a path exists, its canonical
//! form) are asked through small functions whose answers depend on the disk,
//! so nothing is promised of those answers; everything decided from them is
//! verified.
pub mod dir_create;
pub mod file_list;
pub mod file_read;
pub mod file_search;
pub mod file_write;
pub mod line_pattern;
pub mod registry;
pub mod schema;

use vstd::prelude::*;

use crate::config::{is_absolute_path, join_path, path_is_absolute, path_join};
use crate::error::{error_detail, AgentForgeError};
use crate::json::{field_text, get_text, Json};
use crate::text::{append_str, chars_of, string_of};

verus! {

/// A tool as the model is told of it: its name, what it is for, and the
/// schema of its arguments.
#[derive(Debug)]
pub struct ToolDefinition {
    pub name: String,
    pub description: String,
    pub parameters: Json,
}

/// Names `Path::starts_with`: whether the components of `base` are a prefix
/// of the components of `p`.
pub uninterp spec fn path_prefix(p: Seq<char>, base: Seq<char>) -> bool;

/// Names `Path::parent`: `p` without its final component, if it has one.
pub uninterp spec fn parent_path(p: Seq<char>) -> Option<Seq<char>>;

/// A canonical path as the filesystem gave it: its text, or, when it is
/// not valid UTF-8, how it displays (with U+FFFD for what is not).
pub enum CanonicalForm {
    Text(String),
    NotText(String),
}

/// `Path::canonicalize`: the absolute form of `p` with every link resolved,
/// or the error's message. Which form, and whether it fails, depends on the
/// filesystem; what is promised is only that a form held as text is
/// absolute.
#[verifier::external_body]
fn canonicalize_raw(p: &str) -> (res: Result<CanonicalForm, String>)
    ensures
        res matches Ok(CanonicalForm::Text(c)) ==> is_absolute_path(c@),
{
    match std::path::Path::new(p).canonicalize() {
        Ok(c) => match c.into_os_string().into_string() {
            Ok(text) => Ok(CanonicalForm::Text(text)),
            Err(raw) => Ok(CanonicalForm::NotText(raw.to_string_lossy().into_owned())),
        },
        Err(e) => Err(e.to_string()),
    }
}

/// The canonical form of `p` as text. Paths are held as text here, so a
/// canonical form that is not valid UTF-8 cannot be carried on unchanged;
/// it is refused rather than altered.
pub(crate) fn canonicalize(p: &str) -> (res: Result<String, String>)
    ensures
        res matches Ok(c) ==> is_absolute_path(c@),
{
    match canonicalize_raw(p) {
        Ok(CanonicalForm::Text(t)) => Ok(t),
        Ok(CanonicalForm::NotText(shown)) => {
            let mut m = chars_of("not valid UTF-8: ");
            append_str(&mut m, shown.as_str());
            Err(string_of(&m))
        },
        Err(e) => Err(e),
    }
}

/// `Path::exists`: whether `p` names something on disk. The answer depends
/// on the filesystem, so nothing is promised of it.
#[verifier::external_body]
pub(crate) fn path_exists(p: &str) -> (res: bool) {
    std::path::Path::new(p).exists()
}

/// `Path::starts_with`.
#[verifier::external_body]
pub(crate) fn path_starts_with(p: &str, base: &str) -> (res: bool)
    ensures
        res == path_prefix(p@, base@),
{
    std::path::Path::new(p).starts_with(base)
}

/// `Path::parent`. The parent is what remains of `p` after its final
/// component is removed, so it is shorter than `p`. There is none only when
/// `p` ends in the root or is empty, so then `p` has no named component:
/// it holds nothing but `/` and `.`.
#[verifier::external_body]
pub(crate) fn path_parent(p: &str) -> (res: Option<String>)
    ensures
        match res {
            Some(q) => parent_path(p@) == Some(q@) && q@.len() < p@.len(),
            None => parent_path(p@) is None && forall|i: int|
                0 <= i < p@.len() ==> p@[i] == '/' || p@[i] == '.',
        },
{
    match std::path::Path::new(p).parent() {
        Some(q) => Some(q.to_string_lossy().into_owned()),
        None => None,
    }
}

/// An error of kind `ToolExecution` with the given message.
pub open spec fn is_tool_error(e: AgentForgeError, message: Seq<char>) -> bool {
    e is ToolExecution && error_detail(e) == message
}

/// An error of kind `InvalidRequest` with the given message.
pub open spec fn is_invalid_request(e: AgentForgeError, message: Seq<char>) -> bool {
    e is InvalidRequest && error_detail(e) == message
}

pub fn tool_execution_error(message: &Vec<char>) -> (res: AgentForgeError)
    ensures
        is_tool_error(res, message@),
{
    AgentForgeError::ToolExecution(string_of(message))
}

/// The path a tool asks for, before it is checked: taken as it is when
/// absolute, else under `base`.
pub open spec fn requested_path(base: Seq<char>, path: Seq<char>) -> Seq<char> {
    if is_absolute_path(path) {
        path
    } else {
        join_path(base, path)
    }
}

pub open spec fn outside_message(path: Seq<char>) -> Seq<char> {
    "Path '"@ + path + "' is outside the working directory"@
}

/// What `resolve_path` answers once the canonical forms of the working
/// directory and of the requested path are known.
pub open spec fn resolve_outcome(
    base: Seq<char>,
    path: Seq<char>,
    canonical_base: Result<Seq<char>, Seq<char>>,
    canonical_requested: Result<Seq<char>, Seq<char>>,
) -> Result<Seq<char>, Seq<char>> {
    match canonical_base {
        Err(e) => Err("Invalid workdir '"@ + base + "': "@ + e),
        Ok(cb) => match canonical_requested {
            Err(e) => Err("Path '"@ + path + "' does not exist: "@ + e),
            Ok(cr) => if path_prefix(cr, cb) {
                Ok(cr)
            } else {
                Err(outside_message(path))
            },
        },
    }
}

pub open spec fn res_view(r: Result<String, String>) -> Result<Seq<char>, Seq<char>> {
    match r {
        Ok(s) => Ok(s@),
        Err(e) => Err(e@),
    }
}

/// Whether a tool's path answer agrees with the outcome `o`: the same path,
/// or a tool error with the same message.
pub open spec fn agrees(res: Result<String, AgentForgeError>, o: Result<Seq<char>, Seq<char>>) -> bool {
    match o {
        Ok(p) => res matches Ok(r) && r@ == p,
        Err(m) => res matches Err(e) && is_tool_error(e, m),
    }
}

fn outside_error(path: &str) -> (res: AgentForgeError)
    ensures
        is_tool_error(res, outside_message(path@)),
{
    let mut m = chars_of("Path '");
    append_str(&mut m, path);
    append_str(&mut m, "' is outside the working directory");
    tool_execution_error(&m)
}

/// The decision of `resolve_path`, given the canonical forms that the
/// filesystem reported.
pub fn resolve_path_with(
    base: &str,
    path: &str,
    canonical_base: Result<String, String>,
    canonical_requested: Result<String, String>,
) -> (res: Result<String, AgentForgeError>)
    ensures
        agrees(
            res,
            resolve_outcome(base@, path@, res_view(canonical_base), res_view(canonical_requested)),
        ),
{
    match canonical_base {
        Err(e) => {
            let mut m = chars_of("Invalid workdir '");
            append_str(&mut m, base);
            append_str(&mut m, "': ");
            append_str(&mut m, e.as_str());
            Err(tool_execution_error(&m))
        },
        Ok(cb) => match canonical_requested {
            Err(e) => {
                let mut m = chars_of("Path '");
                append_str(&mut m, path);
                append_str(&mut m, "' does not exist: ");
                append_str(&mut m, e.as_str());
                Err(tool_execution_error(&m))
            },
            Ok(cr) => {
                if path_starts_with(cr.as_str(), cb.as_str()) {
                    Ok(cr)
                } else {
                    Err(outside_error(path))
                }
            },
        },
    }
}

/// The path a tool asks for, under `base` unless it is absolute.
pub fn requested(base: &str, path: &str) -> (res: String)
    ensures
        res@ == requested_path(base@, path@),
{
    if path_is_absolute(path) {
        string_of(&chars_of(path))
    } else {
        path_join(base, path)
    }
}

/// Resolves `path` against the working directory `base` and refuses a
/// path that does not exist or that leads outside `base`. The canonical
/// forms come from the filesystem; whatever they are, the answer is
/// `resolve_outcome` for them, and an accepted path is absolute.
pub fn resolve_path(base: &str, path: &str) -> (res: Result<String, AgentForgeError>)
    ensures
        exists|cb: Result<Seq<char>, Seq<char>>, cr: Result<Seq<char>, Seq<char>>|
            #[trigger] agrees(res, resolve_outcome(base@, path@, cb, cr)),
        res matches Ok(r) ==> is_absolute_path(r@),
        res matches Err(e) ==> e is ToolExecution,
{
    let req = requested(base, path);
    let cb = canonicalize(base);
    if cb.is_err() {
        let ghost gcb = res_view(cb);
        let res = resolve_path_with(base, path, cb, Err(String::new()));
        assert(agrees(res, resolve_outcome(base@, path@, gcb, Err(Seq::<char>::empty()))));
        return res;
    }
    let cr = canonicalize(req.as_str());
    let ghost gcb = res_view(cb);
    let ghost gcr = res_view(cr);
    let res = resolve_path_with(base, path, cb, cr);
    assert(agrees(res, resolve_outcome(base@, path@, gcb, gcr)));
    res
}

/// Whether `p` has a `..` component.
pub open spec fn has_parent_component(p: Seq<char>) -> bool {
    exists|i: int|
        0 <= i && i + 2 <= p.len() && #[trigger] p[i] == '.' && p[i + 1] == '.' && (i == 0 || p[i
            - 1] == '/') && (i + 2 == p.len() || p[i + 2] == '/')
}

/// Whether `p` has a `..` component.
pub(crate) fn parent_component(p: &Vec<char>) -> (res: bool)
    ensures
        res == has_parent_component(p@),
{
    let n = p.len();
    let mut i: usize = 0;
    while n >= 2 && i <= n - 2
        invariant
            n == p@.len(),
            forall|j: int|
                0 <= j < i && j + 2 <= n ==> !(#[trigger] p@[j] == '.' && p@[j + 1] == '.' && (j == 0
                    || p@[j - 1] == '/') && (j + 2 == n || p@[j + 2] == '/')),
        decreases n - i,
    {
        if p[i] == '.' && p[i + 1] == '.' && (i == 0 || p[i - 1] == '/') && (i + 2 == n || p[i
            + 2] == '/') {
            return true;
        }
        i = i + 1;
    }
    false
}

/// The path reached from `p` by taking the parent `k` times, if there is
/// one.
pub open spec fn ancestor_at(p: Seq<char>, k: nat) -> Option<Seq<char>>
    decreases k,
{
    if k == 0 {
        Some(p)
    } else {
        match ancestor_at(p, (k - 1) as nat) {
            Some(q) => parent_path(q),
            None => None,
        }
    }
}

/// What `resolve_path_allow_create` answers once the filesystem has told
/// it the canonical form of the working directory; whether the requested
/// path exists, and its canonical form; whether its parent exists, and its
/// canonical form; and, when the parent is missing too, the nearest existing
/// ancestor with its canonical form (`None` when none exists).
///
/// An existing path is answered by its canonical form, which must lie
/// inside the working directory. A new path is answered as it was asked
/// for, once the existing directory it would be made in lies inside the
/// working directory: its parent, or else its nearest existing ancestor, in
/// which case the path may not climb out with a `..` component.
pub open spec fn create_outcome(
    base: Seq<char>,
    path: Seq<char>,
    canonical_base: Result<Seq<char>, Seq<char>>,
    requested_exists: bool,
    canonical_requested: Result<Seq<char>, Seq<char>>,
    parent_exists: bool,
    canonical_parent: Result<Seq<char>, Seq<char>>,
    ancestor: Option<(Seq<char>, Result<Seq<char>, Seq<char>>)>,
) -> Result<Seq<char>, Seq<char>> {
    let q = requested_path(base, path);
    match canonical_base {
        Err(e) => Err("Invalid workdir '"@ + base + "': "@ + e),
        Ok(b) => if requested_exists {
            match canonical_requested {
                Err(e) => Err("Cannot canonicalize path '"@ + path + "': "@ + e),
                Ok(c) => if path_prefix(c, b) {
                    Ok(c)
                } else {
                    Err(outside_message(path))
                },
            }
        } else {
            match parent_path(q) {
                None => Err("Invalid path '"@ + path + "'"@),
                Some(_) => if parent_exists {
                    match canonical_parent {
                        Err(e) => Err("Cannot canonicalize parent of '"@ + path + "': "@ + e),
                        Ok(c) => if path_prefix(c, b) {
                            Ok(q)
                        } else {
                            Err(outside_message(path))
                        },
                    }
                } else if has_parent_component(q) {
                    Err(outside_message(path))
                } else {
                    match ancestor {
                        None => Ok(q),
                        Some((_, Err(e))) => Err("Cannot verify path: "@ + e),
                        Some((_, Ok(c))) => if path_prefix(c, b) {
                            Ok(q)
                        } else {
                            Err(outside_message(path))
                        },
                    }
                },
            }
        },
    }
}

/// The ancestor a new path was judged by is reached from the requested
/// path by taking parents, beyond the parent itself.
pub open spec fn is_far_ancestor(
    base: Seq<char>,
    path: Seq<char>,
    ancestor: Option<(Seq<char>, Result<Seq<char>, Seq<char>>)>,
) -> bool {
    ancestor matches Some((a, _)) ==> exists|k: nat|
        k >= 2 && #[trigger] ancestor_at(requested_path(base, path), k) == Some(a)
}

fn err2(a: &str, b: &str) -> (res: AgentForgeError)
    ensures
        is_tool_error(res, a@ + b@),
{
    let mut m = chars_of(a);
    append_str(&mut m, b);
    tool_execution_error(&m)
}

fn err3(a: &str, b: &str, c: &str) -> (res: AgentForgeError)
    ensures
        is_tool_error(res, a@ + b@ + c@),
{
    let mut m = chars_of(a);
    append_str(&mut m, b);
    append_str(&mut m, c);
    tool_execution_error(&m)
}

fn err4(a: &str, b: &str, c: &str, d: &str) -> (res: AgentForgeError)
    ensures
        is_tool_error(res, a@ + b@ + c@ + d@),
{
    let mut m = chars_of(a);
    append_str(&mut m, b);
    append_str(&mut m, c);
    append_str(&mut m, d);
    tool_execution_error(&m)
}

pub open spec fn opt_res_view(a: Option<(String, Result<String, String>)>) -> Option<
    (Seq<char>, Result<Seq<char>, Seq<char>>),
> {
    match a {
        Some((p, r)) => Some((p@, res_view(r))),
        None => None,
    }
}

/// The decision of `resolve_path_allow_create`, given what the filesystem
/// answered (see `create_outcome`).
pub fn resolve_create_with(
    base: &str,
    path: &str,
    canonical_base: Result<String, String>,
    requested_exists: bool,
    canonical_requested: Result<String, String>,
    parent_exists: bool,
    canonical_parent: Result<String, String>,
    ancestor: Option<(String, Result<String, String>)>,
) -> (res: Result<String, AgentForgeError>)
    ensures
        agrees(
            res,
            create_outcome(
                base@,
                path@,
                res_view(canonical_base),
                requested_exists,
                res_view(canonical_requested),
                parent_exists,
                res_view(canonical_parent),
                opt_res_view(ancestor),
            ),
        ),
{
    let req = requested(base, path);
    let cb = match canonical_base {
        Ok(c) => c,
        Err(e) => {
            return Err(err4("Invalid workdir '", base, "': ", e.as_str()));
        },
    };
    if requested_exists {
        return match canonical_requested {
            Err(e) => Err(err4("Cannot canonicalize path '", path, "': ", e.as_str())),
            Ok(c) => if path_starts_with(c.as_str(), cb.as_str()) {
                Ok(c)
            } else {
                Err(outside_error(path))
            },
        };
    }
    match path_parent(req.as_str()) {
        None => {
            return Err(err3("Invalid path '", path, "'"));
        },
        Some(_) => {},
    }
    if parent_exists {
        return match canonical_parent {
            Err(e) => Err(err4("Cannot canonicalize parent of '", path, "': ", e.as_str())),
            Ok(c) => if path_starts_with(c.as_str(), cb.as_str()) {
                Ok(req)
            } else {
                Err(outside_error(path))
            },
        };
    }
    if parent_component(&chars_of(req.as_str())) {
        return Err(outside_error(path));
    }
    match ancestor {
        None => Ok(req),
        Some((_, Err(e))) => Err(err2("Cannot verify path: ", e.as_str())),
        Some((_, Ok(c))) => if path_starts_with(c.as_str(), cb.as_str()) {
            Ok(req)
        } else {
            Err(outside_error(path))
        },
    }
}

/// A question put to the filesystem: the canonical form of a path, or
/// whether it exists.
#[derive(Debug)]
pub enum DiskQuestion {
    CanonicalForm(String),
    Exists(String),
}

/// The filesystem's answer to a `DiskQuestion`.
#[derive(Debug)]
pub enum DiskAnswer {
    CanonicalForm(Result<String, String>),
    Exists(bool),
}

/// The next move while a creatable path is resolved: a question to put to
/// the filesystem, or the tool's answer.
#[derive(Debug)]
pub enum CreateStep {
    Ask(DiskQuestion),
    Done(Result<String, AgentForgeError>),
}

/// A question as the specification speaks of it.
pub enum QuestionView {
    CanonicalForm(Seq<char>),
    Exists(Seq<char>),
}

pub open spec fn question_view(q: DiskQuestion) -> QuestionView {
    match q {
        DiskQuestion::CanonicalForm(p) => QuestionView::CanonicalForm(p@),
        DiskQuestion::Exists(p) => QuestionView::Exists(p@),
    }
}

/// What the filesystem was found to hold, as `create_outcome` takes it.
pub struct CreateFacts {
    pub canonical_base: Result<Seq<char>, Seq<char>>,
    pub requested_exists: bool,
    pub canonical_requested: Result<Seq<char>, Seq<char>>,
    pub parent_exists: bool,
    pub canonical_parent: Result<Seq<char>, Seq<char>>,
    pub ancestor: Option<(Seq<char>, Result<Seq<char>, Seq<char>>)>,
}

/// Where a resolution stands after some answers: the next question, or the
/// facts it settled on.
pub enum CreateRun {
    Ask(QuestionView),
    Done(CreateFacts),
}

/// An answer read as a canonical form (an answer of the other kind reads as
/// a failure with no message).
pub open spec fn canonical_answer(a: DiskAnswer) -> Result<Seq<char>, Seq<char>> {
    match a {
        DiskAnswer::CanonicalForm(r) => res_view(r),
        DiskAnswer::Exists(_) => Err(Seq::empty()),
    }
}

/// An answer read as whether a path exists (an answer of the other kind
/// reads as no).
pub open spec fn exists_answer(a: DiskAnswer) -> bool {
    match a {
        DiskAnswer::Exists(b) => b,
        DiskAnswer::CanonicalForm(_) => false,
    }
}

/// The facts when only the working directory's canonical form counts.
pub open spec fn base_facts(cb: Result<Seq<char>, Seq<char>>) -> CreateFacts {
    CreateFacts {
        canonical_base: cb,
        requested_exists: false,
        canonical_requested: Err(Seq::empty()),
        parent_exists: false,
        canonical_parent: Err(Seq::empty()),
        ancestor: None,
    }
}

pub open spec fn facts_outcome(base: Seq<char>, path: Seq<char>, f: CreateFacts) -> Result<
    Seq<char>,
    Seq<char>,
> {
    create_outcome(
        base,
        path,
        f.canonical_base,
        f.requested_exists,
        f.canonical_requested,
        f.parent_exists,
        f.canonical_parent,
        f.ancestor,
    )
}

/// The walk up from `cur`, answer `i` on: each parent is asked whether it
/// exists; the first that does is asked its canonical form; a path with no
/// parent ends the walk with nothing found.
pub open spec fn ancestor_walk(
    cb: Result<Seq<char>, Seq<char>>,
    cur: Seq<char>,
    answers: Seq<DiskAnswer>,
    i: int,
) -> CreateRun
    decreases answers.len() - i,
{
    match parent_path(cur) {
        None => CreateRun::Done(base_facts(cb)),
        Some(p) => if i >= answers.len() {
            CreateRun::Ask(QuestionView::Exists(p))
        } else if exists_answer(answers[i]) {
            if i + 1 >= answers.len() {
                CreateRun::Ask(QuestionView::CanonicalForm(p))
            } else {
                CreateRun::Done(
                    CreateFacts {
                        ancestor: Some((p, canonical_answer(answers[i + 1]))),
                        ..base_facts(cb)
                    },
                )
            }
        } else {
            ancestor_walk(cb, p, answers, i + 1)
        },
    }
}

/// The questions `resolve_path_allow_create` puts to the filesystem, each
/// fixed by the answers before it: the canonical form of the working
/// directory; whether the requested path exists, and if so its canonical
/// form; else its parent: whether it exists and its canonical form; else,
/// unless the path has a `..` component, the walk up its ancestors.
pub open spec fn create_run(base: Seq<char>, path: Seq<char>, answers: Seq<DiskAnswer>) -> CreateRun {
    let q = requested_path(base, path);
    if answers.len() == 0 {
        CreateRun::Ask(QuestionView::CanonicalForm(base))
    } else {
        let cb = canonical_answer(answers[0]);
        if cb is Err {
            CreateRun::Done(base_facts(cb))
        } else if answers.len() == 1 {
            CreateRun::Ask(QuestionView::Exists(q))
        } else if exists_answer(answers[1]) {
            if answers.len() == 2 {
                CreateRun::Ask(QuestionView::CanonicalForm(q))
            } else {
                CreateRun::Done(
                    CreateFacts {
                        requested_exists: true,
                        canonical_requested: canonical_answer(answers[2]),
                        ..base_facts(cb)
                    },
                )
            }
        } else {
            match parent_path(q) {
                None => CreateRun::Done(base_facts(cb)),
                Some(par) => if answers.len() == 2 {
                    CreateRun::Ask(QuestionView::Exists(par))
                } else if exists_answer(answers[2]) {
                    if answers.len() == 3 {
                        CreateRun::Ask(QuestionView::CanonicalForm(par))
                    } else {
                        CreateRun::Done(
                            CreateFacts {
                                parent_exists: true,
                                canonical_parent: canonical_answer(answers[3]),
                                ..base_facts(cb)
                            },
                        )
                    }
                } else if has_parent_component(q) {
                    CreateRun::Done(base_facts(cb))
                } else {
                    ancestor_walk(cb, par, answers, 3)
                },
            }
        }
    }
}

fn canonical_of(a: &DiskAnswer) -> (res: Result<String, String>)
    ensures
        res_view(res) == canonical_answer(*a),
{
    match a {
        DiskAnswer::CanonicalForm(Ok(c)) => Ok(string_of(&chars_of(c.as_str()))),
        DiskAnswer::CanonicalForm(Err(e)) => Err(string_of(&chars_of(e.as_str()))),
        DiskAnswer::Exists(_) => Err(String::new()),
    }
}

fn exists_of(a: &DiskAnswer) -> (res: bool)
    ensures
        res == exists_answer(*a),
{
    match a {
        DiskAnswer::Exists(b) => *b,
        DiskAnswer::CanonicalForm(_) => false,
    }
}

/// One step of `resolve_path_allow_create`: given the answers so far, the
/// next question to ask, or, once the answers settle it, the tool's answer
/// (`create_outcome` of the facts found). Questions stop once there are
/// more answers than the requested path has characters, and a few more.
pub fn create_step(base: &str, path: &str, answers: &Vec<DiskAnswer>) -> (res: CreateStep)
    ensures
        match create_run(base@, path@, answers@) {
            CreateRun::Ask(qv) => res matches CreateStep::Ask(dq) && question_view(dq) == qv
                && answers@.len() <= requested_path(base@, path@).len() + 4,
            CreateRun::Done(f) => res matches CreateStep::Done(r) && agrees(
                r,
                facts_outcome(base@, path@, f),
            ) && is_far_ancestor(base@, path@, f.ancestor),
        },
{
    let q = requested(base, path);
    let n = answers.len();
    if n == 0 {
        return CreateStep::Ask(DiskQuestion::CanonicalForm(string_of(&chars_of(base))));
    }
    let cb = canonical_of(&answers[0]);
    let ghost gcb = res_view(cb);
    if cb.is_err() {
        assert(is_far_ancestor(base@, path@, None));
        return CreateStep::Done(
            resolve_create_with(base, path, cb, false, Err(String::new()), false, Err(String::new()), None),
        );
    }
    if n == 1 {
        return CreateStep::Ask(DiskQuestion::Exists(q));
    }
    if exists_of(&answers[1]) {
        if n == 2 {
            return CreateStep::Ask(DiskQuestion::CanonicalForm(q));
        }
        let cr = canonical_of(&answers[2]);
        assert(is_far_ancestor(base@, path@, None));
        return CreateStep::Done(
            resolve_create_with(base, path, cb, true, cr, false, Err(String::new()), None),
        );
    }
    let par = match path_parent(q.as_str()) {
        Some(p) => p,
        None => {
            assert(is_far_ancestor(base@, path@, None));
            return CreateStep::Done(
                resolve_create_with(base, path, cb, false, Err(String::new()), false, Err(String::new()), None),
            );
        },
    };
    if n == 2 {
        return CreateStep::Ask(DiskQuestion::Exists(par));
    }
    if exists_of(&answers[2]) {
        if n == 3 {
            return CreateStep::Ask(DiskQuestion::CanonicalForm(par));
        }
        let cp = canonical_of(&answers[3]);
        assert(is_far_ancestor(base@, path@, None));
        return CreateStep::Done(
            resolve_create_with(base, path, cb, false, Err(String::new()), true, cp, None),
        );
    }
    if parent_component(&chars_of(q.as_str())) {
        assert(is_far_ancestor(base@, path@, None));
        return CreateStep::Done(
            resolve_create_with(base, path, cb, false, Err(String::new()), false, Err(String::new()), None),
        );
    }
    let mut cur = par;
    let mut i: usize = 3;
    let ghost mut k: nat = 1;
    assert(ancestor_at(q@, 0) == Some(q@));
    assert(ancestor_at(q@, 1) == Some(cur@));
    loop
        invariant
            3 <= i <= n,
            n == answers@.len(),
            k >= 1,
            q@ == requested_path(base@, path@),
            gcb == res_view(cb),
            gcb is Ok,
            ancestor_at(q@, k) == Some(cur@),
            cur@.len() + i <= q@.len() + 3,
            create_run(base@, path@, answers@) == ancestor_walk(gcb, cur@, answers@, i as int),
        decreases n - i,
    {
        match path_parent(cur.as_str()) {
            None => {
                assert(is_far_ancestor(base@, path@, None));
                return CreateStep::Done(
                    resolve_create_with(base, path, cb, false, Err(String::new()), false, Err(String::new()), None),
                );
            },
            Some(p) => {
                assert(ancestor_at(q@, k + 1) == Some(p@));
                if i >= n {
                    return CreateStep::Ask(DiskQuestion::Exists(p));
                }
                if exists_of(&answers[i]) {
                    if i + 1 >= n {
                        return CreateStep::Ask(DiskQuestion::CanonicalForm(p));
                    }
                    let c = canonical_of(&answers[i + 1]);
                    let ghost ganc = Some((p@, res_view(c)));
                    assert(is_far_ancestor(base@, path@, ganc)) by {
                        assert(ancestor_at(requested_path(base@, path@), k + 1) == Some(p@));
                    }
                    return CreateStep::Done(
                        resolve_create_with(base, path, cb, false, Err(String::new()), false, Err(String::new()), Some((p, c))),
                    );
                }
                cur = p;
                i = i + 1;
                proof {
                    k = k + 1;
                }
            },
        }
    }
}

/// Whether `res` is the answer of a run of `create_step` over `answers`.
pub open spec fn settled_by(
    base: Seq<char>,
    path: Seq<char>,
    answers: Seq<DiskAnswer>,
    res: Result<String, AgentForgeError>,
) -> bool {
    create_run(base, path, answers) matches CreateRun::Done(f) && agrees(res, facts_outcome(base, path, f))
        && is_far_ancestor(base, path, f.ancestor)
}

/// Resolves a path that a tool may create: an existing path must lie inside
/// `base`; for a new path, its parent (or, when that is missing too, the
/// nearest existing ancestor, with no `..` component in the path) must lie
/// inside `base`, and the path itself is answered as it was asked for.
/// The filesystem is asked what `create_step` asks, and the answer is the
/// one `create_step` settles on for its answers (`create_outcome` of what
/// was found).
pub fn resolve_path_allow_create(base: &str, path: &str) -> (res: Result<String, AgentForgeError>)
    ensures
        exists|answers: Seq<DiskAnswer>| #[trigger] settled_by(base@, path@, answers, res),
        exists|
            cb: Result<Seq<char>, Seq<char>>,
            ex: bool,
            cr: Result<Seq<char>, Seq<char>>,
            pex: bool,
            cp: Result<Seq<char>, Seq<char>>,
            anc: Option<(Seq<char>, Result<Seq<char>, Seq<char>>)>,
        |
            #[trigger] agrees(res, create_outcome(base@, path@, cb, ex, cr, pex, cp, anc))
                && is_far_ancestor(base@, path@, anc),
        res matches Err(e) ==> e is ToolExecution,
{
    let q = requested(base, path);
    let mut answers: Vec<DiskAnswer> = Vec::new();
    loop
        invariant
            q@ == requested_path(base@, path@),
            answers@.len() <= q@.len() + 5,
        decreases q@.len() + 5 - answers@.len(),
    {
        match create_step(base, path, &answers) {
            CreateStep::Done(r) => {
                proof {
                    let f = create_run(base@, path@, answers@)->Done_0;
                    assert(settled_by(base@, path@, answers@, r));
                    assert(agrees(r, create_outcome(base@, path@, f.canonical_base, f.requested_exists, f.canonical_requested, f.parent_exists, f.canonical_parent, f.ancestor)));
                }
                return r;
            },
            CreateStep::Ask(question) => {
                let answer = match question {
                    DiskQuestion::CanonicalForm(p) => DiskAnswer::CanonicalForm(canonicalize(p.as_str())),
                    DiskQuestion::Exists(p) => DiskAnswer::Exists(path_exists(p.as_str())),
                };
                answers.push(answer);
            },
        }
    }
}

/// An accepted path stays inside the working directory: it is an existing
/// path whose canonical form lies inside the canonical working directory,
/// or a new path, named as it was asked for, whose parent's canonical form
/// lies inside it, or which has no `..` component and whose nearest
/// existing ancestor (when there is one) lies inside it.
pub proof fn lemma_created_path_inside(
    base: Seq<char>,
    path: Seq<char>,
    cb: Result<Seq<char>, Seq<char>>,
    ex: bool,
    cr: Result<Seq<char>, Seq<char>>,
    pex: bool,
    cp: Result<Seq<char>, Seq<char>>,
    anc: Option<(Seq<char>, Result<Seq<char>, Seq<char>>)>,
    r: Seq<char>,
)
    requires
        create_outcome(base, path, cb, ex, cr, pex, cp, anc) == Ok::<Seq<char>, Seq<char>>(r),
    ensures
        cb is Ok,
        ex ==> cr == Ok::<Seq<char>, Seq<char>>(r) && path_prefix(r, cb->Ok_0),
        !ex ==> r == requested_path(base, path),
        !ex && pex ==> cp is Ok && path_prefix(cp->Ok_0, cb->Ok_0),
        !ex && !pex ==> !has_parent_component(r) && (anc matches Some((_, ca)) ==> ca is Ok
            && path_prefix(ca->Ok_0, cb->Ok_0)),
{
}

/// The text of argument `key`, or an `InvalidRequest` error with `message`
/// when it is missing or not a string.
pub fn required_text(args: &Json, key: &str, message: &str) -> (res: Result<String, AgentForgeError>)
    ensures
        match field_text(*args, key@) {
            Some(t) => res matches Ok(r) && r@ == t,
            None => res matches Err(e) && is_invalid_request(e, message@),
        },
{
    match get_text(args, key) {
        Some(t) => Ok(string_of(&chars_of(t))),
        None => Err(AgentForgeError::InvalidRequest(string_of(&chars_of(message)))),
    }
}

/// The argument of `list_directory` and `create_directory`: `path`, which
/// must be a string.
pub fn parse_path_args(args: &Json) -> (res: Result<String, AgentForgeError>)
    ensures
        match field_text(*args, "path"@) {
            Some(p) => res matches Ok(r) && r@ == p,
            None => res matches Err(e) && is_invalid_request(e, "path must be a string"@),
        },
{
    required_text(args, "path", "path must be a string")
}

} // verus!
