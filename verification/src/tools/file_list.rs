//! The `list_directory` tool: its listing.
use vstd::prelude::*;
use crate::client::owned;
use crate::tools::schema::{declares, lemma_declares, object_schema, parameter, parameter_shape};
use crate::json::Json;
use crate::ordmap::keyed_view;

use crate::error::AgentForgeError;
use crate::text::{append_str, chars_of, join, string_of};
use crate::tools::file_search::string_views;
use crate::tools::{agrees, resolve_outcome, resolve_path};

verus! {

pub struct FileListTool {
    workdir: Option<String>,
}

impl FileListTool {
    pub closed spec fn workdir_view(&self) -> Option<Seq<char>> {
        match self.workdir {
            Some(w) => Some(w@),
            None => None,
        }
    }

    pub fn new() -> (res: Self)
        ensures
            res.workdir_view() is None,
    {
        FileListTool { workdir: None }
    }

    pub fn with_workdir(self, workdir: String) -> (res: Self)
        ensures
            res.workdir_view() == Some(workdir@),
    {
        FileListTool { workdir: Some(workdir) }
    }

    /// Where the tool acts for `path`: the path itself without a working
    /// directory, else the path resolved inside it.
    pub fn resolve(&self, path: &str) -> (res: Result<String, AgentForgeError>)
        ensures
            self.workdir_view() is None ==> (res matches Ok(r) && r@ == path@),
            self.workdir_view() matches Some(w) ==> exists|
                cb: Result<Seq<char>, Seq<char>>,
                cr: Result<Seq<char>, Seq<char>>,
            | #[trigger] agrees(res, resolve_outcome(w, path@, cb, cr)),
            res matches Err(e) ==> e is ToolExecution,
    {
        match &self.workdir {
            Some(base) => {
                let res = resolve_path(base.as_str(), path);
                proof {
                    let (cb, cr) = choose|
                        cb: Result<Seq<char>, Seq<char>>,
                        cr: Result<Seq<char>, Seq<char>>,
                    | #[trigger] agrees(res, resolve_outcome(base@, path@, cb, cr));
                    assert(agrees(res, resolve_outcome(base@, path@, cb, cr)));
                    assert(self.workdir_view() == Some(base@));
                    assert(self.workdir_view()->Some_0 == base@);
                }
                res
            },
            None => Ok(string_of(&chars_of(path))),
        }
    }

    pub fn name(&self) -> (res: &'static str)
        ensures
            res@ == "list_directory"@,
    {
        "list_directory"
    }
}

/// What a directory entry is.
pub enum EntryKind {
    Directory,
    File,
    Other,
}

pub open spec fn kind_tag(k: EntryKind) -> Seq<char> {
    match k {
        EntryKind::Directory => "[DIR]"@,
        EntryKind::File => "[FILE]"@,
        EntryKind::Other => "[UNKNOWN]"@,
    }
}

/// One line of a listing: the entry's kind, then its name.
pub fn entry_line(kind: EntryKind, name: &str) -> (res: String)
    ensures
        res@ == kind_tag(kind) + " "@ + name@,
{
    let mut out = match kind {
        EntryKind::Directory => chars_of("[DIR]"),
        EntryKind::File => chars_of("[FILE]"),
        EntryKind::Other => chars_of("[UNKNOWN]"),
    };
    append_str(&mut out, " ");
    append_str(&mut out, name);
    string_of(&out)
}

/// The listing: one line per entry.
pub fn listing(entries: &Vec<String>) -> (res: String)
    ensures
        res@ == join(string_views(entries@), "\n"@),
{
    let mut ls: Vec<Vec<char>> = Vec::new();
    let mut i: usize = 0;
    while i < entries.len()
        invariant
            0 <= i <= entries.len(),
            crate::text::views(ls@) == string_views(entries@).take(i as int),
        decreases entries.len() - i,
    {
        let ghost before = ls@;
        ls.push(chars_of(entries[i].as_str()));
        assert(crate::text::views(ls@) =~= crate::text::views(before).push(entries@[i as int]@));
        assert(string_views(entries@).take(i + 1) =~= string_views(entries@).take(i as int).push(
            entries@[i as int]@,
        ));
        i = i + 1;
    }
    assert(string_views(entries@).take(entries.len() as int) =~= string_views(entries@));
    assert(ls@.map_values(|l: Vec<char>| l@) =~= crate::text::views(ls@));
    string_of(&crate::text::join_lines(&ls))
}

impl FileListTool {
    /// What the tool is for, as the model is told.
    pub fn description(&self) -> (res: &'static str)
        ensures
            res@ == "List contents of a directory. Shows files and subdirectories."@,
    {
        "List contents of a directory. Shows files and subdirectories."
    }

    /// The arguments the tool takes.
    pub fn parameters_schema(&self) -> (res: Json)
        ensures
            declares(
                res,
                seq![
                    ("path"@, Some("string"@), "Path to the directory to list"@),
                ],
                seq!["path"@],
            ),
    {
        let k0 = owned("path");
        let p0 = parameter(Some("string"), "Path to the directory to list");
        let ghost g0 = (k0@, p0);
        let props = vec![(k0, p0)];
        let ghost fields = keyed_view(props@);
        let required = vec!["path"];
        let res = object_schema(props, &required);
        proof {
            reveal_strlit("path");
            assert("path"@.len() == 4);
            let params = seq![("path"@, Some("string"@), "Path to the directory to list"@)];
            assert(fields =~= seq![g0]);
            assert(required@.map_values(|s: &str| s@) =~= seq!["path"@]);
            assert forall|i: int| 0 <= i < params.len() implies (#[trigger] fields[i]).0 == params[i].0
                && parameter_shape(fields[i].1, params[i].1, params[i].2) by {
                if i == 0 {}
            }
            lemma_declares(res, fields, params, seq!["path"@]);
        }
        res
    }
}

} // verus!
