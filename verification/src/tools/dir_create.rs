//! The `create_directory` tool: its reports.
use vstd::prelude::*;
use crate::client::owned;
use crate::tools::schema::{declares, lemma_declares, object_schema, parameter, parameter_shape};
use crate::json::Json;
use crate::ordmap::keyed_view;

use crate::error::AgentForgeError;
use crate::error::error_detail;
use crate::text::{append_str, chars_of, string_of};
use crate::tools::{
    agrees, create_outcome, is_far_ancestor, is_tool_error, resolve_path_allow_create, settled_by,
    DiskAnswer,
};

verus! {

pub struct CreateDirectoryTool {
    workdir: Option<String>,
}

impl CreateDirectoryTool {
    pub closed spec fn workdir_view(&self) -> Option<Seq<char>> {
        match self.workdir {
            Some(w) => Some(w@),
            None => None,
        }
    }

    pub fn new() -> (res: Self)
        ensures
            res.workdir_view() is None,
    {
        CreateDirectoryTool { workdir: None }
    }

    pub fn with_workdir(self, workdir: String) -> (res: Self)
        ensures
            res.workdir_view() == Some(workdir@),
    {
        CreateDirectoryTool { workdir: Some(workdir) }
    }

    /// Where the tool acts for `path`: the path itself without a working
    /// directory, else the path resolved inside it.
    pub fn resolve(&self, path: &str) -> (res: Result<String, AgentForgeError>)
        ensures
            self.workdir_view() is None ==> (res matches Ok(r) && r@ == path@),
            self.workdir_view() matches Some(w) ==> exists|
                cb: Result<Seq<char>, Seq<char>>,
                ex: bool,
                cr: Result<Seq<char>, Seq<char>>,
                pex: bool,
                cp: Result<Seq<char>, Seq<char>>,
                anc: Option<(Seq<char>, Result<Seq<char>, Seq<char>>)>,
            |
                #[trigger] agrees(res, create_outcome(w, path@, cb, ex, cr, pex, cp, anc))
                    && is_far_ancestor(w, path@, anc),
            self.workdir_view() matches Some(w) ==> exists|answers: Seq<DiskAnswer>|
                #[trigger] settled_by(w, path@, answers, res),
            res matches Err(e) ==> e is ToolExecution,
    {
        match &self.workdir {
            Some(base) => {
                let res = resolve_path_allow_create(base.as_str(), path);
                proof {
                    let (cb, ex, cr, pex, cp, anc) = choose|
                        cb: Result<Seq<char>, Seq<char>>,
                        ex: bool,
                        cr: Result<Seq<char>, Seq<char>>,
                        pex: bool,
                        cp: Result<Seq<char>, Seq<char>>,
                        anc: Option<(Seq<char>, Result<Seq<char>, Seq<char>>)>,
                    |
                        #[trigger] agrees(res, create_outcome(base@, path@, cb, ex, cr, pex, cp, anc))
                            && is_far_ancestor(base@, path@, anc);
                    assert(agrees(res, create_outcome(base@, path@, cb, ex, cr, pex, cp, anc)));
                    assert(self.workdir_view() == Some(base@));
                    assert(self.workdir_view()->Some_0 == base@);
                    let answers = choose|answers: Seq<DiskAnswer>| #[trigger] settled_by(base@, path@, answers, res);
                    assert(settled_by(base@, path@, answers, res));
                }
                res
            },
            None => Ok(string_of(&chars_of(path))),
        }
    }

    pub fn name(&self) -> (res: &'static str)
        ensures
            res@ == "create_directory"@,
    {
        "create_directory"
    }
}

/// The answer when the directory is already there.
pub fn exists_report(path: &str) -> (res: String)
    ensures
        res@ == "Directory already exists: "@ + path@,
{
    let mut out = chars_of("Directory already exists: ");
    append_str(&mut out, path);
    string_of(&out)
}

/// The error when the path names something that is not a directory.
pub fn not_a_directory(path: &str) -> (res: AgentForgeError)
    ensures
        is_tool_error(res, "Path '"@ + path@ + "' exists but is not a directory"@),
{
    let mut out = chars_of("Path '");
    append_str(&mut out, path);
    append_str(&mut out, "' exists but is not a directory");
    AgentForgeError::ToolExecution(string_of(&out))
}

/// The error when the directory could not be created, with the reason.
pub fn create_failed(path: &str, reason: &str) -> (res: AgentForgeError)
    ensures
        is_tool_error(res, "Failed to create directory '"@ + path@ + "': "@ + reason@),
{
    let mut out = chars_of("Failed to create directory '");
    append_str(&mut out, path);
    append_str(&mut out, "': ");
    append_str(&mut out, reason);
    AgentForgeError::ToolExecution(string_of(&out))
}

/// The answer when the directory was created.
pub fn created_report(path: &str) -> (res: String)
    ensures
        res@ == "Created directory: "@ + path@,
{
    let mut out = chars_of("Created directory: ");
    append_str(&mut out, path);
    string_of(&out)
}

/// What `create_directory` does with a path, given whether it exists and
/// whether it is a directory: an existing directory is reported as such,
/// anything else that exists is refused, and a missing path is to be
/// created (`Ok(None)`).
pub fn directory_plan(path: &str, exists: bool, is_dir: bool) -> (res: Result<Option<String>, AgentForgeError>)
    ensures
        exists && is_dir ==> (res matches Ok(Some(r)) && r@ == "Directory already exists: "@ + path@),
        exists && !is_dir ==> (res matches Err(e) && is_tool_error(
            e,
            "Path '"@ + path@ + "' exists but is not a directory"@,
        )),
        !exists ==> res matches Ok(None),
{
    if exists {
        if is_dir {
            return Ok(Some(exists_report(path)));
        }
        return Err(not_a_directory(path));
    }
    Ok(None)
}

impl CreateDirectoryTool {
    /// What the tool is for, as the model is told.
    pub fn description(&self) -> (res: &'static str)
        ensures
            res@ == "Create a directory and any missing parent directories. Returns an error if the directory already exists as a file."@,
    {
        "Create a directory and any missing parent directories. Returns an error if the directory already exists as a file."
    }

    /// The arguments the tool takes.
    pub fn parameters_schema(&self) -> (res: Json)
        ensures
            declares(
                res,
                seq![
                    ("path"@, Some("string"@), "Path of the directory to create"@),
                ],
                seq!["path"@],
            ),
    {
        let k0 = owned("path");
        let p0 = parameter(Some("string"), "Path of the directory to create");
        let ghost g0 = (k0@, p0);
        let props = vec![(k0, p0)];
        let ghost fields = keyed_view(props@);
        let required = vec!["path"];
        let res = object_schema(props, &required);
        proof {
            reveal_strlit("path");
            assert("path"@.len() == 4);
            let params = seq![("path"@, Some("string"@), "Path of the directory to create"@)];
            assert(fields =~= seq![g0]);
            assert(required@.map_values(|s: &str| s@) =~= seq!["path"@]);
            assert forall|i: int| 0 <= i < params.len() implies (#[trigger] fields[i]).0 == params[i].0
                && parameter_shape(fields[i].1, params[i].1, params[i].2) by {
                if i == 0 {}
            }
            lemma_declares(res, fields, params, seq!["path"@]);
        }
        res
    }
}

} // verus!
