//! The `write_file` tool: its arguments and its report.
use vstd::prelude::*;
use crate::client::owned;
use crate::tools::schema::{declares, lemma_declares, object_schema, parameter, parameter_shape};
use crate::ordmap::keyed_view;
use vstd::string::StringSliceAdditionalSpecFns;

use crate::error::AgentForgeError;
use crate::json::{field_bool, field_text, get_bool, Json};
use crate::text::{append_decimal, append_str, chars_of, decimal, string_of};
use crate::error::error_detail;
use crate::tools::{
    agrees, create_outcome, is_far_ancestor, is_invalid_request, required_text,
    resolve_path_allow_create, settled_by, DiskAnswer,
};

verus! {

pub struct FileWriteTool {
    workdir: Option<String>,
}

impl FileWriteTool {
    pub closed spec fn workdir_view(&self) -> Option<Seq<char>> {
        match self.workdir {
            Some(w) => Some(w@),
            None => None,
        }
    }

    pub fn new() -> (res: Self)
        ensures
            res.workdir_view() is None,
    {
        FileWriteTool { workdir: None }
    }

    pub fn with_workdir(self, workdir: String) -> (res: Self)
        ensures
            res.workdir_view() == Some(workdir@),
    {
        FileWriteTool { workdir: Some(workdir) }
    }

    /// Where the tool acts for `path`: the path itself without a working
    /// directory, else the path resolved inside it.
    pub fn resolve(&self, path: &str) -> (res: Result<String, AgentForgeError>)
        ensures
            self.workdir_view() is None ==> (res matches Ok(r) && r@ == path@),
            self.workdir_view() matches Some(w) ==> exists|
                cb: Result<Seq<char>, Seq<char>>,
                ex: bool,
                cr: Result<Seq<char>, Seq<char>>,
                pex: bool,
                cp: Result<Seq<char>, Seq<char>>,
                anc: Option<(Seq<char>, Result<Seq<char>, Seq<char>>)>,
            |
                #[trigger] agrees(res, create_outcome(w, path@, cb, ex, cr, pex, cp, anc))
                    && is_far_ancestor(w, path@, anc),
            self.workdir_view() matches Some(w) ==> exists|answers: Seq<DiskAnswer>|
                #[trigger] settled_by(w, path@, answers, res),
            res matches Err(e) ==> e is ToolExecution,
    {
        match &self.workdir {
            Some(base) => {
                let res = resolve_path_allow_create(base.as_str(), path);
                proof {
                    let (cb, ex, cr, pex, cp, anc) = choose|
                        cb: Result<Seq<char>, Seq<char>>,
                        ex: bool,
                        cr: Result<Seq<char>, Seq<char>>,
                        pex: bool,
                        cp: Result<Seq<char>, Seq<char>>,
                        anc: Option<(Seq<char>, Result<Seq<char>, Seq<char>>)>,
                    |
                        #[trigger] agrees(res, create_outcome(base@, path@, cb, ex, cr, pex, cp, anc))
                            && is_far_ancestor(base@, path@, anc);
                    assert(agrees(res, create_outcome(base@, path@, cb, ex, cr, pex, cp, anc)));
                    assert(self.workdir_view() == Some(base@));
                    assert(self.workdir_view()->Some_0 == base@);
                    let answers = choose|answers: Seq<DiskAnswer>| #[trigger] settled_by(base@, path@, answers, res);
                    assert(settled_by(base@, path@, answers, res));
                }
                res
            },
            None => Ok(string_of(&chars_of(path))),
        }
    }

    pub fn name(&self) -> (res: &'static str)
        ensures
            res@ == "write_file"@,
    {
        "write_file"
    }
}

/// What a `write_file` call asks for.
#[derive(Debug)]
pub struct WriteRequest {
    pub path: String,
    pub content: String,
    pub append: bool,
}

/// The arguments of `write_file`: `path` and `content` (both required) and
/// `append` (false by default).
pub fn parse_write_args(args: &Json) -> (res: Result<WriteRequest, AgentForgeError>)
    ensures
        match field_text(*args, "path"@) {
            None => res matches Err(e) && is_invalid_request(e, "path must be a string"@),
            Some(p) => match field_text(*args, "content"@) {
                None => res matches Err(e) && is_invalid_request(e, "content must be a string"@),
                Some(c) => res matches Ok(r) && r.path@ == p && r.content@ == c && r.append == (
                field_bool(*args, "append"@) == Some(true)),
            },
        },
{
    let path = required_text(args, "path", "path must be a string")?;
    let content = required_text(args, "content", "content must be a string")?;
    let append = match get_bool(args, "append") {
        Some(b) => b,
        None => false,
    };
    Ok(WriteRequest { path, content, append })
}

/// The report of a write: the number of bytes written (or appended) and
/// the path as it was asked for.
pub open spec fn write_report(path: Seq<char>, byte_len: nat, append: bool) -> Seq<char> {
    if append {
        "Appended "@ + decimal(byte_len) + " bytes to "@ + path
    } else {
        "Successfully wrote "@ + decimal(byte_len) + " bytes to "@ + path
    }
}

/// The report of a write of `content` to `path`.
pub fn write_summary(path: &str, content: &str, append: bool) -> (res: String)
    ensures
        res@ == write_report(path@, (content.spec_bytes().len() as usize) as nat, append),
{
    let n = content.len();
    let mut out = if append {
        chars_of("Appended ")
    } else {
        chars_of("Successfully wrote ")
    };
    append_decimal(&mut out, n as u64);
    append_str(&mut out, " bytes to ");
    append_str(&mut out, path);
    string_of(&out)
}

impl FileWriteTool {
    /// What the tool is for, as the model is told.
    pub fn description(&self) -> (res: &'static str)
        ensures
            res@ == "Write content to a file. Creates the file if it doesn't exist. Set 'append' to true to add content to the end of an existing file instead of overwriting."@,
    {
        "Write content to a file. Creates the file if it doesn't exist. Set 'append' to true to add content to the end of an existing file instead of overwriting."
    }

    /// The arguments the tool takes.
    pub fn parameters_schema(&self) -> (res: Json)
        ensures
            declares(
                res,
                seq![
                    ("path"@, Some("string"@), "Path to write the file to"@),
                    ("content"@, Some("string"@), "Content to write to the file"@),
                    ("append"@, Some("boolean"@), "If true, append content to the end of the file instead of overwriting. Defaults to false."@),
                ],
                seq!["path"@, "content"@],
            ),
    {
        let k0 = owned("path");
        let p0 = parameter(Some("string"), "Path to write the file to");
        let ghost g0 = (k0@, p0);
        let k1 = owned("content");
        let p1 = parameter(Some("string"), "Content to write to the file");
        let ghost g1 = (k1@, p1);
        let k2 = owned("append");
        let p2 = parameter(Some("boolean"), "If true, append content to the end of the file instead of overwriting. Defaults to false.");
        let ghost g2 = (k2@, p2);
        let props = vec![(k0, p0), (k1, p1), (k2, p2)];
        let ghost fields = keyed_view(props@);
        let required = vec!["path", "content"];
        let res = object_schema(props, &required);
        proof {
            reveal_strlit("path");
            reveal_strlit("content");
            reveal_strlit("append");
            assert("path"@.len() == 4 && "content"@.len() == 7 && "append"@.len() == 6);
            let params = seq![("path"@, Some("string"@), "Path to write the file to"@), ("content"@, Some("string"@), "Content to write to the file"@), ("append"@, Some("boolean"@), "If true, append content to the end of the file instead of overwriting. Defaults to false."@)];
            assert(fields =~= seq![g0, g1, g2]);
            assert(required@.map_values(|s: &str| s@) =~= seq!["path"@, "content"@]);
            assert forall|i: int| 0 <= i < params.len() implies (#[trigger] fields[i]).0 == params[i].0
                && parameter_shape(fields[i].1, params[i].1, params[i].2) by {
                if i == 0 {} else if i == 1 {} else if i == 2 {}
            }
            lemma_declares(res, fields, params, seq!["path"@, "content"@]);
        }
        res
    }
}

} // verus!
