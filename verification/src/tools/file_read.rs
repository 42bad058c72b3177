//! The `read_file` tool: its arguments, and the report of a file's lines.
use vstd::prelude::*;
use crate::client::owned;
use crate::tools::schema::{declares, lemma_declares, object_schema, parameter, parameter_shape};
use crate::ordmap::keyed_view;

use crate::client::{decode_utf8, utf8_text};
use crate::error::AgentForgeError;
use crate::json::{field_text, field_u64, get_u64, Json};
use crate::text::{
    append_chars, append_decimal, append_str, chars_of, decimal, ends_with, has_suffix, join,
    join_lines, lines, lowercase, lowercase_chars, slice_chars, split_lines, starts_with, string_of,
    views,
};
use crate::tools::{agrees, is_invalid_request, required_text, resolve_outcome, resolve_path};

verus! {

pub struct FileReadTool {
    workdir: Option<String>,
}

impl FileReadTool {
    pub closed spec fn workdir_view(&self) -> Option<Seq<char>> {
        match self.workdir {
            Some(w) => Some(w@),
            None => None,
        }
    }

    pub fn new() -> (res: Self)
        ensures
            res.workdir_view() is None,
    {
        FileReadTool { workdir: None }
    }

    pub fn with_workdir(self, workdir: String) -> (res: Self)
        ensures
            res.workdir_view() == Some(workdir@),
    {
        FileReadTool { workdir: Some(workdir) }
    }

    /// Where the tool reads `path`: the path itself without a working
    /// directory, else the path resolved inside it.
    pub fn resolve(&self, path: &str) -> (res: Result<String, AgentForgeError>)
        ensures
            self.workdir_view() is None ==> (res matches Ok(r) && r@ == path@),
            self.workdir_view() matches Some(w) ==> exists|
                cb: Result<Seq<char>, Seq<char>>,
                cr: Result<Seq<char>, Seq<char>>,
            | #[trigger] agrees(res, resolve_outcome(w, path@, cb, cr)),
            res matches Err(e) ==> e is ToolExecution,
    {
        match &self.workdir {
            Some(base) => {
                let res = resolve_path(base.as_str(), path);
                proof {
                    let (cb, cr) = choose|
                        cb: Result<Seq<char>, Seq<char>>,
                        cr: Result<Seq<char>, Seq<char>>,
                    | #[trigger] agrees(res, resolve_outcome(base@, path@, cb, cr));
                    assert(agrees(res, resolve_outcome(base@, path@, cb, cr)));
                    assert(self.workdir_view() == Some(base@));
                    assert(self.workdir_view()->Some_0 == base@);
                }
                res
            },
            None => Ok(string_of(&chars_of(path))),
        }
    }

    pub fn name(&self) -> (res: &'static str)
        ensures
            res@ == "read_file"@,
    {
        "read_file"
    }
}

/// What a `read_file` call asks for.
#[derive(Debug)]
pub struct ReadRequest {
    pub path: String,
    /// The first line to show, counted from 1.
    pub offset: u64,
    pub limit: Option<u64>,
}

/// The arguments of `read_file`: `path` (required), `offset` (at least 1,
/// default 1) and `limit`.
pub fn parse_read_args(args: &Json) -> (res: Result<ReadRequest, AgentForgeError>)
    ensures
        match field_text(*args, "path"@) {
            Some(p) => res matches Ok(r) && r.path@ == p && r.offset == match field_u64(
                *args,
                "offset"@,
            ) {
                Some(o) => if o >= 1 {
                    o
                } else {
                    1
                },
                None => 1,
            } && r.limit == field_u64(*args, "limit"@),
            None => res matches Err(e) && is_invalid_request(e, "path must be a string"@),
        },
{
    let path = required_text(args, "path", "path must be a string")?;
    let offset = match get_u64(args, "offset") {
        Some(o) => if o >= 1 {
            o
        } else {
            1
        },
        None => 1,
    };
    let limit = get_u64(args, "limit");
    Ok(ReadRequest { path, offset, limit })
}

/// The label of a file that is not text, by its extension, ignoring case.
pub open spec fn type_label(path: Seq<char>) -> Seq<char> {
    let lower = lowercase(path);
    if ends_with(lower, ".pdf"@) {
        "PDF"@
    } else if ends_with(lower, ".png"@) {
        "PNG"@
    } else if ends_with(lower, ".jpg"@) || ends_with(lower, ".jpeg"@) {
        "JPEG"@
    } else if ends_with(lower, ".gif"@) {
        "GIF"@
    } else if ends_with(lower, ".svg"@) {
        "SVG"@
    } else if ends_with(lower, ".zip"@) {
        "ZIP"@
    } else if ends_with(lower, ".tar"@) {
        "TAR"@
    } else if ends_with(lower, ".gz"@) {
        "GZIP"@
    } else if ends_with(lower, ".7z"@) {
        "7-ZIP"@
    } else if ends_with(lower, ".exe"@) || ends_with(lower, ".dll"@) {
        "binary executable"@
    } else if ends_with(lower, ".woff"@) || ends_with(lower, ".woff2"@) || ends_with(
        lower,
        ".ttf"@,
    ) || ends_with(lower, ".otf"@) {
        "font"@
    } else {
        "binary"@
    }
}

fn ends(v: &Vec<char>, suffix: &str) -> (res: bool)
    ensures
        res == ends_with(v@, suffix@),
{
    has_suffix(v, &chars_of(suffix))
}

/// The label of a file that is not text.
pub fn file_type_label(path: &str) -> (res: &'static str)
    ensures
        res@ == type_label(path@),
{
    let lower = lowercase_chars(&chars_of(path));
    if ends(&lower, ".pdf") {
        return "PDF";
    }
    if ends(&lower, ".png") {
        return "PNG";
    }
    if ends(&lower, ".jpg") || ends(&lower, ".jpeg") {
        return "JPEG";
    }
    if ends(&lower, ".gif") {
        return "GIF";
    }
    if ends(&lower, ".svg") {
        return "SVG";
    }
    if ends(&lower, ".zip") {
        return "ZIP";
    }
    if ends(&lower, ".tar") {
        return "TAR";
    }
    if ends(&lower, ".gz") {
        return "GZIP";
    }
    if ends(&lower, ".7z") {
        return "7-ZIP";
    }
    if ends(&lower, ".exe") || ends(&lower, ".dll") {
        return "binary executable";
    }
    if ends(&lower, ".woff") || ends(&lower, ".woff2") || ends(&lower, ".ttf") || ends(
        &lower,
        ".otf",
    ) {
        return "font";
    }
    "binary"
}

/// The answer for a file that is not valid UTF-8: its label and its size
/// as rendered in `size`.
pub open spec fn binary_notice(path: Seq<char>, size: Seq<char>) -> Seq<char> {
    "[file: "@ + path + " \u{2014} "@ + type_label(path) + " file, cannot display as text. Size: "@
        + size + "]"@
}

/// The answer for a file that is not valid UTF-8.
pub fn binary_file_notice(path: &str, size: &str) -> (res: String)
    ensures
        res@ == binary_notice(path@, size@),
{
    let mut out = chars_of("[file: ");
    append_str(&mut out, path);
    append_str(&mut out, " \u{2014} ");
    append_str(&mut out, file_type_label(path));
    append_str(&mut out, " file, cannot display as text. Size: ");
    append_str(&mut out, size);
    append_str(&mut out, "]");
    string_of(&out)
}

/// The last line shown: `limit` lines from `start`, at most to the end.
pub open spec fn shown_end(start: nat, limit: Option<u64>, total: nat) -> nat {
    match limit {
        Some(l) => if start + l < total {
            (start + l) as nat
        } else {
            total
        },
        None => total,
    }
}

/// The report of a text file's lines from `offset` (counted from 1) on, at
/// most `limit` of them, under a header that names the file and the range.
pub open spec fn read_report(path: Seq<char>, content: Seq<char>, offset: nat, limit: Option<u64>) -> Seq<
    char,
> {
    let ls = lines(content);
    let total = ls.len();
    if total == 0 {
        "[file: "@ + path + ", 0 lines (empty)]\n"@
    } else if offset - 1 >= total {
        "[file: "@ + path + ", lines "@ + decimal(offset) + "-"@ + decimal(offset) + " of "@
            + decimal(total) + "]\n(offset is past end of file)"@
    } else {
        let start = (offset - 1) as nat;
        let end = shown_end(start, limit, total);
        let header = if start == 0 && end == total {
            "[file: "@ + path + ", "@ + decimal(total) + " lines]"@
        } else {
            "[file: "@ + path + ", lines "@ + decimal(start + 1) + "-"@ + decimal(end) + " of "@
                + decimal(total) + (if end < total {
                ", more below"@
            } else {
                Seq::empty()
            }) + "]"@
        };
        header + "\n"@ + join(ls.subrange(start as int, end as int), "\n"@)
    }
}

/// A read from line `offset` (within the file) shows the file's lines from
/// `offset` on, whatever the limit: `limit` of them when a limit is given
/// and that many remain, else every line to the end. They stand after a
/// one-line header, and once the read does not start at the first line the
/// header names the range, from `offset`.
pub proof fn lemma_read_shows_lines_from_offset(
    path: Seq<char>,
    content: Seq<char>,
    offset: nat,
    limit: Option<u64>,
)
    requires
        1 <= offset <= lines(content).len(),
    ensures
        ({
            let ls = lines(content);
            let end: int = match limit {
                Some(l) => if offset - 1 + l < ls.len() {
                    offset - 1 + l
                } else {
                    ls.len() as int
                },
                None => ls.len() as int,
            };
            exists|h: Seq<char>|
                #![trigger h + "\n"@]
                read_report(path, content, offset, limit) == h + "\n"@ + join(
                    ls.subrange(offset - 1, end),
                    "\n"@,
                ) && (offset > 1 ==> starts_with(
                    h,
                    "[file: "@ + path + ", lines "@ + decimal(offset) + "-"@ + decimal(end as nat),
                ))
        }),
{
    let ls = lines(content);
    let total = ls.len();
    let start = (offset - 1) as nat;
    let end = shown_end(start, limit, total);
    let header = if start == 0 && end == total {
        "[file: "@ + path + ", "@ + decimal(total) + " lines]"@
    } else {
        "[file: "@ + path + ", lines "@ + decimal(start + 1) + "-"@ + decimal(end) + " of "@
            + decimal(total) + (if end < total {
            ", more below"@
        } else {
            Seq::empty()
        }) + "]"@
    };
    assert(read_report(path, content, offset, limit) == header + "\n"@ + join(
        ls.subrange(start as int, end as int),
        "\n"@,
    ));
    if offset > 1 {
        let pre = "[file: "@ + path + ", lines "@ + decimal(offset) + "-"@ + decimal(end);
        assert(start + 1 == offset);
        assert(header.take(pre.len() as int) =~= pre);
        assert(starts_with(header, pre));
    }
}

/// The report of a text file's lines.
pub fn render_file_lines(path: &str, content: &str, offset: u64, limit: Option<u64>) -> (res: String)
    requires
        offset >= 1,
    ensures
        res@ == read_report(path@, content@, offset as nat, limit),
{
    let text = chars_of(content);
    let ls = split_lines(&text);
    let total = ls.len();
    let mut out = chars_of("[file: ");
    append_str(&mut out, path);
    if total == 0 {
        append_str(&mut out, ", 0 lines (empty)]\n");
        return string_of(&out);
    }
    let start = offset - 1;
    if start >= total as u64 {
        append_str(&mut out, ", lines ");
        append_decimal(&mut out, offset);
        append_str(&mut out, "-");
        append_decimal(&mut out, offset);
        append_str(&mut out, " of ");
        append_decimal(&mut out, total as u64);
        append_str(&mut out, "]\n(offset is past end of file)");
        return string_of(&out);
    }
    let s = start as usize;
    let end: usize = match limit {
        Some(l) => if l < (total - s) as u64 {
            s + l as usize
        } else {
            total
        },
        None => total,
    };
    assert(end == shown_end(start as nat, limit, total as nat));
    if s == 0 && end == total {
        append_str(&mut out, ", ");
        append_decimal(&mut out, total as u64);
        append_str(&mut out, " lines]");
    } else {
        append_str(&mut out, ", lines ");
        append_decimal(&mut out, (s + 1) as u64);
        append_str(&mut out, "-");
        append_decimal(&mut out, end as u64);
        append_str(&mut out, " of ");
        append_decimal(&mut out, total as u64);
        if end < total {
            append_str(&mut out, ", more below");
        }
        append_str(&mut out, "]");
    }
    append_str(&mut out, "\n");
    let mut selected: Vec<Vec<char>> = Vec::new();
    let mut i = s;
    while i < end
        invariant
            s <= i <= end <= total == ls.len(),
            views(selected@) == views(ls@).subrange(s as int, i as int),
        decreases end - i,
    {
        let line = slice_chars(&ls[i], 0, ls[i].len());
        assert(line@ =~= ls[i as int]@);
        let ghost before = selected@;
        selected.push(line);
        assert(views(selected@) =~= views(before).push(line@));
        assert(views(ls@).subrange(s as int, i + 1) =~= views(ls@).subrange(s as int, i as int).push(
            ls@[i as int]@,
        ));
        i = i + 1;
    }
    let joined = join_lines(&selected);
    assert(selected@.map_values(|l: Vec<char>| l@) =~= views(selected@));
    append_chars(&mut out, &joined);
    string_of(&out)
}

/// The answer of `read_file` for the bytes of a file: its lines from
/// `offset` (at least 1) when they are UTF-8 text, else the notice for a
/// file that cannot be shown as text, `size` being its rendered size.
pub fn read_file_answer(path: &str, bytes: &[u8], offset: u64, limit: Option<u64>, size: &str) -> (res: String)
    ensures
        match utf8_text(bytes@) {
            Some(t) => res@ == read_report(
                path@,
                t,
                (if offset >= 1 {
                    offset
                } else {
                    1
                }) as nat,
                limit,
            ),
            None => res@ == binary_notice(path@, size@),
        },
{
    match decode_utf8(bytes) {
        Ok(text) => {
            let start = if offset >= 1 {
                offset
            } else {
                1
            };
            render_file_lines(path, text.as_str(), start, limit)
        },
        Err(_) => binary_file_notice(path, size),
    }
}

impl FileReadTool {
    /// What the tool is for, as the model is told.
    pub fn description(&self) -> (res: &'static str)
        ensures
            res@ == "Read the contents of a file from the filesystem. Returns the file's text content. Use 'offset' and 'limit' to read specific line ranges for large files. Binary files (PDF, images, etc.) cannot be read as text."@,
    {
        "Read the contents of a file from the filesystem. Returns the file's text content. Use 'offset' and 'limit' to read specific line ranges for large files. Binary files (PDF, images, etc.) cannot be read as text."
    }

    /// The arguments the tool takes.
    pub fn parameters_schema(&self) -> (res: Json)
        ensures
            declares(
                res,
                seq![
                    ("path"@, Some("string"@), "Path to the file to read"@),
                    ("offset"@, Some("integer"@), "1-indexed line number to start reading from. Defaults to 1 (beginning of file)."@),
                    ("limit"@, Some("integer"@), "Maximum number of lines to return. Defaults to all lines."@),
                ],
                seq!["path"@],
            ),
    {
        let k0 = owned("path");
        let p0 = parameter(Some("string"), "Path to the file to read");
        let ghost g0 = (k0@, p0);
        let k1 = owned("offset");
        let p1 = parameter(Some("integer"), "1-indexed line number to start reading from. Defaults to 1 (beginning of file).");
        let ghost g1 = (k1@, p1);
        let k2 = owned("limit");
        let p2 = parameter(Some("integer"), "Maximum number of lines to return. Defaults to all lines.");
        let ghost g2 = (k2@, p2);
        let props = vec![(k0, p0), (k1, p1), (k2, p2)];
        let ghost fields = keyed_view(props@);
        let required = vec!["path"];
        let res = object_schema(props, &required);
        proof {
            reveal_strlit("path");
            reveal_strlit("offset");
            reveal_strlit("limit");
            assert("path"@.len() == 4 && "offset"@.len() == 6 && "limit"@.len() == 5);
            let params = seq![("path"@, Some("string"@), "Path to the file to read"@), ("offset"@, Some("integer"@), "1-indexed line number to start reading from. Defaults to 1 (beginning of file)."@), ("limit"@, Some("integer"@), "Maximum number of lines to return. Defaults to all lines."@)];
            assert(fields =~= seq![g0, g1, g2]);
            assert(required@.map_values(|s: &str| s@) =~= seq!["path"@]);
            assert forall|i: int| 0 <= i < params.len() implies (#[trigger] fields[i]).0 == params[i].0
                && parameter_shape(fields[i].1, params[i].1, params[i].2) by {
                if i == 0 {} else if i == 1 {} else if i == 2 {}
            }
            lemma_declares(res, fields, params, seq!["path"@]);
        }
        res
    }
}

} // verus!
