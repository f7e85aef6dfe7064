//! The output envelope, operation report and error type shared by every
//! command.
use vstd::prelude::*;

use crate::split::{join, join_chars};
use crate::text::{append_str, chars_of, string_of, views};

verus! {

/// How a command reports its result.
#[derive(Debug, Clone, Copy, PartialEq, Eq, Structural)]
pub enum OutputFormat {
    Human,
    Plain,
    Json,
}

/// A suggested next command.
#[derive(Debug, Clone)]
pub struct Breadcrumb {
    pub action: String,
    pub cmd: String,
}

/// What a writing command changed: warnings, changed files, backups, and
/// whether it rolled back or printed sensitive data.
#[derive(Debug)]
pub struct OperationReport {
    pub warnings: Vec<String>,
    pub changed_files: Vec<String>,
    pub backups: Vec<String>,
    pub rolled_back: Option<bool>,
    pub sensitive: Option<bool>,
}

/// The structured (JSON) result of a command.
#[derive(Debug)]
pub struct OutputEnvelope<T> {
    pub ok: bool,
    pub data: Option<T>,
    pub error: Option<String>,
    pub breadcrumbs: Option<Vec<Breadcrumb>>,
    pub warnings: Vec<String>,
    pub changed_files: Vec<String>,
    pub backups: Vec<String>,
    pub rolled_back: Option<bool>,
    pub sensitive: Option<bool>,
}

/// A failed command: its message, suggestions, warnings and exit code.
#[derive(Debug)]
pub struct CliError {
    pub message: String,
    pub suggestions: Vec<String>,
    pub warnings: Vec<String>,
    pub code: i32,
}

/// The contents of a list of strings.
pub open spec fn texts(v: Seq<String>) -> Seq<Seq<char>> {
    v.map_values(|s: String| s@)
}

/// A copy of a list of strings.
pub fn clone_strings(v: &Vec<String>) -> (r: Vec<String>)
    ensures
        r@ == v@,
{
    let mut r: Vec<String> = Vec::new();
    let n = v.len();
    for i in 0..n
        invariant
            n == v@.len(),
            r@ =~= v@.take(i as int),
    {
        r.push(v[i].clone());
        assert(v@.take(i + 1) =~= v@.take(i as int).push(v@[i as int]));
    }
    assert(v@.take(n as int) =~= v@);
    r
}

impl OperationReport {
    pub open spec fn is_empty_report(&self) -> bool {
        &&& self.warnings@.len() == 0
        &&& self.changed_files@.len() == 0
        &&& self.backups@.len() == 0
        &&& self.rolled_back is None
        &&& self.sensitive is None
    }
}

impl Default for OperationReport {
    /// An empty report.
    fn default() -> (r: Self)
        ensures
            r.is_empty_report(),
    {
        OperationReport {
            warnings: Vec::new(),
            changed_files: Vec::new(),
            backups: Vec::new(),
            rolled_back: None,
            sensitive: None,
        }
    }
}

impl<T> OutputEnvelope<T> {
    /// A successful result carrying `data`, with nothing else set.
    pub fn success(data: T) -> (r: Self)
        ensures
            r.ok,
            r.data == Some(data),
            r.error is None,
            r.breadcrumbs is None,
            r.warnings@.len() == 0,
            r.changed_files@.len() == 0,
            r.backups@.len() == 0,
            r.rolled_back is None,
            r.sensitive is None,
    {
        OutputEnvelope {
            ok: true,
            data: Some(data),
            error: None,
            breadcrumbs: None,
            warnings: Vec::new(),
            changed_files: Vec::new(),
            backups: Vec::new(),
            rolled_back: None,
            sensitive: None,
        }
    }

    /// The same envelope with the given suggested next commands.
    pub fn with_breadcrumbs(self, breadcrumbs: Vec<Breadcrumb>) -> (r: Self)
        ensures
            r == (OutputEnvelope { breadcrumbs: Some(breadcrumbs), ..self }),
    {
        let mut s = self;
        s.breadcrumbs = Some(breadcrumbs);
        s
    }

    /// The same envelope with the warnings, changed files, backups and flags
    /// of `report`.
    pub fn with_report(self, report: &OperationReport) -> (r: Self)
        ensures
            r.ok == self.ok,
            r.data == self.data,
            r.error == self.error,
            r.breadcrumbs == self.breadcrumbs,
            r.warnings@ == report.warnings@,
            r.changed_files@ == report.changed_files@,
            r.backups@ == report.backups@,
            r.rolled_back == report.rolled_back,
            r.sensitive == report.sensitive,
    {
        let mut s = self;
        s.warnings = clone_strings(&report.warnings);
        s.changed_files = clone_strings(&report.changed_files);
        s.backups = clone_strings(&report.backups);
        s.rolled_back = report.rolled_back;
        s.sensitive = report.sensitive;
        s
    }
}

impl CliError {
    /// An error with message `msg`, no suggestions or warnings, exit code 1.
    pub fn new(msg: &str) -> (r: Self)
        ensures
            r.message@ == msg@,
            r.suggestions@.len() == 0,
            r.warnings@.len() == 0,
            r.code == 1,
    {
        CliError { message: msg.to_owned(), suggestions: Vec::new(), warnings: Vec::new(), code: 1 }
    }

    /// An error with the given message, no suggestions or warnings, exit code 1.
    pub fn from_message(msg: String) -> (r: Self)
        ensures
            r.message@ == msg@,
            r.suggestions@.len() == 0,
            r.warnings@.len() == 0,
            r.code == 1,
    {
        CliError { message: msg, suggestions: Vec::new(), warnings: Vec::new(), code: 1 }
    }

    /// The same error with the given warnings.
    pub fn with_warnings(self, warnings: Vec<String>) -> (r: Self)
        ensures
            r == (CliError { warnings: warnings, ..self }),
    {
        let mut s = self;
        s.warnings = warnings;
        s
    }

    /// The same error with the given exit code.
    pub fn with_code(self, code: i32) -> (r: Self)
        ensures
            r == (CliError { code: code, ..self }),
    {
        let mut s = self;
        s.code = code;
        s
    }
}

/// The contents of a list of suggested next commands: each action with its
/// command.
pub open spec fn crumb_texts(v: Seq<Breadcrumb>) -> Seq<(Seq<char>, Seq<char>)> {
    v.map_values(|b: Breadcrumb| (b.action@, b.cmd@))
}

/// A suggested next command.
pub fn crumb(action: &str, cmd: &str) -> (r: Breadcrumb)
    ensures
        r.action@ == action@,
        r.cmd@ == cmd@,
{
    Breadcrumb { action: action.to_owned(), cmd: cmd.to_owned() }
}

/// Each item as a line `<prefix><item>`.
pub open spec fn item_lines(items: Seq<Seq<char>>, prefix: Seq<char>) -> Seq<char>
    decreases items.len(),
{
    if items.len() == 0 {
        seq![]
    } else {
        item_lines(items.drop_last(), prefix) + prefix + items.last() + "\n"@
    }
}

pub fn prefixed_lines(items: &Vec<String>, prefix: &str) -> (r: Vec<char>)
    ensures
        r@ == item_lines(texts(items@), prefix@),
{
    let ghost t = texts(items@);
    let mut v: Vec<char> = Vec::new();
    let n = items.len();
    for i in 0..n
        invariant
            n == items@.len(),
            t == texts(items@),
            v@ == item_lines(t.take(i as int), prefix@),
    {
        assert(t.take(i + 1).drop_last() =~= t.take(i as int));
        assert(t.take(i + 1).last() == items@[i as int]@);
        append_str(&mut v, prefix);
        append_str(&mut v, items[i].as_str());
        append_str(&mut v, "\n");
    }
    assert(t.take(n as int) =~= t);
    v
}

/// A titled list after the main output, when there are items: an empty
/// line, the title, then one `- item` line each.
pub open spec fn titled_list(title: Seq<char>, items: Seq<Seq<char>>) -> Seq<char> {
    if items.len() == 0 {
        seq![]
    } else {
        "\n"@ + title + "\n"@ + item_lines(items, "- "@)
    }
}

fn titled_list_of(title: &str, items: &Vec<String>) -> (r: Vec<char>)
    ensures
        r@ == titled_list(title@, texts(items@)),
{
    if items.len() == 0 {
        return Vec::new();
    }
    let mut v = chars_of("\n");
    append_str(&mut v, title);
    append_str(&mut v, "\n");
    let l = prefixed_lines(items, "- ");
    let mut v2 = v;
    crate::text::append(&mut v2, &l);
    v2
}

/// What a human readable success prints after its main output: the
/// warnings, then (when asked for) the backups and changed files, then
/// (when asked for) whether it rolled back.
pub open spec fn report_trailer(r: OperationReport, full: bool, with_backups: bool) -> Seq<char> {
    titled_list("警告:"@, texts(r.warnings@)) + (if with_backups || full {
        titled_list("备份:"@, texts(r.backups@))
    } else {
        seq![]
    }) + (if full {
        titled_list("变更文件:"@, texts(r.changed_files@)) + match r.rolled_back {
            Some(b) => "\n已自动回滚: "@ + (if b {
                "是"@
            } else {
                "否"@
            }) + "\n"@,
            None => seq![],
        }
    } else {
        seq![]
    })
}

/// What a human readable success prints after its main output (see
/// [`report_trailer`]).
pub fn report_text(report: &OperationReport, full: bool, with_backups: bool) -> (r: String)
    ensures
        r@ == report_trailer(*report, full, with_backups),
{
    let mut v = titled_list_of("警告:", &report.warnings);
    if with_backups || full {
        crate::text::append(&mut v, &titled_list_of("备份:", &report.backups));
    }
    if full {
        crate::text::append(&mut v, &titled_list_of("变更文件:", &report.changed_files));
        match report.rolled_back {
            Some(b) => {
                append_str(&mut v, "\n已自动回滚: ");
                append_str(&mut v, if b { "是" } else { "否" });
                append_str(&mut v, "\n");
            },
            None => {},
        }
    }
    string_of(&v)
}

/// What a human readable failure prints: the error, each warning, then the
/// suggestions joined by `; `.
pub open spec fn error_report(e: CliError) -> Seq<char> {
    "错误: "@ + e.message@ + "\n"@ + item_lines(texts(e.warnings@), "警告: "@) + if e.suggestions@.len()
        == 0 {
        seq![]
    } else {
        "建议: "@ + join(texts(e.suggestions@), "; "@) + "\n"@
    }
}

/// What a human readable failure prints (see [`error_report`]).
pub fn error_text(err: &CliError) -> (r: String)
    ensures
        r@ == error_report(*err),
{
    let mut v = chars_of("错误: ");
    append_str(&mut v, err.message.as_str());
    append_str(&mut v, "\n");
    crate::text::append(&mut v, &prefixed_lines(&err.warnings, "警告: "));
    if err.suggestions.len() > 0 {
        append_str(&mut v, "建议: ");
        let mut parts: Vec<Vec<char>> = Vec::new();
        let n = err.suggestions.len();
        for i in 0..n
            invariant
                n == err.suggestions@.len(),
                views(parts@) =~= texts(err.suggestions@).take(i as int),
        {
            let ghost before = views(parts@);
            let c = chars_of(err.suggestions[i].as_str());
            let ghost cv = c@;
            parts.push(c);
            assert(views(parts@) =~= before.push(cv));
            assert(texts(err.suggestions@).take(i + 1) =~= texts(err.suggestions@).take(i as int).push(
                err.suggestions@[i as int]@,
            ));
        }
        assert(texts(err.suggestions@).take(n as int) =~= texts(err.suggestions@));
        crate::text::append(&mut v, &join_chars(&parts, &chars_of("; ")));
        append_str(&mut v, "\n");
    }
    string_of(&v)
}

/// The structured result of a failed command: not ok, its message as the
/// error, its warnings, nothing else.
pub fn failure_envelope<T>(err: &CliError) -> (r: OutputEnvelope<T>)
    ensures
        !r.ok,
        r.data is None,
        r.error matches Some(m) && m@ == err.message@,
        r.breadcrumbs is None,
        r.warnings@ == err.warnings@,
        r.changed_files@.len() == 0,
        r.backups@.len() == 0,
        r.rolled_back is None,
        r.sensitive is None,
{
    OutputEnvelope {
        ok: false,
        data: None,
        error: Some(err.message.clone()),
        breadcrumbs: None,
        warnings: clone_strings(&err.warnings),
        changed_files: Vec::new(),
        backups: Vec::new(),
        rolled_back: None,
        sensitive: None,
    }
}

} // verus!
