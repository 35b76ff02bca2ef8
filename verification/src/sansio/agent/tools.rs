//! The tools that the model can call, and how their arguments are read.
use vstd::prelude::*;
use vstd::string::*;

use super::errors::{
    CommandError, CommandErrorModel, PatchError, PatchErrorModel, ToolErrorModel,
    ToolExecutionError,
};
use super::{
    DEFAULT_LIST_MAX_ENTRIES, DEFAULT_SEARCH_MAX_RESULTS, PATCH_MAX_EDITS, PATCH_MAX_FILE_BYTES,
};
use crate::json::{
    boolean, elements, indices, lemma_read_list_step, member, parsed, read_list, required, string,
    unsigned, JsonDoc, JsonError, NodeModel,
};
use crate::model::{deep, lemma_deep_push, maybe};
use crate::sansio::deepseek::{optional_string_of, ToolDef, ToolDefModel};
use crate::text::{byte_len, same, trim, trimmed, views};

verus! {

pub const LIST_DESCRIPTION: &'static str =
    "List files and directories under a workspace-relative path. Returns a JSON array of {path, kind, size} entries; the result includes truncated:true when max_entries is hit.";

pub const LIST_PARAMS_SCHEMA: &'static str = r#"{
"type":"object",
"properties":{
"path":{"type":"string","description":"Workspace-relative directory path (e.g. \".\" or \"src\")."},
"recursive":{"type":"boolean","default":false},
"max_entries":{"type":"integer","default":200,"minimum":1},
"include_hidden":{"type":"boolean","default":false}
},
"required":["path"]
}"#;

pub const READ_DESCRIPTION: &'static str =
    "Read a UTF-8 text file at a workspace-relative path. Optionally restrict to a 1-indexed inclusive [start, end] line range. Content is truncated to the first 1 MiB.";

pub const READ_PARAMS_SCHEMA: &'static str = r#"{
"type":"object",
"properties":{
"path":{"type":"string","description":"Workspace-relative file path."},
"line_range":{"type":"array","items":{"type":"integer","minimum":1},"minItems":2,"maxItems":2,"description":"1-indexed inclusive [start, end] range."}
},
"required":["path"]
}"#;

pub const SEARCH_DESCRIPTION: &'static str =
    "Literal substring search across text files under an optional workspace-relative prefix. Returns {path, line, snippet} hits; binary or non-UTF-8 files are silently skipped.";

pub const SEARCH_PARAMS_SCHEMA: &'static str = r#"{
"type":"object",
"properties":{
"pattern":{"type":"string","description":"Literal substring to match (no regex)."},
"path_prefix":{"type":"string","description":"Restrict to a workspace-relative subtree."},
"case_sensitive":{"type":"boolean","default":false},
"max_results":{"type":"integer","default":50,"minimum":1}
},
"required":["pattern"]
}"#;

pub const PATCH_DESCRIPTION: &'static str =
    "Apply a batch of file edits to the workspace. Each edit is either an add (create a new file) or an update (replace a unique substring). All edits in one call must target distinct paths. Every patch requires user approval before it touches the filesystem.";

pub const PATCH_PARAMS_SCHEMA: &'static str = r#"{
"type":"object",
"properties":{
"edits":{"type":"array","minItems":1,"items":{
"type":"object",
"properties":{
"kind":{"type":"string","enum":["add","update"]},
"path":{"type":"string","description":"Workspace-relative target path. Must be unique across edits in one call."},
"content":{"type":"string","description":"Full contents for add."},
"before":{"type":"string","description":"For update: byte-exact substring to replace. Must match exactly once."},
"after":{"type":"string","description":"For update: replacement text."}
},
"required":["kind","path"]
}}
},
"required":["edits"]
}"#;

pub const COMMAND_DESCRIPTION: &'static str =
    "Run a command in the workspace by executing argv[0] with argv[1..] directly (no shell). Every call requires user approval unless a matching argv_prefix rule pre-approves it. Output byte totals are capped; non-zero exit status is returned as a normal result (not an error). Runtime is not capped by attini; the user can interrupt a long-running command with Ctrl+C.";

pub const COMMAND_PARAMS_SCHEMA: &'static str = r#"{
"type":"object",
"properties":{
"argv":{"type":"array","items":{"type":"string"},"minItems":1,"description":"Command and arguments to exec directly (no shell interpretation). Use each program's own flags for pipe / redirect / glob equivalents (for example --max-count instead of piping to head). For a shell pipe or chain, invoke it explicitly as [\"bash\", \"-c\", \"...\"]; that will still require user approval unless a matching argv_prefix rule pre-approves it."}
},
"required":["argv"]
}"#;

pub const SKILL_LOAD_DESCRIPTION: &'static str =
    "Load a skill body and follow its instructions. Skill names are listed in the 'Available skills' system message. The full SKILL.md body is returned verbatim as the tool result; if the skill needs arguments, the user provides them in the same turn's message.";

pub const SKILL_LOAD_PARAMS_SCHEMA: &'static str = r#"{
"type":"object",
"properties":{
"name":{"type":"string","description":"Skill name (directory name under a skill root)."}
},
"required":["name"]
}"#;

pub const SUBAGENT_RUN_DESCRIPTION: &'static str =
    "Run a child attini agent synchronously in a separate session and block until it finishes. The child runs with its own session, permissions, and metrics, isolated from the parent's conversation and state.";

pub const SUBAGENT_RUN_PARAMS_SCHEMA: &'static str = r#"{
"type":"object",
"properties":{
"prompt":{"type":"string","description":"Initial user prompt for the child agent."},
"session_name":{"type":"string","description":"Optional session name for the child. Omit to auto-generate a `subagent-<timestamp>-<hex>` name. An idle existing session is reused."}
},
"required":["prompt"]
}"#;

/// The error for arguments that cannot be read.
pub open spec fn bad_arguments(message: Seq<char>) -> ToolErrorModel {
    ToolErrorModel::ArgumentsParseFailed(message)
}

/// The document that a text of arguments holds.
pub open spec fn arguments_of(text: Seq<char>) -> Result<Seq<NodeModel>, ToolErrorModel> {
    match parsed(text) {
        Err(e) => Err(bad_arguments(e)),
        Ok(doc) => Ok(doc),
    }
}

/// A string argument that must be there.
pub open spec fn string_arg(doc: Seq<NodeModel>, i: int, name: Seq<char>) -> Result<
    Seq<char>,
    ToolErrorModel,
> {
    match required(doc, i, name) {
        Err(e) => Err(bad_arguments(e)),
        Ok(j) => match string(doc, j) {
            Err(e) => Err(bad_arguments(e)),
            Ok(s) => Ok(s),
        },
    }
}

/// A string argument that may be absent or null.
pub open spec fn optional_string_arg(doc: Seq<NodeModel>, i: int, name: Seq<char>) -> Result<
    Option<Seq<char>>,
    ToolErrorModel,
> {
    match optional_string_of(doc, i, name) {
        Err(e) => Err(bad_arguments(e)),
        Ok(s) => Ok(s),
    }
}

/// A truth value that may be absent; then it is false.
pub open spec fn flag_arg(doc: Seq<NodeModel>, i: int, name: Seq<char>) -> Result<
    bool,
    ToolErrorModel,
> {
    match member(doc, i, name) {
        Err(e) => Err(bad_arguments(e)),
        Ok(None) => Ok(false),
        Ok(Some(j)) => match boolean(doc, j) {
            Err(e) => Err(bad_arguments(e)),
            Ok(b) => Ok(b),
        },
    }
}

/// A number that may be absent; then it is `default`.
pub open spec fn count_arg(
    doc: Seq<NodeModel>,
    i: int,
    name: Seq<char>,
    default: usize,
) -> Result<usize, ToolErrorModel> {
    match member(doc, i, name) {
        Err(e) => Err(bad_arguments(e)),
        Ok(None) => Ok(default),
        Ok(Some(j)) => match unsigned(doc, j, usize::MAX as int) {
            Err(e) => Err(bad_arguments(e)),
            Ok(n) => Ok(n as usize),
        },
    }
}

/// One string of an array argument.
pub open spec fn string_element(doc: Seq<NodeModel>, i: int) -> Result<Seq<char>, ToolErrorModel> {
    match string(doc, i) {
        Err(e) => Err(bad_arguments(e)),
        Ok(s) => Ok(s),
    }
}

/// An argument that is an array of strings and must be there.
pub open spec fn string_array_arg(doc: Seq<NodeModel>, i: int, name: Seq<char>) -> Result<
    Seq<Seq<char>>,
    ToolErrorModel,
> {
    match required(doc, i, name) {
        Err(e) => Err(bad_arguments(e)),
        Ok(j) => match elements(doc, j) {
            Err(e) => Err(bad_arguments(e)),
            Ok(at) => read_list(at, |k: int| string_element(doc, k)),
        },
    }
}

/// The error for a JSON value that does not fit.
pub(super) fn map_parse_err(err: JsonError) -> (r: ToolExecutionError)
    ensures
        r@ == bad_arguments(err@),
{
    ToolExecutionError::ArgumentsParseFailed(err.message)
}

/// The error for arguments that cannot be read.
pub(super) fn bad(message: &str) -> (r: ToolExecutionError)
    ensures
        r@ == bad_arguments(message@),
{
    ToolExecutionError::ArgumentsParseFailed(message.to_owned())
}

/// Parses a text of arguments.
pub(super) fn parse_arguments(text: &str) -> (r: Result<JsonDoc, ToolExecutionError>)
    ensures
        match r {
            Ok(doc) => doc.wf() && arguments_of(text@) == Ok::<Seq<NodeModel>, ToolErrorModel>(
                doc@,
            ),
            Err(e) => arguments_of(text@) == Err::<Seq<NodeModel>, ToolErrorModel>(e@),
        },
{
    match JsonDoc::parse(text) {
        Ok(doc) => Ok(doc),
        Err(e) => Err(map_parse_err(e)),
    }
}

pub(super) fn required_string(doc: &JsonDoc, i: usize, name: &str) -> (r: Result<
    String,
    ToolExecutionError,
>)
    requires
        doc.wf(),
        i < doc@.len(),
    ensures
        match r {
            Ok(s) => string_arg(doc@, i as int, name@) == Ok::<Seq<char>, ToolErrorModel>(s@),
            Err(e) => string_arg(doc@, i as int, name@) == Err::<Seq<char>, ToolErrorModel>(e@),
        },
{
    match doc.required(i, name) {
        Err(e) => Err(map_parse_err(e)),
        Ok(j) => match doc.string(j) {
            Err(e) => Err(map_parse_err(e)),
            Ok(s) => Ok(s),
        },
    }
}

pub(super) fn required_string_array(doc: &JsonDoc, i: usize, name: &str) -> (r: Result<
    Vec<String>,
    ToolExecutionError,
>)
    requires
        doc.wf(),
        i < doc@.len(),
    ensures
        match r {
            Ok(v) => string_array_arg(doc@, i as int, name@) == Ok::<
                Seq<Seq<char>>,
                ToolErrorModel,
            >(views(v@)),
            Err(e) => string_array_arg(doc@, i as int, name@) == Err::<
                Seq<Seq<char>>,
                ToolErrorModel,
            >(e@),
        },
{
    let j: usize = match doc.required(i, name) {
        Err(e) => return Err(map_parse_err(e)),
        Ok(j) => j,
    };
    let at = match doc.elements(j) {
        Err(e) => return Err(map_parse_err(e)),
        Ok(at) => at,
    };
    let ghost all = indices(at@);
    let ghost read = |k: int| string_element(doc@, k);
    let mut out: Vec<String> = Vec::new();
    let mut k: usize = 0;
    assert(all.take(0) =~= Seq::empty());
    assert(views(out@) =~= Seq::empty());
    while k < at.len()
        invariant
            k <= at@.len(),
            doc.wf(),
            all == indices(at@),
            forall|j: int| 0 <= j < at@.len() ==> #[trigger] at@[j] < doc@.len(),
            read == (|k: int| string_element(doc@, k)),
            string_array_arg(doc@, i as int, name@) == read_list(all, read),
            read_list(all.take(k as int), read) == Ok::<Seq<Seq<char>>, ToolErrorModel>(
                views(out@),
            ),
        decreases at@.len() - k,
    {
        proof {
            lemma_read_list_step(all, read, k as int);
        }
        let ghost before = views(out@);
        match doc.string(at[k]) {
            Ok(s) => {
                out.push(s);
                assert(views(out@) =~= before.push(s@));
            },
            Err(e) => return Err(map_parse_err(e)),
        }
        k = k + 1;
    }
    assert(all.take(all.len() as int) =~= all);
    Ok(out)
}

pub(super) fn optional_string(doc: &JsonDoc, i: usize, name: &str) -> (r: Result<
    Option<String>,
    ToolExecutionError,
>)
    requires
        doc.wf(),
        i < doc@.len(),
    ensures
        match r {
            Ok(s) => optional_string_arg(doc@, i as int, name@) == Ok::<
                Option<Seq<char>>,
                ToolErrorModel,
            >(maybe(s)),
            Err(e) => optional_string_arg(doc@, i as int, name@) == Err::<
                Option<Seq<char>>,
                ToolErrorModel,
            >(e@),
        },
{
    match crate::sansio::deepseek::optional_string(doc, i, name) {
        Ok(s) => Ok(s),
        Err(e) => Err(map_parse_err(e)),
    }
}

fn flag(doc: &JsonDoc, i: usize, name: &str) -> (r: Result<bool, ToolExecutionError>)
    requires
        doc.wf(),
        i < doc@.len(),
    ensures
        match r {
            Ok(b) => flag_arg(doc@, i as int, name@) == Ok::<bool, ToolErrorModel>(b),
            Err(e) => flag_arg(doc@, i as int, name@) == Err::<bool, ToolErrorModel>(e@),
        },
{
    match doc.member(i, name) {
        Err(e) => Err(map_parse_err(e)),
        Ok(None) => Ok(false),
        Ok(Some(j)) => match doc.boolean(j) {
            Err(e) => Err(map_parse_err(e)),
            Ok(b) => Ok(b),
        },
    }
}

fn count(doc: &JsonDoc, i: usize, name: &str, default: usize) -> (r: Result<
    usize,
    ToolExecutionError,
>)
    requires
        doc.wf(),
        i < doc@.len(),
    ensures
        match r {
            Ok(n) => count_arg(doc@, i as int, name@, default) == Ok::<usize, ToolErrorModel>(n),
            Err(e) => count_arg(doc@, i as int, name@, default) == Err::<usize, ToolErrorModel>(e@),
        },
{
    match doc.member(i, name) {
        Err(e) => Err(map_parse_err(e)),
        Ok(None) => Ok(default),
        Ok(Some(j)) => match doc.unsigned(j, usize::MAX as u64) {
            Err(e) => Err(map_parse_err(e)),
            Ok(n) => Ok(n as usize),
        },
    }
}

/// A read-only tool that the model can invoke.
#[derive(Debug, Clone, PartialEq, Eq)]
pub enum ReadOnlyTool {
    List { path: String, recursive: bool, max_entries: usize, include_hidden: bool },
    Read { path: String, line_range: Option<(usize, usize)> },
    Search {
        pattern: String,
        path_prefix: Option<String>,
        case_sensitive: bool,
        max_results: usize,
    },
}

/// A [`ReadOnlyTool`] as a mathematical value.
#[verifier::ext_equal]
pub enum ReadOnlyModel {
    List { path: Seq<char>, recursive: bool, max_entries: usize, include_hidden: bool },
    Read { path: Seq<char>, line_range: Option<(usize, usize)> },
    Search {
        pattern: Seq<char>,
        path_prefix: Option<Seq<char>>,
        case_sensitive: bool,
        max_results: usize,
    },
}

impl View for ReadOnlyTool {
    type V = ReadOnlyModel;

    open spec fn view(&self) -> ReadOnlyModel {
        match self {
            ReadOnlyTool::List { path, recursive, max_entries, include_hidden } => {
                ReadOnlyModel::List {
                    path: path@,
                    recursive: *recursive,
                    max_entries: *max_entries,
                    include_hidden: *include_hidden,
                }
            },
            ReadOnlyTool::Read { path, line_range } => ReadOnlyModel::Read {
                path: path@,
                line_range: *line_range,
            },
            ReadOnlyTool::Search { pattern, path_prefix, case_sensitive, max_results } => {
                ReadOnlyModel::Search {
                    pattern: pattern@,
                    path_prefix: maybe(*path_prefix),
                    case_sensitive: *case_sensitive,
                    max_results: *max_results,
                }
            },
        }
    }
}

/// A tool definition with those texts.
pub open spec fn definition(
    name: Seq<char>,
    description: Seq<char>,
    parameters_json: Seq<char>,
) -> ToolDefModel {
    ToolDefModel { name, description, parameters_json }
}

pub(super) fn define(name: &str, description: &str, parameters_json: &str) -> (r: ToolDef)
    ensures
        r@ == definition(name@, description@, parameters_json@),
{
    ToolDef {
        name: name.to_owned(),
        description: description.to_owned(),
        parameters_json: parameters_json.to_owned(),
    }
}

/// The list tool that a document asks for.
pub open spec fn list_of(doc: Seq<NodeModel>) -> Result<ReadOnlyModel, ToolErrorModel> {
    match string_arg(doc, 0, "path"@) {
        Err(e) => Err(e),
        Ok(path) => match flag_arg(doc, 0, "recursive"@) {
            Err(e) => Err(e),
            Ok(recursive) => match count_arg(
                doc,
                0,
                "max_entries"@,
                DEFAULT_LIST_MAX_ENTRIES,
            ) {
                Err(e) => Err(e),
                Ok(max_entries) => match flag_arg(doc, 0, "include_hidden"@) {
                    Err(e) => Err(e),
                    Ok(include_hidden) => Ok(
                        ReadOnlyModel::List { path, recursive, max_entries, include_hidden },
                    ),
                },
            },
        },
    }
}

/// What is said where a line range has not two elements.
pub open spec fn not_two() -> ToolErrorModel {
    bad_arguments("line_range must have exactly 2 elements"@)
}

/// The two numbers of a line range.
pub open spec fn range_at(doc: Seq<NodeModel>, at: Seq<int>) -> Result<
    (usize, usize),
    ToolErrorModel,
> {
    if at.len() == 0 {
        Err(not_two())
    } else {
        match unsigned(doc, at[0], usize::MAX as int) {
            Err(e) => Err(bad_arguments(e)),
            Ok(start) => if at.len() == 1 {
                Err(not_two())
            } else {
                match unsigned(doc, at[1], usize::MAX as int) {
                    Err(e) => Err(bad_arguments(e)),
                    Ok(end) => if at.len() > 2 {
                        Err(not_two())
                    } else {
                        Ok((start as usize, end as usize))
                    },
                }
            },
        }
    }
}

/// The line range that a document asks for, if it asks for one.
pub open spec fn line_range_of(doc: Seq<NodeModel>) -> Result<
    Option<(usize, usize)>,
    ToolErrorModel,
> {
    match member(doc, 0, "line_range"@) {
        Err(e) => Err(bad_arguments(e)),
        Ok(None) => Ok(None),
        Ok(Some(j)) => match elements(doc, j) {
            Err(e) => Err(bad_arguments(e)),
            Ok(at) => match range_at(doc, at) {
                Err(e) => Err(e),
                Ok(range) => Ok(Some(range)),
            },
        },
    }
}

/// The read tool that a document asks for.
pub open spec fn read_of(doc: Seq<NodeModel>) -> Result<ReadOnlyModel, ToolErrorModel> {
    match string_arg(doc, 0, "path"@) {
        Err(e) => Err(e),
        Ok(path) => match line_range_of(doc) {
            Err(e) => Err(e),
            Ok(line_range) => Ok(ReadOnlyModel::Read { path, line_range }),
        },
    }
}

/// The search tool that a document asks for.
pub open spec fn search_of(doc: Seq<NodeModel>) -> Result<ReadOnlyModel, ToolErrorModel> {
    match string_arg(doc, 0, "pattern"@) {
        Err(e) => Err(e),
        Ok(pattern) => match optional_string_arg(doc, 0, "path_prefix"@) {
            Err(e) => Err(e),
            Ok(path_prefix) => match flag_arg(doc, 0, "case_sensitive"@) {
                Err(e) => Err(e),
                Ok(case_sensitive) => match count_arg(
                    doc,
                    0,
                    "max_results"@,
                    DEFAULT_SEARCH_MAX_RESULTS,
                ) {
                    Err(e) => Err(e),
                    Ok(max_results) => Ok(
                        ReadOnlyModel::Search { pattern, path_prefix, case_sensitive, max_results },
                    ),
                },
            },
        },
    }
}

/// Whether a name is that of a read-only tool.
pub open spec fn read_only_name(name: Seq<char>) -> bool {
    name == "list"@ || name == "read"@ || name == "search"@
}

/// The read-only tool of that name that a document asks for.
pub open spec fn read_only_of(name: Seq<char>, doc: Seq<NodeModel>) -> Result<
    ReadOnlyModel,
    ToolErrorModel,
> {
    if name == "list"@ {
        list_of(doc)
    } else if name == "read"@ {
        read_of(doc)
    } else if name == "search"@ {
        search_of(doc)
    } else {
        Err(ToolErrorModel::UnknownTool)
    }
}

/// The read-only tool of that name that a text of arguments asks for.
pub open spec fn read_only_call(name: Seq<char>, arguments: Seq<char>) -> Result<
    ReadOnlyModel,
    ToolErrorModel,
> {
    if read_only_name(name) {
        match arguments_of(arguments) {
            Err(e) => Err(e),
            Ok(doc) => read_only_of(name, doc),
        }
    } else {
        Err(ToolErrorModel::UnknownTool)
    }
}

impl ReadOnlyTool {
    /// The definitions of the read-only tools, as the model sees them.
    pub fn definitions() -> (r: Vec<ToolDef>)
        ensures
            deep(r@) == seq![
                definition("list"@, LIST_DESCRIPTION@, LIST_PARAMS_SCHEMA@),
                definition("read"@, READ_DESCRIPTION@, READ_PARAMS_SCHEMA@),
                definition("search"@, SEARCH_DESCRIPTION@, SEARCH_PARAMS_SCHEMA@),
            ],
    {
        let mut out: Vec<ToolDef> = Vec::new();
        out.push(define("list", LIST_DESCRIPTION, LIST_PARAMS_SCHEMA));
        out.push(define("read", READ_DESCRIPTION, READ_PARAMS_SCHEMA));
        out.push(define("search", SEARCH_DESCRIPTION, SEARCH_PARAMS_SCHEMA));
        assert(deep(out@) =~= seq![
            definition("list"@, LIST_DESCRIPTION@, LIST_PARAMS_SCHEMA@),
            definition("read"@, READ_DESCRIPTION@, READ_PARAMS_SCHEMA@),
            definition("search"@, SEARCH_DESCRIPTION@, SEARCH_PARAMS_SCHEMA@),
        ]);
        out
    }

    /// Reads a call of a read-only tool.
    pub fn parse(function_name: &str, arguments_json: &str) -> (r: Result<
        ReadOnlyTool,
        ToolExecutionError,
    >)
        ensures
            match r {
                Ok(t) => read_only_call(function_name@, arguments_json@) == Ok::<
                    ReadOnlyModel,
                    ToolErrorModel,
                >(t@),
                Err(e) => read_only_call(function_name@, arguments_json@) == Err::<
                    ReadOnlyModel,
                    ToolErrorModel,
                >(e@),
            },
    {
        if !(same(function_name, "list") || same(function_name, "read") || same(
            function_name,
            "search",
        )) {
            return Err(ToolExecutionError::UnknownTool);
        }
        let doc = parse_arguments(arguments_json)?;
        ReadOnlyTool::from_json(function_name, &doc)
    }

    /// Reads the read-only tool of that name that a document asks for.
    pub fn from_json(function_name: &str, doc: &JsonDoc) -> (r: Result<
        ReadOnlyTool,
        ToolExecutionError,
    >)
        requires
            doc.wf(),
        ensures
            match r {
                Ok(t) => read_only_of(function_name@, doc@) == Ok::<ReadOnlyModel, ToolErrorModel>(
                    t@,
                ),
                Err(e) => read_only_of(function_name@, doc@) == Err::<
                    ReadOnlyModel,
                    ToolErrorModel,
                >(e@),
            },
    {
        if same(function_name, "list") {
            let path = required_string(doc, 0, "path")?;
            let recursive = flag(doc, 0, "recursive")?;
            let max_entries = count(doc, 0, "max_entries", DEFAULT_LIST_MAX_ENTRIES)?;
            let include_hidden = flag(doc, 0, "include_hidden")?;
            Ok(ReadOnlyTool::List { path, recursive, max_entries, include_hidden })
        } else if same(function_name, "read") {
            let path = required_string(doc, 0, "path")?;
            let line_range = parse_line_range(doc)?;
            Ok(ReadOnlyTool::Read { path, line_range })
        } else if same(function_name, "search") {
            let pattern = required_string(doc, 0, "pattern")?;
            let path_prefix = optional_string(doc, 0, "path_prefix")?;
            let case_sensitive = flag(doc, 0, "case_sensitive")?;
            let max_results = count(doc, 0, "max_results", DEFAULT_SEARCH_MAX_RESULTS)?;
            Ok(ReadOnlyTool::Search { pattern, path_prefix, case_sensitive, max_results })
        } else {
            Err(ToolExecutionError::UnknownTool)
        }
    }
}

fn parse_line_range(doc: &JsonDoc) -> (r: Result<Option<(usize, usize)>, ToolExecutionError>)
    requires
        doc.wf(),
    ensures
        match r {
            Ok(v) => line_range_of(doc@) == Ok::<Option<(usize, usize)>, ToolErrorModel>(v),
            Err(e) => line_range_of(doc@) == Err::<Option<(usize, usize)>, ToolErrorModel>(e@),
        },
{
    let j: usize = match doc.member(0, "line_range") {
        Err(e) => return Err(map_parse_err(e)),
        Ok(None) => return Ok(None),
        Ok(Some(j)) => j,
    };
    let at = match doc.elements(j) {
        Err(e) => return Err(map_parse_err(e)),
        Ok(at) => at,
    };
    let ghost all = indices(at@);
    if at.len() == 0 {
        return Err(bad("line_range must have exactly 2 elements"));
    }
    assert(all[0] == at@[0]);
    let start: u64 = match doc.unsigned(at[0], usize::MAX as u64) {
        Err(e) => return Err(map_parse_err(e)),
        Ok(n) => n,
    };
    if at.len() == 1 {
        return Err(bad("line_range must have exactly 2 elements"));
    }
    assert(all[1] == at@[1]);
    let end: u64 = match doc.unsigned(at[1], usize::MAX as u64) {
        Err(e) => return Err(map_parse_err(e)),
        Ok(n) => n,
    };
    if at.len() > 2 {
        return Err(bad("line_range must have exactly 2 elements"));
    }
    Ok(Some((start as usize, end as usize)))
}

/// A single edit of a [`PatchInvocation`].
#[derive(Debug, Clone, PartialEq, Eq)]
pub enum PatchTool {
    /// Creates a new file.
    Add { path: String, content: String },
    /// Replaces the only occurrence of `before` in the file with `after`.
    Update { path: String, before: String, after: String },
}

/// A [`PatchTool`] as a mathematical value.
#[verifier::ext_equal]
pub enum EditModel {
    Add { path: Seq<char>, content: Seq<char> },
    Update { path: Seq<char>, before: Seq<char>, after: Seq<char> },
}

impl View for PatchTool {
    type V = EditModel;

    open spec fn view(&self) -> EditModel {
        match self {
            PatchTool::Add { path, content } => EditModel::Add { path: path@, content: content@ },
            PatchTool::Update { path, before, after } => EditModel::Update {
                path: path@,
                before: before@,
                after: after@,
            },
        }
    }
}

/// The path that an edit targets.
pub open spec fn edit_path(e: EditModel) -> Seq<char> {
    match e {
        EditModel::Add { path, .. } => path,
        EditModel::Update { path, .. } => path,
    }
}

impl PatchTool {
    /// The path that the edit targets.
    pub fn path(&self) -> (r: &str)
        ensures
            r@ == edit_path(self@),
    {
        match self {
            PatchTool::Add { path, .. } => path.as_str(),
            PatchTool::Update { path, .. } => path.as_str(),
        }
    }

    /// `add` or `update`.
    pub fn kind_label(&self) -> (r: &'static str)
        ensures
            r@ == (if self is Add {
                "add"@
            } else {
                "update"@
            }),
    {
        match self {
            PatchTool::Add { .. } => "add",
            PatchTool::Update { .. } => "update",
        }
    }
}

/// A batch of edits from a single `patch` call.
#[derive(Debug, Clone, PartialEq, Eq)]
pub struct PatchInvocation {
    pub edits: Vec<PatchTool>,
}

impl View for PatchInvocation {
    type V = Seq<EditModel>;

    open spec fn view(&self) -> Seq<EditModel> {
        deep(self.edits@)
    }
}

/// Whether one of the edits targets that path.
pub open spec fn targets(edits: Seq<EditModel>, path: Seq<char>) -> bool {
    exists|k: int| 0 <= k < edits.len() && edit_path(#[trigger] edits[k]) == path
}

/// What an edit of that kind writes, once its path is known to be free.
pub open spec fn edit_body(
    doc: Seq<NodeModel>,
    i: int,
    kind: Seq<char>,
    path: Seq<char>,
) -> Result<EditModel, ToolErrorModel> {
    if kind == "add"@ {
        match string_arg(doc, i, "content"@) {
            Err(e) => Err(e),
            Ok(content) => if byte_len(content) > PATCH_MAX_FILE_BYTES {
                Err(ToolErrorModel::Patch(PatchErrorModel::FileTooLarge { path }))
            } else {
                Ok(EditModel::Add { path, content })
            },
        }
    } else if kind == "update"@ {
        match string_arg(doc, i, "before"@) {
            Err(e) => Err(e),
            Ok(before) => match string_arg(doc, i, "after"@) {
                Err(e) => Err(e),
                Ok(after) => if byte_len(after) > PATCH_MAX_FILE_BYTES {
                    Err(ToolErrorModel::Patch(PatchErrorModel::FileTooLarge { path }))
                } else {
                    Ok(EditModel::Update { path, before, after })
                },
            },
        }
    } else {
        Err(bad_arguments("unknown edit kind: "@ + kind))
    }
}

/// One edit, given those before it.
pub open spec fn edit_of(doc: Seq<NodeModel>, i: int, earlier: Seq<EditModel>) -> Result<
    EditModel,
    ToolErrorModel,
> {
    match string_arg(doc, i, "kind"@) {
        Err(e) => Err(e),
        Ok(kind) => match string_arg(doc, i, "path"@) {
            Err(e) => Err(e),
            Ok(path) => if targets(earlier, path) {
                Err(ToolErrorModel::Patch(PatchErrorModel::MultipleEditsSamePath { path }))
            } else {
                edit_body(doc, i, kind, path)
            },
        },
    }
}

/// The edits at those places, in order; the first that cannot be read decides
/// the error.
pub open spec fn edits_at(doc: Seq<NodeModel>, at: Seq<int>) -> Result<
    Seq<EditModel>,
    ToolErrorModel,
>
    decreases at.len(),
{
    if at.len() == 0 {
        Ok(Seq::empty())
    } else {
        match edits_at(doc, at.drop_last()) {
            Err(e) => Err(e),
            Ok(earlier) => match edit_of(doc, at.last(), earlier) {
                Err(e) => Err(e),
                Ok(edit) => Ok(earlier.push(edit)),
            },
        }
    }
}

/// The edits that a document asks for: at least one, and no more than
/// [`PATCH_MAX_EDITS`].
pub open spec fn patch_of(doc: Seq<NodeModel>) -> Result<Seq<EditModel>, ToolErrorModel> {
    match required(doc, 0, "edits"@) {
        Err(e) => Err(bad_arguments(e)),
        Ok(j) => match elements(doc, j) {
            Err(e) => Err(bad_arguments(e)),
            Ok(at) => match edits_at(doc, at) {
                Err(e) => Err(e),
                Ok(edits) => if edits.len() == 0 {
                    Err(bad_arguments("edits must not be empty"@))
                } else if edits.len() > PATCH_MAX_EDITS {
                    Err(
                        ToolErrorModel::Patch(
                            PatchErrorModel::TooManyEdits { count: edits.len() as u64 },
                        ),
                    )
                } else {
                    Ok(edits)
                },
            },
        },
    }
}

/// The edits that a text of arguments asks for.
pub open spec fn patch_call(arguments: Seq<char>) -> Result<Seq<EditModel>, ToolErrorModel> {
    match arguments_of(arguments) {
        Err(e) => Err(e),
        Ok(doc) => patch_of(doc),
    }
}

/// An edit that cannot be read decides the result of the whole list.
proof fn lemma_edits_error(doc: Seq<NodeModel>, at: Seq<int>, k: int)
    requires
        0 <= k <= at.len(),
        edits_at(doc, at.take(k)) is Err,
    ensures
        edits_at(doc, at) == edits_at(doc, at.take(k)),
    decreases at.len() - k,
{
    if k < at.len() {
        assert(at.take(k + 1).drop_last() =~= at.take(k));
        lemma_edits_error(doc, at, k + 1);
    } else {
        assert(at.take(k) =~= at);
    }
}

/// Whether paths are pairwise different.
pub open spec fn distinct_paths(edits: Seq<EditModel>) -> bool {
    forall|i: int, j: int|
        0 <= i < j < edits.len() ==> edit_path(#[trigger] edits[i]) != edit_path(
            #[trigger] edits[j],
        )
}

/// Edits that were read target different files.
proof fn lemma_edits_distinct(doc: Seq<NodeModel>, at: Seq<int>)
    ensures
        edits_at(doc, at) matches Ok(edits) ==> distinct_paths(edits),
    decreases at.len(),
{
    if at.len() > 0 {
        lemma_edits_distinct(doc, at.drop_last());
    }
}

/// A patch that was accepted holds between one and [`PATCH_MAX_EDITS`] edits,
/// which target different files.
pub proof fn law_patch_targets_are_distinct(arguments: Seq<char>)
    ensures
        patch_call(arguments) matches Ok(edits) ==> distinct_paths(edits) && 1 <= edits.len()
            <= PATCH_MAX_EDITS,
{
    if let Ok(doc) = arguments_of(arguments) {
        if let Ok(j) = required(doc, 0, "edits"@) {
            if let Ok(at) = elements(doc, j) {
                lemma_edits_distinct(doc, at);
            }
        }
    }
}

impl PatchInvocation {
    /// The definition of the tool, as the model sees it.
    pub fn definition() -> (r: ToolDef)
        ensures
            r@ == definition("patch"@, PATCH_DESCRIPTION@, PATCH_PARAMS_SCHEMA@),
    {
        define("patch", PATCH_DESCRIPTION, PATCH_PARAMS_SCHEMA)
    }

    /// Reads the arguments of a `patch` call.
    pub fn parse(arguments_json: &str) -> (r: Result<PatchInvocation, ToolExecutionError>)
        ensures
            match r {
                Ok(p) => patch_call(arguments_json@) == Ok::<Seq<EditModel>, ToolErrorModel>(p@),
                Err(e) => patch_call(arguments_json@) == Err::<Seq<EditModel>, ToolErrorModel>(e@),
            },
    {
        let doc = parse_arguments(arguments_json)?;
        PatchInvocation::from_json(&doc)
    }

    /// Reads the edits that a document asks for.
    pub fn from_json(doc: &JsonDoc) -> (r: Result<PatchInvocation, ToolExecutionError>)
        requires
            doc.wf(),
        ensures
            match r {
                Ok(p) => patch_of(doc@) == Ok::<Seq<EditModel>, ToolErrorModel>(p@),
                Err(e) => patch_of(doc@) == Err::<Seq<EditModel>, ToolErrorModel>(e@),
            },
    {
        let j: usize = match doc.required(0, "edits") {
            Err(e) => return Err(map_parse_err(e)),
            Ok(j) => j,
        };
        let at = match doc.elements(j) {
            Err(e) => return Err(map_parse_err(e)),
            Ok(at) => at,
        };
        let ghost all = indices(at@);
        let mut edits: Vec<PatchTool> = Vec::new();
        let mut k: usize = 0;
        assert(all.take(0) =~= Seq::empty());
        assert(deep(edits@) =~= Seq::empty());
        while k < at.len()
            invariant
                k <= at@.len(),
                doc.wf(),
                all == indices(at@),
                forall|j: int| 0 <= j < at@.len() ==> #[trigger] at@[j] < doc@.len(),
                required(doc@, 0, "edits"@) == Ok::<int, Seq<char>>(j as int),
                elements(doc@, j as int) == Ok::<Seq<int>, Seq<char>>(all),
                edits_at(doc@, all.take(k as int)) == Ok::<Seq<EditModel>, ToolErrorModel>(
                    deep(edits@),
                ),
            decreases at@.len() - k,
        {
            proof {
                assert(all.take(k + 1).drop_last() =~= all.take(k as int));
                assert(all.take(k + 1).last() == at@[k as int]);
            }
            let ghost before = edits@;
            match parse_edit(doc, at[k], &edits) {
                Ok(edit) => {
                    edits.push(edit);
                    proof {
                        lemma_deep_push(before, edit);
                    }
                },
                Err(e) => {
                    proof {
                        lemma_edits_error(doc@, all, k + 1);
                    }
                    return Err(e);
                },
            }
            k = k + 1;
        }
        assert(all.take(all.len() as int) =~= all);
        if edits.len() == 0 {
            return Err(bad("edits must not be empty"));
        }
        if edits.len() > PATCH_MAX_EDITS {
            return Err(
                ToolExecutionError::Patch(PatchError::TooManyEdits { count: edits.len() as u64 }),
            );
        }
        Ok(PatchInvocation { edits })
    }
}

fn has_target(edits: &Vec<PatchTool>, path: &str) -> (r: bool)
    ensures
        r == targets(deep(edits@), path@),
{
    let mut k: usize = 0;
    while k < edits.len()
        invariant
            k <= edits@.len(),
            forall|j: int| 0 <= j < k ==> edit_path(#[trigger] deep(edits@)[j]) != path@,
        decreases edits@.len() - k,
    {
        assert(deep(edits@)[k as int] == edits@[k as int]@);
        if same(edits[k].path(), path) {
            return true;
        }
        k = k + 1;
    }
    false
}

fn parse_edit(doc: &JsonDoc, item: usize, earlier: &Vec<PatchTool>) -> (r: Result<
    PatchTool,
    ToolExecutionError,
>)
    requires
        doc.wf(),
        item < doc@.len(),
    ensures
        match r {
            Ok(e) => edit_of(doc@, item as int, deep(earlier@)) == Ok::<EditModel, ToolErrorModel>(
                e@,
            ),
            Err(e) => edit_of(doc@, item as int, deep(earlier@)) == Err::<
                EditModel,
                ToolErrorModel,
            >(e@),
        },
{
    let kind = required_string(doc, item, "kind")?;
    let path = required_string(doc, item, "path")?;
    if has_target(earlier, path.as_str()) {
        return Err(ToolExecutionError::Patch(PatchError::MultipleEditsSamePath { path }));
    }
    if same(kind.as_str(), "add") {
        let content = required_string(doc, item, "content")?;
        if content.as_str().len() > PATCH_MAX_FILE_BYTES {
            return Err(ToolExecutionError::Patch(PatchError::FileTooLarge { path }));
        }
        Ok(PatchTool::Add { path, content })
    } else if same(kind.as_str(), "update") {
        let before = required_string(doc, item, "before")?;
        let after = required_string(doc, item, "after")?;
        if after.as_str().len() > PATCH_MAX_FILE_BYTES {
            return Err(ToolExecutionError::Patch(PatchError::FileTooLarge { path }));
        }
        Ok(PatchTool::Update { path, before, after })
    } else {
        let mut message = "unknown edit kind: ".to_owned();
        message.append(kind.as_str());
        Err(ToolExecutionError::ArgumentsParseFailed(message))
    }
}

/// A single command that the model wants to run, without a shell.
#[derive(Debug, Clone, PartialEq, Eq)]
pub struct CommandInvocation {
    /// The program and its arguments.
    pub argv: Vec<String>,
}

impl View for CommandInvocation {
    type V = Seq<Seq<char>>;

    open spec fn view(&self) -> Seq<Seq<char>> {
        views(self.argv@)
    }
}

/// The command that a document asks for.
pub open spec fn command_of(doc: Seq<NodeModel>) -> Result<Seq<Seq<char>>, ToolErrorModel> {
    match string_array_arg(doc, 0, "argv"@) {
        Err(e) => Err(e),
        Ok(argv) => if argv.len() == 0 {
            Err(ToolErrorModel::Command(CommandErrorModel::EmptyArgv))
        } else {
            Ok(argv)
        },
    }
}

/// The command that a text of arguments asks for.
pub open spec fn command_call(arguments: Seq<char>) -> Result<Seq<Seq<char>>, ToolErrorModel> {
    match arguments_of(arguments) {
        Err(e) => Err(e),
        Ok(doc) => command_of(doc),
    }
}

impl CommandInvocation {
    /// The definition of the tool, as the model sees it.
    pub fn definition() -> (r: ToolDef)
        ensures
            r@ == definition("command"@, COMMAND_DESCRIPTION@, COMMAND_PARAMS_SCHEMA@),
    {
        define("command", COMMAND_DESCRIPTION, COMMAND_PARAMS_SCHEMA)
    }

    /// Reads the arguments of a `command` call. The argv is never empty.
    pub fn parse(arguments_json: &str) -> (r: Result<CommandInvocation, ToolExecutionError>)
        ensures
            match r {
                Ok(c) => command_call(arguments_json@) == Ok::<Seq<Seq<char>>, ToolErrorModel>(c@)
                    && c@.len() > 0,
                Err(e) => command_call(arguments_json@) == Err::<Seq<Seq<char>>, ToolErrorModel>(
                    e@,
                ),
            },
    {
        let doc = parse_arguments(arguments_json)?;
        CommandInvocation::from_json(&doc)
    }

    /// Reads the command that a document asks for.
    pub fn from_json(doc: &JsonDoc) -> (r: Result<CommandInvocation, ToolExecutionError>)
        requires
            doc.wf(),
        ensures
            match r {
                Ok(c) => command_of(doc@) == Ok::<Seq<Seq<char>>, ToolErrorModel>(c@) && c@.len()
                    > 0,
                Err(e) => command_of(doc@) == Err::<Seq<Seq<char>>, ToolErrorModel>(e@),
            },
    {
        let argv = required_string_array(doc, 0, "argv")?;
        if argv.len() == 0 {
            return Err(ToolExecutionError::Command(CommandError::EmptyArgv));
        }
        Ok(CommandInvocation { argv })
    }
}

/// A request to load the body of a skill by name.
#[derive(Debug, Clone, PartialEq, Eq)]
pub struct SkillLoadInvocation {
    /// Directory name of the skill under a skill root.
    pub name: String,
}

impl View for SkillLoadInvocation {
    type V = Seq<char>;

    open spec fn view(&self) -> Seq<char> {
        self.name@
    }
}

/// The skill that a document asks for.
pub open spec fn skill_of(doc: Seq<NodeModel>) -> Result<Seq<char>, ToolErrorModel> {
    match string_arg(doc, 0, "name"@) {
        Err(e) => Err(e),
        Ok(name) => if trimmed(name).len() == 0 {
            Err(bad_arguments("skill_load: name must not be empty"@))
        } else {
            Ok(name)
        },
    }
}

/// The skill that a text of arguments asks for.
pub open spec fn skill_call(arguments: Seq<char>) -> Result<Seq<char>, ToolErrorModel> {
    match arguments_of(arguments) {
        Err(e) => Err(e),
        Ok(doc) => skill_of(doc),
    }
}

impl SkillLoadInvocation {
    /// The definition of the tool, as the model sees it.
    pub fn definition() -> (r: ToolDef)
        ensures
            r@ == definition("skill_load"@, SKILL_LOAD_DESCRIPTION@, SKILL_LOAD_PARAMS_SCHEMA@),
    {
        define("skill_load", SKILL_LOAD_DESCRIPTION, SKILL_LOAD_PARAMS_SCHEMA)
    }

    /// Reads the arguments of a `skill_load` call.
    pub fn parse(arguments_json: &str) -> (r: Result<SkillLoadInvocation, ToolExecutionError>)
        ensures
            match r {
                Ok(s) => skill_call(arguments_json@) == Ok::<Seq<char>, ToolErrorModel>(s@),
                Err(e) => skill_call(arguments_json@) == Err::<Seq<char>, ToolErrorModel>(e@),
            },
    {
        let doc = parse_arguments(arguments_json)?;
        SkillLoadInvocation::from_json(&doc)
    }

    /// Reads the skill that a document asks for.
    pub fn from_json(doc: &JsonDoc) -> (r: Result<SkillLoadInvocation, ToolExecutionError>)
        requires
            doc.wf(),
        ensures
            match r {
                Ok(s) => skill_of(doc@) == Ok::<Seq<char>, ToolErrorModel>(s@),
                Err(e) => skill_of(doc@) == Err::<Seq<char>, ToolErrorModel>(e@),
            },
    {
        let name = required_string(doc, 0, "name")?;
        if trim(name.as_str()).as_str().is_empty() {
            return Err(bad("skill_load: name must not be empty"));
        }
        Ok(SkillLoadInvocation { name })
    }
}

/// A request to run a child agent in a session of its own.
#[derive(Debug, Clone, PartialEq, Eq)]
pub struct SubagentRunInvocation {
    pub prompt: String,
    pub session_name: Option<String>,
}

/// A [`SubagentRunInvocation`] as a mathematical value.
#[verifier::ext_equal]
pub struct SubagentModel {
    pub prompt: Seq<char>,
    pub session_name: Option<Seq<char>>,
}

impl View for SubagentRunInvocation {
    type V = SubagentModel;

    open spec fn view(&self) -> SubagentModel {
        SubagentModel { prompt: self.prompt@, session_name: maybe(self.session_name) }
    }
}

/// The child agent that a document asks for.
pub open spec fn subagent_of(doc: Seq<NodeModel>) -> Result<SubagentModel, ToolErrorModel> {
    match string_arg(doc, 0, "prompt"@) {
        Err(e) => Err(e),
        Ok(prompt) => if trimmed(prompt).len() == 0 {
            Err(bad_arguments("subagent_run: prompt must not be empty"@))
        } else {
            match optional_string_arg(doc, 0, "session_name"@) {
                Err(e) => Err(e),
                Ok(session_name) => match session_name {
                    Some(name) if trimmed(name).len() == 0 => Err(
                        bad_arguments("subagent_run: session_name must not be empty"@),
                    ),
                    _ => Ok(SubagentModel { prompt, session_name }),
                },
            }
        },
    }
}

/// The child agent that a text of arguments asks for.
pub open spec fn subagent_call(arguments: Seq<char>) -> Result<SubagentModel, ToolErrorModel> {
    match arguments_of(arguments) {
        Err(e) => Err(e),
        Ok(doc) => subagent_of(doc),
    }
}

impl SubagentRunInvocation {
    /// The definition of the tool, as the model sees it.
    pub fn definition() -> (r: ToolDef)
        ensures
            r@ == definition(
                "subagent_run"@,
                SUBAGENT_RUN_DESCRIPTION@,
                SUBAGENT_RUN_PARAMS_SCHEMA@,
            ),
    {
        define("subagent_run", SUBAGENT_RUN_DESCRIPTION, SUBAGENT_RUN_PARAMS_SCHEMA)
    }

    /// Reads the arguments of a `subagent_run` call.
    pub fn parse(arguments_json: &str) -> (r: Result<SubagentRunInvocation, ToolExecutionError>)
        ensures
            match r {
                Ok(s) => subagent_call(arguments_json@) == Ok::<SubagentModel, ToolErrorModel>(s@),
                Err(e) => subagent_call(arguments_json@) == Err::<SubagentModel, ToolErrorModel>(
                    e@,
                ),
            },
    {
        let doc = parse_arguments(arguments_json)?;
        SubagentRunInvocation::from_json(&doc)
    }

    /// Reads the child agent that a document asks for.
    pub fn from_json(doc: &JsonDoc) -> (r: Result<SubagentRunInvocation, ToolExecutionError>)
        requires
            doc.wf(),
        ensures
            match r {
                Ok(s) => subagent_of(doc@) == Ok::<SubagentModel, ToolErrorModel>(s@),
                Err(e) => subagent_of(doc@) == Err::<SubagentModel, ToolErrorModel>(e@),
            },
    {
        let prompt = required_string(doc, 0, "prompt")?;
        if trim(prompt.as_str()).as_str().is_empty() {
            return Err(bad("subagent_run: prompt must not be empty"));
        }
        let session_name = optional_string(doc, 0, "session_name")?;
        if let Some(name) = &session_name {
            if trim(name.as_str()).as_str().is_empty() {
                return Err(bad("subagent_run: session_name must not be empty"));
            }
        }
        Ok(SubagentRunInvocation { prompt, session_name })
    }
}

} // verus!
