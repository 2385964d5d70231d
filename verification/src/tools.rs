//! Tool registry: converts between the agent's typed tool calls and the
//! generic `tool_calls` JSON format of OpenAI.
//!
//! Local mode only advertises the subset of tools that are common enough to
//! make a working agent: `run_shell_command`, `read_files`, `grep`,
//! `file_glob`, `apply_file_diffs`. The model simply does not know of others.
//!
//! 1. [`supported_tools`] gives the definitions that go into every request.
//! 2. [`try_build_warp_tool`] turns a function name and its JSON arguments
//!    into a typed tool.
//! 3. [`warp_tool_to_openai_tool_call`] turns a typed tool of an earlier turn
//!    back into the name and arguments that the model had given.

use vstd::prelude::*;

use crate::agent::ApplyFileDiffs;
use crate::agent::ApplyFileDiffsView;
use crate::agent::DeleteFile;
use crate::agent::DeleteFileView;
use crate::agent::FileDiff;
use crate::agent::FileDiffView;
use crate::agent::FileGlobV2;
use crate::agent::FileGlobV2View;
use crate::agent::Grep;
use crate::agent::GrepView;
use crate::agent::NewFile;
use crate::agent::NewFileView;
use crate::agent::ReadFile;
use crate::agent::ReadFileView;
use crate::agent::ReadFiles;
use crate::agent::ReadFilesView;
use crate::agent::RunShellCommand;
use crate::agent::RunShellCommandView;
use crate::agent::Tool;
use crate::agent::ToolView;
use crate::json;
use crate::json::Json;
use crate::openai::OpenAiFunctionCall;
use crate::openai::OpenAiFunctionDef;
use crate::openai::OpenAiTool;
use crate::openai::OpenAiToolCall;
use crate::openai::ToolCallView;
use crate::openai::ToolDefView;
use crate::record;
use crate::record::Record;
use crate::schema;
use crate::text::same;

verus! {

// ---- Names -----------------------------------------------------------------

pub const TOOL_RUN_SHELL_COMMAND: &'static str = "run_shell_command";

pub const TOOL_READ_FILES: &'static str = "read_files";

pub const TOOL_GREP: &'static str = "grep";

pub const TOOL_FILE_GLOB: &'static str = "file_glob";

pub const TOOL_APPLY_FILE_DIFFS: &'static str = "apply_file_diffs";

// ---- Definitions -----------------------------------------------------------

pub const RUN_SHELL_COMMAND_TEXT: &'static str =
    "Run a shell command in the user's terminal and return its stdout, \
     stderr, and exit code. The user may approve, edit, or reject the \
     command before it executes — assume the result reflects what \
     actually ran.";

pub const COMMAND_TEXT: &'static str =
    "The shell command to execute. Multi-line scripts are allowed.";

pub const READ_FILES_TEXT: &'static str =
    "Read one or more files from the user's working directory. \
     Returns the contents of each file. Prefer this over `cat`.";

pub const PATHS_TEXT: &'static str = "Relative or absolute paths of files to read.";

pub const GREP_TEXT: &'static str =
    "Search file contents for one or more substrings/patterns. Returns \
     the file paths and line numbers of matches.";

pub const QUERIES_TEXT: &'static str = "Substrings or regex patterns to search for.";

pub const PATH_TEXT: &'static str =
    "Relative path to the file or directory to search in. Defaults to current directory.";

pub const FILE_GLOB_TEXT: &'static str =
    "Find files whose names match shell-style glob patterns (?, *, []). \
     Returns matching paths.";

pub const PATTERNS_TEXT: &'static str = "Glob patterns to match against file names.";

pub const SEARCH_DIR_TEXT: &'static str =
    "Relative path to the directory to search. Defaults to current directory.";

pub const APPLY_FILE_DIFFS_TEXT: &'static str =
    "Edit existing files via search-and-replace, create new files, or \
     delete files. Each diff replaces an exact substring within a file. \
     The `search` text must occur exactly once in the file.";

pub const SUMMARY_TEXT: &'static str = "One-sentence description of the change.";

pub const DIFFS_TEXT: &'static str = "Search-and-replace edits to apply.";

pub const SEARCH_TEXT: &'static str = "Exact substring to replace.";

pub const REPLACE_TEXT: &'static str = "Replacement text.";

pub const NEW_FILES_TEXT: &'static str = "Files to create.";

pub const DELETED_FILES_TEXT: &'static str = "Files to delete.";

/// The arguments of `run_shell_command`.
pub open spec fn run_shell_command_schema() -> Json {
    schema::object_schema(
        seq![("command"@, schema::described_string_schema(COMMAND_TEXT@))],
        seq!["command"@],
    )
}

/// The arguments of `read_files`.
pub open spec fn read_files_schema() -> Json {
    schema::object_schema(
        seq![("paths"@, schema::list_schema(PATHS_TEXT@, schema::string_schema()))],
        seq!["paths"@],
    )
}

/// The arguments of `grep`.
pub open spec fn grep_schema() -> Json {
    schema::object_schema(
        seq![
            ("path"@, schema::described_string_schema(PATH_TEXT@)),
            ("queries"@, schema::list_schema(QUERIES_TEXT@, schema::string_schema())),
        ],
        seq!["queries"@],
    )
}

/// The arguments of `file_glob`.
pub open spec fn file_glob_schema() -> Json {
    schema::object_schema(
        seq![
            ("patterns"@, schema::list_schema(PATTERNS_TEXT@, schema::string_schema())),
            ("search_dir"@, schema::described_string_schema(SEARCH_DIR_TEXT@)),
        ],
        seq!["patterns"@],
    )
}

/// An edit of `apply_file_diffs`.
pub open spec fn diff_schema() -> Json {
    schema::object_schema(
        seq![
            ("file_path"@, schema::string_schema()),
            ("replace"@, schema::described_string_schema(REPLACE_TEXT@)),
            ("search"@, schema::described_string_schema(SEARCH_TEXT@)),
        ],
        seq!["file_path"@, "search"@, "replace"@],
    )
}

/// A new file of `apply_file_diffs`.
pub open spec fn new_file_schema() -> Json {
    schema::object_schema(
        seq![
            ("content"@, schema::string_schema()),
            ("file_path"@, schema::string_schema()),
        ],
        seq!["file_path"@, "content"@],
    )
}

/// A deleted file of `apply_file_diffs`.
pub open spec fn deleted_file_schema() -> Json {
    schema::object_schema(
        seq![("file_path"@, schema::string_schema())],
        seq!["file_path"@],
    )
}

/// The arguments of `apply_file_diffs`.
pub open spec fn apply_file_diffs_schema() -> Json {
    schema::object_schema(
        seq![
            ("deleted_files"@, schema::list_schema(DELETED_FILES_TEXT@, deleted_file_schema())),
            ("diffs"@, schema::list_schema(DIFFS_TEXT@, diff_schema())),
            ("new_files"@, schema::list_schema(NEW_FILES_TEXT@, new_file_schema())),
            ("summary"@, schema::described_string_schema(SUMMARY_TEXT@)),
        ],
        seq!["summary"@],
    )
}

/// A function that the model may call.
pub open spec fn tool_def(
    name: Seq<char>,
    description: Seq<char>,
    parameters: Json,
) -> ToolDefView {
    ToolDefView {
        kind: "function"@,
        name,
        description,
        parameters: json::json_text(parameters),
    }
}

/// The tools that local models are told of.
pub open spec fn tool_catalog() -> Seq<ToolDefView> {
    seq![
        tool_def(
            TOOL_RUN_SHELL_COMMAND@,
            RUN_SHELL_COMMAND_TEXT@,
            run_shell_command_schema(),
        ),
        tool_def(TOOL_READ_FILES@, READ_FILES_TEXT@, read_files_schema()),
        tool_def(TOOL_GREP@, GREP_TEXT@, grep_schema()),
        tool_def(TOOL_FILE_GLOB@, FILE_GLOB_TEXT@, file_glob_schema()),
        tool_def(TOOL_APPLY_FILE_DIFFS@, APPLY_FILE_DIFFS_TEXT@, apply_file_diffs_schema()),
    ]
}

/// Returns the tool definitions that get sent to the local model. Each comes
/// with the JSON Schema of its arguments, so that the model produces
/// arguments that [`try_build_warp_tool`] can decode.
pub fn supported_tools() -> (r: Vec<OpenAiTool>)
    ensures
        r.deep_view() == tool_catalog(),
{
    let tools: Vec<OpenAiTool> = vec![
        run_shell_command_def(),
        read_files_def(),
        grep_def(),
        file_glob_def(),
        apply_file_diffs_def(),
    ];
    assert(tools.deep_view() =~= tool_catalog());
    tools
}

fn function_tool(
    name: &str,
    description: &str,
    parameters: String,
) -> (r: OpenAiTool)
    ensures
        r.deep_view() == (ToolDefView {
            kind: "function"@,
            name: name@,
            description: description@,
            parameters: parameters@,
        }),
{
    OpenAiTool {
        kind: "function".to_string(),
        function: OpenAiFunctionDef {
            name: name.to_string(),
            description: description.to_string(),
            parameters,
        },
    }
}

fn one_name(name: &str) -> (r: Vec<String>)
    ensures
        r.deep_view() == seq![name@],
{
    let names: Vec<String> = vec![name.to_string()];
    assert(names.deep_view() =~= seq![name@]);
    names
}

pub fn run_shell_command_def() -> (r: OpenAiTool)
    ensures
        r.deep_view() == tool_def(
            TOOL_RUN_SHELL_COMMAND@,
            RUN_SHELL_COMMAND_TEXT@,
            run_shell_command_schema(),
        ),
{
    let ghost command = schema::described_string_schema(COMMAND_TEXT@);
    let ghost fields = seq![("command"@, command)];
    let properties: String = schema::object1(
        "command",
        schema::write_described_string_schema(COMMAND_TEXT),
        Ghost(command),
    );
    function_tool(
        TOOL_RUN_SHELL_COMMAND,
        RUN_SHELL_COMMAND_TEXT,
        schema::write_object_schema(
            properties,
            &one_name("command"),
            Ghost(fields),
        ),
    )
}

fn write_string_list_schema(description: &str) -> (r: String)
    ensures
        r@ == json::json_text(schema::list_schema(description@, schema::string_schema())),
{
    schema::write_list_schema(
        description,
        schema::write_string_schema(),
        Ghost(schema::string_schema()),
    )
}

pub fn read_files_def() -> (r: OpenAiTool)
    ensures
        r.deep_view() == tool_def(TOOL_READ_FILES@, READ_FILES_TEXT@, read_files_schema()),
{
    let ghost paths = schema::list_schema(PATHS_TEXT@, schema::string_schema());
    let ghost fields = seq![("paths"@, paths)];
    let properties: String = schema::object1(
        "paths",
        write_string_list_schema(PATHS_TEXT),
        Ghost(paths),
    );
    function_tool(
        TOOL_READ_FILES,
        READ_FILES_TEXT,
        schema::write_object_schema(
            properties,
            &one_name("paths"),
            Ghost(fields),
        ),
    )
}

pub fn grep_def() -> (r: OpenAiTool)
    ensures
        r.deep_view() == tool_def(TOOL_GREP@, GREP_TEXT@, grep_schema()),
{
    proof {
        schema::lemma_name_order();
    }
    let ghost path = schema::described_string_schema(PATH_TEXT@);
    let ghost queries = schema::list_schema(QUERIES_TEXT@, schema::string_schema());
    let ghost fields = seq![("path"@, path), ("queries"@, queries)];
    let properties: String = schema::object2(
        "path",
        schema::write_described_string_schema(PATH_TEXT),
        "queries",
        write_string_list_schema(QUERIES_TEXT),
        Ghost(path),
        Ghost(queries),
    );
    function_tool(
        TOOL_GREP,
        GREP_TEXT,
        schema::write_object_schema(
            properties,
            &one_name("queries"),
            Ghost(fields),
        ),
    )
}

pub fn file_glob_def() -> (r: OpenAiTool)
    ensures
        r.deep_view() == tool_def(TOOL_FILE_GLOB@, FILE_GLOB_TEXT@, file_glob_schema()),
{
    proof {
        schema::lemma_name_order();
    }
    let ghost patterns = schema::list_schema(PATTERNS_TEXT@, schema::string_schema());
    let ghost search_dir = schema::described_string_schema(SEARCH_DIR_TEXT@);
    let ghost fields = seq![("patterns"@, patterns), ("search_dir"@, search_dir)];
    let properties: String = schema::object2(
        "patterns",
        write_string_list_schema(PATTERNS_TEXT),
        "search_dir",
        schema::write_described_string_schema(SEARCH_DIR_TEXT),
        Ghost(patterns),
        Ghost(search_dir),
    );
    function_tool(
        TOOL_FILE_GLOB,
        FILE_GLOB_TEXT,
        schema::write_object_schema(
            properties,
            &one_name("patterns"),
            Ghost(fields),
        ),
    )
}

fn write_diff_schema() -> (r: String)
    ensures
        r@ == json::json_text(diff_schema()),
{
    proof {
        schema::lemma_name_order();
    }
    let ghost file_path = schema::string_schema();
    let ghost replace = schema::described_string_schema(REPLACE_TEXT@);
    let ghost search = schema::described_string_schema(SEARCH_TEXT@);
    let ghost fields = seq![("file_path"@, file_path), ("replace"@, replace), ("search"@, search)];
    let properties: String = schema::object3(
        "file_path",
        schema::write_string_schema(),
        "replace",
        schema::write_described_string_schema(REPLACE_TEXT),
        "search",
        schema::write_described_string_schema(SEARCH_TEXT),
        Ghost(file_path),
        Ghost(replace),
        Ghost(search),
    );
    let required: Vec<String> = vec![
        "file_path".to_string(),
        "search".to_string(),
        "replace".to_string(),
    ];
    assert(required.deep_view() =~= seq!["file_path"@, "search"@, "replace"@]);
    schema::write_object_schema(
        properties,
        &required,
        Ghost(fields),
    )
}

fn write_new_file_schema() -> (r: String)
    ensures
        r@ == json::json_text(new_file_schema()),
{
    proof {
        schema::lemma_name_order();
    }
    let ghost string = schema::string_schema();
    let ghost fields = seq![("content"@, string), ("file_path"@, string)];
    let properties: String = schema::object2(
        "content",
        schema::write_string_schema(),
        "file_path",
        schema::write_string_schema(),
        Ghost(string),
        Ghost(string),
    );
    let required: Vec<String> = vec!["file_path".to_string(), "content".to_string()];
    assert(required.deep_view() =~= seq!["file_path"@, "content"@]);
    schema::write_object_schema(
        properties,
        &required,
        Ghost(fields),
    )
}

fn write_deleted_file_schema() -> (r: String)
    ensures
        r@ == json::json_text(deleted_file_schema()),
{
    let ghost string = schema::string_schema();
    let ghost fields = seq![("file_path"@, string)];
    let properties: String = schema::object1(
        "file_path",
        schema::write_string_schema(),
        Ghost(string),
    );
    schema::write_object_schema(
        properties,
        &one_name("file_path"),
        Ghost(fields),
    )
}

pub fn apply_file_diffs_def() -> (r: OpenAiTool)
    ensures
        r.deep_view() == tool_def(
            TOOL_APPLY_FILE_DIFFS@,
            APPLY_FILE_DIFFS_TEXT@,
            apply_file_diffs_schema(),
        ),
{
    proof {
        schema::lemma_name_order();
    }
    let ghost deleted_files = schema::list_schema(DELETED_FILES_TEXT@, deleted_file_schema());
    let ghost diffs = schema::list_schema(DIFFS_TEXT@, diff_schema());
    let ghost new_files = schema::list_schema(NEW_FILES_TEXT@, new_file_schema());
    let ghost summary = schema::described_string_schema(SUMMARY_TEXT@);
    let ghost fields = seq![
        ("deleted_files"@, deleted_files),
        ("diffs"@, diffs),
        ("new_files"@, new_files),
        ("summary"@, summary),
    ];
    let properties: String = schema::object4(
        "deleted_files",
        schema::write_list_schema(
            DELETED_FILES_TEXT,
            write_deleted_file_schema(),
            Ghost(deleted_file_schema()),
        ),
        "diffs",
        schema::write_list_schema(DIFFS_TEXT, write_diff_schema(), Ghost(diff_schema())),
        "new_files",
        schema::write_list_schema(
            NEW_FILES_TEXT,
            write_new_file_schema(),
            Ghost(new_file_schema()),
        ),
        "summary",
        schema::write_described_string_schema(SUMMARY_TEXT),
        Ghost(deleted_files),
        Ghost(diffs),
        Ghost(new_files),
        Ghost(summary),
    );
    function_tool(
        TOOL_APPLY_FILE_DIFFS,
        APPLY_FILE_DIFFS_TEXT,
        schema::write_object_schema(
            properties,
            &one_name("summary"),
            Ghost(fields),
        ),
    )
}

// ---- From a call to a tool -------------------------------------------------

/// An edit among the arguments of `apply_file_diffs`.
pub open spec fn diff_entry(t: Seq<char>) -> Option<FileDiffView> {
    match record::object_record(t, seq!["file_path"@, "search"@, "replace"@]) {
        Some(r) => match (
            record::required_text(r.values[0]),
            record::required_text(r.values[1]),
            record::required_text(r.values[2]),
        ) {
            (Some(file_path), Some(search), Some(replace)) => Some(
                FileDiffView { file_path, search, replace },
            ),
            _ => None,
        },
        None => None,
    }
}

/// A new file among the arguments of `apply_file_diffs`.
pub open spec fn new_file_entry(t: Seq<char>) -> Option<NewFileView> {
    match record::object_record(t, seq!["file_path"@, "content"@]) {
        Some(r) => match (
            record::required_text(r.values[0]),
            record::required_text(r.values[1]),
        ) {
            (Some(file_path), Some(content)) => Some(NewFileView { file_path, content }),
            _ => None,
        },
        None => None,
    }
}

/// A deleted file among the arguments of `apply_file_diffs`.
pub open spec fn deleted_file_entry(t: Seq<char>) -> Option<DeleteFileView> {
    match record::object_record(t, seq!["file_path"@]) {
        Some(r) => match record::required_text(r.values[0]) {
            Some(file_path) => Some(DeleteFileView { file_path }),
            None => None,
        },
        None => None,
    }
}

/// A file that is to be read whole.
pub open spec fn whole_file(name: Seq<char>) -> ReadFileView {
    ReadFileView { name, line_ranges: Seq::empty() }
}

/// The given value, or an empty one.
pub open spec fn or_empty<T>(list: Option<Seq<T>>) -> Seq<T> {
    match list {
        Some(list) => list,
        None => Seq::empty(),
    }
}

/// The command that the arguments of `run_shell_command` ask for.
pub open spec fn built_run_shell_command(args: Seq<char>) -> Option<ToolView> {
    match record::object_record(args, seq!["command"@]) {
        Some(r) => match record::required_text(r.values[0]) {
            Some(command) => Some(ToolView::RunShellCommand(RunShellCommandView { command })),
            None => None,
        },
        None => None,
    }
}

/// The files that the arguments of `read_files` ask for.
pub open spec fn built_read_files(args: Seq<char>) -> Option<ToolView> {
    match record::object_record(args, seq!["paths"@]) {
        Some(r) => match record::required_text_list(r.values[0]) {
            Some(paths) => Some(
                ToolView::ReadFiles(
                    ReadFilesView { files: paths.map_values(|name: Seq<char>| whole_file(name)) },
                ),
            ),
            None => None,
        },
        None => None,
    }
}

/// The search that the arguments of `grep` ask for.
pub open spec fn built_grep(args: Seq<char>) -> Option<ToolView> {
    match record::object_record(args, seq!["queries"@, "path"@]) {
        Some(r) => match (
            record::required_text_list(r.values[0]),
            record::optional_text(r.values[1]),
        ) {
            (Some(queries), Some(path)) => Some(
                ToolView::Grep(GrepView { queries, path: or_empty(path) }),
            ),
            _ => None,
        },
        None => None,
    }
}

/// The search that the arguments of `file_glob` ask for.
pub open spec fn built_file_glob(args: Seq<char>) -> Option<ToolView> {
    match record::object_record(args, seq!["patterns"@, "search_dir"@]) {
        Some(r) => match (
            record::required_text_list(r.values[0]),
            record::optional_text(r.values[1]),
        ) {
            (Some(patterns), Some(search_dir)) => Some(
                ToolView::FileGlobV2(FileGlobV2View { patterns, search_dir: or_empty(search_dir) }),
            ),
            _ => None,
        },
        None => None,
    }
}

/// The change that the arguments of `apply_file_diffs` ask for.
pub open spec fn built_apply_file_diffs(args: Seq<char>) -> Option<ToolView> {
    match record::object_record(args, seq!["summary"@, "diffs"@, "new_files"@, "deleted_files"@]) {
        Some(r) => match (
            record::required_text(r.values[0]),
            record::optional_entries(r.values[1], |t: Seq<char>| diff_entry(t)),
            record::optional_entries(r.values[2], |t: Seq<char>| new_file_entry(t)),
            record::optional_entries(r.values[3], |t: Seq<char>| deleted_file_entry(t)),
        ) {
            (Some(summary), Some(diffs), Some(new_files), Some(deleted_files)) => Some(
                ToolView::ApplyFileDiffs(
                    ApplyFileDiffsView {
                        summary,
                        diffs: or_empty(diffs),
                        new_files: or_empty(new_files),
                        deleted_files: or_empty(deleted_files),
                        v4a_updates: Seq::empty(),
                    },
                ),
            ),
            _ => None,
        },
        None => None,
    }
}

/// The tool that a call by `name` with the arguments `args` stands for.
/// Nothing where no such tool is advertised or the arguments are not those
/// of its schema.
pub open spec fn built_tool(name: Seq<char>, args: Seq<char>) -> Option<ToolView> {
    if name == TOOL_RUN_SHELL_COMMAND@ {
        built_run_shell_command(args)
    } else if name == TOOL_READ_FILES@ {
        built_read_files(args)
    } else if name == TOOL_GREP@ {
        built_grep(args)
    } else if name == TOOL_FILE_GLOB@ {
        built_file_glob(args)
    } else if name == TOOL_APPLY_FILE_DIFFS@ {
        built_apply_file_diffs(args)
    } else {
        None
    }
}

fn read_args(args_json: &str, names: Vec<&str>, Ghost(fields): Ghost<Seq<Seq<char>>>) -> (r:
    Option<Record>)
    requires
        names@.len() == fields.len(),
        forall|i: int| 0 <= i < names@.len() ==> (#[trigger] names@[i])@ == fields[i],
    ensures
        r.deep_view() == record::object_record(args_json@, fields),
        r is Some ==> r->0.values@.len() == fields.len(),
{
    assert(names.deep_view() =~= fields);
    record::read_object_record(args_json, &names)
}

fn read_diff_entry(t: &str) -> (r: Option<FileDiff>)
    ensures
        r.deep_view() == diff_entry(t@),
{
    let ghost fields = seq!["file_path"@, "search"@, "replace"@];
    let r: Record = match read_args(t, vec!["file_path", "search", "replace"], Ghost(fields)) {
        Some(r) => r,
        None => {
            return None;
        },
    };
    match (
        record::read_required_text(&r.values[0]),
        record::read_required_text(&r.values[1]),
        record::read_required_text(&r.values[2]),
    ) {
        (Some(file_path), Some(search), Some(replace)) => Some(
            FileDiff { file_path, search, replace },
        ),
        _ => None,
    }
}

fn read_new_file_entry(t: &str) -> (r: Option<NewFile>)
    ensures
        r.deep_view() == new_file_entry(t@),
{
    let ghost fields = seq!["file_path"@, "content"@];
    let r: Record = match read_args(t, vec!["file_path", "content"], Ghost(fields)) {
        Some(r) => r,
        None => {
            return None;
        },
    };
    match (
        record::read_required_text(&r.values[0]),
        record::read_required_text(&r.values[1]),
    ) {
        (Some(file_path), Some(content)) => Some(NewFile { file_path, content }),
        _ => None,
    }
}

fn read_deleted_file_entry(t: &str) -> (r: Option<DeleteFile>)
    ensures
        r.deep_view() == deleted_file_entry(t@),
{
    let ghost fields = seq!["file_path"@];
    let r: Record = match read_args(t, vec!["file_path"], Ghost(fields)) {
        Some(r) => r,
        None => {
            return None;
        },
    };
    match record::read_required_text(&r.values[0]) {
        Some(file_path) => Some(DeleteFile { file_path }),
        None => None,
    }
}

fn text_or_empty(text: Option<String>) -> (r: String)
    ensures
        r@ == or_empty(text.deep_view()),
{
    match text {
        Some(text) => text,
        None => String::new(),
    }
}

fn list_or_empty<T: DeepView>(list: Option<Vec<T>>) -> (r: Vec<T>)
    ensures
        r.deep_view() == or_empty(list.deep_view()),
{
    match list {
        Some(list) => list,
        None => {
            let none: Vec<T> = Vec::new();
            assert(none.deep_view() =~= Seq::empty());
            none
        },
    }
}

fn build_run_shell_command(args_json: &str) -> (r: Option<Tool>)
    ensures
        r.deep_view() == built_run_shell_command(args_json@),
{
    let ghost fields = seq!["command"@];
    let r: Record = match read_args(args_json, vec!["command"], Ghost(fields)) {
        Some(r) => r,
        None => {
            return None;
        },
    };
    match record::read_required_text(&r.values[0]) {
        Some(command) => Some(Tool::RunShellCommand(RunShellCommand { command })),
        None => None,
    }
}

fn build_read_files(args_json: &str) -> (r: Option<Tool>)
    ensures
        r.deep_view() == built_read_files(args_json@),
{
    let ghost fields = seq!["paths"@];
    let r: Record = match read_args(args_json, vec!["paths"], Ghost(fields)) {
        Some(r) => r,
        None => {
            return None;
        },
    };
    let paths: Vec<String> = match record::read_required_text_list(&r.values[0]) {
        Some(paths) => paths,
        None => {
            return None;
        },
    };
    let ghost wanted = paths.deep_view().map_values(|name: Seq<char>| whole_file(name));
    let mut files: Vec<ReadFile> = Vec::new();
    let mut i: usize = 0;
    while i < paths.len()
        invariant
            i <= paths@.len(),
            files@.len() == i,
            wanted == paths.deep_view().map_values(|name: Seq<char>| whole_file(name)),
            files.deep_view() == wanted.take(i as int),
        decreases paths@.len() - i,
    {
        let ghost prior = files.deep_view();
        let file = ReadFile { name: paths[i].clone(), line_ranges: Vec::new() };
        assert(file.deep_view() =~= wanted[i as int]);
        files.push(file);
        assert(files.deep_view() =~= prior.push(file.deep_view()));
        assert(files.deep_view() =~= wanted.take(i + 1));
        i = i + 1;
    }
    assert(wanted.take(i as int) =~= wanted);
    Some(Tool::ReadFiles(ReadFiles { files }))
}

fn build_grep(args_json: &str) -> (r: Option<Tool>)
    ensures
        r.deep_view() == built_grep(args_json@),
{
    let ghost fields = seq!["queries"@, "path"@];
    let r: Record = match read_args(args_json, vec!["queries", "path"], Ghost(fields)) {
        Some(r) => r,
        None => {
            return None;
        },
    };
    match (
        record::read_required_text_list(&r.values[0]),
        record::read_optional_text(&r.values[1]),
    ) {
        (Some(queries), Some(path)) => Some(
            Tool::Grep(Grep { queries, path: text_or_empty(path) }),
        ),
        _ => None,
    }
}

fn build_file_glob(args_json: &str) -> (r: Option<Tool>)
    ensures
        r.deep_view() == built_file_glob(args_json@),
{
    let ghost fields = seq!["patterns"@, "search_dir"@];
    let r: Record = match read_args(args_json, vec!["patterns", "search_dir"], Ghost(fields)) {
        Some(r) => r,
        None => {
            return None;
        },
    };
    match (
        record::read_required_text_list(&r.values[0]),
        record::read_optional_text(&r.values[1]),
    ) {
        (Some(patterns), Some(search_dir)) => Some(
            Tool::FileGlobV2(FileGlobV2 { patterns, search_dir: text_or_empty(search_dir) }),
        ),
        _ => None,
    }
}

fn build_apply_file_diffs(args_json: &str) -> (r: Option<Tool>)
    ensures
        r.deep_view() == built_apply_file_diffs(args_json@),
{
    let ghost fields = seq!["summary"@, "diffs"@, "new_files"@, "deleted_files"@];
    let r: Record = match read_args(
        args_json,
        vec!["summary", "diffs", "new_files", "deleted_files"],
        Ghost(fields),
    ) {
        Some(r) => r,
        None => {
            return None;
        },
    };
    match (
        record::read_required_text(&r.values[0]),
        record::read_optional_entries(
            &r.values[1],
            read_diff_entry,
            Ghost(|t: Seq<char>| diff_entry(t)),
        ),
        record::read_optional_entries(
            &r.values[2],
            read_new_file_entry,
            Ghost(|t: Seq<char>| new_file_entry(t)),
        ),
        record::read_optional_entries(
            &r.values[3],
            read_deleted_file_entry,
            Ghost(|t: Seq<char>| deleted_file_entry(t)),
        ),
    ) {
        (Some(summary), Some(diffs), Some(new_files), Some(deleted_files)) => {
            let change = ApplyFileDiffs {
                summary,
                diffs: list_or_empty(diffs),
                new_files: list_or_empty(new_files),
                deleted_files: list_or_empty(deleted_files),
                v4a_updates: Vec::new(),
            };
            assert(change.v4a_updates.deep_view() =~= Seq::empty());
            Some(Tool::ApplyFileDiffs(change))
        },
        _ => None,
    }
}

/// Builds the tool that a call by `name` stands for, from the call's JSON
/// arguments. Returns `None` where the name is unknown or the arguments do
/// not match the schema (the model made them up). Fields that the schema does
/// not have are ignored.
pub fn try_build_warp_tool(name: &str, args_json: &str) -> (r: Option<Tool>)
    ensures
        r.deep_view() == built_tool(name@, args_json@),
{
    if same(name, TOOL_RUN_SHELL_COMMAND) {
        build_run_shell_command(args_json)
    } else if same(name, TOOL_READ_FILES) {
        build_read_files(args_json)
    } else if same(name, TOOL_GREP) {
        build_grep(args_json)
    } else if same(name, TOOL_FILE_GLOB) {
        build_file_glob(args_json)
    } else if same(name, TOOL_APPLY_FILE_DIFFS) {
        build_apply_file_diffs(args_json)
    } else {
        None
    }
}

// ---- From a tool to a call -------------------------------------------------

/// An edit as it stands among the arguments.
pub open spec fn diff_json(d: FileDiffView) -> Json {
    Json::Obj(
        seq![
            ("file_path"@, Json::Str(d.file_path)),
            ("replace"@, Json::Str(d.replace)),
            ("search"@, Json::Str(d.search)),
        ],
    )
}

/// A new file as it stands among the arguments.
pub open spec fn new_file_json(f: NewFileView) -> Json {
    Json::Obj(
        seq![("content"@, Json::Str(f.content)), ("file_path"@, Json::Str(f.file_path))],
    )
}

/// A deleted file as it stands among the arguments.
pub open spec fn deleted_file_json(f: DeleteFileView) -> Json {
    Json::Obj(seq![("file_path"@, Json::Str(f.file_path))])
}

/// The arguments of `apply_file_diffs` for a change.
pub open spec fn apply_file_diffs_json(c: ApplyFileDiffsView) -> Json {
    Json::Obj(
        seq![
            (
                "deleted_files"@,
                Json::Arr(c.deleted_files.map_values(|f: DeleteFileView| deleted_file_json(f))),
            ),
            ("diffs"@, Json::Arr(c.diffs.map_values(|d: FileDiffView| diff_json(d)))),
            ("new_files"@, Json::Arr(c.new_files.map_values(|f: NewFileView| new_file_json(f)))),
            ("summary"@, Json::Str(c.summary)),
        ],
    )
}

/// The name and the arguments of the call that stands for a tool. Nothing for
/// a tool that is not advertised.
pub open spec fn call_of(tool: ToolView) -> Option<(Seq<char>, Json)> {
    match tool {
        ToolView::RunShellCommand(c) => Some(
            (TOOL_RUN_SHELL_COMMAND@, Json::Obj(seq![("command"@, Json::Str(c.command))])),
        ),
        ToolView::ReadFiles(r) => Some(
            (
                TOOL_READ_FILES@,
                Json::Obj(
                    seq![
                        (
                            "paths"@,
                            schema::list_json(r.files.map_values(|f: ReadFileView| f.name)),
                        ),
                    ],
                ),
            ),
        ),
        ToolView::Grep(g) => Some(
            (
                TOOL_GREP@,
                Json::Obj(
                    seq![
                        ("path"@, Json::Str(g.path)),
                        ("queries"@, schema::list_json(g.queries)),
                    ],
                ),
            ),
        ),
        ToolView::FileGlobV2(g) => Some(
            (
                TOOL_FILE_GLOB@,
                Json::Obj(
                    seq![
                        ("patterns"@, schema::list_json(g.patterns)),
                        ("search_dir"@, Json::Str(g.search_dir)),
                    ],
                ),
            ),
        ),
        ToolView::ApplyFileDiffs(c) => Some((TOOL_APPLY_FILE_DIFFS@, apply_file_diffs_json(c))),
        ToolView::Other => None,
    }
}

/// The call that stands for a tool in the conversation.
pub open spec fn tool_call_of(tool: ToolView, id: Seq<char>) -> Option<ToolCallView> {
    match call_of(tool) {
        Some((name, args)) => Some(
            ToolCallView { id, kind: "function"@, name, arguments: json::json_text(args) },
        ),
        None => None,
    }
}

fn write_diff(d: &FileDiff) -> (r: String)
    ensures
        r@ == json::json_text(diff_json(d.deep_view())),
{
    proof {
        schema::lemma_name_order();
    }
    schema::object3(
        "file_path",
        schema::string_of(d.file_path.as_str()),
        "replace",
        schema::string_of(d.replace.as_str()),
        "search",
        schema::string_of(d.search.as_str()),
        Ghost(Json::Str(d.file_path@)),
        Ghost(Json::Str(d.replace@)),
        Ghost(Json::Str(d.search@)),
    )
}

fn write_new_file(f: &NewFile) -> (r: String)
    ensures
        r@ == json::json_text(new_file_json(f.deep_view())),
{
    proof {
        schema::lemma_name_order();
    }
    schema::object2(
        "content",
        schema::string_of(f.content.as_str()),
        "file_path",
        schema::string_of(f.file_path.as_str()),
        Ghost(Json::Str(f.content@)),
        Ghost(Json::Str(f.file_path@)),
    )
}

fn write_deleted_file(f: &DeleteFile) -> (r: String)
    ensures
        r@ == json::json_text(deleted_file_json(f.deep_view())),
{
    schema::object1(
        "file_path",
        schema::string_of(f.file_path.as_str()),
        Ghost(Json::Str(f.file_path@)),
    )
}

/// Writes an array with an item for each entry of a list.
fn write_entries<T: DeepView, F: Fn(&T) -> String>(
    list: &Vec<T>,
    write: F,
    Ghost(entry): Ghost<spec_fn(T::V) -> Json>,
) -> (r: String)
    requires
        forall|x: &T| call_requires(write, (x,)),
        forall|x: &T, s: String| #[trigger]
            call_ensures(write, (x,), s) ==> s@ == json::json_text(entry(x.deep_view())),
    ensures
        r@ == json::json_text(Json::Arr(list.deep_view().map_values(entry))),
{
    let ghost tree = list.deep_view().map_values(entry);
    let mut items: Vec<String> = Vec::new();
    let mut i: usize = 0;
    while i < list.len()
        invariant
            i <= list@.len(),
            items@.len() == i,
            forall|x: &T| call_requires(write, (x,)),
            forall|x: &T, s: String| #[trigger]
                call_ensures(write, (x,), s) ==> s@ == json::json_text(entry(x.deep_view())),
            forall|j: int|
                0 <= j < i ==> #[trigger] items.deep_view()[j] == json::json_text(
                    entry(list.deep_view()[j]),
                ),
        decreases list@.len() - i,
    {
        let ghost prior = items.deep_view();
        let item: String = write(&list[i]);
        items.push(item);
        assert(items.deep_view() =~= prior.push(item@));
        i = i + 1;
    }
    proof {
        json::lemma_texts(tree);
        assert(items.deep_view() =~= json::texts(tree));
    }
    schema::array_of(&items, Ghost(tree))
}

fn write_paths(files: &Vec<ReadFile>) -> (r: String)
    ensures
        r@ == json::json_text(
            schema::list_json(files.deep_view().map_values(|f: ReadFileView| f.name)),
        ),
{
    let ghost wanted = files.deep_view().map_values(|f: ReadFileView| f.name);
    let mut names: Vec<String> = Vec::new();
    let mut i: usize = 0;
    while i < files.len()
        invariant
            i <= files@.len(),
            names@.len() == i,
            wanted == files.deep_view().map_values(|f: ReadFileView| f.name),
            names.deep_view() == wanted.take(i as int),
        decreases files@.len() - i,
    {
        let ghost prior = names.deep_view();
        names.push(files[i].name.clone());
        assert(names.deep_view() =~= prior.push(wanted[i as int]));
        assert(names.deep_view() =~= wanted.take(i + 1));
        i = i + 1;
    }
    assert(wanted.take(i as int) =~= wanted);
    schema::list_of(&names)
}

fn write_grep(g: &Grep) -> (r: String)
    ensures
        r@ == json::json_text(
            Json::Obj(
                seq![
                    ("path"@, Json::Str(g.path@)),
                    ("queries"@, schema::list_json(g.queries.deep_view())),
                ],
            ),
        ),
{
    proof {
        schema::lemma_name_order();
    }
    schema::object2(
        "path",
        schema::string_of(g.path.as_str()),
        "queries",
        schema::list_of(&g.queries),
        Ghost(Json::Str(g.path@)),
        Ghost(schema::list_json(g.queries.deep_view())),
    )
}

fn write_file_glob(g: &FileGlobV2) -> (r: String)
    ensures
        r@ == json::json_text(
            Json::Obj(
                seq![
                    ("patterns"@, schema::list_json(g.patterns.deep_view())),
                    ("search_dir"@, Json::Str(g.search_dir@)),
                ],
            ),
        ),
{
    proof {
        schema::lemma_name_order();
    }
    schema::object2(
        "patterns",
        schema::list_of(&g.patterns),
        "search_dir",
        schema::string_of(g.search_dir.as_str()),
        Ghost(schema::list_json(g.patterns.deep_view())),
        Ghost(Json::Str(g.search_dir@)),
    )
}

fn write_apply_file_diffs(c: &ApplyFileDiffs) -> (r: String)
    ensures
        r@ == json::json_text(apply_file_diffs_json(c.deep_view())),
{
    proof {
        schema::lemma_name_order();
    }
    let ghost v = c.deep_view();
    let ghost deleted = Json::Arr(
        v.deleted_files.map_values(|f: DeleteFileView| deleted_file_json(f)),
    );
    let ghost diffs = Json::Arr(v.diffs.map_values(|d: FileDiffView| diff_json(d)));
    let ghost added = Json::Arr(v.new_files.map_values(|f: NewFileView| new_file_json(f)));
    schema::object4(
        "deleted_files",
        write_entries(
            &c.deleted_files,
            write_deleted_file,
            Ghost(|f: DeleteFileView| deleted_file_json(f)),
        ),
        "diffs",
        write_entries(&c.diffs, write_diff, Ghost(|d: FileDiffView| diff_json(d))),
        "new_files",
        write_entries(&c.new_files, write_new_file, Ghost(|f: NewFileView| new_file_json(f))),
        "summary",
        schema::string_of(c.summary.as_str()),
        Ghost(deleted),
        Ghost(diffs),
        Ghost(added),
        Ghost(Json::Str(c.summary@)),
    )
}

fn function_call(id: &str, name: &str, arguments: String) -> (r: OpenAiToolCall)
    ensures
        r.deep_view() == (ToolCallView {
            id: id@,
            kind: "function"@,
            name: name@,
            arguments: arguments@,
        }),
{
    OpenAiToolCall {
        id: id.to_string(),
        kind: "function".to_string(),
        function: OpenAiFunctionCall { name: name.to_string(), arguments },
    }
}

/// Turns a tool of an earlier turn back into the call that the model made, so
/// that it sees its own tool use in the conversation. A tool that is not
/// advertised to local models has no place there: it gives `None`.
pub fn warp_tool_to_openai_tool_call(tool: &Tool, tool_call_id: &str) -> (r: Option<
    OpenAiToolCall,
>)
    ensures
        r.deep_view() == tool_call_of(tool.deep_view(), tool_call_id@),
{
    match tool {
        Tool::RunShellCommand(c) => {
            let args: String = schema::object1(
                "command",
                schema::string_of(c.command.as_str()),
                Ghost(Json::Str(c.command@)),
            );
            Some(function_call(tool_call_id, TOOL_RUN_SHELL_COMMAND, args))
        },
        Tool::ReadFiles(r) => {
            let ghost names = r.files.deep_view().map_values(|f: ReadFileView| f.name);
            let args: String = schema::object1(
                "paths",
                write_paths(&r.files),
                Ghost(schema::list_json(names)),
            );
            Some(function_call(tool_call_id, TOOL_READ_FILES, args))
        },
        Tool::Grep(g) => Some(function_call(tool_call_id, TOOL_GREP, write_grep(g))),
        Tool::FileGlobV2(g) => Some(
            function_call(tool_call_id, TOOL_FILE_GLOB, write_file_glob(g)),
        ),
        Tool::ApplyFileDiffs(c) => Some(
            function_call(tool_call_id, TOOL_APPLY_FILE_DIFFS, write_apply_file_diffs(c)),
        ),
        Tool::Other => None,
    }
}

// ---- Laws ------------------------------------------------------------------

/// No two tools go by the same name.
pub proof fn law_tool_names_are_unique(i: int, j: int)
    requires
        0 <= i < j < tool_catalog().len(),
    ensures
        tool_catalog()[i].name != tool_catalog()[j].name,
{
    lemma_names_differ();
}

pub proof fn lemma_names_differ()
    ensures
        TOOL_RUN_SHELL_COMMAND@.len() == 17,
        TOOL_READ_FILES@.len() == 10,
        TOOL_GREP@.len() == 4,
        TOOL_FILE_GLOB@.len() == 9,
        TOOL_APPLY_FILE_DIFFS@.len() == 16,
{
    reveal_strlit("run_shell_command");
    reveal_strlit("read_files");
    reveal_strlit("grep");
    reveal_strlit("file_glob");
    reveal_strlit("apply_file_diffs");
}

/// The name is that of an advertised tool.
pub open spec fn is_advertised(name: Seq<char>) -> bool {
    exists|i: int| 0 <= i < tool_catalog().len() && #[trigger] tool_catalog()[i].name == name
}

/// A tool is built only from a call of an advertised one, and the call that
/// stands for it later goes by the same name.
pub proof fn law_built_tool_keeps_its_name(name: Seq<char>, args: Seq<char>)
    requires
        built_tool(name, args) is Some,
    ensures
        is_advertised(name),
        call_of(built_tool(name, args)->0) matches Some((n, _)) && n == name,
{
    lemma_names_differ();
    let c = tool_catalog();
    assert(c[0].name == TOOL_RUN_SHELL_COMMAND@);
    assert(c[1].name == TOOL_READ_FILES@);
    assert(c[2].name == TOOL_GREP@);
    assert(c[3].name == TOOL_FILE_GLOB@);
    assert(c[4].name == TOOL_APPLY_FILE_DIFFS@);
}

/// Only advertised tools appear in the conversation.
pub proof fn law_calls_are_advertised(tool: ToolView, id: Seq<char>)
    ensures
        tool_call_of(tool, id) matches Some(call) ==> call.id == id && is_advertised(call.name),
        tool_call_of(tool, id) is None <==> tool is Other,
{
    let c = tool_catalog();
    assert(c[0].name == TOOL_RUN_SHELL_COMMAND@);
    assert(c[1].name == TOOL_READ_FILES@);
    assert(c[2].name == TOOL_GREP@);
    assert(c[3].name == TOOL_FILE_GLOB@);
    assert(c[4].name == TOOL_APPLY_FILE_DIFFS@);
}

/// The argument that the tool `name` cannot do without.
pub open spec fn required_argument(name: Seq<char>) -> Seq<char> {
    if name == TOOL_RUN_SHELL_COMMAND@ {
        "command"@
    } else if name == TOOL_READ_FILES@ {
        "paths"@
    } else if name == TOOL_GREP@ {
        "queries"@
    } else if name == TOOL_FILE_GLOB@ {
        "patterns"@
    } else {
        "summary"@
    }
}

/// The names of the arguments of the tool `name`.
pub open spec fn argument_names(name: Seq<char>) -> Seq<Seq<char>> {
    if name == TOOL_RUN_SHELL_COMMAND@ {
        seq!["command"@]
    } else if name == TOOL_READ_FILES@ {
        seq!["paths"@]
    } else if name == TOOL_GREP@ {
        seq!["queries"@, "path"@]
    } else if name == TOOL_FILE_GLOB@ {
        seq!["patterns"@, "search_dir"@]
    } else {
        seq!["summary"@, "diffs"@, "new_files"@, "deleted_files"@]
    }
}

/// A call without the argument that its tool requires builds nothing.
pub proof fn law_missing_argument_is_refused(name: Seq<char>, fields: Seq<(Seq<char>, Json)>)
    requires
        record::each_once(fields, argument_names(name)),
        record::value_under(fields, required_argument(name)) is None,
    ensures
        built_tool(name, json::json_text(Json::Obj(fields))) is None,
{
    record::lemma_read_record(fields, argument_names(name));
}

/// Arguments that the schema does not have make no difference to what a call
/// builds.
pub proof fn law_unknown_arguments_are_ignored(name: Seq<char>, fields: Seq<(Seq<char>, Json)>)
    requires
        record::each_once(fields, argument_names(name)),
    ensures
        built_tool(name, json::json_text(Json::Obj(fields))) == built_tool(
            name,
            json::json_text(Json::Obj(record::known(fields, argument_names(name)))),
        ),
{
    record::law_unknown_names_are_ignored(fields, argument_names(name));
}

/// What of a tool a call can carry: a call names whole files, and has no
/// updates in the V4A form.
pub open spec fn carried(tool: ToolView) -> ToolView {
    match tool {
        ToolView::ReadFiles(r) => ToolView::ReadFiles(
            ReadFilesView { files: r.files.map_values(|f: ReadFileView| whole_file(f.name)) },
        ),
        ToolView::ApplyFileDiffs(c) => ToolView::ApplyFileDiffs(
            ApplyFileDiffsView { v4a_updates: Seq::empty(), ..c },
        ),
        _ => tool,
    }
}

/// A tool turned into a call and built again is the tool, as far as a call can
/// carry it.
pub proof fn law_round_trip(tool: ToolView, id: Seq<char>)
    requires
        tool_call_of(tool, id) is Some,
    ensures
        ({
            let call = tool_call_of(tool, id)->0;
            built_tool(call.name, call.arguments) == Some(carried(tool))
        }),
{
    lemma_names_differ();
    match tool {
        ToolView::RunShellCommand(c) => lemma_command_read_back(c),
        ToolView::ReadFiles(r) => lemma_read_files_read_back(r),
        ToolView::Grep(g) => lemma_grep_read_back(g),
        ToolView::FileGlobV2(g) => lemma_file_glob_read_back(g),
        ToolView::ApplyFileDiffs(c) => lemma_change_read_back(c),
        ToolView::Other => {},
    }
}

proof fn lemma_command_read_back(c: RunShellCommandView)
    ensures
        built_run_shell_command(
            json::json_text(Json::Obj(seq![("command"@, Json::Str(c.command))])),
        ) == Some(ToolView::RunShellCommand(c)),
{
    let fields = seq![("command"@, Json::Str(c.command))];
    record::lemma_read_record(fields, seq!["command"@]);
    record::lemma_read_string(c.command);
    reveal_with_fuel(record::value_under, 2);
}

proof fn lemma_read_files_read_back(r: ReadFilesView)
    ensures
        built_read_files(
            json::json_text(
                Json::Obj(
                    seq![
                        (
                            "paths"@,
                            schema::list_json(r.files.map_values(|f: ReadFileView| f.name)),
                        ),
                    ],
                ),
            ),
        ) == Some(carried(ToolView::ReadFiles(r))),
{
    let names = r.files.map_values(|f: ReadFileView| f.name);
    let fields = seq![("paths"@, schema::list_json(names))];
    record::lemma_read_record(fields, seq!["paths"@]);
    record::lemma_read_text_list(names);
    reveal_with_fuel(record::value_under, 2);
    assert(names.map_values(|name: Seq<char>| whole_file(name)) =~= r.files.map_values(
        |f: ReadFileView| whole_file(f.name),
    ));
}

/// The text of a string or of an array is not `null`.
proof fn lemma_not_null(j: Json)
    requires
        j is Str || j is Arr,
    ensures
        json::json_text(j) != "null"@,
{
    reveal_strlit("null");
    match j {
        Json::Str(s) => assert(json::json_text(j)[0] == '"'),
        Json::Arr(items) => assert(json::json_text(j)[0] == '['),
        _ => {},
    }
}

proof fn lemma_grep_read_back(g: GrepView)
    ensures
        built_grep(
            json::json_text(
                Json::Obj(
                    seq![
                        ("path"@, Json::Str(g.path)),
                        ("queries"@, schema::list_json(g.queries)),
                    ],
                ),
            ),
        ) == Some(ToolView::Grep(g)),
{
    let fields = seq![("path"@, Json::Str(g.path)), ("queries"@, schema::list_json(g.queries))];
    lemma_field_names_differ();
    record::lemma_read_record(fields, seq!["queries"@, "path"@]);
    record::lemma_read_text_list(g.queries);
    record::lemma_read_string(g.path);
    lemma_not_null(Json::Str(g.path));
    reveal_with_fuel(record::value_under, 3);
}

proof fn lemma_file_glob_read_back(g: FileGlobV2View)
    ensures
        built_file_glob(
            json::json_text(
                Json::Obj(
                    seq![
                        ("patterns"@, schema::list_json(g.patterns)),
                        ("search_dir"@, Json::Str(g.search_dir)),
                    ],
                ),
            ),
        ) == Some(ToolView::FileGlobV2(g)),
{
    let fields = seq![
        ("patterns"@, schema::list_json(g.patterns)),
        ("search_dir"@, Json::Str(g.search_dir)),
    ];
    lemma_field_names_differ();
    record::lemma_read_record(fields, seq!["patterns"@, "search_dir"@]);
    record::lemma_read_text_list(g.patterns);
    record::lemma_read_string(g.search_dir);
    lemma_not_null(Json::Str(g.search_dir));
    reveal_with_fuel(record::value_under, 3);
}

/// The names that stand together among the arguments of a tool differ.
proof fn lemma_field_names_differ()
    ensures
        "path"@ != "queries"@,
        "patterns"@ != "search_dir"@,
        "file_path"@ != "replace"@,
        "file_path"@ != "search"@,
        "file_path"@ != "content"@,
        "replace"@ != "search"@,
        "deleted_files"@ != "diffs"@,
        "deleted_files"@ != "new_files"@,
        "deleted_files"@ != "summary"@,
        "diffs"@ != "new_files"@,
        "diffs"@ != "summary"@,
        "new_files"@ != "summary"@,
{
    reveal_strlit("path");
    reveal_strlit("queries");
    reveal_strlit("patterns");
    reveal_strlit("search_dir");
    reveal_strlit("file_path");
    reveal_strlit("replace");
    reveal_strlit("search");
    reveal_strlit("content");
    reveal_strlit("deleted_files");
    reveal_strlit("diffs");
    reveal_strlit("new_files");
    reveal_strlit("summary");
    assert("path"@.len() == 4 && "queries"@.len() == 7);
    assert("patterns"@.len() == 8 && "search_dir"@.len() == 10);
    assert("file_path"@.len() == 9 && "replace"@.len() == 7);
    assert("search"@.len() == 6 && "content"@.len() == 7);
    assert("deleted_files"@.len() == 13 && "diffs"@.len() == 5);
    assert("new_files"@.len() == 9 && "summary"@.len() == 7);
}

proof fn lemma_diff_read_back(d: FileDiffView)
    ensures
        diff_entry(json::json_text(diff_json(d))) == Some(d),
{
    let fields = seq![
        ("file_path"@, Json::Str(d.file_path)),
        ("replace"@, Json::Str(d.replace)),
        ("search"@, Json::Str(d.search)),
    ];
    lemma_field_names_differ();
    record::lemma_read_record(fields, seq!["file_path"@, "search"@, "replace"@]);
    record::lemma_read_string(d.file_path);
    record::lemma_read_string(d.replace);
    record::lemma_read_string(d.search);
    reveal_with_fuel(record::value_under, 4);
}

proof fn lemma_new_file_read_back(f: NewFileView)
    ensures
        new_file_entry(json::json_text(new_file_json(f))) == Some(f),
{
    let fields = seq![
        ("content"@, Json::Str(f.content)),
        ("file_path"@, Json::Str(f.file_path)),
    ];
    lemma_field_names_differ();
    record::lemma_read_record(fields, seq!["file_path"@, "content"@]);
    record::lemma_read_string(f.file_path);
    record::lemma_read_string(f.content);
    reveal_with_fuel(record::value_under, 3);
}

proof fn lemma_deleted_file_read_back(f: DeleteFileView)
    ensures
        deleted_file_entry(json::json_text(deleted_file_json(f))) == Some(f),
{
    let fields = seq![("file_path"@, Json::Str(f.file_path))];
    record::lemma_read_record(fields, seq!["file_path"@]);
    record::lemma_read_string(f.file_path);
    reveal_with_fuel(record::value_under, 2);
}

proof fn lemma_diffs_read_back(diffs: Seq<FileDiffView>)
    ensures
        record::optional_entries(
            Some(json::json_text(Json::Arr(diffs.map_values(|d: FileDiffView| diff_json(d))))),
            |t: Seq<char>| diff_entry(t),
        ) == Some(Some(diffs)),
{
    let items = diffs.map_values(|d: FileDiffView| diff_json(d));
    let entry = |t: Seq<char>| diff_entry(t);
    lemma_not_null(Json::Arr(items));
    assert forall|i: int| 0 <= i < items.len() implies entry(
        json::json_text(#[trigger] items[i]),
    ) == Some(diffs[i]) by {
        lemma_diff_read_back(diffs[i]);
    }
    record::lemma_read_entries(items, entry, diffs);
}

proof fn lemma_new_files_read_back(files: Seq<NewFileView>)
    ensures
        record::optional_entries(
            Some(json::json_text(Json::Arr(files.map_values(|f: NewFileView| new_file_json(f))))),
            |t: Seq<char>| new_file_entry(t),
        ) == Some(Some(files)),
{
    let items = files.map_values(|f: NewFileView| new_file_json(f));
    let entry = |t: Seq<char>| new_file_entry(t);
    lemma_not_null(Json::Arr(items));
    assert forall|i: int| 0 <= i < items.len() implies entry(
        json::json_text(#[trigger] items[i]),
    ) == Some(files[i]) by {
        lemma_new_file_read_back(files[i]);
    }
    record::lemma_read_entries(items, entry, files);
}

proof fn lemma_deleted_files_read_back(files: Seq<DeleteFileView>)
    ensures
        record::optional_entries(
            Some(
                json::json_text(
                    Json::Arr(files.map_values(|f: DeleteFileView| deleted_file_json(f))),
                ),
            ),
            |t: Seq<char>| deleted_file_entry(t),
        ) == Some(Some(files)),
{
    let items = files.map_values(|f: DeleteFileView| deleted_file_json(f));
    let entry = |t: Seq<char>| deleted_file_entry(t);
    lemma_not_null(Json::Arr(items));
    assert forall|i: int| 0 <= i < items.len() implies entry(
        json::json_text(#[trigger] items[i]),
    ) == Some(files[i]) by {
        lemma_deleted_file_read_back(files[i]);
    }
    record::lemma_read_entries(items, entry, files);
}

proof fn lemma_change_fields(deleted: Json, diffs: Json, added: Json, summary: Json)
    ensures
        ({
            let fields = seq![
                ("deleted_files"@, deleted),
                ("diffs"@, diffs),
                ("new_files"@, added),
                ("summary"@, summary),
            ];
            &&& forall|names: Seq<Seq<char>>| record::each_once(fields, names)
            &&& record::value_under(fields, "deleted_files"@) == Some(json::json_text(deleted))
            &&& record::value_under(fields, "diffs"@) == Some(json::json_text(diffs))
            &&& record::value_under(fields, "new_files"@) == Some(json::json_text(added))
            &&& record::value_under(fields, "summary"@) == Some(json::json_text(summary))
        }),
{
    lemma_field_names_differ();
    let fields = seq![
        ("deleted_files"@, deleted),
        ("diffs"@, diffs),
        ("new_files"@, added),
        ("summary"@, summary),
    ];
    let three = fields.drop_last();
    let two = three.drop_last();
    let one = two.drop_last();
    assert(three.last() == ("new_files"@, added));
    assert(two.last() == ("diffs"@, diffs));
    assert(one.last() == ("deleted_files"@, deleted));
    assert(record::value_under(one, "deleted_files"@) == Some(json::json_text(deleted)));
    assert(record::value_under(two, "deleted_files"@) == Some(json::json_text(deleted)));
    assert(record::value_under(three, "deleted_files"@) == Some(json::json_text(deleted)));
    assert(record::value_under(two, "diffs"@) == Some(json::json_text(diffs)));
    assert(record::value_under(three, "diffs"@) == Some(json::json_text(diffs)));
    assert(record::value_under(three, "new_files"@) == Some(json::json_text(added)));
}

proof fn lemma_change_read_back(c: ApplyFileDiffsView)
    ensures
        built_apply_file_diffs(json::json_text(apply_file_diffs_json(c))) == Some(
            carried(ToolView::ApplyFileDiffs(c)),
        ),
{
    let deleted = Json::Arr(
        c.deleted_files.map_values(|f: DeleteFileView| deleted_file_json(f)),
    );
    let diffs = Json::Arr(c.diffs.map_values(|d: FileDiffView| diff_json(d)));
    let added = Json::Arr(c.new_files.map_values(|f: NewFileView| new_file_json(f)));
    let summary = Json::Str(c.summary);
    let fields = seq![
        ("deleted_files"@, deleted),
        ("diffs"@, diffs),
        ("new_files"@, added),
        ("summary"@, summary),
    ];
    let names = seq!["summary"@, "diffs"@, "new_files"@, "deleted_files"@];
    lemma_change_fields(deleted, diffs, added, summary);
    record::lemma_read_record(fields, names);
    record::lemma_read_string(c.summary);
    lemma_diffs_read_back(c.diffs);
    lemma_new_files_read_back(c.new_files);
    lemma_deleted_files_read_back(c.deleted_files);
}

/// A call says what its tool holds, field by field and as it is: its arguments
/// are an object with one field for each, and no other.
pub proof fn law_call_says_what_its_tool_holds(tool: ToolView, id: Seq<char>)
    requires
        tool_call_of(tool, id) is Some,
    ensures
        ({
            let call = tool_call_of(tool, id)->0;
            &&& call.id == id
            &&& call.kind == "function"@
            &&& match tool {
                ToolView::RunShellCommand(c) => {
                    &&& call.name == "run_shell_command"@
                    &&& call.arguments == json::json_text(
                        Json::Obj(seq![("command"@, Json::Str(c.command))]),
                    )
                },
                ToolView::ReadFiles(r) => {
                    &&& call.name == "read_files"@
                    &&& call.arguments == json::json_text(
                        Json::Obj(
                            seq![
                                (
                                    "paths"@,
                                    Json::Arr(
                                        Seq::new(
                                            r.files.len(),
                                            |i: int| Json::Str(r.files[i].name),
                                        ),
                                    ),
                                ),
                            ],
                        ),
                    )
                },
                ToolView::Grep(g) => {
                    &&& call.name == "grep"@
                    &&& call.arguments == json::json_text(
                        Json::Obj(
                            seq![
                                ("path"@, Json::Str(g.path)),
                                (
                                    "queries"@,
                                    Json::Arr(
                                        Seq::new(
                                            g.queries.len(),
                                            |i: int| Json::Str(g.queries[i]),
                                        ),
                                    ),
                                ),
                            ],
                        ),
                    )
                },
                ToolView::FileGlobV2(g) => {
                    &&& call.name == "file_glob"@
                    &&& call.arguments == json::json_text(
                        Json::Obj(
                            seq![
                                (
                                    "patterns"@,
                                    Json::Arr(
                                        Seq::new(
                                            g.patterns.len(),
                                            |i: int| Json::Str(g.patterns[i]),
                                        ),
                                    ),
                                ),
                                ("search_dir"@, Json::Str(g.search_dir)),
                            ],
                        ),
                    )
                },
                ToolView::ApplyFileDiffs(c) => {
                    &&& call.name == "apply_file_diffs"@
                    &&& call.arguments == json::json_text(
                        Json::Obj(
                            seq![
                                (
                                    "deleted_files"@,
                                    Json::Arr(
                                        Seq::new(
                                            c.deleted_files.len(),
                                            |i: int|
                                                Json::Obj(
                                                    seq![
                                                        (
                                                            "file_path"@,
                                                            Json::Str(c.deleted_files[i].file_path),
                                                        ),
                                                    ],
                                                ),
                                        ),
                                    ),
                                ),
                                (
                                    "diffs"@,
                                    Json::Arr(
                                        Seq::new(
                                            c.diffs.len(),
                                            |i: int|
                                                Json::Obj(
                                                    seq![
                                                        (
                                                            "file_path"@,
                                                            Json::Str(c.diffs[i].file_path),
                                                        ),
                                                        ("replace"@, Json::Str(c.diffs[i].replace)),
                                                        ("search"@, Json::Str(c.diffs[i].search)),
                                                    ],
                                                ),
                                        ),
                                    ),
                                ),
                                (
                                    "new_files"@,
                                    Json::Arr(
                                        Seq::new(
                                            c.new_files.len(),
                                            |i: int|
                                                Json::Obj(
                                                    seq![
                                                        (
                                                            "content"@,
                                                            Json::Str(c.new_files[i].content),
                                                        ),
                                                        (
                                                            "file_path"@,
                                                            Json::Str(c.new_files[i].file_path),
                                                        ),
                                                    ],
                                                ),
                                        ),
                                    ),
                                ),
                                ("summary"@, Json::Str(c.summary)),
                            ],
                        ),
                    )
                },
                ToolView::Other => false,
            }
        }),
{
    match tool {
        ToolView::ReadFiles(r) => {
            let names = r.files.map_values(|f: ReadFileView| f.name);
            assert(names.map_values(|s: Seq<char>| Json::Str(s)) =~= Seq::new(
                r.files.len(),
                |i: int| Json::Str(r.files[i].name),
            ));
        },
        ToolView::Grep(g) => {
            assert(g.queries.map_values(|s: Seq<char>| Json::Str(s)) =~= Seq::new(
                g.queries.len(),
                |i: int| Json::Str(g.queries[i]),
            ));
        },
        ToolView::FileGlobV2(g) => {
            assert(g.patterns.map_values(|s: Seq<char>| Json::Str(s)) =~= Seq::new(
                g.patterns.len(),
                |i: int| Json::Str(g.patterns[i]),
            ));
        },
        ToolView::ApplyFileDiffs(c) => {
            assert(c.deleted_files.map_values(|f: DeleteFileView| deleted_file_json(f))
                =~= Seq::new(
                c.deleted_files.len(),
                |i: int|
                    Json::Obj(seq![("file_path"@, Json::Str(c.deleted_files[i].file_path))]),
            ));
            assert(c.diffs.map_values(|d: FileDiffView| diff_json(d)) =~= Seq::new(
                c.diffs.len(),
                |i: int|
                    Json::Obj(
                        seq![
                            ("file_path"@, Json::Str(c.diffs[i].file_path)),
                            ("replace"@, Json::Str(c.diffs[i].replace)),
                            ("search"@, Json::Str(c.diffs[i].search)),
                        ],
                    ),
            ));
            assert(c.new_files.map_values(|f: NewFileView| new_file_json(f)) =~= Seq::new(
                c.new_files.len(),
                |i: int|
                    Json::Obj(
                        seq![
                            ("content"@, Json::Str(c.new_files[i].content)),
                            ("file_path"@, Json::Str(c.new_files[i].file_path)),
                        ],
                    ),
            ));
        },
        _ => {},
    }
}

/// A call that gives one of its tool's arguments twice builds nothing.
pub proof fn law_repeated_argument_is_refused(
    name: Seq<char>,
    fields: Seq<(Seq<char>, Json)>,
    i: int,
    j: int,
)
    requires
        0 <= i < j < fields.len(),
        fields[i].0 == fields[j].0,
        argument_names(name).contains(fields[i].0),
    ensures
        built_tool(name, json::json_text(Json::Obj(fields))) is None,
{
    record::law_repeated_name_is_refused(fields, argument_names(name), i, j);
}

/// A call whose arguments are no JSON builds nothing.
pub proof fn law_arguments_must_be_json(name: Seq<char>, args: Seq<char>)
    requires
        json::value_text(args) is None,
    ensures
        built_tool(name, args) is None,
{
}

/// An edit, a new file or a deleted file that gives one of its fields twice is
/// none.
pub proof fn law_repeated_field_of_a_change_is_refused(
    fields: Seq<(Seq<char>, Json)>,
    i: int,
    j: int,
)
    requires
        0 <= i < j < fields.len(),
        fields[i].0 == fields[j].0,
    ensures
        seq!["file_path"@, "search"@, "replace"@].contains(fields[i].0) ==> diff_entry(
            json::json_text(Json::Obj(fields)),
        ) is None,
        seq!["file_path"@, "content"@].contains(fields[i].0) ==> new_file_entry(
            json::json_text(Json::Obj(fields)),
        ) is None,
        fields[i].0 == "file_path"@ ==> deleted_file_entry(
            json::json_text(Json::Obj(fields)),
        ) is None,
{
    let edit = seq!["file_path"@, "search"@, "replace"@];
    let new_file = seq!["file_path"@, "content"@];
    let deleted_file = seq!["file_path"@];
    if edit.contains(fields[i].0) {
        record::law_repeated_name_is_refused(fields, edit, i, j);
    }
    if new_file.contains(fields[i].0) {
        record::law_repeated_name_is_refused(fields, new_file, i, j);
    }
    if fields[i].0 == "file_path"@ {
        assert(deleted_file[0] == fields[i].0);
        record::law_repeated_name_is_refused(fields, deleted_file, i, j);
    }
}

} // verus!
