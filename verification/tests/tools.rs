use local_agent::agent::AnyFiles;
use local_agent::agent::AppliedDiffs;
use local_agent::agent::ApplyFileDiffs;
use local_agent::agent::ApplyFileDiffsOutcome;
use local_agent::agent::ApplyFileDiffsResult;
use local_agent::agent::DeleteFile;
use local_agent::agent::FileContent;
use local_agent::agent::FileDiff;
use local_agent::agent::FileGlobMatch;
use local_agent::agent::FileGlobMatches;
use local_agent::agent::FileGlobOutcome;
use local_agent::agent::FileGlobV2;
use local_agent::agent::FileGlobV2Result;
use local_agent::agent::Grep;
use local_agent::agent::GrepFileMatch;
use local_agent::agent::GrepLineMatch;
use local_agent::agent::GrepMatches;
use local_agent::agent::GrepOutcome;
use local_agent::agent::GrepResult;
use local_agent::agent::LineRange;
use local_agent::agent::NewFile;
use local_agent::agent::ReadFile;
use local_agent::agent::ReadFiles;
use local_agent::agent::ReadFilesOutcome;
use local_agent::agent::ReadFilesResult;
use local_agent::agent::RunShellCommand;
use local_agent::agent::RunShellCommandResult;
use local_agent::agent::ShellCommandFinished;
use local_agent::agent::ShellOutcome;
use local_agent::agent::TextFiles;
use local_agent::agent::Tool;
use local_agent::agent::ToolError;
use local_agent::agent::ToolResult;
use local_agent::tool_results::format_apply_file_diffs_result;
use local_agent::tool_results::format_file_glob_v2_result;
use local_agent::tool_results::format_grep_result;
use local_agent::tool_results::format_read_files_result;
use local_agent::tool_results::format_run_shell_result;
use local_agent::tool_results::warp_tool_result_to_openai_message;
use local_agent::tools::supported_tools;
use local_agent::tools::try_build_warp_tool;
use local_agent::tools::warp_tool_to_openai_tool_call;
use local_agent::tools::TOOL_APPLY_FILE_DIFFS;
use local_agent::tools::TOOL_FILE_GLOB;
use local_agent::tools::TOOL_GREP;
use local_agent::tools::TOOL_READ_FILES;
use local_agent::tools::TOOL_RUN_SHELL_COMMAND;
use serde_json::Value;

#[test]
fn tool_definitions_have_unique_names() {
    let names: Vec<_> = supported_tools()
        .into_iter()
        .map(|t| t.function.name)
        .collect();
    let mut sorted = names.clone();
    sorted.sort();
    sorted.dedup();
    assert_eq!(names.len(), sorted.len());
}

#[test]
fn build_run_shell_command() {
    let tool = try_build_warp_tool(TOOL_RUN_SHELL_COMMAND, r#"{"command":"ls -la"}"#).unwrap();
    match tool {
        Tool::RunShellCommand(c) => {
            assert_eq!(c.command, "ls -la");
        }
        _ => panic!("expected RunShellCommand"),
    }
}

#[test]
fn build_read_files_with_multiple_paths() {
    let tool =
        try_build_warp_tool(TOOL_READ_FILES, r#"{"paths":["src/main.rs","Cargo.toml"]}"#).unwrap();
    match tool {
        Tool::ReadFiles(rf) => {
            assert_eq!(rf.files.len(), 2);
            assert_eq!(rf.files[0].name, "src/main.rs");
            assert_eq!(rf.files[1].name, "Cargo.toml");
        }
        _ => panic!("expected ReadFiles"),
    }
}

#[test]
fn build_grep_with_optional_path_omitted() {
    let tool = try_build_warp_tool(TOOL_GREP, r#"{"queries":["TODO","FIXME"]}"#).unwrap();
    match tool {
        Tool::Grep(g) => {
            assert_eq!(g.queries, vec!["TODO".to_string(), "FIXME".to_string()]);
            assert_eq!(g.path, "");
        }
        _ => panic!("expected Grep"),
    }
}

#[test]
fn build_file_glob_with_search_dir() {
    let tool =
        try_build_warp_tool(TOOL_FILE_GLOB, r#"{"patterns":["*.rs"],"search_dir":"src"}"#).unwrap();
    match tool {
        Tool::FileGlobV2(fg) => {
            assert_eq!(fg.patterns, vec!["*.rs".to_string()]);
            assert_eq!(fg.search_dir, "src");
        }
        _ => panic!("expected FileGlobV2"),
    }
}

#[test]
fn build_apply_file_diffs() {
    let json = r#"{
            "summary": "fix typo",
            "diffs": [{"file_path":"a.rs","search":"foo","replace":"bar"}],
            "new_files": [{"file_path":"b.rs","content":"// new"}],
            "deleted_files": [{"file_path":"c.rs"}]
        }"#;
    let tool = try_build_warp_tool(TOOL_APPLY_FILE_DIFFS, json).unwrap();
    match tool {
        Tool::ApplyFileDiffs(afd) => {
            assert_eq!(afd.summary, "fix typo");
            assert_eq!(afd.diffs.len(), 1);
            assert_eq!(afd.diffs[0].file_path, "a.rs");
            assert_eq!(afd.diffs[0].search, "foo");
            assert_eq!(afd.diffs[0].replace, "bar");
            assert_eq!(afd.new_files.len(), 1);
            assert_eq!(afd.new_files[0].file_path, "b.rs");
            assert_eq!(afd.new_files[0].content, "// new");
            assert_eq!(afd.deleted_files.len(), 1);
            assert_eq!(afd.deleted_files[0].file_path, "c.rs");
        }
        _ => panic!("expected ApplyFileDiffs"),
    }
}

#[test]
fn build_apply_file_diffs_with_only_new_files() {
    let json = r#"{
            "summary": "create",
            "new_files": [{"file_path":"a.rs","content":"x"}]
        }"#;
    let tool = try_build_warp_tool(TOOL_APPLY_FILE_DIFFS, json).unwrap();
    match tool {
        Tool::ApplyFileDiffs(afd) => {
            assert!(afd.diffs.is_empty());
            assert_eq!(afd.new_files.len(), 1);
            assert!(afd.deleted_files.is_empty());
        }
        _ => panic!("expected ApplyFileDiffs"),
    }
}

#[test]
fn unknown_tool_name_returns_none() {
    assert!(try_build_warp_tool("does_not_exist", "{}").is_none());
}

#[test]
fn malformed_json_returns_none() {
    assert!(try_build_warp_tool(TOOL_RUN_SHELL_COMMAND, "not json").is_none());
}

#[test]
fn missing_required_field_returns_none() {
    // run_shell_command requires `command`.
    assert!(try_build_warp_tool(TOOL_RUN_SHELL_COMMAND, "{}").is_none());
}

#[test]
fn round_trip_run_shell_command() {
    let tool = Tool::RunShellCommand(RunShellCommand { command: "echo hello".into() });
    let openai = warp_tool_to_openai_tool_call(&tool, "call_1").unwrap();
    assert_eq!(openai.function.name, TOOL_RUN_SHELL_COMMAND);
    assert!(openai.function.arguments.contains("echo hello"));
    let rebuilt = try_build_warp_tool(&openai.function.name, &openai.function.arguments)
        .expect("should rebuild");
    match rebuilt {
        Tool::RunShellCommand(c) => {
            assert_eq!(c.command, "echo hello");
        }
        _ => panic!("round trip lost type"),
    }
}

#[test]
fn format_run_shell_result_includes_exit_code_and_output() {
    let result = RunShellCommandResult {
        command: "ls".into(),
        result: Some(ShellOutcome::CommandFinished(ShellCommandFinished {
            exit_code: 0,
            output: "file.txt\n".into(),
        })),
        ..Default::default()
    };
    let s = format_run_shell_result(&result);
    assert!(s.contains("exit_code: 0"));
    assert!(s.contains("file.txt"));
}

#[test]
fn format_grep_result_renders_matches() {
    let result = GrepResult {
        result: Some(GrepOutcome::Success(GrepMatches {
            matched_files: vec![GrepFileMatch {
                file_path: "src/main.rs".into(),
                matched_lines: vec![
                    GrepLineMatch { line_number: 42 },
                    GrepLineMatch { line_number: 99 },
                ],
            }],
        })),
    };
    let s = format_grep_result(&result);
    assert!(s.contains("src/main.rs"));
    assert!(s.contains("42"));
    assert!(s.contains("99"));
}

// ---- Definitions -----------------------------------------------------------

fn parameters(name: &str) -> Value {
    let tool = supported_tools()
        .into_iter()
        .find(|t| t.function.name == name)
        .unwrap();
    assert_eq!(tool.kind, "function");
    serde_json::from_str(&tool.function.parameters).unwrap()
}

fn same_json(value: Value, text: &str) {
    let expected: Value = serde_json::from_str(text).unwrap();
    assert_eq!(value, expected);
}

#[test]
fn tools_are_advertised_in_order() {
    let names: Vec<String> = supported_tools().into_iter().map(|t| t.function.name).collect();
    assert_eq!(
        names,
        vec!["run_shell_command", "read_files", "grep", "file_glob", "apply_file_diffs"]
    );
}

#[test]
fn run_shell_command_definition() {
    same_json(
        parameters(TOOL_RUN_SHELL_COMMAND),
        r#"{
            "type": "object",
            "properties": {
                "command": {
                    "type": "string",
                    "description": "The shell command to execute. Multi-line scripts are allowed."
                }
            },
            "required": ["command"]
        }"#,
    );
    assert_eq!(
        supported_tools()[0].function.description,
        "Run a shell command in the user's terminal and return its stdout, stderr, and exit code. \
         The user may approve, edit, or reject the command before it executes \u{2014} assume the \
         result reflects what actually ran."
    );
}

#[test]
fn read_files_definition() {
    same_json(
        parameters(TOOL_READ_FILES),
        r#"{
            "type": "object",
            "properties": {
                "paths": {
                    "type": "array",
                    "items": { "type": "string" },
                    "description": "Relative or absolute paths of files to read."
                }
            },
            "required": ["paths"]
        }"#,
    );
    assert_eq!(
        supported_tools()[1].function.description,
        "Read one or more files from the user's working directory. Returns the contents of each \
         file. Prefer this over `cat`."
    );
}

#[test]
fn grep_definition() {
    same_json(
        parameters(TOOL_GREP),
        r#"{
            "type": "object",
            "properties": {
                "queries": {
                    "type": "array",
                    "items": { "type": "string" },
                    "description": "Substrings or regex patterns to search for."
                },
                "path": {
                    "type": "string",
                    "description": "Relative path to the file or directory to search in. Defaults to current directory."
                }
            },
            "required": ["queries"]
        }"#,
    );
    assert_eq!(
        supported_tools()[2].function.description,
        "Search file contents for one or more substrings/patterns. Returns the file paths and \
         line numbers of matches."
    );
}

#[test]
fn file_glob_definition() {
    same_json(
        parameters(TOOL_FILE_GLOB),
        r#"{
            "type": "object",
            "properties": {
                "patterns": {
                    "type": "array",
                    "items": { "type": "string" },
                    "description": "Glob patterns to match against file names."
                },
                "search_dir": {
                    "type": "string",
                    "description": "Relative path to the directory to search. Defaults to current directory."
                }
            },
            "required": ["patterns"]
        }"#,
    );
    assert_eq!(
        supported_tools()[3].function.description,
        "Find files whose names match shell-style glob patterns (?, *, []). Returns matching paths."
    );
}

#[test]
fn apply_file_diffs_definition() {
    same_json(
        parameters(TOOL_APPLY_FILE_DIFFS),
        r#"{
            "type": "object",
            "properties": {
                "summary": {
                    "type": "string",
                    "description": "One-sentence description of the change."
                },
                "diffs": {
                    "type": "array",
                    "description": "Search-and-replace edits to apply.",
                    "items": {
                        "type": "object",
                        "properties": {
                            "file_path": { "type": "string" },
                            "search": { "type": "string", "description": "Exact substring to replace." },
                            "replace": { "type": "string", "description": "Replacement text." }
                        },
                        "required": ["file_path", "search", "replace"]
                    }
                },
                "new_files": {
                    "type": "array",
                    "description": "Files to create.",
                    "items": {
                        "type": "object",
                        "properties": {
                            "file_path": { "type": "string" },
                            "content": { "type": "string" }
                        },
                        "required": ["file_path", "content"]
                    }
                },
                "deleted_files": {
                    "type": "array",
                    "description": "Files to delete.",
                    "items": {
                        "type": "object",
                        "properties": {
                            "file_path": { "type": "string" }
                        },
                        "required": ["file_path"]
                    }
                }
            },
            "required": ["summary"]
        }"#,
    );
    assert_eq!(
        supported_tools()[4].function.description,
        "Edit existing files via search-and-replace, create new files, or delete files. Each diff \
         replaces an exact substring within a file. The `search` text must occur exactly once in \
         the file."
    );
}

#[test]
fn schema_text_is_compact_and_sorted() {
    assert_eq!(
        supported_tools()[0].function.parameters,
        "{\"properties\":{\"command\":{\"description\":\"The shell command to execute. Multi-line \
         scripts are allowed.\",\"type\":\"string\"}},\"required\":[\"command\"],\
         \"type\":\"object\"}"
    );
}

// ---- Building --------------------------------------------------------------

#[test]
fn unknown_arguments_are_ignored() {
    let tool = try_build_warp_tool(
        TOOL_RUN_SHELL_COMMAND,
        r#" { "x" : {"command":"a", "y":[1,{"z":null}]}, "command" : "ls", "x": 2.5e3 } "#,
    );
    assert_eq!(tool, Some(Tool::RunShellCommand(RunShellCommand { command: "ls".into() })));
}

#[test]
fn white_space_makes_no_difference() {
    let compact = r#"{"summary":"s","diffs":[{"file_path":"f","search":"x","replace":"y"}],"deleted_files":[]}"#;
    let spaced = "\n { \"summary\" :\t\"s\" , \"diffs\" : [ { \"file_path\" : \"f\" ,\r\n \
                  \"search\":\"x\", \"replace\" :\"y\" } ] , \"deleted_files\" : [ \n ] } ";
    let tool = try_build_warp_tool(TOOL_APPLY_FILE_DIFFS, compact);
    assert!(tool.is_some());
    assert_eq!(try_build_warp_tool(TOOL_APPLY_FILE_DIFFS, spaced), tool);
}

#[test]
fn valid_arguments_are_decoded() {
    for (name, args) in [
        (TOOL_RUN_SHELL_COMMAND, r#"{"command":"","more":[null,true,{"x":1}]}"#),
        (TOOL_READ_FILES, r#"{"paths":[]}"#),
        (TOOL_GREP, r#"{"queries":[""],"path":"p","limit":10}"#),
        (TOOL_FILE_GLOB, r#"{"patterns":["*"],"search_dir":"d"}"#),
        (
            TOOL_APPLY_FILE_DIFFS,
            r#"{"summary":"","diffs":[{"file_path":"f","search":"s","replace":"r","n":0}],"new_files":[],"deleted_files":[{"file_path":"g"}]}"#,
        ),
    ] {
        assert!(try_build_warp_tool(name, args).is_some(), "{} {}", name, args);
    }
}

#[test]
fn arguments_that_lack_what_is_required_return_none() {
    for (name, args) in [
        (TOOL_RUN_SHELL_COMMAND, r#"{"more":1}"#),
        (TOOL_READ_FILES, "{ }"),
        (TOOL_GREP, r#"{"path":"p"}"#),
        (TOOL_FILE_GLOB, r#"{"search_dir":"d"}"#),
        (TOOL_APPLY_FILE_DIFFS, r#"{"diffs":[]}"#),
    ] {
        assert!(try_build_warp_tool(name, args).is_none(), "{} {}", name, args);
    }
}

#[test]
fn repeated_argument_returns_none() {
    assert!(
        try_build_warp_tool(TOOL_RUN_SHELL_COMMAND, r#"{"command":"a","command":"b"}"#).is_none()
    );
}

#[test]
fn arguments_in_an_array_return_none() {
    assert!(try_build_warp_tool(TOOL_RUN_SHELL_COMMAND, r#"["ls"]"#).is_none());
    assert!(try_build_warp_tool(TOOL_READ_FILES, r#"[["a"]]"#).is_none());
    assert!(try_build_warp_tool(TOOL_GREP, r#"[["a","b"],"src"]"#).is_none());
    assert!(try_build_warp_tool(TOOL_FILE_GLOB, r#"[["a"]]"#).is_none());
    assert!(try_build_warp_tool(TOOL_APPLY_FILE_DIFFS, r#"["s"]"#).is_none());
    assert!(try_build_warp_tool(TOOL_GREP, "[]").is_none());
    for nested in [
        r#"{"summary":"s","diffs":[["f","x","y"]]}"#,
        r#"{"summary":"s","new_files":[["f","c"]]}"#,
        r#"{"summary":"s","deleted_files":[["f"]]}"#,
    ] {
        assert!(try_build_warp_tool(TOOL_APPLY_FILE_DIFFS, nested).is_none(), "{}", nested);
    }
}

#[test]
fn null_counts_as_missing_where_optional() {
    assert_eq!(
        try_build_warp_tool(TOOL_FILE_GLOB, r#"{"patterns":[],"search_dir":null}"#),
        Some(Tool::FileGlobV2(FileGlobV2 { patterns: vec![], search_dir: "".into() }))
    );
    assert!(try_build_warp_tool(TOOL_FILE_GLOB, r#"{"patterns":null}"#).is_none());
    let tool = try_build_warp_tool(
        TOOL_APPLY_FILE_DIFFS,
        r#"{"summary":"s","diffs":null,"new_files":null,"deleted_files":null}"#,
    );
    assert_eq!(
        tool,
        Some(Tool::ApplyFileDiffs(ApplyFileDiffs {
            summary: "s".into(),
            diffs: vec![],
            new_files: vec![],
            deleted_files: vec![],
            v4a_updates: vec![],
        }))
    );
}

#[test]
fn wrong_types_return_none() {
    assert!(try_build_warp_tool(TOOL_RUN_SHELL_COMMAND, r#"{"command":1}"#).is_none());
    assert!(try_build_warp_tool(TOOL_READ_FILES, r#"{"paths":"a"}"#).is_none());
    assert!(try_build_warp_tool(TOOL_READ_FILES, r#"{"paths":["a",1]}"#).is_none());
    assert!(try_build_warp_tool(TOOL_GREP, r#"{"queries":["a"],"path":[]}"#).is_none());
    assert!(try_build_warp_tool(TOOL_RUN_SHELL_COMMAND, r#""ls""#).is_none());
    assert!(try_build_warp_tool(TOOL_RUN_SHELL_COMMAND, "").is_none());
    assert!(try_build_warp_tool(TOOL_RUN_SHELL_COMMAND, r#"{"command":"a"} x"#).is_none());
    assert!(try_build_warp_tool(TOOL_RUN_SHELL_COMMAND, r#"{"command":"a",}"#).is_none());
    assert!(try_build_warp_tool(
        TOOL_APPLY_FILE_DIFFS,
        r#"{"summary":"s","diffs":[{"file_path":"a","search":"b"}]}"#
    )
    .is_none());
    assert!(try_build_warp_tool(
        TOOL_APPLY_FILE_DIFFS,
        r#"{"summary":"s","new_files":[{"file_path":"a"}]}"#
    )
    .is_none());
    assert!(
        try_build_warp_tool(TOOL_APPLY_FILE_DIFFS, r#"{"summary":"s","deleted_files":[{}]}"#)
            .is_none()
    );
}

#[test]
fn escapes_are_read() {
    let tool = try_build_warp_tool(
        TOOL_RUN_SHELL_COMMAND,
        r#"{"command":"a\n\"{[,:\\é😀"}"#,
    );
    assert_eq!(
        tool,
        Some(Tool::RunShellCommand(RunShellCommand {
            command: "a\n\"{[,:\\\u{e9}\u{1f600}".into()
        }))
    );
    assert!(try_build_warp_tool(TOOL_RUN_SHELL_COMMAND, r#"{"command":"\ud800"}"#).is_none());
}

#[test]
fn escapes_make_no_difference() {
    let tool = try_build_warp_tool(
        TOOL_READ_FILES,
        r#"{"\u0070aths":["src\/\u0061.rs","\u00e9\u00E9","\ud83d\uDE00","\u0022\u005c\u000a\b"]}"#,
    );
    match tool {
        Some(Tool::ReadFiles(r)) => {
            let names: Vec<String> = r.files.into_iter().map(|f| f.name).collect();
            assert_eq!(names, vec!["src/a.rs", "\u{e9}\u{e9}", "\u{1f600}", "\"\\\n\u{8}"]);
        }
        _ => panic!("expected ReadFiles"),
    }
}

#[test]
fn numbers_of_all_kinds_are_passed_over() {
    for number in ["-1", "0.5", "-0", "1e9", "2E+400", "-3.25e-07", "18446744073709551616"] {
        let args = format!(r#"{{"timeout":{number},"command":"ls","n":[{number} , {{"m":{number}}}]}}"#);
        assert_eq!(
            try_build_warp_tool(TOOL_RUN_SHELL_COMMAND, &args),
            Some(Tool::RunShellCommand(RunShellCommand { command: "ls".into() })),
            "{number}"
        );
    }
    for other in ["01", "+1", ".5", "1.", "1e", "-"] {
        let args = format!(r#"{{"timeout":{other},"command":"ls"}}"#);
        assert_eq!(try_build_warp_tool(TOOL_RUN_SHELL_COMMAND, &args), None, "{other}");
    }
}

#[test]
fn structure_inside_strings_is_left_alone() {
    let tool = try_build_warp_tool(
        TOOL_READ_FILES,
        r#"{"a}":"{\"paths\":[]}","paths":["x{y:z}","[,]","\\"],"b":{"paths":["no"]}}"#,
    );
    match tool {
        Some(Tool::ReadFiles(r)) => {
            let names: Vec<String> = r.files.into_iter().map(|f| f.name).collect();
            assert_eq!(names, vec!["x{y:z}", "[,]", "\\"]);
        }
        _ => panic!("expected ReadFiles"),
    }
}

// ---- Round trips -----------------------------------------------------------

fn rebuilt(tool: &Tool) -> Option<Tool> {
    let call = warp_tool_to_openai_tool_call(tool, "id").unwrap();
    assert_eq!(call.id, "id");
    assert_eq!(call.kind, "function");
    try_build_warp_tool(&call.function.name, &call.function.arguments)
}

#[test]
fn every_tool_survives_the_round_trip() {
    let all = vec![
        Tool::RunShellCommand(RunShellCommand { command: "a \"b\"\n\u{1}\u{7f}\u{e9}".into() }),
        Tool::ReadFiles(ReadFiles {
            files: vec![
                ReadFile { name: "a".into(), line_ranges: vec![] },
                ReadFile { name: "".into(), line_ranges: vec![] },
            ],
        }),
        Tool::Grep(Grep { queries: vec!["q".into(), "{".into()], path: "null".into() }),
        Tool::FileGlobV2(FileGlobV2 { patterns: vec![], search_dir: "".into() }),
        Tool::ApplyFileDiffs(ApplyFileDiffs {
            summary: "s".into(),
            diffs: vec![FileDiff {
                file_path: "a".into(),
                search: "b\\".into(),
                replace: "\t".into(),
            }],
            new_files: vec![NewFile { file_path: "n".into(), content: "c".into() }],
            deleted_files: vec![DeleteFile { file_path: "d".into() }],
            v4a_updates: vec![],
        }),
    ];
    for tool in &all {
        assert_eq!(rebuilt(tool).as_ref(), Some(tool));
    }
}

#[test]
fn line_ranges_and_updates_are_not_carried() {
    let tool = Tool::ReadFiles(ReadFiles {
        files: vec![ReadFile {
            name: "a".into(),
            line_ranges: vec![LineRange { start: 1, end: 2 }],
        }],
    });
    assert_eq!(
        rebuilt(&tool),
        Some(Tool::ReadFiles(ReadFiles {
            files: vec![ReadFile { name: "a".into(), line_ranges: vec![] }],
        }))
    );
    let change = |updates: Vec<String>| {
        Tool::ApplyFileDiffs(ApplyFileDiffs {
            summary: "s".into(),
            diffs: vec![],
            new_files: vec![],
            deleted_files: vec![],
            v4a_updates: updates,
        })
    };
    assert_eq!(rebuilt(&change(vec!["u".into()])), Some(change(vec![])));
}

#[test]
fn arguments_are_written_compact_and_sorted() {
    let call = warp_tool_to_openai_tool_call(
        &Tool::Grep(Grep { queries: vec!["a".into(), "b\"".into()], path: "p\u{8}\u{1f}".into() }),
        "c",
    )
    .unwrap();
    assert_eq!(call.function.name, "grep");
    assert_eq!(
        call.function.arguments,
        r#"{"path":"p\b\u001f","queries":["a","b\""]}"#
    );
    let call = warp_tool_to_openai_tool_call(
        &Tool::ApplyFileDiffs(ApplyFileDiffs {
            summary: "s".into(),
            diffs: vec![FileDiff {
                file_path: "f".into(),
                search: "x".into(),
                replace: "y".into(),
            }],
            new_files: vec![NewFile { file_path: "n".into(), content: "c".into() }],
            deleted_files: vec![],
            v4a_updates: vec![],
        }),
        "c",
    )
    .unwrap();
    assert_eq!(
        call.function.arguments,
        r#"{"deleted_files":[],"diffs":[{"file_path":"f","replace":"y","search":"x"}],"new_files":[{"content":"c","file_path":"n"}],"summary":"s"}"#
    );
}

#[test]
fn other_tools_have_no_call() {
    assert!(warp_tool_to_openai_tool_call(&Tool::Other, "c").is_none());
}

// ---- Results ---------------------------------------------------------------

fn shell(result: Option<ShellOutcome>, output: &str) -> RunShellCommandResult {
    RunShellCommandResult {
        command: "".into(),
        output: output.into(),
        exit_code: -7,
        result,
    }
}

#[test]
fn shell_results_in_words() {
    assert_eq!(
        format_run_shell_result(&RunShellCommandResult {
            command: "ls".into(),
            result: Some(ShellOutcome::CommandFinished(ShellCommandFinished {
                exit_code: 130,
                output: "out".into(),
            })),
            ..Default::default()
        }),
        "command: ls\nexit_code: 130\noutput:\nout"
    );
    assert_eq!(
        format_run_shell_result(&shell(
            Some(ShellOutcome::CommandFinished(ShellCommandFinished {
                exit_code: i32::MIN,
                output: "".into(),
            })),
            "old"
        )),
        "exit_code: -2147483648\n"
    );
    assert_eq!(
        format_run_shell_result(&shell(Some(ShellOutcome::LongRunningCommandSnapshot), "")),
        "status: long_running (output not yet final)\n"
    );
    assert_eq!(
        format_run_shell_result(&shell(Some(ShellOutcome::PermissionDenied), "")),
        "status: permission_denied (user rejected the command)\n"
    );
    assert_eq!(format_run_shell_result(&shell(None, "old")), "exit_code: -7\noutput:\nold");
    assert_eq!(format_run_shell_result(&shell(None, "")), "status: empty");
}

#[test]
fn read_files_results_in_words() {
    let text = |outcome| format_read_files_result(&ReadFilesResult { result: outcome });
    assert_eq!(
        text(Some(ReadFilesOutcome::TextFilesSuccess(TextFiles {
            files: vec![
                FileContent { file_path: "a".into(), content: "x\n".into() },
                FileContent { file_path: "b".into(), content: "".into() },
            ],
        }))),
        "=== a ===\nx\n\n=== b ===\n\n"
    );
    assert_eq!(
        text(Some(ReadFilesOutcome::TextFilesSuccess(TextFiles { files: vec![] }))),
        ""
    );
    assert_eq!(
        text(Some(ReadFilesOutcome::AnyFilesSuccess(AnyFiles {
            files: vec![vec![1], vec![]],
        }))),
        "(2 non-text file(s) returned)"
    );
    assert_eq!(
        text(Some(ReadFilesOutcome::Error(ToolError { message: "gone".into() }))),
        "error: gone"
    );
    assert_eq!(text(None), "error: empty result");
}

#[test]
fn grep_results_in_words() {
    let text = |outcome| format_grep_result(&GrepResult { result: outcome });
    assert_eq!(
        text(Some(GrepOutcome::Success(GrepMatches {
            matched_files: vec![
                GrepFileMatch {
                    file_path: "a".into(),
                    matched_lines: vec![
                        GrepLineMatch { line_number: 1 },
                        GrepLineMatch { line_number: 4294967295 },
                    ],
                },
                GrepFileMatch { file_path: "b".into(), matched_lines: vec![] },
            ],
        }))),
        "a: lines 1,4294967295\nb: lines \n"
    );
    assert_eq!(
        text(Some(GrepOutcome::Success(GrepMatches { matched_files: vec![] }))),
        "(no matches)"
    );
    assert_eq!(
        text(Some(GrepOutcome::Error(ToolError { message: "bad".into() }))),
        "error: bad"
    );
    assert_eq!(text(None), "error: empty result");
}

#[test]
fn file_glob_results_in_words() {
    let text = |outcome| format_file_glob_v2_result(&FileGlobV2Result { result: outcome });
    assert_eq!(
        text(Some(FileGlobOutcome::Success(FileGlobMatches {
            matched_files: vec![
                FileGlobMatch { file_path: "a".into() },
                FileGlobMatch { file_path: "b".into() },
            ],
        }))),
        "a\nb"
    );
    assert_eq!(
        text(Some(FileGlobOutcome::Success(FileGlobMatches { matched_files: vec![] }))),
        "(no matches)"
    );
    assert_eq!(
        text(Some(FileGlobOutcome::Error(ToolError { message: "bad".into() }))),
        "error: bad"
    );
    assert_eq!(text(None), "error: empty result");
}

#[test]
fn apply_file_diffs_results_in_words() {
    let text =
        |outcome| format_apply_file_diffs_result(&ApplyFileDiffsResult { result: outcome });
    assert_eq!(
        text(Some(ApplyFileDiffsOutcome::Success(AppliedDiffs {
            updated_files_v2: vec![
                FileContent { file_path: "a".into(), content: "".into() };
                12
            ],
            deleted_files: vec![DeleteFile { file_path: "b".into() }],
        }))),
        "applied: 12 file(s) updated, 1 file(s) deleted"
    );
    assert_eq!(
        text(Some(ApplyFileDiffsOutcome::Error(ToolError { message: "bad".into() }))),
        "error: bad"
    );
    assert_eq!(text(None), "error: empty result");
}

#[test]
fn results_answer_their_call() {
    let m = warp_tool_result_to_openai_message(
        "call_9".into(),
        &ToolResult::Grep(GrepResult { result: None }),
    )
    .unwrap();
    assert_eq!(m.role, "tool");
    assert_eq!(m.tool_call_id.as_deref(), Some("call_9"));
    assert_eq!(m.content.as_deref(), Some("error: empty result"));
    assert!(m.tool_calls.is_none());
    assert!(warp_tool_result_to_openai_message("c".into(), &ToolResult::Other).is_none());
}
