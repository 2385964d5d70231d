//! Results of tools as text that the model can read.

use vstd::prelude::*;
use vstd::string::StringExecFns;

use crate::agent::ApplyFileDiffsOutcome;
use crate::agent::ApplyFileDiffsOutcomeView;
use crate::agent::ApplyFileDiffsResult;
use crate::agent::ApplyFileDiffsResultView;
use crate::agent::FileContent;
use crate::agent::FileContentView;
use crate::agent::FileGlobMatch;
use crate::agent::FileGlobMatchView;
use crate::agent::FileGlobOutcome;
use crate::agent::FileGlobOutcomeView;
use crate::agent::FileGlobV2Result;
use crate::agent::FileGlobV2ResultView;
use crate::agent::GrepFileMatch;
use crate::agent::GrepFileMatchView;
use crate::agent::GrepLineMatch;
use crate::agent::GrepLineMatchView;
use crate::agent::GrepOutcome;
use crate::agent::GrepOutcomeView;
use crate::agent::GrepResult;
use crate::agent::GrepResultView;
use crate::agent::ReadFilesOutcome;
use crate::agent::ReadFilesOutcomeView;
use crate::agent::ReadFilesResult;
use crate::agent::ReadFilesResultView;
use crate::agent::RunShellCommandResult;
use crate::agent::RunShellCommandResultView;
use crate::agent::ShellOutcome;
use crate::agent::ShellOutcomeView;
use crate::agent::ToolResult;
use crate::agent::ToolResultView;
use crate::conversation;
use crate::openai::ChatMessageView;
use crate::openai::OpenAiChatMessage;
use crate::text;

verus! {

// ---- What the texts say ----------------------------------------------------

/// The command that a result is of, where it is known.
pub open spec fn shell_command_text(r: RunShellCommandResultView) -> Seq<char> {
    if r.command.len() > 0 {
        "command: "@ + r.command + "\n"@
    } else {
        Seq::empty()
    }
}

/// How a command ended. Older clients filled fields of the result itself in
/// place of its outcome.
pub open spec fn shell_outcome_text(r: RunShellCommandResultView) -> Seq<char> {
    match r.result {
        Some(ShellOutcomeView::CommandFinished(f)) => "exit_code: "@ + text::signed_decimal(
            f.exit_code as int,
        ) + "\n"@ + (if f.output.len() > 0 {
            "output:\n"@ + f.output
        } else {
            Seq::empty()
        }),
        Some(
            ShellOutcomeView::LongRunningCommandSnapshot,
        ) => "status: long_running (output not yet final)\n"@,
        Some(
            ShellOutcomeView::PermissionDenied,
        ) => "status: permission_denied (user rejected the command)\n"@,
        None => if r.output.len() > 0 {
            "exit_code: "@ + text::signed_decimal(r.exit_code as int) + "\noutput:\n"@ + r.output
        } else {
            "status: empty"@
        },
    }
}

/// The result of a shell command.
pub open spec fn shell_text(r: RunShellCommandResultView) -> Seq<char> {
    shell_command_text(r) + shell_outcome_text(r)
}

/// A file under its path.
pub open spec fn file_text(f: FileContentView) -> Seq<char> {
    "=== "@ + f.file_path + " ===\n"@ + f.content + "\n"@
}

/// The files one after the other.
pub open spec fn files_text(files: Seq<FileContentView>) -> Seq<char>
    decreases files.len(),
{
    if files.len() == 0 {
        Seq::empty()
    } else {
        files_text(files.drop_last()) + file_text(files.last())
    }
}

/// What went wrong.
pub open spec fn error_text(message: Seq<char>) -> Seq<char> {
    "error: "@ + message
}

/// The result of reading files.
pub open spec fn read_files_text(r: ReadFilesResultView) -> Seq<char> {
    match r.result {
        Some(ReadFilesOutcomeView::TextFilesSuccess(s)) => files_text(s.files),
        Some(ReadFilesOutcomeView::AnyFilesSuccess(s)) => "("@ + text::decimal(s.files.len())
            + " non-text file(s) returned)"@,
        Some(ReadFilesOutcomeView::Error(e)) => error_text(e.message),
        None => "error: empty result"@,
    }
}

/// The numbers of the matched lines.
pub open spec fn line_numbers(lines: Seq<GrepLineMatchView>) -> Seq<Seq<char>> {
    lines.map_values(|m: GrepLineMatchView| text::decimal(m.line_number as nat))
}

/// The matches in one file.
pub open spec fn file_match_text(m: GrepFileMatchView) -> Seq<char> {
    m.file_path + ": lines "@ + text::joined(line_numbers(m.matched_lines), ","@) + "\n"@
}

/// The matches, file by file.
pub open spec fn file_matches_text(files: Seq<GrepFileMatchView>) -> Seq<char>
    decreases files.len(),
{
    if files.len() == 0 {
        Seq::empty()
    } else {
        file_matches_text(files.drop_last()) + file_match_text(files.last())
    }
}

/// The result of a search in files.
pub open spec fn grep_text(r: GrepResultView) -> Seq<char> {
    match r.result {
        Some(GrepOutcomeView::Success(s)) => if s.matched_files.len() == 0 {
            "(no matches)"@
        } else {
            file_matches_text(s.matched_files)
        },
        Some(GrepOutcomeView::Error(e)) => error_text(e.message),
        None => "error: empty result"@,
    }
}

/// The result of a search for files: one path a line.
pub open spec fn file_glob_text(r: FileGlobV2ResultView) -> Seq<char> {
    match r.result {
        Some(FileGlobOutcomeView::Success(s)) => if s.matched_files.len() == 0 {
            "(no matches)"@
        } else {
            text::joined(s.matched_files.map_values(|m: FileGlobMatchView| m.file_path), "\n"@)
        },
        Some(FileGlobOutcomeView::Error(e)) => error_text(e.message),
        None => "error: empty result"@,
    }
}

/// The result of a change to files.
pub open spec fn apply_file_diffs_text(r: ApplyFileDiffsResultView) -> Seq<char> {
    match r.result {
        Some(ApplyFileDiffsOutcomeView::Success(s)) => "applied: "@ + text::decimal(
            s.updated_files_v2.len(),
        ) + " file(s) updated, "@ + text::decimal(s.deleted_files.len()) + " file(s) deleted"@,
        Some(ApplyFileDiffsOutcomeView::Error(e)) => error_text(e.message),
        None => "error: empty result"@,
    }
}

/// The text for a result. Nothing for the result of a tool that is not
/// advertised.
pub open spec fn result_text(result: ToolResultView) -> Option<Seq<char>> {
    match result {
        ToolResultView::RunShellCommand(r) => Some(shell_text(r)),
        ToolResultView::ReadFiles(r) => Some(read_files_text(r)),
        ToolResultView::Grep(r) => Some(grep_text(r)),
        ToolResultView::FileGlobV2(r) => Some(file_glob_text(r)),
        ToolResultView::ApplyFileDiffs(r) => Some(apply_file_diffs_text(r)),
        ToolResultView::Other => None,
    }
}

/// The message that answers the call `id` with a result.
pub open spec fn result_message(id: Seq<char>, result: ToolResultView) -> Option<
    ChatMessageView,
> {
    match result_text(result) {
        Some(content) => Some(
            ChatMessageView {
                role: conversation::ROLE_TOOL@,
                content: Some(content),
                tool_call_id: Some(id),
                tool_calls: None,
            },
        ),
        None => None,
    }
}

// ---- Writing them ----------------------------------------------------------

/// Builds the `tool` message that answers the call `tool_call_id`. Returns
/// `None` for the result of a tool that is not advertised.
pub fn warp_tool_result_to_openai_message(
    tool_call_id: String,
    result: &ToolResult,
) -> (r: Option<OpenAiChatMessage>)
    ensures
        r.deep_view() == result_message(tool_call_id@, result.deep_view()),
{
    match format_tool_call_result(result) {
        Some(content) => Some(
            OpenAiChatMessage {
                role: conversation::ROLE_TOOL.to_string(),
                content: Some(content),
                tool_call_id: Some(tool_call_id),
                tool_calls: None,
            },
        ),
        None => None,
    }
}

pub fn format_tool_call_result(result: &ToolResult) -> (r: Option<String>)
    ensures
        r.deep_view() == result_text(result.deep_view()),
{
    match result {
        ToolResult::RunShellCommand(r) => Some(format_run_shell_result(r)),
        ToolResult::ReadFiles(r) => Some(format_read_files_result(r)),
        ToolResult::Grep(r) => Some(format_grep_result(r)),
        ToolResult::FileGlobV2(r) => Some(format_file_glob_v2_result(r)),
        ToolResult::ApplyFileDiffs(r) => Some(format_apply_file_diffs_result(r)),
        ToolResult::Other => None,
    }
}

fn format_error(message: &str) -> (r: String)
    ensures
        r@ == error_text(message@),
{
    let mut out = "error: ".to_string();
    out.append(message);
    out
}

pub fn format_run_shell_result(r: &RunShellCommandResult) -> (out: String)
    ensures
        out@ == shell_text(r.deep_view()),
{
    let mut out = String::new();
    if !r.command.as_str().is_empty() {
        out.append("command: ");
        out.append(r.command.as_str());
        out.append("\n");
    }
    let ghost head = out@;
    assert(head =~= shell_command_text(r.deep_view()));
    match &r.result {
        Some(ShellOutcome::CommandFinished(f)) => {
            out.append("exit_code: ");
            text::push_signed_decimal(&mut out, f.exit_code);
            out.append("\n");
            if !f.output.as_str().is_empty() {
                out.append("output:\n");
                out.append(f.output.as_str());
            }
        },
        Some(ShellOutcome::LongRunningCommandSnapshot) => {
            out.append("status: long_running (output not yet final)\n");
        },
        Some(ShellOutcome::PermissionDenied) => {
            out.append("status: permission_denied (user rejected the command)\n");
        },
        None => {
            if !r.output.as_str().is_empty() {
                out.append("exit_code: ");
                text::push_signed_decimal(&mut out, r.exit_code);
                out.append("\noutput:\n");
                out.append(r.output.as_str());
            } else {
                out.append("status: empty");
            }
        },
    }
    assert(out@ =~= head + shell_outcome_text(r.deep_view()));
    out
}

fn format_files(files: &Vec<FileContent>) -> (out: String)
    ensures
        out@ == files_text(files.deep_view()),
{
    let ghost all = files.deep_view();
    let mut out = String::new();
    let mut i: usize = 0;
    assert(all.take(0) =~= Seq::empty());
    while i < files.len()
        invariant
            i <= files@.len(),
            all == files.deep_view(),
            out@ == files_text(all.take(i as int)),
        decreases files@.len() - i,
    {
        let ghost prior = out@;
        out.append("=== ");
        out.append(files[i].file_path.as_str());
        out.append(" ===\n");
        out.append(files[i].content.as_str());
        out.append("\n");
        proof {
            assert(all.take(i + 1).drop_last() =~= all.take(i as int));
            assert(all.take(i + 1).last() == all[i as int]);
            assert(out@ =~= prior + file_text(all[i as int]));
        }
        i = i + 1;
    }
    assert(all.take(i as int) =~= all);
    out
}

pub fn format_read_files_result(r: &ReadFilesResult) -> (out: String)
    ensures
        out@ == read_files_text(r.deep_view()),
{
    match &r.result {
        Some(ReadFilesOutcome::TextFilesSuccess(s)) => format_files(&s.files),
        Some(ReadFilesOutcome::AnyFilesSuccess(s)) => {
            // Such files come without a path: the text says how many there are.
            let mut out = "(".to_string();
            text::push_decimal(&mut out, s.files.len() as u64);
            out.append(" non-text file(s) returned)");
            out
        },
        Some(ReadFilesOutcome::Error(e)) => format_error(e.message.as_str()),
        None => "error: empty result".to_string(),
    }
}

fn write_line_numbers(lines: &Vec<GrepLineMatch>) -> (r: Vec<String>)
    ensures
        r.deep_view() == line_numbers(lines.deep_view()),
{
    let ghost wanted = line_numbers(lines.deep_view());
    let mut out: Vec<String> = Vec::new();
    let mut i: usize = 0;
    while i < lines.len()
        invariant
            i <= lines@.len(),
            out@.len() == i,
            wanted == line_numbers(lines.deep_view()),
            out.deep_view() == wanted.take(i as int),
        decreases lines@.len() - i,
    {
        let ghost prior = out.deep_view();
        let mut number = String::new();
        text::push_decimal(&mut number, lines[i].line_number as u64);
        assert(number@ =~= wanted[i as int]);
        out.push(number);
        assert(out.deep_view() =~= prior.push(number@));
        assert(out.deep_view() =~= wanted.take(i + 1));
        i = i + 1;
    }
    assert(wanted.take(i as int) =~= wanted);
    out
}

fn format_file_matches(files: &Vec<GrepFileMatch>) -> (out: String)
    ensures
        out@ == file_matches_text(files.deep_view()),
{
    let ghost all = files.deep_view();
    let mut out = String::new();
    let mut i: usize = 0;
    assert(all.take(0) =~= Seq::empty());
    while i < files.len()
        invariant
            i <= files@.len(),
            all == files.deep_view(),
            out@ == file_matches_text(all.take(i as int)),
        decreases files@.len() - i,
    {
        let ghost prior = out@;
        let numbers: Vec<String> = write_line_numbers(&files[i].matched_lines);
        let lines: String = text::join(&numbers, ",");
        out.append(files[i].file_path.as_str());
        out.append(": lines ");
        out.append(lines.as_str());
        out.append("\n");
        proof {
            assert(all.take(i + 1).drop_last() =~= all.take(i as int));
            assert(all.take(i + 1).last() == all[i as int]);
            assert(out@ =~= prior + file_match_text(all[i as int]));
        }
        i = i + 1;
    }
    assert(all.take(i as int) =~= all);
    out
}

pub fn format_grep_result(r: &GrepResult) -> (out: String)
    ensures
        out@ == grep_text(r.deep_view()),
{
    match &r.result {
        Some(GrepOutcome::Success(s)) => if s.matched_files.len() == 0 {
            "(no matches)".to_string()
        } else {
            format_file_matches(&s.matched_files)
        },
        Some(GrepOutcome::Error(e)) => format_error(e.message.as_str()),
        None => "error: empty result".to_string(),
    }
}

fn matched_paths(files: &Vec<FileGlobMatch>) -> (r: Vec<String>)
    ensures
        r.deep_view() == files.deep_view().map_values(|m: FileGlobMatchView| m.file_path),
{
    let ghost wanted = files.deep_view().map_values(|m: FileGlobMatchView| m.file_path);
    let mut out: Vec<String> = Vec::new();
    let mut i: usize = 0;
    while i < files.len()
        invariant
            i <= files@.len(),
            out@.len() == i,
            wanted == files.deep_view().map_values(|m: FileGlobMatchView| m.file_path),
            out.deep_view() == wanted.take(i as int),
        decreases files@.len() - i,
    {
        let ghost prior = out.deep_view();
        out.push(files[i].file_path.clone());
        assert(out.deep_view() =~= prior.push(wanted[i as int]));
        assert(out.deep_view() =~= wanted.take(i + 1));
        i = i + 1;
    }
    assert(wanted.take(i as int) =~= wanted);
    out
}

pub fn format_file_glob_v2_result(r: &FileGlobV2Result) -> (out: String)
    ensures
        out@ == file_glob_text(r.deep_view()),
{
    match &r.result {
        Some(FileGlobOutcome::Success(s)) => if s.matched_files.len() == 0 {
            "(no matches)".to_string()
        } else {
            text::join(&matched_paths(&s.matched_files), "\n")
        },
        Some(FileGlobOutcome::Error(e)) => format_error(e.message.as_str()),
        None => "error: empty result".to_string(),
    }
}

pub fn format_apply_file_diffs_result(r: &ApplyFileDiffsResult) -> (out: String)
    ensures
        out@ == apply_file_diffs_text(r.deep_view()),
{
    match &r.result {
        Some(ApplyFileDiffsOutcome::Success(s)) => {
            let mut out = "applied: ".to_string();
            text::push_decimal(&mut out, s.updated_files_v2.len() as u64);
            out.append(" file(s) updated, ");
            text::push_decimal(&mut out, s.deleted_files.len() as u64);
            out.append(" file(s) deleted");
            out
        },
        Some(ApplyFileDiffsOutcome::Error(e)) => format_error(e.message.as_str()),
        None => "error: empty result".to_string(),
    }
}

// ---- Laws ------------------------------------------------------------------

/// A result is answered under the id of its call, in the role of a tool, and
/// only the results of advertised tools are.
pub proof fn law_result_answers_its_call(id: Seq<char>, result: ToolResultView)
    ensures
        result_message(id, result) is None <==> result is Other,
        result_message(id, result) matches Some(m) ==> m.role == conversation::ROLE_TOOL@ && m.tool_call_id
            == Some(id) && m.tool_calls is None && m.content == result_text(result),
{
}

/// The result of a command says which command it is of, where that is known,
/// how the command ended, and its output as it is. Older clients fill fields of
/// the result itself.
pub proof fn law_command_result_is_told(r: RunShellCommandResultView)
    ensures
        result_text(ToolResultView::RunShellCommand(r)) == Some(
            (if r.command.len() > 0 {
                "command: "@ + r.command + "\n"@
            } else {
                Seq::empty()
            }) + (match r.result {
                Some(ShellOutcomeView::CommandFinished(f)) => if f.output.len() > 0 {
                    "exit_code: "@ + text::signed_decimal(f.exit_code as int) + "\n"@
                        + ("output:\n"@ + f.output)
                } else {
                    "exit_code: "@ + text::signed_decimal(f.exit_code as int) + "\n"@
                },
                Some(
                    ShellOutcomeView::LongRunningCommandSnapshot,
                ) => "status: long_running (output not yet final)\n"@,
                Some(
                    ShellOutcomeView::PermissionDenied,
                ) => "status: permission_denied (user rejected the command)\n"@,
                None => if r.output.len() > 0 {
                    "exit_code: "@ + text::signed_decimal(r.exit_code as int) + "\noutput:\n"@
                        + r.output
                } else {
                    "status: empty"@
                },
            }),
        ),
{
    if let Some(ShellOutcomeView::CommandFinished(f)) = r.result {
        let head = "exit_code: "@ + text::signed_decimal(f.exit_code as int) + "\n"@;
        assert(head + Seq::<char>::empty() =~= head);
    }
}

/// The files that were read are told one after the other, each under its path
/// and with its content as it is. Of files without a text only the number is
/// told.
pub proof fn law_read_files_are_told(
    r: ReadFilesResultView,
    files: Seq<FileContentView>,
    file: FileContentView,
)
    ensures
        files_text(Seq::empty()) == Seq::<char>::empty(),
        files_text(files.push(file)) == files_text(files) + ("=== "@ + file.file_path + " ===\n"@
            + file.content + "\n"@),
        result_text(ToolResultView::ReadFiles(r)) == Some(
            match r.result {
                Some(ReadFilesOutcomeView::TextFilesSuccess(s)) => files_text(s.files),
                Some(ReadFilesOutcomeView::AnyFilesSuccess(s)) => "("@ + text::decimal(
                    s.files.len(),
                ) + " non-text file(s) returned)"@,
                Some(ReadFilesOutcomeView::Error(e)) => "error: "@ + e.message,
                None => "error: empty result"@,
            },
        ),
{
    assert(files.push(file).drop_last() =~= files);
}

/// The matches of a search in files are told file by file, each with its path
/// and the numbers of all the lines that match, in their order.
pub proof fn law_matches_are_told(
    r: GrepResultView,
    files: Seq<GrepFileMatchView>,
    file: GrepFileMatchView,
)
    ensures
        file_matches_text(Seq::empty()) == Seq::<char>::empty(),
        file_matches_text(files.push(file)) == file_matches_text(files) + (file.file_path
            + ": lines "@ + text::joined(
            Seq::new(
                file.matched_lines.len(),
                |i: int| text::decimal(file.matched_lines[i].line_number as nat),
            ),
            ","@,
        ) + "\n"@),
        result_text(ToolResultView::Grep(r)) == Some(
            match r.result {
                Some(GrepOutcomeView::Success(s)) => if s.matched_files.len() == 0 {
                    "(no matches)"@
                } else {
                    file_matches_text(s.matched_files)
                },
                Some(GrepOutcomeView::Error(e)) => "error: "@ + e.message,
                None => "error: empty result"@,
            },
        ),
{
    assert(files.push(file).drop_last() =~= files);
    assert(line_numbers(file.matched_lines) =~= Seq::new(
        file.matched_lines.len(),
        |i: int| text::decimal(file.matched_lines[i].line_number as nat),
    ));
}

/// The files that a search found are told by their paths, one a line, in their
/// order.
pub proof fn law_found_files_are_told(r: FileGlobV2ResultView)
    ensures
        result_text(ToolResultView::FileGlobV2(r)) == Some(
            match r.result {
                Some(FileGlobOutcomeView::Success(s)) => if s.matched_files.len() == 0 {
                    "(no matches)"@
                } else {
                    text::joined(
                        Seq::new(s.matched_files.len(), |i: int| s.matched_files[i].file_path),
                        "\n"@,
                    )
                },
                Some(FileGlobOutcomeView::Error(e)) => "error: "@ + e.message,
                None => "error: empty result"@,
            },
        ),
{
    if let Some(FileGlobOutcomeView::Success(s)) = r.result {
        assert(s.matched_files.map_values(|m: FileGlobMatchView| m.file_path) =~= Seq::new(
            s.matched_files.len(),
            |i: int| s.matched_files[i].file_path,
        ));
    }
}

/// A change to files is told by how many were updated and how many deleted.
pub proof fn law_changes_are_told(r: ApplyFileDiffsResultView)
    ensures
        result_text(ToolResultView::ApplyFileDiffs(r)) == Some(
            match r.result {
                Some(ApplyFileDiffsOutcomeView::Success(s)) => "applied: "@ + text::decimal(
                    s.updated_files_v2.len(),
                ) + " file(s) updated, "@ + text::decimal(s.deleted_files.len())
                    + " file(s) deleted"@,
                Some(ApplyFileDiffsOutcomeView::Error(e)) => "error: "@ + e.message,
                None => "error: empty result"@,
            },
        ),
{
}

/// The message for a result has the text of the result, in the role of a tool
/// and under the id of the call.
pub proof fn law_result_message(id: Seq<char>, result: ToolResultView)
    ensures
        result_message(id, result) == (match result_text(result) {
            Some(content) => Some(
                ChatMessageView {
                    role: "tool"@,
                    content: Some(content),
                    tool_call_id: Some(id),
                    tool_calls: None,
                },
            ),
            None => None,
        }),
        result_text(result) is None <==> result is Other,
{
}

} // verus!
