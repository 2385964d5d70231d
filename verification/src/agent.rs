//! The agent's vocabulary: requests with their conversation, tools and their
//! results, and the events of a reply.

use vstd::prelude::*;

verus! {

/// A moment, in seconds and nanoseconds since the Unix epoch.
#[derive(Debug, Clone, Copy, PartialEq, Eq, Structural)]
pub struct Timestamp {
    pub seconds: i64,
    pub nanos: i32,
}

// ---- Tools ---------------------------------------------------------------

/// A tool and what it is asked to do.
#[derive(Debug, Clone, PartialEq, Eq)]
pub enum Tool {
    RunShellCommand(RunShellCommand),
    ReadFiles(ReadFiles),
    Grep(Grep),
    FileGlobV2(FileGlobV2),
    ApplyFileDiffs(ApplyFileDiffs),
    /// A tool that local models are not told of.
    Other,
}

/// What [`Tool`] holds.
#[verifier::ext_equal]
pub enum ToolView {
    RunShellCommand(RunShellCommandView),
    ReadFiles(ReadFilesView),
    Grep(GrepView),
    FileGlobV2(FileGlobV2View),
    ApplyFileDiffs(ApplyFileDiffsView),
    Other,
}

impl DeepView for Tool {
    type V = ToolView;

    open spec fn deep_view(&self) -> ToolView {
        match self {
            Tool::RunShellCommand(x) => ToolView::RunShellCommand(x.deep_view()),
            Tool::ReadFiles(x) => ToolView::ReadFiles(x.deep_view()),
            Tool::Grep(x) => ToolView::Grep(x.deep_view()),
            Tool::FileGlobV2(x) => ToolView::FileGlobV2(x.deep_view()),
            Tool::ApplyFileDiffs(x) => ToolView::ApplyFileDiffs(x.deep_view()),
            Tool::Other => ToolView::Other,
        }
    }
}

/// Run a command in the terminal.
#[derive(Debug, Clone, PartialEq, Eq)]
pub struct RunShellCommand {
    pub command: String,
}

/// What [`RunShellCommand`] holds.
#[verifier::ext_equal]
pub struct RunShellCommandView {
    pub command: Seq<char>,
}

impl DeepView for RunShellCommand {
    type V = RunShellCommandView;

    open spec fn deep_view(&self) -> RunShellCommandView {
        RunShellCommandView {
            command: self.command@,
        }
    }
}

/// Read files, or parts of them.
#[derive(Debug, Clone, PartialEq, Eq)]
pub struct ReadFiles {
    pub files: Vec<ReadFile>,
}

/// What [`ReadFiles`] holds.
#[verifier::ext_equal]
pub struct ReadFilesView {
    pub files: Seq<ReadFileView>,
}

impl DeepView for ReadFiles {
    type V = ReadFilesView;

    open spec fn deep_view(&self) -> ReadFilesView {
        ReadFilesView {
            files: self.files.deep_view(),
        }
    }
}

/// A file to read.
#[derive(Debug, Clone, PartialEq, Eq)]
pub struct ReadFile {
    pub name: String,
    /// The parts to read; all of the file where there are none.
    pub line_ranges: Vec<LineRange>,
}

/// What [`ReadFile`] holds.
#[verifier::ext_equal]
pub struct ReadFileView {
    pub name: Seq<char>,
    pub line_ranges: Seq<LineRangeView>,
}

impl DeepView for ReadFile {
    type V = ReadFileView;

    open spec fn deep_view(&self) -> ReadFileView {
        ReadFileView {
            name: self.name@,
            line_ranges: self.line_ranges.deep_view(),
        }
    }
}

/// A range of lines.
#[derive(Debug, Clone, PartialEq, Eq)]
pub struct LineRange {
    pub start: u32,
    pub end: u32,
}

/// What [`LineRange`] holds.
#[verifier::ext_equal]
pub struct LineRangeView {
    pub start: u32,
    pub end: u32,
}

impl DeepView for LineRange {
    type V = LineRangeView;

    open spec fn deep_view(&self) -> LineRangeView {
        LineRangeView {
            start: self.start,
            end: self.end,
        }
    }
}

/// Search the contents of files.
#[derive(Debug, Clone, PartialEq, Eq)]
pub struct Grep {
    pub queries: Vec<String>,
    pub path: String,
}

/// What [`Grep`] holds.
#[verifier::ext_equal]
pub struct GrepView {
    pub queries: Seq<Seq<char>>,
    pub path: Seq<char>,
}

impl DeepView for Grep {
    type V = GrepView;

    open spec fn deep_view(&self) -> GrepView {
        GrepView {
            queries: self.queries.deep_view(),
            path: self.path@,
        }
    }
}

/// Find files by name.
#[derive(Debug, Clone, PartialEq, Eq)]
pub struct FileGlobV2 {
    pub patterns: Vec<String>,
    pub search_dir: String,
}

/// What [`FileGlobV2`] holds.
#[verifier::ext_equal]
pub struct FileGlobV2View {
    pub patterns: Seq<Seq<char>>,
    pub search_dir: Seq<char>,
}

impl DeepView for FileGlobV2 {
    type V = FileGlobV2View;

    open spec fn deep_view(&self) -> FileGlobV2View {
        FileGlobV2View {
            patterns: self.patterns.deep_view(),
            search_dir: self.search_dir@,
        }
    }
}

/// Edit, create and delete files.
#[derive(Debug, Clone, PartialEq, Eq)]
pub struct ApplyFileDiffs {
    pub summary: String,
    pub diffs: Vec<FileDiff>,
    pub new_files: Vec<NewFile>,
    pub deleted_files: Vec<DeleteFile>,
    /// Edits in the V4A patch format.
    pub v4a_updates: Vec<String>,
}

/// What [`ApplyFileDiffs`] holds.
#[verifier::ext_equal]
pub struct ApplyFileDiffsView {
    pub summary: Seq<char>,
    pub diffs: Seq<FileDiffView>,
    pub new_files: Seq<NewFileView>,
    pub deleted_files: Seq<DeleteFileView>,
    pub v4a_updates: Seq<Seq<char>>,
}

impl DeepView for ApplyFileDiffs {
    type V = ApplyFileDiffsView;

    open spec fn deep_view(&self) -> ApplyFileDiffsView {
        ApplyFileDiffsView {
            summary: self.summary@,
            diffs: self.diffs.deep_view(),
            new_files: self.new_files.deep_view(),
            deleted_files: self.deleted_files.deep_view(),
            v4a_updates: self.v4a_updates.deep_view(),
        }
    }
}

/// Replace a passage of a file.
#[derive(Debug, Clone, PartialEq, Eq)]
pub struct FileDiff {
    pub file_path: String,
    pub search: String,
    pub replace: String,
}

/// What [`FileDiff`] holds.
#[verifier::ext_equal]
pub struct FileDiffView {
    pub file_path: Seq<char>,
    pub search: Seq<char>,
    pub replace: Seq<char>,
}

impl DeepView for FileDiff {
    type V = FileDiffView;

    open spec fn deep_view(&self) -> FileDiffView {
        FileDiffView {
            file_path: self.file_path@,
            search: self.search@,
            replace: self.replace@,
        }
    }
}

/// Create a file.
#[derive(Debug, Clone, PartialEq, Eq)]
pub struct NewFile {
    pub file_path: String,
    pub content: String,
}

/// What [`NewFile`] holds.
#[verifier::ext_equal]
pub struct NewFileView {
    pub file_path: Seq<char>,
    pub content: Seq<char>,
}

impl DeepView for NewFile {
    type V = NewFileView;

    open spec fn deep_view(&self) -> NewFileView {
        NewFileView {
            file_path: self.file_path@,
            content: self.content@,
        }
    }
}

/// Delete a file.
#[derive(Debug, Clone, PartialEq, Eq)]
pub struct DeleteFile {
    pub file_path: String,
}

/// What [`DeleteFile`] holds.
#[verifier::ext_equal]
pub struct DeleteFileView {
    pub file_path: Seq<char>,
}

impl DeepView for DeleteFile {
    type V = DeleteFileView;

    open spec fn deep_view(&self) -> DeleteFileView {
        DeleteFileView {
            file_path: self.file_path@,
        }
    }
}

// ---- Results of tools ----------------------------------------------------

/// The result of the call with the given id.
#[derive(Debug, Clone, PartialEq, Eq)]
pub struct ToolCallResult {
    pub tool_call_id: String,
    pub result: Option<ToolResult>,
}

/// What [`ToolCallResult`] holds.
#[verifier::ext_equal]
pub struct ToolCallResultView {
    pub tool_call_id: Seq<char>,
    pub result: Option<ToolResultView>,
}

impl DeepView for ToolCallResult {
    type V = ToolCallResultView;

    open spec fn deep_view(&self) -> ToolCallResultView {
        ToolCallResultView {
            tool_call_id: self.tool_call_id@,
            result: self.result.deep_view(),
        }
    }
}

/// What a tool came to.
#[derive(Debug, Clone, PartialEq, Eq)]
pub enum ToolResult {
    RunShellCommand(RunShellCommandResult),
    ReadFiles(ReadFilesResult),
    Grep(GrepResult),
    FileGlobV2(FileGlobV2Result),
    ApplyFileDiffs(ApplyFileDiffsResult),
    /// The result of a tool that local models are not told of.
    Other,
}

/// What [`ToolResult`] holds.
#[verifier::ext_equal]
pub enum ToolResultView {
    RunShellCommand(RunShellCommandResultView),
    ReadFiles(ReadFilesResultView),
    Grep(GrepResultView),
    FileGlobV2(FileGlobV2ResultView),
    ApplyFileDiffs(ApplyFileDiffsResultView),
    Other,
}

impl DeepView for ToolResult {
    type V = ToolResultView;

    open spec fn deep_view(&self) -> ToolResultView {
        match self {
            ToolResult::RunShellCommand(x) => ToolResultView::RunShellCommand(x.deep_view()),
            ToolResult::ReadFiles(x) => ToolResultView::ReadFiles(x.deep_view()),
            ToolResult::Grep(x) => ToolResultView::Grep(x.deep_view()),
            ToolResult::FileGlobV2(x) => ToolResultView::FileGlobV2(x.deep_view()),
            ToolResult::ApplyFileDiffs(x) => ToolResultView::ApplyFileDiffs(x.deep_view()),
            ToolResult::Other => ToolResultView::Other,
        }
    }
}

/// The result of a command.
#[derive(Debug, Clone, PartialEq, Eq)]
pub struct RunShellCommandResult {
    pub command: String,
    /// Filled by older clients in place of `result`.
    pub output: String,
    /// Filled by older clients in place of `result`.
    pub exit_code: i32,
    pub result: Option<ShellOutcome>,
}

/// What [`RunShellCommandResult`] holds.
#[verifier::ext_equal]
pub struct RunShellCommandResultView {
    pub command: Seq<char>,
    pub output: Seq<char>,
    pub exit_code: i32,
    pub result: Option<ShellOutcomeView>,
}

impl DeepView for RunShellCommandResult {
    type V = RunShellCommandResultView;

    open spec fn deep_view(&self) -> RunShellCommandResultView {
        RunShellCommandResultView {
            command: self.command@,
            output: self.output@,
            exit_code: self.exit_code,
            result: self.result.deep_view(),
        }
    }
}

/// How a command ended, or that it has not.
#[derive(Debug, Clone, PartialEq, Eq)]
pub enum ShellOutcome {
    CommandFinished(ShellCommandFinished),
    LongRunningCommandSnapshot,
    PermissionDenied,
}

/// What [`ShellOutcome`] holds.
#[verifier::ext_equal]
pub enum ShellOutcomeView {
    CommandFinished(ShellCommandFinishedView),
    LongRunningCommandSnapshot,
    PermissionDenied,
}

impl DeepView for ShellOutcome {
    type V = ShellOutcomeView;

    open spec fn deep_view(&self) -> ShellOutcomeView {
        match self {
            ShellOutcome::CommandFinished(x) => ShellOutcomeView::CommandFinished(x.deep_view()),
            ShellOutcome::LongRunningCommandSnapshot => ShellOutcomeView::LongRunningCommandSnapshot,
            ShellOutcome::PermissionDenied => ShellOutcomeView::PermissionDenied,
        }
    }
}

/// A command that ran to its end.
#[derive(Debug, Clone, PartialEq, Eq)]
pub struct ShellCommandFinished {
    pub exit_code: i32,
    pub output: String,
}

/// What [`ShellCommandFinished`] holds.
#[verifier::ext_equal]
pub struct ShellCommandFinishedView {
    pub exit_code: i32,
    pub output: Seq<char>,
}

impl DeepView for ShellCommandFinished {
    type V = ShellCommandFinishedView;

    open spec fn deep_view(&self) -> ShellCommandFinishedView {
        ShellCommandFinishedView {
            exit_code: self.exit_code,
            output: self.output@,
        }
    }
}

/// What went wrong.
#[derive(Debug, Clone, PartialEq, Eq)]
pub struct ToolError {
    pub message: String,
}

/// What [`ToolError`] holds.
#[verifier::ext_equal]
pub struct ToolErrorView {
    pub message: Seq<char>,
}

impl DeepView for ToolError {
    type V = ToolErrorView;

    open spec fn deep_view(&self) -> ToolErrorView {
        ToolErrorView {
            message: self.message@,
        }
    }
}

/// The result of reading files.
#[derive(Debug, Clone, PartialEq, Eq)]
pub struct ReadFilesResult {
    pub result: Option<ReadFilesOutcome>,
}

/// What [`ReadFilesResult`] holds.
#[verifier::ext_equal]
pub struct ReadFilesResultView {
    pub result: Option<ReadFilesOutcomeView>,
}

impl DeepView for ReadFilesResult {
    type V = ReadFilesResultView;

    open spec fn deep_view(&self) -> ReadFilesResultView {
        ReadFilesResultView {
            result: self.result.deep_view(),
        }
    }
}

/// The files that were read, or why not.
#[derive(Debug, Clone, PartialEq, Eq)]
pub enum ReadFilesOutcome {
    TextFilesSuccess(TextFiles),
    AnyFilesSuccess(AnyFiles),
    Error(ToolError),
}

/// What [`ReadFilesOutcome`] holds.
#[verifier::ext_equal]
pub enum ReadFilesOutcomeView {
    TextFilesSuccess(TextFilesView),
    AnyFilesSuccess(AnyFilesView),
    Error(ToolErrorView),
}

impl DeepView for ReadFilesOutcome {
    type V = ReadFilesOutcomeView;

    open spec fn deep_view(&self) -> ReadFilesOutcomeView {
        match self {
            ReadFilesOutcome::TextFilesSuccess(x) => ReadFilesOutcomeView::TextFilesSuccess(x.deep_view()),
            ReadFilesOutcome::AnyFilesSuccess(x) => ReadFilesOutcomeView::AnyFilesSuccess(x.deep_view()),
            ReadFilesOutcome::Error(x) => ReadFilesOutcomeView::Error(x.deep_view()),
        }
    }
}

/// Files of text.
#[derive(Debug, Clone, PartialEq, Eq)]
pub struct TextFiles {
    pub files: Vec<FileContent>,
}

/// What [`TextFiles`] holds.
#[verifier::ext_equal]
pub struct TextFilesView {
    pub files: Seq<FileContentView>,
}

impl DeepView for TextFiles {
    type V = TextFilesView;

    open spec fn deep_view(&self) -> TextFilesView {
        TextFilesView {
            files: self.files.deep_view(),
        }
    }
}

/// A file and its text.
#[derive(Debug, Clone, PartialEq, Eq)]
pub struct FileContent {
    pub file_path: String,
    pub content: String,
}

/// What [`FileContent`] holds.
#[verifier::ext_equal]
pub struct FileContentView {
    pub file_path: Seq<char>,
    pub content: Seq<char>,
}

impl DeepView for FileContent {
    type V = FileContentView;

    open spec fn deep_view(&self) -> FileContentView {
        FileContentView {
            file_path: self.file_path@,
            content: self.content@,
        }
    }
}

/// Files of any kind, by their contents alone.
#[derive(Debug, Clone, PartialEq, Eq)]
pub struct AnyFiles {
    pub files: Vec<Vec<u8>>,
}

/// What [`AnyFiles`] holds.
#[verifier::ext_equal]
pub struct AnyFilesView {
    pub files: Seq<Seq<u8>>,
}

impl DeepView for AnyFiles {
    type V = AnyFilesView;

    open spec fn deep_view(&self) -> AnyFilesView {
        AnyFilesView {
            files: self.files.deep_view(),
        }
    }
}

/// The result of a search in files.
#[derive(Debug, Clone, PartialEq, Eq)]
pub struct GrepResult {
    pub result: Option<GrepOutcome>,
}

/// What [`GrepResult`] holds.
#[verifier::ext_equal]
pub struct GrepResultView {
    pub result: Option<GrepOutcomeView>,
}

impl DeepView for GrepResult {
    type V = GrepResultView;

    open spec fn deep_view(&self) -> GrepResultView {
        GrepResultView {
            result: self.result.deep_view(),
        }
    }
}

/// Where the search found something, or why not.
#[derive(Debug, Clone, PartialEq, Eq)]
pub enum GrepOutcome {
    Success(GrepMatches),
    Error(ToolError),
}

/// What [`GrepOutcome`] holds.
#[verifier::ext_equal]
pub enum GrepOutcomeView {
    Success(GrepMatchesView),
    Error(ToolErrorView),
}

impl DeepView for GrepOutcome {
    type V = GrepOutcomeView;

    open spec fn deep_view(&self) -> GrepOutcomeView {
        match self {
            GrepOutcome::Success(x) => GrepOutcomeView::Success(x.deep_view()),
            GrepOutcome::Error(x) => GrepOutcomeView::Error(x.deep_view()),
        }
    }
}

/// The files with matches.
#[derive(Debug, Clone, PartialEq, Eq)]
pub struct GrepMatches {
    pub matched_files: Vec<GrepFileMatch>,
}

/// What [`GrepMatches`] holds.
#[verifier::ext_equal]
pub struct GrepMatchesView {
    pub matched_files: Seq<GrepFileMatchView>,
}

impl DeepView for GrepMatches {
    type V = GrepMatchesView;

    open spec fn deep_view(&self) -> GrepMatchesView {
        GrepMatchesView {
            matched_files: self.matched_files.deep_view(),
        }
    }
}

/// A file and its matching lines.
#[derive(Debug, Clone, PartialEq, Eq)]
pub struct GrepFileMatch {
    pub file_path: String,
    pub matched_lines: Vec<GrepLineMatch>,
}

/// What [`GrepFileMatch`] holds.
#[verifier::ext_equal]
pub struct GrepFileMatchView {
    pub file_path: Seq<char>,
    pub matched_lines: Seq<GrepLineMatchView>,
}

impl DeepView for GrepFileMatch {
    type V = GrepFileMatchView;

    open spec fn deep_view(&self) -> GrepFileMatchView {
        GrepFileMatchView {
            file_path: self.file_path@,
            matched_lines: self.matched_lines.deep_view(),
        }
    }
}

/// A matching line.
#[derive(Debug, Clone, PartialEq, Eq)]
pub struct GrepLineMatch {
    pub line_number: u32,
}

/// What [`GrepLineMatch`] holds.
#[verifier::ext_equal]
pub struct GrepLineMatchView {
    pub line_number: u32,
}

impl DeepView for GrepLineMatch {
    type V = GrepLineMatchView;

    open spec fn deep_view(&self) -> GrepLineMatchView {
        GrepLineMatchView {
            line_number: self.line_number,
        }
    }
}

/// The result of a search for files.
#[derive(Debug, Clone, PartialEq, Eq)]
pub struct FileGlobV2Result {
    pub result: Option<FileGlobOutcome>,
}

/// What [`FileGlobV2Result`] holds.
#[verifier::ext_equal]
pub struct FileGlobV2ResultView {
    pub result: Option<FileGlobOutcomeView>,
}

impl DeepView for FileGlobV2Result {
    type V = FileGlobV2ResultView;

    open spec fn deep_view(&self) -> FileGlobV2ResultView {
        FileGlobV2ResultView {
            result: self.result.deep_view(),
        }
    }
}

/// The files that were found, or why not.
#[derive(Debug, Clone, PartialEq, Eq)]
pub enum FileGlobOutcome {
    Success(FileGlobMatches),
    Error(ToolError),
}

/// What [`FileGlobOutcome`] holds.
#[verifier::ext_equal]
pub enum FileGlobOutcomeView {
    Success(FileGlobMatchesView),
    Error(ToolErrorView),
}

impl DeepView for FileGlobOutcome {
    type V = FileGlobOutcomeView;

    open spec fn deep_view(&self) -> FileGlobOutcomeView {
        match self {
            FileGlobOutcome::Success(x) => FileGlobOutcomeView::Success(x.deep_view()),
            FileGlobOutcome::Error(x) => FileGlobOutcomeView::Error(x.deep_view()),
        }
    }
}

/// The files that were found.
#[derive(Debug, Clone, PartialEq, Eq)]
pub struct FileGlobMatches {
    pub matched_files: Vec<FileGlobMatch>,
}

/// What [`FileGlobMatches`] holds.
#[verifier::ext_equal]
pub struct FileGlobMatchesView {
    pub matched_files: Seq<FileGlobMatchView>,
}

impl DeepView for FileGlobMatches {
    type V = FileGlobMatchesView;

    open spec fn deep_view(&self) -> FileGlobMatchesView {
        FileGlobMatchesView {
            matched_files: self.matched_files.deep_view(),
        }
    }
}

/// A file that was found.
#[derive(Debug, Clone, PartialEq, Eq)]
pub struct FileGlobMatch {
    pub file_path: String,
}

/// What [`FileGlobMatch`] holds.
#[verifier::ext_equal]
pub struct FileGlobMatchView {
    pub file_path: Seq<char>,
}

impl DeepView for FileGlobMatch {
    type V = FileGlobMatchView;

    open spec fn deep_view(&self) -> FileGlobMatchView {
        FileGlobMatchView {
            file_path: self.file_path@,
        }
    }
}

/// The result of editing files.
#[derive(Debug, Clone, PartialEq, Eq)]
pub struct ApplyFileDiffsResult {
    pub result: Option<ApplyFileDiffsOutcome>,
}

/// What [`ApplyFileDiffsResult`] holds.
#[verifier::ext_equal]
pub struct ApplyFileDiffsResultView {
    pub result: Option<ApplyFileDiffsOutcomeView>,
}

impl DeepView for ApplyFileDiffsResult {
    type V = ApplyFileDiffsResultView;

    open spec fn deep_view(&self) -> ApplyFileDiffsResultView {
        ApplyFileDiffsResultView {
            result: self.result.deep_view(),
        }
    }
}

/// The files that were touched, or why not.
#[derive(Debug, Clone, PartialEq, Eq)]
pub enum ApplyFileDiffsOutcome {
    Success(AppliedDiffs),
    Error(ToolError),
}

/// What [`ApplyFileDiffsOutcome`] holds.
#[verifier::ext_equal]
pub enum ApplyFileDiffsOutcomeView {
    Success(AppliedDiffsView),
    Error(ToolErrorView),
}

impl DeepView for ApplyFileDiffsOutcome {
    type V = ApplyFileDiffsOutcomeView;

    open spec fn deep_view(&self) -> ApplyFileDiffsOutcomeView {
        match self {
            ApplyFileDiffsOutcome::Success(x) => ApplyFileDiffsOutcomeView::Success(x.deep_view()),
            ApplyFileDiffsOutcome::Error(x) => ApplyFileDiffsOutcomeView::Error(x.deep_view()),
        }
    }
}

/// The files that were touched.
#[derive(Debug, Clone, PartialEq, Eq)]
pub struct AppliedDiffs {
    pub updated_files_v2: Vec<FileContent>,
    pub deleted_files: Vec<DeleteFile>,
}

/// What [`AppliedDiffs`] holds.
#[verifier::ext_equal]
pub struct AppliedDiffsView {
    pub updated_files_v2: Seq<FileContentView>,
    pub deleted_files: Seq<DeleteFileView>,
}

impl DeepView for AppliedDiffs {
    type V = AppliedDiffsView;

    open spec fn deep_view(&self) -> AppliedDiffsView {
        AppliedDiffsView {
            updated_files_v2: self.updated_files_v2.deep_view(),
            deleted_files: self.deleted_files.deep_view(),
        }
    }
}

// ---- Requests ------------------------------------------------------------

/// A request to the agent.
#[derive(Debug, Clone, PartialEq, Eq)]
pub struct Request {
    pub task_context: Option<TaskContext>,
    pub input: Option<Input>,
    pub metadata: Option<Metadata>,
}

/// What [`Request`] holds.
#[verifier::ext_equal]
pub struct RequestView {
    pub task_context: Option<TaskContextView>,
    pub input: Option<InputView>,
    pub metadata: Option<MetadataView>,
}

impl DeepView for Request {
    type V = RequestView;

    open spec fn deep_view(&self) -> RequestView {
        RequestView {
            task_context: self.task_context.deep_view(),
            input: self.input.deep_view(),
            metadata: self.metadata.deep_view(),
        }
    }
}

/// The tasks that the request belongs to.
#[derive(Debug, Clone, PartialEq, Eq)]
pub struct TaskContext {
    pub tasks: Vec<Task>,
}

/// What [`TaskContext`] holds.
#[verifier::ext_equal]
pub struct TaskContextView {
    pub tasks: Seq<TaskView>,
}

impl DeepView for TaskContext {
    type V = TaskContextView;

    open spec fn deep_view(&self) -> TaskContextView {
        TaskContextView {
            tasks: self.tasks.deep_view(),
        }
    }
}

/// A task and its conversation so far.
#[derive(Debug, Clone, PartialEq, Eq)]
pub struct Task {
    pub id: String,
    pub messages: Vec<Message>,
}

/// What [`Task`] holds.
#[verifier::ext_equal]
pub struct TaskView {
    pub id: Seq<char>,
    pub messages: Seq<MessageView>,
}

impl DeepView for Task {
    type V = TaskView;

    open spec fn deep_view(&self) -> TaskView {
        TaskView {
            id: self.id@,
            messages: self.messages.deep_view(),
        }
    }
}

/// What else the request carries.
#[derive(Debug, Clone, PartialEq, Eq)]
pub struct Metadata {
    pub conversation_id: String,
}

/// What [`Metadata`] holds.
#[verifier::ext_equal]
pub struct MetadataView {
    pub conversation_id: Seq<char>,
}

impl DeepView for Metadata {
    type V = MetadataView;

    open spec fn deep_view(&self) -> MetadataView {
        MetadataView {
            conversation_id: self.conversation_id@,
        }
    }
}

/// The new input.
#[derive(Debug, Clone, PartialEq, Eq)]
pub struct Input {
    pub kind: Option<InputType>,
}

/// What [`Input`] holds.
#[verifier::ext_equal]
pub struct InputView {
    pub kind: Option<InputTypeView>,
}

impl DeepView for Input {
    type V = InputView;

    open spec fn deep_view(&self) -> InputView {
        InputView {
            kind: self.kind.deep_view(),
        }
    }
}

/// The kinds of input.
#[derive(Debug, Clone, PartialEq, Eq)]
pub enum InputType {
    /// A batch.
    UserInputs(UserInputs),
    /// Sent by older clients in place of a batch.
    UserQuery(UserQuery),
    /// Sent by older clients in place of a batch.
    ToolCallResult(ToolCallResult),
    /// Any other kind.
    Other,
}

/// What [`InputType`] holds.
#[verifier::ext_equal]
pub enum InputTypeView {
    UserInputs(UserInputsView),
    UserQuery(UserQueryView),
    ToolCallResult(ToolCallResultView),
    Other,
}

impl DeepView for InputType {
    type V = InputTypeView;

    open spec fn deep_view(&self) -> InputTypeView {
        match self {
            InputType::UserInputs(x) => InputTypeView::UserInputs(x.deep_view()),
            InputType::UserQuery(x) => InputTypeView::UserQuery(x.deep_view()),
            InputType::ToolCallResult(x) => InputTypeView::ToolCallResult(x.deep_view()),
            InputType::Other => InputTypeView::Other,
        }
    }
}

/// A batch of inputs.
#[derive(Debug, Clone, PartialEq, Eq)]
pub struct UserInputs {
    pub inputs: Vec<UserInput>,
}

/// What [`UserInputs`] holds.
#[verifier::ext_equal]
pub struct UserInputsView {
    pub inputs: Seq<UserInputView>,
}

impl DeepView for UserInputs {
    type V = UserInputsView;

    open spec fn deep_view(&self) -> UserInputsView {
        UserInputsView {
            inputs: self.inputs.deep_view(),
        }
    }
}

/// One input of a batch.
#[derive(Debug, Clone, PartialEq, Eq)]
pub struct UserInput {
    pub input: Option<UserInputType>,
}

/// What [`UserInput`] holds.
#[verifier::ext_equal]
pub struct UserInputView {
    pub input: Option<UserInputTypeView>,
}

impl DeepView for UserInput {
    type V = UserInputView;

    open spec fn deep_view(&self) -> UserInputView {
        UserInputView {
            input: self.input.deep_view(),
        }
    }
}

/// The kinds of input in a batch.
#[derive(Debug, Clone, PartialEq, Eq)]
pub enum UserInputType {
    UserQuery(UserQuery),
    ToolCallResult(ToolCallResult),
    /// Any other kind.
    Other,
}

/// What [`UserInputType`] holds.
#[verifier::ext_equal]
pub enum UserInputTypeView {
    UserQuery(UserQueryView),
    ToolCallResult(ToolCallResultView),
    Other,
}

impl DeepView for UserInputType {
    type V = UserInputTypeView;

    open spec fn deep_view(&self) -> UserInputTypeView {
        match self {
            UserInputType::UserQuery(x) => UserInputTypeView::UserQuery(x.deep_view()),
            UserInputType::ToolCallResult(x) => UserInputTypeView::ToolCallResult(x.deep_view()),
            UserInputType::Other => UserInputTypeView::Other,
        }
    }
}

// ---- Messages ------------------------------------------------------------

/// A message of a conversation.
#[derive(Debug, Clone, PartialEq, Eq)]
pub struct Message {
    pub id: String,
    pub task_id: String,
    pub request_id: String,
    pub server_message_data: String,
    pub citations: Vec<String>,
    pub timestamp: Option<Timestamp>,
    pub message: Option<MessageType>,
}

/// What [`Message`] holds.
#[verifier::ext_equal]
pub struct MessageView {
    pub id: Seq<char>,
    pub task_id: Seq<char>,
    pub request_id: Seq<char>,
    pub server_message_data: Seq<char>,
    pub citations: Seq<Seq<char>>,
    pub timestamp: Option<Timestamp>,
    pub message: Option<MessageTypeView>,
}

impl DeepView for Message {
    type V = MessageView;

    open spec fn deep_view(&self) -> MessageView {
        MessageView {
            id: self.id@,
            task_id: self.task_id@,
            request_id: self.request_id@,
            server_message_data: self.server_message_data@,
            citations: self.citations.deep_view(),
            timestamp: self.timestamp,
            message: self.message.deep_view(),
        }
    }
}

/// The kinds of message.
#[derive(Debug, Clone, PartialEq, Eq)]
pub enum MessageType {
    UserQuery(UserQuery),
    AgentOutput(AgentOutput),
    ToolCall(ToolCall),
    ToolCallResult(ToolCallResult),
    /// Any other kind: server events, reasoning, summaries.
    Other,
}

/// What [`MessageType`] holds.
#[verifier::ext_equal]
pub enum MessageTypeView {
    UserQuery(UserQueryView),
    AgentOutput(AgentOutputView),
    ToolCall(ToolCallView),
    ToolCallResult(ToolCallResultView),
    Other,
}

impl DeepView for MessageType {
    type V = MessageTypeView;

    open spec fn deep_view(&self) -> MessageTypeView {
        match self {
            MessageType::UserQuery(x) => MessageTypeView::UserQuery(x.deep_view()),
            MessageType::AgentOutput(x) => MessageTypeView::AgentOutput(x.deep_view()),
            MessageType::ToolCall(x) => MessageTypeView::ToolCall(x.deep_view()),
            MessageType::ToolCallResult(x) => MessageTypeView::ToolCallResult(x.deep_view()),
            MessageType::Other => MessageTypeView::Other,
        }
    }
}

/// What the user asked.
#[derive(Debug, Clone, PartialEq, Eq)]
pub struct UserQuery {
    pub query: String,
}

/// What [`UserQuery`] holds.
#[verifier::ext_equal]
pub struct UserQueryView {
    pub query: Seq<char>,
}

impl DeepView for UserQuery {
    type V = UserQueryView;

    open spec fn deep_view(&self) -> UserQueryView {
        UserQueryView {
            query: self.query@,
        }
    }
}

/// What the agent said.
#[derive(Debug, Clone, PartialEq, Eq)]
pub struct AgentOutput {
    pub text: String,
}

/// What [`AgentOutput`] holds.
#[verifier::ext_equal]
pub struct AgentOutputView {
    pub text: Seq<char>,
}

impl DeepView for AgentOutput {
    type V = AgentOutputView;

    open spec fn deep_view(&self) -> AgentOutputView {
        AgentOutputView {
            text: self.text@,
        }
    }
}

/// A call of a tool that the agent made.
#[derive(Debug, Clone, PartialEq, Eq)]
pub struct ToolCall {
    pub tool_call_id: String,
    pub tool: Option<Tool>,
}

/// What [`ToolCall`] holds.
#[verifier::ext_equal]
pub struct ToolCallView {
    pub tool_call_id: Seq<char>,
    pub tool: Option<ToolView>,
}

impl DeepView for ToolCall {
    type V = ToolCallView;

    open spec fn deep_view(&self) -> ToolCallView {
        ToolCallView {
            tool_call_id: self.tool_call_id@,
            tool: self.tool.deep_view(),
        }
    }
}

// ---- Events --------------------------------------------------------------

/// An event of a reply.
#[derive(Debug, Clone, PartialEq, Eq)]
pub struct ResponseEvent {
    pub kind: Option<EventType>,
}

/// What [`ResponseEvent`] holds.
#[verifier::ext_equal]
pub struct ResponseEventView {
    pub kind: Option<EventTypeView>,
}

impl DeepView for ResponseEvent {
    type V = ResponseEventView;

    open spec fn deep_view(&self) -> ResponseEventView {
        ResponseEventView {
            kind: self.kind.deep_view(),
        }
    }
}

/// The kinds of event.
#[derive(Debug, Clone, PartialEq, Eq)]
pub enum EventType {
    Init(StreamInit),
    ClientActions(ClientActions),
    Finished(StreamFinished),
}

/// What [`EventType`] holds.
#[verifier::ext_equal]
pub enum EventTypeView {
    Init(StreamInitView),
    ClientActions(ClientActionsView),
    Finished(StreamFinishedView),
}

impl DeepView for EventType {
    type V = EventTypeView;

    open spec fn deep_view(&self) -> EventTypeView {
        match self {
            EventType::Init(x) => EventTypeView::Init(x.deep_view()),
            EventType::ClientActions(x) => EventTypeView::ClientActions(x.deep_view()),
            EventType::Finished(x) => EventTypeView::Finished(x.deep_view()),
        }
    }
}

/// The start of a reply.
#[derive(Debug, Clone, PartialEq, Eq)]
pub struct StreamInit {
    pub request_id: String,
    pub conversation_id: String,
    pub run_id: String,
}

/// What [`StreamInit`] holds.
#[verifier::ext_equal]
pub struct StreamInitView {
    pub request_id: Seq<char>,
    pub conversation_id: Seq<char>,
    pub run_id: Seq<char>,
}

impl DeepView for StreamInit {
    type V = StreamInitView;

    open spec fn deep_view(&self) -> StreamInitView {
        StreamInitView {
            request_id: self.request_id@,
            conversation_id: self.conversation_id@,
            run_id: self.run_id@,
        }
    }
}

/// Changes to the conversation.
#[derive(Debug, Clone, PartialEq, Eq)]
pub struct ClientActions {
    pub actions: Vec<ClientAction>,
}

/// What [`ClientActions`] holds.
#[verifier::ext_equal]
pub struct ClientActionsView {
    pub actions: Seq<ClientActionView>,
}

impl DeepView for ClientActions {
    type V = ClientActionsView;

    open spec fn deep_view(&self) -> ClientActionsView {
        ClientActionsView {
            actions: self.actions.deep_view(),
        }
    }
}

/// A change to the conversation.
#[derive(Debug, Clone, PartialEq, Eq)]
pub struct ClientAction {
    pub action: Option<Action>,
}

/// What [`ClientAction`] holds.
#[verifier::ext_equal]
pub struct ClientActionView {
    pub action: Option<ActionView>,
}

impl DeepView for ClientAction {
    type V = ClientActionView;

    open spec fn deep_view(&self) -> ClientActionView {
        ClientActionView {
            action: self.action.deep_view(),
        }
    }
}

/// The kinds of change.
#[derive(Debug, Clone, PartialEq, Eq)]
pub enum Action {
    AddMessagesToTask(AddMessagesToTask),
    AppendToMessageContent(AppendToMessageContent),
}

/// What [`Action`] holds.
#[verifier::ext_equal]
pub enum ActionView {
    AddMessagesToTask(AddMessagesToTaskView),
    AppendToMessageContent(AppendToMessageContentView),
}

impl DeepView for Action {
    type V = ActionView;

    open spec fn deep_view(&self) -> ActionView {
        match self {
            Action::AddMessagesToTask(x) => ActionView::AddMessagesToTask(x.deep_view()),
            Action::AppendToMessageContent(x) => ActionView::AppendToMessageContent(x.deep_view()),
        }
    }
}

/// New messages of a task.
#[derive(Debug, Clone, PartialEq, Eq)]
pub struct AddMessagesToTask {
    pub task_id: String,
    pub messages: Vec<Message>,
}

/// What [`AddMessagesToTask`] holds.
#[verifier::ext_equal]
pub struct AddMessagesToTaskView {
    pub task_id: Seq<char>,
    pub messages: Seq<MessageView>,
}

impl DeepView for AddMessagesToTask {
    type V = AddMessagesToTaskView;

    open spec fn deep_view(&self) -> AddMessagesToTaskView {
        AddMessagesToTaskView {
            task_id: self.task_id@,
            messages: self.messages.deep_view(),
        }
    }
}

/// More content for a message: the masked fields of `message` are appended to
/// those of the message with the same id.
#[derive(Debug, Clone, PartialEq, Eq)]
pub struct AppendToMessageContent {
    pub task_id: String,
    pub message: Option<Message>,
    pub mask: Option<FieldMask>,
}

/// What [`AppendToMessageContent`] holds.
#[verifier::ext_equal]
pub struct AppendToMessageContentView {
    pub task_id: Seq<char>,
    pub message: Option<MessageView>,
    pub mask: Option<FieldMaskView>,
}

impl DeepView for AppendToMessageContent {
    type V = AppendToMessageContentView;

    open spec fn deep_view(&self) -> AppendToMessageContentView {
        AppendToMessageContentView {
            task_id: self.task_id@,
            message: self.message.deep_view(),
            mask: self.mask.deep_view(),
        }
    }
}

/// The fields that a change is about.
#[derive(Debug, Clone, PartialEq, Eq)]
pub struct FieldMask {
    pub paths: Vec<String>,
}

/// What [`FieldMask`] holds.
#[verifier::ext_equal]
pub struct FieldMaskView {
    pub paths: Seq<Seq<char>>,
}

impl DeepView for FieldMask {
    type V = FieldMaskView;

    open spec fn deep_view(&self) -> FieldMaskView {
        FieldMaskView {
            paths: self.paths.deep_view(),
        }
    }
}

/// The end of a reply. A local reply carries no account of usage or cost.
#[derive(Debug, Clone, PartialEq, Eq)]
pub struct StreamFinished {
    pub reason: Option<FinishReason>,
    pub should_refresh_model_config: bool,
}

/// What [`StreamFinished`] holds.
#[verifier::ext_equal]
pub struct StreamFinishedView {
    pub reason: Option<FinishReasonView>,
    pub should_refresh_model_config: bool,
}

impl DeepView for StreamFinished {
    type V = StreamFinishedView;

    open spec fn deep_view(&self) -> StreamFinishedView {
        StreamFinishedView {
            reason: self.reason.deep_view(),
            should_refresh_model_config: self.should_refresh_model_config,
        }
    }
}

/// Why a reply ended.
#[derive(Debug, Clone, PartialEq, Eq)]
pub enum FinishReason {
    Done,
    MaxTokenLimit,
    InternalError(InternalError),
}

/// What [`FinishReason`] holds.
#[verifier::ext_equal]
pub enum FinishReasonView {
    Done,
    MaxTokenLimit,
    InternalError(InternalErrorView),
}

impl DeepView for FinishReason {
    type V = FinishReasonView;

    open spec fn deep_view(&self) -> FinishReasonView {
        match self {
            FinishReason::Done => FinishReasonView::Done,
            FinishReason::MaxTokenLimit => FinishReasonView::MaxTokenLimit,
            FinishReason::InternalError(x) => FinishReasonView::InternalError(x.deep_view()),
        }
    }
}

/// The reply failed.
#[derive(Debug, Clone, PartialEq, Eq)]
pub struct InternalError {
    pub message: String,
}

/// What [`InternalError`] holds.
#[verifier::ext_equal]
pub struct InternalErrorView {
    pub message: Seq<char>,
}

impl DeepView for InternalError {
    type V = InternalErrorView;

    open spec fn deep_view(&self) -> InternalErrorView {
        InternalErrorView {
            message: self.message@,
        }
    }
}

// ---- Defaults ------------------------------------------------------------

impl Default for Request {
    fn default() -> (r: Self)
        ensures
            r.task_context is None,
            r.input is None,
            r.metadata is None,
    {
        Request { task_context: None, input: None, metadata: None }
    }
}

impl Default for Task {
    fn default() -> (r: Self)
        ensures
            r.id@.len() == 0,
            r.messages@.len() == 0,
    {
        Task { id: String::new(), messages: Vec::new() }
    }
}

impl Default for RunShellCommandResult {
    fn default() -> (r: Self)
        ensures
            r.command@.len() == 0,
            r.output@.len() == 0,
            r.exit_code == 0,
            r.result is None,
    {
        RunShellCommandResult {
            command: String::new(),
            output: String::new(),
            exit_code: 0,
            result: None,
        }
    }
}

// ---- Laws ----------------------------------------------------------------

/// The views of tools leave nothing out and change nothing: each part is
/// that of the value itself.
pub proof fn law_views_of_tools(
    tool: Tool,
    run_shell_command: RunShellCommand,
    read_files: ReadFiles,
    read_file: ReadFile,
    line_range: LineRange,
    grep: Grep,
    file_glob_v2: FileGlobV2,
    apply_file_diffs: ApplyFileDiffs,
    file_diff: FileDiff,
    new_file: NewFile,
    delete_file: DeleteFile,
)
    ensures
        tool matches Tool::RunShellCommand(x)
            ==> tool.deep_view() == ToolView::RunShellCommand(x.deep_view()),
        tool matches Tool::ReadFiles(x) ==> tool.deep_view() == ToolView::ReadFiles(x.deep_view()),
        tool matches Tool::Grep(x) ==> tool.deep_view() == ToolView::Grep(x.deep_view()),
        tool matches Tool::FileGlobV2(x)
            ==> tool.deep_view() == ToolView::FileGlobV2(x.deep_view()),
        tool matches Tool::ApplyFileDiffs(x)
            ==> tool.deep_view() == ToolView::ApplyFileDiffs(x.deep_view()),
        tool is Other ==> tool.deep_view() == ToolView::Other,
        run_shell_command.deep_view().command == run_shell_command.command@,
        read_files.deep_view().files == read_files.files.deep_view(),
        read_file.deep_view().name == read_file.name@,
        read_file.deep_view().line_ranges == read_file.line_ranges.deep_view(),
        line_range.deep_view().start == line_range.start,
        line_range.deep_view().end == line_range.end,
        grep.deep_view().queries == grep.queries.deep_view(),
        grep.deep_view().path == grep.path@,
        file_glob_v2.deep_view().patterns == file_glob_v2.patterns.deep_view(),
        file_glob_v2.deep_view().search_dir == file_glob_v2.search_dir@,
        apply_file_diffs.deep_view().summary == apply_file_diffs.summary@,
        apply_file_diffs.deep_view().diffs == apply_file_diffs.diffs.deep_view(),
        apply_file_diffs.deep_view().new_files == apply_file_diffs.new_files.deep_view(),
        apply_file_diffs.deep_view().deleted_files == apply_file_diffs.deleted_files.deep_view(),
        apply_file_diffs.deep_view().v4a_updates == apply_file_diffs.v4a_updates.deep_view(),
        file_diff.deep_view().file_path == file_diff.file_path@,
        file_diff.deep_view().search == file_diff.search@,
        file_diff.deep_view().replace == file_diff.replace@,
        new_file.deep_view().file_path == new_file.file_path@,
        new_file.deep_view().content == new_file.content@,
        delete_file.deep_view().file_path == delete_file.file_path@,
{
}

/// The views of the results of tools leave nothing out and change nothing: each part is
/// that of the value itself.
pub proof fn law_views_of_results(
    tool_call_result: ToolCallResult,
    tool_result: ToolResult,
    run_shell_command_result: RunShellCommandResult,
    shell_outcome: ShellOutcome,
    shell_command_finished: ShellCommandFinished,
    tool_error: ToolError,
    read_files_result: ReadFilesResult,
    read_files_outcome: ReadFilesOutcome,
    text_files: TextFiles,
    file_content: FileContent,
    any_files: AnyFiles,
    grep_result: GrepResult,
    grep_outcome: GrepOutcome,
    grep_matches: GrepMatches,
    grep_file_match: GrepFileMatch,
    grep_line_match: GrepLineMatch,
    file_glob_v2_result: FileGlobV2Result,
    file_glob_outcome: FileGlobOutcome,
    file_glob_matches: FileGlobMatches,
    file_glob_match: FileGlobMatch,
    apply_file_diffs_result: ApplyFileDiffsResult,
    apply_file_diffs_outcome: ApplyFileDiffsOutcome,
    applied_diffs: AppliedDiffs,
)
    ensures
        tool_call_result.deep_view().tool_call_id == tool_call_result.tool_call_id@,
        tool_call_result.deep_view().result == tool_call_result.result.deep_view(),
        tool_result matches ToolResult::RunShellCommand(x)
            ==> tool_result.deep_view() == ToolResultView::RunShellCommand(x.deep_view()),
        tool_result matches ToolResult::ReadFiles(x)
            ==> tool_result.deep_view() == ToolResultView::ReadFiles(x.deep_view()),
        tool_result matches ToolResult::Grep(x)
            ==> tool_result.deep_view() == ToolResultView::Grep(x.deep_view()),
        tool_result matches ToolResult::FileGlobV2(x)
            ==> tool_result.deep_view() == ToolResultView::FileGlobV2(x.deep_view()),
        tool_result matches ToolResult::ApplyFileDiffs(x)
            ==> tool_result.deep_view() == ToolResultView::ApplyFileDiffs(x.deep_view()),
        tool_result is Other ==> tool_result.deep_view() == ToolResultView::Other,
        run_shell_command_result.deep_view().command == run_shell_command_result.command@,
        run_shell_command_result.deep_view().output == run_shell_command_result.output@,
        run_shell_command_result.deep_view().exit_code == run_shell_command_result.exit_code,
        run_shell_command_result.deep_view().result == run_shell_command_result.result.deep_view(),
        shell_outcome matches ShellOutcome::CommandFinished(x)
            ==> shell_outcome.deep_view() == ShellOutcomeView::CommandFinished(x.deep_view()),
        shell_outcome is LongRunningCommandSnapshot
            ==> shell_outcome.deep_view() == ShellOutcomeView::LongRunningCommandSnapshot,
        shell_outcome is PermissionDenied
            ==> shell_outcome.deep_view() == ShellOutcomeView::PermissionDenied,
        shell_command_finished.deep_view().exit_code == shell_command_finished.exit_code,
        shell_command_finished.deep_view().output == shell_command_finished.output@,
        tool_error.deep_view().message == tool_error.message@,
        read_files_result.deep_view().result == read_files_result.result.deep_view(),
        read_files_outcome matches ReadFilesOutcome::TextFilesSuccess(x)
            ==> read_files_outcome.deep_view()
            == ReadFilesOutcomeView::TextFilesSuccess(x.deep_view()),
        read_files_outcome matches ReadFilesOutcome::AnyFilesSuccess(x)
            ==> read_files_outcome.deep_view()
            == ReadFilesOutcomeView::AnyFilesSuccess(x.deep_view()),
        read_files_outcome matches ReadFilesOutcome::Error(x)
            ==> read_files_outcome.deep_view() == ReadFilesOutcomeView::Error(x.deep_view()),
        text_files.deep_view().files == text_files.files.deep_view(),
        file_content.deep_view().file_path == file_content.file_path@,
        file_content.deep_view().content == file_content.content@,
        any_files.deep_view().files == any_files.files.deep_view(),
        grep_result.deep_view().result == grep_result.result.deep_view(),
        grep_outcome matches GrepOutcome::Success(x)
            ==> grep_outcome.deep_view() == GrepOutcomeView::Success(x.deep_view()),
        grep_outcome matches GrepOutcome::Error(x)
            ==> grep_outcome.deep_view() == GrepOutcomeView::Error(x.deep_view()),
        grep_matches.deep_view().matched_files == grep_matches.matched_files.deep_view(),
        grep_file_match.deep_view().file_path == grep_file_match.file_path@,
        grep_file_match.deep_view().matched_lines == grep_file_match.matched_lines.deep_view(),
        grep_line_match.deep_view().line_number == grep_line_match.line_number,
        file_glob_v2_result.deep_view().result == file_glob_v2_result.result.deep_view(),
        file_glob_outcome matches FileGlobOutcome::Success(x)
            ==> file_glob_outcome.deep_view() == FileGlobOutcomeView::Success(x.deep_view()),
        file_glob_outcome matches FileGlobOutcome::Error(x)
            ==> file_glob_outcome.deep_view() == FileGlobOutcomeView::Error(x.deep_view()),
        file_glob_matches.deep_view().matched_files == file_glob_matches.matched_files.deep_view(),
        file_glob_match.deep_view().file_path == file_glob_match.file_path@,
        apply_file_diffs_result.deep_view().result == apply_file_diffs_result.result.deep_view(),
        apply_file_diffs_outcome matches ApplyFileDiffsOutcome::Success(x)
            ==> apply_file_diffs_outcome.deep_view()
            == ApplyFileDiffsOutcomeView::Success(x.deep_view()),
        apply_file_diffs_outcome matches ApplyFileDiffsOutcome::Error(x)
            ==> apply_file_diffs_outcome.deep_view()
            == ApplyFileDiffsOutcomeView::Error(x.deep_view()),
        applied_diffs.deep_view().updated_files_v2 == applied_diffs.updated_files_v2.deep_view(),
        applied_diffs.deep_view().deleted_files == applied_diffs.deleted_files.deep_view(),
{
}

/// The views of requests leave nothing out and change nothing: each part is
/// that of the value itself.
pub proof fn law_views_of_requests(
    request: Request,
    task_context: TaskContext,
    task: Task,
    metadata: Metadata,
    input: Input,
    input_type: InputType,
    user_inputs: UserInputs,
    user_input: UserInput,
    user_input_type: UserInputType,
)
    ensures
        request.deep_view().task_context == request.task_context.deep_view(),
        request.deep_view().input == request.input.deep_view(),
        request.deep_view().metadata == request.metadata.deep_view(),
        task_context.deep_view().tasks == task_context.tasks.deep_view(),
        task.deep_view().id == task.id@,
        task.deep_view().messages == task.messages.deep_view(),
        metadata.deep_view().conversation_id == metadata.conversation_id@,
        input.deep_view().kind == input.kind.deep_view(),
        input_type matches InputType::UserInputs(x)
            ==> input_type.deep_view() == InputTypeView::UserInputs(x.deep_view()),
        input_type matches InputType::UserQuery(x)
            ==> input_type.deep_view() == InputTypeView::UserQuery(x.deep_view()),
        input_type matches InputType::ToolCallResult(x)
            ==> input_type.deep_view() == InputTypeView::ToolCallResult(x.deep_view()),
        input_type is Other ==> input_type.deep_view() == InputTypeView::Other,
        user_inputs.deep_view().inputs == user_inputs.inputs.deep_view(),
        user_input.deep_view().input == user_input.input.deep_view(),
        user_input_type matches UserInputType::UserQuery(x)
            ==> user_input_type.deep_view() == UserInputTypeView::UserQuery(x.deep_view()),
        user_input_type matches UserInputType::ToolCallResult(x)
            ==> user_input_type.deep_view() == UserInputTypeView::ToolCallResult(x.deep_view()),
        user_input_type is Other ==> user_input_type.deep_view() == UserInputTypeView::Other,
{
}

/// The views of messages leave nothing out and change nothing: each part is
/// that of the value itself.
pub proof fn law_views_of_messages(
    message: Message,
    message_type: MessageType,
    user_query: UserQuery,
    agent_output: AgentOutput,
    tool_call: ToolCall,
)
    ensures
        message.deep_view().id == message.id@,
        message.deep_view().task_id == message.task_id@,
        message.deep_view().request_id == message.request_id@,
        message.deep_view().server_message_data == message.server_message_data@,
        message.deep_view().citations == message.citations.deep_view(),
        message.deep_view().timestamp == message.timestamp,
        message.deep_view().message == message.message.deep_view(),
        message_type matches MessageType::UserQuery(x)
            ==> message_type.deep_view() == MessageTypeView::UserQuery(x.deep_view()),
        message_type matches MessageType::AgentOutput(x)
            ==> message_type.deep_view() == MessageTypeView::AgentOutput(x.deep_view()),
        message_type matches MessageType::ToolCall(x)
            ==> message_type.deep_view() == MessageTypeView::ToolCall(x.deep_view()),
        message_type matches MessageType::ToolCallResult(x)
            ==> message_type.deep_view() == MessageTypeView::ToolCallResult(x.deep_view()),
        message_type is Other ==> message_type.deep_view() == MessageTypeView::Other,
        user_query.deep_view().query == user_query.query@,
        agent_output.deep_view().text == agent_output.text@,
        tool_call.deep_view().tool_call_id == tool_call.tool_call_id@,
        tool_call.deep_view().tool == tool_call.tool.deep_view(),
{
}

/// The views of events leave nothing out and change nothing: each part is
/// that of the value itself.
pub proof fn law_views_of_events(
    response_event: ResponseEvent,
    event_type: EventType,
    stream_init: StreamInit,
    client_actions: ClientActions,
    client_action: ClientAction,
    action: Action,
    add_messages_to_task: AddMessagesToTask,
    append_to_message_content: AppendToMessageContent,
    field_mask: FieldMask,
    stream_finished: StreamFinished,
    finish_reason: FinishReason,
    internal_error: InternalError,
)
    ensures
        response_event.deep_view().kind == response_event.kind.deep_view(),
        event_type matches EventType::Init(x)
            ==> event_type.deep_view() == EventTypeView::Init(x.deep_view()),
        event_type matches EventType::ClientActions(x)
            ==> event_type.deep_view() == EventTypeView::ClientActions(x.deep_view()),
        event_type matches EventType::Finished(x)
            ==> event_type.deep_view() == EventTypeView::Finished(x.deep_view()),
        stream_init.deep_view().request_id == stream_init.request_id@,
        stream_init.deep_view().conversation_id == stream_init.conversation_id@,
        stream_init.deep_view().run_id == stream_init.run_id@,
        client_actions.deep_view().actions == client_actions.actions.deep_view(),
        client_action.deep_view().action == client_action.action.deep_view(),
        action matches Action::AddMessagesToTask(x)
            ==> action.deep_view() == ActionView::AddMessagesToTask(x.deep_view()),
        action matches Action::AppendToMessageContent(x)
            ==> action.deep_view() == ActionView::AppendToMessageContent(x.deep_view()),
        add_messages_to_task.deep_view().task_id == add_messages_to_task.task_id@,
        add_messages_to_task.deep_view().messages == add_messages_to_task.messages.deep_view(),
        append_to_message_content.deep_view().task_id == append_to_message_content.task_id@,
        append_to_message_content.deep_view().message
            == append_to_message_content.message.deep_view(),
        append_to_message_content.deep_view().mask == append_to_message_content.mask.deep_view(),
        field_mask.deep_view().paths == field_mask.paths.deep_view(),
        stream_finished.deep_view().reason == stream_finished.reason.deep_view(),
        stream_finished.deep_view().should_refresh_model_config
            == stream_finished.should_refresh_model_config,
        finish_reason is Done ==> finish_reason.deep_view() == FinishReasonView::Done,
        finish_reason is MaxTokenLimit
            ==> finish_reason.deep_view() == FinishReasonView::MaxTokenLimit,
        finish_reason matches FinishReason::InternalError(x)
            ==> finish_reason.deep_view() == FinishReasonView::InternalError(x.deep_view()),
        internal_error.deep_view().message == internal_error.message@,
{
}

} // verus!
