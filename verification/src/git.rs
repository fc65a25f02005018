//! Reading a repository through `git`: which commands are run, how their output
//! is parsed, and how a snapshot of the repository is assembled.
//!
//! Running a command is left to a runner closure supplied by the caller; the
//! commands, their arguments and every use of their output are decided here.
use crate::models::{commit_views, CommitInfo, CommitView, RepoCandidate, RepoSnapshot, ScanScope};
use crate::text::{
    lemma_text_le_total, lemma_text_le_trans, text_le, text_le_exec, decimal_spec, nonblank_trimmed, lines_spec, trim_end_char_spec, trim_end_newlines_spec,
    trim_spec, views,
};
use crate::paths::{lemma_path_le_total, lemma_path_le_trans, path_le, sorted_unique_paths};
use crate::timefmt::display_or_fallback_spec;
use vstd::prelude::*;
use vstd::string::*;
use vstd::utf8::*;

verus! {

/// Separates log records in the formats used below (`%x00`).
pub const RECORD_SEPARATOR: u8 = 0;

/// Separates the fields of a log record (`%x1f`).
pub const FIELD_SEPARATOR: u8 = 31;

/// The branch whose history is marked in the commit table.
pub const MAIN_BRANCH_NAME: &'static str = "main";

/// How many commits the commit table lists.
pub const RECENT_COMMIT_LIMIT: usize = 50;

/// `bytes` decoded as UTF-8 with invalid sequences replaced, as
/// `String::from_utf8_lossy` decodes them.
pub uninterp spec fn utf8_lossy(bytes: Seq<u8>) -> Seq<char>;

/// Calls `String::from_utf8_lossy`.  Its documentation says that valid UTF-8 is
/// returned as the string it encodes; the contract names the result and states that.
#[verifier::external_body]
pub(crate) fn decode_utf8_lossy(bytes: &[u8]) -> (res: String)
    ensures
        res@ == utf8_lossy(bytes@),
        valid_utf8(bytes@) ==> res@ == decode_utf8(bytes@),
{
    String::from_utf8_lossy(bytes).into_owned()
}

/// The text `format!("{:?}", list)` writes for a list of strings.
pub uninterp spec fn debug_list_text(list: Seq<Seq<char>>) -> Seq<char>;

/// Calls `format!("{:?}", list)` (the `Debug` rendering of a list of strings).  The
/// contract names the text only.
#[verifier::external_body]
pub(crate) fn debug_list(list: &Vec<String>) -> (res: String)
    ensures
        res@ == debug_list_text(views(list@)),
{
    format!("{:?}", list)
}

/// Scans `s` left to right: the pieces finished by `sep` so far and the pending piece.
pub open spec fn split_scan(s: Seq<u8>, sep: u8) -> (Seq<Seq<u8>>, Seq<u8>)
    decreases s.len(),
{
    if s.len() == 0 {
        (Seq::empty(), Seq::empty())
    } else {
        let prev = split_scan(s.drop_last(), sep);
        if s.last() == sep {
            (prev.0.push(prev.1), Seq::empty())
        } else {
            (prev.0, prev.1.push(s.last()))
        }
    }
}

/// The pieces of `s` between occurrences of `sep` (`<[u8]>::split`): one more piece
/// than there are separators.
pub open spec fn split_bytes(s: Seq<u8>, sep: u8) -> Seq<Seq<u8>> {
    let scan = split_scan(s, sep);
    scan.0.push(scan.1)
}

/// The views of a list of byte vectors.
pub open spec fn byte_views(v: Seq<Vec<u8>>) -> Seq<Seq<u8>> {
    v.map_values(|b: Vec<u8>| b@)
}

/// `<[u8]>::split` on one separator byte.
pub fn split_on(bytes: &[u8], sep: u8) -> (res: Vec<Vec<u8>>)
    ensures
        byte_views(res@) == split_bytes(bytes@, sep),
{
    let n = bytes.len();
    let mut done: Vec<Vec<u8>> = Vec::new();
    let mut cur: Vec<u8> = Vec::new();
    let mut i: usize = 0;
    while i < n
        invariant
            i <= n == bytes@.len(),
            byte_views(done@) == split_scan(bytes@.take(i as int), sep).0,
            cur@ == split_scan(bytes@.take(i as int), sep).1,
        decreases n - i,
    {
        let b = bytes[i];
        assert(bytes@.take(i + 1).drop_last() == bytes@.take(i as int));
        if b == sep {
            let finished = cur;
            done.push(finished);
            cur = Vec::new();
            assert(byte_views(done@) == byte_views(done@).drop_last().push(finished@));
        } else {
            cur.push(b);
        }
        i = i + 1;
    }
    assert(bytes@.take(n as int) == bytes@);
    let last = cur;
    done.push(last);
    assert(byte_views(done@) == byte_views(done@).drop_last().push(last@));
    done
}

/// The views of parsed records.
pub open spec fn record_views(v: Seq<Vec<String>>) -> Seq<Seq<Seq<char>>> {
    v.map_values(|r: Vec<String>| views(r@))
}

/// Each field decoded leniently.
pub open spec fn decode_fields(fields: Seq<Seq<u8>>) -> Seq<Seq<char>> {
    fields.map_values(|f: Seq<u8>| utf8_lossy(f))
}

/// The message for a record with the wrong number of fields.
pub open spec fn field_count_message(expected: nat, actual: nat, raw: Seq<char>) -> Seq<char> {
    "unexpected git log field count: expected="@ + decimal_spec(expected) + " actual="@
        + decimal_spec(actual) + " raw='"@ + raw + "'"@
}

/// The records in `chunks`: empty chunks are skipped, every other chunk must split
/// into `expected` fields; the first chunk that does not is reported.
pub open spec fn records_from_chunks(chunks: Seq<Seq<u8>>, expected: nat) -> Result<
    Seq<Seq<Seq<char>>>,
    Seq<char>,
>
    decreases chunks.len(),
{
    if chunks.len() == 0 {
        Ok(Seq::empty())
    } else {
        match records_from_chunks(chunks.drop_last(), expected) {
            Err(e) => Err(e),
            Ok(done) => {
                let chunk = chunks.last();
                let fields = split_bytes(chunk, FIELD_SEPARATOR);
                if chunk.len() == 0 {
                    Ok(done)
                } else if fields.len() != expected {
                    Err(field_count_message(expected, fields.len(), utf8_lossy(chunk)))
                } else {
                    Ok(done.push(decode_fields(fields)))
                }
            },
        }
    }
}

/// The records of a `git log` output whose records end in `%x00` and whose fields are
/// separated by `%x1f`.
pub open spec fn parse_records_spec(output: Seq<u8>, expected: nat) -> Result<
    Seq<Seq<Seq<char>>>,
    Seq<char>,
> {
    records_from_chunks(split_bytes(output, RECORD_SEPARATOR), expected)
}

/// The view of a result whose success is a list of records.
pub open spec fn records_result_view(r: Result<Vec<Vec<String>>, String>) -> Result<
    Seq<Seq<Seq<char>>>,
    Seq<char>,
> {
    match r {
        Ok(v) => Ok(record_views(v@)),
        Err(e) => Err(e@),
    }
}

/// Splits a `git log` output into records of `expected_fields` fields each.
pub fn parse_records(output: &[u8], expected_fields: usize) -> (res: Result<Vec<Vec<String>>, String>)
    ensures
        records_result_view(res) == parse_records_spec(output@, expected_fields as nat),
{
    let chunks = split_on(output, RECORD_SEPARATOR);
    let mut records: Vec<Vec<String>> = Vec::new();
    let mut i: usize = 0;
    assert(byte_views(chunks@).take(0).len() == 0);
    assert(record_views(records@) == Seq::<Seq<Seq<char>>>::empty());
    while i < chunks.len()
        invariant
            i <= chunks@.len(),
            byte_views(chunks@) == split_bytes(output@, RECORD_SEPARATOR),
            records_from_chunks(byte_views(chunks@).take(i as int), expected_fields as nat) == Ok::<
                Seq<Seq<Seq<char>>>,
                Seq<char>,
            >(record_views(records@)),
        decreases chunks@.len() - i,
    {
        assert(byte_views(chunks@).take(i + 1).drop_last() == byte_views(chunks@).take(i as int));
        assert(byte_views(chunks@).take(i + 1).last() == chunks@[i as int]@);
        let chunk = &chunks[i];
        if chunk.len() > 0 {
            let parts = split_on(chunk.as_slice(), FIELD_SEPARATOR);
            if parts.len() != expected_fields {
                let mut m = crate::text::owned("unexpected git log field count: expected=");
                let expected_text = crate::text::decimal(expected_fields as u64);
                m.append(expected_text.as_str());
                m.append(" actual=");
                let actual_text = crate::text::decimal(parts.len() as u64);
                m.append(actual_text.as_str());
                m.append(" raw='");
                let raw = decode_utf8_lossy(chunk.as_slice());
                m.append(raw.as_str());
                m.append("'");
                proof {
                    lemma_records_error_persists(byte_views(chunks@), i as int, expected_fields as nat);
                }
                return Err(m);
            }
            let mut fields: Vec<String> = Vec::new();
            let mut k: usize = 0;
            while k < parts.len()
                invariant
                    k <= parts@.len(),
                    byte_views(parts@) == split_bytes(chunk@, FIELD_SEPARATOR),
                    views(fields@) == decode_fields(byte_views(parts@)).take(k as int),
                decreases parts@.len() - k,
            {
                let field = decode_utf8_lossy(parts[k].as_slice());
                fields.push(field);
                assert(views(fields@) == views(fields@).drop_last().push(field@));
                assert(decode_fields(byte_views(parts@)).take(k + 1) == decode_fields(
                    byte_views(parts@),
                ).take(k as int).push(utf8_lossy(parts@[k as int]@)));
                k = k + 1;
            }
            assert(decode_fields(byte_views(parts@)).take(parts@.len() as int) == decode_fields(
                byte_views(parts@),
            ));
            let ghost before = record_views(records@);
            records.push(fields);
            assert(record_views(records@) == before.push(views(fields@)));
        }
        i = i + 1;
    }
    assert(byte_views(chunks@).take(chunks@.len() as int) == byte_views(chunks@));
    Ok(records)
}

proof fn lemma_records_error_persists(chunks: Seq<Seq<u8>>, i: int, expected: nat)
    requires
        0 <= i < chunks.len(),
        records_from_chunks(chunks.take(i + 1), expected) is Err,
    ensures
        records_from_chunks(chunks, expected) == records_from_chunks(chunks.take(i + 1), expected),
    decreases chunks.len() - i,
{
    if i + 1 < chunks.len() {
        assert(chunks.take(i + 2).drop_last() == chunks.take(i + 1));
        lemma_records_error_persists(chunks, i + 1, expected);
    } else {
        assert(chunks.take(i + 1) == chunks);
    }
}

/// A full commit message without its trailing newlines.
pub fn trim_git_full_message_tail(full_message: String) -> (res: String)
    ensures
        res@ == trim_end_char_spec(full_message@, '\n'),
{
    crate::text::trim_end_char(full_message.as_str(), '\n')
}


/// The `git` commands the library runs.
#[derive(Debug)]
pub enum GitCommand {
    /// `git rev-parse --abbrev-ref HEAD`
    CurrentBranch,
    /// `git log -1` with hash, subject, commit time and full message
    HeadInfo,
    /// `git status --porcelain`
    StatusPorcelain,
    /// `git log --all -n <max_count>` with hash, short hash, commit time, subject and full message
    RecentLog { max_count: usize },
    /// `git log -1 --pretty=format:%ct`
    LastCommitTimestamp,
    /// `git rev-parse --verify refs/heads/main`
    MainBranchHead,
    /// `git show-ref --verify --quiet refs/heads/main`
    MainBranchExists,
    /// `git rev-list main`
    MainHistory,
    /// `git show -s --format=%B <commit_id>`
    CommitMessage { commit_id: String },
}

impl Clone for GitCommand {
    fn clone(&self) -> (res: Self)
        ensures
            res == *self,
    {
        match self {
            GitCommand::CurrentBranch => GitCommand::CurrentBranch,
            GitCommand::HeadInfo => GitCommand::HeadInfo,
            GitCommand::StatusPorcelain => GitCommand::StatusPorcelain,
            GitCommand::RecentLog { max_count } => GitCommand::RecentLog { max_count: *max_count },
            GitCommand::LastCommitTimestamp => GitCommand::LastCommitTimestamp,
            GitCommand::MainBranchHead => GitCommand::MainBranchHead,
            GitCommand::MainBranchExists => GitCommand::MainBranchExists,
            GitCommand::MainHistory => GitCommand::MainHistory,
            GitCommand::CommitMessage { commit_id } => GitCommand::CommitMessage {
                commit_id: commit_id.clone(),
            },
        }
    }
}

/// The arguments passed to `git` for each command.
pub open spec fn git_args_spec(cmd: GitCommand) -> Seq<Seq<char>> {
    match cmd {
        GitCommand::CurrentBranch => seq!["rev-parse"@, "--abbrev-ref"@, "HEAD"@],
        GitCommand::HeadInfo => seq!["log"@, "-1"@, "--pretty=format:%H%x1f%s%x1f%ct%x1f%B%x00"@],
        GitCommand::StatusPorcelain => seq!["status"@, "--porcelain"@],
        GitCommand::RecentLog { max_count } => seq![
            "log"@,
            "--all"@,
            "-n"@,
            decimal_spec(max_count as nat),
            "--pretty=format:%H%x1f%h%x1f%ct%x1f%s%x1f%B%x00"@,
        ],
        GitCommand::LastCommitTimestamp => seq!["log"@, "-1"@, "--pretty=format:%ct"@],
        GitCommand::MainBranchHead => seq!["rev-parse"@, "--verify"@, "refs/heads/main"@],
        GitCommand::MainBranchExists => seq![
            "show-ref"@,
            "--verify"@,
            "--quiet"@,
            "refs/heads/main"@,
        ],
        GitCommand::MainHistory => seq!["rev-list"@, "main"@],
        GitCommand::CommitMessage { commit_id } => seq!["show"@, "-s"@, "--format=%B"@, commit_id@],
    }
}

fn push_arg(args: &mut Vec<String>, arg: &str)
    ensures
        views(final(args)@) == views(old(args)@).push(arg@),
{
    args.push(crate::text::owned(arg));
    assert(views(final(args)@) == views(old(args)@).push(arg@));
}

/// The arguments passed to `git` for `cmd`.
pub fn git_args(cmd: &GitCommand) -> (res: Vec<String>)
    ensures
        views(res@) == git_args_spec(*cmd),
{
    let mut args: Vec<String> = Vec::new();
    assert(views(args@) == Seq::<Seq<char>>::empty());
    match cmd {
        GitCommand::CurrentBranch => {
            push_arg(&mut args, "rev-parse");
            push_arg(&mut args, "--abbrev-ref");
            push_arg(&mut args, "HEAD");
        },
        GitCommand::HeadInfo => {
            push_arg(&mut args, "log");
            push_arg(&mut args, "-1");
            push_arg(&mut args, "--pretty=format:%H%x1f%s%x1f%ct%x1f%B%x00");
        },
        GitCommand::StatusPorcelain => {
            push_arg(&mut args, "status");
            push_arg(&mut args, "--porcelain");
        },
        GitCommand::RecentLog { max_count } => {
            push_arg(&mut args, "log");
            push_arg(&mut args, "--all");
            push_arg(&mut args, "-n");
            let count = crate::text::decimal(*max_count as u64);
            push_arg(&mut args, count.as_str());
            push_arg(&mut args, "--pretty=format:%H%x1f%h%x1f%ct%x1f%s%x1f%B%x00");
        },
        GitCommand::LastCommitTimestamp => {
            push_arg(&mut args, "log");
            push_arg(&mut args, "-1");
            push_arg(&mut args, "--pretty=format:%ct");
        },
        GitCommand::MainBranchHead => {
            push_arg(&mut args, "rev-parse");
            push_arg(&mut args, "--verify");
            push_arg(&mut args, "refs/heads/main");
        },
        GitCommand::MainBranchExists => {
            push_arg(&mut args, "show-ref");
            push_arg(&mut args, "--verify");
            push_arg(&mut args, "--quiet");
            push_arg(&mut args, "refs/heads/main");
        },
        GitCommand::MainHistory => {
            push_arg(&mut args, "rev-list");
            push_arg(&mut args, "main");
        },
        GitCommand::CommitMessage { commit_id } => {
            push_arg(&mut args, "show");
            push_arg(&mut args, "-s");
            push_arg(&mut args, "--format=%B");
            push_arg(&mut args, commit_id.as_str());
        },
    }
    args
}

/// What running `git` gave: the exit code (`None` when ended by a signal), the exit
/// status as `ExitStatus` displays it, and the captured output.
#[derive(Debug)]
pub struct GitOutput {
    pub exit_code: Option<i32>,
    pub status: String,
    pub stdout: Vec<u8>,
    pub stderr: Vec<u8>,
}

/// The view of a byte result.
pub open spec fn bytes_result_view(r: Result<Vec<u8>, String>) -> Result<Seq<u8>, Seq<char>> {
    match r {
        Ok(b) => Ok(b@),
        Err(e) => Err(e@),
    }
}

/// The view of a text result.
pub open spec fn text_result_view(r: Result<String, String>) -> Result<Seq<char>, Seq<char>> {
    match r {
        Ok(t) => Ok(t@),
        Err(e) => Err(e@),
    }
}

/// Standard output of a successful run of `cmd`, or the message for a failed one.
/// `launch` is `Err` with the error's message when `git` could not be started.
pub open spec fn bytes_outcome_spec(cmd: GitCommand, launch: Result<GitOutput, String>) -> Result<
    Seq<u8>,
    Seq<char>,
> {
    let args = debug_list_text(git_args_spec(cmd));
    match launch {
        Err(e) => Err("failed to launch git ("@ + args + "): "@ + e@),
        Ok(o) => if o.exit_code == Some(0i32) {
            Ok(o.stdout@)
        } else {
            Err(
                "git command failed ("@ + args + "): status="@ + o.status@ + " stderr='"@
                    + trim_spec(utf8_lossy(o.stderr@)) + "' stdout='"@ + trim_spec(
                    utf8_lossy(o.stdout@),
                ) + "'"@,
            )
        },
    }
}

/// Standard output of a successful run as text without trailing line breaks.
pub open spec fn text_outcome_spec(cmd: GitCommand, launch: Result<GitOutput, String>) -> Result<
    Seq<char>,
    Seq<char>,
> {
    match bytes_outcome_spec(cmd, launch) {
        Ok(b) => Ok(trim_end_newlines_spec(utf8_lossy(b))),
        Err(e) => Err(e),
    }
}

/// Standard output of a successful run of `cmd`, or the message for a failed one.
pub fn git_bytes_outcome(cmd: &GitCommand, launch: Result<GitOutput, String>) -> (res: Result<
    Vec<u8>,
    String,
>)
    ensures
        bytes_result_view(res) == bytes_outcome_spec(*cmd, launch),
{
    let args = git_args(cmd);
    let args_text = debug_list(&args);
    match launch {
        Err(e) => {
            let mut m = crate::text::owned("failed to launch git (");
            m.append(args_text.as_str());
            m.append("): ");
            m.append(e.as_str());
            Err(m)
        },
        Ok(o) => {
            if o.exit_code == Some(0i32) {
                Ok(o.stdout)
            } else {
                let stderr = decode_utf8_lossy(o.stderr.as_slice());
                let stdout = decode_utf8_lossy(o.stdout.as_slice());
                let stderr_trimmed = crate::text::trim(stderr.as_str());
                let stdout_trimmed = crate::text::trim(stdout.as_str());
                let mut m = crate::text::owned("git command failed (");
                m.append(args_text.as_str());
                m.append("): status=");
                m.append(o.status.as_str());
                m.append(" stderr='");
                m.append(stderr_trimmed.as_str());
                m.append("' stdout='");
                m.append(stdout_trimmed.as_str());
                m.append("'");
                Err(m)
            }
        },
    }
}

/// Standard output of a successful run as text without trailing line breaks.
pub fn git_text_outcome(cmd: &GitCommand, launch: Result<GitOutput, String>) -> (res: Result<
    String,
    String,
>)
    ensures
        text_result_view(res) == text_outcome_spec(*cmd, launch),
{
    let bytes = git_bytes_outcome(cmd, launch)?;
    let text = decode_utf8_lossy(bytes.as_slice());
    Ok(crate::text::trim_end_newlines(text.as_str()))
}

/// Every command can be handed to the runner.
pub open spec fn runner_ready<R: Fn(GitCommand) -> Result<GitOutput, String>>(run: R) -> bool {
    forall|c: GitCommand| call_requires(run, (c,))
}

/// Runs `cmd` through `run`; its standard output, or the message for a failure.
pub fn run_git_bytes<R: Fn(GitCommand) -> Result<GitOutput, String>>(run: &R, cmd: GitCommand) -> (res: Result<
    Vec<u8>,
    String,
>)
    requires
        runner_ready(*run),
    ensures
        exists|launch: Result<GitOutput, String>|
            call_ensures(*run, (cmd,), launch) && bytes_result_view(res) == bytes_outcome_spec(
                cmd,
                launch,
            ),
{
    let kept = cmd.clone();
    let launch = run(cmd);
    git_bytes_outcome(&kept, launch)
}

/// Runs `cmd` through `run`; its standard output as text without trailing line breaks,
/// or the message for a failure.
pub fn run_git<R: Fn(GitCommand) -> Result<GitOutput, String>>(run: &R, cmd: GitCommand) -> (res: Result<
    String,
    String,
>)
    requires
        runner_ready(*run),
    ensures
        exists|launch: Result<GitOutput, String>|
            call_ensures(*run, (cmd,), launch) && text_result_view(res) == text_outcome_spec(
                cmd,
                launch,
            ),
{
    let kept = cmd.clone();
    let launch = run(cmd);
    git_text_outcome(&kept, launch)
}


/// The current branch name from the output of `CurrentBranch`; empty output is refused.
pub open spec fn current_branch_spec(text: Result<Seq<char>, Seq<char>>) -> Result<Seq<char>, Seq<char>> {
    match text {
        Err(e) => Err(e),
        Ok(t) => if t.len() == 0 {
            Err("git branch output is empty"@)
        } else {
            Ok(t)
        },
    }
}

/// The name of the checked-out branch (`HEAD` when detached).
pub fn get_current_branch<R: Fn(GitCommand) -> Result<GitOutput, String>>(run: &R) -> (res: Result<
    String,
    String,
>)
    requires
        runner_ready(*run),
    ensures
        exists|launch: Result<GitOutput, String>|
            call_ensures(*run, (GitCommand::CurrentBranch,), launch) && text_result_view(res)
                == current_branch_spec(text_outcome_spec(GitCommand::CurrentBranch, launch)),
{
    let branch = run_git(run, GitCommand::CurrentBranch)?;
    if branch.as_str().is_empty() {
        return Err(crate::text::owned("git branch output is empty"));
    }
    Ok(branch)
}

/// The tip of `main` from the output of `MainBranchHead`: exit code 1 (no such branch)
/// and empty output mean there is none.
pub open spec fn main_branch_head_spec(launch: Result<GitOutput, String>) -> Result<
    Option<Seq<char>>,
    Seq<char>,
> {
    match launch {
        Err(e) => Err("failed to launch git (rev-parse): "@ + e@),
        Ok(o) => if o.exit_code == Some(0i32) {
            let id = trim_spec(utf8_lossy(o.stdout@));
            if id.len() == 0 {
                Ok(None)
            } else {
                Ok(Some(id))
            }
        } else if o.exit_code == Some(1i32) {
            Ok(None)
        } else {
            Err(
                "git rev-parse failed: status="@ + o.status@ + " stderr='"@ + trim_spec(
                    utf8_lossy(o.stderr@),
                ) + "'"@,
            )
        },
    }
}

/// The view of an optional string.
pub open spec fn opt_text_view(s: Option<String>) -> Option<Seq<char>> {
    match s {
        Some(t) => Some(t@),
        None => None,
    }
}

/// Reads the tip of `main` from the output of `MainBranchHead`.
pub fn main_branch_head_from(launch: Result<GitOutput, String>) -> (res: Result<Option<String>, String>)
    ensures
        match res {
            Ok(v) => main_branch_head_spec(launch) == Ok::<Option<Seq<char>>, Seq<char>>(
                opt_text_view(v),
            ),
            Err(e) => main_branch_head_spec(launch) == Err::<Option<Seq<char>>, Seq<char>>(e@),
        },
{
    match launch {
        Err(e) => {
            let mut m = crate::text::owned("failed to launch git (rev-parse): ");
            m.append(e.as_str());
            Err(m)
        },
        Ok(o) => {
            if o.exit_code == Some(0i32) {
                let out = decode_utf8_lossy(o.stdout.as_slice());
                let id = crate::text::trim(out.as_str());
                if id.as_str().is_empty() {
                    Ok(None)
                } else {
                    Ok(Some(id))
                }
            } else if o.exit_code == Some(1i32) {
                Ok(None)
            } else {
                let stderr = decode_utf8_lossy(o.stderr.as_slice());
                let stderr_trimmed = crate::text::trim(stderr.as_str());
                let mut m = crate::text::owned("git rev-parse failed: status=");
                m.append(o.status.as_str());
                m.append(" stderr='");
                m.append(stderr_trimmed.as_str());
                m.append("'");
                Err(m)
            }
        },
    }
}

/// The commit at the tip of `main`, if that branch exists.
pub fn get_main_branch_head_commit_id<R: Fn(GitCommand) -> Result<GitOutput, String>>(run: &R) -> (res: Result<
    Option<String>,
    String,
>)
    requires
        runner_ready(*run),
    ensures
        exists|launch: Result<GitOutput, String>|
            call_ensures(*run, (GitCommand::MainBranchHead,), launch) && match res {
                Ok(v) => main_branch_head_spec(launch) == Ok::<Option<Seq<char>>, Seq<char>>(
                    opt_text_view(v),
                ),
                Err(e) => main_branch_head_spec(launch) == Err::<Option<Seq<char>>, Seq<char>>(
                    e@,
                ),
            },
{
    let launch = run(GitCommand::MainBranchHead);
    main_branch_head_from(launch)
}

/// Whether `main` exists, from the output of `MainBranchExists`.
pub open spec fn branch_exists_spec(launch: Result<GitOutput, String>) -> Result<bool, Seq<char>> {
    match launch {
        Err(e) => Err("failed to launch git (show-ref): "@ + e@),
        Ok(o) => if o.exit_code == Some(0i32) {
            Ok(true)
        } else if o.exit_code == Some(1i32) {
            Ok(false)
        } else {
            Err(
                "git show-ref failed: status="@ + o.status@ + " stderr='"@ + trim_spec(
                    utf8_lossy(o.stderr@),
                ) + "'"@,
            )
        },
    }
}

/// Reads whether `main` exists from the output of `MainBranchExists`.
pub fn branch_exists_from(launch: Result<GitOutput, String>) -> (res: Result<bool, String>)
    ensures
        match res {
            Ok(b) => branch_exists_spec(launch) == Ok::<bool, Seq<char>>(b),
            Err(e) => branch_exists_spec(launch) == Err::<bool, Seq<char>>(e@),
        },
{
    match launch {
        Err(e) => {
            let mut m = crate::text::owned("failed to launch git (show-ref): ");
            m.append(e.as_str());
            Err(m)
        },
        Ok(o) => {
            if o.exit_code == Some(0i32) {
                Ok(true)
            } else if o.exit_code == Some(1i32) {
                Ok(false)
            } else {
                let stderr = decode_utf8_lossy(o.stderr.as_slice());
                let stderr_trimmed = crate::text::trim(stderr.as_str());
                let mut m = crate::text::owned("git show-ref failed: status=");
                m.append(o.status.as_str());
                m.append(" stderr='");
                m.append(stderr_trimmed.as_str());
                m.append("'");
                Err(m)
            }
        },
    }
}

/// Whether the local branch `main` exists.
pub fn local_branch_exists<R: Fn(GitCommand) -> Result<GitOutput, String>>(run: &R) -> (res: Result<
    bool,
    String,
>)
    requires
        runner_ready(*run),
    ensures
        exists|launch: Result<GitOutput, String>|
            call_ensures(*run, (GitCommand::MainBranchExists,), launch) && match res {
                Ok(b) => branch_exists_spec(launch) == Ok::<bool, Seq<char>>(b),
                Err(e) => branch_exists_spec(launch) == Err::<bool, Seq<char>>(e@),
            },
{
    let launch = run(GitCommand::MainBranchExists);
    branch_exists_from(launch)
}

/// The view of an optional list of strings.
pub open spec fn opt_list_view(v: Option<Vec<String>>) -> Option<Seq<Seq<char>>> {
    match v {
        Some(list) => Some(views(list@)),
        None => None,
    }
}

/// The commits reachable from `main` as `MainBranchExists` and `MainHistory` report
/// them: the non-blank `rev-list` lines, trimmed, or `None` when `main` does not exist.
pub open spec fn main_ids_spec(exists_launch: Result<GitOutput, String>, history_launch: Result<GitOutput, String>) -> Result<
    Option<Seq<Seq<char>>>,
    Seq<char>,
> {
    match branch_exists_spec(exists_launch) {
        Err(e) => Err(e),
        Ok(false) => Ok(None),
        Ok(true) => match text_outcome_spec(GitCommand::MainHistory, history_launch) {
            Err(e) => Err(e),
            Ok(text) => Ok(Some(nonblank_trimmed(lines_spec(text)))),
        },
    }
}

/// The view of an optional list of strings, or of the message of a failure.
pub open spec fn ids_result_view(r: Result<Option<Vec<String>>, String>) -> Result<
    Option<Seq<Seq<char>>>,
    Seq<char>,
> {
    match r {
        Ok(v) => Ok(opt_list_view(v)),
        Err(e) => Err(e@),
    }
}

/// The commits reachable from `main` (its non-blank `rev-list` lines, trimmed), or
/// `None` when `main` does not exist; `MainHistory` runs only when it exists.
pub fn collect_main_commit_ids<R: Fn(GitCommand) -> Result<GitOutput, String>>(run: &R) -> (res: Result<
    Option<Vec<String>>,
    String,
>)
    requires
        runner_ready(*run),
    ensures
        exists|exists_launch: Result<GitOutput, String>, history_launch: Result<GitOutput, String>|
            #![trigger main_ids_spec(exists_launch, history_launch)]
            {
                &&& call_ensures(*run, (GitCommand::MainBranchExists,), exists_launch)
                &&& branch_exists_spec(exists_launch) == Ok::<bool, Seq<char>>(true) ==> call_ensures(
                    *run,
                    (GitCommand::MainHistory,),
                    history_launch,
                )
                &&& ids_result_view(res) == main_ids_spec(exists_launch, history_launch)
            },
{
    let exists = local_branch_exists(run);
    let ghost el = choose|l: Result<GitOutput, String>|
        call_ensures(*run, (GitCommand::MainBranchExists,), l) && match exists {
            Ok(b) => branch_exists_spec(l) == Ok::<bool, Seq<char>>(b),
            Err(e) => branch_exists_spec(l) == Err::<bool, Seq<char>>(e@),
        };
    match exists {
        Err(e) => {
            let res: Result<Option<Vec<String>>, String> = Err(e);
            assert(ids_result_view(res) == main_ids_spec(el, el));
            res
        },
        Ok(false) => {
            let res: Result<Option<Vec<String>>, String> = Ok(None);
            assert(ids_result_view(res) == main_ids_spec(el, el));
            res
        },
        Ok(true) => {
            let rev_list = run_git(run, GitCommand::MainHistory);
            let ghost hl = choose|l: Result<GitOutput, String>|
                call_ensures(*run, (GitCommand::MainHistory,), l) && text_result_view(rev_list)
                    == text_outcome_spec(GitCommand::MainHistory, l);
            let res: Result<Option<Vec<String>>, String> = match rev_list {
                Ok(text) => Ok(Some(crate::text::nonblank_trimmed_lines(text.as_str()))),
                Err(e) => Err(e),
            };
            assert(ids_result_view(res) == main_ids_spec(el, hl));
            res
        },
    }
}


/// The commit checked out: its hash, subject, full message and rendered commit time.
#[derive(Debug)]
pub struct HeadInfo {
    pub full_id: String,
    pub message: String,
    pub message_full: String,
    pub datetime: String,
}

/// `HeadInfo` as plain text values.
pub struct HeadInfoView {
    pub full_id: Seq<char>,
    pub message: Seq<char>,
    pub message_full: Seq<char>,
    pub datetime: Seq<char>,
}

impl View for HeadInfo {
    type V = HeadInfoView;

    open spec fn view(&self) -> HeadInfoView {
        HeadInfoView {
            full_id: self.full_id@,
            message: self.message@,
            message_full: self.message_full@,
            datetime: self.datetime@,
        }
    }
}

/// The checked-out commit read from the output of `HeadInfo`, commit times rendered
/// against `now`: the last record is taken; an empty output or an empty hash is refused.
pub open spec fn head_info_spec(output: Seq<u8>, now: i64) -> Result<HeadInfoView, Seq<char>> {
    match parse_records_spec(output, 4) {
        Err(e) => Err(e),
        Ok(records) => if records.len() == 0 {
            Err("HEAD log record is empty"@)
        } else {
            let r = records.last();
            if trim_spec(r[0]).len() == 0 {
                Err("HEAD full id is empty"@)
            } else {
                Ok(
                    HeadInfoView {
                        full_id: r[0],
                        message: r[1],
                        message_full: trim_end_char_spec(r[3], '\n'),
                        datetime: display_or_fallback_spec(r[2], now),
                    },
                )
            }
        },
    }
}

/// The view of a `HeadInfo` result.
pub open spec fn head_result_view(r: Result<HeadInfo, String>) -> Result<HeadInfoView, Seq<char>> {
    match r {
        Ok(h) => Ok(h@),
        Err(e) => Err(e@),
    }
}

/// Reads the checked-out commit from the output of `HeadInfo`.
pub fn head_info_from(output: &[u8], now: i64) -> (res: Result<HeadInfo, String>)
    ensures
        head_result_view(res) == head_info_spec(output@, now),
{
    let mut records = parse_records(output, 4)?;
    let ghost all = record_views(records@);
    proof {
        lemma_parsed_records_have_fields(output@, 4, all);
    }
    let record = match records.pop() {
        Some(r) => r,
        None => {
            return Err(crate::text::owned("HEAD log record is empty"));
        },
    };
    assert(views(record@) == all.last());
    assert(views(record@).len() == 4);
    let full_id = record[0].clone();
    let id_trimmed = crate::text::trim(full_id.as_str());
    if id_trimmed.as_str().is_empty() {
        return Err(crate::text::owned("HEAD full id is empty"));
    }
    let message = record[1].clone();
    let datetime = crate::timefmt::format_git_timestamp_or_fallback(record[2].as_str(), now);
    let message_full = trim_git_full_message_tail(record[3].clone());
    Ok(HeadInfo { full_id, message, message_full, datetime })
}

/// Reads the checked-out commit through `run`, commit time rendered against `now`.
pub fn get_head_info<R: Fn(GitCommand) -> Result<GitOutput, String>>(run: &R, now: i64) -> (res: Result<
    HeadInfo,
    String,
>)
    requires
        runner_ready(*run),
    ensures
        exists|launch: Result<GitOutput, String>|
            call_ensures(*run, (GitCommand::HeadInfo,), launch) && head_result_view(res)
                == head_outcome_spec(launch, now),
{
    let output = run_git_bytes(run, GitCommand::HeadInfo);
    let ghost l = choose|l: Result<GitOutput, String>|
        call_ensures(*run, (GitCommand::HeadInfo,), l) && bytes_result_view(output)
            == bytes_outcome_spec(GitCommand::HeadInfo, l);
    let res = match output {
        Err(e) => Err(e),
        Ok(o) => head_info_from(o.as_slice(), now),
    };
    assert(head_result_view(res) == head_outcome_spec(l, now));
    res
}

/// `M` when the commit is the tip of `main` (hashes compared trimmed), else empty.
pub open spec fn scope_mark_spec(main_head: Option<Seq<char>>, commit_full_id: Seq<char>) -> Seq<char> {
    match main_head {
        Some(m) => if trim_spec(m) == trim_spec(commit_full_id) {
            "M"@
        } else {
            Seq::empty()
        },
        None => Seq::empty(),
    }
}

/// `M` when the commit is the tip of `main`, else empty.
pub fn build_scope_mark(main_head_commit_id: &Option<String>, commit_full_id: &str) -> (res: String)
    ensures
        res@ == scope_mark_spec(opt_text_view(*main_head_commit_id), commit_full_id@),
{
    match main_head_commit_id {
        Some(main_id) => {
            let a = crate::text::trim(main_id.as_str());
            let b = crate::text::trim(commit_full_id);
            if a == b {
                crate::text::owned("M")
            } else {
                String::new()
            }
        },
        None => String::new(),
    }
}

/// Whether the commit (hash trimmed) is reachable from `main`; never when `main` is missing.
pub open spec fn in_main_history_spec(main_commit_ids: Option<Seq<Seq<char>>>, commit_full_id: Seq<char>) -> bool {
    match main_commit_ids {
        Some(ids) => ids.contains(trim_spec(commit_full_id)),
        None => false,
    }
}

/// Whether the commit is reachable from `main`.
pub fn is_main_history_commit(main_commit_ids: &Option<Vec<String>>, commit_full_id: &str) -> (res: bool)
    ensures
        res == in_main_history_spec(opt_list_view(*main_commit_ids), commit_full_id@),
{
    let wanted = crate::text::trim(commit_full_id);
    match main_commit_ids {
        None => false,
        Some(ids) => {
            let mut i: usize = 0;
            while i < ids.len()
                invariant
                    i <= ids@.len(),
                    wanted@ == trim_spec(commit_full_id@),
                    opt_list_view(*main_commit_ids) == Some(views(ids@)),
                    forall|j: int| 0 <= j < i ==> views(ids@)[j] != wanted@,
                decreases ids@.len() - i,
            {
                if ids[i] == wanted {
                    assert(views(ids@)[i as int] == wanted@);
                    assert(views(ids@).contains(wanted@));
                    return true;
                }
                i = i + 1;
            }
            assert(!views(ids@).contains(wanted@));
            false
        },
    }
}

/// The table row for one log record (hash, short hash, commit time, subject, message).
pub open spec fn commit_from_record(
    record: Seq<Seq<char>>,
    main_head: Option<Seq<char>>,
    main_commit_ids: Option<Seq<Seq<char>>>,
    now: i64,
) -> CommitView {
    CommitView {
        scope_mark: scope_mark_spec(main_head, record[0]),
        in_main_history: in_main_history_spec(main_commit_ids, record[0]),
        datetime: display_or_fallback_spec(record[2], now),
        short_id: record[1],
        subject: record[3],
        body_full: trim_end_char_spec(record[4], '\n'),
        full_id: record[0],
    }
}

/// The table rows for the log records, in order, records with a blank hash left out.
pub open spec fn commits_from_records_spec(
    records: Seq<Seq<Seq<char>>>,
    main_head: Option<Seq<char>>,
    main_commit_ids: Option<Seq<Seq<char>>>,
    now: i64,
) -> Seq<CommitView>
    decreases records.len(),
{
    if records.len() == 0 {
        Seq::empty()
    } else {
        let prev = commits_from_records_spec(records.drop_last(), main_head, main_commit_ids, now);
        if trim_spec(records.last()[0]).len() == 0 {
            prev
        } else {
            prev.push(commit_from_record(records.last(), main_head, main_commit_ids, now))
        }
    }
}

/// Builds the table rows from parsed log records of five fields each.
pub fn commits_from_records(
    records: &Vec<Vec<String>>,
    main_head: &Option<String>,
    main_commit_ids: &Option<Vec<String>>,
    now: i64,
) -> (res: Vec<CommitInfo>)
    requires
        forall|i: int| 0 <= i < records@.len() ==> #[trigger] records@[i]@.len() == 5,
    ensures
        commit_views(res@) == commits_from_records_spec(
            record_views(records@),
            opt_text_view(*main_head),
            opt_list_view(*main_commit_ids),
            now,
        ),
{
    let mut commits: Vec<CommitInfo> = Vec::new();
    let mut i: usize = 0;
    while i < records.len()
        invariant
            i <= records@.len(),
            forall|k: int| 0 <= k < records@.len() ==> #[trigger] records@[k]@.len() == 5,
            commit_views(commits@) == commits_from_records_spec(
                record_views(records@).take(i as int),
                opt_text_view(*main_head),
                opt_list_view(*main_commit_ids),
                now,
            ),
        decreases records@.len() - i,
    {
        assert(record_views(records@).take(i + 1).drop_last() == record_views(records@).take(
            i as int,
        ));
        let record = &records[i];
        assert(record@.len() == 5);
        assert(record_views(records@).take(i + 1).last() == views(record@));
        let id_trimmed = crate::text::trim(record[0].as_str());
        if !id_trimmed.as_str().is_empty() {
            let commit = CommitInfo {
                scope_mark: build_scope_mark(main_head, record[0].as_str()),
                in_main_history: is_main_history_commit(main_commit_ids, record[0].as_str()),
                datetime: crate::timefmt::format_git_timestamp_or_fallback(record[2].as_str(), now),
                short_id: record[1].clone(),
                subject: record[3].clone(),
                body_full: trim_git_full_message_tail(record[4].clone()),
                full_id: record[0].clone(),
            };
            let ghost before = commit_views(commits@);
            commits.push(commit);
            assert(commit_views(commits@) == before.push(commit@));
        }
        i = i + 1;
    }
    assert(record_views(records@).take(records@.len() as int) == record_views(records@));
    commits
}

proof fn lemma_parsed_records_have_fields(output: Seq<u8>, expected: nat, records: Seq<Seq<Seq<char>>>)
    requires
        parse_records_spec(output, expected) == Ok::<Seq<Seq<Seq<char>>>, Seq<char>>(records),
    ensures
        forall|i: int| 0 <= i < records.len() ==> #[trigger] records[i].len() == expected,
{
    lemma_chunk_records_have_fields(split_bytes(output, RECORD_SEPARATOR), expected, records);
}

proof fn lemma_chunk_records_have_fields(chunks: Seq<Seq<u8>>, expected: nat, records: Seq<Seq<Seq<char>>>)
    requires
        records_from_chunks(chunks, expected) == Ok::<Seq<Seq<Seq<char>>>, Seq<char>>(records),
    ensures
        forall|i: int| 0 <= i < records.len() ==> #[trigger] records[i].len() == expected,
    decreases chunks.len(),
{
    if chunks.len() > 0 {
        let prev = records_from_chunks(chunks.drop_last(), expected);
        if let Ok(done) = prev {
            lemma_chunk_records_have_fields(chunks.drop_last(), expected, done);
        }
    }
}

/// The table rows listed from the output of `RecentLog`.
pub open spec fn recent_commits_spec(
    log: Seq<u8>,
    main_head: Option<Seq<char>>,
    main_commit_ids: Option<Seq<Seq<char>>>,
    now: i64,
) -> Result<Seq<CommitView>, Seq<char>> {
    match parse_records_spec(log, 5) {
        Err(e) => Err(e),
        Ok(records) => Ok(commits_from_records_spec(records, main_head, main_commit_ids, now)),
    }
}

/// The view of a list-of-commits result.
pub open spec fn commits_result_view(r: Result<Vec<CommitInfo>, String>) -> Result<Seq<CommitView>, Seq<char>> {
    match r {
        Ok(v) => Ok(commit_views(v@)),
        Err(e) => Err(e@),
    }
}

/// Builds the table rows from the output of `RecentLog`.
pub fn commits_from_log(
    log: &[u8],
    main_head: &Option<String>,
    main_commit_ids: &Option<Vec<String>>,
    now: i64,
) -> (res: Result<Vec<CommitInfo>, String>)
    ensures
        commits_result_view(res) == recent_commits_spec(
            log@,
            opt_text_view(*main_head),
            opt_list_view(*main_commit_ids),
            now,
        ),
{
    let records = parse_records(log, 5)?;
    proof {
        lemma_parsed_records_have_fields(log@, 5, record_views(records@));
        assert forall|i: int| 0 <= i < records@.len() implies #[trigger] records@[i]@.len() == 5 by {
            assert(record_views(records@)[i] == views(records@[i]@));
        }
    }
    Ok(commits_from_records(&records, main_head, main_commit_ids, now))
}

/// Whether `run` may have answered each step of listing the recent commits that was
/// reached: the log, then the tip of `main`, then whether `main` exists, then its
/// history when it does.
pub open spec fn listing_ran<R: Fn(GitCommand) -> Result<GitOutput, String>>(
    run: R,
    max_count: usize,
    log_launch: Result<GitOutput, String>,
    head_launch: Result<GitOutput, String>,
    exists_launch: Result<GitOutput, String>,
    history_launch: Result<GitOutput, String>,
) -> bool {
    &&& call_ensures(run, (GitCommand::RecentLog { max_count },), log_launch)
    &&& bytes_outcome_spec(GitCommand::RecentLog { max_count }, log_launch) is Ok ==> {
        &&& call_ensures(run, (GitCommand::MainBranchHead,), head_launch)
        &&& main_branch_head_spec(head_launch) is Ok ==> {
            &&& call_ensures(run, (GitCommand::MainBranchExists,), exists_launch)
            &&& branch_exists_spec(exists_launch) == Ok::<bool, Seq<char>>(true) ==> call_ensures(
                run,
                (GitCommand::MainHistory,),
                history_launch,
            )
        }
    }
}

/// The listed commits from what the listing steps gave; the first failing step's
/// message otherwise.
pub open spec fn listing_spec(
    max_count: usize,
    log_launch: Result<GitOutput, String>,
    head_launch: Result<GitOutput, String>,
    exists_launch: Result<GitOutput, String>,
    history_launch: Result<GitOutput, String>,
    now: i64,
) -> Result<Seq<CommitView>, Seq<char>> {
    match bytes_outcome_spec(GitCommand::RecentLog { max_count }, log_launch) {
        Err(e) => Err(e),
        Ok(log) => match main_branch_head_spec(head_launch) {
            Err(e) => Err(e),
            Ok(head) => match main_ids_spec(exists_launch, history_launch) {
                Err(e) => Err(e),
                Ok(ids) => recent_commits_spec(log, head, ids, now),
            },
        },
    }
}

/// Lists the most recent `max_count` commits of all branches through `run`, each marked
/// against `main`, commit times rendered against `now`.  The commands run in order: the
/// log, the tip of `main`, the history of `main`; the first failure is returned.
pub fn list_recent_commits<R: Fn(GitCommand) -> Result<GitOutput, String>>(run: &R, max_count: usize, now: i64) -> (res: Result<
    Vec<CommitInfo>,
    String,
>)
    requires
        runner_ready(*run),
    ensures
        exists|
            log_launch: Result<GitOutput, String>,
            head_launch: Result<GitOutput, String>,
            exists_launch: Result<GitOutput, String>,
            history_launch: Result<GitOutput, String>,
        |
            #![trigger listing_spec(max_count, log_launch, head_launch, exists_launch, history_launch, now)]
            listing_ran(*run, max_count, log_launch, head_launch, exists_launch, history_launch)
                && commits_result_view(res) == listing_spec(
                max_count,
                log_launch,
                head_launch,
                exists_launch,
                history_launch,
                now,
            ),
{
    let output = run_git_bytes(run, GitCommand::RecentLog { max_count });
    let ghost ll = choose|l: Result<GitOutput, String>|
        call_ensures(*run, (GitCommand::RecentLog { max_count },), l) && bytes_result_view(output)
            == bytes_outcome_spec(GitCommand::RecentLog { max_count }, l);
    let output = match output {
        Ok(o) => o,
        Err(e) => {
            let res: Result<Vec<CommitInfo>, String> = Err(e);
            assert(listing_ran(*run, max_count, ll, ll, ll, ll));
            assert(commits_result_view(res) == listing_spec(max_count, ll, ll, ll, ll, now));
            return res;
        },
    };
    let main_head = get_main_branch_head_commit_id(run);
    let ghost hl = choose|l: Result<GitOutput, String>|
        call_ensures(*run, (GitCommand::MainBranchHead,), l) && match main_head {
            Ok(v) => main_branch_head_spec(l) == Ok::<Option<Seq<char>>, Seq<char>>(
                opt_text_view(v),
            ),
            Err(e) => main_branch_head_spec(l) == Err::<Option<Seq<char>>, Seq<char>>(e@),
        };
    let main_head = match main_head {
        Ok(h) => h,
        Err(e) => {
            let res: Result<Vec<CommitInfo>, String> = Err(e);
            assert(listing_ran(*run, max_count, ll, hl, hl, hl));
            assert(commits_result_view(res) == listing_spec(max_count, ll, hl, hl, hl, now));
            return res;
        },
    };
    let main_commit_ids = collect_main_commit_ids(run);
    let ghost (el, il) = choose|
        e: Result<GitOutput, String>,
        i: Result<GitOutput, String>,
    |
        {
            &&& call_ensures(*run, (GitCommand::MainBranchExists,), e)
            &&& branch_exists_spec(e) == Ok::<bool, Seq<char>>(true) ==> call_ensures(
                *run,
                (GitCommand::MainHistory,),
                i,
            )
            &&& ids_result_view(main_commit_ids) == main_ids_spec(e, i)
        };
    let main_commit_ids = match main_commit_ids {
        Ok(ids) => ids,
        Err(e) => {
            let res: Result<Vec<CommitInfo>, String> = Err(e);
            assert(listing_ran(*run, max_count, ll, hl, el, il));
            assert(commits_result_view(res) == listing_spec(max_count, ll, hl, el, il, now));
            return res;
        },
    };
    let res = commits_from_log(output.as_slice(), &main_head, &main_commit_ids, now);
    assert(listing_ran(*run, max_count, ll, hl, el, il));
    assert(commits_result_view(res) == listing_spec(max_count, ll, hl, el, il, now));
    res
}

/// The rendered time of the last commit, through `run`, against `now`.
pub fn get_last_commit_datetime<R: Fn(GitCommand) -> Result<GitOutput, String>>(run: &R, now: i64) -> (res: Result<
    String,
    String,
>)
    requires
        runner_ready(*run),
    ensures
        exists|launch: Result<GitOutput, String>|
            call_ensures(*run, (GitCommand::LastCommitTimestamp,), launch) && text_result_view(res) == match text_outcome_spec(GitCommand::LastCommitTimestamp, launch) {
                Err(e) => Err(e),
                Ok(raw) => Ok(display_or_fallback_spec(raw, now)),
            },
{
    let raw = run_git(run, GitCommand::LastCommitTimestamp)?;
    Ok(crate::timefmt::format_git_timestamp_or_fallback(raw.as_str(), now))
}

/// The full message of a commit through `run`; a blank commit id is refused before
/// anything is run, and the id is passed trimmed.
pub fn get_commit_message_full<R: Fn(GitCommand) -> Result<GitOutput, String>>(run: &R, commit_id: &str) -> (res: Result<
    String,
    String,
>)
    requires
        runner_ready(*run),
    ensures
        trim_spec(commit_id@).len() == 0 ==> res is Err && res->Err_0@ == "commit id is empty"@,
        trim_spec(commit_id@).len() != 0 ==> exists|id: String, launch: Result<GitOutput, String>|
            id@ == trim_spec(commit_id@) && call_ensures(*run, (GitCommand::CommitMessage { commit_id: id },), launch)
                && text_result_view(res) == text_outcome_spec(GitCommand::CommitMessage { commit_id: id }, launch),
{
    let normalized_id = crate::text::trim(commit_id);
    if normalized_id.as_str().is_empty() {
        return Err(crate::text::owned("commit id is empty"));
    }
    run_git(run, GitCommand::CommitMessage { commit_id: normalized_id })
}


/// How many commits a snapshot lists.
pub const SNAPSHOT_COMMIT_COUNT: usize = 50;

/// Whether a snapshot whose checked-out commit is `head_full_id` must list the commits
/// again: the checked-out commit changed, or no list is kept from before.
pub open spec fn needs_commit_listing(
    previous_head: Option<Seq<char>>,
    previous_commit_count: nat,
    head_full_id: Seq<char>,
) -> bool {
    previous_head != Some(head_full_id) || previous_commit_count == 0
}

/// The checked-out commit from what `HeadInfo` gave, its time rendered against `now`.
pub open spec fn head_outcome_spec(launch: Result<GitOutput, String>, now: i64) -> Result<HeadInfoView, Seq<char>> {
    match bytes_outcome_spec(GitCommand::HeadInfo, launch) {
        Err(e) => Err(e),
        Ok(output) => head_info_spec(output, now),
    }
}

/// Whether `run` may have answered each step of a read of the repository that was
/// reached: the branch, then the checked-out commit, then the status, then the listing
/// of the recent commits when it is needed.
pub open spec fn snapshot_ran<R: Fn(GitCommand) -> Result<GitOutput, String>>(
    run: R,
    previous_head: Option<Seq<char>>,
    previous_commit_count: nat,
    now: i64,
    branch_launch: Result<GitOutput, String>,
    head_launch: Result<GitOutput, String>,
    status_launch: Result<GitOutput, String>,
    log_launch: Result<GitOutput, String>,
    main_head_launch: Result<GitOutput, String>,
    exists_launch: Result<GitOutput, String>,
    history_launch: Result<GitOutput, String>,
) -> bool {
    &&& call_ensures(run, (GitCommand::CurrentBranch,), branch_launch)
    &&& current_branch_spec(text_outcome_spec(GitCommand::CurrentBranch, branch_launch)) is Ok ==> {
        &&& call_ensures(run, (GitCommand::HeadInfo,), head_launch)
        &&& head_outcome_spec(head_launch, now) matches Ok(head) ==> {
            &&& call_ensures(run, (GitCommand::StatusPorcelain,), status_launch)
            &&& (text_outcome_spec(GitCommand::StatusPorcelain, status_launch) is Ok
                && needs_commit_listing(previous_head, previous_commit_count, head.full_id))
                ==> listing_ran(
                run,
                SNAPSHOT_COMMIT_COUNT,
                log_launch,
                main_head_launch,
                exists_launch,
                history_launch,
            )
        }
    }
}

/// Whether `snap` is the snapshot of `repo_path` assembled from the branch, the
/// checked-out commit and the status that were read (the commit list aside).
pub open spec fn snapshot_assembled(
    snap: RepoSnapshot,
    repo_path: Seq<char>,
    previous_head: Option<Seq<char>>,
    branch: Seq<char>,
    head: HeadInfoView,
    status: Seq<char>,
) -> bool {
    &&& snap.repo_path@ == repo_path
    &&& snap.current_branch@ == branch
    &&& snap.head_full_id@ == head.full_id
    &&& snap.head_message@ == head.message
    &&& snap.head_message_full@ == head.message_full
    &&& snap.head_datetime@ == head.datetime
    &&& snap.status_porcelain@ == status
    &&& snap.dirty == (trim_spec(status).len() != 0)
    &&& snap.head_changed == (previous_head != Some(head.full_id))
    &&& snap.consecutive_update_failures == 0
}

/// Whether `res` is the outcome of a read of `repo_path` whose steps gave the launches:
/// the first failing step's message, or the snapshot assembled from what was read, its
/// commits listed again when needed and otherwise `previous_commits`.
pub open spec fn snapshot_outcome(
    res: Result<RepoSnapshot, String>,
    repo_path: Seq<char>,
    previous_head: Option<Seq<char>>,
    previous_commits: Seq<CommitInfo>,
    now: i64,
    branch_launch: Result<GitOutput, String>,
    head_launch: Result<GitOutput, String>,
    status_launch: Result<GitOutput, String>,
    log_launch: Result<GitOutput, String>,
    main_head_launch: Result<GitOutput, String>,
    exists_launch: Result<GitOutput, String>,
    history_launch: Result<GitOutput, String>,
) -> bool {
    match current_branch_spec(text_outcome_spec(GitCommand::CurrentBranch, branch_launch)) {
        Err(e) => res matches Err(m) && m@ == e,
        Ok(branch) => match head_outcome_spec(head_launch, now) {
            Err(e) => res matches Err(m) && m@ == e,
            Ok(head) => match text_outcome_spec(GitCommand::StatusPorcelain, status_launch) {
                Err(e) => res matches Err(m) && m@ == e,
                Ok(status) => if needs_commit_listing(
                    previous_head,
                    previous_commits.len(),
                    head.full_id,
                ) {
                    match listing_spec(
                        SNAPSHOT_COMMIT_COUNT,
                        log_launch,
                        main_head_launch,
                        exists_launch,
                        history_launch,
                        now,
                    ) {
                        Err(e) => res matches Err(m) && m@ == e,
                        Ok(commits) => res matches Ok(snap) && snapshot_assembled(
                            snap,
                            repo_path,
                            previous_head,
                            branch,
                            head,
                            status,
                        ) && commit_views(snap.recent_commits@) == commits,
                    }
                } else {
                    res matches Ok(snap) && snapshot_assembled(
                        snap,
                        repo_path,
                        previous_head,
                        branch,
                        head,
                        status,
                    ) && snap.recent_commits@ == previous_commits
                },
            },
        },
    }
}

/// Whether `res` is what reading `repo_path` through `run`, with commit times rendered
/// against `now`, may give: for some answers of `run` to the steps that were reached,
/// the outcome that `snapshot_outcome` describes.
pub open spec fn fetched_from<R: Fn(GitCommand) -> Result<GitOutput, String>>(
    run: R,
    repo_path: Seq<char>,
    previous_head: Option<Seq<char>>,
    previous_commits: Seq<CommitInfo>,
    now: i64,
    res: Result<RepoSnapshot, String>,
) -> bool {
    exists|
        branch_launch: Result<GitOutput, String>,
        head_launch: Result<GitOutput, String>,
        status_launch: Result<GitOutput, String>,
        log_launch: Result<GitOutput, String>,
        main_head_launch: Result<GitOutput, String>,
        exists_launch: Result<GitOutput, String>,
        history_launch: Result<GitOutput, String>,
    |
        #![trigger snapshot_outcome(res, repo_path, previous_head, previous_commits, now, branch_launch, head_launch, status_launch, log_launch, main_head_launch, exists_launch, history_launch)]
        {
            &&& snapshot_ran(
                run,
                previous_head,
                previous_commits.len(),
                now,
                branch_launch,
                head_launch,
                status_launch,
                log_launch,
                main_head_launch,
                exists_launch,
                history_launch,
            )
            &&& snapshot_outcome(
                res,
                repo_path,
                previous_head,
                previous_commits,
                now,
                branch_launch,
                head_launch,
                status_launch,
                log_launch,
                main_head_launch,
                exists_launch,
                history_launch,
            )
        }
}

/// Reads the repository through `run`: the branch, the checked-out commit, the working
/// tree status, and the recent commits, listed again only when the checked-out commit
/// differs from `previous_head` or no list is kept; otherwise `previous_commits` is
/// reused.  The first failing command ends the read with its message.  Commit times are
/// rendered against `now`, the caller's reading of the clock in Unix seconds.
pub fn fetch_snapshot<R: Fn(GitCommand) -> Result<GitOutput, String>>(
    repo_path: &str,
    previous_head: &Option<String>,
    previous_commits: &Vec<CommitInfo>,
    now: i64,
    run: &R,
) -> (res: Result<RepoSnapshot, String>)
    requires
        runner_ready(*run),
    ensures
        fetched_from(*run, repo_path@, opt_text_view(*previous_head), previous_commits@, now, res),
        res matches Ok(snap) ==> snap.repo_path@ == repo_path@ && snap.consecutive_update_failures
            == 0,
{
    let ghost prev_head = opt_text_view(*previous_head);
    let ghost prev_commits = previous_commits@;
    let current_branch = get_current_branch(run);
    let ghost bl = choose|l: Result<GitOutput, String>|
        call_ensures(*run, (GitCommand::CurrentBranch,), l) && text_result_view(current_branch)
            == current_branch_spec(text_outcome_spec(GitCommand::CurrentBranch, l));
    let current_branch = match current_branch {
        Ok(b) => b,
        Err(e) => {
            let res: Result<RepoSnapshot, String> = Err(e);
            assert(snapshot_ran(*run, prev_head, prev_commits.len(), now, bl, bl, bl, bl, bl, bl, bl));
            assert(snapshot_outcome(res, repo_path@, prev_head, prev_commits, now, bl, bl, bl, bl, bl, bl, bl));
            return res;
        },
    };
    let head = get_head_info(run, now);
    let ghost hl = choose|l: Result<GitOutput, String>|
        call_ensures(*run, (GitCommand::HeadInfo,), l) && head_result_view(head) == head_outcome_spec(
            l,
            now,
        );
    let head = match head {
        Ok(h) => h,
        Err(e) => {
            let res: Result<RepoSnapshot, String> = Err(e);
            assert(snapshot_ran(*run, prev_head, prev_commits.len(), now, bl, hl, hl, hl, hl, hl, hl));
            assert(snapshot_outcome(res, repo_path@, prev_head, prev_commits, now, bl, hl, hl, hl, hl, hl, hl));
            return res;
        },
    };
    let status_porcelain = run_git(run, GitCommand::StatusPorcelain);
    let ghost sl = choose|l: Result<GitOutput, String>|
        call_ensures(*run, (GitCommand::StatusPorcelain,), l) && text_result_view(status_porcelain)
            == text_outcome_spec(GitCommand::StatusPorcelain, l);
    let status_porcelain = match status_porcelain {
        Ok(t) => t,
        Err(e) => {
            let res: Result<RepoSnapshot, String> = Err(e);
            assert(snapshot_ran(*run, prev_head, prev_commits.len(), now, bl, hl, sl, sl, sl, sl, sl));
            assert(snapshot_outcome(res, repo_path@, prev_head, prev_commits, now, bl, hl, sl, sl, sl, sl, sl));
            return res;
        },
    };
    let status_trimmed = crate::text::trim(status_porcelain.as_str());
    let dirty = !status_trimmed.as_str().is_empty();
    let head_changed = match previous_head {
        Some(previous) => !(*previous == head.full_id),
        None => true,
    };
    if head_changed || previous_commits.len() == 0 {
        let listed = list_recent_commits(run, SNAPSHOT_COMMIT_COUNT, now);
        let ghost (ll, ml, el, il) = choose|
            a: Result<GitOutput, String>,
            b: Result<GitOutput, String>,
            c: Result<GitOutput, String>,
            d: Result<GitOutput, String>,
        |
            listing_ran(*run, SNAPSHOT_COMMIT_COUNT, a, b, c, d) && commits_result_view(listed)
                == listing_spec(SNAPSHOT_COMMIT_COUNT, a, b, c, d, now);
        match listed {
            Err(e) => {
                let res: Result<RepoSnapshot, String> = Err(e);
                assert(snapshot_ran(*run, prev_head, prev_commits.len(), now, bl, hl, sl, ll, ml, el, il));
                assert(snapshot_outcome(res, repo_path@, prev_head, prev_commits, now, bl, hl, sl, ll, ml, el, il));
                res
            },
            Ok(recent_commits) => {
                let res: Result<RepoSnapshot, String> = Ok(
                    RepoSnapshot {
                        repo_path: crate::text::owned(repo_path),
                        current_branch,
                        head_full_id: head.full_id,
                        head_message: head.message,
                        head_message_full: head.message_full,
                        head_datetime: head.datetime,
                        dirty,
                        status_porcelain,
                        recent_commits,
                        head_changed,
                        consecutive_update_failures: 0,
                    },
                );
                assert(snapshot_ran(*run, prev_head, prev_commits.len(), now, bl, hl, sl, ll, ml, el, il));
                assert(snapshot_outcome(res, repo_path@, prev_head, prev_commits, now, bl, hl, sl, ll, ml, el, il));
                res
            },
        }
    } else {
        let recent_commits = crate::models::clone_commits(previous_commits);
        let res: Result<RepoSnapshot, String> = Ok(
            RepoSnapshot {
                repo_path: crate::text::owned(repo_path),
                current_branch,
                head_full_id: head.full_id,
                head_message: head.message,
                head_message_full: head.message_full,
                head_datetime: head.datetime,
                dirty,
                status_porcelain,
                recent_commits,
                head_changed,
                consecutive_update_failures: 0,
            },
        );
        assert(snapshot_ran(*run, prev_head, prev_commits.len(), now, bl, hl, sl, sl, sl, sl, sl));
        assert(snapshot_outcome(res, repo_path@, prev_head, prev_commits, now, bl, hl, sl, sl, sl, sl, sl));
        res
    }
}


/// Shown for a repository without a requirement definition.
pub const REQUIREMENT_MISSING: &'static str = "(要件定義書なし)";

/// What the caller found in one directory below the scan root.
#[derive(Debug)]
pub struct ScannedDir {
    pub path: String,
    /// Whether the directory holds a `.git` directory.
    pub is_git_repo: bool,
    /// The headline of its requirement definition, if one was read.
    pub requirement_headline: Option<String>,
    /// The rendered time of its last commit, or why it could not be read.
    pub last_commit_datetime: Result<String, String>,
}

/// `RepoCandidate` as plain text values.
pub struct CandidateView {
    pub requirement_headline: Seq<char>,
    pub path: Seq<char>,
    pub last_commit_datetime: Seq<char>,
}

/// The candidate listed for a scanned repository: missing headline and unreadable
/// commit time replaced by their markers.
pub open spec fn candidate_spec(dir: ScannedDir) -> CandidateView {
    CandidateView {
        requirement_headline: match dir.requirement_headline {
            Some(h) => h@,
            None => REQUIREMENT_MISSING@,
        },
        path: dir.path@,
        last_commit_datetime: match dir.last_commit_datetime {
            Ok(t) => t@,
            Err(_) => crate::timefmt::DATETIME_FETCH_FAILED@,
        },
    }
}

/// The candidates for the scanned directories, in order, non-repositories left out.
pub open spec fn candidates_spec(dirs: Seq<ScannedDir>) -> Seq<CandidateView>
    decreases dirs.len(),
{
    if dirs.len() == 0 {
        Seq::empty()
    } else if dirs.last().is_git_repo {
        candidates_spec(dirs.drop_last()).push(candidate_spec(dirs.last()))
    } else {
        candidates_spec(dirs.drop_last())
    }
}

/// The view of a candidate.
pub open spec fn candidate_view(c: RepoCandidate) -> CandidateView {
    CandidateView {
        requirement_headline: c.requirement_headline@,
        path: c.path@,
        last_commit_datetime: c.last_commit_datetime@,
    }
}

/// The views of a list of candidates.
pub open spec fn candidate_views(v: Seq<RepoCandidate>) -> Seq<CandidateView> {
    v.map_values(|c: RepoCandidate| candidate_view(c))
}

/// A directory found directly below the scan root, and what listing its own
/// subdirectories gave: each entry's path, or the message of the failure to read it;
/// or the message of the failure to list it at all.  The children are looked at only
/// when the scan goes two levels deep.
#[derive(Debug)]
pub struct ListedDir {
    pub path: String,
    pub children: Result<Vec<Result<String, String>>, String>,
}

/// The paths of listed entries, or the message for the first entry that could not be
/// read.
pub open spec fn entries_spec(entries: Seq<Result<String, String>>) -> Result<Seq<Seq<char>>, Seq<char>>
    decreases entries.len(),
{
    if entries.len() == 0 {
        Ok(Seq::empty())
    } else {
        match entries_spec(entries.drop_last()) {
            Err(e) => Err(e),
            Ok(prev) => match entries.last() {
                Err(m) => Err("read_dir entry failed: "@ + m@),
                Ok(p) => Ok(prev.push(p@)),
            },
        }
    }
}

/// The directories below the scan root in listing order: each directory, followed by
/// its own subdirectories when the scan goes two levels deep; or the message for the
/// first failure.
pub open spec fn listed_dirs_spec(scope: ScanScope, dirs: Seq<Result<ListedDir, String>>) -> Result<
    Seq<Seq<char>>,
    Seq<char>,
>
    decreases dirs.len(),
{
    if dirs.len() == 0 {
        Ok(Seq::empty())
    } else {
        match listed_dirs_spec(scope, dirs.drop_last()) {
            Err(e) => Err(e),
            Ok(prev) => match dirs.last() {
                Err(m) => Err("read_dir entry failed: "@ + m@),
                Ok(d) => if scope == ScanScope::Direct {
                    Ok(prev.push(d.path@))
                } else {
                    match d.children {
                        Err(m) => Err("read_dir failed: "@ + m@),
                        Ok(es) => match entries_spec(es@) {
                            Err(e) => Err(e),
                            Ok(cs) => Ok(prev.push(d.path@) + cs),
                        },
                    }
                },
            },
        }
    }
}

/// The directories a scan looks at, before sorting: the root, then the listed ones;
/// or the message for the first failure (`listing` is `Err` when the root could not be
/// listed).
pub open spec fn scan_dirs_spec(
    root: Seq<char>,
    scope: ScanScope,
    listing: Result<Vec<Result<ListedDir, String>>, String>,
) -> Result<Seq<Seq<char>>, Seq<char>> {
    match listing {
        Err(m) => Err("read_dir failed: "@ + m@),
        Ok(dirs) => match listed_dirs_spec(scope, dirs@) {
            Err(e) => Err(e),
            Ok(flat) => Ok(seq![root] + flat),
        },
    }
}

proof fn lemma_entries_error_persists(es: Seq<Result<String, String>>, i: int)
    requires
        0 <= i < es.len(),
        entries_spec(es.take(i + 1)) is Err,
    ensures
        entries_spec(es) == entries_spec(es.take(i + 1)),
    decreases es.len() - i,
{
    if i + 1 < es.len() {
        assert(es.take(i + 2).drop_last() == es.take(i + 1));
        lemma_entries_error_persists(es, i + 1);
    } else {
        assert(es.take(i + 1) == es);
    }
}

proof fn lemma_listed_error_persists(scope: ScanScope, ds: Seq<Result<ListedDir, String>>, i: int)
    requires
        0 <= i < ds.len(),
        listed_dirs_spec(scope, ds.take(i + 1)) is Err,
    ensures
        listed_dirs_spec(scope, ds) == listed_dirs_spec(scope, ds.take(i + 1)),
    decreases ds.len() - i,
{
    if i + 1 < ds.len() {
        assert(ds.take(i + 2).drop_last() == ds.take(i + 1));
        lemma_listed_error_persists(scope, ds, i + 1);
    } else {
        assert(ds.take(i + 1) == ds);
    }
}

/// Appends the listed entries' paths to `out`, or gives the message for the first entry
/// that could not be read.
fn append_entries(entries: &Vec<Result<String, String>>, out: &mut Vec<String>) -> (res: Result<(), String>)
    ensures
        match entries_spec(entries@) {
            Err(e) => res matches Err(m) && m@ == e,
            Ok(cs) => res is Ok && views(final(out)@) == views(old(out)@) + cs,
        },
{
    let ghost start = views(out@);
    let mut i: usize = 0;
    assert(entries@.take(0) == Seq::<Result<String, String>>::empty());
    assert(start + Seq::<Seq<char>>::empty() == start);
    while i < entries.len()
        invariant
            i <= entries@.len(),
            start == views(old(out)@),
            entries_spec(entries@.take(i as int)) matches Ok(cs) && views(out@) == start + cs,
        decreases entries@.len() - i,
    {
        assert(entries@.take(i + 1).drop_last() == entries@.take(i as int));
        assert(entries@.take(i + 1).last() == entries@[i as int]);
        match &entries[i] {
            Err(m) => {
                let mut msg = crate::text::owned("read_dir entry failed: ");
                msg.append(m.as_str());
                proof {
                    lemma_entries_error_persists(entries@, i as int);
                }
                return Err(msg);
            },
            Ok(p) => {
                let ghost before = views(out@);
                out.push(p.clone());
                assert(views(out@) == before.push(p@));
            },
        }
        i = i + 1;
    }
    assert(entries@.take(entries@.len() as int) == entries@);
    Ok(())
}

/// The directories a scan of `root` looks at: the root and the listed directories (with
/// their own subdirectories when `scope` is two levels deep), in the order in which
/// `Path` compares them, each path once; or the message for the first listing failure.
pub fn collect_scan_dirs(
    root: &str,
    scope: ScanScope,
    sep: char,
    listing: Result<Vec<Result<ListedDir, String>>, String>,
) -> (res: Result<Vec<String>, String>)
    ensures
        match scan_dirs_spec(root@, scope, listing) {
            Err(e) => res matches Err(m) && m@ == e,
            Ok(all) => res matches Ok(dirs) && sorted_unique_paths(views(dirs@), all, sep),
        },
{
    let dirs = match listing {
        Err(m) => {
            let mut msg = crate::text::owned("read_dir failed: ");
            msg.append(m.as_str());
            return Err(msg);
        },
        Ok(dirs) => dirs,
    };
    let mut flat: Vec<String> = Vec::new();
    flat.push(crate::text::owned(root));
    let ghost head = seq![root@];
    assert(views(flat@) == head);
    let mut i: usize = 0;
    assert(dirs@.take(0) == Seq::<Result<ListedDir, String>>::empty());
    assert(head + Seq::<Seq<char>>::empty() == head);
    while i < dirs.len()
        invariant
            i <= dirs@.len(),
            head == seq![root@],
            listing matches Ok(ds) && ds@ == dirs@,
            listed_dirs_spec(scope, dirs@.take(i as int)) matches Ok(acc) && views(flat@) == head + acc,
        decreases dirs@.len() - i,
    {
        assert(dirs@.take(i + 1).drop_last() == dirs@.take(i as int));
        assert(dirs@.take(i + 1).last() == dirs@[i as int]);
        let ghost acc = listed_dirs_spec(scope, dirs@.take(i as int))->Ok_0;
        match &dirs[i] {
            Err(m) => {
                let mut msg = crate::text::owned("read_dir entry failed: ");
                msg.append(m.as_str());
                proof {
                    lemma_listed_error_persists(scope, dirs@, i as int);
                }
                return Err(msg);
            },
            Ok(d) => {
                let ghost before = views(flat@);
                flat.push(d.path.clone());
                assert(views(flat@) == before.push(d.path@));
                assert(head + acc.push(d.path@) == (head + acc).push(d.path@));
                if scope == ScanScope::Depth2 {
                    match &d.children {
                        Err(m) => {
                            let mut msg = crate::text::owned("read_dir failed: ");
                            msg.append(m.as_str());
                            proof {
                                lemma_listed_error_persists(scope, dirs@, i as int);
                            }
                            return Err(msg);
                        },
                        Ok(es) => {
                            let appended = append_entries(es, &mut flat);
                            match appended {
                                Err(e) => {
                                    proof {
                                        lemma_listed_error_persists(scope, dirs@, i as int);
                                    }
                                    return Err(e);
                                },
                                Ok(()) => {
                                    let ghost cs = entries_spec(es@)->Ok_0;
                                    assert(head + (acc.push(d.path@) + cs) == (head + acc).push(d.path@) + cs);
                                },
                            }
                        },
                    }
                }
            },
        }
        i = i + 1;
    }
    assert(dirs@.take(dirs@.len() as int) == dirs@);
    Ok(crate::paths::sort_unique_paths(&flat, sep))
}

/// Whether the candidates are in the order in which `Path` compares their paths.
pub open spec fn sorted_by_path(s: Seq<CandidateView>, sep: char) -> bool {
    forall|i: int, j: int| 0 <= i < j < s.len() ==> path_le(#[trigger] s[i].path, #[trigger] s[j].path, sep)
}

/// The repositories found below `root`, from what the caller found there: an error when
/// `root` is not a directory or listing it failed, else one candidate per repository,
/// sorted by path (`sep` being the platform's separator).
pub fn scan_repositories(root: &str, root_is_dir: bool, dirs: Result<Vec<ScannedDir>, String>, sep: char) -> (res: Result<
    Vec<RepoCandidate>,
    String,
>)
    ensures
        !root_is_dir ==> res is Err && res->Err_0@ == "scan root is not a directory: "@ + root@,
        root_is_dir && dirs is Err ==> res is Err && res->Err_0@ == dirs->Err_0@,
        root_is_dir && dirs is Ok ==> res is Ok && sorted_by_path(candidate_views(res->Ok_0@), sep)
            && candidate_views(res->Ok_0@).to_multiset() == candidates_spec(
            dirs->Ok_0@,
        ).to_multiset(),
{
    if !root_is_dir {
        let mut m = crate::text::owned("scan root is not a directory: ");
        m.append(root);
        return Err(m);
    }
    let dirs = dirs?;
    let mut repositories: Vec<RepoCandidate> = Vec::new();
    let mut i: usize = 0;
    assert(candidate_views(repositories@) == Seq::<CandidateView>::empty());
    while i < dirs.len()
        invariant
            i <= dirs@.len(),
            sorted_by_path(candidate_views(repositories@), sep),
            candidate_views(repositories@).to_multiset() == candidates_spec(
                dirs@.take(i as int),
            ).to_multiset(),
        decreases dirs@.len() - i,
    {
        assert(dirs@.take(i + 1).drop_last() == dirs@.take(i as int));
        let dir = &dirs[i];
        assert(dirs@.take(i + 1).last() == *dir);
        if dir.is_git_repo {
            let requirement_headline = match &dir.requirement_headline {
                Some(h) => h.clone(),
                None => crate::text::owned(REQUIREMENT_MISSING),
            };
            let last_commit_datetime = match &dir.last_commit_datetime {
                Ok(t) => t.clone(),
                Err(_) => crate::text::owned(crate::timefmt::DATETIME_FETCH_FAILED),
            };
            let candidate = RepoCandidate {
                requirement_headline,
                path: dir.path.clone(),
                last_commit_datetime,
            };
            assert(candidate_view(candidate) == candidate_spec(*dir));
            let mut p: usize = 0;
            while p < repositories.len() && crate::paths::path_le_exec(
                repositories[p].path.as_str(),
                candidate.path.as_str(),
                sep,
            )
                invariant
                    p <= repositories@.len(),
                    sorted_by_path(candidate_views(repositories@), sep),
                    forall|k: int|
                        0 <= k < p ==> path_le(
                            #[trigger] candidate_views(repositories@)[k].path,
                            candidate.path@,
                            sep,
                        ),
                decreases repositories@.len() - p,
            {
                p = p + 1;
            }
            let ghost old_views = candidate_views(repositories@);
            let ghost key = candidate.path@;
            proof {
                assert forall|k: int| p <= k < old_views.len() implies path_le(key, #[trigger] old_views[k].path, sep) by {
                    lemma_path_le_total(old_views[p as int].path, key, sep);
                    if k > p {
                        lemma_path_le_trans(key, old_views[p as int].path, old_views[k].path, sep);
                    }
                }
            }
            let ghost cv = candidate_view(candidate);
            repositories.insert(p, candidate);
            assert(candidate_views(repositories@) == old_views.insert(p as int, cv));
            proof {
                vstd::seq_lib::to_multiset_insert(old_views, p as int, cv);
                vstd::seq_lib::to_multiset_build(candidates_spec(dirs@.take(i as int)), cv);
            }
            assert(candidates_spec(dirs@.take(i + 1)) == candidates_spec(dirs@.take(i as int)).push(cv));
            assert forall|a: int, b: int| 0 <= a < b < candidate_views(repositories@).len() implies path_le(
                #[trigger] candidate_views(repositories@)[a].path,
                #[trigger] candidate_views(repositories@)[b].path,
                sep,
            ) by {
                let s = candidate_views(repositories@);
                if b < p {
                    assert(s[a] == old_views[a] && s[b] == old_views[b]);
                } else if b == p {
                    assert(s[a] == old_views[a]);
                } else if a == p {
                    assert(s[b] == old_views[b - 1]);
                } else if a < p {
                    assert(s[a] == old_views[a] && s[b] == old_views[b - 1]);
                    lemma_path_le_trans(old_views[a].path, key, old_views[b - 1].path, sep);
                } else {
                    assert(s[a] == old_views[a - 1] && s[b] == old_views[b - 1]);
                }
            }
        } else {
            assert(candidates_spec(dirs@.take(i + 1)) == candidates_spec(dirs@.take(i as int)));
        }
        i = i + 1;
    }
    assert(dirs@.take(dirs@.len() as int) == dirs@);
    Ok(repositories)
}

/// Whether `s` starts with `prefix` (`str::starts_with`).
pub open spec fn starts_with_spec(s: Seq<char>, prefix: Seq<char>) -> bool {
    prefix.len() <= s.len() && s.take(prefix.len() as int) == prefix
}

/// Whether `s` ends with `suffix` (`str::ends_with`).
pub open spec fn ends_with_spec(s: Seq<char>, suffix: Seq<char>) -> bool {
    suffix.len() <= s.len() && s.skip(s.len() - suffix.len()) == suffix
}

/// Whether `s` starts with `prefix`.
pub fn starts_with(s: &str, prefix: &str) -> (res: bool)
    ensures
        res == starts_with_spec(s@, prefix@),
{
    let a = crate::text::chars_of(s);
    let b = crate::text::chars_of(prefix);
    if b.len() > a.len() {
        return false;
    }
    let mut i: usize = 0;
    while i < b.len()
        invariant
            i <= b@.len() <= a@.len(),
            a@ == s@,
            b@ == prefix@,
            forall|j: int| 0 <= j < i ==> a@[j] == b@[j],
        decreases b@.len() - i,
    {
        if a[i] != b[i] {
            assert(s@.take(prefix@.len() as int)[i as int] != prefix@[i as int]);
            return false;
        }
        i = i + 1;
    }
    assert(s@.take(prefix@.len() as int) == prefix@);
    true
}

/// Whether `s` ends with `suffix`.
pub fn ends_with(s: &str, suffix: &str) -> (res: bool)
    ensures
        res == ends_with_spec(s@, suffix@),
{
    let a = crate::text::chars_of(s);
    let b = crate::text::chars_of(suffix);
    if b.len() > a.len() {
        return false;
    }
    let offset = a.len() - b.len();
    let mut i: usize = 0;
    while i < b.len()
        invariant
            i <= b@.len() <= a@.len(),
            offset == a@.len() - b@.len(),
            a@.len() <= usize::MAX,
            a@ == s@,
            b@ == suffix@,
            forall|j: int| 0 <= j < i ==> a@[offset + j] == b@[j],
        decreases b@.len() - i,
    {
        if a[offset + i] != b[i] {
            assert(s@.skip(offset as int)[i as int] != suffix@[i as int]);
            return false;
        }
        i = i + 1;
    }
    assert(s@.skip(offset as int) == suffix@);
    true
}

/// Whether a file name is a requirement definition: `要件定義_*.md`.
pub open spec fn is_requirement_definition_spec(name: Seq<char>) -> bool {
    starts_with_spec(name, "要件定義_"@) && ends_with_spec(name, ".md"@)
}

/// Whether a file name is a requirement definition: `要件定義_*.md`.
pub fn is_requirement_definition_name(name: &str) -> (res: bool)
    ensures
        res == is_requirement_definition_spec(name@),
{
    starts_with(name, "要件定義_") && ends_with(name, ".md")
}

/// The headline among the first lines of the requirement definitions (in file order):
/// the first that is not blank, trimmed.
pub open spec fn headline_spec(first_lines: Seq<Option<Seq<char>>>) -> Option<Seq<char>>
    decreases first_lines.len(),
{
    if first_lines.len() == 0 {
        None
    } else {
        match first_lines[0] {
            Some(line) => if trim_spec(line).len() != 0 {
                Some(trim_spec(line))
            } else {
                headline_spec(first_lines.drop_first())
            },
            None => headline_spec(first_lines.drop_first()),
        }
    }
}

/// The views of a list of optional lines.
pub open spec fn opt_line_views(v: Seq<Option<String>>) -> Seq<Option<Seq<char>>> {
    v.map_values(|o: Option<String>| opt_text_view(o))
}

/// Picks the headline from the first lines read from the requirement definitions, in
/// file order (`None` where a file could not be read or was empty).
pub fn requirement_headline_from_first_lines(first_lines: &Vec<Option<String>>) -> (res: Option<String>)
    ensures
        opt_text_view(res) == headline_spec(opt_line_views(first_lines@)),
{
    let mut i: usize = 0;
    assert(opt_line_views(first_lines@).skip(0) == opt_line_views(first_lines@));
    while i < first_lines.len()
        invariant
            i <= first_lines@.len(),
            headline_spec(opt_line_views(first_lines@)) == headline_spec(
                opt_line_views(first_lines@).skip(i as int),
            ),
        decreases first_lines@.len() - i,
    {
        assert(opt_line_views(first_lines@).skip(i as int).drop_first() == opt_line_views(
            first_lines@,
        ).skip(i + 1));
        assert(opt_line_views(first_lines@).skip(i as int)[0] == opt_text_view(first_lines@[i as int]));
        match &first_lines[i] {
            Some(line) => {
                let trimmed = crate::text::trim(line.as_str());
                if !trimmed.as_str().is_empty() {
                    return Some(trimmed);
                }
            },
            None => {},
        }
        i = i + 1;
    }
    None
}


/// Whether the texts are in code-point order.
pub open spec fn sorted_texts(s: Seq<Seq<char>>) -> bool {
    forall|i: int, j: int| 0 <= i < j < s.len() ==> text_le(#[trigger] s[i], #[trigger] s[j])
}

/// The requirement definitions among the file names, in the given order.
pub open spec fn requirement_definitions_spec(names: Seq<Seq<char>>) -> Seq<Seq<char>>
    decreases names.len(),
{
    if names.len() == 0 {
        Seq::empty()
    } else if is_requirement_definition_spec(names.last()) {
        requirement_definitions_spec(names.drop_last()).push(names.last())
    } else {
        requirement_definitions_spec(names.drop_last())
    }
}

/// The requirement definitions among the file names of a directory, sorted by name.
pub fn requirement_definition_files(names: &Vec<String>) -> (res: Vec<String>)
    ensures
        sorted_texts(views(res@)),
        views(res@).to_multiset() == requirement_definitions_spec(views(names@)).to_multiset(),
{
    let mut out: Vec<String> = Vec::new();
    let mut i: usize = 0;
    assert(views(out@) == Seq::<Seq<char>>::empty());
    assert(views(names@).take(0) == Seq::<Seq<char>>::empty());
    while i < names.len()
        invariant
            i <= names@.len(),
            sorted_texts(views(out@)),
            views(out@).to_multiset() == requirement_definitions_spec(
                views(names@).take(i as int),
            ).to_multiset(),
        decreases names@.len() - i,
    {
        assert(views(names@).take(i + 1).drop_last() == views(names@).take(i as int));
        assert(views(names@).take(i + 1).last() == names@[i as int]@);
        let name = &names[i];
        if is_requirement_definition_name(name.as_str()) {
            let mut p: usize = 0;
            while p < out.len() && text_le_exec(out[p].as_str(), name.as_str())
                invariant
                    p <= out@.len(),
                    sorted_texts(views(out@)),
                    forall|k: int| 0 <= k < p ==> text_le(#[trigger] views(out@)[k], name@),
                decreases out@.len() - p,
            {
                p = p + 1;
            }
            let ghost old_views = views(out@);
            proof {
                if p < out@.len() {
                    lemma_text_le_total(old_views[p as int], name@);
                }
                assert forall|k: int| p <= k < old_views.len() implies text_le(name@, #[trigger] old_views[k]) by {
                    lemma_text_le_total(old_views[p as int], name@);
                    if k > p {
                        lemma_text_le_trans(name@, old_views[p as int], old_views[k]);
                    }
                }
            }
            out.insert(p, name.clone());
            assert(views(out@) == old_views.insert(p as int, name@));
            proof {
                vstd::seq_lib::to_multiset_insert(old_views, p as int, name@);
                vstd::seq_lib::to_multiset_build(
                    requirement_definitions_spec(views(names@).take(i as int)),
                    name@,
                );
            }
            assert(requirement_definitions_spec(views(names@).take(i + 1)) == requirement_definitions_spec(
                views(names@).take(i as int),
            ).push(name@));
            assert forall|a: int, b: int| 0 <= a < b < views(out@).len() implies text_le(
                #[trigger] views(out@)[a],
                #[trigger] views(out@)[b],
            ) by {
                let s = views(out@);
                if b < p {
                    assert(s[a] == old_views[a] && s[b] == old_views[b]);
                } else if b == p {
                    assert(s[a] == old_views[a]);
                } else if a == p {
                    assert(s[b] == old_views[b - 1]);
                } else if a < p {
                    assert(s[a] == old_views[a] && s[b] == old_views[b - 1]);
                    lemma_text_le_trans(old_views[a], name@, old_views[b - 1]);
                } else {
                    assert(s[a] == old_views[a - 1] && s[b] == old_views[b - 1]);
                }
            }
        }
        i = i + 1;
    }
    assert(views(names@).take(names@.len() as int) == views(names@));
    out
}


/// The `.git` directory of `path`.
pub open spec fn git_dir_spec(path: Seq<char>, sep: char) -> Seq<char> {
    crate::paths::join_spec(path, ".git"@, sep)
}

/// Whether `path` holds a `.git` directory, asking `is_dir` (which looks at the file
/// system) about `git_dir_spec(path, sep)` and nothing else; the answer is `is_dir`'s.
pub fn is_git_repo<F: Fn(String) -> bool>(path: &str, sep: char, is_dir: &F) -> (res: bool)
    requires
        forall|p: String| call_requires(*is_dir, (p,)),
    ensures
        exists|p: String| p@ == git_dir_spec(path@, sep) && call_ensures(*is_dir, (p,), res),
{
    let git_dir = crate::paths::join(path, ".git", sep);
    let ghost asked = git_dir;
    let res = is_dir(git_dir);
    assert(asked@ == git_dir_spec(path@, sep) && call_ensures(*is_dir, (asked,), res));
    res
}

} // verus!
