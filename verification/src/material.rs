//! Hand-off material about the selected repository, as text and as JSON.
//!
//! The detailed material must stay within a byte limit in both renderings.  When
//! the full material is too large, the git output is replaced by a marker and the
//! list of changed files is shortened one entry at a time; as a last resort the
//! list is replaced by a count.  Producing the JSON rendering of a candidate is left
//! to the caller, which hands it back; every decision is made here.
use crate::models::{commit_views, CommitInfo, CommitView, RepoSnapshot};
use crate::paths::DETAILED_OUTPUT_LIMIT_BYTES;
use crate::text::{bool_text, decimal_spec, join_spec, views};
use vstd::prelude::*;
use vstd::string::*;
use vstd::utf8::*;

verus! {

/// Stands in for git output that did not fit.
pub const OMITTED_TEXT: &'static str = "(省略: 200KB制限超過のため変更ファイル一覧のみ出力)";

/// The rendered material.
#[derive(Debug)]
pub struct MaterialOutput {
    pub text: String,
    pub json: String,
    pub omitted_due_to_size: bool,
}

/// The summary of the repository that both kinds of material start with.
#[derive(Debug)]
pub struct MinimalMaterial {
    pub repo_path: String,
    pub current_branch: String,
    pub head_full_id: String,
    pub head_message: String,
    pub head_datetime: String,
    pub target_full_id: String,
    pub dirty: bool,
    pub status_porcelain: String,
    pub recent_commits: Vec<CommitInfo>,
}

/// What `git` reported for the detailed material.
#[derive(Debug)]
pub struct DetailedGitData {
    pub status_full: String,
    pub diff_unstaged: String,
    pub diff_staged: String,
    pub diff_target_to_head: String,
    pub changed_files: Vec<String>,
}

/// The detailed material.
#[derive(Debug)]
pub struct DetailedMaterial {
    pub minimal: MinimalMaterial,
    pub git_status: String,
    pub git_diff_unstaged: String,
    pub git_diff_staged: String,
    pub git_diff_target_to_head: String,
    pub omitted_due_to_size: bool,
    pub changed_files: Vec<String>,
    pub changed_file_count: usize,
}

/// Whether the minimal material copies `snapshot` and names `target`.
pub open spec fn minimal_of(m: MinimalMaterial, snapshot: RepoSnapshot, target: Seq<char>) -> bool {
    &&& m.repo_path@ == snapshot.repo_path@
    &&& m.current_branch@ == snapshot.current_branch@
    &&& m.head_full_id@ == snapshot.head_full_id@
    &&& m.head_message@ == snapshot.head_message@
    &&& m.head_datetime@ == snapshot.head_datetime@
    &&& m.target_full_id@ == target
    &&& m.dirty == snapshot.dirty
    &&& m.status_porcelain@ == snapshot.status_porcelain@
    &&& m.recent_commits@ == snapshot.recent_commits@
}

/// Whether two minimal materials hold the same values.
pub open spec fn same_minimal(a: MinimalMaterial, b: MinimalMaterial) -> bool {
    &&& a.repo_path@ == b.repo_path@
    &&& a.current_branch@ == b.current_branch@
    &&& a.head_full_id@ == b.head_full_id@
    &&& a.head_message@ == b.head_message@
    &&& a.head_datetime@ == b.head_datetime@
    &&& a.target_full_id@ == b.target_full_id@
    &&& a.dirty == b.dirty
    &&& a.status_porcelain@ == b.status_porcelain@
    &&& a.recent_commits@ == b.recent_commits@
}

/// Copies the summary out of a snapshot.
pub fn build_minimal(snapshot: &RepoSnapshot, target_full_id: &str) -> (res: MinimalMaterial)
    ensures
        minimal_of(res, *snapshot, target_full_id@),
{
    MinimalMaterial {
        repo_path: snapshot.repo_path.clone(),
        current_branch: snapshot.current_branch.clone(),
        head_full_id: snapshot.head_full_id.clone(),
        head_message: snapshot.head_message.clone(),
        head_datetime: snapshot.head_datetime.clone(),
        target_full_id: crate::text::owned(target_full_id),
        dirty: snapshot.dirty,
        status_porcelain: snapshot.status_porcelain.clone(),
        recent_commits: crate::models::clone_commits(&snapshot.recent_commits),
    }
}

fn clone_minimal(m: &MinimalMaterial) -> (res: MinimalMaterial)
    ensures
        same_minimal(res, *m),
{
    MinimalMaterial {
        repo_path: m.repo_path.clone(),
        current_branch: m.current_branch.clone(),
        head_full_id: m.head_full_id.clone(),
        head_message: m.head_message.clone(),
        head_datetime: m.head_datetime.clone(),
        target_full_id: m.target_full_id.clone(),
        dirty: m.dirty,
        status_porcelain: m.status_porcelain.clone(),
        recent_commits: crate::models::clone_commits(&m.recent_commits),
    }
}

/// One line per listed commit: `- <time> | <short id> | <subject> | <id>`.
pub open spec fn commit_lines(commits: Seq<CommitView>) -> Seq<Seq<char>> {
    commits.map_values(
        |c: CommitView|
            "- "@ + c.datetime + " | "@ + c.short_id + " | "@ + c.subject + " | "@ + c.full_id,
    )
}

/// The lines of the minimal material.
pub open spec fn minimal_lines(m: MinimalMaterial) -> Seq<Seq<char>> {
    seq![
        "repo_path: "@ + m.repo_path@,
        "current_branch: "@ + m.current_branch@,
        "head_full_id: "@ + m.head_full_id@,
        "head_message: "@ + m.head_message@,
        "head_datetime: "@ + m.head_datetime@,
        "target_full_id: "@ + m.target_full_id@,
        "dirty: "@ + bool_text(m.dirty),
        "status_porcelain:"@,
        m.status_porcelain@,
        "recent_commits:"@,
    ] + commit_lines(commit_views(m.recent_commits@))
}

/// The text rendering of the minimal material.
pub open spec fn minimal_text_spec(m: MinimalMaterial) -> Seq<char> {
    join_spec(minimal_lines(m), "\n"@)
}

fn push_line(lines: &mut Vec<String>, line: String)
    ensures
        views(final(lines)@) == views(old(lines)@).push(line@),
{
    lines.push(line);
    assert(views(final(lines)@) == views(old(lines)@).push(line@));
}

fn labelled(label: &str, value: &str) -> (res: String)
    ensures
        res@ == label@ + value@,
{
    let mut out = crate::text::owned(label);
    out.append(value);
    out
}

/// Renders the minimal material as text.
pub fn render_minimal_text(material: &MinimalMaterial) -> (res: String)
    ensures
        res@ == minimal_text_spec(*material),
{
    let mut lines: Vec<String> = Vec::new();
    assert(views(lines@) == Seq::<Seq<char>>::empty());
    push_line(&mut lines, labelled("repo_path: ", material.repo_path.as_str()));
    push_line(&mut lines, labelled("current_branch: ", material.current_branch.as_str()));
    push_line(&mut lines, labelled("head_full_id: ", material.head_full_id.as_str()));
    push_line(&mut lines, labelled("head_message: ", material.head_message.as_str()));
    push_line(&mut lines, labelled("head_datetime: ", material.head_datetime.as_str()));
    push_line(&mut lines, labelled("target_full_id: ", material.target_full_id.as_str()));
    let dirty = crate::text::bool_string(material.dirty);
    push_line(&mut lines, labelled("dirty: ", dirty.as_str()));
    push_line(&mut lines, crate::text::owned("status_porcelain:"));
    push_line(&mut lines, material.status_porcelain.clone());
    push_line(&mut lines, crate::text::owned("recent_commits:"));
    let ghost head = views(lines@);
    let commits = &material.recent_commits;
    let mut i: usize = 0;
    while i < commits.len()
        invariant
            i <= commits@.len(),
            commits@ == material.recent_commits@,
            views(lines@) == head + commit_lines(commit_views(commits@)).take(i as int),
        decreases commits@.len() - i,
    {
        let c = &commits[i];
        let mut line = crate::text::owned("- ");
        line.append(c.datetime.as_str());
        line.append(" | ");
        line.append(c.short_id.as_str());
        line.append(" | ");
        line.append(c.subject.as_str());
        line.append(" | ");
        line.append(c.full_id.as_str());
        push_line(&mut lines, line);
        assert(commit_lines(commit_views(commits@)).take(i + 1) == commit_lines(
            commit_views(commits@),
        ).take(i as int).push(line@));
        i = i + 1;
    }
    assert(commit_lines(commit_views(commits@)).take(commits@.len() as int) == commit_lines(
        commit_views(commits@),
    ));
    assert(head == seq![
        "repo_path: "@ + material.repo_path@,
        "current_branch: "@ + material.current_branch@,
        "head_full_id: "@ + material.head_full_id@,
        "head_message: "@ + material.head_message@,
        "head_datetime: "@ + material.head_datetime@,
        "target_full_id: "@ + material.target_full_id@,
        "dirty: "@ + bool_text(material.dirty),
        "status_porcelain:"@,
        material.status_porcelain@,
        "recent_commits:"@,
    ]);
    crate::text::join(&lines, "\n")
}

/// The lines listing the changed files: `- <file>` each, or `(none)`.
pub open spec fn file_lines(files: Seq<Seq<char>>) -> Seq<Seq<char>> {
    if files.len() == 0 {
        seq!["(none)"@]
    } else {
        files.map_values(|f: Seq<char>| "- "@ + f)
    }
}

/// The text rendering of the detailed material.
pub open spec fn detailed_text_spec(d: DetailedMaterial) -> Seq<char> {
    join_spec(
        seq![
            minimal_text_spec(d.minimal),
            "omitted_due_to_size: "@ + bool_text(d.omitted_due_to_size),
            "changed_file_count: "@ + decimal_spec(d.changed_file_count as nat),
            "changed_files:"@,
        ] + file_lines(views(d.changed_files@)) + seq![
            "git_status:"@,
            d.git_status@,
            "git_diff_unstaged:"@,
            d.git_diff_unstaged@,
            "git_diff_staged:"@,
            d.git_diff_staged@,
            "git_diff_target_to_head:"@,
            d.git_diff_target_to_head@,
        ],
        "\n"@,
    )
}

/// Renders the detailed material as text.
pub fn render_detailed_text(material: &DetailedMaterial) -> (res: String)
    ensures
        res@ == detailed_text_spec(*material),
{
    let mut lines: Vec<String> = Vec::new();
    assert(views(lines@) == Seq::<Seq<char>>::empty());
    push_line(&mut lines, render_minimal_text(&material.minimal));
    let omitted = crate::text::bool_string(material.omitted_due_to_size);
    push_line(&mut lines, labelled("omitted_due_to_size: ", omitted.as_str()));
    let count = crate::text::decimal(material.changed_file_count as u64);
    push_line(&mut lines, labelled("changed_file_count: ", count.as_str()));
    push_line(&mut lines, crate::text::owned("changed_files:"));
    let ghost head = views(lines@);
    assert(head == seq![
        minimal_text_spec(material.minimal),
        "omitted_due_to_size: "@ + bool_text(material.omitted_due_to_size),
        "changed_file_count: "@ + decimal_spec(material.changed_file_count as nat),
        "changed_files:"@,
    ]);
    let files = &material.changed_files;
    if files.len() == 0 {
        push_line(&mut lines, crate::text::owned("(none)"));
        assert(views(lines@) == head + file_lines(views(material.changed_files@)));
    } else {
        let mut i: usize = 0;
        while i < files.len()
            invariant
                i <= files@.len(),
                files@.len() > 0,
                files@ == material.changed_files@,
                views(lines@) == head + views(files@).map_values(|f: Seq<char>| "- "@ + f).take(
                    i as int,
                ),
            decreases files@.len() - i,
        {
            let line = labelled("- ", files[i].as_str());
            push_line(&mut lines, line);
            assert(views(files@).map_values(|f: Seq<char>| "- "@ + f).take(i + 1) == views(
                files@,
            ).map_values(|f: Seq<char>| "- "@ + f).take(i as int).push(line@));
            i = i + 1;
        }
        assert(views(files@).map_values(|f: Seq<char>| "- "@ + f).take(files@.len() as int)
            == views(files@).map_values(|f: Seq<char>| "- "@ + f));
        assert(views(lines@) == head + file_lines(views(material.changed_files@)));
    }
    let ghost middle = views(lines@);
    push_line(&mut lines, crate::text::owned("git_status:"));
    push_line(&mut lines, material.git_status.clone());
    push_line(&mut lines, crate::text::owned("git_diff_unstaged:"));
    push_line(&mut lines, material.git_diff_unstaged.clone());
    push_line(&mut lines, crate::text::owned("git_diff_staged:"));
    push_line(&mut lines, material.git_diff_staged.clone());
    push_line(&mut lines, crate::text::owned("git_diff_target_to_head:"));
    push_line(&mut lines, material.git_diff_target_to_head.clone());
    assert(views(lines@) == middle + seq![
        "git_status:"@,
        material.git_status@,
        "git_diff_unstaged:"@,
        material.git_diff_unstaged@,
        "git_diff_staged:"@,
        material.git_diff_staged@,
        "git_diff_target_to_head:"@,
        material.git_diff_target_to_head@,
    ]);
    crate::text::join(&lines, "\n")
}

/// The number of bytes of `text` in UTF-8 (as a `usize`: a string held in memory has
/// fewer bytes than `usize::MAX`).
pub open spec fn utf8_len_spec(text: Seq<char>) -> usize {
    encode_utf8(text).len() as usize
}

/// The number of bytes of `content` in UTF-8.
pub fn utf8_len(content: &str) -> (res: usize)
    ensures
        res == utf8_len_spec(content@),
{
    content.len()
}

/// Whether a rendering stays within the byte limit.
pub open spec fn within_limit_spec(text: Seq<char>) -> bool {
    utf8_len_spec(text) <= DETAILED_OUTPUT_LIMIT_BYTES
}

/// Whether a rendering stays within the byte limit.
pub fn within_limit(content: &str) -> (res: bool)
    ensures
        res == within_limit_spec(content@),
{
    utf8_len(content) <= DETAILED_OUTPUT_LIMIT_BYTES
}


/// Where the search for a rendering within the limit stands.
#[derive(Debug, Clone, Copy, PartialEq, Eq, Structural)]
pub enum DetailedPhase {
    /// The candidate is the full material.
    Full,
    /// Git output is replaced by the marker and only the first `visible` changed
    /// files are listed, followed by how many were left out.
    Shrinking { visible: usize },
    /// Git output is replaced by the marker and the list by the number of files.
    ListOmitted,
}

/// The search for a detailed material whose renderings stay within the limit.
/// `candidate` is the material whose JSON rendering the caller produces next.
#[derive(Debug)]
pub struct DetailedGeneration {
    pub candidate: DetailedMaterial,
    pub all_files: Vec<String>,
    pub phase: DetailedPhase,
}

/// What the caller does next.
#[derive(Debug)]
pub enum GenerationStep {
    /// Render `candidate` as JSON and call `advance` with the result.
    Serialize,
    /// The search is over.
    Finished(Result<MaterialOutput, String>),
}

/// `... <k> files omitted`.
pub open spec fn omission_line(k: nat) -> Seq<char> {
    "... "@ + decimal_spec(k) + " files omitted"@
}

/// `<n> files changed (list omitted)`.
pub open spec fn count_line(n: nat) -> Seq<char> {
    decimal_spec(n) + " files changed (list omitted)"@
}

/// The first `visible` files, followed by how many were left out when any were.
pub open spec fn shrunk_files(all: Seq<Seq<char>>, visible: nat) -> Seq<Seq<char>> {
    if all.len() > visible {
        all.take(visible as int).push(omission_line((all.len() - visible) as nat))
    } else {
        all.take(visible as int)
    }
}

/// Whether every git text of `d` is the marker.
pub open spec fn git_output_omitted(d: DetailedMaterial) -> bool {
    &&& d.git_status@ == OMITTED_TEXT@
    &&& d.git_diff_unstaged@ == OMITTED_TEXT@
    &&& d.git_diff_staged@ == OMITTED_TEXT@
    &&& d.git_diff_target_to_head@ == OMITTED_TEXT@
}

impl DetailedGeneration {
    /// The candidate agrees with the phase.
    pub open spec fn wf(self) -> bool {
        &&& self.candidate.changed_file_count == self.all_files@.len()
        &&& match self.phase {
            DetailedPhase::Full => !self.candidate.omitted_due_to_size && views(
                self.candidate.changed_files@,
            ) == views(self.all_files@),
            DetailedPhase::Shrinking { visible } => {
                &&& visible <= self.all_files@.len()
                &&& self.candidate.omitted_due_to_size
                &&& git_output_omitted(self.candidate)
                &&& views(self.candidate.changed_files@) == shrunk_files(
                    views(self.all_files@),
                    visible as nat,
                )
            },
            DetailedPhase::ListOmitted => {
                &&& self.candidate.omitted_due_to_size
                &&& git_output_omitted(self.candidate)
                &&& views(self.candidate.changed_files@) == seq![
                    count_line(self.all_files@.len()),
                ]
            },
        }
    }

    /// How many renderings the search asks for at most from here.
    pub open spec fn remaining(self) -> nat {
        match self.phase {
            DetailedPhase::Full => self.all_files@.len() + 2,
            DetailedPhase::Shrinking { visible } => visible as nat + 1,
            DetailedPhase::ListOmitted => 0,
        }
    }
}

fn omitted_text() -> (res: String)
    ensures
        res@ == OMITTED_TEXT@,
{
    crate::text::owned(OMITTED_TEXT)
}

/// Starts the search with the full material for `snapshot`, `target_full_id` and the
/// git output in `git_data`.
pub fn generate_detailed(snapshot: &RepoSnapshot, target_full_id: &str, git_data: DetailedGitData) -> (res: DetailedGeneration)
    ensures
        res.wf(),
        res.phase == DetailedPhase::Full,
        minimal_of(res.candidate.minimal, *snapshot, target_full_id@),
        res.candidate.git_status@ == git_data.status_full@,
        res.candidate.git_diff_unstaged@ == git_data.diff_unstaged@,
        res.candidate.git_diff_staged@ == git_data.diff_staged@,
        res.candidate.git_diff_target_to_head@ == git_data.diff_target_to_head@,
        views(res.all_files@) == views(git_data.changed_files@),
{
    let minimal = build_minimal(snapshot, target_full_id);
    let all_files = clone_strings(&git_data.changed_files);
    let count = git_data.changed_files.len();
    assert(views(all_files@).len() == all_files@.len());
    assert(views(git_data.changed_files@).len() == git_data.changed_files@.len());
    let candidate = DetailedMaterial {
        minimal,
        git_status: git_data.status_full,
        git_diff_unstaged: git_data.diff_unstaged,
        git_diff_staged: git_data.diff_staged,
        git_diff_target_to_head: git_data.diff_target_to_head,
        omitted_due_to_size: false,
        changed_files: git_data.changed_files,
        changed_file_count: count,
    };
    DetailedGeneration { candidate, all_files, phase: DetailedPhase::Full }
}

/// A copy of a list of strings.
pub fn clone_strings(v: &Vec<String>) -> (res: Vec<String>)
    ensures
        views(res@) == views(v@),
{
    let mut out: Vec<String> = Vec::new();
    let mut i: usize = 0;
    while i < v.len()
        invariant
            i <= v@.len(),
            views(out@) == views(v@).take(i as int),
        decreases v@.len() - i,
    {
        let item = v[i].clone();
        out.push(item);
        assert(views(out@) == views(v@).take(i as int).push(item@));
        assert(views(v@).take(i + 1) == views(v@).take(i as int).push(v@[i as int]@));
        i = i + 1;
    }
    assert(views(v@).take(v@.len() as int) == views(v@));
    out
}

/// The first `visible` files followed by how many were left out.
fn shrunk_file_list(all: &Vec<String>, visible: usize) -> (res: Vec<String>)
    requires
        visible <= all@.len(),
    ensures
        views(res@) == shrunk_files(views(all@), visible as nat),
{
    let mut out: Vec<String> = Vec::new();
    let mut i: usize = 0;
    while i < visible
        invariant
            i <= visible <= all@.len(),
            views(out@) == views(all@).take(i as int),
        decreases visible - i,
    {
        let item = all[i].clone();
        out.push(item);
        assert(views(out@) == views(all@).take(i as int).push(item@));
        assert(views(all@).take(i + 1) == views(all@).take(i as int).push(all@[i as int]@));
        i = i + 1;
    }
    if all.len() > visible {
        let omitted = all.len() - visible;
        let digits = crate::text::decimal(omitted as u64);
        let mut line = crate::text::owned("... ");
        line.append(digits.as_str());
        line.append(" files omitted");
        let ghost before = views(out@);
        out.push(line);
        assert(views(out@) == before.push(line@));
    }
    out
}

/// The finished output for a candidate rendered as `text` and `json`.
fn finish(text: String, json: String, omitted: bool) -> (res: GenerationStep)
    ensures
        res matches GenerationStep::Finished(Ok(out)) && out.text@ == text@ && out.json@ == json@
            && out.omitted_due_to_size == omitted,
{
    GenerationStep::Finished(Ok(MaterialOutput { text, json, omitted_due_to_size: omitted }))
}

impl DetailedGeneration {
    /// Takes the JSON rendering of `candidate` (or the serializer's message) and decides:
    /// the candidate is accepted when both its renderings stay within the limit (or,
    /// after the list was replaced by the count, in any case); otherwise the next,
    /// smaller candidate is prepared.
    pub fn advance(&mut self, json: Result<String, String>) -> (res: GenerationStep)
        requires
            old(self).wf(),
        ensures
            json is Err ==> (res matches GenerationStep::Finished(Err(m)) && m@
                == "json serialize failed: "@ + json->Err_0@),
            json is Ok ==> ({
                let text = detailed_text_spec(old(self).candidate);
                let fits = within_limit_spec(text) && within_limit_spec(json->Ok_0@);
                &&& (res is Finished) == (fits || old(self).phase == DetailedPhase::ListOmitted)
                &&& res matches GenerationStep::Finished(r) ==> (r matches Ok(out) && out.text@
                    == text && out.json@ == json->Ok_0@ && out.omitted_due_to_size == (
                old(self).phase != DetailedPhase::Full))
                &&& res is Serialize ==> {
                    &&& final(self).wf()
                    &&& final(self).remaining() < old(self).remaining()
                    &&& same_minimal(final(self).candidate.minimal, old(self).candidate.minimal)
                    &&& views(final(self).all_files@) == views(old(self).all_files@)
                    &&& final(self).phase == match old(self).phase {
                        DetailedPhase::Full => DetailedPhase::Shrinking {
                            visible: old(self).all_files@.len() as usize,
                        },
                        DetailedPhase::Shrinking { visible } => if visible > 0 {
                            DetailedPhase::Shrinking { visible: (visible - 1) as usize }
                        } else {
                            DetailedPhase::ListOmitted
                        },
                        DetailedPhase::ListOmitted => DetailedPhase::ListOmitted,
                    }
                }
            }),
    {
        let json = match json {
            Ok(j) => j,
            Err(e) => {
                let mut m = crate::text::owned("json serialize failed: ");
                m.append(e.as_str());
                return GenerationStep::Finished(Err(m));
            },
        };
        let text = render_detailed_text(&self.candidate);
        let fits = within_limit(text.as_str()) && within_limit(json.as_str());
        match self.phase {
            DetailedPhase::Full => {
                if fits {
                    return finish(text, json, false);
                }
                let n = self.all_files.len();
                let minimal = clone_minimal(&self.candidate.minimal);
                let files = shrunk_file_list(&self.all_files, n);
                assert(views(self.all_files@).take(n as int) == views(self.all_files@));
                self.candidate = DetailedMaterial {
                    minimal,
                    git_status: omitted_text(),
                    git_diff_unstaged: omitted_text(),
                    git_diff_staged: omitted_text(),
                    git_diff_target_to_head: omitted_text(),
                    omitted_due_to_size: true,
                    changed_files: files,
                    changed_file_count: n,
                };
                self.phase = DetailedPhase::Shrinking { visible: n };
                GenerationStep::Serialize
            },
            DetailedPhase::Shrinking { visible } => {
                if fits {
                    return finish(text, json, true);
                }
                if visible > 0 {
                    let files = shrunk_file_list(&self.all_files, visible - 1);
                    self.candidate.changed_files = files;
                    self.phase = DetailedPhase::Shrinking { visible: visible - 1 };
                } else {
                    let n = self.all_files.len();
                    let digits = crate::text::decimal(n as u64);
                    let mut line = digits;
                    line.append(" files changed (list omitted)");
                    let mut files: Vec<String> = Vec::new();
                    files.push(line);
                    assert(views(files@) == seq![line@]);
                    self.candidate.changed_files = files;
                    self.phase = DetailedPhase::ListOmitted;
                }
                GenerationStep::Serialize
            },
            DetailedPhase::ListOmitted => finish(text, json, true),
        }
    }
}

} // verus!
