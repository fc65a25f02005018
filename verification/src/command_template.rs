//! The command sequence that rolls the selected repository back to the commit
//! before `HEAD`, prefixed with a commented description of the repository.
use crate::models::RepoSnapshot;
use crate::text::{bool_text, join_spec, lines_spec, trim_spec};
use vstd::prelude::*;
use vstd::string::*;

verus! {

/// The working tree status as shown in the header: `(clean)`, or its lines joined by ` | `.
pub open spec fn status_summary_spec(status_porcelain: Seq<char>) -> Seq<char> {
    if trim_spec(status_porcelain).len() == 0 {
        "(clean)"@
    } else {
        join_spec(lines_spec(status_porcelain), " | "@)
    }
}

/// The commented description of the repository.
pub open spec fn context_header_spec(snapshot: RepoSnapshot) -> Seq<char> {
    "# repo: "@ + snapshot.repo_path@ + "\n# branch: "@ + snapshot.current_branch@
        + "\n# head: "@ + snapshot.head_full_id@ + "\n# head_message: "@
        + snapshot.head_message@ + "\n# head_datetime: "@ + snapshot.head_datetime@
        + "\n# dirty: "@ + bool_text(snapshot.dirty) + "\n# status_porcelain: "@
        + status_summary_spec(snapshot.status_porcelain@) + "\n"@
}

/// The commented description of the repository, one `# key: value` line per field.
pub fn context_header(snapshot: &RepoSnapshot) -> (res: String)
    ensures
        res@ == context_header_spec(*snapshot),
{
    let trimmed = crate::text::trim(snapshot.status_porcelain.as_str());
    let status_porcelain = if trimmed.as_str().is_empty() {
        crate::text::owned("(clean)")
    } else {
        let lines = crate::text::lines(snapshot.status_porcelain.as_str());
        crate::text::join(&lines, " | ")
    };
    let mut out = crate::text::owned("# repo: ");
    out.append(snapshot.repo_path.as_str());
    out.append("\n# branch: ");
    out.append(snapshot.current_branch.as_str());
    out.append("\n# head: ");
    out.append(snapshot.head_full_id.as_str());
    out.append("\n# head_message: ");
    out.append(snapshot.head_message.as_str());
    out.append("\n# head_datetime: ");
    out.append(snapshot.head_datetime.as_str());
    out.append("\n# dirty: ");
    let dirty = crate::text::bool_string(snapshot.dirty);
    out.append(dirty.as_str());
    out.append("\n# status_porcelain: ");
    out.append(status_porcelain.as_str());
    out.append("\n");
    out
}

/// The header followed by the commands that check for a parent commit, reset the
/// branch to it and force-push the branch (name trimmed), then show the result.
pub open spec fn rollback_command_spec(snapshot: RepoSnapshot) -> Seq<char> {
    let repo = snapshot.repo_path@;
    let prefix = "git -C \""@ + repo + "\" "@;
    context_header_spec(snapshot) + prefix + "rev-parse --verify HEAD~1\n"@ + prefix
        + "rev-parse --abbrev-ref HEAD\n"@ + prefix + "reset --hard HEAD~1\n"@ + prefix
        + "push --force-with-lease origin "@ + trim_spec(snapshot.current_branch@) + "\n"@
        + prefix + "status --short\n"@ + prefix + "log --oneline -n 3"@
}

fn append_git_prefix(out: &mut String, repo: &str)
    ensures
        final(out)@ == old(out)@ + ("git -C \""@ + repo@ + "\" "@),
{
    out.append("git -C \"");
    out.append(repo);
    out.append("\" ");
    assert(final(out)@ == old(out)@ + ("git -C \""@ + repo@ + "\" "@));
}

/// The command sequence that moves the current branch back to `HEAD~1`.
pub fn build_previous_head_rollback_command(snapshot: &RepoSnapshot) -> (res: String)
    ensures
        res@ == rollback_command_spec(*snapshot),
{
    let repo = snapshot.repo_path.as_str();
    let branch = crate::text::trim(snapshot.current_branch.as_str());
    let mut out = context_header(snapshot);
    append_git_prefix(&mut out, repo);
    out.append("rev-parse --verify HEAD~1\n");
    append_git_prefix(&mut out, repo);
    out.append("rev-parse --abbrev-ref HEAD\n");
    append_git_prefix(&mut out, repo);
    out.append("reset --hard HEAD~1\n");
    append_git_prefix(&mut out, repo);
    out.append("push --force-with-lease origin ");
    out.append(branch.as_str());
    out.append("\n");
    append_git_prefix(&mut out, repo);
    out.append("status --short\n");
    append_git_prefix(&mut out, repo);
    out.append("log --oneline -n 3");
    out
}

} // verus!
