//! Building Git events from what a webhook delivery carries.
use vstd::prelude::*;
use vstd::string::*;
use crate::models::{GitEvent, GitEventType, PullRequest, Repository};
use crate::text::starts_with;

verus! {

/// The rest of `s` after the prefix `p`, if `s` starts with it.
pub open spec fn after_prefix(s: Seq<char>, p: Seq<char>) -> Option<Seq<char>> {
    if p.len() <= s.len() && s.subrange(0, p.len() as int) == p {
        Some(s.subrange(p.len() as int, s.len() as int))
    } else {
        None
    }
}

fn strip_prefix(s: &str, p: &str) -> (r: Option<String>)
    ensures
        match r {
            Some(x) => after_prefix(s@, p@) == Some(x@),
            None => after_prefix(s@, p@) is None,
        },
{
    if starts_with(s, p) {
        let n = s.unicode_len();
        let k = p.unicode_len();
        Some(String::from_str(s.substring_char(k, n)))
    } else {
        None
    }
}

/// The branch that a Git ref names (`refs/heads/<branch>`).
pub open spec fn branch_of(r: Option<String>) -> Option<Seq<char>> {
    match r {
        Some(s) => after_prefix(s@, "refs/heads/"@),
        None => None,
    }
}

/// The tag that a Git ref names (`refs/tags/<tag>`).
pub open spec fn tag_of(r: Option<String>) -> Option<Seq<char>> {
    match r {
        Some(s) => after_prefix(s@, "refs/tags/"@),
        None => None,
    }
}

pub open spec fn opt_chars(o: Option<String>) -> Option<Seq<char>> {
    match o {
        Some(s) => Some(s@),
        None => None,
    }
}

fn ref_after(r: &Option<String>, p: &str) -> (x: Option<String>)
    ensures
        match r {
            Some(s) => opt_chars(x) == after_prefix(s@, p@),
            None => x is None,
        },
{
    match r {
        Some(s) => strip_prefix(s.as_str(), p),
        None => None,
    }
}

/// The event of a webhook delivery of kind `kind` (`push`, `pull_request`,
/// `create` or `delete`), or `None` for another kind. A push and a delete
/// carry the branch of their ref; a create of a `refs/tags/` ref is a tag
/// event with that tag, any other create a branch creation with the branch of
/// its ref; a pull request carries its details and no branch.
pub fn event_from_webhook(
    kind: &str,
    repository: Repository,
    ref_field: Option<String>,
    pull_request: Option<PullRequest>,
    head_commit: Option<String>,
    sender: String,
) -> (r: Option<GitEvent>)
    ensures
        kind@ == "push"@ ==> (r matches Some(e) && e.event_type == GitEventType::Push
            && opt_chars(e.branch) == branch_of(ref_field) && e.tag is None && e.pull_request is None
            && e.commit_sha == head_commit),
        kind@ == "pull_request"@ ==> (r matches Some(e) && e.event_type == GitEventType::PullRequest
            && e.branch is None && e.tag is None && e.pull_request == pull_request
            && e.commit_sha is None),
        kind@ == "create"@ ==> (r matches Some(e) && e.pull_request is None && e.commit_sha is None
            && if tag_of(ref_field) is Some {
            e.event_type == GitEventType::Tag && e.branch is None && opt_chars(e.tag) == tag_of(
                ref_field,
            )
        } else {
            e.event_type == GitEventType::BranchCreate && opt_chars(e.branch) == branch_of(ref_field)
                && e.tag is None
        }),
        kind@ == "delete"@ ==> (r matches Some(e) && e.event_type == GitEventType::BranchDelete
            && opt_chars(e.branch) == branch_of(ref_field) && e.tag is None && e.pull_request is None
            && e.commit_sha is None),
        r matches Some(e) ==> e.repository == repository && e.sender == sender,
        kind@ != "push"@ && kind@ != "pull_request"@ && kind@ != "create"@ && kind@ != "delete"@
            ==> r is None,
{
    proof {
        reveal_strlit("push");
        reveal_strlit("pull_request");
        reveal_strlit("create");
        reveal_strlit("delete");
        assert("push"@.len() != "pull_request"@.len());
        assert("push"@.len() != "create"@.len());
        assert("push"@.len() != "delete"@.len());
        assert("pull_request"@.len() != "create"@.len());
        assert("pull_request"@.len() != "delete"@.len());
        assert("create"@[0] != "delete"@[0]);
    }
    if crate::text::str_eq(kind, "push") {
        let branch = ref_after(&ref_field, "refs/heads/");
        Some(
            GitEvent {
                event_type: GitEventType::Push,
                repository,
                branch,
                tag: None,
                pull_request: None,
                commit_sha: head_commit,
                sender,
            },
        )
    } else if crate::text::str_eq(kind, "pull_request") {
        Some(
            GitEvent {
                event_type: GitEventType::PullRequest,
                repository,
                branch: None,
                tag: None,
                pull_request,
                commit_sha: None,
                sender,
            },
        )
    } else if crate::text::str_eq(kind, "create") {
        let tag = ref_after(&ref_field, "refs/tags/");
        if tag.is_some() {
            Some(
                GitEvent {
                    event_type: GitEventType::Tag,
                    repository,
                    branch: None,
                    tag,
                    pull_request: None,
                    commit_sha: None,
                    sender,
                },
            )
        } else {
            let branch = ref_after(&ref_field, "refs/heads/");
            Some(
                GitEvent {
                    event_type: GitEventType::BranchCreate,
                    repository,
                    branch,
                    tag: None,
                    pull_request: None,
                    commit_sha: None,
                    sender,
                },
            )
        }
    } else if crate::text::str_eq(kind, "delete") {
        let branch = ref_after(&ref_field, "refs/heads/");
        Some(
            GitEvent {
                event_type: GitEventType::BranchDelete,
                repository,
                branch,
                tag: None,
                pull_request: None,
                commit_sha: None,
                sender,
            },
        )
    } else {
        None
    }
}

} // verus!
