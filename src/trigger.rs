//! Deciding whether a Git event starts a pipeline.
use vstd::prelude::*;
use crate::models::{GitEvent, GitEventType, GitTriggers, GitTriggersView};
use crate::text::{starts_with, str_eq};

verus! {

/// Whether one branch pattern matches a branch: `"*"` matches every branch,
/// a pattern `"prefix/*"` matches every branch that starts with `"prefix/"`,
/// and any other pattern matches itself.
pub open spec fn pattern_matches(p: Seq<char>, b: Seq<char>) -> bool {
    ||| p == "*"@
    ||| p == b
    ||| (p.len() >= 2 && p.subrange(p.len() - 2, p.len() as int) == "/*"@ && b.len() >= p.len() - 1
        && b.subrange(0, p.len() - 1) == p.subrange(0, p.len() - 1))
}

/// Whether some pattern of the list matches the branch (never, for an empty
/// list).
pub open spec fn branch_allowed(patterns: Seq<Seq<char>>, b: Seq<char>) -> bool {
    exists|i: int| 0 <= i < patterns.len() && pattern_matches(#[trigger] patterns[i], b)
}

/// The flag of `t` that belongs to the event kind `k`.
pub open spec fn flag_for(t: GitTriggersView, k: GitEventType) -> bool {
    match k {
        GitEventType::Push => t.on_push,
        GitEventType::PullRequest => t.on_pull_request,
        GitEventType::Merge => t.on_merge,
        GitEventType::Tag => t.on_tag,
        GitEventType::Release => t.on_release,
        GitEventType::BranchCreate => t.on_branch_create,
        GitEventType::BranchDelete => t.on_branch_delete,
    }
}

/// Whether the triggers `t` start a pipeline for an event of kind `k` with
/// the given branch and tag: the kind's flag must be set; then a branch must
/// be allowed by the patterns, an event with a tag and no branch needs the
/// tag flag, and an event with neither passes.
pub open spec fn event_matches(
    t: GitTriggersView,
    k: GitEventType,
    branch: Option<Seq<char>>,
    has_tag: bool,
) -> bool {
    &&& flag_for(t, k)
    &&& match branch {
        Some(b) => branch_allowed(t.branches, b),
        None => if has_tag {
            t.on_tag
        } else {
            true
        },
    }
}

/// The view of an optional string.
pub open spec fn opt_view(o: Option<String>) -> Option<Seq<char>> {
    match o {
        Some(s) => Some(s@),
        None => None,
    }
}

/// Whether `e` starts a pipeline with the triggers `t`.
pub open spec fn triggers_event(t: GitTriggersView, e: GitEvent) -> bool {
    event_matches(t, e.event_type, opt_view(e.branch), e.tag is Some)
}

/// Whether the pattern `p` matches the branch `b`.
fn pattern_matches_exec(p: &String, b: &str) -> (r: bool)
    ensures
        r == pattern_matches(p@, b@),
{
    if str_eq(p.as_str(), "*") {
        return true;
    }
    if str_eq(p.as_str(), b) {
        return true;
    }
    let pc = crate::text::chars_of(p.as_str());
    let n = pc.len();
    if n >= 2 && pc[n - 2] == '/' && pc[n - 1] == '*' {
        proof {
            reveal_strlit("/*");
            assert(p@.subrange(n - 2, n as int) == "/*"@);
        }
        let prefix = p.as_str().substring_char(0, n - 1);
        return starts_with(b, prefix);
    }
    proof {
        reveal_strlit("/*");
        if n >= 2 {
            assert(p@.subrange(n - 2, n as int)[0] == p@[n - 2]);
            assert(p@.subrange(n - 2, n as int)[1] == p@[n - 1]);
        }
    }
    false
}

impl GitTriggers {
    /// Whether the Git event should start the pipeline.
    pub fn matches(&self, event: &GitEvent) -> (r: bool)
        ensures
            r == triggers_event(self@, *event),
    {
        let event_matches = match event.event_type {
            GitEventType::Push => self.on_push,
            GitEventType::PullRequest => self.on_pull_request,
            GitEventType::Merge => self.on_merge,
            GitEventType::Tag => self.on_tag,
            GitEventType::Release => self.on_release,
            GitEventType::BranchCreate => self.on_branch_create,
            GitEventType::BranchDelete => self.on_branch_delete,
        };
        if !event_matches {
            return false;
        }
        match &event.branch {
            Some(branch) => self.matches_branch(branch.as_str()),
            None => if event.tag.is_some() {
                self.on_tag
            } else {
                true
            },
        }
    }

    /// Whether some branch pattern matches `branch`.
    pub fn matches_branch(&self, branch: &str) -> (r: bool)
        ensures
            r == branch_allowed(self@.branches, branch@),
    {
        if self.branches.len() == 0 {
            return false;
        }
        let mut i: usize = 0;
        while i < self.branches.len()
            invariant
                i <= self.branches.len(),
                forall|j: int| 0 <= j < i ==> !pattern_matches(#[trigger] self@.branches[j], branch@),
            decreases self.branches.len() - i,
        {
            if pattern_matches_exec(&self.branches[i], branch) {
                assert(self@.branches[i as int] == self.branches@[i as int]@);
                return true;
            }
            assert(self@.branches[i as int] == self.branches@[i as int]@);
            i = i + 1;
        }
        false
    }
}

} // verus!
