//! Text that the command-line client shows or sends.
use vstd::prelude::*;
use vstd::string::*;
use crate::models::{PipelineStatus, StepStatus};
use crate::text::{chars_of, starts_with};

verus! {

/// The label of a pipeline status.
pub open spec fn status_label(s: PipelineStatus) -> Seq<char> {
    match s {
        PipelineStatus::Pending => "PENDING"@,
        PipelineStatus::Running => "RUNNING"@,
        PipelineStatus::Success => "SUCCESS"@,
        PipelineStatus::Failed => "FAILED"@,
        PipelineStatus::Cancelled => "CANCELLED"@,
        PipelineStatus::Skipped => "SKIPPED"@,
    }
}

/// The label of a step status.
pub open spec fn step_status_label(s: StepStatus) -> Seq<char> {
    match s {
        StepStatus::Pending => "PENDING"@,
        StepStatus::Running => "RUNNING"@,
        StepStatus::Success => "SUCCESS"@,
        StepStatus::Failed => "FAILED"@,
        StepStatus::Skipped => "SKIPPED"@,
    }
}

pub fn format_status(status: PipelineStatus) -> (r: &'static str)
    ensures
        r@ == status_label(status),
{
    match status {
        PipelineStatus::Pending => "PENDING",
        PipelineStatus::Running => "RUNNING",
        PipelineStatus::Success => "SUCCESS",
        PipelineStatus::Failed => "FAILED",
        PipelineStatus::Cancelled => "CANCELLED",
        PipelineStatus::Skipped => "SKIPPED",
    }
}

pub fn format_step_status(step_status: StepStatus) -> (r: &'static str)
    ensures
        r@ == step_status_label(step_status),
{
    match step_status {
        StepStatus::Pending => "PENDING",
        StepStatus::Running => "RUNNING",
        StepStatus::Success => "SUCCESS",
        StepStatus::Failed => "FAILED",
        StepStatus::Skipped => "SKIPPED",
    }
}

/// The text without every trailing `.git`.
pub open spec fn strip_git_suffixes(t: Seq<char>) -> Seq<char>
    decreases t.len(),
{
    if t.len() >= 4 && t.subrange(t.len() - 4, t.len() as int) == ".git"@ {
        strip_git_suffixes(t.subrange(0, t.len() - 4))
    } else {
        t
    }
}

/// The index of the last `c` before `j`, or -1.
pub open spec fn last_before(t: Seq<char>, c: char, j: int) -> int
    decreases j,
{
    if j <= 0 || j > t.len() {
        -1
    } else if t[j - 1] == c {
        j - 1
    } else {
        last_before(t, c, j - 1)
    }
}

/// A repository URL (`http://` or `https://`) in `owner/repo` form: the last
/// two `/`-separated segments, once every trailing `.git` is gone (one
/// segment alone when only one `/` is left). Any other text is already an
/// identifier and stays as it is, as does a URL with no `/` left.
pub open spec fn repo_identifier(repo: Seq<char>) -> Seq<char> {
    if (repo.len() >= 7 && repo.subrange(0, 7) == "http://"@) || (repo.len() >= 8 && repo.subrange(0, 8)
        == "https://"@) {
        let t = strip_git_suffixes(repo);
        let last = last_before(t, '/', t.len() as int);
        let prev = last_before(t, '/', last);
        if last < 0 {
            repo
        } else {
            t.subrange(prev + 1, last) + "/"@ + t.subrange(last + 1, t.len() as int)
        }
    } else {
        repo
    }
}

proof fn lemma_last_before_range(t: Seq<char>, c: char, j: int)
    ensures
        -1 <= last_before(t, c, j) < j || (j <= 0 && last_before(t, c, j) == -1) || (j > t.len()
            && last_before(t, c, j) == -1),
        last_before(t, c, j) >= 0 ==> t[last_before(t, c, j)] == c,
    decreases j,
{
    if j > 0 && j <= t.len() && t[j - 1] != c {
        lemma_last_before_range(t, c, j - 1);
    }
}

/// `last_before` computed over the characters `v`.
fn last_before_x(v: &Vec<char>, c: char, j: usize) -> (r: Option<usize>)
    requires
        j <= v.len(),
    ensures
        match r {
            Some(k) => last_before(v@, c, j as int) == k as int,
            None => last_before(v@, c, j as int) == -1,
        },
{
    let mut k = j;
    while k > 0
        invariant
            k <= j <= v.len(),
            last_before(v@, c, j as int) == last_before(v@, c, k as int),
        decreases k,
    {
        if v[k - 1] == c {
            return Some(k - 1);
        }
        k = k - 1;
    }
    None
}

/// A repository URL or identifier in `owner/repo` form.
pub fn normalize_repo_identifier(repo: &str) -> (r: String)
    ensures
        r@ == repo_identifier(repo@),
{
    if !starts_with(repo, "http://") && !starts_with(repo, "https://") {
        proof {
            reveal_strlit("http://");
            reveal_strlit("https://");
        }
        return String::from_str(repo);
    }
    proof {
        reveal_strlit("http://");
        reveal_strlit("https://");
    }
    let v = chars_of(repo);
    let mut n = v.len();
    assert(v@.subrange(0, n as int) =~= v@);
    while n >= 4 && v[n - 4] == '.' && v[n - 3] == 'g' && v[n - 2] == 'i' && v[n - 1] == 't'
        invariant
            n <= v.len(),
            v@ == repo@,
            strip_git_suffixes(repo@) == strip_git_suffixes(v@.subrange(0, n as int)),
        decreases n,
    {
        let ghost t = v@.subrange(0, n as int);
        proof {
            reveal_strlit(".git");
        }
        assert(t.subrange(t.len() - 4, t.len() as int) =~= ".git"@);
        assert(t.subrange(0, t.len() - 4) =~= v@.subrange(0, n - 4));
        n = n - 4;
    }
    let ghost t = v@.subrange(0, n as int);
    proof {
        reveal_strlit(".git");
        if n >= 4 {
            let tail = t.subrange(t.len() - 4, t.len() as int);
            if tail == ".git"@ {
                assert(tail[0] == v@[n - 4]);
                assert(tail[1] == v@[n - 3]);
                assert(tail[2] == v@[n - 2]);
                assert(tail[3] == v@[n - 1]);
            }
        }
        assert(strip_git_suffixes(repo@) == t);
    }
    let t_str = repo.substring_char(0, n);
    let tv = chars_of(t_str);
    assert(tv@ == t);
    let last = last_before_x(&tv, '/', n);
    proof {
        lemma_last_before_range(t, '/', n as int);
    }
    match last {
        None => String::from_str(repo),
        Some(last) => {
            let prev = last_before_x(&tv, '/', last);
            proof {
                lemma_last_before_range(t, '/', last as int);
            }
            let start = match prev {
                Some(p) => p + 1,
                None => 0,
            };
            let owner = t_str.substring_char(start, last);
            let name = t_str.substring_char(last + 1, n);
            String::from_str(owner).concat("/").concat(name)
        },
    }
}

} // verus!
