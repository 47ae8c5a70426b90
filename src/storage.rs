//! An in-memory store of execution records and registered repositories.
use vstd::prelude::*;
use crate::models::{PipelineExecution, PipelineExecutionView};
use crate::text::str_eq;

verus! {

/// Where a repository is hosted.
#[derive(Debug, Clone, PartialEq)]
pub enum RepoType {
    GitHub,
    Local,
    Other(String),
}

/// A registered repository and its Pulsefile; `repo_identifier` is in
/// `owner/repo` form.
#[derive(Debug, Clone)]
pub struct RegisteredRepo {
    pub repo_url: String,
    pub repo_identifier: String,
    pub pulsefile: String,
    pub repo_type: RepoType,
}

/// The 128-bit value of the UUID that a text writes, if it writes one.
pub uninterp spec fn uuid_value(s: Seq<char>) -> Option<u128>;

/// Relies on `uuid::Uuid::parse_str` and `Uuid::as_u128`: the value of the
/// UUID that `s` writes, or `None` when `s` writes none.
#[verifier::external_body]
fn parse_uuid(s: &str) -> (r: Option<u128>)
    ensures
        r == uuid_value(s@),
{
    match uuid::Uuid::parse_str(s) {
        Ok(u) => Some(u.as_u128()),
        Err(_) => None,
    }
}

/// Execution records and registered repositories, kept in the order in which
/// they were first stored. Ids and identifiers are unique.
pub struct InMemoryStorage {
    executions: Vec<PipelineExecution>,
    registered_repos: Vec<RegisteredRepo>,
}

pub open spec fn views_of(v: Seq<PipelineExecution>) -> Seq<PipelineExecutionView> {
    v.map_values(|e: PipelineExecution| e@)
}

pub open spec fn ids_unique(v: Seq<PipelineExecutionView>) -> bool {
    forall|i: int, j: int| 0 <= i < v.len() && 0 <= j < v.len() && i != j ==> #[trigger] v[i].id != #[trigger] v[j].id
}

pub open spec fn identifiers_unique(v: Seq<RegisteredRepo>) -> bool {
    forall|i: int, j: int|
        0 <= i < v.len() && 0 <= j < v.len() && i != j ==> #[trigger] v[i].repo_identifier@
            != #[trigger] v[j].repo_identifier@
}

/// Whether some record has the id.
pub open spec fn has_id(v: Seq<PipelineExecutionView>, id: u128) -> bool {
    exists|i: int| 0 <= i < v.len() && #[trigger] v[i].id == id
}

/// Whether some repository has the identifier.
pub open spec fn has_identifier(v: Seq<RegisteredRepo>, ident: Seq<char>) -> bool {
    exists|i: int| 0 <= i < v.len() && #[trigger] v[i].repo_identifier@ == ident
}

/// The records of one repository, in store order.
pub open spec fn for_repo(v: Seq<PipelineExecutionView>, repo: Seq<char>) -> Seq<
    PipelineExecutionView,
>
    decreases v.len(),
{
    if v.len() == 0 {
        seq![]
    } else {
        let p = for_repo(v.drop_last(), repo);
        if v.last().repository.full_name@ == repo {
            p.push(v.last())
        } else {
            p
        }
    }
}

/// `e` placed into `s` (sorted by start time, latest first) after every
/// record that started no earlier.
pub open spec fn insert_latest_first(s: Seq<PipelineExecutionView>, e: PipelineExecutionView) -> Seq<
    PipelineExecutionView,
>
    decreases s.len(),
{
    if s.len() == 0 {
        seq![e]
    } else if s.last().started_at < e.started_at {
        insert_latest_first(s.drop_last(), e).push(s.last())
    } else {
        s.push(e)
    }
}

/// The records sorted by start time, latest first; records that started at
/// the same time keep their order.
pub open spec fn latest_first(v: Seq<PipelineExecutionView>) -> Seq<PipelineExecutionView>
    decreases v.len(),
{
    if v.len() == 0 {
        seq![]
    } else {
        insert_latest_first(latest_first(v.drop_last()), v.last())
    }
}

/// At most the first `limit` elements.
pub open spec fn at_most(v: Seq<PipelineExecutionView>, limit: nat) -> Seq<PipelineExecutionView> {
    if limit < v.len() {
        v.take(limit as int)
    } else {
        v
    }
}

/// Inserting into a sorted sequence from its end: when every record from `j`
/// on started before `e`, `e` lands among the first `j`.
proof fn lemma_insert_split(s: Seq<PipelineExecutionView>, e: PipelineExecutionView, j: int)
    requires
        0 < j <= s.len(),
        s[j - 1].started_at < e.started_at,
    ensures
        insert_latest_first(s.take(j), e) == insert_latest_first(s.take(j - 1), e).push(s[j - 1]),
{
    assert(s.take(j).drop_last() =~= s.take(j - 1));
}

/// Places `e` into `v`, sorted latest first, after every record that started
/// no earlier.
fn insert_sorted(v: &mut Vec<PipelineExecution>, e: PipelineExecution)
    ensures
        views_of(final(v)@) == insert_latest_first(views_of(old(v)@), e@),
{
    let ghost s = views_of(v@);
    let mut j = v.len();
    proof {
        assert(s.take(j as int) =~= s);
        assert(insert_latest_first(s, e@) + s.subrange(j as int, s.len() as int) =~= insert_latest_first(s, e@));
    }
    while j > 0 && v[j - 1].started_at < e.started_at
        invariant
            j <= v.len(),
            s == views_of(v@),
            insert_latest_first(s, e@) == insert_latest_first(s.take(j as int), e@) + s.subrange(
                j as int,
                s.len() as int,
            ),
        decreases j,
    {
        proof {
            assert(s[j - 1] == v@[j - 1]@);
            lemma_insert_split(s, e@, j as int);
            assert(insert_latest_first(s.take(j - 1), e@).push(s[j - 1]) + s.subrange(
                j as int,
                s.len() as int,
            ) =~= insert_latest_first(s.take(j - 1), e@) + s.subrange(j - 1, s.len() as int));
        }
        j = j - 1;
    }
    proof {
        if j > 0 {
            assert(s[j - 1] == v@[j - 1]@);
            assert(s.take(j as int).drop_last() =~= s.take(j - 1));
            assert(insert_latest_first(s.take(j as int), e@) == s.take(j as int).push(e@));
        } else {
            assert(insert_latest_first(s.take(0), e@) == seq![e@]);
        }
    }
    let ghost ev = e@;
    v.insert(j, e);
    assert(views_of(v@) =~= s.take(j as int).push(ev) + s.subrange(j as int, s.len() as int));
}

impl InMemoryStorage {
    /// The stored records, in store order.
    pub closed spec fn records(&self) -> Seq<PipelineExecutionView> {
        views_of(self.executions@)
    }

    /// The registered repositories, in order of registration.
    pub closed spec fn repos(&self) -> Seq<RegisteredRepo> {
        self.registered_repos@
    }

    pub open spec fn wf(&self) -> bool {
        ids_unique(self.records()) && identifiers_unique(self.repos())
    }

    pub fn new() -> (r: Self)
        ensures
            r.wf(),
            r.records() == Seq::<PipelineExecutionView>::empty(),
            r.repos() == Seq::<RegisteredRepo>::empty(),
    {
        let r = InMemoryStorage { executions: Vec::new(), registered_repos: Vec::new() };
        assert(r.records() =~= seq![]);
        r
    }

    /// The position of the record with the id, if any.
    fn position_of(&self, id: u128) -> (r: Option<usize>)
        ensures
            match r {
                Some(i) => i < self.records().len() && self.records()[i as int].id == id,
                None => !has_id(self.records(), id),
            },
    {
        let mut i: usize = 0;
        while i < self.executions.len()
            invariant
                i <= self.executions.len(),
                forall|j: int| 0 <= j < i ==> #[trigger] self.records()[j].id != id,
            decreases self.executions.len() - i,
        {
            assert(self.records()[i as int] == self.executions@[i as int]@);
            if self.executions[i].id == id {
                return Some(i);
            }
            i = i + 1;
        }
        None
    }

    /// Stores a record; one with the same id is replaced in place.
    pub fn store_execution(&mut self, execution: PipelineExecution)
        requires
            old(self).wf(),
        ensures
            final(self).wf(),
            final(self).repos() == old(self).repos(),
            forall|i: int|
                0 <= i < old(self).records().len() && #[trigger] old(self).records()[i].id
                    == execution.id ==> final(self).records() == old(self).records().update(
                    i,
                    execution@,
                ),
            !has_id(old(self).records(), execution.id) ==> final(self).records() == old(
                self,
            ).records().push(execution@),
    {
        let ghost before = self.records();
        let ghost e = execution@;
        match self.position_of(execution.id) {
            Some(i) => {
                self.executions.remove(i);
                self.executions.insert(i, execution);
                assert(self.records() =~= before.update(i as int, e));
                assert forall|k: int|
                    0 <= k < before.len() && #[trigger] before[k].id == e.id implies k
                    == i by {}
            },
            None => {
                self.executions.push(execution);
                assert(self.records() =~= before.push(e));
            },
        }
    }

    /// The record with the id.
    pub fn get_execution_by_id(&self, id: u128) -> (r: Option<&PipelineExecution>)
        requires
            self.wf(),
        ensures
            match r {
                Some(e) => e.id == id && exists|i: int|
                    0 <= i < self.records().len() && #[trigger] self.records()[i] == e@,
                None => !has_id(self.records(), id),
            },
    {
        match self.position_of(id) {
            Some(i) => {
                assert(self.records()[i as int] == self.executions@[i as int]@);
                Some(&self.executions[i])
            },
            None => None,
        }
    }

    /// The record whose id the text writes; `None` when it writes no UUID
    /// or no record has it.
    pub fn get_execution(&self, id: &str) -> (r: Option<&PipelineExecution>)
        requires
            self.wf(),
        ensures
            uuid_value(id@) is None ==> r is None,
            uuid_value(id@) matches Some(v) ==> match r {
                Some(e) => e.id == v && exists|i: int|
                    0 <= i < self.records().len() && #[trigger] self.records()[i] == e@,
                None => !has_id(self.records(), v),
            },
    {
        match parse_uuid(id) {
            Some(v) => self.get_execution_by_id(v),
            None => None,
        }
    }

    /// Copies of all records, in store order.
    pub fn list_executions(&self) -> (r: Vec<PipelineExecution>)
        ensures
            views_of(r@) == self.records(),
    {
        let mut out: Vec<PipelineExecution> = Vec::new();
        let mut i: usize = 0;
        while i < self.executions.len()
            invariant
                i <= self.executions.len(),
                views_of(out@) == self.records().take(i as int),
            decreases self.executions.len() - i,
        {
            let c = self.executions[i].copy();
            assert(self.records()[i as int] == c@);
            let ghost prev = out@;
            out.push(c);
            assert(views_of(out@) =~= views_of(prev).push(c@));
            assert(views_of(out@) =~= self.records().take(i + 1));
            i = i + 1;
        }
        assert(self.records().take(i as int) =~= self.records());
        out
    }

    /// The records of one repository, latest start first (records that
    /// started at the same time in store order), at most `limit` of them.
    pub fn get_executions_by_repo(&self, repo_identifier: &str, limit: usize) -> (r: Vec<
        PipelineExecution,
    >)
        ensures
            views_of(r@) == at_most(
                latest_first(for_repo(self.records(), repo_identifier@)),
                limit as nat,
            ),
    {
        let mut out: Vec<PipelineExecution> = Vec::new();
        let mut i: usize = 0;
        while i < self.executions.len()
            invariant
                i <= self.executions.len(),
                views_of(out@) == latest_first(for_repo(self.records().take(i as int), repo_identifier@)),
            decreases self.executions.len() - i,
        {
            let ghost prefix = self.records().take(i as int);
            let ghost next = self.records().take(i + 1);
            assert(next.drop_last() =~= prefix);
            assert(next.last() == self.executions@[i as int]@);
            if str_eq(self.executions[i].repository.full_name.as_str(), repo_identifier) {
                let c = self.executions[i].copy();
                insert_sorted(&mut out, c);
                assert(for_repo(next, repo_identifier@) == for_repo(prefix, repo_identifier@).push(
                    next.last(),
                ));
                assert(for_repo(prefix, repo_identifier@).push(next.last()).drop_last() =~= for_repo(
                    prefix,
                    repo_identifier@,
                ));
            }
            i = i + 1;
        }
        assert(self.records().take(i as int) =~= self.records());
        out.truncate(limit);
        out
    }

    /// Registers a repository; one with the same identifier is replaced in
    /// place.
    pub fn register_repo(&mut self, repo: RegisteredRepo)
        requires
            old(self).wf(),
        ensures
            final(self).wf(),
            final(self).records() == old(self).records(),
            forall|i: int|
                0 <= i < old(self).repos().len() && #[trigger] old(self).repos()[i].repo_identifier@
                    == repo.repo_identifier@ ==> final(self).repos() == old(self).repos().update(
                    i,
                    repo,
                ),
            !has_identifier(old(self).repos(), repo.repo_identifier@) ==> final(self).repos() == old(
                self,
            ).repos().push(repo),
    {
        let ghost before = self.repos();
        match self.repo_position(repo.repo_identifier.as_str()) {
            Some(i) => {
                self.registered_repos.remove(i);
                self.registered_repos.insert(i, repo);
                assert(self.repos() =~= before.update(i as int, repo));
            },
            None => {
                self.registered_repos.push(repo);
                assert(self.repos() =~= before.push(repo));
            },
        }
    }

    /// The position of the repository with the identifier, if any.
    fn repo_position(&self, ident: &str) -> (r: Option<usize>)
        ensures
            match r {
                Some(i) => i < self.repos().len() && self.repos()[i as int].repo_identifier@ == ident@,
                None => !has_identifier(self.repos(), ident@),
            },
    {
        let mut i: usize = 0;
        while i < self.registered_repos.len()
            invariant
                i <= self.registered_repos.len(),
                forall|j: int| 0 <= j < i ==> #[trigger] self.repos()[j].repo_identifier@ != ident@,
            decreases self.registered_repos.len() - i,
        {
            if str_eq(self.registered_repos[i].repo_identifier.as_str(), ident) {
                return Some(i);
            }
            i = i + 1;
        }
        None
    }

    /// Removes the repository with the identifier; whether there was one.
    pub fn unregister_repo(&mut self, repo_identifier: &str) -> (r: bool)
        requires
            old(self).wf(),
        ensures
            final(self).wf(),
            final(self).records() == old(self).records(),
            r == has_identifier(old(self).repos(), repo_identifier@),
            forall|i: int|
                0 <= i < old(self).repos().len() && #[trigger] old(self).repos()[i].repo_identifier@
                    == repo_identifier@ ==> final(self).repos() == old(self).repos().remove(i),
            !r ==> final(self).repos() == old(self).repos(),
    {
        let ghost before = self.repos();
        match self.repo_position(repo_identifier) {
            Some(i) => {
                self.registered_repos.remove(i);
                assert(self.repos() =~= before.remove(i as int));
                assert forall|a: int, b: int|
                    0 <= a < self.repos().len() && 0 <= b < self.repos().len() && a != b implies #[trigger] self.repos()[a].repo_identifier@
                    != #[trigger] self.repos()[b].repo_identifier@ by {
                    let a2 = if a < i { a } else { a + 1 };
                    let b2 = if b < i { b } else { b + 1 };
                    assert(self.repos()[a] == before[a2]);
                    assert(self.repos()[b] == before[b2]);
                }
                true
            },
            None => false,
        }
    }

    /// The Pulsefile of the repository with the identifier, if it is
    /// registered.
    pub fn get_repo_pulsefile(&self, repo_identifier: &str) -> (r: Option<String>)
        requires
            self.wf(),
        ensures
            match r {
                Some(p) => exists|i: int|
                    0 <= i < self.repos().len() && #[trigger] self.repos()[i].repo_identifier@
                        == repo_identifier@ && p == self.repos()[i].pulsefile,
                None => !has_identifier(self.repos(), repo_identifier@),
            },
    {
        match self.repo_position(repo_identifier) {
            Some(i) => Some(self.registered_repos[i].pulsefile.clone()),
            None => None,
        }
    }

    /// Whether a repository with the identifier is registered.
    pub fn is_repo_registered(&self, repo_identifier: &str) -> (r: bool)
        ensures
            r == has_identifier(self.repos(), repo_identifier@),
    {
        self.repo_position(repo_identifier).is_some()
    }
}

impl Default for InMemoryStorage {
    fn default() -> (r: Self)
        ensures
            r.wf(),
            r.records() == Seq::<PipelineExecutionView>::empty(),
            r.repos() == Seq::<RegisteredRepo>::empty(),
    {
        InMemoryStorage::new()
    }
}

} // verus!
