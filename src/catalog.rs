//! Problems and the read-only catalog that maps an id to its problem.
use vstd::prelude::*;

verus! {

/// One input fed to the program and the output expected from it.
pub struct TestCase {
    pub input: String,
    pub expected_output: String,
}

/// A problem: its limits and its ordered test cases.
pub struct Problem {
    pub id: String,
    pub title: String,
    pub description: String,
    /// Wall-clock deadline of each test run, in milliseconds.
    pub time_limit_ms: u64,
    pub memory_limit_kb: u64,
    /// Test numbering follows this order.
    pub test_cases: Vec<TestCase>,
}

impl Problem {
    /// Both limits are positive.
    pub open spec fn wf(&self) -> bool {
        self.time_limit_ms > 0 && self.memory_limit_kb > 0
    }

    pub fn has_valid_limits(&self) -> (r: bool)
        ensures
            r == self.wf(),
    {
        self.time_limit_ms > 0 && self.memory_limit_kb > 0
    }

    pub fn test_count(&self) -> (r: usize)
        ensures
            r == self.test_cases@.len(),
    {
        self.test_cases.len()
    }
}

/// Why a problem was not added to a catalog.
#[derive(Clone, Copy, Debug, PartialEq, Eq, Structural)]
pub enum CatalogError {
    DuplicateId,
    InvalidLimits,
}

/// Some problem of `s` has the id `id`.
pub open spec fn has_id(s: Seq<Problem>, id: Seq<char>) -> bool {
    exists|i: int| 0 <= i < s.len() && (#[trigger] s[i]).id@ == id
}

/// No two problems of `s` share an id.
pub open spec fn ids_unique(s: Seq<Problem>) -> bool {
    forall|i: int, j: int| 0 <= i < s.len() && 0 <= j < s.len() && i != j ==> s[i].id@ != s[j].id@
}

/// Problems keyed by a unique id, each with valid limits.
pub struct ProblemCatalog {
    problems: Vec<Problem>,
}

impl ProblemCatalog {
    /// The problems in the order they were added.
    pub closed spec fn entries(&self) -> Seq<Problem> {
        self.problems@
    }

    pub open spec fn wf(&self) -> bool {
        &&& ids_unique(self.entries())
        &&& forall|i: int| 0 <= i < self.entries().len() ==> (#[trigger] self.entries()[i]).wf()
    }

    pub open spec fn contains(&self, id: Seq<char>) -> bool {
        has_id(self.entries(), id)
    }

    pub fn new() -> (r: ProblemCatalog)
        ensures
            r.wf(),
            r.entries().len() == 0,
    {
        ProblemCatalog { problems: Vec::new() }
    }

    pub fn len(&self) -> (r: usize)
        ensures
            r == self.entries().len(),
    {
        self.problems.len()
    }

    /// The problem at position `i`, in the order problems were added.
    pub fn problem_at(&self, i: usize) -> (r: &Problem)
        requires
            i < self.entries().len(),
        ensures
            *r == self.entries()[i as int],
    {
        &self.problems[i]
    }

    /// Adds `p` unless its id is taken (`DuplicateId`) or a limit of it is zero
    /// (`InvalidLimits`); on an error the catalog is unchanged.
    pub fn add(&mut self, p: Problem) -> (r: Result<(), CatalogError>)
        requires
            old(self).wf(),
        ensures
            final(self).wf(),
            old(self).contains(p.id@) ==> r == Err::<(), CatalogError>(CatalogError::DuplicateId),
            !old(self).contains(p.id@) && !p.wf() ==> r == Err::<(), CatalogError>(
                CatalogError::InvalidLimits,
            ),
            !old(self).contains(p.id@) && p.wf() ==> r is Ok,
            r is Ok ==> final(self).entries() == old(self).entries().push(p),
            r is Err ==> final(self).entries() == old(self).entries(),
    {
        let mut i: usize = 0;
        while i < self.problems.len()
            invariant
                i <= self.problems@.len(),
                self.wf(),
                self.problems@ == old(self).problems@,
                forall|j: int| 0 <= j < i ==> self.problems@[j].id@ != p.id@,
            decreases self.problems@.len() - i,
        {
            if self.problems[i].id == p.id {
                return Err(CatalogError::DuplicateId);
            }
            i += 1;
        }
        if !p.has_valid_limits() {
            return Err(CatalogError::InvalidLimits);
        }
        self.problems.push(p);
        Ok(())
    }

    /// The problem with id `id`, if the catalog has one.
    pub fn get_problem(&self, id: &String) -> (r: Option<&Problem>)
        requires
            self.wf(),
        ensures
            r is Some <==> self.contains(id@),
            r matches Some(p) ==> p.id@ == id@ && p.wf() && exists|i: int|
                0 <= i < self.entries().len() && self.entries()[i] == *p,
    {
        let mut i: usize = 0;
        while i < self.problems.len()
            invariant
                i <= self.problems@.len(),
                self.wf(),
                forall|j: int| 0 <= j < i ==> self.problems@[j].id@ != id@,
            decreases self.problems@.len() - i,
        {
            if self.problems[i].id == *id {
                assert(self.entries()[i as int].wf());
                return Some(&self.problems[i]);
            }
            i += 1;
        }
        None
    }
}

} // verus!
