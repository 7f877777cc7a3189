//! The registry: which performer runs the jobs of which type.

use crate::errors::PerformError;
use crate::storage::BackgroundJob;
use vstd::prelude::*;
use vstd::string::StringExecFns;

verus! {

/// A performer, filed under the type of the jobs that it runs.
pub struct Registration<P> {
    pub job_type: String,
    pub performer: P,
}

/// The performers by job type. It is filled once, when the process starts,
/// and only read after that.
pub struct Registry<P> {
    entries: Vec<Registration<P>>,
}

spec fn is_filed<P>(entries: Seq<Registration<P>>, job_type: Seq<char>) -> bool {
    exists|i: int| 0 <= i < entries.len() && (#[trigger] entries[i]).job_type@ == job_type
}

spec fn filed_at<P>(entries: Seq<Registration<P>>, job_type: Seq<char>) -> int {
    choose|i: int| 0 <= i < entries.len() && (#[trigger] entries[i]).job_type@ == job_type
}

spec fn distinct<P>(entries: Seq<Registration<P>>) -> bool {
    forall|i: int, j: int|
        0 <= i < j < entries.len() ==> (#[trigger] entries[i]).job_type@ != (
        #[trigger] entries[j]).job_type@
}

proof fn lemma_filed_at<P>(entries: Seq<Registration<P>>, i: int)
    requires
        distinct(entries),
        0 <= i < entries.len(),
    ensures
        is_filed(entries, entries[i].job_type@),
        filed_at(entries, entries[i].job_type@) == i,
{
    let at = filed_at(entries, entries[i].job_type@);
    if at < i {
        assert(entries[at].job_type@ != entries[i].job_type@);
    } else if i < at {
        assert(entries[i].job_type@ != entries[at].job_type@);
    }
}

impl<P> View for Registry<P> {
    type V = Map<Seq<char>, P>;

    closed spec fn view(&self) -> Map<Seq<char>, P> {
        Map::new(
            |job_type: Seq<char>| is_filed(self.entries@, job_type),
            |job_type: Seq<char>| self.entries@[filed_at(self.entries@, job_type)].performer,
        )
    }
}

/// The failure that stands for a job whose type nobody registered.
pub open spec fn unknown_job_type(job_type: Seq<char>) -> Seq<char> {
    "Unknown job type "@ + job_type
}

impl<P> Registry<P> {
    /// No job type is registered twice.
    pub closed spec fn wf(&self) -> bool {
        distinct(self.entries@)
    }

    /// A registry without performers.
    pub fn new() -> (registry: Registry<P>)
        ensures
            registry.wf(),
            registry@ == Map::<Seq<char>, P>::empty(),
    {
        let registry = Registry { entries: Vec::new() };
        assert(registry@ =~= Map::<Seq<char>, P>::empty());
        registry
    }

    fn find(&self, job_type: &String) -> (at: Option<usize>)
        requires
            self.wf(),
        ensures
            match at {
                Some(i) => i < self.entries@.len() && self.entries@[i as int].job_type@
                    == job_type@ && self@.contains_key(job_type@) && self@[job_type@]
                    == self.entries@[i as int].performer,
                None => !self@.contains_key(job_type@),
            },
    {
        let mut i: usize = 0;
        while i < self.entries.len()
            invariant
                self.wf(),
                i <= self.entries@.len(),
                forall|k: int| 0 <= k < i ==> (#[trigger] self.entries@[k]).job_type@ != job_type@,
            decreases self.entries@.len() - i,
        {
            if self.entries[i].job_type == *job_type {
                proof {
                    lemma_filed_at(self.entries@, i as int);
                }
                return Some(i);
            }
            i += 1;
        }
        None
    }

    /// Files `performer` under `job_type`. A type that is already registered
    /// is refused: the registry stays as it is and the type comes back as the
    /// error.
    pub fn register(&mut self, job_type: String, performer: P) -> (r: Result<(), String>)
        requires
            old(self).wf(),
        ensures
            final(self).wf(),
            old(self)@.contains_key(job_type@) ==> r == Err::<(), String>(job_type)
                && *final(self) == *old(self),
            !old(self)@.contains_key(job_type@) ==> r is Ok && final(self)@ == old(self)@.insert(
                job_type@,
                performer,
            ),
    {
        if self.find(&job_type).is_some() {
            return Err(job_type);
        }
        let ghost key = job_type@;
        self.entries.push(Registration { job_type, performer });
        proof {
            let before = old(self).entries@;
            let after = self.entries@;
            assert forall|i: int, j: int| 0 <= i < j < after.len() implies (
            #[trigger] after[i]).job_type@ != (#[trigger] after[j]).job_type@ by {
                if j < before.len() {
                    assert(before[i].job_type@ != before[j].job_type@);
                } else {
                    assert(before[i].job_type@ != key);
                }
            }
            assert forall|k: Seq<char>| #[trigger]
                self@.contains_key(k) <==> old(self)@.insert(key, performer).contains_key(k) by {
                if is_filed(after, k) {
                    let i = filed_at(after, k);
                    if i < before.len() {
                        assert(before[i].job_type@ == k);
                    }
                }
                if is_filed(before, k) {
                    let i = filed_at(before, k);
                    assert(after[i].job_type@ == k);
                }
                if k == key {
                    assert(after[after.len() - 1].job_type@ == k);
                }
            }
            assert forall|k: Seq<char>| #[trigger] self@.contains_key(k) implies self@[k] == old(
                self,
            )@.insert(key, performer)[k] by {
                let i = filed_at(after, k);
                lemma_filed_at(after, i);
                if i < before.len() {
                    lemma_filed_at(before, i);
                }
            }
            assert(self@ =~= old(self)@.insert(key, performer));
        }
        Ok(())
    }

    /// The performer registered for `job_type`, if there is one.
    pub fn get(&self, job_type: &str) -> (found: Option<&P>)
        requires
            self.wf(),
        ensures
            match found {
                Some(performer) => self@.contains_key(job_type@) && *performer == self@[job_type@],
                None => !self@.contains_key(job_type@),
            },
    {
        let wanted = String::from_str(job_type);
        match self.find(&wanted) {
            Some(i) => Some(&self.entries[i].performer),
            None => None,
        }
    }

    /// The performer that is to run `job`. A job whose type nobody registered
    /// counts as failed: the error names the type.
    pub fn performer_for(&self, job: &BackgroundJob) -> (found: Result<&P, PerformError>)
        requires
            self.wf(),
        ensures
            match found {
                Ok(performer) => self@.contains_key(job.job_type@) && *performer
                    == self@[job.job_type@],
                Err(e) => !self@.contains_key(job.job_type@) && e@ == unknown_job_type(
                    job.job_type@,
                ),
            },
    {
        match self.find(&job.job_type) {
            Some(i) => Ok(&self.entries[i].performer),
            None => {
                let mut message = String::from_str("Unknown job type ");
                message.append(job.job_type.as_str());
                Err(PerformError::new(message))
            },
        }
    }
}

} // verus!
