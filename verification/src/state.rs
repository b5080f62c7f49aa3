//! The correlation table: which thread stands for which issue.
//!
//! A thread is bound to at most one issue and an issue to at most one thread.
//! A binding is made once and never changed or taken back.

use crate::text::same_text;
use vstd::prelude::*;
use vstd::string::*;

verus! {

/// One binding: the thread `thread_id` stands for issue `issue_number` of the
/// repository `repo`.
#[derive(Clone, Debug, PartialEq, Eq)]
pub struct CorrelationRecord {
    pub thread_id: u64,
    pub issue_number: u64,
    pub repo: String,
}

/// What a [`CorrelationRecord`] holds.
pub struct CorrelationRecordView {
    pub thread_id: u64,
    pub issue_number: u64,
    pub repo: Seq<char>,
}

impl View for CorrelationRecord {
    type V = CorrelationRecordView;

    open spec fn view(&self) -> CorrelationRecordView {
        CorrelationRecordView {
            thread_id: self.thread_id,
            issue_number: self.issue_number,
            repo: self.repo@,
        }
    }
}

/// Why a binding was refused.
#[derive(Clone, Copy, Debug, PartialEq, Eq, Structural)]
pub enum Conflict {
    /// The thread is bound already.
    ThreadBound,
    /// The thread is free, but the issue is bound to another thread.
    IssueBound,
}

/// Whether the record at `i` binds `thread_id`.
pub open spec fn binds_thread(store: Seq<CorrelationRecordView>, thread_id: u64, i: int) -> bool {
    0 <= i < store.len() && store[i].thread_id == thread_id
}

/// Whether the record at `i` binds issue `issue_number` of `repo`.
pub open spec fn binds_issue(
    store: Seq<CorrelationRecordView>,
    issue_number: u64,
    repo: Seq<char>,
    i: int,
) -> bool {
    0 <= i < store.len() && store[i].issue_number == issue_number && store[i].repo == repo
}

/// Whether `thread_id` is bound to an issue.
pub open spec fn is_tracked(store: Seq<CorrelationRecordView>, thread_id: u64) -> bool {
    exists|i: int| binds_thread(store, thread_id, i)
}

/// Whether issue `issue_number` of `repo` is bound to a thread.
pub open spec fn is_issue_bound(
    store: Seq<CorrelationRecordView>,
    issue_number: u64,
    repo: Seq<char>,
) -> bool {
    exists|i: int| binds_issue(store, issue_number, repo, i)
}

/// No thread is bound twice and no issue is bound twice.
pub open spec fn store_wf(store: Seq<CorrelationRecordView>) -> bool {
    &&& forall|i: int, j: int|
        #![trigger store[i], store[j]]
        0 <= i < j < store.len() ==> store[i].thread_id != store[j].thread_id
    &&& forall|i: int, j: int|
        #![trigger store[i], store[j]]
        0 <= i < j < store.len() ==> !(store[i].issue_number == store[j].issue_number
            && store[i].repo == store[j].repo)
}

/// The issue that `thread_id` is bound to, with its repository.
pub open spec fn lookup_by_thread(store: Seq<CorrelationRecordView>, thread_id: u64) -> Option<
    (u64, Seq<char>),
> {
    if is_tracked(store, thread_id) {
        let i = choose|i: int| binds_thread(store, thread_id, i);
        Some((store[i].issue_number, store[i].repo))
    } else {
        None
    }
}

/// The thread that issue `issue_number` of `repo` is bound to.
pub open spec fn lookup_by_issue(
    store: Seq<CorrelationRecordView>,
    issue_number: u64,
    repo: Seq<char>,
) -> Option<u64> {
    if is_issue_bound(store, issue_number, repo) {
        let i = choose|i: int| binds_issue(store, issue_number, repo, i);
        Some(store[i].thread_id)
    } else {
        None
    }
}

/// Whether a new binding is taken: refused where the thread is bound, then
/// where the issue is.
pub open spec fn bind_outcome(store: Seq<CorrelationRecordView>, record: CorrelationRecordView) -> Result<
    (),
    Conflict,
> {
    if is_tracked(store, record.thread_id) {
        Err(Conflict::ThreadBound)
    } else if is_issue_bound(store, record.issue_number, record.repo) {
        Err(Conflict::IssueBound)
    } else {
        Ok(())
    }
}

/// The table after an attempt to bind: one record longer where the binding is
/// taken, unchanged where it is refused.
pub open spec fn bind(store: Seq<CorrelationRecordView>, record: CorrelationRecordView) -> Seq<
    CorrelationRecordView,
> {
    if bind_outcome(store, record) is Ok {
        store.push(record)
    } else {
        store
    }
}

/// The table after a row of attempts to bind, made one after the other.
pub open spec fn bind_all(
    store: Seq<CorrelationRecordView>,
    attempts: Seq<CorrelationRecordView>,
) -> Seq<CorrelationRecordView>
    decreases attempts.len(),
{
    if attempts.len() == 0 {
        store
    } else {
        bind(bind_all(store, attempts.drop_last()), attempts.last())
    }
}

/// What a list of records holds.
pub open spec fn records_view(records: Seq<CorrelationRecord>) -> Seq<CorrelationRecordView> {
    records.map_values(|r: CorrelationRecord| r@)
}

/// In a well-formed table a thread has one record at most.
pub proof fn lemma_thread_record_unique(store: Seq<CorrelationRecordView>, i: int, j: int)
    requires
        store_wf(store),
        0 <= i < store.len(),
        0 <= j < store.len(),
        store[i].thread_id == store[j].thread_id,
    ensures
        i == j,
{
    if i < j {
        assert(store[i].thread_id != store[j].thread_id);
    } else if j < i {
        assert(store[j].thread_id != store[i].thread_id);
    }
}

/// In a well-formed table an issue has one record at most.
pub proof fn lemma_issue_record_unique(store: Seq<CorrelationRecordView>, i: int, j: int)
    requires
        store_wf(store),
        0 <= i < store.len(),
        0 <= j < store.len(),
        store[i].issue_number == store[j].issue_number,
        store[i].repo == store[j].repo,
    ensures
        i == j,
{
    if i < j {
        assert(!(store[i].issue_number == store[j].issue_number && store[i].repo == store[j].repo));
    } else if j < i {
        assert(!(store[j].issue_number == store[i].issue_number && store[j].repo == store[i].repo));
    }
}

/// A lookup gives what the one record of the thread says.
pub proof fn lemma_lookup_by_thread(store: Seq<CorrelationRecordView>, i: int)
    requires
        store_wf(store),
        0 <= i < store.len(),
    ensures
        lookup_by_thread(store, store[i].thread_id) == Some(
            (store[i].issue_number, store[i].repo),
        ),
        lookup_by_issue(store, store[i].issue_number, store[i].repo) == Some(store[i].thread_id),
{
    let t = store[i].thread_id;
    assert(binds_thread(store, t, i));
    let k = choose|k: int| binds_thread(store, t, k);
    lemma_thread_record_unique(store, i, k);
    let n = store[i].issue_number;
    let r = store[i].repo;
    assert(binds_issue(store, n, r, i));
    let m = choose|m: int| binds_issue(store, n, r, m);
    lemma_issue_record_unique(store, i, m);
}

/// An attempt to bind keeps the table well formed, keeps every record that was
/// there in its place, and adds one record at most.
pub proof fn lemma_bind(store: Seq<CorrelationRecordView>, record: CorrelationRecordView)
    requires
        store_wf(store),
    ensures
        store_wf(bind(store, record)),
        bind(store, record) == store || bind(store, record) == store.push(record),
        store.len() <= bind(store, record).len() <= store.len() + 1,
        forall|i: int| 0 <= i < store.len() ==> bind(store, record)[i] == store[i],
        bind_outcome(store, record) is Ok ==> {
            &&& lookup_by_thread(bind(store, record), record.thread_id) == Some(
                (record.issue_number, record.repo),
            )
            &&& lookup_by_issue(bind(store, record), record.issue_number, record.repo) == Some(
                record.thread_id,
            )
        },
{
    let after = bind(store, record);
    if bind_outcome(store, record) is Ok {
        let last = store.len() as int;
        assert(after[last] == record);
        assert forall|i: int, j: int| 0 <= i < j < after.len() implies after[i].thread_id
            != after[j].thread_id by {
            if j == last {
                assert(!binds_thread(store, record.thread_id, i));
            } else {
                assert(store[i].thread_id != store[j].thread_id);
            }
        }
        assert forall|i: int, j: int| 0 <= i < j < after.len() implies !(after[i].issue_number
            == after[j].issue_number && after[i].repo == after[j].repo) by {
            if j == last {
                assert(!binds_issue(store, record.issue_number, record.repo, i));
            } else {
                assert(!(store[i].issue_number == store[j].issue_number && store[i].repo
                    == store[j].repo));
            }
        }
        lemma_lookup_by_thread(after, last);
    }
}

/// Uniqueness: whatever bindings are attempted on a well-formed table, and in
/// whatever order, the table stays well formed, so no thread and no issue ever
/// has a second record; and what was recorded stays as it was.
pub proof fn lemma_bind_all(store: Seq<CorrelationRecordView>, attempts: Seq<CorrelationRecordView>)
    requires
        store_wf(store),
    ensures
        store_wf(bind_all(store, attempts)),
        store.len() <= bind_all(store, attempts).len() <= store.len() + attempts.len(),
        forall|i: int| 0 <= i < store.len() ==> bind_all(store, attempts)[i] == store[i],
        forall|i: int, j: int|
            #![trigger bind_all(store, attempts)[i], bind_all(store, attempts)[j]]
            0 <= i < bind_all(store, attempts).len() && 0 <= j < bind_all(store, attempts).len()
                && bind_all(store, attempts)[i].thread_id == bind_all(
                store,
                attempts,
            )[j].thread_id ==> i == j,
    decreases attempts.len(),
{
    let end = bind_all(store, attempts);
    if attempts.len() > 0 {
        let before = bind_all(store, attempts.drop_last());
        lemma_bind_all(store, attempts.drop_last());
        lemma_bind(before, attempts.last());
    }
    assert forall|i: int, j: int|
        0 <= i < end.len() && 0 <= j < end.len() && end[i].thread_id
            == end[j].thread_id implies i == j by {
        lemma_thread_record_unique(end, i, j);
    }
}

/// The correlation table.
#[derive(Debug)]
pub struct State {
    records: Vec<CorrelationRecord>,
}

impl View for State {
    type V = Seq<CorrelationRecordView>;

    closed spec fn view(&self) -> Seq<CorrelationRecordView> {
        records_view(self.records@)
    }
}

impl State {
    #[verifier::type_invariant]
    spec fn inv(self) -> bool {
        store_wf(records_view(self.records@))
    }

    /// An empty table.
    pub fn new() -> (state: State)
        ensures
            state@ == Seq::<CorrelationRecordView>::empty(),
            store_wf(state@),
    {
        let state = State { records: Vec::new() };
        assert(state@ =~= Seq::<CorrelationRecordView>::empty());
        state
    }

    /// The number of bindings in the table.
    pub fn len(&self) -> (n: usize)
        ensures
            n == self@.len(),
    {
        self.records.len()
    }

    /// The place of the record that binds `thread_id`.
    fn find_thread(&self, thread_id: u64) -> (found: Option<usize>)
        ensures
            match found {
                Some(i) => binds_thread(self@, thread_id, i as int),
                None => !is_tracked(self@, thread_id),
            },
    {
        let ghost store = self@;
        let mut i: usize = 0;
        while i < self.records.len()
            invariant
                i <= self.records.len(),
                store == records_view(self.records@),
                forall|k: int| 0 <= k < i ==> !binds_thread(store, thread_id, k),
            decreases self.records.len() - i,
        {
            if self.records[i].thread_id == thread_id {
                assert(store[i as int] == self.records@[i as int]@);
                return Some(i);
            }
            assert(store[i as int] == self.records@[i as int]@);
            i = i + 1;
        }
        None
    }

    /// The place of the record that binds issue `issue_number` of `repo`.
    fn find_issue(&self, issue_number: u64, repo: &str) -> (found: Option<usize>)
        ensures
            match found {
                Some(i) => binds_issue(self@, issue_number, repo@, i as int),
                None => !is_issue_bound(self@, issue_number, repo@),
            },
    {
        let ghost store = self@;
        let mut i: usize = 0;
        while i < self.records.len()
            invariant
                i <= self.records.len(),
                store == records_view(self.records@),
                forall|k: int| 0 <= k < i ==> !binds_issue(store, issue_number, repo@, k),
            decreases self.records.len() - i,
        {
            assert(store[i as int] == self.records@[i as int]@);
            if self.records[i].issue_number == issue_number && same_text(
                self.records[i].repo.as_str(),
                repo,
            ) {
                return Some(i);
            }
            i = i + 1;
        }
        None
    }

    /// Binds a thread to an issue: `mapping` names the thread, the issue's
    /// number and its repository. The binding is refused, and the table left
    /// as it was, where the thread is bound already or the issue is.
    pub fn add(&mut self, mapping: (u64, u64, String)) -> (done: Result<(), Conflict>)
        ensures
            done == bind_outcome(
                old(self)@,
                CorrelationRecordView {
                    thread_id: mapping.0,
                    issue_number: mapping.1,
                    repo: mapping.2@,
                },
            ),
            final(self)@ == bind(
                old(self)@,
                CorrelationRecordView {
                    thread_id: mapping.0,
                    issue_number: mapping.1,
                    repo: mapping.2@,
                },
            ),
            store_wf(old(self)@),
            store_wf(final(self)@),
    {
        let (thread_id, issue_number, repo) = mapping;
        let ghost record = CorrelationRecordView { thread_id, issue_number, repo: repo@ };
        proof {
            use_type_invariant(&*self);
            lemma_bind(self@, record);
        }
        if self.find_thread(thread_id).is_some() {
            return Err(Conflict::ThreadBound);
        }
        if self.find_issue(issue_number, repo.as_str()).is_some() {
            return Err(Conflict::IssueBound);
        }
        let ghost before = self@;
        let mut records: Vec<CorrelationRecord> = Vec::new();
        std::mem::swap(&mut self.records, &mut records);
        records.push(CorrelationRecord { thread_id, issue_number, repo });
        assert(records_view(records@) =~= before.push(record));
        self.records = records;
        Ok(())
    }

    /// The issue that `thrd` is bound to, with its repository.
    pub fn get_issue(&self, thrd: u64) -> (issue: Option<(u64, String)>)
        ensures
            store_wf(self@),
            match issue {
                Some((number, repo)) => lookup_by_thread(self@, thrd) == Some((number, repo@)),
                None => lookup_by_thread(self@, thrd) is None,
            },
    {
        proof {
            use_type_invariant(self);
        }
        match self.find_thread(thrd) {
            Some(i) => {
                proof {
                    lemma_lookup_by_thread(self@, i as int);
                }
                let record = &self.records[i];
                Some((record.issue_number, record.repo.clone()))
            },
            None => None,
        }
    }

    /// The thread that issue `issue_nr` of `repo` is bound to.
    pub fn get_thread(&self, issue_nr: u64, repo: &str) -> (thread: Option<u64>)
        ensures
            store_wf(self@),
            thread == lookup_by_issue(self@, issue_nr, repo@),
    {
        proof {
            use_type_invariant(self);
        }
        match self.find_issue(issue_nr, repo) {
            Some(i) => {
                proof {
                    lemma_lookup_by_thread(self@, i as int);
                }
                Some(self.records[i].thread_id)
            },
            None => None,
        }
    }
}

} // verus!
