//! The decisions of `netpland`: the in-memory job store and the response to
//! each request, given what the platform reported.

use vstd::multiset::Multiset;
use vstd::prelude::*;

use crate::codec::views;
use crate::config::{ConfigFormat, NetplanConfig};
use crate::error::{error_message, Error};
use crate::model::{AdapterInfo, WifiInterfaceStatus, WifiNetwork};
use crate::plan::{build_plan, plan_of};
use crate::platform::{ApplyReport, PlatformError, PlatformErrorKind};
use crate::protocol::{
    ConfigAction, ErrorCode, JobState, JobSummary, JobSummaryView, Request,
    RequestView, Response, ResponseView, ValidationIssue, ValidationIssueView,
};
use crate::PROTOCOL_VERSION;
use crate::text::{append, debug_string, debug_text, owned};

verus! {

// ---------------------------------------------------------------------------
// Job identifiers in order
// ---------------------------------------------------------------------------

/// Lexicographic order of texts by code point, the order of `String`.
pub open spec fn text_le(a: Seq<char>, b: Seq<char>) -> bool
    decreases a.len(),
{
    if a.len() == 0 {
        true
    } else if b.len() == 0 {
        false
    } else if a[0] != b[0] {
        a[0] < b[0]
    } else {
        text_le(a.drop_first(), b.drop_first())
    }
}

pub proof fn lemma_text_le_total(a: Seq<char>, b: Seq<char>)
    ensures
        text_le(a, b) || text_le(b, a),
    decreases a.len(),
{
    if a.len() > 0 && b.len() > 0 && a[0] == b[0] {
        lemma_text_le_total(a.drop_first(), b.drop_first());
    }
}

pub proof fn lemma_text_le_trans(a: Seq<char>, b: Seq<char>, c: Seq<char>)
    requires
        text_le(a, b),
        text_le(b, c),
    ensures
        text_le(a, c),
    decreases a.len(),
{
    if a.len() > 0 && b.len() > 0 && c.len() > 0 && a[0] == b[0] && b[0] == c[0] {
        lemma_text_le_trans(a.drop_first(), b.drop_first(), c.drop_first());
    }
}

pub(crate) fn str_le(a: &str, b: &str) -> (r: bool)
    ensures
        r == text_le(a@, b@),
{
    let x = crate::text::chars_of(a);
    let y = crate::text::chars_of(b);
    let mut i: usize = 0;
    proof {
        assert(a@.skip(0) =~= a@);
        assert(b@.skip(0) =~= b@);
    }
    while i < x.len() && i < y.len()
        invariant
            x@ == a@,
            y@ == b@,
            i <= x@.len(),
            i <= y@.len(),
            text_le(a@, b@) == text_le(a@.skip(i as int), b@.skip(i as int)),
        decreases x@.len() - i,
    {
        if x[i] != y[i] {
            return x[i] < y[i];
        }
        proof {
            assert(a@.skip(i as int).drop_first() =~= a@.skip(i + 1));
            assert(b@.skip(i as int).drop_first() =~= b@.skip(i + 1));
        }
        i = i + 1;
    }
    x.len() <= y.len()
}

/// Newer jobs first; jobs created at the same time by identifier.
pub open spec fn job_before(a: JobSummaryView, b: JobSummaryView) -> bool {
    a.created_at_unix_ms > b.created_at_unix_ms || (a.created_at_unix_ms == b.created_at_unix_ms
        && text_le(a.job_id, b.job_id))
}

/// The summaries are in listing order.
pub open spec fn listed_in_order(s: Seq<JobSummaryView>) -> bool {
    forall|i: int, j: int| 0 <= i < j < s.len() ==> job_before(#[trigger] s[i], #[trigger] s[j])
}

fn summary_before(a: &JobSummary, b: &JobSummary) -> (r: bool)
    ensures
        r == job_before(a@, b@),
{
    a.created_at_unix_ms > b.created_at_unix_ms || (a.created_at_unix_ms == b.created_at_unix_ms
        && str_le(a.job_id.as_str(), b.job_id.as_str()))
}

/// Sorts job summaries into listing order.
fn sort_summaries(v: Vec<JobSummary>) -> (r: Vec<JobSummary>)
    ensures
        listed_in_order(views(r@)),
        views(r@).to_multiset() == views(v@).to_multiset(),
{
    let mut v = v;
    let ghost all = views(v@);
    let mut r: Vec<JobSummary> = Vec::new();
    proof {
        lemma_empty_multiset(views(r@));
        assert(views(r@).to_multiset().add(views(v@).to_multiset()) =~= all.to_multiset());
    }
    while v.len() > 0
        invariant
            listed_in_order(views(r@)),
            views(r@).to_multiset().add(views(v@).to_multiset()) == all.to_multiset(),
        decreases v@.len(),
    {
        let ghost before = views(v@);
        let x = v.pop().unwrap();
        proof {
            assert(before =~= views(v@).push(x@));
            vstd::seq_lib::to_multiset_build(views(v@), x@);
        }
        let mut p: usize = 0;
        while p < r.len() && !summary_before(&x, &r[p])
            invariant
                p <= r@.len(),
                listed_in_order(views(r@)),
                forall|q: int| 0 <= q < p ==> !job_before(x@, #[trigger] views(r@)[q]),
            decreases r@.len() - p,
        {
            p = p + 1;
        }
        let ghost old_r = views(r@);
        r.insert(p, x);
        proof {
            let s = views(r@);
            assert(s =~= old_r.insert(p as int, x@));
            vstd::seq_lib::to_multiset_insert(old_r, p as int, x@);
            assert forall|i: int, j: int| 0 <= i < j < s.len() implies job_before(
                #[trigger] s[i],
                #[trigger] s[j],
            ) by {
                if i < p && j == p {
                    lemma_text_le_total(x@.job_id, old_r[i].job_id);
                } else if i < p && j > p {
                    lemma_text_le_total(x@.job_id, old_r[i].job_id);
                    assert(job_before(old_r[i], old_r[j - 1]));
                } else if i == p && j > p {
                    assert(p < old_r.len());
                    assert(job_before(x@, old_r[p as int]));
                    if j - 1 > p {
                        assert(job_before(old_r[p as int], old_r[j - 1]));
                        if x@.created_at_unix_ms == old_r[j - 1].created_at_unix_ms {
                            lemma_text_le_trans(x@.job_id, old_r[p as int].job_id, old_r[j - 1].job_id);
                        }
                    }
                } else if i > p {
                    assert(job_before(old_r[i - 1], old_r[j - 1]));
                } else {
                    assert(job_before(old_r[i], old_r[j]));
                }
            }
            assert(views(r@).to_multiset().add(views(v@).to_multiset()) =~= all.to_multiset());
        }
    }
    proof {
        lemma_empty_multiset(views(v@));
        assert(views(r@).to_multiset() =~= all.to_multiset());
    }
    r
}

proof fn lemma_empty_multiset<A>(s: Seq<A>)
    requires
        s.len() == 0,
    ensures
        s.to_multiset() =~= Multiset::<A>::empty(),
{
    vstd::seq_lib::to_multiset_len(s);
    vstd::multiset::lemma_multiset_empty_len(s.to_multiset());
}

// ---------------------------------------------------------------------------
// The job store
// ---------------------------------------------------------------------------

/// What the daemon remembers of one apply job.
#[derive(Clone, Debug, PartialEq, Eq)]
pub struct JobRecord {
    /// Current state.
    pub state: JobState,
    /// Optional progress or completion message.
    pub message: Option<String>,
    /// Creation timestamp in Unix milliseconds.
    pub created_at_unix_ms: u64,
    /// Last update timestamp in Unix milliseconds.
    pub updated_at_unix_ms: u64,
}

/// Mathematical view of a [`JobRecord`].
pub struct JobRecordView {
    pub state: JobState,
    pub message: Option<Seq<char>>,
    pub created_at_unix_ms: u64,
    pub updated_at_unix_ms: u64,
}

impl View for JobRecord {
    type V = JobRecordView;

    open spec fn view(&self) -> JobRecordView {
        JobRecordView {
            state: self.state,
            message: self.message.deep_view(),
            created_at_unix_ms: self.created_at_unix_ms,
            updated_at_unix_ms: self.updated_at_unix_ms,
        }
    }
}

/// Jobs by identifier, each identifier at most once.
pub type Jobs = Seq<(Seq<char>, JobRecordView)>;

pub open spec fn ids_unique(s: Jobs) -> bool {
    forall|i: int, j: int| 0 <= i < j < s.len() ==> (#[trigger] s[i]).0 != (#[trigger] s[j]).0
}

/// Some job has the identifier.
pub open spec fn has_job(s: Jobs, id: Seq<char>) -> bool {
    exists|i: int| 0 <= i < s.len() && (#[trigger] s[i]).0 == id
}

/// The job with an identifier, if any.
pub open spec fn job_of(s: Jobs, id: Seq<char>) -> Option<JobRecordView> {
    if has_job(s, id) {
        Some(s[choose|i: int| 0 <= i < s.len() && (#[trigger] s[i]).0 == id].1)
    } else {
        None
    }
}

/// The jobs after recording `r` under `id`: the job is replaced if it exists.
pub open spec fn jobs_insert(s: Jobs, id: Seq<char>, r: JobRecordView) -> Jobs {
    if has_job(s, id) {
        s.update(choose|i: int| 0 <= i < s.len() && (#[trigger] s[i]).0 == id, (id, r))
    } else {
        s.push((id, r))
    }
}

/// The in-memory store of apply jobs retained by the running daemon.
pub struct JobStore {
    entries: Vec<(String, JobRecord)>,
}

impl JobStore {
    pub closed spec fn view(&self) -> Jobs {
        self.entries@.map_values(|e: (String, JobRecord)| (e.0@, e.1@))
    }

    #[verifier::type_invariant]
    spec fn inv(&self) -> bool {
        ids_unique(self.view())
    }

    /// An empty store.
    pub fn new() -> (s: JobStore)
        ensures
            s.view() == Seq::<(Seq<char>, JobRecordView)>::empty(),
            ids_unique(s.view()),
    {
        let s = JobStore { entries: Vec::new() };
        assert(s.view() =~= Seq::<(Seq<char>, JobRecordView)>::empty());
        s
    }

    fn index_of(&self, id: &String) -> (r: Option<usize>)
        ensures
            match r {
                Some(i) => i < self.view().len() && self.view()[i as int].0 == id@,
                None => !has_job(self.view(), id@),
            },
    {
        let n = self.entries.len();
        for i in 0..n
            invariant
                n == self.entries@.len(),
                forall|j: int| 0 <= j < i ==> (#[trigger] self.view()[j]).0 != id@,
        {
            proof {
                assert(self.view()[i as int].0 == self.entries@[i as int].0@);
            }
            if self.entries[i].0 == *id {
                return Some(i);
            }
        }
        None
    }

    /// The job recorded under `id`.
    pub fn get(&self, id: &String) -> (r: Option<&JobRecord>)
        ensures
            match r {
                Some(rec) => job_of(self.view(), id@) == Some(rec@),
                None => job_of(self.view(), id@) is None,
            },
    {
        proof {
            use_type_invariant(self);
        }
        match self.index_of(id) {
            Some(i) => {
                proof {
                    let k = choose|k: int| 0 <= k < self.view().len() && (#[trigger] self.view()[k]).0 == id@;
                    assert(self.view()[i as int].0 == id@);
                    assert(k == i);
                    assert(self.view()[i as int].1 == self.entries@[i as int].1@);
                }
                Some(&self.entries[i].1)
            },
            None => None,
        }
    }

    /// Records a job under `id`, replacing an existing one.
    pub fn insert(&mut self, id: String, record: JobRecord)
        ensures
            final(self).view() == jobs_insert(old(self).view(), id@, record@),
            ids_unique(final(self).view()),
    {
        proof {
            use_type_invariant(&*self);
        }
        let ghost key = id@;
        let ghost rv = record@;
        match self.index_of(&id) {
            Some(i) => {
                proof {
                    let k = choose|k: int| 0 <= k < self.view().len() && (#[trigger] self.view()[k]).0 == key;
                    assert(self.view()[i as int].0 == key);
                    assert(k == i);
                }
                let mut entries: Vec<(String, JobRecord)> = Vec::new();
                std::mem::swap(&mut entries, &mut self.entries);
                entries.set(i, (id, record));
                proof {
                    let nv = entries@.map_values(|e: (String, JobRecord)| (e.0@, e.1@));
                    assert(nv =~= old(self).view().update(i as int, (key, rv)));
                    assert(ids_unique(nv));
                }
                self.entries = entries;
                proof {
                    assert(self.view() =~= jobs_insert(old(self).view(), key, rv));
                }
            },
            None => {
                let mut entries: Vec<(String, JobRecord)> = Vec::new();
                std::mem::swap(&mut entries, &mut self.entries);
                entries.push((id, record));
                proof {
                    let nv = entries@.map_values(|e: (String, JobRecord)| (e.0@, e.1@));
                    assert(nv =~= old(self).view().push((key, rv)));
                    assert forall|a: int, b: int| 0 <= a < b < nv.len() implies (#[trigger] nv[a]).0
                        != (#[trigger] nv[b]).0 by {
                        if b == nv.len() - 1 {
                            assert(old(self).view()[a].0 != key);
                        }
                    }
                }
                self.entries = entries;
                proof {
                    assert(self.view() =~= jobs_insert(old(self).view(), key, rv));
                }
            },
        }
        proof {
            use_type_invariant(&*self);
        }
    }

    /// Records the outcome of a job: its state, message and update time.
    /// Nothing changes when no job has the identifier.
    pub fn complete(&mut self, id: &String, state: JobState, message: Option<String>, now: u64)
        ensures
            final(self).view() == jobs_complete(old(self).view(), id@, state, message.deep_view(), now),
            ids_unique(final(self).view()),
    {
        proof {
            use_type_invariant(&*self);
        }
        let created = match self.get(id) {
            Some(rec) => rec.created_at_unix_ms,
            None => {
                return;
            },
        };
        let record = JobRecord { state, message, created_at_unix_ms: created, updated_at_unix_ms: now };
        self.insert(id.clone(), record);
    }

    /// The number of jobs, saturated at `u32::MAX`.
    fn len_saturated(&self) -> (n: u32)
        ensures
            n as int == saturated(self.view().len() as int),
    {
        let len = self.entries.len();
        if len > 4294967295 {
            4294967295
        } else {
            len as u32
        }
    }

    /// The number of jobs in a state, saturated at `u32::MAX`.
    fn count(&self, state: JobState) -> (n: u32)
        ensures
            n as int == saturated(count_state(self.view(), state)),
    {
        let mut n: u32 = 0;
        let len = self.entries.len();
        for i in 0..len
            invariant
                len == self.entries@.len(),
                n as int == saturated(count_state(self.view().take(i as int), state)),
        {
            proof {
                assert(self.view().take(i + 1).drop_last() =~= self.view().take(i as int));
                assert(self.view()[i as int].1.state == self.entries@[i as int].1.state);
            }
            if self.entries[i].1.state == state {
                n = n.saturating_add(1);
            }
        }
        proof {
            assert(self.view().take(len as int) =~= self.view());
        }
        n
    }

    /// The summaries of the jobs whose state matches the filter, in store
    /// order.
    fn matching(&self, state: Option<JobState>) -> (r: Vec<JobSummary>)
        ensures
            views(r@) == matching_jobs(self.view(), state),
    {
        let mut r: Vec<JobSummary> = Vec::new();
        let len = self.entries.len();
        for i in 0..len
            invariant
                len == self.entries@.len(),
                views(r@) == matching_jobs(self.view().take(i as int), state),
        {
            proof {
                assert(self.view().take(i + 1).drop_last() =~= self.view().take(i as int));
            }
            let (id, job) = (&self.entries[i].0, &self.entries[i].1);
            let keep = match state {
                Some(s) => job.state == s,
                None => true,
            };
            if keep {
                let message = match &job.message {
                    Some(m) => Some(m.clone()),
                    None => None,
                };
                let summary = JobSummary {
                    job_id: id.clone(),
                    state: job.state,
                    message,
                    created_at_unix_ms: job.created_at_unix_ms,
                    updated_at_unix_ms: job.updated_at_unix_ms,
                };
                let ghost sv = summary@;
                r.push(summary);
                proof {
                    assert(views(r@) =~= matching_jobs(self.view().take(i as int), state).push(sv));
                }
            }
        }
        proof {
            assert(self.view().take(len as int) =~= self.view());
        }
        r
    }

    /// Jobs whose state matches the filter, newest first (ties by
    /// identifier), at most `listing_limit(limit)` of them, and the number of
    /// matching jobs before the limit (saturated at `u32::MAX`).
    pub fn list(&self, state: Option<JobState>, limit: u32) -> (r: (Vec<JobSummary>, u32))
        ensures
            r.1 as int == saturated(matching_jobs(self.view(), state).len() as int),
            exists|all: Seq<JobSummaryView>|
                listed_in_order(all) && all.to_multiset() == matching_jobs(self.view(), state).to_multiset()
                    && views(r.0@) == all.take(min(all.len() as int, listing_limit(limit))),
    {
        let matching = self.matching(state);
        let n = matching.len();
        let total: u32 = if n > 4294967295 {
            4294967295
        } else {
            n as u32
        };
        let sorted = sort_summaries(matching);
        let ghost all = views(sorted@);
        let lim: usize = if limit == 0 {
            100
        } else if limit > 1000 {
            1000
        } else {
            limit as usize
        };
        let mut out: Vec<JobSummary> = Vec::new();
        let mut sorted = sorted;
        let keep: usize = if sorted.len() < lim { sorted.len() } else { lim };
        sorted.truncate(keep);
        proof {
            vstd::seq_lib::to_multiset_len(all);
            vstd::seq_lib::to_multiset_len(matching_jobs(self.view(), state));
            assert(views(sorted@) =~= all.take(min(all.len() as int, listing_limit(limit))));
        }
        (sorted, total)
    }
}

/// A count saturated at `u32::MAX`.
pub open spec fn saturated(n: int) -> int {
    if n > 0xffff_ffff {
        0xffff_ffff
    } else {
        n
    }
}

pub open spec fn min(a: int, b: int) -> int {
    if a < b {
        a
    } else {
        b
    }
}

/// Jobs listed at most: 100 by default, 1000 at the most.
pub open spec fn listing_limit(limit: u32) -> int {
    if limit == 0 {
        100
    } else if limit > 1000 {
        1000
    } else {
        limit as int
    }
}

/// The number of jobs in a state.
pub open spec fn count_state(s: Jobs, state: JobState) -> int
    decreases s.len(),
{
    if s.len() == 0 {
        0
    } else {
        count_state(s.drop_last(), state) + if s.last().1.state == state {
            1int
        } else {
            0int
        }
    }
}

/// The summary of a job.
pub open spec fn summary_of(id: Seq<char>, r: JobRecordView) -> JobSummaryView {
    JobSummaryView {
        job_id: id,
        state: r.state,
        message: r.message,
        created_at_unix_ms: r.created_at_unix_ms,
        updated_at_unix_ms: r.updated_at_unix_ms,
    }
}

/// Summaries of the jobs whose state matches the filter, in store order.
pub open spec fn matching_jobs(s: Jobs, state: Option<JobState>) -> Seq<JobSummaryView>
    decreases s.len(),
{
    if s.len() == 0 {
        Seq::empty()
    } else {
        let rest = matching_jobs(s.drop_last(), state);
        let (id, r) = s.last();
        if state is None || state == Some(r.state) {
            rest.push(summary_of(id, r))
        } else {
            rest
        }
    }
}

/// The jobs after recording the outcome of job `id`.
pub open spec fn jobs_complete(
    s: Jobs,
    id: Seq<char>,
    state: JobState,
    message: Option<Seq<char>>,
    now: u64,
) -> Jobs {
    match job_of(s, id) {
        Some(r) => jobs_insert(
            s,
            id,
            JobRecordView {
                state,
                message,
                created_at_unix_ms: r.created_at_unix_ms,
                updated_at_unix_ms: now,
            },
        ),
        None => s,
    }
}

/// Reading a job gives back what was last recorded under its identifier, and
/// recording one job leaves every other job as it was.
pub proof fn lemma_read_after_record(s: Jobs, id: Seq<char>, r: JobRecordView, other: Seq<char>)
    requires
        ids_unique(s),
    ensures
        ids_unique(jobs_insert(s, id, r)),
        job_of(jobs_insert(s, id, r), id) == Some(r),
        other != id ==> job_of(jobs_insert(s, id, r), other) == job_of(s, other),
{
    let t = jobs_insert(s, id, r);
    if has_job(s, id) {
        let k = choose|i: int| 0 <= i < s.len() && (#[trigger] s[i]).0 == id;
        assert(t[k].0 == id);
        if has_job(s, other) {
            let j = choose|i: int| 0 <= i < s.len() && (#[trigger] s[i]).0 == other;
            if other != id {
                assert(t[j].0 == other);
            }
        }
        if other != id && has_job(t, other) {
            let j = choose|i: int| 0 <= i < t.len() && (#[trigger] t[i]).0 == other;
            assert(s[j].0 == other);
        }
    } else {
        assert(t[s.len() as int].0 == id);
        if has_job(s, other) {
            let j = choose|i: int| 0 <= i < s.len() && (#[trigger] s[i]).0 == other;
            assert(t[j].0 == other);
        }
        if other != id && has_job(t, other) {
            let j = choose|i: int| 0 <= i < t.len() && (#[trigger] t[i]).0 == other;
            assert(s[j].0 == other);
        }
        assert forall|a: int, b: int| 0 <= a < b < t.len() implies (#[trigger] t[a]).0
            != (#[trigger] t[b]).0 by {
            if b == s.len() {
                assert(s[a].0 != id);
            }
        }
    }
}

/// Completing a known job sets its state, message and update time and keeps
/// its creation time.
pub proof fn lemma_read_after_complete(
    s: Jobs,
    id: Seq<char>,
    state: JobState,
    message: Option<Seq<char>>,
    now: u64,
)
    requires
        ids_unique(s),
        has_job(s, id),
    ensures
        job_of(jobs_complete(s, id, state, message, now), id) == Some(
            JobRecordView {
                state,
                message,
                created_at_unix_ms: job_of(s, id)->0.created_at_unix_ms,
                updated_at_unix_ms: now,
            },
        ),
{
    let r = job_of(s, id)->0;
    lemma_read_after_record(
        s,
        id,
        JobRecordView { state, message, created_at_unix_ms: r.created_at_unix_ms, updated_at_unix_ms: now },
        id,
    );
}

// ---------------------------------------------------------------------------
// Responses
// ---------------------------------------------------------------------------

/// The daemon's own state: its jobs, when it started, and its version.
pub struct Daemon {
    /// Apply jobs retained since start.
    pub jobs: JobStore,
    /// Start timestamp in Unix milliseconds.
    pub started_at_unix_ms: u64,
    /// Daemon package version.
    pub version: String,
}

/// Error code of a platform failure.
pub open spec fn platform_code(kind: PlatformErrorKind) -> ErrorCode {
    match kind {
        PlatformErrorKind::InvalidConfig => ErrorCode::InvalidConfig,
        PlatformErrorKind::Unsupported => ErrorCode::Unsupported,
        PlatformErrorKind::PermissionDenied => ErrorCode::PermissionDenied,
        PlatformErrorKind::NotFound => ErrorCode::NotFound,
        PlatformErrorKind::Internal => ErrorCode::Internal,
    }
}

pub fn platform_error_code(kind: PlatformErrorKind) -> (c: ErrorCode)
    ensures
        c == platform_code(kind),
{
    match kind {
        PlatformErrorKind::InvalidConfig => ErrorCode::InvalidConfig,
        PlatformErrorKind::Unsupported => ErrorCode::Unsupported,
        PlatformErrorKind::PermissionDenied => ErrorCode::PermissionDenied,
        PlatformErrorKind::NotFound => ErrorCode::NotFound,
        PlatformErrorKind::Internal => ErrorCode::Internal,
    }
}

/// The typed rejection for a platform failure.
pub fn platform_error_response(error: PlatformError) -> (r: Response)
    ensures
        r@ == (ResponseView::Error { code: platform_code(error.kind), message: error.message@ }),
{
    Response::Error { code: platform_error_code(error.kind), message: error.message }
}

/// State a job ends in after the platform applied its configuration.
pub open spec fn outcome_state(outcome: Result<ApplyReport, PlatformError>) -> JobState {
    match outcome {
        Ok(_) => JobState::Succeeded,
        Err(e) => if e.rolled_back {
            JobState::RolledBack
        } else {
            JobState::Failed
        },
    }
}

/// Message a job ends with after the platform applied its configuration.
pub open spec fn outcome_message(outcome: Result<ApplyReport, PlatformError>) -> Seq<char> {
    match outcome {
        Ok(report) => report.message@,
        Err(e) => e.message@,
    }
}

/// The answer to a job status query: the job's state and message, or a
/// not-found rejection naming the job.
pub open spec fn job_status_view(s: Jobs, job_id: Seq<char>) -> ResponseView {
    match job_of(s, job_id) {
        Some(rec) => ResponseView::JobStatus { job_id, state: rec.state, message: rec.message },
        None => ResponseView::Error {
            code: ErrorCode::NotFound,
            message: "job "@ + debug_text(job_id) + " does not exist"@,
        },
    }
}

/// Whether `r` lists the jobs of `s` in the given state: newest first (ties
/// by identifier), at most `limit` of them (see `listing_limit`), with the
/// number of all matching jobs.
pub open spec fn is_listing(s: Jobs, state: Option<JobState>, limit: u32, r: ResponseView) -> bool {
    exists|all: Seq<JobSummaryView>|
        listed_in_order(all) && all.to_multiset() == matching_jobs(s, state).to_multiset() && r == (
        ResponseView::Jobs {
            jobs: all.take(min(all.len() as int, listing_limit(limit))),
            total: saturated(matching_jobs(s, state).len() as int) as u32,
        })
}

/// Whether a Wi-Fi scan timeout is accepted: 250 to 15000 milliseconds.
pub open spec fn scan_timeout_ok(timeout_ms: u32) -> bool {
    250 <= timeout_ms <= 15000
}

impl Daemon {
    /// A daemon with no jobs.
    pub fn new(version: String, started_at_unix_ms: u64) -> (d: Daemon)
        ensures
            d.jobs.view() == Seq::<(Seq<char>, JobRecordView)>::empty(),
            d.started_at_unix_ms == started_at_unix_ms,
            d.version@ == version@,
    {
        Daemon { jobs: JobStore::new(), started_at_unix_ms, version }
    }

    /// Health and version probe.
    pub fn ping(&self) -> (r: Response)
        ensures
            r@ == (ResponseView::Pong { daemon_version: self.version@, protocol_version: PROTOCOL_VERSION }),
    {
        Response::Pong { daemon_version: self.version.clone(), protocol_version: PROTOCOL_VERSION }
    }

    /// Uptime and job counters.
    pub fn status(&self, uptime_ms: u64) -> (r: Response)
        ensures
            ({
                let s = self.jobs.view();
                r@ == (ResponseView::DaemonStatus {
                    daemon_version: self.version@,
                    protocol_version: PROTOCOL_VERSION,
                    started_at_unix_ms: self.started_at_unix_ms,
                    uptime_ms,
                    total_jobs: saturated(s.len() as int) as u32,
                    queued_jobs: saturated(count_state(s, JobState::Queued)) as u32,
                    running_jobs: saturated(count_state(s, JobState::Running)) as u32,
                    succeeded_jobs: saturated(count_state(s, JobState::Succeeded)) as u32,
                    failed_jobs: saturated(count_state(s, JobState::Failed)) as u32,
                    rolled_back_jobs: saturated(count_state(s, JobState::RolledBack)) as u32,
                })
            }),
    {
        let total = self.jobs.len_saturated();
        Response::DaemonStatus {
            daemon_version: self.version.clone(),
            protocol_version: PROTOCOL_VERSION,
            started_at_unix_ms: self.started_at_unix_ms,
            uptime_ms,
            total_jobs: total,
            queued_jobs: self.jobs.count(JobState::Queued),
            running_jobs: self.jobs.count(JobState::Running),
            succeeded_jobs: self.jobs.count(JobState::Succeeded),
            failed_jobs: self.jobs.count(JobState::Failed),
            rolled_back_jobs: self.jobs.count(JobState::RolledBack),
        }
    }

    /// The state of one job, or a not-found rejection.
    pub fn job_status(&self, job_id: String) -> (r: Response)
        ensures
            r@ == job_status_view(self.jobs.view(), job_id@),
    {
        match self.jobs.get(&job_id) {
            Some(job) => {
                let message = match &job.message {
                    Some(m) => Some(m.clone()),
                    None => None,
                };
                Response::JobStatus { job_id, state: job.state, message }
            },
            None => {
                let mut m = owned("job ");
                let d = debug_string(job_id.as_str());
                append(&mut m, d.as_str());
                append(&mut m, " does not exist");
                Response::Error { code: ErrorCode::NotFound, message: m }
            },
        }
    }

    /// Jobs matching a state filter, newest first, limited.
    pub fn list_jobs(&self, state: Option<JobState>, limit: u32) -> (r: Response)
        ensures
            is_listing(self.jobs.view(), state, limit, r@),
    {
        let (jobs, total) = self.jobs.list(state, limit);
        Response::Jobs { jobs, total }
    }

    /// The answer to a document that failed to parse or validate: a
    /// validation report for `Validate`, a rejection otherwise.
    pub fn config_invalid(action: ConfigAction, error: &Error) -> (r: Response)
        ensures
            action == ConfigAction::Validate ==> r@ == (ResponseView::Validation {
                valid: false,
                issues: seq![ValidationIssueView { path: None, message: error_message(*error) }],
            }),
            action != ConfigAction::Validate ==> r@ == (ResponseView::Error {
                code: ErrorCode::InvalidConfig,
                message: error_message(*error),
            }),
    {
        let message = error.message();
        if action == ConfigAction::Validate {
            let issue = ValidationIssue { path: None, message };
            let ghost iv = issue@;
            let mut issues: Vec<ValidationIssue> = Vec::new();
            issues.push(issue);
            assert(views(issues@) =~= seq![iv]);
            Response::Validation { valid: false, issues }
        } else {
            Response::Error { code: ErrorCode::InvalidConfig, message }
        }
    }

    /// The answer to a valid document for `Validate`.
    pub fn config_valid() -> (r: Response)
        ensures
            r@ == (ResponseView::Validation { valid: true, issues: Seq::empty() }),
    {
        let issues: Vec<ValidationIssue> = Vec::new();
        assert(views(issues@) =~= Seq::<ValidationIssueView>::empty());
        Response::Validation { valid: true, issues }
    }

    /// The answer to a valid document for `Plan`.
    pub fn config_plan(config: &NetplanConfig) -> (r: Response)
        ensures
            r@ == ResponseView::Plan(plan_of(*config)),
    {
        Response::Plan(build_plan(config))
    }

    /// A dry-run apply: the job is recorded as succeeded without touching the
    /// system.
    pub fn apply_dry_run(&mut self, config: &NetplanConfig, job_id: String, now: u64) -> (r: Response)
        ensures
            r@ == (ResponseView::Apply { job_id: job_id@, state: JobState::Succeeded, operations: plan_of(*config) }),
            final(self).jobs.view() == jobs_insert(
                old(self).jobs.view(),
                job_id@,
                JobRecordView {
                    state: JobState::Succeeded,
                    message: Some("dry-run completed; no system state was changed"@),
                    created_at_unix_ms: now,
                    updated_at_unix_ms: now,
                },
            ),
            final(self).started_at_unix_ms == old(self).started_at_unix_ms,
            final(self).version == old(self).version,
    {
        let operations = build_plan(config);
        let record = JobRecord {
            state: JobState::Succeeded,
            message: Some(owned("dry-run completed; no system state was changed")),
            created_at_unix_ms: now,
            updated_at_unix_ms: now,
        };
        self.jobs.insert(job_id.clone(), record);
        Response::Apply { job_id, state: JobState::Succeeded, operations }
    }

    /// A live apply that passed its preflight: the job is recorded as running.
    pub fn apply_started(&mut self, config: &NetplanConfig, job_id: String, now: u64) -> (r: Response)
        ensures
            r@ == (ResponseView::Apply { job_id: job_id@, state: JobState::Running, operations: plan_of(*config) }),
            final(self).jobs.view() == jobs_insert(
                old(self).jobs.view(),
                job_id@,
                JobRecordView {
                    state: JobState::Running,
                    message: Some("live apply is running"@),
                    created_at_unix_ms: now,
                    updated_at_unix_ms: now,
                },
            ),
            final(self).started_at_unix_ms == old(self).started_at_unix_ms,
            final(self).version == old(self).version,
    {
        let operations = build_plan(config);
        let record = JobRecord {
            state: JobState::Running,
            message: Some(owned("live apply is running")),
            created_at_unix_ms: now,
            updated_at_unix_ms: now,
        };
        self.jobs.insert(job_id.clone(), record);
        Response::Apply { job_id, state: JobState::Running, operations }
    }

    /// Records what the platform did with a live apply.
    pub fn apply_finished(&mut self, job_id: &String, outcome: Result<ApplyReport, PlatformError>, now: u64)
        ensures
            final(self).jobs.view() == jobs_complete(
                old(self).jobs.view(),
                job_id@,
                outcome_state(outcome),
                Some(outcome_message(outcome)),
                now,
            ),
            final(self).started_at_unix_ms == old(self).started_at_unix_ms,
            final(self).version == old(self).version,
    {
        let (state, message) = match outcome {
            Ok(report) => (JobState::Succeeded, report.message),
            Err(error) => (
                if error.rolled_back {
                    JobState::RolledBack
                } else {
                    JobState::Failed
                },
                error.message,
            ),
        };
        self.jobs.complete(job_id, state, Some(message), now);
    }

    /// Records that the platform task itself failed.
    pub fn apply_task_failed(&mut self, job_id: &String, message: String, now: u64)
        ensures
            final(self).jobs.view() == jobs_complete(
                old(self).jobs.view(),
                job_id@,
                JobState::Failed,
                Some(message@),
                now,
            ),
            final(self).started_at_unix_ms == old(self).started_at_unix_ms,
            final(self).version == old(self).version,
    {
        self.jobs.complete(job_id, JobState::Failed, Some(message), now);
    }
}

/// The adapter inventory, or an internal rejection with the error's text.
pub fn adapters_response(adapters: Result<Vec<AdapterInfo>, Error>) -> (r: Response)
    ensures
        match adapters {
            Ok(a) => r@ == ResponseView::Adapters(views(a@)),
            Err(e) => r@ == (ResponseView::Error { code: ErrorCode::Internal, message: error_message(e) }),
        },
{
    match adapters {
        Ok(a) => Response::Adapters(a),
        Err(e) => Response::Error { code: ErrorCode::Internal, message: e.message() },
    }
}

/// Adapter and Wi-Fi state; a Wi-Fi failure is reported beside the adapters.
pub fn network_status_response(
    adapters: Result<Vec<AdapterInfo>, Error>,
    wifi: Result<Vec<WifiInterfaceStatus>, PlatformError>,
    now: u64,
) -> (r: Response)
    ensures
        match (adapters, wifi) {
            (Err(e), _) => r@ == (ResponseView::Error { code: ErrorCode::Internal, message: error_message(e) }),
            (Ok(a), Ok(w)) => r@ == (ResponseView::NetworkStatus {
                captured_at_unix_ms: now,
                adapters: views(a@),
                wifi_interfaces: views(w@),
                wifi_error: None,
            }),
            (Ok(a), Err(e)) => r@ == (ResponseView::NetworkStatus {
                captured_at_unix_ms: now,
                adapters: views(a@),
                wifi_interfaces: Seq::empty(),
                wifi_error: Some(e.message@),
            }),
        },
{
    match adapters {
        Err(e) => Response::Error { code: ErrorCode::Internal, message: e.message() },
        Ok(a) => match wifi {
            Ok(w) => Response::NetworkStatus {
                captured_at_unix_ms: now,
                adapters: a,
                wifi_interfaces: w,
                wifi_error: None,
            },
            Err(e) => {
                let none: Vec<WifiInterfaceStatus> = Vec::new();
                assert(views(none@) =~= Seq::<crate::model::WifiInterfaceView>::empty());
                Response::NetworkStatus {
                    captured_at_unix_ms: now,
                    adapters: a,
                    wifi_interfaces: none,
                    wifi_error: Some(e.message),
                }
            },
        },
    }
}

/// Wi-Fi interface states, or the platform's rejection.
pub fn wifi_status_response(r: Result<Vec<WifiInterfaceStatus>, PlatformError>) -> (out: Response)
    ensures
        match r {
            Ok(w) => out@ == ResponseView::WifiStatus(views(w@)),
            Err(e) => out@ == (ResponseView::Error { code: platform_code(e.kind), message: e.message@ }),
        },
{
    match r {
        Ok(w) => Response::WifiStatus(w),
        Err(e) => platform_error_response(e),
    }
}

/// Whether a Wi-Fi scan timeout is accepted.
pub fn scan_timeout_valid(timeout_ms: u32) -> (r: bool)
    ensures
        r == scan_timeout_ok(timeout_ms),
{
    250 <= timeout_ms && timeout_ms <= 15000
}

/// The rejection of a scan with a timeout out of range.
pub fn scan_timeout_rejected() -> (r: Response)
    ensures
        r@ == (ResponseView::Error {
            code: ErrorCode::InvalidRequest,
            message: "Wi-Fi scan timeout_ms must be between 250 and 15000"@,
        }),
{
    Response::Error {
        code: ErrorCode::InvalidRequest,
        message: owned("Wi-Fi scan timeout_ms must be between 250 and 15000"),
    }
}

/// Networks found by a scan, or the platform's rejection.
pub fn wifi_scan_response(r: Result<(bool, Vec<WifiNetwork>), PlatformError>) -> (out: Response)
    ensures
        match r {
            Ok((refreshed, n)) => out@ == (ResponseView::WifiNetworks { refreshed, networks: views(n@) }),
            Err(e) => out@ == (ResponseView::Error { code: platform_code(e.kind), message: e.message@ }),
        },
{
    match r {
        Ok((refreshed, networks)) => Response::WifiNetworks { refreshed, networks },
        Err(e) => platform_error_response(e),
    }
}


// ---------------------------------------------------------------------------
// Dispatch
// ---------------------------------------------------------------------------

/// What answering a request takes: an answer at once, or outside work whose
/// result the daemon turns into the answer.
pub enum Route {
    /// The answer, with no outside work.
    Respond(Response),
    /// Read the uptime, then report the daemon status (`Daemon::status`).
    Status,
    /// Report the platform's capabilities.
    Capabilities,
    /// Read the adapters (`adapters_response`).
    Adapters,
    /// Parse the document, then act on it (`Daemon::config_parsed`).
    Config { action: ConfigAction, format: ConfigFormat, document: Vec<u8>, dry_run: bool },
    /// Read adapters and Wi-Fi state (`network_status_response`).
    NetworkStatus,
    /// Read Wi-Fi interface states (`wifi_status_response`).
    WifiStatus { if_index: Option<u32> },
    /// Scan for Wi-Fi networks (`wifi_scan_response`).
    WifiScan { if_index: Option<u32>, refresh: bool, timeout_ms: u32 },
}

/// What a parsed configuration document takes next.
pub enum ConfigRoute {
    /// The answer, with no outside work.
    Respond(Response),
    /// Run the platform's preflight on the configuration, then start the live
    /// apply (`Daemon::preflight_done`).
    Preflight(NetplanConfig),
}

impl Daemon {
    /// Routes a request: answers at once what the daemon's own state
    /// decides, and names the outside work that everything else needs.
    pub fn dispatch(&self, request: Request) -> (r: Route)
        ensures
            match request@ {
                RequestView::Ping => r matches Route::Respond(resp) && resp@ == (ResponseView::Pong {
                    daemon_version: self.version@,
                    protocol_version: PROTOCOL_VERSION,
                }),
                RequestView::DaemonStatus => r is Status,
                RequestView::Capabilities => r is Capabilities,
                RequestView::ListAdapters => r is Adapters,
                RequestView::Config { action, format, document, dry_run } => r matches Route::Config {
                    action: a,
                    format: f,
                    document: d,
                    dry_run: n,
                } && a == action && f == format && d@ == document && n == dry_run,
                RequestView::JobStatus { job_id } => r matches Route::Respond(resp) && resp@
                    == job_status_view(self.jobs.view(), job_id),
                RequestView::ListJobs { state, limit } => r matches Route::Respond(resp) && is_listing(
                    self.jobs.view(),
                    state,
                    limit,
                    resp@,
                ),
                RequestView::NetworkStatus => r is NetworkStatus,
                RequestView::WifiStatus { if_index } => r matches Route::WifiStatus { if_index: i }
                    && i == if_index,
                RequestView::WifiScan { if_index, refresh, timeout_ms } => if scan_timeout_ok(timeout_ms) {
                    r matches Route::WifiScan { if_index: i, refresh: f, timeout_ms: t } && i == if_index
                        && f == refresh && t == timeout_ms
                } else {
                    r matches Route::Respond(resp) && resp@ == (ResponseView::Error {
                        code: ErrorCode::InvalidRequest,
                        message: "Wi-Fi scan timeout_ms must be between 250 and 15000"@,
                    })
                },
            },
    {
        match request {
            Request::Ping => Route::Respond(self.ping()),
            Request::DaemonStatus => Route::Status,
            Request::Capabilities => Route::Capabilities,
            Request::ListAdapters => Route::Adapters,
            Request::Config { action, format, document, dry_run } => Route::Config {
                action,
                format,
                document,
                dry_run,
            },
            Request::JobStatus { job_id } => Route::Respond(self.job_status(job_id)),
            Request::ListJobs { state, limit } => Route::Respond(self.list_jobs(state, limit)),
            Request::NetworkStatus => Route::NetworkStatus,
            Request::WifiStatus { if_index } => Route::WifiStatus { if_index },
            Request::WifiScan { if_index, refresh, timeout_ms } => {
                if scan_timeout_valid(timeout_ms) {
                    Route::WifiScan { if_index, refresh, timeout_ms }
                } else {
                    Route::Respond(scan_timeout_rejected())
                }
            },
        }
    }

    /// Acts on a parsed configuration document. A document that failed to
    /// parse gets `config_invalid`; `Validate` and `Plan` are answered; a
    /// dry-run apply is recorded as done (with `job_id` and `now`); a live
    /// apply goes to the platform's preflight, with no job recorded yet.
    pub fn config_parsed(
        &mut self,
        action: ConfigAction,
        dry_run: bool,
        parsed: Result<NetplanConfig, Error>,
        job_id: String,
        now: u64,
    ) -> (r: ConfigRoute)
        ensures
            final(self).started_at_unix_ms == old(self).started_at_unix_ms,
            final(self).version == old(self).version,
            match parsed {
                Err(e) => r matches ConfigRoute::Respond(resp) && final(self).jobs.view()
                    == old(self).jobs.view() && (action == ConfigAction::Validate ==> resp@ == (ResponseView::Validation {
                    valid: false,
                    issues: seq![ValidationIssueView { path: None, message: error_message(e) }],
                })) && (action != ConfigAction::Validate ==> resp@ == (ResponseView::Error {
                    code: ErrorCode::InvalidConfig,
                    message: error_message(e),
                })),
                Ok(config) => match action {
                    ConfigAction::Validate => r matches ConfigRoute::Respond(resp) && final(self).jobs.view()
                        == old(self).jobs.view() && resp@ == (ResponseView::Validation {
                        valid: true,
                        issues: Seq::empty(),
                    }),
                    ConfigAction::Plan => r matches ConfigRoute::Respond(resp) && final(self).jobs.view()
                        == old(self).jobs.view() && resp@ == ResponseView::Plan(plan_of(config)),
                    ConfigAction::Apply => if dry_run {
                        r matches ConfigRoute::Respond(resp) && resp@ == (ResponseView::Apply {
                            job_id: job_id@,
                            state: JobState::Succeeded,
                            operations: plan_of(config),
                        }) && final(self).jobs.view() == jobs_insert(
                            old(self).jobs.view(),
                            job_id@,
                            JobRecordView {
                                state: JobState::Succeeded,
                                message: Some("dry-run completed; no system state was changed"@),
                                created_at_unix_ms: now,
                                updated_at_unix_ms: now,
                            },
                        )
                    } else {
                        final(self).jobs.view() == old(self).jobs.view() && r == ConfigRoute::Preflight(config)
                    },
                },
            },
    {
        match parsed {
            Err(e) => ConfigRoute::Respond(Daemon::config_invalid(action, &e)),
            Ok(config) => match action {
                ConfigAction::Validate => ConfigRoute::Respond(Daemon::config_valid()),
                ConfigAction::Plan => ConfigRoute::Respond(Daemon::config_plan(&config)),
                ConfigAction::Apply => {
                    if dry_run {
                        ConfigRoute::Respond(self.apply_dry_run(&config, job_id, now))
                    } else {
                        ConfigRoute::Preflight(config)
                    }
                },
            },
        }
    }

    /// Acts on the platform's preflight of a live apply: a refusal is
    /// answered with the platform's error, else the job is recorded as
    /// running (`apply_started`).
    pub fn preflight_done(
        &mut self,
        config: &NetplanConfig,
        preflight: Result<(), PlatformError>,
        job_id: String,
        now: u64,
    ) -> (r: Response)
        ensures
            final(self).started_at_unix_ms == old(self).started_at_unix_ms,
            final(self).version == old(self).version,
            match preflight {
                Err(e) => final(self).jobs.view() == old(self).jobs.view() && r@ == (ResponseView::Error {
                    code: platform_code(e.kind),
                    message: e.message@,
                }),
                Ok(()) => r@ == (ResponseView::Apply {
                    job_id: job_id@,
                    state: JobState::Running,
                    operations: plan_of(*config),
                }) && final(self).jobs.view() == jobs_insert(
                    old(self).jobs.view(),
                    job_id@,
                    JobRecordView {
                        state: JobState::Running,
                        message: Some("live apply is running"@),
                        created_at_unix_ms: now,
                        updated_at_unix_ms: now,
                    },
                ),
            },
    {
        match preflight {
            Err(e) => platform_error_response(e),
            Ok(()) => self.apply_started(config, job_id, now),
        }
    }
}


// ---------------------------------------------------------------------------
// Laws of the job lifecycle
// ---------------------------------------------------------------------------

/// A dry-run apply is answered, when its job is queried, as succeeded with
/// the dry-run message.
pub proof fn lemma_dry_run_is_queryable(s: Jobs, id: Seq<char>, now: u64)
    requires
        ids_unique(s),
    ensures
        job_status_view(
            jobs_insert(
                s,
                id,
                JobRecordView {
                    state: JobState::Succeeded,
                    message: Some("dry-run completed; no system state was changed"@),
                    created_at_unix_ms: now,
                    updated_at_unix_ms: now,
                },
            ),
            id,
        ) == (ResponseView::JobStatus {
            job_id: id,
            state: JobState::Succeeded,
            message: Some("dry-run completed; no system state was changed"@),
        }),
{
    lemma_read_after_record(
        s,
        id,
        JobRecordView {
            state: JobState::Succeeded,
            message: Some("dry-run completed; no system state was changed"@),
            created_at_unix_ms: now,
            updated_at_unix_ms: now,
        },
        id,
    );
}

/// A live apply is answered as running while the platform works, and then
/// with the state and message of the platform's outcome: succeeded, failed,
/// or rolled back.
pub proof fn lemma_live_apply_is_queryable(
    s: Jobs,
    id: Seq<char>,
    started: u64,
    outcome: Result<ApplyReport, PlatformError>,
    now: u64,
)
    requires
        ids_unique(s),
    ensures
        ({
            let running = jobs_insert(
                s,
                id,
                JobRecordView {
                    state: JobState::Running,
                    message: Some("live apply is running"@),
                    created_at_unix_ms: started,
                    updated_at_unix_ms: started,
                },
            );
            &&& job_status_view(running, id) == (ResponseView::JobStatus {
                job_id: id,
                state: JobState::Running,
                message: Some("live apply is running"@),
            })
            &&& job_status_view(
                jobs_complete(running, id, outcome_state(outcome), Some(outcome_message(outcome)), now),
                id,
            ) == (ResponseView::JobStatus {
                job_id: id,
                state: outcome_state(outcome),
                message: Some(outcome_message(outcome)),
            })
        }),
{
    let r = JobRecordView {
        state: JobState::Running,
        message: Some("live apply is running"@),
        created_at_unix_ms: started,
        updated_at_unix_ms: started,
    };
    lemma_read_after_record(s, id, r, id);
    let running = jobs_insert(s, id, r);
    assert(has_job(running, id));
    lemma_read_after_complete(running, id, outcome_state(outcome), Some(outcome_message(outcome)), now);
}

/// Recording a new job counts it once more in its state and in the total,
/// and leaves the counts of the other states unchanged.
pub proof fn lemma_new_job_is_counted(s: Jobs, id: Seq<char>, r: JobRecordView, other: JobState)
    requires
        !has_job(s, id),
    ensures
        jobs_insert(s, id, r).len() == s.len() + 1,
        count_state(jobs_insert(s, id, r), r.state) == count_state(s, r.state) + 1,
        other != r.state ==> count_state(jobs_insert(s, id, r), other) == count_state(s, other),
{
    assert(jobs_insert(s, id, r).drop_last() =~= s);
}

} // verus!
