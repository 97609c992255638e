//! The job ledger and the orchestrator's state machine over it: every
//! submitted download is a row that is created `InProgress` and transitions
//! exactly once to `Finished` or `Failed`; rows are never deleted, and a
//! row left `InProgress` across a restart is swept to `Failed`.
use crate::DownloadError;
use vstd::prelude::*;
use vstd::seq_lib::*;
use vstd::string::*;

verus! {

/// The lifecycle state of a download job: `InProgress` from acceptance,
/// then exactly one of `Finished` or `Failed`, never anything else.
#[derive(Clone, Copy, PartialEq, Eq, Structural, Debug)]
pub enum Status {
    InProgress,
    Finished,
    Failed,
}

/// The status a ledger row encodes, read back from its stored form;
/// nothing for any other text.
pub open spec fn status_from_db_spec(s: Seq<char>) -> Option<Status> {
    if s == "in progress"@ {
        Some(Status::InProgress)
    } else if s == "finished"@ {
        Some(Status::Finished)
    } else if s == "failed"@ {
        Some(Status::Failed)
    } else {
        None
    }
}

/// Reads a status back from its stored text form.
pub fn status_from_db(s: &str) -> (r: Option<Status>)
    ensures
        r == status_from_db_spec(s@),
{
    if crate::text::str_eq(s, "in progress") {
        Some(Status::InProgress)
    } else if crate::text::str_eq(s, "finished") {
        Some(Status::Finished)
    } else if crate::text::str_eq(s, "failed") {
        Some(Status::Failed)
    } else {
        None
    }
}

/// One job row: identity, owner, submitted URL, timestamps, resolved name
/// and size once known, and lifecycle status.
pub struct Download {
    pub id: u64,
    pub url: Option<String>,
    pub file_name: Option<String>,
    pub file_size: Option<usize>,
    pub start_time: String,
    pub end_time: Option<String>,
    pub status: Status,
    pub user_id: u64,
}

/// The mathematical value of a job row.
#[verifier::ext_equal]
pub struct DownloadV {
    pub id: u64,
    pub url: Option<Seq<char>>,
    pub file_name: Option<Seq<char>>,
    pub file_size: Option<usize>,
    pub start_time: Seq<char>,
    pub end_time: Option<Seq<char>>,
    pub status: Status,
    pub user_id: u64,
}

impl View for Download {
    type V = DownloadV;

    open spec fn view(&self) -> DownloadV {
        DownloadV {
            id: self.id,
            url: self.url.deep_view(),
            file_name: self.file_name.deep_view(),
            file_size: self.file_size,
            start_time: self.start_time@,
            end_time: self.end_time.deep_view(),
            status: self.status,
            user_id: self.user_id,
        }
    }
}

impl DeepView for Download {
    type V = DownloadV;

    open spec fn deep_view(&self) -> DownloadV {
        self.view()
    }
}

/// A duplicate of an optional string.
fn clone_opt_string(o: &Option<String>) -> (r: Option<String>)
    ensures
        r == *o,
{
    match o {
        Some(s) => Some(s.clone()),
        None => None,
    }
}

impl Clone for Download {
    /// An exact copy of the row.
    fn clone(&self) -> (r: Self)
        ensures
            r@ == self@,
    {
        Download {
            id: self.id,
            url: clone_opt_string(&self.url),
            file_name: clone_opt_string(&self.file_name),
            file_size: self.file_size,
            start_time: self.start_time.clone(),
            end_time: clone_opt_string(&self.end_time),
            status: self.status,
            user_id: self.user_id,
        }
    }
}

/// What a finished resolution reports back: the final file name and the
/// total bytes written.
pub struct DownloadResult {
    pub file_name: String,
    pub file_size: u64,
}

/// The mathematical value of a resolution report.
pub struct DownloadResultV {
    pub file_name: Seq<char>,
    pub file_size: u64,
}

impl View for DownloadResult {
    type V = DownloadResultV;

    open spec fn view(&self) -> DownloadResultV {
        DownloadResultV { file_name: self.file_name@, file_size: self.file_size }
    }
}

/// How one row may change while the ledger evolves: identity, owner, URL
/// and creation time are immutable; a terminal row never changes again; a
/// row never becomes `InProgress` by change; so the only movement is the
/// one step from `InProgress` to a terminal state.
pub open spec fn job_evolves(a: DownloadV, b: DownloadV) -> bool {
    &&& b.id == a.id
    &&& b.url == a.url
    &&& b.start_time == a.start_time
    &&& b.user_id == a.user_id
    &&& (a.status != Status::InProgress ==> b == a)
    &&& (b.status == Status::InProgress ==> b == a)
}

/// How the ledger may evolve: rows are never deleted, and each existing
/// row moves only as `job_evolves` allows.
pub open spec fn ledger_evolves(pre: Seq<DownloadV>, post: Seq<DownloadV>) -> bool {
    &&& post.len() >= pre.len()
    &&& forall|k: int| 0 <= k < pre.len() ==> job_evolves(pre[k], #[trigger] post[k])
}

/// Evolution composes: a job transitions at most once over any run of
/// ledger operations, a terminal row stays exactly as it was, and no row
/// reverts to `InProgress`.
pub proof fn lemma_ledger_evolves_transitive(
    a: Seq<DownloadV>,
    b: Seq<DownloadV>,
    c: Seq<DownloadV>,
)
    requires
        ledger_evolves(a, b),
        ledger_evolves(b, c),
    ensures
        ledger_evolves(a, c),
{
}

/// A row seen in a terminal state never changes again, however the ledger
/// evolves afterwards.
pub proof fn lemma_terminal_rows_stable(pre: Seq<DownloadV>, post: Seq<DownloadV>, k: int)
    requires
        ledger_evolves(pre, post),
        0 <= k < pre.len(),
        pre[k].status != Status::InProgress,
    ensures
        post[k] == pre[k],
{
}

/// The durable record of job rows, in insertion order, keyed by the
/// auto-assigned id: row `k` holds id `k + 1`, so ids are assigned
/// monotonically and never reused.
pub struct Ledger {
    jobs: Vec<Download>,
}

impl View for Ledger {
    type V = Seq<DownloadV>;

    closed spec fn view(&self) -> Seq<DownloadV> {
        self.jobs.deep_view()
    }
}

impl Ledger {
    /// Ids equal positions plus one.
    pub open spec fn wf(&self) -> bool {
        forall|k: int| 0 <= k < self@.len() ==> (#[trigger] self@[k]).id == k + 1
    }

    /// A fresh, empty ledger.
    pub fn new() -> (r: Ledger)
        ensures
            r@ == Seq::<DownloadV>::empty(),
            r.wf(),
    {
        let r = Ledger { jobs: Vec::new() };
        proof {
            assert(r@ =~= Seq::<DownloadV>::empty());
        }
        r
    }

    /// How many rows the ledger holds.
    pub fn len(&self) -> (n: usize)
        ensures
            n == self@.len(),
    {
        self.jobs.len()
    }

    /// The row a submission creates: `InProgress`, owned, carrying the URL
    /// and the creation time, with nothing resolved yet.
    pub open spec fn fresh_row(id: u64, url: Seq<char>, user_id: u64, now: Seq<char>) -> DownloadV {
        DownloadV {
            id: id,
            url: Some(url),
            file_name: None,
            file_size: None,
            start_time: now,
            end_time: None,
            status: Status::InProgress,
            user_id: user_id,
        }
    }

    /// Inserts a new `InProgress` row for `url` on behalf of `user_id` and
    /// hands back its id; the row is visible to readers as soon as this
    /// returns.
    pub fn insert_new_download(&mut self, url: &str, user_id: u64, now: &str) -> (id: u64)
        requires
            old(self).wf(),
            old(self)@.len() < u64::MAX,
        ensures
            final(self).wf(),
            id == old(self)@.len() + 1,
            final(self)@ == old(self)@.push(Ledger::fresh_row(id, url@, user_id, now@)),
            ledger_evolves(old(self)@, final(self)@),
    {
        let id = (self.jobs.len() as u64) + 1;
        let row = Download {
            id,
            url: Some(String::from_str(url)),
            file_name: None,
            file_size: None,
            start_time: String::from_str(now),
            end_time: None,
            status: Status::InProgress,
            user_id,
        };
        self.jobs.push(row);
        proof {
            assert(self@ =~= old(self)@.push(Ledger::fresh_row(id, url@, user_id, now@)));
        }
        id
    }

    /// The row carrying `id`, when one exists.
    pub fn get_download(&self, id: u64) -> (r: Option<&Download>)
        requires
            self.wf(),
        ensures
            match r {
                Some(d) => 1 <= id <= self@.len() && d@ == self@[id as int - 1],
                None => !(1 <= id <= self@.len()),
            },
    {
        if id >= 1 && id <= self.jobs.len() as u64 {
            let d = &self.jobs[(id - 1) as usize];
            Some(d)
        } else {
            None
        }
    }

    /// The terminal row an outcome leaves behind: a success writes the
    /// final name, the size and the completion time and moves to
    /// `Finished`; a failure writes only the completion time and moves to
    /// `Failed`, the cause being logged elsewhere, never persisted.
    pub open spec fn settled_row(
        row: DownloadV,
        outcome: Result<DownloadResultV, DownloadError>,
        now: Seq<char>,
    ) -> DownloadV {
        match outcome {
            Ok(res) => DownloadV {
                file_name: Some(res.file_name),
                file_size: Some(res.file_size as usize),
                end_time: Some(now),
                status: Status::Finished,
                ..row
            },
            Err(_) => DownloadV { end_time: Some(now), status: Status::Failed, ..row },
        }
    }

    /// Settles the row `row_id` with the background pipeline's outcome,
    /// moving it from `InProgress` to `Finished` or `Failed`. A row that
    /// does not exist or is already terminal is left untouched, so a job is
    /// transitioned at most once.
    pub fn update_download(
        &mut self,
        row_id: u64,
        result: Result<DownloadResult, DownloadError>,
        now: &str,
    )
        requires
            old(self).wf(),
            result matches Ok(r) ==> r.file_size <= usize::MAX as u64,
        ensures
            final(self).wf(),
            ledger_evolves(old(self)@, final(self)@),
            (1 <= row_id <= old(self)@.len() && old(self)@[row_id as int - 1].status
                == Status::InProgress) ==> final(self)@ == old(self)@.update(
                row_id as int - 1,
                Ledger::settled_row(
                    old(self)@[row_id as int - 1],
                    match result {
                        Ok(r) => Ok(r@),
                        Err(e) => Err(e),
                    },
                    now@,
                ),
            ),
            !(1 <= row_id <= old(self)@.len() && old(self)@[row_id as int - 1].status
                == Status::InProgress) ==> final(self)@ == old(self)@,
    {
        proof {
            assert(self@ =~= old(self)@);
        }
        if row_id < 1 || row_id > self.jobs.len() as u64 {
            return ;
        }
        let k = (row_id - 1) as usize;
        let row = &self.jobs[k];
        if !matches!(row.status, Status::InProgress) {
            return ;
        }
        let settled = match result {
            Ok(res) => Download {
                id: row.id,
                url: clone_opt_string(&row.url),
                file_name: Some(res.file_name),
                file_size: Some(res.file_size as usize),
                start_time: row.start_time.clone(),
                end_time: Some(String::from_str(now)),
                status: Status::Finished,
                user_id: row.user_id,
            },
            Err(_) => Download {
                id: row.id,
                url: clone_opt_string(&row.url),
                file_name: clone_opt_string(&row.file_name),
                file_size: row.file_size,
                start_time: row.start_time.clone(),
                end_time: Some(String::from_str(now)),
                status: Status::Failed,
                user_id: row.user_id,
            },
        };
        let ghost settled_v = settled@;
        self.jobs.set(k, settled);
        proof {
            assert(self@ =~= old(self)@.update(k as int, settled_v));
        }
    }

    /// Sweeps every row still `InProgress` to `Failed` with completion time
    /// `now`, leaving name and size empty; every other row is untouched.
    /// Run at startup: a row left `InProgress` by an interrupted process
    /// has no task that could still settle it.
    pub fn reconcile_pending(&mut self, now: &str)
        requires
            old(self).wf(),
        ensures
            final(self).wf(),
            ledger_evolves(old(self)@, final(self)@),
            final(self)@.len() == old(self)@.len(),
            forall|k: int|
                0 <= k < old(self)@.len() ==> #[trigger] final(self)@[k] == (if old(
                    self,
                )@[k].status == Status::InProgress {
                    Ledger::settled_row(old(self)@[k], Err(DownloadError::Io), now@)
                } else {
                    old(self)@[k]
                }),
    {
        let n = self.jobs.len();
        let mut k: usize = 0;
        while k < n
            invariant
                old(self).wf(),
                k <= n,
                n == self@.len(),
                self@.len() == old(self)@.len(),
                forall|j: int|
                    k <= j < self@.len() ==> #[trigger] self@[j] == old(self)@[j],
                forall|j: int|
                    0 <= j < k ==> #[trigger] self@[j] == (if old(self)@[j].status
                        == Status::InProgress {
                        Ledger::settled_row(old(self)@[j], Err(DownloadError::Io), now@)
                    } else {
                        old(self)@[j]
                    }),
            decreases n - k,
        {
            let ghost prev = self@;
            let row = &self.jobs[k];
            if matches!(row.status, Status::InProgress) {
                let swept = Download {
                    id: row.id,
                    url: clone_opt_string(&row.url),
                    file_name: clone_opt_string(&row.file_name),
                    file_size: row.file_size,
                    start_time: row.start_time.clone(),
                    end_time: Some(String::from_str(now)),
                    status: Status::Failed,
                    user_id: row.user_id,
                };
                let ghost swept_v = swept@;
                self.jobs.set(k, swept);
                proof {
                    assert(swept_v =~= Ledger::settled_row(
                        prev[k as int],
                        Err(DownloadError::Io),
                        now@,
                    ));
                    assert(self@ =~= prev.update(k as int, swept_v));
                }
            }
            k += 1;
        }
    }

    /// The rows owned by `user_id`, in insertion order.
    pub fn select_data(&self, user_id: u64) -> (r: Vec<Download>)
        ensures
            r.deep_view() == self@.filter(|j: DownloadV| j.user_id == user_id),
    {
        let mut r: Vec<Download> = Vec::new();
        let mut k: usize = 0;
        proof {
            assert(self@.take(0) =~= Seq::<DownloadV>::empty());
            assert(r.deep_view() =~= self@.take(0).filter(|j: DownloadV| j.user_id == user_id));
        }
        while k < self.jobs.len()
            invariant
                k <= self@.len(),
                self@.len() == self.jobs@.len(),
                r.deep_view() == self@.take(k as int).filter(|j: DownloadV| j.user_id == user_id),
            decreases self@.len() - k,
        {
            let ghost pre = self@.take(k as int);
            let row = &self.jobs[k];
            if row.user_id == user_id {
                r.push(row.clone());
            }
            proof {
                pre.lemma_filter_push(self@[k as int], |j: DownloadV| j.user_id == user_id);
                assert(pre.push(self@[k as int]) =~= self@.take(k + 1));
                if row.user_id == user_id {
                    assert(r.deep_view() =~= pre.filter(|j: DownloadV| j.user_id == user_id).push(
                        self@[k as int],
                    ));
                }
            }
            k += 1;
        }
        proof {
            assert(self@.take(self@.len() as int) =~= self@);
        }
        r
    }

    /// Accepts or rejects a submission: a URL that classifies to no known
    /// source kind is rejected with `InvalidUrl` and no row is created; an
    /// accepted URL gets a fresh `InProgress` row whose id is handed back,
    /// queryable before any background work runs.
    pub fn submit(&mut self, user_id: u64, url: &str, now: &str) -> (r: Result<
        u64,
        DownloadError,
    >)
        requires
            old(self).wf(),
            old(self)@.len() < u64::MAX,
        ensures
            final(self).wf(),
            ledger_evolves(old(self)@, final(self)@),
            crate::classify_spec(url@) is None ==> r == Err::<u64, DownloadError>(
                DownloadError::InvalidUrl,
            ) && final(self)@ == old(self)@,
            crate::classify_spec(url@) is Some ==> {
                &&& r == Ok::<u64, DownloadError>((old(self)@.len() + 1) as u64)
                &&& final(self)@ == old(self)@.push(
                    Ledger::fresh_row((old(self)@.len() + 1) as u64, url@, user_id, now@),
                )
            },
    {
        if crate::check_url(url).is_none() {
            return Err(DownloadError::InvalidUrl);
        }
        let id = self.insert_new_download(url, user_id, now);
        Ok(id)
    }
}

} // verus!
