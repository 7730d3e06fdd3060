//! The scheduler: one state machine that receives signals in order, keeps the
//! job queue and the agent registry in lockstep, and tells the runtime around
//! it what to do (start a worker, stop the active one, persist a status).
use vstd::prelude::*;
use crate::types::{
    DatabaseGameStatus, DownloadManagerSignal, DownloadManagerStatus, GameDownloadError,
    GameDownloadStatus,
};

verus! {

/// A lightweight handle of a queued job.
#[derive(Clone, Debug, PartialEq, Eq)]
pub struct JobHandle {
    pub id: String,
    pub status: GameDownloadStatus,
}

/// What the registry knows of a job: enough to build its worker.
#[derive(Clone, Debug, PartialEq, Eq)]
pub struct DownloadAgent {
    pub id: String,
    pub version: String,
    pub target_download_dir: usize,
}

pub struct JobModel {
    pub id: Seq<char>,
    pub status: GameDownloadStatus,
}

pub struct AgentModel {
    pub id: Seq<char>,
    pub version: Seq<char>,
    pub target_download_dir: usize,
}

impl View for JobHandle {
    type V = JobModel;

    open spec fn view(&self) -> JobModel {
        JobModel { id: self.id@, status: self.status }
    }
}

impl View for DownloadAgent {
    type V = AgentModel;

    open spec fn view(&self) -> AgentModel {
        AgentModel { id: self.id@, version: self.version@, target_download_dir: self.target_download_dir }
    }
}

/// Work for the runtime around the scheduler, in the order given.
#[derive(Clone, Debug, PartialEq, Eq)]
pub enum Action {
    /// Bind a fresh control flag and progress counter to the job with this id,
    /// start its worker, and set the flag to `Go`.
    StartAgent(String),
    /// Set the active job's control flag to `Stop`.
    StopActive,
    /// Forget the active control flag and clear the visible progress.
    ReleaseActive,
    /// Persist this status for this job and notify observers.
    Persist(String, DatabaseGameStatus),
    /// Send `Go` to the scheduler itself.
    SendGo,
    /// Leave the receive loop.
    Exit,
}

pub enum ActionModel {
    StartAgent(Seq<char>),
    StopActive,
    ReleaseActive,
    Persist(Seq<char>, DatabaseGameStatus),
    SendGo,
    Exit,
}

impl View for Action {
    type V = ActionModel;

    open spec fn view(&self) -> ActionModel {
        match self {
            Action::StartAgent(id) => ActionModel::StartAgent(id@),
            Action::StopActive => ActionModel::StopActive,
            Action::ReleaseActive => ActionModel::ReleaseActive,
            Action::Persist(id, s) => ActionModel::Persist(id@, *s),
            Action::SendGo => ActionModel::SendGo,
            Action::Exit => ActionModel::Exit,
        }
    }
}

pub open spec fn actions_view(a: Seq<Action>) -> Seq<ActionModel> {
    a.map_values(|x: Action| x@)
}

/// The scheduler's state as mathematics.
pub struct SchedulerModel {
    pub queue: Seq<JobModel>,
    pub registry: Seq<AgentModel>,
    pub active: Option<Seq<char>>,
    /// The active job's worker was told to stop and has not been restarted.
    pub paused: bool,
    pub status: DownloadManagerStatus,
}

pub open spec fn queue_ids(m: SchedulerModel) -> Seq<Seq<char>> {
    m.queue.map_values(|j: JobModel| j.id)
}

pub open spec fn registry_ids(m: SchedulerModel) -> Seq<Seq<char>> {
    m.registry.map_values(|a: AgentModel| a.id)
}

/// Queue and registry hold the same ids in the same order, ids are unique,
/// the active job is at the front (`Downloading`, or `Error` once its worker
/// failed), no other job is marked `Downloading`, and only a `Downloading`
/// active job can be paused.
pub open spec fn model_wf(m: SchedulerModel) -> bool {
    &&& m.registry.len() == m.queue.len()
    &&& forall|i: int| 0 <= i < m.queue.len() ==> #[trigger] m.registry[i].id == m.queue[i].id
    &&& forall|i: int, j: int|
        0 <= i < m.queue.len() && 0 <= j < m.queue.len() && i != j ==> #[trigger] m.queue[i].id
            != #[trigger] m.queue[j].id
    &&& (m.active matches Some(id) ==> m.queue.len() > 0 && m.queue[0].id == id
        && (m.queue[0].status == GameDownloadStatus::Downloading || m.queue[0].status
        == GameDownloadStatus::Error))
    &&& forall|i: int|
        0 <= i < m.queue.len() && #[trigger] m.queue[i].status == GameDownloadStatus::Downloading
            ==> m.active == Some(m.queue[i].id)
    &&& (m.paused ==> m.active is Some && m.queue[0].status == GameDownloadStatus::Downloading)
}

pub open spec fn contains_id(q: Seq<JobModel>, id: Seq<char>) -> bool {
    exists|i: int| 0 <= i < q.len() && #[trigger] q[i].id == id
}

/// Where `id` stands in the queue (meaningful when `contains_id`).
pub open spec fn position(q: Seq<JobModel>, id: Seq<char>) -> int {
    choose|i: int| 0 <= i < q.len() && #[trigger] q[i].id == id
}

pub open spec fn queue_step(m: SchedulerModel, id: Seq<char>, version: Seq<char>, dir: usize) -> (
    SchedulerModel,
    Seq<ActionModel>,
) {
    if contains_id(m.queue, id) {
        (m, seq![])
    } else {
        (
            SchedulerModel {
                queue: m.queue.push(JobModel { id, status: GameDownloadStatus::Queued }),
                registry: m.registry.push(AgentModel { id, version, target_download_dir: dir }),
                ..m
            },
            seq![ActionModel::Persist(id, DatabaseGameStatus::Queued)],
        )
    }
}

pub open spec fn go_step(m: SchedulerModel) -> (SchedulerModel, Seq<ActionModel>) {
    if m.active is Some {
        let id = m.active.unwrap();
        if m.paused {
            (
                SchedulerModel { paused: false, status: DownloadManagerStatus::Downloading, ..m },
                seq![ActionModel::StartAgent(id)],
            )
        } else {
            (m, seq![])
        }
    } else if m.queue.len() == 0 {
        (m, seq![])
    } else {
        let id = m.queue[0].id;
        (
            SchedulerModel {
                queue: m.queue.update(0, JobModel { id, status: GameDownloadStatus::Downloading }),
                active: Some(id),
                status: DownloadManagerStatus::Downloading,
                ..m
            },
            seq![ActionModel::StartAgent(id), ActionModel::Persist(id, DatabaseGameStatus::Downloading)],
        )
    }
}

pub open spec fn stop_step(m: SchedulerModel) -> (SchedulerModel, Seq<ActionModel>) {
    match m.active {
        Some(_) => if m.queue[0].status == GameDownloadStatus::Downloading {
            (
                SchedulerModel { paused: true, status: DownloadManagerStatus::Paused, ..m },
                seq![ActionModel::StopActive],
            )
        } else {
            (m, seq![ActionModel::StopActive])
        },
        None => (m, seq![]),
    }
}

pub open spec fn completed_step(m: SchedulerModel, id: Seq<char>) -> (SchedulerModel, Seq<ActionModel>) {
    if m.active == Some(id) {
        (
            SchedulerModel {
                queue: m.queue.drop_first(),
                registry: m.registry.drop_first(),
                active: None,
                paused: false,
                ..m
            },
            seq![
                ActionModel::ReleaseActive,
                ActionModel::Persist(id, DatabaseGameStatus::Installed),
                ActionModel::SendGo,
            ],
        )
    } else {
        (m, seq![])
    }
}

pub open spec fn error_step(m: SchedulerModel, e: GameDownloadError) -> (SchedulerModel, Seq<ActionModel>) {
    match m.active {
        Some(id) => (
            SchedulerModel {
                queue: m.queue.update(0, JobModel { id, status: GameDownloadStatus::Error }),
                paused: false,
                status: DownloadManagerStatus::Error(e),
                ..m
            },
            seq![ActionModel::Persist(id, DatabaseGameStatus::Error)],
        ),
        None => (SchedulerModel { status: DownloadManagerStatus::Error(e), ..m }, seq![]),
    }
}

pub open spec fn cancel_step(m: SchedulerModel, id: Seq<char>) -> (SchedulerModel, Seq<ActionModel>) {
    let was_active = m.active == Some(id);
    let m1 = if was_active { SchedulerModel { active: None, paused: false, ..m } } else { m };
    let a1: Seq<ActionModel> = if was_active {
        seq![ActionModel::StopActive, ActionModel::ReleaseActive]
    } else {
        seq![]
    };
    if contains_id(m.queue, id) {
        let i = position(m.queue, id);
        (
            SchedulerModel { queue: m1.queue.remove(i), registry: m1.registry.remove(i), ..m1 },
            a1.push(ActionModel::Persist(id, DatabaseGameStatus::Remote)).push(ActionModel::SendGo),
        )
    } else {
        (m1, a1)
    }
}

pub open spec fn finish_step(m: SchedulerModel) -> (SchedulerModel, Seq<ActionModel>) {
    if m.active is Some {
        (m, seq![ActionModel::StopActive, ActionModel::Exit])
    } else {
        (m, seq![ActionModel::Exit])
    }
}

/// The effect of one signal on the scheduler.
pub open spec fn step(m: SchedulerModel, s: DownloadManagerSignal) -> (SchedulerModel, Seq<ActionModel>) {
    match s {
        DownloadManagerSignal::Go => go_step(m),
        DownloadManagerSignal::Stop => stop_step(m),
        DownloadManagerSignal::Completed(id) => completed_step(m, id@),
        DownloadManagerSignal::Queue(id, version, dir) => queue_step(m, id@, version@, dir),
        DownloadManagerSignal::Finish => finish_step(m),
        DownloadManagerSignal::Error(e) => error_step(m, e),
        DownloadManagerSignal::Cancel(id) => cancel_step(m, id@),
    }
}

/// The id a `Queue` signal admits.
pub open spec fn queued_id(s: DownloadManagerSignal) -> Seq<char> {
    match s {
        DownloadManagerSignal::Queue(id, _, _) => id@,
        _ => Seq::empty(),
    }
}

/// The state after a sequence of signals, handled in order.
pub open spec fn run(m: SchedulerModel, sigs: Seq<DownloadManagerSignal>) -> SchedulerModel
    decreases sigs.len(),
{
    if sigs.len() == 0 {
        m
    } else {
        step(run(m, sigs.drop_last()), sigs.last()).0
    }
}

/// `Queue` signals with distinct ids, none of them queued yet, append their
/// jobs to the back of the queue in the order the signals came.
pub proof fn lemma_queue_fifo(m: SchedulerModel, sigs: Seq<DownloadManagerSignal>)
    requires
        forall|k: int| 0 <= k < sigs.len() ==> #[trigger] sigs[k] is Queue,
        forall|j: int, k: int|
            0 <= j < sigs.len() && 0 <= k < sigs.len() && j != k ==> #[trigger] queued_id(sigs[j])
                != #[trigger] queued_id(sigs[k]),
        forall|k: int| 0 <= k < sigs.len() ==> !contains_id(m.queue, #[trigger] queued_id(sigs[k])),
    ensures
        queue_ids(run(m, sigs)) == queue_ids(m) + sigs.map_values(|s: DownloadManagerSignal| queued_id(s)),
    decreases sigs.len(),
{
    if sigs.len() > 0 {
        let init = sigs.drop_last();
        lemma_queue_fifo(m, init);
        let prev = run(m, init);
        let last = sigs.last();
        let id = queued_id(last);
        assert(queue_ids(prev) == queue_ids(m) + init.map_values(|s: DownloadManagerSignal| queued_id(s)));
        assert(!contains_id(prev.queue, id)) by {
            if contains_id(prev.queue, id) {
                let i = choose|i: int| 0 <= i < prev.queue.len() && #[trigger] prev.queue[i].id == id;
                assert(queue_ids(prev)[i] == id);
                if i < m.queue.len() {
                    assert(m.queue[i].id == queue_ids(m)[i]);
                } else {
                    let k = i - m.queue.len();
                    assert(queued_id(init[k]) == id);
                    assert(init[k] == sigs[k]);
                    assert(sigs.len() - 1 != k);
                }
            }
        }
        assert(sigs.last() is Queue);
        let after = run(m, sigs);
        assert(after == step(prev, last).0);
        assert(after.queue == prev.queue.push(JobModel { id, status: GameDownloadStatus::Queued }));
        assert(queue_ids(after) =~= queue_ids(prev).push(id));
        assert(sigs.map_values(|s: DownloadManagerSignal| queued_id(s)) =~= init.map_values(
            |s: DownloadManagerSignal| queued_id(s),
        ).push(id));
        assert(queue_ids(after) =~= queue_ids(m) + sigs.map_values(
            |s: DownloadManagerSignal| queued_id(s),
        ));
    } else {
        assert(queue_ids(run(m, sigs)) =~= queue_ids(m) + sigs.map_values(
            |s: DownloadManagerSignal| queued_id(s),
        ));
    }
}

/// `Cancel(id)` leaves `id` in neither the queue nor the registry, whether it
/// stood at the front, in the middle or was active, and ends by asking for
/// the next job.
pub proof fn lemma_cancel_removes(m: SchedulerModel, id: Seq<char>)
    requires
        model_wf(m),
        contains_id(m.queue, id),
    ensures
        !contains_id(cancel_step(m, id).0.queue, id),
        forall|k: int|
            0 <= k < cancel_step(m, id).0.registry.len() ==> #[trigger] cancel_step(m, id).0.registry[k].id
                != id,
        cancel_step(m, id).0.active != Some(id),
        cancel_step(m, id).1.last() == ActionModel::SendGo,
{
    let i = position(m.queue, id);
    let n = cancel_step(m, id).0;
    assert forall|k: int| 0 <= k < n.queue.len() implies #[trigger] n.queue[k].id != id by {
        let kk = if k < i { k } else { k + 1 };
        assert(n.queue[k] == m.queue[kk]);
    }
    assert forall|k: int| 0 <= k < n.registry.len() implies #[trigger] n.registry[k].id != id by {
        let kk = if k < i { k } else { k + 1 };
        assert(n.registry[k] == m.registry[kk]);
        assert(m.registry[kk].id == m.queue[kk].id);
    }
}

/// A `Completed` signal for an id that is not the active job changes nothing
/// and asks for nothing.
pub proof fn lemma_stale_completed(m: SchedulerModel, id: Seq<char>)
    requires
        m.active != Some(id),
    ensures
        completed_step(m, id) == (m, Seq::<ActionModel>::empty()),
{
    assert(completed_step(m, id).1 =~= Seq::<ActionModel>::empty());
}

/// Only the front job can be `Downloading`, and only while it is active.
proof fn lemma_downloading_is_front(m: SchedulerModel, i: int)
    requires
        model_wf(m),
        0 <= i < m.queue.len(),
        m.queue[i].status == GameDownloadStatus::Downloading,
    ensures
        i == 0,
        m.active == Some(m.queue[0].id),
{
    assert(m.active == Some(m.queue[i].id));
    if i != 0 {
        assert(m.queue[i].id != m.queue[0].id);
    }
}

/// Every signal takes a well-formed scheduler to a well-formed one.
pub proof fn lemma_step_wf(m: SchedulerModel, s: DownloadManagerSignal)
    requires
        model_wf(m),
    ensures
        model_wf(step(m, s).0),
{
    let n = step(m, s).0;
    match s {
        DownloadManagerSignal::Queue(id, version, dir) => {
            if !contains_id(m.queue, id@) {
                assert forall|i: int, j: int|
                    0 <= i < n.queue.len() && 0 <= j < n.queue.len() && i != j implies
                    #[trigger] n.queue[i].id != #[trigger] n.queue[j].id by {
                    if i < m.queue.len() && j < m.queue.len() {
                        assert(n.queue[i] == m.queue[i]);
                        assert(n.queue[j] == m.queue[j]);
                    } else if i < m.queue.len() {
                        assert(n.queue[i] == m.queue[i]);
                    } else {
                        assert(n.queue[j] == m.queue[j]);
                    }
                }
                assert forall|i: int| 0 <= i < n.queue.len() implies #[trigger] n.registry[i].id == n.queue[i].id by {
                    if i < m.queue.len() {
                        assert(n.queue[i] == m.queue[i]);
                        assert(n.registry[i] == m.registry[i]);
                    }
                }
            }
        },
        DownloadManagerSignal::Go => {},
        DownloadManagerSignal::Stop => {},
        DownloadManagerSignal::Completed(id) => {
            if m.active == Some(id@) {
                assert forall|i: int|
                    0 <= i < n.queue.len() && #[trigger] n.queue[i].status == GameDownloadStatus::Downloading
                        implies n.active == Some(n.queue[i].id) by {
                    assert(n.queue[i] == m.queue[i + 1]);
                    lemma_downloading_is_front(m, i + 1);
                }
                assert forall|i: int, j: int|
                    0 <= i < n.queue.len() && 0 <= j < n.queue.len() && i != j implies
                    #[trigger] n.queue[i].id != #[trigger] n.queue[j].id by {
                    assert(n.queue[i] == m.queue[i + 1]);
                    assert(n.queue[j] == m.queue[j + 1]);
                }
                assert forall|i: int| 0 <= i < n.queue.len() implies #[trigger] n.registry[i].id == n.queue[i].id by {
                    assert(n.queue[i] == m.queue[i + 1]);
                    assert(n.registry[i] == m.registry[i + 1]);
                }
            }
        },
        DownloadManagerSignal::Error(e) => {
            if m.active is Some {
                assert forall|i: int|
                    0 <= i < n.queue.len() && #[trigger] n.queue[i].status == GameDownloadStatus::Downloading
                        implies n.active == Some(n.queue[i].id) by {
                    if i != 0 {
                        assert(n.queue[i] == m.queue[i]);
                        lemma_downloading_is_front(m, i);
                    }
                }
            }
        },
        DownloadManagerSignal::Cancel(id) => {
            if contains_id(m.queue, id@) {
                let p = position(m.queue, id@);
                let was_active = m.active == Some(id@);
                assert forall|k: int| 0 <= k < n.queue.len() implies #[trigger] n.registry[k].id == n.queue[k].id by {
                    let kk = if k < p { k } else { k + 1 };
                    assert(n.queue[k] == m.queue[kk]);
                    assert(n.registry[k] == m.registry[kk]);
                }
                assert forall|j: int, k: int|
                    0 <= j < n.queue.len() && 0 <= k < n.queue.len() && j != k implies
                    #[trigger] n.queue[j].id != #[trigger] n.queue[k].id by {
                    let jj = if j < p { j } else { j + 1 };
                    let kk = if k < p { k } else { k + 1 };
                    assert(n.queue[j] == m.queue[jj]);
                    assert(n.queue[k] == m.queue[kk]);
                }
                assert forall|k: int|
                    0 <= k < n.queue.len() && #[trigger] n.queue[k].status == GameDownloadStatus::Downloading
                        implies n.active == Some(n.queue[k].id) by {
                    let kk = if k < p { k } else { k + 1 };
                    assert(n.queue[k] == m.queue[kk]);
                    lemma_downloading_is_front(m, kk);
                    if was_active {
                        assert(p == 0);
                    }
                }
                if n.active is Some {
                    assert(m.active == n.active);
                    assert(p != 0);
                    assert(n.queue[0] == m.queue[0]);
                }
            }
        },
        DownloadManagerSignal::Finish => {},
    }
}

/// Any sequence of signals takes a well-formed scheduler to a well-formed one.
pub proof fn lemma_run_wf(m: SchedulerModel, sigs: Seq<DownloadManagerSignal>)
    requires
        model_wf(m),
    ensures
        model_wf(run(m, sigs)),
    decreases sigs.len(),
{
    if sigs.len() > 0 {
        lemma_run_wf(m, sigs.drop_last());
        lemma_step_wf(run(m, sigs.drop_last()), sigs.last());
    }
}

/// After any sequence of signals, handled one at a time from a well-formed
/// state, the queue and the registry hold the same set of ids.
pub proof fn lemma_queue_matches_registry(m: SchedulerModel, sigs: Seq<DownloadManagerSignal>)
    requires
        model_wf(m),
    ensures
        queue_ids(run(m, sigs)).to_set() == registry_ids(run(m, sigs)).to_set(),
        queue_ids(run(m, sigs)) == registry_ids(run(m, sigs)),
{
    lemma_run_wf(m, sigs);
    let n = run(m, sigs);
    assert(queue_ids(n) =~= registry_ids(n));
}

/// After any sequence of signals, handled one at a time from a well-formed
/// state, at most one job is `Downloading`.
pub proof fn lemma_single_downloading(m: SchedulerModel, sigs: Seq<DownloadManagerSignal>)
    requires
        model_wf(m),
    ensures
        forall|i: int, j: int|
            0 <= i < run(m, sigs).queue.len() && 0 <= j < run(m, sigs).queue.len()
                && #[trigger] run(m, sigs).queue[i].status == GameDownloadStatus::Downloading
                && #[trigger] run(m, sigs).queue[j].status == GameDownloadStatus::Downloading ==> i == j,
{
    lemma_run_wf(m, sigs);
    let n = run(m, sigs);
    assert forall|i: int, j: int|
        0 <= i < n.queue.len() && 0 <= j < n.queue.len()
            && #[trigger] n.queue[i].status == GameDownloadStatus::Downloading
            && #[trigger] n.queue[j].status == GameDownloadStatus::Downloading implies i == j by {
        lemma_downloading_is_front(n, i);
        lemma_downloading_is_front(n, j);
    }
}

/// The scheduler's state: the registry of agents, the queue of job handles
/// (both in admission order), the id of the active job and the manager status.
pub struct DownloadManagerBuilder {
    download_agent_registry: Vec<DownloadAgent>,
    download_queue: Vec<JobHandle>,
    current_game_interface: Option<String>,
    paused: bool,
    status: DownloadManagerStatus,
}

impl View for DownloadManagerBuilder {
    type V = SchedulerModel;

    closed spec fn view(&self) -> SchedulerModel {
        SchedulerModel {
            queue: self.download_queue@.map_values(|h: JobHandle| h@),
            registry: self.download_agent_registry@.map_values(|a: DownloadAgent| a@),
            active: match self.current_game_interface {
                Some(id) => Some(id@),
                None => None,
            },
            paused: self.paused,
            status: self.status,
        }
    }
}

impl DownloadManagerBuilder {
    pub open spec fn wf(&self) -> bool {
        model_wf(self@)
    }

    /// An empty scheduler.
    pub fn new() -> (r: Self)
        ensures
            r.wf(),
            r@.queue.len() == 0,
            r@.registry.len() == 0,
            r@.active is None,
            !r@.paused,
            r@.status == DownloadManagerStatus::Empty,
    {
        let r = DownloadManagerBuilder {
            download_agent_registry: Vec::new(),
            download_queue: Vec::new(),
            current_game_interface: None,
            paused: false,
            status: DownloadManagerStatus::Empty,
        };
        assert(r@.queue =~= Seq::<JobModel>::empty());
        assert(r@.registry =~= Seq::<AgentModel>::empty());
        r
    }

    /// Snapshot of the queue, front first.
    pub fn queue(&self) -> (r: Vec<JobHandle>)
        ensures
            r@.map_values(|h: JobHandle| h@) == self@.queue,
    {
        let mut r: Vec<JobHandle> = Vec::new();
        let mut i: usize = 0;
        while i < self.download_queue.len()
            invariant
                0 <= i <= self.download_queue.len(),
                r@.len() == i,
                forall|k: int| 0 <= k < i ==> #[trigger] r@[k]@ == self@.queue[k],
            decreases self.download_queue.len() - i,
        {
            let h = &self.download_queue[i];
            r.push(JobHandle { id: h.id.clone(), status: h.status });
            i = i + 1;
        }
        assert(r@.map_values(|h: JobHandle| h@) =~= self@.queue);
        r
    }

    /// The registry entry of the job with this id.
    pub fn agent(&self, id: &String) -> (r: Option<DownloadAgent>)
        requires
            self.wf(),
        ensures
            r matches Some(a) ==> a@.id == id@ && exists|i: int|
                0 <= i < self@.registry.len() && self@.registry[i] == a@,
            r is None ==> !contains_id(self@.queue, id@),
    {
        let mut i: usize = 0;
        while i < self.download_agent_registry.len()
            invariant
                self.wf(),
                0 <= i <= self.download_agent_registry.len(),
                forall|k: int| 0 <= k < i ==> self@.registry[k].id != id@,
            decreases self.download_agent_registry.len() - i,
        {
            if self.download_agent_registry[i].id == *id {
                let a = &self.download_agent_registry[i];
                let r = DownloadAgent {
                    id: a.id.clone(),
                    version: a.version.clone(),
                    target_download_dir: a.target_download_dir,
                };
                assert(self@.registry[i as int] == r@);
                return Some(r);
            }
            i = i + 1;
        }
        assert forall|k: int| 0 <= k < self@.queue.len() implies #[trigger] self@.queue[k].id != id@ by {
            assert(self@.registry[k].id == self@.queue[k].id);
        }
        None
    }

    /// Id of the active job, if any.
    pub fn active_id(&self) -> (r: Option<String>)
        ensures
            r matches Some(s) ==> self@.active == Some(s@),
            r is None ==> self@.active is None,
    {
        self.current_game_interface.clone()
    }

    /// The manager status.
    pub fn status(&self) -> (r: &DownloadManagerStatus)
        ensures
            *r == self@.status,
    {
        &self.status
    }

    fn find(&self, id: &String) -> (r: Option<usize>)
        ensures
            r matches Some(i) ==> i < self@.queue.len() && self@.queue[i as int].id == id@,
            r is None ==> !contains_id(self@.queue, id@),
    {
        let mut i: usize = 0;
        while i < self.download_queue.len()
            invariant
                0 <= i <= self.download_queue.len(),
                forall|k: int| 0 <= k < i ==> self@.queue[k].id != id@,
            decreases self.download_queue.len() - i,
        {
            if self.download_queue[i].id == *id {
                return Some(i);
            }
            i = i + 1;
        }
        None
    }

    /// Admits a job at the back of the queue, unless its id is already queued.
    pub fn manage_queue_signal(&mut self, id: String, version: String, target_download_dir: usize)
        -> (r: Vec<Action>)
        requires
            old(self).wf(),
        ensures
            final(self).wf(),
            (final(self)@, actions_view(r@)) == queue_step(old(self)@, id@, version@, target_download_dir),
    {
        let ghost m = self@;
        if let Some(_) = self.find(&id) {
            let r: Vec<Action> = Vec::new();
            assert(actions_view(r@) =~= seq![]);
            return r;
        }
        let handle = JobHandle { id: id.clone(), status: GameDownloadStatus::Queued };
        let agent = DownloadAgent { id: id.clone(), version, target_download_dir };
        self.download_agent_registry.push(agent);
        self.download_queue.push(handle);
        let r = vec![Action::Persist(id, DatabaseGameStatus::Queued)];
        let ghost n = queue_step(m, id@, version@, target_download_dir).0;
        assert(self@.queue =~= n.queue);
        assert(self@.registry =~= n.registry);
        assert(actions_view(r@) =~= seq![ActionModel::Persist(id@, DatabaseGameStatus::Queued)]);
        r
    }

    /// Starts the job at the front of the queue when no job is active, or
    /// restarts the active job when it was paused.
    pub fn manage_go_signal(&mut self) -> (r: Vec<Action>)
        requires
            old(self).wf(),
        ensures
            final(self).wf(),
            (final(self)@, actions_view(r@)) == go_step(old(self)@),
    {
        let ghost m = self@;
        if let Some(cur) = &self.current_game_interface {
            let r = if self.paused {
                let id = cur.clone();
                self.paused = false;
                self.status = DownloadManagerStatus::Downloading;
                vec![Action::StartAgent(id)]
            } else {
                Vec::new()
            };
            assert(actions_view(r@) =~= go_step(m).1);
            return r;
        }
        if self.download_queue.len() == 0 {
            let r: Vec<Action> = Vec::new();
            assert(actions_view(r@) =~= seq![]);
            return r;
        }
        let id = self.download_queue[0].id.clone();
        self.download_queue.set(0, JobHandle { id: id.clone(), status: GameDownloadStatus::Downloading });
        self.current_game_interface = Some(id.clone());
        self.status = DownloadManagerStatus::Downloading;
        let r = vec![Action::StartAgent(id.clone()), Action::Persist(id, DatabaseGameStatus::Downloading)];
        let ghost n = go_step(m).0;
        assert(self@.queue =~= n.queue);
        assert(self@.registry =~= n.registry);
        assert(actions_view(r@) =~= go_step(m).1);
        r
    }

    /// Pauses the active job by setting its control flag to `Stop`; the job
    /// stays active and queued, and a later `Go` restarts it.
    pub fn manage_stop_signal(&mut self) -> (r: Vec<Action>)
        requires
            old(self).wf(),
        ensures
            final(self).wf(),
            (final(self)@, actions_view(r@)) == stop_step(old(self)@),
    {
        let ghost m = self@;
        if self.current_game_interface.is_none() {
            let r: Vec<Action> = Vec::new();
            assert(actions_view(r@) =~= seq![]);
            return r;
        }
        if matches!(self.download_queue[0].status, GameDownloadStatus::Downloading) {
            self.paused = true;
            self.status = DownloadManagerStatus::Paused;
        }
        let r = vec![Action::StopActive];
        assert(actions_view(r@) =~= stop_step(m).1);
        r
    }

    /// Retires the active job when `game_id` names it, and asks for the next
    /// one; a stale id changes nothing.
    pub fn manage_completed_signal(&mut self, game_id: String) -> (r: Vec<Action>)
        requires
            old(self).wf(),
        ensures
            final(self).wf(),
            (final(self)@, actions_view(r@)) == completed_step(old(self)@, game_id@),
    {
        let ghost m = self@;
        let is_active = match &self.current_game_interface {
            Some(cur) => *cur == game_id,
            None => false,
        };
        if !is_active {
            let r: Vec<Action> = Vec::new();
            assert(actions_view(r@) =~= seq![]);
            return r;
        }
        self.download_queue.remove(0);
        self.download_agent_registry.remove(0);
        self.current_game_interface = None;
        self.paused = false;
        let r = vec![
            Action::ReleaseActive,
            Action::Persist(game_id, DatabaseGameStatus::Installed),
            Action::SendGo,
        ];
        let ghost n = completed_step(m, game_id@).0;
        assert(self@.queue =~= n.queue);
        assert(self@.registry =~= n.registry);
        assert(actions_view(r@) =~= completed_step(m, game_id@).1);
        assert(model_wf(self@)) by {
            assert forall|i: int| 0 <= i < self@.queue.len() implies
                #[trigger] self@.queue[i].status != GameDownloadStatus::Downloading by {
                assert(self@.queue[i] == m.queue[i + 1]);
            }
        }
        r
    }

    /// Marks the active job as failed and records the error; the job stays
    /// active at the front, so the queue does not advance.
    pub fn manage_error_signal(&mut self, error: GameDownloadError) -> (r: Vec<Action>)
        requires
            old(self).wf(),
        ensures
            final(self).wf(),
            (final(self)@, actions_view(r@)) == error_step(old(self)@, error),
    {
        let ghost m = self@;
        self.status = DownloadManagerStatus::Error(error);
        self.paused = false;
        match &self.current_game_interface {
            Some(cur) => {
                let id = cur.clone();
                self.download_queue.set(0, JobHandle { id: id.clone(), status: GameDownloadStatus::Error });
                let r = vec![Action::Persist(id, DatabaseGameStatus::Error)];
                let ghost n = error_step(m, error).0;
                assert(self@.queue =~= n.queue);
                assert(self@.registry =~= n.registry);
                assert(actions_view(r@) =~= error_step(m, error).1);
                r
            },
            None => {
                let r: Vec<Action> = Vec::new();
                assert(actions_view(r@) =~= seq![]);
                r
            },
        }
    }

    /// Removes the job with this id from queue and registry wherever it
    /// stands, stopping it first if it is active, records it as `Remote`,
    /// then asks for the next job.
    pub fn manage_cancel_signal(&mut self, game_id: String) -> (r: Vec<Action>)
        requires
            old(self).wf(),
        ensures
            final(self).wf(),
            (final(self)@, actions_view(r@)) == cancel_step(old(self)@, game_id@),
    {
        let ghost m = self@;
        let mut r: Vec<Action> = Vec::new();
        let is_active = match &self.current_game_interface {
            Some(cur) => *cur == game_id,
            None => false,
        };
        if is_active {
            self.current_game_interface = None;
            self.paused = false;
            r.push(Action::StopActive);
            r.push(Action::ReleaseActive);
        }
        let ghost a1 = actions_view(r@);
        assert(a1 =~= cancel_step(m, game_id@).1 || contains_id(m.queue, game_id@));
        match self.find(&game_id) {
            Some(i) => {
                proof {
                    assert(contains_id(m.queue, game_id@));
                    let p = position(m.queue, game_id@);
                    assert(p == i as int);
                }
                self.download_queue.remove(i);
                self.download_agent_registry.remove(i);
                r.push(Action::Persist(game_id.clone(), DatabaseGameStatus::Remote));
                r.push(Action::SendGo);
                let ghost n = cancel_step(m, game_id@).0;
                assert(self@.queue =~= n.queue);
                assert(self@.registry =~= n.registry);
                assert(actions_view(r@) =~= cancel_step(m, game_id@).1);
                assert(model_wf(self@)) by {
                    assert forall|k: int| 0 <= k < self@.queue.len() implies
                        #[trigger] self@.registry[k].id == self@.queue[k].id by {
                        if k >= i { assert(self@.queue[k] == m.queue[k + 1]); }
                    }
                    assert forall|j: int, k: int|
                        0 <= j < self@.queue.len() && 0 <= k < self@.queue.len() && j != k implies
                        #[trigger] self@.queue[j].id != #[trigger] self@.queue[k].id by {
                        let jj = if j < i { j } else { j + 1 };
                        let kk = if k < i { k } else { k + 1 };
                        assert(self@.queue[j] == m.queue[jj]);
                        assert(self@.queue[k] == m.queue[kk]);
                    }
                    assert forall|k: int|
                        0 <= k < self@.queue.len() && #[trigger] self@.queue[k].status
                            == GameDownloadStatus::Downloading implies self@.active == Some(self@.queue[k].id) by {
                        let kk = if k < i { k } else { k + 1 };
                        assert(self@.queue[k] == m.queue[kk]);
                    }
                    if self@.active is Some {
                        assert(i != 0);
                        assert(self@.queue[0] == m.queue[0]);
                    }
                }
            },
            None => {
                assert(actions_view(r@) =~= cancel_step(m, game_id@).1);
                assert(self@.queue =~= cancel_step(m, game_id@).0.queue);
            },
        }
        r
    }

    /// Stops the active job, if any, and asks the runtime to leave its loop.
    pub fn manage_finish_signal(&self) -> (r: Vec<Action>)
        requires
            self.wf(),
        ensures
            actions_view(r@) == finish_step(self@).1,
    {
        let r = if self.current_game_interface.is_some() {
            vec![Action::StopActive, Action::Exit]
        } else {
            vec![Action::Exit]
        };
        assert(actions_view(r@) =~= finish_step(self@).1);
        r
    }

    /// Handles one signal and returns the work it calls for.
    pub fn handle(&mut self, signal: DownloadManagerSignal) -> (r: Vec<Action>)
        requires
            old(self).wf(),
        ensures
            final(self).wf(),
            (final(self)@, actions_view(r@)) == step(old(self)@, signal),
    {
        match signal {
            DownloadManagerSignal::Go => self.manage_go_signal(),
            DownloadManagerSignal::Stop => self.manage_stop_signal(),
            DownloadManagerSignal::Completed(id) => self.manage_completed_signal(id),
            DownloadManagerSignal::Queue(id, version, dir) => self.manage_queue_signal(id, version, dir),
            DownloadManagerSignal::Finish => self.manage_finish_signal(),
            DownloadManagerSignal::Error(e) => self.manage_error_signal(e),
            DownloadManagerSignal::Cancel(id) => self.manage_cancel_signal(id),
        }
    }
}

} // verus!
