use drop_downloads::scheduler::{Action, DownloadManagerBuilder};
use drop_downloads::types::{
    DatabaseGameStatus, DownloadManagerSignal, DownloadManagerStatus, GameDownloadError,
    GameDownloadStatus, RemoteAccessError,
};
use drop_downloads::chunk::check_response;

fn queue_signal(id: &str) -> DownloadManagerSignal {
    DownloadManagerSignal::Queue(id.to_string(), "1.0".to_string(), 0)
}

fn ids(m: &DownloadManagerBuilder) -> Vec<String> {
    m.queue().into_iter().map(|h| h.id).collect()
}

fn registry_matches_queue(m: &DownloadManagerBuilder) -> bool {
    m.queue().iter().all(|h| m.agent(&h.id).map(|a| a.id == h.id).unwrap_or(false))
}

#[test]
fn queue_go_completed_installs_job() {
    let mut m = DownloadManagerBuilder::new();
    let a = m.handle(queue_signal("g1"));
    assert_eq!(a, vec![Action::Persist("g1".to_string(), DatabaseGameStatus::Queued)]);
    let a = m.handle(DownloadManagerSignal::Go);
    assert_eq!(
        a,
        vec![
            Action::StartAgent("g1".to_string()),
            Action::Persist("g1".to_string(), DatabaseGameStatus::Downloading),
        ]
    );
    assert_eq!(m.queue()[0].status, GameDownloadStatus::Downloading);
    assert_eq!(m.active_id(), Some("g1".to_string()));
    assert_eq!(*m.status(), DownloadManagerStatus::Downloading);
    let a = m.handle(DownloadManagerSignal::Completed("g1".to_string()));
    assert_eq!(
        a,
        vec![
            Action::ReleaseActive,
            Action::Persist("g1".to_string(), DatabaseGameStatus::Installed),
            Action::SendGo,
        ]
    );
    assert!(m.queue().is_empty());
    assert!(m.agent(&"g1".to_string()).is_none());
    assert_eq!(m.active_id(), None);
}

#[test]
fn cancel_before_go_starts_next_job() {
    let mut m = DownloadManagerBuilder::new();
    m.handle(queue_signal("a"));
    m.handle(queue_signal("b"));
    let a = m.handle(DownloadManagerSignal::Cancel("a".to_string()));
    assert_eq!(a, vec![Action::Persist("a".to_string(), DatabaseGameStatus::Remote), Action::SendGo]);
    assert_eq!(ids(&m), vec!["b".to_string()]);
    assert!(m.agent(&"a".to_string()).is_none());
    let a = m.handle(DownloadManagerSignal::Go);
    assert_eq!(a[0], Action::StartAgent("b".to_string()));
}

#[test]
fn chunk_404_parks_job_in_error() {
    let mut m = DownloadManagerBuilder::new();
    m.handle(queue_signal("a"));
    m.handle(queue_signal("b"));
    m.handle(DownloadManagerSignal::Go);
    let err = check_response(404, Some(10), "not found".to_string()).unwrap_err();
    assert_eq!(
        err,
        GameDownloadError::Communication(RemoteAccessError::InvalidCodeError(404, "not found".to_string()))
    );
    let a = m.handle(DownloadManagerSignal::Error(err.clone()));
    assert_eq!(a, vec![Action::Persist("a".to_string(), DatabaseGameStatus::Error)]);
    assert_eq!(ids(&m), vec!["a".to_string(), "b".to_string()]);
    assert_eq!(m.queue()[0].status, GameDownloadStatus::Error);
    assert_eq!(m.active_id(), Some("a".to_string()));
    assert_eq!(*m.status(), DownloadManagerStatus::Error(err));
    // a failed job is not retried on its own, and the next job does not start
    assert!(m.handle(DownloadManagerSignal::Go).is_empty());
    // cancelling it unblocks the queue
    assert_eq!(
        m.handle(DownloadManagerSignal::Cancel("a".to_string())),
        vec![
            Action::StopActive,
            Action::ReleaseActive,
            Action::Persist("a".to_string(), DatabaseGameStatus::Remote),
            Action::SendGo,
        ]
    );
    assert_eq!(m.handle(DownloadManagerSignal::Go)[0], Action::StartAgent("b".to_string()));
}

#[test]
fn queue_and_registry_hold_same_ids() {
    let mut m = DownloadManagerBuilder::new();
    for id in ["a", "b", "c", "d"] {
        m.handle(queue_signal(id));
        assert!(registry_matches_queue(&m));
    }
    m.handle(DownloadManagerSignal::Go);
    m.handle(DownloadManagerSignal::Cancel("c".to_string()));
    assert!(registry_matches_queue(&m));
    m.handle(DownloadManagerSignal::Completed("a".to_string()));
    assert!(registry_matches_queue(&m));
    assert_eq!(ids(&m), vec!["b".to_string(), "d".to_string()]);
    assert!(m.agent(&"c".to_string()).is_none());
    assert!(m.agent(&"a".to_string()).is_none());
}

#[test]
fn at_most_one_job_downloading() {
    let mut m = DownloadManagerBuilder::new();
    m.handle(queue_signal("a"));
    m.handle(queue_signal("b"));
    m.handle(DownloadManagerSignal::Go);
    assert!(m.handle(DownloadManagerSignal::Go).is_empty());
    let downloading = m
        .queue()
        .iter()
        .filter(|h| h.status == GameDownloadStatus::Downloading)
        .count();
    assert_eq!(downloading, 1);
}

#[test]
fn queue_keeps_admission_order() {
    let mut m = DownloadManagerBuilder::new();
    for id in ["x", "y", "z"] {
        m.handle(queue_signal(id));
    }
    assert_eq!(ids(&m), vec!["x".to_string(), "y".to_string(), "z".to_string()]);
    // the same id is not admitted twice
    assert!(m.handle(queue_signal("y")).is_empty());
    assert_eq!(ids(&m).len(), 3);
    let agent = m.agent(&"z".to_string()).unwrap();
    assert_eq!(agent.version, "1.0");
    assert_eq!(agent.target_download_dir, 0);
}

#[test]
fn cancel_active_and_middle_jobs() {
    let mut m = DownloadManagerBuilder::new();
    for id in ["a", "b", "c"] {
        m.handle(queue_signal(id));
    }
    m.handle(DownloadManagerSignal::Go);
    assert_eq!(
        m.handle(DownloadManagerSignal::Cancel("b".to_string())),
        vec![Action::Persist("b".to_string(), DatabaseGameStatus::Remote), Action::SendGo]
    );
    assert_eq!(m.active_id(), Some("a".to_string()));
    let a = m.handle(DownloadManagerSignal::Cancel("a".to_string()));
    assert_eq!(
        a,
        vec![
            Action::StopActive,
            Action::ReleaseActive,
            Action::Persist("a".to_string(), DatabaseGameStatus::Remote),
            Action::SendGo,
        ]
    );
    assert_eq!(ids(&m), vec!["c".to_string()]);
    assert_eq!(m.active_id(), None);
    assert!(m.handle(DownloadManagerSignal::Cancel("nope".to_string())).is_empty());
}

#[test]
fn stale_completed_is_ignored() {
    let mut m = DownloadManagerBuilder::new();
    m.handle(queue_signal("a"));
    m.handle(queue_signal("b"));
    assert!(m.handle(DownloadManagerSignal::Completed("a".to_string())).is_empty());
    m.handle(DownloadManagerSignal::Go);
    assert!(m.handle(DownloadManagerSignal::Completed("b".to_string())).is_empty());
    assert_eq!(ids(&m), vec!["a".to_string(), "b".to_string()]);
    assert_eq!(m.active_id(), Some("a".to_string()));
}

#[test]
fn stop_pauses_and_go_resumes() {
    let mut m = DownloadManagerBuilder::new();
    assert!(m.handle(DownloadManagerSignal::Stop).is_empty());
    m.handle(queue_signal("a"));
    m.handle(queue_signal("b"));
    m.handle(DownloadManagerSignal::Go);
    let a = m.handle(DownloadManagerSignal::Stop);
    assert_eq!(a, vec![Action::StopActive]);
    assert_eq!(m.queue()[0].status, GameDownloadStatus::Downloading);
    assert_eq!(m.active_id(), Some("a".to_string()));
    assert_eq!(*m.status(), DownloadManagerStatus::Paused);
    assert_eq!(ids(&m), vec!["a".to_string(), "b".to_string()]);
    // Go restarts the paused job, not the next one
    assert_eq!(m.handle(DownloadManagerSignal::Go), vec![Action::StartAgent("a".to_string())]);
    assert_eq!(*m.status(), DownloadManagerStatus::Downloading);
    // and a second Go while it runs does nothing
    assert!(m.handle(DownloadManagerSignal::Go).is_empty());
}

#[test]
fn stop_after_error_does_not_allow_restart() {
    let mut m = DownloadManagerBuilder::new();
    m.handle(queue_signal("a"));
    m.handle(DownloadManagerSignal::Go);
    m.handle(DownloadManagerSignal::Error(GameDownloadError::Checksum));
    assert_eq!(m.handle(DownloadManagerSignal::Stop), vec![Action::StopActive]);
    assert!(m.handle(DownloadManagerSignal::Go).is_empty());
    assert_eq!(m.queue()[0].status, GameDownloadStatus::Error);
}

#[test]
fn finish_stops_active_job() {
    let mut m = DownloadManagerBuilder::new();
    assert_eq!(m.handle(DownloadManagerSignal::Finish), vec![Action::Exit]);
    m.handle(queue_signal("a"));
    m.handle(DownloadManagerSignal::Go);
    assert_eq!(m.handle(DownloadManagerSignal::Finish), vec![Action::StopActive, Action::Exit]);
}

#[test]
fn error_without_active_job_only_sets_status() {
    let mut m = DownloadManagerBuilder::new();
    let a = m.handle(DownloadManagerSignal::Error(GameDownloadError::Checksum));
    assert!(a.is_empty());
    assert_eq!(*m.status(), DownloadManagerStatus::Error(GameDownloadError::Checksum));
    assert_eq!(*DownloadManagerBuilder::new().status(), DownloadManagerStatus::Empty);
}
