use vstd::prelude::*;

verus! {

/// Cooperative state of a worker, polled by its copy loop.
#[derive(PartialEq, Eq, Structural, Clone, Copy, Debug)]
pub enum DownloadThreadControlFlag {
    Go,
    Pause,
    Stop,
}

/// Status of a job handle in the queue.
#[derive(PartialEq, Eq, Structural, Clone, Copy, Debug)]
pub enum GameDownloadStatus {
    Uninitialised,
    Queued,
    Downloading,
    Error,
    Completed,
}

/// Per-game status handed to the persistent store.
#[derive(PartialEq, Eq, Structural, Clone, Copy, Debug)]
pub enum DatabaseGameStatus {
    /// Not installed and not queued: available on the server.
    Remote,
    Queued,
    Downloading,
    Installed,
    Error,
}

/// Failures while talking to the remote server.
#[derive(Clone, Debug, PartialEq, Eq)]
pub enum RemoteAccessError {
    /// The request could not be made or its body could not be read.
    FetchError(String),
    /// The server answered with a status other than 200; carries the body.
    InvalidCodeError(u16, String),
    /// The response lacks the metadata the transfer depends on.
    InvalidResponse,
    /// A URL could not be built.
    ParsingError(String),
}

/// Failures of one job.
#[derive(Clone, Debug, PartialEq, Eq)]
pub enum GameDownloadError {
    Communication(RemoteAccessError),
    IoError(String),
    Checksum,
}

/// Coarse status of the manager, read by observers.
#[derive(Clone, Debug, PartialEq, Eq)]
pub enum DownloadManagerStatus {
    Empty,
    Downloading,
    Error(GameDownloadError),
    Paused,
}

/// Commands received by the scheduler.
#[derive(Clone, Debug, PartialEq, Eq)]
pub enum DownloadManagerSignal {
    /// Try to start the job at the front of the queue.
    Go,
    /// Pause the active job.
    Stop,
    /// The job with this id finished all its chunks.
    Completed(String),
    /// Admit a job: id, version, target directory index.
    Queue(String, String, usize),
    /// Shut the scheduler down.
    Finish,
    /// The active job failed.
    Error(GameDownloadError),
    /// Remove the job with this id wherever it is.
    Cancel(String),
}

} // verus!
