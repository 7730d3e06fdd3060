//! Download orchestration: a signal-driven scheduler that admits queued jobs
//! one at a time, the decisions of the chunk copy loop, the chunk request and
//! response rules, and the validation of a remote server address.
pub mod types;
pub mod scheduler;
pub mod pipeline;
pub mod chunk;
pub mod remote;
