//! The supervisor of a small, fixed set of worker processes, as a library of
//! decisions: what goes over the wire between supervisor and worker, how a
//! worker reads its command line and watches its supervisor, which workers
//! run and what the supervisor's event loop does next, how log lines are
//! cleaned, and how a checkpoint load proceeds. Processes, sockets, files
//! and timers belong to the program around the library.
//!
//! Beside it stand the small rules of the user interface: the checks of
//! typed input, the wording of amounts and times, the fee rate dialog and
//! the icons.

pub mod text;
pub mod runner;
pub mod signal;
pub mod registry;
pub mod supervisor;
pub mod logs;
pub mod checkpoint;
pub mod loader;
pub mod launch;
pub mod helpers;
pub mod fee_rate;
pub mod icons;
