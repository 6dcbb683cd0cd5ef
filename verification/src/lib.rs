//! A silent audio session that stands for the application in the foreground.
//!
//! Volume controllers adjust the level of this session. Each change is passed on to the
//! sessions of the process in the foreground, and the session's level follows the level of
//! that process, so that a controller always shows what the user hears.
//!
//! The library decides; it makes no call into the audio system. [`handlers`] answers to
//! changes of levels and windows, [`run`] sets the session up and keeps it alive, and
//! [`hook`] installs the window hook. Each names its next call and takes the reply.
//! [`steps`] and [`stages`] state what each reply leads to, [`sync`] and [`lifecycle`] what
//! holds of whole runs.

pub mod context;
pub mod disconnect;
pub mod exchange;
pub mod foreground;
pub mod handlers;
pub mod hook;
pub mod lifecycle;
pub mod log;
pub mod platform;
pub mod rounding;
pub mod run;
pub mod scan;
pub mod stages;
pub mod startup;
pub mod steps;
pub mod sync;
pub mod volume;
pub mod watch;
pub mod world;
