//! Verified core of the Elgato Facecam control plane on Linux.
//!
//! The functions here decide and compute; they do no I/O. Where a task takes several steps on a
//! device, such as a USB reset or the set-up of the pipeline, the library holds the state of the
//! task: it says which step is next, and takes what came of it.

pub mod bytes;
pub mod capture;
pub mod checks;
pub mod clock;
pub mod ctl;
pub mod device;
pub mod diagnostics;
pub mod font;
pub mod formats;
pub mod harness;
pub mod ipc;
pub mod jpeg;
pub mod mmap;
pub mod nodes;
pub mod picture;
pub mod pipeline;
pub mod probe;
pub mod profiles;
pub mod quirks;
pub mod recovery;
pub mod seqs;
pub mod streaming;
pub mod supervisor;
pub mod text;
pub mod types;
pub mod usb;
pub mod v4l2;
pub mod view;
