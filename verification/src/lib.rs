//! Turning a transcoding request into an ffmpeg command line, reading the
//! progress that ffmpeg reports, and deciding the state of the one job that
//! may run at a time.
//!
//! - `request`: the request and the bundles of fallback values.
//! - `tokenizer`: splitting a free-form command line, with shell-like quotes.
//! - `builder`: the argument list of a request, in its three modes.
//! - `preview`: the command line as it is shown to the user.
//! - `progress`: the time stamp in a line of diagnostic output.
//! - `paths`: output paths, the program to run, failure messages.
//! - `supervisor`: the single slot, cancellation, and the state events.
//! - `text`: the text primitives that the others share.

pub mod builder;
pub mod paths;
pub mod preview;
pub mod progress;
pub mod request;
pub mod supervisor;
pub mod text;
pub mod tokenizer;
