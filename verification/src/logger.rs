use vstd::prelude::*;

use crate::request::{Request, RequestView};

verus! {

/// How grave a line of the log is.
#[derive(Clone, Copy, Debug, PartialEq, Eq, Structural)]
pub enum Level {
    Error,
    Warn,
    Info,
}

/// The level at which the outcome of a request is logged, by the status of
/// its response: an error where there is no response or the status is one of
/// 500 to 599, a warning where it is one of 400 to 499, information else.
pub open spec fn level_of(status: Option<u16>) -> Level {
    match status {
        None => Level::Error,
        Some(code) => if 400 <= code <= 499 {
            Level::Warn
        } else if 500 <= code <= 599 {
            Level::Error
        } else {
            Level::Info
        },
    }
}

/// The status of the response of a request, if it has one.
pub open spec fn status_of<S>(req: RequestView<S>) -> Option<u16> {
    match req.res {
        Some(res) => Some(res.status),
        None => None,
    }
}

/// Decides how the outcome of each request is logged.
#[derive(Debug)]
pub struct Logger;

impl Default for Logger {
    fn default() -> (logger: Logger)
        ensures
            logger == Logger,
    {
        Logger
    }
}

impl Logger {
    /// The level at which a request that came back from the pipeline is logged.
    pub fn level<S>(&self, req: &Request<S>) -> (level: Level)
        ensures
            level == level_of(status_of(req@)),
    {
        match req.res() {
            None => Level::Error,
            Some(res) => {
                let status = res.status();
                if status.is_client_error() {
                    Level::Warn
                } else if status.is_server_error() {
                    Level::Error
                } else {
                    Level::Info
                }
            },
        }
    }
}

} // verus!
