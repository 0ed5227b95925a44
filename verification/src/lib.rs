//! Core of a terminal dashboard for a publish/subscribe message bus.
//!
//! The crate holds the state and the decisions of the dashboard: the
//! per-subject message histories, the sorted overview with its selection, the
//! detail pane, the event classification of the input multiplexer and the
//! controller's state machine. It performs no I/O itself: a front end reads the
//! bus and the terminal, hands plain values in, and draws what comes back.

use vstd::prelude::*;

pub mod nats;
pub mod ui;

verus! {

/// The wildcard pattern that matches every subject on the bus.
pub open spec fn match_everything() -> Seq<char> {
    seq!['>']
}

/// Connection settings, as the command line supplies them.
pub struct Cli {
    /// Address of the server to connect to.
    pub server: String,
    /// User name; empty when none was given.
    pub username: String,
    /// Password; empty when none was given.
    pub password: String,
    /// Subject pattern to subscribe to; `None` subscribes to everything.
    pub subject: Option<String>,
}

impl Cli {
    /// The pattern that the session subscribes to: the configured one, or the
    /// match-everything wildcard when none was supplied.
    pub open spec fn spec_subject_pattern(&self) -> Seq<char> {
        match self.subject {
            Some(pattern) => pattern@,
            None => match_everything(),
        }
    }

    /// Returns the pattern to subscribe to.
    pub fn subject_pattern(&self) -> (pattern: String)
        ensures
            pattern@ == self.spec_subject_pattern(),
    {
        match &self.subject {
            Some(pattern) => pattern.clone(),
            None => {
                proof {
                    reveal_strlit(">");
                }
                let everything = ">".to_string();
                assert(everything@ =~= match_everything());
                everything
            },
        }
    }
}

} // verus!
