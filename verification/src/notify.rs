//! Deciding when subscribers are told of a change of status.

use crate::status::{
    json_string_text, lemma_status_json_is_one_line, status_json_text, Status, StatusError,
    StatusView,
};
use vstd::prelude::*;
use vstd::string::*;

verus! {

/// Remembers the status that was last offered to the subscribers.
#[derive(Debug)]
pub struct Notifier {
    last: Status,
}

impl View for Notifier {
    type V = StatusView;

    /// The status last offered to the subscribers.
    closed spec fn view(&self) -> StatusView {
        self.last@
    }
}

/// The status that a new notifier takes as already told: no strategy, no
/// duty, not paused.
pub open spec fn unannounced() -> StatusView {
    StatusView { strategy: Seq::empty(), speed: 0, active: false }
}

/// The line sent to each subscriber for a status: its JSON object and a line
/// feed.
pub open spec fn notice_text(status: StatusView) -> Seq<char> {
    status_json_text(json_string_text(status.strategy), status.speed, status.active) + "\n"@
}

/// A notice is exactly one line: it ends in a line feed and holds no other.
pub proof fn lemma_notice_is_one_line(status: StatusView)
    ensures
        notice_text(status).len() >= 1,
        notice_text(status).last() == '\n',
        forall|i: int|
            0 <= i < notice_text(status).len() - 1 ==> #[trigger] notice_text(status)[i] != '\n',
{
    reveal_strlit("\n");
    lemma_status_json_is_one_line(status);
    let json = status_json_text(json_string_text(status.strategy), status.speed, status.active);
    assert forall|i: int| 0 <= i < notice_text(status).len() - 1 implies #[trigger] notice_text(
        status,
    )[i] != '\n' by {
        assert(notice_text(status)[i] == json[i]);
    }
}

/// Turns the outcome of encoding a status into the line to broadcast. A
/// status that could not be encoded is not broadcast at all.
pub fn notice_line(encoded: Result<String, StatusError>) -> (line: Option<String>)
    ensures
        match encoded {
            Ok(text) => line matches Some(l) && l@ == text@ + "\n"@,
            Err(_) => line is None,
        },
{
    match encoded {
        Ok(text) => Some(text.concat("\n")),
        Err(_) => None,
    }
}

impl Notifier {
    /// A notifier that has told nothing yet.
    pub fn new() -> (notifier: Self)
        ensures
            notifier@ == unannounced(),
    {
        Notifier { last: Status { strategy: String::new(), speed: 0, active: false } }
    }

    /// Compares a status with the one last offered. An unchanged status
    /// yields nothing. A changed one is remembered and yields the one line
    /// to write to every subscriber.
    pub fn observe(&mut self, status: Status) -> (line: Option<String>)
        ensures
            final(self)@ == status@,
            status@ == old(self)@ ==> line is None,
            status@ != old(self)@ ==> (line matches Some(l) && l@ == notice_text(status@)),
    {
        let changed = !(self.last.strategy == status.strategy) || self.last.speed != status.speed
            || self.last.active != status.active;
        if changed {
            let line = notice_line(status.to_json());
            self.last = status;
            line
        } else {
            None
        }
    }
}

} // verus!
