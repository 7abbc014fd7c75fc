//! What the terminal does with the events of the shell's pseudo-terminal.

use vstd::prelude::*;

verus! {

/// The shell to start, given the value of `SHELL` if it is set: that value,
/// else bash.
pub fn shell_or_default(shell: Option<String>) -> (sh: String)
    ensures
        sh@ == match shell {
            Some(s) => s@,
            None => "/bin/bash"@,
        },
{
    match shell {
        Some(s) => s,
        None => "/bin/bash".to_owned(),
    }
}

/// An event from the pseudo-terminal: output bytes, or the end of output.
pub enum PtyEvent {
    Data(Vec<u8>),
    Closed,
}

/// What a round of draining the pseudo-terminal has found so far.
#[derive(Clone, Copy, PartialEq, Eq, Debug, Structural)]
pub struct PumpStatus {
    /// Output arrived, so the grid may have changed.
    pub changed: bool,
    /// The shell has gone.
    pub closed: bool,
}

impl PumpStatus {
    /// The status after one polled event (`None`: nothing pending).
    pub open spec fn spec_step(self, event: Option<PtyEvent>) -> (PumpStatus, bool) {
        match event {
            Some(PtyEvent::Data(_)) => (PumpStatus { changed: true, ..self }, true),
            Some(PtyEvent::Closed) => (PumpStatus { closed: true, ..self }, false),
            None => (self, false),
        }
    }

    /// Takes one polled event into account and says whether to poll again:
    /// output marks the grid changed (its bytes go to the parser) and polling
    /// goes on; the end of output marks the terminal closed and stops;
    /// nothing pending stops.
    pub fn step(&mut self, event: &Option<PtyEvent>) -> (again: bool)
        ensures
            (*final(self), again) == old(self).spec_step(*event),
    {
        match event {
            Some(PtyEvent::Data(_)) => {
                self.changed = true;
                true
            },
            Some(PtyEvent::Closed) => {
                self.closed = true;
                false
            },
            None => false,
        }
    }
}

/// Draining never forgets: a terminal once closed stays closed and a grid
/// once changed stays changed; polling goes on exactly after output.
pub proof fn law_pump_monotone(st: PumpStatus, event: Option<PtyEvent>)
    ensures
        st.closed ==> st.spec_step(event).0.closed,
        st.changed ==> st.spec_step(event).0.changed,
        st.spec_step(event).1 <==> event matches Some(PtyEvent::Data(_)),
        st.spec_step(event).0.closed <==> (st.closed || event matches Some(PtyEvent::Closed)),
{
}

} // verus!
