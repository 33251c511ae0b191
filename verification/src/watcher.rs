//! What to tell the user interface when instances of the game end.

use vstd::prelude::*;
use crate::launcher::{ActiveInstance, ActiveInstanceView, LauncherState, instance_views,
    with_pids, without_pids};

verus! {

/// The news that an instance has ended.
#[derive(Debug, Clone)]
pub struct InstanceClosedEvent {
    pub pid: u32,
    pub account_id: String,
    pub username: String,
}

/// The news as mathematics sees it.
pub struct InstanceClosedEventView {
    pub pid: u32,
    pub account_id: Seq<char>,
    pub username: Seq<char>,
}

impl View for InstanceClosedEvent {
    type V = InstanceClosedEventView;

    open spec fn view(&self) -> InstanceClosedEventView {
        InstanceClosedEventView {
            pid: self.pid,
            account_id: self.account_id@,
            username: self.username@,
        }
    }
}

/// The news that `instance` has ended.
pub open spec fn closed_event_of(instance: ActiveInstanceView) -> InstanceClosedEventView {
    InstanceClosedEventView {
        pid: instance.pid,
        account_id: instance.account_id,
        username: instance.username,
    }
}

/// The news of a list, each as its view.
pub open spec fn event_views(events: Seq<InstanceClosedEvent>) -> Seq<InstanceClosedEventView> {
    Seq::new(events.len(), |i: int| events[i]@)
}

/// The news that `instance` has ended.
pub fn closed_event(instance: &ActiveInstance) -> (event: InstanceClosedEvent)
    ensures
        event@ == closed_event_of(instance@),
{
    InstanceClosedEvent {
        pid: instance.pid,
        account_id: instance.account_id.clone(),
        username: instance.username.clone(),
    }
}

/// One round of watching: the instances whose process has ended leave the
/// book, and for each of them, in order, there is news.
pub fn watch_round(state: &mut LauncherState, dead: &[u32]) -> (events: Vec<InstanceClosedEvent>)
    ensures
        final(state)@ == without_pids(old(state)@, dead@),
        event_views(events@) == Seq::new(
            with_pids(old(state)@, dead@).len(),
            |i: int| closed_event_of(with_pids(old(state)@, dead@)[i]),
        ),
{
    let gone: Vec<ActiveInstance> = state.remove_dead(dead);
    let mut events: Vec<InstanceClosedEvent> = Vec::new();
    let mut i: usize = 0;
    while i < gone.len()
        invariant
            i <= gone@.len(),
            events@.len() == i,
            forall|j: int| 0 <= j < i ==> events@[j]@ == closed_event_of(gone@[j]@),
        decreases gone@.len() - i,
    {
        events.push(closed_event(&gone[i]));
        i = i + 1;
    }
    proof {
        let expected = Seq::new(
            with_pids(old(state)@, dead@).len(),
            |i: int| closed_event_of(with_pids(old(state)@, dead@)[i]),
        );
        assert(instance_views(gone@).len() == gone@.len());
        assert forall|j: int| 0 <= j < gone@.len() implies event_views(events@)[j]
            == expected[j] by {
            assert(instance_views(gone@)[j] == gone@[j]@);
        }
        assert(event_views(events@) =~= expected);
    }
    events
}

} // verus!
