//! What holds over every run of the dispatcher, whatever the script and the
//! network do: handles and request identifiers are never issued twice, and no
//! request is ever delivered twice.
//!
//! A run is a sequence of steps from a well-formed state. The steps are the
//! dispatcher's operations as its functions specify them.

use vstd::prelude::*;
use crate::completion::{CompletionEvent, Delivery};
use crate::plugin::{PluginView, FIRST_REQUEST_ID};
use crate::request_client::{RequestClient, RequestError};

verus! {

/// One operation on the dispatcher.
pub enum Step {
    /// A script creates a client.
    CreateClient { client: RequestClient },
    /// A script submits a request.
    Submit { client_handle: i32, path: Seq<char>, callback: String },
    /// The host ticks, with these events drained from the channel.
    Tick { events: Seq<CompletionEvent> },
    /// The host unloads the plugin.
    Unload,
}

impl PluginView {
    /// The dispatcher after `step`.
    pub open spec fn after(self, step: Step) -> PluginView {
        match step {
            Step::CreateClient { client } => if self.clients.exhausted() {
                self
            } else {
                self.client_created(client)
            },
            Step::Submit { client_handle, path, callback } => if self.submit_error(
                client_handle,
                path,
            ) is None {
                self.submitted(callback)
            } else {
                self
            },
            Step::Tick { events } => self.settle_all(events).0,
            Step::Unload => self.unloaded(),
        }
    }

    /// The dispatcher after `steps`, taken in order.
    pub open spec fn after_all(self, steps: Seq<Step>) -> PluginView
        decreases steps.len(),
    {
        if steps.len() == 0 {
            self
        } else {
            self.after_all(steps.drop_last()).after(steps.last())
        }
    }

    /// The client handle that `step` returns to the script, if any.
    pub open spec fn handle_issued(self, step: Step) -> Option<i32> {
        match step {
            Step::CreateClient { client } => if self.clients.exhausted() {
                None
            } else {
                Some(self.clients.next as i32)
            },
            _ => None,
        }
    }

    /// The request identifier that `step` returns to the script, if any.
    pub open spec fn request_issued(self, step: Step) -> Option<i32> {
        match step {
            Step::Submit { client_handle, path, callback } => if self.submit_error(
                client_handle,
                path,
            ) is None {
                Some(self.next_request as i32)
            } else {
                None
            },
            _ => None,
        }
    }

    /// The callbacks that `step` has the tick thread invoke.
    pub open spec fn delivered(self, step: Step) -> Seq<Delivery> {
        match step {
            Step::Tick { events } => self.settle_all(events).1,
            _ => Seq::empty(),
        }
    }

    /// The request `id` was issued and is no longer pending: it was delivered
    /// or cancelled.
    pub open spec fn settled(self, id: i32) -> bool {
        FIRST_REQUEST_ID <= id < self.next_request && !self.pending.contains_key(id)
    }
}

/// A submission on a handle that stands for no client changes nothing and
/// issues no identifier, whatever its path and callback.
pub proof fn lemma_unknown_client_submits_nothing(
    state: PluginView,
    client_handle: i32,
    path: Seq<char>,
    callback: String,
)
    requires
        !state.clients.live.contains_key(client_handle),
    ensures
        state.submit_error(client_handle, path) == Some(RequestError::UnknownClient),
        state.after(Step::Submit { client_handle, path, callback }) == state,
        state.request_issued(Step::Submit { client_handle, path, callback }) is None,
{
}

/// A tick with no event changes nothing and invokes nothing.
pub proof fn lemma_empty_tick_is_noop(state: PluginView)
    ensures
        state.settle_all(Seq::empty()) == (state, Seq::<Delivery>::empty()),
        state.after(Step::Tick { events: Seq::empty() }) == state,
        state.delivered(Step::Tick { events: Seq::empty() }).len() == 0,
{
}

/// One tick delivers each request at most once, and only requests that were
/// pending when it began, each to the callback it was submitted with. What it
/// delivers is pending no more. It touches neither the clients nor the
/// identifiers.
pub proof fn lemma_settle_all(state: PluginView, events: Seq<CompletionEvent>)
    requires
        state.wf(),
    ensures
        ({
            let (end, deliveries) = state.settle_all(events);
            &&& end.wf()
            &&& end.clients == state.clients
            &&& end.next_request == state.next_request
            &&& deliveries.len() <= events.len()
            &&& forall|id: i32| #[trigger]
                end.pending.contains_key(id) ==> state.pending.contains_key(id)
                    && end.pending[id] == state.pending[id]
            &&& forall|k: int|
                0 <= k < deliveries.len() ==> {
                    &&& state.pending.contains_key((#[trigger] deliveries[k]).request_id)
                    &&& !end.pending.contains_key(deliveries[k].request_id)
                    &&& deliveries[k].callback == state.pending[deliveries[k].request_id]
                }
            &&& forall|k: int, l: int|
                0 <= k < l < deliveries.len() ==> (#[trigger] deliveries[k]).request_id != (
                #[trigger] deliveries[l]).request_id
        }),
    decreases events.len(),
{
    if events.len() > 0 {
        lemma_settle_all(state, events.drop_last());
        let (before, earlier) = state.settle_all(events.drop_last());
        let (after, last) = before.settle(events.last());
        let (end, deliveries) = state.settle_all(events);
        let id = events.last().request_id;
        if before.pending.contains_key(id) {
            assert(deliveries == earlier.push(last->0));
            assert forall|k: int| 0 <= k < deliveries.len() implies {
                &&& state.pending.contains_key((#[trigger] deliveries[k]).request_id)
                &&& !end.pending.contains_key(deliveries[k].request_id)
                &&& deliveries[k].callback == state.pending[deliveries[k].request_id]
            } by {
                if k < earlier.len() {
                    assert(deliveries[k] == earlier[k]);
                }
            }
            assert forall|k: int, l: int| 0 <= k < l < deliveries.len() implies (
            #[trigger] deliveries[k]).request_id != (#[trigger] deliveries[l]).request_id by {
                assert(deliveries[k] == earlier[k]);
                if l < earlier.len() {
                    assert(deliveries[l] == earlier[l]);
                }
            }
        }
    }
}

/// Callbacks fire in the order in which the events were sent, not in the
/// order in which the requests were submitted: a tick over more events invokes
/// what the tick over fewer invokes, then the rest.
pub proof fn lemma_deliveries_extend(state: PluginView, events: Seq<CompletionEvent>, n: int)
    requires
        0 <= n <= events.len(),
    ensures
        state.settle_all(events.take(n)).1.is_prefix_of(state.settle_all(events).1),
    decreases events.len() - n,
{
    if n == events.len() {
        assert(events.take(n) == events);
    } else {
        lemma_deliveries_extend(state, events, n + 1);
        let shorter = events.take(n);
        let longer = events.take(n + 1);
        assert(longer.drop_last() == shorter);
        let a = state.settle_all(shorter).1;
        let b = state.settle_all(longer).1;
        let c = state.settle_all(events).1;
        assert(a.is_prefix_of(b));
        assert(a.is_prefix_of(c)) by {
            assert(a.len() <= b.len() <= c.len());
            assert forall|k: int| 0 <= k < a.len() implies a[k] == c[k] by {
                assert(a[k] == b[k]);
                assert(b[k] == c[k]);
            }
            assert(a == c.subrange(0, a.len() as int));
        }
    }
}

/// Where every event is for a different pending request, a tick invokes one
/// callback per event, in the order of the events, each with the outcome of
/// its event and the callback name of its request.
pub proof fn lemma_deliveries_follow_events(state: PluginView, events: Seq<CompletionEvent>)
    requires
        forall|i: int|
            0 <= i < events.len() ==> state.pending.contains_key((#[trigger] events[i]).request_id),
        forall|i: int, j: int|
            0 <= i < j < events.len() ==> (#[trigger] events[i]).request_id != (
            #[trigger] events[j]).request_id,
    ensures
        ({
            let (end, deliveries) = state.settle_all(events);
            &&& deliveries.len() == events.len()
            &&& forall|i: int|
                0 <= i < events.len() ==> #[trigger] deliveries[i] == (Delivery {
                    callback: state.pending[events[i].request_id],
                    request_id: events[i].request_id,
                    outcome: events[i].outcome,
                })
            &&& forall|id: i32|
                end.pending.contains_key(id) <==> state.pending.contains_key(id) && forall|
                    i: int,
                | 0 <= i < events.len() ==> (#[trigger] events[i]).request_id != id
            &&& forall|id: i32| #[trigger]
                end.pending.contains_key(id) ==> end.pending[id] == state.pending[id]
        }),
    decreases events.len(),
{
    if events.len() > 0 {
        let front = events.drop_last();
        assert forall|i: int| 0 <= i < front.len() implies state.pending.contains_key(
            (#[trigger] front[i]).request_id,
        ) by {
            assert(front[i] == events[i]);
        }
        assert forall|i: int, j: int| 0 <= i < j < front.len() implies (
        #[trigger] front[i]).request_id != (#[trigger] front[j]).request_id by {
            assert(front[i] == events[i] && front[j] == events[j]);
        }
        lemma_deliveries_follow_events(state, front);
        let (before, earlier) = state.settle_all(front);
        let (end, deliveries) = state.settle_all(events);
        let id = events.last().request_id;
        assert(before.pending.contains_key(id)) by {
            assert forall|i: int| 0 <= i < front.len() implies (#[trigger] front[i]).request_id
                != id by {
                assert(front[i] == events[i]);
                assert(events[events.len() - 1].request_id == id);
            }
        }
        assert forall|i: int| 0 <= i < events.len() implies #[trigger] deliveries[i] == (Delivery {
            callback: state.pending[events[i].request_id],
            request_id: events[i].request_id,
            outcome: events[i].outcome,
        }) by {
            if i < front.len() {
                assert(deliveries[i] == earlier[i]);
                assert(front[i] == events[i]);
            }
        }
        assert forall|other: i32|
            end.pending.contains_key(other) <==> state.pending.contains_key(other) && forall|
                i: int,
            | 0 <= i < events.len() ==> (#[trigger] events[i]).request_id != other by {
            if end.pending.contains_key(other) {
                assert(before.pending.contains_key(other));
                assert forall|i: int| 0 <= i < events.len() implies (
                #[trigger] events[i]).request_id != other by {
                    if i < front.len() {
                        assert(front[i] == events[i]);
                    }
                }
            }
            if state.pending.contains_key(other) && (forall|i: int|
                0 <= i < events.len() ==> (#[trigger] events[i]).request_id != other) {
                assert forall|i: int| 0 <= i < front.len() implies (
                #[trigger] front[i]).request_id != other by {
                    assert(front[i] == events[i]);
                }
                assert(events[events.len() - 1].request_id != other);
            }
        }
    }
}

/// Every step keeps the state well formed, moves the counters forward only,
/// and leaves a settled request settled.
pub proof fn lemma_after(state: PluginView, step: Step)
    requires
        state.wf(),
    ensures
        state.after(step).wf(),
        state.clients.next <= state.after(step).clients.next,
        state.next_request <= state.after(step).next_request,
        forall|id: i32| #[trigger] state.settled(id) ==> state.after(step).settled(id),
{
    match step {
        Step::Tick { events } => {
            lemma_settle_all(state, events);
        },
        _ => {},
    }
}

/// The state after a longer prefix of a run is well formed, its counters are
/// no smaller than after a shorter prefix, and what was settled stays so.
pub proof fn lemma_prefixes(state: PluginView, steps: Seq<Step>, k: int, j: int)
    requires
        state.wf(),
        0 <= k <= j <= steps.len(),
    ensures
        state.after_all(steps.take(k)).wf(),
        state.after_all(steps.take(j)).wf(),
        state.after_all(steps.take(k)).clients.next <= state.after_all(
            steps.take(j),
        ).clients.next,
        state.after_all(steps.take(k)).next_request <= state.after_all(
            steps.take(j),
        ).next_request,
        forall|id: i32| #[trigger]
            state.after_all(steps.take(k)).settled(id) ==> state.after_all(steps.take(j)).settled(
                id,
            ),
    decreases j,
{
    if j == 0 {
        assert(steps.take(0).len() == 0);
    } else {
        assert(steps.take(j).drop_last() == steps.take(j - 1));
        assert(steps.take(j).last() == steps[j - 1]);
        if k == j {
            lemma_prefixes(state, steps, j - 1, j - 1);
        } else {
            lemma_prefixes(state, steps, k, j - 1);
        }
        lemma_after(state.after_all(steps.take(j - 1)), steps[j - 1]);
    }
}

/// A pending request keeps the callback name it was submitted with for as
/// long as it is pending: no step rewrites an entry of the table.
pub proof fn lemma_callback_is_kept(
    state: PluginView,
    steps: Seq<Step>,
    k: int,
    j: int,
    id: i32,
)
    requires
        state.wf(),
        0 <= k <= j <= steps.len(),
        state.after_all(steps.take(k)).pending.contains_key(id),
        state.after_all(steps.take(j)).pending.contains_key(id),
    ensures
        state.after_all(steps.take(j)).pending[id] == state.after_all(steps.take(k)).pending[id],
    decreases j,
{
    if k < j {
        assert(steps.take(j).drop_last() == steps.take(j - 1));
        assert(steps.take(j).last() == steps[j - 1]);
        let first = state.after_all(steps.take(k));
        let before = state.after_all(steps.take(j - 1));
        lemma_prefixes(state, steps, k, j - 1);
        lemma_after(before, steps[j - 1]);
        if !before.pending.contains_key(id) {
            assert(first.settled(id) || first.pending.contains_key(id));
            assert(before.settled(id));
        } else {
            lemma_callback_is_kept(state, steps, k, j - 1, id);
            match steps[j - 1] {
                Step::Tick { events } => {
                    lemma_settle_all(before, events);
                },
                _ => {},
            }
        }
    }
}

/// A client that was just created resolves under the handle that its
/// creation returned, and that handle stood for no client before.
pub proof fn lemma_created_client_resolves(state: PluginView, client: RequestClient)
    requires
        state.wf(),
        !state.clients.exhausted(),
    ensures
        ({
            let step = Step::CreateClient { client };
            let handle = state.handle_issued(step)->0;
            &&& state.handle_issued(step) is Some
            &&& !state.clients.live.contains_key(handle)
            &&& state.after(step).clients.live.contains_key(handle)
            &&& state.after(step).clients.live[handle] == client
        }),
{
}

/// Over a whole run, the handles that client creations return increase:
/// no two creations ever return the same handle, whether or not the earlier
/// client is still live.
pub proof fn lemma_handles_never_repeat(state: PluginView, steps: Seq<Step>, i: int, j: int)
    requires
        state.wf(),
        0 <= i < j < steps.len(),
        state.after_all(steps.take(i)).handle_issued(steps[i]) is Some,
        state.after_all(steps.take(j)).handle_issued(steps[j]) is Some,
    ensures
        state.after_all(steps.take(i)).handle_issued(steps[i])->0 < state.after_all(
            steps.take(j),
        ).handle_issued(steps[j])->0,
{
    lemma_prefixes(state, steps, i, i + 1);
    lemma_prefixes(state, steps, i + 1, j);
    assert(steps.take(i + 1).drop_last() == steps.take(i));
    assert(steps.take(i + 1).last() == steps[i]);
}

/// Over a whole run, the identifiers that submissions return increase: each
/// is above every identifier returned before it.
pub proof fn lemma_request_ids_increase(state: PluginView, steps: Seq<Step>, i: int, j: int)
    requires
        state.wf(),
        0 <= i < j < steps.len(),
        state.after_all(steps.take(i)).request_issued(steps[i]) is Some,
        state.after_all(steps.take(j)).request_issued(steps[j]) is Some,
    ensures
        FIRST_REQUEST_ID <= state.after_all(steps.take(i)).request_issued(steps[i])->0
            < state.after_all(steps.take(j)).request_issued(steps[j])->0,
{
    lemma_prefixes(state, steps, i, i + 1);
    lemma_prefixes(state, steps, i + 1, j);
    assert(steps.take(i + 1).drop_last() == steps.take(i));
    assert(steps.take(i + 1).last() == steps[i]);
}

/// Over a whole run, no request is delivered twice: two different
/// deliveries, in one tick or in two, are for different requests.
pub proof fn lemma_delivered_at_most_once(
    state: PluginView,
    steps: Seq<Step>,
    i: int,
    k: int,
    j: int,
    l: int,
)
    requires
        state.wf(),
        0 <= i <= j < steps.len(),
        0 <= k < state.after_all(steps.take(i)).delivered(steps[i]).len(),
        0 <= l < state.after_all(steps.take(j)).delivered(steps[j]).len(),
        i < j || k < l,
    ensures
        state.after_all(steps.take(i)).delivered(steps[i])[k].request_id != state.after_all(
            steps.take(j),
        ).delivered(steps[j])[l].request_id,
{
    let at_i = state.after_all(steps.take(i));
    let at_j = state.after_all(steps.take(j));
    lemma_prefixes(state, steps, i, j);
    match steps[i] {
        Step::Tick { events } => {
            lemma_settle_all(at_i, events);
        },
        _ => {},
    }
    match steps[j] {
        Step::Tick { events } => {
            lemma_settle_all(at_j, events);
        },
        _ => {},
    }
    if i < j {
        let id = at_i.delivered(steps[i])[k].request_id;
        assert(steps.take(i + 1).drop_last() == steps.take(i));
        assert(steps.take(i + 1).last() == steps[i]);
        let next = state.after_all(steps.take(i + 1));
        assert(at_i.pending.contains_key(id));
        assert(next.settled(id));
        lemma_prefixes(state, steps, i + 1, j);
        assert(at_j.settled(id));
    }
}

} // verus!
