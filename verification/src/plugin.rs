//! The request dispatcher: the state that the tick thread owns, and the
//! decisions it takes on each native call and on each tick.
//!
//! The dispatcher performs no I/O. A submission hands back the request that
//! is to be started; a tick takes the completion events that were drained
//! from the channel and hands back the callbacks that are to be invoked.
//! Starting requests, draining the channel and calling into the script are
//! the caller's part, and happen on the caller's thread.

use vstd::prelude::*;
use std::collections::HashMap;
use crate::completion::{CompletionEvent, Delivery};
use crate::headers::Headers;
use crate::method::Method;
use crate::pool::{Pool, PoolView};
use crate::request_client::{url_parses, Request, RequestClient, RequestError};

verus! {

broadcast use vstd::std_specs::hash::group_hash_axioms;

/// What the request native returns when no request was submitted.
pub const REQUEST_FAILED: i32 = 1;

/// The first request identifier. Identifiers start above `REQUEST_FAILED`,
/// so a script can tell a failed submission from a request.
pub const FIRST_REQUEST_ID: i32 = 2;

/// The identifier at which submission stops. It is itself never issued.
pub const LAST_REQUEST_ID: i32 = i32::MAX;

/// The host's status for a load that went well.
pub const AMX_ERR_NONE: i32 = 0;

/// The host's status for a load that failed.
pub const AMX_ERR_INIT: i32 = 22;

/// The mathematical model of the dispatcher.
pub struct PluginView {
    /// The request clients, by handle.
    pub clients: PoolView<RequestClient>,
    /// The callback name of every request that was submitted and whose
    /// outcome was not delivered yet, by request identifier.
    pub pending: Map<i32, String>,
    /// The identifier that the next submission gets.
    pub next_request: int,
}

impl PluginView {
    /// Every pending identifier was issued before: it lies below
    /// `next_request`.
    pub open spec fn wf(self) -> bool {
        &&& self.clients.wf()
        &&& FIRST_REQUEST_ID <= self.next_request <= LAST_REQUEST_ID
        &&& self.pending.dom().finite()
        &&& forall|id: i32| #[trigger]
            self.pending.contains_key(id) ==> FIRST_REQUEST_ID <= id < self.next_request
    }

    /// The dispatcher as it is loaded: no client, nothing pending.
    pub open spec fn initial() -> Self {
        PluginView {
            clients: PoolView::empty(),
            pending: Map::empty(),
            next_request: FIRST_REQUEST_ID as int,
        }
    }

    /// The dispatcher after `client` was put into the pool.
    pub open spec fn client_created(self, client: RequestClient) -> Self {
        PluginView { clients: self.clients.allocate(client), ..self }
    }

    /// Why a submission on `client_handle` fails, or `None` where it
    /// succeeds, given whether the address it names is a URL.
    pub open spec fn submit_error_given(self, client_handle: i32, url_accepted: bool) -> Option<
        RequestError,
    > {
        if !self.clients.live.contains_key(client_handle) {
            Some(RequestError::UnknownClient)
        } else if self.next_request >= LAST_REQUEST_ID {
            Some(RequestError::ResourceExhaustion)
        } else if !url_accepted {
            Some(RequestError::InvalidRequest)
        } else {
            None
        }
    }

    /// Why a submission on `client_handle` for `path` fails, or `None` where
    /// it succeeds.
    pub open spec fn submit_error(self, client_handle: i32, path: Seq<char>) -> Option<
        RequestError,
    > {
        self.submit_error_given(
            client_handle,
            url_parses(self.clients.live[client_handle]@.target(path)),
        )
    }

    /// The dispatcher after a submission with the callback `callback`
    /// succeeded: the request is pending under the identifier that was next.
    pub open spec fn submitted(self, callback: String) -> Self {
        PluginView {
            pending: self.pending.insert(self.next_request as i32, callback),
            next_request: self.next_request + 1,
            ..self
        }
    }

    /// The dispatcher after one completion event, and the callback to invoke
    /// for it. An event whose request is not pending changes nothing and
    /// invokes nothing.
    pub open spec fn settle(self, event: CompletionEvent) -> (Self, Option<Delivery>) {
        if self.pending.contains_key(event.request_id) {
            (
                PluginView { pending: self.pending.remove(event.request_id), ..self },
                Some(
                    Delivery {
                        callback: self.pending[event.request_id],
                        request_id: event.request_id,
                        outcome: event.outcome,
                    },
                ),
            )
        } else {
            (self, None)
        }
    }

    /// The dispatcher after the completion events `events`, taken in order,
    /// and the callbacks to invoke, in that same order.
    pub open spec fn settle_all(self, events: Seq<CompletionEvent>) -> (Self, Seq<Delivery>)
        decreases events.len(),
    {
        if events.len() == 0 {
            (self, Seq::empty())
        } else {
            let (before, earlier) = self.settle_all(events.drop_last());
            let (after, last) = before.settle(events.last());
            match last {
                Some(delivery) => (after, earlier.push(delivery)),
                None => (after, earlier),
            }
        }
    }

    /// The dispatcher after it was unloaded: every client is destroyed and
    /// every pending request cancelled. Handles and identifiers that were
    /// issued stay used up.
    pub open spec fn unloaded(self) -> Self {
        PluginView { clients: self.clients.cleared(), pending: Map::empty(), ..self }
    }
}

/// The host's status for a load whose natives were or were not registered.
pub open spec fn load_status(registered: bool) -> i32 {
    if registered {
        AMX_ERR_NONE
    } else {
        AMX_ERR_INIT
    }
}

/// What the request native hands back for the outcome of a submission: the
/// value for the script, and the request to start if there is one. The value
/// is the request's identifier, or `REQUEST_FAILED` where nothing was
/// submitted.
pub fn request_reply(outcome: Result<Request, RequestError>) -> (reply: (i32, Option<Request>))
    ensures
        reply == match outcome {
            Ok(request) => (request.id, Some(request)),
            Err(_) => (REQUEST_FAILED, None::<Request>),
        },
{
    match outcome {
        Ok(request) => (request.id, Some(request)),
        Err(_) => (REQUEST_FAILED, None),
    }
}

/// The dispatcher. It owns the request clients and the table of pending
/// requests, and issues the request identifiers.
pub struct Plugin {
    request_clients: Pool<RequestClient>,
    pending: HashMap<i32, String>,
    next_request: i32,
}

impl View for Plugin {
    type V = PluginView;

    closed spec fn view(&self) -> PluginView {
        PluginView {
            clients: self.request_clients@,
            pending: self.pending@,
            next_request: self.next_request as int,
        }
    }
}

impl Default for Plugin {
    /// The dispatcher as it is loaded.
    fn default() -> (plugin: Self)
        ensures
            plugin@ == PluginView::initial(),
            plugin@.wf(),
    {
        Plugin {
            request_clients: Pool::new(),
            pending: HashMap::new(),
            next_request: FIRST_REQUEST_ID,
        }
    }
}

impl Plugin {
    #[verifier::type_invariant]
    spec fn inv(self) -> bool {
        self@.wf()
    }

    /// Called when the host loads the plugin. Loading always succeeds.
    pub fn load(&self) -> (loaded: bool)
        ensures
            loaded,
            self@.wf(),
    {
        proof {
            use_type_invariant(self);
        }
        true
    }

    /// Called when the host unloads the plugin: destroys every client and
    /// cancels every pending request, so that an event that arrives later is
    /// dropped.
    pub fn unload(&mut self)
        ensures
            final(self)@.wf(),
            final(self)@ == old(self)@.unloaded(),
    {
        proof {
            use_type_invariant(&*self);
        }
        let mut clients = Pool::new();
        std::mem::swap(&mut clients, &mut self.request_clients);
        clients.clear();
        self.pending = HashMap::new();
        self.request_clients = clients;
    }

    /// The status to report to the host when a script is loaded, given
    /// whether the natives could be registered with it.
    pub fn amx_load(&self, registered: bool) -> (status: i32)
        ensures
            status == load_status(registered),
    {
        if registered {
            AMX_ERR_NONE
        } else {
            AMX_ERR_INIT
        }
    }

    /// The status to report to the host when a script is unloaded.
    pub fn amx_unload(&self) -> (status: i32)
        ensures
            status == AMX_ERR_NONE,
    {
        AMX_ERR_NONE
    }

    /// Creates a request client for `endpoint` with the default headers
    /// `headers` and returns its handle, which no client before it had.
    /// Fails with `ResourceExhaustion`, and changes nothing, exactly when the
    /// pool has no handle left.
    pub fn new_requests_client(&mut self, endpoint: String, headers: Headers) -> (outcome: Result<
        i32,
        RequestError,
    >)
        ensures
            final(self)@.wf(),
            match outcome {
                Ok(handle) => {
                    &&& !old(self)@.clients.exhausted()
                    &&& handle == old(self)@.clients.next
                    &&& !old(self)@.clients.live.contains_key(handle)
                    &&& final(self)@.clients.live.contains_key(handle)
                    &&& final(self)@.clients.live[handle]@.endpoint == endpoint@
                    &&& final(self)@.clients.live[handle]@.headers == headers@
                    &&& final(self)@ == old(self)@.client_created(final(self)@.clients.live[handle])
                },
                Err(error) => {
                    &&& old(self)@.clients.exhausted()
                    &&& error == RequestError::ResourceExhaustion
                    &&& final(self)@ == old(self)@
                },
            },
    {
        proof {
            use_type_invariant(&*self);
        }
        let client = RequestClient::new(endpoint, headers);
        let mut clients = Pool::new();
        std::mem::swap(&mut clients, &mut self.request_clients);
        let allocated = clients.allocate(client);
        self.request_clients = clients;
        match allocated {
            Some(handle) => Ok(handle),
            None => Err(RequestError::ResourceExhaustion),
        }
    }

    /// The client that `handle` stands for, if it is live.
    pub fn client(&self, handle: i32) -> (client: Option<&RequestClient>)
        ensures
            self@.wf(),
            client == if self@.clients.live.contains_key(handle) {
                Some(&self@.clients.live[handle])
            } else {
                None
            },
    {
        proof {
            use_type_invariant(self);
        }
        self.request_clients.resolve(handle)
    }

    /// Submits a request on the client `client_handle`, given whether the
    /// address that `path` names on that client is a URL: builds the request,
    /// records `callback_name` under a fresh identifier and returns the
    /// request, which the caller is to start. Where it fails, nothing is
    /// recorded and no identifier is used up.
    pub fn submit_given(
        &mut self,
        client_handle: i32,
        path: String,
        url_accepted: bool,
        method: Method,
        callback_name: String,
        body: String,
        headers: Headers,
    ) -> (outcome: Result<Request, RequestError>)
        ensures
            final(self)@.wf(),
            match outcome {
                Ok(request) => {
                    &&& old(self)@.submit_error_given(client_handle, url_accepted) is None
                    &&& request@ == old(self)@.clients.live[client_handle]@.plan(
                        old(self)@.next_request as i32,
                        old(self)@.clients.live[client_handle]@.target(path@),
                        method,
                        headers@,
                        body@,
                    )
                    &&& final(self)@ == old(self)@.submitted(callback_name)
                },
                Err(error) => {
                    &&& old(self)@.submit_error_given(client_handle, url_accepted) == Some(error)
                    &&& final(self)@ == old(self)@
                },
            },
    {
        proof {
            use_type_invariant(&*self);
        }
        let client = match self.request_clients.resolve(client_handle) {
            Some(client) => client,
            None => {
                return Err(RequestError::UnknownClient);
            },
        };
        if self.next_request >= LAST_REQUEST_ID {
            return Err(RequestError::ResourceExhaustion);
        }
        let id = self.next_request;
        let url = client.target(path.as_str());
        let request = match client.assemble(id, url, url_accepted, method, &headers, body) {
            Ok(request) => request,
            Err(error) => {
                return Err(error);
            },
        };
        self.next_request = id + 1;
        let mut pending = HashMap::new();
        std::mem::swap(&mut pending, &mut self.pending);
        pending.insert(id, callback_name);
        self.pending = pending;
        Ok(request)
    }

    /// Submits a request on the client `client_handle`: builds the request
    /// for `path`, records `callback_name` under a fresh identifier and
    /// returns the request, which the caller is to start. Where it fails,
    /// nothing is recorded and no identifier is used up.
    pub fn submit(
        &mut self,
        client_handle: i32,
        path: String,
        method: Method,
        callback_name: String,
        body: String,
        headers: Headers,
    ) -> (outcome: Result<Request, RequestError>)
        ensures
            final(self)@.wf(),
            match outcome {
                Ok(request) => {
                    &&& old(self)@.submit_error(client_handle, path@) is None
                    &&& request@ == old(self)@.clients.live[client_handle]@.plan(
                        old(self)@.next_request as i32,
                        old(self)@.clients.live[client_handle]@.target(path@),
                        method,
                        headers@,
                        body@,
                    )
                    &&& final(self)@ == old(self)@.submitted(callback_name)
                },
                Err(error) => {
                    &&& old(self)@.submit_error(client_handle, path@) == Some(error)
                    &&& final(self)@ == old(self)@
                },
            },
    {
        proof {
            use_type_invariant(&*self);
        }
        let url_accepted = match self.request_clients.resolve(client_handle) {
            Some(client) => client.accepts(path.as_str()),
            None => false,
        };
        self.submit_given(client_handle, path, url_accepted, method, callback_name, body, headers)
    }

    /// The request native. Decodes the method, submits as `submit` does, and
    /// returns the value for the script beside the request to start: the
    /// request's identifier, or `REQUEST_FAILED` and no request where the
    /// method is not supported or the submission failed. A failure changes
    /// nothing.
    pub fn do_request(
        &mut self,
        request_client_id: i32,
        path: String,
        method: i32,
        callback: String,
        body: String,
        headers: Headers,
    ) -> (reply: (i32, Option<Request>))
        ensures
            final(self)@.wf(),
            (reply.0 == REQUEST_FAILED) == (reply.1 is None),
            reply.1 is Some <==> Method::decoded(method) is Some && old(self)@.submit_error(
                request_client_id,
                path@,
            ) is None,
            match reply.1 {
                Some(request) => {
                    &&& reply.0 == request.id
                    &&& request@ == old(self)@.clients.live[request_client_id]@.plan(
                        old(self)@.next_request as i32,
                        old(self)@.clients.live[request_client_id]@.target(path@),
                        Method::decoded(method)->0,
                        headers@,
                        body@,
                    )
                    &&& final(self)@ == old(self)@.submitted(callback)
                },
                None => final(self)@ == old(self)@,
            },
    {
        proof {
            use_type_invariant(&*self);
        }
        let method = match Method::from_cell(method) {
            Some(method) => method,
            None => {
                return (REQUEST_FAILED, None);
            },
        };
        request_reply(self.submit(request_client_id, path, method, callback, body, headers))
    }

    /// Takes one completion event: where its request is pending, removes
    /// the entry and returns the callback to invoke; where it is not, drops
    /// the event.
    pub fn settle(&mut self, event: CompletionEvent) -> (delivery: Option<Delivery>)
        ensures
            final(self)@.wf(),
            (final(self)@, delivery) == old(self)@.settle(event),
    {
        proof {
            use_type_invariant(&*self);
        }
        let mut pending = HashMap::new();
        std::mem::swap(&mut pending, &mut self.pending);
        let found = pending.remove(&event.request_id);
        self.pending = pending;
        proof {
            if !old(self)@.pending.contains_key(event.request_id) {
                assert(self@.pending =~= old(self)@.pending);
            }
        }
        match found {
            Some(callback) => Some(
                Delivery { callback, request_id: event.request_id, outcome: event.outcome },
            ),
            None => None,
        }
    }

    /// The tick pump. Takes the completion events that were drained from the
    /// channel, in the order in which they were sent, and returns the
    /// callbacks to invoke, in that order. With no event it does nothing.
    pub fn process_tick(&mut self, events: Vec<CompletionEvent>) -> (deliveries: Vec<Delivery>)
        ensures
            final(self)@.wf(),
            (final(self)@, deliveries@) == old(self)@.settle_all(events@),
            events@.len() == 0 ==> final(self)@ == old(self)@ && deliveries@.len() == 0,
    {
        proof {
            use_type_invariant(&*self);
        }
        let ghost start = self@;
        let ghost all = events@;
        let mut deliveries: Vec<Delivery> = Vec::new();
        for event in iter: events
            invariant
                iter.seq() == all,
                self@.wf(),
                (self@, deliveries@) == start.settle_all(all.take(iter.index())),
        {
            proof {
                let done = iter.seq().take(iter.index());
                let next = iter.seq().take(iter.index() + 1);
                assert(next.drop_last() == done);
                assert(next.last() == event);
            }
            match self.settle(event) {
                Some(delivery) => {
                    deliveries.push(delivery);
                },
                None => {},
            }
        }
        proof {
            assert(all.take(all.len() as int) == all);
        }
        deliveries
    }

    /// Whether a request with the identifier `request_id` is pending.
    pub fn is_pending(&self, request_id: i32) -> (pending: bool)
        ensures
            pending == self@.pending.contains_key(request_id),
    {
        self.pending.contains_key(&request_id)
    }

    /// The number of pending requests.
    pub fn pending_count(&self) -> (count: usize)
        ensures
            count == self@.pending.len(),
    {
        self.pending.len()
    }
}

} // verus!
