//! The connection handler: one connection's life as a state machine.
//!
//! The handler itself touches no socket. It is told what happened on the
//! connection and answers with what to do next; the caller does that and
//! comes back with the outcome.

use vstd::prelude::*;
use crate::frame::{encode_frame, frame_of, FrameError};
use crate::request::{deserialize_request, parsed_request, Request, RequestView};
use crate::response::{
    greeting, greeting_bytes, lemma_greeting_not_empty, lemma_response_not_empty, response_bytes,
    serialize_response, Response, ResponseView,
};
use crate::storage::{Storage, StoreMap};

verus! {

/// What a serving handler is waiting for.
#[derive(Debug, Clone, Copy, PartialEq, Eq, Structural)]
pub enum Serving {
    /// The next request frame.
    Reading,
    /// The write of a response, after which the next request is read.
    Writing,
    /// The write of the response to a shutdown request. Whatever becomes of
    /// it, the server stops.
    Leaving,
}

/// Where a connection stands.
#[derive(Debug, Clone, Copy, PartialEq, Eq, Structural)]
pub enum ConnState {
    /// The greeting has been handed out and its write is awaited.
    Greeting,
    /// Requests are read and answered, one at a time.
    Serving(Serving),
    /// The connection is over; its transport can be released.
    Terminated,
}

/// What happened on the connection.
#[derive(Debug, Clone, PartialEq, Eq)]
pub enum Event {
    /// A frame was read; this is its payload.
    Frame(Vec<u8>),
    /// No frame could be read.
    ReadFailed(FrameError),
    /// The frame handed out last was written.
    Sent,
    /// The frame handed out last could not be written.
    SendFailed,
}

/// An event with its payload taken as a sequence of bytes.
pub enum EventView {
    Frame(Seq<u8>),
    ReadFailed(FrameError),
    Sent,
    SendFailed,
}

impl View for Event {
    type V = EventView;

    open spec fn view(&self) -> EventView {
        match self {
            Event::Frame(payload) => EventView::Frame(payload@),
            Event::ReadFailed(e) => EventView::ReadFailed(*e),
            Event::Sent => EventView::Sent,
            Event::SendFailed => EventView::SendFailed,
        }
    }
}

/// What the caller is to do next.
#[derive(Debug, Clone, PartialEq, Eq)]
pub enum Action {
    /// Write these bytes, one whole frame, to the connection.
    Send(Vec<u8>),
    /// Read the next frame from the connection.
    Receive,
    /// Release the connection.
    Close,
    /// Stop the server process.
    Exit,
}

/// An action with its frame taken as a sequence of bytes.
pub enum ActionView {
    Send(Seq<u8>),
    Receive,
    Close,
    Exit,
}

impl View for Action {
    type V = ActionView;

    open spec fn view(&self) -> ActionView {
        match self {
            Action::Send(frame) => ActionView::Send(frame@),
            Action::Receive => ActionView::Receive,
            Action::Close => ActionView::Close,
            Action::Exit => ActionView::Exit,
        }
    }
}

/// The answer to `request` from a store that holds `store`. A shutdown
/// request is acknowledged with the bare success.
pub open spec fn reply_to(store: StoreMap, request: RequestView) -> ResponseView {
    match request {
        RequestView::Store(_, _) => ResponseView::StoreSuccess,
        RequestView::Load(key) => {
            if store.contains_key(key) {
                ResponseView::LoadSuccess(key, store[key])
            } else {
                ResponseView::LoadNotFound
            }
        },
        RequestView::Shutdown => ResponseView::StoreSuccess,
        RequestView::Invalid(reason) => ResponseView::InvalidRequest(reason),
    }
}

/// What the store holds once `request` has been applied to `store`: only a
/// store request changes anything.
pub open spec fn store_after(store: StoreMap, request: RequestView) -> StoreMap {
    match request {
        RequestView::Store(key, hash) => store.insert(key, hash),
        _ => store,
    }
}

/// Applies a request to the store and says what to answer. The store holds
/// finitely many keys before and after.
pub fn respond(request: Request, storage: &mut Storage) -> (response: Response)
    ensures
        response@ == reply_to(old(storage)@, request@),
        final(storage)@ == store_after(old(storage)@, request@),
        old(storage)@.dom().finite(),
        final(storage)@.dom().finite(),
{
    proof {
        storage.lemma_finite();
    }
    match request {
        Request::Store(key, hash) => {
            storage.put(key, hash);
            Response::StoreSuccess
        },
        Request::Load(key) => match storage.get(key.as_str()) {
            Some(hash) => Response::LoadSuccess(key, hash),
            None => Response::LoadNotFound,
        },
        Request::Shutdown => Response::StoreSuccess,
        Request::Invalid(reason) => Response::InvalidRequest(reason),
    }
}

/// The diagnostic for a frame that declares no payload.
pub open spec fn empty_frame_reason() -> Seq<char> {
    "empty frame"@
}

/// The request that an event brings to a handler that is reading, if it
/// brings one. A frame without payload is turned down before any parsing.
pub open spec fn incoming_request(event: EventView) -> Option<RequestView> {
    match event {
        EventView::Frame(payload) => {
            if payload.len() == 0 {
                Some(RequestView::Invalid(empty_frame_reason()))
            } else {
                Some(parsed_request(payload))
            }
        },
        EventView::ReadFailed(FrameError::EmptyFrame) => Some(
            RequestView::Invalid(empty_frame_reason()),
        ),
        _ => None,
    }
}

/// The state that follows `state` on `event`.
pub open spec fn next_state(state: ConnState, event: EventView) -> ConnState {
    match state {
        ConnState::Greeting => match event {
            EventView::Sent => ConnState::Serving(Serving::Reading),
            _ => ConnState::Terminated,
        },
        ConnState::Serving(Serving::Reading) => match incoming_request(event) {
            Some(RequestView::Shutdown) => ConnState::Serving(Serving::Leaving),
            Some(_) => ConnState::Serving(Serving::Writing),
            None => ConnState::Terminated,
        },
        ConnState::Serving(Serving::Writing) => match event {
            EventView::Sent => ConnState::Serving(Serving::Reading),
            _ => ConnState::Terminated,
        },
        ConnState::Serving(Serving::Leaving) => ConnState::Terminated,
        ConnState::Terminated => ConnState::Terminated,
    }
}

/// What the store holds after `event` has come in at `state`.
pub open spec fn next_store(state: ConnState, event: EventView, store: StoreMap) -> StoreMap {
    match state {
        ConnState::Serving(Serving::Reading) => match incoming_request(event) {
            Some(request) => store_after(store, request),
            None => store,
        },
        _ => store,
    }
}

/// What is to be done after `event` has come in at `state`.
pub open spec fn next_action(state: ConnState, event: EventView, store: StoreMap) -> ActionView {
    match state {
        ConnState::Greeting => match event {
            EventView::Sent => ActionView::Receive,
            _ => ActionView::Close,
        },
        ConnState::Serving(Serving::Reading) => match incoming_request(event) {
            Some(request) => ActionView::Send(frame_of(response_bytes(reply_to(store, request)))),
            None => ActionView::Close,
        },
        ConnState::Serving(Serving::Writing) => match event {
            EventView::Sent => ActionView::Receive,
            _ => ActionView::Close,
        },
        ConnState::Serving(Serving::Leaving) => ActionView::Exit,
        ConnState::Terminated => ActionView::Close,
    }
}

/// Opens a connection: the handler starts in `Greeting`, and the first thing
/// to do is to send the greeting frame.
pub fn accept() -> (r: (ConnState, Action))
    ensures
        r.0 == ConnState::Greeting,
        r.1@ == ActionView::Send(frame_of(greeting_bytes())),
{
    let payload = greeting();
    proof {
        lemma_greeting_not_empty();
    }
    (ConnState::Greeting, Action::Send(encode_frame(payload.as_slice())))
}

/// Answers one request: it is applied to the store, and the response goes
/// out in a frame. After a shutdown request the handler is leaving.
fn serve(request: Request, storage: &mut Storage) -> (r: (ConnState, Action))
    ensures
        r.0 == ConnState::Serving(
            if request@ is Shutdown {
                Serving::Leaving
            } else {
                Serving::Writing
            },
        ),
        final(storage)@ == store_after(old(storage)@, request@),
        r.1@ == ActionView::Send(frame_of(response_bytes(reply_to(old(storage)@, request@)))),
{
    let waiting = match request {
        Request::Shutdown => Serving::Leaving,
        _ => Serving::Writing,
    };
    let response = respond(request, storage);
    proof {
        lemma_response_not_empty(response@);
    }
    let payload = serialize_response(response);
    (ConnState::Serving(waiting), Action::Send(encode_frame(payload.as_slice())))
}

/// Handles the payload of one request frame for a handler that is reading:
/// the payload is parsed, the request applied to the store, and the response
/// handed out in a frame. A payload that is no request is answered like any
/// other, and the handler goes on serving.
pub fn accept_request(payload: &[u8], storage: &mut Storage) -> (r: (ConnState, Action))
    ensures
        r.0 == next_state(ConnState::Serving(Serving::Reading), EventView::Frame(payload@)),
        final(storage)@ == next_store(
            ConnState::Serving(Serving::Reading),
            EventView::Frame(payload@),
            old(storage)@,
        ),
        r.1@ == next_action(
            ConnState::Serving(Serving::Reading),
            EventView::Frame(payload@),
            old(storage)@,
        ),
{
    if payload.len() == 0 {
        serve(Request::Invalid("empty frame".to_owned()), storage)
    } else {
        serve(deserialize_request(payload), storage)
    }
}

/// Moves a handler on by one event: the state that follows, what the store
/// holds then, and what to do next. An event that the handler was not waiting
/// for ends the connection.
pub fn step(state: ConnState, event: Event, storage: &mut Storage) -> (r: (ConnState, Action))
    ensures
        r.0 == next_state(state, event@),
        final(storage)@ == next_store(state, event@, old(storage)@),
        r.1@ == next_action(state, event@, old(storage)@),
{
    match state {
        ConnState::Greeting | ConnState::Serving(Serving::Writing) => match event {
            Event::Sent => (ConnState::Serving(Serving::Reading), Action::Receive),
            _ => (ConnState::Terminated, Action::Close),
        },
        ConnState::Serving(Serving::Reading) => match event {
            Event::Frame(payload) => accept_request(payload.as_slice(), storage),
            Event::ReadFailed(FrameError::EmptyFrame) => serve(
                Request::Invalid("empty frame".to_owned()),
                storage,
            ),
            _ => (ConnState::Terminated, Action::Close),
        },
        ConnState::Serving(Serving::Leaving) => (ConnState::Terminated, Action::Exit),
        ConnState::Terminated => (ConnState::Terminated, Action::Close),
    }
}

} // verus!
