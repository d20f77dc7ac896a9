//! What holds of the store and of a serving connection, whatever the keys,
//! the hashes and the payloads are.

use vstd::prelude::*;
use crate::connection::{
    incoming_request, next_action, next_state, next_store, reply_to, store_after, ActionView,
    ConnState, EventView, Serving,
};
use crate::frame::frame_of;
use crate::request::{fields_request, parsed_request, payload_request, FieldMap, RequestView};
use crate::response::{response_bytes, ResponseView};
use crate::storage::StoreMap;

verus! {

/// What the store holds once every request of `requests` has been applied to
/// `store`, the first one first.
pub open spec fn store_after_all(store: StoreMap, requests: Seq<RequestView>) -> StoreMap
    decreases requests.len(),
{
    if requests.len() == 0 {
        store
    } else {
        store_after(store_after_all(store, requests.drop_last()), requests.last())
    }
}

/// Whether `request` stores something under `key`.
pub open spec fn stores_under(request: RequestView, key: Seq<char>) -> bool {
    match request {
        RequestView::Store(k, _) => k == key,
        _ => false,
    }
}

/// A field that the protocol does not know changes nothing: with it or
/// without it, the fields spell the same request.
pub proof fn lemma_unknown_field_ignored(fields: FieldMap, name: Seq<char>, value: Seq<char>)
    requires
        name != "request_type"@,
        name != "key"@,
        name != "hash"@,
    ensures
        fields_request(fields.insert(name, value)) == fields_request(fields),
{
}

/// A store request that comes out of the parser holds a key and a hash that
/// are not empty.
pub proof fn lemma_parsed_store_not_empty(payload: Seq<u8>)
    ensures
        match parsed_request(payload) {
            RequestView::Store(key, hash) => key.len() > 0 && hash.len() > 0,
            _ => true,
        },
{
}

/// A hash that was stored under a key is what a load of that key finds,
/// whatever the store held before.
pub proof fn lemma_round_trip(store: StoreMap, key: Seq<char>, hash: Seq<char>)
    ensures
        reply_to(store_after(store, RequestView::Store(key, hash)), RequestView::Load(key))
            == ResponseView::LoadSuccess(key, hash),
{
}

/// A key that no request has stored anything under is not found: from an empty
/// store, after any requests none of which stores under `key`, a load of
/// `key` is answered with `LoadNotFound`, and the store has no such key.
pub proof fn lemma_miss(requests: Seq<RequestView>, key: Seq<char>)
    requires
        forall|i: int| 0 <= i < requests.len() ==> !stores_under(#[trigger] requests[i], key),
    ensures
        !store_after_all(StoreMap::empty(), requests).contains_key(key),
        reply_to(store_after_all(StoreMap::empty(), requests), RequestView::Load(key))
            == ResponseView::LoadNotFound,
    decreases requests.len(),
{
    if requests.len() > 0 {
        let earlier = requests.drop_last();
        assert forall|i: int| 0 <= i < earlier.len() implies !stores_under(
            #[trigger] earlier[i],
            key,
        ) by {
            assert(earlier[i] == requests[i]);
        }
        lemma_miss(earlier, key);
        assert(!stores_under(requests[requests.len() - 1], key));
    }
}

/// Of two hashes stored under one key, one after the other, a load finds the
/// second, and the store is what it would be had the first never been stored.
pub proof fn lemma_overwrite(store: StoreMap, key: Seq<char>, first: Seq<char>, second: Seq<char>)
    ensures
        reply_to(
            store_after(
                store_after(store, RequestView::Store(key, first)),
                RequestView::Store(key, second),
            ),
            RequestView::Load(key),
        ) == ResponseView::LoadSuccess(key, second),
        store_after(
            store_after(store, RequestView::Store(key, first)),
            RequestView::Store(key, second),
        ) == store_after(store, RequestView::Store(key, second)),
{
    assert(store.insert(key, first).insert(key, second) =~= store.insert(key, second));
}

/// Two stores under different keys do not disturb each other: in whichever
/// order they are applied the store ends up the same, and each key is then
/// found with its own hash.
pub proof fn lemma_isolation(
    store: StoreMap,
    key1: Seq<char>,
    hash1: Seq<char>,
    key2: Seq<char>,
    hash2: Seq<char>,
)
    requires
        key1 != key2,
    ensures
        store_after(
            store_after(store, RequestView::Store(key1, hash1)),
            RequestView::Store(key2, hash2),
        ) == store_after(
            store_after(store, RequestView::Store(key2, hash2)),
            RequestView::Store(key1, hash1),
        ),
        reply_to(
            store_after(
                store_after(store, RequestView::Store(key1, hash1)),
                RequestView::Store(key2, hash2),
            ),
            RequestView::Load(key1),
        ) == ResponseView::LoadSuccess(key1, hash1),
        reply_to(
            store_after(
                store_after(store, RequestView::Store(key1, hash1)),
                RequestView::Store(key2, hash2),
            ),
            RequestView::Load(key2),
        ) == ResponseView::LoadSuccess(key2, hash2),
{
    assert(store.insert(key1, hash1).insert(key2, hash2) =~= store.insert(key2, hash2).insert(
        key1,
        hash1,
    ));
}

/// A store request adds at most its own key and takes nothing away: the count
/// goes up by one where the key is new and stays where it is not, every key
/// that was there is still there, and every other key keeps its hash.
pub proof fn lemma_store_count(store: StoreMap, key: Seq<char>, hash: Seq<char>)
    requires
        store.dom().finite(),
    ensures
        store_after(store, RequestView::Store(key, hash)).dom().finite(),
        store_after(store, RequestView::Store(key, hash)).len() == store.len() + (if store.contains_key(
            key,
        ) {
            0nat
        } else {
            1nat
        }),
        forall|k: Seq<char>| #[trigger]
            store.contains_key(k) ==> store_after(store, RequestView::Store(key, hash)).contains_key(
                k,
            ),
        forall|k: Seq<char>|
            k != key && #[trigger] store.contains_key(k) ==> store_after(
                store,
                RequestView::Store(key, hash),
            )[k] == store[k],
{
    let after = store.insert(key, hash);
    assert(after.dom() =~= store.dom().insert(key));
}

/// A request that does not store leaves the store as it was.
pub proof fn lemma_only_store_writes(store: StoreMap, request: RequestView)
    requires
        !(request is Store),
    ensures
        store_after(store, request) == store,
{
}

/// A handler that is reading answers every payload that is not empty with the
/// response to the request that the payload parses to, applies that request to
/// the store, and waits for the write.
pub proof fn lemma_frame_is_answered(store: StoreMap, payload: Seq<u8>)
    requires
        payload.len() > 0,
    ensures
        next_action(ConnState::Serving(Serving::Reading), EventView::Frame(payload), store)
            == ActionView::Send(
            frame_of(response_bytes(reply_to(store, parsed_request(payload)))),
        ),
        next_store(ConnState::Serving(Serving::Reading), EventView::Frame(payload), store)
            == store_after(store, parsed_request(payload)),
        next_state(ConnState::Serving(Serving::Reading), EventView::Frame(payload))
            == ConnState::Serving(
            if parsed_request(payload) is Shutdown {
                Serving::Leaving
            } else {
                Serving::Writing
            },
        ),
{
}

/// On a connection, a store request and then a load request for the same key
/// are answered with success and with the hash that was stored, and the
/// handler is reading again after each answer is written.
pub proof fn lemma_store_then_load_on_connection(
    store: StoreMap,
    first: Seq<u8>,
    second: Seq<u8>,
    key: Seq<char>,
    hash: Seq<char>,
)
    requires
        first.len() > 0,
        second.len() > 0,
        parsed_request(first) == RequestView::Store(key, hash),
        parsed_request(second) == RequestView::Load(key),
    ensures
        ({
            let reading = ConnState::Serving(Serving::Reading);
            let stored = next_store(reading, EventView::Frame(first), store);
            &&& next_action(reading, EventView::Frame(first), store) == ActionView::Send(
                frame_of(response_bytes(ResponseView::StoreSuccess)),
            )
            &&& next_state(next_state(reading, EventView::Frame(first)), EventView::Sent)
                == reading
            &&& next_action(reading, EventView::Frame(second), stored) == ActionView::Send(
                frame_of(response_bytes(ResponseView::LoadSuccess(key, hash))),
            )
            &&& next_state(next_state(reading, EventView::Frame(second)), EventView::Sent)
                == reading
        }),
{
}

/// A payload that is no request does not end the connection. The handler
/// answers it with `InvalidRequest` and the reason, leaves the store alone,
/// and is reading again once the answer is written.
pub proof fn lemma_invalid_payload_recovery(store: StoreMap, payload: Seq<u8>)
    requires
        payload.len() > 0,
        payload_request(payload) is Err,
    ensures
        next_action(ConnState::Serving(Serving::Reading), EventView::Frame(payload), store)
            == ActionView::Send(
            frame_of(
                response_bytes(
                    ResponseView::InvalidRequest(payload_request(payload)->Err_0.reason()),
                ),
            ),
        ),
        next_store(ConnState::Serving(Serving::Reading), EventView::Frame(payload), store)
            == store,
        next_state(
            next_state(ConnState::Serving(Serving::Reading), EventView::Frame(payload)),
            EventView::Sent,
        ) == ConnState::Serving(Serving::Reading),
{
}

/// Requests are not pipelined: the handler asks for the next frame only when
/// it is told that the frame it handed out last, the greeting or a response,
/// has been written, and it is reading exactly when it has asked.
pub proof fn lemma_reads_follow_writes(state: ConnState, event: EventView, store: StoreMap)
    ensures
        next_action(state, event, store) is Receive <==> event is Sent && (state
            == ConnState::Greeting || state == ConnState::Serving(Serving::Writing)),
        next_action(state, event, store) is Receive <==> next_state(state, event)
            == ConnState::Serving(Serving::Reading),
{
}

/// The server is stopped only for a shutdown request, and only after the
/// answer to it has been handed out: the handler is leaving exactly when a
/// reading handler has taken in a shutdown request, and `Exit` is what a
/// leaving handler says next, and no other.
pub proof fn lemma_exit_follows_shutdown(state: ConnState, event: EventView, store: StoreMap)
    ensures
        next_state(state, event) == ConnState::Serving(Serving::Leaving) <==> state
            == ConnState::Serving(Serving::Reading) && incoming_request(event) == Some(
            RequestView::Shutdown,
        ),
        next_action(state, event, store) is Exit <==> state == ConnState::Serving(
            Serving::Leaving,
        ),
{
}

/// Only a reading handler touches the store, and only through the request
/// that has come in.
pub proof fn lemma_store_changes_by_requests(state: ConnState, event: EventView, store: StoreMap)
    ensures
        next_store(state, event, store) != store ==> state == ConnState::Serving(
            Serving::Reading,
        ) && incoming_request(event) is Some && incoming_request(event)->Some_0 is Store,
{
}

/// Once terminated, a connection stays terminated, and nothing it is told
/// changes the store.
pub proof fn lemma_terminated_is_final(event: EventView, store: StoreMap)
    ensures
        next_state(ConnState::Terminated, event) == ConnState::Terminated,
        next_store(ConnState::Terminated, event, store) == store,
        next_action(ConnState::Terminated, event, store) == ActionView::Close,
{
}

} // verus!
