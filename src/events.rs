//! Event hooks: which webhooks fire for a trigger, and their payloads with the
//! `${key}` placeholders filled in.
use vstd::prelude::*;

use crate::store::{locate_space, Store};
use crate::strategy::{replace_all, replace_all_str};
use crate::types::{Event, EventData, EventType};

verus! {

/// Why the events of a trigger cannot be fired.
#[derive(Debug, Clone, Copy, PartialEq, Eq, Structural)]
pub enum EventError {
    SpaceNotFound,
    /// A contract-call event matches the trigger; only webhooks can be fired.
    EvmEventUnsupported,
}

/// A webhook call to make: `body` is posted to `url` as JSON.
#[derive(Debug, Clone)]
pub struct WebhookRequest {
    pub url: String,
    pub body: String,
}

/// The events of `es` that fire on `trigger`, in order, as (url, payload template)
/// pairs; an error when one of them is not a webhook.
pub open spec fn webhooks_of(es: Seq<Event>, trigger: EventType) -> Result<
    Seq<(Seq<char>, Seq<char>)>,
    EventError,
>
    decreases es.len(),
{
    if es.len() == 0 {
        Ok(Seq::empty())
    } else {
        match webhooks_of(es.drop_last(), trigger) {
            Err(e) => Err(e),
            Ok(hooks) => if es.last().event_type != trigger {
                Ok(hooks)
            } else {
                match es.last().data {
                    EventData::Webhook(w) => Ok(hooks.push((w.webhook_url@, w.payload@))),
                    EventData::Evm(_) => Err(EventError::EvmEventUnsupported),
                }
            },
        }
    }
}

/// The placeholder that stands for `key` in a payload.
pub open spec fn placeholder(key: Seq<char>) -> Seq<char> {
    "${"@ + key + "}"@
}

/// `payload` with the placeholder of each key replaced by its value, pair by pair.
pub open spec fn render(payload: Seq<char>, data: Seq<(Seq<char>, Seq<char>)>) -> Seq<char>
    decreases data.len(),
{
    if data.len() == 0 {
        payload
    } else {
        replace_all(render(payload, data.drop_last()), placeholder(data.last().0), data.last().1)
    }
}

/// The texts of (key, value) pairs.
pub open spec fn pairs_view(data: Seq<(String, String)>) -> Seq<(Seq<char>, Seq<char>)> {
    data.map_values(|p: (String, String)| (p.0@, p.1@))
}

/// `payload` with the placeholder `${key}` of each pair replaced by its value, pair by
/// pair in order.
pub fn render_payload(payload: &str, data: &Vec<(String, String)>) -> (r: String)
    ensures
        r@ == render(payload@, pairs_view(data@)),
{
    let mut out = String::new();
    out.append(payload);
    let mut i: usize = 0;
    proof {
        assert(pairs_view(data@.subrange(0, 0)) =~= Seq::<(Seq<char>, Seq<char>)>::empty());
    }
    while i < data.len()
        invariant
            i <= data@.len(),
            out@ == render(payload@, pairs_view(data@.subrange(0, i as int))),
        decreases data@.len() - i,
    {
        let mut key = String::new();
        key.append("${");
        key.append(data[i].0.as_str());
        key.append("}");
        out = replace_all_str(out.as_str(), key.as_str(), data[i].1.as_str());
        proof {
            let next = pairs_view(data@.subrange(0, i as int + 1));
            assert(next.drop_last() =~= pairs_view(data@.subrange(0, i as int)));
        }
        i = i + 1;
    }
    proof {
        assert(data@.subrange(0, i as int) =~= data@);
    }
    out
}

/// The webhook calls that the events of space `space_id` make on `trigger`, with the
/// payloads rendered from `data`.
pub fn trigger_events(
    store: &Store,
    space_id: u32,
    trigger: EventType,
    data: &Vec<(String, String)>,
) -> (r: Result<Vec<WebhookRequest>, EventError>)
    ensures
        match locate_space(store.spaces@, space_id) {
            None => r == Err::<Vec<WebhookRequest>, EventError>(EventError::SpaceNotFound),
            Some(i) => match webhooks_of(store.spaces@[i].events@, trigger) {
                Err(e) => r == Err::<Vec<WebhookRequest>, EventError>(e),
                Ok(hooks) => r matches Ok(reqs) && reqs@.len() == hooks.len() && forall|k: int|
                    0 <= k < hooks.len() ==> (#[trigger] reqs@[k]).url@ == hooks[k].0
                        && reqs@[k].body@ == render(hooks[k].1, pairs_view(data@)),
            },
        },
{
    let events = match store.get_events_by_space(space_id) {
        Some(e) => e,
        None => return Err(EventError::SpaceNotFound),
    };
    let ghost idx = locate_space(store.spaces@, space_id)->0;
    let mut reqs: Vec<WebhookRequest> = Vec::new();
    let mut i: usize = 0;
    while i < events.len()
        invariant
            locate_space(store.spaces@, space_id) == Some(idx),
            store.spaces@[idx].events == *events,
            i <= events@.len(),
            webhooks_of(events@.subrange(0, i as int), trigger) matches Ok(hooks) && reqs@.len()
                == hooks.len() && forall|k: int|
                0 <= k < hooks.len() ==> (#[trigger] reqs@[k]).url@ == hooks[k].0
                    && reqs@[k].body@ == render(hooks[k].1, pairs_view(data@)),
        decreases events@.len() - i,
    {
        proof {
            assert(events@.subrange(0, i as int + 1).drop_last() =~= events@.subrange(0, i as int));
        }
        let e = &events[i];
        if e.event_type == trigger {
            match &e.data {
                EventData::Webhook(w) => {
                    let body = render_payload(w.payload.as_str(), data);
                    reqs.push(WebhookRequest { url: w.webhook_url.clone(), body });
                },
                EventData::Evm(_) => {
                    proof {
                        let prefix = events@.subrange(0, i as int + 1);
                        assert(prefix.last() == events@[i as int]);
                        assert(webhooks_of(prefix, trigger) == Err::<Seq<(Seq<char>, Seq<char>)>, EventError>(EventError::EvmEventUnsupported));
                        lemma_webhooks_error_sticks(events@, trigger, i as int + 1);
                    }
                    return Err(EventError::EvmEventUnsupported);
                },
            }
        }
        i = i + 1;
    }
    proof {
        assert(events@.subrange(0, i as int) =~= events@);
    }
    Ok(reqs)
}

/// An error in a prefix of the events is the error of all of them.
proof fn lemma_webhooks_error_sticks(es: Seq<Event>, trigger: EventType, n: int)
    requires
        0 <= n <= es.len(),
        webhooks_of(es.subrange(0, n), trigger) is Err,
    ensures
        webhooks_of(es, trigger) == webhooks_of(es.subrange(0, n), trigger),
    decreases es.len() - n,
{
    if n < es.len() {
        let longer = es.subrange(0, n + 1);
        assert(longer.drop_last() =~= es.subrange(0, n));
        assert(webhooks_of(longer, trigger) == webhooks_of(es.subrange(0, n), trigger));
        lemma_webhooks_error_sticks(es, trigger, n + 1);
    } else {
        assert(es.subrange(0, n) =~= es);
    }
}

} // verus!
