use decgov_backend::events::{render_payload, trigger_events, EventError};
use decgov_backend::power::Power;
use decgov_backend::store::Store;
use decgov_backend::types::{Event, EventData, EventType, EvmEvent, WebhookEvent};

fn store_with(events: Vec<Event>) -> Store {
    let mut store = Store::new();
    store.insert_space(
        "S".to_string(),
        String::new(),
        String::new(),
        0,
        1,
        0,
        Power::zero(),
        Power::zero(),
    );
    store.spaces[0].events = events;
    store
}

fn hook(t: EventType, url: &str, payload: &str) -> Event {
    Event {
        event_type: t,
        space_id: 1,
        data: EventData::Webhook(WebhookEvent {
            webhook_url: url.to_string(),
            payload: payload.to_string(),
        }),
    }
}

#[test]
fn payload_placeholders_are_filled() {
    let data = vec![
        ("power".to_string(), "42".to_string()),
        ("address".to_string(), "0xab".to_string()),
    ];
    assert_eq!(
        render_payload("{\"p\":\"${power}\",\"a\":\"${address}\",\"q\":\"${power}\"}", &data),
        "{\"p\":\"42\",\"a\":\"0xab\",\"q\":\"42\"}"
    );
}

#[test]
fn only_matching_webhooks_fire() {
    let store = store_with(vec![
        hook(EventType::Vote, "https://a", "${power}"),
        hook(EventType::ProposalCreated, "https://b", "x"),
        hook(EventType::Vote, "https://c", "v"),
    ]);
    let data = vec![("power".to_string(), "7".to_string())];
    let reqs = trigger_events(&store, 1, EventType::Vote, &data).unwrap();
    assert_eq!(reqs.len(), 2);
    assert_eq!(reqs[0].url, "https://a");
    assert_eq!(reqs[0].body, "7");
    assert_eq!(reqs[1].url, "https://c");
    assert_eq!(trigger_events(&store, 2, EventType::Vote, &data).unwrap_err(), EventError::SpaceNotFound);
}

#[test]
fn evm_events_are_not_fired() {
    let store = store_with(vec![Event {
        event_type: EventType::Vote,
        space_id: 1,
        data: EventData::Evm(EvmEvent {
            chain_id: 1,
            contract_address: "0x1".to_string(),
            config_str: String::new(),
        }),
    }]);
    assert_eq!(
        trigger_events(&store, 1, EventType::Vote, &vec![]).unwrap_err(),
        EventError::EvmEventUnsupported
    );
    assert_eq!(trigger_events(&store, 1, EventType::ProposalEnded, &vec![]).unwrap().len(), 0);
}
