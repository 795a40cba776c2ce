use whep_player::client::{TrackDirection, WebrtcEvent};
use whep_player::net4::{IfAddr, IpV4};
use whep_player::pump::{pump_event_action, EncodedPacket, PumpAction};

#[test]
fn batch_before_negotiation_drains_to_nothing_and_succeeds() {
    let ifs = vec![IfAddr::V4(IpV4 { a: 10, b: 0, c: 0, d: 2 })];
    let mut s = whep_player::client::Client::from_interfaces(41000, &ifs).unwrap();
    let batch = vec![
        EncodedPacket { data: Some(vec![1u8, 2]), pts_micros: 0 },
        EncodedPacket { data: None, pts_micros: 10 },
        EncodedPacket { data: Some(vec![3u8]), pts_micros: 20 },
    ];
    assert!(s.drain_batch(batch).is_ok());
}

#[test]
fn batch_after_offer_is_still_drained() {
    let ifs = vec![IfAddr::V4(IpV4 { a: 10, b: 0, c: 0, d: 2 })];
    let mut s = whep_player::client::Client::from_interfaces(41001, &ifs).unwrap();
    s.create_offer(TrackDirection::SendOnly).unwrap();
    let batch = vec![EncodedPacket { data: Some(vec![1u8, 2, 3]), pts_micros: 500 }];
    // The track exists but nothing is connected; draining must not panic
    // and any failure must be a send error.
    match s.drain_batch(batch) {
        Ok(()) => {}
        Err(e) => assert!(matches!(e, whep_player::client::WebrtcError::SendError(_))),
    }
}

#[test]
fn disconnect_stops_the_pump() {
    assert!(matches!(pump_event_action(WebrtcEvent::Disconnected), PumpAction::Stop));
}

#[test]
fn media_goes_to_the_decoder() {
    match pump_event_action(WebrtcEvent::Media(vec![5u8, 6])) {
        PumpAction::Decode(d) => assert_eq!(d, vec![5u8, 6]),
        _ => panic!("expected decode"),
    }
}

#[test]
fn continue_is_idle_for_the_inbound_pump() {
    assert!(matches!(pump_event_action(WebrtcEvent::Continue), PumpAction::Idle));
}

// The inbound pump skips a failed decode and goes on: drive it over one
// failing unit and one well-formed unit, as the decoder would report
// them, and check the second unit's frame still comes through.
#[test]
fn decode_failure_does_not_block_later_units() {
    let units: Vec<(Vec<u8>, bool)> = vec![(vec![0xffu8, 0xff], false), (vec![1u8, 2, 3], true)];
    let mut forwarded: Vec<Vec<u8>> = Vec::new();
    for (payload, decodes) in units {
        match pump_event_action(WebrtcEvent::Media(payload)) {
            PumpAction::Decode(unit) => {
                // The external decoder fails on the first unit.
                if decodes {
                    forwarded.push(unit);
                }
            }
            _ => panic!("expected decode"),
        }
    }
    assert_eq!(forwarded, vec![vec![1u8, 2, 3]]);
}
