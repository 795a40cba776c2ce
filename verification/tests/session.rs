use whep_player::client::{
    classify_event, classify_recv_failure, find_h264_params, rebase_rtp_time, Client, CodecParam,
    EventRepr, IceState, TrackDirection, WebrtcError, WebrtcEvent,
};
use whep_player::net4::{IfAddr, IpV4};

fn session() -> Client {
    let ifs = vec![IfAddr::V4(IpV4 { a: 192, b: 168, c: 1, d: 7 })];
    Client::from_interfaces(40000, &ifs).unwrap()
}

#[test]
fn offer_is_generated_and_answered_between_two_sessions() {
    let mut publisher = session();
    let offer = publisher.create_offer(TrackDirection::SendOnly).unwrap();
    assert!(offer.starts_with("v=0"));
    assert!(offer.contains("m=video"));

    let mut subscriber = session();
    let answer = subscriber.accept_whip_request(offer).unwrap();
    assert!(answer.starts_with("v=0"));

    publisher.apply_answer(&answer).unwrap();
}

#[test]
fn malformed_offer_is_an_sdp_error() {
    let mut s = session();
    let r = s.accept_whip_request("this is not sdp".to_string());
    assert!(matches!(r, Err(WebrtcError::SdpError)));
}

#[test]
fn malformed_answer_is_an_sdp_error() {
    let mut s = session();
    s.create_offer(TrackDirection::RecvOnly).unwrap();
    let r = s.apply_answer("not sdp either");
    assert!(matches!(r, Err(WebrtcError::SdpError)));
}

#[test]
fn answer_with_hostile_origin_and_session_lines_is_parsed() {
    let mut publisher = session();
    let offer = publisher.create_offer(TrackDirection::SendOnly).unwrap();
    let mut subscriber = session();
    let answer = subscriber.accept_whip_request(offer).unwrap();
    // Rewrite the answer the way a misbehaving signaling server would.
    let hostile = answer
        .lines()
        .map(|line| {
            if line.starts_with("o=") {
                "o=SRS/5.0.217(Bee) 0 0 IN IP4 0.0.0.0".to_string()
            } else if line.starts_with("s=") {
                "s=SRSPlaySession".to_string()
            } else {
                line.to_string()
            }
        })
        .collect::<Vec<String>>()
        .join("\n");
    publisher.apply_answer(&hostile).unwrap();
}

#[test]
fn media_send_before_negotiation_is_a_successful_no_op() {
    let mut s = session();
    let r = s.send_video(&[0u8, 1, 2, 3], 1000);
    assert!(r.is_ok());
}

#[test]
fn connected_event_continues() {
    assert!(matches!(classify_event(EventRepr::Connected), WebrtcEvent::Continue));
}

#[test]
fn ice_disconnect_ends_the_session() {
    let r = classify_event(EventRepr::IceChange(IceState::Disconnected));
    assert!(matches!(r, WebrtcEvent::Disconnected));
    let r = classify_event(EventRepr::IceChange(IceState::Checking));
    assert!(matches!(r, WebrtcEvent::Continue));
}

#[test]
fn media_event_surfaces_its_payload() {
    let r = classify_event(EventRepr::Media(vec![9u8, 8, 7]));
    match r {
        WebrtcEvent::Media(d) => assert_eq!(d, vec![9u8, 8, 7]),
        _ => panic!("expected media"),
    }
}

#[test]
fn stats_and_track_events_continue() {
    assert!(matches!(classify_event(EventRepr::PeerStats), WebrtcEvent::Continue));
    assert!(matches!(classify_event(EventRepr::IngressStats), WebrtcEvent::Continue));
    assert!(matches!(classify_event(EventRepr::EgressStats), WebrtcEvent::Continue));
    assert!(matches!(classify_event(EventRepr::MediaAdded), WebrtcEvent::Continue));
    assert!(matches!(classify_event(EventRepr::Other), WebrtcEvent::Continue));
}

#[test]
fn connect_then_ice_disconnect_reports_disconnected_once() {
    let events = vec![
        EventRepr::Connected,
        EventRepr::IceChange(IceState::Disconnected),
        EventRepr::Connected,
        EventRepr::Media(vec![1u8]),
    ];
    let mut reports: Vec<&'static str> = Vec::new();
    for ev in events {
        match classify_event(ev) {
            WebrtcEvent::Continue => reports.push("continue"),
            WebrtcEvent::Media(_) => reports.push("media"),
            WebrtcEvent::Disconnected => {
                reports.push("disconnected");
                break;
            }
        }
    }
    assert_eq!(reports, vec!["continue", "disconnected"]);
}

#[test]
fn connection_reset_is_transient_and_other_failures_fatal() {
    let r = classify_recv_failure(true, "reset".to_string());
    assert!(matches!(r, Ok(WebrtcEvent::Continue)));
    let r = classify_recv_failure(false, "broken".to_string());
    match r {
        Err(WebrtcError::NetworkError(msg)) => assert_eq!(msg, "broken"),
        _ => panic!("expected a network error"),
    }
}

fn param(h264: bool, profile: Option<u32>, pt: u8) -> CodecParam {
    CodecParam {
        h264,
        has_profile: profile.is_some(),
        profile: profile.unwrap_or(0),
        pt,
        clock_rate: 90000,
    }
}

#[test]
fn h264_lookup_finds_first_matching_profile() {
    let params = vec![
        param(false, Some(4382751), 96),
        param(true, None, 97),
        param(true, Some(4382751), 98),
        param(true, Some(4382751), 99),
    ];
    assert_eq!(find_h264_params(&params), Some(2));
    assert_eq!(find_h264_params(&vec![param(true, Some(1), 96)]), None);
    assert_eq!(find_h264_params(&Vec::new()), None);
}

#[test]
fn presentation_time_rebases_to_codec_clock() {
    // One second of microseconds at a 90 kHz clock is 90000 ticks.
    assert_eq!(rebase_rtp_time(1_000_000, 90000), 90000);
    // Half a second at 48 kHz.
    assert_eq!(rebase_rtp_time(500_000, 48000), 24000);
    // Truncating division, as the transport's time type computes it.
    assert_eq!(rebase_rtp_time(1, 90000), 0);
    assert_eq!(rebase_rtp_time(0, 90000), 0);
}
