use whep_player::signal::{
    reject_status_message, whip_headers, RedirectTracker, SignalStep, MAX_REDIRECTS,
};

struct MockResponse {
    status: u16,
    location: Option<String>,
    body: &'static str,
}

// A signaling server that answers three chained redirects, then created.
fn mock_server(posts: usize) -> MockResponse {
    match posts {
        1 => MockResponse { status: 302, location: Some("http://a/1".to_string()), body: "" },
        2 => MockResponse { status: 302, location: Some("http://a/2".to_string()), body: "" },
        3 => MockResponse { status: 302, location: Some("http://a/3".to_string()), body: "" },
        _ => MockResponse { status: 201, location: None, body: "v=0" },
    }
}

#[test]
fn three_redirects_then_created_makes_four_posts() {
    let mut tracker = RedirectTracker::new();
    let mut posts: usize = 0;
    let mut url = "http://a/0".to_string();
    let body = loop {
        posts += 1;
        let response = mock_server(posts);
        match tracker.on_response(response.status, response.location) {
            SignalStep::Repost(next) => url = next,
            SignalStep::Accept => break response.body,
            SignalStep::Reject(status) => panic!("rejected with {}", status),
        }
    };
    assert_eq!(posts, 4);
    assert_eq!(body, "v=0");
    assert_eq!(url, "http://a/3");
}

#[test]
fn created_without_redirects_is_accepted() {
    let mut tracker = RedirectTracker::new();
    assert!(matches!(tracker.on_response(201, None), SignalStep::Accept));
}

#[test]
fn non_created_terminal_status_is_rejected_with_its_code() {
    let mut tracker = RedirectTracker::new();
    assert!(matches!(tracker.on_response(404, None), SignalStep::Reject(404)));
    assert!(matches!(tracker.on_response(200, None), SignalStep::Reject(200)));
    assert!(matches!(tracker.on_response(500, None), SignalStep::Reject(500)));
}

#[test]
fn redirect_without_location_is_rejected() {
    let mut tracker = RedirectTracker::new();
    assert!(matches!(tracker.on_response(302, None), SignalStep::Reject(302)));
}

#[test]
fn redirect_chain_is_bounded() {
    let mut tracker = RedirectTracker::new();
    let mut follows: u32 = 0;
    loop {
        match tracker.on_response(302, Some("http://a/loop".to_string())) {
            SignalStep::Repost(_) => follows += 1,
            SignalStep::Reject(302) => break,
            _ => panic!("unexpected step"),
        }
        assert!(follows <= MAX_REDIRECTS);
    }
    assert_eq!(follows, MAX_REDIRECTS);
}

#[test]
fn rejection_message_carries_the_status_in_decimal() {
    assert_eq!(reject_status_message(404), "POST failed with status: 404");
    assert_eq!(reject_status_message(0), "POST failed with status: 0");
    assert_eq!(reject_status_message(65535), "POST failed with status: 65535");
    assert_eq!(reject_status_message(200), "POST failed with status: 200");
}

#[test]
fn headers_without_token() {
    let headers = whip_headers(None);
    assert_eq!(headers.len(), 3);
    assert_eq!(headers[0].0, "Content-Type");
    assert_eq!(headers[0].1, "application/sdp");
    assert_eq!(headers[1].0, "Accept");
    assert_eq!(headers[1].1, "application/sdp");
    assert_eq!(headers[2].0, "User-Agent");
    assert_eq!(headers[2].1, "bitwhip");
}

#[test]
fn headers_with_token_carry_bearer_authorization() {
    let headers = whip_headers(Some("secret"));
    assert_eq!(headers.len(), 4);
    assert_eq!(headers[0].0, "Authorization");
    assert_eq!(headers[0].1, "Bearer secret");
    assert_eq!(headers[1].0, "Content-Type");
}
