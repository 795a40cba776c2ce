use whep_player::client::{Client, WebrtcError};
use whep_player::net4::{select_candidates, IfAddr, IpV4};

fn ip(a: u8, b: u8, c: u8, d: u8) -> IpV4 {
    IpV4 { a, b, c, d }
}

#[test]
fn one_candidate_per_usable_interface() {
    let ifs = vec![
        IfAddr::V4(ip(127, 0, 0, 1)),
        IfAddr::V4(ip(192, 168, 1, 7)),
        IfAddr::V6,
        IfAddr::V4(ip(169, 254, 3, 4)),
        IfAddr::V4(ip(10, 0, 0, 2)),
    ];
    let cands = select_candidates(&ifs);
    assert_eq!(cands.len(), 2);
    assert_eq!(cands[0], ip(192, 168, 1, 7));
    assert_eq!(cands[1], ip(10, 0, 0, 2));
}

#[test]
fn loopback_link_local_and_v6_never_qualify() {
    let ifs = vec![
        IfAddr::V4(ip(127, 255, 255, 254)),
        IfAddr::V4(ip(169, 254, 0, 1)),
        IfAddr::V6,
    ];
    assert_eq!(select_candidates(&ifs).len(), 0);
}

#[test]
fn zero_qualifying_interfaces_yields_no_candidates() {
    let ifs = vec![IfAddr::V4(ip(127, 0, 0, 1)), IfAddr::V6];
    let r = Client::from_interfaces(5000, &ifs);
    assert!(matches!(r, Err(WebrtcError::NoCandidates)));
    let r = Client::from_interfaces(5000, &Vec::new());
    assert!(matches!(r, Err(WebrtcError::NoCandidates)));
}

#[test]
fn session_from_usable_interfaces_is_created() {
    let ifs = vec![IfAddr::V4(ip(127, 0, 0, 1)), IfAddr::V4(ip(192, 168, 1, 7))];
    let r = Client::from_interfaces(5000, &ifs);
    assert!(r.is_ok());
}

#[test]
fn machine_enumeration_yields_session_or_no_candidates() {
    match Client::new(5000) {
        Ok(_) => {}
        Err(e) => assert!(matches!(e, WebrtcError::NoCandidates)),
    }
}
