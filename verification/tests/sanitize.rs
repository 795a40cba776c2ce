use whep_player::sdp::{line_tokens, sanitize_answer, sanitize_one_line, split_lines};

fn s(bytes: &[u8]) -> String {
    String::from_utf8(bytes.to_vec()).unwrap()
}

#[test]
fn origin_line_first_token_becomes_placeholder() {
    let out = sanitize_one_line(b"o=SRS/5.0.217(Bee) 1 2 IN IP4 0.0.0.0");
    assert_eq!(s(&out), "o=- 1 2 IN IP4 0.0.0.0");
}

#[test]
fn origin_line_with_only_one_token() {
    let out = sanitize_one_line(b"o=whatever");
    assert_eq!(s(&out), "o=-");
}

#[test]
fn session_name_line_becomes_placeholder() {
    let out = sanitize_one_line(b"s=SRSPlaySession");
    assert_eq!(s(&out), "s=-");
}

#[test]
fn other_lines_stay_byte_identical() {
    let out = sanitize_one_line(b"a=ice-ufrag:abcd");
    assert_eq!(s(&out), "a=ice-ufrag:abcd");
    let out = sanitize_one_line(b"v=0");
    assert_eq!(s(&out), "v=0");
    let out = sanitize_one_line(b"");
    assert_eq!(s(&out), "");
}

#[test]
fn whole_answer_is_rewritten_line_by_line() {
    let input = b"v=0\r\no=SRS/5.0.217(Bee) 0 0 IN IP4 0.0.0.0\r\ns=SRSPlaySession\r\nt=0 0\r\nm=video 9 UDP/TLS/RTP/SAVPF 106\r\n";
    let out = sanitize_answer(input);
    assert_eq!(s(&out), "v=0\no=- 0 0 IN IP4 0.0.0.0\ns=-\nt=0 0\nm=video 9 UDP/TLS/RTP/SAVPF 106");
}

#[test]
fn answer_without_final_newline() {
    let out = sanitize_answer(b"v=0\ns=x");
    assert_eq!(s(&out), "v=0\ns=-");
}

#[test]
fn empty_answer_stays_empty() {
    let out = sanitize_answer(b"");
    assert_eq!(s(&out), "");
}

#[test]
fn origin_token_spacing_is_normalized() {
    let out = sanitize_one_line(b"o=x  1\t2   3");
    assert_eq!(s(&out), "o=- 1 2 3");
}

#[test]
fn split_lines_matches_line_semantics() {
    let lines = split_lines(b"a\nb\n");
    assert_eq!(lines.len(), 2);
    assert_eq!(s(&lines[0]), "a");
    assert_eq!(s(&lines[1]), "b");
    let lines = split_lines(b"a\n\nb");
    assert_eq!(lines.len(), 3);
    assert_eq!(s(&lines[1]), "");
    assert_eq!(split_lines(b"").len(), 0);
    let lines = split_lines(b"\n");
    assert_eq!(lines.len(), 1);
    assert_eq!(s(&lines[0]), "");
}

#[test]
fn tokens_split_on_spaces_and_tabs() {
    let toks = line_tokens(b"  one\ttwo  three ");
    assert_eq!(toks.len(), 3);
    assert_eq!(s(&toks[0]), "one");
    assert_eq!(s(&toks[1]), "two");
    assert_eq!(s(&toks[2]), "three");
    assert_eq!(line_tokens(b"").len(), 0);
    assert_eq!(line_tokens(b" \t ").len(), 0);
}
