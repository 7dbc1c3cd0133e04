use yuki_client::decoder::StreamDecoder;
use yuki_client::transport::{check_status, decode_body, ReplyAssembler, TransportError};

fn chunks(parts: &[&str]) -> Vec<Vec<u8>> {
    parts.iter().map(|p| p.as_bytes().to_vec()).collect()
}

#[test]
fn streaming_reconstruction_two_deliveries() {
    let body = chunks(&[
        "data: {\"choices\":[{\"delta\":{\"content\":\"Hel\"}}]}\n",
        "data: {\"choices\":[{\"delta\":{\"content\":\"lo\"}}]}\ndata: [DONE]\n",
    ]);
    assert_eq!(decode_body(&body), "Hello");
}

#[test]
fn streaming_reconstruction_three_parts() {
    let body = chunks(&[
        "data: {\"choices\":[{\"delta\":{\"content\":\"Hel\"}}]}\n",
        "data: {\"choices\":[{\"delta\":{\"content\":\"lo\"}}]}\n",
        "data: [DONE]\n",
    ]);
    assert_eq!(decode_body(&body), "Hello");
}

#[test]
fn chunk_boundary_mid_line() {
    let body = chunks(&[
        "data: {\"choices\":[{\"delta\":{\"con",
        "tent\":\"Hello\"}}]}\n\ndata: [DONE]\n",
    ]);
    assert_eq!(decode_body(&body), "Hello");
}

#[test]
fn chunk_boundary_every_byte() {
    let text = "data: {\"choices\":[{\"delta\":{\"content\":\"Hel\"}}]}\n\
                data: {\"choices\":[{\"delta\":{\"content\":\"lo\"}}]}\ndata: [DONE]\n";
    let body: Vec<Vec<u8>> = text.as_bytes().iter().map(|b| vec![*b]).collect();
    assert_eq!(decode_body(&body), "Hello");
}

#[test]
fn malformed_fragment_is_skipped() {
    let mut d = StreamDecoder::new();
    let out = d.feed(
        b"data: {\"choices\":[{\"delta\":{\"content\":\"ok\"}}]}\ndata: {not json\n",
    );
    assert_eq!(out, vec!["ok".to_string()]);
    assert!(!d.is_finished());
    let more = d.feed(b"data: {\"choices\":[{\"delta\":{\"content\":\"!\"}}]}\n");
    assert_eq!(more, vec!["!".to_string()]);
}

#[test]
fn heartbeat_and_foreign_lines_yield_nothing() {
    let mut d = StreamDecoder::new();
    let out = d.feed(
        b": keep-alive\nevent: ping\ndata: {\"choices\":[{\"delta\":{}}]}\ndata: {\"choices\":[]}\n",
    );
    assert!(out.is_empty());
    assert!(!d.is_finished());
}

#[test]
fn nothing_is_read_after_the_sentinel() {
    let mut d = StreamDecoder::new();
    let out = d.feed(
        b"data: [DONE]\ndata: {\"choices\":[{\"delta\":{\"content\":\"late\"}}]}\n",
    );
    assert!(out.is_empty());
    assert!(d.is_finished());
    assert!(d.feed(b"data: {\"choices\":[{\"delta\":{\"content\":\"x\"}}]}\n").is_empty());
}

#[test]
fn crlf_line_endings() {
    let body = chunks(&[
        "data: {\"choices\":[{\"delta\":{\"content\":\"a\"}}]}\r\n",
        "data: [DONE]\r\n",
    ]);
    assert_eq!(decode_body(&body), "a");
}

#[test]
fn unterminated_last_line_is_decoded_at_the_end() {
    let body = chunks(&["data: {\"choices\":[{\"delta\":{\"content\":\"tail\"}}]}"]);
    assert_eq!(decode_body(&body), "tail");
}

#[test]
fn empty_body_gives_empty_reply() {
    assert_eq!(decode_body(&Vec::new()), "");
}

#[test]
fn escaped_content_is_unescaped() {
    let body = chunks(&["data: {\"choices\":[{\"delta\":{\"content\":\"a\\nb \\\"q\\\"\"}}]}\n"]);
    assert_eq!(decode_body(&body), "a\nb \"q\"");
}

#[test]
fn assembler_accumulates_what_it_shows() {
    let mut a = ReplyAssembler::new();
    let first = a.feed(b"data: {\"choices\":[{\"delta\":{\"content\":\"x\"}}]}\ndata: {\"cho");
    assert_eq!(first, vec!["x".to_string()]);
    let second = a.feed(b"ices\":[{\"delta\":{\"content\":\"y\"}}]}\ndata: [DONE]\n");
    assert_eq!(second, vec!["y".to_string()]);
    assert!(a.is_finished());
    assert!(a.finish().is_empty());
    assert_eq!(a.into_reply(), "xy");
}

#[test]
fn status_codes() {
    assert_eq!(check_status(200), Ok(()));
    assert_eq!(check_status(299), Ok(()));
    assert_eq!(check_status(500), Err(TransportError::Server(500)));
    assert_eq!(check_status(404), Err(TransportError::Server(404)));
    assert_eq!(check_status(199), Err(TransportError::Server(199)));
}

#[test]
fn invalid_json_between_fragments_does_not_abort() {
    let body = chunks(&[
        "data: {\"choices\":[{\"delta\":{\"content\":\"a\"}}]}\n",
        "data: {\"choices\":[{\"delta\":{\"content\":\n",
        "data: {\"choices\":[{\"delta\":{\"content\":\"b\"}}]}\ndata: [DONE]\n",
    ]);
    assert_eq!(decode_body(&body), "ab");
}
