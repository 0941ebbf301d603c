use bitsparrow::Encoder;
use jsworkers::frames::{
    decode_runner_frame, encode_command, encode_runtime_message, encode_user_request, RunnerFrame,
};
use jsworkers::jsworkers::BrowserMessageKind;

#[test]
fn registration_result_frames() {
    let data = Encoder::new()
        .string("42")
        .string("sw-registration-result")
        .string(r#"{"success":true}"#)
        .end();
    match decode_runner_frame(&data) {
        RunnerFrame::RegistrationResult { id, json } => {
            assert_eq!(id, "42");
            assert_eq!(json, r#"{"success":true}"#);
        }
        _ => panic!("expected a registration result"),
    }
}

#[test]
fn user_response_frames_drop_encoding_headers() {
    let data = Encoder::new()
        .string("req-1")
        .string("user-request-response")
        .uint16(404)
        .uint32(3)
        .string("content-type")
        .string("text/html")
        .string("content-encoding")
        .string("gzip")
        .string("x-a")
        .string("b")
        .bytes(b"<p>gone</p>")
        .end();
    match decode_runner_frame(&data) {
        RunnerFrame::UserResourceResponse { id, status, headers, body } => {
            assert_eq!(id, "req-1");
            assert_eq!(status, 404);
            assert_eq!(headers, vec![
                ("content-type".to_owned(), "text/html".to_owned()),
                ("x-a".to_owned(), "b".to_owned()),
            ]);
            assert_eq!(body, b"<p>gone</p>".to_vec());
        }
        _ => panic!("expected a user response"),
    }
}

#[test]
fn browser_payload_frames() {
    let data = Encoder::new().string("w").string("message").bytes(&[1, 2, 3]).end();
    match decode_runner_frame(&data) {
        RunnerFrame::ToBrowser { id, kind, payload } => {
            assert_eq!(id, "w");
            assert_eq!(kind, BrowserMessageKind::Message);
            assert_eq!(payload, vec![1, 2, 3]);
        }
        _ => panic!("expected a browser payload"),
    }
    let data = Encoder::new().string("w").string("error").bytes(&[]).end();
    match decode_runner_frame(&data) {
        RunnerFrame::ToBrowser { kind, .. } => assert_eq!(kind, BrowserMessageKind::Error),
        _ => panic!("expected a browser payload"),
    }
}

#[test]
fn malformed_frames_are_dropped() {
    let unknown = Encoder::new().string("w").string("bogus").bytes(&[1]).end();
    assert!(matches!(decode_runner_frame(&unknown), RunnerFrame::Malformed));
    let trailing = Encoder::new().string("w").string("message").bytes(&[1]).uint8(0).end();
    assert!(matches!(decode_runner_frame(&trailing), RunnerFrame::Malformed));
    let truncated = Encoder::new().string("w").end();
    assert!(matches!(decode_runner_frame(&truncated), RunnerFrame::Malformed));
    assert!(matches!(decode_runner_frame(&[]), RunnerFrame::Malformed));
    let bad_utf8 = Encoder::new().bytes(&[0xff, 0xfe]).string("message").bytes(&[]).end();
    assert!(matches!(decode_runner_frame(&bad_utf8), RunnerFrame::Malformed));
    let short_headers = Encoder::new()
        .string("r")
        .string("user-request-response")
        .uint16(200)
        .uint32(2)
        .string("a")
        .string("b")
        .end();
    assert!(matches!(decode_runner_frame(&short_headers), RunnerFrame::Malformed));
}

#[test]
fn frames_for_the_runner() {
    assert_eq!(encode_command("Shutdown", "null"), Encoder::new().string("Shutdown").string("null").end());
    assert_eq!(
        encode_runtime_message("abc", &[9, 8]),
        Encoder::new().string("Message").string("abc").bytes(&[9, 8]).end()
    );
    let headers = vec![("accept".to_owned(), "*/*".to_owned())];
    assert_eq!(
        encode_user_request("id1", "GET", "http://h/user/me/x", &headers, "me", b"body"),
        Encoder::new()
            .string("GetUserResource")
            .string("id1")
            .string("GET")
            .string("http://h/user/me/x")
            .uint8(0)
            .uint8(0)
            .uint8(0)
            .uint8(1)
            .string("accept")
            .string("*/*")
            .string("x-user")
            .string("me")
            .bytes(b"body")
            .end()
    );
}

#[test]
fn oversized_fields_are_malformed_not_fatal() {
    let mut data = vec![0xffu8; 9];
    data.extend_from_slice(b"abcdefghijklmnop");
    assert!(matches!(decode_runner_frame(&data), RunnerFrame::Malformed));
    let mut data = vec![0x81u8, 0x00];
    data.extend_from_slice(b"short");
    assert!(matches!(decode_runner_frame(&data), RunnerFrame::Malformed));
}

#[test]
fn runner_frames_read_back_through_bitsparrow() {
    for len in [0usize, 5, 127, 128, 200, 16383, 16384, 20000] {
        let data: Vec<u8> = (0..len).map(|i| (i % 251) as u8).collect();
        let frame = encode_runtime_message("worker-1", &data);
        let mut d = bitsparrow::Decoder::new(&frame);
        assert_eq!(d.string().unwrap(), "Message");
        assert_eq!(d.string().unwrap(), "worker-1");
        assert_eq!(d.bytes().unwrap(), &data[..]);
        assert!(d.end());
    }
}
