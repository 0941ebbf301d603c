//! The frames exchanged with the JavaScript runner over its websocket: those it
//! sends (decoded here) and those sent to it (encoded here).

use crate::sparrow::{
    at_end, be_bytes_u32, be_u16, be_u32, decoder_new, encoded, encoder_new, finish, read_size,
    law_field_round_trip, read_u16, size_extra, read_u32, read_u8, size_prefix, sized_encoding, unread,
    utf8_text, write_bytes, write_string, write_u32,
};
use crate::jsworkers::BrowserMessageKind;
use bitsparrow::Decoder;
use vstd::prelude::*;
use vstd::utf8::{
    decode_utf8, encode_utf8, encode_utf8_decode_utf8, encode_utf8_valid_utf8, valid_utf8,
};

verus! {

/// Whether two strings hold the same characters.
pub fn str_eq(a: &str, b: &str) -> (r: bool)
    ensures
        r == (a@ == b@),
{
    let a: String = a.to_owned();
    let b: String = b.to_owned();
    a == b
}

/// A frame received from the JavaScript runner, decoded.
pub enum RunnerFrame {
    /// The frame does not decode; it is dropped.
    Malformed,
    /// The result of a service worker registration, as JSON.
    RegistrationResult { id: String, json: String },
    /// The response of a worker to a user request.
    UserResourceResponse { id: String, status: u16, headers: Vec<(String, String)>, body: Vec<u8> },
    /// A payload for the browser clients of a worker.
    ToBrowser { id: String, kind: BrowserMessageKind, payload: Vec<u8> },
}

/// What a decoded frame holds, as mathematical values.
pub enum RunnerFrameView {
    Malformed,
    RegistrationResult { id: Seq<char>, json: Seq<char> },
    UserResourceResponse {
        id: Seq<char>,
        status: u16,
        headers: Seq<(Seq<char>, Seq<char>)>,
        body: Seq<u8>,
    },
    ToBrowser { id: Seq<char>, kind: BrowserMessageKind, payload: Seq<u8> },
}

/// The characters of each (name, value) pair.
pub open spec fn header_pairs(hs: Seq<(String, String)>) -> Seq<(Seq<char>, Seq<char>)> {
    hs.map_values(|h: (String, String)| (h.0@, h.1@))
}

impl View for RunnerFrame {
    type V = RunnerFrameView;

    open spec fn view(&self) -> RunnerFrameView {
        match self {
            RunnerFrame::Malformed => RunnerFrameView::Malformed,
            RunnerFrame::RegistrationResult { id, json } => RunnerFrameView::RegistrationResult {
                id: id@,
                json: json@,
            },
            RunnerFrame::UserResourceResponse { id, status, headers, body } =>
                RunnerFrameView::UserResourceResponse {
                id: id@,
                status: *status,
                headers: header_pairs(headers@),
                body: body@,
            },
            RunnerFrame::ToBrowser { id, kind, payload } => RunnerFrameView::ToBrowser {
                id: id@,
                kind: *kind,
                payload: payload@,
            },
        }
    }
}

/// A size-prefixed field at the front of `data`, and what follows it: the
/// size, then that many bytes.
pub open spec fn take_field(data: Seq<u8>) -> Option<(Seq<u8>, Seq<u8>)> {
    match size_prefix(data) {
        Some((size, n)) => if n + size <= data.len() {
            Some((data.subrange(n as int, n + size), data.skip(n + size)))
        } else {
            None
        },
        None => None,
    }
}

/// A string at the front of `data`, and what follows it: a size-prefixed
/// field of valid UTF-8.
pub open spec fn take_str(data: Seq<u8>) -> Option<(Seq<char>, Seq<u8>)> {
    match take_field(data) {
        Some((f, rest)) => if valid_utf8(f) {
            Some((decode_utf8(f), rest))
        } else {
            None
        },
        None => None,
    }
}

/// Reads a size-prefixed field: the size, then that many bytes, one at a time,
/// so that a size running past the end of the frame only fails.
pub fn read_field(d: &mut Decoder) -> (r: Option<Vec<u8>>)
    ensures
        match take_field(unread(*old(d))) {
            Some((f, rest)) => r matches Some(v) && v@ == f && unread(*final(d)) == rest,
            None => r is None,
        },
{
    let ghost data = unread(*d);
    let size = match read_size(d) {
        Some(v) => v,
        None => {
            return None;
        },
    };
    let ghost n: nat = match size_prefix(data) {
        Some((_, k)) => k,
        None => 0,
    };
    let mut out: Vec<u8> = Vec::new();
    let mut i: usize = 0;
    while i < size
        invariant
            data == unread(*old(d)),
            size_prefix(data) == Some((size, n)),
            1 <= n <= data.len(),
            i <= size,
            n + i <= data.len(),
            unread(*d) == data.skip(n + i),
            out@ == data.subrange(n as int, n + i),
        decreases size - i,
    {
        match read_u8(d) {
            Some(b) => {
                out.push(b);
                assert(out@ =~= data.subrange(n as int, n + i + 1));
                assert(unread(*d) =~= data.skip(n + i + 1));
            },
            None => {
                assert(data.skip(n + i).len() == data.len() - (n + i));
                return None;
            },
        }
        i = i + 1;
    }
    Some(out)
}

/// Reads a string: a size-prefixed field of valid UTF-8.
pub fn read_text(d: &mut Decoder) -> (r: Option<String>)
    ensures
        match take_str(unread(*old(d))) {
            Some((t, rest)) => r matches Some(s) && s@ == t && unread(*final(d)) == rest,
            None => r is None,
        },
{
    match read_field(d) {
        Some(bytes) => utf8_text(bytes.as_slice()),
        None => None,
    }
}

/// A big-endian `u16` at the front of `data`, and what follows it.
pub open spec fn take_u16(data: Seq<u8>) -> Option<(u16, Seq<u8>)> {
    if data.len() >= 2 {
        Some((be_u16(data) as u16, data.skip(2)))
    } else {
        None
    }
}

/// A big-endian `u32` at the front of `data`, and what follows it.
pub open spec fn take_u32(data: Seq<u8>) -> Option<(u32, Seq<u8>)> {
    if data.len() >= 4 {
        Some((be_u32(data) as u32, data.skip(4)))
    } else {
        None
    }
}

/// The headers that are dropped because the body is relayed as it came.
pub open spec fn is_encoding_header(name: Seq<char>) -> bool {
    name == "content-encoding"@ || name == "transfer-encoding"@
}

/// `count` (name, value) string pairs at the front of `data`, the encoding
/// headers left out, and what follows them.
pub open spec fn take_headers(data: Seq<u8>, count: nat) -> Option<
    (Seq<(Seq<char>, Seq<char>)>, Seq<u8>),
>
    decreases count,
{
    if count == 0 {
        Some((Seq::empty(), data))
    } else {
        match take_str(data) {
            None => None,
            Some((name, r1)) => match take_str(r1) {
                None => None,
                Some((value, r2)) => match take_headers(r2, (count - 1) as nat) {
                    None => None,
                    Some((hs, r3)) => Some(
                        (
                            if is_encoding_header(name) {
                                hs
                            } else {
                                seq![(name, value)] + hs
                            },
                            r3,
                        ),
                    ),
                },
            },
        }
    }
}

/// `acc` put in front of the headers of `r`, if `r` decoded.
pub open spec fn after(
    acc: Seq<(Seq<char>, Seq<char>)>,
    r: Option<(Seq<(Seq<char>, Seq<char>)>, Seq<u8>)>,
) -> Option<(Seq<(Seq<char>, Seq<char>)>, Seq<u8>)> {
    match r {
        Some((hs, rest)) => Some((acc + hs, rest)),
        None => None,
    }
}

/// The frame that the runner sends as `data`: the worker id and the kind, then
/// what that kind carries, and nothing after it.
pub open spec fn runner_frame(data: Seq<u8>) -> RunnerFrameView {
    match take_str(data) {
        None => RunnerFrameView::Malformed,
        Some((id, r1)) => match take_str(r1) {
            None => RunnerFrameView::Malformed,
            Some((kind, r2)) => if kind == "sw-registration-result"@ {
                match take_str(r2) {
                    Some((json, r3)) => if r3.len() == 0 {
                        RunnerFrameView::RegistrationResult { id, json }
                    } else {
                        RunnerFrameView::Malformed
                    },
                    None => RunnerFrameView::Malformed,
                }
            } else if kind == "user-request-response"@ {
                match take_u16(r2) {
                    None => RunnerFrameView::Malformed,
                    Some((status, r3)) => match take_u32(r3) {
                        None => RunnerFrameView::Malformed,
                        Some((count, r4)) => match take_headers(r4, count as nat) {
                            None => RunnerFrameView::Malformed,
                            Some((headers, r5)) => match take_field(r5) {
                                None => RunnerFrameView::Malformed,
                                Some((body, r6)) => if r6.len() == 0 {
                                    RunnerFrameView::UserResourceResponse {
                                        id,
                                        status,
                                        headers,
                                        body,
                                    }
                                } else {
                                    RunnerFrameView::Malformed
                                },
                            },
                        },
                    },
                }
            } else if kind == "message"@ || kind == "error"@ {
                match take_field(r2) {
                    Some((payload, r3)) => if r3.len() == 0 {
                        RunnerFrameView::ToBrowser {
                            id,
                            kind: if kind == "message"@ {
                                BrowserMessageKind::Message
                            } else {
                                BrowserMessageKind::Error
                            },
                            payload,
                        }
                    } else {
                        RunnerFrameView::Malformed
                    },
                    None => RunnerFrameView::Malformed,
                }
            } else {
                RunnerFrameView::Malformed
            },
        },
    }
}

/// Decodes a frame sent by the JavaScript runner.
pub fn decode_runner_frame(data: &[u8]) -> (f: RunnerFrame)
    ensures
        f@ == runner_frame(data@),
{
    let mut d = decoder_new(data);
    let id = match read_text(&mut d) {
        Some(s) => s,
        None => {
            return RunnerFrame::Malformed;
        },
    };
    let ghost r1 = unread(d);
    let kind = match read_text(&mut d) {
        Some(s) => s,
        None => {
            return RunnerFrame::Malformed;
        },
    };
    let ghost r2 = unread(d);
    if str_eq(kind.as_str(), "sw-registration-result") {
        let json = match read_text(&mut d) {
            Some(s) => s,
            None => {
                return RunnerFrame::Malformed;
            },
        };
        if !at_end(&d) {
            return RunnerFrame::Malformed;
        }
        return RunnerFrame::RegistrationResult { id, json };
    }
    if str_eq(kind.as_str(), "user-request-response") {
        let status = match read_u16(&mut d) {
            Some(v) => v,
            None => {
                return RunnerFrame::Malformed;
            },
        };
        let ghost r3 = unread(d);
        let header_count = match read_u32(&mut d) {
            Some(v) => v,
            None => {
                return RunnerFrame::Malformed;
            },
        };
        let ghost r4 = unread(d);
        let mut headers: Vec<(String, String)> = Vec::new();
        let mut i: u32 = 0;
        while i < header_count
            invariant
                i <= header_count,
                take_str(data@) == Some((id@, r1)),
                take_str(r1) == Some((kind@, r2)),
                kind@ == "user-request-response"@,
                kind@ != "sw-registration-result"@,
                take_u16(r2) == Some((status, r3)),
                take_u32(r3) == Some((header_count, r4)),
                take_headers(r4, header_count as nat) == after(
                    header_pairs(headers@),
                    take_headers(unread(d), (header_count - i) as nat),
                ),
            decreases header_count - i,
        {
            let ghost cur = unread(d);
            let hname = match read_text(&mut d) {
                Some(s) => s,
                None => {
                    return RunnerFrame::Malformed;
                },
            };
            let hvalue = match read_text(&mut d) {
                Some(s) => s,
                None => {
                    return RunnerFrame::Malformed;
                },
            };
            let ghost before = headers@;
            if !(str_eq(hname.as_str(), "content-encoding") || str_eq(
                hname.as_str(),
                "transfer-encoding",
            )) {
                headers.push((hname, hvalue));
            }
            proof {
                let c = (header_count - i) as nat;
                assert(take_headers(cur, c) == match take_headers(unread(d), (c - 1) as nat) {
                    None => None,
                    Some((hs, r3)) => Some(
                        (
                            if is_encoding_header(hname@) {
                                hs
                            } else {
                                seq![(hname@, hvalue@)] + hs
                            },
                            r3,
                        ),
                    ),
                });
                if !is_encoding_header(hname@) {
                    assert(header_pairs(headers@) =~= header_pairs(before).push((hname@, hvalue@)));
                    match take_headers(unread(d), (c - 1) as nat) {
                        Some((hs, r3)) => {
                            assert(header_pairs(before) + (seq![(hname@, hvalue@)] + hs)
                                =~= header_pairs(headers@) + hs);
                        },
                        None => {},
                    }
                } else {
                    assert(headers@ == before);
                }
            }
            i = i + 1;
        }
        proof {
            assert(take_headers(unread(d), 0) == Some((Seq::<(Seq<char>, Seq<char>)>::empty(), unread(d))));
            assert(header_pairs(headers@) + Seq::<(Seq<char>, Seq<char>)>::empty() =~= header_pairs(headers@));
        }
        let body = match read_field(&mut d) {
            Some(b) => b,
            None => {
                return RunnerFrame::Malformed;
            },
        };
        if !at_end(&d) {
            return RunnerFrame::Malformed;
        }
        return RunnerFrame::UserResourceResponse { id, status, headers, body };
    }
    let e_kind = if str_eq(kind.as_str(), "message") {
        BrowserMessageKind::Message
    } else if str_eq(kind.as_str(), "error") {
        BrowserMessageKind::Error
    } else {
        return RunnerFrame::Malformed;
    };
    let payload = match read_field(&mut d) {
        Some(b) => b,
        None => {
            return RunnerFrame::Malformed;
        },
    };
    if !at_end(&d) {
        return RunnerFrame::Malformed;
    }
    RunnerFrame::ToBrowser { id, kind: e_kind, payload }
}

/// The bytes of a string field: its UTF-8 bytes, size-prefixed.
pub open spec fn str_field(s: Seq<char>) -> Seq<u8> {
    sized_encoding(encode_utf8(s))
}

/// The bytes of (name, value) string pairs, in order.
pub open spec fn headers_encoding(hs: Seq<(Seq<char>, Seq<char>)>) -> Seq<u8>
    decreases hs.len(),
{
    if hs.len() == 0 {
        Seq::empty()
    } else {
        headers_encoding(hs.drop_last()) + str_field(hs.last().0) + str_field(hs.last().1)
    }
}

/// The frame of a command for the runner: its name, then its JSON payload.
pub fn encode_command(command: &str, json: &str) -> (r: Vec<u8>)
    ensures
        r@ == str_field(command@) + str_field(json@),
{
    let mut e = encoder_new();
    write_string(&mut e, command);
    write_string(&mut e, json);
    let r = finish(&mut e);
    assert(r@ =~= str_field(command@) + str_field(json@));
    r
}

/// The frame that relays to the runner what a browser client of worker `id`
/// sent: "Message", the id, then the data.
pub fn encode_runtime_message(id: &str, data: &[u8]) -> (r: Vec<u8>)
    ensures
        r@ == str_field("Message"@) + str_field(id@) + sized_encoding(data@),
{
    let mut e = encoder_new();
    write_string(&mut e, "Message");
    write_string(&mut e, id);
    write_bytes(&mut e, data);
    let r = finish(&mut e);
    assert(r@ =~= str_field("Message"@) + str_field(id@) + sized_encoding(data@));
    r
}

/// The frame that asks the runner for a user resource: "GetUserResource", the
/// request id, the method, the url, the number of headers (as a `u32`), the
/// headers, an `x-user` header naming the user, then the body.
pub fn encode_user_request(
    id: &str,
    method: &str,
    url: &str,
    headers: &Vec<(String, String)>,
    user: &str,
    body: &[u8],
) -> (r: Vec<u8>)
    ensures
        r@ == str_field("GetUserResource"@) + str_field(id@) + str_field(method@) + str_field(url@)
            + be_bytes_u32(headers@.len() as u32) + headers_encoding(header_pairs(headers@))
            + str_field("x-user"@) + str_field(user@) + sized_encoding(body@),
{
    let mut e = encoder_new();
    write_string(&mut e, "GetUserResource");
    write_string(&mut e, id);
    write_string(&mut e, method);
    write_string(&mut e, url);
    write_u32(&mut e, headers.len() as u32);
    let ghost prefix = encoded(e);
    let n = headers.len();
    let mut i: usize = 0;
    while i < n
        invariant
            n == headers@.len(),
            i <= n,
            encoded(e) == prefix + headers_encoding(header_pairs(headers@.take(i as int))),
        decreases n - i,
    {
        write_string(&mut e, headers[i].0.as_str());
        write_string(&mut e, headers[i].1.as_str());
        proof {
            let hs = header_pairs(headers@.take(i + 1));
            assert(hs.drop_last() =~= header_pairs(headers@.take(i as int)));
            assert(hs.last() == (headers@[i as int].0@, headers@[i as int].1@));
        }
        i = i + 1;
    }
    assert(headers@.take(n as int) =~= headers@);
    write_string(&mut e, "x-user");
    write_string(&mut e, user);
    write_bytes(&mut e, body);
    let r = finish(&mut e);
    assert(r@ =~= str_field("GetUserResource"@) + str_field(id@) + str_field(method@) + str_field(url@)
            + be_bytes_u32(headers@.len() as u32) + headers_encoding(header_pairs(headers@))
            + str_field("x-user"@) + str_field(user@) + sized_encoding(body@));
    r
}

/// A string field reads back as the string it was written for, and what
/// follows it is left.
pub proof fn law_str_round_trip(s: Seq<char>, rest: Seq<u8>)
    requires
        encode_utf8(s).len() <= usize::MAX,
    ensures
        take_field(str_field(s) + rest) == Some((encode_utf8(s), rest)),
        take_str(str_field(s) + rest) == Some((s, rest)),
{
    let d = encode_utf8(s);
    let data = str_field(s) + rest;
    law_field_round_trip(d, rest);
    let n = 1 + size_extra(d.len());
    assert(size_prefix(data) == Some((d.len() as usize, n)));
    assert((d.len() as usize) as nat == d.len());
    assert(take_field(data) == Some((d, rest)));
    encode_utf8_valid_utf8(s);
    encode_utf8_decode_utf8(s);
}

/// A command frame for the runner reads back as its name and its JSON payload,
/// with nothing after them.
pub proof fn law_command_frame_reads_back(command: Seq<char>, json: Seq<char>)
    requires
        encode_utf8(command).len() <= usize::MAX,
        encode_utf8(json).len() <= usize::MAX,
    ensures
        take_str(str_field(command) + str_field(json)) == Some((command, str_field(json))),
        take_str(str_field(json)) == Some((json, Seq::<u8>::empty())),
{
    law_str_round_trip(command, str_field(json));
    law_str_round_trip(json, Seq::empty());
    assert(str_field(json) + Seq::<u8>::empty() =~= str_field(json));
}

/// The frame that relays a browser client's data to the runner reads back as
/// its tag, the worker id and the data, with nothing after them.
pub proof fn law_runtime_message_reads_back(tag: Seq<char>, id: Seq<char>, data: Seq<u8>)
    requires
        encode_utf8(tag).len() <= usize::MAX,
        encode_utf8(id).len() <= usize::MAX,
        data.len() <= usize::MAX,
    ensures
        take_str(str_field(tag) + str_field(id) + sized_encoding(data)) == Some(
            (tag, str_field(id) + sized_encoding(data)),
        ),
        take_str(str_field(id) + sized_encoding(data)) == Some((id, sized_encoding(data))),
        take_field(sized_encoding(data)) == Some((data, Seq::<u8>::empty())),
{
    law_str_round_trip(tag, str_field(id) + sized_encoding(data));
    assert(str_field(tag) + str_field(id) + sized_encoding(data) =~= str_field(tag) + (str_field(id)
        + sized_encoding(data)));
    law_str_round_trip(id, sized_encoding(data));
    law_field_round_trip(data, Seq::empty());
    assert(sized_encoding(data) + Seq::<u8>::empty() =~= sized_encoding(data));
}

/// A registration result frame, written as the runner writes it, decodes to
/// the worker id and the JSON it carries.
pub proof fn law_registration_result_frame(id: Seq<char>, json: Seq<char>)
    requires
        encode_utf8(id).len() <= usize::MAX,
        encode_utf8("sw-registration-result"@).len() <= usize::MAX,
        encode_utf8(json).len() <= usize::MAX,
    ensures
        runner_frame(str_field(id) + str_field("sw-registration-result"@) + str_field(json))
            == (RunnerFrameView::RegistrationResult { id, json }),
{
    let kind = "sw-registration-result"@;
    let r1 = str_field(kind) + str_field(json);
    assert(str_field(id) + str_field(kind) + str_field(json) =~= str_field(id) + r1);
    law_str_round_trip(id, r1);
    law_str_round_trip(kind, str_field(json));
    law_str_round_trip(json, Seq::empty());
    assert(str_field(json) + Seq::<u8>::empty() =~= str_field(json));
}

/// `count` (name, value) string pairs at the front of `data`, every one of
/// them, and what follows them.
pub open spec fn take_pairs(data: Seq<u8>, count: nat) -> Option<(Seq<(Seq<char>, Seq<char>)>, Seq<u8>)>
    decreases count,
{
    if count == 0 {
        Some((Seq::empty(), data))
    } else {
        match take_str(data) {
            None => None,
            Some((name, r1)) => match take_str(r1) {
                None => None,
                Some((value, r2)) => match take_pairs(r2, (count - 1) as nat) {
                    None => None,
                    Some((ps, r3)) => Some((seq![(name, value)] + ps, r3)),
                },
            },
        }
    }
}

/// A user request frame read back field by field: the tag, the request id,
/// the method, the url, the headers (a `u32` count, then that many pairs), the
/// name and value of the user header, and the body, with nothing after it.
pub open spec fn read_user_request(frame: Seq<u8>) -> Option<
    (Seq<char>, Seq<char>, Seq<char>, Seq<char>, Seq<(Seq<char>, Seq<char>)>, Seq<char>, Seq<char>, Seq<u8>),
> {
    match take_str(frame) {
        None => None,
        Some((tag, r1)) => match take_str(r1) {
            None => None,
            Some((id, r2)) => match take_str(r2) {
                None => None,
                Some((method, r3)) => match take_str(r3) {
                    None => None,
                    Some((url, r4)) => match take_u32(r4) {
                        None => None,
                        Some((count, r5)) => match take_pairs(r5, count as nat) {
                            None => None,
                            Some((hs, r6)) => match take_str(r6) {
                                None => None,
                                Some((name, r7)) => match take_str(r7) {
                                    None => None,
                                    Some((user, r8)) => match take_field(r8) {
                                        None => None,
                                        Some((body, r9)) => if r9.len() == 0 {
                                            Some((tag, id, method, url, hs, name, user, body))
                                        } else {
                                            None
                                        },
                                    },
                                },
                            },
                        },
                    },
                },
            },
        },
    }
}

/// The UTF-8 encoding of `s` takes at most four bytes per character.
pub proof fn lemma_utf8_len(s: Seq<char>)
    ensures
        encode_utf8(s).len() <= 4 * s.len(),
    decreases s.len(),
{
    if s.len() > 0 {
        lemma_utf8_len(s.drop_first());
    }
}

/// The encoding of header pairs distributes over concatenation.
pub proof fn lemma_headers_encoding_concat(a: Seq<(Seq<char>, Seq<char>)>, b: Seq<(Seq<char>, Seq<char>)>)
    ensures
        headers_encoding(a + b) == headers_encoding(a) + headers_encoding(b),
    decreases b.len(),
{
    if b.len() == 0 {
        assert(a + b =~= a);
        assert(headers_encoding(a) + headers_encoding(b) =~= headers_encoding(a));
    } else {
        lemma_headers_encoding_concat(a, b.drop_last());
        assert((a + b).drop_last() =~= a + b.drop_last());
        assert((a + b).last() == b.last());
        assert(headers_encoding(a) + headers_encoding(b) =~= headers_encoding(a) + headers_encoding(b.drop_last())
            + str_field(b.last().0) + str_field(b.last().1));
    }
}

/// Whether every string of the pairs fits a size prefix.
pub open spec fn pairs_fit(hs: Seq<(Seq<char>, Seq<char>)>) -> bool {
    forall|i: int|
        0 <= i < hs.len() ==> encode_utf8((#[trigger] hs[i]).0).len() <= usize::MAX && encode_utf8(
            hs[i].1,
        ).len() <= usize::MAX
}

/// Written header pairs read back as the same pairs, in order, and what
/// follows them is left.
pub proof fn law_pairs_round_trip(hs: Seq<(Seq<char>, Seq<char>)>, rest: Seq<u8>)
    requires
        pairs_fit(hs),
    ensures
        take_pairs(headers_encoding(hs) + rest, hs.len()) == Some((hs, rest)),
    decreases hs.len(),
{
    if hs.len() > 0 {
        let h = hs[0];
        let t = hs.skip(1);
        assert(hs =~= seq![h] + t);
        lemma_headers_encoding_concat(seq![h], t);
        assert(seq![h].drop_last() =~= Seq::<(Seq<char>, Seq<char>)>::empty());
        assert(seq![h].last() == h);
        assert(headers_encoding(Seq::<(Seq<char>, Seq<char>)>::empty()) == Seq::<u8>::empty());
        assert(headers_encoding(seq![h]) =~= str_field(h.0) + str_field(h.1));
        assert(pairs_fit(t)) by {
            assert forall|i: int| 0 <= i < t.len() implies encode_utf8((#[trigger] t[i]).0).len() <= usize::MAX
                && encode_utf8(t[i].1).len() <= usize::MAX by {
                assert(t[i] == hs[i + 1]);
            }
        }
        law_pairs_round_trip(t, rest);
        let data = headers_encoding(hs) + rest;
        let r1 = str_field(h.1) + (headers_encoding(t) + rest);
        assert(data =~= str_field(h.0) + r1);
        law_str_round_trip(h.0, r1);
        law_str_round_trip(h.1, headers_encoding(t) + rest);
        assert(seq![(h.0, h.1)] + t =~= hs);
    }
}

/// Four big-endian bytes read back as the `u32` they were written for.
pub proof fn law_u32_round_trip(v: u32, rest: Seq<u8>)
    ensures
        take_u32(be_bytes_u32(v) + rest) == Some((v, rest)),
{
    let b = be_bytes_u32(v) + rest;
    assert(b.skip(4) =~= rest);
    assert(b[0] == (v / 0x1000000) as u8);
    assert(b[1] == ((v / 0x10000) % 0x100) as u8);
    assert(b[2] == ((v / 0x100) % 0x100) as u8);
    assert(b[3] == (v % 0x100) as u8);
    assert(((((v / 0x1000000) * 256 + (v / 0x10000) % 0x100) * 256 + (v / 0x100) % 0x100) * 256 + v % 0x100)
        == v) by (nonlinear_arith);
}

/// The frame of a user request reads back as the request: its tag, id, method,
/// url, every header pair in order, the user header and the body.
#[verifier::spinoff_prover]
#[verifier::rlimit(40)]
pub proof fn law_user_request_frame_reads_back(
    id: Seq<char>,
    method: Seq<char>,
    url: Seq<char>,
    hs: Seq<(Seq<char>, Seq<char>)>,
    user: Seq<char>,
    body: Seq<u8>,
)
    requires
        encode_utf8(id).len() <= usize::MAX,
        encode_utf8(method).len() <= usize::MAX,
        encode_utf8(url).len() <= usize::MAX,
        encode_utf8(user).len() <= usize::MAX,
        pairs_fit(hs),
        hs.len() <= u32::MAX,
        body.len() <= usize::MAX,
    ensures
        read_user_request(
            str_field("GetUserResource"@) + str_field(id) + str_field(method) + str_field(url) + be_bytes_u32(
                hs.len() as u32,
            ) + headers_encoding(hs) + str_field("x-user"@) + str_field(user) + sized_encoding(body),
        ) == Some(("GetUserResource"@, id, method, url, hs, "x-user"@, user, body)),
{
    let tag = "GetUserResource"@;
    let xu = "x-user"@;
    reveal_strlit("GetUserResource");
    reveal_strlit("x-user");
    lemma_utf8_len(tag);
    lemma_utf8_len(xu);
    let r8 = sized_encoding(body);
    let r7 = str_field(user) + r8;
    let r6 = str_field(xu) + r7;
    let r5 = headers_encoding(hs) + r6;
    let r4 = be_bytes_u32(hs.len() as u32) + r5;
    let r3 = str_field(url) + r4;
    let r2 = str_field(method) + r3;
    let r1 = str_field(id) + r2;
    let frame = str_field(tag) + str_field(id) + str_field(method) + str_field(url) + be_bytes_u32(hs.len() as u32)
        + headers_encoding(hs) + str_field(xu) + str_field(user) + sized_encoding(body);
    assert(frame == str_field(tag) + r1) by {
        assert(frame =~= str_field(tag) + r1);
    }
    law_str_round_trip(tag, r1);
    law_str_round_trip(id, r2);
    law_str_round_trip(method, r3);
    law_str_round_trip(url, r4);
    law_u32_round_trip(hs.len() as u32, r5);
    law_pairs_round_trip(hs, r6);
    law_str_round_trip(xu, r7);
    law_str_round_trip(user, r8);
    law_field_round_trip(body, Seq::empty());
    assert(sized_encoding(body) + Seq::<u8>::empty() =~= sized_encoding(body));
}

/// Whether a header is kept in a relayed response: it is neither
/// `content-encoding` nor `transfer-encoding`, since the body is relayed as it
/// came.
pub open spec fn relayed_header(h: (Seq<char>, Seq<char>)) -> bool {
    h.0 != "content-encoding"@ && h.0 != "transfer-encoding"@
}

/// The headers of a response are the pairs the runner wrote, in order, with
/// the `content-encoding` and `transfer-encoding` ones left out.
pub proof fn law_headers_drop_encoding(data: Seq<u8>, count: nat)
    ensures
        take_headers(data, count) == match take_pairs(data, count) {
            Some((ps, rest)) => Some((ps.filter(|h: (Seq<char>, Seq<char>)| relayed_header(h)), rest)),
            None => None,
        },
    decreases count,
{
    reveal(Seq::filter);
    if count > 0 {
        match take_str(data) {
            None => {},
            Some((name, r1)) => match take_str(r1) {
                None => {},
                Some((value, r2)) => {
                    law_headers_drop_encoding(r2, (count - 1) as nat);
                    match take_pairs(r2, (count - 1) as nat) {
                        None => {},
                        Some((ps, r3)) => {
                            let f = |h: (Seq<char>, Seq<char>)| relayed_header(h);
                            let all = seq![(name, value)] + ps;
                            assert(all.drop_first() =~= ps);
                            lemma_filter_front(all, f);
                        },
                    }
                },
            },
        }
    }
}

/// Filtering a sequence looks at its first element, then at the rest.
proof fn lemma_filter_front<A>(s: Seq<A>, f: spec_fn(A) -> bool)
    requires
        s.len() > 0,
    ensures
        s.filter(f) == if f(s[0]) {
            seq![s[0]] + s.drop_first().filter(f)
        } else {
            s.drop_first().filter(f)
        },
{
    reveal(Seq::filter);
    let t = s.drop_first();
    let h = seq![s[0]];
    assert(s =~= h + t);
    Seq::filter_distributes_over_add(h, t, f);
    assert(h.drop_last() =~= Seq::<A>::empty());
    assert(Seq::<A>::empty().filter(f) =~= Seq::<A>::empty());
    if f(s[0]) {
        assert(h.filter(f) =~= h);
    } else {
        assert(h.filter(f) =~= Seq::<A>::empty());
    }
}

/// No header of a decoded user resource response is `content-encoding` or
/// `transfer-encoding`.
pub proof fn law_no_encoding_header_relayed(data: Seq<u8>)
    ensures
        runner_frame(data) matches RunnerFrameView::UserResourceResponse { headers, .. } ==> forall|i: int|
            0 <= i < headers.len() ==> (#[trigger] headers[i]).0 != "content-encoding"@ && headers[i].0
                != "transfer-encoding"@,
{
    if let Some((id, r1)) = take_str(data) {
        if let Some((kind, r2)) = take_str(r1) {
            if let Some((status, r3)) = take_u16(r2) {
                if let Some((count, r4)) = take_u32(r3) {
                    law_headers_drop_encoding(r4, count as nat);
                    if let Some((ps, r5)) = take_pairs(r4, count as nat) {
                        let f = |h: (Seq<char>, Seq<char>)| relayed_header(h);
                        let hs = ps.filter(f);
                        assert forall|i: int| 0 <= i < hs.len() implies (#[trigger] hs[i]).0 != "content-encoding"@
                            && hs[i].0 != "transfer-encoding"@ by {
                            ps.lemma_filter_pred(f, i);
                        }
                    }
                }
            }
        }
    }
}

} // verus!
