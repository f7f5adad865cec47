//! The server side of RFC 6455 for the JSON-RPC endpoint.
//!
//! The endpoint accepts one unfragmented text message at a time. Clients mask their frames as
//! RFC 6455 requires. The functions here decide what to read and what to answer; moving the bytes
//! is left to the caller.

use base64ct::Encoding;
use sha1::Digest;
use vstd::prelude::*;
use vstd::utf8::{
    decode_utf8, encode_utf8, encode_utf8_decode_utf8, encode_utf8_valid_utf8, valid_utf8,
};

use crate::text::{
    all_space, chars_of, is_bare, is_word, matches_word, same_ignoring_case, spells, trim_range,
    trimmed, trimming_keeps_what_is_between_space, trimming_removes_outer_space, utf8_text,
    words_are_compared_by_their_letters,
};
use crate::wire::{be16, join16, join_bytes, split16};

verus! {

/// The greatest number of bytes in the HTTP request that opens a session.
pub const HTTP_REQUEST_MAX_LEN: usize = 1024;

/// What RFC 6455 has a server append to the client's key.
pub const WEBSOCKET_GUID: &'static str = "258EAFA5-E914-47DA-95CA-C5AB0DC85B11";

/// The greatest number of bytes in a client's key together with the appended text.
pub const KEY_AND_GUID_MAX_LEN: usize = 64;

pub const RESPONSE_PREFIX: &'static str = "HTTP/1.1 101 Switching Protocols\r\nUpgrade: websocket\r\nConnection: Upgrade\r\nSec-WebSocket-Accept: ";

pub const RESPONSE_SUFFIX: &'static str = "\r\n\r\n";

pub const OPCODE_TEXT: u8 = 0x01;

pub const OPCODE_CLOSE: u8 = 0x08;

pub const OPCODE_PING: u8 = 0x09;

pub const OPCODE_PONG: u8 = 0x0a;

#[derive(Clone, Copy, Debug, PartialEq, Eq, Structural)]
pub enum Error {
    Closed,
    Io,
    InvalidHandshake,
    InvalidFrame,
    MessageTooLarge,
    InvalidText,
}

/// The SHA-1 digest of a byte string.
pub uninterp spec fn sha1_digest(data: Seq<u8>) -> Seq<u8>;

/// The standard padded Base64 text of a byte string.
pub uninterp spec fn base64_text(data: Seq<u8>) -> Seq<char>;

/// The bytes that a standard padded Base64 text stands for, `None` where the text is malformed.
pub uninterp spec fn base64_data(text: Seq<char>) -> Option<Seq<u8>>;

/// Calls `sha1::Sha1::digest`. The digest is a function of the data and has twenty bytes.
#[verifier::external_body]
fn sha1(data: &[u8]) -> (digest: [u8; 20])
    ensures
        digest@ == sha1_digest(data@),
{
    sha1::Sha1::digest(data).into()
}

/// Calls `base64ct::Base64::encode`. It fails where the padded text is longer than the buffer;
/// what it leaves in the buffer is not stated.
#[verifier::external_body]
fn base64_encode(data: &[u8], buffer: &mut [u8]) -> (text: Option<String>)
    requires
        data@.len() <= 0x0fff_ffff,
    ensures
        final(buffer)@.len() == old(buffer)@.len(),
        text is Some <==> 4 * ((data@.len() + 2) / 3) <= old(buffer)@.len(),
        text matches Some(text) ==> text@ == base64_text(data@),
{
    base64ct::Base64::encode(data, buffer).ok().map(|text| text.to_owned())
}

/// Calls `base64ct::Base64::decode`. It succeeds where the text is well-formed and its bytes fit
/// the buffer, and gives their number; what it leaves in the buffer is not stated.
#[verifier::external_body]
fn base64_decode(text: &str, buffer: &mut [u8]) -> (length: Option<usize>)
    ensures
        final(buffer)@.len() == old(buffer)@.len(),
        length is Some <==> base64_data(text@) is Some && base64_data(text@)->Some_0.len()
            <= old(buffer)@.len(),
        length matches Some(length) ==> length == base64_data(text@)->Some_0.len(),
{
    base64ct::Base64::decode(text, buffer).ok().map(|data| data.len())
}

/// Where the first line break of `text` stands, or the length of `text` where it has none.
pub open spec fn first_break(text: Seq<char>) -> nat
    decreases text.len(),
{
    if text.len() < 2 {
        text.len()
    } else if text[0] == '\r' && text[1] == '\n' {
        0
    } else {
        1 + first_break(text.drop_first())
    }
}

/// The lines of `text`; a line break is a carriage return with a line feed.
pub open spec fn split_lines(text: Seq<char>) -> Seq<Seq<char>>
    decreases text.len(),
{
    let end = first_break(text);
    if end + 2 > text.len() {
        seq![text]
    } else {
        seq![text.take(end as int)] + split_lines(text.skip(end as int + 2))
    }
}

/// Where the first colon of `line` stands, or the length of `line` where it has none.
pub open spec fn first_colon(line: Seq<char>) -> nat
    decreases line.len(),
{
    if line.len() == 0 || line[0] == ':' {
        0
    } else {
        1 + first_colon(line.drop_first())
    }
}

/// Whether `line` is a header with the given name, in any case.
pub open spec fn header_named(line: Seq<char>, name: Seq<char>) -> bool {
    first_colon(line) < line.len() && same_ignoring_case(line.take(first_colon(line) as int), name)
}

/// What follows the name of a header, without the white space around it.
pub open spec fn header_value(line: Seq<char>) -> Seq<char> {
    trimmed(line.skip(first_colon(line) as int + 1))
}

/// Whether the text between two neighbouring commas of `list`, or between one and an end of the
/// list, is `word`, apart from case and the white space around it.
pub open spec fn item_at(list: Seq<char>, start: int, end: int, word: Seq<char>) -> bool {
    &&& 0 <= start <= end <= list.len()
    &&& start == 0 || list[start - 1] == ','
    &&& end == list.len() || list[end] == ','
    &&& forall|i: int| start <= i < end ==> list[i] != ','
    &&& same_ignoring_case(trimmed(list.subrange(start, end)), word)
}

/// Whether a comma-separated list has the item `word`.
pub open spec fn lists(list: Seq<char>, word: Seq<char>) -> bool {
    exists|start: int, end: int| #[trigger] item_at(list, start, end, word)
}

pub open spec fn asks_for_websocket(line: Seq<char>) -> bool {
    header_named(line, "upgrade"@) && same_ignoring_case(header_value(line), "websocket"@)
}

pub open spec fn asks_for_upgrade(line: Seq<char>) -> bool {
    header_named(line, "connection"@) && lists(header_value(line), "upgrade"@)
}

pub open spec fn gives_version(line: Seq<char>) -> bool {
    header_named(line, "sec-websocket-version"@) && header_value(line) == "13"@
}

pub open spec fn gives_key(line: Seq<char>) -> bool {
    header_named(line, "sec-websocket-key"@)
}

/// The value of the last key header among `headers`.
pub open spec fn last_key(headers: Seq<Seq<char>>) -> Option<Seq<char>>
    decreases headers.len(),
{
    if headers.len() == 0 {
        None
    } else if gives_key(headers.last()) {
        Some(header_value(headers.last()))
    } else {
        last_key(headers.drop_last())
    }
}

/// What the headers of a request ask for.
pub struct HeaderSummary {
    pub websocket: bool,
    pub upgrade: bool,
    pub version: bool,
    pub key: Option<Seq<char>>,
}

pub open spec fn header_summary(headers: Seq<Seq<char>>) -> HeaderSummary {
    HeaderSummary {
        websocket: exists|i: int| 0 <= i < headers.len() && asks_for_websocket(#[trigger] headers[i]),
        upgrade: exists|i: int| 0 <= i < headers.len() && asks_for_upgrade(#[trigger] headers[i]),
        version: exists|i: int| 0 <= i < headers.len() && gives_version(#[trigger] headers[i]),
        key: last_key(headers),
    }
}

/// The key that an HTTP request offers: the request line is the one of the controller endpoint,
/// the headers ask for version 13 of the protocol, and the last key header has the key.
pub open spec fn handshake_key(request: Seq<char>) -> Option<Seq<char>> {
    let lines = split_lines(request);
    let asked = header_summary(lines.drop_first());
    if lines[0] == "GET /rpc HTTP/1.1"@ && asked.websocket && asked.upgrade && asked.version {
        asked.key
    } else {
        None
    }
}

/// Whether a key is the Base64 text of at most sixteen bytes.
pub open spec fn key_is_wellformed(key: Seq<char>) -> bool {
    base64_data(key) is Some && base64_data(key)->Some_0.len() <= 16
}

fn find_break(chars: &Vec<char>, from: usize) -> (end: usize)
    requires
        from <= chars@.len(),
    ensures
        from <= end <= chars@.len(),
        end - from == first_break(chars@.skip(from as int)),
{
    let mut index: usize = from;
    while index < chars.len() && !(index + 1 < chars.len() && chars[index] == '\r' && chars[index
        + 1] == '\n')
        invariant
            from <= index <= chars@.len(),
            first_break(chars@.skip(from as int)) == index - from + first_break(
                chars@.skip(index as int),
            ),
        decreases chars@.len() - index,
    {
        proof {
            let rest = chars@.skip(index as int);
            assert(rest.drop_first() =~= chars@.skip(index + 1));
            assert(rest[0] == chars@[index as int]);
            if index + 1 < chars@.len() {
                assert(rest[1] == chars@[index + 1]);
            }
        }
        index += 1;
    }
    proof {
        let rest = chars@.skip(index as int);
        if index < chars@.len() {
            assert(rest[0] == chars@[index as int]);
            assert(rest[1] == chars@[index + 1]);
        }
    }
    index
}

fn find_colon(chars: &Vec<char>, from: usize, to: usize) -> (at: usize)
    requires
        from <= to <= chars@.len(),
    ensures
        from <= at <= to,
        at - from == first_colon(chars@.subrange(from as int, to as int)),
{
    let mut index: usize = from;
    while index < to && chars[index] != ':'
        invariant
            from <= index <= to <= chars@.len(),
            first_colon(chars@.subrange(from as int, to as int)) == index - from + first_colon(
                chars@.subrange(index as int, to as int),
            ),
        decreases to - index,
    {
        proof {
            let rest = chars@.subrange(index as int, to as int);
            assert(rest.drop_first() =~= chars@.subrange(index + 1, to as int));
            assert(rest[0] == chars@[index as int]);
        }
        index += 1;
    }
    proof {
        if index < to {
            assert(chars@.subrange(index as int, to as int)[0] == chars@[index as int]);
        }
    }
    index
}

/// Tells whether the comma-separated list `chars[from..to]` has the item `word`.
fn lists_word(chars: &Vec<char>, from: usize, to: usize, word: &str) -> (found: bool)
    requires
        from <= to <= chars@.len(),
    ensures
        found == lists(chars@.subrange(from as int, to as int), word@),
{
    let ghost list = chars@.subrange(from as int, to as int);
    let mut start: usize = from;
    let mut index: usize = from;
    loop
        invariant
            from <= start <= index <= to <= chars@.len(),
            list == chars@.subrange(from as int, to as int),
            start == from || list[start - from - 1] == ',',
            forall|i: int| start - from <= i < index - from ==> list[i] != ',',
            forall|s: int, e: int| s < start - from ==> !#[trigger] item_at(list, s, e, word@),
        decreases to - index,
    {
        if index == to || chars[index] == ',' {
            let bounds = trim_range(chars, start, index);
            let matched = matches_word(chars, bounds.0, bounds.1, word);
            proof {
                assert(list.subrange(start - from, index - from) =~= chars@.subrange(
                    start as int,
                    index as int,
                ));
                if index < to {
                    assert(list[index - from] == ',');
                }
            }
            if matched {
                proof {
                    assert(item_at(list, start - from, index - from, word@));
                }
                return true;
            }
            proof {
                assert forall|s: int, e: int|
                    s <= index - from && !(s == index - from && index == to && start
                        < index) implies !#[trigger] item_at(list, s, e, word@) by {
                    if item_at(list, s, e, word@) {
                        if s < start - from {
                        } else if s == start - from {
                            if e < index - from {
                                assert(list[e] != ',');
                            } else if e > index - from {
                                assert(list[index - from] == ',');
                            }
                            assert(e == index - from);
                        } else {
                            assert(list[s - 1] != ',');
                        }
                    }
                }
            }
            if index == to {
                proof {
                    assert forall|s: int, e: int| !#[trigger] item_at(list, s, e, word@) by {
                        if item_at(list, s, e, word@) && s == index - from && start < index {
                            assert(list[s - 1] != ',');
                        }
                    }
                }
                return false;
            }
            start = index + 1;
        } else {
            proof {
                assert(list[index - from] == chars@[index as int]);
            }
        }
        index += 1;
    }
}

/// What the headers read so far ask for, with the place of the key.
struct Headers {
    websocket: bool,
    upgrade: bool,
    version: bool,
    key: Option<(usize, usize)>,
}

impl Headers {
    spec fn wf(self, chars: Seq<char>) -> bool {
        self.key matches Some(key) ==> key.0 <= key.1 <= chars.len()
    }

    spec fn summary(self, chars: Seq<char>) -> HeaderSummary {
        HeaderSummary {
            websocket: self.websocket,
            upgrade: self.upgrade,
            version: self.version,
            key: match self.key {
                Some(key) => Some(chars.subrange(key.0 as int, key.1 as int)),
                None => None,
            },
        }
    }
}

proof fn summary_of_one_more(headers: Seq<Seq<char>>, line: Seq<char>)
    ensures
        header_summary(headers.push(line)) == (HeaderSummary {
            websocket: header_summary(headers).websocket || asks_for_websocket(line),
            upgrade: header_summary(headers).upgrade || asks_for_upgrade(line),
            version: header_summary(headers).version || gives_version(line),
            key: if gives_key(line) {
                Some(header_value(line))
            } else {
                header_summary(headers).key
            },
        }),
{
    let more = headers.push(line);
    assert(more.drop_last() =~= headers);
    assert(more.last() == line);
    assert(more[headers.len() as int] == line);
    if header_summary(headers).websocket {
        let i = choose|i: int| 0 <= i < headers.len() && asks_for_websocket(#[trigger] headers[i]);
        assert(more[i] == headers[i]);
    }
    if header_summary(headers).upgrade {
        let i = choose|i: int| 0 <= i < headers.len() && asks_for_upgrade(#[trigger] headers[i]);
        assert(more[i] == headers[i]);
    }
    if header_summary(headers).version {
        let i = choose|i: int| 0 <= i < headers.len() && gives_version(#[trigger] headers[i]);
        assert(more[i] == headers[i]);
    }
    if header_summary(more).websocket {
        let i = choose|i: int| 0 <= i < more.len() && asks_for_websocket(#[trigger] more[i]);
        assert(i < headers.len() ==> more[i] == headers[i]);
    }
    if header_summary(more).upgrade {
        let i = choose|i: int| 0 <= i < more.len() && asks_for_upgrade(#[trigger] more[i]);
        assert(i < headers.len() ==> more[i] == headers[i]);
    }
    if header_summary(more).version {
        let i = choose|i: int| 0 <= i < more.len() && gives_version(#[trigger] more[i]);
        assert(i < headers.len() ==> more[i] == headers[i]);
    }
}

/// Takes the header line `chars[from..to]` into account.
fn read_header(
    chars: &Vec<char>,
    from: usize,
    to: usize,
    headers: &mut Headers,
    read: Ghost<Seq<Seq<char>>>,
)
    requires
        from <= to <= chars@.len(),
        old(headers).wf(chars@),
        old(headers).summary(chars@) == header_summary(read@),
    ensures
        final(headers).wf(chars@),
        final(headers).summary(chars@) == header_summary(
            read@.push(chars@.subrange(from as int, to as int)),
        ),
{
    let ghost line = chars@.subrange(from as int, to as int);
    proof {
        summary_of_one_more(read@, line);
        reveal_strlit("upgrade");
        reveal_strlit("connection");
        reveal_strlit("sec-websocket-version");
        reveal_strlit("sec-websocket-key");
    }
    let colon = find_colon(chars, from, to);
    if colon == to {
        return ;
    }
    let value = trim_range(chars, colon + 1, to);
    proof {
        assert(line.take(colon - from) =~= chars@.subrange(from as int, colon as int));
        assert(line.skip(colon - from + 1) =~= chars@.subrange(colon + 1, to as int));
    }
    if matches_word(chars, from, colon, "upgrade") && matches_word(
        chars,
        value.0,
        value.1,
        "websocket",
    ) {
        headers.websocket = true;
    } else if matches_word(chars, from, colon, "connection") && lists_word(
        chars,
        value.0,
        value.1,
        "upgrade",
    ) {
        headers.upgrade = true;
    } else if matches_word(chars, from, colon, "sec-websocket-version") && is_word(
        chars,
        value.0,
        value.1,
        "13",
    ) {
        headers.version = true;
    } else if matches_word(chars, from, colon, "sec-websocket-key") {
        headers.key = Some(value);
    }
}

/// The key that an HTTP request offers, if it asks for the controller's WebSocket.
pub fn offered_key<'a>(request: &'a str) -> (key: Option<&'a str>)
    ensures
        key is Some <==> handshake_key(request@) is Some,
        key matches Some(key) ==> Some(key@) == handshake_key(request@),
{
    let chars = chars_of(request);
    let ghost lines = split_lines(request@);
    let first_end = find_break(&chars, 0);
    proof {
        assert(chars@.skip(0) =~= request@);
        assert(chars@.subrange(0, first_end as int) =~= request@.take(first_end as int));
        if first_end + 2 > chars@.len() {
            no_break_near_the_end(request@);
            assert(request@.take(first_end as int) =~= request@);
        }
        assert(lines[0] == chars@.subrange(0, first_end as int));
    }
    if !is_word(&chars, 0, first_end, "GET /rpc HTTP/1.1") {
        return None;
    }
    let mut headers = Headers { websocket: false, upgrade: false, version: false, key: None };
    let ghost mut read = Seq::<Seq<char>>::empty();
    let mut end: usize = first_end;
    proof {
        assert(lines =~= seq![lines[0]] + read + (if end + 2 > chars@.len() {
            Seq::empty()
        } else {
            split_lines(chars@.skip(end + 2))
        }));
    }
    while end < chars.len()
        invariant
            end <= chars@.len(),
            end == chars@.len() || end + 2 <= chars@.len(),
            lines == split_lines(request@),
            lines == seq![lines[0]] + read + (if end + 2 > chars@.len() {
                Seq::empty()
            } else {
                split_lines(chars@.skip(end + 2))
            }),
            headers.wf(chars@),
            headers.summary(chars@) == header_summary(read),
        decreases chars@.len() - end,
    {
        let start: usize = end + 2;
        let next = find_break(&chars, start);
        let ghost rest = chars@.skip(start as int);
        let ghost line = chars@.subrange(start as int, next as int);
        proof {
            assert(rest.take(next - start) =~= line);
            if next + 2 > chars@.len() {
                no_break_near_the_end(rest);
                assert(rest =~= line);
            } else {
                assert(rest.skip(next - start + 2) =~= chars@.skip(next + 2));
            }
        }
        read_header(&chars, start, next, &mut headers, Ghost(read));
        proof {
            read = read.push(line);
            assert(lines =~= seq![lines[0]] + read + (if next + 2 > chars@.len() {
                Seq::empty()
            } else {
                split_lines(chars@.skip(next + 2))
            }));
        }
        end = next;
    }
    proof {
        assert(lines.drop_first() =~= read);
    }
    if headers.websocket && headers.upgrade && headers.version {
        match headers.key {
            Some(key) => Some(request.substring_char(key.0, key.1)),
            None => None,
        }
    } else {
        None
    }
}

proof fn no_break_near_the_end(text: Seq<char>)
    ensures
        first_break(text) <= text.len(),
        first_break(text) + 2 > text.len() ==> first_break(text) == text.len(),
    decreases text.len(),
{
    if text.len() >= 2 && !(text[0] == '\r' && text[1] == '\n') {
        no_break_near_the_end(text.drop_first());
    }
}

/// Checks an HTTP request for the controller's WebSocket and returns the client's key.
pub fn validate_handshake<'a>(request: &'a str) -> (key: Result<&'a str, Error>)
    ensures
        key matches Ok(key) ==> handshake_key(request@) == Some(key@) && key_is_wellformed(key@),
        key matches Err(error) ==> error == Error::InvalidHandshake && !(handshake_key(
            request@,
        ) matches Some(key) && key_is_wellformed(key)),
{
    let key = match offered_key(request) {
        Some(key) => key,
        None => return Err(Error::InvalidHandshake),
    };
    let mut decoded_key = [0u8; 16];
    match base64_decode(key, &mut decoded_key) {
        Some(_) => Ok(key),
        None => Err(Error::InvalidHandshake),
    }
}

/// Whether a byte string ends in an empty line, as an HTTP request does.
pub open spec fn ends_request(bytes: Seq<u8>) -> bool {
    bytes.len() >= 4 && bytes.skip(bytes.len() - 4) == seq![13u8, 10u8, 13u8, 10u8]
}

/// An HTTP request with one more byte, and whether it is complete.
pub open spec fn request_after(request: Seq<u8>, byte: u8) -> (Seq<u8>, Result<bool, Error>) {
    let longer = request.push(byte);
    if request.len() >= HTTP_REQUEST_MAX_LEN {
        (request, Err(Error::InvalidHandshake))
    } else if ends_request(longer) {
        (longer, Ok(true))
    } else if longer.len() == HTTP_REQUEST_MAX_LEN {
        (longer, Err(Error::InvalidHandshake))
    } else {
        (longer, Ok(false))
    }
}

/// Appends a byte to an HTTP request and tells whether the request is complete. A request that
/// fills the buffer without an end is refused.
pub fn read_http_request(request: &mut Vec<u8>, byte: u8) -> (complete: Result<bool, Error>)
    ensures
        (final(request)@, complete) == request_after(old(request)@, byte),
{
    if request.len() >= HTTP_REQUEST_MAX_LEN {
        return Err(Error::InvalidHandshake);
    }
    request.push(byte);
    let length: usize = request.len();
    if length >= 4 && request[length - 4] == 13 && request[length - 3] == 10 && request[length - 2]
        == 13 && request[length - 1] == 10 {
        proof {
            assert(request@.skip(length - 4) =~= seq![13u8, 10u8, 13u8, 10u8]);
        }
        return Ok(true);
    }
    proof {
        if ends_request(request@) {
            let tail = request@.skip(length - 4);
            assert(tail[0] == request@[length - 4] && tail[1] == request@[length - 3] && tail[2]
                == request@[length - 2] && tail[3] == request@[length - 1]);
        }
    }
    if length == HTTP_REQUEST_MAX_LEN {
        return Err(Error::InvalidHandshake);
    }
    Ok(false)
}

/// What the server answers a key with.
pub open spec fn accept_text(key: Seq<char>) -> Seq<char> {
    base64_text(sha1_digest(encode_utf8(key) + encode_utf8(WEBSOCKET_GUID@)))
}

/// The key of an HTTP request, given as bytes, that the server accepts.
pub open spec fn accepted_key(request: Seq<u8>) -> Option<Seq<char>> {
    if !valid_utf8(request) {
        None
    } else {
        match handshake_key(decode_utf8(request)) {
            Some(key) if key_is_wellformed(key) && encode_utf8(key).len() + 36
                <= KEY_AND_GUID_MAX_LEN => Some(key),
            _ => None,
        }
    }
}

/// The response that completes a handshake.
pub fn handshake_response(accept: &str) -> (response: String)
    ensures
        response@ == RESPONSE_PREFIX@ + accept@ + RESPONSE_SUFFIX@,
{
    let mut response = RESPONSE_PREFIX.to_owned();
    response.append(accept);
    response.append(RESPONSE_SUFFIX);
    response
}

/// The response that completes the handshake with a key.
pub open spec fn response_text(key: Seq<char>) -> Seq<char> {
    RESPONSE_PREFIX@ + accept_text(key) + RESPONSE_SUFFIX@
}

/// The response to the HTTP request of a client that opens a session.
pub fn upgrade(request: &[u8]) -> (response: Result<String, Error>)
    ensures
        response matches Ok(response) ==> accepted_key(request@) matches Some(key) && response@
            == response_text(key),
        response matches Err(error) ==> accepted_key(request@) is None && error
            == Error::InvalidHandshake,
{
    let text = match utf8_text(request) {
        Some(text) => text,
        None => return Err(Error::InvalidHandshake),
    };
    let key = match validate_handshake(text) {
        Ok(key) => key,
        Err(error) => return Err(error),
    };
    let mut key_and_guid = key.as_bytes_vec();
    let mut guid = WEBSOCKET_GUID.as_bytes_vec();
    proof {
        guid_length();
    }
    if key_and_guid.len() > KEY_AND_GUID_MAX_LEN || guid.len() > KEY_AND_GUID_MAX_LEN
        - key_and_guid.len() {
        return Err(Error::InvalidHandshake);
    }
    key_and_guid.append(&mut guid);
    let digest = sha1(key_and_guid.as_slice());
    let mut buffer = [0u8; 28];
    match base64_encode(digest.as_slice(), &mut buffer) {
        Some(accept) => Ok(handshake_response(accept.as_str())),
        None => Err(Error::InvalidHandshake),
    }
}

/// A payload with each byte combined with the mask byte of its place.
pub open spec fn masked(payload: Seq<u8>, mask: Seq<u8>) -> Seq<u8> {
    Seq::new(payload.len(), |i: int| payload[i] ^ mask[i % 4])
}

/// Masking twice with the same mask gives the payload back.
pub proof fn masking_is_undone(payload: Seq<u8>, mask: Seq<u8>)
    ensures
        masked(masked(payload, mask), mask) == payload,
{
    assert forall|i: int| 0 <= i < payload.len() implies masked(masked(payload, mask), mask)[i]
        == payload[i] by {
        let byte = payload[i];
        let key = mask[i % 4];
        assert((byte ^ key) ^ key == byte) by (bit_vector);
    }
    assert(masked(masked(payload, mask), mask) =~= payload);
}

fn apply_mask(payload: &[u8], mask: &[u8; 4]) -> (bytes: Vec<u8>)
    ensures
        bytes@ == masked(payload@, mask@),
{
    let mut bytes: Vec<u8> = Vec::new();
    let mut index: usize = 0;
    while index < payload.len()
        invariant
            index <= payload@.len(),
            bytes@ == masked(payload@.take(index as int), mask@),
        decreases payload@.len() - index,
    {
        bytes.push(payload[index] ^ mask[index % 4]);
        proof {
            assert(bytes@ =~= masked(payload@.take(index + 1), mask@));
        }
        index += 1;
    }
    proof {
        assert(payload@.take(payload@.len() as int) =~= payload@);
    }
    bytes
}

/// The header of a frame from the server. Only payloads of at most 65535 bytes have one.
pub open spec fn server_header(opcode: u8, length: int) -> Seq<u8> {
    if length <= 125 {
        seq![0x80 | opcode, length as u8]
    } else {
        seq![0x80 | opcode, 126u8] + be16(length as u16)
    }
}

/// A frame from the server.
pub open spec fn server_frame(opcode: u8, payload: Seq<u8>) -> Seq<u8> {
    server_header(opcode, payload.len() as int) + payload
}

/// The bytes of a frame from the server.
pub fn write_frame(opcode: u8, payload: &[u8]) -> (frame: Result<Vec<u8>, Error>)
    ensures
        frame matches Ok(frame) ==> payload@.len() <= 0xffff && frame@ == server_frame(
            opcode,
            payload@,
        ),
        frame matches Err(error) ==> payload@.len() > 0xffff && error == Error::MessageTooLarge,
{
    let length: usize = payload.len();
    let mut frame: Vec<u8> = Vec::new();
    frame.push(0x80 | opcode);
    if length <= 125 {
        frame.push(length as u8);
    } else if length <= 0xffff {
        let (low, high) = split16(length as u16);
        frame.push(126);
        frame.push(high);
        frame.push(low);
    } else {
        return Err(Error::MessageTooLarge);
    }
    proof {
        assert(frame@ =~= server_header(opcode, length as int));
    }
    frame.extend_from_slice(payload);
    proof {
        assert(frame@ =~= server_frame(opcode, payload@));
    }
    Ok(frame)
}

/// The bytes of a text message from the server.
pub fn write_text(text: &[u8]) -> (frame: Result<Vec<u8>, Error>)
    ensures
        frame matches Ok(frame) ==> text@.len() <= 0xffff && frame@ == server_frame(
            OPCODE_TEXT,
            text@,
        ),
        frame matches Err(error) ==> text@.len() > 0xffff && error == Error::MessageTooLarge,
{
    write_frame(OPCODE_TEXT, text)
}

/// What the first length field of a frame says.
#[derive(Clone, Copy, Debug, PartialEq, Eq, Structural)]
pub enum PayloadLen {
    Known(u16),
    Extended,
}

/// What the seven-bit length field of a frame says. A 64-bit length is never accepted.
pub fn read_payload_len(first_len: u8) -> (length: Result<PayloadLen, Error>)
    ensures
        length == payload_len(first_len),
{
    if first_len <= 125 {
        Ok(PayloadLen::Known(first_len as u16))
    } else if first_len == 126 {
        Ok(PayloadLen::Extended)
    } else {
        Err(Error::MessageTooLarge)
    }
}

pub open spec fn payload_len(first_len: u8) -> Result<PayloadLen, Error> {
    if first_len <= 125 {
        Ok(PayloadLen::Known(first_len as u16))
    } else if first_len == 126 {
        Ok(PayloadLen::Extended)
    } else {
        Err(Error::MessageTooLarge)
    }
}

/// The part of a frame that a session reads next.
#[derive(Clone, Copy, Debug)]
pub enum FrameReader {
    Header,
    Length { opcode: u8 },
    Mask { opcode: u8, length: u16 },
    Payload { opcode: u8, length: u16, mask: [u8; 4] },
}

/// What a session does once it has read a part of a frame.
#[derive(Debug)]
pub enum ReadStep {
    /// Read on.
    Continue(FrameReader),
    /// Send a frame, then read the next one.
    Answer(Vec<u8>),
    /// Send a frame, then end the session.
    Close(Vec<u8>),
    /// Handle a text message.
    Text(String),
    /// End the session.
    Failed(Error),
}

#[verifier::ext_equal]
pub enum ReadStepView {
    Continue(FrameReader),
    Answer(Seq<u8>),
    Close(Seq<u8>),
    Text(Seq<char>),
    Failed(Error),
}

impl View for ReadStep {
    type V = ReadStepView;

    open spec fn view(&self) -> ReadStepView {
        match self {
            ReadStep::Continue(reader) => ReadStepView::Continue(*reader),
            ReadStep::Answer(frame) => ReadStepView::Answer(frame@),
            ReadStep::Close(frame) => ReadStepView::Close(frame@),
            ReadStep::Text(text) => ReadStepView::Text(text@),
            ReadStep::Failed(error) => ReadStepView::Failed(*error),
        }
    }
}

/// What follows once the length of a payload is known.
pub open spec fn length_step(opcode: u8, length: u16, capacity: nat) -> ReadStepView {
    if length > capacity {
        ReadStepView::Failed(Error::MessageTooLarge)
    } else {
        ReadStepView::Continue(FrameReader::Mask { opcode, length })
    }
}

/// What follows once the header of a frame is known: the frame is final, has no extension and is
/// masked, or it is refused.
pub open spec fn header_step(first: u8, second: u8, capacity: nat) -> ReadStepView {
    if first & 0x70 != 0 || first & 0x80 == 0 || second & 0x80 == 0 {
        ReadStepView::Failed(Error::InvalidFrame)
    } else {
        match payload_len(second & 0x7f) {
            Ok(PayloadLen::Known(length)) => length_step(first & 0x0f, length, capacity),
            Ok(PayloadLen::Extended) => ReadStepView::Continue(
                FrameReader::Length { opcode: first & 0x0f },
            ),
            Err(error) => ReadStepView::Failed(error),
        }
    }
}

/// What follows once the payload of a frame is unmasked.
pub open spec fn payload_step(opcode: u8, payload: Seq<u8>) -> ReadStepView {
    if opcode == OPCODE_TEXT {
        if valid_utf8(payload) {
            ReadStepView::Text(decode_utf8(payload))
        } else {
            ReadStepView::Failed(Error::InvalidText)
        }
    } else if opcode == OPCODE_CLOSE {
        ReadStepView::Close(server_frame(OPCODE_CLOSE, Seq::empty()))
    } else if opcode == OPCODE_PING {
        ReadStepView::Answer(server_frame(OPCODE_PONG, payload))
    } else if opcode == OPCODE_PONG {
        ReadStepView::Continue(FrameReader::Header)
    } else {
        ReadStepView::Failed(Error::InvalidFrame)
    }
}

impl FrameReader {
    /// How many bytes the part has.
    pub open spec fn spec_wanted(self) -> nat {
        match self {
            FrameReader::Header => 2,
            FrameReader::Length { .. } => 2,
            FrameReader::Mask { .. } => 4,
            FrameReader::Payload { length, .. } => length as nat,
        }
    }

    /// How many bytes the part has.
    pub fn wanted(&self) -> (count: usize)
        ensures
            count == self.spec_wanted(),
    {
        match self {
            FrameReader::Header => 2,
            FrameReader::Length { .. } => 2,
            FrameReader::Mask { .. } => 4,
            FrameReader::Payload { length, .. } => *length as usize,
        }
    }

    /// What a session does with a part of a frame. A part that is cut short means that the client
    /// has gone.
    pub open spec fn step(self, bytes: Seq<u8>, capacity: nat) -> ReadStepView {
        if bytes.len() != self.spec_wanted() {
            ReadStepView::Failed(Error::Closed)
        } else {
            match self {
                FrameReader::Header => header_step(bytes[0], bytes[1], capacity),
                FrameReader::Length { opcode } => length_step(
                    opcode,
                    join16(bytes[1], bytes[0]),
                    capacity,
                ),
                FrameReader::Mask { opcode, length } => ReadStepView::Continue(
                    FrameReader::Payload {
                        opcode,
                        length,
                        mask: [bytes[0], bytes[1], bytes[2], bytes[3]],
                    },
                ),
                FrameReader::Payload { opcode, mask, .. } => payload_step(
                    opcode,
                    masked(bytes, mask@),
                ),
            }
        }
    }
}

fn after_length(opcode: u8, length: u16, capacity: usize) -> (step: ReadStep)
    ensures
        step@ == length_step(opcode, length, capacity as nat),
{
    if length as usize > capacity {
        ReadStep::Failed(Error::MessageTooLarge)
    } else {
        ReadStep::Continue(FrameReader::Mask { opcode, length })
    }
}

fn after_payload(opcode: u8, payload: &[u8]) -> (step: ReadStep)
    requires
        payload@.len() <= 0xffff,
    ensures
        step@ == payload_step(opcode, payload@),
{
    if opcode == OPCODE_TEXT {
        match utf8_text(payload) {
            Some(text) => ReadStep::Text(text.to_owned()),
            None => ReadStep::Failed(Error::InvalidText),
        }
    } else if opcode == OPCODE_CLOSE {
        let empty: Vec<u8> = Vec::new();
        match write_frame(OPCODE_CLOSE, empty.as_slice()) {
            Ok(frame) => ReadStep::Close(frame),
            Err(error) => ReadStep::Failed(error),
        }
    } else if opcode == OPCODE_PING {
        match write_frame(OPCODE_PONG, payload) {
            Ok(frame) => ReadStep::Answer(frame),
            Err(error) => ReadStep::Failed(error),
        }
    } else if opcode == OPCODE_PONG {
        ReadStep::Continue(FrameReader::Header)
    } else {
        ReadStep::Failed(Error::InvalidFrame)
    }
}

/// Takes the bytes of the part of a frame that `reader` waits for, where `capacity` bytes of
/// payload can be held.
pub fn read_text(reader: FrameReader, bytes: &[u8], capacity: usize) -> (step: ReadStep)
    ensures
        step@ == reader.step(bytes@, capacity as nat),
{
    if bytes.len() != reader.wanted() {
        return ReadStep::Failed(Error::Closed);
    }
    match reader {
        FrameReader::Header => {
            if bytes[0] & 0x70 != 0 || bytes[0] & 0x80 == 0 || bytes[1] & 0x80 == 0 {
                return ReadStep::Failed(Error::InvalidFrame);
            }
            let opcode: u8 = bytes[0] & 0x0f;
            match read_payload_len(bytes[1] & 0x7f) {
                Ok(PayloadLen::Known(length)) => after_length(opcode, length, capacity),
                Ok(PayloadLen::Extended) => ReadStep::Continue(FrameReader::Length { opcode }),
                Err(error) => ReadStep::Failed(error),
            }
        },
        FrameReader::Length { opcode } => after_length(
            opcode,
            join_bytes(bytes[1], bytes[0]),
            capacity,
        ),
        FrameReader::Mask { opcode, length } => ReadStep::Continue(
            FrameReader::Payload {
                opcode,
                length,
                mask: [bytes[0], bytes[1], bytes[2], bytes[3]],
            },
        ),
        FrameReader::Payload { opcode, mask, .. } => {
            let payload = apply_mask(bytes, &mask);
            after_payload(opcode, payload.as_slice())
        },
    }
}

/// What a session does with the next frame of a byte stream, and how many bytes it takes. The
/// session stops where it has something to do other than to read on in the same frame.
pub open spec fn read_stream(reader: FrameReader, stream: Seq<u8>, capacity: nat) -> (
    ReadStepView,
    nat,
)
    decreases reader_stage(reader),
{
    let wanted = reader.spec_wanted();
    let part = if wanted <= stream.len() {
        stream.take(wanted as int)
    } else {
        stream
    };
    match reader.step(part, capacity) {
        ReadStepView::Continue(next) if reader_stage(next) < reader_stage(reader) => {
            let rest = read_stream(next, stream.skip(wanted as int), capacity);
            (rest.0, wanted + rest.1)
        },
        step => (step, wanted),
    }
}

/// How many parts of a frame follow the one that is read next.
pub open spec fn reader_stage(reader: FrameReader) -> nat {
    match reader {
        FrameReader::Header => 3,
        FrameReader::Length { .. } => 2,
        FrameReader::Mask { .. } => 1,
        FrameReader::Payload { .. } => 0,
    }
}

/// The header of a frame from a client.
pub open spec fn client_header(opcode: u8, length: int) -> Seq<u8> {
    if length <= 125 {
        seq![0x80 | opcode, 0x80 | length as u8]
    } else {
        seq![0x80 | opcode, 0xfeu8] + be16(length as u16)
    }
}

/// A frame from a client.
pub open spec fn client_frame(opcode: u8, mask: Seq<u8>, payload: Seq<u8>) -> Seq<u8> {
    client_header(opcode, payload.len() as int) + mask + masked(payload, mask)
}

proof fn reading_goes_on(
    reader: FrameReader,
    part: Seq<u8>,
    rest: Seq<u8>,
    next: FrameReader,
    capacity: nat,
)
    requires
        part.len() == reader.spec_wanted(),
        reader.step(part, capacity) == ReadStepView::Continue(next),
        reader_stage(next) < reader_stage(reader),
    ensures
        read_stream(reader, part + rest, capacity) == (
            read_stream(next, rest, capacity).0,
            part.len() + read_stream(next, rest, capacity).1,
        ),
{
    assert((part + rest).take(part.len() as int) =~= part);
    assert((part + rest).skip(part.len() as int) =~= rest);
}

proof fn reading_ends(
    opcode: u8,
    length: u16,
    mask: [u8; 4],
    part: Seq<u8>,
    rest: Seq<u8>,
    capacity: nat,
)
    requires
        part.len() == length,
    ensures
        read_stream(FrameReader::Payload { opcode, length, mask }, part + rest, capacity) == (
            payload_step(opcode, masked(part, mask@)),
            part.len(),
        ),
{
    assert((part + rest).take(part.len() as int) =~= part);
}

proof fn client_headers_are_read(opcode: u8, length: u16, rest: Seq<u8>, capacity: nat)
    requires
        opcode <= 15,
        length <= capacity,
    ensures
        ({
            let header = client_header(opcode, length as int);
            let after = read_stream(FrameReader::Mask { opcode, length }, rest, capacity);
            read_stream(FrameReader::Header, header + rest, capacity) == (
                after.0,
                header.len() + after.1,
            )
        }),
{
    let first = 0x80 | opcode;
    let low = length as u8;
    let second = 0x80 | low;
    assert(first & 0x70 == 0 && first & 0x80 != 0 && first & 0x0f == opcode) by (bit_vector)
        requires
            opcode <= 15,
            first == 0x80 | opcode,
    ;
    if length <= 125 {
        assert(second & 0x80 != 0 && second & 0x7f == low) by (bit_vector)
            requires
                low <= 125,
                second == 0x80 | low,
        ;
        let part = seq![first, second];
        assert(part.len() == 2);
        reading_goes_on(
            FrameReader::Header,
            part,
            rest,
            FrameReader::Mask { opcode, length },
            capacity,
        );
    } else {
        assert(0xfeu8 & 0x80 != 0 && 0xfeu8 & 0x7f == 126) by (bit_vector);
        let part = seq![first, 0xfeu8];
        assert(part.len() == 2);
        let bytes = be16(length);
        assert(bytes.len() == 2);
        crate::wire::words_round_trip(length, 0, 0);
        reading_goes_on(
            FrameReader::Header,
            part,
            bytes + rest,
            FrameReader::Length { opcode },
            capacity,
        );
        reading_goes_on(
            FrameReader::Length { opcode },
            bytes,
            rest,
            FrameReader::Mask { opcode, length },
            capacity,
        );
        assert(client_header(opcode, length as int) + rest =~= part + (bytes + rest));
    }
}

/// A frame that a client sends is read as it was sent: the session takes exactly its bytes, and
/// does what its opcode and its unmasked payload ask for.
pub proof fn client_frames_are_read_back(
    opcode: u8,
    mask: Seq<u8>,
    payload: Seq<u8>,
    rest: Seq<u8>,
    capacity: nat,
)
    requires
        opcode <= 15,
        mask.len() == 4,
        payload.len() <= 0xffff,
        payload.len() <= capacity,
    ensures
        read_stream(FrameReader::Header, client_frame(opcode, mask, payload) + rest, capacity) == (
            payload_step(opcode, payload),
            client_frame(opcode, mask, payload).len(),
        ),
{
    let length = payload.len() as u16;
    let header = client_header(opcode, payload.len() as int);
    let key = [mask[0], mask[1], mask[2], mask[3]];
    let sent = masked(payload, mask);
    assert(key@ =~= mask);
    masking_is_undone(payload, mask);
    client_headers_are_read(opcode, length, mask + (sent + rest), capacity);
    reading_goes_on(
        FrameReader::Mask { opcode, length },
        mask,
        sent + rest,
        FrameReader::Payload { opcode, length, mask: key },
        capacity,
    );
    reading_ends(opcode, length, key, sent, rest, capacity);
    assert(client_frame(opcode, mask, payload) + rest =~= header + (mask + (sent + rest)));
}

/// A text message that a client sends is handed over unchanged, whatever its mask.
pub proof fn client_messages_are_read_back(
    text: Seq<char>,
    mask: Seq<u8>,
    rest: Seq<u8>,
    capacity: nat,
)
    requires
        mask.len() == 4,
        encode_utf8(text).len() <= 0xffff,
        encode_utf8(text).len() <= capacity,
    ensures
        read_stream(
            FrameReader::Header,
            client_frame(OPCODE_TEXT, mask, encode_utf8(text)) + rest,
            capacity,
        ).0 == ReadStepView::Text(text),
{
    client_frames_are_read_back(OPCODE_TEXT, mask, encode_utf8(text), rest, capacity);
    encode_utf8_valid_utf8(text);
    encode_utf8_decode_utf8(text);
}

/// A frame from the server tells its length before the payload, and ends with the payload.
pub proof fn server_frames_announce_their_length(opcode: u8, payload: Seq<u8>)
    requires
        payload.len() <= 0xffff,
    ensures
        ({
            let frame = server_frame(opcode, payload);
            match payload_len(frame[1]) {
                Ok(PayloadLen::Known(length)) => length == payload.len() && frame.skip(2)
                    == payload,
                Ok(PayloadLen::Extended) => join16(frame[3], frame[2]) == payload.len()
                    && frame.skip(4) == payload,
                Err(_) => false,
            }
        }),
{
    let frame = server_frame(opcode, payload);
    if payload.len() <= 125 {
        assert(frame.skip(2) =~= payload);
    } else {
        crate::wire::words_round_trip(payload.len() as u16, 0, 0);
        assert(frame.skip(4) =~= payload);
    }
}

/// The text that a server appends to a key has 36 bytes, which leaves 28 for the key.
pub proof fn guid_length()
    ensures
        encode_utf8(WEBSOCKET_GUID@).len() == 36,
{
    reveal_strlit("258EAFA5-E914-47DA-95CA-C5AB0DC85B11");
    vstd::string::is_ascii_spec_bytes(WEBSOCKET_GUID);
}

/// Whether a text has no line break in it.
pub open spec fn is_line(line: Seq<char>) -> bool {
    forall|i: int| 0 <= i < line.len() - 1 && #[trigger] line[i] == '\r' ==> line[i + 1] != '\n'
}

/// Lines put together, with a carriage return and a line feed after each.
pub open spec fn text_of_lines(lines: Seq<Seq<char>>) -> Seq<char>
    decreases lines.len(),
{
    if lines.len() == 0 {
        Seq::empty()
    } else {
        lines[0] + seq!['\r', '\n'] + text_of_lines(lines.drop_first())
    }
}

/// An HTTP request without a body: the request line, the headers and an empty line.
pub open spec fn request_text(first: Seq<char>, headers: Seq<Seq<char>>) -> Seq<char> {
    text_of_lines(seq![first] + headers + seq![Seq::empty()])
}

/// Whether a header is written as a name, a colon and a value, with white space around the value
/// or without.
pub open spec fn is_written(
    line: Seq<char>,
    name: Seq<char>,
    left: Seq<char>,
    value: Seq<char>,
    right: Seq<char>,
) -> bool {
    line == name + seq![':'] + left + value + right && all_space(left) && all_space(right)
        && is_bare(value)
}

/// Whether a line is a header of the given name, in small letters, capitals or both, and value.
pub open spec fn is_header(line: Seq<char>, name: Seq<char>, value: Seq<char>) -> bool {
    exists|written: Seq<char>, left: Seq<char>, right: Seq<char>| #[trigger]
        is_written(line, written, left, value, right) && spells(written, name)
}

/// Whether a list is written as an item between two commas, or between one and an end of the list,
/// with white space around the item or without.
pub open spec fn is_listed(
    list: Seq<char>,
    before: Seq<char>,
    left: Seq<char>,
    item: Seq<char>,
    right: Seq<char>,
    after: Seq<char>,
) -> bool {
    &&& list == before + left + item + right + after
    &&& before.len() > 0 ==> before.last() == ','
    &&& after.len() > 0 ==> after[0] == ','
    &&& all_space(left) && all_space(right)
}

/// Whether a comma-separated list has a word, in small letters, capitals or both, as an item.
pub open spec fn has_item(list: Seq<char>, word: Seq<char>) -> bool {
    exists|
        before: Seq<char>,
        left: Seq<char>,
        item: Seq<char>,
        right: Seq<char>,
        after: Seq<char>,
    | #[trigger]
        is_listed(list, before, left, item, right, after) && spells(item, word)
}

/// Whether headers ask for the WebSocket protocol with a key: in any order and among others there
/// are one that upgrades to WebSocket, one whose list of connection options has the upgrade, one
/// for version 13, and the last header with a key has this key.
pub open spec fn are_asking(headers: Seq<Seq<char>>, key: Seq<char>) -> bool {
    &&& exists|i: int, value: Seq<char>|
        0 <= i < headers.len() && #[trigger] is_header(headers[i], "upgrade"@, value) && spells(
            value,
            "websocket"@,
        )
    &&& exists|i: int, value: Seq<char>|
        0 <= i < headers.len() && #[trigger] is_header(headers[i], "connection"@, value)
            && has_item(value, "upgrade"@)
    &&& exists|i: int|
        0 <= i < headers.len() && #[trigger] is_header(
            headers[i],
            "sec-websocket-version"@,
            "13"@,
        )
    &&& exists|i: int|
        0 <= i < headers.len() && #[trigger] is_header(headers[i], "sec-websocket-key"@, key)
            && forall|j: int, other: Seq<char>|
            i < j < headers.len() ==> !#[trigger] is_header(
                headers[j],
                "sec-websocket-key"@,
                other,
            )
}

proof fn lines_are_found(line: Seq<char>, rest: Seq<char>)
    requires
        is_line(line),
    ensures
        first_break(line + seq!['\r', '\n'] + rest) == line.len(),
    decreases line.len(),
{
    let text = line + seq!['\r', '\n'] + rest;
    if line.len() > 0 {
        let shorter = line.drop_first();
        assert(text[0] == line[0]);
        if line.len() > 1 {
            assert(text[1] == line[1]);
        } else {
            assert(text[1] == '\r');
        }
        assert forall|i: int| 0 <= i < shorter.len() - 1 && #[trigger] shorter[i]
            == '\r' implies shorter[i + 1] != '\n' by {
            assert(line[i + 1] == shorter[i]);
        }
        lines_are_found(shorter, rest);
        assert(text.drop_first() =~= shorter + seq!['\r', '\n'] + rest);
    } else {
        assert(text[0] == '\r' && text[1] == '\n');
    }
}

proof fn lines_are_told_apart(lines: Seq<Seq<char>>)
    requires
        forall|i: int| 0 <= i < lines.len() ==> is_line(#[trigger] lines[i]),
    ensures
        split_lines(text_of_lines(lines)) == lines + seq![Seq::empty()],
    decreases lines.len(),
{
    if lines.len() > 0 {
        let line = lines[0];
        let rest = lines.drop_first();
        assert forall|i: int| 0 <= i < rest.len() implies is_line(#[trigger] rest[i]) by {
            assert(rest[i] == lines[i + 1]);
        }
        lines_are_told_apart(rest);
        lines_are_found(line, text_of_lines(rest));
        let text = text_of_lines(lines);
        assert(text.take(line.len() as int) =~= line);
        assert(text.skip(line.len() as int + 2) =~= text_of_lines(rest));
        assert(seq![line] + (rest + seq![Seq::<char>::empty()]) =~= lines + seq![
            Seq::<char>::empty(),
        ]);
    }
}

proof fn colons_end_names(name: Seq<char>, rest: Seq<char>)
    requires
        forall|i: int| 0 <= i < name.len() ==> #[trigger] name[i] != ':',
    ensures
        first_colon(name + seq![':'] + rest) == name.len(),
    decreases name.len(),
{
    let line = name + seq![':'] + rest;
    if name.len() > 0 {
        assert(line[0] == name[0]);
        assert(line.drop_first() =~= name.drop_first() + seq![':'] + rest);
        colons_end_names(name.drop_first(), rest);
    } else {
        assert(line[0] == ':');
    }
}

proof fn first_colons_are_colons(line: Seq<char>)
    ensures
        first_colon(line) <= line.len(),
        first_colon(line) < line.len() ==> line[first_colon(line) as int] == ':',
    decreases line.len(),
{
    if line.len() > 0 && line[0] != ':' {
        first_colons_are_colons(line.drop_first());
    }
}

/// A line is a header of a name and a value exactly if the name stands before its first colon, in
/// any case, and the value after it, without the white space around it.
pub proof fn headers_are_names_and_values(line: Seq<char>, name: Seq<char>, value: Seq<char>)
    requires
        forall|i: int| 0 <= i < name.len() ==> 'a' <= #[trigger] name[i] <= 'z' || name[i] == '-',
    ensures
        is_header(line, name, value) <==> header_named(line, name) && header_value(line) == value,
{
    if is_header(line, name, value) {
        let (written, left, right) = choose|
            written: Seq<char>,
            left: Seq<char>,
            right: Seq<char>,
        | #[trigger]
            is_written(line, written, left, value, right) && spells(written, name);
        assert forall|i: int| 0 <= i < written.len() implies #[trigger] written[i] != ':' by {
            assert('a' <= name[i] <= 'z' || name[i] == '-');
        }
        colons_end_names(written, left + value + right);
        assert(line =~= written + seq![':'] + (left + value + right));
        assert(line.take(written.len() as int) =~= written);
        assert(line.skip(written.len() as int + 1) =~= left + value + right);
        words_are_compared_by_their_letters(written, name);
        trimming_keeps_what_is_between_space(left, value, right);
    }
    if header_named(line, name) && header_value(line) == value {
        first_colons_are_colons(line);
        let colon = first_colon(line) as int;
        let written = line.take(colon);
        let rest = line.skip(colon + 1);
        let bounds = trimming_removes_outer_space(rest);
        let left = rest.take(bounds.0);
        let right = rest.skip(bounds.1);
        assert(rest =~= left + value + right);
        assert(line =~= written + seq![':'] + left + value + right);
        words_are_compared_by_their_letters(written, name);
        assert(is_written(line, written, left, value, right));
    }
}

/// A comma-separated list has a word exactly if the word stands, in any case, between two commas
/// or ends of the list, alone but for white space.
pub proof fn items_stand_between_commas(list: Seq<char>, word: Seq<char>)
    requires
        forall|i: int| 0 <= i < word.len() ==> 'a' <= #[trigger] word[i] <= 'z',
    ensures
        has_item(list, word) <==> lists(list, word),
{
    if has_item(list, word) {
        let (before, left, item, right, after) = choose|
            before: Seq<char>,
            left: Seq<char>,
            item: Seq<char>,
            right: Seq<char>,
            after: Seq<char>,
        | #[trigger]
            is_listed(list, before, left, item, right, after) && spells(item, word);
        let start = before.len() as int;
        let end = list.len() - after.len();
        let part = left + item + right;
        assert(list.subrange(start, end) =~= part);
        if item.len() > 0 {
            assert('a' <= word[0] <= 'z' && 'a' <= word[word.len() - 1] <= 'z');
        }
        trimming_keeps_what_is_between_space(left, item, right);
        words_are_compared_by_their_letters(item, word);
        assert forall|i: int| start <= i < end implies list[i] != ',' by {
            assert(list[i] == part[i - start]);
            if i - start < left.len() {
                assert(part[i - start] == left[i - start]);
            } else if i - start < left.len() + item.len() {
                let j = i - start - left.len();
                assert(part[i - start] == item[j]);
                assert('a' <= word[j] <= 'z');
            } else {
                let j = i - start - left.len() - item.len();
                assert(part[i - start] == right[j]);
            }
        }
        if start > 0 {
            assert(list[start - 1] == before.last());
        }
        if end < list.len() {
            assert(list[end] == after[0]);
        }
        assert(item_at(list, start, end, word));
    }
    if lists(list, word) {
        let (start, end) = choose|start: int, end: int| #[trigger] item_at(list, start, end, word);
        let before = list.take(start);
        let part = list.subrange(start, end);
        let after = list.skip(end);
        let bounds = trimming_removes_outer_space(part);
        let left = part.take(bounds.0);
        let item = trimmed(part);
        let right = part.skip(bounds.1);
        assert(part =~= left + item + right);
        assert(list =~= before + left + item + right + after);
        words_are_compared_by_their_letters(item, word);
        assert(is_listed(list, before, left, item, right, after));
    }
}

proof fn header_words()
    ensures
        forall|i: int| 0 <= i < "upgrade"@.len() ==> 'a' <= #[trigger] "upgrade"@[i] <= 'z',
        forall|i: int| 0 <= i < "connection"@.len() ==> 'a' <= #[trigger] "connection"@[i] <= 'z',
        forall|i: int| 0 <= i < "websocket"@.len() ==> 'a' <= #[trigger] "websocket"@[i] <= 'z',
        forall|i: int|
            0 <= i < "sec-websocket-version"@.len() ==> 'a' <= #[trigger]
                "sec-websocket-version"@[i] <= 'z' || "sec-websocket-version"@[i] == '-',
        forall|i: int|
            0 <= i < "sec-websocket-key"@.len() ==> 'a' <= #[trigger] "sec-websocket-key"@[i] <= 'z'
                || "sec-websocket-key"@[i] == '-',
{
    reveal_strlit("upgrade");
    reveal_strlit("connection");
    reveal_strlit("websocket");
    reveal_strlit("sec-websocket-version");
    reveal_strlit("sec-websocket-key");
}

proof fn last_keys_are_the_last(headers: Seq<Seq<char>>, key: Seq<char>)
    ensures
        last_key(headers) == Some(key) <==> exists|i: int|
            0 <= i < headers.len() && #[trigger] is_header(headers[i], "sec-websocket-key"@, key)
                && forall|j: int, other: Seq<char>|
                i < j < headers.len() ==> !#[trigger] is_header(
                    headers[j],
                    "sec-websocket-key"@,
                    other,
                ),
    decreases headers.len(),
{
    let name = "sec-websocket-key"@;
    header_words();
    if headers.len() > 0 {
        let last = headers.len() - 1;
        let line = headers.last();
        let shorter = headers.drop_last();
        headers_are_names_and_values(line, name, key);
        headers_are_names_and_values(line, name, header_value(line));
        if gives_key(line) {
            assert(is_header(headers[last], name, header_value(line)));
            if header_value(line) == key {
                assert(is_header(headers[last], name, key));
            }
        } else {
            last_keys_are_the_last(shorter, key);
            assert forall|other: Seq<char>| !#[trigger] is_header(headers[last], name, other) by {
                headers_are_names_and_values(line, name, other);
            }
            if last_key(shorter) == Some(key) {
                let i = choose|i: int|
                    0 <= i < shorter.len() && #[trigger] is_header(shorter[i], name, key)
                        && forall|j: int, other: Seq<char>|
                        i < j < shorter.len() ==> !#[trigger] is_header(shorter[j], name, other);
                assert(headers[i] == shorter[i]);
                assert forall|j: int, other: Seq<char>|
                    i < j < headers.len() implies !#[trigger] is_header(headers[j], name, other) by {
                    if j < last {
                        assert(shorter[j] == headers[j]);
                        assert(!is_header(shorter[j], name, other));
                    }
                }
                assert(is_header(headers[i], name, key));
            }
            if exists|i: int|
                0 <= i < headers.len() && #[trigger] is_header(headers[i], name, key) && forall|
                    j: int,
                    other: Seq<char>,
                |
                    i < j < headers.len() ==> !#[trigger] is_header(headers[j], name, other) {
                let i = choose|i: int|
                    0 <= i < headers.len() && #[trigger] is_header(headers[i], name, key)
                        && forall|j: int, other: Seq<char>|
                        i < j < headers.len() ==> !#[trigger] is_header(headers[j], name, other);
                assert(i < last);
                assert(shorter[i] == headers[i]);
                assert forall|j: int, other: Seq<char>|
                    i < j < shorter.len() implies !#[trigger] is_header(shorter[j], name, other) by {
                    assert(shorter[j] == headers[j]);
                    assert(!is_header(headers[j], name, other));
                }
                assert(is_header(shorter[i], name, key));
            }
        }
    }
}

proof fn summaries_are_of_what_is_asked(headers: Seq<Seq<char>>, key: Seq<char>)
    ensures
        ({
            let asked = header_summary(headers);
            asked.websocket && asked.upgrade && asked.version && asked.key == Some(key)
                <==> are_asking(headers, key)
        }),
{
    header_words();
    last_keys_are_the_last(headers, key);
    let asked = header_summary(headers);
    if asked.websocket && asked.upgrade && asked.version && asked.key == Some(key) {
        let i = choose|i: int| 0 <= i < headers.len() && asks_for_websocket(#[trigger] headers[i]);
        let value = header_value(headers[i]);
        headers_are_names_and_values(headers[i], "upgrade"@, value);
        words_are_compared_by_their_letters(value, "websocket"@);
        assert(is_header(headers[i], "upgrade"@, value));
        let j = choose|i: int| 0 <= i < headers.len() && asks_for_upgrade(#[trigger] headers[i]);
        let list = header_value(headers[j]);
        headers_are_names_and_values(headers[j], "connection"@, list);
        items_stand_between_commas(list, "upgrade"@);
        assert(is_header(headers[j], "connection"@, list));
        let k = choose|i: int| 0 <= i < headers.len() && gives_version(#[trigger] headers[i]);
        headers_are_names_and_values(headers[k], "sec-websocket-version"@, "13"@);
        assert(is_header(headers[k], "sec-websocket-version"@, "13"@));
    }
    if are_asking(headers, key) {
        let (i, value) = choose|i: int, value: Seq<char>|
            0 <= i < headers.len() && #[trigger] is_header(headers[i], "upgrade"@, value)
                && spells(value, "websocket"@);
        headers_are_names_and_values(headers[i], "upgrade"@, value);
        words_are_compared_by_their_letters(value, "websocket"@);
        assert(asks_for_websocket(headers[i]));
        let (j, list) = choose|i: int, value: Seq<char>|
            0 <= i < headers.len() && #[trigger] is_header(headers[i], "connection"@, value)
                && has_item(value, "upgrade"@);
        headers_are_names_and_values(headers[j], "connection"@, list);
        items_stand_between_commas(list, "upgrade"@);
        assert(asks_for_upgrade(headers[j]));
        let k = choose|i: int|
            0 <= i < headers.len() && #[trigger] is_header(
                headers[i],
                "sec-websocket-version"@,
                "13"@,
            );
        headers_are_names_and_values(headers[k], "sec-websocket-version"@, "13"@);
        assert(gives_version(headers[k]));
    }
}

proof fn empty_lines_ask_for_nothing(headers: Seq<Seq<char>>)
    ensures
        header_summary(headers.push(Seq::empty())) == header_summary(headers),
{
    let line = Seq::<char>::empty();
    summary_of_one_more(headers, line);
    assert(first_colon(line) == 0);
}

/// A request offers a key exactly if its first line asks for the controller's endpoint and its
/// headers ask for the WebSocket protocol with this key.
pub proof fn requests_offer_the_key_they_ask_with(
    first: Seq<char>,
    headers: Seq<Seq<char>>,
    key: Seq<char>,
)
    requires
        is_line(first),
        forall|i: int| 0 <= i < headers.len() ==> is_line(#[trigger] headers[i]),
    ensures
        handshake_key(request_text(first, headers)) == Some(key) <==> first
            == "GET /rpc HTTP/1.1"@ && are_asking(headers, key),
{
    let empty = Seq::<char>::empty();
    let lines = seq![first] + headers + seq![empty];
    assert forall|i: int| 0 <= i < lines.len() implies is_line(#[trigger] lines[i]) by {
        if 0 < i <= headers.len() {
            assert(lines[i] == headers[i - 1]);
        }
    }
    lines_are_told_apart(lines);
    let found = lines + seq![empty];
    assert(found[0] == first);
    assert(found.drop_first() =~= headers.push(empty).push(empty));
    empty_lines_ask_for_nothing(headers);
    empty_lines_ask_for_nothing(headers.push(empty));
    summaries_are_of_what_is_asked(headers, key);
}

/// A client is let in exactly if its request offers a key that is the Base64 text of at most
/// sixteen bytes and has at most 28 bytes itself.
pub proof fn clients_are_let_in_by_their_key(
    first: Seq<char>,
    headers: Seq<Seq<char>>,
    key: Seq<char>,
)
    requires
        is_line(first),
        forall|i: int| 0 <= i < headers.len() ==> is_line(#[trigger] headers[i]),
    ensures
        accepted_key(encode_utf8(request_text(first, headers))) == Some(key) <==> {
            &&& first == "GET /rpc HTTP/1.1"@
            &&& are_asking(headers, key)
            &&& base64_data(key) matches Some(data) && data.len() < 17
            &&& encode_utf8(key).len() < 29
        },
{
    let text = request_text(first, headers);
    encode_utf8_valid_utf8(text);
    encode_utf8_decode_utf8(text);
    requests_offer_the_key_they_ask_with(first, headers, key);
}

/// Bytes that are not the UTF-8 text of any request are refused.
pub proof fn requests_are_text(request: Seq<u8>)
    ensures
        accepted_key(request) is Some ==> exists|text: Seq<char>| #[trigger]
            encode_utf8(text) == request,
{
    if valid_utf8(request) {
        vstd::utf8::decode_utf8_encode_utf8(request);
    }
}

/// The headers of an ordinary client are enough, wherever they stand among others: with the
/// upgrade as the only connection option or as any one of several, the client is let in with its
/// key.
pub proof fn ordinary_requests_are_accepted(
    headers: Seq<Seq<char>>,
    before: Seq<char>,
    after: Seq<char>,
    key: Seq<char>,
    upgrade: int,
    connection: int,
    version: int,
    offer: int,
)
    requires
        forall|i: int| 0 <= i < headers.len() ==> is_line(#[trigger] headers[i]),
        0 <= upgrade < headers.len(),
        0 <= connection < headers.len(),
        0 <= version < headers.len(),
        0 <= offer < headers.len(),
        headers[upgrade] == "Upgrade: websocket"@,
        headers[connection] == "Connection: "@ + before + "Upgrade"@ + after,
        headers[version] == "Sec-WebSocket-Version: 13"@,
        headers[offer] == "Sec-WebSocket-Key: "@ + key,
        is_bare(before + "Upgrade"@ + after),
        is_bare(key),
        before.len() > 0 ==> before[before.len() - 1] == ',' || before.len() > 1
            && before[before.len() - 2] == ',' && before[before.len() - 1] == ' ',
        after.len() > 0 ==> after[0] == ',',
        forall|i: int, other: Seq<char>|
            0 <= i < headers.len() && i != offer ==> !#[trigger] is_header(
                headers[i],
                "sec-websocket-key"@,
                other,
            ),
        base64_data(key) matches Some(data) && data.len() == 16,
        encode_utf8(key).len() <= 28,
    ensures
        accepted_key(encode_utf8(request_text("GET /rpc HTTP/1.1"@, headers))) == Some(key),
{
    let none = Seq::<char>::empty();
    let blank = seq![' '];
    let first = "GET /rpc HTTP/1.1"@;
    reveal_strlit("GET /rpc HTTP/1.1");
    reveal_strlit("Upgrade: websocket");
    reveal_strlit("Connection: ");
    reveal_strlit("Upgrade");
    reveal_strlit("Sec-WebSocket-Version: 13");
    reveal_strlit("Sec-WebSocket-Key: ");
    reveal_strlit("Connection");
    reveal_strlit("Sec-WebSocket-Version");
    reveal_strlit("Sec-WebSocket-Key");
    reveal_strlit("upgrade");
    reveal_strlit("connection");
    reveal_strlit("websocket");
    reveal_strlit("sec-websocket-version");
    reveal_strlit("sec-websocket-key");
    reveal_strlit("13");
    assert(is_line(first));
    assert(headers[upgrade] =~= "Upgrade"@ + seq![':'] + blank + "websocket"@ + none);
    assert(is_written(headers[upgrade], "Upgrade"@, blank, "websocket"@, none));
    assert(is_header(headers[upgrade], "upgrade"@, "websocket"@));
    let list = before + "Upgrade"@ + after;
    assert(headers[connection] =~= "Connection"@ + seq![':'] + blank + list + none);
    assert(is_written(headers[connection], "Connection"@, blank, list, none));
    assert(is_header(headers[connection], "connection"@, list));
    if before.len() > 0 && before[before.len() - 1] != ',' {
        let earlier = before.drop_last();
        assert(list =~= earlier + blank + "Upgrade"@ + none + after);
        assert(earlier.last() == before[before.len() - 2]);
        assert(is_listed(list, earlier, blank, "Upgrade"@, none, after));
    } else {
        assert(list =~= before + none + "Upgrade"@ + none + after);
        assert(is_listed(list, before, none, "Upgrade"@, none, after));
    }
    assert(spells("Upgrade"@, "upgrade"@));
    assert(has_item(list, "upgrade"@));
    assert(headers[version] =~= "Sec-WebSocket-Version"@ + seq![':'] + blank + "13"@ + none);
    assert(is_written(headers[version], "Sec-WebSocket-Version"@, blank, "13"@, none));
    assert(is_header(headers[version], "sec-websocket-version"@, "13"@));
    assert(headers[offer] =~= "Sec-WebSocket-Key"@ + seq![':'] + blank + key + none);
    assert(is_written(headers[offer], "Sec-WebSocket-Key"@, blank, key, none));
    assert(is_header(headers[offer], "sec-websocket-key"@, key));
    assert(are_asking(headers, key));
    clients_are_let_in_by_their_key(first, headers, key);
}

/// A key is answered with the Base64 text of the digest of the key and the appended text, in this
/// order.
pub proof fn keys_are_answered_by_their_digest(key: Seq<char>)
    ensures
        accept_text(key) == base64_text(
            sha1_digest(encode_utf8(key + "258EAFA5-E914-47DA-95CA-C5AB0DC85B11"@)),
        ),
{
    texts_are_encoded_in_parts(key, WEBSOCKET_GUID@);
}

proof fn texts_are_encoded_in_parts(left: Seq<char>, right: Seq<char>)
    ensures
        encode_utf8(left + right) == encode_utf8(left) + encode_utf8(right),
    decreases left.len(),
{
    if left.len() == 0 {
        assert(left + right =~= right);
        assert(encode_utf8(left) =~= Seq::<u8>::empty());
        assert(encode_utf8(left) + encode_utf8(right) =~= encode_utf8(right));
    } else {
        texts_are_encoded_in_parts(left.drop_first(), right);
        assert((left + right).drop_first() =~= left.drop_first() + right);
        assert((left + right)[0] == left[0]);
    }
}

/// A request is complete once it ends in two line breaks, one right after the other.
pub proof fn requests_end_in_an_empty_line(start: Seq<u8>, bytes: Seq<u8>)
    ensures
        ends_request(start + seq![13u8, 10u8, 13u8, 10u8]),
        ends_request(bytes) ==> bytes == bytes.take(bytes.len() - 4) + seq![
            13u8,
            10u8,
            13u8,
            10u8,
        ],
{
    let end = seq![13u8, 10u8, 13u8, 10u8];
    assert((start + end).skip(start.len() as int) =~= end);
    if ends_request(bytes) {
        assert(bytes =~= bytes.take(bytes.len() - 4) + bytes.skip(bytes.len() - 4));
    }
}

/// A frame from the server has the final bit and its opcode in the first byte, then its length in
/// one byte, or 126 and its length in two bytes, high byte first, then the payload as it is.
pub proof fn server_frames_have_their_layout(opcode: u8, payload: Seq<u8>)
    requires
        opcode < 16,
        payload.len() < 65536,
    ensures
        ({
            let frame = server_frame(opcode, payload);
            &&& frame[0] == 128 + opcode
            &&& payload.len() < 126 ==> frame.len() == 2 + payload.len() && frame[1]
                == payload.len() && frame.skip(2) == payload
            &&& payload.len() >= 126 ==> frame.len() == 4 + payload.len() && frame[1] == 126
                && 256 * frame[2] + frame[3] == payload.len() && frame.skip(4) == payload
        }),
{
    let frame = server_frame(opcode, payload);
    let length = payload.len() as u16;
    assert(0x80 | opcode == 128 + opcode) by (bit_vector)
        requires
            opcode < 16,
    ;
    crate::wire::bytes_are_digits_to_the_base_256(length, 0, 0, 0, 0, 0);
    if payload.len() < 126 {
        assert(frame.skip(2) =~= payload);
    } else {
        assert(frame.skip(4) =~= payload);
    }
}

/// A frame is refused that has an extension bit, is not final or not masked.
pub proof fn foreign_frames_are_refused(first: u8, second: u8, rest: Seq<u8>, capacity: nat)
    ensures
        ({
            let step = read_stream(FrameReader::Header, seq![first, second] + rest, capacity).0;
            &&& first / 16 != 8 || second < 128 ==> step == ReadStepView::Failed(
                Error::InvalidFrame,
            )
            &&& first / 16 == 8 && second == 255 ==> step == ReadStepView::Failed(
                Error::MessageTooLarge,
            )
            &&& first / 16 == 8 && 128 <= second < 254 && second - 128 > capacity ==> step
                == ReadStepView::Failed(Error::MessageTooLarge)
        }),
{
    let stream = seq![first, second] + rest;
    assert(stream.take(2) =~= seq![first, second]);
    assert((first & 0x70 == 0 && first & 0x80 != 0) == (first / 16 == 8)) by (bit_vector);
    assert((second & 0x80 != 0) == (second >= 128)) by (bit_vector);
    assert(second >= 128 ==> second & 0x7f == second - 128) by (bit_vector);
}

/// A frame whose length takes two bytes is refused where the length is over the capacity.
pub proof fn long_frames_are_refused(first: u8, high: u8, low: u8, rest: Seq<u8>, capacity: nat)
    requires
        first / 16 == 8,
        256 * high + low > capacity,
    ensures
        read_stream(FrameReader::Header, seq![first, 254u8, high, low] + rest, capacity).0
            == ReadStepView::Failed(Error::MessageTooLarge),
{
    let opcode = first & 0x0f;
    let part = seq![first, 254u8];
    let length = seq![high, low];
    assert(first & 0x70 == 0 && first & 0x80 != 0) by (bit_vector)
        requires
            first / 16 == 8,
    ;
    assert(254u8 & 0x80 != 0 && 254u8 & 0x7f == 126) by (bit_vector);
    reading_goes_on(
        FrameReader::Header,
        part,
        length + rest,
        FrameReader::Length { opcode },
        capacity,
    );
    assert(seq![first, 254u8, high, low] + rest =~= part + (length + rest));
    assert((length + rest).take(2) =~= length);
    crate::wire::bytes_are_digits_to_the_base_256(0, 0, low, high, 0, 0);
}

/// Whether each byte of a payload is sent combined with the byte of the mask that stands at its
/// place modulo four.
pub open spec fn is_masked(sent: Seq<u8>, payload: Seq<u8>, mask: Seq<u8>) -> bool {
    &&& sent.len() == payload.len()
    &&& forall|i: int| 0 <= i < sent.len() ==> #[trigger] sent[i] == payload[i] ^ mask[i % 4]
}

/// Whether bytes are a frame from a client: its first byte, the length with the mask bit, the mask
/// and the masked payload.
pub open spec fn is_client_frame(
    frame: Seq<u8>,
    opcode: u8,
    mask: Seq<u8>,
    payload: Seq<u8>,
) -> bool {
    let header = if payload.len() < 126 {
        2int
    } else {
        4
    };
    &&& frame.len() >= header + 4
    &&& frame[0] == 128 + opcode
    &&& payload.len() < 126 ==> frame[1] == 128 + payload.len()
    &&& payload.len() >= 126 ==> frame[1] == 254 && 256 * frame[2] + frame[3] == payload.len()
    &&& frame.subrange(header, header + 4) == mask
    &&& is_masked(frame.skip(header + 4), payload, mask)
}

/// What a session does with a frame from a client: a text is handled, a close request is answered
/// with an empty close frame, a ping with a pong of the same payload, a pong is passed over, and
/// any other frame ends the session.
pub proof fn client_frames_are_answered(
    opcode: u8,
    frame: Seq<u8>,
    mask: Seq<u8>,
    payload: Seq<u8>,
    rest: Seq<u8>,
    capacity: nat,
)
    requires
        opcode < 16,
        mask.len() == 4,
        payload.len() <= capacity,
        payload.len() < 65536,
        is_client_frame(frame, opcode, mask, payload),
    ensures
        ({
            let (step, taken) = read_stream(FrameReader::Header, frame + rest, capacity);
            &&& taken == frame.len()
            &&& opcode == 1 && valid_utf8(payload) ==> step == ReadStepView::Text(
                decode_utf8(payload),
            )
            &&& opcode == 1 && !valid_utf8(payload) ==> step == ReadStepView::Failed(
                Error::InvalidText,
            )
            &&& opcode == 8 ==> step == ReadStepView::Close(seq![136u8, 0u8])
            &&& opcode == 9 ==> (step matches ReadStepView::Answer(answer) && answer[0] == 138
                && if payload.len() < 126 {
                answer[1] == payload.len() && answer.len() == 2 + payload.len() && answer.skip(2)
                    == payload
            } else {
                answer[1] == 126 && 256 * answer[2] + answer[3] == payload.len() && answer.len()
                    == 4 + payload.len() && answer.skip(4) == payload
            })
            &&& opcode == 10 ==> step == ReadStepView::Continue(FrameReader::Header)
            &&& !set![1u8, 8u8, 9u8, 10u8].contains(opcode) ==> step == ReadStepView::Failed(
                Error::InvalidFrame,
            )
        }),
{
    let header = if payload.len() < 126 {
        2int
    } else {
        4
    };
    let sent = client_frame(opcode, mask, payload);
    let length = payload.len() as u16;
    let low = length as u8;
    assert(0x80 | opcode == 128 + opcode) by (bit_vector)
        requires
            opcode < 16,
    ;
    assert(low < 126 ==> 0x80 | low == 128 + low) by (bit_vector);
    crate::wire::bytes_are_digits_to_the_base_256(length, 0, 0, 0, 0, 0);
    let body = frame.skip(header + 4);
    assert forall|i: int| 0 <= i < sent.len() implies sent[i] == frame[i] by {
        if header <= i < header + 4 {
            assert(frame[i] == frame.subrange(header, header + 4)[i - header]);
            assert(sent[i] == mask[i - header]);
        } else if i >= header + 4 {
            let j = i - header - 4;
            assert(frame[i] == body[j]);
            assert(sent[i] == masked(payload, mask)[j]);
        }
    }
    assert(sent =~= frame);
    client_frames_are_read_back(opcode, mask, payload, rest, capacity);
    server_frames_have_their_layout(OPCODE_PONG, payload);
    server_frames_have_their_layout(OPCODE_CLOSE, Seq::empty());
    assert(server_frame(OPCODE_CLOSE, Seq::empty()) =~= seq![136u8, 0u8]);
}

/// A stream that ends within a frame means that the client has gone.
pub proof fn cut_frames_close_the_session(
    opcode: u8,
    mask: Seq<u8>,
    payload: Seq<u8>,
    kept: int,
    capacity: nat,
)
    requires
        opcode < 16,
        mask.len() == 4,
        payload.len() <= capacity,
        payload.len() < 65536,
        0 <= kept < client_frame(opcode, mask, payload).len(),
    ensures
        read_stream(
            FrameReader::Header,
            client_frame(opcode, mask, payload).take(kept),
            capacity,
        ).0 == ReadStepView::Failed(Error::Closed),
{
    let length = payload.len() as u16;
    let header = client_header(opcode, payload.len() as int);
    let frame = client_frame(opcode, mask, payload);
    let key = [mask[0], mask[1], mask[2], mask[3]];
    let part = frame.take(kept);
    assert(key@ =~= mask);
    if kept >= header.len() {
        let rest = frame.subrange(header.len() as int, kept);
        assert(part =~= header + rest);
        client_headers_are_read(opcode, length, rest, capacity);
        if rest.len() >= 4 {
            assert(rest.take(4) =~= mask);
            let body = rest.skip(4);
            assert(rest =~= mask + body);
            reading_goes_on(
                FrameReader::Mask { opcode, length },
                mask,
                body,
                FrameReader::Payload { opcode, length, mask: key },
                capacity,
            );
        }
    } else if kept >= 2 {
        assert(header.len() == 4);
        let first = 0x80 | opcode;
        assert(first & 0x70 == 0 && first & 0x80 != 0 && first & 0x0f == opcode) by (bit_vector)
            requires
                opcode < 16,
                first == 0x80 | opcode,
        ;
        assert(0xfeu8 & 0x80 != 0 && 0xfeu8 & 0x7f == 126) by (bit_vector);
        let start = seq![first, 0xfeu8];
        let rest = frame.subrange(2, kept);
        assert(part =~= start + rest);
        reading_goes_on(FrameReader::Header, start, rest, FrameReader::Length { opcode }, capacity);
    }
}

/// What holds of the view of a step holds of the step.
pub proof fn steps_are_seen_as_they_are(step: ReadStep)
    ensures
        match step {
            ReadStep::Continue(reader) => step@ == ReadStepView::Continue(reader),
            ReadStep::Answer(frame) => step@ == ReadStepView::Answer(frame@),
            ReadStep::Close(frame) => step@ == ReadStepView::Close(frame@),
            ReadStep::Text(text) => step@ == ReadStepView::Text(text@),
            ReadStep::Failed(error) => step@ == ReadStepView::Failed(error),
        },
{
}

/// A request takes every byte in turn until it ends in an empty line, or has 1024 bytes.
pub proof fn requests_are_read_to_their_empty_line(request: Seq<u8>, byte: u8)
    requires
        request.len() < 1024,
    ensures
        ({
            let (after, complete) = request_after(request, byte);
            let ended = request.len() > 2 && byte == 10 && request[request.len() - 1] == 13
                && request[request.len() - 2] == 10 && request[request.len() - 3] == 13;
            &&& after == request + seq![byte]
            &&& ended ==> complete == Ok::<bool, Error>(true)
            &&& !ended && after.len() < 1024 ==> complete == Ok::<bool, Error>(false)
            &&& !ended && after.len() == 1024 ==> complete == Err::<bool, Error>(
                Error::InvalidHandshake,
            )
        }),
{
    let after = request.push(byte);
    let length = after.len() as int;
    assert(after =~= request + seq![byte]);
    if length >= 4 {
        let end = after.skip(length - 4);
        assert(end.len() == 4);
        assert(end[0] == after[length - 4] && end[1] == after[length - 3] && end[2] == after[length
            - 2] && end[3] == after[length - 1]);
        if end[0] == 13 && end[1] == 10 && end[2] == 13 && end[3] == 10 {
            assert(end =~= seq![13u8, 10u8, 13u8, 10u8]);
        }
    }
}

/// The response switches protocols and carries the answer to the key as the last of its headers.
pub proof fn responses_switch_protocols(key: Seq<char>)
    ensures
        response_text(key) == text_of_lines(
            seq![
                "HTTP/1.1 101 Switching Protocols"@,
                "Upgrade: websocket"@,
                "Connection: Upgrade"@,
                "Sec-WebSocket-Accept: "@ + accept_text(key),
                Seq::empty(),
            ],
        ),
{
    let none = Seq::<char>::empty();
    let answer = "Sec-WebSocket-Accept: "@ + accept_text(key);
    let first = "HTTP/1.1 101 Switching Protocols"@;
    let second = "Upgrade: websocket"@;
    let third = "Connection: Upgrade"@;
    let end = seq!['\r', '\n'];
    lines_are_added(none, Seq::empty());
    lines_are_added(answer, seq![none]);
    lines_are_added(third, seq![answer, none]);
    lines_are_added(second, seq![third, answer, none]);
    lines_are_added(first, seq![second, third, answer, none]);
    assert(seq![none] + Seq::<Seq<char>>::empty() =~= seq![none]);
    assert(seq![answer] + seq![none] =~= seq![answer, none]);
    assert(seq![third] + seq![answer, none] =~= seq![third, answer, none]);
    assert(seq![second] + seq![third, answer, none] =~= seq![second, third, answer, none]);
    assert(seq![first] + seq![second, third, answer, none] =~= seq![
        first,
        second,
        third,
        answer,
        none,
    ]);
    assert(text_of_lines(Seq::empty()) =~= none);
    response_parts();
    assert(response_text(key) =~= first + end + (second + end + (third + end + (answer + end + (none
        + end + none)))));
}

proof fn lines_are_added(line: Seq<char>, rest: Seq<Seq<char>>)
    ensures
        text_of_lines(seq![line] + rest) == line + seq!['\r', '\n'] + text_of_lines(rest),
{
    assert((seq![line] + rest).drop_first() =~= rest);
}

proof fn response_parts()
    ensures
        RESPONSE_PREFIX@ == "HTTP/1.1 101 Switching Protocols"@ + seq!['\r', '\n']
            + "Upgrade: websocket"@ + seq!['\r', '\n'] + "Connection: Upgrade"@ + seq!['\r', '\n']
            + "Sec-WebSocket-Accept: "@,
        RESPONSE_SUFFIX@ == seq!['\r', '\n', '\r', '\n'],
{
    reveal_strlit("HTTP/1.1 101 Switching Protocols");
    reveal_strlit("Upgrade: websocket");
    reveal_strlit("Connection: Upgrade");
    reveal_strlit("Sec-WebSocket-Accept: ");
    reveal_strlit("HTTP/1.1 101 Switching Protocols\r\nUpgrade: websocket\r\nConnection: Upgrade\r\nSec-WebSocket-Accept: ");
    reveal_strlit("\r\n\r\n");
    assert(RESPONSE_PREFIX@ =~= "HTTP/1.1 101 Switching Protocols"@ + seq!['\r', '\n']
        + "Upgrade: websocket"@ + seq!['\r', '\n'] + "Connection: Upgrade"@ + seq!['\r', '\n']
        + "Sec-WebSocket-Accept: "@);
}

/// A length that fits seven bits may be given in two bytes all the same.
pub proof fn lengths_may_take_two_bytes(
    opcode: u8,
    high: u8,
    low: u8,
    rest: Seq<u8>,
    capacity: nat,
)
    requires
        opcode < 16,
        256 * high + low <= capacity,
    ensures
        ({
            let start = seq![(128 + opcode) as u8, 254u8, high, low];
            let length = (256 * high + low) as u16;
            let after = read_stream(FrameReader::Mask { opcode, length }, rest, capacity);
            read_stream(FrameReader::Header, start + rest, capacity) == (after.0, 4 + after.1)
        }),
{
    let first = (128 + opcode) as u8;
    let length = (256 * high + low) as u16;
    let part = seq![first, 254u8];
    let bytes = seq![high, low];
    assert(first & 0x70 == 0 && first & 0x80 != 0 && first & 0x0f == opcode) by (bit_vector)
        requires
            opcode < 16,
            first == 128 + opcode,
    ;
    assert(254u8 & 0x80 != 0 && 254u8 & 0x7f == 126) by (bit_vector);
    crate::wire::bytes_are_digits_to_the_base_256(0, 0, low, high, 0, 0);
    reading_goes_on(
        FrameReader::Header,
        part,
        bytes + rest,
        FrameReader::Length { opcode },
        capacity,
    );
    reading_goes_on(
        FrameReader::Length { opcode },
        bytes,
        rest,
        FrameReader::Mask { opcode, length },
        capacity,
    );
    assert(seq![first, 254u8, high, low] + rest =~= part + (bytes + rest));
}

proof fn texts_consist_of_lines(text: Seq<char>) -> (lines: Seq<Seq<char>>)
    requires
        text.len() >= 2,
        text[text.len() - 2] == '\r',
        text[text.len() - 1] == '\n',
    ensures
        lines.len() > 0,
        forall|i: int| 0 <= i < lines.len() ==> is_line(#[trigger] lines[i]),
        text_of_lines(lines) == text,
    decreases text.len(),
{
    let end = first_break(text) as int;
    breaks_end_lines(text);
    let line = text.take(end);
    let rest = text.skip(end + 2);
    let none = Seq::<Seq<char>>::empty();
    assert(text_of_lines(none) =~= Seq::<char>::empty());
    if rest.len() == 0 {
        lines_are_added(line, none);
        assert(seq![line] + none =~= seq![line]);
        assert(text =~= line + seq!['\r', '\n'] + text_of_lines(none));
        seq![line]
    } else {
        assert(rest.len() >= 2) by {
            if rest.len() == 1 {
                assert(text[text.len() - 2] == text[end + 1]);
            }
        }
        let more = texts_consist_of_lines(rest);
        lines_are_added(line, more);
        assert(text =~= line + seq!['\r', '\n'] + rest);
        let lines = seq![line] + more;
        assert forall|i: int| 0 <= i < lines.len() implies is_line(#[trigger] lines[i]) by {
            if i > 0 {
                assert(lines[i] == more[i - 1]);
            }
        }
        lines
    }
}

proof fn breaks_end_lines(text: Seq<char>)
    requires
        text.len() >= 2,
        text[text.len() - 2] == '\r',
        text[text.len() - 1] == '\n',
    ensures
        first_break(text) + 2 <= text.len(),
        text[first_break(text) as int] == '\r',
        text[first_break(text) as int + 1] == '\n',
        is_line(text.take(first_break(text) as int)),
    decreases text.len(),
{
    let end = first_break(text) as int;
    if !(text[0] == '\r' && text[1] == '\n') {
        let rest = text.drop_first();
        assert(text.len() > 2);
        breaks_end_lines(rest);
        let shorter = rest.take(end - 1);
        let line = text.take(end);
        assert forall|i: int| 0 <= i < line.len() - 1 && #[trigger] line[i] == '\r' implies line[i
            + 1] != '\n' by {
            if i > 0 {
                assert(shorter[i - 1] == line[i]);
                assert(shorter[i] == line[i + 1]);
            }
        }
    }
}

/// Every request that ends in an empty line consists of a first line and headers, so what holds of
/// those holds of every request that is read.
pub proof fn requests_consist_of_lines(text: Seq<char>) -> (parts: (Seq<char>, Seq<Seq<char>>))
    requires
        text.len() >= 4,
        text.skip(text.len() - 4) == seq!['\r', '\n', '\r', '\n'],
    ensures
        is_line(parts.0),
        forall|i: int| 0 <= i < parts.1.len() ==> is_line(#[trigger] parts.1[i]),
        text == request_text(parts.0, parts.1),
{
    let tail = text.skip(text.len() - 4);
    let start = text.take(text.len() - 2);
    assert(tail[0] == text[text.len() - 4] && tail[1] == text[text.len() - 3] && tail[2]
        == text[text.len() - 2] && tail[3] == text[text.len() - 1]);
    let lines = texts_consist_of_lines(start);
    let empty = Seq::<char>::empty();
    let first = lines[0];
    let headers = lines.drop_first();
    assert forall|i: int| 0 <= i < headers.len() implies is_line(#[trigger] headers[i]) by {
        assert(headers[i] == lines[i + 1]);
    }
    lines_end_with_breaks(lines, empty);
    assert(seq![first] + headers + seq![empty] =~= lines.push(empty));
    assert(text =~= start + seq!['\r', '\n']);
    (first, headers)
}

proof fn lines_end_with_breaks(lines: Seq<Seq<char>>, line: Seq<char>)
    ensures
        text_of_lines(lines.push(line)) == text_of_lines(lines) + line + seq!['\r', '\n'],
    decreases lines.len(),
{
    let all = lines.push(line);
    if lines.len() == 0 {
        assert(lines =~= Seq::<Seq<char>>::empty());
        assert(all =~= seq![line] + lines);
        lines_are_added(line, lines);
        assert(text_of_lines(lines) =~= Seq::<char>::empty());
        assert(text_of_lines(all) =~= text_of_lines(lines) + line + seq!['\r', '\n']);
    } else {
        let rest = lines.drop_first();
        lines_end_with_breaks(rest, line);
        assert(all.drop_first() =~= rest.push(line));
        assert(text_of_lines(all) =~= text_of_lines(lines) + line + seq!['\r', '\n']);
    }
}

} // verus!
