//! The client side of the control plane: the request that goes over the
//! socket, and the reading of the answer that comes back.

use vstd::prelude::*;
use vstd::slice::slice_subrange;
use vstd::utf8::decode_utf8;
use vstd::utf8::valid_utf8;
use crate::text::lemma_text_of_bytes;
use crate::text::lowercase;
use crate::text::parse_i32;
use crate::text::parsed_i32;
use crate::text::same_text;
use crate::text::to_lowercase;
use crate::text::utf8_text;

verus! {

/// Where to send a request: the path of the socket, and the path of the
/// resource that is asked for.
#[derive(Debug, Clone)]
pub struct UdsClientOptions {
    pub uds_sock_path: String,
    pub url_path: String,
}

/// An answer of the control plane.
#[derive(Debug, Clone, PartialEq, Eq)]
pub struct Response {
    pub status: u16,
    pub content_type: String,
    pub content_length: usize,
    pub body: String,
    pub date: String,
}

/// The mathematical content of a [`Response`].
pub struct ResponseView {
    pub status: u16,
    pub content_type: Seq<char>,
    pub content_length: usize,
    pub body: Seq<char>,
    pub date: Seq<char>,
}

impl View for Response {
    type V = ResponseView;

    open spec fn view(&self) -> ResponseView {
        ResponseView {
            status: self.status,
            content_type: self.content_type@,
            content_length: self.content_length,
            body: self.body@,
            date: self.date@,
        }
    }
}

/// Why an answer could not be read.
#[derive(Debug, Clone, PartialEq, Eq)]
pub enum ClientError {
    /// The bytes that came back are not UTF-8.
    NotUtf8,
    /// The bytes are no HTTP response head; `detail` is the parser's word
    /// for what is wrong with them.
    Malformed { detail: String },
    /// The status is not 200.
    Status { code: Option<u16> },
    /// The head of the response is not complete.
    Incomplete,
    /// The value of a header is not UTF-8.
    HeaderNotUtf8,
    /// The content length is no 32-bit integer.
    BadContentLength,
    /// The body does not start inside the bytes, or is not UTF-8.
    BadBody,
}

/// The mathematical content of a [`ClientError`].
pub enum ClientFailure {
    NotUtf8,
    Malformed { detail: Seq<char> },
    Status { code: Option<u16> },
    Incomplete,
    HeaderNotUtf8,
    BadContentLength,
    BadBody,
}

impl View for ClientError {
    type V = ClientFailure;

    open spec fn view(&self) -> ClientFailure {
        match *self {
            ClientError::NotUtf8 => ClientFailure::NotUtf8,
            ClientError::Malformed { detail } => ClientFailure::Malformed { detail: detail@ },
            ClientError::Status { code } => ClientFailure::Status { code },
            ClientError::Incomplete => ClientFailure::Incomplete,
            ClientError::HeaderNotUtf8 => ClientFailure::HeaderNotUtf8,
            ClientError::BadContentLength => ClientFailure::BadContentLength,
            ClientError::BadBody => ClientFailure::BadBody,
        }
    }
}

/// The most headers that an answer may have.
pub const MAX_HEADERS: usize = 16;

/// The text of a `GET` request for `url_path`.
pub open spec fn request_text(url_path: Seq<char>) -> Seq<char> {
    "GET "@ + url_path
        + " HTTP/1.1\r\nHost: localhost\r\nUser-Agent: client/0.0.1\r\nAccept: */*\r\n\r\n"@
}

/// The request that is written to the socket: a `GET` for the path of the
/// options, with the fixed headers of this client.
pub fn request_message(opts: &UdsClientOptions) -> (message: String)
    ensures
        message@ == request_text(opts.url_path@),
{
    let mut message = String::from_str("GET ");
    message.append(opts.url_path.as_str());
    message.append(" HTTP/1.1\r\nHost: localhost\r\nUser-Agent: client/0.0.1\r\nAccept: */*\r\n\r\n");
    message
}

/// Whether the answer has been read to its end: a read that brought
/// nothing, or one that left room in the buffer, was the last.
pub fn read_complete(read: usize, filled: usize, capacity: usize) -> (done: bool)
    ensures
        done == (read == 0 || filled < capacity),
{
    read == 0 || filled < capacity
}

/// One header of a response: its name and the bytes of its value.
#[derive(Debug, Clone, PartialEq, Eq)]
pub struct HeaderField {
    pub name: String,
    pub value: Vec<u8>,
}

/// The mathematical content of a [`HeaderField`].
pub struct HeaderView {
    pub name: Seq<char>,
    pub value: Seq<u8>,
}

impl View for HeaderField {
    type V = HeaderView;

    open spec fn view(&self) -> HeaderView {
        HeaderView { name: self.name@, value: self.value@ }
    }
}

/// The head of a response as the HTTP parser hands it out: the status
/// code, where it got that far; the offset at which the body starts, where
/// the head is complete; and the headers.
#[derive(Debug, Clone, PartialEq, Eq)]
pub struct ResponseHead {
    pub code: Option<u16>,
    pub body_offset: Option<usize>,
    pub headers: Vec<HeaderField>,
}

/// The mathematical content of a [`ResponseHead`].
pub struct HeadView {
    pub code: Option<u16>,
    pub body_offset: Option<usize>,
    pub headers: Seq<HeaderView>,
}

/// The contents of a list of headers, in order.
pub open spec fn header_views(headers: Seq<HeaderField>) -> Seq<HeaderView> {
    headers.map_values(|h: HeaderField| h@)
}

impl View for ResponseHead {
    type V = HeadView;

    open spec fn view(&self) -> HeadView {
        HeadView {
            code: self.code,
            body_offset: self.body_offset,
            headers: header_views(self.headers@),
        }
    }
}

/// What the headers read so far say about the content.
#[derive(Debug, Clone, PartialEq, Eq)]
pub struct ContentFields {
    pub content_length: usize,
    pub content_type: String,
    pub date: String,
}

/// The mathematical content of [`ContentFields`].
pub struct Fields {
    pub content_length: usize,
    pub content_type: Seq<char>,
    pub date: Seq<char>,
}

impl View for ContentFields {
    type V = Fields;

    open spec fn view(&self) -> Fields {
        Fields {
            content_length: self.content_length,
            content_type: self.content_type@,
            date: self.date@,
        }
    }
}

/// What is known of the content before any header is read.
pub open spec fn no_fields() -> Fields {
    Fields { content_length: 0, content_type: Seq::empty(), date: Seq::empty() }
}

impl ContentFields {
    /// What is known of the content before any header is read: length 0,
    /// no type, no date.
    pub fn new() -> (fields: ContentFields)
        ensures
            fields@ == no_fields(),
    {
        ContentFields { content_length: 0, content_type: String::new(), date: String::new() }
    }
}

/// What one more header adds, given its name in lower case and the bytes
/// of its value. The value of every header must be UTF-8. The header
/// `content-length` must hold a 32-bit integer, which is taken as an
/// unsigned number of the machine's width, so that a negative one wraps
/// around; `content-type` and `date` are kept as they are; and a header of
/// any other name is passed over.
pub open spec fn taken_named(f: Fields, name: Seq<char>, value: Seq<u8>) -> Result<
    Fields,
    ClientFailure,
> {
    if !valid_utf8(value) {
        Err(ClientFailure::HeaderNotUtf8)
    } else if name == "content-length"@ {
        match parsed_i32(decode_utf8(value)) {
            Some(n) => Ok(Fields { content_length: n as usize, ..f }),
            None => Err(ClientFailure::BadContentLength),
        }
    } else if name == "content-type"@ {
        Ok(Fields { content_type: decode_utf8(value), ..f })
    } else if name == "date"@ {
        Ok(Fields { date: decode_utf8(value), ..f })
    } else {
        Ok(f)
    }
}

/// What one more header adds: its name counts in lower case.
pub open spec fn taken(f: Fields, h: HeaderView) -> Result<Fields, ClientFailure> {
    taken_named(f, lowercase(h.name), h.value)
}

/// Whether a result is what the model says.
pub open spec fn same_fields(
    got: Result<ContentFields, ClientError>,
    want: Result<Fields, ClientFailure>,
) -> bool {
    match got {
        Ok(f) => want == Ok::<Fields, ClientFailure>(f@),
        Err(e) => want == Err::<Fields, ClientFailure>(e@),
    }
}

/// Takes one more header into the fields, given its name in lower case and
/// the bytes of its value.
pub fn take_header(fields: ContentFields, name: &str, value: &[u8]) -> (r: Result<
    ContentFields,
    ClientError,
>)
    ensures
        same_fields(r, taken_named(fields@, name@, value@)),
{
    let text = match utf8_text(value) {
        Some(text) => text,
        None => {
            return Err(ClientError::HeaderNotUtf8);
        },
    };
    proof {
        lemma_text_of_bytes(text@, value@);
    }
    let mut fields = fields;
    if same_text(name, "content-length") {
        match parse_i32(text) {
            Some(n) => {
                fields.content_length = #[verifier::truncate]
                (n as usize);
            },
            None => {
                return Err(ClientError::BadContentLength);
            },
        }
    } else if same_text(name, "content-type") {
        fields.content_type = String::from_str(text);
    } else if same_text(name, "date") {
        fields.date = String::from_str(text);
    }
    Ok(fields)
}

/// What a list of headers says, read in order: of two headers with one
/// name the later counts, and the first header that cannot be read fails
/// the whole.
pub open spec fn taken_all(f: Fields, headers: Seq<HeaderView>) -> Result<Fields, ClientFailure>
    decreases headers.len(),
{
    if headers.len() == 0 {
        Ok(f)
    } else {
        match taken_all(f, headers.drop_last()) {
            Ok(g) => taken(g, headers.last()),
            Err(e) => Err(e),
        }
    }
}

/// The response that a parsed head and the bytes it was parsed from make.
/// The status must be 200 and the head complete; the headers are read; the
/// body is the text from the end of the head to the end of the bytes.
pub open spec fn response_of(head: HeadView, buf: Seq<u8>) -> Result<ResponseView, ClientFailure> {
    if head.code != Some(200u16) {
        Err(ClientFailure::Status { code: head.code })
    } else {
        match head.body_offset {
            None => Err(ClientFailure::Incomplete),
            Some(offset) => match taken_all(no_fields(), head.headers) {
                Err(e) => Err(e),
                Ok(f) => if offset > buf.len() || !valid_utf8(buf.skip(offset as int)) {
                    Err(ClientFailure::BadBody)
                } else {
                    Ok(
                        ResponseView {
                            status: 200,
                            content_type: f.content_type,
                            content_length: f.content_length,
                            body: decode_utf8(buf.skip(offset as int)),
                            date: f.date,
                        },
                    )
                },
            },
        }
    }
}

/// Whether a result is what the model says.
pub open spec fn same_response(
    got: Result<Response, ClientError>,
    want: Result<ResponseView, ClientFailure>,
) -> bool {
    match got {
        Ok(r) => want == Ok::<ResponseView, ClientFailure>(r@),
        Err(e) => want == Err::<ResponseView, ClientFailure>(e@),
    }
}

/// Builds the response from a parsed head and the bytes it was parsed from.
pub fn response_from_head(head: &ResponseHead, buf: &[u8]) -> (r: Result<Response, ClientError>)
    ensures
        same_response(r, response_of(head@, buf@)),
{
    if head.code != Some(200u16) {
        return Err(ClientError::Status { code: head.code });
    }
    let offset = match head.body_offset {
        Some(offset) => offset,
        None => {
            return Err(ClientError::Incomplete);
        },
    };
    let mut fields = ContentFields::new();
    let ghost all = head@.headers;
    let mut i: usize = 0;
    while i < head.headers.len()
        invariant
            i <= head.headers@.len(),
            head.code == Some(200u16),
            head.body_offset == Some(offset),
            all == header_views(head.headers@),
            taken_all(no_fields(), all.take(i as int)) == Ok::<Fields, ClientFailure>(fields@),
        decreases head.headers@.len() - i,
    {
        let header = &head.headers[i];
        proof {
            assert(all.take(i + 1).drop_last() =~= all.take(i as int));
            assert(all.take(i + 1).last() == header@);
        }
        let name = to_lowercase(header.name.as_str());
        fields = match take_header(fields, name.as_str(), header.value.as_slice()) {
            Ok(fields) => fields,
            Err(e) => {
                proof {
                    lemma_first_failure(no_fields(), all, i as int);
                }
                return Err(e);
            },
        };
        i += 1;
    }
    assert(all.take(i as int) =~= all);
    if offset > buf.len() {
        return Err(ClientError::BadBody);
    }
    let tail = slice_subrange(buf, offset, buf.len());
    assert(tail@ =~= buf@.skip(offset as int));
    match utf8_text(tail) {
        Some(body) => {
            proof {
                lemma_text_of_bytes(body@, tail@);
            }
            Ok(
                Response {
                    status: 200,
                    content_type: fields.content_type,
                    content_length: fields.content_length,
                    body: String::from_str(body),
                    date: fields.date,
                },
            )
        },
        None => Err(ClientError::BadBody),
    }
}

/// Where the header at position `i` cannot be read after those before it
/// could, the whole list fails with the failure of that header.
pub proof fn lemma_first_failure(f: Fields, headers: Seq<HeaderView>, i: int)
    requires
        0 <= i < headers.len(),
        taken_all(f, headers.take(i)) is Ok,
        taken(taken_all(f, headers.take(i))->Ok_0, headers[i]) is Err,
    ensures
        taken_all(f, headers) == taken(taken_all(f, headers.take(i))->Ok_0, headers[i]),
    decreases headers.len(),
{
    if i == headers.len() - 1 {
        assert(headers.drop_last() =~= headers.take(i));
    } else {
        let init = headers.drop_last();
        assert(init.take(i) =~= headers.take(i));
        assert(init[i] == headers[i]);
        lemma_first_failure(f, init, i);
    }
}

/// What the HTTP parser makes of the bytes of a response when it has room
/// for `max_headers` headers: the head, or, where the bytes are no
/// response, the parser's word for what is wrong with them.
pub uninterp spec fn parsed_head(buf: Seq<u8>, max_headers: nat) -> Result<HeadView, Seq<char>>;

/// Calls `httparse::Response::parse` on `buf`, with room for `max_headers`
/// headers, and hands out what it found: the status code, the offset of
/// the body where the head was complete, and the headers. Where the parser
/// refuses the bytes, its error comes back as the name of its kind, which
/// is how the error prints for debugging. What comes back depends on the
/// arguments alone.
#[verifier::external_body]
fn parse_head(buf: &[u8], max_headers: usize) -> (r: Result<ResponseHead, String>)
    ensures
        match r {
            Ok(head) => parsed_head(buf@, max_headers as nat) == Ok::<HeadView, Seq<char>>(head@),
            Err(detail) => parsed_head(buf@, max_headers as nat) == Err::<HeadView, Seq<char>>(
                detail@,
            ),
        },
{
    let mut slots = vec![httparse::EMPTY_HEADER; max_headers];
    let mut response = httparse::Response::new(&mut slots);
    let status = response.parse(buf).map_err(|e| format!("{:?}", e))?;
    let body_offset = match status {
        httparse::Status::Complete(offset) => Some(offset),
        httparse::Status::Partial => None,
    };
    let headers = response.headers.iter().map(
        |h| HeaderField { name: h.name.to_string(), value: h.value.to_vec() },
    ).collect();
    Ok(ResponseHead { code: response.code, body_offset, headers })
}

/// The response that the bytes of an answer make: they must be UTF-8 and
/// parse as the head of an HTTP response with at most [`MAX_HEADERS`]
/// headers, else the failure carries the parser's word; the rest is as
/// [`response_of`] says.
pub open spec fn response_from(buf: Seq<u8>) -> Result<ResponseView, ClientFailure> {
    if !valid_utf8(buf) {
        Err(ClientFailure::NotUtf8)
    } else {
        match parsed_head(buf, MAX_HEADERS as nat) {
            Ok(head) => response_of(head, buf),
            Err(detail) => Err(ClientFailure::Malformed { detail }),
        }
    }
}

/// Reads the answer of the control plane from the bytes that came back.
pub fn parse_response(buf: &[u8]) -> (r: Result<Response, ClientError>)
    ensures
        same_response(r, response_from(buf@)),
{
    if utf8_text(buf).is_none() {
        return Err(ClientError::NotUtf8);
    }
    match parse_head(buf, MAX_HEADERS) {
        Ok(head) => response_from_head(&head, buf),
        Err(detail) => Err(ClientError::Malformed { detail }),
    }
}

/// The integer that four bytes write in big-endian two's complement.
pub open spec fn be_i32(b: Seq<u8>) -> int {
    let unsigned = b[0] * 0x100_0000 + b[1] * 0x1_0000 + b[2] * 0x100 + b[3];
    if unsigned >= 0x8000_0000 {
        unsigned - 0x1_0000_0000
    } else {
        unsigned
    }
}

/// Reads a 32-bit integer from its four bytes, the most significant first.
pub fn read_be_i32(input: &[u8]) -> (value: i32)
    requires
        input@.len() == 4,
    ensures
        value == be_i32(input@),
{
    let unsigned: i64 = (input[0] as i64) * 0x100_0000 + (input[1] as i64) * 0x1_0000 + (
    input[2] as i64) * 0x100 + (input[3] as i64);
    if unsigned >= 0x8000_0000 {
        (unsigned - 0x1_0000_0000) as i32
    } else {
        unsigned as i32
    }
}

} // verus!
