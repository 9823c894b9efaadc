//! Request and response heads, as they are put together from a header block.
use vstd::prelude::*;

use bytes::Bytes;
use http::HeaderMap;

use crate::h2::chunk::{chunk_bytes, chunk_slice, copy_chunk};
use crate::headers::{
    append_header, appended, header_values, is_name, is_name_byte, is_value, name_text,
    new_headers, no_headers, ROOM_FOR_NAMES,
};
use crate::text::utf8;

verus! {

/// What a header adds to the size of its block, beside its name and value.
pub const FIELD_OVERHEAD: usize = 32;

/// Whether two slices hold the same bytes.
pub fn same_bytes(a: &[u8], b: &[u8]) -> (r: bool)
    ensures
        r == (a@ == b@),
{
    if a.len() != b.len() {
        return false;
    }
    let mut i: usize = 0;
    while i < a.len()
        invariant
            i <= a.len(),
            a.len() == b.len(),
            forall|j: int| 0 <= j < i ==> a@[j] == b@[j],
        decreases a.len() - i,
    {
        if a[i] != b[i] {
            return false;
        }
        i = i + 1;
    }
    assert(a@ =~= b@);
    true
}

/// The number that decimal digits write.
pub open spec fn number(digits: Seq<u8>) -> nat
    decreases digits.len(),
{
    if digits.len() == 0 {
        0
    } else {
        number(digits.drop_last()) * 10 + (digits.last() - 0x30) as nat
    }
}

/// Only decimal digits.
pub open spec fn all_digits(digits: Seq<u8>) -> bool {
    forall|i: int| 0 <= i < digits.len() ==> 0x30 <= #[trigger] digits[i] <= 0x39
}

/// The digits of a number: behind a plus sign, where there is one.
pub open spec fn unsigned_digits(text: Seq<u8>) -> Seq<u8> {
    if text.len() > 0 && text[0] == 0x2b {
        text.skip(1)
    } else {
        text
    }
}

/// The status that `text` writes, if it writes a number of 16 bits.
pub open spec fn status_of(text: Seq<u8>) -> Option<u16> {
    let digits = unsigned_digits(text);
    if digits.len() > 0 && all_digits(digits) && number(digits) <= u16::MAX {
        Some(number(digits) as u16)
    } else {
        None
    }
}

proof fn number_grows(digits: Seq<u8>, i: int)
    requires
        all_digits(digits),
        0 <= i <= digits.len(),
    ensures
        number(digits.take(i)) <= number(digits),
    decreases digits.len(),
{
    if i == digits.len() {
        assert(digits.take(i) =~= digits);
    } else {
        assert(digits.drop_last().take(i) =~= digits.take(i));
        number_grows(digits.drop_last(), i);
    }
}

/// Read a status.
pub fn parse_status(text: &[u8]) -> (r: Option<u16>)
    ensures
        r == status_of(text@),
{
    let from: usize = if text.len() > 0 && text[0] == 0x2b {
        1
    } else {
        0
    };
    let ghost digits = unsigned_digits(text@);
    assert(digits =~= text@.skip(from as int));
    if from == text.len() {
        return None;
    }
    let mut value: u32 = 0;
    let mut i: usize = from;
    assert(digits.take(0) =~= Seq::<u8>::empty());
    while i < text.len()
        invariant
            from <= i <= text.len(),
            digits == text@.skip(from as int),
            digits == unsigned_digits(text@),
            all_digits(digits.take(i - from)),
            value == number(digits.take(i - from)),
            value <= u16::MAX,
        decreases text.len() - i,
    {
        let b: u8 = text[i];
        assert(digits[i - from] == b);
        assert(digits.take(i + 1 - from).drop_last() =~= digits.take(i - from));
        if b < 0x30 || b > 0x39 {
            return None;
        }
        value = value * 10 + (b - 0x30) as u32;
        assert(all_digits(digits.take(i + 1 - from))) by {
            assert forall|k: int| 0 <= k < i + 1 - from implies 0x30
                <= #[trigger] digits.take(i + 1 - from)[k] <= 0x39 by {
                if k < i - from {
                    assert(digits.take(i - from)[k] == digits.take(i + 1 - from)[k]);
                }
            }
        }
        if value > u16::MAX as u32 {
            proof {
                if all_digits(digits) {
                    number_grows(digits, i + 1 - from);
                }
            }
            return None;
        }
        i = i + 1;
    }
    assert(digits.take(i - from) =~= digits);
    Some(value as u16)
}

/// Accumulates a header block as it comes in.
#[derive(Debug)]
pub struct HeaderBuilder {
    pub method: Option<Bytes>,
    pub path: Option<Bytes>,
    pub authority: Option<Bytes>,
    pub scheme: Option<Bytes>,
    pub status: Option<u16>,
    pub headers: HeaderMap,
    /// The size of the block so far, as the protocol counts it.
    pub header_list_size: usize,
}

/// The head of a request.
#[derive(Debug)]
pub struct RequestHead {
    pub method: String,
    pub uri: String,
    pub headers: HeaderMap,
}

/// The head of a response.
#[derive(Debug)]
pub struct ResponseHead {
    pub status: u16,
    pub headers: HeaderMap,
}

/// The method that the bytes write.
pub open spec fn method_of(bytes: Seq<u8>) -> Option<Seq<char>> {
    if bytes.len() > 0 && forall|i: int| 0 <= i < bytes.len() ==> is_name_byte(#[trigger] bytes[i]) {
        Some(bytes.map_values(|b: u8| b as char))
    } else {
        None
    }
}

/// `http::Method::from_bytes`: the bytes as a method, which are letters,
/// digits and the marks that a token may hold, and at least one of them.
#[verifier::external_body]
fn read_method(bytes: &[u8]) -> (r: Option<String>)
    ensures
        r is Some <==> method_of(bytes@) is Some,
        r matches Some(method) ==> method@ == method_of(bytes@)->0,
{
    http::Method::from_bytes(bytes).ok().map(|m| m.as_str().to_owned())
}

/// The URI, as text, that `http::uri::Builder` makes of a scheme, an authority
/// and a path with a query, or none where it refuses one of them or the three
/// together.
pub uninterp spec fn uri_of(
    scheme: Option<Seq<u8>>,
    authority: Option<Seq<u8>>,
    path: Seq<u8>,
) -> Option<Seq<char>>;

/// The view of optional bytes.
pub open spec fn optional(bytes: Option<&[u8]>) -> Option<Seq<u8>> {
    match bytes {
        Some(b) => Some(b@),
        None => None,
    }
}

/// `http::uri::Builder::build`, of the parts that are there: the URI's text.
#[verifier::external_body]
pub(crate) fn build_uri(scheme: Option<&[u8]>, authority: Option<&[u8]>, path: &[u8]) -> (r: Option<
    String,
>)
    ensures
        r is Some <==> uri_of(optional(scheme), optional(authority), path@) is Some,
        r matches Some(uri) ==> uri@ == uri_of(optional(scheme), optional(authority), path@)->0,
{
    let mut uri = http::uri::Builder::new();
    if let Some(scheme) = scheme {
        uri = uri.scheme(http::uri::Scheme::try_from(scheme).ok()?);
    }
    if let Some(authority) = authority {
        uri = uri.authority(authority);
    }
    uri.path_and_query(path).build().ok().map(|uri| uri.to_string())
}

/// Which pseudo-header a name is.
#[derive(Clone, Copy, Debug, PartialEq, Eq, Structural)]
pub enum Pseudo {
    Method,
    Path,
    Authority,
    Scheme,
    Status,
    /// A name that begins with a colon and is none of them.
    Unknown,
    /// Not a pseudo-header.
    Regular,
}

pub open spec fn pseudo_of(name: Seq<u8>) -> Pseudo {
    if name.len() == 0 || name[0] != 0x3a {
        Pseudo::Regular
    } else if name == utf8(":method"@) {
        Pseudo::Method
    } else if name == utf8(":path"@) {
        Pseudo::Path
    } else if name == utf8(":authority"@) {
        Pseudo::Authority
    } else if name == utf8(":scheme"@) {
        Pseudo::Scheme
    } else if name == utf8(":status"@) {
        Pseudo::Status
    } else {
        Pseudo::Unknown
    }
}

fn pseudo(name: &[u8]) -> (r: Pseudo)
    ensures
        r == pseudo_of(name@),
{
    if name.len() == 0 || name[0] != 0x3a {
        Pseudo::Regular
    } else if same_bytes(name, ":method".as_bytes()) {
        Pseudo::Method
    } else if same_bytes(name, ":path".as_bytes()) {
        Pseudo::Path
    } else if same_bytes(name, ":authority".as_bytes()) {
        Pseudo::Authority
    } else if same_bytes(name, ":scheme".as_bytes()) {
        Pseudo::Scheme
    } else if same_bytes(name, ":status".as_bytes()) {
        Pseudo::Status
    } else {
        Pseudo::Unknown
    }
}

/// What one header makes of a block: a pseudo-header takes the place of one
/// that came before, a regular header is added to those of its name, and the
/// block fails on an unknown pseudo-header or on bytes that are no header.
pub open spec fn header_pushed(
    before: HeaderBuilder,
    after: HeaderBuilder,
    name: Seq<u8>,
    value: Seq<u8>,
    ok: bool,
) -> bool {
    let pseudo = pseudo_of(name);
    &&& after.header_list_size == before.size_with(name, value)
    &&& optional_chunk(after.method) == if pseudo == Pseudo::Method {
        Some(value)
    } else {
        optional_chunk(before.method)
    }
    &&& optional_chunk(after.path) == if pseudo == Pseudo::Path {
        Some(value)
    } else {
        optional_chunk(before.path)
    }
    &&& optional_chunk(after.authority) == if pseudo == Pseudo::Authority {
        Some(value)
    } else {
        optional_chunk(before.authority)
    }
    &&& optional_chunk(after.scheme) == if pseudo == Pseudo::Scheme {
        Some(value)
    } else {
        optional_chunk(before.scheme)
    }
    &&& after.status == if pseudo == Pseudo::Status {
        status_of(value)
    } else {
        before.status
    }
    &&& match pseudo {
        Pseudo::Regular => {
            &&& ok ==> is_name(name) && is_value(value) && header_values(after.headers) == appended(
                header_values(before.headers),
                name_text(name),
                value,
            )
            &&& !ok ==> header_values(after.headers) == header_values(before.headers)
            &&& is_name(name) && is_value(value) && header_values(before.headers).dom().len()
                <= ROOM_FOR_NAMES ==> ok
        },
        Pseudo::Unknown => !ok && after.headers == before.headers,
        _ => ok && after.headers == before.headers,
    }
}

/// The bytes of an optional chunk.
pub open spec fn optional_chunk(chunk: Option<Bytes>) -> Option<Seq<u8>> {
    match chunk {
        Some(chunk) => Some(chunk_bytes(chunk)),
        None => None,
    }
}

fn as_optional(chunk: &Option<Bytes>) -> (r: Option<&[u8]>)
    ensures
        optional(r) == optional_chunk(*chunk),
{
    match chunk {
        Some(chunk) => Some(chunk_slice(chunk)),
        None => None,
    }
}

impl HeaderBuilder {
    pub fn new() -> (r: Self)
        ensures
            r.method is None && r.path is None && r.authority is None && r.scheme is None,
            r.status is None,
            header_values(r.headers) == no_headers(),
            r.header_list_size == 0,
    {
        HeaderBuilder {
            method: None,
            path: None,
            authority: None,
            scheme: None,
            status: None,
            headers: new_headers(),
            header_list_size: 0,
        }
    }

    /// The size of the block with one more header.
    pub open spec fn size_with(self, name: Seq<u8>, value: Seq<u8>) -> int {
        self.header_list_size + name.len() + value.len() + FIELD_OVERHEAD
    }

    /// Count a header without keeping it.
    pub fn push_count_only(&mut self, name: &[u8], value: &[u8]) -> (r: bool)
        requires
            old(self).size_with(name@, value@) <= usize::MAX,
        ensures
            r,
            *final(self) == (HeaderBuilder {
                header_list_size: old(self).size_with(name@, value@) as usize,
                ..*old(self)
            }),
    {
        self.header_list_size = self.header_list_size + name.len() + value.len() + FIELD_OVERHEAD;
        true
    }

    /// Feed one header; returns false on a hard protocol error.
    pub fn push(&mut self, name: &[u8], value: &[u8]) -> (r: bool)
        requires
            old(self).size_with(name@, value@) <= usize::MAX,
        ensures
            header_pushed(*old(self), *final(self), name@, value@, r),
    {
        self.header_list_size = self.header_list_size + name.len() + value.len() + FIELD_OVERHEAD;
        match pseudo(name) {
            Pseudo::Method => {
                self.method = Some(copy_chunk(value));
                true
            },
            Pseudo::Path => {
                self.path = Some(copy_chunk(value));
                true
            },
            Pseudo::Authority => {
                self.authority = Some(copy_chunk(value));
                true
            },
            Pseudo::Scheme => {
                self.scheme = Some(copy_chunk(value));
                true
            },
            Pseudo::Status => {
                self.status = parse_status(value);
                true
            },
            Pseudo::Unknown => false,
            Pseudo::Regular => append_header(&mut self.headers, name, value),
        }
    }

    /// The path that a request without one asks for.
    pub open spec fn spec_path(self) -> Seq<u8> {
        match self.path {
            Some(path) => chunk_bytes(path),
            None => utf8("/"@),
        }
    }

    /// The URI that the pseudo-headers make.
    pub open spec fn spec_uri(self) -> Option<Seq<char>> {
        uri_of(optional_chunk(self.scheme), optional_chunk(self.authority), self.spec_path())
    }

    /// The method and the URI of the request that the block describes.
    pub open spec fn spec_request(self) -> Option<(Seq<char>, Seq<char>)> {
        match (optional_chunk(self.method), self.spec_uri()) {
            (Some(method), Some(uri)) => match method_of(method) {
                Some(method) => Some((method, uri)),
                None => None,
            },
            _ => None,
        }
    }

    /// The request at `uri`, or none where there is no URI or the method is
    /// none.
    pub fn into_request_at(self, uri: Option<String>) -> (r: Option<RequestHead>)
        ensures
            r is Some <==> uri is Some && (optional_chunk(self.method) matches Some(m) && method_of(
                m,
            ) is Some),
            r matches Some(head) ==> head.method@ == method_of(
                optional_chunk(self.method)->0,
            )->0 && head.uri == uri->0 && head.headers == self.headers,
    {
        let method = match &self.method {
            Some(method) => match read_method(chunk_slice(method)) {
                Some(method) => method,
                None => return None,
            },
            None => return None,
        };
        match uri {
            Some(uri) => Some(RequestHead { method, uri, headers: self.headers }),
            None => None,
        }
    }

    /// The request that the block describes, or none where it is malformed.
    pub fn into_request(self) -> (r: Option<RequestHead>)
        ensures
            r is Some <==> self.spec_request() is Some,
            r matches Some(head) ==> (head.method@, head.uri@) == self.spec_request()->0
                && head.headers == self.headers,
    {
        let path: &[u8] = match &self.path {
            Some(path) => chunk_slice(path),
            None => "/".as_bytes(),
        };
        let uri = build_uri(as_optional(&self.scheme), as_optional(&self.authority), path);
        self.into_request_at(uri)
    }

    /// The response that the block describes, or none where it has no status.
    pub fn into_response(self) -> (r: Option<ResponseHead>)
        ensures
            r is Some <==> self.status is Some,
            r matches Some(head) ==> head.status == self.status->0 && head.headers == self.headers,
    {
        match self.status {
            Some(status) => Some(ResponseHead { status, headers: self.headers }),
            None => None,
        }
    }

    /// A fixed head, where the headers were only counted.
    pub fn into_request_stub() -> (r: RequestHead)
        ensures
            r.method@ == "POST"@,
            r.uri@ == "http://srv-search/search.Search/Nearby"@,
            header_values(r.headers) == no_headers(),
    {
        RequestHead {
            method: "POST".to_owned(),
            uri: "http://srv-search/search.Search/Nearby".to_owned(),
            headers: new_headers(),
        }
    }
}

/// A header whose name begins with a colon sets the part of the head that it is
/// named after, in place of what an earlier one set, and no regular header. One
/// that names no part fails the block and sets nothing.
pub proof fn a_pseudo_header_sets_its_part(name: &[u8], value: &[u8])
    requires
        name@.len() > 0,
        name@[0] == 0x3a,
    ensures
        forall|head: &mut HeaderBuilder, r: bool| #[trigger]
            call_ensures(HeaderBuilder::push, (head, name, value), r) ==> {
                let known = name@ == utf8(":method"@) || name@ == utf8(":path"@) || name@ == utf8(
                    ":authority"@,
                ) || name@ == utf8(":scheme"@) || name@ == utf8(":status"@);
                &&& r == known
                &&& final(head).headers == head.headers
                &&& name@ == utf8(":method"@) ==> final(head).method is Some && chunk_bytes(
                    final(head).method->0,
                ) == value@
                &&& name@ != utf8(":method"@) ==> optional_chunk(final(head).method)
                    == optional_chunk(head.method)
                &&& name@ == utf8(":path"@) ==> final(head).path is Some && chunk_bytes(
                    final(head).path->0,
                ) == value@
                &&& name@ != utf8(":path"@) ==> optional_chunk(final(head).path) == optional_chunk(
                    head.path,
                )
                &&& name@ == utf8(":authority"@) ==> final(head).authority is Some && chunk_bytes(
                    final(head).authority->0,
                ) == value@
                &&& name@ != utf8(":authority"@) ==> optional_chunk(final(head).authority)
                    == optional_chunk(head.authority)
                &&& name@ == utf8(":scheme"@) ==> final(head).scheme is Some && chunk_bytes(
                    final(head).scheme->0,
                ) == value@
                &&& name@ != utf8(":scheme"@) ==> optional_chunk(final(head).scheme)
                    == optional_chunk(head.scheme)
                &&& name@ != utf8(":status"@) ==> final(head).status == head.status
            },
{
    parts_have_names_of_their_own();
}

/// The names of the parts of a head differ.
pub proof fn parts_have_names_of_their_own()
    ensures
        utf8(":method"@).len() == 7 && utf8(":method"@)[1] == 0x6d,
        utf8(":path"@).len() == 5,
        utf8(":authority"@).len() == 10,
        utf8(":scheme"@).len() == 7 && utf8(":scheme"@)[1] == 0x73,
        utf8(":status"@).len() == 7 && utf8(":status"@)[1] == 0x73,
        utf8(":scheme"@)[2] == 0x63,
        utf8(":status"@)[2] == 0x74,
        utf8(":method"@)[0] == 0x3a && utf8(":path"@)[0] == 0x3a && utf8(":authority"@)[0] == 0x3a,
        utf8(":scheme"@)[0] == 0x3a && utf8(":status"@)[0] == 0x3a,
{
    reveal_strlit(":method");
    reveal_strlit(":path");
    reveal_strlit(":authority");
    reveal_strlit(":scheme");
    reveal_strlit(":status");
    crate::text::ascii_bytes(":method"@);
    crate::text::ascii_bytes(":path"@);
    crate::text::ascii_bytes(":authority"@);
    crate::text::ascii_bytes(":scheme"@);
    crate::text::ascii_bytes(":status"@);
}

/// A status is the number that its digits write, and none where the value holds
/// anything but digits, behind a plus sign where there is one, or writes a
/// number of more than 16 bits.
pub proof fn a_status_is_a_number(value: &[u8], digits: Seq<u8>)
    requires
        value@ == digits || value@ == seq![0x2bu8] + digits,
        digits.len() > 0,
        digits[0] != 0x2b,
    ensures
        forall|head: &mut HeaderBuilder, name: &[u8], r: bool| #[trigger]
            call_ensures(HeaderBuilder::push, (head, name, value), r) && name@ == utf8(":status"@)
                ==> {
                let good = number(digits) <= 65535 && forall|i: int|
                    0 <= i < digits.len() ==> 0x30 <= #[trigger] digits[i] <= 0x39;
                final(head).status == if good {
                    Some(number(digits) as u16)
                } else {
                    None
                }
            },
        forall|r: Option<u16>| #[trigger]
            call_ensures(parse_status, (value,), r) ==> {
                let good = number(digits) <= 65535 && forall|i: int|
                    0 <= i < digits.len() ==> 0x30 <= #[trigger] digits[i] <= 0x39;
                r == if good {
                    Some(number(digits) as u16)
                } else {
                    None
                }
            },
{
    parts_have_names_of_their_own();
    reveal_strlit(":status");
    crate::text::ascii_bytes(":status"@);
    assert(utf8(":status"@)[0] == 0x3a);
    if value@ != digits {
        assert(value@[0] == 0x2b);
        assert(value@.skip(1) =~= digits);
    }
    assert(unsigned_digits(value@) == digits);
    assert(all_digits(digits) <==> forall|i: int|
        0 <= i < digits.len() ==> 0x30 <= #[trigger] digits[i] <= 0x39);
    assert(status_of(value@) == if number(digits) <= 65535 && all_digits(digits) {
        Some(number(digits) as u16)
    } else {
        None
    });
}

/// A value without digits, also behind a plus sign, or behind two, is no
/// status.
pub proof fn a_status_has_digits(value: &[u8], r: Option<u16>)
    requires
        call_ensures(parse_status, (value,), r),
        value@.len() == 0 || (value@[0] == 0x2b && (value@.len() == 1 || value@[1] == 0x2b)),
    ensures
        r is None,
{
    if value@.len() > 1 {
        assert(value@.skip(1)[0] == 0x2b);
    }
}

/// The number of one more digit is ten times the number, and the digit.
pub proof fn a_digit_counts_ten_times(digits: Seq<u8>, digit: u8)
    requires
        0x30 <= digit <= 0x39,
    ensures
        number(Seq::empty()) == 0,
        number(digits.push(digit)) == number(digits) * 10 + (digit - 0x30),
{
    assert(digits.push(digit).drop_last() =~= digits);
}

/// A regular header is added behind the values that its name has, in lower
/// case, and sets no part of the head. Bytes that make no header fail the block
/// and change no header; a header is refused otherwise only where the map holds
/// thousands of names.
pub proof fn a_regular_header_is_added(name: &[u8], value: &[u8])
    requires
        name@.len() == 0 || name@[0] != 0x3a,
    ensures
        forall|head: &mut HeaderBuilder, r: bool| #[trigger]
            call_ensures(HeaderBuilder::push, (head, name, value), r) ==> {
                let before = header_values(head.headers);
                let after = header_values(final(head).headers);
                let text = name_text(name@);
                &&& r ==> is_name(name@) && is_value(value@) && after.contains_key(text)
                    && after[text] == (if before.contains_key(text) {
                    before[text].push(value@)
                } else {
                    seq![value@]
                })
                &&& forall|other: Seq<char>|
                    other != text ==> (#[trigger] after.contains_key(other)
                        <==> before.contains_key(other)) && after[other] == before[other]
                &&& !r ==> after == before
                &&& is_name(name@) && is_value(value@) && before.dom().len() <= 6553 ==> r
                &&& optional_chunk(final(head).method) == optional_chunk(head.method)
                &&& optional_chunk(final(head).path) == optional_chunk(head.path)
                &&& optional_chunk(final(head).authority) == optional_chunk(head.authority)
                &&& optional_chunk(final(head).scheme) == optional_chunk(head.scheme)
                &&& final(head).status == head.status
            },
{
    assert forall|head: &mut HeaderBuilder, r: bool| #[trigger]
        call_ensures(HeaderBuilder::push, (head, name, value), r) implies {
        let before = header_values(head.headers);
        let after = header_values(final(head).headers);
        let text = name_text(name@);
        r ==> after[text] == (if before.contains_key(text) {
            before[text].push(value@)
        } else {
            seq![value@]
        })
    } by {
        assert(Seq::<Seq<u8>>::empty().push(value@) =~= seq![value@]);
    }
}

/// Every header counts with its name, its value and 32 more, also where it is
/// only counted, and a header that is only counted is not kept.
pub proof fn every_header_counts(name: &[u8], value: &[u8])
    ensures
        forall|head: &mut HeaderBuilder, r: bool| #[trigger]
            call_ensures(HeaderBuilder::push, (head, name, value), r)
                ==> final(head).header_list_size == head.header_list_size + name@.len()
                + value@.len() + 32,
        forall|head: &mut HeaderBuilder, r: bool| #[trigger]
            call_ensures(HeaderBuilder::push_count_only, (head, name, value), r)
                && head.header_list_size + name@.len() + value@.len() + 32 <= usize::MAX ==> {
                &&& r
                &&& final(head).header_list_size == head.header_list_size + name@.len()
                    + value@.len() + 32
                &&& final(head).headers == head.headers && final(head).method == head.method
                &&& final(head).path == head.path && final(head).authority == head.authority
                &&& final(head).scheme == head.scheme && final(head).status == head.status
            },
{
}

/// A block makes a request exactly where it has a method that is one and its
/// scheme, authority and path make a URI; the path is `/` where none came. It
/// makes a response exactly where it has a status. The headers go along.
pub proof fn a_block_makes_its_head(block: HeaderBuilder)
    ensures
        forall|r: Option<RequestHead>| #[trigger]
            call_ensures(HeaderBuilder::into_request, (block,), r) ==> {
                let path = match block.path {
                    Some(path) => chunk_bytes(path),
                    None => utf8("/"@),
                };
                let scheme = match block.scheme {
                    Some(scheme) => Some(chunk_bytes(scheme)),
                    None => None,
                };
                let authority = match block.authority {
                    Some(authority) => Some(chunk_bytes(authority)),
                    None => None,
                };
                let uri = uri_of(scheme, authority, path);
                &&& r is Some <==> block.method is Some && method_of(chunk_bytes(block.method->0))
                    is Some && uri is Some
                &&& r is Some ==> r->0.method@ == method_of(chunk_bytes(block.method->0))->0
                    && r->0.uri@ == uri->0 && r->0.headers == block.headers
            },
        forall|uri: Option<String>, r: Option<RequestHead>| #[trigger]
            call_ensures(HeaderBuilder::into_request_at, (block, uri), r) ==> {
                &&& r is Some <==> block.method is Some && method_of(chunk_bytes(block.method->0))
                    is Some && uri is Some
                &&& r is Some ==> r->0.method@ == method_of(chunk_bytes(block.method->0))->0
                    && r->0.uri@ == uri->0@ && r->0.headers == block.headers
            },
        forall|r: Option<ResponseHead>| #[trigger]
            call_ensures(HeaderBuilder::into_response, (block,), r) ==> {
                &&& r is Some <==> block.status is Some
                &&& r is Some ==> r->0.status == block.status->0 && r->0.headers == block.headers
            },
{
}

/// A method is one or more characters, each a letter, a digit or one of
/// `` !#$%&'*+-.^_`|~ ``, as they are.
pub proof fn a_method_is_a_token(bytes: Seq<u8>)
    ensures
        method_of(bytes) is Some <==> bytes.len() > 0 && forall|i: int|
            0 <= i < bytes.len() ==> {
                let b = #[trigger] bytes[i];
                ||| 0x61 <= b <= 0x7a
                ||| 0x41 <= b <= 0x5a
                ||| 0x30 <= b <= 0x39
                ||| b == 0x21 || b == 0x23 || b == 0x24 || b == 0x25 || b == 0x26 || b == 0x27
                ||| b == 0x2a || b == 0x2b || b == 0x2d || b == 0x2e || b == 0x5e || b == 0x5f
                ||| b == 0x60 || b == 0x7c || b == 0x7e
            },
        method_of(bytes) is Some ==> method_of(bytes)->0.len() == bytes.len() && forall|i: int|
            0 <= i < bytes.len() ==> #[trigger] method_of(bytes)->0[i] == bytes[i] as char,
{
    let open = |b: u8|
        {
            ||| 0x61 <= b <= 0x7a
            ||| 0x41 <= b <= 0x5a
            ||| 0x30 <= b <= 0x39
            ||| b == 0x21 || b == 0x23 || b == 0x24 || b == 0x25 || b == 0x26 || b == 0x27
            ||| b == 0x2a || b == 0x2b || b == 0x2d || b == 0x2e || b == 0x5e || b == 0x5f
            ||| b == 0x60 || b == 0x7c || b == 0x7e
        };
    assert forall|b: u8| is_name_byte(b) == #[trigger] open(b) by {}
    if bytes.len() > 0 && (forall|i: int| 0 <= i < bytes.len() ==> open(#[trigger] bytes[i])) {
        assert forall|i: int| 0 <= i < bytes.len() implies is_name_byte(#[trigger] bytes[i]) by {
            assert(open(bytes[i]));
        }
    }
    if method_of(bytes) is Some {
        assert forall|i: int| 0 <= i < bytes.len() implies open(#[trigger] bytes[i]) by {
            assert(is_name_byte(bytes[i]));
        }
    }
}

/// A new block holds nothing, and the request that stands for all where headers
/// are only counted is always the same one.
pub proof fn a_block_begins_empty()
    ensures
        forall|r: HeaderBuilder| #[trigger]
            call_ensures(HeaderBuilder::new, (), r) ==> {
                &&& r.method is None && r.path is None && r.authority is None && r.scheme is None
                &&& r.status is None && r.header_list_size == 0
                &&& forall|name: Seq<char>| !(#[trigger] header_values(r.headers).contains_key(name))
            },
        forall|r: RequestHead| #[trigger]
            call_ensures(HeaderBuilder::into_request_stub, (), r) ==> {
                &&& r.method@ == "POST"@
                &&& r.uri@ == "http://srv-search/search.Search/Nearby"@
                &&& forall|name: Seq<char>| !(#[trigger] header_values(r.headers).contains_key(name))
            },
        forall|a: &[u8], b: &[u8], r: bool| #[trigger]
            call_ensures(same_bytes, (a, b), r) ==> (r <==> a@.len() == b@.len() && forall|i: int|
                0 <= i < a@.len() ==> #[trigger] a@[i] == b@[i]),
{
    assert forall|a: &[u8], b: &[u8], r: bool| #[trigger]
        call_ensures(same_bytes, (a, b), r) && a@.len() == b@.len() && (forall|i: int|
            0 <= i < a@.len() ==> #[trigger] a@[i] == b@[i]) implies r by {
        assert(a@ =~= b@);
    }
}

} // verus!
