//! Which header fields can be put on the wire: the rules of the `http` crate,
//! by whose types every response leaves the proxy.

use crate::header::{Header, HeaderView};
use vstd::prelude::*;

verus! {

/// The longest name of a header field, in bytes.
pub const MAX_NAME_LEN: usize = 65535;

/// A character of a token: an ASCII letter or digit, or one of
/// ``! # $ % & ' * + - . ^ _ ` | ~``.
pub open spec fn is_token_char(c: char) -> bool {
    let code = c as u32;
    ||| 48 <= code <= 57
    ||| 65 <= code <= 90
    ||| 97 <= code <= 122
    ||| code == 33
    ||| 35 <= code <= 39
    ||| code == 42
    ||| code == 43
    ||| code == 45
    ||| code == 46
    ||| 94 <= code <= 96
    ||| code == 124
    ||| code == 126
}

/// A byte of a field's value: a tab, or any byte from 32 on but 127.
pub open spec fn is_value_byte(b: u8) -> bool {
    (b >= 32 && b != 127) || b == 9
}

/// A name that can be written: a token of at least one character and at most
/// [`MAX_NAME_LEN`].
pub open spec fn name_is_accepted(name: Seq<char>) -> bool {
    &&& 1 <= name.len() <= MAX_NAME_LEN
    &&& forall|i: int| 0 <= i < name.len() ==> is_token_char(#[trigger] name[i])
}

/// A value that can be written: nothing but value bytes.
pub open spec fn value_is_accepted(value: Seq<u8>) -> bool {
    forall|i: int| 0 <= i < value.len() ==> is_value_byte(#[trigger] value[i])
}

/// A field that can be written: both its name and its value can.
pub open spec fn is_representable(header: HeaderView) -> bool {
    name_is_accepted(header.name) && value_is_accepted(header.value)
}

/// The fields that can be written, in their order.
pub open spec fn representable_headers(headers: Seq<HeaderView>) -> Seq<HeaderView> {
    headers.filter(|h: HeaderView| is_representable(h))
}

/// Asks `http::HeaderName::from_bytes` whether it takes `name`.
///
/// Trusted: that function is taken to accept exactly the names of 1 to 65535
/// bytes that hold token characters only. It looks every byte up in its table
/// of header characters, which has an entry for the token characters and for
/// no other byte, and it refuses the empty name and names beyond that length.
#[verifier::external_body]
fn name_accepted(name: &str) -> (ok: bool)
    ensures
        ok == name_is_accepted(name@),
{
    http::HeaderName::from_bytes(name.as_bytes()).is_ok()
}

/// Asks `http::HeaderValue::from_bytes` whether it takes `value`.
///
/// Trusted: that function is taken to accept exactly the values in which
/// every byte is a tab or at least 32 and not 127.
#[verifier::external_body]
fn value_accepted(value: &Vec<u8>) -> (ok: bool)
    ensures
        ok == value_is_accepted(value@),
{
    http::HeaderValue::from_bytes(value.as_slice()).is_ok()
}

/// Whether a field can be written.
pub fn representable(header: &Header) -> (ok: bool)
    ensures
        ok == is_representable(header@),
{
    name_accepted(header.name.as_str()) && value_accepted(&header.value)
}

/// Drops the fields that cannot be written and keeps the others in their order.
pub fn keep_representable(headers: &Vec<Header>) -> (kept: Vec<Header>)
    ensures
        kept.deep_view() == representable_headers(headers.deep_view()),
{
    let ghost writable = |h: HeaderView| is_representable(h);
    let mut kept: Vec<Header> = Vec::new();
    let mut i: usize = 0;
    while i < headers.len()
        invariant
            i <= headers.len(),
            writable == (|h: HeaderView| is_representable(h)),
            kept.deep_view() == headers.deep_view().take(i as int).filter(writable),
        decreases headers.len() - i,
    {
        proof {
            let hs = headers.deep_view();
            assert(hs.take(i + 1).drop_last() =~= hs.take(i as int));
            reveal(Seq::filter);
        }
        if representable(&headers[i]) {
            kept.push(headers[i].clone());
        }
        i += 1;
    }
    proof {
        assert(headers.deep_view().take(i as int) =~= headers.deep_view());
    }
    kept
}

/// Where every field can be written, none is dropped.
pub proof fn representable_headers_are_kept(headers: Seq<HeaderView>)
    requires
        forall|i: int| 0 <= i < headers.len() ==> is_representable(#[trigger] headers[i]),
    ensures
        representable_headers(headers) == headers,
    decreases headers.len(),
{
    reveal(Seq::filter);
    if headers.len() > 0 {
        representable_headers_are_kept(headers.drop_last());
        assert(headers.drop_last().push(headers.last()) =~= headers);
    }
}

} // verus!
