//! The bytes that go to a backend: the request target and the head of the
//! outbound request.

use vstd::prelude::*;
use crate::bytes::append;
use crate::bytes::decimal;
use crate::bytes::write_decimal;
use crate::bytes::COLON;
use crate::bytes::CR;
use crate::bytes::LF;
use crate::bytes::QUESTION_MARK;
use crate::bytes::SPACE;
use crate::headers::fields;
use crate::headers::Header;

verus! {

/// The end of a line: carriage return, line feed.
pub open spec fn crlf() -> Seq<u8> {
    seq![CR, LF]
}

/// The bytes of `HTTP/1.1`.
pub open spec fn version_word() -> Seq<u8> {
    seq![72u8, 84u8, 84u8, 80u8, 47u8, 49u8, 46u8, 49u8]
}

/// The bytes of `Host: `.
pub open spec fn host_label() -> Seq<u8> {
    seq![72u8, 111u8, 115u8, 116u8, 58u8, 32u8]
}

/// The bytes of `Connection: close` and a line end: the proxy's own word on
/// its leg to the backend, which makes the end of the connection the end of
/// the response.
pub open spec fn connection_line() -> Seq<u8> {
    seq![
        67u8, 111u8, 110u8, 110u8, 101u8, 99u8, 116u8, 105u8, 111u8, 110u8, 58u8, 32u8, 99u8, 108u8,
        111u8, 115u8, 101u8, 13u8, 10u8,
    ]
}

/// The bytes of an optional query, as plain values.
pub open spec fn query_bytes(query: Option<&[u8]>) -> Option<Seq<u8>> {
    match query {
        Some(q) => Some(q@),
        None => None,
    }
}

/// The outbound target: the backend's base URL, then the request's path,
/// then a question mark and the query where the request has one.
pub open spec fn target_bytes(base: Seq<u8>, path: Seq<u8>, query: Option<Seq<u8>>) -> Seq<u8> {
    match query {
        Some(q) => base + path + seq![QUESTION_MARK] + q,
        None => base + path,
    }
}

/// The value of the outbound `Host` header: the backend's host, a colon and
/// its port in decimal.
pub open spec fn authority_bytes(host: Seq<u8>, port: u16) -> Seq<u8> {
    host + seq![COLON] + decimal(port as nat)
}

/// One header line on the wire: name, colon, space, value, line end.
pub open spec fn header_line(field: (Seq<u8>, Seq<u8>)) -> Seq<u8> {
    field.0 + seq![COLON, SPACE] + field.1 + crlf()
}

/// The header lines of a list, one after another.
pub open spec fn header_block(list: Seq<(Seq<u8>, Seq<u8>)>) -> Seq<u8>
    decreases list.len(),
{
    if list.len() == 0 {
        Seq::empty()
    } else {
        header_block(list.drop_last()) + header_line(list.last())
    }
}

/// The head of an outbound request: the request line, the `Host` line of
/// the backend, the proxy's `Connection` line, the given header lines, and
/// the empty line that ends the head. The body follows it directly.
pub open spec fn head_bytes(
    method: Seq<u8>,
    target: Seq<u8>,
    host: Seq<u8>,
    list: Seq<(Seq<u8>, Seq<u8>)>,
) -> Seq<u8> {
    method + seq![SPACE] + target + seq![SPACE] + version_word() + crlf() + host_label() + host
        + crlf() + connection_line() + header_block(list) + crlf()
}

/// Composes the outbound target from the backend's base URL and the
/// request's path and query.
pub fn compose_target(base: &[u8], path: &[u8], query: Option<&[u8]>) -> (target: Vec<u8>)
    ensures
        target@ == target_bytes(base@, path@, query_bytes(query)),
{
    let mut target: Vec<u8> = Vec::new();
    append(&mut target, base);
    append(&mut target, path);
    match query {
        Some(q) => {
            target.push(QUESTION_MARK);
            append(&mut target, q);
            assert(target@ =~= base@ + path@ + seq![QUESTION_MARK] + q@);
        },
        None => {
            assert(target@ =~= base@ + path@);
        },
    }
    target
}

/// Writes the value of the outbound `Host` header for a backend.
pub fn authority(host: &[u8], port: u16) -> (value: Vec<u8>)
    ensures
        value@ == authority_bytes(host@, port),
{
    let mut value: Vec<u8> = Vec::new();
    append(&mut value, host);
    value.push(COLON);
    let digits: Vec<u8> = write_decimal(port);
    append(&mut value, digits.as_slice());
    assert(value@ =~= host@ + seq![COLON] + decimal(port as nat));
    value
}

/// Writes the head of an outbound request. `headers` are the headers to
/// send besides `Host`, which is written from `host`, and `Connection`,
/// which is always `close`.
pub fn request_head(method: &[u8], target: &[u8], host: &[u8], headers: &Vec<Header>) -> (head:
    Vec<u8>)
    ensures
        head@ == head_bytes(method@, target@, host@, fields(headers@)),
{
    let version: Vec<u8> = vec![72u8, 84u8, 84u8, 80u8, 47u8, 49u8, 46u8, 49u8];
    let label: Vec<u8> = vec![72u8, 111u8, 115u8, 116u8, 58u8, 32u8];
    assert(version@ =~= version_word());
    assert(label@ =~= host_label());
    let closing: Vec<u8> = vec![
        67u8, 111u8, 110u8, 110u8, 101u8, 99u8, 116u8, 105u8, 111u8, 110u8, 58u8, 32u8, 99u8, 108u8,
        111u8, 115u8, 101u8, 13u8, 10u8,
    ];
    assert(closing@ =~= connection_line());
    let mut head: Vec<u8> = Vec::new();
    append(&mut head, method);
    head.push(SPACE);
    append(&mut head, target);
    head.push(SPACE);
    append(&mut head, version.as_slice());
    head.push(CR);
    head.push(LF);
    append(&mut head, label.as_slice());
    append(&mut head, host);
    head.push(CR);
    head.push(LF);
    append(&mut head, closing.as_slice());
    let ghost prefix = method@ + seq![SPACE] + target@ + seq![SPACE] + version_word() + crlf()
        + host_label() + host@ + crlf() + connection_line();
    assert(head@ =~= prefix);
    let mut i: usize = 0;
    assert(fields(headers@.take(0)) =~= Seq::empty());
    while i < headers.len()
        invariant
            i <= headers.len(),
            head@ == prefix + header_block(fields(headers@.take(i as int))),
        decreases headers.len() - i,
    {
        let ghost before = head@;
        append(&mut head, headers[i].name.as_slice());
        head.push(COLON);
        head.push(SPACE);
        append(&mut head, headers[i].value.as_slice());
        head.push(CR);
        head.push(LF);
        proof {
            let field = headers@[i as int]@;
            let longer = fields(headers@.take(i + 1));
            assert(longer.drop_last() =~= fields(headers@.take(i as int)));
            assert(longer.last() == field);
            assert(head@ =~= before + header_line(field));
            assert(head@ =~= prefix + header_block(longer));
        }
        i += 1;
    }
    assert(headers@.take(headers.len() as int) =~= headers@);
    head.push(CR);
    head.push(LF);
    assert(head@ =~= prefix + header_block(fields(headers@)) + crlf());
    head
}

} // verus!
