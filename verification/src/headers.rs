//! Header translation between the client's side and the backend's side.

use vstd::prelude::*;
use vstd::slice::slice_to_vec;
use crate::bytes::folded;
use crate::bytes::same_ignoring_case;

verus! {

/// One header line: a name and a value, both as raw bytes.
#[derive(Debug, Clone, PartialEq, Eq)]
pub struct Header {
    pub name: Vec<u8>,
    pub value: Vec<u8>,
}

impl View for Header {
    type V = (Seq<u8>, Seq<u8>);

    open spec fn view(&self) -> (Seq<u8>, Seq<u8>) {
        (self.name@, self.value@)
    }
}

/// A header list as plain name and value pairs, in order.
pub open spec fn fields(headers: Seq<Header>) -> Seq<(Seq<u8>, Seq<u8>)> {
    headers.map_values(|h: Header| h@)
}

/// The bytes of `host`.
pub open spec fn host_word() -> Seq<u8> {
    seq![104u8, 111u8, 115u8, 116u8]
}

/// The bytes of `connection`.
pub open spec fn connection_word() -> Seq<u8> {
    seq![99u8, 111u8, 110u8, 110u8, 101u8, 99u8, 116u8, 105u8, 111u8, 110u8]
}

/// The bytes of `X-Powered-By`, the name of the header that marks a relayed
/// response.
pub open spec fn signature_name() -> Seq<u8> {
    seq![88u8, 45u8, 80u8, 111u8, 119u8, 101u8, 114u8, 101u8, 100u8, 45u8, 66u8, 121u8]
}

/// The bytes of `ferrugem`, the value of that header.
pub open spec fn signature_value() -> Seq<u8> {
    seq![102u8, 101u8, 114u8, 114u8, 117u8, 103u8, 101u8, 109u8]
}

/// Whether a header name belongs to one leg of the connection only: `Host`
/// or `Connection`, in any case.
pub open spec fn is_hop_by_hop(name: Seq<u8>) -> bool {
    folded(name) == host_word() || folded(name) == connection_word()
}

/// The test that a header passes to be sent on to a backend.
pub open spec fn forwarded() -> spec_fn((Seq<u8>, Seq<u8>)) -> bool {
    |field: (Seq<u8>, Seq<u8>)| !is_hop_by_hop(field.0)
}

/// The headers sent on to a backend: all but the hop-by-hop ones, unchanged
/// and in their order.
pub open spec fn outbound_fields(list: Seq<(Seq<u8>, Seq<u8>)>) -> Seq<(Seq<u8>, Seq<u8>)> {
    list.filter(forwarded())
}

/// The headers relayed to a client: the backend's, unchanged and in their
/// order, then the proxy's signature.
pub open spec fn inbound_fields(list: Seq<(Seq<u8>, Seq<u8>)>) -> Seq<(Seq<u8>, Seq<u8>)> {
    list.push((signature_name(), signature_value()))
}

impl Header {
    /// A header with the given name and value.
    pub fn new(name: &[u8], value: &[u8]) -> (h: Header)
        ensures
            h@ == (name@, value@),
    {
        Header { name: slice_to_vec(name), value: slice_to_vec(value) }
    }

    /// A copy of this header.
    pub fn duplicate(&self) -> (h: Header)
        ensures
            h@ == self@,
    {
        Header::new(self.name.as_slice(), self.value.as_slice())
    }
}

/// Tells whether a header name is hop-by-hop.
pub fn hop_by_hop(name: &[u8]) -> (hop: bool)
    ensures
        hop == is_hop_by_hop(name@),
{
    let host: Vec<u8> = vec![104u8, 111u8, 115u8, 116u8];
    let connection: Vec<u8> = vec![99u8, 111u8, 110u8, 110u8, 101u8, 99u8, 116u8, 105u8, 111u8, 110u8];
    assert(folded(host@) =~= host_word());
    assert(folded(connection@) =~= connection_word());
    same_ignoring_case(name, host.as_slice()) || same_ignoring_case(name, connection.as_slice())
}

/// The proxy's signature header.
pub fn signature() -> (h: Header)
    ensures
        h@ == (signature_name(), signature_value()),
{
    let name: Vec<u8> = vec![88u8, 45u8, 80u8, 111u8, 119u8, 101u8, 114u8, 101u8, 100u8, 45u8, 66u8, 121u8];
    let value: Vec<u8> = vec![102u8, 101u8, 114u8, 114u8, 117u8, 103u8, 101u8, 109u8];
    assert(name@ =~= signature_name());
    assert(value@ =~= signature_value());
    Header { name, value }
}

/// Translates a client's headers for the backend: hop-by-hop headers are
/// dropped, every other header is copied as it is.
pub fn outbound(headers: &Vec<Header>) -> (out: Vec<Header>)
    ensures
        fields(out@) == outbound_fields(fields(headers@)),
{
    let mut out: Vec<Header> = Vec::new();
    let mut i: usize = 0;
    proof {
        reveal_with_fuel(Seq::filter, 1);
        assert(fields(headers@.take(0)) =~= Seq::empty());
        assert(fields(out@) =~= Seq::empty());
    }
    while i < headers.len()
        invariant
            i <= headers.len(),
            fields(out@) == outbound_fields(fields(headers@.take(i as int))),
        decreases headers.len() - i,
    {
        let keep: bool = !hop_by_hop(headers[i].name.as_slice());
        let ghost before = out@;
        if keep {
            out.push(headers[i].duplicate());
        }
        proof {
            let shorter = fields(headers@.take(i as int));
            let longer = fields(headers@.take(i + 1));
            let field = headers@[i as int]@;
            assert(longer =~= shorter.push(field));
            assert(longer.drop_last() =~= shorter);
            assert(longer.last() == field);
            reveal_with_fuel(Seq::filter, 1);
            if keep {
                assert(fields(out@) =~= fields(before).push(field));
            }
        }
        i += 1;
    }
    assert(headers@.take(headers.len() as int) =~= headers@);
    out
}

/// Translates a backend's headers for the client: every header is copied as
/// it is, then the signature header is added after them.
pub fn inbound(headers: &Vec<Header>) -> (out: Vec<Header>)
    ensures
        fields(out@) == inbound_fields(fields(headers@)),
{
    let mut out: Vec<Header> = Vec::new();
    let mut i: usize = 0;
    while i < headers.len()
        invariant
            i <= headers.len(),
            fields(out@) =~= fields(headers@.take(i as int)),
        decreases headers.len() - i,
    {
        let ghost before = out@;
        out.push(headers[i].duplicate());
        proof {
            let field = headers@[i as int]@;
            assert(fields(headers@.take(i + 1)) =~= fields(headers@.take(i as int)).push(field));
            assert(fields(out@) =~= fields(before).push(field));
        }
        i += 1;
    }
    assert(headers@.take(headers.len() as int) =~= headers@);
    out.push(signature());
    assert(fields(out@) =~= inbound_fields(fields(headers@)));
    out
}

/// Law of faithful forwarding: a header that is not hop-by-hop reaches the
/// backend with the name and value it came with.
pub proof fn lemma_forwarded_unmodified(list: Seq<(Seq<u8>, Seq<u8>)>, i: int)
    requires
        0 <= i < list.len(),
        !is_hop_by_hop(list[i].0),
    ensures
        outbound_fields(list).contains(list[i]),
{
    list.lemma_filter_contains(forwarded(), i);
}

/// Law of stripped headers: nothing reaches the backend that the client did
/// not send, and no `Host` or `Connection` header of the client does.
pub proof fn lemma_only_forwarded(list: Seq<(Seq<u8>, Seq<u8>)>, j: int)
    requires
        0 <= j < outbound_fields(list).len(),
    ensures
        !is_hop_by_hop(outbound_fields(list)[j].0),
        list.contains(outbound_fields(list)[j]),
{
    list.lemma_filter_pred(forwarded(), j);
    let kept = outbound_fields(list);
    assert(kept.contains(kept[j]));
    list.lemma_filter_contains_rev(forwarded(), kept[j]);
}

/// Law of the signature: a relayed response keeps every header of the
/// backend in place, a signature of the backend's own among them, and ends
/// with the proxy's signature.
pub proof fn lemma_signature_added(list: Seq<(Seq<u8>, Seq<u8>)>)
    ensures
        inbound_fields(list).len() == list.len() + 1,
        inbound_fields(list).take(list.len() as int) == list,
        inbound_fields(list).last() == (signature_name(), signature_value()),
{
    assert(inbound_fields(list).take(list.len() as int) =~= list);
}

} // verus!
