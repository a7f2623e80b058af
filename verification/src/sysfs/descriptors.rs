//! The `descriptors` attribute: a device's hash and its interfaces.
use crate::order::{add_distinct, sorted_distinct};
use crate::text::{hex_byte, push_hex_byte};
use base64::engine::general_purpose::STANDARD;
use base64::Engine;
use sha2::{Digest, Sha256};
use vstd::prelude::*;

verus! {

/// The SHA-256 digest of some bytes.
pub uninterp spec fn sha256(data: Seq<u8>) -> Seq<u8>;

/// `sha2::Sha256::digest` gives the SHA-256 digest of the bytes, which is 32 bytes long.
#[verifier::external_body]
pub(crate) fn sha256_digest(data: &[u8]) -> (r: Vec<u8>)
    ensures
        r@ == sha256(data@),
        r@.len() == 32,
{
    Sha256::digest(data).to_vec()
}

/// The base64 text of some bytes, in the standard alphabet, with padding.
pub uninterp spec fn base64_text(data: Seq<u8>) -> Seq<char>;

/// `base64`'s `STANDARD` engine encodes the bytes; each group of three bytes, the last one padded,
/// gives four characters. The engine panics where the length of the text does not fit in `usize`.
#[verifier::external_body]
pub(crate) fn base64_encode(data: &[u8]) -> (r: String)
    requires
        (data@.len() + 2) / 3 * 4 <= usize::MAX,
    ensures
        r@ == base64_text(data@),
        r@.len() == (data@.len() + 2) / 3 * 4,
{
    STANDARD.encode(data)
}

/// The text by which a policy knows a device's descriptors.
pub open spec fn descriptor_hash(descriptors: Seq<u8>) -> Seq<char> {
    base64_text(sha256(descriptors))
}

/// The base64 text of the SHA-256 digest of the descriptors. It is never empty.
pub fn hash_descriptors(descriptors: &[u8]) -> (r: String)
    ensures
        r@ == descriptor_hash(descriptors@),
        r@.len() == 44,
{
    let digest = sha256_digest(descriptors);
    base64_encode(digest.as_slice())
}

/// One interface as `cc:ss:pp`.
pub open spec fn interface_text(class: u8, subclass: u8, protocol: u8) -> Seq<char> {
    hex_byte(class) + seq![':'] + hex_byte(subclass) + seq![':'] + hex_byte(protocol)
}

/// The interfaces that a chain of descriptors lists, in its order. A descriptor begins with its
/// length and its type; the chain ends where a length cannot be right.
pub open spec fn listed_interfaces(d: Seq<u8>) -> Seq<Seq<char>>
    decreases d.len(),
{
    if d.len() < 2 || d[0] < 2 || d[0] > d.len() {
        Seq::empty()
    } else {
        let rest = listed_interfaces(d.skip(d[0] as int));
        if d[1] == 4 && d[0] >= 9 {
            seq![interface_text(d[5], d[6], d[7])] + rest
        } else {
            rest
        }
    }
}

/// The interfaces that a chain of descriptors lists, each once, in order.
pub open spec fn interfaces_of(d: Seq<u8>) -> Seq<Seq<char>> {
    sorted_distinct(listed_interfaces(d))
}

fn interface_string(class: u8, subclass: u8, protocol: u8) -> (r: String)
    ensures
        r@ == interface_text(class, subclass, protocol),
{
    let mut r = String::new();
    push_hex_byte(&mut r, class);
    r.push(':');
    push_hex_byte(&mut r, subclass);
    r.push(':');
    push_hex_byte(&mut r, protocol);
    assert(r@ =~= interface_text(class, subclass, protocol));
    r
}

/// The interfaces that a chain of descriptors lists, each once, in order.
pub fn parse_interfaces(descriptors: &[u8]) -> (r: Vec<String>)
    ensures
        r.deep_view() == interfaces_of(descriptors@),
{
    let mut interfaces: Vec<String> = Vec::new();
    let mut index: usize = 0;
    let ghost d = descriptors@;
    let ghost all = listed_interfaces(d);
    let ghost mut seen: Seq<Seq<char>> = Seq::empty();
    proof {
        assert(d.skip(0) =~= d);
        assert(seen + listed_interfaces(d.skip(0)) =~= all);
        assert(interfaces.deep_view() =~= sorted_distinct(seen));
    }
    while descriptors.len() - index >= 2
        invariant
            d == descriptors@,
            index <= d.len(),
            all == listed_interfaces(d),
            all == seen + listed_interfaces(d.skip(index as int)),
            interfaces.deep_view() == sorted_distinct(seen),
        ensures
            all == seen,
            interfaces.deep_view() == sorted_distinct(seen),
        decreases d.len() - index,
    {
        let length = descriptors[index] as usize;
        let descriptor_type = descriptors[index + 1];
        let ghost tail = d.skip(index as int);
        proof {
            assert(tail[0] == d[index as int]);
            assert(tail[1] == d[index + 1]);
        }
        if length < 2 || length > descriptors.len() - index {
            assert(all =~= seen);
            break;
        }
        proof {
            assert(tail.skip(length as int) =~= d.skip(index + length));
        }
        if descriptor_type == 4 && length >= 9 {
            let text = interface_string(
                descriptors[index + 5],
                descriptors[index + 6],
                descriptors[index + 7],
            );
            proof {
                assert(tail[5] == d[index + 5]);
                assert(tail[6] == d[index + 6]);
                assert(tail[7] == d[index + 7]);
                let grown = seen.push(text@);
                assert(grown + listed_interfaces(d.skip(index + length)) =~= all);
                assert(grown.drop_last() =~= seen);
                seen = grown;
            }
            add_distinct(&mut interfaces, text);
        }
        index += length;
    }
    interfaces
}

} // verus!
