//! What the `descriptors` attribute tells of a device, byte by byte.
use super::descriptors::{
    base64_text, descriptor_hash, interface_text, interfaces_of, listed_interfaces, sha256,
};
use crate::order::{law_sorted_distinct, text_less};
use crate::text_laws::{hex_value, law_hexadecimal_bytes};
use vstd::prelude::*;

verus! {

/// A policy knows descriptors by the base64 text of the SHA-256 digest of all of their bytes.
pub proof fn law_descriptors_are_hashed_whole(descriptors: Seq<u8>)
    ensures
        descriptor_hash(descriptors) == base64_text(sha256(descriptors)),
{
}

/// An interface is written as three bytes, each in two lower-case hexadecimal digits with the
/// higher one first, with colons between them.
pub proof fn law_interface_texts(class: u8, subclass: u8, protocol: u8)
    ensures
        ({
            let t = interface_text(class, subclass, protocol);
            &&& t.len() == 8
            &&& t[2] == ':' && t[5] == ':'
            &&& hex_value(t[0]) * 16 + hex_value(t[1]) == class
            &&& hex_value(t[3]) * 16 + hex_value(t[4]) == subclass
            &&& hex_value(t[6]) * 16 + hex_value(t[7]) == protocol
            &&& forall|i: int|
                0 <= i < 8 && i != 2 && i != 5 ==> ('0' <= #[trigger] t[i] && t[i] <= '9') || ('a'
                    <= t[i] && t[i] <= 'f')
        }),
{
    law_hexadecimal_bytes(class);
    law_hexadecimal_bytes(subclass);
    law_hexadecimal_bytes(protocol);
    let t = interface_text(class, subclass, protocol);
    let a = crate::text::hex_byte(class);
    let b = crate::text::hex_byte(subclass);
    let c = crate::text::hex_byte(protocol);
    assert(t[0] == a[0] && t[1] == a[1]);
    assert(t[3] == b[0] && t[4] == b[1]);
    assert(t[6] == c[0] && t[7] == c[1]);
}

/// Interfaces that differ in a byte are written differently.
pub proof fn law_interface_texts_differ(a: (u8, u8, u8), b: (u8, u8, u8))
    ensures
        interface_text(a.0, a.1, a.2) == interface_text(b.0, b.1, b.2) <==> a == b,
{
    law_interface_texts(a.0, a.1, a.2);
    law_interface_texts(b.0, b.1, b.2);
}

/// A descriptor whose first byte is its length lists its own interface, where it is one, ahead of
/// those that are listed behind it. So no descriptor of any length hides what follows it.
pub proof fn law_descriptors_are_read_one_by_one(x: Seq<u8>, rest: Seq<u8>)
    requires
        x.len() >= 2,
        x.len() == x[0],
    ensures
        listed_interfaces(x + rest) == (if x[1] == 4 && x.len() >= 9 {
            seq![interface_text(x[5], x[6], x[7])]
        } else {
            Seq::empty()
        }) + listed_interfaces(rest),
{
    let d = x + rest;
    assert(d[0] == x[0] && d[1] == x[1]);
    assert(d.skip(x.len() as int) =~= rest);
    if x[1] == 4 && x.len() >= 9 {
        assert(d[5] == x[5] && d[6] == x[6] && d[7] == x[7]);
    } else {
        assert(Seq::empty() + listed_interfaces(rest) =~= listed_interfaces(rest));
    }
}

/// Nothing is listed of bytes that do not begin with a descriptor: of fewer than two, of a length
/// below two, or of a length that goes beyond the end.
pub proof fn law_broken_descriptors_end_the_list(d: Seq<u8>)
    requires
        d.len() < 2 || d[0] < 2 || d[0] > d.len(),
    ensures
        listed_interfaces(d) == Seq::<Seq<char>>::empty(),
        interfaces_of(d) == Seq::<Seq<char>>::empty(),
{
}

/// Descriptors, one after the other.
pub open spec fn chain(descriptors: Seq<Seq<u8>>) -> Seq<u8>
    decreases descriptors.len(),
{
    if descriptors.len() == 0 {
        Seq::empty()
    } else {
        descriptors[0] + chain(descriptors.skip(1))
    }
}

/// The descriptor of an interface.
pub open spec fn is_interface(x: Seq<u8>) -> bool {
    x.len() >= 9 && x[1] == 4
}

/// The interfaces of a chain of whole descriptors are those of its interface descriptors, each
/// once, in order: a text is among them exactly where one of these descriptors has it.
pub proof fn law_interfaces_of_a_chain(descriptors: Seq<Seq<u8>>, text: Seq<char>)
    requires
        forall|i: int|
            0 <= i < descriptors.len() ==> (#[trigger] descriptors[i]).len() >= 2
                && descriptors[i].len() == descriptors[i][0],
    ensures
        interfaces_of(chain(descriptors)).contains(text) <==> exists|i: int|
            0 <= i < descriptors.len() && is_interface(#[trigger] descriptors[i]) && text
                == interface_text(descriptors[i][5], descriptors[i][6], descriptors[i][7]),
        forall|i: int, j: int|
            0 <= i < j < interfaces_of(chain(descriptors)).len() ==> text_less(
                #[trigger] interfaces_of(chain(descriptors))[i],
                #[trigger] interfaces_of(chain(descriptors))[j],
            ),
{
    law_sorted_distinct(listed_interfaces(chain(descriptors)));
    lemma_listed(descriptors, text);
}

proof fn lemma_listed(descriptors: Seq<Seq<u8>>, text: Seq<char>)
    requires
        forall|i: int|
            0 <= i < descriptors.len() ==> (#[trigger] descriptors[i]).len() >= 2
                && descriptors[i].len() == descriptors[i][0],
    ensures
        listed_interfaces(chain(descriptors)).contains(text) <==> exists|i: int|
            0 <= i < descriptors.len() && is_interface(#[trigger] descriptors[i]) && text
                == interface_text(descriptors[i][5], descriptors[i][6], descriptors[i][7]),
    decreases descriptors.len(),
{
    let all = listed_interfaces(chain(descriptors));
    if descriptors.len() > 0 {
        let x = descriptors[0];
        let rest = descriptors.skip(1);
        assert forall|i: int| 0 <= i < rest.len() implies (#[trigger] rest[i]).len() >= 2
            && rest[i].len() == rest[i][0] by {
            assert(rest[i] == descriptors[i + 1]);
        }
        lemma_listed(rest, text);
        law_descriptors_are_read_one_by_one(x, chain(rest));
        let behind = listed_interfaces(chain(rest));
        let own = if is_interface(x) {
            seq![interface_text(x[5], x[6], x[7])]
        } else {
            Seq::empty()
        };
        assert(all == own + behind);
        if behind.contains(text) {
            let k = choose|k: int| 0 <= k < behind.len() && behind[k] == text;
            assert(all[own.len() + k] == text);
            let i = choose|i: int|
                0 <= i < rest.len() && is_interface(#[trigger] rest[i]) && text == interface_text(
                    rest[i][5],
                    rest[i][6],
                    rest[i][7],
                );
            assert(descriptors[i + 1] == rest[i]);
        }
        if all.contains(text) && !behind.contains(text) {
            let k = choose|k: int| 0 <= k < all.len() && all[k] == text;
            if k >= own.len() {
                assert(behind[k - own.len()] == text);
            }
        }
        if exists|i: int|
            0 <= i < descriptors.len() && is_interface(#[trigger] descriptors[i]) && text
                == interface_text(descriptors[i][5], descriptors[i][6], descriptors[i][7]) {
            let i = choose|i: int|
                0 <= i < descriptors.len() && is_interface(#[trigger] descriptors[i]) && text
                    == interface_text(descriptors[i][5], descriptors[i][6], descriptors[i][7]);
            if i == 0 {
                assert(all[0] == text);
            } else {
                assert(rest[i - 1] == descriptors[i]);
            }
        }
    }
}

/// Whatever a device's descriptors hold, its interfaces are in order, none is there twice, and
/// they are those that the chain lists.
pub proof fn law_interfaces_are_listed_once(d: Seq<u8>)
    ensures
        forall|text: Seq<char>| #[trigger]
            interfaces_of(d).contains(text) <==> listed_interfaces(d).contains(text),
        forall|i: int, j: int|
            0 <= i < j < interfaces_of(d).len() ==> text_less(
                #[trigger] interfaces_of(d)[i],
                #[trigger] interfaces_of(d)[j],
            ),
{
    law_sorted_distinct(listed_interfaces(d));
}

} // verus!
