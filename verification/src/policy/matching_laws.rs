//! What rules ask of devices, field by field, and what a policy decides on that account.
use super::{
    applies_to, device_matches, empty_matcher, interface_match, interfaces_match, policy_decision,
    some_interface_matches, Action, DeviceMatcherView, PolicyView,
};
use crate::sequence::{first_index, lemma_first_index, lemma_first_index_is};
use crate::sysfs::UsbDeviceView;
use crate::text::split;
use crate::text_laws::{
    law_lower_case_forgets_case_only, law_pieces_behind_a_separator, law_pieces_make_the_text,
    put_together, same_letters,
};
use vstd::prelude::*;

verus! {

// ---- Patterns --------------------------------------------------------------------------------

/// Three segments with colons between them.
pub open spec fn three_segments(a: Seq<char>, b: Seq<char>, c: Seq<char>) -> Seq<char> {
    a + seq![':'] + b + seq![':'] + c
}

/// A text consists of three segments.
pub open spec fn in_three_segments(s: Seq<char>) -> bool {
    exists|a: Seq<char>, b: Seq<char>, c: Seq<char>|
        #![trigger three_segments(a, b, c)]
        s == three_segments(a, b, c) && !a.contains(':') && !b.contains(':') && !c.contains(':')
}

proof fn lemma_three_pieces(a: Seq<char>, b: Seq<char>, c: Seq<char>)
    requires
        !a.contains(':'),
        !b.contains(':'),
        !c.contains(':'),
    ensures
        split(three_segments(a, b, c), ':') == seq![a, b, c],
{
    let tail = b.push(':') + c;
    assert(three_segments(a, b, c) =~= a.push(':') + tail);
    law_pieces_behind_a_separator(a, ':', tail);
    law_pieces_behind_a_separator(b, ':', c);
    law_pieces_behind_a_separator(c, ':', Seq::empty());
    assert(seq![a] + (seq![b] + seq![c]) =~= seq![a, b, c]);
}

proof fn lemma_in_three_segments(s: Seq<char>)
    ensures
        split(s, ':').len() == 3 <==> in_three_segments(s),
{
    let p = split(s, ':');
    law_pieces_make_the_text(s, ':');
    if p.len() == 3 {
        assert(!p[0].contains(':') && !p[1].contains(':') && !p[2].contains(':'));
        reveal_with_fuel(put_together, 4);
        let two = p.drop_last();
        assert(two.drop_last() =~= seq![p[0]]);
        assert(put_together(two.drop_last(), ':') == p[0]);
        assert(put_together(two, ':') == p[0].push(':') + p[1]);
        assert(s == (p[0].push(':') + p[1]).push(':') + p[2]);
        assert(s =~= three_segments(p[0], p[1], p[2]));
    }
    if in_three_segments(s) {
        let (a, b, c) = choose|a: Seq<char>, b: Seq<char>, c: Seq<char>|
            #![trigger three_segments(a, b, c)]
            s == three_segments(a, b, c) && !a.contains(':') && !b.contains(':') && !c.contains(
                ':',
            );
        lemma_three_pieces(a, b, c);
    }
}

/// A pattern matches an interface exactly where each of its three segments is a star, or is the
/// interface's segment in the same place up to case. Nothing that is not made of three segments
/// matches, or is matched.
pub proof fn law_patterns_match_segment_by_segment(
    a: Seq<char>,
    b: Seq<char>,
    c: Seq<char>,
    x: Seq<char>,
    y: Seq<char>,
    z: Seq<char>,
)
    requires
        !a.contains(':'),
        !b.contains(':'),
        !c.contains(':'),
        !x.contains(':'),
        !y.contains(':'),
        !z.contains(':'),
    ensures
        interface_match(three_segments(a, b, c), three_segments(x, y, z)) <==> {
            &&& a == seq!['*'] || same_letters(a, x)
            &&& b == seq!['*'] || same_letters(b, y)
            &&& c == seq!['*'] || same_letters(c, z)
        },
{
    lemma_three_pieces(a, b, c);
    lemma_three_pieces(x, y, z);
    law_lower_case_forgets_case_only(a, x);
    law_lower_case_forgets_case_only(b, y);
    law_lower_case_forgets_case_only(c, z);
}

/// Only texts of three segments match, and only such texts are matched.
pub proof fn law_patterns_have_three_segments(pattern: Seq<char>, value: Seq<char>)
    ensures
        interface_match(pattern, value) ==> in_three_segments(pattern) && in_three_segments(value),
{
    lemma_in_three_segments(pattern);
    lemma_in_three_segments(value);
}

// ---- Matchers --------------------------------------------------------------------------------

/// A device that has another value than a matcher asks for, in any one field, is not matched.
pub proof fn law_every_field_that_asks_has_to_be_met(m: DeviceMatcherView, d: UsbDeviceView)
    ensures
        m.vendor_id matches Some(x) && !same_letters(x, d.vendor_id) ==> !device_matches(m, d),
        m.product_id matches Some(x) && !same_letters(x, d.product_id) ==> !device_matches(m, d),
        m.serial matches Some(x) && d.serial != Some(x) ==> !device_matches(m, d),
        m.product_name matches Some(x) && d.product_name != Some(x) ==> !device_matches(m, d),
        m.connect_type matches Some(x) && d.connect_type != Some(x) ==> !device_matches(m, d),
        m.port_path matches Some(x) && d.port_path != x ==> !device_matches(m, d),
        m.descriptor_hash matches Some(x) && d.descriptor_hash != Some(x) ==> !device_matches(m, d),
        m.is_hub matches Some(x) && d.is_hub != x ==> !device_matches(m, d),
        m.interfaces.any.len() > 0 && (forall|i: int, j: int|
            0 <= i < m.interfaces.any.len() && 0 <= j < d.interfaces.len() ==> !interface_match(
                #[trigger] m.interfaces.any[i],
                #[trigger] d.interfaces[j],
            )) ==> !device_matches(m, d),
        (exists|i: int|
            0 <= i < m.interfaces.all.len() && forall|j: int|
                0 <= j < d.interfaces.len() ==> !interface_match(
                    #[trigger] m.interfaces.all[i],
                    #[trigger] d.interfaces[j],
                )) ==> !device_matches(m, d),
{
    if m.vendor_id is Some {
        law_lower_case_forgets_case_only(m.vendor_id->0, d.vendor_id);
    }
    if m.product_id is Some {
        law_lower_case_forgets_case_only(m.product_id->0, d.product_id);
    }
    if device_matches(m, d) {
        assert forall|i: int| 0 <= i < m.interfaces.all.len() implies exists|j: int|
            0 <= j < d.interfaces.len() && interface_match(
                #[trigger] m.interfaces.all[i],
                #[trigger] d.interfaces[j],
            ) by {
            assert(some_interface_matches(m.interfaces.all[i], d.interfaces));
        }
        if m.interfaces.any.len() > 0 {
            let i = choose|i: int|
                0 <= i < m.interfaces.any.len() && some_interface_matches(
                    #[trigger] m.interfaces.any[i],
                    d.interfaces,
                );
            let j = choose|j: int|
                0 <= j < d.interfaces.len() && interface_match(
                    m.interfaces.any[i],
                    #[trigger] d.interfaces[j],
                );
            assert(interface_match(m.interfaces.any[i], d.interfaces[j]));
        }
    }
}

/// What a device has to be like, told by the fields of a matcher alone.
pub open spec fn meets(d: UsbDeviceView, m: DeviceMatcherView) -> bool {
    &&& m.vendor_id matches Some(x) ==> same_letters(x, d.vendor_id)
    &&& m.product_id matches Some(x) ==> same_letters(x, d.product_id)
    &&& m.serial matches Some(x) ==> d.serial == Some(x)
    &&& m.product_name matches Some(x) ==> d.product_name == Some(x)
    &&& m.connect_type matches Some(x) ==> d.connect_type == Some(x)
    &&& m.port_path matches Some(x) ==> d.port_path == x
    &&& m.descriptor_hash matches Some(x) ==> d.descriptor_hash == Some(x)
    &&& m.is_hub matches Some(x) ==> d.is_hub == x
    &&& m.interfaces.any.len() > 0 ==> exists|i: int, j: int|
        0 <= i < m.interfaces.any.len() && 0 <= j < d.interfaces.len() && interface_match(
            #[trigger] m.interfaces.any[i],
            #[trigger] d.interfaces[j],
        )
    &&& forall|i: int|
        0 <= i < m.interfaces.all.len() ==> exists|j: int|
            0 <= j < d.interfaces.len() && interface_match(
                #[trigger] m.interfaces.all[i],
                #[trigger] d.interfaces[j],
            )
}

/// A matcher matches the devices that meet each of its fields, and no others.
pub proof fn law_a_matcher_asks_no_more_than_its_fields(m: DeviceMatcherView, d: UsbDeviceView)
    ensures
        device_matches(m, d) <==> meets(d, m),
{
    law_every_field_that_asks_has_to_be_met(m, d);
    if m.vendor_id is Some {
        law_lower_case_forgets_case_only(m.vendor_id->0, d.vendor_id);
    }
    if m.product_id is Some {
        law_lower_case_forgets_case_only(m.product_id->0, d.product_id);
    }
    if device_matches(m, d) {
        if m.interfaces.any.len() > 0 {
            let i = choose|i: int|
                0 <= i < m.interfaces.any.len() && some_interface_matches(
                    #[trigger] m.interfaces.any[i],
                    d.interfaces,
                );
            let j = choose|j: int|
                0 <= j < d.interfaces.len() && interface_match(
                    m.interfaces.any[i],
                    #[trigger] d.interfaces[j],
                );
            assert(interface_match(m.interfaces.any[i], d.interfaces[j]));
        }
        assert forall|i: int| 0 <= i < m.interfaces.all.len() implies exists|j: int|
            0 <= j < d.interfaces.len() && interface_match(
                #[trigger] m.interfaces.all[i],
                #[trigger] d.interfaces[j],
            ) by {
            assert(some_interface_matches(m.interfaces.all[i], d.interfaces));
        }
    }
    if meets(d, m) {
        if m.interfaces.any.len() > 0 {
            let (i, j) = choose|i: int, j: int|
                0 <= i < m.interfaces.any.len() && 0 <= j < d.interfaces.len() && interface_match(
                    #[trigger] m.interfaces.any[i],
                    #[trigger] d.interfaces[j],
                );
            assert(some_interface_matches(m.interfaces.any[i], d.interfaces));
        }
        assert(interfaces_match(m.interfaces, d.interfaces));
    }
}

/// A matcher that asks nothing matches every device.
pub proof fn law_the_empty_matcher_matches_everything(d: UsbDeviceView)
    ensures
        device_matches(empty_matcher(), d),
{
}

/// A rule that asks for another serial than the device has never decides about it, wherever it
/// stands and whatever else it asks: the decision is that of the policy without the rule.
pub proof fn law_rules_for_other_serials_have_no_say(p: PolicyView, d: UsbDeviceView, k: int)
    requires
        0 <= k < p.rules.len(),
        p.rules[k].matcher.serial matches Some(x) && d.serial != Some(x),
    ensures
        policy_decision(p, d) == policy_decision(
            PolicyView { rules: p.rules.remove(k), ..p },
            d,
        ),
{
    law_every_field_that_asks_has_to_be_met(p.rules[k].matcher, d);
    lemma_idle_rule(p, d, k);
}

/// A rule that does not match a device can be taken out without a change to what is decided.
pub proof fn law_rules_that_do_not_match_have_no_say(p: PolicyView, d: UsbDeviceView, k: int)
    requires
        0 <= k < p.rules.len(),
        !meets(d, p.rules[k].matcher),
    ensures
        policy_decision(p, d) == policy_decision(
            PolicyView { rules: p.rules.remove(k), ..p },
            d,
        ),
{
    law_a_matcher_asks_no_more_than_its_fields(p.rules[k].matcher, d);
    lemma_idle_rule(p, d, k);
}

proof fn lemma_idle_rule(p: PolicyView, d: UsbDeviceView, k: int)
    requires
        0 <= k < p.rules.len(),
        !device_matches(p.rules[k].matcher, d),
    ensures
        policy_decision(p, d) == policy_decision(
            PolicyView { rules: p.rules.remove(k), ..p },
            d,
        ),
{
    let f = applies_to(d);
    let less = p.rules.remove(k);
    lemma_first_index(p.rules, f);
    let i = first_index(p.rules, f);
    let there = if i < k {
        i
    } else {
        i - 1
    };
    if i == k && i < p.rules.len() {
        assert(f(p.rules[k]));
    }
    assert forall|j: int| 0 <= j < there implies !f(#[trigger] less[j]) by {
        if j < k {
            assert(less[j] == p.rules[j]);
        } else {
            assert(less[j] == p.rules[j + 1]);
        }
    }
    if i < p.rules.len() {
        assert(less[there] == p.rules[i]);
    }
    lemma_first_index_is(less, f, there);
}

// ---- Decisions -------------------------------------------------------------------------------

/// The first rule whose fields a device meets decides about it, by its action and in its name. A
/// device that meets no rule gets the default, but a hub passes where the default blocks. There is
/// no other decision.
pub proof fn law_decisions_come_from_rules_or_the_default(p: PolicyView, d: UsbDeviceView)
    ensures
        policy_decision(p, d).device_id == d.id,
        policy_decision(p, d).rule is Some <==> exists|i: int|
            0 <= i < p.rules.len() && meets(d, (#[trigger] p.rules[i]).matcher),
        policy_decision(p, d).rule is Some ==> exists|i: int|
            0 <= i < p.rules.len() && decides(p, d, i) && policy_decision(p, d).action == (
            #[trigger] p.rules[i]).action && policy_decision(p, d).rule == Some(p.rules[i].name)
                && policy_decision(p, d).reason == "matched rule"@,
        policy_decision(p, d).rule is None && d.is_hub && p.default == Action::Block ==> {
            &&& policy_decision(p, d).action == Action::Allow
            &&& policy_decision(p, d).reason == "USB hub passthrough"@
        },
        policy_decision(p, d).rule is None && !(d.is_hub && p.default == Action::Block) ==> {
            &&& policy_decision(p, d).action == p.default
            &&& policy_decision(p, d).reason == "default action"@
        },
{
    let f = applies_to(d);
    lemma_first_index(p.rules, f);
    let i = first_index(p.rules, f);
    assert forall|j: int| 0 <= j < p.rules.len() implies f(#[trigger] p.rules[j]) == meets(
        d,
        p.rules[j].matcher,
    ) by {
        law_a_matcher_asks_no_more_than_its_fields(p.rules[j].matcher, d);
    }
    if i < p.rules.len() {
        assert(f(p.rules[i]));
        assert(decides(p, d, i));
    }
}

/// The rule at a place is the first whose fields the device meets.
pub open spec fn decides(p: PolicyView, d: UsbDeviceView, i: int) -> bool {
    &&& meets(d, p.rules[i].matcher)
    &&& forall|j: int| 0 <= j < i ==> !meets(d, (#[trigger] p.rules[j]).matcher)
}

/// Under a default that blocks, a device that is not a hub is allowed only where it has the serial
/// that some rule which allows asks for, where that rule asks for one; and so for the other
/// fields.
pub proof fn law_nothing_is_allowed_without_an_allowing_rule(p: PolicyView, d: UsbDeviceView)
    requires
        p.default == Action::Block,
        !d.is_hub,
        policy_decision(p, d).action == Action::Allow,
    ensures
        exists|i: int|
            0 <= i < p.rules.len() && (#[trigger] p.rules[i]).action == Action::Allow && meets(
                d,
                p.rules[i].matcher,
            ) && p.rules[i].matcher.is_hub != Some(true),
{
    law_decisions_come_from_rules_or_the_default(p, d);
    let i = choose|i: int|
        0 <= i < p.rules.len() && decides(p, d, i) && policy_decision(p, d).action == (
        #[trigger] p.rules[i]).action && policy_decision(p, d).rule == Some(p.rules[i].name)
            && policy_decision(p, d).reason == "matched rule"@;
    assert(meets(d, p.rules[i].matcher));
}

} // verus!
