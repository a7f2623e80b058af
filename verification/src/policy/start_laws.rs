//! Which policies are well formed, and which the daemon may start with, told by the rules alone.
use super::laws::law_valid_rule_by_rule;
use super::matching_laws::three_segments;
use super::validation::{
    allows_endpoint, allows_some_endpoint, load_failure, loaded_policy, patterns_failure,
    policy_failure, rule_failure, rules_failure, start_failure, valid_pattern, valid_segment,
};
use super::{
    empty_matcher, Action, DeviceMatcherView, InterfaceMatcherView, Policy, PolicyView, RuleView,
};
use crate::config::{ConfigView, Loaded, Mode};
use crate::error::{ErrorView, IoErrorKind};
use crate::text::{debug_text, decimal, split, white_space};
use crate::text_laws::{
    law_hexadecimal_texts, law_pieces_behind_a_separator, law_pieces_make_the_text, put_together,
};
use vstd::prelude::*;

verus! {

// ---- Well-formed rules -----------------------------------------------------------------------

/// A text of so many hexadecimal digits.
pub open spec fn hex_digits(s: Seq<char>, length: nat) -> bool {
    s.len() == length && forall|i: int|
        0 <= i < s.len() ==> "0123456789abcdefABCDEF"@.contains(#[trigger] s[i])
}

/// A segment of a pattern: a star or two hexadecimal digits.
pub open spec fn segment(s: Seq<char>) -> bool {
    s == seq!['*'] || hex_digits(s, 2)
}

/// An interface pattern: three segments with colons between them.
pub open spec fn pattern(s: Seq<char>) -> bool {
    exists|a: Seq<char>, b: Seq<char>, c: Seq<char>|
        #![trigger three_segments(a, b, c)]
        s == three_segments(a, b, c) && segment(a) && segment(b) && segment(c)
}

/// An optional text that is not the empty one.
pub open spec fn some_text(value: Option<Seq<char>>) -> bool {
    value matches Some(text) ==> text.len() > 0
}

/// A rule with a name and at least one thing to ask, each of which can be asked.
pub open spec fn well_formed(rule: RuleView) -> bool {
    let m = rule.matcher;
    &&& exists|i: int| 0 <= i < rule.name.len() && !white_space(#[trigger] rule.name[i])
    &&& m.vendor_id is Some || m.product_id is Some || m.serial is Some || m.product_name is Some
        || m.connect_type is Some || m.port_path is Some || m.descriptor_hash is Some || m.is_hub
        is Some || m.interfaces.any.len() > 0 || m.interfaces.all.len() > 0
    &&& m.vendor_id matches Some(id) ==> hex_digits(id, 4)
    &&& m.product_id matches Some(id) ==> hex_digits(id, 4)
    &&& some_text(m.serial)
    &&& some_text(m.product_name)
    &&& some_text(m.connect_type)
    &&& some_text(m.port_path)
    &&& some_text(m.descriptor_hash)
    &&& forall|i: int| 0 <= i < m.interfaces.any.len() ==> pattern(#[trigger] m.interfaces.any[i])
    &&& forall|i: int| 0 <= i < m.interfaces.all.len() ==> pattern(#[trigger] m.interfaces.all[i])
}

proof fn lemma_segment(s: Seq<char>)
    ensures
        valid_segment(s) <==> segment(s),
        segment(s) ==> !s.contains(':'),
{
    law_hexadecimal_texts(s);
    reveal_strlit("0123456789abcdefABCDEF");
    if segment(s) && s.contains(':') {
        let k = choose|k: int| 0 <= k < s.len() && s[k] == ':';
        assert(s[k] == ':');
        if s != seq!['*'] {
            assert("0123456789abcdefABCDEF"@.contains(s[k]));
        }
    }
}

/// A pattern is accepted exactly where it is three segments, each a star or two hexadecimal
/// digits, with colons between them.
pub proof fn law_accepted_patterns(s: Seq<char>)
    ensures
        valid_pattern(s) <==> pattern(s),
{
    let p = split(s, ':');
    law_pieces_make_the_text(s, ':');
    if valid_pattern(s) {
        lemma_segment(p[0]);
        lemma_segment(p[1]);
        lemma_segment(p[2]);
        reveal_with_fuel(put_together, 4);
        let two = p.drop_last();
        assert(two.drop_last() =~= seq![p[0]]);
        assert(put_together(two.drop_last(), ':') == p[0]);
        assert(put_together(two, ':') == p[0].push(':') + p[1]);
        assert(s =~= three_segments(p[0], p[1], p[2]));
    }
    if pattern(s) {
        let (a, b, c) = choose|a: Seq<char>, b: Seq<char>, c: Seq<char>|
            #![trigger three_segments(a, b, c)]
            s == three_segments(a, b, c) && segment(a) && segment(b) && segment(c);
        lemma_segment(a);
        lemma_segment(b);
        lemma_segment(c);
        let tail = b.push(':') + c;
        assert(s =~= a.push(':') + tail);
        law_pieces_behind_a_separator(a, ':', tail);
        law_pieces_behind_a_separator(b, ':', c);
        law_pieces_behind_a_separator(c, ':', Seq::empty());
        assert(p =~= seq![a, b, c]);
    }
}

proof fn lemma_patterns(name: Seq<char>, field: Seq<char>, patterns: Seq<Seq<char>>)
    ensures
        patterns_failure(name, field, patterns) is None <==> forall|i: int|
            0 <= i < patterns.len() ==> pattern(#[trigger] patterns[i]),
    decreases patterns.len(),
{
    if patterns.len() > 0 {
        let rest = patterns.drop_first();
        law_accepted_patterns(patterns[0]);
        lemma_patterns(name, field, rest);
        if patterns_failure(name, field, patterns) is None {
            assert forall|i: int| 0 <= i < patterns.len() implies pattern(
                #[trigger] patterns[i],
            ) by {
                if i > 0 {
                    assert(patterns[i] == rest[i - 1]);
                }
            }
        }
        if forall|i: int| 0 <= i < patterns.len() ==> pattern(#[trigger] patterns[i]) {
            assert forall|i: int| 0 <= i < rest.len() implies pattern(#[trigger] rest[i]) by {
                assert(rest[i] == patterns[i + 1]);
            }
        }
    }
}

/// A rule is accepted exactly where it has a name that is not blank, asks something, and each
/// thing that it asks for has its form: four hexadecimal digits for an id, some text for a text,
/// and three segments for a pattern.
pub proof fn law_accepted_rules(rule: RuleView)
    ensures
        rule_failure(rule) is None <==> well_formed(rule),
{
    let m = rule.matcher;
    if m.vendor_id is Some {
        law_hexadecimal_texts(m.vendor_id->0);
    }
    if m.product_id is Some {
        law_hexadecimal_texts(m.product_id->0);
    }
    lemma_patterns(rule.name, "interfaces.any"@, m.interfaces.any);
    lemma_patterns(rule.name, "interfaces.all"@, m.interfaces.all);
}

/// A policy is accepted exactly where each of its rules is well formed. What is reported of one
/// that is not is what is wrong with the first rule that is not well formed.
pub proof fn law_accepted_policies(p: PolicyView)
    ensures
        policy_failure(p) is None <==> forall|i: int|
            0 <= i < p.rules.len() ==> well_formed(#[trigger] p.rules[i]),
        policy_failure(p) is Some ==> exists|i: int|
            0 <= i < p.rules.len() && !well_formed(#[trigger] p.rules[i]) && policy_failure(p)
                == rule_failure(p.rules[i]) && forall|j: int|
                0 <= j < i ==> well_formed(#[trigger] p.rules[j]),
{
    law_valid_rule_by_rule(p.rules);
    assert forall|i: int| 0 <= i < p.rules.len() implies (rule_failure(#[trigger] p.rules[i])
        is None) == well_formed(p.rules[i]) by {
        law_accepted_rules(p.rules[i]);
    }
    lemma_first_malformed(p.rules);
}

proof fn lemma_first_malformed(rules: Seq<RuleView>)
    ensures
        rules_failure(rules) is Some ==> exists|i: int|
            0 <= i < rules.len() && !well_formed(#[trigger] rules[i]) && rules_failure(rules)
                == rule_failure(rules[i]) && forall|j: int|
                0 <= j < i ==> well_formed(#[trigger] rules[j]),
    decreases rules.len(),
{
    if rules.len() > 0 && rules_failure(rules) is Some {
        let rest = rules.drop_first();
        law_accepted_rules(rules[0]);
        if rule_failure(rules[0]) is None {
            lemma_first_malformed(rest);
            let i = choose|i: int|
                0 <= i < rest.len() && !well_formed(#[trigger] rest[i]) && rules_failure(rest)
                    == rule_failure(rest[i]) && forall|j: int|
                    0 <= j < i ==> well_formed(#[trigger] rest[j]);
            assert(rules[i + 1] == rest[i]);
            assert forall|j: int| 0 <= j < i + 1 implies well_formed(#[trigger] rules[j]) by {
                if j > 0 {
                    assert(rules[j] == rest[j - 1]);
                }
            }
        } else {
            assert(!well_formed(rules[0]));
        }
    }
}

/// What is reported of a rule names the first field that is at fault, in the order of the fields.
pub proof fn law_reports_name_the_field(rule: RuleView)
    ensures
        ({
            let m = rule.matcher;
            let told = rule_failure(rule);
            let ahead = "policy rule "@ + debug_text(rule.name) + " field "@;
            let blank_name = forall|i: int|
                0 <= i < rule.name.len() ==> white_space(#[trigger] rule.name[i]);
            let bad_vendor = m.vendor_id matches Some(id) && !hex_digits(id, 4);
            let bad_product = m.product_id matches Some(id) && !hex_digits(id, 4);
            let ids = !blank_name && !bad_vendor && !bad_product;
            &&& blank_name ==> told == Some(ErrorView::Policy("policy rule name cannot be empty"@))
            &&& !blank_name && bad_vendor ==> told == Some(
                ErrorView::Policy(ahead + "vendor_id"@ + " must be "@ + seq!['4']
                    + " hexadecimal characters"@),
            )
            &&& !blank_name && !bad_vendor && bad_product ==> told == Some(
                ErrorView::Policy(ahead + "product_id"@ + " must be "@ + seq!['4']
                    + " hexadecimal characters"@),
            )
            &&& ids && !some_text(m.serial) ==> told == Some(
                ErrorView::Policy(ahead + "serial"@ + " cannot be empty"@),
            )
            &&& ids && some_text(m.serial) && !some_text(m.product_name) ==> told == Some(
                ErrorView::Policy(ahead + "product_name"@ + " cannot be empty"@),
            )
            &&& ids && some_text(m.serial) && some_text(m.product_name) && !some_text(
                m.connect_type,
            ) ==> told == Some(ErrorView::Policy(ahead + "connect_type"@ + " cannot be empty"@))
            &&& ids && some_text(m.serial) && some_text(m.product_name) && some_text(m.connect_type)
                && !some_text(m.port_path) ==> told == Some(
                ErrorView::Policy(ahead + "port_path"@ + " cannot be empty"@),
            )
            &&& ids && some_text(m.serial) && some_text(m.product_name) && some_text(m.connect_type)
                && some_text(m.port_path) && !some_text(m.descriptor_hash) ==> told == Some(
                ErrorView::Policy(ahead + "descriptor_hash"@ + " cannot be empty"@),
            )
        }),
{
    let m = rule.matcher;
    if m.vendor_id is Some {
        law_hexadecimal_texts(m.vendor_id->0);
    }
    if m.product_id is Some {
        law_hexadecimal_texts(m.product_id->0);
    }
    assert(decimal(4) =~= seq!['4']);
}

/// A rule with a name that asks nothing is reported as such.
pub proof fn law_rules_that_ask_nothing_are_refused(rule: RuleView)
    requires
        rule.matcher == empty_matcher(),
        exists|i: int| 0 <= i < rule.name.len() && !white_space(#[trigger] rule.name[i]),
    ensures
        rule_failure(rule) == Some(
            ErrorView::Policy(
                "policy rule "@ + debug_text(rule.name)
                    + " has an empty matcher; add at least one match field"@,
            ),
        ),
{
}

/// What is reported of a text that is no interface pattern.
pub open spec fn no_pattern(name: Seq<char>, field: Seq<char>, text: Seq<char>) -> ErrorView {
    ErrorView::Policy(
        "policy rule "@ + debug_text(name) + " field "@ + field
            + " has invalid interface pattern "@ + debug_text(text)
            + "; expected cc:ss:pp with two hex digits or * per segment"@,
    )
}

proof fn lemma_first_pattern(
    name: Seq<char>,
    field: Seq<char>,
    patterns: Seq<Seq<char>>,
    i: int,
)
    requires
        0 <= i < patterns.len(),
        !pattern(patterns[i]),
        forall|j: int| 0 <= j < i ==> pattern(#[trigger] patterns[j]),
    ensures
        patterns_failure(name, field, patterns) == Some(no_pattern(name, field, patterns[i])),
    decreases patterns.len(),
{
    law_accepted_patterns(patterns[0]);
    if i > 0 {
        let rest = patterns.drop_first();
        assert(rest[i - 1] == patterns[i]);
        assert forall|j: int| 0 <= j < i - 1 implies pattern(#[trigger] rest[j]) by {
            assert(rest[j] == patterns[j + 1]);
        }
        lemma_first_pattern(name, field, rest, i - 1);
    }
}

/// Where nothing but interface patterns are at fault, the first of them is reported, with the list
/// that it is in. Those of which any has to match come first.
pub proof fn law_reports_name_the_pattern(rule: RuleView, i: int)
    requires
        well_formed(
            RuleView {
                matcher: DeviceMatcherView {
                    is_hub: Some(true),
                    interfaces: InterfaceMatcherView { any: Seq::empty(), all: Seq::empty() },
                    ..rule.matcher
                },
                ..rule
            },
        ),
    ensures
        ({
            let any = rule.matcher.interfaces.any;
            let all = rule.matcher.interfaces.all;
            &&& 0 <= i < any.len() && !pattern(any[i]) && (forall|j: int|
                0 <= j < i ==> pattern(#[trigger] any[j])) ==> rule_failure(rule) == Some(
                no_pattern(rule.name, "interfaces.any"@, any[i]),
            )
            &&& (forall|j: int| 0 <= j < any.len() ==> pattern(#[trigger] any[j])) && 0 <= i
                < all.len() && !pattern(all[i]) && (forall|j: int|
                0 <= j < i ==> pattern(#[trigger] all[j])) ==> rule_failure(rule) == Some(
                no_pattern(rule.name, "interfaces.all"@, all[i]),
            )
        }),
{
    let m = rule.matcher;
    let any = m.interfaces.any;
    let all = m.interfaces.all;
    if m.vendor_id is Some {
        law_hexadecimal_texts(m.vendor_id->0);
    }
    if m.product_id is Some {
        law_hexadecimal_texts(m.product_id->0);
    }
    lemma_patterns(rule.name, "interfaces.any"@, any);
    if 0 <= i < any.len() && !pattern(any[i]) && forall|j: int|
        0 <= j < i ==> pattern(#[trigger] any[j]) {
        lemma_first_pattern(rule.name, "interfaces.any"@, any, i);
    }
    if 0 <= i < all.len() && !pattern(all[i]) && forall|j: int|
        0 <= j < i ==> pattern(#[trigger] all[j]) {
        lemma_first_pattern(rule.name, "interfaces.all"@, all, i);
    }
}

// ---- Starting --------------------------------------------------------------------------------

/// The daemon starts to enforce a policy only where one of its rules allows, and does not ask for
/// hubs; unless the operator permits an empty policy. One whose rules all block is refused, and
/// so is one without rules.
pub proof fn law_enforcement_needs_an_allow_rule(p: PolicyView, config: ConfigView)
    requires
        config.mode == Mode::Enforce,
        !config.unsafe_allow_empty_policy,
    ensures
        start_failure(p, config) is None ==> exists|i: int|
            0 <= i < p.rules.len() && (#[trigger] p.rules[i]).action == Action::Allow
                && p.rules[i].matcher.is_hub != Some(true),
        (forall|i: int| 0 <= i < p.rules.len() ==> (#[trigger] p.rules[i]).action == Action::Block)
            ==> start_failure(p, config) is Some,
        (forall|i: int|
            0 <= i < p.rules.len() ==> (#[trigger] p.rules[i]).matcher.is_hub == Some(true))
            ==> start_failure(p, config) is Some,
{
    if start_failure(p, config) is None {
        let i = choose|i: int| 0 <= i < p.rules.len() && allows_endpoint(#[trigger] p.rules[i]);
        assert(p.rules[i].action == Action::Allow);
    }
}

/// The daemon starts with a policy exactly where every rule is well formed and either nothing is
/// enforced, or the operator permits an empty policy, or some rule allows without asking for hubs.
/// A well-formed policy is refused with what the operator can do about it.
pub proof fn law_policies_to_start_with(p: PolicyView, config: ConfigView)
    ensures
        start_failure(p, config) is None <==> {
            &&& forall|i: int| 0 <= i < p.rules.len() ==> well_formed(#[trigger] p.rules[i])
            &&& {
                ||| config.mode == Mode::DryRun
                ||| config.unsafe_allow_empty_policy
                ||| exists|i: int|
                    0 <= i < p.rules.len() && (#[trigger] p.rules[i]).action == Action::Allow
                        && p.rules[i].matcher.is_hub != Some(true)
            }
        },
        policy_failure(p) is Some ==> start_failure(p, config) == policy_failure(p),
        policy_failure(p) is None && start_failure(p, config) is Some ==> start_failure(p, config)
            == Some(
            ErrorView::Policy(
                "refusing to enforce without at least one allow rule that can match a non-hub USB device; add a policy or set unsafe_allow_empty_policy = true"@,
            ),
        ),
{
    law_accepted_policies(p);
    if exists|i: int|
        0 <= i < p.rules.len() && (#[trigger] p.rules[i]).action == Action::Allow
            && p.rules[i].matcher.is_hub != Some(true) {
        let i = choose|i: int|
            0 <= i < p.rules.len() && (#[trigger] p.rules[i]).action == Action::Allow
                && p.rules[i].matcher.is_hub != Some(true);
        assert(allows_endpoint(p.rules[i]));
        assert(allows_some_endpoint(p));
    }
    if allows_some_endpoint(p) {
        let i = choose|i: int| 0 <= i < p.rules.len() && allows_endpoint(#[trigger] p.rules[i]);
        assert(p.rules[i].action == Action::Allow);
    }
}

/// To take a rule that blocks out of a policy, or to let it ask for anything else, makes no
/// difference to whether some rule lets a device in.
pub proof fn law_blocking_rules_do_not_let_in(p: PolicyView, k: int, config: ConfigView)
    requires
        0 <= k < p.rules.len(),
        p.rules[k].action == Action::Block,
        policy_failure(p) is None,
    ensures
        start_failure(p, config) is None <==> start_failure(
            PolicyView { rules: p.rules.remove(k), ..p },
            config,
        ) is None,
{
    let q = PolicyView { rules: p.rules.remove(k), ..p };
    law_accepted_policies(p);
    law_policies_to_start_with(p, config);
    law_policies_to_start_with(q, config);
    assert forall|i: int| 0 <= i < q.rules.len() implies well_formed(#[trigger] q.rules[i]) by {
        assert(q.rules[i] == p.rules[if i < k { i } else { i + 1 }]);
    }
    if exists|i: int|
        0 <= i < p.rules.len() && (#[trigger] p.rules[i]).action == Action::Allow
            && p.rules[i].matcher.is_hub != Some(true) {
        let i = choose|i: int|
            0 <= i < p.rules.len() && (#[trigger] p.rules[i]).action == Action::Allow
                && p.rules[i].matcher.is_hub != Some(true);
        assert(q.rules[if i < k { i } else { i - 1 }] == p.rules[i]);
    }
    if exists|i: int|
        0 <= i < q.rules.len() && (#[trigger] q.rules[i]).action == Action::Allow
            && q.rules[i].matcher.is_hub != Some(true) {
        let i = choose|i: int|
            0 <= i < q.rules.len() && (#[trigger] q.rules[i]).action == Action::Allow
                && q.rules[i].matcher.is_hub != Some(true);
        assert(p.rules[if i < k { i } else { i + 1 }] == q.rules[i]);
    }
}

// ---- Loading ---------------------------------------------------------------------------------

/// A policy file gives the policy that it holds, where that is well formed. A file that is absent
/// gives the configured default without rules, but only where nothing is enforced or the operator
/// permits an empty policy. Nothing else gives a policy.
pub proof fn law_loaded_policies(path: Seq<char>, loaded: Loaded<Policy>, config: ConfigView)
    ensures
        loaded matches Loaded::Parsed(policy) ==> {
            &&& load_failure(path, loaded, config) is None <==> forall|i: int|
                0 <= i < policy@.rules.len() ==> well_formed(#[trigger] policy@.rules[i])
            &&& loaded_policy(loaded, config) == policy@
        },
        loaded matches Loaded::Malformed(message) ==> load_failure(path, loaded, config) == Some(
            ErrorView::Policy(path + ": "@ + message@),
        ),
        loaded matches Loaded::Unreadable(error) ==> {
            &&& load_failure(path, loaded, config) is None <==> error.kind == IoErrorKind::NotFound
                && (config.mode == Mode::DryRun || config.unsafe_allow_empty_policy)
            &&& load_failure(path, loaded, config) matches Some(told) ==> told == (ErrorView::Io {
                context: "failed to read policy "@ + path,
                source: error@,
            })
            &&& loaded_policy(loaded, config).default == config.default_action
            &&& loaded_policy(loaded, config).rules.len() == 0
        },
{
    if let Loaded::Parsed(policy) = loaded {
        law_accepted_policies(policy@);
    }
}

} // verus!
