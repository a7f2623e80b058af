//! Checking policies: which rules are well formed, and which policies enforcement may start with.
use super::{
    Action, DeviceMatcher, DeviceMatcherView, InterfaceMatcher, InterfaceMatcherView, Policy,
    PolicyView, Rule, RuleView,
};
use crate::config::{permits_empty_policy, Config, ConfigView, Loaded, Mode};
use crate::error::{failure, first_failure, Error, ErrorView, IoErrorKind};
use crate::text::{
    all_hex, blank, chars_of, debug_string, debug_text, decimal, decimal_string, is_all_hex,
    is_blank, split, split_chars,
};
use vstd::prelude::*;

verus! {

// ---- What is wrong with a policy -------------------------------------------------------------

/// A matcher asks something.
pub open spec fn has_criteria(m: DeviceMatcherView) -> bool {
    ||| m.vendor_id is Some
    ||| m.product_id is Some
    ||| m.serial is Some
    ||| m.product_name is Some
    ||| m.connect_type is Some
    ||| m.port_path is Some
    ||| m.descriptor_hash is Some
    ||| m.is_hub is Some
    ||| m.interfaces.any.len() > 0
    ||| m.interfaces.all.len() > 0
}

/// A segment of an interface pattern: `*`, or two hexadecimal digits.
pub open spec fn valid_segment(s: Seq<char>) -> bool {
    s == seq!['*'] || (s.len() == 2 && all_hex(s))
}

/// An interface pattern `cc:ss:pp`.
pub open spec fn valid_pattern(pattern: Seq<char>) -> bool {
    let p = split(pattern, ':');
    &&& p.len() == 3
    &&& valid_segment(p[0])
    &&& valid_segment(p[1])
    &&& valid_segment(p[2])
}

pub open spec fn empty_matcher_failure(quoted: Seq<char>) -> ErrorView {
    ErrorView::Policy(
        "policy rule "@ + quoted + " has an empty matcher; add at least one match field"@,
    )
}

pub open spec fn hex_failure(quoted: Seq<char>, field: Seq<char>, length: nat) -> ErrorView {
    ErrorView::Policy(
        "policy rule "@ + quoted + " field "@ + field + " must be "@ + decimal(length)
            + " hexadecimal characters"@,
    )
}

pub open spec fn empty_field_failure(quoted: Seq<char>, field: Seq<char>) -> ErrorView {
    ErrorView::Policy("policy rule "@ + quoted + " field "@ + field + " cannot be empty"@)
}

pub open spec fn pattern_failure(
    quoted: Seq<char>,
    field: Seq<char>,
    quoted_pattern: Seq<char>,
) -> ErrorView {
    ErrorView::Policy(
        "policy rule "@ + quoted + " field "@ + field + " has invalid interface pattern "@
            + quoted_pattern + "; expected cc:ss:pp with two hex digits or * per segment"@,
    )
}

/// What is wrong with a field that has to hold a fixed number of hexadecimal digits.
pub open spec fn hex_field_failure(
    name: Seq<char>,
    field: Seq<char>,
    value: Option<Seq<char>>,
    length: nat,
) -> Option<ErrorView> {
    if value is None || (value->0.len() == length && all_hex(value->0)) {
        None
    } else {
        Some(hex_failure(debug_text(name), field, length))
    }
}

/// What is wrong with a field that must not be empty.
pub open spec fn text_field_failure(
    name: Seq<char>,
    field: Seq<char>,
    value: Option<Seq<char>>,
) -> Option<ErrorView> {
    if value is None || value->0.len() > 0 {
        None
    } else {
        Some(empty_field_failure(debug_text(name), field))
    }
}

/// What is wrong with the first malformed pattern of a list.
pub open spec fn patterns_failure(
    name: Seq<char>,
    field: Seq<char>,
    patterns: Seq<Seq<char>>,
) -> Option<ErrorView>
    decreases patterns.len(),
{
    if patterns.len() == 0 {
        None
    } else if !valid_pattern(patterns[0]) {
        Some(pattern_failure(debug_text(name), field, debug_text(patterns[0])))
    } else {
        patterns_failure(name, field, patterns.drop_first())
    }
}

pub open spec fn interfaces_failure(name: Seq<char>, m: InterfaceMatcherView) -> Option<ErrorView> {
    first_failure(
        patterns_failure(name, "interfaces.any"@, m.any),
        patterns_failure(name, "interfaces.all"@, m.all),
    )
}

/// What is wrong with the fields of a matcher, in the order in which they are checked.
pub open spec fn fields_failure(name: Seq<char>, m: DeviceMatcherView) -> Option<ErrorView> {
    first_failure(
        hex_field_failure(name, "vendor_id"@, m.vendor_id, 4),
        first_failure(
            hex_field_failure(name, "product_id"@, m.product_id, 4),
            first_failure(
                text_field_failure(name, "serial"@, m.serial),
                first_failure(
                    text_field_failure(name, "product_name"@, m.product_name),
                    first_failure(
                        text_field_failure(name, "connect_type"@, m.connect_type),
                        first_failure(
                            text_field_failure(name, "port_path"@, m.port_path),
                            first_failure(
                                text_field_failure(name, "descriptor_hash"@, m.descriptor_hash),
                                interfaces_failure(name, m.interfaces),
                            ),
                        ),
                    ),
                ),
            ),
        ),
    )
}

pub open spec fn matcher_failure(name: Seq<char>, m: DeviceMatcherView) -> Option<ErrorView> {
    if !has_criteria(m) {
        Some(empty_matcher_failure(debug_text(name)))
    } else {
        fields_failure(name, m)
    }
}

pub open spec fn rule_failure(rule: RuleView) -> Option<ErrorView> {
    if blank(rule.name) {
        Some(ErrorView::Policy("policy rule name cannot be empty"@))
    } else {
        matcher_failure(rule.name, rule.matcher)
    }
}

/// What is wrong with the first malformed rule of a list.
pub open spec fn rules_failure(rules: Seq<RuleView>) -> Option<ErrorView>
    decreases rules.len(),
{
    if rules.len() == 0 {
        None
    } else {
        first_failure(rule_failure(rules[0]), rules_failure(rules.drop_first()))
    }
}

/// What is wrong with a policy.
pub open spec fn policy_failure(p: PolicyView) -> Option<ErrorView> {
    rules_failure(p.rules)
}

/// A rule can allow a device that is not a hub.
pub open spec fn allows_endpoint(rule: RuleView) -> bool {
    rule.action == Action::Allow && rule.matcher.is_hub != Some(true)
}

/// Some rule can allow a device that is not a hub.
pub open spec fn allows_some_endpoint(p: PolicyView) -> bool {
    exists|i: int| 0 <= i < p.rules.len() && allows_endpoint(#[trigger] p.rules[i])
}

pub open spec fn lockout_failure() -> ErrorView {
    ErrorView::Policy(
        "refusing to enforce without at least one allow rule that can match a non-hub USB device; add a policy or set unsafe_allow_empty_policy = true"@,
    )
}

/// What keeps the daemon from starting with a policy: a malformed rule, or that enforcing it would
/// lock every device out.
pub open spec fn start_failure(p: PolicyView, config: ConfigView) -> Option<ErrorView> {
    if policy_failure(p) is Some {
        policy_failure(p)
    } else if permits_empty_policy(config) || allows_some_endpoint(p) {
        None
    } else {
        Some(lockout_failure())
    }
}

// ---- Messages --------------------------------------------------------------------------------

/// The error of a matcher that asks nothing. `quoted` is the rule's name in quotes.
pub fn empty_matcher_error(quoted: &str) -> (r: Error)
    ensures
        r@ == empty_matcher_failure(quoted@),
{
    let mut text = "policy rule ".to_owned();
    text.append(quoted);
    text.append(" has an empty matcher; add at least one match field");
    Error::Policy(text)
}

/// The error of a field that is not made of `length` hexadecimal digits.
pub fn hex_error(quoted: &str, field: &str, length: usize) -> (r: Error)
    ensures
        r@ == hex_failure(quoted@, field@, length as nat),
{
    let mut text = "policy rule ".to_owned();
    text.append(quoted);
    text.append(" field ");
    text.append(field);
    text.append(" must be ");
    let digits = decimal_string(length as u64);
    text.append(digits.as_str());
    text.append(" hexadecimal characters");
    Error::Policy(text)
}

/// The error of a field that is empty.
pub fn empty_field_error(quoted: &str, field: &str) -> (r: Error)
    ensures
        r@ == empty_field_failure(quoted@, field@),
{
    let mut text = "policy rule ".to_owned();
    text.append(quoted);
    text.append(" field ");
    text.append(field);
    text.append(" cannot be empty");
    Error::Policy(text)
}

/// The error of a malformed interface pattern. Both the rule's name and the pattern are in quotes.
pub fn pattern_error(quoted: &str, field: &str, quoted_pattern: &str) -> (r: Error)
    ensures
        r@ == pattern_failure(quoted@, field@, quoted_pattern@),
{
    let mut text = "policy rule ".to_owned();
    text.append(quoted);
    text.append(" field ");
    text.append(field);
    text.append(" has invalid interface pattern ");
    text.append(quoted_pattern);
    text.append("; expected cc:ss:pp with two hex digits or * per segment");
    Error::Policy(text)
}

fn invalid_interface_pattern(rule_name: &str, field: &str, pattern: &str) -> (r: Error)
    ensures
        r@ == pattern_failure(debug_text(rule_name@), field@, debug_text(pattern@)),
{
    let quoted = debug_string(rule_name);
    let quoted_pattern = debug_string(pattern);
    pattern_error(quoted.as_str(), field, quoted_pattern.as_str())
}

// ---- Checks ----------------------------------------------------------------------------------

fn validate_optional_hex(
    rule_name: &str,
    field: &str,
    value: &Option<String>,
    expected_len: usize,
) -> (r: Result<(), Error>)
    ensures
        failure(r) == hex_field_failure(
            rule_name@,
            field@,
            value.deep_view(),
            expected_len as nat,
        ),
{
    match value {
        None => Ok(()),
        Some(value) => {
            let chars = chars_of(value.as_str());
            if chars.len() == expected_len && is_all_hex(&chars) {
                return Ok(());
            }
            let quoted = debug_string(rule_name);
            Err(hex_error(quoted.as_str(), field, expected_len))
        },
    }
}

fn validate_optional_non_empty(rule_name: &str, field: &str, value: &Option<String>) -> (r: Result<
    (),
    Error,
>)
    ensures
        failure(r) == text_field_failure(rule_name@, field@, value.deep_view()),
{
    match value {
        None => Ok(()),
        Some(value) => {
            if !value.as_str().is_empty() {
                return Ok(());
            }
            let quoted = debug_string(rule_name);
            Err(empty_field_error(quoted.as_str(), field))
        },
    }
}

fn is_valid_segment(s: &[char]) -> (r: bool)
    ensures
        r == valid_segment(s@),
{
    if s.len() == 1 && s[0] == '*' {
        assert(s@ =~= seq!['*']);
        return true;
    }
    s.len() == 2 && is_all_hex(s)
}

/// Whether a text is an interface pattern `cc:ss:pp`.
pub fn is_valid_pattern(pattern: &str) -> (r: bool)
    ensures
        r == valid_pattern(pattern@),
{
    let chars = chars_of(pattern);
    let p = split_chars(&chars, ':');
    if p.len() != 3 {
        assert(p.deep_view().len() != 3);
        return false;
    }
    proof {
        assert(p.deep_view().len() == 3);
        assert(p.deep_view()[0] =~= p@[0]@);
        assert(p.deep_view()[1] =~= p@[1]@);
        assert(p.deep_view()[2] =~= p@[2]@);
    }
    is_valid_segment(&p[0]) && is_valid_segment(&p[1]) && is_valid_segment(&p[2])
}

fn validate_patterns(rule_name: &str, field: &str, patterns: &Vec<String>) -> (r: Result<
    (),
    Error,
>)
    ensures
        failure(r) == patterns_failure(rule_name@, field@, patterns.deep_view()),
{
    let ghost all = patterns.deep_view();
    assert(all.skip(0) =~= all);
    for i in 0..patterns.len()
        invariant
            all == patterns.deep_view(),
            patterns_failure(rule_name@, field@, all) == patterns_failure(
                rule_name@,
                field@,
                all.skip(i as int),
            ),
    {
        proof {
            assert(all.skip(i as int)[0] == patterns@[i as int]@);
            assert(all.skip(i as int).drop_first() =~= all.skip(i + 1));
        }
        if !is_valid_pattern(patterns[i].as_str()) {
            return Err(invalid_interface_pattern(rule_name, field, patterns[i].as_str()));
        }
    }
    Ok(())
}

impl InterfaceMatcher {
    fn validate(&self, rule_name: &str) -> (r: Result<(), Error>)
        ensures
            failure(r) == interfaces_failure(rule_name@, self@),
    {
        match validate_patterns(rule_name, "interfaces.any", &self.any) {
            Err(error) => Err(error),
            Ok(()) => validate_patterns(rule_name, "interfaces.all", &self.all),
        }
    }
}

impl DeviceMatcher {
    fn has_criteria(&self) -> (r: bool)
        ensures
            r == has_criteria(self@),
    {
        self.vendor_id.is_some() || self.product_id.is_some() || self.serial.is_some()
            || self.product_name.is_some() || self.connect_type.is_some()
            || self.port_path.is_some() || self.descriptor_hash.is_some() || self.is_hub.is_some()
            || self.interfaces.any.len() > 0 || self.interfaces.all.len() > 0
    }

    fn can_match_endpoint(&self) -> (r: bool)
        ensures
            r == (self@.is_hub != Some(true)),
    {
        match self.is_hub {
            Some(is_hub) => !is_hub,
            None => true,
        }
    }

    fn validate(&self, rule_name: &str) -> (r: Result<(), Error>)
        ensures
            failure(r) == matcher_failure(rule_name@, self@),
    {
        if !self.has_criteria() {
            let quoted = debug_string(rule_name);
            return Err(empty_matcher_error(quoted.as_str()));
        }
        if let Err(error) = validate_optional_hex(rule_name, "vendor_id", &self.vendor_id, 4) {
            return Err(error);
        }
        if let Err(error) = validate_optional_hex(rule_name, "product_id", &self.product_id, 4) {
            return Err(error);
        }
        if let Err(error) = validate_optional_non_empty(rule_name, "serial", &self.serial) {
            return Err(error);
        }
        if let Err(error) = validate_optional_non_empty(
            rule_name,
            "product_name",
            &self.product_name,
        ) {
            return Err(error);
        }
        if let Err(error) = validate_optional_non_empty(
            rule_name,
            "connect_type",
            &self.connect_type,
        ) {
            return Err(error);
        }
        if let Err(error) = validate_optional_non_empty(rule_name, "port_path", &self.port_path) {
            return Err(error);
        }
        if let Err(error) = validate_optional_non_empty(
            rule_name,
            "descriptor_hash",
            &self.descriptor_hash,
        ) {
            return Err(error);
        }
        self.interfaces.validate(rule_name)
    }
}

impl Rule {
    fn validate(&self) -> (r: Result<(), Error>)
        ensures
            failure(r) == rule_failure(self@),
    {
        if is_blank(self.name.as_str()) {
            return Err(Error::Policy("policy rule name cannot be empty".to_owned()));
        }
        self.matcher.validate(self.name.as_str())
    }
}

impl Policy {
    /// Checks every rule. The error is that of the first malformed one.
    pub fn validate(&self) -> (r: Result<(), Error>)
        ensures
            failure(r) == policy_failure(self@),
    {
        let ghost rules = self@.rules;
        assert(rules.skip(0) =~= rules);
        for i in 0..self.rules.len()
            invariant
                rules == self.rules.deep_view(),
                rules_failure(rules) == rules_failure(rules.skip(i as int)),
        {
            proof {
                assert(rules.skip(i as int)[0] == self.rules@[i as int]@);
                assert(rules.skip(i as int).drop_first() =~= rules.skip(i + 1));
            }
            if let Err(error) = self.rules[i].validate() {
                return Err(error);
            }
        }
        Ok(())
    }

    /// Whether some rule can allow a device that is not a hub.
    pub fn has_endpoint_allow_rule(&self) -> (r: bool)
        ensures
            r == allows_some_endpoint(self@),
    {
        let ghost rules = self@.rules;
        for i in 0..self.rules.len()
            invariant
                rules == self.rules.deep_view(),
                forall|j: int| 0 <= j < i ==> !allows_endpoint(#[trigger] rules[j]),
        {
            assert(rules[i as int] == self.rules@[i as int]@);
            if self.rules[i].action == Action::Allow && self.rules[i].matcher.can_match_endpoint() {
                assert(allows_endpoint(self@.rules[i as int]));
                return true;
            }
        }
        false
    }

    /// Checks that the daemon may start with the policy.
    pub fn validate_for_start(&self, config: &Config) -> (r: Result<(), Error>)
        ensures
            failure(r) == start_failure(self@, config@),
    {
        if let Err(error) = self.validate() {
            return Err(error);
        }
        if config.mode == Mode::DryRun || config.unsafe_allow_empty_policy {
            return Ok(());
        }
        if !self.has_endpoint_allow_rule() {
            return Err(
                Error::Policy(
                    "refusing to enforce without at least one allow rule that can match a non-hub USB device; add a policy or set unsafe_allow_empty_policy = true".to_owned(),
                ),
            );
        }
        Ok(())
    }
}

// ---- Loading ---------------------------------------------------------------------------------

/// What keeps a policy file from being loaded.
pub open spec fn load_failure(
    path: Seq<char>,
    loaded: Loaded<Policy>,
    config: ConfigView,
) -> Option<ErrorView> {
    match loaded {
        Loaded::Parsed(policy) => policy_failure(policy@),
        Loaded::Malformed(message) => Some(ErrorView::Policy(path + ": "@ + message@)),
        Loaded::Unreadable(error) => if error.kind == IoErrorKind::NotFound && permits_empty_policy(
            config,
        ) {
            None
        } else {
            Some(ErrorView::Io { context: "failed to read policy "@ + path, source: error@ })
        },
    }
}

/// The policy that a file gives: its own, or the configured default where the file is absent.
pub open spec fn loaded_policy(loaded: Loaded<Policy>, config: ConfigView) -> PolicyView {
    match loaded {
        Loaded::Parsed(policy) => policy@,
        _ => PolicyView { default: config.default_action, rules: Seq::empty() },
    }
}

impl Policy {
    /// The policy that a file gives. An absent file gives an empty policy where startup without
    /// rules is permitted.
    pub fn load(path: &str, loaded: Loaded<Policy>, config: &Config) -> (r: Result<Self, Error>)
        ensures
            r is Ok <==> load_failure(path@, loaded, config@) is None,
            r matches Err(error) ==> Some(error@) == load_failure(path@, loaded, config@),
            r matches Ok(policy) ==> policy@ == loaded_policy(loaded, config@),
    {
        match loaded {
            Loaded::Parsed(policy) => match policy.validate() {
                Ok(()) => Ok(policy),
                Err(error) => Err(error),
            },
            Loaded::Malformed(message) => {
                let mut text = path.to_owned();
                text.append(": ");
                text.append(message.as_str());
                Err(Error::Policy(text))
            },
            Loaded::Unreadable(error) => {
                if error.kind == IoErrorKind::NotFound && (config.mode == Mode::DryRun
                    || config.unsafe_allow_empty_policy) {
                    let policy = Policy { default: config.default_action, rules: Vec::new() };
                    assert(policy.rules.deep_view() =~= Seq::empty());
                    Ok(policy)
                } else {
                    let mut text = "failed to read policy ".to_owned();
                    text.append(path);
                    Err(Error::io(text, error))
                }
            },
        }
    }
}

} // verus!
