//! Policies: ordered rules that decide which USB devices are authorized.
use crate::sequence::{first_index, lemma_first_index_is};
use crate::sysfs::{UsbDevice, UsbDeviceView};
use crate::text::{
    chars_of, clone_strings, lower, same_ignoring_case, same_text, split, split_chars,
};
use vstd::prelude::*;

pub mod generation;
pub mod generation_laws;
pub mod laws;
pub mod matching_laws;
pub mod start_laws;
pub mod validation;

verus! {

/// What is done with a device.
#[derive(Clone, Copy, Debug, PartialEq, Eq, Structural)]
pub enum Action {
    Allow,
    Block,
}

/// The name of an action.
pub open spec fn action_name(action: Action) -> Seq<char> {
    match action {
        Action::Allow => "allow"@,
        Action::Block => "block"@,
    }
}

impl Action {
    pub fn as_str(self) -> (r: &'static str)
        ensures
            r@ == action_name(self),
    {
        match self {
            Action::Allow => "allow",
            Action::Block => "block",
        }
    }

    /// Whether the action authorizes the device.
    pub fn authorized(self) -> (r: bool)
        ensures
            r == (self == Action::Allow),
    {
        match self {
            Action::Allow => true,
            Action::Block => false,
        }
    }
}

// ---- Types -----------------------------------------------------------------------------------

/// Ordered rules, and what is done with a device that none of them matches.
#[derive(Debug, PartialEq, Eq)]
pub struct Policy {
    pub default: Action,
    pub rules: Vec<Rule>,
}

#[derive(Debug, PartialEq, Eq)]
pub struct Rule {
    pub name: String,
    pub action: Action,
    pub matcher: DeviceMatcher,
}

/// What a device has to be like for a rule to apply. A field that is `None` asks nothing.
#[derive(Debug, PartialEq, Eq)]
pub struct DeviceMatcher {
    pub vendor_id: Option<String>,
    pub product_id: Option<String>,
    pub serial: Option<String>,
    pub product_name: Option<String>,
    pub connect_type: Option<String>,
    pub port_path: Option<String>,
    pub descriptor_hash: Option<String>,
    pub is_hub: Option<bool>,
    pub interfaces: InterfaceMatcher,
}

/// Patterns for a device's interfaces: one of `any` has to match, and each of `all`.
#[derive(Debug, PartialEq, Eq)]
pub struct InterfaceMatcher {
    pub any: Vec<String>,
    pub all: Vec<String>,
}

/// What is to be done with one device, and why.
#[derive(Debug, PartialEq, Eq)]
pub struct Decision {
    pub device_id: u32,
    pub action: Action,
    pub reason: String,
    pub rule: Option<String>,
}

#[verifier::ext_equal]
pub struct PolicyView {
    pub default: Action,
    pub rules: Seq<RuleView>,
}

#[verifier::ext_equal]
pub struct RuleView {
    pub name: Seq<char>,
    pub action: Action,
    pub matcher: DeviceMatcherView,
}

#[verifier::ext_equal]
pub struct DeviceMatcherView {
    pub vendor_id: Option<Seq<char>>,
    pub product_id: Option<Seq<char>>,
    pub serial: Option<Seq<char>>,
    pub product_name: Option<Seq<char>>,
    pub connect_type: Option<Seq<char>>,
    pub port_path: Option<Seq<char>>,
    pub descriptor_hash: Option<Seq<char>>,
    pub is_hub: Option<bool>,
    pub interfaces: InterfaceMatcherView,
}

#[verifier::ext_equal]
pub struct InterfaceMatcherView {
    pub any: Seq<Seq<char>>,
    pub all: Seq<Seq<char>>,
}

#[verifier::ext_equal]
pub struct DecisionView {
    pub device_id: u32,
    pub action: Action,
    pub reason: Seq<char>,
    pub rule: Option<Seq<char>>,
}

impl View for Policy {
    type V = PolicyView;

    open spec fn view(&self) -> PolicyView {
        PolicyView { default: self.default, rules: self.rules.deep_view() }
    }
}

impl View for Rule {
    type V = RuleView;

    open spec fn view(&self) -> RuleView {
        RuleView { name: self.name@, action: self.action, matcher: self.matcher@ }
    }
}

impl DeepView for Rule {
    type V = RuleView;

    open spec fn deep_view(&self) -> RuleView {
        self@
    }
}

impl View for DeviceMatcher {
    type V = DeviceMatcherView;

    open spec fn view(&self) -> DeviceMatcherView {
        DeviceMatcherView {
            vendor_id: self.vendor_id.deep_view(),
            product_id: self.product_id.deep_view(),
            serial: self.serial.deep_view(),
            product_name: self.product_name.deep_view(),
            connect_type: self.connect_type.deep_view(),
            port_path: self.port_path.deep_view(),
            descriptor_hash: self.descriptor_hash.deep_view(),
            is_hub: self.is_hub,
            interfaces: self.interfaces@,
        }
    }
}

impl View for InterfaceMatcher {
    type V = InterfaceMatcherView;

    open spec fn view(&self) -> InterfaceMatcherView {
        InterfaceMatcherView { any: self.any.deep_view(), all: self.all.deep_view() }
    }
}

impl View for Decision {
    type V = DecisionView;

    open spec fn view(&self) -> DecisionView {
        DecisionView {
            device_id: self.device_id,
            action: self.action,
            reason: self.reason@,
            rule: self.rule.deep_view(),
        }
    }
}

impl DeepView for Decision {
    type V = DecisionView;

    open spec fn deep_view(&self) -> DecisionView {
        self@
    }
}

impl Clone for Policy {
    fn clone(&self) -> (r: Self)
        ensures
            r@ == self@,
    {
        let mut rules: Vec<Rule> = Vec::new();
        for i in 0..self.rules.len()
            invariant
                rules@.len() == i,
                forall|j: int| 0 <= j < i ==> (#[trigger] rules@[j])@ == self.rules@[j]@,
        {
            rules.push(self.rules[i].clone());
        }
        assert(rules.deep_view() =~= self.rules.deep_view());
        Policy { default: self.default, rules }
    }
}

impl Clone for Rule {
    fn clone(&self) -> (r: Self)
        ensures
            r@ == self@,
    {
        Rule { name: self.name.clone(), action: self.action, matcher: self.matcher.clone() }
    }
}

impl Clone for DeviceMatcher {
    fn clone(&self) -> (r: Self)
        ensures
            r@ == self@,
    {
        DeviceMatcher {
            vendor_id: self.vendor_id.clone(),
            product_id: self.product_id.clone(),
            serial: self.serial.clone(),
            product_name: self.product_name.clone(),
            connect_type: self.connect_type.clone(),
            port_path: self.port_path.clone(),
            descriptor_hash: self.descriptor_hash.clone(),
            is_hub: self.is_hub,
            interfaces: self.interfaces.clone(),
        }
    }
}

impl Clone for InterfaceMatcher {
    fn clone(&self) -> (r: Self)
        ensures
            r@ == self@,
    {
        InterfaceMatcher { any: clone_strings(&self.any), all: clone_strings(&self.all) }
    }
}

impl Clone for Decision {
    fn clone(&self) -> (r: Self)
        ensures
            r@ == self@,
    {
        Decision {
            device_id: self.device_id,
            action: self.action,
            reason: self.reason.clone(),
            rule: self.rule.clone(),
        }
    }
}

impl Default for Policy {
    fn default() -> (r: Self)
        ensures
            r@ == (PolicyView { default: Action::Block, rules: Seq::empty() }),
    {
        let r = Policy { default: Action::Block, rules: Vec::new() };
        assert(r.rules.deep_view() =~= Seq::empty());
        r
    }
}

/// The matcher that asks nothing.
pub open spec fn empty_matcher() -> DeviceMatcherView {
    DeviceMatcherView {
        vendor_id: None,
        product_id: None,
        serial: None,
        product_name: None,
        connect_type: None,
        port_path: None,
        descriptor_hash: None,
        is_hub: None,
        interfaces: InterfaceMatcherView { any: Seq::empty(), all: Seq::empty() },
    }
}

impl Default for DeviceMatcher {
    fn default() -> (r: Self)
        ensures
            r@ == empty_matcher(),
    {
        DeviceMatcher {
            vendor_id: None,
            product_id: None,
            serial: None,
            product_name: None,
            connect_type: None,
            port_path: None,
            descriptor_hash: None,
            is_hub: None,
            interfaces: InterfaceMatcher::default(),
        }
    }
}

impl Default for InterfaceMatcher {
    fn default() -> (r: Self)
        ensures
            r@ == (InterfaceMatcherView { any: Seq::empty(), all: Seq::empty() }),
    {
        let r = InterfaceMatcher { any: Vec::new(), all: Vec::new() };
        assert(r.any.deep_view() =~= Seq::empty());
        assert(r.all.deep_view() =~= Seq::empty());
        r
    }
}

// ---- Matching --------------------------------------------------------------------------------

/// A pattern segment matches a value segment: it is `*`, or equal to it up to ASCII case.
pub open spec fn segment_matches(pattern: Seq<char>, value: Seq<char>) -> bool {
    pattern == seq!['*'] || lower(pattern) == lower(value)
}

/// An interface pattern `cc:ss:pp` matches an interface: both have three segments, and they match
/// one by one.
pub open spec fn interface_match(pattern: Seq<char>, value: Seq<char>) -> bool {
    let p = split(pattern, ':');
    let v = split(value, ':');
    &&& p.len() == 3
    &&& v.len() == 3
    &&& segment_matches(p[0], v[0])
    &&& segment_matches(p[1], v[1])
    &&& segment_matches(p[2], v[2])
}

/// A pattern matches one of the interfaces.
pub open spec fn some_interface_matches(pattern: Seq<char>, interfaces: Seq<Seq<char>>) -> bool {
    exists|j: int| 0 <= j < interfaces.len() && interface_match(pattern, #[trigger] interfaces[j])
}

/// An interface matcher accepts a device's interfaces.
pub open spec fn interfaces_match(m: InterfaceMatcherView, interfaces: Seq<Seq<char>>) -> bool {
    &&& m.any.len() == 0 || exists|i: int|
        0 <= i < m.any.len() && some_interface_matches(#[trigger] m.any[i], interfaces)
    &&& forall|i: int|
        0 <= i < m.all.len() ==> some_interface_matches(#[trigger] m.all[i], interfaces)
}

/// Nothing is asked, or the value is the one asked for.
pub open spec fn asks_for(expected: Option<Seq<char>>, actual: Option<Seq<char>>) -> bool {
    expected is None || expected == actual
}

/// Nothing is asked, or the value is the one asked for, up to ASCII case.
pub open spec fn asks_for_ignoring_case(expected: Option<Seq<char>>, actual: Seq<char>) -> bool {
    expected is None || lower(expected->0) == lower(actual)
}

/// A device is as a matcher asks: every field that asks something is satisfied.
pub open spec fn device_matches(m: DeviceMatcherView, d: UsbDeviceView) -> bool {
    &&& asks_for_ignoring_case(m.vendor_id, d.vendor_id)
    &&& asks_for_ignoring_case(m.product_id, d.product_id)
    &&& asks_for(m.serial, d.serial)
    &&& asks_for(m.product_name, d.product_name)
    &&& asks_for(m.connect_type, d.connect_type)
    &&& asks_for(m.port_path, Some(d.port_path))
    &&& asks_for(m.descriptor_hash, d.descriptor_hash)
    &&& m.is_hub is None || m.is_hub == Some(d.is_hub)
    &&& interfaces_match(m.interfaces, d.interfaces)
}

fn segment_match(pattern: &[char], value: &[char]) -> (r: bool)
    ensures
        r == segment_matches(pattern@, value@),
{
    if pattern.len() == 1 && pattern[0] == '*' {
        assert(pattern@ =~= seq!['*']);
        return true;
    }
    same_ignoring_case(pattern, value)
}

/// Whether an interface pattern matches an interface.
pub fn interface_matches(pattern: &str, value: &str) -> (r: bool)
    ensures
        r == interface_match(pattern@, value@),
{
    let pattern_chars = chars_of(pattern);
    let value_chars = chars_of(value);
    let p = split_chars(&pattern_chars, ':');
    let v = split_chars(&value_chars, ':');
    if p.len() != 3 || v.len() != 3 {
        assert(p.deep_view().len() != 3 || v.deep_view().len() != 3);
        return false;
    }
    proof {
        assert(p.deep_view().len() == 3 && v.deep_view().len() == 3);
        assert(p.deep_view()[0] =~= p@[0]@);
        assert(p.deep_view()[1] =~= p@[1]@);
        assert(p.deep_view()[2] =~= p@[2]@);
        assert(v.deep_view()[0] =~= v@[0]@);
        assert(v.deep_view()[1] =~= v@[1]@);
        assert(v.deep_view()[2] =~= v@[2]@);
    }
    segment_match(&p[0], &v[0]) && segment_match(&p[1], &v[1]) && segment_match(&p[2], &v[2])
}

fn any_interface_matches(pattern: &str, interfaces: &Vec<String>) -> (r: bool)
    ensures
        r == some_interface_matches(pattern@, interfaces.deep_view()),
{
    let ghost all = interfaces.deep_view();
    for j in 0..interfaces.len()
        invariant
            all == interfaces.deep_view(),
            forall|k: int| 0 <= k < j ==> !interface_match(pattern@, #[trigger] all[k]),
    {
        if interface_matches(pattern, interfaces[j].as_str()) {
            assert(all[j as int] == interfaces@[j as int]@);
            return true;
        }
    }
    false
}

impl InterfaceMatcher {
    /// Whether the matcher accepts a device's interfaces.
    pub fn matches(&self, interfaces: &Vec<String>) -> (r: bool)
        ensures
            r == interfaces_match(self@, interfaces.deep_view()),
    {
        let ghost any = self@.any;
        let ghost all = self@.all;
        let ghost values = interfaces.deep_view();
        let mut any_matches = self.any.len() == 0;
        for i in 0..self.any.len()
            invariant
                any == self.any.deep_view(),
                values == interfaces.deep_view(),
                any_matches <==> any.len() == 0 || exists|k: int|
                    0 <= k < i && some_interface_matches(#[trigger] any[k], values),
        {
            let found = any_interface_matches(self.any[i].as_str(), interfaces);
            proof {
                assert(any[i as int] == self.any@[i as int]@);
                assert(found == some_interface_matches(any[i as int], values));
            }
            any_matches = any_matches || found;
        }
        if !any_matches {
            return false;
        }
        for i in 0..self.all.len()
            invariant
                all == self.all.deep_view(),
                values == interfaces.deep_view(),
                forall|k: int| 0 <= k < i ==> some_interface_matches(#[trigger] all[k], values),
        {
            if !any_interface_matches(self.all[i].as_str(), interfaces) {
                assert(self@.all[i as int] == self.all@[i as int]@);
                assert(!some_interface_matches(self@.all[i as int], values));
                return false;
            }
        }
        true
    }
}

fn matches_required_case_insensitive(expected: &Option<String>, actual: &str) -> (r: bool)
    ensures
        r == asks_for_ignoring_case(expected.deep_view(), actual@),
{
    match expected {
        None => true,
        Some(expected) => {
            let expected_chars = chars_of(expected.as_str());
            let actual_chars = chars_of(actual);
            same_ignoring_case(&expected_chars, &actual_chars)
        },
    }
}

fn matches_opt(expected: &Option<String>, actual: &Option<String>) -> (r: bool)
    ensures
        r == asks_for(expected.deep_view(), actual.deep_view()),
{
    match expected {
        None => true,
        Some(expected) => match actual {
            None => false,
            Some(actual) => same_text(expected.as_str(), actual.as_str()),
        },
    }
}

impl DeviceMatcher {
    /// Whether the device is as the matcher asks.
    pub fn matches(&self, device: &UsbDevice) -> (r: bool)
        ensures
            r == device_matches(self@, device@),
    {
        matches_required_case_insensitive(&self.vendor_id, device.vendor_id.as_str())
            && matches_required_case_insensitive(&self.product_id, device.product_id.as_str())
            && matches_opt(&self.serial, &device.serial) && matches_opt(
            &self.product_name,
            &device.product_name,
        ) && matches_opt(&self.connect_type, &device.connect_type) && self.matches_port(device)
            && matches_opt(&self.descriptor_hash, &device.descriptor_hash) && self.matches_hub(
            device,
        ) && self.interfaces.matches(&device.interfaces)
    }

    fn matches_port(&self, device: &UsbDevice) -> (r: bool)
        ensures
            r == asks_for(self@.port_path, Some(device@.port_path)),
    {
        match &self.port_path {
            None => true,
            Some(expected) => same_text(expected.as_str(), device.port_path.as_str()),
        }
    }

    fn matches_hub(&self, device: &UsbDevice) -> (r: bool)
        ensures
            r == (self@.is_hub is None || self@.is_hub == Some(device@.is_hub)),
    {
        match self.is_hub {
            None => true,
            Some(expected) => expected == device.is_hub,
        }
    }
}

// ---- Deciding --------------------------------------------------------------------------------

/// The predicate that a rule's matcher accepts the device.
pub open spec fn applies_to(d: UsbDeviceView) -> spec_fn(RuleView) -> bool {
    |rule: RuleView| device_matches(rule.matcher, d)
}

/// Hubs pass where the default blocks, so that the devices behind them can be decided upon.
pub open spec fn passes_as_hub(default: Action, d: UsbDeviceView) -> bool {
    default == Action::Block && d.is_hub
}

/// What a policy decides: the first rule that matches, else the default.
pub open spec fn policy_decision(p: PolicyView, d: UsbDeviceView) -> DecisionView {
    let i = first_index(p.rules, applies_to(d));
    if i < p.rules.len() {
        DecisionView {
            device_id: d.id,
            action: p.rules[i].action,
            reason: "matched rule"@,
            rule: Some(p.rules[i].name),
        }
    } else if passes_as_hub(p.default, d) {
        DecisionView {
            device_id: d.id,
            action: Action::Allow,
            reason: "USB hub passthrough"@,
            rule: None,
        }
    } else {
        DecisionView { device_id: d.id, action: p.default, reason: "default action"@, rule: None }
    }
}

fn default_action(default: Action, device: &UsbDevice) -> (r: Action)
    ensures
        r == (if passes_as_hub(default, device@) {
            Action::Allow
        } else {
            default
        }),
{
    if default == Action::Block && device.is_hub {
        Action::Allow
    } else {
        default
    }
}

fn default_reason(default: Action, device: &UsbDevice) -> (r: &'static str)
    ensures
        r@ == (if passes_as_hub(default, device@) {
            "USB hub passthrough"@
        } else {
            "default action"@
        }),
{
    if default == Action::Block && device.is_hub {
        "USB hub passthrough"
    } else {
        "default action"
    }
}

impl Policy {
    /// What the policy decides for a device.
    pub fn decide(&self, device: &UsbDevice) -> (r: Decision)
        ensures
            r@ == policy_decision(self@, device@),
    {
        let ghost rules = self@.rules;
        let ghost f = applies_to(device@);
        for i in 0..self.rules.len()
            invariant
                rules == self.rules.deep_view(),
                f == applies_to(device@),
                forall|j: int| 0 <= j < i ==> !f(#[trigger] rules[j]),
        {
            assert(rules[i as int] == self.rules@[i as int]@);
            if self.rules[i].matcher.matches(device) {
                proof {
                    lemma_first_index_is(rules, f, i as int);
                }
                return Decision {
                    device_id: device.id,
                    action: self.rules[i].action,
                    reason: "matched rule".to_owned(),
                    rule: Some(self.rules[i].name.clone()),
                };
            }
        }
        proof {
            lemma_first_index_is(rules, f, rules.len() as int);
        }
        Decision {
            device_id: device.id,
            action: default_action(self.default, device),
            reason: default_reason(self.default, device).to_owned(),
            rule: None,
        }
    }
}

} // verus!
