//! The form of the firewall editor: which field is selected, and the rule
//! that the input makes.

use crate::text::{trim, trimmed};
use vstd::prelude::*;
use vstd::string::{StrSliceExecFns, StringExecFns};

verus! {

/// Number of input fields: the address and the port.
pub const INPUT_FIELD_COUNT: usize = 2;

/// A rule of the packet filter.
#[derive(Clone, Copy, Debug, PartialEq, Eq)]
pub struct PacketFilterRule {
    /// Length of the network prefix that the rule matches.
    pub prefix: u32,
    /// The address, or the network address where the prefix is shorter.
    pub ip: [u8; 4],
    pub port: u16,
    pub shortlived: bool,
    /// Number of the transport protocol.
    pub proto: u16,
    /// Whether matches are logged.
    pub audit: bool,
    /// What happens to a packet that matches.
    pub action: u32,
}

/// Prefix of a rule for a single address.
pub const DEFAULT_PREFIX: u32 = 32;

/// Protocol number of TCP.
pub const TCP: u16 = 6;

/// The action that drops a packet.
pub const DROP: u32 = 1;

/// The screens of the editor.
#[derive(Clone, Copy, Debug, PartialEq, Eq)]
pub enum Mode {
    Firewall,
    FirewallEdit,
    FirewallForm,
}

/// What the editor is told to do, and what it tells others.
#[derive(Clone, Debug, PartialEq, Eq)]
pub enum Action {
    Cancel,
    Add,
    Up,
    Down,
    Render,
    UpdateMode(Mode),
    Error(String),
    Quit,
}

/// What the two fields hold, once read.
#[derive(Clone, Debug, PartialEq, Eq)]
pub enum FormInput {
    /// An address, a prefix where the input named a network, and a port.
    Rule { ip: [u8; 4], prefix: Option<u32>, port: u16 },
    /// The input could not be read; the text says why.
    Invalid(String),
}

/// What the two fields hold, as a mathematical value.
pub enum FormInputView {
    Rule { ip: [u8; 4], prefix: Option<u32>, port: u16 },
    Invalid(Seq<char>),
}

impl View for FormInput {
    type V = FormInputView;

    open spec fn view(&self) -> FormInputView {
        match self {
            FormInput::Rule { ip, prefix, port } => FormInputView::Rule {
                ip: *ip,
                prefix: *prefix,
                port: *port,
            },
            FormInput::Invalid(reason) => FormInputView::Invalid(reason@),
        }
    }
}

/// The network that a text in CIDR notation names, as `ipnet` reads it: the
/// address of the network and the length of its prefix. None where the text
/// names no network.
pub uninterp spec fn ipv4_net_of(text: Seq<char>) -> Option<([u8; 4], u8)>;

/// Calls `ipnet`'s parser of `Ipv4Net` and takes the network address and the
/// prefix length of what it read. Trusted: the result is a function of the
/// text alone, and a prefix is never longer than 32 bits.
#[verifier::external_body]
pub(crate) fn parse_net(text: &str) -> (net: Option<([u8; 4], u8)>)
    ensures
        net == ipv4_net_of(text@),
        net matches Some(n) ==> n.1 <= 32,
{
    match text.parse::<ipnet::Ipv4Net>() {
        Ok(net) => Some((net.network().octets(), net.prefix_len())),
        Err(_) => None,
    }
}

/// Whether a character is a decimal digit.
pub open spec fn is_digit(c: char) -> bool {
    48 <= c as u32 <= 57
}

/// Whether a text is made of decimal digits only.
pub open spec fn all_digits(text: Seq<char>) -> bool {
    forall|i: int| 0 <= i < text.len() ==> is_digit(#[trigger] text[i])
}

/// The number that decimal digits spell.
pub open spec fn digits_value(text: Seq<char>) -> nat
    decreases text.len(),
{
    if text.len() == 0 {
        0
    } else {
        digits_value(text.drop_last()) * 10 + (text.last() as u32 - 48) as nat
    }
}

/// The port that a text names: decimal digits, with a plus sign before them
/// or without, that spell a number of at most 65535. None for any other text.
pub open spec fn port_of(text: Seq<char>) -> Option<u16> {
    let digits = if text.len() > 0 && text[0] == '+' {
        text.skip(1)
    } else {
        text
    };
    if digits.len() == 0 || !all_digits(digits) || digits_value(digits) > 65535 {
        None
    } else {
        Some(digits_value(digits) as u16)
    }
}

/// What the fields hold, given what was read of them: an address where the
/// text of the first field is one, else the network that it names, and the
/// port that the second field names. An address or network that cannot be
/// read is reported before a port that cannot.
pub open spec fn classify(
    address: Option<[u8; 4]>,
    net: Option<([u8; 4], u8)>,
    port: Option<u16>,
) -> FormInputView {
    match (address, net, port) {
        (Some(ip), _, Some(p)) => FormInputView::Rule { ip, prefix: None, port: p },
        (None, Some(n), Some(p)) => FormInputView::Rule {
            ip: n.0,
            prefix: Some(n.1 as u32),
            port: p,
        },
        (None, None, _) => FormInputView::Invalid("Invalid IP"@),
        (_, _, None) => FormInputView::Invalid("Invalid port"@),
    }
}

/// Reads a port.
pub fn parse_port(text: &str) -> (port: Option<u16>)
    ensures
        port == port_of(text@),
{
    let n = text.unicode_len();
    let start: usize = if n > 0 && text.get_char(0) == '+' {
        1
    } else {
        0
    };
    if start == n {
        return None;
    }
    let ghost digits = text@.skip(start as int);
    assert(text@.skip(0) =~= text@);
    let mut value: u32 = 0;
    let mut i: usize = start;
    assert(digits.take(0) =~= Seq::<char>::empty());
    while i < n
        invariant
            start <= i <= n == text@.len(),
            digits == text@.skip(start as int),
            digits == (if text@.len() > 0 && text@[0] == '+' {
                text@.skip(1)
            } else {
                text@
            }),
            all_digits(digits.take(i - start)),
            value == (if digits_value(digits.take(i - start)) > 65535 {
                65536
            } else {
                digits_value(digits.take(i - start))
            }),
        decreases n - i,
    {
        let c = text.get_char(i);
        let code: u32 = c as u32;
        assert(digits[i - start] == c);
        if code < 48 || code > 57 {
            assert(!is_digit(digits[i - start]));
            return None;
        }
        proof {
            let next = digits.take(i - start + 1);
            assert(next.drop_last() =~= digits.take(i - start));
            assert(next.last() == c);
            assert forall|k: int| 0 <= k < next.len() implies is_digit(#[trigger] next[k]) by {
                if k < i - start {
                    assert(digits.take(i - start)[k] == next[k]);
                }
            }
        }
        let grown: u32 = value * 10 + (code - 48);
        value = if grown > 65535 {
            65536
        } else {
            grown
        };
        i += 1;
    }
    assert(digits.take(n - start) =~= digits);
    if value > 65535 {
        None
    } else {
        Some(value as u16)
    }
}

/// Says what the fields hold, given what was read of them.
pub fn classify_input(
    address: Option<[u8; 4]>,
    net: Option<([u8; 4], u8)>,
    port: Option<u16>,
) -> (input: FormInput)
    ensures
        input@ == classify(address, net, port),
{
    let (ip, prefix): ([u8; 4], Option<u32>) = match (address, net) {
        (Some(ip), _) => (ip, None),
        (None, Some(n)) => (n.0, Some(n.1 as u32)),
        (None, None) => {
            return FormInput::Invalid(String::from_str("Invalid IP"));
        },
    };
    match port {
        Some(p) => FormInput::Rule { ip, prefix, port: p },
        None => FormInput::Invalid(String::from_str("Invalid port")),
    }
}

/// Reads the two fields, each without the white space at its ends. `address`
/// is the address that the text of the first field spells, where it spells
/// one; where it spells none, the text is read as a network in CIDR notation.
/// The text of the second field is read as a port.
pub fn read_input(address: Option<[u8; 4]>, ip_text: &str, port_text: &str) -> (input: FormInput)
    ensures
        input@ == classify(address, ipv4_net_of(trimmed(ip_text@)), port_of(trimmed(port_text@))),
{
    let net = parse_net(trim(ip_text));
    let port = parse_port(trim(port_text));
    classify_input(address, net, port)
}

/// The state of the form.
#[derive(Clone, Copy, Debug, PartialEq, Eq)]
pub struct FirewallForm {
    /// The field that takes the keys: 0 for the address, 1 for the port.
    pub selected_input_field: usize,
    /// The rule that was entered and not taken yet.
    pub buf: Option<PacketFilterRule>,
}

/// The rule that an input makes: for TCP, logged, dropping, and for a single
/// address unless a prefix is given.
pub open spec fn rule_of(ip: [u8; 4], prefix: Option<u32>, port: u16) -> PacketFilterRule {
    PacketFilterRule {
        prefix: match prefix {
            Some(p) => p,
            None => DEFAULT_PREFIX,
        },
        ip,
        port,
        shortlived: false,
        proto: TCP,
        audit: true,
        action: DROP,
    }
}

/// Makes the rule of an input.
pub fn make_rule(ip: [u8; 4], prefix: Option<u32>, port: u16) -> (rule: PacketFilterRule)
    ensures
        rule == rule_of(ip, prefix, port),
{
    PacketFilterRule {
        prefix: match prefix {
            Some(p) => p,
            None => DEFAULT_PREFIX,
        },
        ip,
        port,
        shortlived: false,
        proto: TCP,
        audit: true,
        action: DROP,
    }
}

impl FirewallForm {
    /// What holds of every form: the selected field is one of the fields.
    pub open spec fn wf(self) -> bool {
        self.selected_input_field < INPUT_FIELD_COUNT
    }

    /// The form after an action, and what the form answers. `Cancel` and an
    /// `Add` whose input could be read lead back to the list, the latter with
    /// the rule kept for the taking; an `Add` whose input could not be read
    /// answers with the reason. `Up` and `Down` move the selection within the
    /// fields and ask for a redraw. Every other action is not for the form.
    pub open spec fn step(self, action: Action, input: FormInput) -> (FirewallForm, Option<Action>) {
        match action {
            Action::Cancel => (self, Some(Action::UpdateMode(Mode::FirewallEdit))),
            Action::Add => match input {
                FormInput::Rule { ip, prefix, port } => (
                    FirewallForm { buf: Some(rule_of(ip, prefix, port)), ..self },
                    Some(Action::UpdateMode(Mode::FirewallEdit)),
                ),
                FormInput::Invalid(reason) => (self, Some(Action::Error(reason))),
            },
            Action::Up => (
                FirewallForm {
                    selected_input_field: if self.selected_input_field > 0 {
                        (self.selected_input_field - 1) as usize
                    } else {
                        self.selected_input_field
                    },
                    ..self
                },
                Some(Action::Render),
            ),
            Action::Down => (
                FirewallForm {
                    selected_input_field: if self.selected_input_field < INPUT_FIELD_COUNT - 1 {
                        (self.selected_input_field + 1) as usize
                    } else {
                        self.selected_input_field
                    },
                    ..self
                },
                Some(Action::Render),
            ),
            _ => (self, None),
        }
    }

    /// Makes the form with the address field selected and no rule entered.
    pub fn new() -> (form: FirewallForm)
        ensures
            form == (FirewallForm { selected_input_field: 0, buf: None }),
            form.wf(),
    {
        FirewallForm { selected_input_field: 0, buf: None }
    }

    /// Keeps the rule that the input makes.
    pub fn update_filters_from_input(&mut self, ip: [u8; 4], prefix: Option<u32>, port: u16)
        ensures
            *final(self) == (FirewallForm { buf: Some(rule_of(ip, prefix, port)), ..*old(self) }),
    {
        self.buf = Some(make_rule(ip, prefix, port));
    }

    /// Takes the rule that was entered, leaving none.
    pub fn yank_input(&mut self) -> (rule: Option<PacketFilterRule>)
        ensures
            rule == old(self).buf,
            *final(self) == (FirewallForm { buf: None, ..*old(self) }),
    {
        let rule = self.buf;
        self.buf = None;
        rule
    }

    /// Handles an action, given what the fields hold.
    pub fn update(&mut self, action: Action, input: FormInput) -> (answer: Option<Action>)
        requires
            old(self).wf(),
        ensures
            (*final(self), answer) == old(self).step(action, input),
            final(self).wf(),
    {
        match action {
            Action::Cancel => Some(Action::UpdateMode(Mode::FirewallEdit)),
            Action::Add => match input {
                FormInput::Rule { ip, prefix, port } => {
                    self.update_filters_from_input(ip, prefix, port);
                    Some(Action::UpdateMode(Mode::FirewallEdit))
                },
                FormInput::Invalid(reason) => Some(Action::Error(reason)),
            },
            Action::Up => {
                if self.selected_input_field > 0 {
                    self.selected_input_field -= 1;
                }
                Some(Action::Render)
            },
            Action::Down => {
                if self.selected_input_field < INPUT_FIELD_COUNT - 1 {
                    self.selected_input_field += 1;
                }
                Some(Action::Render)
            },
            _ => None,
        }
    }
}

} // verus!
