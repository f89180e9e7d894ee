//! What a kind of driver says of itself: its name, the URL schemes that
//! select it, examples, and how to make a driver from an endpoint URL.

use super::driver::Driver;
use vstd::prelude::*;
use vstd::string::{StrSliceExecFns, StringExecFns};

verus! {

/// What the drivers read of an endpoint URL
/// `<scheme>://<host>:<port>[?option=value]`.
#[derive(Debug, Clone, PartialEq, Eq)]
pub struct EndpointUrl {
    /// The scheme, which selects the kind of driver.
    pub scheme: String,
    /// The host, where the URL names one.
    pub host: Option<String>,
    /// The port, where the URL names one.
    pub port: Option<u16>,
    /// The options of the query, in order, each with its value.
    pub query: Vec<(String, String)>,
}

/// The description of one kind of driver.
pub trait DriverInfo {
    /// The name of the kind.
    fn name(&self) -> &'static str;

    /// The URL schemes that select the kind. There is at least one, and
    /// the first is the one that the examples use.
    fn valid_schemes(&self) -> (schemes: Vec<&'static str>)
        ensures
            schemes@.len() > 0,
    ;

    /// Examples in the colon syntax `<scheme>:<host>:<port>`: a pattern,
    /// then an instance.
    fn cli_example_legacy(&self) -> (examples: Vec<String>)
        ensures
            examples@.len() == 2,
    ;

    /// Examples in the URL syntax: a pattern, then an instance in the
    /// normal form of URLs. The instance is left out if it is no URL.
    fn cli_example_url(&self) -> (examples: Vec<String>)
        ensures
            1 <= examples@.len() <= 2,
    ;

    /// A driver of the kind for the endpoint that `url` names, if the URL
    /// says what the kind needs.
    fn create_endpoint_from_url(&self, url: &EndpointUrl) -> Option<Driver>;
}

/// The character of a decimal digit.
pub open spec fn digit_char(d: nat) -> char
    recommends
        d < 10,
{
    if d == 0 {
        '0'
    } else if d == 1 {
        '1'
    } else if d == 2 {
        '2'
    } else if d == 3 {
        '3'
    } else if d == 4 {
        '4'
    } else if d == 5 {
        '5'
    } else if d == 6 {
        '6'
    } else if d == 7 {
        '7'
    } else if d == 8 {
        '8'
    } else {
        '9'
    }
}

/// The decimal numeral of `n`, without leading zeros.
pub open spec fn decimal_of(n: nat) -> Seq<char>
    decreases n,
{
    if n < 10 {
        seq![digit_char(n)]
    } else {
        decimal_of(n / 10).push(digit_char(n % 10))
    }
}

/// `host:port`, the port in decimal.
pub open spec fn address_of(host: Seq<char>, port: u16) -> Seq<char> {
    host + seq![':'] + decimal_of(port as nat)
}

/// The numeral of one digit.
fn digit_str(d: u16) -> (s: &'static str)
    requires
        d < 10,
    ensures
        s@ == seq![digit_char(d as nat)],
{
    proof {
        reveal_strlit("0");
        reveal_strlit("1");
        reveal_strlit("2");
        reveal_strlit("3");
        reveal_strlit("4");
        reveal_strlit("5");
        reveal_strlit("6");
        reveal_strlit("7");
        reveal_strlit("8");
        reveal_strlit("9");
    }
    let s = match d {
        0 => "0",
        1 => "1",
        2 => "2",
        3 => "3",
        4 => "4",
        5 => "5",
        6 => "6",
        7 => "7",
        8 => "8",
        _ => "9",
    };
    assert(s@ =~= seq![digit_char(d as nat)]);
    s
}

/// The decimal numeral of `n`.
pub fn decimal(n: u16) -> (numeral: String)
    ensures
        numeral@ == decimal_of(n as nat),
    decreases n,
{
    if n < 10 {
        String::from_str(digit_str(n))
    } else {
        let mut numeral = decimal(n / 10);
        numeral.append(digit_str(n % 10));
        assert(numeral@ =~= decimal_of((n / 10) as nat).push(digit_char((n % 10) as nat)));
        numeral
    }
}

/// The address `host:port` of an endpoint.
pub fn endpoint_address(host: &str, port: u16) -> (address: String)
    ensures
        address@ == address_of(host@, port),
{
    proof {
        reveal_strlit(":");
    }
    let mut address = String::from_str(host);
    address.append(":");
    let numeral = decimal(port);
    address.append(numeral.as_str());
    assert(":"@ =~= seq![':']);
    address
}

/// The address of the endpoint that `url` names, if it names a host and a
/// port.
pub fn address_from_url(url: &EndpointUrl) -> (address: Option<String>)
    ensures
        address is Some <==> url.host is Some && url.port is Some,
        address matches Some(a) ==> a@ == address_of(url.host->0@, url.port->0),
{
    match (&url.host, url.port) {
        (Some(host), Some(port)) => Some(endpoint_address(host.as_str(), port)),
        _ => None,
    }
}

/// The normal form in which the `url` crate writes the URL `text`; none
/// where `text` is no absolute URL.
pub uninterp spec fn url_normal_form(text: Seq<char>) -> Option<Seq<char>>;

/// Calls `url::Url::parse` and, on what it accepts, `Url::as_str`.
/// Assumed: the result is a function of the text alone.
#[verifier::external_body]
fn normalize_url(text: &str) -> (normal: Option<String>)
    ensures
        normal is Some <==> url_normal_form(text@) is Some,
        normal matches Some(n) ==> Some(n@) == url_normal_form(text@),
{
    match url::Url::parse(text) {
        Ok(url) => Some(url.as_str().to_string()),
        Err(_) => None,
    }
}

/// The examples in URL syntax for `scheme`: the pattern
/// `<scheme>://<pattern>` and the normal form of `<scheme>://<instance>`.
pub open spec fn url_examples_of(scheme: Seq<char>, pattern: Seq<char>, instance: Seq<char>) -> Seq<
    Seq<char>,
> {
    let separator = seq![':', '/', '/'];
    match url_normal_form(scheme + separator + instance) {
        Some(normal) => seq![scheme + separator + pattern, normal],
        None => seq![scheme + separator + pattern],
    }
}

/// The examples in URL syntax for `scheme`.
pub fn url_examples(scheme: &str, pattern: &str, instance: &str) -> (examples: Vec<String>)
    ensures
        examples@.len() == url_examples_of(scheme@, pattern@, instance@).len(),
        forall|i: int|
            0 <= i < examples@.len() ==> (#[trigger] examples@[i])@ == url_examples_of(
                scheme@,
                pattern@,
                instance@,
            )[i],
        1 <= examples@.len() <= 2,
{
    proof {
        reveal_strlit("://");
        assert("://"@ =~= seq![':', '/', '/']);
    }
    let mut first = String::from_str(scheme);
    first.append("://");
    let mut second = first.clone();
    first.append(pattern);
    second.append(instance);
    let mut examples: Vec<String> = Vec::new();
    examples.push(first);
    match normalize_url(second.as_str()) {
        Some(normal) => {
            examples.push(normal);
        },
        None => {},
    }
    examples
}

/// The examples in colon syntax for `scheme`: `<scheme>:<pattern>` and
/// `<scheme>:<instance>`.
pub open spec fn legacy_examples_of(scheme: Seq<char>, pattern: Seq<char>, instance: Seq<char>) -> Seq<
    Seq<char>,
> {
    seq![scheme + seq![':'] + pattern, scheme + seq![':'] + instance]
}

/// The examples in colon syntax for `scheme`.
pub fn legacy_examples(scheme: &str, pattern: &str, instance: &str) -> (examples: Vec<String>)
    ensures
        examples@.len() == 2,
        forall|i: int|
            0 <= i < 2 ==> (#[trigger] examples@[i])@ == legacy_examples_of(
                scheme@,
                pattern@,
                instance@,
            )[i],
{
    proof {
        reveal_strlit(":");
        assert(":"@ =~= seq![':']);
    }
    let mut first = String::from_str(scheme);
    first.append(":");
    let mut second = first.clone();
    first.append(pattern);
    second.append(instance);
    let mut examples: Vec<String> = Vec::new();
    examples.push(first);
    examples.push(second);
    examples
}

/// The value of a decimal digit; none for any other character.
pub open spec fn digit_value(c: char) -> Option<nat> {
    if c == '0' {
        Some(0)
    } else if c == '1' {
        Some(1)
    } else if c == '2' {
        Some(2)
    } else if c == '3' {
        Some(3)
    } else if c == '4' {
        Some(4)
    } else if c == '5' {
        Some(5)
    } else if c == '6' {
        Some(6)
    } else if c == '7' {
        Some(7)
    } else if c == '8' {
        Some(8)
    } else if c == '9' {
        Some(9)
    } else {
        None
    }
}

/// The number that the digits of `s` spell in decimal; none where `s`
/// holds anything but digits.
pub open spec fn digits_value(s: Seq<char>) -> Option<nat>
    decreases s.len(),
{
    if s.len() == 0 {
        Some(0)
    } else {
        match (digits_value(s.drop_last()), digit_value(s.last())) {
            (Some(value), Some(digit)) => Some(10 * value + digit),
            _ => None,
        }
    }
}

/// The number that `s` spells, where `s` is a non-empty run of decimal
/// digits and the number fits in 64 bits.
pub open spec fn numeral_u64(s: Seq<char>) -> Option<u64> {
    if s.len() == 0 {
        None
    } else {
        match digits_value(s) {
            Some(value) => if value <= u64::MAX {
                Some(value as u64)
            } else {
                None
            },
            None => None,
        }
    }
}

/// The start of a run of digits is a run of digits, and spells no more.
proof fn lemma_digits_prefix(s: Seq<char>, i: int)
    requires
        0 <= i <= s.len(),
        digits_value(s) is Some,
    ensures
        digits_value(s.subrange(0, i)) is Some,
        digits_value(s.subrange(0, i))->0 <= digits_value(s)->0,
    decreases s.len(),
{
    if i == s.len() {
        assert(s.subrange(0, i) =~= s);
    } else {
        assert(s.drop_last().subrange(0, i) =~= s.subrange(0, i));
        lemma_digits_prefix(s.drop_last(), i);
    }
}

/// The value of the digit `c`, if it is one.
fn digit_of(c: char) -> (digit: Option<u64>)
    ensures
        digit is Some <==> digit_value(c) is Some,
        digit matches Some(d) ==> d == digit_value(c)->0 && d < 10,
{
    if c == '0' {
        Some(0)
    } else if c == '1' {
        Some(1)
    } else if c == '2' {
        Some(2)
    } else if c == '3' {
        Some(3)
    } else if c == '4' {
        Some(4)
    } else if c == '5' {
        Some(5)
    } else if c == '6' {
        Some(6)
    } else if c == '7' {
        Some(7)
    } else if c == '8' {
        Some(8)
    } else if c == '9' {
        Some(9)
    } else {
        None
    }
}

/// Reads a decimal number: `text` must be digits only, at least one, and
/// the number must fit in 64 bits.
pub fn parse_u64(text: &str) -> (value: Option<u64>)
    ensures
        value == numeral_u64(text@),
{
    let len = text.unicode_len();
    if len == 0 {
        return None;
    }
    let mut value: u64 = 0;
    let mut i: usize = 0;
    assert(text@.subrange(0, 0) =~= Seq::<char>::empty());
    while i < len
        invariant
            i <= len,
            len == text@.len(),
            digits_value(text@.subrange(0, i as int)) == Some(value as nat),
        decreases len - i,
    {
        let ghost upto = text@.subrange(0, i + 1);
        proof {
            assert(upto.drop_last() =~= text@.subrange(0, i as int));
            assert(upto.last() == text@[i as int]);
        }
        let digit = match digit_of(text.get_char(i)) {
            Some(digit) => digit,
            None => {
                proof {
                    if digits_value(text@) is Some {
                        lemma_digits_prefix(text@, i + 1);
                    }
                }
                return None;
            },
        };
        if value > (u64::MAX - digit) / 10 {
            proof {
                if digits_value(text@) is Some {
                    lemma_digits_prefix(text@, i + 1);
                }
            }
            return None;
        }
        value = value * 10 + digit;
        i = i + 1;
    }
    assert(text@.subrange(0, i as int) =~= text@);
    Some(value)
}

/// The value of the first option called `key` in `query`.
pub open spec fn option_of(query: Seq<(String, String)>, key: Seq<char>) -> Option<Seq<char>>
    decreases query.len(),
{
    if query.len() == 0 {
        None
    } else if query[0].0@ == key {
        Some(query[0].1@)
    } else {
        option_of(query.subrange(1, query.len() as int), key)
    }
}

/// The value of the first option called `key` in `query`.
pub fn query_option<'a>(query: &'a Vec<(String, String)>, key: &String) -> (value: Option<
    &'a String,
>)
    ensures
        value is Some <==> option_of(query@, key@) is Some,
        value matches Some(v) ==> Some(v@) == option_of(query@, key@),
{
    let mut i: usize = 0;
    assert(query@.subrange(0, query@.len() as int) =~= query@);
    while i < query.len()
        invariant
            i <= query.len(),
            option_of(query@, key@) == option_of(
                query@.subrange(i as int, query@.len() as int),
                key@,
            ),
        decreases query.len() - i,
    {
        let ghost rest = query@.subrange(i as int, query@.len() as int);
        proof {
            assert(rest[0] == query@[i as int]);
            assert(rest.subrange(1, rest.len() as int) =~= query@.subrange(
                i + 1,
                query@.len() as int,
            ));
        }
        if query[i].0 == *key {
            return Some(&query[i].1);
        }
        i = i + 1;
    }
    None
}

} // verus!
