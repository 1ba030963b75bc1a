//! The status that the daemon reports, as JSON and as plain text.

use crate::text::{all_digits, digits_value, parse_u32};
use vstd::prelude::*;
use vstd::string::*;

verus! {

/// A snapshot of what clients may observe of the daemon.
///
/// `active` carries the daemon's pause flag as it stands: it is `true` while
/// automatic control is paused and `false` while the control loop runs.
#[derive(Debug)]
pub struct Status {
    pub strategy: String,
    pub speed: u8,
    pub active: bool,
}

/// The mathematical value of a `Status`.
pub ghost struct StatusView {
    pub strategy: Seq<char>,
    pub speed: u8,
    pub active: bool,
}

impl View for Status {
    type V = StatusView;

    open spec fn view(&self) -> StatusView {
        StatusView { strategy: self.strategy@, speed: self.speed, active: self.active }
    }
}

/// Why a status could not be written as JSON.
#[derive(Clone, Copy, Debug, PartialEq, Eq, Structural)]
pub enum StatusError {
    /// The encoder reported an error.
    Encoding,
}

/// `serde_json::Error`, the encoder's error. It is only carried to the place
/// where it becomes a `StatusError`; nothing is known of what it holds.
#[verifier::external_type_specification]
#[verifier::external_body]
pub struct ExJsonError(serde_json::Error);

/// The character that writes `d` as a hexadecimal digit, in lower case.
pub open spec fn hex_digit(d: nat) -> char
    recommends
        d < 16,
{
    if d < 10 {
        (('0' as u32) + d) as char
    } else {
        (('a' as u32) + d - 10) as char
    }
}

/// How one character stands inside a JSON string literal. The quote, the
/// backslash and the control characters below U+0020 are escaped, the latter
/// by their short form where JSON has one and as `\u00xx` otherwise; every
/// other character stands for itself.
pub open spec fn json_escape(c: char) -> Seq<char> {
    let u = c as u32;
    if u == 0x22 {
        seq!['\u{5c}', '\u{22}']
    } else if u == 0x5c {
        seq!['\u{5c}', '\u{5c}']
    } else if u == 0x08 {
        seq!['\u{5c}', 'b']
    } else if u == 0x09 {
        seq!['\u{5c}', 't']
    } else if u == 0x0a {
        seq!['\u{5c}', 'n']
    } else if u == 0x0c {
        seq!['\u{5c}', 'f']
    } else if u == 0x0d {
        seq!['\u{5c}', 'r']
    } else if u < 0x20 {
        seq!['\u{5c}', 'u', '0', '0', hex_digit((u / 16) as nat), hex_digit((u % 16) as nat)]
    } else {
        seq![c]
    }
}

/// The characters of `s`, each as it stands inside a JSON string literal.
pub open spec fn json_escaped(s: Seq<char>) -> Seq<char>
    decreases s.len(),
{
    if s.len() == 0 {
        Seq::empty()
    } else {
        json_escaped(s.drop_last()) + json_escape(s.last())
    }
}

/// The JSON string literal of `s`: its escaped characters between two quotes.
pub open spec fn json_string_text(s: Seq<char>) -> Seq<char> {
    seq!['\u{22}'] + json_escaped(s) + seq!['\u{22}']
}

/// Calls `serde_json::to_string` on a string slice. On a string the encoder
/// writes into memory and cannot fail; what it writes is a quote, each
/// character as its table of escapes has it, and a quote.
#[verifier::external_body]
fn encode_json_string(s: &str) -> (encoded: Result<String, serde_json::Error>)
    ensures
        encoded is Ok,
        encoded matches Ok(text) ==> text@ == json_string_text(s@),
{
    serde_json::to_string(s)
}

/// The character that writes the digit `d`.
pub open spec fn digit_char(d: nat) -> char
    recommends
        d < 10,
{
    (('0' as u32) + d) as char
}

/// The number `n` written in base ten without leading zeros.
pub open spec fn decimal_text(n: nat) -> Seq<char>
    decreases n,
{
    if n < 10 {
        seq![digit_char(n)]
    } else {
        decimal_text(n / 10).push(digit_char(n % 10))
    }
}

/// How a flag is written: `true` or `false`.
pub open spec fn flag_text(flag: bool) -> Seq<char> {
    if flag {
        "true"@
    } else {
        "false"@
    }
}

/// The JSON object of a status whose strategy name is already encoded as the
/// string literal `name_literal`.
pub open spec fn status_json_text(name_literal: Seq<char>, speed: u8, active: bool) -> Seq<char> {
    "{\"strategy\":"@ + name_literal + ",\"speed\":"@ + decimal_text(speed as nat)
        + ",\"active\":"@ + flag_text(active) + "}"@
}

/// The plain-text form of a status, one labelled line per field.
pub open spec fn status_human_text(status: StatusView) -> Seq<char> {
    "Strategy: "@ + status.strategy + "\nSpeed: "@ + decimal_text(status.speed as nat)
        + "\nActive: "@ + flag_text(status.active)
}

/// Reading back a number written by `decimal_text` gives the number.
pub proof fn lemma_decimal_round_trip(n: nat)
    requires
        n <= u32::MAX,
    ensures
        parse_u32(decimal_text(n)) == Some(n as u32),
{
    lemma_decimal_digits(n);
}

proof fn lemma_decimal_digits(n: nat)
    ensures
        decimal_text(n).len() >= 1,
        all_digits(decimal_text(n)),
        digits_value(decimal_text(n)) == n,
        decimal_text(n)[0] != '+',
    decreases n,
{
    if n < 10 {
        let s = decimal_text(n);
        assert(s.drop_last() =~= Seq::<char>::empty());
        assert(digits_value(s.drop_last()) == 0);
    } else {
        lemma_decimal_digits(n / 10);
        let s = decimal_text(n);
        assert(s.drop_last() =~= decimal_text(n / 10));
    }
}

fn digit_str(d: u8) -> (s: &'static str)
    requires
        d < 10,
    ensures
        s@ == seq![digit_char(d as nat)],
{
    proof {
        reveal_strlit("0");
        reveal_strlit("1");
        reveal_strlit("2");
        reveal_strlit("3");
        reveal_strlit("4");
        reveal_strlit("5");
        reveal_strlit("6");
        reveal_strlit("7");
        reveal_strlit("8");
        reveal_strlit("9");
    }
    let s = match d {
        0 => "0",
        1 => "1",
        2 => "2",
        3 => "3",
        4 => "4",
        5 => "5",
        6 => "6",
        7 => "7",
        8 => "8",
        _ => "9",
    };
    assert(s@ =~= seq![digit_char(d as nat)]);
    s
}

/// Writes a number in base ten.
pub fn decimal(value: u8) -> (text: String)
    ensures
        text@ == decimal_text(value as nat),
{
    let mut text = String::new();
    if value >= 100 {
        text.append(digit_str(value / 100));
    }
    if value >= 10 {
        text.append(digit_str((value / 10) % 10));
    }
    text.append(digit_str(value % 10));
    proof {
        let n = value as nat;
        reveal_with_fuel(decimal_text, 3);
        assert(text@ =~= decimal_text(n));
    }
    text
}

fn flag_str(flag: bool) -> (s: &'static str)
    ensures
        s@ == flag_text(flag),
{
    if flag {
        "true"
    } else {
        "false"
    }
}

/// Frames the JSON object of a status around an encoded strategy name.
pub fn frame_status_json(name_literal: &str, speed: u8, active: bool) -> (text: String)
    ensures
        text@ == status_json_text(name_literal@, speed, active),
{
    let mut text = String::from_str("{\"strategy\":");
    text.append(name_literal);
    text.append(",\"speed\":");
    text.append(decimal(speed).as_str());
    text.append(",\"active\":");
    text.append(flag_str(active));
    text.append("}");
    text
}

impl Status {
    /// Writes the status as a JSON object with the fields `strategy`, `speed`
    /// and `active`, in that order. The encoder takes every name, so the call
    /// succeeds for every status.
    pub fn to_json(&self) -> (r: Result<String, StatusError>)
        ensures
            r matches Ok(text) && text@ == status_json_text(
                json_string_text(self@.strategy),
                self@.speed,
                self@.active,
            ),
    {
        status_json_from(encode_json_string(self.strategy.as_str()), self.speed, self.active)
    }

    /// Writes the status as three labelled lines of plain text.
    pub fn to_human(&self) -> (text: String)
        ensures
            text@ == status_human_text(self@),
    {
        let mut text = String::from_str("Strategy: ");
        text.append(self.strategy.as_str());
        text.append("\nSpeed: ");
        text.append(decimal(self.speed).as_str());
        text.append("\nActive: ");
        text.append(flag_str(self.active));
        text
    }
}

/// Turns the encoder's answer for a strategy's name into the status as
/// JSON: the framed object where the name was encoded, else the error.
pub fn status_json_from(encoded: Result<String, serde_json::Error>, speed: u8, active: bool) -> (r:
    Result<String, StatusError>)
    ensures
        match encoded {
            Ok(literal) => r matches Ok(text) && text@ == status_json_text(
                literal@,
                speed,
                active,
            ),
            Err(_) => r matches Err(e) && e == StatusError::Encoding,
        },
{
    match encoded {
        Ok(literal) => Ok(frame_status_json(literal.as_str(), speed, active)),
        Err(_) => Err(StatusError::Encoding),
    }
}

/// No character of an escaped text is a control character below U+0020; in
/// particular none is a line feed.
pub proof fn lemma_escaped_has_no_control(s: Seq<char>)
    ensures
        forall|i: int|
            0 <= i < json_escaped(s).len() ==> (#[trigger] json_escaped(s)[i]) as u32 >= 0x20,
    decreases s.len(),
{
    if s.len() > 0 {
        lemma_escaped_has_no_control(s.drop_last());
        let head = json_escaped(s.drop_last());
        let tail = json_escape(s.last());
        assert forall|i: int| 0 <= i < json_escaped(s).len() implies (#[trigger] json_escaped(
            s,
        )[i]) as u32 >= 0x20 by {
            if i < head.len() {
                assert(json_escaped(s)[i] == head[i]);
            } else {
                assert(json_escaped(s)[i] == tail[i - head.len()]);
            }
        }
    }
}

/// The JSON object of a status is one line: no character of it is a line
/// feed, whatever the strategy's name holds.
pub proof fn lemma_status_json_is_one_line(status: StatusView)
    ensures
        ({
            let text = status_json_text(
                json_string_text(status.strategy),
                status.speed,
                status.active,
            );
            forall|i: int| 0 <= i < text.len() ==> #[trigger] text[i] != '\n'
        }),
{
    reveal_strlit("{\"strategy\":");
    reveal_strlit(",\"speed\":");
    reveal_strlit(",\"active\":");
    reveal_strlit("true");
    reveal_strlit("false");
    reveal_strlit("}");
    lemma_escaped_has_no_control(status.strategy);
    lemma_decimal_digits(status.speed as nat);
    let a = "{\"strategy\":"@;
    let b = json_string_text(status.strategy);
    let c = ",\"speed\":"@;
    let d = decimal_text(status.speed as nat);
    let e = ",\"active\":"@;
    let f = flag_text(status.active);
    let g = "}"@;
    lemma_no_line_feed_in_literals();
    assert forall|i: int| 0 <= i < b.len() implies #[trigger] b[i] != '\n' by {
        if 0 < i < b.len() - 1 {
            assert(b[i] == json_escaped(status.strategy)[i - 1]);
        }
    }
    assert forall|i: int| 0 <= i < d.len() implies #[trigger] d[i] != '\n' by {
        assert(crate::text::is_digit(d[i]));
    }
    let text = a + b + c + d + e + f + g;
    assert forall|i: int| 0 <= i < text.len() implies #[trigger] text[i] != '\n' by {
        let ab = a + b;
        let abc = ab + c;
        let abcd = abc + d;
        let abcde = abcd + e;
        let abcdef = abcde + f;
        if i < a.len() {
            assert(text[i] == a[i]);
        } else if i < ab.len() {
            assert(text[i] == b[i - a.len()]);
        } else if i < abc.len() {
            assert(text[i] == c[i - ab.len()]);
        } else if i < abcd.len() {
            assert(text[i] == d[i - abc.len()]);
        } else if i < abcde.len() {
            assert(text[i] == e[i - abcd.len()]);
        } else if i < abcdef.len() {
            assert(text[i] == f[i - abcde.len()]);
        } else {
            assert(text[i] == g[i - abcdef.len()]);
        }
    }
}

proof fn lemma_no_line_feed_in_literals()
    ensures
        forall|i: int| 0 <= i < "{\"strategy\":"@.len() ==> #[trigger] "{\"strategy\":"@[i] != '\n',
        forall|i: int| 0 <= i < ",\"speed\":"@.len() ==> #[trigger] ",\"speed\":"@[i] != '\n',
        forall|i: int| 0 <= i < ",\"active\":"@.len() ==> #[trigger] ",\"active\":"@[i] != '\n',
        forall|i: int| 0 <= i < "true"@.len() ==> #[trigger] "true"@[i] != '\n',
        forall|i: int| 0 <= i < "false"@.len() ==> #[trigger] "false"@[i] != '\n',
        forall|i: int| 0 <= i < "}"@.len() ==> #[trigger] "}"@[i] != '\n',
{
    reveal_strlit("{\"strategy\":");
    reveal_strlit(",\"speed\":");
    reveal_strlit(",\"active\":");
    reveal_strlit("true");
    reveal_strlit("false");
    reveal_strlit("}");
}

} // verus!
