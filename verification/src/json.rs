//! JSON text: string literals, integers, and the framing of the arguments of
//! outgoing calls and of event logs.
//!
//! The escaping of strings and the validation of stored JSON values is done
//! by `serde_json`; the framing around them is verified here.

use vstd::prelude::*;
use vstd::string::*;

verus! {

/// The lower-case hexadecimal digit for `d < 16`.
pub open spec fn hex_digit(d: nat) -> char {
    if d < 10 {
        (48 + d) as char
    } else {
        (87 + d) as char
    }
}

/// How a JSON string literal writes the character `c`: `"` and `\` behind a
/// backslash; the control characters below U+0020 as `\b`, `\t`, `\n`, `\f`,
/// `\r`, or else as `\u00` and two lower-case hexadecimal digits; every other
/// character as it is.
pub open spec fn escape_char(c: char) -> Seq<char> {
    if c == '"' {
        seq!['\\', '"']
    } else if c == '\\' {
        seq!['\\', '\\']
    } else if c == '\u{8}' {
        seq!['\\', 'b']
    } else if c == '\t' {
        seq!['\\', 't']
    } else if c == '\n' {
        seq!['\\', 'n']
    } else if c == '\u{c}' {
        seq!['\\', 'f']
    } else if c == '\r' {
        seq!['\\', 'r']
    } else if (c as u32) < 0x20 {
        seq!['\\', 'u', '0', '0', hex_digit((c as u32) as nat / 16), hex_digit((c as u32) as nat % 16)]
    } else {
        seq![c]
    }
}

/// The text `s` with every character escaped as a JSON string literal writes it.
pub open spec fn escape_text(s: Seq<char>) -> Seq<char>
    decreases s.len(),
{
    if s.len() == 0 {
        Seq::empty()
    } else {
        escape_text(s.drop_last()) + escape_char(s.last())
    }
}

/// The JSON string literal for the text `s`: the escaped text between quotes.
pub open spec fn json_string_text(s: Seq<char>) -> Seq<char> {
    seq!['"'] + escape_text(s) + seq!['"']
}

/// The compact JSON text that `serde_json` writes back after parsing `text`
/// as a JSON value, or `None` where `text` is not valid JSON.
pub uninterp spec fn json_value_text(text: Seq<char>) -> Option<Seq<char>>;

/// Calls `serde_json::to_string` on a string slice.
///
/// Trusted: the result is `json_string_text(s@)`, the text between quotes
/// with `"`, `\` and the control characters below U+0020 escaped and every
/// other character (U+007F and all non-ASCII ones included) written as it is.
/// Serializing a string into memory cannot fail, so the error arm is never
/// taken.
#[verifier::external_body]
pub(crate) fn json_string(s: &str) -> (res: String)
    ensures
        res@ == json_string_text(s@),
{
    match serde_json::to_string(s) {
        Ok(text) => text,
        Err(_) => String::new(),
    }
}

/// Calls `serde_json::from_str::<serde_json::Value>` on `text` and writes the
/// parsed value back with its `Display` impl.
///
/// Trusted: the result is `json_value_text(text@)`: `None` exactly where the
/// parse fails.
#[verifier::external_body]
pub(crate) fn reserialize_json(text: &str) -> (res: Option<String>)
    ensures
        match res {
            Some(t) => json_value_text(text@) == Some(t@),
            None => json_value_text(text@) is None,
        },
{
    match serde_json::from_str::<serde_json::Value>(text) {
        Ok(value) => Some(value.to_string()),
        Err(_) => None,
    }
}

/// The decimal digit character for `d < 10`.
pub open spec fn digit_char(d: nat) -> char {
    (48 + d) as char
}

/// The decimal representation of `n`, without sign or leading zeros.
pub open spec fn decimal(n: nat) -> Seq<char>
    decreases n,
{
    if n < 10 {
        seq![digit_char(n)]
    } else {
        decimal(n / 10).push(digit_char(n % 10))
    }
}

fn digit_string(d: u128) -> (res: String)
    requires
        d < 10,
    ensures
        res@ == seq![digit_char(d as nat)],
{
    proof {
        reveal_strlit("0");
        reveal_strlit("1");
        reveal_strlit("2");
        reveal_strlit("3");
        reveal_strlit("4");
        reveal_strlit("5");
        reveal_strlit("6");
        reveal_strlit("7");
        reveal_strlit("8");
        reveal_strlit("9");
    }
    let text = if d == 0 {
        "0"
    } else if d == 1 {
        "1"
    } else if d == 2 {
        "2"
    } else if d == 3 {
        "3"
    } else if d == 4 {
        "4"
    } else if d == 5 {
        "5"
    } else if d == 6 {
        "6"
    } else if d == 7 {
        "7"
    } else if d == 8 {
        "8"
    } else {
        "9"
    };
    text.to_owned()
}

/// Writes `n` in decimal, as JSON writes an integer.
pub fn decimal_string(n: u128) -> (res: String)
    ensures
        res@ == decimal(n as nat),
    decreases n,
{
    if n < 10 {
        digit_string(n)
    } else {
        let mut head = decimal_string(n / 10);
        let last = digit_string(n % 10);
        head.append(last.as_str());
        head
    }
}

/// The number that the decimal digits `s` stand for.
pub open spec fn digits_value(s: Seq<char>) -> nat
    decreases s.len(),
{
    if s.len() == 0 {
        0
    } else {
        digits_value(s.drop_last()) * 10 + ((s.last() as u32) - 48) as nat
    }
}

/// `decimal(n)` is `n` written in base ten: decimal digits only, no leading
/// zero unless `n` is zero, and they read back as `n`.
pub proof fn lemma_decimal_reads_back(n: nat)
    ensures
        digits_value(decimal(n)) == n,
        decimal(n).len() > 0,
        forall|i: int| 0 <= i < decimal(n).len() ==> '0' <= #[trigger] decimal(n)[i] <= '9',
        decimal(n).len() > 1 ==> decimal(n)[0] != '0',
    decreases n,
{
    if n >= 10 {
        lemma_decimal_reads_back(n / 10);
        let d = decimal(n / 10);
        assert(decimal(n) == d.push(digit_char(n % 10)));
        assert(decimal(n).drop_last() =~= d);
        assert(decimal(n).last() == digit_char(n % 10));
        assert((digit_char(n % 10) as u32) == 48 + n % 10);
        assert(digits_value(decimal(n)) == digits_value(d) * 10 + n % 10);
        assert(n == (n / 10) * 10 + n % 10);
        assert forall|i: int| 0 <= i < decimal(n).len() implies '0' <= #[trigger] decimal(n)[i] <= '9' by {
            if i < d.len() {
                assert(decimal(n)[i] == d[i]);
            }
        }
        if d.len() == 1 {
            assert(n / 10 > 0);
            assert(digits_value(d.drop_last()) == 0);
            assert(d[0] != '0');
        }
        assert(decimal(n)[0] == d[0]);
    } else {
        assert(seq![digit_char(n)].drop_last() =~= Seq::<char>::empty());
        assert((digit_char(n) as u32) == 48 + n);
        assert(seq![digit_char(n)].last() == digit_char(n));
        assert(digits_value(Seq::<char>::empty()) == 0);
        assert(digits_value(decimal(n)) == n);
    }
}

/// Characters that a JSON string literal writes as they are.
pub open spec fn is_plain_char(c: char) -> bool {
    (c as u32) >= 0x20 && c != '"' && c != '\\'
}

/// A JSON string literal is the text between quotes, where a text of plain
/// characters stands as it is and every other character is written as a
/// backslash escape of two or six characters, none of them a quote unless
/// behind the backslash or a control character.
pub proof fn lemma_json_string_shape(s: Seq<char>, c: char)
    ensures
        json_string_text(s)[0] == '"',
        json_string_text(s).last() == '"',
        (forall|i: int| 0 <= i < s.len() ==> is_plain_char(#[trigger] s[i])) ==> json_string_text(s) == seq!['"'] + s
            + seq!['"'],
        is_plain_char(c) ==> escape_char(c) == seq![c],
        !is_plain_char(c) ==> escape_char(c)[0] == '\\' && (escape_char(c).len() == 2 || escape_char(c).len() == 6),
        forall|i: int| 0 <= i < escape_char(c).len() ==> (#[trigger] escape_char(c)[i] as u32) >= 0x20,
        forall|i: int| 1 <= i < escape_char(c).len() && #[trigger] escape_char(c)[i] == '"' ==> i == 1 && escape_char(c)[0] == '\\',
{
    lemma_plain_text(s);
}

proof fn lemma_plain_text(s: Seq<char>)
    ensures
        (forall|i: int| 0 <= i < s.len() ==> is_plain_char(#[trigger] s[i])) ==> escape_text(s) == s,
    decreases s.len(),
{
    if s.len() > 0 {
        lemma_plain_text(s.drop_last());
        if forall|i: int| 0 <= i < s.len() ==> is_plain_char(#[trigger] s[i]) {
            assert forall|i: int| 0 <= i < s.drop_last().len() implies is_plain_char(#[trigger] s.drop_last()[i]) by {
                assert(s.drop_last()[i] == s[i]);
            }
            assert(is_plain_char(s[s.len() - 1]));
            assert(s =~= s.drop_last().push(s.last()));
        }
    }
}

} // verus!
