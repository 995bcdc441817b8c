//! Numbers and entries as text.

use vstd::prelude::*;
use vstd::string::StringExecFns;
use crate::clock::{display_pattern, timestamp_text, utc_text, valid_time};
use crate::entry::{CreativityEntry, EntryView};

verus! {

/// The character of the decimal digit `d`.
pub open spec fn digit_char(d: int) -> char {
    (48 + d) as u8 as char
}

/// The decimal digits of `n`, the highest first, without leading zeros.
pub open spec fn decimal_digits(n: nat) -> Seq<char>
    decreases n,
{
    if n < 10 {
        seq![digit_char(n as int)]
    } else {
        decimal_digits(n / 10).push(digit_char((n % 10) as int))
    }
}

/// The decimal text of `n`, with a minus sign where it is negative.
pub open spec fn decimal_text(n: int) -> Seq<char> {
    if n < 0 {
        seq!['-'] + decimal_digits((-n) as nat)
    } else {
        decimal_digits(n as nat)
    }
}

/// The decimal digits of `n`, with a leading zero where there is only one.
pub open spec fn two_digit_text(n: nat) -> Seq<char> {
    if n < 10 {
        seq!['0'] + decimal_digits(n)
    } else {
        decimal_digits(n)
    }
}

/// Appends the decimal digits of `n` to `out`.
pub fn push_decimal(out: &mut String, n: u64)
    ensures
        final(out)@ == old(out)@ + decimal_digits(n as nat),
    decreases n,
{
    if n >= 10 {
        push_decimal(out, n / 10);
    }
    let d: u8 = (n % 10) as u8;
    out.push((48 + d) as char);
    assert(final(out)@ =~= old(out)@ + decimal_digits(n as nat));
}

/// The decimal text of `n`.
pub fn decimal(n: i64) -> (s: String)
    ensures
        s@ == decimal_text(n as int),
{
    let mut s = String::new();
    if n < 0 {
        s.push('-');
        let magnitude: u64 = (-(n + 1)) as u64 + 1;
        push_decimal(&mut s, magnitude);
    } else {
        push_decimal(&mut s, n as u64);
    }
    assert(s@ =~= decimal_text(n as int));
    s
}

/// The decimal text of `n` in at least two digits.
pub fn two_digits(n: u32) -> (s: String)
    ensures
        s@ == two_digit_text(n as nat),
{
    let mut s = String::new();
    if n < 10 {
        s.push('0');
    }
    push_decimal(&mut s, n as u64);
    assert(s@ =~= two_digit_text(n as nat));
    s
}

/// The line that is drawn above each entry.
pub open spec fn rule_line() -> Seq<char> {
    "─────────────────────────────────────────────────────────────\n"@
}

/// The text of an instant as it is shown: the display text where the
/// instant has one, the number of seconds otherwise.
pub open spec fn shown_instant(t: int) -> Seq<char> {
    if valid_time(t) {
        utc_text(t, display_pattern())
    } else {
        decimal_text(t)
    }
}

/// An entry as it is shown: a rule, the key and the date, the prompt, and
/// the response between empty lines.
pub open spec fn shown_entry(e: EntryView) -> Seq<char> {
    rule_line() + "ID: "@ + decimal_text(e.id) + " | Date: "@ + shown_instant(e.created_at)
        + "\nPrompt: "@ + e.prompt + "\n\n"@ + e.response + "\n\n"@
}

/// The text of an instant as it is shown.
pub fn instant_text(t: i64) -> (s: String)
    ensures
        s@ == shown_instant(t as int),
{
    match timestamp_text(t) {
        Some(s) => s,
        None => decimal(t),
    }
}

/// The text that shows `entry`.
pub fn entry_text(entry: &CreativityEntry) -> (s: String)
    ensures
        s@ == shown_entry(entry@),
{
    let id = decimal(entry.id);
    let date = instant_text(entry.created_at);
    let mut s = String::new();
    s.append("─────────────────────────────────────────────────────────────\n");
    s.append("ID: ");
    s.append(id.as_str());
    s.append(" | Date: ");
    s.append(date.as_str());
    s.append("\nPrompt: ");
    s.append(entry.prompt.as_str());
    s.append("\n\n");
    s.append(entry.response.as_str());
    s.append("\n\n");
    assert(s@ =~= shown_entry(entry@));
    s
}

} // verus!
