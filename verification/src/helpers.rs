//! Checks of what a user types into a form, and the wording of amounts and
//! of block heights as times.

use crate::text::{
    all_digits, decimal, digit_char, digit_to_char, is_digit, numeral, parse_decimal,
    push_decimal,
};
use vstd::prelude::*;
use vstd::string::StringExecFns;

verus! {

/// An amount of coins, counted in satoshi.
#[derive(Debug, Clone, Copy, PartialEq, Eq, Structural)]
pub struct Amount {
    sat: u64,
}

impl View for Amount {
    type V = nat;

    closed spec fn view(&self) -> nat {
        self.sat as nat
    }
}

impl Amount {
    /// The amount of so many satoshi.
    pub fn from_sat(sat: u64) -> (amount: Self)
        ensures
            amount@ == sat,
    {
        Amount { sat }
    }

    /// The amount in satoshi.
    pub fn to_sat(&self) -> (sat: u64)
        ensures
            sat == self@,
    {
        self.sat
    }
}

/// A fee rate, counted in satoshi for a thousand weight units.
#[derive(Debug, Clone, Copy, PartialEq, Eq, Structural)]
pub struct FeeRate {
    sat_per_kwu: u64,
}

impl View for FeeRate {
    type V = nat;

    closed spec fn view(&self) -> nat {
        self.sat_per_kwu as nat
    }
}

/// A rate given in satoshi for a virtual byte, counted for a thousand weight
/// units: a virtual byte is four weight units. A rate too large to be
/// counted in 64 bits is none.
pub open spec fn rate_per_kwu(sat_vb: nat) -> Option<nat> {
    if sat_vb * 250 <= u64::MAX {
        Some(sat_vb * 250)
    } else {
        None
    }
}

impl FeeRate {
    /// The fee rate of so many satoshi for a virtual byte.
    pub fn from_sat_per_vb(sat_vb: u64) -> (rate: Option<Self>)
        ensures
            match rate {
                Some(r) => rate_per_kwu(sat_vb as nat) == Some(r@),
                None => rate_per_kwu(sat_vb as nat) is None,
            },
    {
        if sat_vb <= u64::MAX / 250 {
            Some(FeeRate { sat_per_kwu: sat_vb * 250 })
        } else {
            None
        }
    }

    /// The rate in satoshi for a thousand weight units.
    pub fn to_sat_per_kwu(&self) -> (sat_kwu: u64)
        ensures
            sat_kwu == self@,
    {
        self.sat_per_kwu
    }
}

/// What a text means as a fee rate: an empty text leaves the rate open; a
/// number is the rate in satoshi for a virtual byte, and no rate where it is
/// too large; any other text means nothing.
pub open spec fn fee_rate_of(s: Seq<char>) -> Option<Option<nat>> {
    if s.len() == 0 {
        Some(None)
    } else {
        match numeral(s, u64::MAX as nat) {
            Some(sat_vb) => Some(rate_per_kwu(sat_vb)),
            None => None,
        }
    }
}

/// Reads a fee rate that a user typed.
pub fn fee_rate_from_str(s: &str) -> (rate: Option<Option<FeeRate>>)
    ensures
        match rate {
            Some(Some(r)) => fee_rate_of(s@) == Some(Some(r@)),
            Some(None) => fee_rate_of(s@) == Some(None::<nat>),
            None => fee_rate_of(s@) is None,
        },
{
    if s.is_empty() {
        Some(None)
    } else {
        match parse_decimal(s, 0xffff_ffff_ffff_ffff) {
            Some(sat_vb) => Some(FeeRate::from_sat_per_vb(sat_vb)),
            None => None,
        }
    }
}

/// A character of a label: a digit, a small letter or a hyphen.
pub open spec fn is_label_char(c: char) -> bool {
    is_digit(c) || ('a' <= c && c <= 'z') || c == '-'
}

/// A character of a recipient: one of a label, or `@`.
pub open spec fn is_recipient_char(c: char) -> bool {
    is_label_char(c) || c == '@'
}

/// Whether a text can still become a label: all its characters are digits,
/// small letters or hyphens.
pub fn is_slabel_input(s: &str) -> (ok: bool)
    ensures
        ok == forall|i: int| 0 <= i < s@.len() ==> is_label_char(#[trigger] s@[i]),
{
    let mut ok = true;
    for c in it: s.chars()
        invariant
            it.seq() == s@,
            ok == forall|i: int| 0 <= i < it.index() ==> is_label_char(#[trigger] s@[i]),
    {
        if !(('0' <= c && c <= '9') || ('a' <= c && c <= 'z') || c == '-') {
            ok = false;
        }
    }
    ok
}

/// Whether a text can still become a recipient: all its characters are
/// digits, small letters, hyphens or `@`.
pub fn is_recipient_input(s: &str) -> (ok: bool)
    ensures
        ok == forall|i: int| 0 <= i < s@.len() ==> is_recipient_char(#[trigger] s@[i]),
{
    let mut ok = true;
    for c in it: s.chars()
        invariant
            it.seq() == s@,
            ok == forall|i: int| 0 <= i < it.index() ==> is_recipient_char(#[trigger] s@[i]),
    {
        if !(('0' <= c && c <= '9') || ('a' <= c && c <= 'z') || c == '-' || c == '@') {
            ok = false;
        }
    }
    ok
}

/// The recipient that a text names: the text itself, unless it is empty.
pub fn recipient_from_str(s: &str) -> (recipient: Option<String>)
    ensures
        match recipient {
            Some(r) => s@.len() > 0 && r@ == s@,
            None => s@.len() == 0,
        },
{
    if s.is_empty() {
        None
    } else {
        Some(s.to_string())
    }
}

fn only_digits(s: &str) -> (ok: bool)
    ensures
        ok == all_digits(s@),
{
    let mut ok = true;
    for c in it: s.chars()
        invariant
            it.seq() == s@,
            ok == forall|i: int| 0 <= i < it.index() ==> is_digit(#[trigger] s@[i]),
    {
        if !('0' <= c && c <= '9') {
            ok = false;
        }
    }
    ok
}

/// Whether a text can still become an amount: it holds digits only.
pub fn is_amount_input(s: &str) -> (ok: bool)
    ensures
        ok == all_digits(s@),
{
    only_digits(s)
}

/// Whether a text can still become a fee rate: it holds digits only.
pub fn is_fee_rate_input(s: &str) -> (ok: bool)
    ensures
        ok == all_digits(s@),
{
    only_digits(s)
}

/// The narrow space that parts the groups of digits of an amount.
pub open spec fn thin_space() -> char {
    '\u{2009}'
}

/// The three digits of a number below 1000, zeros in front where needed.
pub open spec fn three_digits(n: nat) -> Seq<char> {
    seq![digit_char(n / 100), digit_char((n / 10) % 10), digit_char(n % 10)]
}

/// A number in decimal, its digits in groups of three from the right, with
/// a narrow space between the groups.
pub open spec fn grouped(n: nat) -> Seq<char>
    decreases n,
{
    if n < 1000 {
        decimal(n)
    } else {
        grouped(n / 1000) + seq![thin_space()] + three_digits(n % 1000)
    }
}

/// An amount in words: the grouped number and the unit.
pub open spec fn amount_text(n: nat) -> Seq<char> {
    grouped(n) + " sat"@
}

/// Writes a number of satoshi as an amount.
pub fn format_amount_number(n: u64) -> (text: String)
    ensures
        text@ == amount_text(n as nat),
{
    let mut groups: Vec<u16> = Vec::new();
    let mut rest: u64 = n;
    while rest >= 1000
        invariant
            forall|i: int| 0 <= i < groups@.len() ==> groups@[i] < 1000,
            grouped(n as nat) == grouped(rest as nat) + group_tail(groups@),
        decreases rest,
    {
        let ghost before = groups@;
        groups.push((rest % 1000) as u16);
        proof {
            assert(group_tail(groups@) =~= seq![thin_space()] + three_digits((rest % 1000) as nat)
                + group_tail(before)) by {
                assert(groups@.drop_last() =~= before);
            }
            assert(grouped(rest as nat) == grouped((rest / 1000) as nat) + seq![thin_space()]
                + three_digits((rest % 1000) as nat));
        }
        rest = rest / 1000;
    }
    let mut text = String::new();
    push_decimal(&mut text, rest);
    let mut i: usize = groups.len();
    assert(groups@.take(i as int) =~= groups@);
    while i > 0
        invariant
            i <= groups@.len(),
            rest < 1000,
            forall|j: int| 0 <= j < groups@.len() ==> groups@[j] < 1000,
            text@ + group_tail(groups@.take(i as int)) == grouped(rest as nat) + group_tail(
                groups@,
            ),
        decreases i,
    {
        i = i - 1;
        let ghost before = text@;
        let g = groups[i];
        text.push('\u{2009}');
        text.push(digit_to_char((g / 100) as u8));
        text.push(digit_to_char(((g / 10) % 10) as u8));
        text.push(digit_to_char((g % 10) as u8));
        proof {
            let upto = groups@.take(i + 1);
            assert(upto.drop_last() =~= groups@.take(i as int));
            assert(upto.last() == g);
            assert(text@ =~= before + seq![thin_space()] + three_digits(g as nat));
            assert(before + group_tail(upto) =~= text@ + group_tail(groups@.take(i as int)));
        }
    }
    assert(groups@.take(0) =~= Seq::<u16>::empty());
    text.append(" sat");
    text
}

/// The groups that follow the first, written from the last item of
/// `low_first` to its first.
pub open spec fn group_tail(low_first: Seq<u16>) -> Seq<char>
    decreases low_first.len(),
{
    if low_first.len() == 0 {
        Seq::empty()
    } else {
        seq![thin_space()] + three_digits(low_first.last() as nat) + group_tail(
            low_first.drop_last(),
        )
    }
}

/// Writes an amount.
pub fn format_amount(amount: Amount) -> (text: String)
    ensures
        text@ == amount_text(amount@),
{
    format_amount_number(amount.to_sat())
}

/// When a block that lies ahead is expected, ten minutes for each block:
/// `now` for a block that is not ahead; minutes up to five blocks; hours,
/// and the minutes left, up to a day of 144 blocks; beyond that days and the
/// full hours left.
pub open spec fn future_text(block_height: nat, tip_height: nat) -> Seq<char> {
    let remaining = block_height - tip_height;
    if block_height <= tip_height {
        "now"@
    } else if remaining <= 5 {
        "in "@ + decimal((remaining * 10) as nat) + " minutes"@
    } else if remaining <= 144 {
        let hours = remaining / 6;
        let minutes = (remaining % 6) * 10;
        if minutes == 0 {
            "in "@ + decimal(hours as nat) + " hours"@
        } else {
            "in "@ + decimal(hours as nat) + " hours "@ + decimal(minutes as nat) + " minutes"@
        }
    } else {
        let days = remaining / 144;
        let hours = (remaining % 144) / 6;
        if hours == 0 {
            "in "@ + decimal(days as nat) + " days"@
        } else {
            "in "@ + decimal(days as nat) + " days "@ + decimal(hours as nat) + " hours"@
        }
    }
}

/// Says when a block is expected, seen from the tip of the chain.
pub fn height_to_future_est(block_height: u32, tip_height: u32) -> (text: String)
    ensures
        text@ == future_text(block_height as nat, tip_height as nat),
{
    if block_height <= tip_height {
        return "now".to_string();
    }
    let remaining: u64 = (block_height - tip_height) as u64;
    let mut text = "in ".to_string();
    if remaining <= 5 {
        push_decimal(&mut text, remaining * 10);
        text.append(" minutes");
        return text;
    }
    if remaining <= 144 {
        let hours: u64 = remaining / 6;
        let minutes: u64 = (remaining % 6) * 10;
        push_decimal(&mut text, hours);
        if minutes == 0 {
            text.append(" hours");
            return text;
        }
        text.append(" hours ");
        push_decimal(&mut text, minutes);
        text.append(" minutes");
        return text;
    }
    let days: u64 = remaining / 144;
    let hours: u64 = (remaining % 144) / 6;
    push_decimal(&mut text, days);
    if hours == 0 {
        text.append(" days");
        return text;
    }
    text.append(" days ");
    push_decimal(&mut text, hours);
    text.append(" hours");
    text
}

/// How long ago a block was, ten minutes for each block: `just now` for a
/// block that is not behind the tip; minutes up to five blocks; hours,
/// rounded to the nearest, up to a day of 144 blocks; beyond that days,
/// rounded to the nearest.
pub open spec fn past_text(block_height: nat, tip_height: nat) -> Seq<char> {
    let elapsed = tip_height - block_height;
    if block_height >= tip_height {
        "just now"@
    } else if elapsed <= 5 {
        decimal((elapsed * 10) as nat) + " minutes ago"@
    } else if elapsed <= 144 {
        decimal(((elapsed + 3) / 6) as nat) + " hours ago"@
    } else {
        decimal(((elapsed + 72) / 144) as nat) + " days ago"@
    }
}

/// Says how long ago a block was, seen from the tip of the chain.
pub fn height_to_past_est(block_height: u32, tip_height: u32) -> (text: String)
    ensures
        text@ == past_text(block_height as nat, tip_height as nat),
{
    if block_height >= tip_height {
        return "just now".to_string();
    }
    let elapsed: u64 = (tip_height - block_height) as u64;
    let mut text = String::new();
    if elapsed <= 5 {
        push_decimal(&mut text, elapsed * 10);
        text.append(" minutes ago");
        return text;
    }
    if elapsed <= 144 {
        push_decimal(&mut text, (elapsed + 3) / 6);
        text.append(" hours ago");
        return text;
    }
    push_decimal(&mut text, (elapsed + 72) / 144);
    text.append(" days ago");
    text
}

} // verus!
