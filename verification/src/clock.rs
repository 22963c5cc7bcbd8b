//! Readings of the local clock and the stamps written from them: the
//! `backup_YYYY-MM-DD_HH-MM-SS` folder names and the `HH:MM` schedule times.
use vstd::prelude::*;
use chrono::{Datelike, Timelike};
use crate::number::{digit_char, digit_to_char, push_zero_padded, zero_padded};
use crate::text::{push_char, text_lt};

verus! {

/// A reading of the local clock, field by field.
#[derive(Clone, Copy, Debug, PartialEq, Eq, Structural)]
pub struct LocalTime {
    pub year: i32,
    pub month: u32,
    pub day: u32,
    pub hour: u32,
    pub minute: u32,
    pub second: u32,
}

impl LocalTime {
    /// The ranges that chrono documents for each field.
    pub open spec fn valid(self) -> bool {
        &&& 1 <= self.month <= 12
        &&& 1 <= self.day <= 31
        &&& self.hour <= 23
        &&& self.minute <= 59
        &&& self.second <= 59
    }

    /// The reading as one number of seconds-like units, ordered as time is.
    pub open spec fn ordinal(self) -> int {
        ((((self.year as int * 100 + self.month) * 100 + self.day) * 100 + self.hour) * 100
            + self.minute) * 100 + self.second
    }
}

/// Reads the local clock: calls `chrono::Local::now` and takes its date and
/// time fields, which chrono documents to lie in the ranges of `valid`.
#[verifier::external_body]
pub(crate) fn local_now() -> (t: LocalTime)
    ensures
        t.valid(),
{
    let now = chrono::Local::now();
    LocalTime {
        year: now.year(),
        month: now.month(),
        day: now.day(),
        hour: now.hour(),
        minute: now.minute(),
        second: now.second(),
    }
}

/// The last `w` decimal digits of `n`, most significant first.
pub open spec fn fixed_digits(n: nat, w: nat) -> Seq<char>
    decreases w,
{
    if w == 0 {
        Seq::empty()
    } else {
        fixed_digits(n / 10, (w - 1) as nat).push(digit_char(n % 10))
    }
}

/// chrono's `%Y`: four digits for years 0 to 9999, otherwise a sign and at
/// least four digits.
pub open spec fn year_text(y: int) -> Seq<char> {
    if 0 <= y <= 9999 {
        fixed_digits(y as nat, 4)
    } else if y > 9999 {
        seq!['+'] + zero_padded(y as nat, 4)
    } else {
        seq!['-'] + zero_padded((-y) as nat, 4)
    }
}

/// `%Y-%m-%d`, the day of a reading.
pub open spec fn day_text(t: LocalTime) -> Seq<char> {
    year_text(t.year as int) + seq!['-'] + fixed_digits(t.month as nat, 2) + seq!['-']
        + fixed_digits(t.day as nat, 2)
}

/// `%Y-%m-%d_%H-%M-%S`, the stamp that names a backup folder.
pub open spec fn stamp_text(t: LocalTime) -> Seq<char> {
    day_text(t) + seq!['_'] + fixed_digits(t.hour as nat, 2) + seq!['-'] + fixed_digits(
        t.minute as nat,
        2,
    ) + seq!['-'] + fixed_digits(t.second as nat, 2)
}

/// `%H:%M`, the minute of a reading as schedules write it.
pub open spec fn minute_text(t: LocalTime) -> Seq<char> {
    fixed_digits(t.hour as nat, 2) + seq![':'] + fixed_digits(t.minute as nat, 2)
}

fn push_fixed_digits(out: &mut String, n: u64, w: u64)
    requires
        w <= 20,
    ensures
        final(out)@ == old(out)@ + fixed_digits(n as nat, w as nat),
    decreases w,
{
    if w > 0 {
        push_fixed_digits(out, n / 10, w - 1);
        push_char(out, digit_to_char(n % 10));
    } else {
        assert(old(out)@ + fixed_digits(n as nat, w as nat) =~= old(out)@);
    }
}

fn push_year(out: &mut String, y: i32)
    ensures
        final(out)@ == old(out)@ + year_text(y as int),
{
    if 0 <= y && y <= 9999 {
        push_fixed_digits(out, y as u64, 4);
    } else if y > 9999 {
        push_char(out, '+');
        push_zero_padded(out, y as u64, 4);
        assert(final(out)@ =~= old(out)@ + year_text(y as int));
    } else {
        push_char(out, '-');
        let magnitude: i64 = -(y as i64);
        push_zero_padded(out, magnitude as u64, 4);
        assert(final(out)@ =~= old(out)@ + year_text(y as int));
    }
}

impl LocalTime {
    /// `format("%Y-%m-%d")`.
    pub fn day_stamp(&self) -> (r: String)
        ensures
            r@ == day_text(*self),
    {
        let mut r = String::new();
        push_year(&mut r, self.year);
        push_char(&mut r, '-');
        push_fixed_digits(&mut r, self.month as u64, 2);
        push_char(&mut r, '-');
        push_fixed_digits(&mut r, self.day as u64, 2);
        assert(r@ =~= day_text(*self));
        r
    }

    /// `format("%Y-%m-%d_%H-%M-%S")`, the stamp of a backup folder.
    pub fn backup_stamp(&self) -> (r: String)
        ensures
            r@ == stamp_text(*self),
    {
        let mut r = self.day_stamp();
        push_char(&mut r, '_');
        push_fixed_digits(&mut r, self.hour as u64, 2);
        push_char(&mut r, '-');
        push_fixed_digits(&mut r, self.minute as u64, 2);
        push_char(&mut r, '-');
        push_fixed_digits(&mut r, self.second as u64, 2);
        assert(r@ =~= stamp_text(*self));
        r
    }

    /// `format!("{:02}:{:02}", hour, minute)`.
    pub fn minute_stamp(&self) -> (r: String)
        ensures
            r@ == minute_text(*self),
    {
        let mut r = String::new();
        push_fixed_digits(&mut r, self.hour as u64, 2);
        push_char(&mut r, ':');
        push_fixed_digits(&mut r, self.minute as u64, 2);
        assert(r@ =~= minute_text(*self));
        r
    }
}


/// Ten to the power `w`.
pub open spec fn pow10(w: nat) -> nat
    decreases w,
{
    if w == 0 {
        1
    } else {
        10 * pow10((w - 1) as nat)
    }
}

proof fn lemma_fixed_digits_len(n: nat, w: nat)
    ensures
        fixed_digits(n, w).len() == w,
    decreases w,
{
    if w > 0 {
        lemma_fixed_digits_len(n / 10, (w - 1) as nat);
    }
}

proof fn lemma_digit_char_order(a: nat, b: nat)
    requires
        a < 10,
        b < 10,
    ensures
        (digit_char(a) < digit_char(b)) == (a < b),
        (digit_char(a) == digit_char(b)) == (a == b),
{
}

/// Fixed-width decimal writings compare as text exactly as their values
/// compare as numbers.
pub proof fn lemma_fixed_digits_order(n: nat, m: nat, w: nat)
    requires
        n < pow10(w),
        m < pow10(w),
    ensures
        text_lt(fixed_digits(n, w), fixed_digits(m, w)) == (n < m),
        (fixed_digits(n, w) == fixed_digits(m, w)) == (n == m),
    decreases w,
{
    if w == 0 {
        crate::text::lemma_text_lt_irreflexive(fixed_digits(n, w));
    } else {
        let w1 = (w - 1) as nat;
        lemma_fixed_digits_order(n / 10, m / 10, w1);
        lemma_fixed_digits_len(n / 10, w1);
        lemma_fixed_digits_len(m / 10, w1);
        lemma_digit_char_order(n % 10, m % 10);
        crate::text::lemma_text_lt_concat(
            fixed_digits(n / 10, w1),
            seq![digit_char(n % 10)],
            fixed_digits(m / 10, w1),
            seq![digit_char(m % 10)],
        );
        assert(fixed_digits(n, w) =~= fixed_digits(n / 10, w1) + seq![digit_char(n % 10)]);
        assert(fixed_digits(m, w) =~= fixed_digits(m / 10, w1) + seq![digit_char(m % 10)]);
        reveal_with_fuel(text_lt, 2);
        assert(seq![digit_char(n % 10)][0] == digit_char(n % 10));
        assert(seq![digit_char(n % 10)] == seq![digit_char(m % 10)] <==> n % 10 == m % 10) by {
            if seq![digit_char(n % 10)] == seq![digit_char(m % 10)] {
                assert(seq![digit_char(n % 10)][0] == seq![digit_char(m % 10)][0]);
            }
        }
    }
}


proof fn lemma_step(p1: Seq<char>, x1: Seq<char>, p2: Seq<char>, x2: Seq<char>)
    requires
        p1.len() == p2.len(),
    ensures
        text_lt(p1 + x1, p2 + x2) == (text_lt(p1, p2) || (p1 == p2 && text_lt(x1, x2))),
        (p1 + x1 == p2 + x2) == (p1 == p2 && x1 == x2),
        (p1 + x1).len() == p1.len() + x1.len(),
{
    crate::text::lemma_text_lt_concat(p1, x1, p2, x2);
}

proof fn lemma_field(n: nat, m: nat, w: nat)
    requires
        n < pow10(w),
        m < pow10(w),
    ensures
        text_lt(fixed_digits(n, w), fixed_digits(m, w)) == (n < m),
        (fixed_digits(n, w) == fixed_digits(m, w)) == (n == m),
        fixed_digits(n, w).len() == w,
        fixed_digits(m, w).len() == w,
{
    lemma_fixed_digits_order(n, m, w);
    lemma_fixed_digits_len(n, w);
    lemma_fixed_digits_len(m, w);
}

proof fn lemma_separator(c: char)
    ensures
        !text_lt(seq![c], seq![c]),
{
    crate::text::lemma_text_lt_irreflexive(seq![c]);
}

/// Backup stamps sort as the times they record: for readings in the years
/// 0 to 9999, one stamp is before another in text order exactly when its
/// reading is earlier, and two stamps are equal exactly when the readings
/// are. Listing versions by name from last to first therefore lists them
/// from newest to oldest.
pub proof fn lemma_stamp_order(a: LocalTime, b: LocalTime)
    requires
        a.valid(),
        b.valid(),
        0 <= a.year <= 9999,
        0 <= b.year <= 9999,
    ensures
        text_lt(stamp_text(a), stamp_text(b)) == (a.ordinal() < b.ordinal()),
        (stamp_text(a) == stamp_text(b)) == (a == b),
{
    assert(pow10(2) == 100) by {
        reveal_with_fuel(pow10, 3);
    }
    assert(pow10(4) == 10000) by {
        reveal_with_fuel(pow10, 5);
    }
    lemma_field(a.year as nat, b.year as nat, 4);
    lemma_field(a.month as nat, b.month as nat, 2);
    lemma_field(a.day as nat, b.day as nat, 2);
    lemma_field(a.hour as nat, b.hour as nat, 2);
    lemma_field(a.minute as nat, b.minute as nat, 2);
    lemma_field(a.second as nat, b.second as nat, 2);
    lemma_separator('-');
    lemma_separator('_');
    let ya = fixed_digits(a.year as nat, 4);
    let yb = fixed_digits(b.year as nat, 4);
    assert(year_text(a.year as int) == ya);
    assert(year_text(b.year as int) == yb);
    let l1a = ya + seq!['-'];
    let l1b = yb + seq!['-'];
    lemma_step(ya, seq!['-'], yb, seq!['-']);
    let l2a = l1a + fixed_digits(a.month as nat, 2);
    let l2b = l1b + fixed_digits(b.month as nat, 2);
    lemma_step(l1a, fixed_digits(a.month as nat, 2), l1b, fixed_digits(b.month as nat, 2));
    let l3a = l2a + seq!['-'];
    let l3b = l2b + seq!['-'];
    lemma_step(l2a, seq!['-'], l2b, seq!['-']);
    let l4a = l3a + fixed_digits(a.day as nat, 2);
    let l4b = l3b + fixed_digits(b.day as nat, 2);
    lemma_step(l3a, fixed_digits(a.day as nat, 2), l3b, fixed_digits(b.day as nat, 2));
    assert(l4a == day_text(a));
    assert(l4b == day_text(b));
    let l5a = l4a + seq!['_'];
    let l5b = l4b + seq!['_'];
    lemma_step(l4a, seq!['_'], l4b, seq!['_']);
    let l6a = l5a + fixed_digits(a.hour as nat, 2);
    let l6b = l5b + fixed_digits(b.hour as nat, 2);
    lemma_step(l5a, fixed_digits(a.hour as nat, 2), l5b, fixed_digits(b.hour as nat, 2));
    let l7a = l6a + seq!['-'];
    let l7b = l6b + seq!['-'];
    lemma_step(l6a, seq!['-'], l6b, seq!['-']);
    let l8a = l7a + fixed_digits(a.minute as nat, 2);
    let l8b = l7b + fixed_digits(b.minute as nat, 2);
    lemma_step(l7a, fixed_digits(a.minute as nat, 2), l7b, fixed_digits(b.minute as nat, 2));
    let l9a = l8a + seq!['-'];
    let l9b = l8b + seq!['-'];
    lemma_step(l8a, seq!['-'], l8b, seq!['-']);
    let l10a = l9a + fixed_digits(a.second as nat, 2);
    let l10b = l9b + fixed_digits(b.second as nat, 2);
    lemma_step(l9a, fixed_digits(a.second as nat, 2), l9b, fixed_digits(b.second as nat, 2));
    assert(l10a == stamp_text(a));
    assert(l10b == stamp_text(b));
}

} // verus!
