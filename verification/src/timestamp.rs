//! Instants of the remote service, counted in microseconds, and their text:
//! seconds in decimal, with up to six digits after the point.

use vstd::prelude::*;
use vstd::string::*;
use crate::decimal::{
    all_digits, decimal, digit_value, digits_value, is_digit, lemma_decimal_is_digits,
    lemma_decimal_value, lemma_padded, lemma_pow10_positive, magnitude_of, padded, pow10,
    push_decimal, push_padded,
};

verus! {

/// Microseconds in one second.
pub const MICROS_PER_SECOND: i64 = 1_000_000;

/// An instant: microseconds since the epoch of the remote service.
#[derive(Debug, Clone, Copy, PartialEq, Eq, Structural)]
pub struct Timestamp {
    pub micros: i64,
}

/// The digits after the point for `f` parts in ten to the `width`: `width`
/// digits, less the zeros at the end. Nothing at all for zero.
pub open spec fn fraction_digits(f: nat, width: nat) -> Seq<char>
    decreases width,
{
    if width == 0 {
        Seq::empty()
    } else if f % 10 == 0 {
        fraction_digits(f / 10, (width - 1) as nat)
    } else {
        padded(f, width)
    }
}

/// The text of a count of microseconds that is not negative, as seconds:
/// the whole seconds, and a point with the digits after it where the count
/// is no whole number of seconds.
pub open spec fn magnitude_text(magnitude: nat) -> Seq<char> {
    let point = if magnitude % 1_000_000 == 0 {
        Seq::<char>::empty()
    } else {
        seq!['.']
    };
    decimal(magnitude / 1_000_000) + point + fraction_digits(magnitude % 1_000_000, 6)
}

/// The text of a count of microseconds, as seconds: a minus sign where it is
/// negative, then the text of its distance from zero.
pub open spec fn micros_text(micros: int) -> Seq<char> {
    if micros < 0 {
        seq!['-'] + magnitude_text((-micros) as nat)
    } else {
        magnitude_text(micros as nat)
    }
}

impl Timestamp {
    /// The instant zero, from which a first run fetches.
    pub fn zero() -> (t: Timestamp)
        ensures
            t.micros == 0,
    {
        Timestamp { micros: 0 }
    }

    /// The text of this instant.
    pub open spec fn text(self) -> Seq<char> {
        micros_text(self.micros as int)
    }

    /// Writes this instant as text.
    pub fn to_text(&self) -> (out: String)
        ensures
            out@ == self.text(),
    {
        let mut out = String::new();
        if self.micros < 0 {
            out.append("-");
            proof {
                reveal_strlit("-");
            }
        }
        let ghost sign = out@;
        let magnitude: u64 = magnitude_of(self.micros);
        push_decimal(&mut out, magnitude / 1_000_000);
        let ghost whole = out@;
        let part: u64 = magnitude % 1_000_000;
        if part != 0 {
            out.append(".");
            proof {
                reveal_strlit(".");
                lemma_pow10_six();
            }
            let mut f: u64 = part;
            let mut width: u8 = 6;
            while f % 10 == 0
                invariant
                    0 < f < pow10(width as nat),
                    0 <= width <= 6,
                    fraction_digits(f as nat, width as nat) == fraction_digits(part as nat, 6),
                    out@ == whole + seq!['.'],
                decreases width,
            {
                assert(width > 0);
                f = f / 10;
                width = width - 1;
            }
            assert(width > 0);
            assert(fraction_digits(f as nat, width as nat) == padded(f as nat, width as nat));
            push_padded(&mut out, f, width);
            assert(out@ == whole + seq!['.'] + fraction_digits(part as nat, 6));
        } else {
            proof {
                lemma_fraction_of_zero(6);
                assert(out@ =~= whole + Seq::<char>::empty() + fraction_digits(0, 6));
            }
        }
        assert(whole == sign + decimal((magnitude / 1_000_000) as nat));
        assert(out@ =~= sign + magnitude_text(magnitude as nat));
        assert(out@ =~= self.text());
        out
    }
}

/// The digits after the point are between one and `width` digits for a part
/// that is not zero, and they spell the part once the trimmed zeros are put back.
pub proof fn lemma_fraction_digits(f: nat, width: nat)
    requires
        0 < f < pow10(width),
    ensures
        1 <= fraction_digits(f, width).len() <= width,
        all_digits(fraction_digits(f, width)),
        digits_value(fraction_digits(f, width)) * pow10(
            (width - fraction_digits(f, width).len()) as nat,
        ) == f,
    decreases width,
{
    if width == 0 {
    } else if f % 10 == 0 {
        let w = (width - 1) as nat;
        lemma_pow10_positive(w);
        lemma_fraction_digits(f / 10, w);
        let r = fraction_digits(f / 10, w);
        assert(r == fraction_digits(f, width));
        let k = (w - r.len()) as nat;
        assert((width - r.len()) as nat == k + 1);
        assert(pow10(k + 1) == 10 * pow10(k));
        assert(digits_value(r) * pow10(k + 1) == f) by (nonlinear_arith)
            requires
                digits_value(r) * pow10(k) == f / 10,
                f % 10 == 0,
                pow10(k + 1) == 10 * pow10(k),
        ;
    } else {
        lemma_padded(f, width);
        vstd::arithmetic::div_mod::lemma_small_mod(f, pow10(width));
        assert(fraction_digits(f, width) == padded(f, width));
        assert(pow10(0) == 1);
        assert(digits_value(padded(f, width)) * 1 == f);
    }
}

/// Zero has no digits after the point.
pub proof fn lemma_fraction_of_zero(width: nat)
    ensures
        fraction_digits(0, width) == Seq::<char>::empty(),
    decreases width,
{
    if width > 0 {
        lemma_fraction_of_zero((width - 1) as nat);
    }
}

/// Ten to the sixth power is a million.
pub proof fn lemma_pow10_six()
    ensures
        pow10(0) == 1,
        pow10(1) == 10,
        pow10(2) == 100,
        pow10(3) == 1_000,
        pow10(4) == 10_000,
        pow10(5) == 100_000,
        pow10(6) == 1_000_000,
{
    reveal_with_fuel(pow10, 8);
}

/// The text without its line feeds.
pub open spec fn without_newlines(text: Seq<char>) -> Seq<char> {
    text.filter(|c: char| c != '\n')
}

/// How many digits `s` starts with.
pub open spec fn leading_digits(s: Seq<char>) -> nat
    decreases s.len(),
{
    if s.len() > 0 && is_digit(s[0]) {
        1 + leading_digits(s.skip(1))
    } else {
        0
    }
}

/// The microseconds that a text of seconds spells: at least one digit, then
/// nothing more, or a point and one to six digits. `None` for any other text.
#[verifier::opaque]
pub open spec fn unsigned_micros(s: Seq<char>) -> Option<nat> {
    let w = leading_digits(s) as int;
    let whole = digits_value(s.take(w));
    let rest = s.skip(w + 1);
    if w == 0 {
        None
    } else if w == s.len() {
        Some(whole * 1_000_000)
    } else if s[w] == '.' && 1 <= rest.len() <= 6 && all_digits(rest) {
        Some(whole * 1_000_000 + digits_value(rest) * pow10((6 - rest.len()) as nat))
    } else {
        None
    }
}

/// The count of microseconds that a text spells once its line feeds are
/// dropped: an optional minus sign, then seconds as `unsigned_micros` reads
/// them. `None` where the text has another form or the count leaves the
/// range of the type.
pub open spec fn parse_micros(text: Seq<char>) -> Option<int> {
    let s = without_newlines(text);
    let negative = s.len() > 0 && s[0] == '-';
    let body = if negative {
        s.skip(1)
    } else {
        s
    };
    match unsigned_micros(body) {
        Some(v) => {
            let m = if negative {
                -(v as int)
            } else {
                v as int
            };
            if i64::MIN <= m <= i64::MAX {
                Some(m)
            } else {
                None
            }
        },
        None => None,
    }
}

/// The characters of `text` but the line feeds, in order.
fn chars_without_newlines(text: &str) -> (v: Vec<char>)
    ensures
        v@ == without_newlines(text@),
{
    let n = text.unicode_len();
    let mut v: Vec<char> = Vec::new();
    let mut i: usize = 0;
    proof {
        assert(text@.take(0) =~= Seq::<char>::empty());
        reveal(Seq::filter);
    }
    while i < n
        invariant
            n == text@.len(),
            0 <= i <= n,
            v@ == without_newlines(text@.take(i as int)),
        decreases n - i,
    {
        let c = text.get_char(i);
        proof {
            text@.lemma_take_succ_push(i as int);
            text@.take(i as int).lemma_filter_push(c, |c: char| c != '\n');
        }
        if c != '\n' {
            v.push(c);
        }
        i = i + 1;
    }
    proof {
        text@.lemma_take_len();
    }
    v
}

/// The most whole seconds whose microseconds can still fit the type.
pub const MAX_WHOLE_SECONDS: u64 = 9_223_372_036_854;

/// Reads the digits that start at `start`. Gives the place where they end,
/// and the number they spell unless it is over `MAX_WHOLE_SECONDS`.
fn read_digits(v: &Vec<char>, start: usize) -> (r: (usize, Option<u64>))
    requires
        start <= v.len(),
    ensures
        r.0 == start + leading_digits(v@.skip(start as int)),
        r.0 <= v.len(),
        match r.1 {
            Some(x) => x == digits_value(v@.subrange(start as int, r.0 as int)) && x
                <= MAX_WHOLE_SECONDS,
            None => digits_value(v@.subrange(start as int, r.0 as int)) > MAX_WHOLE_SECONDS,
        },
{
    let n = v.len();
    let mut i: usize = start;
    let mut value: u64 = 0;
    let mut over = false;
    proof {
        assert(v@.subrange(start as int, start as int) =~= Seq::<char>::empty());
    }
    while i < n && is_digit_char(v[i])
        invariant
            n == v.len(),
            start <= i <= n,
            leading_digits(v@.skip(start as int)) == (i - start) + leading_digits(
                v@.skip(i as int),
            ),
            !over ==> value == digits_value(v@.subrange(start as int, i as int)) && value
                <= MAX_WHOLE_SECONDS,
            over ==> digits_value(v@.subrange(start as int, i as int)) > MAX_WHOLE_SECONDS,
        decreases n - i,
    {
        let d: u64 = (v[i] as u32 - 48) as u64;
        proof {
            let run = v@.subrange(start as int, i as int + 1);
            assert(run.drop_last() =~= v@.subrange(start as int, i as int));
            assert(run.last() == v@[i as int]);
            assert(d == digit_value(v@[i as int]));
            assert(v@.skip(i as int).skip(1) =~= v@.skip(i as int + 1));
            assert(v@.skip(i as int)[0] == v@[i as int]);
        }
        if !over {
            value = value * 10 + d;
            if value > MAX_WHOLE_SECONDS {
                over = true;
            }
        }
        i = i + 1;
    }
    proof {
        if i < n {
            assert(v@.skip(i as int)[0] == v@[i as int]);
        }
    }
    if over {
        (i, None)
    } else {
        (i, Some(value))
    }
}

/// Whether `c` is one of `0` to `9`.
fn is_digit_char(c: char) -> (b: bool)
    ensures
        b == is_digit(c),
{
    '0' <= c && c <= '9'
}

/// Reads what follows the point: one to six digits up to the end of `v`.
/// Gives the microseconds they stand for, or `None` for anything else.
fn read_fraction(v: &Vec<char>, start: usize) -> (r: Option<u64>)
    requires
        start <= v.len(),
    ensures
        match r {
            Some(x) => {
                &&& 1 <= v@.skip(start as int).len() <= 6
                &&& all_digits(v@.skip(start as int))
                &&& x == digits_value(v@.skip(start as int)) * pow10(
                    (6 - v@.skip(start as int).len()) as nat,
                )
                &&& x < 1_000_000
            },
            None => !(1 <= v@.skip(start as int).len() <= 6 && all_digits(
                v@.skip(start as int),
            )),
        },
{
    let n = v.len();
    let len = n - start;
    if len == 0 || len > 6 {
        return None;
    }
    let ghost rest = v@.skip(start as int);
    let mut i: usize = start;
    let mut value: u64 = 0;
    proof {
        lemma_pow10_six();
        assert(v@.subrange(start as int, start as int) =~= Seq::<char>::empty());
    }
    while i < n
        invariant
            n == v.len(),
            start <= i <= n,
            n - start <= 6,
            rest == v@.skip(start as int),
            value == digits_value(v@.subrange(start as int, i as int)),
            value < pow10((i - start) as nat),
            all_digits(v@.subrange(start as int, i as int)),
        decreases n - i,
    {
        if !is_digit_char(v[i]) {
            proof {
                assert(rest[i - start] == v@[i as int]);
            }
            return None;
        }
        let d: u64 = (v[i] as u32 - 48) as u64;
        proof {
            lemma_pow10_six();
            let run = v@.subrange(start as int, i as int + 1);
            assert(run.drop_last() =~= v@.subrange(start as int, i as int));
            assert(run.last() == v@[i as int]);
            assert(d == digit_value(v@[i as int]));
            assert(pow10((i + 1 - start) as nat) == 10 * pow10((i - start) as nat));
            assert forall|j: int| 0 <= j < run.len() implies is_digit(#[trigger] run[j]) by {
                if j < run.len() - 1 {
                    assert(run[j] == v@.subrange(start as int, i as int)[j]);
                }
            }
        }
        value = value * 10 + d;
        i = i + 1;
    }
    assert(v@.subrange(start as int, n as int) =~= rest);
    let mut k: usize = len;
    let mut scaled: u64 = value;
    proof {
        lemma_pow10_six();
        assert(value * pow10(0) == value);
    }
    while k < 6
        invariant
            len <= k <= 6,
            scaled == value * pow10((k - len) as nat),
            scaled < pow10(k as nat),
            value < pow10(len as nat),
        decreases 6 - k,
    {
        proof {
            lemma_pow10_six();
            let e = (k - len) as nat;
            assert(pow10(e + 1) == 10 * pow10(e));
            assert(pow10((k + 1) as nat) == 10 * pow10(k as nat));
            assert(value * pow10(e + 1) == (value * pow10(e)) * 10) by (nonlinear_arith)
                requires
                    pow10(e + 1) == 10 * pow10(e),
            ;
        }
        scaled = scaled * 10;
        k = k + 1;
    }
    Some(scaled)
}

impl Timestamp {
    /// The instant that a text spells, if it spells one.
    pub open spec fn parsed(text: Seq<char>) -> Option<Timestamp> {
        match parse_micros(text) {
            Some(m) => Some(Timestamp { micros: m as i64 }),
            None => None,
        }
    }

    /// Reads an instant from its text. Line feeds are passed over.
    pub fn parse(text: &str) -> (r: Option<Timestamp>)
        ensures
            r == Timestamp::parsed(text@),
    {
        let v = chars_without_newlines(text);
        let n = v.len();
        let negative = n > 0 && v[0] == '-';
        let start: usize = if negative {
            1
        } else {
            0
        };
        let ghost body = v@.skip(start as int);
        let (end, whole) = read_digits(&v, start);
        proof {
            reveal(unsigned_micros);
            assert(v@.skip(0) =~= v@);
            assert(body.take(end - start) =~= v@.subrange(start as int, end as int));
        }
        if end == start {
            return None;
        }
        let part: u64 = if end == n {
            0
        } else {
            assert(body[end - start] == v@[end as int]);
            assert(body.skip(end - start + 1) =~= v@.skip(end as int + 1));
            if v[end] != '.' {
                return None;
            }
            match read_fraction(&v, end + 1) {
                Some(p) => p,
                None => {
                    return None;
                },
            }
        };
        let seconds: u64 = match whole {
            Some(w) => w,
            None => {
                return None;
            },
        };
        let total: u64 = seconds * 1_000_000 + part;
        assert(unsigned_micros(body) == Some(total as nat));
        if negative {
            if total > 9_223_372_036_854_775_808 {
                None
            } else if total == 9_223_372_036_854_775_808 {
                Some(Timestamp { micros: i64::MIN })
            } else {
                Some(Timestamp { micros: -(total as i64) })
            }
        } else {
            if total > 9_223_372_036_854_775_807 {
                None
            } else {
                Some(Timestamp { micros: total as i64 })
            }
        }
    }
}

/// A text that holds no line feed is kept whole.
pub proof fn lemma_without_newlines_keeps(s: Seq<char>)
    requires
        forall|i: int| 0 <= i < s.len() ==> #[trigger] s[i] != '\n',
    ensures
        without_newlines(s) == s,
    decreases s.len(),
{
    if s.len() == 0 {
        reveal(Seq::filter);
    } else {
        let front = s.drop_last();
        lemma_without_newlines_keeps(front);
        front.lemma_filter_push(s.last(), |c: char| c != '\n');
        assert(front.push(s.last()) =~= s);
    }
}

/// A run of digits in front of something that starts with no digit is
/// counted whole, and no further.
pub proof fn lemma_leading_digits_of_run(run: Seq<char>, rest: Seq<char>)
    requires
        all_digits(run),
        rest.len() == 0 || !is_digit(rest[0]),
    ensures
        leading_digits(run + rest) == run.len(),
    decreases run.len(),
{
    if run.len() == 0 {
        assert(run + rest =~= rest);
    } else {
        assert((run + rest)[0] == run[0]);
        assert((run + rest).skip(1) =~= run.skip(1) + rest);
        assert forall|i: int| 0 <= i < run.skip(1).len() implies is_digit(
            #[trigger] run.skip(1)[i],
        ) by {
            assert(run.skip(1)[i] == run[i + 1]);
        }
        lemma_leading_digits_of_run(run.skip(1), rest);
    }
}

/// The text of a count that is not negative starts with a digit, holds no
/// line feed, and reads back as the count.
pub proof fn lemma_magnitude_round_trip(magnitude: nat)
    ensures
        magnitude_text(magnitude).len() >= 1,
        is_digit(magnitude_text(magnitude)[0]),
        forall|i: int|
            0 <= i < magnitude_text(magnitude).len() ==> #[trigger] magnitude_text(magnitude)[i]
                != '\n' && magnitude_text(magnitude)[i] != '-',
        unsigned_micros(magnitude_text(magnitude)) == Some(magnitude),
{
    let seconds = magnitude / 1_000_000;
    let part = magnitude % 1_000_000;
    let whole = decimal(seconds);
    let point = if part == 0 {
        Seq::<char>::empty()
    } else {
        seq!['.']
    };
    let digits = fraction_digits(part, 6);
    let tail = point + digits;
    let body = magnitude_text(magnitude);
    reveal(unsigned_micros);
    assert(body =~= whole + tail);
    lemma_decimal_is_digits(seconds);
    lemma_decimal_value(seconds);
    lemma_pow10_six();
    if part == 0 {
        lemma_fraction_of_zero(6);
        assert(tail =~= Seq::<char>::empty());
    } else {
        lemma_fraction_digits(part, 6);
        assert(tail[0] == '.');
        assert(tail.skip(1) =~= digits);
    }
    assert(body[0] == whole[0]);
    assert forall|i: int| 0 <= i < body.len() implies #[trigger] body[i] != '\n' && body[i]
        != '-' by {
        if i < whole.len() {
            assert(body[i] == whole[i]);
        } else if i < whole.len() + point.len() {
            assert(body[i] == '.');
        } else {
            assert(body[i] == digits[i - whole.len() - point.len()]);
        }
    }
    lemma_leading_digits_of_run(whole, tail);
    assert(leading_digits(body) == whole.len());
    assert(body.take(whole.len() as int) =~= whole);
    if part != 0 {
        assert(body[whole.len() as int] == '.');
        assert(body.skip(whole.len() as int + 1) =~= digits);
        assert(unsigned_micros(body) == Some(magnitude));
    } else {
        assert(body.len() == whole.len());
        assert(unsigned_micros(body) == Some(magnitude));
    }
}

/// A text of seconds with or without a minus sign in front reads as its
/// count, taken negative under the sign.
pub proof fn lemma_parse_signed(body: Seq<char>, magnitude: nat, negative: bool)
    requires
        body.len() >= 1,
        is_digit(body[0]),
        forall|i: int| 0 <= i < body.len() ==> #[trigger] body[i] != '\n',
        unsigned_micros(body) == Some(magnitude),
        if negative {
            magnitude <= -i64::MIN
        } else {
            magnitude <= i64::MAX
        },
    ensures
        negative ==> parse_micros(seq!['-'] + body) == Some(-(magnitude as int)),
        !negative ==> parse_micros(body) == Some(magnitude as int),
{
    if negative {
        let text = seq!['-'] + body;
        assert forall|i: int| 0 <= i < text.len() implies #[trigger] text[i] != '\n' by {
            if i > 0 {
                assert(text[i] == body[i - 1]);
            }
        }
        lemma_without_newlines_keeps(text);
        assert(text[0] == '-');
        assert(text.skip(1) =~= body);
    } else {
        lemma_without_newlines_keeps(body);
    }
}

/// Reading back the seconds text of a count of microseconds gives the count.
pub proof fn lemma_micros_round_trip(micros: int)
    requires
        i64::MIN <= micros <= i64::MAX,
    ensures
        parse_micros(micros_text(micros)) == Some(micros),
{
    if micros < 0 {
        lemma_magnitude_round_trip((-micros) as nat);
        lemma_parse_signed(magnitude_text((-micros) as nat), (-micros) as nat, true);
    } else {
        lemma_magnitude_round_trip(micros as nat);
        lemma_parse_signed(magnitude_text(micros as nat), micros as nat, false);
    }
}

impl Timestamp {
    /// An instant written as text and read back is the same instant.
    pub proof fn lemma_text_round_trip(self)
        ensures
            Timestamp::parsed(self.text()) == Some(self),
    {
        lemma_micros_round_trip(self.micros as int);
    }
}

} // verus!
