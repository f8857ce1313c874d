use vstd::prelude::*;
use crate::outcome::opt_view;

verus! {

/// The largest value an Active Directory 64-bit time attribute holds; as a
/// password's computed expiry time it means the password never expires.
pub open spec fn never_expires() -> int {
    0x7FFF_FFFF_FFFF_FFFF
}

pub open spec fn is_digit(c: char) -> bool {
    '0' <= c <= '9'
}

/// The number written by a string of decimal digits.
pub open spec fn digits_value(s: Seq<char>) -> int
    decreases s.len(),
{
    if s.len() == 0 {
        0
    } else {
        digits_value(s.drop_last()) * 10 + (s.last() as int - '0' as int)
    }
}

/// The value of an attribute written in decimal: a non-empty string of
/// digits whose number fits a signed 64-bit integer; `None` otherwise.
pub open spec fn spec_parse_decimal(s: Seq<char>) -> Option<int> {
    if s.len() > 0 && (forall|i: int| 0 <= i < s.len() ==> is_digit(#[trigger] s[i]))
        && digits_value(s) <= never_expires() {
        Some(digits_value(s))
    } else {
        None
    }
}

/// The Unix time, in seconds, of an Active Directory time: a count of
/// 100-nanosecond intervals since 1601-01-01 UTC, which lies 11644473600
/// seconds before 1970-01-01 UTC.
pub open spec fn expiry_unix_seconds(filetime: int) -> int {
    filetime / 10_000_000 - 11_644_473_600
}

/// The whole days left from `now` until `expiry` (both Unix seconds): 0 once
/// the password has expired.
pub open spec fn spec_days_until(expiry: int, now: int) -> int {
    if expiry <= now {
        0
    } else {
        (expiry - now) / 86400
    }
}

/// The days until a password expires, from the text of its computed expiry
/// time and the current Unix time: `None` when there is no readable decimal
/// expiry time or when it says the password never expires.
pub open spec fn spec_expiry_days(expiry_text: Option<Seq<char>>, now: int) -> Option<int> {
    match expiry_text {
        None => None,
        Some(t) => match spec_parse_decimal(t) {
            None => None,
            Some(v) => if v == never_expires() {
                None
            } else {
                Some(spec_days_until(expiry_unix_seconds(v), now))
            },
        },
    }
}

/// The seconds-until-expiry value that means the record's password policies
/// never make the password expire.
pub open spec fn seconds_never_expire() -> int {
    -1
}

/// The whole days left, from the seconds until a password expires under the
/// record's and the node's password policies: `None` when the password never
/// expires, 0 once it has expired.
pub open spec fn spec_days_from_seconds(seconds: int) -> Option<int> {
    if seconds == seconds_never_expire() {
        None
    } else if seconds <= 0 {
        Some(0)
    } else {
        Some(seconds / 86400)
    }
}

/// A string of digits writes no smaller a number than any of its prefixes.
proof fn lemma_digits_value_grows(s: Seq<char>, k: int)
    requires
        0 <= k <= s.len(),
        forall|i: int| 0 <= i < s.len() ==> is_digit(#[trigger] s[i]),
    ensures
        digits_value(s.take(k)) <= digits_value(s),
        0 <= digits_value(s),
    decreases s.len(),
{
    if s.len() > 0 {
        let prev = s.drop_last();
        assert forall|i: int| 0 <= i < prev.len() implies is_digit(#[trigger] prev[i]) by {
            assert(prev[i] == s[i]);
        }
        assert(is_digit(s[s.len() - 1]));
        if k < s.len() {
            lemma_digits_value_grows(prev, k);
            assert(prev.take(k) =~= s.take(k));
        } else {
            lemma_digits_value_grows(prev, 0);
            assert(s.take(k) =~= s);
        }
    } else {
        assert(s.take(k) =~= s);
    }
}

/// Reads a non-negative decimal number that fits a signed 64-bit integer;
/// `None` for an empty string, any character that is no digit, or a number
/// too large.
pub fn parse_decimal(s: &String) -> (res: Option<u64>)
    ensures
        match spec_parse_decimal(s@) {
            Some(v) => res == Some(v as u64) && v == res.unwrap(),
            None => res is None,
        },
{
    let t = s.as_str();
    let n = t.unicode_len();
    if n == 0 {
        return None;
    }
    let mut acc: u64 = 0;
    let mut i: usize = 0;
    while i < n
        invariant
            n == s@.len(),
            t@ == s@,
            i <= n,
            forall|j: int| 0 <= j < i ==> is_digit(#[trigger] s@[j]),
            acc == digits_value(s@.take(i as int)),
            acc <= never_expires(),
        decreases n - i,
    {
        let c = t.get_char(i);
        if c < '0' || c > '9' {
            assert(!is_digit(s@[i as int]));
            return None;
        }
        let d: u64 = (c as u32 - '0' as u32) as u64;
        assert(s@.take(i + 1).drop_last() =~= s@.take(i as int));
        assert(s@.take(i + 1).last() == c);
        if acc > 922_337_203_685_477_580 || (acc == 922_337_203_685_477_580 && d > 7) {
            // The prefix read so far already exceeds the largest value.
            proof {
                if forall|j: int| 0 <= j < s@.len() ==> is_digit(#[trigger] s@[j]) {
                    lemma_digits_value_grows(s@, i + 1);
                }
            }
            return None;
        }
        acc = acc * 10 + d;
        i = i + 1;
    }
    assert(s@.take(n as int) =~= s@);
    Some(acc)
}

/// The whole days from `now` (Unix seconds) until the Active Directory time
/// `filetime`, and 0 when that time has passed.
pub fn days_until_expiry(filetime: u64, now: i64) -> (days: i64)
    requires
        filetime <= never_expires(),
    ensures
        days == spec_days_until(expiry_unix_seconds(filetime as int), now as int),
{
    let expiry: i128 = (filetime / 10_000_000) as i128 - 11_644_473_600;
    let diff: i128 = expiry - now as i128;
    if diff <= 0 {
        0
    } else {
        let days = diff / 86400;
        assert(days <= diff) by (nonlinear_arith)
            requires
                diff > 0,
                days == diff / 86400;
        assert(days <= 0x7FFF_FFFF_FFFF_FFFF) by (nonlinear_arith)
            requires
                0 < diff <= 0x7FFF_FFFF_FFFF_FFFF + 0x8000_0000_0000_0000,
                days == diff / 86400;
        days as i64
    }
}

/// The days until a password expires, from the text of its computed expiry
/// time (if the record has one) and the current Unix time: `None` when the
/// text is no decimal time or says that the password never expires.
pub fn expiry_days(expiry_text: &Option<String>, now: i64) -> (res: Option<i64>)
    ensures
        match spec_expiry_days(opt_view(*expiry_text), now as int) {
            Some(d) => res == Some(d as i64) && d == res.unwrap(),
            None => res is None,
        },
{
    match expiry_text {
        None => None,
        Some(t) => match parse_decimal(t) {
            None => None,
            Some(v) => {
                if v == 0x7FFF_FFFF_FFFF_FFFF {
                    None
                } else {
                    Some(days_until_expiry(v, now))
                }
            },
        },
    }
}

/// The whole days left from the seconds until a password expires under the
/// record's and the node's password policies (`-1`: never; 0 or less:
/// expired).
pub fn days_from_seconds(seconds: i64) -> (res: Option<i64>)
    ensures
        match spec_days_from_seconds(seconds as int) {
            Some(d) => res == Some(d as i64) && d == res.unwrap(),
            None => res is None,
        },
{
    if seconds == -1 {
        None
    } else if seconds <= 0 {
        Some(0)
    } else {
        let d = seconds / 86400;
        assert(0 <= d <= seconds) by (nonlinear_arith)
            requires
                seconds > 0,
                d == seconds / 86400;
        Some(d)
    }
}

/// The days until expiry place the expiry time: 0 exactly when the password
/// has expired or expires within a day, otherwise the expiry lies at least
/// `days` and less than `days + 1` whole days after `now`.
pub proof fn lemma_days_until_bracket(expiry: int, now: int)
    ensures
        spec_days_until(expiry, now) >= 0,
        expiry <= now ==> spec_days_until(expiry, now) == 0,
        expiry > now ==> {
            let d = spec_days_until(expiry, now);
            &&& now + d * 86400 <= expiry
            &&& expiry < now + (d + 1) * 86400
        },
{
    if expiry > now {
        let diff = expiry - now;
        let d = diff / 86400;
        assert(d * 86400 <= diff && diff < (d + 1) * 86400 && d >= 0) by (nonlinear_arith)
            requires
                diff > 0,
                d == diff / 86400;
    }
}

/// As time passes the days until expiry never grow.
pub proof fn lemma_days_until_never_grow(expiry: int, now1: int, now2: int)
    requires
        now1 <= now2,
    ensures
        spec_days_until(expiry, now2) <= spec_days_until(expiry, now1),
{
    if expiry > now2 {
        let a = expiry - now2;
        let b = expiry - now1;
        assert(a / 86400 <= b / 86400) by (nonlinear_arith)
            requires
                0 < a <= b;
    }
}

/// Each digit appended multiplies the number by ten and adds the digit.
pub proof fn lemma_digits_value_push(s: Seq<char>, c: char)
    ensures
        digits_value(s.push(c)) == digits_value(s) * 10 + (c as int - '0' as int),
        digits_value(Seq::<char>::empty()) == 0,
{
    assert(s.push(c).drop_last() =~= s);
}

/// A decimal text is read as the number it writes when it is a non-empty run
/// of digits within the signed 64-bit range; an empty text, or one holding
/// any other character, is not read.
pub proof fn lemma_parse_decimal_reads(s: Seq<char>, i: int)
    ensures
        s.len() == 0 ==> spec_parse_decimal(s) is None,
        0 <= i < s.len() && !is_digit(s[i]) ==> spec_parse_decimal(s) is None,
        s.len() > 0 && (forall|j: int| 0 <= j < s.len() ==> is_digit(#[trigger] s[j]))
            && digits_value(s) <= 0x7FFF_FFFF_FFFF_FFFF ==> spec_parse_decimal(s) == Some(digits_value(s)),
{
}

/// An Active Directory time `t` seconds after 1970-01-01 (plus any fraction
/// of a second) is read as the Unix time `t`.
pub proof fn lemma_expiry_unix_seconds(t: int, r: int)
    requires
        t >= -11_644_473_600,
        0 <= r < 10_000_000,
    ensures
        expiry_unix_seconds((t + 11_644_473_600) * 10_000_000 + r) == t,
{
    let k = t + 11_644_473_600;
    assert(((k * 10_000_000 + r) / 10_000_000) == k) by (nonlinear_arith)
        requires
            k >= 0,
            0 <= r < 10_000_000;
}

/// The days from the seconds a password policy leaves: none when the
/// password never expires (-1), 0 once it has expired, otherwise the whole
/// days in those seconds.
pub proof fn lemma_days_from_seconds(seconds: int)
    ensures
        seconds == -1 ==> spec_days_from_seconds(seconds) is None,
        seconds != -1 && seconds <= 0 ==> spec_days_from_seconds(seconds) == Some(0int),
        seconds > 0 ==> ({
            let d = spec_days_from_seconds(seconds)->Some_0;
            &&& spec_days_from_seconds(seconds) is Some
            &&& d * 86400 <= seconds < (d + 1) * 86400
            &&& d >= 0
        }),
{
    if seconds > 0 {
        let d = seconds / 86400;
        assert(d * 86400 <= seconds < (d + 1) * 86400 && d >= 0) by (nonlinear_arith)
            requires
                seconds > 0,
                d == seconds / 86400;
    }
}

/// The days from a computed expiry time: none when the record has none that
/// is a decimal number, none when it is the "never expires" value, and the
/// days until the Unix time it stands for otherwise.
pub proof fn lemma_expiry_days_from_text(t: Seq<char>, now: int)
    ensures
        spec_expiry_days(None, now) is None,
        spec_parse_decimal(t) is None ==> spec_expiry_days(Some(t), now) is None,
        spec_parse_decimal(t) == Some(0x7FFF_FFFF_FFFF_FFFFint) ==> spec_expiry_days(Some(t), now) is None,
        (spec_parse_decimal(t) is Some && spec_parse_decimal(t)->Some_0 != 0x7FFF_FFFF_FFFF_FFFF)
            ==> spec_expiry_days(Some(t), now)
                == Some(spec_days_until(expiry_unix_seconds(spec_parse_decimal(t)->Some_0), now)),
{
}

} // verus!
