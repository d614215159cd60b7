//! Key, id and time helpers of the generated project: partition keys of
//! the form `<prefix>#<id>`, hexadecimal time stamps and short random ids.

use vstd::prelude::*;
use chrono::Datelike;
use crate::text::{
    chars_to_string, extend_chars, find_char, lemma_len_before_at, len_before, str_to_chars, sub_chars,
};

verus! {

// ── Partition keys ─────────────────────────────────────────────────────

/// The key `<prefix>#<id>`.
pub open spec fn pk_of(prefix: Seq<char>, id: Seq<char>) -> Seq<char> {
    prefix + seq!['#'] + id
}

/// What follows the first `#` of `s`, or all of `s` when it has no `#`.
pub open spec fn id_of(s: Seq<char>) -> Seq<char> {
    let n = len_before(s, '#');
    if n < s.len() {
        s.skip(n + 1 as int)
    } else {
        s
    }
}

/// Make a pk string in the pattern `<prefix>#<id>`.
pub fn make_pk(prefix: &str, id: &str) -> (r: String)
    ensures
        r@ == pk_of(prefix@, id@),
{
    let mut out = str_to_chars(prefix);
    out.push('#');
    extend_chars(&mut out, &str_to_chars(id));
    chars_to_string(&out)
}

/// Extract the id portion after `#` from a pk string.
///
/// If the input contains no `#`, it is returned as-is.
pub fn extract_id(pk_or_id: &str) -> (r: String)
    ensures
        r@ == id_of(pk_or_id@),
{
    let s = str_to_chars(pk_or_id);
    let n = find_char(&s, '#');
    if n < s.len() {
        let rest = sub_chars(&s, n + 1, s.len());
        assert(rest@ == s@.skip(n + 1));
        chars_to_string(&rest)
    } else {
        chars_to_string(&s)
    }
}

/// A key made from a prefix without `#` gives its id back:
/// `extract_id(make_pk(prefix, id)) == id`.
pub proof fn lemma_extract_id_of_make_pk(prefix: Seq<char>, id: Seq<char>)
    requires
        !prefix.contains('#'),
    ensures
        id_of(pk_of(prefix, id)) == id,
{
    let s = pk_of(prefix, id);
    assert forall|k: int| 0 <= k < prefix.len() implies s[k] != '#' by {
        assert(s[k] == prefix[k]);
    }
    lemma_len_before_at(s, '#', prefix.len() as int);
    assert(s.skip(prefix.len() + 1 as int) == id);
}

/// A string without `#` is its own id: `extract_id(s) == s`.
pub proof fn lemma_extract_id_plain(s: Seq<char>)
    requires
        !s.contains('#'),
    ensures
        id_of(s) == s,
{
    lemma_len_before_at(s, '#', s.len() as int);
}

// ── Hexadecimal and decimal text ───────────────────────────────────────

/// Lower-case hexadecimal digit for `d < 16`.
pub open spec fn hex_digit(d: nat) -> char {
    if d < 10 {
        (48 + d) as char
    } else {
        (87 + d) as char
    }
}

/// Lower-case hexadecimal digits of `n`, without leading zeros.
pub open spec fn hex_digits(n: nat) -> Seq<char>
    decreases n,
{
    if n < 16 {
        seq![hex_digit(n)]
    } else {
        hex_digits(n / 16) + seq![hex_digit(n % 16)]
    }
}

/// `format!("{:x}", x)`: an `i64` is written as its two's complement bits.
pub open spec fn lower_hex_i64(x: i64) -> Seq<char> {
    hex_digits((x as u64) as nat)
}

/// Decimal digit for `d < 10`.
pub open spec fn dec_digit(d: nat) -> char {
    (48 + d) as char
}

/// Decimal digits of `n`, without leading zeros.
pub open spec fn dec_digits(n: nat) -> Seq<char>
    decreases n,
{
    if n < 10 {
        seq![dec_digit(n)]
    } else {
        dec_digits(n / 10) + seq![dec_digit(n % 10)]
    }
}

/// `x.to_string()` for an integer.
pub open spec fn decimal(x: int) -> Seq<char> {
    if x < 0 {
        seq!['-'] + dec_digits((-x) as nat)
    } else {
        dec_digits(x as nat)
    }
}

/// Writes an `i64` in lower-case hexadecimal, as `format!("{:x}", x)` does.
pub fn format_lower_hex(x: i64) -> (r: String)
    ensures
        r@ == lower_hex_i64(x),
{
    let mut n: u64 = x as u64;
    let mut out: Vec<char> = Vec::new();
    loop
        invariant_except_break
            hex_digits((x as u64) as nat) == hex_digits(n as nat) + out@,
        ensures
            hex_digits((x as u64) as nat) == out@,
        decreases n,
    {
        let d = (n % 16) as u8;
        let c: char = if d < 10 { (48 + d) as char } else { (87 + d) as char };
        assert(c == hex_digit((n % 16) as nat));
        let ghost before = out@;
        out.insert(0, c);
        assert(out@ == seq![c] + before);
        if n < 16 {
            assert(hex_digits(n as nat) == seq![hex_digit(n as nat)]);
            break;
        }
        assert(hex_digits(n as nat) == hex_digits((n / 16) as nat) + seq![hex_digit((n % 16) as nat)]);
        n = n / 16;
    }
    chars_to_string(&out)
}

/// Writes an `i32` in decimal, as `to_string` does.
pub fn format_decimal_i32(x: i32) -> (r: String)
    ensures
        r@ == decimal(x as int),
{
    let neg = x < 0;
    let mut n: u64 = if neg { (-(x as i64)) as u64 } else { x as u64 };
    let ghost start = n as nat;
    let mut out: Vec<char> = Vec::new();
    loop
        invariant_except_break
            dec_digits(start) == dec_digits(n as nat) + out@,
        ensures
            dec_digits(start) == out@,
        decreases n,
    {
        let d = (n % 10) as u8;
        let c: char = (48 + d) as char;
        assert(c == dec_digit((n % 10) as nat));
        let ghost before = out@;
        out.insert(0, c);
        assert(out@ == seq![c] + before);
        if n < 10 {
            assert(dec_digits(n as nat) == seq![dec_digit(n as nat)]);
            break;
        }
        assert(dec_digits(n as nat) == dec_digits((n / 10) as nat) + seq![dec_digit((n % 10) as nat)]);
        n = n / 10;
    }
    if neg {
        let ghost before = out@;
        out.insert(0, '-');
        assert(out@ == seq!['-'] + before);
    }
    chars_to_string(&out)
}

// ── Clock ──────────────────────────────────────────────────────────────

/// The current UTC time, as the plain values the key helpers read.
struct UtcNow {
    /// Whole seconds since the Unix epoch.
    pub secs: i64,
    /// Milliseconds since the Unix epoch.
    pub millis: i64,
    /// Calendar year.
    pub year: i32,
}

/// `chrono::Utc::now()`, read through `timestamp`, `timestamp_millis` and
/// `Datelike::year`. The value depends on the clock; what is claimed holds of
/// every reading: chrono takes the system time as a duration since the Unix
/// epoch, so the time stamps are not negative and the year is at least 1970.
/// Not stated: `Utc::now` panics when the clock is before the epoch or beyond
/// the dates chrono represents; that depends on the clock, not on an argument.
#[verifier::external_body]
fn utc_now() -> (r: UtcNow)
    ensures
        r.secs >= 0,
        r.millis >= 0,
        r.year >= 1970,
{
    let now = chrono::Utc::now();
    UtcNow { secs: now.timestamp(), millis: now.timestamp_millis(), year: now.year() }
}

/// Largest number of hours `expires_in` takes: 2·10⁹ hours, about 228 000
/// years, or 7.2·10¹² seconds. chrono's dates end with year 262 142 (about
/// 8.2·10¹² seconds after the epoch) and begin with year -262 143, so from any
/// clock reading between the epoch and the year 30 000 a shift by at most this
/// many hours stays within them; `TimeDelta::hours` accepts it as well.
pub open spec fn max_shift_hours() -> int {
    2_000_000_000
}

/// `(chrono::Utc::now() + chrono::Duration::hours(hours)).timestamp()`.
/// The sum is the current time stamp, which is not negative, plus `hours * 3600`
/// seconds. `requires` keeps `hours` within `max_shift_hours`, where neither
/// `TimeDelta::hours` nor the addition panics for a clock reading before the
/// year 30 000. Not stated: `Utc::now` itself panics on a clock before the epoch.
#[verifier::external_body]
fn utc_now_plus_hours(hours: i64) -> (r: i64)
    requires
        -max_shift_hours() <= hours <= max_shift_hours(),
    ensures
        r >= hours * 3600,
{
    (chrono::Utc::now() + chrono::Duration::hours(hours)).timestamp()
}

/// Return a timestamp in seconds.
pub fn timestamp_secs() -> (r: i64)
    ensures
        r >= 0,
{
    utc_now().secs
}

/// Return a timestamp in milliseconds.
pub fn timestamp_millis() -> (r: i64)
    ensures
        r >= 0,
{
    utc_now().millis
}

/// The current time stamp in seconds, in lower-case hexadecimal.
pub fn timextamp_short() -> (r: String)
    ensures
        exists|t: i64| t >= 0 && r@ == #[trigger] lower_hex_i64(t),
{
    let t = timestamp_secs();
    let r = format_lower_hex(t);
    assert(r@ == lower_hex_i64(t));
    r
}

/// The current time stamp in milliseconds, in lower-case hexadecimal.
pub fn timextamp_long() -> (r: String)
    ensures
        exists|t: i64| t >= 0 && r@ == #[trigger] lower_hex_i64(t),
{
    let t = timestamp_millis();
    let r = format_lower_hex(t);
    assert(r@ == lower_hex_i64(t));
    r
}

/// A new key `<prefix>#<hex seconds>` stamped with the current time.
pub fn gen_pk(prefix: &str) -> (r: String)
    ensures
        exists|t: i64| t >= 0 && r@ == pk_of(prefix@, #[trigger] lower_hex_i64(t)),
{
    let stamp = timextamp_short();
    let r = make_pk(prefix, stamp.as_str());
    assert(exists|t: i64| t >= 0 && stamp@ == #[trigger] lower_hex_i64(t));
    let ghost t = choose|t: i64| t >= 0 && stamp@ == #[trigger] lower_hex_i64(t);
    assert(r@ == pk_of(prefix@, lower_hex_i64(t)));
    r
}

/// The time stamp, in seconds, `hours` hours from now.
pub fn expires_in(hours: i64) -> (r: i64)
    requires
        -max_shift_hours() <= hours <= max_shift_hours(),
    ensures
        r >= hours * 3600,
{
    utc_now_plus_hours(hours)
}

/// The current year in decimal.
pub fn this_year() -> (r: String)
    ensures
        exists|y: i32| y >= 1970 && r@ == #[trigger] decimal(y as int),
{
    let y = utc_now().year;
    let r = format_decimal_i32(y);
    assert(r@ == decimal(y as int));
    r
}

// ── Random ids ─────────────────────────────────────────────────────────

/// The characters of nanoid's URL-safe alphabet.
pub open spec fn is_nanoid_char(c: char) -> bool {
    ||| c == '_'
    ||| c == '-'
    ||| ('0' <= c && c <= '9')
    ||| ('a' <= c && c <= 'z')
    ||| ('A' <= c && c <= 'Z')
}

/// `nanoid::format(nanoid::rngs::default, &nanoid::alphabet::SAFE, size)`, what
/// `nanoid!(size)` expands to (`rngs::default` is nanoid's own random source). The characters are random; the source shows that
/// the call returns exactly `size` of them (SAFE is ASCII, so its byte count is
/// its character count), each taken from SAFE. With `size == 0` the call never
/// returns, and `8 * size` must not overflow: `requires` rules both out.
#[verifier::external_body]
fn nanoid_safe(size: usize) -> (r: String)
    requires
        0 < size <= usize::MAX / 8,
    ensures
        r@.len() == size,
        forall|i: int| 0 <= i < r@.len() ==> is_nanoid_char(#[trigger] r@[i]),
{
    nanoid::format(nanoid::rngs::default, &nanoid::alphabet::SAFE, size)
}

/// Generate a nano-id with `n` characters.
pub fn gen_nanoid(n: usize) -> (r: String)
    requires
        0 < n <= usize::MAX / 8,
    ensures
        r@.len() == n,
        forall|i: int| 0 <= i < r@.len() ==> is_nanoid_char(#[trigger] r@[i]),
{
    nanoid_safe(n)
}

} // verus!
