//! Rendering an elapsed number of seconds as `MM:SS` or `HH:MM:SS`.
//!
//! Every field is zero-padded to at least two digits; the hour field grows
//! beyond two digits when the value needs it. The module also defines a
//! parser at the specification level, used to state that formatting loses
//! nothing: parsing a formatted string recovers the original second count.

use vstd::prelude::*;

verus! {

/// The character for one decimal digit.
pub open spec fn digit_char(d: int) -> char {
    if d == 0 {
        '0'
    } else if d == 1 {
        '1'
    } else if d == 2 {
        '2'
    } else if d == 3 {
        '3'
    } else if d == 4 {
        '4'
    } else if d == 5 {
        '5'
    } else if d == 6 {
        '6'
    } else if d == 7 {
        '7'
    } else if d == 8 {
        '8'
    } else {
        '9'
    }
}

/// The value of one decimal digit character, `-1` for any other character.
pub open spec fn digit_val(c: char) -> int {
    if c == '0' {
        0
    } else if c == '1' {
        1
    } else if c == '2' {
        2
    } else if c == '3' {
        3
    } else if c == '4' {
        4
    } else if c == '5' {
        5
    } else if c == '6' {
        6
    } else if c == '7' {
        7
    } else if c == '8' {
        8
    } else if c == '9' {
        9
    } else {
        -1
    }
}

/// Every character of `s` is a decimal digit.
pub open spec fn all_digits(s: Seq<char>) -> bool {
    forall|i: int| 0 <= i < s.len() ==> digit_val(#[trigger] s[i]) >= 0
}

/// The decimal representation of `n`, most significant digit first,
/// without padding.
pub open spec fn dec_rep(n: int) -> Seq<char>
    recommends
        n >= 0,
    decreases n,
{
    if n < 10 {
        seq![digit_char(n)]
    } else {
        dec_rep(n / 10) + seq![digit_char(n % 10)]
    }
}

/// The decimal representation of `n`, zero-padded to at least two digits.
pub open spec fn pad2(n: int) -> Seq<char>
    recommends
        n >= 0,
{
    if n < 10 {
        seq!['0', digit_char(n)]
    } else {
        dec_rep(n)
    }
}

/// What `format_elapsed` returns: `MM:SS`, or `HH:MM:SS` when the hour
/// field is nonzero or hours are forced.
pub open spec fn spec_format_elapsed(seconds: int, force_hours: bool) -> Seq<char>
    recommends
        seconds >= 0,
{
    let hours = seconds / 3600;
    let rem = seconds % 3600;
    let minutes = rem / 60;
    let secs = rem % 60;
    if hours != 0 || force_hours {
        pad2(hours) + seq![':'] + pad2(minutes) + seq![':'] + pad2(secs)
    } else {
        pad2(minutes) + seq![':'] + pad2(secs)
    }
}

/// The numeric value of a sequence of decimal digit characters.
pub open spec fn digits_val(s: Seq<char>) -> int
    decreases s.len(),
{
    if s.len() == 0 {
        0
    } else {
        digits_val(s.drop_last()) * 10 + digit_val(s.last())
    }
}

/// `s` has the shape `MM:SS`: two digit fields around a colon.
pub open spec fn matches_mm_ss(s: Seq<char>) -> bool {
    &&& s.len() == 5
    &&& s[2] == ':'
    &&& all_digits(s.subrange(0, 2))
    &&& all_digits(s.subrange(3, 5))
}

/// `s` has the shape `HH:MM:SS`: an hour field of at least two digits,
/// then two two-digit fields, colon-separated.
pub open spec fn matches_hh_mm_ss(s: Seq<char>) -> bool {
    let n = s.len() as int;
    &&& n >= 8
    &&& s[n - 6] == ':'
    &&& s[n - 3] == ':'
    &&& all_digits(s.subrange(0, n - 6))
    &&& all_digits(s.subrange(n - 5, n - 3))
    &&& all_digits(s.subrange(n - 2, n))
}

/// Parse a formatted elapsed time back to a second count, `None` when the
/// string has neither the `MM:SS` nor the `HH:MM:SS` shape.
pub open spec fn spec_parse_elapsed(s: Seq<char>) -> Option<int> {
    let n = s.len() as int;
    if matches_mm_ss(s) {
        Some(digits_val(s.subrange(0, 2)) * 60 + digits_val(s.subrange(3, 5)))
    } else if matches_hh_mm_ss(s) {
        Some(
            digits_val(s.subrange(0, n - 6)) * 3600 + digits_val(s.subrange(n - 5, n - 3)) * 60
                + digits_val(s.subrange(n - 2, n)),
        )
    } else {
        None
    }
}

proof fn lemma_digit_char_val(d: int)
    requires
        0 <= d < 10,
    ensures
        digit_val(digit_char(d)) == d,
{
}

proof fn lemma_dec_rep(n: int)
    requires
        n >= 0,
    ensures
        all_digits(dec_rep(n)),
        digits_val(dec_rep(n)) == n,
        dec_rep(n).len() >= 1,
        n < 10 ==> dec_rep(n).len() == 1,
        n >= 10 ==> dec_rep(n).len() >= 2,
        n < 100 ==> dec_rep(n).len() <= 2,
    decreases n,
{
    if n < 10 {
        lemma_digit_char_val(n);
        let s = dec_rep(n);
        assert(s.drop_last() =~= Seq::<char>::empty());
        assert(digits_val(s) == digits_val(s.drop_last()) * 10 + digit_val(s.last()));
    } else {
        lemma_dec_rep(n / 10);
        lemma_digit_char_val(n % 10);
        let s = dec_rep(n);
        assert(s.drop_last() =~= dec_rep(n / 10));
        assert(s.last() == digit_char(n % 10));
        assert(digits_val(s) == (n / 10) * 10 + n % 10);
        assert(n == (n / 10) * 10 + n % 10);
    }
}

proof fn lemma_pad2(n: int)
    requires
        n >= 0,
    ensures
        all_digits(pad2(n)),
        digits_val(pad2(n)) == n,
        pad2(n).len() >= 2,
        n < 100 ==> pad2(n).len() == 2,
{
    if n < 10 {
        lemma_digit_char_val(n);
        let s = pad2(n);
        let t = s.drop_last();
        assert(t =~= seq!['0']);
        assert(t.drop_last() =~= Seq::<char>::empty());
        assert(digits_val(t.drop_last()) == 0);
        assert(t.last() == '0');
        assert(digits_val(t) == digits_val(t.drop_last()) * 10 + digit_val(t.last()));
        assert(digits_val(t) == 0);
        assert(digits_val(s) == digits_val(t) * 10 + digit_val(s.last()));
    } else {
        lemma_dec_rep(n);
    }
}

/// Formatting loses nothing. The output has the `MM:SS` shape below one
/// hour (unless hours are forced) and the `HH:MM:SS` shape otherwise, and
/// parsing it back recovers exactly the second count that was formatted.
pub proof fn lemma_format_round_trip(seconds: int, force_hours: bool)
    requires
        seconds >= 0,
    ensures
        !force_hours && seconds < 3600 ==> matches_mm_ss(spec_format_elapsed(seconds, force_hours)),
        force_hours || seconds >= 3600 ==> matches_hh_mm_ss(
            spec_format_elapsed(seconds, force_hours),
        ),
        spec_parse_elapsed(spec_format_elapsed(seconds, force_hours)) == Some(seconds),
{
    let hours = seconds / 3600;
    let rem = seconds % 3600;
    let minutes = rem / 60;
    let secs = rem % 60;
    assert(seconds == 3600 * hours + rem);
    assert(0 <= rem < 3600);
    assert(rem == 60 * minutes + secs);
    assert(0 <= secs < 60);
    assert(0 <= minutes < 60);
    assert(seconds < 3600 ==> hours == 0);
    assert(seconds >= 3600 ==> hours >= 1);
    lemma_pad2(minutes);
    lemma_pad2(secs);
    let out = spec_format_elapsed(seconds, force_hours);
    if hours == 0 && !force_hours {
        assert(out.len() == 5);
        assert(out.subrange(0, 2) =~= pad2(minutes));
        assert(out[2] == ':');
        assert(out.subrange(3, 5) =~= pad2(secs));
        assert(matches_mm_ss(out));
        assert(spec_parse_elapsed(out) == Some(minutes * 60 + secs));
        assert(minutes * 60 + secs == seconds);
    } else {
        lemma_pad2(hours);
        let hp = pad2(hours);
        let n = out.len() as int;
        assert(n == hp.len() + 6);
        assert(n >= 8);
        assert(out.subrange(0, n - 6) =~= hp);
        assert(out[n - 6] == ':');
        assert(out.subrange(n - 5, n - 3) =~= pad2(minutes));
        assert(out[n - 3] == ':');
        assert(out.subrange(n - 2, n) =~= pad2(secs));
        assert(matches_hh_mm_ss(out));
        assert(!matches_mm_ss(out));
        assert(spec_parse_elapsed(out) == Some(
            digits_val(hp) * 3600 + minutes * 60 + secs,
        ));
        assert(hours * 3600 + minutes * 60 + secs == seconds);
    }
}

/// The one-character string for one decimal digit.
fn digit_str(d: u64) -> (r: &'static str)
    requires
        d < 10,
    ensures
        r@ =~= seq![digit_char(d as int)],
{
    proof {
        reveal_strlit("0");
        reveal_strlit("1");
        reveal_strlit("2");
        reveal_strlit("3");
        reveal_strlit("4");
        reveal_strlit("5");
        reveal_strlit("6");
        reveal_strlit("7");
        reveal_strlit("8");
        reveal_strlit("9");
    }
    if d == 0 {
        "0"
    } else if d == 1 {
        "1"
    } else if d == 2 {
        "2"
    } else if d == 3 {
        "3"
    } else if d == 4 {
        "4"
    } else if d == 5 {
        "5"
    } else if d == 6 {
        "6"
    } else if d == 7 {
        "7"
    } else if d == 8 {
        "8"
    } else {
        "9"
    }
}

/// The unpadded decimal representation of `n`.
fn dec_string(n: u64) -> (r: String)
    ensures
        r@ == dec_rep(n as int),
    decreases n,
{
    if n < 10 {
        digit_str(n).to_owned()
    } else {
        let prefix = dec_string(n / 10);
        let r = prefix.concat(digit_str(n % 10));
        proof {
            assert(r@ =~= dec_rep(n as int));
        }
        r
    }
}

/// The decimal representation of `n`, zero-padded to at least two digits.
fn pad2_string(n: u64) -> (r: String)
    ensures
        r@ == pad2(n as int),
{
    if n < 10 {
        proof {
            reveal_strlit("0");
        }
        let mut r = "0".to_owned();
        r.append(digit_str(n));
        proof {
            assert(r@ =~= pad2(n as int));
        }
        r
    } else {
        dec_string(n)
    }
}

/// Render `seconds` as `MM:SS`, or as `HH:MM:SS` when the hour field is
/// nonzero or `force_hours` is set. Every field is zero-padded to at least
/// two digits.
pub fn format_elapsed(seconds: u64, force_hours: bool) -> (r: String)
    ensures
        r@ == spec_format_elapsed(seconds as int, force_hours),
{
    let hours = seconds / 3600;
    let rem = seconds % 3600;
    let minutes = rem / 60;
    let secs = rem % 60;
    proof {
        reveal_strlit(":");
    }
    let mut r = String::new();
    if hours != 0 || force_hours {
        let hs = pad2_string(hours);
        r.append(hs.as_str());
        r.append(":");
    }
    let ms = pad2_string(minutes);
    r.append(ms.as_str());
    r.append(":");
    let ss = pad2_string(secs);
    r.append(ss.as_str());
    proof {
        assert(r@ =~= spec_format_elapsed(seconds as int, force_hours));
    }
    r
}

/// Render `seconds` for the widget label: `MM:SS` below one hour,
/// `HH:MM:SS` from one hour on.
pub fn format_text(seconds: u64) -> (r: String)
    ensures
        r@ == spec_format_elapsed(seconds as int, false),
{
    format_elapsed(seconds, false)
}

} // verus!
