//! What the environment says: the value of each variable, and what stands in
//! its place where it is not set.

use vstd::prelude::*;

use crate::text::{chars_of, decimal, same_text, signed_decimal, text_of};

verus! {

/// `c`, in lower case where it is an ASCII capital.
pub open spec fn ascii_lower(c: char) -> char {
    if 'A' <= c <= 'Z' {
        (c as u32 + 32) as char
    } else {
        c
    }
}

/// Whether two texts differ in nothing but the case of ASCII letters.
pub open spec fn equal_ignoring_case(a: Seq<char>, b: Seq<char>) -> bool {
    &&& a.len() == b.len()
    &&& forall|i: int| 0 <= i < a.len() ==> ascii_lower(#[trigger] a[i]) == ascii_lower(b[i])
}

/// Whether `c` is an ASCII digit.
pub open spec fn is_digit(c: char) -> bool {
    '0' <= c <= '9'
}

/// Whether `s` is a nonempty run of digits.
pub open spec fn all_digits(s: Seq<char>) -> bool {
    s.len() > 0 && forall|i: int| 0 <= i < s.len() ==> is_digit(#[trigger] s[i])
}

/// The number that a run of digits stands for.
pub open spec fn digits_value(s: Seq<char>) -> int
    decreases s.len(),
{
    if s.len() == 0 {
        0
    } else {
        10 * digits_value(s.drop_last()) + (s.last() as int - 48)
    }
}

/// The digits of `s` behind its sign, if it has one.
pub open spec fn unsigned_part(s: Seq<char>) -> Seq<char> {
    if s.len() > 0 && (s[0] == '-' || s[0] == '+') {
        s.skip(1)
    } else {
        s
    }
}

/// The number that `s` stands for, read as an optional sign and digits.
pub open spec fn number_value(s: Seq<char>) -> int {
    if s.len() > 0 && s[0] == '-' {
        -digits_value(unsigned_part(s))
    } else {
        digits_value(unsigned_part(s))
    }
}

/// Whether `s` is an optional sign and digits, of a value that fits in 64 bits.
pub open spec fn is_number(s: Seq<char>) -> bool {
    all_digits(unsigned_part(s)) && i64::MIN <= number_value(s) <= i64::MAX
}

/// What a text setting stands at.
pub open spec fn text_setting(value: Option<Seq<char>>, default: Seq<char>) -> Seq<char> {
    match value {
        Some(v) => v,
        None => default,
    }
}

/// What a number setting stands at: the default where the variable is not set
/// or is no number.
pub open spec fn number_setting(value: Option<Seq<char>>, default: int) -> int {
    match value {
        Some(v) => if is_number(v) {
            number_value(v)
        } else {
            default
        },
        None => default,
    }
}

/// What a switch stands at: on where the variable reads `true` in any case,
/// off where it reads anything else.
pub open spec fn switch_setting(value: Option<Seq<char>>, default: bool) -> bool {
    match value {
        Some(v) => equal_ignoring_case(v, "true"@),
        None => default,
    }
}

/// `path` with a leading `~` replaced by the home directory.
pub open spec fn home_expanded(path: Seq<char>, home: Seq<char>) -> Seq<char> {
    if path.len() >= 2 && path[0] == '~' && path[1] == '/' {
        home + "/"@ + path.skip(2)
    } else if path == "~"@ {
        home
    } else {
        path
    }
}

/// The view of an optional text.
pub open spec fn opt_view(value: Option<String>) -> Option<Seq<char>> {
    match value {
        Some(v) => Some(v@),
        None => None,
    }
}

/// The value of a text variable.
pub fn env_str(value: Option<String>, default: &str) -> (setting: String)
    ensures
        setting@ == text_setting(opt_view(value), default@),
{
    match value {
        Some(v) => v,
        None => default.to_owned(),
    }
}

/// The number that `s` stands for, if it is a number that fits in 64 bits.
pub fn parse_i64(s: &str) -> (number: Option<i64>)
    ensures
        number is Some <==> is_number(s@),
        number matches Some(n) ==> n == number_value(s@),
{
    let chars: Vec<char> = chars_of(s);
    let len: usize = chars.len();
    let negative: bool = len > 0 && chars[0] == '-';
    let start: usize = if len > 0 && (chars[0] == '-' || chars[0] == '+') {
        1
    } else {
        0
    };
    let ghost digits = unsigned_part(s@);
    assert(digits == chars@.skip(start as int));
    if start == len {
        return None;
    }
    let mut magnitude: u64 = 0;
    let mut overflown: bool = false;
    let mut i: usize = start;
    while i < len
        invariant
            start <= i <= len,
            len == chars@.len(),
            digits == chars@.skip(start as int),
            digits == unsigned_part(s@),
            forall|j: int| 0 <= j < i - start ==> is_digit(#[trigger] digits[j]),
            digits_value(digits.take(i - start)) >= 0,
            !overflown ==> magnitude == digits_value(digits.take(i - start)),
            !overflown ==> magnitude <= 0x8000_0000_0000_0000,
            overflown ==> digits_value(digits.take(i - start)) > 0x8000_0000_0000_0000,
        decreases len - i,
    {
        let c: char = chars[i];
        assert(digits[i - start] == c);
        if !('0' <= c && c <= '9') {
            return None;
        }
        let ghost before = digits.take(i - start);
        assert(digits.take(i + 1 - start).drop_last() =~= before);
        let d: u64 = c as u64 - 48;
        if !overflown {
            let grown: u128 = 10 * magnitude as u128 + d as u128;
            if grown > 0x8000_0000_0000_0000 {
                overflown = true;
            } else {
                magnitude = grown as u64;
            }
        }
        i = i + 1;
    }
    assert(digits.take(len - start) =~= digits);
    if overflown {
        None
    } else if negative {
        if magnitude == 0x8000_0000_0000_0000 {
            Some(i64::MIN)
        } else {
            Some(-(magnitude as i64))
        }
    } else if magnitude == 0x8000_0000_0000_0000 {
        None
    } else {
        Some(magnitude as i64)
    }
}

/// The value of a number variable.
pub fn env_i64(value: Option<String>, default: i64) -> (setting: i64)
    ensures
        setting == number_setting(opt_view(value), default as int),
{
    match value {
        Some(v) => match parse_i64(v.as_str()) {
            Some(n) => n,
            None => default,
        },
        None => default,
    }
}

fn lower_char(c: char) -> (low: char)
    ensures
        low == ascii_lower(c),
{
    if 'A' <= c && c <= 'Z' {
        (c as u8 + 32) as char
    } else {
        c
    }
}

/// Whether two texts differ in nothing but the case of ASCII letters.
pub fn same_ignoring_case(a: &str, b: &str) -> (same: bool)
    ensures
        same == equal_ignoring_case(a@, b@),
{
    let left: Vec<char> = chars_of(a);
    let right: Vec<char> = chars_of(b);
    if left.len() != right.len() {
        return false;
    }
    let mut i: usize = 0;
    while i < left.len()
        invariant
            i <= left@.len(),
            left@ == a@,
            right@ == b@,
            left@.len() == right@.len(),
            forall|j: int| 0 <= j < i ==> ascii_lower(#[trigger] a@[j]) == ascii_lower(b@[j]),
        decreases left@.len() - i,
    {
        if lower_char(left[i]) != lower_char(right[i]) {
            return false;
        }
        i = i + 1;
    }
    true
}

/// The value of a switch.
pub fn env_bool(value: Option<String>, default: bool) -> (setting: bool)
    ensures
        setting == switch_setting(opt_view(value), default),
{
    match value {
        Some(v) => same_ignoring_case(v.as_str(), "true"),
        None => default,
    }
}

/// `path` with a leading `~` replaced by the home directory.
pub fn expand_home(path: &str, home: &str) -> (expanded: String)
    ensures
        expanded@ == home_expanded(path@, home@),
{
    let chars: Vec<char> = chars_of(path);
    if chars.len() >= 2 && chars[0] == '~' && chars[1] == '/' {
        let mut expanded: String = home.to_owned();
        expanded.append("/");
        let rest: String = text_of(&chars, 2, chars.len());
        expanded.append(rest.as_str());
        expanded
    } else if same_text(path, "~") {
        home.to_owned()
    } else {
        path.to_owned()
    }
}

proof fn lemma_decimal(n: nat)
    ensures
        digits_value(decimal(n)) == n,
        all_digits(decimal(n)),
        n > 0 ==> decimal(n)[0] != '0',
        n > 9 ==> decimal(n).len() > 1,
    decreases n,
{
    if n >= 10 {
        lemma_decimal(n / 10);
        assert(decimal(n).drop_last() =~= decimal(n / 10));
        assert forall|i: int| 0 <= i < decimal(n).len() implies is_digit(
            #[trigger] decimal(n)[i],
        ) by {
            if i < decimal(n / 10).len() {
                assert(is_digit(decimal(n / 10)[i]));
            }
        }
        assert(decimal(n)[0] == decimal(n / 10)[0]);
    } else {
        assert(decimal(n).drop_last() =~= Seq::empty());
        assert(digits_value(Seq::empty()) == 0);
    }
}

/// A number can be read back from its decimal digits, of which a positive number
/// has no needless zero at the front.
pub proof fn law_decimal_is_reversible(n: int)
    ensures
        number_value(signed_decimal(n)) == n,
        all_digits(unsigned_part(signed_decimal(n))),
        n > 0 ==> '1' <= signed_decimal(n)[0] <= '9',
        n < 0 ==> signed_decimal(n)[0] == '-',
        n == 0 ==> signed_decimal(n) == seq!['0'],
        i64::MIN <= n <= i64::MAX ==> is_number(signed_decimal(n)),
{
    let size: nat = if n < 0 {
        (-n) as nat
    } else {
        n as nat
    };
    lemma_decimal(size);
    assert(is_digit(decimal(size)[0]));
    if n < 0 {
        assert(signed_decimal(n).skip(1) =~= decimal(size));
    }
}

/// Two numbers never have the same decimal digits.
pub proof fn law_decimal_tells_numbers_apart(a: int, b: int)
    ensures
        signed_decimal(a) == signed_decimal(b) ==> a == b,
{
    law_decimal_is_reversible(a);
    law_decimal_is_reversible(b);
}

/// One more digit makes ten times the number and the digit.
pub proof fn law_digits_are_decimal(s: Seq<char>, d: char)
    requires
        is_digit(d),
    ensures
        digits_value(s.push(d)) == 10 * digits_value(s) + (d as int - '0' as int),
        digits_value(Seq::empty()) == 0,
        is_digit(d) <==> '0' <= d <= '9',
{
    assert(s.push(d).drop_last() =~= s);
}

/// A number that a variable is set to, in decimal digits, is what its setting
/// stands at.
pub proof fn law_number_settings_are_taken(n: int, default: int)
    requires
        i64::MIN <= n <= i64::MAX,
    ensures
        number_setting(Some(signed_decimal(n)), default) == n,
        n >= 0 ==> number_setting(Some(seq!['+'] + signed_decimal(n)), default) == n,
{
    law_decimal_is_reversible(n);
    if n >= 0 {
        let s = seq!['+'] + signed_decimal(n);
        assert(s.skip(1) =~= signed_decimal(n));
        assert(is_digit(decimal(n as nat)[0])) by {
            lemma_decimal(n as nat);
        }
        assert(unsigned_part(signed_decimal(n)) == signed_decimal(n));
    }
}

/// A variable that is not set, or holds a character that is neither a digit nor
/// a sign at the front, or stands for a number of more than 64 bits, leaves the
/// setting at its default.
pub proof fn law_other_numbers_are_ignored(value: Seq<char>, default: int, i: int)
    ensures
        number_setting(None, default) == default,
        number_setting(Some(Seq::empty()), default) == default,
        0 < i < value.len() && !('0' <= value[i] <= '9') ==> number_setting(Some(value), default)
            == default,
        value.len() > 0 && !('0' <= value[0] <= '9') && value[0] != '-' && value[0] != '+'
            ==> number_setting(Some(value), default) == default,
        value.len() == 1 && !('0' <= value[0] <= '9') ==> number_setting(Some(value), default)
            == default,
        number_value(value) > i64::MAX || number_value(value) < i64::MIN ==> number_setting(
            Some(value),
            default,
        ) == default,
{
    let digits = unsigned_part(value);
    if 0 < i < value.len() && !('0' <= value[i] <= '9') {
        let at = if digits.len() < value.len() {
            i - 1
        } else {
            i
        };
        assert(digits[at] == value[i]);
        assert(!is_digit(digits[at]));
    }
    if value.len() > 0 && !('0' <= value[0] <= '9') {
        if value[0] != '-' && value[0] != '+' {
            assert(!is_digit(digits[0]));
        } else if value.len() == 1 {
            assert(digits.len() == 0);
        }
    }
}

/// A text variable that is set is taken as it is, and one that is not leaves the
/// setting at its default.
pub proof fn law_text_settings_are_taken(value: Seq<char>, default: Seq<char>)
    ensures
        text_setting(Some(value), default) == value,
        text_setting(None, default) == default,
{
}

/// A switch is on exactly where its variable reads `true`, in any case of each
/// letter, and off for any other value; it stands at its default only where the
/// variable is not set.
pub proof fn law_switches_are_on_for_true(value: Seq<char>, default: bool)
    ensures
        switch_setting(None, default) == default,
        switch_setting(Some(value), default) <==> {
            &&& value.len() == 4
            &&& value[0] == 't' || value[0] == 'T'
            &&& value[1] == 'r' || value[1] == 'R'
            &&& value[2] == 'u' || value[2] == 'U'
            &&& value[3] == 'e' || value[3] == 'E'
        },
{
    reveal_strlit("true");
    let word = "true"@;
    if switch_setting(Some(value), default) {
        assert(ascii_lower(value[0]) == ascii_lower(word[0]));
        assert(ascii_lower(value[1]) == ascii_lower(word[1]));
        assert(ascii_lower(value[2]) == ascii_lower(word[2]));
        assert(ascii_lower(value[3]) == ascii_lower(word[3]));
    }
}

/// A file name that starts with `~/` has the home directory in place of the `~`,
/// a lone `~` is the home directory, and any other name stays as it is.
pub proof fn law_home_stands_for_the_tilde(rest: Seq<char>, path: Seq<char>, home: Seq<char>)
    ensures
        home_expanded(seq!['~', '/'] + rest, home) == home + seq!['/'] + rest,
        home_expanded(seq!['~'], home) == home,
        path.len() == 0 || path[0] != '~' || path.len() > 1 && path[1] != '/' ==> home_expanded(
            path,
            home,
        ) == path,
{
    reveal_strlit("/");
    reveal_strlit("~");
    assert("/"@ =~= seq!['/']);
    assert("~"@ =~= seq!['~']);
    assert((seq!['~', '/'] + rest).skip(2) =~= rest);
}

} // verus!
