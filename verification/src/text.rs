//! Text as a sequence of characters: searching, trimming, splitting and
//! writing numbers.

use vstd::prelude::*;

verus! {

/// `String::push` appends one character at the end.
pub assume_specification[ String::push ](s: &mut String, ch: char)
    ensures
        final(s)@ == old(s)@.push(ch),
;

/// Whether `c` has the Unicode property White_Space.
pub open spec fn is_white(c: char) -> bool {
    ||| '\u{9}' <= c <= '\u{d}'
    ||| c == ' '
    ||| c == '\u{85}'
    ||| c == '\u{a0}'
    ||| c == '\u{1680}'
    ||| '\u{2000}' <= c <= '\u{200a}'
    ||| c == '\u{2028}'
    ||| c == '\u{2029}'
    ||| c == '\u{202f}'
    ||| c == '\u{205f}'
    ||| c == '\u{3000}'
}

/// `s` without its leading white space.
pub open spec fn trim_start(s: Seq<char>) -> Seq<char>
    decreases s.len(),
{
    if s.len() > 0 && is_white(s[0]) {
        trim_start(s.drop_first())
    } else {
        s
    }
}

/// `s` without its trailing white space.
pub open spec fn trim_end(s: Seq<char>) -> Seq<char>
    decreases s.len(),
{
    if s.len() > 0 && is_white(s.last()) {
        trim_end(s.drop_last())
    } else {
        s
    }
}

/// `s` without white space at either end.
pub open spec fn trim(s: Seq<char>) -> Seq<char> {
    trim_end(trim_start(s))
}

/// Whether `needle` stands in `hay` at position `at`.
pub open spec fn occurs_at(hay: Seq<char>, needle: Seq<char>, at: int) -> bool {
    &&& 0 <= at
    &&& at + needle.len() <= hay.len()
    &&& hay.subrange(at, at + needle.len()) == needle
}

/// Whether `needle` stands anywhere in `hay`.
pub open spec fn contains(hay: Seq<char>, needle: Seq<char>) -> bool {
    exists|at: int| occurs_at(hay, needle, at)
}

/// The characters of `s`.
pub fn chars_of(s: &str) -> (chars: Vec<char>)
    ensures
        chars@ == s@,
{
    let mut chars: Vec<char> = Vec::new();
    for c in it: s.chars()
        invariant
            chars@ == s@.take(it.index() as int),
            it.seq() == s@,
    {
        chars.push(c);
    }
    chars
}

/// The text made of the characters from `from` up to, not including, `to`.
pub fn text_of(chars: &Vec<char>, from: usize, to: usize) -> (s: String)
    requires
        from <= to <= chars@.len(),
    ensures
        s@ == chars@.subrange(from as int, to as int),
{
    let mut s: String = String::new();
    let mut i: usize = from;
    while i < to
        invariant
            from <= i <= to <= chars@.len(),
            s@ == chars@.subrange(from as int, i as int),
        decreases to - i,
    {
        s.push(chars[i]);
        i = i + 1;
    }
    s
}

/// Whether `c` is white space.
pub fn char_is_white(c: char) -> (white: bool)
    ensures
        white == is_white(c),
{
    ('\u{9}' <= c && c <= '\u{d}') || c == ' ' || c == '\u{85}' || c == '\u{a0}' || c == '\u{1680}'
        || ('\u{2000}' <= c && c <= '\u{200a}') || c == '\u{2028}' || c == '\u{2029}'
        || c == '\u{202f}' || c == '\u{205f}' || c == '\u{3000}'
}

/// The bounds of what is left of `chars[from..to]` without white space at
/// either end.
pub fn trim_bounds(chars: &Vec<char>, from: usize, to: usize) -> (bounds: (usize, usize))
    requires
        from <= to <= chars@.len(),
    ensures
        from <= bounds.0 <= bounds.1 <= to,
        chars@.subrange(bounds.0 as int, bounds.1 as int) == trim(
            chars@.subrange(from as int, to as int),
        ),
{
    let ghost whole = chars@.subrange(from as int, to as int);
    let mut start: usize = from;
    while start < to && char_is_white(chars[start])
        invariant
            from <= start <= to <= chars@.len(),
            trim_start(whole) == trim_start(chars@.subrange(start as int, to as int)),
        decreases to - start,
    {
        assert(chars@.subrange(start as int, to as int).drop_first() =~= chars@.subrange(
            start + 1,
            to as int,
        ));
        start = start + 1;
    }
    let ghost kept = chars@.subrange(start as int, to as int);
    assert(trim_start(whole) == kept);
    let mut end: usize = to;
    while start < end && char_is_white(chars[end - 1])
        invariant
            from <= start <= end <= to <= chars@.len(),
            trim_end(kept) == trim_end(chars@.subrange(start as int, end as int)),
        decreases end - start,
    {
        assert(chars@.subrange(start as int, end as int).drop_last() =~= chars@.subrange(
            start as int,
            end - 1,
        ));
        end = end - 1;
    }
    (start, end)
}

/// `s` without white space at either end.
pub fn trimmed(s: &str) -> (kept: String)
    ensures
        kept@ == trim(s@),
{
    let chars: Vec<char> = chars_of(s);
    let (from, to) = trim_bounds(&chars, 0, chars.len());
    assert(chars@.subrange(0, chars@.len() as int) =~= s@);
    text_of(&chars, from, to)
}

/// Whether two texts are the same.
pub fn same_text(a: &str, b: &str) -> (same: bool)
    ensures
        same == (a@ == b@),
{
    a.to_owned() == b.to_owned()
}

/// Whether `needle` stands in `hay` at position `at`.
pub fn stands_at(hay: &Vec<char>, needle: &Vec<char>, at: usize) -> (found: bool)
    ensures
        found == occurs_at(hay@, needle@, at as int),
{
    if needle.len() > hay.len() || at > hay.len() - needle.len() {
        return false;
    }
    let mut i: usize = 0;
    while i < needle.len()
        invariant
            i <= needle@.len(),
            at + needle@.len() <= hay.len(),
            hay@.subrange(at as int, at + i) == needle@.take(i as int),
        decreases needle@.len() - i,
    {
        if hay[at + i] != needle[i] {
            assert(hay@.subrange(at as int, at + needle@.len())[i as int] != needle@[i as int]);
            return false;
        }
        assert(hay@.subrange(at as int, at + i + 1) =~= hay@.subrange(at as int, at + i).push(
            hay@[at + i],
        ));
        assert(needle@.take(i + 1) =~= needle@.take(i as int).push(needle@[i as int]));
        i = i + 1;
    }
    assert(needle@.take(needle@.len() as int) =~= needle@);
    true
}

/// Whether `needle` stands anywhere in `hay`.
pub fn text_contains(hay: &str, needle: &str) -> (found: bool)
    ensures
        found == contains(hay@, needle@),
{
    let hay_chars: Vec<char> = chars_of(hay);
    let needle_chars: Vec<char> = chars_of(needle);
    let mut at: usize = 0;
    while at < hay_chars.len()
        invariant
            at <= hay_chars@.len(),
            hay_chars@ == hay@,
            needle_chars@ == needle@,
            forall|j: int| 0 <= j < at ==> !occurs_at(hay@, needle@, j),
        decreases hay_chars@.len() - at,
    {
        if stands_at(&hay_chars, &needle_chars, at) {
            return true;
        }
        at = at + 1;
    }
    let found: bool = stands_at(&hay_chars, &needle_chars, at);
    proof {
        if contains(hay@, needle@) {
            let j = choose|j: int| occurs_at(hay@, needle@, j);
            assert(j == at);
        }
    }
    found
}

/// The position of the first `c` in `s`, or the length of `s`.
pub open spec fn cut(s: Seq<char>, c: char) -> int
    decreases s.len(),
{
    if s.len() == 0 || s[0] == c {
        0
    } else {
        1 + cut(s.drop_first(), c)
    }
}

/// `cut` gives the first position that holds `c`, and the length where none
/// does.
pub proof fn lemma_cut(s: Seq<char>, c: char)
    ensures
        0 <= cut(s, c) <= s.len(),
        forall|i: int| 0 <= i < cut(s, c) ==> s[i] != c,
        cut(s, c) < s.len() ==> s[cut(s, c)] == c,
    decreases s.len(),
{
    if s.len() > 0 && s[0] != c {
        lemma_cut(s.drop_first(), c);
        assert forall|i: int| 0 <= i < cut(s, c) implies s[i] != c by {
            if i > 0 {
                assert(s.drop_first()[i - 1] == s[i]);
            }
        }
    }
}

/// A position before which no `c` stands, and which holds `c` or is the end,
/// is where `s` is cut.
pub proof fn lemma_cut_unique(s: Seq<char>, c: char, at: int)
    requires
        0 <= at <= s.len(),
        forall|i: int| 0 <= i < at ==> s[i] != c,
        at < s.len() ==> s[at] == c,
    ensures
        cut(s, c) == at,
{
    lemma_cut(s, c);
    if cut(s, c) < at {
        assert(s[cut(s, c)] == c);
    }
}

/// The first position at or after `from`, and before `to`, that holds `c`;
/// `to` where there is none.
pub fn find_char(chars: &Vec<char>, c: char, from: usize, to: usize) -> (at: usize)
    requires
        from <= to <= chars@.len(),
    ensures
        from <= at <= to,
        at - from == cut(chars@.subrange(from as int, to as int), c),
{
    let ghost part = chars@.subrange(from as int, to as int);
    let mut at: usize = from;
    while at < to && chars[at] != c
        invariant
            from <= at <= to <= chars@.len(),
            part == chars@.subrange(from as int, to as int),
            forall|i: int| 0 <= i < at - from ==> part[i] != c,
        decreases to - at,
    {
        assert(part[at - from] == chars@[at as int]);
        at = at + 1;
    }
    proof {
        lemma_cut_unique(part, c, at - from);
    }
    at
}

/// The pieces of `s` between its separators.
pub open spec fn split(s: Seq<char>, sep: char) -> Seq<Seq<char>>
    decreases s.len(),
{
    let at = cut(s, sep);
    if 0 <= at < s.len() {
        seq![s.take(at)] + split(s.skip(at + 1), sep)
    } else {
        seq![s]
    }
}

/// `parts`, one behind the other, with `sep` between them.
pub open spec fn join(parts: Seq<Seq<char>>, sep: Seq<char>) -> Seq<char>
    decreases parts.len(),
{
    if parts.len() == 0 {
        Seq::empty()
    } else if parts.len() == 1 {
        parts[0]
    } else {
        join(parts.drop_last(), sep) + sep + parts.last()
    }
}

/// The views of some texts.
pub open spec fn views(parts: Seq<String>) -> Seq<Seq<char>> {
    parts.map_values(|s: String| s@)
}

/// The view of a longer list of texts.
pub proof fn lemma_views_push(parts: Seq<String>, part: String)
    ensures
        views(parts.push(part)) == views(parts).push(part@),
{
    assert(views(parts.push(part)) =~= views(parts).push(part@));
}

/// `parts`, one behind the other, with `sep` between them.
pub fn joined(parts: &Vec<String>, sep: &str) -> (s: String)
    ensures
        s@ == join(views(parts@), sep@),
{
    let mut s: String = String::new();
    let ghost all = views(parts@);
    let mut i: usize = 0;
    while i < parts.len()
        invariant
            i <= parts@.len(),
            all == views(parts@),
            s@ == join(all.take(i as int), sep@),
        decreases parts@.len() - i,
    {
        if i > 0 {
            s.append(sep);
        }
        s.append(parts[i].as_str());
        assert(all.take(i + 1).drop_last() =~= all.take(i as int));
        assert(s@ =~= join(all.take(i + 1), sep@));
        i = i + 1;
    }
    assert(all.take(all.len() as int) =~= all);
    s
}

/// The last position at or before `from` where `needle` stands in `hay`, or
/// minus one.
pub open spec fn last_at(hay: Seq<char>, needle: Seq<char>, from: int) -> int
    decreases from + 1,
{
    if from < 0 {
        -1
    } else if occurs_at(hay, needle, from) {
        from
    } else {
        last_at(hay, needle, from - 1)
    }
}

/// The last position where `needle` stands in `hay`, or minus one.
pub open spec fn last_occurrence(hay: Seq<char>, needle: Seq<char>) -> int {
    last_at(hay, needle, hay.len() as int)
}

proof fn lemma_last_at(hay: Seq<char>, needle: Seq<char>, from: int)
    requires
        -1 <= from,
    ensures
        -1 <= last_at(hay, needle, from) <= from,
        last_at(hay, needle, from) >= 0 ==> occurs_at(hay, needle, last_at(hay, needle, from)),
        forall|at: int|
            last_at(hay, needle, from) < at <= from ==> !occurs_at(hay, needle, at),
    decreases from + 1,
{
    if from >= 0 && !occurs_at(hay, needle, from) {
        lemma_last_at(hay, needle, from - 1);
    }
}

/// `last_occurrence` gives a position where `needle` stands, and it stands at
/// none behind it.
pub proof fn lemma_last_occurrence(hay: Seq<char>, needle: Seq<char>)
    ensures
        -1 <= last_occurrence(hay, needle) <= hay.len(),
        last_occurrence(hay, needle) >= 0 ==> occurs_at(hay, needle, last_occurrence(hay, needle)),
        forall|at: int| last_occurrence(hay, needle) < at ==> !occurs_at(hay, needle, at),
        last_occurrence(hay, needle) >= 0 <==> contains(hay, needle),
{
    lemma_last_at(hay, needle, hay.len() as int);
    if contains(hay, needle) {
        let at = choose|at: int| occurs_at(hay, needle, at);
        assert(at <= last_occurrence(hay, needle));
    }
}

/// A position where `needle` stands, and behind which it does not, is its last.
pub proof fn lemma_last_occurrence_unique(hay: Seq<char>, needle: Seq<char>, at: int)
    requires
        occurs_at(hay, needle, at),
        forall|later: int| at < later ==> !occurs_at(hay, needle, later),
    ensures
        last_occurrence(hay, needle) == at,
{
    lemma_last_occurrence(hay, needle);
    assert(contains(hay, needle));
}

/// The last position where `needle` stands in `hay`.
pub fn find_last(hay: &Vec<char>, needle: &Vec<char>) -> (found: Option<usize>)
    ensures
        found is Some <==> last_occurrence(hay@, needle@) >= 0,
        found matches Some(at) ==> at == last_occurrence(hay@, needle@) && at + needle@.len()
            <= hay@.len(),
{
    let mut from: usize = hay.len();
    loop
        invariant
            from <= hay@.len(),
            last_occurrence(hay@, needle@) == last_at(hay@, needle@, from as int),
        decreases from,
    {
        if stands_at(hay, needle, from) {
            return Some(from);
        }
        if from == 0 {
            assert(last_at(hay@, needle@, -1) == -1);
            return None;
        }
        from = from - 1;
    }
}

/// The decimal digit `d`.
pub open spec fn digit(d: int) -> char {
    (48 + d) as char
}

/// `n` in decimal, without leading zeros.
pub open spec fn decimal(n: nat) -> Seq<char>
    decreases n,
{
    if n < 10 {
        seq![digit(n as int)]
    } else {
        decimal(n / 10).push(digit((n % 10) as int))
    }
}

/// `n` in decimal, with a minus sign where it is negative.
pub open spec fn signed_decimal(n: int) -> Seq<char> {
    if n < 0 {
        seq!['-'] + decimal((-n) as nat)
    } else {
        decimal(n as nat)
    }
}

/// The lower-case hexadecimal digit `d`.
pub open spec fn hex_digit(d: int) -> char {
    if d < 10 {
        (48 + d) as char
    } else {
        (87 + d) as char
    }
}

/// `n` in lower-case hexadecimal, without leading zeros.
pub open spec fn hex(n: nat) -> Seq<char>
    decreases n,
{
    if n < 16 {
        seq![hex_digit(n as int)]
    } else {
        hex(n / 16).push(hex_digit((n % 16) as int))
    }
}

/// `n` in decimal.
pub fn decimal_text(n: u64) -> (s: String)
    ensures
        s@ == decimal(n as nat),
    decreases n,
{
    let last: char = (48u8 + (n % 10) as u8) as char;
    let mut s: String = if n < 10 {
        String::new()
    } else {
        decimal_text(n / 10)
    };
    s.push(last);
    s
}

/// `n` in lower-case hexadecimal.
pub fn hex_text(n: u128) -> (s: String)
    ensures
        s@ == hex(n as nat),
    decreases n,
{
    let low: u8 = (n % 16) as u8;
    let last: char = if low < 10 {
        (48u8 + low) as char
    } else {
        (87u8 + low) as char
    };
    let mut s: String = if n < 16 {
        String::new()
    } else {
        hex_text(n / 16)
    };
    s.push(last);
    s
}

proof fn lemma_trim_start(pad: Seq<char>, rest: Seq<char>)
    requires
        forall|i: int| 0 <= i < pad.len() ==> is_white(#[trigger] pad[i]),
        rest.len() > 0 ==> !is_white(rest[0]),
    ensures
        trim_start(pad + rest) == rest,
    decreases pad.len(),
{
    if pad.len() > 0 {
        assert((pad + rest)[0] == pad[0]);
        assert((pad + rest).drop_first() =~= pad.drop_first() + rest);
        assert forall|i: int| 0 <= i < pad.drop_first().len() implies is_white(
            #[trigger] pad.drop_first()[i],
        ) by {
            assert(is_white(pad[i + 1]));
        }
        lemma_trim_start(pad.drop_first(), rest);
    } else {
        assert(pad + rest =~= rest);
    }
}

proof fn lemma_trim_end(rest: Seq<char>, pad: Seq<char>)
    requires
        forall|i: int| 0 <= i < pad.len() ==> is_white(#[trigger] pad[i]),
        rest.len() > 0 ==> !is_white(rest.last()),
    ensures
        trim_end(rest + pad) == rest,
    decreases pad.len(),
{
    if pad.len() > 0 {
        assert((rest + pad).last() == pad[pad.len() - 1]);
        assert((rest + pad).drop_last() =~= rest + pad.drop_last());
        assert forall|i: int| 0 <= i < pad.drop_last().len() implies is_white(
            #[trigger] pad.drop_last()[i],
        ) by {
            assert(is_white(pad[i]));
        }
        lemma_trim_end(rest, pad.drop_last());
    } else {
        assert(rest + pad =~= rest);
    }
}

/// Whether every character of `s` is white space.
pub open spec fn all_white(s: Seq<char>) -> bool {
    forall|i: int| 0 <= i < s.len() ==> is_white(#[trigger] s[i])
}

/// White space at either end is all that trimming takes away, and it takes away
/// all of it: of a text that neither starts nor ends with white space nothing,
/// whatever white space is put round it.
pub proof fn law_trimming_undoes_padding(before: Seq<char>, text: Seq<char>, behind: Seq<char>)
    requires
        all_white(before),
        all_white(behind),
        text.len() > 0 ==> !is_white(text[0]) && !is_white(text.last()),
    ensures
        trim(before + text + behind) == text,
{
    if text.len() > 0 {
        assert(before + text + behind =~= before + (text + behind));
        assert((text + behind)[0] == text[0]);
        lemma_trim_start(before, text + behind);
    } else {
        assert(before + text + behind =~= (before + behind) + text);
        assert forall|i: int| 0 <= i < (before + behind).len() implies is_white(
            #[trigger] (before + behind)[i],
        ) by {
            if i < before.len() {
                assert(is_white(before[i]));
            } else {
                assert(is_white(behind[i - before.len()]));
            }
        }
        lemma_trim_start(before + behind, text);
        assert(text =~= text + Seq::<char>::empty());
    }
    if text.len() > 0 {
        lemma_trim_end(text, behind);
    } else {
        lemma_trim_end(text, Seq::empty());
    }
}

proof fn lemma_trim_parts(s: Seq<char>)
    ensures
        exists|before: Seq<char>, behind: Seq<char>|
            all_white(before) && all_white(behind) && s == #[trigger] (before + trim(s) + behind),
        trim(s).len() > 0 ==> !is_white(trim(s)[0]) && !is_white(trim(s).last()),
{
    lemma_trim_start_parts(s);
    let rest = trim_start(s);
    let before = choose|before: Seq<char>| all_white(before) && s == #[trigger] (before + rest);
    lemma_trim_end_parts(rest);
    let behind = choose|behind: Seq<char>|
        all_white(behind) && rest == #[trigger] (trim_end(rest) + behind);
    assert(s =~= before + trim(s) + behind);
    if trim(s).len() > 0 {
        assert(rest[0] == trim(s)[0]);
    }
}

proof fn lemma_trim_start_parts(s: Seq<char>)
    ensures
        exists|before: Seq<char>| all_white(before) && s == #[trigger] (before + trim_start(s)),
        trim_start(s).len() > 0 ==> !is_white(trim_start(s)[0]),
    decreases s.len(),
{
    if s.len() > 0 && is_white(s[0]) {
        lemma_trim_start_parts(s.drop_first());
        let inner = choose|inner: Seq<char>|
            all_white(inner) && s.drop_first() == #[trigger] (inner + trim_start(s.drop_first()));
        assert(trim_start(s) == trim_start(s.drop_first()));
        let before = seq![s[0]] + inner;
        assert forall|i: int| 0 <= i < before.len() implies is_white(#[trigger] before[i]) by {
            if i > 0 {
                assert(is_white(inner[i - 1]));
            }
        }
        assert(s =~= seq![s[0]] + s.drop_first());
        assert(s =~= before + trim_start(s));
    } else {
        assert(s =~= Seq::<char>::empty() + trim_start(s));
        assert(all_white(Seq::<char>::empty()));
    }
}

proof fn lemma_trim_end_parts(s: Seq<char>)
    ensures
        exists|behind: Seq<char>| all_white(behind) && s == #[trigger] (trim_end(s) + behind),
        trim_end(s).len() > 0 ==> !is_white(trim_end(s).last()),
    decreases s.len(),
{
    if s.len() > 0 && is_white(s.last()) {
        lemma_trim_end_parts(s.drop_last());
        let inner = choose|inner: Seq<char>|
            all_white(inner) && s.drop_last() == #[trigger] (trim_end(s.drop_last()) + inner);
        assert(trim_end(s) == trim_end(s.drop_last()));
        let behind = inner.push(s.last());
        assert forall|i: int| 0 <= i < behind.len() implies is_white(#[trigger] behind[i]) by {
            if i < inner.len() {
                assert(is_white(inner[i]));
            }
        }
        assert(s =~= s.drop_last().push(s.last()));
        assert(s =~= trim_end(s) + behind);
    } else {
        assert(s =~= trim_end(s) + Seq::<char>::empty());
        assert(all_white(Seq::<char>::empty()));
    }
}

/// What is left of a text stands in it between white space, and neither starts
/// nor ends with any.
pub proof fn law_trimming_takes_white_space_only(s: Seq<char>)
    ensures
        exists|before: Seq<char>, behind: Seq<char>|
            all_white(before) && all_white(behind) && s == #[trigger] (before + trim(s) + behind),
        trim(s).len() > 0 ==> !is_white(trim(s)[0]) && !is_white(trim(s).last()),
{
    lemma_trim_parts(s);
}

/// A text stands in another exactly where that one is something, the text, and
/// something more.
pub proof fn law_containing_is_having_a_part(hay: Seq<char>, needle: Seq<char>)
    ensures
        contains(hay, needle) <==> exists|before: Seq<char>, behind: Seq<char>|
            hay == #[trigger] (before + needle + behind),
{
    if contains(hay, needle) {
        let at = choose|at: int| occurs_at(hay, needle, at);
        assert(hay.subrange(at, at + needle.len()) == needle);
        assert(hay =~= hay.take(at) + needle + hay.skip(at + needle.len()));
    }
    if exists|before: Seq<char>, behind: Seq<char>|
        hay == #[trigger] (before + needle + behind) {
        let (before, behind) = choose|before: Seq<char>, behind: Seq<char>|
            hay == #[trigger] (before + needle + behind);
        assert(hay.subrange(before.len() as int, (before.len() + needle.len()) as int) =~= needle);
        assert(occurs_at(hay, needle, before.len() as int));
    }
}

/// Parts that are joined grow by a separator and the part that is put behind
/// them; the first part stands alone.
pub proof fn law_joining_puts_separators_between(
    parts: Seq<Seq<char>>,
    sep: Seq<char>,
    part: Seq<char>,
)
    ensures
        join(Seq::empty(), sep).len() == 0,
        parts.len() == 0 ==> join(parts.push(part), sep) == part,
        parts.len() > 0 ==> join(parts.push(part), sep) == join(parts, sep) + sep + part,
{
    assert(parts.push(part).drop_last() =~= parts);
}

proof fn lemma_join_front(first: Seq<char>, rest: Seq<Seq<char>>, sep: Seq<char>)
    requires
        rest.len() > 0,
    ensures
        join(seq![first] + rest, sep) == first + sep + join(rest, sep),
    decreases rest.len(),
{
    let all = seq![first] + rest;
    assert(all.drop_last() =~= seq![first] + rest.drop_last());
    assert(all.last() == rest.last());
    if rest.len() == 1 {
        assert(all.drop_last() =~= seq![first]);
        assert(join(seq![first], sep) == first);
        assert(join(rest, sep) == rest.last());
    } else {
        lemma_join_front(first, rest.drop_last(), sep);
        assert(join(all, sep) =~= first + sep + join(rest, sep));
    }
}

/// The pieces of a text hold no separator, and joined by it are the text again.
pub proof fn law_splitting_is_undone_by_joining(s: Seq<char>, sep: char)
    ensures
        join(split(s, sep), seq![sep]) == s,
        split(s, sep).len() > 0,
        forall|i: int| 0 <= i < split(s, sep).len() ==> !(#[trigger] split(s, sep)[i]).contains(sep),
    decreases s.len(),
{
    lemma_cut(s, sep);
    let at = cut(s, sep);
    if at < s.len() {
        let rest = s.skip(at + 1);
        law_splitting_is_undone_by_joining(rest, sep);
        lemma_join_front(s.take(at), split(rest, sep), seq![sep]);
        assert(s =~= s.take(at) + seq![sep] + rest);
        assert forall|i: int| 0 <= i < split(s, sep).len() implies !(#[trigger] split(
            s,
            sep,
        )[i]).contains(sep) by {
            if i > 0 {
                assert(split(s, sep)[i] == split(rest, sep)[i - 1]);
            } else {
                assert(split(s, sep)[0] == s.take(at));
            }
        }
    } else {
        assert(split(s, sep) =~= seq![s]);
    }
}

/// Texts without separators are the pieces of what they are joined to.
pub proof fn law_joining_is_undone_by_splitting(parts: Seq<Seq<char>>, sep: char)
    requires
        parts.len() > 0,
        forall|i: int| 0 <= i < parts.len() ==> !(#[trigger] parts[i]).contains(sep),
    ensures
        split(join(parts, seq![sep]), sep) == parts,
    decreases parts.len(),
{
    let first = parts[0];
    let rest = parts.drop_first();
    assert forall|i: int| 0 <= i < first.len() implies first[i] != sep by {
        if first[i] == sep {
            assert(first.contains(sep));
        }
    }
    assert(parts =~= seq![first] + rest);
    let whole = join(parts, seq![sep]);
    if rest.len() > 0 {
        assert forall|i: int| 0 <= i < rest.len() implies !(#[trigger] rest[i]).contains(sep) by {
            assert(!parts[i + 1].contains(sep));
        }
        law_joining_is_undone_by_splitting(rest, sep);
        lemma_join_front(first, rest, seq![sep]);
        assert(whole == first + seq![sep] + join(rest, seq![sep]));
        lemma_cut_unique(whole, sep, first.len() as int);
        assert(whole.take(first.len() as int) =~= first);
        assert(whole.skip((first.len() + 1) as int) =~= join(rest, seq![sep]));
    } else {
        assert(whole == first);
        lemma_cut_unique(whole, sep, first.len() as int);
        assert(split(whole, sep) =~= parts);
    }
}

/// The value of a run of lower-case hexadecimal digits.
pub open spec fn hex_number(s: Seq<char>) -> int
    decreases s.len(),
{
    if s.len() == 0 {
        0
    } else {
        16 * hex_number(s.drop_last()) + if s.last() as int <= 57 {
            s.last() as int - 48
        } else {
            s.last() as int - 87
        }
    }
}

/// A number can be read back from its hexadecimal digits, which are lower-case
/// and start with no needless zero; so two numbers never read the same.
pub proof fn law_hexadecimal_is_reversible(n: nat)
    ensures
        hex_number(hex(n)) == n,
        hex(n).len() > 0,
        n > 0 ==> hex(n)[0] != '0',
        forall|i: int|
            0 <= i < hex(n).len() ==> '0' <= #[trigger] hex(n)[i] <= '9' || 'a' <= hex(n)[i]
                <= 'f',
    decreases n,
{
    if n >= 16 {
        law_hexadecimal_is_reversible(n / 16);
        assert(hex(n).drop_last() =~= hex(n / 16));
        assert forall|i: int| 0 <= i < hex(n).len() implies '0' <= #[trigger] hex(n)[i] <= '9'
            || 'a' <= hex(n)[i] <= 'f' by {
            if i < hex(n / 16).len() {
                assert(hex(n)[i] == hex(n / 16)[i]);
            }
        }
        assert(hex(n)[0] == hex(n / 16)[0]);
    } else {
        assert(hex(n).drop_last() =~= Seq::empty());
        assert(hex_number(Seq::empty()) == 0);
    }
}

} // verus!
