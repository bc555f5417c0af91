//! The credentials file: sections of `key = value` lines.

use vstd::prelude::*;

use crate::text::{
    all_white, chars_of, cut, find_char, is_white, join, law_joining_is_undone_by_splitting,
    law_trimming_undoes_padding, lemma_cut, lemma_cut_unique, same_text, split, text_of, trim,
    trim_bounds,
};

verus! {

/// The credentials of an API user, as the configuration file gives them.
pub struct OciConfig {
    pub user: String,
    pub fingerprint: String,
    pub key_file: String,
    pub tenancy: String,
    pub region: String,
}

/// A section header: a line that starts with a bracket.
pub open spec fn is_header(line: Seq<char>) -> bool {
    trim(line).len() > 0 && trim(line)[0] == '['
}

/// The header of the section that is read.
pub open spec fn is_default_header(line: Seq<char>) -> bool {
    trim(line) == "[DEFAULT]"@
}

/// A line that says nothing: a blank line or a comment.
pub open spec fn is_silent(line: Seq<char>) -> bool {
    trim(line).len() == 0 || trim(line)[0] == '#' || trim(line)[0] == ';'
}

/// A line with an equals sign that is neither header nor silent.
pub open spec fn is_entry(line: Seq<char>) -> bool {
    &&& !is_silent(line)
    &&& !is_header(line)
    &&& cut(trim(line), '=') < trim(line).len()
}

/// What stands before the first equals sign of an entry.
pub open spec fn entry_key(line: Seq<char>) -> Seq<char> {
    trim(trim(line).take(cut(trim(line), '=')))
}

/// What stands behind the first equals sign of an entry.
pub open spec fn entry_value(line: Seq<char>) -> Seq<char> {
    trim(trim(line).skip(cut(trim(line), '=') + 1))
}

/// Whether the line that follows `lines` stands in a `[DEFAULT]` section: the
/// last header among `lines` is that section's.
pub open spec fn in_default(lines: Seq<Seq<char>>) -> bool
    decreases lines.len(),
{
    if lines.len() == 0 {
        false
    } else if is_header(lines.last()) {
        is_default_header(lines.last())
    } else {
        in_default(lines.drop_last())
    }
}

/// The value that `lines` give to `key`: that of the last entry for it in a
/// `[DEFAULT]` section, or nothing.
pub open spec fn value_of(lines: Seq<Seq<char>>, key: Seq<char>) -> Seq<char>
    decreases lines.len(),
{
    if lines.len() == 0 {
        Seq::empty()
    } else if in_default(lines.drop_last()) && is_entry(lines.last()) && entry_key(lines.last())
        == key {
        entry_value(lines.last())
    } else {
        value_of(lines.drop_last(), key)
    }
}

/// The value that a configuration text gives to `key`.
pub open spec fn config_value(content: Seq<char>, key: Seq<char>) -> Seq<char> {
    value_of(split(content, '\n'), key)
}

/// The keys that a configuration has to give, in the order in which they are
/// asked for.
pub open spec fn required_keys() -> Seq<Seq<char>> {
    seq!["user"@, "fingerprint"@, "key_file"@, "tenancy"@, "region"@]
}

/// The complaint about a key without a value.
pub open spec fn missing_field(key: Seq<char>) -> Seq<char> {
    "OCI config missing required field '"@ + key + "'"@
}

/// Whether `key` is the first required key that `content` gives no value.
pub open spec fn first_missing(content: Seq<char>, n: int) -> bool {
    &&& 0 <= n < required_keys().len()
    &&& config_value(content, required_keys()[n]).len() == 0
    &&& forall|j: int|
        0 <= j < n ==> config_value(content, #[trigger] required_keys()[j]).len() > 0
}

fn missing(key: &str) -> (complaint: String)
    ensures
        complaint@ == missing_field(key@),
{
    let mut complaint: String = "OCI config missing required field '".to_owned();
    complaint.append(key);
    complaint.append("'");
    complaint
}

impl OciConfig {
    /// Whether each field holds what `lines` give to its key.
    pub open spec fn holds(&self, lines: Seq<Seq<char>>) -> bool {
        &&& self.user@ == value_of(lines, "user"@)
        &&& self.fingerprint@ == value_of(lines, "fingerprint"@)
        &&& self.key_file@ == value_of(lines, "key_file"@)
        &&& self.tenancy@ == value_of(lines, "tenancy"@)
        &&& self.region@ == value_of(lines, "region"@)
    }

    /// Whether no field is empty.
    pub open spec fn complete(&self) -> bool {
        &&& self.user@.len() > 0
        &&& self.fingerprint@.len() > 0
        &&& self.key_file@.len() > 0
        &&& self.tenancy@.len() > 0
        &&& self.region@.len() > 0
    }

    fn set(&mut self, key: &str, value: String)
        ensures
            final(self).user@ == if key@ == "user"@ { value@ } else { old(self).user@ },
            final(self).fingerprint@ == if key@ == "fingerprint"@ {
                value@
            } else {
                old(self).fingerprint@
            },
            final(self).key_file@ == if key@ == "key_file"@ { value@ } else { old(self).key_file@ },
            final(self).tenancy@ == if key@ == "tenancy"@ { value@ } else { old(self).tenancy@ },
            final(self).region@ == if key@ == "region"@ { value@ } else { old(self).region@ },
    {
        proof {
            lemma_keys_differ();
            assert(required_keys()[0] == "user"@);
            assert(required_keys()[1] == "fingerprint"@);
            assert(required_keys()[2] == "key_file"@);
            assert(required_keys()[3] == "tenancy"@);
            assert(required_keys()[4] == "region"@);
        }
        if same_text(key, "user") {
            self.user = value;
        } else if same_text(key, "fingerprint") {
            self.fingerprint = value;
        } else if same_text(key, "key_file") {
            self.key_file = value;
        } else if same_text(key, "tenancy") {
            self.tenancy = value;
        } else if same_text(key, "region") {
            self.region = value;
        }
    }
}

proof fn lemma_keys_differ()
    ensures
        forall|i: int, j: int|
            0 <= i < j < required_keys().len() ==> #[trigger] required_keys()[i]
                != #[trigger] required_keys()[j],
{
    reveal_strlit("user");
    reveal_strlit("fingerprint");
    reveal_strlit("key_file");
    reveal_strlit("tenancy");
    reveal_strlit("region");
    assert("user"@[0] != "region"@[0]);
    assert forall|i: int, j: int| 0 <= i < j < required_keys().len() implies
        #[trigger] required_keys()[i] != #[trigger] required_keys()[j] by {
        assert(required_keys()[i].len() != required_keys()[j].len() || required_keys()[i][0]
            != required_keys()[j][0]);
    }
}

/// Takes in the line that stands at `from..to` of `chars`.
fn read_line(
    chars: &Vec<char>,
    from: usize,
    to: usize,
    cfg: &mut OciConfig,
    default_section: bool,
    Ghost(lines): Ghost<Seq<Seq<char>>>,
) -> (still_default: bool)
    requires
        from <= to <= chars@.len(),
        old(cfg).holds(lines),
        default_section == in_default(lines),
    ensures
        final(cfg).holds(lines.push(chars@.subrange(from as int, to as int))),
        still_default == in_default(lines.push(chars@.subrange(from as int, to as int))),
{
    let ghost line = chars@.subrange(from as int, to as int);
    let ghost all = lines.push(line);
    assert(all.drop_last() =~= lines);
    assert(all.last() == line);
    let (start, end) = trim_bounds(chars, from, to);
    let ghost bare = chars@.subrange(start as int, end as int);
    assert(bare == trim(line));
    if start == end || chars[start] == '#' || chars[start] == ';' {
        return default_section;
    }
    assert(bare[0] == chars@[start as int]);
    if chars[start] == '[' {
        let header: String = text_of(chars, start, end);
        return same_text(header.as_str(), "[DEFAULT]");
    }
    let eq: usize = find_char(chars, '=', start, end);
    if default_section && eq < end {
        let (key_from, key_to) = trim_bounds(chars, start, eq);
        let (value_from, value_to) = trim_bounds(chars, eq + 1, end);
        assert(bare.take(eq - start) =~= chars@.subrange(start as int, eq as int));
        assert(bare.skip(eq - start + 1) =~= chars@.subrange(eq + 1, end as int));
        let key: String = text_of(chars, key_from, key_to);
        let value: String = text_of(chars, value_from, value_to);
        cfg.set(key.as_str(), value);
    }
    default_section
}

/// Reads the `[DEFAULT]` section of a configuration text.
///
/// Fails where one of the required keys has no value, and names the first.
pub fn load_config(content: &str) -> (config: Result<OciConfig, String>)
    ensures
        config matches Ok(c) ==> c.complete() && c.holds(split(content@, '\n')),
        config matches Err(e) ==> exists|n: int|
            first_missing(content@, n) && e@ == missing_field(#[trigger] required_keys()[n]),
        config is Ok <==> forall|n: int|
            0 <= n < required_keys().len() ==> config_value(
                content@,
                #[trigger] required_keys()[n],
            ).len() > 0,
{
    let chars: Vec<char> = chars_of(content);
    let mut cfg: OciConfig = OciConfig {
        user: String::new(),
        fingerprint: String::new(),
        key_file: String::new(),
        tenancy: String::new(),
        region: String::new(),
    };
    let mut default_section: bool = false;
    let mut from: usize = 0;
    let ghost mut lines: Seq<Seq<char>> = Seq::empty();
    assert(chars@.skip(0) =~= content@);
    assert(lines + split(content@, '\n') =~= split(content@, '\n'));
    loop
        invariant_except_break
            from <= chars@.len(),
            chars@ == content@,
            cfg.holds(lines),
            default_section == in_default(lines),
            split(content@, '\n') == lines + split(chars@.skip(from as int), '\n'),
        ensures
            cfg.holds(split(content@, '\n')),
        decreases chars@.len() - from,
    {
        let end: usize = find_char(&chars, '\n', from, chars.len());
        let ghost rest = chars@.skip(from as int);
        proof {
            lemma_cut(rest, '\n');
            assert(rest =~= chars@.subrange(from as int, chars@.len() as int));
            assert(rest.take(end - from) =~= chars@.subrange(from as int, end as int));
        }
        default_section = read_line(&chars, from, end, &mut cfg, default_section, Ghost(lines));
        proof {
            lines = lines.push(rest.take(end - from));
        }
        if end == chars.len() {
            assert(rest.take(end - from) =~= rest);
            assert(split(content@, '\n') =~= lines);
            break;
        }
        assert(rest.skip(end - from + 1) =~= chars@.skip(end + 1));
        assert(split(content@, '\n') =~= lines + split(chars@.skip(end + 1), '\n'));
        from = end + 1;
    }
    assert(required_keys()[0] == "user"@);
    assert(required_keys()[1] == "fingerprint"@);
    assert(required_keys()[2] == "key_file"@);
    assert(required_keys()[3] == "tenancy"@);
    assert(required_keys()[4] == "region"@);
    if cfg.user.as_str().is_empty() {
        assert(first_missing(content@, 0));
        return Err(missing("user"));
    }
    if cfg.fingerprint.as_str().is_empty() {
        assert(first_missing(content@, 1));
        return Err(missing("fingerprint"));
    }
    if cfg.key_file.as_str().is_empty() {
        assert(first_missing(content@, 2));
        return Err(missing("key_file"));
    }
    if cfg.tenancy.as_str().is_empty() {
        assert(first_missing(content@, 3));
        return Err(missing("tenancy"));
    }
    if cfg.region.as_str().is_empty() {
        assert(first_missing(content@, 4));
        return Err(missing("region"));
    }
    Ok(cfg)
}

/// Whether a line gives `key` a value, where `before` stand before it.
pub open spec fn sets(before: Seq<Seq<char>>, line: Seq<char>, key: Seq<char>) -> bool {
    in_default(before) && is_entry(line) && entry_key(line) == key
}

/// Of several values for one key the last counts.
pub proof fn law_last_entry_wins(lines: Seq<Seq<char>>, key: Seq<char>, n: int)
    requires
        0 <= n < lines.len(),
        sets(lines.take(n), lines[n], key),
        forall|i: int| n < i < lines.len() ==> !sets(lines.take(i), #[trigger] lines[i], key),
    ensures
        value_of(lines, key) == entry_value(lines[n]),
    decreases lines.len(),
{
    let front = lines.drop_last();
    assert(front =~= lines.take(lines.len() - 1));
    if n < lines.len() - 1 {
        assert(!sets(lines.take(lines.len() - 1), lines[lines.len() - 1], key));
        assert(front.take(n) =~= lines.take(n));
        assert forall|i: int| n < i < front.len() implies !sets(
            front.take(i),
            #[trigger] front[i],
            key,
        ) by {
            assert(front.take(i) =~= lines.take(i));
            assert(!sets(lines.take(i), lines[i], key));
        }
        law_last_entry_wins(front, key, n);
    }
}

/// A key that no line of a `[DEFAULT]` section gives a value has none.
pub proof fn law_unset_key_is_empty(lines: Seq<Seq<char>>, key: Seq<char>)
    requires
        forall|i: int| 0 <= i < lines.len() ==> !sets(lines.take(i), #[trigger] lines[i], key),
    ensures
        value_of(lines, key).len() == 0,
    decreases lines.len(),
{
    if lines.len() > 0 {
        let front = lines.drop_last();
        assert(front =~= lines.take(lines.len() - 1));
        assert(!sets(lines.take(lines.len() - 1), lines[lines.len() - 1], key));
        assert forall|i: int| 0 <= i < front.len() implies !sets(
            front.take(i),
            #[trigger] front[i],
            key,
        ) by {
            assert(front.take(i) =~= lines.take(i));
            assert(!sets(lines.take(i), lines[i], key));
        }
        law_unset_key_is_empty(front, key);
    }
}

/// Blank lines and comments change nothing, wherever they stand.
pub proof fn law_silent_lines_change_nothing(
    before: Seq<Seq<char>>,
    line: Seq<char>,
    behind: Seq<Seq<char>>,
    key: Seq<char>,
)
    requires
        is_silent(line),
    ensures
        value_of(before.push(line) + behind, key) == value_of(before + behind, key),
        in_default(before.push(line) + behind) == in_default(before + behind),
    decreases behind.len(),
{
    let with = before.push(line) + behind;
    let without = before + behind;
    if behind.len() == 0 {
        assert(with =~= before.push(line));
        assert(with.drop_last() =~= before);
        assert(without =~= before);
    } else {
        law_silent_lines_change_nothing(before, line, behind.drop_last(), key);
        assert(with.drop_last() =~= before.push(line) + behind.drop_last());
        assert(without.drop_last() =~= before + behind.drop_last());
    }
}

/// A section of any other name changes nothing: neither its header nor the lines
/// up to the next.
pub proof fn law_other_sections_are_ignored(
    before: Seq<Seq<char>>,
    header: Seq<char>,
    body: Seq<Seq<char>>,
    key: Seq<char>,
)
    requires
        is_header(header),
        !is_default_header(header),
        forall|i: int| 0 <= i < body.len() ==> !is_header(#[trigger] body[i]),
    ensures
        value_of(before.push(header) + body, key) == value_of(before, key),
        !in_default(before.push(header) + body),
    decreases body.len(),
{
    let whole = before.push(header) + body;
    if body.len() == 0 {
        assert(whole =~= before.push(header));
        assert(whole.drop_last() =~= before);
    } else {
        assert(!is_header(body[body.len() - 1]));
        assert forall|i: int| 0 <= i < body.drop_last().len() implies !is_header(
            #[trigger] body.drop_last()[i],
        ) by {
            assert(!is_header(body[i]));
        }
        law_other_sections_are_ignored(before, header, body.drop_last(), key);
        assert(whole.drop_last() =~= before.push(header) + body.drop_last());
    }
}

/// Whether a text can stand as a key or a value: it neither starts nor ends with
/// white space, and has no line break.
pub open spec fn is_bare(s: Seq<char>) -> bool {
    &&& s.len() > 0 ==> !is_white(s[0]) && !is_white(s.last())
    &&& !s.contains('\n')
}

/// Whether a text can stand as a key.
pub open spec fn is_key(s: Seq<char>) -> bool {
    &&& is_bare(s)
    &&& s.len() > 0
    &&& !s.contains('=')
    &&& s[0] != '#'
    &&& s[0] != ';'
    &&& s[0] != '['
}

/// An entry gives exactly the key and the value that are written in it, whatever
/// white space stands round them, and though the value has equals signs of its
/// own.
pub proof fn law_entry_is_read_as_written(
    before: Seq<char>,
    key: Seq<char>,
    left: Seq<char>,
    right: Seq<char>,
    value: Seq<char>,
    behind: Seq<char>,
)
    requires
        all_white(before),
        all_white(left),
        all_white(right),
        all_white(behind),
        is_key(key),
        is_bare(value),
    ensures
        ({
            let line = before + key + left + seq!['='] + right + value + behind;
            is_entry(line) && entry_key(line) == key && entry_value(line) == value
        }),
{
    let line = before + key + left + seq!['='] + right + value + behind;
    let none = Seq::<char>::empty();
    let (core, pad) = if value.len() > 0 {
        (key + left + seq!['='] + right + value, behind)
    } else {
        (key + left + seq!['='], right + behind)
    };
    assert(line =~= before + core + pad);
    assert(all_white(pad)) by {
        assert forall|i: int| 0 <= i < pad.len() implies is_white(#[trigger] pad[i]) by {
            if value.len() == 0 {
                if i < right.len() {
                    assert(is_white(right[i]));
                } else {
                    assert(is_white(behind[i - right.len()]));
                }
            }
        }
    }
    assert(core[0] == key[0]);
    assert(value.len() > 0 ==> core.last() == value.last());
    assert(value.len() == 0 ==> core.last() == '=');
    law_trimming_undoes_padding(before, core, pad);
    assert(trim(line) == core);
    let at = (key.len() + left.len()) as int;
    assert forall|i: int| 0 <= i < at implies core[i] != '=' by {
        if i < key.len() {
            assert(core[i] == key[i]);
            if key[i] == '=' {
                assert(key.contains('='));
            }
        } else {
            assert(core[i] == left[i - key.len()]);
            assert(is_white(left[i - key.len()]));
        }
    }
    assert(core[at] == '=');
    lemma_cut_unique(core, '=', at);
    assert(core.take(at) =~= none + key + left);
    law_trimming_undoes_padding(none, key, left);
    if value.len() > 0 {
        assert(core.skip(at + 1) =~= right + value + none);
        law_trimming_undoes_padding(right, value, none);
    } else {
        assert(core.skip(at + 1) =~= none + value + none);
        law_trimming_undoes_padding(none, value, none);
    }
}

/// A line says nothing exactly where it is blank or its first character that is
/// not white space is `#` or `;`; it is a header exactly where that is `[`, and the
/// header of the section that is read exactly where it is `[DEFAULT]`, whatever
/// white space stands round it.
pub proof fn law_lines_are_told_apart(before: Seq<char>, line: Seq<char>, behind: Seq<char>)
    requires
        all_white(before),
        all_white(behind),
        line.len() > 0 ==> !is_white(line[0]) && !is_white(line.last()),
    ensures
        is_silent(before + line + behind) <==> line.len() == 0 || line[0] == '#' || line[0] == ';',
        is_header(before + line + behind) <==> line.len() > 0 && line[0] == '[',
        is_default_header(before + line + behind) <==> line == "[DEFAULT]"@,
{
    law_trimming_undoes_padding(before, line, behind);
}

/// An entry in a `[DEFAULT]` section gives its key its value, changes no other
/// key, and leaves the section open.
pub proof fn law_entry_sets_its_key_only(
    lines: Seq<Seq<char>>,
    line: Seq<char>,
    other: Seq<char>,
)
    requires
        in_default(lines),
        is_entry(line),
    ensures
        value_of(lines.push(line), entry_key(line)) == entry_value(line),
        other != entry_key(line) ==> value_of(lines.push(line), other) == value_of(lines, other),
        in_default(lines.push(line)),
{
    assert(lines.push(line).drop_last() =~= lines);
}

/// A header opens or closes the section that is read, and changes no key; outside
/// that section no line changes one.
pub proof fn law_headers_open_and_close(
    lines: Seq<Seq<char>>,
    line: Seq<char>,
    key: Seq<char>,
)
    ensures
        is_header(line) ==> value_of(lines.push(line), key) == value_of(lines, key),
        is_header(line) ==> (in_default(lines.push(line)) <==> is_default_header(line)),
        !is_header(line) ==> in_default(lines.push(line)) == in_default(lines),
        !in_default(lines) ==> value_of(lines.push(line), key) == value_of(lines, key),
        !in_default(Seq::empty()),
        value_of(Seq::empty(), key).len() == 0,
{
    assert(lines.push(line).drop_last() =~= lines);
}

/// The line that gives `key` the value `value`.
pub open spec fn written(key: Seq<char>, value: Seq<char>) -> Seq<char> {
    key + seq!['='] + value
}

proof fn lemma_written(lines: Seq<Seq<char>>, key: Seq<char>, value: Seq<char>, other: Seq<char>)
    requires
        in_default(lines),
        is_key(key),
        is_bare(value),
    ensures
        in_default(lines.push(written(key, value))),
        value_of(lines.push(written(key, value)), key) == value,
        other != key ==> value_of(lines.push(written(key, value)), other) == value_of(
            lines,
            other,
        ),
{
    let none = Seq::<char>::empty();
    assert(written(key, value) =~= none + key + none + seq!['='] + none + value + none);
    law_entry_is_read_as_written(none, key, none, none, value, none);
    law_entry_sets_its_key_only(lines, written(key, value), other);
}

proof fn lemma_required_keys_are_keys()
    ensures
        is_key("user"@),
        is_key("fingerprint"@),
        is_key("key_file"@),
        is_key("tenancy"@),
        is_key("region"@),
{
    reveal_strlit("user");
    reveal_strlit("fingerprint");
    reveal_strlit("key_file");
    reveal_strlit("tenancy");
    reveal_strlit("region");
}

/// The lines of a configuration that gives each required key a value, behind any
/// other lines.
pub open spec fn configuration(
    before: Seq<Seq<char>>,
    user: Seq<char>,
    fingerprint: Seq<char>,
    key_file: Seq<char>,
    tenancy: Seq<char>,
    region: Seq<char>,
) -> Seq<Seq<char>> {
    before.push("[DEFAULT]"@).push(written("user"@, user)).push(
        written("fingerprint"@, fingerprint),
    ).push(written("key_file"@, key_file)).push(written("tenancy"@, tenancy)).push(
        written("region"@, region),
    )
}

/// What is written into a configuration is read from it: each required key has
/// the value that the text gives it, whatever lines stand before.
pub proof fn law_configuration_is_read_as_written(
    before: Seq<Seq<char>>,
    user: Seq<char>,
    fingerprint: Seq<char>,
    key_file: Seq<char>,
    tenancy: Seq<char>,
    region: Seq<char>,
)
    requires
        forall|i: int| 0 <= i < before.len() ==> !(#[trigger] before[i]).contains('\n'),
        is_bare(user),
        is_bare(fingerprint),
        is_bare(key_file),
        is_bare(tenancy),
        is_bare(region),
    ensures
        ({
            let content = join(
                configuration(before, user, fingerprint, key_file, tenancy, region),
                seq!['\n'],
            );
            &&& config_value(content, "user"@) == user
            &&& config_value(content, "fingerprint"@) == fingerprint
            &&& config_value(content, "key_file"@) == key_file
            &&& config_value(content, "tenancy"@) == tenancy
            &&& config_value(content, "region"@) == region
        }),
{
    let l0 = before.push("[DEFAULT]"@);
    let l1 = l0.push(written("user"@, user));
    let l2 = l1.push(written("fingerprint"@, fingerprint));
    let l3 = l2.push(written("key_file"@, key_file));
    let l4 = l3.push(written("tenancy"@, tenancy));
    let l5 = l4.push(written("region"@, region));
    lemma_required_keys_are_keys();
    lemma_keys_differ();
    assert(required_keys()[0] == "user"@);
    assert(required_keys()[1] == "fingerprint"@);
    assert(required_keys()[2] == "key_file"@);
    assert(required_keys()[3] == "tenancy"@);
    assert(required_keys()[4] == "region"@);
    lemma_default_opens(before);
    lemma_written(l0, "user"@, user, "user"@);
    lemma_written(l1, "fingerprint"@, fingerprint, "user"@);
    lemma_written(l2, "key_file"@, key_file, "user"@);
    lemma_written(l2, "key_file"@, key_file, "fingerprint"@);
    lemma_written(l3, "tenancy"@, tenancy, "user"@);
    lemma_written(l3, "tenancy"@, tenancy, "fingerprint"@);
    lemma_written(l3, "tenancy"@, tenancy, "key_file"@);
    lemma_written(l4, "region"@, region, "user"@);
    lemma_written(l4, "region"@, region, "fingerprint"@);
    lemma_written(l4, "region"@, region, "key_file"@);
    lemma_written(l4, "region"@, region, "tenancy"@);
    lemma_unbroken("user"@, user);
    lemma_unbroken("fingerprint"@, fingerprint);
    lemma_unbroken("key_file"@, key_file);
    lemma_unbroken("tenancy"@, tenancy);
    lemma_unbroken("region"@, region);
    reveal_strlit("[DEFAULT]");
    assert forall|i: int| 0 <= i < l5.len() implies !(#[trigger] l5[i]).contains('\n') by {
        if i < before.len() {
            assert(l5[i] == before[i]);
        } else if i == before.len() {
            assert(l5[i] == "[DEFAULT]"@);
        } else if i == before.len() + 1 {
            assert(l5[i] == written("user"@, user));
        } else if i == before.len() + 2 {
            assert(l5[i] == written("fingerprint"@, fingerprint));
        } else if i == before.len() + 3 {
            assert(l5[i] == written("key_file"@, key_file));
        } else if i == before.len() + 4 {
            assert(l5[i] == written("tenancy"@, tenancy));
        } else {
            assert(l5[i] == written("region"@, region));
        }
    }
    law_joining_is_undone_by_splitting(l5, '\n');
}

proof fn lemma_default_opens(before: Seq<Seq<char>>)
    ensures
        in_default(before.push("[DEFAULT]"@)),
{
    let none = Seq::<char>::empty();
    let header = "[DEFAULT]"@;
    reveal_strlit("[DEFAULT]");
    assert(none + header + none =~= header);
    law_lines_are_told_apart(none, header, none);
    assert(before.push(header).drop_last() =~= before);
}

proof fn lemma_unbroken(key: Seq<char>, value: Seq<char>)
    requires
        is_bare(key),
        is_bare(value),
    ensures
        !written(key, value).contains('\n'),
{
    let line = written(key, value);
    if line.contains('\n') {
        let i = choose|i: int| 0 <= i < line.len() && line[i] == '\n';
        if i < key.len() {
            assert(key[i] == '\n');
        } else if i > key.len() {
            assert(value[i - key.len() - 1] == '\n');
        }
    }
}

/// Five keys are required, and asked for in this order; each field of the
/// credentials holds the value of the key of its name; and the complaint names the
/// key.
pub proof fn law_required_keys(config: OciConfig, lines: Seq<Seq<char>>, key: Seq<char>)
    ensures
        required_keys() =~= seq!["user"@, "fingerprint"@, "key_file"@, "tenancy"@, "region"@],
        config.holds(lines) ==> config.user@ == value_of(lines, "user"@) && config.fingerprint@
            == value_of(lines, "fingerprint"@) && config.key_file@ == value_of(lines, "key_file"@)
            && config.tenancy@ == value_of(lines, "tenancy"@) && config.region@ == value_of(
            lines,
            "region"@,
        ),
        missing_field(key) == "OCI config missing required field '"@ + key + "'"@,
{
}

/// The key that is complained about is the first of the required ones that has
/// no value.
pub proof fn law_first_missing_key_is_named(content: Seq<char>, n: int, other: int)
    ensures
        first_missing(content, n) ==> 0 <= n < 5 && config_value(
            content,
            required_keys()[n],
        ).len() == 0,
        first_missing(content, n) && 0 <= other < n ==> config_value(
            content,
            required_keys()[other],
        ).len() > 0,
        first_missing(content, n) && first_missing(content, other) ==> n == other,
{
    if first_missing(content, n) && 0 <= other < n {
        assert(config_value(content, required_keys()[other]).len() > 0);
    }
    if first_missing(content, n) && first_missing(content, other) {
        if other < n {
            assert(config_value(content, required_keys()[other]).len() > 0);
        } else if n < other {
            assert(config_value(content, required_keys()[n]).len() > 0);
        }
    }
}

} // verus!
