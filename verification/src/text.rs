//! Text helpers: label truncation and parsing of user-entered name lists.

use vstd::prelude::*;
use vstd::string::{StrSliceExecFns, StringExecFns, StringSliceAdditionalSpecFns};
use vstd::utf8::{decode_utf8, encode_utf8, is_ascii_chars, is_char_boundary};

verus! {

/// `String::push`: appends `c` to `s`.
#[verifier::external_body]
fn push_char(s: &mut String, c: char)
    ensures
        final(s)@ == old(s)@.push(c),
{
    s.push(c)
}

/// Characters with the Unicode `White_Space` property, as `char::is_whitespace`
/// and `str::trim` use them.
pub open spec fn is_white_space(c: char) -> bool {
    ||| '\u{9}' <= c <= '\u{d}'
    ||| c == ' '
    ||| c == '\u{85}'
    ||| c == '\u{a0}'
    ||| c == '\u{1680}'
    ||| '\u{2000}' <= c <= '\u{200a}'
    ||| c == '\u{2028}'
    ||| c == '\u{2029}'
    ||| c == '\u{202f}'
    ||| c == '\u{205f}'
    ||| c == '\u{3000}'
}

/// Whether `c` has the Unicode `White_Space` property.
pub fn is_whitespace(c: char) -> (r: bool)
    ensures
        r == is_white_space(c),
{
    ('\u{9}' <= c && c <= '\u{d}') || c == ' ' || c == '\u{85}' || c == '\u{a0}' || c == '\u{1680}'
        || ('\u{2000}' <= c && c <= '\u{200a}') || c == '\u{2028}' || c == '\u{2029}'
        || c == '\u{202f}' || c == '\u{205f}' || c == '\u{3000}'
}

/// `s` without its leading white space.
pub open spec fn trim_start(s: Seq<char>) -> Seq<char>
    decreases s.len(),
{
    if s.len() > 0 && is_white_space(s[0]) {
        trim_start(s.drop_first())
    } else {
        s
    }
}

/// `s` without its trailing white space.
pub open spec fn trim_end(s: Seq<char>) -> Seq<char>
    decreases s.len(),
{
    if s.len() > 0 && is_white_space(s.last()) {
        trim_end(s.drop_last())
    } else {
        s
    }
}

/// `s` without leading and trailing white space, as `str::trim` gives it.
pub open spec fn trim(s: Seq<char>) -> Seq<char> {
    trim_end(trim_start(s))
}

/// Separators between the names of a default parameter list.
pub open spec fn is_param_separator(c: char) -> bool {
    c == '\n' || c == ',' || c == ';'
}

/// The fields of `s` between separators, as `str::split` gives them: one
/// more field than there are separators.
pub open spec fn split_fields(s: Seq<char>) -> Seq<Seq<char>>
    decreases s.len(),
{
    if s.len() == 0 {
        seq![Seq::empty()]
    } else {
        let rest = split_fields(s.drop_last());
        if is_param_separator(s.last()) {
            rest.push(Seq::empty())
        } else {
            rest.update(rest.len() - 1, rest.last().push(s.last()))
        }
    }
}

/// The trimmed fields that are not empty, in order.
pub open spec fn nonempty_trimmed(fields: Seq<Seq<char>>) -> Seq<Seq<char>>
    decreases fields.len(),
{
    if fields.len() == 0 {
        Seq::empty()
    } else {
        let rest = nonempty_trimmed(fields.drop_last());
        if trim(fields.last()).len() > 0 {
            rest.push(trim(fields.last()))
        } else {
            rest
        }
    }
}

/// The parameter names a default parameter list holds.
pub open spec fn default_parameter_names(input: Seq<char>) -> Seq<Seq<char>> {
    nonempty_trimmed(split_fields(input))
}

proof fn lemma_split_fields_nonempty(s: Seq<char>)
    ensures
        split_fields(s).len() >= 1,
    decreases s.len(),
{
    if s.len() > 0 {
        lemma_split_fields_nonempty(s.drop_last());
    }
}

/// `trim_start` drops exactly the first `k` characters when they are white
/// space and the next one is not.
proof fn lemma_trim_start_at(s: Seq<char>, k: int)
    requires
        0 <= k <= s.len(),
        forall|i: int| 0 <= i < k ==> is_white_space(#[trigger] s[i]),
        k < s.len() ==> !is_white_space(s[k]),
    ensures
        trim_start(s) == s.subrange(k, s.len() as int),
    decreases k,
{
    if k == 0 {
        assert(s.subrange(0, s.len() as int) =~= s);
    } else {
        let t = s.drop_first();
        assert forall|i: int| 0 <= i < k - 1 implies is_white_space(#[trigger] t[i]) by {
            assert(t[i] == s[i + 1]);
        }
        lemma_trim_start_at(t, k - 1);
        assert(t.subrange(k - 1, t.len() as int) =~= s.subrange(k, s.len() as int));
    }
}

/// `trim_end` keeps exactly the first `e` characters when the rest are white
/// space and the one before them is not.
proof fn lemma_trim_end_at(s: Seq<char>, e: int)
    requires
        0 <= e <= s.len(),
        forall|i: int| e <= i < s.len() ==> is_white_space(#[trigger] s[i]),
        e > 0 ==> !is_white_space(s[e - 1]),
    ensures
        trim_end(s) == s.subrange(0, e),
    decreases s.len() - e,
{
    if e == s.len() {
        assert(s.subrange(0, e) =~= s);
    } else {
        let t = s.drop_last();
        lemma_trim_end_at(t, e);
        assert(t.subrange(0, e) =~= s.subrange(0, e));
    }
}

/// The characters of `field` without leading and trailing white space.
fn trimmed(field: &Vec<char>) -> (r: String)
    ensures
        r@ == trim(field@),
{
    let n = field.len();
    let mut start: usize = 0;
    while start < n && is_whitespace(field[start])
        invariant
            n == field@.len(),
            start <= n,
            forall|i: int| 0 <= i < start ==> is_white_space(#[trigger] field@[i]),
        decreases n - start,
    {
        start += 1;
    }
    proof {
        lemma_trim_start_at(field@, start as int);
    }
    let mut end: usize = n;
    while end > start && is_whitespace(field[end - 1])
        invariant
            n == field@.len(),
            start <= end <= n,
            forall|i: int| end <= i < n ==> is_white_space(#[trigger] field@[i]),
        decreases end,
    {
        end -= 1;
    }
    proof {
        let rest = field@.subrange(start as int, n as int);
        assert forall|i: int| end - start <= i < rest.len() implies is_white_space(#[trigger] rest[i]) by {
            assert(rest[i] == field@[start + i]);
        }
        if end > start {
            assert(rest[end - start - 1] == field@[end - 1]);
        }
        lemma_trim_end_at(rest, end - start);
        assert(rest.subrange(0, end - start) =~= field@.subrange(start as int, end as int));
    }
    let mut r = String::new();
    let mut k = start;
    while k < end
        invariant
            n == field@.len(),
            start <= k <= end <= n,
            r@ == field@.subrange(start as int, k as int),
        decreases end - k,
    {
        push_char(&mut r, field[k]);
        assert(field@.subrange(start as int, k + 1) =~= field@.subrange(start as int, k as int).push(field@[k as int]));
        k += 1;
    }
    r
}

/// Whether `name` is a clean parameter name: not empty, without a
/// separator, and without white space at either end.
pub open spec fn is_clean_name(name: Seq<char>) -> bool {
    &&& name.len() > 0
    &&& !is_white_space(name[0])
    &&& !is_white_space(name.last())
    &&& forall|j: int| 0 <= j < name.len() ==> !is_param_separator(#[trigger] name[j])
}

proof fn lemma_split_fields_have_no_separator(s: Seq<char>)
    ensures
        forall|f: int, j: int|
            0 <= f < split_fields(s).len() && 0 <= j < split_fields(s)[f].len()
                ==> !is_param_separator(#[trigger] split_fields(s)[f][j]),
    decreases s.len(),
{
    if s.len() > 0 {
        lemma_split_fields_have_no_separator(s.drop_last());
        lemma_split_fields_nonempty(s.drop_last());
    }
}

proof fn lemma_trim_start_shape(s: Seq<char>)
    ensures
        exists|k: int| 0 <= k <= s.len() && trim_start(s) == s.subrange(k, s.len() as int),
        trim_start(s).len() > 0 ==> !is_white_space(trim_start(s)[0]),
    decreases s.len(),
{
    if s.len() > 0 && is_white_space(s[0]) {
        lemma_trim_start_shape(s.drop_first());
        let k = choose|k: int| 0 <= k <= s.drop_first().len() && trim_start(s.drop_first()) == s.drop_first().subrange(k, s.drop_first().len() as int);
        assert(s.drop_first().subrange(k, s.drop_first().len() as int) =~= s.subrange(k + 1, s.len() as int));
    } else {
        assert(s.subrange(0, s.len() as int) =~= s);
    }
}

proof fn lemma_trim_end_shape(s: Seq<char>)
    ensures
        exists|e: int| 0 <= e <= s.len() && trim_end(s) == s.subrange(0, e),
        trim_end(s).len() > 0 ==> !is_white_space(trim_end(s).last()),
        s.len() > 0 && !is_white_space(s[0]) ==> trim_end(s).len() > 0 && trim_end(s)[0] == s[0],
    decreases s.len(),
{
    if s.len() > 0 && is_white_space(s.last()) {
        lemma_trim_end_shape(s.drop_last());
        let e = choose|e: int| 0 <= e <= s.drop_last().len() && trim_end(s.drop_last()) == s.drop_last().subrange(0, e);
        assert(s.drop_last().subrange(0, e) =~= s.subrange(0, e));
    } else {
        assert(s.subrange(0, s.len() as int) =~= s);
    }
}

proof fn lemma_trim_clean(f: Seq<char>)
    requires
        forall|j: int| 0 <= j < f.len() ==> !is_param_separator(#[trigger] f[j]),
        trim(f).len() > 0,
    ensures
        is_clean_name(trim(f)),
{
    lemma_trim_start_shape(f);
    lemma_trim_end_shape(trim_start(f));
    let k = choose|k: int| 0 <= k <= f.len() && trim_start(f) == f.subrange(k, f.len() as int);
    let t = trim_start(f);
    let e = choose|e: int| 0 <= e <= t.len() && trim_end(t) == t.subrange(0, e);
    assert forall|j: int| 0 <= j < trim(f).len() implies !is_param_separator(#[trigger] trim(f)[j]) by {
        assert(trim(f)[j] == f[k + j]);
    }
}

proof fn lemma_nonempty_trimmed_clean(fields: Seq<Seq<char>>)
    requires
        forall|f: int, j: int| 0 <= f < fields.len() && 0 <= j < fields[f].len() ==> !is_param_separator(#[trigger] fields[f][j]),
    ensures
        forall|k: int| 0 <= k < nonempty_trimmed(fields).len() ==> is_clean_name(#[trigger] nonempty_trimmed(fields)[k]),
    decreases fields.len(),
{
    if fields.len() > 0 {
        let init = fields.drop_last();
        assert forall|f: int, j: int| 0 <= f < init.len() && 0 <= j < init[f].len() implies !is_param_separator(#[trigger] init[f][j]) by {
            assert(init[f] == fields[f]);
        }
        lemma_nonempty_trimmed_clean(init);
        let last = fields.last();
        if trim(last).len() > 0 {
            assert forall|j: int| 0 <= j < last.len() implies !is_param_separator(#[trigger] last[j]) by {
                assert(last[j] == fields[fields.len() - 1][j]);
            }
            lemma_trim_clean(last);
        }
        let rest = nonempty_trimmed(init);
        let all = nonempty_trimmed(fields);
        assert forall|k: int| 0 <= k < all.len() implies is_clean_name(#[trigger] all[k]) by {
            if k < rest.len() {
                assert(all[k] == rest[k]);
            }
        }
    }
}

/// Every name parsed from a default parameter list is clean: not empty, free
/// of separators, and trimmed.
pub proof fn lemma_default_parameter_names_clean(input: Seq<char>)
    ensures
        forall|k: int| 0 <= k < default_parameter_names(input).len() ==> is_clean_name(#[trigger] default_parameter_names(input)[k]),
{
    lemma_split_fields_have_no_separator(input);
    lemma_nonempty_trimmed_clean(split_fields(input));
}

/// `names` written one after another with `sep` between them, as
/// `join` writes them.
pub open spec fn joined(names: Seq<Seq<char>>, sep: char) -> Seq<char>
    decreases names.len(),
{
    if names.len() == 0 {
        Seq::empty()
    } else if names.len() == 1 {
        names[0]
    } else {
        joined(names.drop_last(), sep) + seq![sep] + names.last()
    }
}

proof fn lemma_split_fields_append(a: Seq<char>, b: Seq<char>)
    requires
        forall|j: int| 0 <= j < b.len() ==> !is_param_separator(#[trigger] b[j]),
    ensures
        split_fields(a + b) == split_fields(a).update(
            split_fields(a).len() - 1,
            split_fields(a).last() + b,
        ),
    decreases b.len(),
{
    lemma_split_fields_nonempty(a);
    if b.len() == 0 {
        assert(a + b =~= a);
        assert(split_fields(a).last() + b =~= split_fields(a).last());
        assert(split_fields(a).update(split_fields(a).len() - 1, split_fields(a).last()) =~= split_fields(a));
    } else {
        let b0 = b.drop_last();
        assert forall|j: int| 0 <= j < b0.len() implies !is_param_separator(#[trigger] b0[j]) by {
            assert(b0[j] == b[j]);
        }
        lemma_split_fields_append(a, b0);
        assert((a + b).drop_last() =~= a + b0);
        assert((a + b).last() == b.last());
        let fa = split_fields(a);
        let prev = fa.update(fa.len() - 1, fa.last() + b0);
        assert(prev.last() == fa.last() + b0);
        assert(prev.last().push(b.last()) =~= fa.last() + b);
        assert(prev.update(prev.len() - 1, prev.last().push(b.last())) =~= fa.update(fa.len() - 1, fa.last() + b));
    }
}

proof fn lemma_split_join(names: Seq<Seq<char>>, sep: char)
    requires
        is_param_separator(sep),
        names.len() > 0,
        forall|k: int, j: int| 0 <= k < names.len() && 0 <= j < names[k].len() ==> !is_param_separator(#[trigger] names[k][j]),
    ensures
        split_fields(joined(names, sep)) == names,
    decreases names.len(),
{
    if names.len() == 1 {
        lemma_split_fields_append(Seq::empty(), names[0]);
        assert(Seq::<char>::empty() + names[0] =~= names[0]);
        assert(split_fields(Seq::<char>::empty()).update(0, Seq::<char>::empty() + names[0]) =~= names);
    } else {
        let init = names.drop_last();
        assert forall|k: int, j: int| 0 <= k < init.len() && 0 <= j < init[k].len() implies !is_param_separator(#[trigger] init[k][j]) by {
            assert(init[k] == names[k]);
        }
        lemma_split_join(init, sep);
        let head = joined(init, sep) + seq![sep];
        assert(head.drop_last() =~= joined(init, sep));
        assert(split_fields(head) == init.push(Seq::empty()));
        let last = names.last();
        assert forall|j: int| 0 <= j < last.len() implies !is_param_separator(#[trigger] last[j]) by {
            assert(last[j] == names[names.len() - 1][j]);
        }
        lemma_split_fields_append(head, last);
        assert(Seq::<char>::empty() + last =~= last);
        assert(init.push(Seq::empty()).update(init.len() as int, Seq::<char>::empty() + last) =~= names);
    }
}

proof fn lemma_trim_clean_name(name: Seq<char>)
    requires
        is_clean_name(name),
    ensures
        trim(name) == name,
{
    assert(trim_start(name) == name);
    assert(trim_end(name) == name);
}

proof fn lemma_nonempty_trimmed_of_clean(names: Seq<Seq<char>>)
    requires
        forall|k: int| 0 <= k < names.len() ==> is_clean_name(#[trigger] names[k]),
    ensures
        nonempty_trimmed(names) == names,
    decreases names.len(),
{
    if names.len() > 0 {
        let init = names.drop_last();
        assert forall|k: int| 0 <= k < init.len() implies is_clean_name(#[trigger] init[k]) by {
            assert(init[k] == names[k]);
        }
        lemma_nonempty_trimmed_of_clean(init);
        assert(is_clean_name(names[names.len() - 1]));
        lemma_trim_clean_name(names.last());
        assert(init.push(names.last()) =~= names);
    }
}

/// Clean names joined by a separator (a newline, a comma or a semicolon)
/// parse back to the same names.
pub proof fn lemma_default_parameters_round_trip(names: Seq<Seq<char>>, sep: char)
    requires
        is_param_separator(sep),
        forall|k: int| 0 <= k < names.len() ==> is_clean_name(#[trigger] names[k]),
    ensures
        default_parameter_names(joined(names, sep)) == names,
{
    if names.len() == 0 {
        assert(split_fields(Seq::<char>::empty()) =~= seq![Seq::<char>::empty()]);
        assert(trim(Seq::<char>::empty()) =~= Seq::<char>::empty());
        assert(seq![Seq::<char>::empty()].drop_last() =~= Seq::<Seq<char>>::empty());
        assert(nonempty_trimmed(Seq::<Seq<char>>::empty()).len() == 0);
        assert(seq![Seq::<char>::empty()].last() == Seq::<char>::empty());
        assert(trim(seq![Seq::<char>::empty()].last()).len() == 0);
        assert(nonempty_trimmed(seq![Seq::<char>::empty()]).len() == 0);
        assert(default_parameter_names(joined(names, sep)) =~= names);
    } else {
        assert forall|k: int, j: int| 0 <= k < names.len() && 0 <= j < names[k].len() implies !is_param_separator(#[trigger] names[k][j]) by {
            assert(is_clean_name(names[k]));
        }
        lemma_split_join(names, sep);
        lemma_nonempty_trimmed_of_clean(names);
    }
}

/// Split a user-entered list of default parameter names at newlines, commas
/// and semicolons, trim each name and drop the empty ones.
pub fn parse_default_parameters(input: &str) -> (names: Vec<String>)
    ensures
        names@.map_values(|name: String| name@) == default_parameter_names(input@),
{
    let mut names: Vec<String> = Vec::new();
    let mut field: Vec<char> = Vec::new();
    let ghost mut seen: Seq<char> = Seq::empty();
    for c in it: input.chars()
        invariant
            it.seq() == input@,
            seen == it.seq().subrange(0, it.index()),
            split_fields(seen).len() >= 1,
            field@ == split_fields(seen).last(),
            names@.map_values(|name: String| name@) == nonempty_trimmed(split_fields(seen).drop_last()),
    {
        let ghost prev = seen;
        proof {
            seen = seen.push(c);
            assert(seen =~= it.seq().subrange(0, it.index() + 1));
            assert(seen.drop_last() =~= prev);
            lemma_split_fields_nonempty(seen);
        }
        if c == '\n' || c == ',' || c == ';' {
            let name = trimmed(&field);
            let ghost before = names@;
            if !name.as_str().is_empty() {
                names.push(name);
                assert(names@.map_values(|name: String| name@) =~= before.map_values(|name: String| name@).push(name@));
            }
            assert(split_fields(seen).drop_last() =~= split_fields(prev));
            assert(split_fields(prev).drop_last() =~= split_fields(prev).drop_last());
            field = Vec::new();
        } else {
            field.push(c);
            assert(split_fields(seen).drop_last() =~= split_fields(prev).drop_last());
        }
    }
    proof {
        assert(seen =~= input@);
    }
    let name = trimmed(&field);
    let ghost before = names@;
    if !name.as_str().is_empty() {
        names.push(name);
        assert(names@.map_values(|name: String| name@) =~= before.map_values(|name: String| name@).push(name@));
    }
    assert(split_fields(seen).drop_last() =~= split_fields(seen).subrange(0, split_fields(seen).len() - 1));
    names
}

/// Truncate `s` to at most `max_len` bytes, replacing the cut tail by an
/// ellipsis: a string longer than `max_len` bytes keeps its first
/// `max_len - 1` bytes followed by `…`.
pub fn truncate_label(s: &str, max_len: usize) -> (r: String)
    requires
        s.len() > max_len ==> 1 <= max_len && is_char_boundary(
            s.spec_bytes(),
            max_len - 1,
        ),
    ensures
        r@ == (if s.len() <= max_len {
            s@
        } else {
            decode_utf8(s.spec_bytes().subrange(0, max_len - 1)) + seq!['\u{2026}']
        }),
{
    if s.len() <= max_len {
        s.to_owned()
    } else {
        let (head, _) = s.split_at(max_len - 1);
        let mut r = head.to_owned();
        let ellipsis = "\u{2026}";
        proof {
            reveal_strlit("\u{2026}");
            vstd::utf8::encode_utf8_decode_utf8(head@);
        }
        r.append(ellipsis);
        r
    }
}

/// The decimal digits of `n`, most significant first, without leading zeros.
pub open spec fn decimal(n: nat) -> Seq<char>
    decreases n,
{
    if n < 10 {
        seq![(48 + n) as char]
    } else {
        decimal(n / 10).push((48 + n % 10) as char)
    }
}

/// `n` written in decimal, as `usize`'s `Display` writes it.
pub fn decimal_string(n: usize) -> (r: String)
    ensures
        r@ == decimal(n as nat),
    decreases n,
{
    let digit = ((n % 10) as u8 + 48u8) as char;
    if n < 10 {
        let mut r = String::new();
        push_char(&mut r, digit);
        r
    } else {
        let mut r = decimal_string(n / 10);
        push_char(&mut r, digit);
        r
    }
}

/// The characters of `s`, in order.
pub fn chars_of(s: &str) -> (r: Vec<char>)
    ensures
        r@ == s@,
{
    let mut r: Vec<char> = Vec::new();
    for c in it: s.chars()
        invariant
            it.seq() == s@,
            r@ == it.seq().subrange(0, it.index()),
    {
        r.push(c);
        assert(r@ =~= it.seq().subrange(0, it.index() + 1));
    }
    assert(r@ =~= s@);
    r
}

/// `c` with ASCII upper-case letters mapped to lower case.
pub open spec fn ascii_lower(c: char) -> char {
    if 'A' <= c <= 'Z' {
        ((c as u32) + 32) as char
    } else {
        c
    }
}

/// Whether `a` and `b` are equal up to ASCII letter case.
pub open spec fn equal_ignoring_ascii_case(a: Seq<char>, b: Seq<char>) -> bool {
    a.len() == b.len() && forall|i: int| 0 <= i < a.len() ==> ascii_lower(a[i]) == ascii_lower(b[i])
}

fn ascii_lower_char(c: char) -> (r: char)
    ensures
        r == ascii_lower(c),
{
    if 'A' <= c && c <= 'Z' {
        ((c as u8) + 32) as char
    } else {
        c
    }
}

/// Whether `a` and `b` are equal up to ASCII letter case, as
/// `str::eq_ignore_ascii_case` decides it.
pub fn eq_ignore_ascii_case(a: &str, b: &str) -> (r: bool)
    ensures
        r == equal_ignoring_ascii_case(a@, b@),
{
    let ac = chars_of(a);
    let bc = chars_of(b);
    if ac.len() != bc.len() {
        return false;
    }
    let mut i: usize = 0;
    while i < ac.len()
        invariant
            ac@ == a@,
            bc@ == b@,
            ac.len() == bc.len(),
            i <= ac.len(),
            forall|j: int| 0 <= j < i ==> ascii_lower(a@[j]) == ascii_lower(b@[j]),
        decreases ac.len() - i,
    {
        if ascii_lower_char(ac[i]) != ascii_lower_char(bc[i]) {
            return false;
        }
        i += 1;
    }
    true
}

/// Whether `pattern` occurs in `s` as a run of consecutive characters.
pub open spec fn contains_seq(s: Seq<char>, pattern: Seq<char>) -> bool {
    exists|i: int| 0 <= i && i + pattern.len() <= s.len() && #[trigger] s.subrange(i, i + pattern.len()) == pattern
}

/// Whether `pattern` occurs in `s`, as `str::contains` decides it for a
/// string pattern.
pub fn contains_str(s: &str, pattern: &str) -> (r: bool)
    ensures
        r == contains_seq(s@, pattern@),
{
    let sc = chars_of(s);
    let pc = chars_of(pattern);
    if pc.len() > sc.len() {
        proof {
            assert forall|i: int| 0 <= i && i + pattern@.len() <= s@.len() implies #[trigger] s@.subrange(i, i + pattern@.len()) != pattern@ by {}
        }
        return false;
    }
    let last = sc.len() - pc.len();
    let mut i: usize = 0;
    while i <= last
        invariant
            sc@ == s@,
            pc@ == pattern@,
            last == sc.len() - pc.len(),
            i <= last + 1,
            forall|k: int| 0 <= k < i ==> #[trigger] s@.subrange(k, k + pattern@.len()) != pattern@,
        decreases last + 1 - i,
    {
        let mut j: usize = 0;
        while j < pc.len() && sc[i + j] == pc[j]
            invariant
                sc@ == s@,
                pc@ == pattern@,
                i <= last,
                last == sc.len() - pc.len(),
                j <= pc.len(),
                forall|m: int| 0 <= m < j ==> s@[i + m] == pattern@[m],
            decreases pc.len() - j,
        {
            j += 1;
        }
        if j == pc.len() {
            assert(s@.subrange(i as int, i + pattern@.len()) =~= pattern@);
            return true;
        }
        assert(s@.subrange(i as int, i + pattern@.len())[j as int] != pattern@[j as int]);
        i += 1;
    }
    false
}

/// The width in pixels of `text` drawn with the export font at `scale`: six
/// pixel columns per character, the character count taken as a `u32`.
pub fn text_width(text: &str, scale: u32) -> (w: u32)
    requires
        (text@.len() as u32) * 6 <= u32::MAX,
        (text@.len() as u32) * 6 * scale <= u32::MAX,
    ensures
        w == (text@.len() as u32) * 6 * scale,
{
    let n = text.unicode_len();
    let count = n as u32;
    count * 6 * scale
}

/// The lower-case form of `s` that `str::to_lowercase` gives (full Unicode
/// case mapping).
pub uninterp spec fn lowercase(s: Seq<char>) -> Seq<char>;

/// `str::to_lowercase`: the lower-case form of `s`, which depends on `s`
/// alone.
#[verifier::external_body]
fn to_lowercase(s: &str) -> (r: String)
    ensures
        r@ == lowercase(s@),
{
    s.to_lowercase()
}

/// Whether an option named `name` passes a search whose lower-cased query is
/// `filter`: every option passes an empty query, otherwise its lower-cased
/// name must contain the query.
pub open spec fn option_passes(name: Seq<char>, filter: Seq<char>) -> bool {
    filter.len() == 0 || contains_seq(lowercase(name), filter)
}

/// Whether a name that reads `lowered_name` once lower-cased passes a search
/// whose lower-cased query is `filter`: any name passes an empty query,
/// otherwise the name must contain the query.
pub fn name_passes_filter(lowered_name: &str, filter: &str) -> (r: bool)
    ensures
        r == (filter@.len() == 0 || contains_seq(lowered_name@, filter@)),
{
    filter.is_empty() || contains_str(lowered_name, filter)
}

/// The indices of the options that pass a search with lower-cased query
/// `filter`, in the order of the options.
pub open spec fn passing_options(options: Seq<(usize, String)>, filter: Seq<char>) -> Seq<usize>
    decreases options.len(),
{
    if options.len() == 0 {
        Seq::empty()
    } else {
        let rest = passing_options(options.drop_last(), filter);
        if option_passes(options.last().1@, filter) {
            rest.push(options.last().0)
        } else {
            rest
        }
    }
}

/// The options a searchable drop-down lists for `search_query`: those whose
/// name contains the query, both lower-cased; all of them for an empty query.
pub fn matching_options(search_query: &str, options: &[(usize, String)]) -> (matches: Vec<usize>)
    ensures
        matches@ == passing_options(options@, lowercase(search_query@)),
{
    let filter = to_lowercase(search_query);
    let mut matches: Vec<usize> = Vec::new();
    let mut i: usize = 0;
    while i < options.len()
        invariant
            filter@ == lowercase(search_query@),
            i <= options.len(),
            matches@ == passing_options(options@.subrange(0, i as int), filter@),
        decreases options.len() - i,
    {
        let (idx, name) = &options[i];
        let lowered = to_lowercase(name.as_str());
        let pass = name_passes_filter(lowered.as_str(), filter.as_str());
        assert(options@.subrange(0, i + 1).drop_last() =~= options@.subrange(0, i as int));
        if pass {
            matches.push(*idx);
        }
        i += 1;
    }
    assert(options@.subrange(0, options.len() as int) =~= options@);
    matches
}

/// Whether an entry with texts `fields` is listed for a search with
/// lower-cased query `filter`: every entry is listed for an empty query,
/// otherwise one of its lower-cased texts must contain the query.
pub open spec fn entry_passes(fields: Seq<&str>, filter: Seq<char>) -> bool {
    filter.len() == 0 || exists|i: int| 0 <= i < fields.len() && contains_seq(lowercase(#[trigger] fields[i]@), filter)
}

/// An entry is listed for a non-empty query exactly when one of its texts,
/// whichever position it has among them, holds the query once lower-cased;
/// every entry is listed for an empty query.
pub proof fn lemma_search_finds_every_field(fields: Seq<&str>, query: Seq<char>)
    ensures
        query.len() == 0 ==> entry_passes(fields, query),
        forall|i: int, at: int|
            0 <= i < fields.len() && 0 <= at && at + query.len() <= lowercase(fields[i]@).len()
                && #[trigger] lowercase(fields[i]@).subrange(at, at + query.len()) == query
                ==> entry_passes(fields, query),
        entry_passes(fields, query) ==> query.len() == 0 || exists|i: int, at: int|
            0 <= i < fields.len() && 0 <= at && at + query.len() <= lowercase(fields[i]@).len()
                && #[trigger] lowercase(fields[i]@).subrange(at, at + query.len()) == query,
{
    assert forall|i: int, at: int|
        0 <= i < fields.len() && 0 <= at && at + query.len() <= lowercase(fields[i]@).len()
            && #[trigger] lowercase(fields[i]@).subrange(at, at + query.len()) == query
        implies entry_passes(fields, query) by {
        assert(contains_seq(lowercase(fields[i]@), query));
    }
    if entry_passes(fields, query) && query.len() > 0 {
        let i = choose|i: int| 0 <= i < fields.len() && contains_seq(lowercase(#[trigger] fields[i]@), query);
        let at = choose|at: int| 0 <= at && at + query.len() <= lowercase(fields[i]@).len()
            && #[trigger] lowercase(fields[i]@).subrange(at, at + query.len()) == query;
        assert(lowercase(fields[i]@).subrange(at, at + query.len()) == query);
    }
}

/// Whether an entry with texts `fields` (a channel's raw and display names,
/// or a template's name, formula and category) is listed for `search`.
pub fn matches_search(fields: &[&str], search: &str) -> (r: bool)
    ensures
        r == entry_passes(fields@, lowercase(search@)),
        lowercase(search@).len() == 0 ==> r,
        forall|i: int, at: int|
            0 <= i < fields.len() && 0 <= at && at + lowercase(search@).len() <= lowercase(fields@[i]@).len()
                && #[trigger] lowercase(fields@[i]@).subrange(at, at + lowercase(search@).len()) == lowercase(search@)
                ==> r,
        r ==> lowercase(search@).len() == 0 || exists|i: int, at: int|
            0 <= i < fields.len() && 0 <= at && at + lowercase(search@).len() <= lowercase(fields@[i]@).len()
                && #[trigger] lowercase(fields@[i]@).subrange(at, at + lowercase(search@).len()) == lowercase(search@),
{
    proof {
        lemma_search_finds_every_field(fields@, lowercase(search@));
    }
    let filter = to_lowercase(search);
    if filter.as_str().is_empty() {
        return true;
    }
    let mut i: usize = 0;
    while i < fields.len()
        invariant
            filter@ == lowercase(search@),
            filter@.len() > 0,
            i <= fields.len(),
            forall|j: int| 0 <= j < i ==> !contains_seq(lowercase(#[trigger] fields@[j]@), filter@),
        decreases fields.len() - i,
    {
        let lowered = to_lowercase(fields[i]);
        if name_passes_filter(lowered.as_str(), filter.as_str()) {
            return true;
        }
        i += 1;
    }
    false
}

/// Truncating an ASCII label longer than `max_len` keeps its first
/// `max_len - 1` characters and adds the ellipsis, so it is `max_len`
/// characters long.
pub proof fn lemma_truncate_ascii(s: Seq<char>, max_len: int)
    requires
        is_ascii_chars(s),
        1 <= max_len < s.len(),
    ensures
        decode_utf8(encode_utf8(s).subrange(0, max_len - 1)) + seq!['\u{2026}'] == s.subrange(0, max_len - 1).push('\u{2026}'),
        (s.subrange(0, max_len - 1).push('\u{2026}')).len() == max_len,
{
    let prefix = s.subrange(0, max_len - 1);
    assert(is_ascii_chars(prefix));
    vstd::utf8::is_ascii_chars_encode_utf8(s);
    vstd::utf8::is_ascii_chars_encode_utf8(prefix);
    assert(encode_utf8(s).subrange(0, max_len - 1) =~= encode_utf8(prefix));
    vstd::utf8::encode_utf8_decode_utf8(prefix);
    assert(prefix + seq!['\u{2026}'] =~= prefix.push('\u{2026}'));
}

/// Equality up to ASCII case is an equivalence: reflexive, symmetric and
/// transitive.
pub proof fn lemma_ignore_ascii_case_equivalence(a: Seq<char>, b: Seq<char>, c: Seq<char>)
    ensures
        equal_ignoring_ascii_case(a, a),
        equal_ignoring_ascii_case(a, b) ==> equal_ignoring_ascii_case(b, a),
        equal_ignoring_ascii_case(a, b) && equal_ignoring_ascii_case(b, c) ==> equal_ignoring_ascii_case(a, c),
{
}

/// An empty search lists every option, in order.
pub proof fn lemma_empty_search_lists_all(options: Seq<(usize, String)>)
    ensures
        passing_options(options, Seq::empty()) == options.map_values(|o: (usize, String)| o.0),
    decreases options.len(),
{
    if options.len() > 0 {
        lemma_empty_search_lists_all(options.drop_last());
        assert(options.map_values(|o: (usize, String)| o.0) =~= options.drop_last().map_values(|o: (usize, String)| o.0).push(options.last().0));
    } else {
        assert(options.map_values(|o: (usize, String)| o.0) =~= Seq::<usize>::empty());
    }
}

/// How the formula editor inserts a channel name into a formula: in double
/// quotes when the name holds a space, as it is otherwise.
pub open spec fn channel_reference_text(name: Seq<char>) -> Seq<char> {
    if name.contains(' ') {
        seq!['"'] + name + seq!['"']
    } else {
        name
    }
}

/// The text the formula editor inserts for channel `name`.
pub fn channel_reference(name: &String) -> (r: String)
    ensures
        r@ == channel_reference_text(name@),
{
    let chars = chars_of(name.as_str());
    let mut has_space = false;
    let mut i: usize = 0;
    while i < chars.len()
        invariant
            chars@ == name@,
            i <= chars.len(),
            has_space <==> exists|j: int| 0 <= j < i && chars@[j] == ' ',
        decreases chars.len() - i,
    {
        if chars[i] == ' ' {
            has_space = true;
        }
        i += 1;
    }
    if has_space {
        let mut r = String::new();
        push_char(&mut r, '"');
        r.append(name.as_str());
        push_char(&mut r, '"');
        assert(r@ =~= seq!['"'] + name@ + seq!['"']);
        r
    } else {
        name.clone()
    }
}

} // verus!
