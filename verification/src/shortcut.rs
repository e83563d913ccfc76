//! The text shortcut syntax for IID messages.
//!
//! After trimming white space (and collapsing double spaces), a shortcut is
//! one of:
//! - `i:<int>`: an integer;
//! - `ii:<index>,<int>`: an index and an integer;
//! - `iid:<index>,<int>,<delay ms>`: an index, an integer and a delay;
//! - one, two or three white-space separated numbers, read the same way.
//!
//! Numbers are `i32`, the delay is `i64`, written as `str::parse` reads them.
use crate::text::{
    all_white_space, char_views, collapse_double_spaces, collapse_double_spaces_chars,
    decimal_text, has_prefix, is_white_space, lacks, lemma_collapse_without_double_space,
    lemma_decimal_text_characters, lemma_parse_i32_reads_decimal_text,
    lemma_parse_i64_reads_decimal_text, lemma_split_after_separator,
    lemma_split_without_separator, lemma_trim_idempotent, lemma_trim_ignores_padding,
    lemma_trim_of_unpadded, lemma_words_after_white_space, lemma_words_of_word, no_double_space,
    no_white_space, parse_i32_chars, parse_i32_spec, parse_i64_chars, parse_i64_spec,
    split_chars, split_on, starts_with_chars, str_to_chars, sub_chars, trim, trim_chars, words,
    words_chars,
};
use vstd::prelude::*;

verus! {

/// An IID message written as text.
#[derive(Debug, Clone, Copy, PartialEq, Eq, Structural)]
pub enum Shortcut {
    /// An integer alone.
    Integer(i32),
    /// An index and an integer.
    IndexInteger(i32, i32),
    /// An index, an integer and a delay in milliseconds from now.
    IndexIntegerDelay(i32, i32, i64),
}

/// The text that the shortcut syntax reads: trimmed, with double spaces
/// collapsed.
pub open spec fn normalized(text: Seq<char>) -> Seq<char> {
    collapse_double_spaces(trim(text))
}

/// The shortcut of two `i32` fields, if both parse.
pub open spec fn index_integer_of(a: Seq<char>, b: Seq<char>) -> Option<Shortcut> {
    match (parse_i32_spec(a), parse_i32_spec(b)) {
        (Some(index), Some(value)) => Some(Shortcut::IndexInteger(index, value)),
        _ => None,
    }
}

/// The shortcut of two `i32` fields and an `i64` field, if all three parse.
pub open spec fn index_integer_delay_of(a: Seq<char>, b: Seq<char>, c: Seq<char>) -> Option<
    Shortcut,
> {
    match (parse_i32_spec(a), parse_i32_spec(b), parse_i64_spec(c)) {
        (Some(index), Some(value), Some(delay)) => Some(
            Shortcut::IndexIntegerDelay(index, value, delay),
        ),
        _ => None,
    }
}

/// The shortcut of one `i32` field, if it parses.
pub open spec fn integer_of(a: Seq<char>) -> Option<Shortcut> {
    match parse_i32_spec(a) {
        Some(value) => Some(Shortcut::Integer(value)),
        None => None,
    }
}

/// The shortcut of comma-separated fields after a prefix: two `i32`s when
/// `delayed` is false, two `i32`s and an `i64` when it is true.
pub open spec fn fields_of(fields: Seq<Seq<char>>, delayed: bool) -> Option<Shortcut> {
    if !delayed && fields.len() == 2 {
        index_integer_of(fields[0], fields[1])
    } else if delayed && fields.len() == 3 {
        index_integer_delay_of(fields[0], fields[1], fields[2])
    } else {
        None
    }
}

/// The shortcut that `text` spells, if any.
pub open spec fn shortcut_of(text: Seq<char>) -> Option<Shortcut> {
    let t = normalized(text);
    if has_prefix(t, seq!['i', ':']) {
        integer_of(t.skip(2))
    } else if has_prefix(t, seq!['i', 'i', ':']) {
        fields_of(split_on(t.skip(3), ','), false)
    } else if has_prefix(t, seq!['i', 'i', 'd', ':']) {
        fields_of(split_on(t.skip(4), ','), true)
    } else {
        let w = words(t);
        if w.len() == 1 {
            integer_of(w[0])
        } else if w.len() == 2 {
            index_integer_of(w[0], w[1])
        } else if w.len() == 3 {
            index_integer_delay_of(w[0], w[1], w[2])
        } else {
            None
        }
    }
}

/// The shortcut of fields, parsed.
fn parse_fields(fields: &Vec<Vec<char>>, delayed: bool) -> (r: Option<Shortcut>)
    ensures
        r == fields_of(char_views(fields@), delayed),
{
    let ghost views = char_views(fields@);
    if !delayed && fields.len() == 2 {
        assert(views[0] == fields@[0]@ && views[1] == fields@[1]@);
        let index = parse_i32_chars(&fields[0]);
        let value = parse_i32_chars(&fields[1]);
        match (index, value) {
            (Some(index), Some(value)) => Some(Shortcut::IndexInteger(index, value)),
            _ => None,
        }
    } else if delayed && fields.len() == 3 {
        assert(views[0] == fields@[0]@ && views[1] == fields@[1]@ && views[2] == fields@[2]@);
        let index = parse_i32_chars(&fields[0]);
        let value = parse_i32_chars(&fields[1]);
        let delay = parse_i64_chars(&fields[2]);
        match (index, value, delay) {
            (Some(index), Some(value), Some(delay)) => Some(
                Shortcut::IndexIntegerDelay(index, value, delay),
            ),
            _ => None,
        }
    } else {
        None
    }
}

/// Reads the shortcut that `text` spells; `None` where it spells none.
pub fn parse_shortcut(text: &str) -> (r: Option<Shortcut>)
    ensures
        r == shortcut_of(text@),
{
    let chars = str_to_chars(text);
    let trimmed = trim_chars(&chars);
    let t = collapse_double_spaces_chars(&trimmed);
    let n = t.len();
    let integer_prefix = vec!['i', ':'];
    let index_integer_prefix = vec!['i', 'i', ':'];
    let index_integer_date_prefix = vec!['i', 'i', 'd', ':'];
    assert(integer_prefix@ =~= seq!['i', ':']);
    assert(index_integer_prefix@ =~= seq!['i', 'i', ':']);
    assert(index_integer_date_prefix@ =~= seq!['i', 'i', 'd', ':']);
    if starts_with_chars(&t, &integer_prefix) {
        let rest = sub_chars(&t, 2, n);
        assert(rest@ =~= t@.skip(2));
        match parse_i32_chars(&rest) {
            Some(value) => Some(Shortcut::Integer(value)),
            None => None,
        }
    } else if starts_with_chars(&t, &index_integer_prefix) {
        let rest = sub_chars(&t, 3, n);
        assert(rest@ =~= t@.skip(3));
        let fields = split_chars(&rest, ',');
        parse_fields(&fields, false)
    } else if starts_with_chars(&t, &index_integer_date_prefix) {
        let rest = sub_chars(&t, 4, n);
        assert(rest@ =~= t@.skip(4));
        let fields = split_chars(&rest, ',');
        parse_fields(&fields, true)
    } else {
        let w = words_chars(&t);
        let ghost views = char_views(w@);
        if w.len() == 1 {
            assert(views[0] == w@[0]@);
            match parse_i32_chars(&w[0]) {
                Some(value) => Some(Shortcut::Integer(value)),
                None => None,
            }
        } else if w.len() == 2 {
            assert(views[0] == w@[0]@ && views[1] == w@[1]@);
            let index = parse_i32_chars(&w[0]);
            let value = parse_i32_chars(&w[1]);
            match (index, value) {
                (Some(index), Some(value)) => Some(Shortcut::IndexInteger(index, value)),
                _ => None,
            }
        } else if w.len() == 3 {
            assert(views[0] == w@[0]@ && views[1] == w@[1]@ && views[2] == w@[2]@);
            let index = parse_i32_chars(&w[0]);
            let value = parse_i32_chars(&w[1]);
            let delay = parse_i64_chars(&w[2]);
            match (index, value, delay) {
                (Some(index), Some(value), Some(delay)) => Some(
                    Shortcut::IndexIntegerDelay(index, value, delay),
                ),
                _ => None,
            }
        } else {
            None
        }
    }
}

/// White space around a shortcut does not change what it spells.
pub proof fn lemma_shortcut_ignores_padding(before: Seq<char>, text: Seq<char>, after: Seq<char>)
    requires
        all_white_space(before),
        all_white_space(after),
    ensures
        shortcut_of(before + text + after) == shortcut_of(text),
{
    lemma_trim_ignores_padding(before, text, after);
}

/// Trimming a text first does not change what it spells.
pub proof fn lemma_shortcut_of_trimmed(text: Seq<char>)
    ensures
        shortcut_of(trim(text)) == shortcut_of(text),
{
    lemma_trim_idempotent(text);
}

/// The decimal text of an integer is a nonempty token of digits (after an
/// optional `-`): no white space, no comma, and it does not begin with `i`.
proof fn lemma_decimal_token(v: int)
    ensures
        decimal_text(v).len() >= 1,
        no_white_space(decimal_text(v)),
        lacks(decimal_text(v), ','),
        decimal_text(v)[0] != 'i',
{
    lemma_decimal_text_characters(v);
    let t = decimal_text(v);
    assert forall|k: int| 0 <= k < t.len() implies !is_white_space(#[trigger] t[k]) by {
        assert(is_decimal_digit_or_minus(t[k]));
    }
    assert forall|k: int| 0 <= k < t.len() implies #[trigger] t[k] != ',' by {
        assert(is_decimal_digit_or_minus(t[k]));
    }
    assert(is_decimal_digit_or_minus(t[0]));
}

/// Whether `c` is an ASCII digit or `-`.
spec fn is_decimal_digit_or_minus(c: char) -> bool {
    ('0' <= c && c <= '9') || c == '-'
}

/// A text without white space, that is not empty, reads as itself.
proof fn lemma_normalized_of_token(t: Seq<char>)
    requires
        t.len() >= 1,
        no_white_space(t),
    ensures
        normalized(t) == t,
{
    assert(!is_white_space(t[0]) && !is_white_space(t[t.len() - 1]));
    lemma_trim_of_unpadded(t);
    assert(no_double_space(t)) by {
        assert forall|k: int| 0 <= k < t.len() - 1 implies !(#[trigger] t[k] == ' ' && t[k + 1]
            == ' ') by {
            assert(!is_white_space(t[k]));
        }
    }
    lemma_collapse_without_double_space(t);
}

/// Whether `t` begins with neither `i:`, `ii:` nor `iid:`.
spec fn unprefixed(t: Seq<char>) -> bool {
    &&& !has_prefix(t, seq!['i', ':'])
    &&& !has_prefix(t, seq!['i', 'i', ':'])
    &&& !has_prefix(t, seq!['i', 'i', 'd', ':'])
}

/// A text whose first character is not `i` has no shortcut prefix.
proof fn lemma_unprefixed(t: Seq<char>)
    requires
        t.len() >= 1,
        t[0] != 'i',
    ensures
        unprefixed(t),
{
    if t.len() >= 2 {
        assert(t.take(2)[0] == t[0]);
        assert(seq!['i', ':'][0] == 'i');
    }
    if t.len() >= 3 {
        assert(t.take(3)[0] == t[0]);
        assert(seq!['i', 'i', ':'][0] == 'i');
    }
    if t.len() >= 4 {
        assert(t.take(4)[0] == t[0]);
        assert(seq!['i', 'i', 'd', ':'][0] == 'i');
    }
}

/// The decimal text of an integer spells that integer, alone or after
/// `i:`.
pub proof fn lemma_integer_text_spells_integer(a: i32)
    ensures
        shortcut_of(decimal_text(a as int)) == Some(Shortcut::Integer(a)),
        shortcut_of(seq!['i', ':'] + decimal_text(a as int)) == Some(Shortcut::Integer(a)),
{
    let ta = decimal_text(a as int);
    lemma_decimal_token(a as int);
    lemma_parse_i32_reads_decimal_text(a);
    lemma_normalized_of_token(ta);
    lemma_unprefixed(ta);
    lemma_words_of_word(ta);

    let t = seq!['i', ':'] + ta;
    assert(no_white_space(t)) by {
        assert forall|k: int| 0 <= k < t.len() implies !is_white_space(#[trigger] t[k]) by {
            if k >= 2 {
                assert(t[k] == ta[k - 2]);
            }
        }
    }
    lemma_normalized_of_token(t);
    assert(t.take(2) =~= seq!['i', ':']);
    assert(t.skip(2) =~= ta);
}

/// A nonempty text without white space has white space at neither end and
/// no double space.
proof fn lemma_token_shape(t: Seq<char>)
    requires
        t.len() >= 1,
        no_white_space(t),
    ensures
        !is_white_space(t[0]),
        !is_white_space(t.last()),
        no_double_space(t),
{
    assert(!is_white_space(t[0]) && !is_white_space(t[t.len() - 1]));
    assert forall|k: int| 0 <= k < t.len() - 1 implies !(#[trigger] t[k] == ' ' && t[k + 1]
        == ' ') by {
        assert(!is_white_space(t[k]));
    }
}

/// Joining a text and a token with one space: the result has white space at
/// neither end, no double space, and the token as its last word.
proof fn lemma_spaced(x: Seq<char>, y: Seq<char>)
    requires
        x.len() >= 1,
        !is_white_space(x[0]),
        !is_white_space(x.last()),
        no_double_space(x),
        y.len() >= 1,
        no_white_space(y),
    ensures
        (x + seq![' '] + y).len() >= 1,
        !is_white_space((x + seq![' '] + y)[0]),
        !is_white_space((x + seq![' '] + y).last()),
        no_double_space(x + seq![' '] + y),
        words(x + seq![' '] + y) == words(x).push(y),
{
    let t = x + seq![' '] + y;
    lemma_token_shape(y);
    assert(t[0] == x[0]);
    assert(t.last() == y[y.len() - 1]);
    assert forall|k: int| 0 <= k < t.len() - 1 implies !(#[trigger] t[k] == ' ' && t[k + 1]
        == ' ') by {
        if k < x.len() - 1 {
            assert(t[k] == x[k] && t[k + 1] == x[k + 1]);
        } else if k == x.len() - 1 {
            assert(t[k] == x.last());
        } else if k == x.len() {
            assert(t[k + 1] == y[0]);
        } else {
            assert(t[k] == y[k - x.len() - 1]);
            assert(!is_white_space(y[k - x.len() - 1]));
        }
    }
    lemma_words_after_white_space(x, ' ', y);
}

/// A nonempty text with white space at neither end and no double space
/// reads as itself.
proof fn lemma_normalized_of_shaped(t: Seq<char>)
    requires
        t.len() >= 1,
        !is_white_space(t[0]),
        !is_white_space(t.last()),
        no_double_space(t),
    ensures
        normalized(t) == t,
{
    lemma_trim_of_unpadded(t);
    lemma_collapse_without_double_space(t);
}

/// The decimal texts of an index and an integer spell them, separated by
/// a space.
pub proof fn lemma_index_integer_words_spell_index_integer(a: i32, b: i32)
    ensures
        shortcut_of(decimal_text(a as int) + seq![' '] + decimal_text(b as int)) == Some(
            Shortcut::IndexInteger(a, b),
        ),
{
    let ta = decimal_text(a as int);
    let tb = decimal_text(b as int);
    lemma_decimal_token(a as int);
    lemma_decimal_token(b as int);
    lemma_parse_i32_reads_decimal_text(a);
    lemma_parse_i32_reads_decimal_text(b);
    lemma_token_shape(ta);
    lemma_spaced(ta, tb);
    let t = ta + seq![' '] + tb;
    lemma_normalized_of_shaped(t);
    assert(t[0] == ta[0]);
    lemma_unprefixed(t);
    lemma_words_of_word(ta);
    assert(seq![ta].push(tb) =~= seq![ta, tb]);
}

/// The decimal texts of an index and an integer spell them after `ii:`,
/// separated by a comma.
pub proof fn lemma_index_integer_fields_spell_index_integer(a: i32, b: i32)
    ensures
        shortcut_of(seq!['i', 'i', ':'] + decimal_text(a as int) + seq![','] + decimal_text(
            b as int,
        )) == Some(Shortcut::IndexInteger(a, b)),
{
    let ta = decimal_text(a as int);
    let tb = decimal_text(b as int);
    lemma_decimal_token(a as int);
    lemma_decimal_token(b as int);
    lemma_parse_i32_reads_decimal_text(a);
    lemma_parse_i32_reads_decimal_text(b);
    let u = seq!['i', 'i', ':'] + ta + seq![','] + tb;
    assert(no_white_space(u)) by {
        assert forall|k: int| 0 <= k < u.len() implies !is_white_space(#[trigger] u[k]) by {
            if 3 <= k < 3 + ta.len() {
                assert(u[k] == ta[k - 3]);
            } else if k > 3 + ta.len() {
                assert(u[k] == tb[k - 4 - ta.len()]);
            }
        }
    }
    lemma_normalized_of_token(u);
    assert(u.take(2)[1] == 'i');
    assert(u.take(3) =~= seq!['i', 'i', ':']);
    assert(u.skip(3) =~= ta + seq![','] + tb);
    lemma_split_without_separator(ta, ',');
    lemma_split_after_separator(ta, tb, ',');
    assert(seq![ta].push(tb) =~= seq![ta, tb]);
}

/// The decimal texts of an index, an integer and a delay spell them,
/// separated by spaces.
pub proof fn lemma_index_integer_delay_words_spell_them(a: i32, b: i32, d: i64)
    ensures
        shortcut_of(
            decimal_text(a as int) + seq![' '] + decimal_text(b as int) + seq![' ']
                + decimal_text(d as int),
        ) == Some(Shortcut::IndexIntegerDelay(a, b, d)),
{
    let ta = decimal_text(a as int);
    let tb = decimal_text(b as int);
    let td = decimal_text(d as int);
    lemma_decimal_token(a as int);
    lemma_decimal_token(b as int);
    lemma_decimal_token(d as int);
    lemma_parse_i32_reads_decimal_text(a);
    lemma_parse_i32_reads_decimal_text(b);
    lemma_parse_i64_reads_decimal_text(d);
    lemma_token_shape(ta);
    lemma_spaced(ta, tb);
    let ab = ta + seq![' '] + tb;
    lemma_spaced(ab, td);
    let t = ab + seq![' '] + td;
    lemma_normalized_of_shaped(t);
    assert(t[0] == ta[0]);
    lemma_unprefixed(t);
    lemma_words_of_word(ta);
    assert(seq![ta].push(tb).push(td) =~= seq![ta, tb, td]);
}

/// The decimal texts of an index, an integer and a delay spell them after
/// `iid:`, separated by commas.
pub proof fn lemma_index_integer_delay_fields_spell_them(a: i32, b: i32, d: i64)
    ensures
        shortcut_of(
            seq!['i', 'i', 'd', ':'] + decimal_text(a as int) + seq![','] + decimal_text(b as int)
                + seq![','] + decimal_text(d as int),
        ) == Some(Shortcut::IndexIntegerDelay(a, b, d)),
{
    let ta = decimal_text(a as int);
    let tb = decimal_text(b as int);
    let td = decimal_text(d as int);
    lemma_decimal_token(a as int);
    lemma_decimal_token(b as int);
    lemma_decimal_token(d as int);
    lemma_parse_i32_reads_decimal_text(a);
    lemma_parse_i32_reads_decimal_text(b);
    lemma_parse_i64_reads_decimal_text(d);
    let fields = ta + seq![','] + tb + seq![','] + td;
    assert(no_white_space(fields)) by {
        let n = ta.len();
        let m = n + 1 + tb.len();
        assert forall|k: int| 0 <= k < fields.len() implies !is_white_space(#[trigger] fields[k]) by {
            if k < n {
                assert(fields[k] == ta[k]);
            } else if n < k < m {
                assert(fields[k] == tb[k - n - 1]);
            } else if k > m {
                assert(fields[k] == td[k - m - 1]);
            }
        }
    }
    let u = seq!['i', 'i', 'd', ':'] + fields;
    assert(no_white_space(u)) by {
        assert forall|k: int| 0 <= k < u.len() implies !is_white_space(#[trigger] u[k]) by {
            if k >= 4 {
                assert(u[k] == fields[k - 4]);
            }
        }
    }
    assert(u =~= seq!['i', 'i', 'd', ':'] + ta + seq![','] + tb + seq![','] + td);
    lemma_normalized_of_token(u);
    assert(u.take(2)[1] == 'i');
    assert(u.take(3)[2] == 'd');
    assert(u.take(4) =~= seq!['i', 'i', 'd', ':']);
    assert(u.skip(4) =~= fields);
    let ab = ta + seq![','] + tb;
    assert(fields =~= ab + seq![','] + td);
    lemma_split_without_separator(ta, ',');
    lemma_split_after_separator(ta, tb, ',');
    lemma_split_after_separator(ab, td, ',');
    assert(seq![ta].push(tb).push(td) =~= seq![ta, tb, td]);
}

} // verus!
