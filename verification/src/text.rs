//! Character-level text handling for the shortcut syntax: whitespace
//! trimming, separators, words and decimal integers.
use vstd::prelude::*;

verus! {

/// Whether `c` has the Unicode `White_Space` property: U+0009 to U+000D,
/// U+0020, U+0085, U+00A0, U+1680, U+2000 to U+200A, U+2028, U+2029,
/// U+202F, U+205F and U+3000.
pub open spec fn is_white_space(c: char) -> bool {
    let u = c as u32;
    ||| 0x9 <= u <= 0xd
    ||| u == 0x20
    ||| u == 0x85
    ||| u == 0xa0
    ||| u == 0x1680
    ||| 0x2000 <= u <= 0x200a
    ||| u == 0x2028
    ||| u == 0x2029
    ||| u == 0x202f
    ||| u == 0x205f
    ||| u == 0x3000
}

/// Calls `char::is_whitespace`, which std documents as testing the Unicode
/// `White_Space` property; the contract states that property's code points.
#[verifier::external_body]
fn char_is_whitespace(c: char) -> (r: bool)
    ensures
        r == is_white_space(c),
{
    c.is_whitespace()
}

/// The characters of `s`, in order.
pub fn str_to_chars(s: &str) -> (r: Vec<char>)
    ensures
        r@ == s@,
{
    let mut out: Vec<char> = Vec::new();
    for c in it: s.chars()
        invariant
            out@ == it.seq().take(it.index() as int),
            it.seq() == s@,
    {
        out.push(c);
        assert(out@ =~= it.seq().take(it.index() as int + 1));
    }
    assert(out@ =~= s@);
    out
}

/// The characters `v[i..j]`.
pub fn sub_chars(v: &Vec<char>, i: usize, j: usize) -> (r: Vec<char>)
    requires
        i <= j <= v@.len(),
    ensures
        r@ == v@.subrange(i as int, j as int),
{
    let mut out: Vec<char> = Vec::new();
    let mut k = i;
    while k < j
        invariant
            i <= k <= j <= v@.len(),
            out@ == v@.subrange(i as int, k as int),
        decreases j - k,
    {
        out.push(v[k]);
        k = k + 1;
        assert(out@ =~= v@.subrange(i as int, k as int));
    }
    out
}

/// `s` without its leading white space.
pub open spec fn trim_start(s: Seq<char>) -> Seq<char>
    decreases s.len(),
{
    if s.len() > 0 && is_white_space(s[0]) {
        trim_start(s.drop_first())
    } else {
        s
    }
}

/// `s` without its trailing white space.
pub open spec fn trim_end(s: Seq<char>) -> Seq<char>
    decreases s.len(),
{
    if s.len() > 0 && is_white_space(s.last()) {
        trim_end(s.drop_last())
    } else {
        s
    }
}

/// `s` without leading and trailing white space, as `str::trim` gives it.
pub open spec fn trim(s: Seq<char>) -> Seq<char> {
    trim_end(trim_start(s))
}

/// `s` without leading and trailing white space.
pub fn trim_chars(s: &Vec<char>) -> (r: Vec<char>)
    ensures
        r@ == trim(s@),
{
    let n = s.len();
    let mut i: usize = 0;
    assert(s@.skip(0) =~= s@);
    while i < n && char_is_whitespace(s[i])
        invariant
            i <= n == s@.len(),
            trim_start(s@) == trim_start(s@.skip(i as int)),
        decreases n - i,
    {
        assert(s@.skip(i as int).drop_first() =~= s@.skip(i + 1));
        i = i + 1;
    }
    let ghost rest = s@.skip(i as int);
    assert(trim_start(rest) == rest);
    let mut j: usize = n;
    assert(s@.subrange(i as int, n as int) =~= rest);
    while j > i && char_is_whitespace(s[j - 1])
        invariant
            i <= j <= n == s@.len(),
            rest == s@.skip(i as int),
            trim_end(rest) == trim_end(s@.subrange(i as int, j as int)),
        decreases j,
    {
        assert(s@.subrange(i as int, j as int).drop_last() =~= s@.subrange(i as int, j - 1));
        j = j - 1;
    }
    assert(trim_end(s@.subrange(i as int, j as int)) == s@.subrange(i as int, j as int));
    sub_chars(s, i, j)
}

/// `s` with every two consecutive spaces, taken left to right without
/// overlap, replaced by one: what `str::replace(s, "  ", " ")` gives.
pub open spec fn collapse_double_spaces(s: Seq<char>) -> Seq<char>
    decreases s.len(),
{
    if s.len() >= 2 && s[0] == ' ' && s[1] == ' ' {
        seq![' '] + collapse_double_spaces(s.skip(2))
    } else if s.len() >= 1 {
        seq![s[0]] + collapse_double_spaces(s.skip(1))
    } else {
        s
    }
}

/// Whether every character of `s` is white space.
pub open spec fn all_white_space(s: Seq<char>) -> bool {
    forall|k: int| 0 <= k < s.len() ==> is_white_space(#[trigger] s[k])
}

/// Leading white space in front of `s` is trimmed away with `s`'s own.
proof fn lemma_trim_start_skips_white_space(p: Seq<char>, s: Seq<char>)
    requires
        all_white_space(p),
    ensures
        trim_start(p + s) == trim_start(s),
    decreases p.len(),
{
    if p.len() == 0 {
        assert(p + s =~= s);
    } else {
        assert(is_white_space(p[0]));
        assert((p + s)[0] == p[0]);
        assert((p + s).drop_first() =~= p.drop_first() + s);
        assert(all_white_space(p.drop_first())) by {
            assert forall|k: int| 0 <= k < p.drop_first().len() implies is_white_space(
                #[trigger] p.drop_first()[k],
            ) by {
                assert(p.drop_first()[k] == p[k + 1]);
            }
        }
        lemma_trim_start_skips_white_space(p.drop_first(), s);
    }
}

/// Trailing white space behind `s` is trimmed away with `s`'s own.
proof fn lemma_trim_end_skips_white_space(s: Seq<char>, q: Seq<char>)
    requires
        all_white_space(q),
    ensures
        trim_end(s + q) == trim_end(s),
    decreases q.len(),
{
    if q.len() == 0 {
        assert(s + q =~= s);
    } else {
        assert(is_white_space(q[q.len() - 1]));
        assert((s + q).last() == q.last());
        assert((s + q).drop_last() =~= s + q.drop_last());
        assert(all_white_space(q.drop_last())) by {
            assert forall|k: int| 0 <= k < q.drop_last().len() implies is_white_space(
                #[trigger] q.drop_last()[k],
            ) by {
                assert(q.drop_last()[k] == q[k]);
            }
        }
        lemma_trim_end_skips_white_space(s, q.drop_last());
    }
}

/// Trimming the start of `t + q`: the trimmed start of `t` followed by `q`,
/// unless `t` is all white space.
proof fn lemma_trim_start_append(t: Seq<char>, q: Seq<char>)
    ensures
        trim_start(t).len() > 0 ==> trim_start(t + q) == trim_start(t) + q,
        trim_start(t).len() == 0 ==> trim_start(t + q) == trim_start(q),
    decreases t.len(),
{
    if t.len() == 0 {
        assert(t + q =~= q);
    } else {
        assert((t + q)[0] == t[0]);
        if is_white_space(t[0]) {
            assert((t + q).drop_first() =~= t.drop_first() + q);
            lemma_trim_start_append(t.drop_first(), q);
        }
    }
}

/// White space around a text does not change its trimmed form.
pub proof fn lemma_trim_ignores_padding(before: Seq<char>, text: Seq<char>, after: Seq<char>)
    requires
        all_white_space(before),
        all_white_space(after),
    ensures
        trim(before + text + after) == trim(text),
{
    assert(before + text + after =~= before + (text + after));
    lemma_trim_start_skips_white_space(before, text + after);
    lemma_trim_start_append(text, after);
    if trim_start(text).len() > 0 {
        lemma_trim_end_skips_white_space(trim_start(text), after);
    } else {
        lemma_trim_start_skips_white_space(after, Seq::<char>::empty());
        assert(after + Seq::<char>::empty() =~= after);
        assert(trim_start(text) =~= Seq::<char>::empty());
    }
}

/// `s` with every two consecutive spaces replaced by one, left to right.
pub fn collapse_double_spaces_chars(s: &Vec<char>) -> (r: Vec<char>)
    ensures
        r@ == collapse_double_spaces(s@),
{
    let n = s.len();
    let mut out: Vec<char> = Vec::new();
    let mut i: usize = 0;
    assert(s@.skip(0) =~= s@);
    while i < n
        invariant
            i <= n == s@.len(),
            collapse_double_spaces(s@) == out@ + collapse_double_spaces(s@.skip(i as int)),
        decreases n - i,
    {
        let ghost rest = s@.skip(i as int);
        if i + 1 < n && s[i] == ' ' && s[i + 1] == ' ' {
            assert(rest.skip(2) =~= s@.skip(i + 2));
            out.push(' ');
            i = i + 2;
        } else {
            assert(rest.skip(1) =~= s@.skip(i + 1));
            out.push(s[i]);
            i = i + 1;
        }
        assert(collapse_double_spaces(s@) == out@ + collapse_double_spaces(s@.skip(i as int)));
    }
    assert(s@.skip(n as int) =~= Seq::<char>::empty());
    assert(out@ + Seq::<char>::empty() =~= out@);
    out
}

/// Whether `s` begins with `prefix`.
pub open spec fn has_prefix(s: Seq<char>, prefix: Seq<char>) -> bool {
    prefix.len() <= s.len() && s.take(prefix.len() as int) == prefix
}

/// Whether the characters `s` begin with the characters `prefix`.
pub fn starts_with_chars(s: &Vec<char>, prefix: &Vec<char>) -> (r: bool)
    ensures
        r == has_prefix(s@, prefix@),
{
    if prefix.len() > s.len() {
        return false;
    }
    let mut k: usize = 0;
    while k < prefix.len()
        invariant
            k <= prefix@.len() <= s@.len(),
            s@.take(k as int) == prefix@.take(k as int),
        decreases prefix@.len() - k,
    {
        if s[k] != prefix[k] {
            assert(s@.take(prefix@.len() as int)[k as int] != prefix@[k as int]);
            return false;
        }
        k = k + 1;
        assert(s@.take(k as int) =~= prefix@.take(k as int));
    }
    assert(prefix@.take(prefix@.len() as int) =~= prefix@);
    true
}

/// The pieces of `s` between occurrences of `sep`, as `str::split` with a
/// character gives them: one more piece than there are separators, empty
/// pieces included.
pub open spec fn split_on(s: Seq<char>, sep: char) -> Seq<Seq<char>>
    decreases s.len(),
{
    if s.len() == 0 {
        seq![Seq::<char>::empty()]
    } else {
        let pieces = split_on(s.drop_last(), sep);
        if s.last() == sep {
            pieces.push(Seq::<char>::empty())
        } else {
            pieces.update(pieces.len() - 1, pieces.last().push(s.last()))
        }
    }
}

/// The character sequences held by `v`.
pub open spec fn char_views(v: Seq<Vec<char>>) -> Seq<Seq<char>> {
    v.map_values(|p: Vec<char>| p@)
}

/// The pieces of `s` between occurrences of `sep`.
pub fn split_chars(s: &Vec<char>, sep: char) -> (r: Vec<Vec<char>>)
    ensures
        char_views(r@) == split_on(s@, sep),
{
    let n = s.len();
    let mut pieces: Vec<Vec<char>> = Vec::new();
    let mut current: Vec<char> = Vec::new();
    let mut i: usize = 0;
    assert(s@.take(0) =~= Seq::<char>::empty());
    assert(char_views(pieces@).push(current@) =~= split_on(s@.take(0), sep));
    while i < n
        invariant
            i <= n == s@.len(),
            char_views(pieces@).push(current@) == split_on(s@.take(i as int), sep),
        decreases n - i,
    {
        let c = s[i];
        let ghost before = char_views(pieces@).push(current@);
        assert(s@.take(i + 1).drop_last() =~= s@.take(i as int));
        if c == sep {
            let finished = current;
            pieces.push(finished);
            current = Vec::new();
            assert(char_views(pieces@) =~= before);
        } else {
            current.push(c);
        }
        i = i + 1;
        assert(char_views(pieces@).push(current@) =~= split_on(s@.take(i as int), sep));
    }
    assert(s@.take(n as int) =~= s@);
    pieces.push(current);
    assert(char_views(pieces@) =~= split_on(s@, sep));
    pieces
}

/// The maximal runs of non-white-space characters of `s`, in order, as
/// `str::split_whitespace` gives them.
pub open spec fn words(s: Seq<char>) -> Seq<Seq<char>>
    decreases s.len(),
{
    if s.len() == 0 {
        Seq::<Seq<char>>::empty()
    } else {
        let w = words(s.drop_last());
        let c = s.last();
        if is_white_space(c) {
            w
        } else if s.len() >= 2 && !is_white_space(s[s.len() - 2]) {
            w.update(w.len() - 1, w.last().push(c))
        } else {
            w.push(seq![c])
        }
    }
}

/// The maximal runs of non-white-space characters of `s`.
pub fn words_chars(s: &Vec<char>) -> (r: Vec<Vec<char>>)
    ensures
        char_views(r@) == words(s@),
{
    let n = s.len();
    let mut done: Vec<Vec<char>> = Vec::new();
    let mut current: Vec<char> = Vec::new();
    let mut i: usize = 0;
    assert(s@.take(0) =~= Seq::<char>::empty());
    assert(char_views(done@) =~= words(s@.take(0)));
    while i < n
        invariant
            i <= n == s@.len(),
            current@.len() > 0 <==> (i > 0 && !is_white_space(s@[i - 1])),
            current@.len() > 0 ==> char_views(done@).push(current@) == words(s@.take(i as int)),
            current@.len() == 0 ==> char_views(done@) == words(s@.take(i as int)),
        decreases n - i,
    {
        let c = s[i];
        let ghost prefix = s@.take(i + 1);
        assert(prefix.drop_last() =~= s@.take(i as int));
        assert(prefix.last() == c);
        if char_is_whitespace(c) {
            if current.len() > 0 {
                let finished = current;
                done.push(finished);
                current = Vec::new();
                assert(char_views(done@) =~= words(prefix));
            }
        } else {
            let had_word = current.len() > 0;
            let ghost old_current = current@;
            current.push(c);
            if had_word {
                assert(prefix.len() >= 2 && prefix[prefix.len() - 2] == s@[i - 1]);
                let ghost w = words(s@.take(i as int));
                assert(w == char_views(done@).push(old_current));
                assert(w.len() - 1 == done@.len());
                assert(w.last() == old_current);
                assert(current@ == old_current.push(c));
                assert(!is_white_space(c));
                assert(!is_white_space(prefix[prefix.len() - 2]));
                assert(words(prefix) == w.update(w.len() - 1, w.last().push(c)));
                assert(char_views(done@).push(current@) =~= w.update(w.len() - 1, w.last().push(c)));
            } else {
                assert(prefix.len() >= 2 ==> prefix[prefix.len() - 2] == s@[i - 1]);
                assert(current@ =~= seq![c]);
                assert(words(prefix) == words(s@.take(i as int)).push(seq![c]));
                assert(char_views(done@).push(current@) =~= words(prefix));
            }
        }
        i = i + 1;
    }
    assert(s@.take(n as int) =~= s@);
    if current.len() > 0 {
        let finished = current;
        done.push(finished);
        assert(char_views(done@) =~= words(s@));
    }
    done
}

/// Whether `c` is one of the ASCII digits `0` to `9`.
pub open spec fn is_decimal_digit(c: char) -> bool {
    '0' <= c && c <= '9'
}

/// The value of the decimal digit `c`.
pub open spec fn digit_value(c: char) -> int {
    c as int - '0' as int
}

/// Whether `s` holds only ASCII digits.
pub open spec fn all_decimal_digits(s: Seq<char>) -> bool {
    forall|k: int| 0 <= k < s.len() ==> is_decimal_digit(#[trigger] s[k])
}

/// The value of the decimal numeral `s`, most significant digit first.
pub open spec fn numeral_value(s: Seq<char>) -> int
    decreases s.len(),
{
    if s.len() == 0 {
        0
    } else {
        numeral_value(s.drop_last()) * 10 + digit_value(s.last())
    }
}

/// The integer that `s` spells, as std's `FromStr` for integers reads it:
/// an optional `+` or `-` followed by one or more ASCII digits and nothing
/// else. The range of the target type is checked separately.
pub open spec fn decimal_value(s: Seq<char>) -> Option<int> {
    let negative = s.len() > 0 && s[0] == '-';
    let digits = if s.len() > 0 && (s[0] == '-' || s[0] == '+') {
        s.skip(1)
    } else {
        s
    };
    if digits.len() > 0 && all_decimal_digits(digits) {
        Some(
            if negative {
                -numeral_value(digits)
            } else {
                numeral_value(digits)
            },
        )
    } else {
        None
    }
}

/// `s` parsed as an `i32`, as `str::parse::<i32>` does it.
pub open spec fn parse_i32_spec(s: Seq<char>) -> Option<i32> {
    match decimal_value(s) {
        Some(v) => if i32::MIN <= v <= i32::MAX {
            Some(v as i32)
        } else {
            None
        },
        None => None,
    }
}

/// `s` parsed as an `i64`, as `str::parse::<i64>` does it.
pub open spec fn parse_i64_spec(s: Seq<char>) -> Option<i64> {
    match decimal_value(s) {
        Some(v) => if i64::MIN <= v <= i64::MAX {
            Some(v as i64)
        } else {
            None
        },
        None => None,
    }
}

/// The smaller of `a` and `b`.
pub open spec fn min_int(a: int, b: int) -> int {
    if a <= b {
        a
    } else {
        b
    }
}

/// A numeral's value is never negative.
proof fn lemma_numeral_value_nonnegative(s: Seq<char>)
    requires
        all_decimal_digits(s),
    ensures
        numeral_value(s) >= 0,
    decreases s.len(),
{
    if s.len() > 0 {
        assert(is_decimal_digit(s[s.len() - 1]));
        assert(all_decimal_digits(s.drop_last())) by {
            assert forall|k: int| 0 <= k < s.drop_last().len() implies is_decimal_digit(
                #[trigger] s.drop_last()[k],
            ) by {
                assert(s.drop_last()[k] == s[k]);
            }
        }
        lemma_numeral_value_nonnegative(s.drop_last());
    }
}

/// Above this magnitude no `i64` can be spelled.
const MAGNITUDE_CAP: u64 = 0x8000_0000_0000_0001;

/// `s` parsed as an `i64`: an optional sign and one or more ASCII digits.
pub fn parse_i64_chars(s: &Vec<char>) -> (r: Option<i64>)
    ensures
        r == parse_i64_spec(s@),
{
    let n = s.len();
    let negative = n > 0 && s[0] == '-';
    let start: usize = if n > 0 && (s[0] == '-' || s[0] == '+') {
        1
    } else {
        0
    };
    let ghost digits = s@.skip(start as int);
    assert(digits == (if s@.len() > 0 && (s@[0] == '-' || s@[0] == '+') {
        s@.skip(1)
    } else {
        s@
    }));
    assert(negative == (s@.len() > 0 && s@[0] == '-'));
    if start >= n {
        assert(digits.len() == 0);
        return None;
    }
    let mut magnitude: u64 = 0;
    let mut k: usize = start;
    assert(digits.take(0) =~= Seq::<char>::empty());
    while k < n
        invariant
            start <= k <= n == s@.len(),
            digits == s@.skip(start as int),
            digits == (if s@.len() > 0 && (s@[0] == '-' || s@[0] == '+') {
                s@.skip(1)
            } else {
                s@
            }),
            all_decimal_digits(digits.take(k - start)),
            magnitude as int == min_int(
                numeral_value(digits.take(k - start)),
                MAGNITUDE_CAP as int,
            ),
        decreases n - k,
    {
        let c = s[k];
        if !('0' <= c && c <= '9') {
            assert(digits[k - start] == c);
            assert(!is_decimal_digit(digits[k - start]));
            assert(!all_decimal_digits(digits));
            assert(decimal_value(s@) is None);
            return None;
        }
        let d = (c as u32 - '0' as u32) as u64;
        let ghost before = digits.take(k - start);
        let ghost after = digits.take(k - start + 1);
        assert(after.drop_last() =~= before);
        assert(after.last() == c);
        proof {
            lemma_numeral_value_nonnegative(before);
        }
        let next: u128 = magnitude as u128 * 10 + d as u128;
        magnitude = if next > MAGNITUDE_CAP as u128 {
            MAGNITUDE_CAP
        } else {
            next as u64
        };
        k = k + 1;
        assert(all_decimal_digits(after)) by {
            assert forall|m: int| 0 <= m < after.len() implies is_decimal_digit(
                #[trigger] after[m],
            ) by {
                if m < before.len() {
                    assert(after[m] == before[m]);
                }
            }
        }
    }
    assert(digits.take(n - start) =~= digits);
    proof {
        lemma_numeral_value_nonnegative(digits);
    }
    assert(digits.len() > 0 && all_decimal_digits(digits));
    assert(decimal_value(s@) == Some(
        if negative {
            -numeral_value(digits)
        } else {
            numeral_value(digits)
        },
    ));
    if negative {
        if magnitude <= 0x8000_0000_0000_0000 {
            if magnitude == 0x8000_0000_0000_0000 {
                Some(i64::MIN)
            } else {
                Some(-(magnitude as i64))
            }
        } else {
            None
        }
    } else {
        if magnitude <= 0x7fff_ffff_ffff_ffff {
            Some(magnitude as i64)
        } else {
            None
        }
    }
}

/// `s` parsed as an `i32`: an optional sign and one or more ASCII digits.
pub fn parse_i32_chars(s: &Vec<char>) -> (r: Option<i32>)
    ensures
        r == parse_i32_spec(s@),
{
    match parse_i64_chars(s) {
        Some(v) => if i32::MIN as i64 <= v && v <= i32::MAX as i64 {
            Some(v as i32)
        } else {
            None
        },
        None => None,
    }
}

/// The ASCII digit of a value below ten.
pub open spec fn digit_char(d: int) -> char {
    ('0' as int + d) as char
}

/// The decimal numeral of `n`: its digits, most significant first, with no
/// leading zero.
pub open spec fn numeral(n: nat) -> Seq<char>
    decreases n,
{
    if n < 10 {
        seq![digit_char(n as int)]
    } else {
        numeral(n / 10).push(digit_char((n % 10) as int))
    }
}

/// The decimal text of `v`, as Rust's `Display` writes an integer: a `-`
/// for a negative value, then the numeral of its magnitude.
pub open spec fn decimal_text(v: int) -> Seq<char> {
    if v < 0 {
        seq!['-'] + numeral((-v) as nat)
    } else {
        numeral(v as nat)
    }
}

/// A numeral is a nonempty run of ASCII digits that spells `n`.
proof fn lemma_numeral_reads_back(n: nat)
    ensures
        numeral(n).len() >= 1,
        all_decimal_digits(numeral(n)),
        numeral_value(numeral(n)) == n,
    decreases n,
{
    let d = (n % 10) as int;
    assert(digit_char(d) as int == '0' as int + d);
    assert(is_decimal_digit(digit_char(d)) && digit_value(digit_char(d)) == d);
    if n < 10 {
        let s = numeral(n);
        assert(s.drop_last() =~= Seq::<char>::empty());
        assert(numeral_value(s.drop_last()) == 0);
        assert(s.last() == digit_char(d));
        assert(numeral_value(s) == numeral_value(s.drop_last()) * 10 + digit_value(s.last()));
    } else {
        lemma_numeral_reads_back(n / 10);
        let s = numeral(n);
        assert(s.drop_last() =~= numeral(n / 10));
        assert(s.last() == digit_char(d));
        assert(n == (n / 10) * 10 + d);
        assert(numeral_value(s) == numeral_value(s.drop_last()) * 10 + digit_value(s.last()));
        assert forall|k: int| 0 <= k < s.len() implies is_decimal_digit(#[trigger] s[k]) by {
            if k < s.len() - 1 {
                assert(s[k] == numeral(n / 10)[k]);
            }
        }
    }
}

/// The characters of a decimal text: a nonempty run of digits, possibly
/// after a leading `-`.
pub proof fn lemma_decimal_text_characters(v: int)
    ensures
        decimal_text(v).len() >= 1,
        is_decimal_digit(decimal_text(v).last()),
        forall|k: int|
            0 <= k < decimal_text(v).len() ==> is_decimal_digit(#[trigger] decimal_text(v)[k])
                || (k == 0 && decimal_text(v)[k] == '-'),
{
    let n: nat = if v < 0 {
        (-v) as nat
    } else {
        v as nat
    };
    lemma_numeral_reads_back(n);
    let s = decimal_text(v);
    if v < 0 {
        assert forall|k: int| 0 <= k < s.len() implies is_decimal_digit(#[trigger] s[k]) || (k
            == 0 && s[k] == '-') by {
            if k > 0 {
                assert(s[k] == numeral(n)[k - 1]);
            }
        }
        assert(s.last() == numeral(n).last());
    }
    assert(is_decimal_digit(numeral(n)[numeral(n).len() - 1]));
}

/// The decimal text of an integer reads back as that integer.
pub proof fn lemma_decimal_text_reads_back(v: int)
    ensures
        decimal_value(decimal_text(v)) == Some(v),
{
    let n: nat = if v < 0 {
        (-v) as nat
    } else {
        v as nat
    };
    lemma_numeral_reads_back(n);
    let s = decimal_text(v);
    assert(is_decimal_digit(numeral(n)[0]));
    if v < 0 {
        assert(s.skip(1) =~= numeral(n));
    }
}

/// `str::parse::<i32>` reads the decimal text of an `i32` back as it.
pub proof fn lemma_parse_i32_reads_decimal_text(v: i32)
    ensures
        parse_i32_spec(decimal_text(v as int)) == Some(v),
{
    lemma_decimal_text_reads_back(v as int);
}

/// `str::parse::<i64>` reads the decimal text of an `i64` back as it.
pub proof fn lemma_parse_i64_reads_decimal_text(v: i64)
    ensures
        parse_i64_spec(decimal_text(v as int)) == Some(v),
{
    lemma_decimal_text_reads_back(v as int);
}

/// A text that neither begins nor ends with white space is its own trim.
pub proof fn lemma_trim_of_unpadded(s: Seq<char>)
    requires
        s.len() > 0,
        !is_white_space(s[0]),
        !is_white_space(s.last()),
    ensures
        trim(s) == s,
{
}

/// Whether `s` holds no two consecutive spaces.
pub open spec fn no_double_space(s: Seq<char>) -> bool {
    forall|k: int| 0 <= k < s.len() - 1 ==> !(#[trigger] s[k] == ' ' && s[k + 1] == ' ')
}

/// Collapsing double spaces leaves a text without them as it is.
pub proof fn lemma_collapse_without_double_space(s: Seq<char>)
    requires
        no_double_space(s),
    ensures
        collapse_double_spaces(s) == s,
    decreases s.len(),
{
    if s.len() >= 1 {
        let rest = s.skip(1);
        assert(no_double_space(rest)) by {
            assert forall|k: int| 0 <= k < rest.len() - 1 implies !(#[trigger] rest[k] == ' '
                && rest[k + 1] == ' ') by {
                assert(rest[k] == s[k + 1] && rest[k + 1] == s[k + 2]);
            }
        }
        if s.len() >= 2 {
            assert(!(s[0] == ' ' && s[1] == ' '));
        }
        lemma_collapse_without_double_space(rest);
        assert(seq![s[0]] + rest =~= s);
    }
}

/// Whether `sep` does not occur in `s`.
pub open spec fn lacks(s: Seq<char>, sep: char) -> bool {
    forall|k: int| 0 <= k < s.len() ==> #[trigger] s[k] != sep
}

/// A text without the separator is a single piece.
pub proof fn lemma_split_without_separator(b: Seq<char>, sep: char)
    requires
        lacks(b, sep),
    ensures
        split_on(b, sep) == seq![b],
    decreases b.len(),
{
    if b.len() > 0 {
        let c = b.last();
        assert(lacks(b.drop_last(), sep)) by {
            assert forall|k: int| 0 <= k < b.drop_last().len() implies #[trigger] b.drop_last()[k]
                != sep by {
                assert(b.drop_last()[k] == b[k]);
            }
        }
        lemma_split_without_separator(b.drop_last(), sep);
        assert(b.drop_last().push(c) =~= b);
        assert(seq![b.drop_last()].update(0, b.drop_last().push(c)) =~= seq![b]);
    } else {
        assert(b =~= Seq::<char>::empty());
    }
}

/// A separator followed by a text without one adds that text as the last
/// piece.
pub proof fn lemma_split_after_separator(a: Seq<char>, b: Seq<char>, sep: char)
    requires
        lacks(b, sep),
    ensures
        split_on(a + seq![sep] + b, sep) == split_on(a, sep).push(b),
    decreases b.len(),
{
    let s = a + seq![sep] + b;
    if b.len() == 0 {
        assert(s.drop_last() =~= a);
        assert(b =~= Seq::<char>::empty());
    } else {
        let c = b.last();
        assert(lacks(b.drop_last(), sep)) by {
            assert forall|k: int| 0 <= k < b.drop_last().len() implies #[trigger] b.drop_last()[k]
                != sep by {
                assert(b.drop_last()[k] == b[k]);
            }
        }
        lemma_split_after_separator(a, b.drop_last(), sep);
        assert(s.drop_last() =~= a + seq![sep] + b.drop_last());
        assert(s.last() == c);
        assert(b.drop_last().push(c) =~= b);
        assert(split_on(a, sep).push(b.drop_last()).update(
            split_on(a, sep).len() as int,
            b.drop_last().push(c),
        ) =~= split_on(a, sep).push(b));
    }
}

/// Whether no character of `s` is white space.
pub open spec fn no_white_space(s: Seq<char>) -> bool {
    forall|k: int| 0 <= k < s.len() ==> !is_white_space(#[trigger] s[k])
}

/// A nonempty text without white space is a single word.
pub proof fn lemma_words_of_word(b: Seq<char>)
    requires
        b.len() > 0,
        no_white_space(b),
    ensures
        words(b) == seq![b],
    decreases b.len(),
{
    assert(!is_white_space(b[b.len() - 1]));
    if b.len() == 1 {
        assert(b.drop_last() =~= Seq::<char>::empty());
        assert(words(b.drop_last()) =~= Seq::<Seq<char>>::empty());
        assert(seq![b.last()] =~= b);
        assert(words(b) == Seq::<Seq<char>>::empty().push(seq![b.last()]));
        assert(Seq::<Seq<char>>::empty().push(seq![b.last()]) =~= seq![b]);
    } else {
        assert(no_white_space(b.drop_last())) by {
            assert forall|k: int| 0 <= k < b.drop_last().len() implies !is_white_space(
                #[trigger] b.drop_last()[k],
            ) by {
                assert(b.drop_last()[k] == b[k]);
            }
        }
        lemma_words_of_word(b.drop_last());
        assert(!is_white_space(b[b.len() - 1]));
        assert(!is_white_space(b[b.len() - 2]));
        assert(b.drop_last().push(b.last()) =~= b);
        assert(seq![b.drop_last()].update(0, b.drop_last().push(b.last())) =~= seq![b]);
    }
}

/// A white-space character followed by a nonempty text without white space
/// adds that text as the last word.
pub proof fn lemma_words_after_white_space(a: Seq<char>, c: char, b: Seq<char>)
    requires
        is_white_space(c),
        b.len() > 0,
        no_white_space(b),
    ensures
        words(a + seq![c] + b) == words(a).push(b),
    decreases b.len(),
{
    let s = a + seq![c] + b;
    if b.len() == 1 {
        assert(s.drop_last() =~= a + seq![c]);
        assert((a + seq![c]).drop_last() =~= a);
        assert(s[s.len() - 2] == c);
        assert(!is_white_space(b[0]));
        assert(s.last() == b[0]);
        assert(words(s.drop_last()) == words(a));
        assert(seq![s.last()] =~= b);
    } else {
        assert(no_white_space(b.drop_last())) by {
            assert forall|k: int| 0 <= k < b.drop_last().len() implies !is_white_space(
                #[trigger] b.drop_last()[k],
            ) by {
                assert(b.drop_last()[k] == b[k]);
            }
        }
        lemma_words_after_white_space(a, c, b.drop_last());
        assert(s.drop_last() =~= a + seq![c] + b.drop_last());
        assert(!is_white_space(b[b.len() - 1]));
        assert(s[s.len() - 2] == b[b.len() - 2]);
        assert(!is_white_space(b[b.len() - 2]));
        assert(b.drop_last().push(b.last()) =~= b);
        assert(words(a).push(b.drop_last()).update(
            words(a).len() as int,
            b.drop_last().push(b.last()),
        ) =~= words(a).push(b));
    }
}

/// A trimmed text is empty or begins with a character that is not white
/// space.
proof fn lemma_trim_start_result(s: Seq<char>)
    ensures
        trim_start(s).len() == 0 || !is_white_space(trim_start(s)[0]),
    decreases s.len(),
{
    if s.len() > 0 && is_white_space(s[0]) {
        lemma_trim_start_result(s.drop_first());
    }
}

/// Trimming the end keeps a prefix, which is empty or ends in a character
/// that is not white space.
proof fn lemma_trim_end_result(s: Seq<char>)
    ensures
        trim_end(s).len() <= s.len(),
        trim_end(s) == s.take(trim_end(s).len() as int),
        trim_end(s).len() == 0 || !is_white_space(trim_end(s).last()),
    decreases s.len(),
{
    if s.len() > 0 && is_white_space(s.last()) {
        lemma_trim_end_result(s.drop_last());
        assert(s.drop_last().take(trim_end(s).len() as int) =~= s.take(
            trim_end(s).len() as int,
        ));
    } else {
        assert(s.take(s.len() as int) =~= s);
    }
}

/// Trimming a trimmed text changes nothing.
pub proof fn lemma_trim_idempotent(s: Seq<char>)
    ensures
        trim(trim(s)) == trim(s),
{
    let u = trim_start(s);
    lemma_trim_start_result(s);
    lemma_trim_end_result(u);
    let t = trim(s);
    if t.len() > 0 {
        assert(t[0] == u[0]);
        lemma_trim_of_unpadded(t);
    }
}

} // verus!
