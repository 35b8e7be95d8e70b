//! Verified text helpers: ASCII lower-casing, whitespace splitting, decimal
//! rendering of integers, and joining, used by the command parser and the
//! human-readable messages of the library.

use vstd::prelude::*;

verus! {

/// The whitespace characters recognised when command text is split.
pub open spec fn is_space(c: char) -> bool {
    c == ' ' || c == '\t' || c == '\n' || c == '\r'
}

pub fn is_space_char(c: char) -> (r: bool)
    ensures
        r == is_space(c),
{
    c == ' ' || c == '\t' || c == '\n' || c == '\r'
}

/// ASCII lower-casing of a single character; all others pass unchanged.
pub open spec fn lower_char(c: char) -> char {
    if 'A' <= c && c <= 'Z' {
        (((c as u8) + 32) as char)
    } else {
        c
    }
}

pub fn to_lower_char(c: char) -> (r: char)
    ensures
        r == lower_char(c),
{
    if 'A' <= c && c <= 'Z' {
        (((c as u8) + 32) as char)
    } else {
        c
    }
}

/// ASCII lower-casing of a character sequence.
pub open spec fn lower(s: Seq<char>) -> Seq<char> {
    s.map_values(|c: char| lower_char(c))
}

/// Relies on `String::push`: appends exactly the given character at the end.
#[verifier::external_body]
pub fn push_char(s: &mut String, c: char)
    ensures
        final(s)@ == old(s)@.push(c),
{
    s.push(c);
}

/// Lower-cases a string, character by character, in the ASCII range.
pub fn to_lowercase(s: &str) -> (r: String)
    ensures
        r@ == lower(s@),
{
    let n = s.unicode_len();
    let mut out = String::new();
    let mut i: usize = 0;
    while i < n
        invariant
            i <= n,
            n == s@.len(),
            out@ == lower(s@.subrange(0, i as int)),
        decreases n - i,
    {
        let c = s.get_char(i);
        push_char(&mut out, to_lower_char(c));
        assert(lower(s@.subrange(0, i + 1 as int)) =~= lower(
            s@.subrange(0, i as int),
        ).push(lower_char(s@[i as int])));
        i += 1;
    }
    assert(s@.subrange(0, n as int) =~= s@);
    out
}

/// String equality over the character views.
pub fn str_eq(a: &str, b: &str) -> (r: bool)
    ensures
        r == (a@ == b@),
{
    let x = a.to_owned();
    let y = b.to_owned();
    x == y
}

/// The decimal digit character for one digit value.
pub open spec fn dec_digit(d: int) -> char {
    (((48 + d) as u8) as char)
}

/// The decimal rendering of a non-negative integer, most significant digit
/// first, with no leading zeros (a lone `0` for zero).
pub open spec fn dec_str(n: int) -> Seq<char>
    decreases n,
{
    if n < 10 {
        seq![dec_digit(n)]
    } else {
        dec_str(n / 10).push(dec_digit(n % 10))
    }
}

fn digit_char(d: u64) -> (c: char)
    requires
        d < 10,
    ensures
        c == dec_digit(d as int),
{
    ((48u8 + (d as u8)) as char)
}

/// Renders an unsigned integer in decimal.
pub fn u64_to_string(n: u64) -> (r: String)
    ensures
        r@ == dec_str(n as int),
    decreases n,
{
    if n < 10 {
        let mut s = String::new();
        push_char(&mut s, digit_char(n));
        assert(s@ =~= seq![dec_digit(n as int)]);
        s
    } else {
        let mut s = u64_to_string(n / 10);
        push_char(&mut s, digit_char(n % 10));
        s
    }
}

/// The suffix of `s` that remains after dropping leading whitespace.
pub open spec fn skip_spaces(s: Seq<char>) -> Seq<char>
    decreases s.len(),
{
    if s.len() == 0 {
        s
    } else if is_space(s[0]) {
        skip_spaces(s.drop_first())
    } else {
        s
    }
}

/// The prefix of `s` that remains after dropping trailing whitespace.
pub open spec fn strip_end(s: Seq<char>) -> Seq<char>
    decreases s.len(),
{
    if s.len() == 0 {
        s
    } else if is_space(s.last()) {
        strip_end(s.drop_last())
    } else {
        s
    }
}

/// `s` with leading and trailing whitespace removed.
pub open spec fn spec_trim(s: Seq<char>) -> Seq<char> {
    strip_end(skip_spaces(s))
}

/// The longest whitespace-free prefix of `s`.
pub open spec fn take_word(s: Seq<char>) -> Seq<char>
    decreases s.len(),
{
    if s.len() == 0 || is_space(s[0]) {
        Seq::empty()
    } else {
        seq![s[0]] + take_word(s.drop_first())
    }
}

pub proof fn lemma_skip_spaces_shape(s: Seq<char>)
    ensures
        skip_spaces(s).len() <= s.len(),
        skip_spaces(s) == s.skip(s.len() - skip_spaces(s).len()),
        skip_spaces(s).len() > 0 ==> !is_space(skip_spaces(s)[0]),
        forall|j: int|
            0 <= j < s.len() - skip_spaces(s).len() ==> is_space(s[j]),
    decreases s.len(),
{
    if s.len() == 0 {
        assert(s.skip(0) =~= s);
    } else if is_space(s[0]) {
        lemma_skip_spaces_shape(s.drop_first());
        assert(s.drop_first() =~= s.skip(1));
        let k = s.len() - skip_spaces(s).len();
        assert(s.skip(1).skip(k - 1) =~= s.skip(k));
        assert forall|j: int| 0 <= j < k implies is_space(s[j]) by {
            if j > 0 {
                assert(s[j] == s.skip(1)[j - 1]);
            }
        }
    } else {
        assert(s.skip(0) =~= s);
    }
}

/// Dropping a fully-whitespace prefix does not change `skip_spaces`.
pub proof fn lemma_skip_spaces_prefix(s: Seq<char>, i: int)
    requires
        0 <= i <= s.len(),
        forall|j: int| 0 <= j < i ==> is_space(s[j]),
    ensures
        skip_spaces(s) == skip_spaces(s.skip(i)),
    decreases i,
{
    if i > 0 {
        assert(s.drop_first() =~= s.skip(1));
        lemma_skip_spaces_prefix(s.skip(1), i - 1);
        assert(s.skip(1).skip(i - 1) =~= s.skip(i));
    } else {
        assert(s.skip(0) =~= s);
    }
}

/// A word runs to the first whitespace character (or the end).
pub proof fn lemma_take_word_prefix(s: Seq<char>, i: int)
    requires
        0 <= i <= s.len(),
        forall|j: int| 0 <= j < i ==> !is_space(s[j]),
        i == s.len() || is_space(s[i]),
    ensures
        take_word(s) == s.take(i),
    decreases i,
{
    if i == 0 {
        assert(s.take(0) =~= Seq::<char>::empty());
    } else {
        assert(s.drop_first() =~= s.skip(1));
        lemma_take_word_prefix(s.skip(1), i - 1);
        assert(seq![s[0]] + s.skip(1).take(i - 1) =~= s.take(i));
    }
}

/// Dropping a fully-whitespace suffix does not change `strip_end`.
pub proof fn lemma_strip_end_suffix(s: Seq<char>, i: int)
    requires
        0 <= i <= s.len(),
        forall|j: int| i <= j < s.len() ==> is_space(s[j]),
    ensures
        strip_end(s) == strip_end(s.take(i)),
    decreases s.len() - i,
{
    if i < s.len() {
        assert(is_space(s.last()));
        assert(s.drop_last() =~= s.take(s.len() - 1));
        lemma_strip_end_suffix(s.take(s.len() - 1), i);
        assert(s.take(s.len() - 1).take(i) =~= s.take(i));
    } else {
        assert(s.take(s.len() as int) =~= s);
    }
}

/// `strip_end` of a sequence with a non-space last element is the sequence.
pub proof fn lemma_strip_end_fixed(s: Seq<char>)
    requires
        s.len() == 0 || !is_space(s.last()),
    ensures
        strip_end(s) == s,
{
}

/// A word is never longer than the sequence it was taken from.
pub proof fn lemma_take_word_len(s: Seq<char>)
    ensures
        take_word(s).len() <= s.len(),
    decreases s.len(),
{
    if s.len() > 0 && !is_space(s[0]) {
        lemma_take_word_len(s.drop_first());
    }
}

/// The whitespace-separated words of `s`, in order.
pub open spec fn split_ws(s: Seq<char>) -> Seq<Seq<char>>
    decreases s.len(),
    via split_ws_decreases
{
    let t = skip_spaces(s);
    if t.len() == 0 {
        Seq::empty()
    } else {
        seq![take_word(t)] + split_ws(t.skip(take_word(t).len() as int))
    }
}

#[via_fn]
proof fn split_ws_decreases(s: Seq<char>) {
    lemma_skip_spaces_shape(s);
    let t = skip_spaces(s);
    if t.len() > 0 {
        lemma_take_word_len(t);
        assert(take_word(t).len() >= 1);
        assert(t.skip(take_word(t).len() as int).len() < s.len());
    }
}

/// Removes leading and trailing whitespace.
pub fn trim(s: &str) -> (r: String)
    ensures
        r@ == spec_trim(s@),
{
    let n = s.unicode_len();
    let mut i: usize = 0;
    while i < n && is_space_char(s.get_char(i))
        invariant
            i <= n,
            n == s@.len(),
            forall|j: int| 0 <= j < i ==> is_space(s@[j]),
        decreases n - i,
    {
        i += 1;
    }
    let mut j: usize = n;
    while j > i && is_space_char(s.get_char(j - 1))
        invariant
            i <= j <= n,
            n == s@.len(),
            forall|k: int| j <= k < n ==> is_space(s@[k]),
        decreases j,
    {
        j -= 1;
    }
    proof {
        lemma_skip_spaces_prefix(s@, i as int);
        let t = s@.skip(i as int);
        assert(skip_spaces(t) == t);
        assert forall|k: int| j - i <= k < t.len() implies is_space(t[k]) by {
            assert(t[k] == s@[k + i]);
        }
        lemma_strip_end_suffix(t, j - i);
        if j > i {
            assert(t.take(j - i).last() == s@[j - 1]);
            lemma_strip_end_fixed(t.take(j - i));
        } else {
            assert(t.take(0) =~= Seq::<char>::empty());
            lemma_strip_end_fixed(t.take(0));
        }
        assert(t.take(j - i) =~= s@.subrange(i as int, j as int));
    }
    s.substring_char(i, j).to_owned()
}

/// Splits a string into its whitespace-separated words.
pub fn split_whitespace(s: &str) -> (r: Vec<String>)
    ensures
        r.deep_view() == split_ws(s@),
{
    let n = s.unicode_len();
    let mut out: Vec<String> = Vec::new();
    let mut i: usize = 0;
    proof {
        assert(s@.skip(0) =~= s@);
        assert(out.deep_view() + split_ws(s@) =~= split_ws(s@));
    }
    while i < n
        invariant
            i <= n,
            n == s@.len(),
            split_ws(s@) == out.deep_view() + split_ws(s@.skip(i as int)),
        decreases n - i,
    {
        let mut j: usize = i;
        while j < n && is_space_char(s.get_char(j))
            invariant
                i <= j <= n,
                n == s@.len(),
                forall|m: int| i <= m < j ==> is_space(s@[m]),
            decreases n - j,
        {
            j += 1;
        }
        proof {
            let t = s@.skip(i as int);
            assert forall|m: int| 0 <= m < j - i implies is_space(t[m]) by {
                assert(t[m] == s@[m + i]);
            }
            lemma_skip_spaces_prefix(t, j - i);
            assert(t.skip(j - i) =~= s@.skip(j as int));
        }
        if j == n {
            proof {
                let t = s@.skip(i as int);
                assert(s@.skip(n as int) =~= Seq::<char>::empty());
                assert(skip_spaces(t).len() == 0);
                assert(out.deep_view() + split_ws(t) =~= out.deep_view());
            }
            i = n;
        } else {
            let mut k: usize = j + 1;
            while k < n && !is_space_char(s.get_char(k))
                invariant
                    j < k <= n,
                    n == s@.len(),
                    forall|m: int| j < m < k ==> !is_space(s@[m]),
                decreases n - k,
            {
                k += 1;
            }
            let word = s.substring_char(j, k).to_owned();
            let ghost old_out = out.deep_view();
            out.push(word);
            proof {
                let t = s@.skip(i as int);
                let u = s@.skip(j as int);
                assert(skip_spaces(t) == u);
                assert forall|m: int| 0 <= m < k - j implies !is_space(u[m]) by {
                    assert(u[m] == s@[m + j]);
                }
                if k < n {
                    assert(u[k - j] == s@[k as int]);
                }
                lemma_take_word_prefix(u, k - j);
                assert(u.take(k - j) =~= s@.subrange(j as int, k as int));
                assert(u.skip(k - j) =~= s@.skip(k as int));
                assert(split_ws(t) == seq![take_word(u)] + split_ws(
                    u.skip(take_word(u).len() as int),
                ));
                assert(out.deep_view() =~= old_out + seq![s@.subrange(j as int, k as int)]);
                assert(out.deep_view() + split_ws(s@.skip(k as int)) =~= split_ws(s@));
            }
            i = k;
        }
    }
    proof {
        assert(s@.skip(n as int) =~= Seq::<char>::empty());
        assert(out.deep_view() + split_ws(s@.skip(n as int)) =~= out.deep_view());
    }
    out
}

/// The given parts joined by single spaces.
pub open spec fn spec_join_spaces(parts: Seq<Seq<char>>) -> Seq<char>
    decreases parts.len(),
{
    if parts.len() == 0 {
        Seq::empty()
    } else if parts.len() == 1 {
        parts.last()
    } else {
        spec_join_spaces(parts.drop_last()) + seq![' '] + parts.last()
    }
}

/// Joins strings with single spaces.
pub fn join_spaces(parts: &Vec<String>) -> (r: String)
    ensures
        r@ == spec_join_spaces(parts.deep_view()),
{
    let mut out = String::new();
    let mut i: usize = 0;
    while i < parts.len()
        invariant
            i <= parts@.len(),
            out@ == spec_join_spaces(parts.deep_view().take(i as int)),
        decreases parts@.len() - i,
    {
        if i > 0 {
            push_char(&mut out, ' ');
        }
        out.append(parts[i].as_str());
        proof {
            let dv = parts.deep_view();
            assert(dv.take(i + 1).drop_last() =~= dv.take(i as int));
            assert(dv.take(i + 1).last() == dv[i as int]);
            if i == 0 {
                assert(out@ =~= spec_join_spaces(dv.take(1)));
            } else {
                assert(out@ =~= spec_join_spaces(dv.take(i + 1)));
            }
        }
        i += 1;
    }
    proof {
        assert(parts.deep_view().take(parts@.len() as int) =~= parts.deep_view());
    }
    out
}

/// The given parts joined by a comma and a space.
pub open spec fn spec_join_commas(parts: Seq<Seq<char>>) -> Seq<char>
    decreases parts.len(),
{
    if parts.len() == 0 {
        Seq::empty()
    } else if parts.len() == 1 {
        parts.last()
    } else {
        spec_join_commas(parts.drop_last()).push(',').push(' ') + parts.last()
    }
}

/// Joins borrowed strings with `, `.
pub fn join_commas(parts: &Vec<&str>) -> (r: String)
    ensures
        r@ == spec_join_commas(parts.deep_view()),
{
    let mut out = String::new();
    let mut i: usize = 0;
    while i < parts.len()
        invariant
            i <= parts@.len(),
            out@ == spec_join_commas(parts.deep_view().take(i as int)),
        decreases parts@.len() - i,
    {
        if i > 0 {
            push_char(&mut out, ',');
            push_char(&mut out, ' ');
        }
        out.append(parts[i]);
        proof {
            let dv = parts.deep_view();
            assert(dv.take(i + 1).drop_last() =~= dv.take(i as int));
            assert(dv.take(i + 1).last() == dv[i as int]);
            if i == 0 {
                assert(out@ =~= spec_join_commas(dv.take(1)));
            } else {
                assert(out@ =~= spec_join_commas(dv.take(i + 1)));
            }
        }
        i += 1;
    }
    proof {
        assert(parts.deep_view().take(parts@.len() as int) =~= parts.deep_view());
    }
    out
}

/// A decimal digit.
pub open spec fn is_digit(c: char) -> bool {
    '0' <= c && c <= '9'
}

/// The numeric value of a digit character.
pub open spec fn digit_val(c: char) -> int {
    c as u32 - 48
}

/// Whether every character is a decimal digit.
pub open spec fn all_digits(s: Seq<char>) -> bool {
    forall|i: int| 0 <= i < s.len() ==> is_digit(#[trigger] s[i])
}

/// The value of a digit string read in base ten.
pub open spec fn dec_value(s: Seq<char>) -> int
    decreases s.len(),
{
    if s.len() == 0 {
        0
    } else {
        dec_value(s.drop_last()) * 10 + digit_val(s.last())
    }
}

/// The value of a digit string is non-negative and grows with its length.
pub proof fn lemma_dec_value_mono(s: Seq<char>, i: int)
    requires
        all_digits(s),
        0 <= i <= s.len(),
    ensures
        dec_value(s) >= dec_value(s.take(i)),
        dec_value(s) >= 0,
    decreases s.len(),
{
    if s.len() == 0 {
        assert(s.take(i) =~= s);
    } else {
        let pre = s.drop_last();
        assert(all_digits(pre)) by {
            assert(forall|k: int| 0 <= k < pre.len() ==> pre[k] == s[k]);
        }
        lemma_dec_value_mono(pre, if i <= pre.len() {
            i
        } else {
            pre.len() as int
        });
        assert(is_digit(s.last()));
        if i <= pre.len() {
            assert(pre.take(i) =~= s.take(i));
        } else {
            assert(s.take(i) =~= s);
        }
    }
}

/// Parses an unsigned decimal integer: succeeds exactly on non-empty
/// all-digit strings whose value fits in a `u64`.
pub fn parse_dec(s: &str) -> (r: Option<u64>)
    ensures
        r is Some <==> (s@.len() > 0 && all_digits(s@) && dec_value(s@) <= u64::MAX),
        r is Some ==> r->0 == dec_value(s@),
{
    let n = s.unicode_len();
    if n == 0 {
        return Option::None;
    }
    let mut acc: u64 = 0;
    let mut i: usize = 0;
    while i < n
        invariant
            i <= n,
            n == s@.len(),
            all_digits(s@.take(i as int)),
            acc == dec_value(s@.take(i as int)),
        decreases n - i,
    {
        let c = s.get_char(i);
        if !('0' <= c && c <= '9') {
            return Option::None;
        }
        let d = (c as u8) - 48;
        proof {
            assert(s@.take(i + 1).drop_last() =~= s@.take(i as int));
            assert(s@.take(i + 1).last() == s@[i as int]);
            assert(all_digits(s@.take(i + 1))) by {
                assert(forall|k: int|
                    0 <= k < i ==> s@.take(i + 1)[k] == #[trigger] s@.take(i as int)[k]);
            }
        }
        if acc > (u64::MAX - (d as u64)) / 10 {
            proof {
                assert(dec_value(s@.take(i + 1)) > u64::MAX);
                if all_digits(s@) && dec_value(s@) <= u64::MAX {
                    lemma_dec_value_mono(s@, i + 1);
                }
            }
            return Option::None;
        }
        acc = acc * 10 + (d as u64);
        i += 1;
    }
    proof {
        assert(s@.take(n as int) =~= s@);
    }
    Option::Some(acc)
}

} // verus!
