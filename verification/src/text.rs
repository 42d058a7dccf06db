//! Character-level ground work for the configuration grammar.
//!
//! The configuration files are plain text: statements are split into
//! whitespace-separated tokens, and numbers are written in decimal or
//! hexadecimal. This module states what a token, a split, and a numeral are
//! over sequences of characters, and provides the executable routines the
//! parsers build on.

use vstd::prelude::*;
use vstd::string::StrSliceExecFns;

verus! {

/// The whitespace characters that separate tokens.
pub open spec fn is_ascii_space(c: char) -> bool {
    c == ' ' || c == '\t' || c == '\n' || c == '\r' || c == '\x0c'
}

/// Executable twin of `is_ascii_space`.
pub fn ascii_space(c: char) -> (r: bool)
    ensures
        r == is_ascii_space(c),
{
    c == ' ' || c == '\t' || c == '\n' || c == '\r' || c == '\x0c'
}

/// The longest run of non-whitespace characters at the front of `s`.
pub open spec fn spec_leading_token(s: Seq<char>) -> Seq<char>
    decreases s.len(),
{
    if s.len() == 0 || is_ascii_space(s[0]) {
        Seq::empty()
    } else {
        seq![s[0]] + spec_leading_token(s.drop_first())
    }
}

/// The leading token is a prefix of non-space characters, cut at the first
/// space (or at the end of the sequence).
pub proof fn lemma_leading_token(s: Seq<char>)
    ensures
        spec_leading_token(s).len() <= s.len(),
        spec_leading_token(s) =~= s.subrange(0, spec_leading_token(s).len() as int),
        forall|i: int|
            0 <= i < spec_leading_token(s).len() ==> !is_ascii_space(#[trigger] s[i]),
        spec_leading_token(s).len() < s.len() ==> is_ascii_space(
            s[spec_leading_token(s).len() as int],
        ),
    decreases s.len(),
{
    if s.len() == 0 || is_ascii_space(s[0]) {
    } else {
        lemma_leading_token(s.drop_first());
        let t = spec_leading_token(s);
        let t1 = spec_leading_token(s.drop_first());
        assert forall|i: int| 0 <= i < t.len() implies !is_ascii_space(#[trigger] s[i]) by {
            if i > 0 {
                assert(s.drop_first()[i - 1] == s[i]);
            }
        }
        assert(t =~= s.subrange(0, t.len() as int)) by {
            assert(t1 =~= s.drop_first().subrange(0, t1.len() as int));
            assert forall|i: int| 0 <= i < t.len() implies t[i] == s[i] by {
                if i > 0 {
                    assert(t[i] == t1[i - 1]);
                    assert(s.drop_first()[i - 1] == s[i]);
                }
            }
        }
    }
}

/// The whitespace-separated tokens of `s`, in order.
pub open spec fn spec_tokens(s: Seq<char>) -> Seq<Seq<char>>
    decreases s.len(),
    via spec_tokens_decreases
{
    if s.len() == 0 {
        Seq::empty()
    } else if is_ascii_space(s[0]) {
        spec_tokens(s.drop_first())
    } else {
        seq![spec_leading_token(s)] + spec_tokens(s.skip(spec_leading_token(s).len() as int))
    }
}

#[via_fn]
proof fn spec_tokens_decreases(s: Seq<char>) {
    if s.len() > 0 && !is_ascii_space(s[0]) {
        lemma_leading_token(s);
    }
}

/// The characters of `s`, one per element.
pub fn chars_of(s: &str) -> (v: Vec<char>)
    ensures
        v@ == s@,
{
    let n = s.unicode_len();
    let mut v: Vec<char> = Vec::new();
    let mut i: usize = 0;
    while i < n
        invariant
            i <= n,
            n == s@.len(),
            v@ =~= s@.subrange(0, i as int),
        decreases n - i,
    {
        v.push(s.get_char(i));
        assert(v@ =~= s@.subrange(0, i + 1 as int));
        i = i + 1;
    }
    assert(v@ =~= s@);
    v
}

/// A copy of `v[from..to]`.
pub fn subvec(v: &Vec<char>, from: usize, to: usize) -> (r: Vec<char>)
    requires
        from <= to <= v@.len(),
    ensures
        r@ == v@.subrange(from as int, to as int),
{
    let mut r: Vec<char> = Vec::new();
    let mut i: usize = from;
    while i < to
        invariant
            from <= i <= to <= v@.len(),
            r@ =~= v@.subrange(from as int, i as int),
        decreases to - i,
    {
        r.push(v[i]);
        assert(r@ =~= v@.subrange(from as int, i + 1 as int));
        i = i + 1;
    }
    assert(r@ =~= v@.subrange(from as int, to as int));
    r
}

/// Whether the characters of `v` spell exactly the literal `lit`.
pub fn eq_lit(v: &Vec<char>, lit: &str) -> (r: bool)
    ensures
        r == (v@ == lit@),
{
    let n = lit.unicode_len();
    if v.len() != n {
        return false;
    }
    let mut i: usize = 0;
    while i < n
        invariant
            i <= n,
            n == lit@.len(),
            v@.len() == n,
            forall|j: int| 0 <= j < i ==> v@[j] == lit@[j],
        decreases n - i,
    {
        if v[i] != lit.get_char(i) {
            return false;
        }
        i = i + 1;
    }
    assert(v@ =~= lit@);
    true
}

/// Whether the characters of `v` start with the literal `lit`.
pub fn starts_with_lit(v: &Vec<char>, lit: &str) -> (r: bool)
    ensures
        r == lit@.is_prefix_of(v@),
{
    let n = lit.unicode_len();
    if v.len() < n {
        return false;
    }
    let mut i: usize = 0;
    while i < n
        invariant
            i <= n,
            n == lit@.len(),
            v@.len() >= n,
            forall|j: int| 0 <= j < i ==> v@[j] == lit@[j],
        decreases n - i,
    {
        if v[i] != lit.get_char(i) {
            return false;
        }
        i = i + 1;
    }
    assert(lit@ =~= v@.subrange(0, n as int));
    true
}

/// Split one token off the front of `v`, starting at index `i`: skip
/// whitespace, then collect the token, and return it together with the index
/// just past its end. Returns `None` when only whitespace remains.
fn next_token(v: &Vec<char>, i: usize) -> (r: Option<(Vec<char>, usize)>)
    requires
        i <= v@.len(),
    ensures
        match r {
            Some((tok, j)) => {
                &&& i < j <= v@.len()
                &&& spec_tokens(v@.skip(i as int)) == seq![tok@] + spec_tokens(
                    v@.skip(j as int),
                )
                &&& tok@.len() >= 1
            },
            None => spec_tokens(v@.skip(i as int)) == Seq::<Seq<char>>::empty(),
        },
    decreases v@.len() - i,
{
    if i == v.len() {
        return None;
    }
    if ascii_space(v[i]) {
        proof {
            assert(v@.skip(i as int).drop_first() =~= v@.skip(i + 1 as int));
        }
        return next_token(v, i + 1);
    }
    let ghost suffix = v@.skip(i as int);
    let mut j: usize = i + 1;
    while j < v.len() && !ascii_space(v[j])
        invariant
            i < j <= v@.len(),
            forall|k: int| i <= k < j ==> !is_ascii_space(#[trigger] v@[k]),
        decreases v@.len() - j,
    {
        j = j + 1;
    }
    let tok = subvec(v, i, j);
    proof {
        lemma_leading_token(suffix);
        let t = spec_leading_token(suffix);
        assert forall|k: int| 0 <= k < suffix.len() implies suffix[k] == v@[i + k] by {}
        assert(t.len() == j - i) by {
            if t.len() < j - i {
                assert(!is_ascii_space(suffix[t.len() as int]));
            }
            if t.len() > j - i {
                assert(is_ascii_space(suffix[(j - i) as int]));
            }
        }
        assert(tok@ =~= t);
        assert(suffix.skip(t.len() as int) =~= v@.skip(j as int));
        assert(spec_tokens(suffix) == seq![tok@] + spec_tokens(v@.skip(j as int)));
    }
    Some((tok, j))
}

/// The whitespace-separated tokens of `v`, each as its own vector.
pub fn tokenize(v: &Vec<char>) -> (r: Vec<Vec<char>>)
    ensures
        r.deep_view() == spec_tokens(v@),
        forall|k: int| 0 <= k < r.deep_view().len() ==> #[trigger] r.deep_view()[k].len() >= 1,
{
    let mut r: Vec<Vec<char>> = Vec::new();
    let mut i: usize = 0;
    proof {
        assert(r.deep_view() =~~= Seq::<Seq<char>>::empty());
        assert(v@.skip(0) =~= v@);
        assert(spec_tokens(v@) =~~= r.deep_view() + spec_tokens(v@.skip(0)));
    }
    loop
        invariant
            i <= v@.len(),
            spec_tokens(v@) == r.deep_view() + spec_tokens(v@.skip(i as int)),
            forall|k: int| 0 <= k < r.deep_view().len() ==> #[trigger] r.deep_view()[k].len() >= 1,
        decreases v@.len() - i,
    {
        match next_token(v, i) {
            None => {
                proof {
                    assert(spec_tokens(v@) =~~= r.deep_view());
                }
                return r;
            },
            Some((tok, j)) => {
                let ghost old_r = r.deep_view();
                let ghost tv = tok@;
                r.push(tok);
                proof {
                    assert(r.deep_view() =~~= old_r + seq![tv]);
                }
                i = j;
            },
        }
    }
}

/// The index of the first occurrence of `sep` in `s`, or `-1` when there is
/// none.
pub open spec fn find_char(s: Seq<char>, sep: char) -> int
    decreases s.len(),
{
    if s.len() == 0 {
        -1
    } else if s[0] == sep {
        0
    } else if find_char(s.drop_first(), sep) < 0 {
        -1
    } else {
        find_char(s.drop_first(), sep) + 1
    }
}

/// `find_char` returns the least index holding `sep`, or `-1` when no index
/// does.
pub proof fn lemma_find_char(s: Seq<char>, sep: char)
    ensures
        -1 <= find_char(s, sep) < s.len(),
        find_char(s, sep) == -1 ==> forall|j: int| 0 <= j < s.len() ==> s[j] != sep,
        find_char(s, sep) >= 0 ==> s[find_char(s, sep)] == sep,
        forall|j: int| 0 <= j < find_char(s, sep) ==> s[j] != sep,
    decreases s.len(),
{
    if s.len() == 0 {
    } else if s[0] == sep {
    } else {
        lemma_find_char(s.drop_first(), sep);
        assert forall|j: int| 0 <= j < s.len() && (find_char(s, sep) == -1 || j < find_char(
            s,
            sep,
        )) implies s[j] != sep by {
            if j > 0 {
                assert(s.drop_first()[j - 1] == s[j]);
            }
        }
        if find_char(s.drop_first(), sep) >= 0 {
            assert(s.drop_first()[find_char(s.drop_first(), sep)] == s[find_char(s, sep)]);
        }
    }
}

/// The pieces of `s` between occurrences of `sep`: splitting never yields an
/// empty sequence of pieces, and adjacent separators yield empty pieces.
pub open spec fn spec_split(s: Seq<char>, sep: char) -> Seq<Seq<char>>
    decreases s.len(),
    via spec_split_decreases
{
    if find_char(s, sep) < 0 {
        seq![s]
    } else {
        seq![s.subrange(0, find_char(s, sep))] + spec_split(
            s.subrange(find_char(s, sep) + 1, s.len() as int),
            sep,
        )
    }
}

#[via_fn]
proof fn spec_split_decreases(s: Seq<char>, sep: char) {
    lemma_find_char(s, sep);
}

/// Split `v[from..to]` at every occurrence of `sep`.
pub fn split_seg(v: &Vec<char>, from: usize, to: usize, sep: char) -> (r: Vec<Vec<char>>)
    requires
        from <= to <= v@.len(),
    ensures
        r.deep_view() == spec_split(v@.subrange(from as int, to as int), sep),
        r.deep_view().len() >= 1,
    decreases to - from,
{
    let ghost s = v@.subrange(from as int, to as int);
    proof {
        lemma_find_char(s, sep);
    }
    let mut j: usize = from;
    while j < to && v[j] != sep
        invariant
            from <= j <= to <= v@.len(),
            s == v@.subrange(from as int, to as int),
            forall|k: int| 0 <= k < j - from ==> s[k] != sep,
        decreases to - j,
    {
        j = j + 1;
    }
    if j == to {
        // no separator in the segment
        proof {
            assert(find_char(s, sep) == -1);
        }
        let piece = subvec(v, from, to);
        let mut r: Vec<Vec<char>> = Vec::new();
        r.push(piece);
        proof {
            assert(r.deep_view() =~~= spec_split(s, sep));
        }
        r
    } else {
        proof {
            assert(s[(j - from) as int] == sep);
            assert(find_char(s, sep) == j - from);
        }
        let piece = subvec(v, from, j);
        let rest = split_seg(v, j + 1, to, sep);
        let mut r: Vec<Vec<char>> = Vec::new();
        r.push(piece);
        let mut k: usize = 0;
        while k < rest.len()
            invariant
                k <= rest@.len(),
                r.deep_view() =~~= seq![piece@] + rest.deep_view().take(k as int),
            decreases rest@.len() - k,
        {
            let ghost before = r.deep_view();
            let next = subvec(&rest[k], 0, rest[k].len());
            proof {
                assert(next@ =~= rest@[k as int]@);
                assert(rest@[k as int]@ == rest.deep_view()[k as int]);
            }
            r.push(next);
            proof {
                assert(r.deep_view() =~~= before + seq![next@]);
                assert(r.deep_view() =~~= seq![piece@] + rest.deep_view().take(k + 1));
            }
            k = k + 1;
        }
        proof {
            assert(rest.deep_view().take(rest@.len() as int) =~~= rest.deep_view());
            assert(s.subrange(find_char(s, sep) + 1, s.len() as int) =~= v@.subrange(
                j + 1,
                to as int,
            ));
            assert(piece@ =~= s.subrange(0, find_char(s, sep)));
            assert(r.deep_view() =~~= spec_split(s, sep));
        }
        r
    }
}

/// Relies on `String::push`: appends the given character to the end of the
/// string.
#[verifier::external_body]
fn push_char(s: &mut String, c: char)
    ensures
        final(s)@ == old(s)@.push(c),
{
    s.push(c);
}

/// A `String` spelling the characters of `v`.
pub fn string_of(v: &Vec<char>) -> (r: String)
    ensures
        r@ == v@,
{
    let mut r = String::new();
    let mut i: usize = 0;
    while i < v.len()
        invariant
            i <= v@.len(),
            r@ =~= v@.subrange(0, i as int),
        decreases v@.len() - i,
    {
        push_char(&mut r, v[i]);
        assert(r@ =~= v@.subrange(0, i + 1 as int));
        i = i + 1;
    }
    assert(r@ =~= v@);
    r
}

/// The index of the first piece of `toks` equal to `t`, or `-1` when there is
/// none.
pub open spec fn find_tok(toks: Seq<Seq<char>>, t: Seq<char>) -> int
    decreases toks.len(),
{
    if toks.len() == 0 {
        -1
    } else if toks[0] == t {
        0
    } else if find_tok(toks.drop_first(), t) < 0 {
        -1
    } else {
        find_tok(toks.drop_first(), t) + 1
    }
}

/// `find_tok` returns the least index holding `t`, or `-1` when no index
/// does.
pub proof fn lemma_find_tok(toks: Seq<Seq<char>>, t: Seq<char>)
    ensures
        -1 <= find_tok(toks, t) < toks.len(),
        find_tok(toks, t) == -1 ==> forall|j: int| 0 <= j < toks.len() ==> toks[j] != t,
        find_tok(toks, t) >= 0 ==> toks[find_tok(toks, t)] == t,
        forall|j: int| 0 <= j < find_tok(toks, t) ==> toks[j] != t,
    decreases toks.len(),
{
    if toks.len() == 0 {
    } else if toks[0] == t {
    } else {
        lemma_find_tok(toks.drop_first(), t);
        assert forall|j: int|
            0 <= j < toks.len() && (find_tok(toks, t) == -1 || j < find_tok(toks, t)) implies toks[j]
            != t by {
            if j > 0 {
                assert(toks.drop_first()[j - 1] == toks[j]);
            }
        }
        if find_tok(toks.drop_first(), t) >= 0 {
            assert(toks.drop_first()[find_tok(toks.drop_first(), t)] == toks[find_tok(toks, t)]);
        }
    }
}

/// A line with any trailing carriage return removed.
pub open spec fn strip_cr(l: Seq<char>) -> Seq<char> {
    if l.len() >= 1 && l.last() == '\r' {
        l.drop_last()
    } else {
        l
    }
}

/// The lines of `s`: pieces between newlines, each without a trailing
/// carriage return, and with no final empty line after a trailing newline.
pub open spec fn spec_lines(s: Seq<char>) -> Seq<Seq<char>>
    decreases s.len(),
    via spec_lines_decreases
{
    if s.len() == 0 {
        Seq::empty()
    } else if find_char(s, '\n') < 0 {
        seq![strip_cr(s)]
    } else {
        seq![strip_cr(s.subrange(0, find_char(s, '\n')))] + spec_lines(
            s.subrange(find_char(s, '\n') + 1, s.len() as int),
        )
    }
}

#[via_fn]
proof fn spec_lines_decreases(s: Seq<char>) {
    lemma_find_char(s, '\n');
}

/// The lines of `v[from..]`, each as its own vector.
fn lines_from(v: &Vec<char>, from: usize) -> (r: Vec<Vec<char>>)
    requires
        from <= v@.len(),
    ensures
        r.deep_view() == spec_lines(v@.skip(from as int)),
    decreases v@.len() - from,
{
    let ghost s = v@.skip(from as int);
    proof {
        lemma_find_char(s, '\n');
    }
    if from == v.len() {
        let r: Vec<Vec<char>> = Vec::new();
        proof {
            assert(r.deep_view() =~~= spec_lines(s));
        }
        return r;
    }
    let mut j: usize = from;
    while j < v.len() && v[j] != '\n'
        invariant
            from <= j <= v@.len(),
            s == v@.skip(from as int),
            forall|k: int| 0 <= k < j - from ==> s[k] != '\n',
        decreases v@.len() - j,
    {
        j = j + 1;
    }
    // cut the piece, dropping a trailing carriage return
    let cut = if j > from && v[j - 1] == '\r' {
        j - 1
    } else {
        j
    };
    let piece = subvec(v, from, cut);
    proof {
        if j == v@.len() {
            assert(find_char(s, '\n') == -1);
            assert(piece@ =~= strip_cr(s));
        } else {
            assert(s[(j - from) as int] == '\n');
            assert(find_char(s, '\n') == j - from);
            assert(piece@ =~= strip_cr(s.subrange(0, (j - from) as int)));
        }
    }
    if j == v.len() {
        let mut r: Vec<Vec<char>> = Vec::new();
        r.push(piece);
        proof {
            assert(r.deep_view() =~~= spec_lines(s));
        }
        return r;
    }
    let rest = lines_from(v, j + 1);
    let mut r: Vec<Vec<char>> = Vec::new();
    r.push(piece);
    let mut k: usize = 0;
    while k < rest.len()
        invariant
            k <= rest@.len(),
            r.deep_view() =~~= seq![piece@] + rest.deep_view().take(k as int),
        decreases rest@.len() - k,
    {
        let ghost before = r.deep_view();
        let next = subvec(&rest[k], 0, rest[k].len());
        proof {
            assert(next@ =~= rest@[k as int]@);
            assert(rest@[k as int]@ == rest.deep_view()[k as int]);
        }
        r.push(next);
        proof {
            assert(r.deep_view() =~~= before + seq![next@]);
            assert(r.deep_view() =~~= seq![piece@] + rest.deep_view().take(k + 1));
        }
        k = k + 1;
    }
    proof {
        assert(rest.deep_view().take(rest@.len() as int) =~~= rest.deep_view());
        assert(s.subrange(find_char(s, '\n') + 1, s.len() as int) =~= v@.skip(j + 1));
        assert(r.deep_view() =~~= spec_lines(s));
    }
    r
}

/// The lines of `v`, each as its own vector.
pub fn lines_of(v: &Vec<char>) -> (r: Vec<Vec<char>>)
    ensures
        r.deep_view() == spec_lines(v@),
{
    let r = lines_from(v, 0);
    proof {
        assert(v@.skip(0) =~= v@);
    }
    r
}

/// Whether `c` is a decimal digit.
pub open spec fn is_digit(c: char) -> bool {
    '0' <= c && c <= '9'
}

/// The numeric value of a decimal digit.
pub open spec fn digit_value(c: char) -> int {
    c as int - '0' as int
}

/// Whether every character of `s` is a decimal digit.
pub open spec fn all_digits(s: Seq<char>) -> bool {
    forall|i: int| 0 <= i < s.len() ==> is_digit(#[trigger] s[i])
}

/// The value of `s` read as a decimal numeral.
pub open spec fn dec_value(s: Seq<char>) -> int
    decreases s.len(),
{
    if s.len() == 0 {
        0
    } else {
        dec_value(s.drop_last()) * 10 + digit_value(s.last())
    }
}

/// A decimal numeral never has a negative value.
pub proof fn lemma_dec_value_nonneg(s: Seq<char>)
    requires
        all_digits(s),
    ensures
        dec_value(s) >= 0,
    decreases s.len(),
{
    if s.len() > 0 {
        assert(all_digits(s.drop_last()));
        lemma_dec_value_nonneg(s.drop_last());
    }
}

/// Extending a numeral to the right can only keep or grow its value.
pub proof fn lemma_dec_value_prefix(s: Seq<char>, i: int)
    requires
        all_digits(s),
        0 <= i <= s.len(),
    ensures
        dec_value(s) >= dec_value(s.subrange(0, i)),
    decreases s.len() - i,
{
    if i == s.len() {
        assert(s.subrange(0, i) =~= s);
    } else {
        lemma_dec_value_prefix(s, i + 1);
        let p = s.subrange(0, i);
        let q = s.subrange(0, i + 1);
        assert(q.drop_last() =~= p);
        assert(all_digits(p));
        lemma_dec_value_nonneg(p);
        assert(dec_value(q) == dec_value(p) * 10 + digit_value(s[i]));
    }
}

/// A numeral of value at most `max`, read left to right. Returns `None` when
/// the range is empty, holds a non-digit, or exceeds `max`.
pub open spec fn spec_decimal(s: Seq<char>, max: int) -> Option<int> {
    if s.len() >= 1 && all_digits(s) && dec_value(s) <= max {
        Some(dec_value(s))
    } else {
        None
    }
}

/// Read `v[from..to]` as a decimal numeral of value at most `max`.
pub fn parse_decimal(v: &Vec<char>, from: usize, to: usize, max: u32) -> (r: Option<u32>)
    requires
        from <= to <= v@.len(),
        max <= 0x0FFF_FFFF,
    ensures
        match r {
            Some(value) => {
                &&& spec_decimal(v@.subrange(from as int, to as int), max as int) == Some(
                    value as int,
                )
            },
            None => spec_decimal(v@.subrange(from as int, to as int), max as int) is None,
        },
{
    let ghost s = v@.subrange(from as int, to as int);
    if from == to {
        return None;
    }
    let mut acc: u32 = 0;
    let mut i: usize = from;
    while i < to
        invariant
            from <= i <= to <= v@.len(),
            max <= 0x0FFF_FFFF,
            s == v@.subrange(from as int, to as int),
            all_digits(s.subrange(0, (i - from) as int)),
            acc as int == dec_value(s.subrange(0, (i - from) as int)),
            acc <= max,
        decreases to - i,
    {
        let c = v[i];
        if c < '0' || c > '9' {
            proof {
                assert(s[(i - from) as int] == c);
                assert(!is_digit(c));
            }
            return None;
        }
        let d: u32 = (c as u32) - 48;
        proof {
            let p = s.subrange(0, (i - from) as int);
            let q = s.subrange(0, (i - from) + 1);
            assert(q.drop_last() =~= p);
            assert(q.last() == c);
            assert(d as int == digit_value(c));
        }
        let next: u32 = acc * 10 + d;
        if next > max {
            proof {
                let q = s.subrange(0, (i - from) + 1);
                assert(all_digits(q));
                if all_digits(s) {
                    lemma_dec_value_prefix(s, (i - from) + 1);
                }
            }
            return None;
        }
        acc = next;
        i = i + 1;
    }
    proof {
        assert(s.subrange(0, (to - from) as int) =~= s);
    }
    Some(acc)
}

/// Whether `c` is a hexadecimal digit.
pub open spec fn is_hex_digit(c: char) -> bool {
    is_digit(c) || ('a' <= c && c <= 'f') || ('A' <= c && c <= 'F')
}

/// The numeric value of a hexadecimal digit.
pub open spec fn hex_digit_value(c: char) -> int {
    if is_digit(c) {
        c as int - '0' as int
    } else if 'a' <= c && c <= 'f' {
        c as int - 'a' as int + 10
    } else {
        c as int - 'A' as int + 10
    }
}

/// Whether every character of `s` is a hexadecimal digit.
pub open spec fn all_hex_digits(s: Seq<char>) -> bool {
    forall|i: int| 0 <= i < s.len() ==> is_hex_digit(#[trigger] s[i])
}

/// The value of `s` read as a hexadecimal numeral.
pub open spec fn hex_value(s: Seq<char>) -> int
    decreases s.len(),
{
    if s.len() == 0 {
        0
    } else {
        hex_value(s.drop_last()) * 16 + hex_digit_value(s.last())
    }
}

/// A hexadecimal group of one to four digits, as used in a textual IPv6
/// address; its value always fits 16 bits.
pub open spec fn spec_hex_group(s: Seq<char>) -> Option<int> {
    if 1 <= s.len() <= 4 && all_hex_digits(s) {
        Some(hex_value(s))
    } else {
        None
    }
}

/// An upper bound for the value of a hexadecimal numeral of `n` digits.
pub open spec fn hex_bound(n: nat) -> int
    decreases n,
{
    if n == 0 {
        1
    } else {
        16 * hex_bound((n - 1) as nat)
    }
}

proof fn lemma_hex_value_bound(s: Seq<char>)
    requires
        all_hex_digits(s),
    ensures
        0 <= hex_value(s) < hex_bound(s.len()),
    decreases s.len(),
{
    if s.len() > 0 {
        assert(all_hex_digits(s.drop_last()));
        lemma_hex_value_bound(s.drop_last());
    }
}

proof fn lemma_hex_bound_small()
    ensures
        hex_bound(0) == 1,
        hex_bound(1) == 16,
        hex_bound(2) == 256,
        hex_bound(3) == 4096,
        hex_bound(4) == 65536,
{
    assert(hex_bound(0) == 1);
    assert(hex_bound(1) == 16);
    assert(hex_bound(2) == 256);
    assert(hex_bound(3) == 4096);
    assert(hex_bound(4) == 65536);
}

/// Read `v[from..to]` as a hexadecimal group of an IPv6 address.
pub fn parse_hex_group(v: &Vec<char>, from: usize, to: usize) -> (r: Option<u16>)
    requires
        from <= to <= v@.len(),
    ensures
        match r {
            Some(value) => spec_hex_group(v@.subrange(from as int, to as int)) == Some(
                value as int,
            ),
            None => spec_hex_group(v@.subrange(from as int, to as int)) is None,
        },
{
    let ghost s = v@.subrange(from as int, to as int);
    if to - from < 1 || to - from > 4 {
        return None;
    }
    let mut acc: u32 = 0;
    let mut i: usize = from;
    while i < to
        invariant
            from <= i <= to <= v@.len(),
            to - from <= 4,
            s == v@.subrange(from as int, to as int),
            all_hex_digits(s.subrange(0, (i - from) as int)),
            acc as int == hex_value(s.subrange(0, (i - from) as int)),
            acc < 0x10000,
        decreases to - i,
    {
        let c = v[i];
        let d: u32 = if c >= '0' && c <= '9' {
            (c as u32) - 48
        } else if c >= 'a' && c <= 'f' {
            (c as u32) - 97 + 10
        } else if c >= 'A' && c <= 'F' {
            (c as u32) - 65 + 10
        } else {
            proof {
                assert(s[(i - from) as int] == c);
                assert(!is_hex_digit(c));
            }
            return None;
        };
        proof {
            let p = s.subrange(0, (i - from) as int);
            let q = s.subrange(0, (i - from) + 1);
            assert(q.drop_last() =~= p);
            assert(q.last() == c);
            assert(d as int == hex_digit_value(c));
            assert(all_hex_digits(q));
            lemma_hex_value_bound(q);
            lemma_hex_bound_small();
            assert(q.len() <= 4);
            if q.len() == 1 {
                assert(hex_bound(q.len()) <= 65536);
            } else if q.len() == 2 {
                assert(hex_bound(q.len()) <= 65536);
            } else if q.len() == 3 {
                assert(hex_bound(q.len()) <= 65536);
            } else {
                assert(hex_bound(q.len()) <= 65536);
            }
        }
        acc = acc * 16 + d;
        i = i + 1;
    }
    proof {
        assert(s.subrange(0, (to - from) as int) =~= s);
    }
    Some(acc as u16)
}

} // verus!
