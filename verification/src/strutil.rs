//! Character-level string helpers shared by the guard's components.
//!
//! The untrusted command line arrives as one string; everything the guard
//! decides is a function of its characters.  This module supplies the few
//! verified building blocks the other modules compose: conversion between
//! `String` and `Vec<char>`, whitespace tokenization, and decimal
//! rendering of counters and ports.

use vstd::prelude::*;

verus! {

/// Decides whether two strings consist of the same characters.
pub fn str_eq(a: &str, b: &str) -> (r: bool)
    ensures
        r == (a@ == b@),
{
    let ca = to_chars(a);
    let cb = to_chars(b);
    if ca.len() != cb.len() {
        assert(a@.len() != b@.len());
        return false;
    }
    let mut i: usize = 0;
    while i < ca.len()
        invariant
            i <= ca@.len(),
            ca@ == a@,
            cb@ == b@,
            a@.len() == b@.len(),
            forall|k: int| 0 <= k < i ==> a@[k] == #[trigger] b@[k],
        decreases ca@.len() - i,
    {
        if ca[i] != cb[i] {
            assert(a@[i as int] != b@[i as int]);
            return false;
        }
        i = i + 1;
    }
    assert(a@ =~= b@);
    true
}

/// Relies on `String::push`: appends one character at the end.
#[verifier::external_body]
pub fn push_char(s: &mut String, c: char)
    ensures
        final(s)@ == old(s)@ + seq![c],
{
    s.push(c)
}

/// The characters of `s`, in order, as a vector.
pub fn to_chars(s: &str) -> (r: Vec<char>)
    ensures
        r@ == s@,
{
    let n = s.unicode_len();
    let mut r: Vec<char> = Vec::new();
    let mut i: usize = 0;
    while i < n
        invariant
            i <= n,
            n == s@.len(),
            r@ == s@.take(i as int),
        decreases n - i,
    {
        r.push(s.get_char(i));
        i = i + 1;
        assert(r@ =~= s@.take(i as int));
    }
    assert(r@ =~= s@);
    r
}

/// A string holding exactly the characters of `v`, in order.
pub fn from_chars(v: &Vec<char>) -> (r: String)
    ensures
        r@ == v@,
{
    let mut r = String::new();
    let mut i: usize = 0;
    while i < v.len()
        invariant
            i <= v@.len(),
            r@ == v@.take(i as int),
        decreases v@.len() - i,
    {
        push_char(&mut r, v[i]);
        i = i + 1;
        assert(r@ =~= v@.take(i as int));
    }
    assert(r@ =~= v@);
    r
}

/// The ASCII whitespace characters, exactly as the untrusted command
/// string is split on them (space, tab, line feed, form feed, carriage
/// return).
pub open spec fn is_ascii_ws(c: char) -> bool {
    c == ' ' || c == '\t' || c == '\n' || c == '\u{c}' || c == '\r'
}

/// Executable twin of [`is_ascii_ws`].
pub fn is_ascii_ws_exec(c: char) -> (r: bool)
    ensures
        r == is_ascii_ws(c),
{
    c == ' ' || c == '\t' || c == '\n' || c == '\u{c}' || c == '\r'
}

/// Length of the maximal prefix of `s` free of separators (`p` holds of
/// a separator character).
pub open spec fn word_len(s: Seq<char>, p: spec_fn(char) -> bool) -> nat
    decreases s.len(),
{
    if s.len() == 0 || p(s[0]) {
        0
    } else {
        1 + word_len(s.drop_first(), p)
    }
}

/// The separator-free prefix never outruns the string.
pub proof fn lemma_word_len_le(s: Seq<char>, p: spec_fn(char) -> bool)
    ensures
        word_len(s, p) <= s.len(),
    decreases s.len(),
{
    if s.len() != 0 && !p(s[0]) {
        lemma_word_len_le(s.drop_first(), p);
    }
}

/// The maximal separator-free words of `s`, in order: what splitting `s`
/// on the characters satisfying `p` yields, with empty pieces dropped.
pub open spec fn split_on(s: Seq<char>, p: spec_fn(char) -> bool) -> Seq<Seq<char>>
    decreases s.len(),
    via split_on_decreases
{
    if s.len() == 0 {
        seq![]
    } else if p(s[0]) {
        split_on(s.drop_first(), p)
    } else {
        seq![s.take(word_len(s, p) as int)] + split_on(s.skip(word_len(s, p) as int), p)
    }
}

#[via_fn]
proof fn split_on_decreases(s: Seq<char>, p: spec_fn(char) -> bool) {
    if s.len() != 0 && !p(s[0]) {
        lemma_word_len_le(s, p);
        assert(word_len(s, p) >= 1);
    }
}

proof fn lemma_word_len_all(s: Seq<char>, p: spec_fn(char) -> bool)
    requires
        forall|i: int| 0 <= i < s.len() ==> !p(#[trigger] s[i]),
    ensures
        word_len(s, p) == s.len(),
    decreases s.len(),
{
    if s.len() != 0 {
        assert(!p(s[0]));
        assert(forall|i: int| 0 <= i < s.drop_first().len() ==> !p(#[trigger] s.drop_first()[i]));
        lemma_word_len_all(s.drop_first(), p);
    }
}

/// A run of separator-free characters followed by a separator is one
/// whole word.
pub proof fn lemma_split_word_sep(w: Seq<char>, c: char, rest: Seq<char>, p: spec_fn(char) -> bool)
    requires
        w.len() > 0,
        forall|i: int| 0 <= i < w.len() ==> !p(#[trigger] w[i]),
        p(c),
    ensures
        split_on(w + seq![c] + rest, p) == seq![w] + split_on(rest, p),
    decreases w.len(),
{
    let s = w + seq![c] + rest;
    assert(s[0] == w[0]);
    if w.len() == 1 {
        assert(s.drop_first() =~= seq![c] + rest);
        assert(p(s.drop_first()[0]));
        assert(word_len(s.drop_first(), p) == 0);
        assert(word_len(s, p) == 1);
        assert(s.take(1) =~= w);
        assert(s.skip(1) =~= seq![c] + rest);
        assert(s.skip(1)[0] == c);
        assert(s.skip(1).drop_first() =~= rest);
        assert(split_on(s.skip(1), p) == split_on(rest, p));
        assert(split_on(s, p) == seq![w] + split_on(rest, p));
    } else {
        let w1 = w.drop_first();
        assert(forall|i: int| 0 <= i < w1.len() ==> !p(#[trigger] w1[i]));
        lemma_split_word_sep(w1, c, rest, p);
        assert(s.drop_first() =~= w1 + seq![c] + rest);
        assert(word_len(s, p) == 1 + word_len(w1 + seq![c] + rest, p));
        assert(word_len(w1 + seq![c] + rest, p) == w1.len()) by {
            lemma_word_len_prefix(w1, seq![c] + rest, p);
            assert(w1 + seq![c] + rest =~= w1 + (seq![c] + rest));
            assert((seq![c] + rest)[0] == c);
        }
        assert(word_len(s, p) == w.len());
        assert(s.take(w.len() as int) =~= w);
        assert(s.skip(w.len() as int) =~= seq![c] + rest);
        assert(split_on(s, p) == seq![w] + split_on(seq![c] + rest, p));
        assert((seq![c] + rest)[0] == c);
        assert((seq![c] + rest).drop_first() =~= rest);
        assert(split_on(seq![c] + rest, p) == split_on(rest, p));
    }
}

/// The separator-free prefix of `w + rest` is all of `w` whenever `rest`
/// opens with a separator.
proof fn lemma_word_len_prefix(w: Seq<char>, rest: Seq<char>, p: spec_fn(char) -> bool)
    requires
        forall|i: int| 0 <= i < w.len() ==> !p(#[trigger] w[i]),
        rest.len() > 0,
        p(rest[0]),
    ensures
        word_len(w + rest, p) == w.len(),
    decreases w.len(),
{
    let s = w + rest;
    if w.len() == 0 {
        assert(s =~= rest);
    } else {
        assert(s[0] == w[0]);
        assert(s.drop_first() =~= w.drop_first() + rest);
        lemma_word_len_prefix(w.drop_first(), rest, p);
    }
}

/// A separator-free run at the very end of the input is one whole word.
pub proof fn lemma_split_word_end(w: Seq<char>, p: spec_fn(char) -> bool)
    requires
        w.len() > 0,
        forall|i: int| 0 <= i < w.len() ==> !p(#[trigger] w[i]),
    ensures
        split_on(w, p) == seq![w],
{
    lemma_word_len_all(w, p);
    assert(w.take(w.len() as int) =~= w);
    assert(w.skip(w.len() as int) =~= Seq::<char>::empty());
    assert(split_on(w, p) == seq![w.take(w.len() as int, )] + split_on(
        w.skip(w.len() as int),
        p,
    ));
    assert(split_on(w, p) =~= seq![w]);
}

/// The predicate the command tokenizer splits on.
pub open spec fn ws_pred() -> spec_fn(char) -> bool {
    |c: char| is_ascii_ws(c)
}

/// The words of the untrusted command string.
pub open spec fn split_ws(s: Seq<char>) -> Seq<Seq<char>> {
    split_on(s, ws_pred())
}

/// Splits `s` on runs of ASCII whitespace, dropping empty pieces: the
/// tokenization contract documented for the untrusted command string.
pub fn split_ascii_ws(s: &str) -> (r: Vec<String>)
    ensures
        r.deep_view() == split_ws(s@),
{
    let chars = to_chars(s);
    let mut r: Vec<String> = Vec::new();
    let mut cur: Vec<char> = Vec::new();
    let mut i: usize = 0;
    proof {
        assert(cur@ + s@.skip(0) =~= s@);
        assert(r.deep_view() =~= Seq::<Seq<char>>::empty());
        assert(r.deep_view() + split_ws(s@) =~= split_ws(s@));
    }
    while i < chars.len()
        invariant
            i <= chars@.len(),
            chars@ == s@,
            forall|k: int| 0 <= k < cur@.len() ==> !is_ascii_ws(#[trigger] cur@[k]),
            r.deep_view() + split_ws(cur@ + s@.skip(i as int)) == split_ws(s@),
        decreases chars@.len() - i,
    {
        let c = chars[i];
        let ghost prev_rest = cur@ + s@.skip(i as int);
        let ghost next_rest = s@.skip(i as int + 1);
        assert(s@.skip(i as int) == seq![c] + next_rest) by {
            assert(s@.skip(i as int) =~= seq![c] + s@.skip(i as int + 1));
        }
        if is_ascii_ws_exec(c) {
            if cur.len() > 0 {
                proof {
                    assert(prev_rest =~= cur@ + seq![c] + next_rest);
                    assert(forall|k: int| 0 <= k < cur@.len() ==> !(ws_pred())(#[trigger] cur@[k]));
                    lemma_split_word_sep(cur@, c, next_rest, ws_pred());
                }
                let word = from_chars(&cur);
                let ghost old_r = r.deep_view();
                let ghost word_seq = cur@;
                r.push(word);
                proof {
                    assert(r.deep_view() =~= old_r + seq![word_seq]);
                    assert((old_r + seq![word_seq]) + split_ws(next_rest) =~= old_r + (
                    seq![word_seq] + split_ws(next_rest)));
                }
                cur = Vec::new();
                proof {
                    assert(cur@ + next_rest =~= next_rest);
                }
            } else {
                proof {
                    assert(prev_rest =~= seq![c] + next_rest);
                    assert(prev_rest[0] == c);
                    assert(prev_rest.drop_first() =~= next_rest);
                    assert(cur@ + next_rest =~= next_rest);
                }
            }
        } else {
            cur.push(c);
            proof {
                assert(cur@ + next_rest =~= prev_rest);
            }
        }
        i = i + 1;
    }
    proof {
        assert(cur@ + s@.skip(i as int) =~= cur@);
    }
    if cur.len() > 0 {
        proof {
            assert(forall|k: int| 0 <= k < cur@.len() ==> !(ws_pred())(#[trigger] cur@[k]));
            lemma_split_word_end(cur@, ws_pred());
        }
        let word = from_chars(&cur);
        let ghost old_r = r.deep_view();
        r.push(word);
        proof {
            assert(r.deep_view() =~= old_r + seq![cur@]);
        }
    }
    assert(r.deep_view() =~= split_ws(s@));
    r
}

/// The characters of `v` from `a` (inclusive) to `b` (exclusive).
pub fn subrange_chars(v: &Vec<char>, a: usize, b: usize) -> (r: Vec<char>)
    requires
        a <= b <= v@.len(),
    ensures
        r@ == v@.subrange(a as int, b as int),
{
    let mut r: Vec<char> = Vec::new();
    let mut i: usize = a;
    while i < b
        invariant
            a <= i <= b <= v@.len(),
            r@ == v@.subrange(a as int, i as int),
        decreases b - i,
    {
        r.push(v[i]);
        i = i + 1;
        assert(r@ =~= v@.subrange(a as int, i as int));
    }
    r
}

/// A copy of `v` from index `from` on.
pub fn clone_tail(v: &Vec<String>, from: usize) -> (r: Vec<String>)
    requires
        from <= v@.len(),
    ensures
        r.deep_view() == v.deep_view().skip(from as int),
{
    let mut r: Vec<String> = Vec::new();
    let mut i: usize = from;
    proof {
        assert(r.deep_view() =~= v.deep_view().subrange(from as int, from as int));
    }
    while i < v.len()
        invariant
            from <= i <= v@.len(),
            v.deep_view().len() == v@.len(),
            forall|k: int| 0 <= k < v@.len() ==> v.deep_view()[k] == #[trigger] v@[k]@,
            r.deep_view() == v.deep_view().subrange(from as int, i as int),
        decreases v@.len() - i,
    {
        let ghost old_deep = r.deep_view();
        let item = v[i].clone();
        assert(item@ == v.deep_view()[i as int]);
        r.push(item);
        i = i + 1;
        proof {
            assert(r.deep_view() =~= old_deep + seq![v.deep_view()[i - 1]]);
            assert(old_deep + seq![v.deep_view()[i - 1]] =~= v.deep_view().subrange(
                from as int,
                i as int,
            ));
        }
    }
    proof {
        assert(v.deep_view().subrange(from as int, v@.len() as int) =~= v.deep_view().skip(
            from as int,
        ));
    }
    r
}

/// `s` with every occurrence of `from` replaced by `to`.
pub open spec fn spec_replace(s: Seq<char>, from: char, to: char) -> Seq<char> {
    s.map_values(
        |c: char|
            if c == from {
                to
            } else {
                c
            },
    )
}

/// Computes [`spec_replace`].
pub fn replace_char(s: &str, from: char, to: char) -> (r: String)
    ensures
        r@ == spec_replace(s@, from, to),
{
    let chars = to_chars(s);
    let mut out: Vec<char> = Vec::new();
    let mut i: usize = 0;
    while i < chars.len()
        invariant
            i <= chars@.len(),
            chars@ == s@,
            out@ == spec_replace(s@.take(i as int), from, to),
        decreases chars@.len() - i,
    {
        let c = chars[i];
        if c == from {
            out.push(to);
        } else {
            out.push(c);
        }
        i = i + 1;
        assert(out@ =~= spec_replace(s@.take(i as int), from, to));
    }
    assert(s@.take(s@.len() as int) =~= s@);
    from_chars(&out)
}

/// The decimal digit character for `d`.
pub open spec fn digit_char(d: nat) -> char {
    if d == 0 {
        '0'
    } else if d == 1 {
        '1'
    } else if d == 2 {
        '2'
    } else if d == 3 {
        '3'
    } else if d == 4 {
        '4'
    } else if d == 5 {
        '5'
    } else if d == 6 {
        '6'
    } else if d == 7 {
        '7'
    } else if d == 8 {
        '8'
    } else {
        '9'
    }
}

/// The usual decimal rendering of `n`, without leading zeroes (except for
/// `n == 0` itself).
pub open spec fn spec_dec(n: nat) -> Seq<char>
    decreases n,
{
    if n < 10 {
        seq![digit_char(n)]
    } else {
        spec_dec(n / 10).push(digit_char(n % 10))
    }
}

fn digit_char_exec(d: u64) -> (c: char)
    requires
        d < 10,
    ensures
        c == digit_char(d as nat),
{
    if d == 0 {
        '0'
    } else if d == 1 {
        '1'
    } else if d == 2 {
        '2'
    } else if d == 3 {
        '3'
    } else if d == 4 {
        '4'
    } else if d == 5 {
        '5'
    } else if d == 6 {
        '6'
    } else if d == 7 {
        '7'
    } else if d == 8 {
        '8'
    } else {
        '9'
    }
}

/// Renders `n` in decimal.
pub fn u64_to_string(n: u64) -> (r: String)
    ensures
        r@ == spec_dec(n as nat),
    decreases n,
{
    if n < 10 {
        let mut r = String::new();
        push_char(&mut r, digit_char_exec(n));
        assert(r@ =~= spec_dec(n as nat));
        r
    } else {
        let mut r = u64_to_string(n / 10);
        push_char(&mut r, digit_char_exec(n % 10));
        r
    }
}

/// The two-digit, zero-padded rendering used for minute and second
/// counts.
pub open spec fn spec_dec_pad2(n: nat) -> Seq<char> {
    if n < 10 {
        seq!['0'].push(digit_char(n))
    } else {
        spec_dec(n)
    }
}

/// Renders `n` in decimal, padded on the left with `0` to two digits.
pub fn u64_to_string_pad2(n: u64) -> (r: String)
    ensures
        r@ == spec_dec_pad2(n as nat),
{
    if n < 10 {
        let mut r = String::new();
        push_char(&mut r, '0');
        push_char(&mut r, digit_char_exec(n));
        assert(r@ =~= spec_dec_pad2(n as nat));
        r
    } else {
        u64_to_string(n)
    }
}

} // verus!
