//! Text as sequences of characters: search, replacement, joining.
//!
//! Contracts speak of `Seq<char>`, the view of `str` and `String`. The
//! executable functions work on `Vec<char>` and convert at their edges.

use vstd::prelude::*;

verus! {

/// `String::push` appends one character to the end of the string.
pub assume_specification[ String::push ](s: &mut String, c: char)
    ensures
        final(s)@ == old(s)@.push(c),
;

/// What `str::to_lowercase` returns for a text. The mapping follows the
/// Unicode case tables and looks at context, so it is left uninterpreted.
pub uninterp spec fn lowercased(s: Seq<char>) -> Seq<char>;

/// `str::to_lowercase` returns the lowercase equivalent of the text as a new
/// string; the result depends on the characters of the text alone.
pub assume_specification[ str::to_lowercase ](s: &str) -> (r: String)
    ensures
        r@ == lowercased(s@),
;

/// `p` stands in `s` at index `i`.
pub open spec fn occurs_at(s: Seq<char>, p: Seq<char>, i: int) -> bool {
    0 <= i && i + p.len() <= s.len() && s.subrange(i, i + p.len()) == p
}

/// `p` stands somewhere in `s`.
pub open spec fn has_substring(s: Seq<char>, p: Seq<char>) -> bool {
    exists|i: int| occurs_at(s, p, i)
}

/// `s` with every occurrence of `from` replaced by `to`, scanning from the
/// left and never looking again at what was already replaced. An empty `from`
/// occurs nowhere.
pub open spec fn replaced(s: Seq<char>, from: Seq<char>, to: Seq<char>) -> Seq<char>
    decreases s.len(),
{
    if from.len() == 0 || s.len() < from.len() {
        s
    } else if s.take(from.len() as int) == from {
        to + replaced(s.skip(from.len() as int), from, to)
    } else {
        s.take(1) + replaced(s.skip(1), from, to)
    }
}

/// The parts in order, with `sep` between neighbours.
pub open spec fn joined(parts: Seq<Seq<char>>, sep: Seq<char>) -> Seq<char>
    decreases parts.len(),
{
    if parts.len() == 0 {
        Seq::empty()
    } else if parts.len() == 1 {
        parts[0]
    } else {
        joined(parts.drop_last(), sep) + sep + parts.last()
    }
}

/// The characters of `s`, in order.
pub fn chars_of(s: &str) -> (v: Vec<char>)
    ensures
        v@ == s@,
{
    let mut v: Vec<char> = Vec::new();
    for c in it: s.chars()
        invariant
            v@ == it.seq().take(it.index() as int),
            it.seq() == s@,
    {
        v.push(c);
    }
    v
}

/// The string made of the characters of `v`, in order.
pub fn string_of(v: &Vec<char>) -> (s: String)
    ensures
        s@ == v@,
{
    let mut s = String::new();
    let mut i: usize = 0;
    while i < v.len()
        invariant
            i <= v.len(),
            s@ == v@.take(i as int),
        decreases v.len() - i,
    {
        s.push(v[i]);
        i += 1;
    }
    s
}

/// Appends the characters of `tail` to `out`.
pub fn push_all(out: &mut Vec<char>, tail: &Vec<char>)
    ensures
        final(out)@ == old(out)@ + tail@,
{
    let mut k: usize = 0;
    while k < tail.len()
        invariant
            k <= tail.len(),
            out@ == old(out)@ + tail@.take(k as int),
        decreases tail.len() - k,
    {
        out.push(tail[k]);
        k += 1;
    }
}

/// Whether `p` stands in `s` at index `i`.
pub fn matches_at(s: &Vec<char>, p: &Vec<char>, i: usize) -> (b: bool)
    ensures
        b == occurs_at(s@, p@, i as int),
{
    if i > s.len() || p.len() > s.len() - i {
        return false;
    }
    let mut k: usize = 0;
    while k < p.len()
        invariant
            k <= p.len(),
            i + p.len() <= s.len(),
            forall|j: int| 0 <= j < k ==> s@[i + j] == p@[j],
        decreases p.len() - k,
    {
        if s[i + k] != p[k] {
            assert(s@.subrange(i as int, i + p.len())[k as int] != p@[k as int]);
            return false;
        }
        k += 1;
    }
    assert(s@.subrange(i as int, i + p.len()) =~= p@);
    true
}

/// Whether `p` stands somewhere in `s`.
pub fn contains_chars(s: &Vec<char>, p: &Vec<char>) -> (b: bool)
    ensures
        b == has_substring(s@, p@),
{
    let mut i: usize = 0;
    while i < s.len()
        invariant
            i <= s.len(),
            forall|j: int| 0 <= j < i ==> !occurs_at(s@, p@, j),
        decreases s.len() - i,
    {
        if matches_at(s, p, i) {
            return true;
        }
        i += 1;
    }
    matches_at(s, p, i)
}

/// Where `from` does not stand at the start of a non-empty `s`, replacement
/// keeps the first character and goes on behind it.
proof fn lemma_replaced_skips_one(s: Seq<char>, from: Seq<char>, to: Seq<char>)
    requires
        s.len() > 0,
        from.len() > 0,
        !occurs_at(s, from, 0),
    ensures
        replaced(s, from, to) == s.take(1) + replaced(s.skip(1), from, to),
{
    if s.len() < from.len() {
        assert(s =~= s.take(1) + s.skip(1));
    } else {
        assert(s.take(from.len() as int) =~= s.subrange(0, 0 + from.len() as int));
    }
}

/// `s` with every occurrence of `from` replaced by `to`.
pub fn replace_chars(s: &Vec<char>, from: &Vec<char>, to: &Vec<char>) -> (r: Vec<char>)
    ensures
        r@ == replaced(s@, from@, to@),
{
    let mut out: Vec<char> = Vec::new();
    if from.len() == 0 {
        push_all(&mut out, s);
        assert(out@ =~= s@);
        return out;
    }
    let mut i: usize = 0;
    assert(s@.skip(0) =~= s@);
    while i < s.len()
        invariant
            i <= s.len(),
            from.len() > 0,
            out@ + replaced(s@.skip(i as int), from@, to@) == replaced(s@, from@, to@),
        decreases s.len() - i,
    {
        let ghost rest = s@.skip(i as int);
        let ghost before = out@;
        if matches_at(s, from, i) {
            proof {
                assert(rest.take(from.len() as int) =~= s@.subrange(i as int, i + from.len()));
                assert(rest.skip(from.len() as int) =~= s@.skip(i + from.len()));
            }
            push_all(&mut out, to);
            i += from.len();
            assert(out@ + replaced(s@.skip(i as int), from@, to@) =~= before + replaced(
                rest,
                from@,
                to@,
            ));
        } else {
            proof {
                if i + from.len() <= s.len() {
                    assert(rest.subrange(0, 0 + from.len() as int) =~= s@.subrange(
                        i as int,
                        i + from.len(),
                    ));
                }
                lemma_replaced_skips_one(rest, from@, to@);
                assert(rest.skip(1) =~= s@.skip(i + 1));
                assert(rest.take(1) =~= seq![s@[i as int]]);
            }
            out.push(s[i]);
            i += 1;
            assert(out@ + replaced(s@.skip(i as int), from@, to@) =~= before + replaced(
                rest,
                from@,
                to@,
            ));
        }
    }
    assert(out@ + replaced(s@.skip(i as int), from@, to@) =~= out@);
    out
}

/// `s` with every occurrence of `from` replaced by `to`; an empty `from`
/// leaves `s` as it is.
pub fn replace(s: &str, from: &str, to: &str) -> (r: String)
    ensures
        r@ == replaced(s@, from@, to@),
{
    let out = replace_chars(&chars_of(s), &chars_of(from), &chars_of(to));
    string_of(&out)
}

/// Whether `p` stands somewhere in `s`.
pub fn contains(s: &str, p: &str) -> (b: bool)
    ensures
        b == has_substring(s@, p@),
{
    contains_chars(&chars_of(s), &chars_of(p))
}

/// The parts in order, with `sep` between neighbours.
pub fn join(parts: &Vec<String>, sep: &str) -> (r: String)
    ensures
        r@ == joined(parts.deep_view(), sep@),
{
    let mut out = String::new();
    let mut i: usize = 0;
    while i < parts.len()
        invariant
            i <= parts.len(),
            out@ == joined(parts.deep_view().take(i as int), sep@),
        decreases parts.len() - i,
    {
        let ghost head = parts.deep_view().take(i as int + 1);
        assert(head.drop_last() =~= parts.deep_view().take(i as int));
        assert(head.last() == parts[i as int]@);
        if i > 0 {
            out.append(sep);
        }
        out.append(parts[i].as_str());
        i += 1;
        assert(out@ =~= joined(head, sep@));
    }
    assert(parts.deep_view().take(i as int) =~= parts.deep_view());
    out
}

/// Replacing a single character by a text that does not hold it leaves no
/// occurrence of that character.
pub proof fn lemma_replaced_char_is_gone(s: Seq<char>, from: Seq<char>, to: Seq<char>)
    requires
        from.len() == 1,
        !to.contains(from[0]),
    ensures
        !replaced(s, from, to).contains(from[0]),
    decreases s.len(),
{
    let c = from[0];
    let r = replaced(s, from, to);
    if s.len() >= 1 {
        let tail = replaced(s.skip(1), from, to);
        lemma_replaced_char_is_gone(s.skip(1), from, to);
        if s.take(1) == from {
            assert(r == to + tail);
            assert forall|i: int| 0 <= i < r.len() implies r[i] != c by {
                if i < to.len() {
                    assert(to.contains(r[i]));
                } else {
                    assert(tail.contains(r[i])) by {
                        assert(tail[i - to.len()] == r[i]);
                    }
                }
            }
        } else {
            assert(r == s.take(1) + tail);
            assert(s[0] != c) by {
                if s[0] == c {
                    assert(s.take(1) =~= from);
                }
            }
            assert forall|i: int| 0 <= i < r.len() implies r[i] != c by {
                if i >= 1 {
                    assert(tail.contains(r[i])) by {
                        assert(tail[i - 1] == r[i]);
                    }
                }
            }
        }
    }
}

/// A text that lacks a character holds no text in which that character stands.
pub proof fn lemma_substring_needs_its_chars(s: Seq<char>, p: Seq<char>, c: char)
    requires
        !s.contains(c),
        p.contains(c),
    ensures
        !has_substring(s, p),
{
    if has_substring(s, p) {
        let i = choose|i: int| occurs_at(s, p, i);
        let k = choose|k: int| 0 <= k < p.len() && p[k] == c;
        assert(s.subrange(i, i + p.len())[k] == s[i + k]);
        assert(s.contains(s[i + k]));
    }
}

} // verus!
