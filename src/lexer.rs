//! Character-level helpers for line-oriented text formats: splitting a line
//! into whitespace-separated words and a word into separator-delimited fields.

use vstd::prelude::*;

verus! {

/// Unicode `White_Space` code points, the set that `char::is_whitespace` uses.
pub open spec fn is_space(c: char) -> bool {
    let n = c as u32;
    (0x09 <= n <= 0x0D) || n == 0x20 || n == 0x85 || n == 0xA0 || n == 0x1680 || (0x2000 <= n
        <= 0x200A) || n == 0x2028 || n == 0x2029 || n == 0x202F || n == 0x205F || n == 0x3000
}

/// The maximal runs of non-space characters of `s`, in order.
pub open spec fn words(s: Seq<char>) -> Seq<Seq<char>>
    decreases s.len(),
{
    if s.len() == 0 {
        seq![]
    } else {
        let prev = words(s.drop_last());
        let c = s.last();
        if is_space(c) {
            prev
        } else if s.len() >= 2 && !is_space(s[s.len() - 2]) {
            prev.drop_last().push(prev.last().push(c))
        } else {
            prev.push(seq![c])
        }
    }
}

/// The pieces of `s` between occurrences of `sep`; there is always at least one.
pub open spec fn fields(s: Seq<char>, sep: char) -> Seq<Seq<char>>
    decreases s.len(),
{
    if s.len() == 0 {
        seq![seq![]]
    } else {
        let prev = fields(s.drop_last(), sep);
        if s.last() == sep {
            prev.push(seq![])
        } else {
            prev.update(prev.len() - 1, prev.last().push(s.last()))
        }
    }
}

/// The contents of a sequence of character vectors.
pub open spec fn texts(v: Seq<Vec<char>>) -> Seq<Seq<char>> {
    v.map_values(|w: Vec<char>| w@)
}

/// Whether `c` is a whitespace character in the sense of `char::is_whitespace`.
pub fn is_space_char(c: char) -> (r: bool)
    ensures
        r == is_space(c),
{
    let n = c as u32;
    (0x09 <= n && n <= 0x0D) || n == 0x20 || n == 0x85 || n == 0xA0 || n == 0x1680 || (0x2000 <= n
        && n <= 0x200A) || n == 0x2028 || n == 0x2029 || n == 0x202F || n == 0x205F || n == 0x3000
}

/// The characters of `s`, in order.
pub fn chars_of(s: &str) -> (r: Vec<char>)
    ensures
        r@ == s@,
{
    let mut r: Vec<char> = Vec::new();
    for c in it: s.chars()
        invariant
            r@ == it.seq().take(it.index() as int),
    {
        r.push(c);
    }
    r
}

/// Splits `line` into its whitespace-separated words, as `str::split_whitespace` does.
pub fn split_words(line: &Vec<char>) -> (r: Vec<Vec<char>>)
    ensures
        texts(r@) == words(line@),
{
    let mut out: Vec<Vec<char>> = Vec::new();
    let mut cur: Vec<char> = Vec::new();
    let mut in_word = false;
    let mut i: usize = 0;
    while i < line.len()
        invariant
            i <= line@.len(),
            in_word ==> i > 0 && !is_space(line@[i - 1]) && texts(out@).push(cur@) == words(
                line@.take(i as int),
            ),
            !in_word ==> (i == 0 || is_space(line@[i - 1])) && texts(out@) == words(
                line@.take(i as int),
            ),
        decreases line@.len() - i,
    {
        let c = line[i];
        proof {
            let s = line@.take(i + 1);
            assert(s.drop_last() =~= line@.take(i as int));
            assert(s.last() == c);
            if i > 0 {
                assert(s[s.len() - 2] == line@[i - 1]);
            }
        }
        if is_space_char(c) {
            if in_word {
                let ghost prev = out@;
                let ghost word = cur@;
                out.push(cur);
                cur = Vec::new();
                in_word = false;
                assert(texts(out@) =~= texts(prev).push(word));
            }
        } else {
            if !in_word {
                cur = Vec::new();
                assert(texts(out@).push(seq![c]) =~= texts(out@).push(cur@.push(c)));
            } else {
                assert(texts(out@).push(cur@).drop_last() =~= texts(out@));
            }
            cur.push(c);
            in_word = true;
        }
        i = i + 1;
    }
    assert(line@.take(i as int) =~= line@);
    if in_word {
        let ghost prev = out@;
        let ghost word = cur@;
        out.push(cur);
        assert(texts(out@) =~= texts(prev).push(word));
    }
    out
}

/// Splits `word` at every occurrence of `sep`, as `str::split` does.
pub fn split_fields(word: &Vec<char>, sep: char) -> (r: Vec<Vec<char>>)
    ensures
        texts(r@) == fields(word@, sep),
{
    let mut out: Vec<Vec<char>> = Vec::new();
    let mut cur: Vec<char> = Vec::new();
    let mut i: usize = 0;
    while i < word.len()
        invariant
            i <= word@.len(),
            texts(out@).push(cur@) == fields(word@.take(i as int), sep),
        decreases word@.len() - i,
    {
        let c = word[i];
        proof {
            let s = word@.take(i + 1);
            assert(s.drop_last() =~= word@.take(i as int));
            assert(s.last() == c);
        }
        let ghost prev = out@;
        let ghost piece = cur@;
        if c == sep {
            out.push(cur);
            cur = Vec::new();
            assert(texts(out@).push(cur@) =~= texts(prev).push(piece).push(seq![]));
        } else {
            cur.push(c);
            assert(texts(out@).push(cur@) =~= texts(prev).push(piece).update(
                texts(prev).len() as int,
                piece.push(c),
            ));
        }
        i = i + 1;
    }
    assert(word@.take(i as int) =~= word@);
    let ghost prev = out@;
    let ghost piece = cur@;
    out.push(cur);
    assert(texts(out@) =~= texts(prev).push(piece));
    out
}

} // verus!
