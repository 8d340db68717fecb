//! Texts as sequences of characters: white space, trimming and searching.

use vstd::prelude::*;
use vstd::string::*;

verus! {

/// `needle` stands in `hay` at place `at`.
pub open spec fn occurs_at(needle: Seq<char>, hay: Seq<char>, at: int) -> bool {
    0 <= at && at + needle.len() <= hay.len() && hay.subrange(at, at + needle.len()) == needle
}

/// `needle` stands somewhere in `hay`.
pub open spec fn occurs_in(needle: Seq<char>, hay: Seq<char>) -> bool {
    exists|at: int| occurs_at(needle, hay, at)
}

/// The characters of a text.
pub fn chars_of(text: &str) -> (list: Vec<char>)
    ensures
        list@ == text@,
{
    let mut list: Vec<char> = Vec::new();
    for c in it: text.chars()
        invariant
            list@ =~= it.seq().take(it.index() as int),
            it.seq() == text@,
    {
        proof {
            assert(it.seq().take(it.index() + 1) =~= it.seq().take(it.index() as int).push(c));
        }
        list.push(c);
    }
    list
}

fn stands_at(hay: &Vec<char>, needle: &Vec<char>, at: usize) -> (b: bool)
    requires
        at + needle@.len() <= hay@.len(),
    ensures
        b == occurs_at(needle@, hay@, at as int),
{
    let mut j: usize = 0;
    while j < needle.len()
        invariant
            j <= needle@.len(),
            at + needle@.len() <= hay@.len(),
            hay@.len() == hay.len(),
            forall|k: int| 0 <= k < j ==> hay@[at + k] == needle@[k],
        decreases needle@.len() - j,
    {
        if hay[at + j] != needle[j] {
            proof {
                let part = hay@.subrange(at as int, at + needle@.len());
                assert(part[j as int] == hay@[at + j]);
            }
            return false;
        }
        j = j + 1;
    }
    assert(hay@.subrange(at as int, at + needle@.len()) =~= needle@);
    true
}

/// Whether `needle` stands somewhere in `hay`.
pub fn contains_chars(hay: &Vec<char>, needle: &Vec<char>) -> (b: bool)
    ensures
        b == occurs_in(needle@, hay@),
{
    if needle.len() > hay.len() {
        return false;
    }
    let last = hay.len() - needle.len();
    let mut at: usize = 0;
    loop
        invariant
            at <= last,
            last + needle@.len() == hay@.len(),
            forall|k: int| 0 <= k < at ==> !occurs_at(needle@, hay@, k),
        decreases last - at,
    {
        if stands_at(hay, needle, at) {
            return true;
        }
        if at == last {
            return false;
        }
        at = at + 1;
    }
}

/// Whether a character is white space, as Unicode defines white space.
pub open spec fn is_space(c: char) -> bool {
    let n = c as u32;
    ||| 0x09 <= n <= 0x0d
    ||| n == 0x20
    ||| n == 0x85
    ||| n == 0xa0
    ||| n == 0x1680
    ||| 0x2000 <= n <= 0x200a
    ||| n == 0x2028
    ||| n == 0x2029
    ||| n == 0x202f
    ||| n == 0x205f
    ||| n == 0x3000
}

/// Whether a character is white space.
pub fn is_whitespace(c: char) -> (b: bool)
    ensures
        b == is_space(c),
{
    let n: u32 = c as u32;
    (0x09 <= n && n <= 0x0d) || n == 0x20 || n == 0x85 || n == 0xa0 || n == 0x1680 || (0x2000 <= n
        && n <= 0x200a) || n == 0x2028 || n == 0x2029 || n == 0x202f || n == 0x205f || n == 0x3000
}

/// The first place at or after `from` that holds no white space, or the end.
pub open spec fn skip_spaces(s: Seq<char>, from: int) -> int
    decreases s.len() - from,
{
    if 0 <= from < s.len() && is_space(s[from]) {
        skip_spaces(s, from + 1)
    } else {
        from
    }
}

/// The end of the text before `to` once the white space at its end is dropped.
pub open spec fn drop_spaces(s: Seq<char>, to: int) -> int
    decreases to,
{
    if 0 < to <= s.len() && is_space(s[to - 1]) {
        drop_spaces(s, to - 1)
    } else {
        to
    }
}

/// Where the text begins once the white space at its start is dropped.
pub open spec fn trim_start(s: Seq<char>) -> int {
    skip_spaces(s, 0)
}

/// Where the text ends once the white space at its end is dropped; the
/// start, where the text is all white space.
pub open spec fn trim_end(s: Seq<char>) -> int {
    if trim_start(s) >= s.len() {
        trim_start(s)
    } else {
        drop_spaces(s, s.len() as int)
    }
}

/// The text without the white space at its start and its end.
pub open spec fn trimmed(s: Seq<char>) -> Seq<char> {
    s.subrange(trim_start(s), trim_end(s))
}

/// Whether the text is empty or all white space.
pub open spec fn is_blank(s: Seq<char>) -> bool {
    trimmed(s).len() == 0
}

/// `skip_spaces` stays within the text.
pub proof fn lemma_skip_spaces_bounds(s: Seq<char>, from: int)
    requires
        0 <= from <= s.len(),
    ensures
        from <= skip_spaces(s, from) <= s.len(),
    decreases s.len() - from,
{
    if from < s.len() && is_space(s[from]) {
        lemma_skip_spaces_bounds(s, from + 1);
    }
}

/// `drop_spaces` stops at the last character that is no white space.
pub proof fn lemma_drop_spaces_bounds(s: Seq<char>, to: int, keep: int)
    requires
        0 <= keep < to <= s.len(),
        !is_space(s[keep]),
    ensures
        keep < drop_spaces(s, to) <= to,
    decreases to,
{
    if is_space(s[to - 1]) {
        lemma_drop_spaces_bounds(s, to - 1, keep);
    }
}

/// Where the text begins and ends once the white space around it is dropped.
pub fn trim_bounds(chars: &Vec<char>) -> (bounds: (usize, usize))
    ensures
        bounds.0 == trim_start(chars@),
        bounds.1 == trim_end(chars@),
        bounds.0 <= bounds.1 <= chars@.len(),
{
    let mut start: usize = 0;
    while start < chars.len() && is_whitespace(chars[start])
        invariant
            start <= chars@.len(),
            skip_spaces(chars@, 0) == skip_spaces(chars@, start as int),
        decreases chars@.len() - start,
    {
        start = start + 1;
    }
    if start >= chars.len() {
        return (start, start);
    }
    let mut end: usize = chars.len();
    while end > start + 1 && is_whitespace(chars[end - 1])
        invariant
            start < end <= chars@.len(),
            !is_space(chars@[start as int]),
            drop_spaces(chars@, chars@.len() as int) == drop_spaces(chars@, end as int),
        decreases end,
    {
        end = end - 1;
    }
    proof {
        if end == start + 1 {
            lemma_drop_spaces_bounds(chars@, end as int, start as int);
        }
    }
    (start, end)
}

/// The text without the white space at its start and its end.
pub fn trim_text(text: &str) -> (out: String)
    ensures
        out@ == trimmed(text@),
{
    let chars = chars_of(text);
    let (start, end) = trim_bounds(&chars);
    text.substring_char(start, end).to_owned()
}

/// The last place at or before `from` where `needle` stands in `hay`.
pub open spec fn last_at_or_before(needle: Seq<char>, hay: Seq<char>, from: int) -> Option<int>
    decreases from + 1,
{
    if from < 0 {
        None
    } else if occurs_at(needle, hay, from) {
        Some(from)
    } else {
        last_at_or_before(needle, hay, from - 1)
    }
}

/// The last place where `needle` stands in `hay`.
pub open spec fn last_occurrence(needle: Seq<char>, hay: Seq<char>) -> Option<int> {
    last_at_or_before(needle, hay, hay.len() - needle.len())
}

/// The last place where `needle` stands in `hay`.
pub fn find_last(hay: &Vec<char>, needle: &Vec<char>) -> (found: Option<usize>)
    ensures
        match found {
            Some(at) => last_occurrence(needle@, hay@) == Some(at as int) && at + needle@.len()
                <= hay@.len(),
            None => last_occurrence(needle@, hay@) is None,
        },
{
    if needle.len() > hay.len() {
        return None;
    }
    let mut at: usize = hay.len() - needle.len();
    loop
        invariant
            at + needle@.len() <= hay@.len(),
            last_occurrence(needle@, hay@) == last_at_or_before(needle@, hay@, at as int),
        decreases at,
    {
        if stands_at(hay, needle, at) {
            return Some(at);
        }
        if at == 0 {
            assert(last_at_or_before(needle@, hay@, -1) is None);
            return None;
        }
        at = at - 1;
    }
}

/// Whether `hay` begins with `needle`.
pub fn starts_with(hay: &Vec<char>, needle: &Vec<char>) -> (b: bool)
    ensures
        b == occurs_at(needle@, hay@, 0),
{
    if needle.len() > hay.len() {
        return false;
    }
    stands_at(hay, needle, 0)
}

/// `String::from_iter` of the standard library over the characters: the
/// text that they spell.
#[verifier::external_body]
pub(crate) fn string_of(chars: &Vec<char>) -> (text: String)
    ensures
        text@ == chars@,
{
    chars.iter().collect()
}

/// The texts of a list of character lists.
pub open spec fn char_lists(list: Seq<Vec<char>>) -> Seq<Seq<char>> {
    list.map_values(|chars: Vec<char>| chars@)
}

/// The texts joined into one, with `sep` between each two.
pub open spec fn joined(list: Seq<Seq<char>>, sep: Seq<char>) -> Seq<char>
    decreases list.len(),
{
    if list.len() == 0 {
        Seq::empty()
    } else if list.len() == 1 {
        list[0]
    } else {
        joined(list.drop_last(), sep) + sep + list.last()
    }
}

/// Joins texts with `sep` between each two.
pub fn join_chars(list: &Vec<Vec<char>>, sep: &Vec<char>) -> (out: Vec<char>)
    ensures
        out@ == joined(char_lists(list@), sep@),
{
    let mut out: Vec<char> = Vec::new();
    let mut i: usize = 0;
    while i < list.len()
        invariant
            i <= list@.len(),
            out@ == joined(char_lists(list@).take(i as int), sep@),
        decreases list@.len() - i,
    {
        proof {
            let all = char_lists(list@);
            assert(all.take(i + 1).drop_last() =~= all.take(i as int));
            assert(all.take(i + 1).last() == list@[i as int]@);
        }
        let ghost before = out@;
        if i > 0 {
            append_chars(&mut out, sep);
        }
        append_chars(&mut out, &list[i]);
        proof {
            if i == 0 {
                assert(out@ =~= list@[0]@);
            } else {
                assert(out@ =~= before + sep@ + list@[i as int]@);
            }
        }
        i = i + 1;
    }
    proof {
        assert(char_lists(list@).take(list@.len() as int) =~= char_lists(list@));
    }
    out
}

/// Appends a copy of `more` to `out`.
pub fn append_chars(out: &mut Vec<char>, more: &Vec<char>)
    ensures
        final(out)@ == old(out)@ + more@,
{
    let mut i: usize = 0;
    while i < more.len()
        invariant
            i <= more@.len(),
            out@ == old(out)@ + more@.take(i as int),
        decreases more@.len() - i,
    {
        out.push(more[i]);
        assert(out@ =~= old(out)@ + more@.take(i + 1));
        i = i + 1;
    }
    assert(more@.take(more@.len() as int) =~= more@);
}

/// The words of a text: its longest runs of characters that are no white space.
pub open spec fn words(s: Seq<char>) -> Seq<Seq<char>>
    decreases s.len(),
{
    if s.len() == 0 {
        Seq::empty()
    } else {
        let before = words(s.drop_last());
        let c = s.last();
        if is_space(c) {
            before
        } else if s.len() >= 2 && !is_space(s[s.len() - 2]) && before.len() > 0 {
            before.drop_last().push(before.last().push(c))
        } else {
            before.push(seq![c])
        }
    }
}

/// The text with every run of white space made one space, and none at its
/// start or its end.
pub open spec fn squeezed(s: Seq<char>) -> Seq<char> {
    joined(words(s), seq![' '])
}

/// A text that ends in a character that is no white space has a word.
pub proof fn lemma_words_nonempty(s: Seq<char>)
    requires
        s.len() > 0,
        !is_space(s.last()),
    ensures
        words(s).len() > 0,
{
}

/// The words of a text.
pub fn split_words(chars: &Vec<char>) -> (out: Vec<Vec<char>>)
    ensures
        char_lists(out@) == words(chars@),
{
    let mut out: Vec<Vec<char>> = Vec::new();
    let mut i: usize = 0;
    proof {
        assert(chars@.take(0) =~= Seq::<char>::empty());
        assert(char_lists(out@) =~= words(chars@.take(0)));
    }
    while i < chars.len()
        invariant
            i <= chars@.len(),
            char_lists(out@) == words(chars@.take(i as int)),
        decreases chars@.len() - i,
    {
        let c = chars[i];
        proof {
            let s = chars@.take(i + 1);
            assert(s.drop_last() =~= chars@.take(i as int));
            assert(s.last() == c);
            if i > 0 {
                assert(s[s.len() - 2] == chars@[i - 1]);
                assert(chars@.take(i as int).last() == chars@[i - 1]);
                if !is_space(chars@[i - 1]) {
                    lemma_words_nonempty(chars@.take(i as int));
                }
            }
        }
        if !is_whitespace(c) {
            if i > 0 && !is_whitespace(chars[i - 1]) {
                assert(out@.len() > 0) by {
                    assert(char_lists(out@).len() == out@.len());
                }
                let ghost before = out@;
                let mut word = out.pop().unwrap();
                word.push(c);
                proof {
                    assert(char_lists(out@.push(word)) =~= char_lists(before).drop_last().push(
                        char_lists(before).last().push(c),
                    ));
                }
                out.push(word);
            } else {
                let word: Vec<char> = vec![c];
                proof {
                    assert(word@ =~= seq![c]);
                    assert(char_lists(out@.push(word)) =~= char_lists(out@).push(seq![c]));
                    if i > 0 {
                    } else {
                        assert(words(chars@.take(0)).len() == 0);
                    }
                }
                out.push(word);
            }
        }
        i = i + 1;
    }
    proof {
        assert(chars@.take(chars@.len() as int) =~= chars@);
    }
    out
}

} // verus!
