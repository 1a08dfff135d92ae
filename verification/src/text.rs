//! Text as sequences of characters: what the edit buffers and the time
//! fields need beyond what strings offer verified code.

use vstd::prelude::*;

verus! {

/// Whether `c`, a character beyond ASCII, is white space, as
/// `char::is_whitespace` tells it.
pub uninterp spec fn white_space_beyond_ascii(c: char) -> bool;

/// Whether `c` is white space. Of the ASCII characters the space is, and
/// the five from tab to carriage return; beyond ASCII
/// `white_space_beyond_ascii` tells.
pub open spec fn is_white_space(c: char) -> bool {
    if c <= '\x7f' {
        c == ' ' || ('\t' <= c && c <= '\r')
    } else {
        white_space_beyond_ascii(c)
    }
}

/// `char::is_whitespace` tells whether a character has the Unicode property
/// White_Space. It decides by the character alone. Of the ASCII characters
/// the property holds of the space and of the five from tab (U+0009) to
/// carriage return (U+000D), and of no other; for the characters beyond
/// ASCII its answer is what `white_space_beyond_ascii` stands for.
pub assume_specification[ char::is_whitespace ](c: char) -> (r: bool)
    ensures
        c <= '\x7f' ==> r == (c == ' ' || ('\t' <= c && c <= '\r')),
        c > '\x7f' ==> r == white_space_beyond_ascii(c),
;

/// `String::push` appends the character to the end of the text.
pub assume_specification[ String::push ](s: &mut String, c: char)
    ensures
        final(s)@ == old(s)@.push(c),
;

/// `String::pop` takes the last character off the text and returns it, or
/// returns nothing and leaves an empty text as it is.
pub assume_specification[ String::pop ](s: &mut String) -> (r: Option<char>)
    ensures
        old(s)@.len() > 0 ==> r == Some(old(s)@.last()) && final(s)@ == old(s)@.drop_last(),
        old(s)@.len() == 0 ==> r is None && final(s)@ == old(s)@,
;

/// `s` without the white space it starts with.
pub open spec fn trim_start(s: Seq<char>) -> Seq<char>
    decreases s.len(),
{
    if s.len() > 0 && is_white_space(s[0]) {
        trim_start(s.drop_first())
    } else {
        s
    }
}

/// `s` without the white space it ends with.
pub open spec fn trim_end(s: Seq<char>) -> Seq<char>
    decreases s.len(),
{
    if s.len() > 0 && is_white_space(s.last()) {
        trim_end(s.drop_last())
    } else {
        s
    }
}

/// `s` without the white space around it.
pub open spec fn trimmed(s: Seq<char>) -> Seq<char> {
    trim_end(trim_start(s))
}

/// `s` without its last character; an empty `s` stays empty.
pub open spec fn without_last(s: Seq<char>) -> Seq<char> {
    if s.len() > 0 {
        s.drop_last()
    } else {
        s
    }
}

/// The characters of a text, in order.
pub fn chars_of(text: &str) -> (r: Vec<char>)
    ensures
        r@ == text@,
{
    let mut out: Vec<char> = Vec::new();
    for c in it: text.chars()
        invariant
            out@ == it.seq().take(it.index() as int),
            it.seq() == text@,
    {
        out.push(c);
    }
    out
}

/// The text made of the characters from place `from` up to place `to`.
pub fn text_of(chars: &Vec<char>, from: usize, to: usize) -> (r: String)
    requires
        from <= to <= chars@.len(),
    ensures
        r@ == chars@.subrange(from as int, to as int),
{
    let mut out = String::new();
    let mut i: usize = from;
    while i < to
        invariant
            from <= i <= to <= chars@.len(),
            out@ == chars@.subrange(from as int, i as int),
        decreases to - i,
    {
        out.push(chars[i]);
        assert(out@ =~= chars@.subrange(from as int, i + 1));
        i += 1;
    }
    out
}

/// A copy of the text without the white space around it.
pub fn trim_to_string(text: &str) -> (r: String)
    ensures
        r@ == trimmed(text@),
{
    let chars = chars_of(text);
    let n = chars.len();
    let mut start: usize = 0;
    assert(chars@.subrange(0, n as int) =~= chars@);
    while start < n && chars[start].is_whitespace()
        invariant
            0 <= start <= n,
            n == chars@.len(),
            trim_start(chars@) == trim_start(chars@.subrange(start as int, n as int)),
        decreases n - start,
    {
        proof {
            let rest = chars@.subrange(start as int, n as int);
            assert(rest[0] == chars@[start as int]);
            assert(rest.drop_first() =~= chars@.subrange(start + 1, n as int));
        }
        start += 1;
    }
    proof {
        let rest = chars@.subrange(start as int, n as int);
        if start < n {
            assert(rest[0] == chars@[start as int]);
        }
        assert(trim_start(chars@) == rest);
    }
    let mut end: usize = n;
    while end > start && chars[end - 1].is_whitespace()
        invariant
            start <= end <= n,
            n == chars@.len(),
            trimmed(chars@) == trim_end(chars@.subrange(start as int, end as int)),
        decreases end - start,
    {
        proof {
            let rest = chars@.subrange(start as int, end as int);
            assert(rest.last() == chars@[end - 1]);
            assert(rest.drop_last() =~= chars@.subrange(start as int, end - 1));
        }
        end -= 1;
    }
    proof {
        let rest = chars@.subrange(start as int, end as int);
        if end > start {
            assert(rest.last() == chars@[end - 1]);
        }
        assert(trimmed(chars@) == rest);
    }
    text_of(&chars, start, end)
}

/// A copy of the text with `c` in place of the character at place `at`.
pub fn with_char_at(text: &str, at: usize, c: char) -> (r: String)
    requires
        at < text@.len(),
    ensures
        r@ == text@.update(at as int, c),
{
    let mut chars = chars_of(text);
    chars.set(at, c);
    let n = chars.len();
    text_of(&chars, 0, n)
}

/// What is left of a text without the white space it starts with: a tail
/// of the text, cut behind nothing but white space, that starts with none.
pub proof fn lemma_trim_start_is_a_tail(s: Seq<char>)
    ensures
        trim_start(s).len() <= s.len(),
        trim_start(s) == s.subrange(s.len() - trim_start(s).len(), s.len() as int),
        forall|i: int| 0 <= i < s.len() - trim_start(s).len() ==> is_white_space(#[trigger] s[i]),
        trim_start(s).len() > 0 ==> !is_white_space(trim_start(s)[0]),
    decreases s.len(),
{
    if s.len() > 0 && is_white_space(s[0]) {
        let rest = s.drop_first();
        lemma_trim_start_is_a_tail(rest);
        let cut = s.len() - trim_start(s).len();
        assert(trim_start(s) =~= s.subrange(cut, s.len() as int));
        assert forall|i: int| 0 <= i < cut implies is_white_space(#[trigger] s[i]) by {
            if i > 0 {
                assert(s[i] == rest[i - 1]);
            }
        }
    } else {
        assert(s =~= s.subrange(0, s.len() as int));
    }
}

/// What is left of a text without the white space it ends with: a head of
/// the text, cut before nothing but white space, that ends with none.
pub proof fn lemma_trim_end_is_a_head(s: Seq<char>)
    ensures
        trim_end(s).len() <= s.len(),
        trim_end(s) == s.subrange(0, trim_end(s).len() as int),
        forall|i: int| trim_end(s).len() <= i < s.len() ==> is_white_space(#[trigger] s[i]),
        trim_end(s).len() > 0 ==> !is_white_space(trim_end(s).last()),
    decreases s.len(),
{
    if s.len() > 0 && is_white_space(s.last()) {
        let rest = s.drop_last();
        lemma_trim_end_is_a_head(rest);
        assert(trim_end(s) =~= s.subrange(0, trim_end(s).len() as int));
        assert forall|i: int| trim_end(s).len() <= i < s.len() implies is_white_space(
            #[trigger] s[i],
        ) by {
            if i < s.len() - 1 {
                assert(s[i] == rest[i]);
            }
        }
    } else {
        assert(s =~= s.subrange(0, s.len() as int));
    }
}

/// What trimming leaves of a text: the stretch from its first character
/// that is no white space to its last, and nothing where it has none.
pub proof fn lemma_trimmed_is_the_core(s: Seq<char>)
    ensures
        exists|from: int, to: int|
            {
                &&& 0 <= from <= to <= s.len()
                &&& #[trigger] s.subrange(from, to) == trimmed(s)
                &&& forall|i: int| 0 <= i < from ==> is_white_space(#[trigger] s[i])
                &&& forall|i: int| to <= i < s.len() ==> is_white_space(#[trigger] s[i])
                &&& from < to ==> !is_white_space(s[from]) && !is_white_space(s[to - 1])
            },
{
    lemma_trim_start_is_a_tail(s);
    let tail = trim_start(s);
    lemma_trim_end_is_a_head(tail);
    let from = s.len() - tail.len();
    let to = from + trim_end(tail).len();
    assert(s.subrange(from, to) =~= trimmed(s));
    assert forall|i: int| to <= i < s.len() implies is_white_space(#[trigger] s[i]) by {
        assert(s[i] == tail[i - from]);
    }
    if from < to {
        assert(trim_end(tail)[0] == tail[0]);
        assert(tail[0] == s[from]);
        assert(trim_end(tail).last() == tail[to - from - 1]);
        assert(tail[to - from - 1] == s[to - 1]);
    }
}

/// A text with nothing but white space in it trims to nothing.
pub proof fn lemma_blank_trims_to_nothing(s: Seq<char>)
    requires
        forall|i: int| 0 <= i < s.len() ==> is_white_space(#[trigger] s[i]),
    ensures
        trimmed(s).len() == 0,
    decreases s.len(),
{
    if s.len() > 0 {
        let rest = s.drop_first();
        assert forall|i: int| 0 <= i < rest.len() implies is_white_space(#[trigger] rest[i]) by {
            assert(rest[i] == s[i + 1]);
        }
        lemma_blank_trims_to_nothing(rest);
    }
}

} // verus!
