//! Splitting a line into whitespace-delimited words.

use vstd::prelude::*;
use vstd::slice::slice_subrange;
use crate::ascii::{CARRIAGE_RETURN, FORM_FEED, LINE_FEED, SPACE, TAB};

verus! {

/// Where the whitespace that begins at `from` ends: the index of the first
/// byte at or after `from` that is not whitespace, or the end of `s`.
pub open spec fn word_start(s: Seq<u8>, from: int) -> int
    decreases s.len() - from,
{
    if 0 <= from < s.len() && crate::ascii::is_whitespace(s[from]) {
        word_start(s, from + 1)
    } else {
        from
    }
}

/// Where the word that begins at `from` ends: the index of the first byte at
/// or after `from` that is whitespace, or the end of `s`.
pub open spec fn word_end(s: Seq<u8>, from: int) -> int
    decreases s.len() - from,
{
    if 0 <= from < s.len() && !crate::ascii::is_whitespace(s[from]) {
        word_end(s, from + 1)
    } else {
        from
    }
}

/// The words of `s` that begin at or after the index `from`, from left to
/// right.
pub open spec fn words_from(s: Seq<u8>, from: int) -> Seq<Seq<u8>>
    decreases s.len() - from,
{
    let start = word_start(s, from);
    let end = word_end(s, start);
    if from <= start < end <= s.len() {
        seq![s.subrange(start, end)] + words_from(s, end)
    } else {
        Seq::empty()
    }
}

/// The words of `s`: its maximal runs of bytes that are not whitespace, from
/// left to right.
pub open spec fn words_of(s: Seq<u8>) -> Seq<Seq<u8>> {
    words_from(s, 0)
}

/// Whether the bytes of `s` from `start` up to `end` are a word: a run of
/// bytes that are not whitespace, which is not empty and has whitespace or an
/// end of `s` on either side.
pub open spec fn is_word(s: Seq<u8>, start: int, end: int) -> bool {
    &&& 0 <= start < end <= s.len()
    &&& forall|k: int| start <= k < end ==> !crate::ascii::is_whitespace(#[trigger] s[k])
    &&& (start == 0 || crate::ascii::is_whitespace(s[start - 1]))
    &&& (end == s.len() || crate::ascii::is_whitespace(s[end]))
}

/// Where the words of `s` that begin at or after the index `from` stand, from
/// left to right: for each, the index at which it begins and the index at
/// which it ends.
pub open spec fn spans_from(s: Seq<u8>, from: int) -> Seq<(int, int)>
    decreases s.len() - from,
{
    let start = word_start(s, from);
    let end = word_end(s, start);
    if from <= start < end <= s.len() {
        seq![(start, end)] + spans_from(s, end)
    } else {
        Seq::empty()
    }
}

/// Whether no word of `s` begins before the index `from` and goes on at it.
pub open spec fn between_words(s: Seq<u8>, from: int) -> bool {
    &&& 0 <= from <= s.len()
    &&& (from == 0 || from == s.len() || crate::ascii::is_whitespace(s[from - 1])
        || crate::ascii::is_whitespace(s[from]))
}

/// `word_start` skips whitespace and nothing else.
pub proof fn lemma_word_start(s: Seq<u8>, from: int)
    requires
        0 <= from <= s.len(),
    ensures
        from <= word_start(s, from) <= s.len(),
        forall|k: int|
            from <= k < word_start(s, from) ==> crate::ascii::is_whitespace(#[trigger] s[k]),
        word_start(s, from) < s.len() ==> !crate::ascii::is_whitespace(s[word_start(s, from)]),
    decreases s.len() - from,
{
    if from < s.len() && crate::ascii::is_whitespace(s[from]) {
        lemma_word_start(s, from + 1);
    }
}

/// `word_end` skips what is not whitespace and nothing else.
pub proof fn lemma_word_end(s: Seq<u8>, from: int)
    requires
        0 <= from <= s.len(),
    ensures
        from <= word_end(s, from) <= s.len(),
        forall|k: int|
            from <= k < word_end(s, from) ==> !crate::ascii::is_whitespace(#[trigger] s[k]),
        word_end(s, from) < s.len() ==> crate::ascii::is_whitespace(s[word_end(s, from)]),
        from < s.len() && !crate::ascii::is_whitespace(s[from]) ==> from < word_end(s, from),
    decreases s.len() - from,
{
    if from < s.len() && !crate::ascii::is_whitespace(s[from]) {
        lemma_word_end(s, from + 1);
    }
}

/// The words are the bytes that stand at the spans, one word for each span.
pub proof fn lemma_words_stand_at_spans(s: Seq<u8>, from: int)
    ensures
        words_from(s, from).len() == spans_from(s, from).len(),
        forall|k: int|
            0 <= k < spans_from(s, from).len() ==> #[trigger] words_from(s, from)[k]
                == s.subrange(spans_from(s, from)[k].0, spans_from(s, from)[k].1),
    decreases s.len() - from,
{
    let start = word_start(s, from);
    let end = word_end(s, start);
    if from <= start < end <= s.len() {
        lemma_words_stand_at_spans(s, end);
        let words = words_from(s, from);
        let spans = spans_from(s, from);
        assert forall|k: int| 0 <= k < spans.len() implies #[trigger] words[k] == s.subrange(
            spans[k].0,
            spans[k].1,
        ) by {
            if k > 0 {
                assert(words[k] == words_from(s, end)[k - 1]);
                assert(spans[k] == spans_from(s, end)[k - 1]);
            }
        }
    }
}

/// Every span is a word, the spans stand from left to right, and whitespace
/// parts each from the next.
pub proof fn lemma_spans_are_words(s: Seq<u8>, from: int)
    requires
        between_words(s, from),
    ensures
        forall|k: int|
            0 <= k < spans_from(s, from).len() ==> from <= (#[trigger] spans_from(s, from)[k]).0
                && is_word(s, spans_from(s, from)[k].0, spans_from(s, from)[k].1),
        forall|j: int, k: int|
            0 <= j < k < spans_from(s, from).len() ==> (#[trigger] spans_from(s, from)[j]).1 < (
            #[trigger] spans_from(s, from)[k]).0,
    decreases s.len() - from,
{
    lemma_word_start(s, from);
    let start = word_start(s, from);
    lemma_word_end(s, start);
    let end = word_end(s, start);
    if from <= start < end <= s.len() {
        let spans = spans_from(s, from);
        let rest = spans_from(s, end);
        lemma_spans_are_words(s, end);
        assert(is_word(s, start, end)) by {
            if start > from {
                assert(crate::ascii::is_whitespace(s[start - 1]));
            }
        }
        assert forall|k: int| 0 <= k < spans.len() implies from <= (#[trigger] spans[k]).0
            && is_word(s, spans[k].0, spans[k].1) by {
            if k > 0 {
                assert(spans[k] == rest[k - 1]);
            }
        }
        assert forall|j: int, k: int| 0 <= j < k < spans.len() implies (#[trigger] spans[j]).1 < (
        #[trigger] spans[k]).0 by {
            assert(spans[k] == rest[k - 1]);
            assert(is_word(s, rest[k - 1].0, rest[k - 1].1));
            if j > 0 {
                assert(spans[j] == rest[j - 1]);
            } else {
                let next = rest[k - 1].0;
                assert(end <= next);
                assert(!crate::ascii::is_whitespace(s[next]));
            }
        }
    }
}

/// No word is left out: every word of `s` that begins at or after `from` is a
/// span. Returns the place of the word among the spans.
pub proof fn lemma_spans_are_complete(s: Seq<u8>, from: int, start: int, end: int) -> (k: int)
    requires
        between_words(s, from),
        is_word(s, start, end),
        from <= start,
    ensures
        0 <= k < spans_from(s, from).len(),
        spans_from(s, from)[k] == (start, end),
    decreases s.len() - from,
{
    lemma_word_start(s, from);
    let first = word_start(s, from);
    assert(!crate::ascii::is_whitespace(s[start]));
    assert(first <= start);
    lemma_word_end(s, first);
    let last = word_end(s, first);
    if start == first {
        if end < last {
            assert(!crate::ascii::is_whitespace(s[end]));
        }
        if last < end {
            assert(!crate::ascii::is_whitespace(s[last]));
        }
        0
    } else if start < last {
        assert(!crate::ascii::is_whitespace(s[start - 1]));
        0
    } else {
        let k = lemma_spans_are_complete(s, last, start, end);
        assert(spans_from(s, from)[k + 1] == spans_from(s, last)[k]);
        k + 1
    }
}

/// The words of `s` are its maximal runs of bytes that are not whitespace, all
/// of them, each once, from left to right: they stand at spans of which each
/// is a word, each lies behind the one before it, and none is missing.
pub proof fn lemma_words_of(s: Seq<u8>)
    ensures
        words_of(s).len() == spans_from(s, 0).len(),
        forall|k: int|
            0 <= k < words_of(s).len() ==> #[trigger] words_of(s)[k] == s.subrange(
                spans_from(s, 0)[k].0,
                spans_from(s, 0)[k].1,
            ),
        forall|k: int|
            0 <= k < spans_from(s, 0).len() ==> is_word(
                s,
                (#[trigger] spans_from(s, 0)[k]).0,
                spans_from(s, 0)[k].1,
            ),
        forall|j: int, k: int|
            0 <= j < k < spans_from(s, 0).len() ==> (#[trigger] spans_from(s, 0)[j]).1 < (
            #[trigger] spans_from(s, 0)[k]).0,
        forall|start: int, end: int|
            is_word(s, start, end) ==> spans_from(s, 0).contains((start, end)),
{
    lemma_words_stand_at_spans(s, 0);
    lemma_spans_are_words(s, 0);
    assert forall|start: int, end: int| is_word(s, start, end) implies spans_from(s, 0).contains(
        (start, end),
    ) by {
        let k = lemma_spans_are_complete(s, 0, start, end);
    }
}

/// No word is empty, and none holds whitespace.
pub proof fn lemma_words_hold_no_whitespace(s: Seq<u8>, k: int)
    requires
        0 <= k < words_of(s).len(),
    ensures
        words_of(s)[k].len() > 0,
        forall|i: int|
            0 <= i < words_of(s)[k].len() ==> !crate::ascii::is_whitespace(
                #[trigger] words_of(s)[k][i],
            ),
{
    lemma_words_of(s);
    let span = spans_from(s, 0)[k];
    assert(is_word(s, span.0, span.1));
    let word = words_of(s)[k];
    assert forall|i: int| 0 <= i < word.len() implies !crate::ascii::is_whitespace(
        #[trigger] word[i],
    ) by {
        assert(word[i] == s[span.0 + i]);
    }
}

/// Helper function for the words of a line.
fn is_whitespace(byte: &u8) -> (white: bool)
    ensures
        white == crate::ascii::is_whitespace(*byte),
{
    let b = *byte;
    b == SPACE || b == TAB || b == LINE_FEED || b == FORM_FEED || b == CARRIAGE_RETURN
}

/// The words of a line, handed out one at a time from left to right. Every
/// word borrows from the line; none is copied.
pub struct Words<'a> {
    line: &'a [u8],
    position: usize,
}

impl<'a> View for Words<'a> {
    type V = Seq<Seq<u8>>;

    /// The words that have not been handed out yet.
    closed spec fn view(&self) -> Seq<Seq<u8>> {
        words_from(self.line@, self.position as int)
    }
}

impl<'a> Words<'a> {
    /// The words of `line`.
    pub fn new(line: &'a [u8]) -> (words: Self)
        ensures
            words@ == words_of(line@),
    {
        Words { line, position: 0 }
    }

    /// Hands out the next word, if one is left.
    pub fn next(&mut self) -> (word: Option<&'a [u8]>)
        ensures
            old(self)@.len() == 0 ==> word.is_none() && final(self)@ == old(self)@,
            old(self)@.len() > 0 ==> word.is_some() && word.unwrap()@ == old(self)@[0]
                && final(self)@ == old(self)@.drop_first(),
    {
        let line = self.line;
        let mut start = self.position;
        while start < line.len() && is_whitespace(&line[start])
            invariant
                self.position <= start,
                word_start(line@, start as int) == word_start(line@, self.position as int),
            decreases line.len() - start,
        {
            start += 1;
        }
        let mut end = start;
        while end < line.len() && !is_whitespace(&line[end])
            invariant
                start <= end,
                end == start || end <= line.len(),
                word_end(line@, end as int) == word_end(line@, start as int),
            decreases line.len() - end,
        {
            end += 1;
        }
        if start < end {
            self.position = end;
            let word = slice_subrange(line, start, end);
            assert(old(self)@ =~= seq![word@] + self@);
            assert(old(self)@.drop_first() =~= self@);
            Some(word)
        } else {
            None
        }
    }
}

} // verus!
