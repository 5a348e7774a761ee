//! The quote-aware tokenizer: one input line becomes an ordered sequence of
//! string tokens. Whitespace separates tokens outside quotes; a token opened
//! by `'` or `"` runs to the matching close quote of the same kind and keeps
//! its inner whitespace verbatim; the quote characters themselves are
//! dropped. An unterminated quote yields everything after the opening quote.
//!
//! The scanner walks decoded characters, never raw bytes, so multi-byte
//! text cannot be cut at a malformed boundary.

use crate::text::{is_space, is_space_char};
use vstd::prelude::*;
use vstd::string::*;

verus! {

/// First position at or after `i` holding a non-whitespace character, or the
/// end of `s`.
pub open spec fn find_non_space(s: Seq<char>, i: int) -> int
    decreases s.len() - i
    when 0 <= i <= s.len()
{
    if i >= s.len() {
        s.len() as int
    } else if is_space(s[i]) {
        find_non_space(s, i + 1)
    } else {
        i
    }
}

/// First position at or after `i` holding a whitespace character, or the end
/// of `s`.
pub open spec fn find_space(s: Seq<char>, i: int) -> int
    decreases s.len() - i
    when 0 <= i <= s.len()
{
    if i >= s.len() {
        s.len() as int
    } else if !is_space(s[i]) {
        find_space(s, i + 1)
    } else {
        i
    }
}

/// First position at or after `i` holding the character `q`, or the end of
/// `s`.
pub open spec fn find_char(s: Seq<char>, i: int, q: char) -> int
    decreases s.len() - i
    when 0 <= i <= s.len()
{
    if i >= s.len() {
        s.len() as int
    } else if s[i] != q {
        find_char(s, i + 1, q)
    } else {
        i
    }
}

pub proof fn lemma_find_non_space_bounds(s: Seq<char>, i: int)
    requires
        0 <= i <= s.len(),
    ensures
        i <= find_non_space(s, i) <= s.len(),
        forall|m: int| i <= m < find_non_space(s, i) ==> is_space(#[trigger] s[m]),
        find_non_space(s, i) < s.len() ==> !is_space(s[find_non_space(s, i)]),
    decreases s.len() - i,
{
    if i < s.len() && is_space(s[i]) {
        lemma_find_non_space_bounds(s, i + 1);
    }
}

pub proof fn lemma_find_space_bounds(s: Seq<char>, i: int)
    requires
        0 <= i <= s.len(),
    ensures
        i <= find_space(s, i) <= s.len(),
        forall|m: int| i <= m < find_space(s, i) ==> !is_space(#[trigger] s[m]),
        find_space(s, i) < s.len() ==> is_space(s[find_space(s, i)]),
    decreases s.len() - i,
{
    if i < s.len() && !is_space(s[i]) {
        lemma_find_space_bounds(s, i + 1);
    }
}

pub proof fn lemma_find_char_bounds(s: Seq<char>, i: int, q: char)
    requires
        0 <= i <= s.len(),
    ensures
        i <= find_char(s, i, q) <= s.len(),
        forall|m: int| i <= m < find_char(s, i, q) ==> #[trigger] s[m] != q,
        find_char(s, i, q) < s.len() ==> s[find_char(s, i, q)] == q,
    decreases s.len() - i,
{
    if i < s.len() && s[i] != q {
        lemma_find_char_bounds(s, i + 1, q);
    }
}

/// The token the scanner emits when started at position `entry`, together
/// with the position the scan stops at, or `None` when the input is
/// exhausted first.
///
/// Mirrors the four-state scan: leading whitespace is skipped; a quote opens
/// a quoted token that runs to the matching close quote (or, unterminated,
/// to the end of input); any other character opens a bare word that runs to
/// the next whitespace. When only whitespace remains, that whitespace itself
/// is emitted as the final token, because characters were scanned since the
/// last token; when nothing was scanned, the sequence ends.
pub open spec fn next_token(s: Seq<char>, entry: int) -> Option<(Seq<char>, int)> {
    let k = find_non_space(s, entry);
    if k >= s.len() {
        if entry >= s.len() {
            None
        } else {
            Some((s.subrange(entry, s.len() as int), s.len() as int))
        }
    } else if s[k] == '\'' || s[k] == '"' {
        let close = find_char(s, k + 1, s[k]);
        if close >= s.len() {
            if k + 1 >= s.len() {
                None
            } else {
                Some((s.subrange(k + 1, s.len() as int), s.len() as int))
            }
        } else {
            Some((s.subrange(k + 1, close), close + 1))
        }
    } else {
        let close = find_space(s, k);
        Some((s.subrange(k, close), close))
    }
}

pub proof fn lemma_next_token_bounds(s: Seq<char>, entry: int)
    requires
        0 <= entry <= s.len(),
    ensures
        next_token(s, entry) matches Some(r) ==> entry < r.1 <= s.len(),
{
    lemma_find_non_space_bounds(s, entry);
    let k = find_non_space(s, entry);
    if k < s.len() {
        if s[k] == '\'' || s[k] == '"' {
            lemma_find_char_bounds(s, k + 1, s[k]);
        } else {
            lemma_find_space_bounds(s, k + 1);
        }
    }
}

/// All tokens the scanner emits from position `i` to the end of the line.
pub open spec fn tokens_from(s: Seq<char>, i: int) -> Seq<Seq<char>>
    decreases s.len() - i
    when 0 <= i <= s.len()
    via tokens_from_decreases
{
    match next_token(s, i) {
        None => Seq::empty(),
        Some(r) => seq![r.0] + tokens_from(s, r.1),
    }
}

#[via_fn]
proof fn tokens_from_decreases(s: Seq<char>, i: int) {
    lemma_next_token_bounds(s, i);
}

/// The tokenization of a whole line.
pub open spec fn spec_tokens(s: Seq<char>) -> Seq<Seq<char>> {
    tokens_from(s, 0)
}

/// The scanner's state: between tokens, inside a bare word, or inside one of
/// the two kinds of quotes.
enum State {
    InWord,
    InWhitespace,
    InSingleQuote,
    InDoubleQuote,
}

spec fn state_rank(state: State) -> int {
    match state {
        State::InWhitespace => 1,
        _ => 0,
    }
}

spec fn inv_word(s: Seq<char>, entry: int, start: int, index: int) -> bool {
    let k = find_non_space(s, entry);
    &&& k == start
    &&& k < s.len()
    &&& !is_space(s[k])
    &&& s[k] != '\''
    &&& s[k] != '"'
    &&& k <= index
    &&& find_space(s, k) == find_space(s, index)
}

spec fn inv_quote(s: Seq<char>, entry: int, start: int, index: int, q: char) -> bool {
    let k = find_non_space(s, entry);
    &&& k < s.len()
    &&& s[k] == q
    &&& start == k + 1
    &&& start <= index
    &&& find_char(s, start, q) == find_char(s, index, q)
}

/// A restartable scan over one line: each call to [`TokenIterator::next`]
/// emits the next token.
pub struct TokenIterator<'a> {
    sentence: &'a str,
    index: usize,
}

impl<'a> TokenIterator<'a> {
    /// The line being scanned.
    pub closed spec fn line(&self) -> Seq<char> {
        self.sentence@
    }

    /// The position the scan has reached.
    pub closed spec fn pos(&self) -> int {
        self.index as int
    }

    pub closed spec fn wf(&self) -> bool {
        self.index <= self.sentence@.len()
    }

    pub fn new(sentence: &'a str) -> (r: Self)
        ensures
            r.wf(),
            r.line() == sentence@,
            r.pos() == 0,
    {
        TokenIterator { sentence, index: 0 }
    }

    /// Emits the token that [`next_token`] describes at the current
    /// position, advancing the scan past it, or `None` at the end of input.
    #[verifier::loop_isolation(false)]
    pub fn next(&mut self) -> (r: Option<&'a str>)
        requires
            old(self).wf(),
        ensures
            final(self).wf(),
            final(self).line() == old(self).line(),
            r matches Some(t) ==> next_token(old(self).line(), old(self).pos()) == Some(
                (t@, final(self).pos()),
            ),
            r is None ==> next_token(old(self).line(), old(self).pos()) is None
                && final(self).pos() == final(self).line().len(),
    {
        let len = self.sentence.unicode_len();
        let ghost s = self.sentence@;
        let ghost entry = self.index as int;
        let mut state = State::InWhitespace;
        let mut start = self.index;
        loop
            invariant
                self.sentence@ == s,
                entry <= self.index as int,
                self.index <= len,
                start <= self.index,
                state is InWhitespace ==> start as int == entry && find_non_space(s, entry)
                    == find_non_space(s, self.index as int),
                state is InWord ==> inv_word(s, entry, start as int, self.index as int),
                state is InSingleQuote ==> inv_quote(s, entry, start as int, self.index as int, '\''),
                state is InDoubleQuote ==> inv_quote(s, entry, start as int, self.index as int, '"'),
            decreases len - self.index, state_rank(state),
        {
            if self.index >= len {
                proof {
                    lemma_find_non_space_bounds(s, entry);
                    lemma_find_non_space_bounds(s, self.index as int);
                    lemma_find_space_bounds(s, self.index as int);
                }
                if start == self.index {
                    return None;
                } else {
                    return Some(self.sentence.substring_char(start, self.index));
                }
            }
            let c = self.sentence.get_char(self.index);
            match state {
                State::InWord => {
                    if is_space_char(c) {
                        return Some(self.sentence.substring_char(start, self.index));
                    } else {
                        self.index = self.index + 1;
                    }
                },
                State::InWhitespace => {
                    if is_space_char(c) {
                        self.index = self.index + 1;
                    } else if c == '\'' {
                        state = State::InSingleQuote;
                        self.index = self.index + 1;
                        start = self.index;
                    } else if c == '"' {
                        state = State::InDoubleQuote;
                        self.index = self.index + 1;
                        start = self.index;
                    } else {
                        state = State::InWord;
                        start = self.index;
                    }
                },
                State::InSingleQuote => {
                    if c == '\'' {
                        let tok = self.sentence.substring_char(start, self.index);
                        self.index = self.index + 1;
                        return Some(tok);
                    } else {
                        self.index = self.index + 1;
                    }
                },
                State::InDoubleQuote => {
                    if c == '"' {
                        let tok = self.sentence.substring_char(start, self.index);
                        self.index = self.index + 1;
                        return Some(tok);
                    } else {
                        self.index = self.index + 1;
                    }
                },
            }
        }
    }
}

/// Tokenizes a whole line, collecting exactly [`spec_tokens`] of it.
pub fn tokenize<'a>(line: &'a str) -> (r: Vec<&'a str>)
    ensures
        r@.map_values(|t: &str| t@) == spec_tokens(line@),
{
    let mut it = TokenIterator::new(line);
    let mut out: Vec<&'a str> = Vec::new();
    loop
        invariant
            it.wf(),
            it.line() == line@,
            0 <= it.pos() <= line@.len(),
            out@.map_values(|t: &str| t@) + tokens_from(line@, it.pos()) == spec_tokens(line@),
        ensures
            tokens_from(line@, it.pos()).len() == 0,
            out@.map_values(|t: &str| t@) + tokens_from(line@, it.pos()) == spec_tokens(line@),
        decreases line@.len() - it.pos(),
    {
        let ghost p = it.pos();
        let ghost prev = out@;
        match it.next() {
            Some(t) => {
                proof {
                    lemma_next_token_bounds(line@, p);
                }
                out.push(t);
                proof {
                    assert(out@.map_values(|x: &str| x@) =~= prev.map_values(|x: &str| x@).push(
                        t@,
                    ));
                    assert(prev.map_values(|x: &str| x@).push(t@) + tokens_from(line@, it.pos())
                        =~= prev.map_values(|x: &str| x@) + (seq![t@] + tokens_from(
                        line@,
                        it.pos(),
                    )));
                }
            },
            None => {
                break;
            },
        }
    }
    proof {
        assert(out@.map_values(|t: &str| t@) + tokens_from(line@, it.pos()) =~= out@.map_values(
            |t: &str| t@,
        ));
    }
    out
}

/// Splitting on whitespace alone: the maximal non-whitespace runs of `s`
/// from position `i` on.
pub open spec fn split_whitespace_from(s: Seq<char>, i: int) -> Seq<Seq<char>>
    decreases s.len() - i
    when 0 <= i <= s.len()
    via split_whitespace_from_decreases
{
    let k = find_non_space(s, i);
    if k >= s.len() {
        Seq::empty()
    } else {
        seq![s.subrange(k, find_space(s, k))] + split_whitespace_from(s, find_space(s, k))
    }
}

#[via_fn]
proof fn split_whitespace_from_decreases(s: Seq<char>, i: int) {
    lemma_find_non_space_bounds(s, i);
    let k = find_non_space(s, i);
    if k < s.len() {
        lemma_find_space_bounds(s, k + 1);
    }
}

/// The whitespace splitting of a whole line.
pub open spec fn split_whitespace(s: Seq<char>) -> Seq<Seq<char>> {
    split_whitespace_from(s, 0)
}

proof fn lemma_tokens_match_split_from(s: Seq<char>, i: int)
    requires
        0 <= i <= s.len(),
        forall|m: int| 0 <= m < s.len() ==> #[trigger] s[m] != '\'' && s[m] != '"',
        s.len() > 0 ==> !is_space(s[s.len() - 1]),
    ensures
        tokens_from(s, i) == split_whitespace_from(s, i),
    decreases s.len() - i,
{
    lemma_find_non_space_bounds(s, i);
    let k = find_non_space(s, i);
    if k >= s.len() {
        if i < s.len() {
            // All of s[i..] would be whitespace, against the last-character
            // hypothesis.
            assert(is_space(s[s.len() - 1]));
        }
        assert(tokens_from(s, i) =~= split_whitespace_from(s, i));
    } else {
        let close = find_space(s, k);
        lemma_find_space_bounds(s, k + 1);
        lemma_tokens_match_split_from(s, close);
    }
}

/// Tokenizing input that is already clean: on a line with no quote
/// characters and no trailing whitespace, the tokenizer yields exactly the
/// whitespace splitting of the line.
pub proof fn lemma_tokenize_clean_input(s: Seq<char>)
    requires
        forall|m: int| 0 <= m < s.len() ==> #[trigger] s[m] != '\'' && s[m] != '"',
        s.len() > 0 ==> !is_space(s[s.len() - 1]),
    ensures
        spec_tokens(s) == split_whitespace(s),
{
    lemma_tokens_match_split_from(s, 0);
}

} // verus!
