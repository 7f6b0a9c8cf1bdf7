//! Console command lines: splitting a line into tokens.
use vstd::prelude::*;

use crate::text::{chars_of, string_from};

verus! {

/// Tokens so far, the token being read, and whether a quote is open.
pub struct TokenizerView {
    pub tokens: Seq<Seq<char>>,
    pub current: Seq<char>,
    pub in_quotes: bool,
}

/// One character applied: a quote toggles quoting and is dropped; a space
/// or tab outside quotes ends a non-empty token; anything else is kept.
pub open spec fn token_step(st: TokenizerView, c: char) -> TokenizerView {
    if c == '"' {
        TokenizerView { in_quotes: !st.in_quotes, ..st }
    } else if (c == ' ' || c == '\t') && !st.in_quotes {
        if st.current.len() > 0 {
            TokenizerView { tokens: st.tokens.push(st.current), current: Seq::empty(), in_quotes: st.in_quotes }
        } else {
            st
        }
    } else {
        TokenizerView { current: st.current.push(c), ..st }
    }
}

/// The state after reading `s`.
pub open spec fn token_state(s: Seq<char>) -> TokenizerView
    decreases s.len(),
{
    if s.len() == 0 {
        TokenizerView { tokens: Seq::empty(), current: Seq::empty(), in_quotes: false }
    } else {
        token_step(token_state(s.drop_last()), s.last())
    }
}

/// The tokens of a command line: whitespace-separated, with double quotes
/// grouping words (the quotes themselves are dropped).
pub open spec fn tokens_of(s: Seq<char>) -> Seq<Seq<char>> {
    let st = token_state(s);
    if st.current.len() > 0 {
        st.tokens.push(st.current)
    } else {
        st.tokens
    }
}

/// The tokens as values.
pub open spec fn strings_view(v: Seq<String>) -> Seq<Seq<char>> {
    v.map_values(|s: String| s@)
}

/// Splits a command line into tokens, honouring double quotes.
pub fn parse_command_line(line: &str) -> (r: Vec<String>)
    ensures
        strings_view(r@) == tokens_of(line@),
{
    let chars = chars_of(line);
    let mut tokens: Vec<String> = Vec::new();
    let mut current: Vec<char> = Vec::new();
    let mut in_quotes = false;
    let mut i: usize = 0;
    assert(chars@.take(0) =~= Seq::<char>::empty());
    assert(strings_view(tokens@) =~= Seq::<Seq<char>>::empty());
    while i < chars.len()
        invariant
            i <= chars@.len(),
            chars@ == line@,
            token_state(chars@.take(i as int)) == (TokenizerView {
                tokens: strings_view(tokens@),
                current: current@,
                in_quotes,
            }),
        decreases chars@.len() - i,
    {
        let c = chars[i];
        proof {
            assert(chars@.take(i + 1).drop_last() =~= chars@.take(i as int));
            assert(chars@.take(i + 1).last() == c);
        }
        if c == '"' {
            in_quotes = !in_quotes;
        } else if (c == ' ' || c == '\t') && !in_quotes {
            if current.len() > 0 {
                let ghost before = tokens@;
                let t = string_from(&current);
                tokens.push(t);
                current = Vec::new();
                assert(strings_view(tokens@) =~= strings_view(before).push(t@));
                assert(current@ =~= Seq::<char>::empty());
            }
        } else {
            current.push(c);
        }
        i = i + 1;
    }
    assert(chars@.take(chars@.len() as int) =~= chars@);
    if current.len() > 0 {
        let ghost before = tokens@;
        let t = string_from(&current);
        tokens.push(t);
        assert(strings_view(tokens@) =~= strings_view(before).push(t@));
    }
    tokens
}

} // verus!
