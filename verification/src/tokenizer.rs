//! The line tokenizer: a character-at-a-time state machine that splits a raw
//! input line into shell words, honoring single quotes, double quotes (with a
//! fixed escape set), and bare backslash escapes.

use vstd::prelude::*;
use crate::text::push_char;

verus! {

/// The four modes of the lexer. Exactly one is active at a time; transitions
/// are driven by the next unconsumed character.
#[derive(Clone, Copy, PartialEq, Eq, Debug)]
pub enum LexState {
    /// Outside any quote: whitespace splits words, quotes and backslash open
    /// the other modes.
    Normal,
    /// Inside `'...'`: every character is literal until the closing quote.
    InSingleQuote,
    /// Inside `"..."`: literal except for a small backslash escape set.
    InDoubleQuote,
    /// A bare backslash was seen outside quotes; the next character is taken
    /// literally.
    PendingEscape,
}

/// Whether `c` has the Unicode `White_Space` property, the set that
/// `char::is_whitespace` recognizes. In `LexState::Normal`, these characters
/// separate words.
pub open spec fn is_shell_space(c: char) -> bool {
    let u = c as u32;
    ||| u == 0x20
    ||| (0x09 <= u && u <= 0x0D)
    ||| u == 0x85
    ||| u == 0xA0
    ||| u == 0x1680
    ||| (0x2000 <= u && u <= 0x200A)
    ||| u == 0x2028
    ||| u == 0x2029
    ||| u == 0x202F
    ||| u == 0x205F
    ||| u == 0x3000
}

/// Inside double quotes, a backslash escapes exactly these characters; before
/// any other character the backslash is kept.
pub open spec fn is_dq_escapable(c: char) -> bool {
    c == '\\' || c == '$' || c == '"' || c == '`' || c == '\n'
}

/// Orders the lexer states so that the step at end of input (which leaves
/// `PendingEscape` without consuming a character) terminates.
pub open spec fn state_order(st: LexState) -> nat {
    match st {
        LexState::PendingEscape => 1,
        _ => 0,
    }
}

/// Appends the in-progress word `cur` to `acc` as a completed token, unless it
/// is empty (empty words are never emitted).
pub open spec fn flush(acc: Seq<Seq<char>>, cur: Seq<char>) -> Seq<Seq<char>> {
    if cur.len() == 0 {
        acc
    } else {
        acc.push(cur)
    }
}

/// The tokenizer's transition function: consumes all of `s` starting in state
/// `st`, with `cur` the word in progress and `acc` the tokens completed so
/// far, and returns the final token sequence.
///
/// An unterminated quote or a trailing bare backslash is absorbed silently:
/// the partial word is flushed at end of input.
pub open spec fn lex(s: Seq<char>, st: LexState, cur: Seq<char>, acc: Seq<Seq<char>>) -> Seq<
    Seq<char>,
>
    decreases s.len(), state_order(st),
{
    if s.len() == 0 {
        match st {
            LexState::PendingEscape => lex(s, LexState::Normal, cur, acc),
            _ => flush(acc, cur),
        }
    } else {
        let c = s[0];
        let rest = s.drop_first();
        match st {
            LexState::Normal => {
                if c == '\'' {
                    lex(rest, LexState::InSingleQuote, cur, acc)
                } else if c == '"' {
                    lex(rest, LexState::InDoubleQuote, cur, acc)
                } else if c == '\\' {
                    lex(rest, LexState::PendingEscape, cur, acc)
                } else if is_shell_space(c) {
                    lex(rest, LexState::Normal, Seq::empty(), flush(acc, cur))
                } else {
                    lex(rest, LexState::Normal, cur.push(c), acc)
                }
            },
            LexState::InSingleQuote => {
                if c == '\'' {
                    lex(rest, LexState::Normal, cur, acc)
                } else {
                    lex(rest, LexState::InSingleQuote, cur.push(c), acc)
                }
            },
            LexState::InDoubleQuote => {
                if c == '"' {
                    lex(rest, LexState::Normal, cur, acc)
                } else if c == '\\' && s.len() >= 2 && is_dq_escapable(s[1]) {
                    lex(s.subrange(2, s.len() as int), LexState::InDoubleQuote, cur.push(s[1]), acc)
                } else {
                    lex(rest, LexState::InDoubleQuote, cur.push(c), acc)
                }
            },
            LexState::PendingEscape => lex(rest, LexState::Normal, cur.push(c), acc),
        }
    }
}

/// The tokens of a whole input line: run the state machine from `Normal` with
/// nothing accumulated.
pub open spec fn spec_tokens(s: Seq<char>) -> Seq<Seq<char>> {
    lex(s, LexState::Normal, Seq::empty(), Seq::empty())
}

/// The views of a sequence of owned tokens, for relating executable results
/// to `spec_tokens`.
pub open spec fn token_views(ts: Seq<String>) -> Seq<Seq<char>> {
    Seq::new(ts.len(), |i: int| ts[i]@)
}

/// Whether `c` separates words in `LexState::Normal`; agrees with
/// `is_shell_space`.
pub fn is_shell_space_char(c: char) -> (r: bool)
    ensures
        r == is_shell_space(c),
{
    let u = c as u32;
    u == 0x20 || (0x09 <= u && u <= 0x0D) || u == 0x85 || u == 0xA0 || u == 0x1680 || (0x2000 <= u
        && u <= 0x200A) || u == 0x2028 || u == 0x2029 || u == 0x202F || u == 0x205F || u == 0x3000
}

/// Whether a backslash escapes `c` inside double quotes; agrees with
/// `is_dq_escapable`.
pub fn is_dq_escapable_char(c: char) -> (r: bool)
    ensures
        r == is_dq_escapable(c),
{
    c == '\\' || c == '$' || c == '"' || c == '`' || c == '\n'
}

proof fn lemma_token_views_push(ts: Seq<String>, t: String)
    ensures
        token_views(ts.push(t)) == token_views(ts).push(t@),
{
    assert(token_views(ts.push(t)) =~= token_views(ts).push(t@));
}

/// Tokenizes one raw input line: splits it into shell words with quoting and
/// escaping removed, exactly as the `lex` state machine describes. The
/// tokenizer never fails; a blank line yields the empty sequence, and
/// unterminated quotes flush their partial word.
pub fn parse(src: &str) -> (tokens: Vec<String>)
    ensures
        token_views(tokens@) == spec_tokens(src@),
{
    let n = src.unicode_len();
    let mut i: usize = 0;
    let mut st = LexState::Normal;
    let mut cur = String::new();
    let mut acc: Vec<String> = Vec::new();
    proof {
        assert(src@.subrange(0, n as int) =~= src@);
        assert(token_views(acc@) =~= Seq::<Seq<char>>::empty());
    }
    while i < n
        invariant
            i <= n,
            n == src@.len(),
            lex(src@.subrange(i as int, n as int), st, cur@, token_views(acc@)) == spec_tokens(
                src@,
            ),
        decreases n - i,
    {
        let ghost pre = src@.subrange(i as int, n as int);
        let c = src.get_char(i);
        proof {
            assert(pre[0] == src@[i as int]);
            assert(pre.drop_first() =~= src@.subrange(i as int + 1, n as int));
        }
        match st {
            LexState::Normal => {
                if c == '\'' {
                    st = LexState::InSingleQuote;
                    i = i + 1;
                } else if c == '"' {
                    st = LexState::InDoubleQuote;
                    i = i + 1;
                } else if c == '\\' {
                    st = LexState::PendingEscape;
                    i = i + 1;
                } else if is_shell_space_char(c) {
                    if !cur.as_str().is_empty() {
                        proof {
                            lemma_token_views_push(acc@, cur);
                        }
                        acc.push(cur);
                        cur = String::new();
                    } else {
                        proof {
                            assert(cur@ =~= Seq::<char>::empty());
                        }
                    }
                    i = i + 1;
                } else {
                    push_char(&mut cur, c);
                    i = i + 1;
                }
            },
            LexState::InSingleQuote => {
                if c == '\'' {
                    st = LexState::Normal;
                } else {
                    push_char(&mut cur, c);
                }
                i = i + 1;
            },
            LexState::InDoubleQuote => {
                if c == '"' {
                    st = LexState::Normal;
                    i = i + 1;
                } else if c == '\\' && i + 1 < n {
                    let c2 = src.get_char(i + 1);
                    if is_dq_escapable_char(c2) {
                        proof {
                            assert(pre[1] == src@[i as int + 1]);
                            assert(pre.subrange(2, pre.len() as int) =~= src@.subrange(
                                i as int + 2,
                                n as int,
                            ));
                        }
                        push_char(&mut cur, c2);
                        i = i + 2;
                    } else {
                        push_char(&mut cur, c);
                        i = i + 1;
                    }
                } else {
                    push_char(&mut cur, c);
                    i = i + 1;
                }
            },
            LexState::PendingEscape => {
                push_char(&mut cur, c);
                st = LexState::Normal;
                i = i + 1;
            },
        }
    }
    let ghost curv = cur@;
    let ghost tv = token_views(acc@);
    proof {
        assert(src@.subrange(n as int, n as int) =~= Seq::<char>::empty());
        if st == LexState::PendingEscape {
            assert(lex(Seq::<char>::empty(), st, curv, tv) == lex(
                Seq::<char>::empty(),
                LexState::Normal,
                curv,
                tv,
            ));
        }
        assert(lex(Seq::<char>::empty(), st, curv, tv) == flush(tv, curv));
    }
    if !cur.as_str().is_empty() {
        proof {
            lemma_token_views_push(acc@, cur);
        }
        acc.push(cur);
    } else {
        proof {
            assert(curv =~= Seq::<char>::empty());
        }
    }
    acc
}

/// Whether every token of a sequence has at least one character.
pub open spec fn all_nonempty(ts: Seq<Seq<char>>) -> bool {
    forall|i: int| 0 <= i < ts.len() ==> #[trigger] ts[i].len() > 0
}

proof fn lemma_flush_nonempty(acc: Seq<Seq<char>>, cur: Seq<char>)
    requires
        all_nonempty(acc),
    ensures
        all_nonempty(flush(acc, cur)),
{
    if cur.len() > 0 {
        assert forall|i: int| 0 <= i < acc.push(cur).len() implies #[trigger] acc.push(cur)[i].len()
            > 0 by {
            if i < acc.len() {
                assert(acc.push(cur)[i] == acc[i]);
            } else {
                assert(acc.push(cur)[i] == cur);
            }
        }
    }
}

proof fn lemma_lex_tokens_nonempty(s: Seq<char>, st: LexState, cur: Seq<char>, acc: Seq<Seq<char>>)
    requires
        all_nonempty(acc),
    ensures
        all_nonempty(lex(s, st, cur, acc)),
    decreases s.len(), state_order(st),
{
    if s.len() == 0 {
        match st {
            LexState::PendingEscape => {
                lemma_lex_tokens_nonempty(s, LexState::Normal, cur, acc);
            },
            _ => {
                lemma_flush_nonempty(acc, cur);
            },
        }
    } else {
        let c = s[0];
        let rest = s.drop_first();
        match st {
            LexState::Normal => {
                if c == '\'' {
                    lemma_lex_tokens_nonempty(rest, LexState::InSingleQuote, cur, acc);
                } else if c == '"' {
                    lemma_lex_tokens_nonempty(rest, LexState::InDoubleQuote, cur, acc);
                } else if c == '\\' {
                    lemma_lex_tokens_nonempty(rest, LexState::PendingEscape, cur, acc);
                } else if is_shell_space(c) {
                    lemma_flush_nonempty(acc, cur);
                    lemma_lex_tokens_nonempty(rest, LexState::Normal, Seq::empty(), flush(acc, cur));
                } else {
                    lemma_lex_tokens_nonempty(rest, LexState::Normal, cur.push(c), acc);
                }
            },
            LexState::InSingleQuote => {
                if c == '\'' {
                    lemma_lex_tokens_nonempty(rest, LexState::Normal, cur, acc);
                } else {
                    lemma_lex_tokens_nonempty(rest, LexState::InSingleQuote, cur.push(c), acc);
                }
            },
            LexState::InDoubleQuote => {
                if c == '"' {
                    lemma_lex_tokens_nonempty(rest, LexState::Normal, cur, acc);
                } else if c == '\\' && s.len() >= 2 && is_dq_escapable(s[1]) {
                    lemma_lex_tokens_nonempty(
                        s.subrange(2, s.len() as int),
                        LexState::InDoubleQuote,
                        cur.push(s[1]),
                        acc,
                    );
                } else {
                    lemma_lex_tokens_nonempty(rest, LexState::InDoubleQuote, cur.push(c), acc);
                }
            },
            LexState::PendingEscape => {
                lemma_lex_tokens_nonempty(rest, LexState::Normal, cur.push(c), acc);
            },
        }
    }
}

/// No token is ever empty: every word a line tokenizes to has at least one
/// character (a blank line yields no tokens at all, and a quoted empty span
/// contributes no word).
pub proof fn lemma_tokens_nonempty(s: Seq<char>)
    ensures
        all_nonempty(spec_tokens(s)),
{
    lemma_lex_tokens_nonempty(s, LexState::Normal, Seq::empty(), Seq::empty());
}

proof fn lemma_in_single_quote(content: Seq<char>, rest: Seq<char>, cur: Seq<char>, acc: Seq<Seq<char>>)
    requires
        forall|i: int| 0 <= i < content.len() ==> content[i] != '\'',
    ensures
        lex(content + seq!['\''] + rest, LexState::InSingleQuote, cur, acc) == lex(
            rest,
            LexState::Normal,
            cur + content,
            acc,
        ),
    decreases content.len(),
{
    let s = content + seq!['\''] + rest;
    if content.len() == 0 {
        assert(s =~= seq!['\''] + rest);
        assert(s[0] == '\'');
        assert(s.drop_first() =~= rest);
        assert(cur + content =~= cur);
    } else {
        assert(s[0] == content[0]);
        assert(s.drop_first() =~= content.drop_first() + seq!['\''] + rest);
        lemma_in_single_quote(content.drop_first(), rest, cur.push(content[0]), acc);
        assert(cur.push(content[0]) + content.drop_first() =~= cur + content);
    }
}

/// Single quotes protect their content literally: a span `'content'` (with no
/// quote character inside) contributes exactly `content` to the word in
/// progress, with no escape processing, wherever it stands in the line.
pub proof fn lemma_single_quoted_span(content: Seq<char>, rest: Seq<char>, cur: Seq<char>, acc: Seq<Seq<char>>)
    requires
        forall|i: int| 0 <= i < content.len() ==> content[i] != '\'',
    ensures
        lex(seq!['\''] + content + seq!['\''] + rest, LexState::Normal, cur, acc) == lex(
            rest,
            LexState::Normal,
            cur + content,
            acc,
        ),
{
    let s = seq!['\''] + content + seq!['\''] + rest;
    assert(s[0] == '\'');
    assert(s.drop_first() =~= content + seq!['\''] + rest);
    lemma_in_single_quote(content, rest, cur, acc);
}

/// A whole line consisting of one single-quoted span tokenizes to exactly the
/// span's literal content, quotes stripped.
pub proof fn lemma_single_quoted_line(content: Seq<char>)
    requires
        content.len() > 0,
        forall|i: int| 0 <= i < content.len() ==> content[i] != '\'',
    ensures
        spec_tokens(seq!['\''] + content + seq!['\'']) == seq![content],
{
    let line = seq!['\''] + content + seq!['\''];
    assert(line =~= seq!['\''] + content + seq!['\''] + Seq::<char>::empty());
    lemma_single_quoted_span(content, Seq::empty(), Seq::empty(), Seq::empty());
    assert(Seq::<char>::empty() + content =~= content);
    assert(flush(Seq::<Seq<char>>::empty(), content) =~= seq![content]);
}

/// Inside double quotes, a backslash before one of `\ $ " `` ` `` ` or newline
/// collapses to just that character; before any other character the backslash
/// and the character are both kept.
pub proof fn lemma_double_quote_escape(c: char, rest: Seq<char>, cur: Seq<char>, acc: Seq<Seq<char>>)
    ensures
        is_dq_escapable(c) ==> lex(seq!['\\', c] + rest, LexState::InDoubleQuote, cur, acc) == lex(
            rest,
            LexState::InDoubleQuote,
            cur.push(c),
            acc,
        ),
        !is_dq_escapable(c) ==> lex(seq!['\\', c] + rest, LexState::InDoubleQuote, cur, acc) == lex(
            rest,
            LexState::InDoubleQuote,
            cur.push('\\').push(c),
            acc,
        ),
{
    reveal_with_fuel(lex, 3);
    let s = seq!['\\', c] + rest;
    assert(s[0] == '\\');
    assert(s[1] == c);
    if is_dq_escapable(c) {
        assert(s.subrange(2, s.len() as int) =~= rest);
    } else {
        assert(s.drop_first() =~= seq![c] + rest);
        let s2 = seq![c] + rest;
        assert(s2[0] == c);
        assert(s2.drop_first() =~= rest);
    }
}

/// Outside any quotes, a lone backslash before any single character collapses
/// to just that character.
pub proof fn lemma_unquoted_backslash(c: char, rest: Seq<char>, cur: Seq<char>, acc: Seq<Seq<char>>)
    ensures
        lex(seq!['\\', c] + rest, LexState::Normal, cur, acc) == lex(
            rest,
            LexState::Normal,
            cur.push(c),
            acc,
        ),
{
    reveal_with_fuel(lex, 3);
    let s = seq!['\\', c] + rest;
    assert(s[0] == '\\');
    assert(s.drop_first() =~= seq![c] + rest);
    let s2 = seq![c] + rest;
    assert(s2[0] == c);
    assert(s2.drop_first() =~= rest);
}

proof fn lemma_all_space(s: Seq<char>, acc: Seq<Seq<char>>)
    requires
        forall|i: int| 0 <= i < s.len() ==> is_shell_space(s[i]),
    ensures
        lex(s, LexState::Normal, Seq::empty(), acc) == acc,
    decreases s.len(),
{
    if s.len() > 0 {
        assert(is_shell_space(s[0]));
        lemma_all_space(s.drop_first(), acc);
    }
}

/// An empty or all-whitespace line tokenizes to the empty token sequence.
pub proof fn lemma_blank_line(s: Seq<char>)
    requires
        forall|i: int| 0 <= i < s.len() ==> is_shell_space(s[i]),
    ensures
        spec_tokens(s) == Seq::<Seq<char>>::empty(),
{
    lemma_all_space(s, Seq::empty());
}

/// Interior whitespace separates words but its run length is not preserved:
/// any non-empty run of whitespace, in `Normal` state, just flushes the word
/// in progress and starts a fresh one, exactly as a single space would.
pub proof fn lemma_space_run_separates(w: Seq<char>, rest: Seq<char>, cur: Seq<char>, acc: Seq<Seq<char>>)
    requires
        w.len() > 0,
        forall|i: int| 0 <= i < w.len() ==> is_shell_space(w[i]),
    ensures
        lex(w + rest, LexState::Normal, cur, acc) == lex(
            rest,
            LexState::Normal,
            Seq::empty(),
            flush(acc, cur),
        ),
    decreases w.len(),
{
    let s = w + rest;
    assert(s[0] == w[0]);
    assert(is_shell_space(s[0]));
    if w.len() == 1 {
        assert(s.drop_first() =~= rest);
    } else {
        assert(s.drop_first() =~= w.drop_first() + rest);
        lemma_space_run_separates(w.drop_first(), rest, Seq::empty(), flush(acc, cur));
        assert(flush(flush(acc, cur), Seq::<char>::empty()) == flush(acc, cur));
    }
}

} // verus!
