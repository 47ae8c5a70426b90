//! Splitting Pulsefile text into tokens.
//!
//! Whitespace and `#` comments (to the end of the line) separate tokens. The
//! tokens are the punctuation `{ } [ ] : ; ,`, double-quoted strings,
//! triple-quoted multiline strings and words (runs of any other characters).
//! A plain string ends at the next `"`. A multiline string ends at the first
//! `"""` that is not followed by one more `"`, so that `"""echo "hi""""`
//! holds `echo "hi"`.
use vstd::prelude::*;

verus! {

#[derive(Debug, Clone, Copy, PartialEq, Eq, Structural)]
pub enum TokenKind {
    LBrace,
    RBrace,
    LBracket,
    RBracket,
    Colon,
    Semi,
    Comma,
    Str,
    Multi,
    Word,
}

/// A token: where its text begins (`at`) and the character range of its
/// content (`lo..hi`: inside the quotes for strings, the whole text
/// otherwise).
#[derive(Debug, Clone, Copy, PartialEq, Eq, Structural)]
pub struct Token {
    pub kind: TokenKind,
    pub at: usize,
    pub lo: usize,
    pub hi: usize,
}

/// What the lexer is in the middle of, with the start of the open token.
#[derive(Debug, Clone, Copy, PartialEq, Eq, Structural)]
pub enum LexMode {
    Normal,
    Comment,
    Word(usize),
    Quote(usize),
    Triple(usize),
}

/// The characters that `char::is_whitespace` accepts (Unicode White_Space).
pub open spec fn is_space(c: char) -> bool {
    ||| c == ' ' || c == '\t' || c == '\n' || c == '\r'
    ||| c == '\u{0B}' || c == '\u{0C}' || c == '\u{85}' || c == '\u{A0}'
    ||| c == '\u{1680}' || ('\u{2000}' <= c && c <= '\u{200A}')
    ||| c == '\u{2028}' || c == '\u{2029}' || c == '\u{202F}' || c == '\u{205F}'
    ||| c == '\u{3000}'
}

/// The punctuation token that `c` stands for, if any.
pub open spec fn punct_kind(c: char) -> Option<TokenKind> {
    if c == '{' {
        Some(TokenKind::LBrace)
    } else if c == '}' {
        Some(TokenKind::RBrace)
    } else if c == '[' {
        Some(TokenKind::LBracket)
    } else if c == ']' {
        Some(TokenKind::RBracket)
    } else if c == ':' {
        Some(TokenKind::Colon)
    } else if c == ';' {
        Some(TokenKind::Semi)
    } else if c == ',' {
        Some(TokenKind::Comma)
    } else {
        None
    }
}

/// Characters that may stand in a word.
pub open spec fn is_word_char(c: char) -> bool {
    !is_space(c) && punct_kind(c) is None && c != '"' && c != '#'
}

/// Whether three quotes begin at `i`.
pub open spec fn triple_at(s: Seq<char>, i: int) -> bool {
    0 <= i && i + 3 <= s.len() && s[i] == '"' && s[i + 1] == '"' && s[i + 2] == '"'
}

/// Whether a multiline string closes at `i`: three quotes not followed by a
/// fourth.
pub open spec fn closes_triple(s: Seq<char>, i: int) -> bool {
    triple_at(s, i) && (i + 3 == s.len() || s[i + 3] != '"')
}

pub open spec fn mode_rank(m: LexMode) -> int {
    match m {
        LexMode::Word(_) => 1,
        _ => 0,
    }
}

/// Lexing from position `i` in mode `m`, with the tokens `acc` found so far:
/// all the tokens of the text, or the start of a string that never closes.
pub open spec fn lex_from(s: Seq<char>, i: int, acc: Seq<Token>, m: LexMode) -> Result<
    Seq<Token>,
    int,
>
    decreases s.len() - i, mode_rank(m),
{
    if i >= s.len() {
        match m {
            LexMode::Word(st) => Ok(
                acc.push(Token { kind: TokenKind::Word, at: st, lo: st, hi: s.len() as usize }),
            ),
            LexMode::Quote(st) => Err(st as int),
            LexMode::Triple(st) => Err(st as int),
            _ => Ok(acc),
        }
    } else {
        let c = s[i];
        match m {
            LexMode::Normal => if is_space(c) {
                lex_from(s, i + 1, acc, LexMode::Normal)
            } else if c == '#' {
                lex_from(s, i + 1, acc, LexMode::Comment)
            } else if punct_kind(c) is Some {
                let t = Token { kind: punct_kind(c)->0, at: i as usize, lo: i as usize, hi: (i + 1) as usize };
                lex_from(s, i + 1, acc.push(t), LexMode::Normal)
            } else if c == '"' {
                if triple_at(s, i) {
                    lex_from(s, i + 3, acc, LexMode::Triple(i as usize))
                } else {
                    lex_from(s, i + 1, acc, LexMode::Quote(i as usize))
                }
            } else {
                lex_from(s, i + 1, acc, LexMode::Word(i as usize))
            },
            LexMode::Comment => if c == '\n' {
                lex_from(s, i + 1, acc, LexMode::Normal)
            } else {
                lex_from(s, i + 1, acc, LexMode::Comment)
            },
            LexMode::Word(st) => if is_word_char(c) {
                lex_from(s, i + 1, acc, m)
            } else {
                let t = Token { kind: TokenKind::Word, at: st, lo: st, hi: i as usize };
                lex_from(s, i, acc.push(t), LexMode::Normal)
            },
            LexMode::Quote(st) => if c == '"' {
                let t = Token { kind: TokenKind::Str, at: st, lo: (st + 1) as usize, hi: i as usize };
                lex_from(s, i + 1, acc.push(t), LexMode::Normal)
            } else {
                lex_from(s, i + 1, acc, m)
            },
            LexMode::Triple(st) => if closes_triple(s, i) {
                let t = Token { kind: TokenKind::Multi, at: st, lo: (st + 3) as usize, hi: i as usize };
                lex_from(s, i + 3, acc.push(t), LexMode::Normal)
            } else {
                lex_from(s, i + 1, acc, m)
            },
        }
    }
}

/// The tokens of a text, or the start of a string that never closes.
pub open spec fn lex(s: Seq<char>) -> Result<Seq<Token>, int> {
    lex_from(s, 0, seq![], LexMode::Normal)
}

/// A token whose ranges lie inside a text of `n` characters.
pub open spec fn token_wf(n: int, t: Token) -> bool {
    t.at <= t.lo <= t.hi <= n
}

pub open spec fn tokens_wf(n: int, ts: Seq<Token>) -> bool {
    forall|k: int| 0 <= k < ts.len() ==> token_wf(n, #[trigger] ts[k])
}

/// The open token of mode `m` began before position `i`.
pub open spec fn mode_wf(i: int, m: LexMode) -> bool {
    match m {
        LexMode::Word(st) => st < i,
        LexMode::Quote(st) => st + 1 <= i,
        LexMode::Triple(st) => st + 3 <= i,
        _ => true,
    }
}

/// The tokens of a text lie inside it, and an unclosed string starts inside it.
pub proof fn lemma_lex_from_wf(s: Seq<char>, i: int, acc: Seq<Token>, m: LexMode)
    requires
        0 <= i <= s.len(),
        s.len() <= usize::MAX,
        tokens_wf(s.len() as int, acc),
        mode_wf(i, m),
    ensures
        lex_from(s, i, acc, m) matches Ok(ts) ==> tokens_wf(s.len() as int, ts),
        lex_from(s, i, acc, m) matches Err(p) ==> 0 <= p < s.len(),
    decreases s.len() - i, mode_rank(m),
{
    if i < s.len() {
        let c = s[i];
        match m {
            LexMode::Normal => if is_space(c) {
                lemma_lex_from_wf(s, i + 1, acc, LexMode::Normal);
            } else if c == '#' {
                lemma_lex_from_wf(s, i + 1, acc, LexMode::Comment);
            } else if punct_kind(c) is Some {
                let t = Token { kind: punct_kind(c)->0, at: i as usize, lo: i as usize, hi: (i + 1) as usize };
                lemma_lex_from_wf(s, i + 1, acc.push(t), LexMode::Normal);
            } else if c == '"' {
                if triple_at(s, i) {
                    lemma_lex_from_wf(s, i + 3, acc, LexMode::Triple(i as usize));
                } else {
                    lemma_lex_from_wf(s, i + 1, acc, LexMode::Quote(i as usize));
                }
            } else {
                lemma_lex_from_wf(s, i + 1, acc, LexMode::Word(i as usize));
            },
            LexMode::Comment => if c == '\n' {
                lemma_lex_from_wf(s, i + 1, acc, LexMode::Normal);
            } else {
                lemma_lex_from_wf(s, i + 1, acc, LexMode::Comment);
            },
            LexMode::Word(st) => if is_word_char(c) {
                lemma_lex_from_wf(s, i + 1, acc, m);
            } else {
                let t = Token { kind: TokenKind::Word, at: st, lo: st, hi: i as usize };
                lemma_lex_from_wf(s, i, acc.push(t), LexMode::Normal);
            },
            LexMode::Quote(st) => if c == '"' {
                let t = Token { kind: TokenKind::Str, at: st, lo: (st + 1) as usize, hi: i as usize };
                lemma_lex_from_wf(s, i + 1, acc.push(t), LexMode::Normal);
            } else {
                lemma_lex_from_wf(s, i + 1, acc, m);
            },
            LexMode::Triple(st) => if closes_triple(s, i) {
                let t = Token { kind: TokenKind::Multi, at: st, lo: (st + 3) as usize, hi: i as usize };
                lemma_lex_from_wf(s, i + 3, acc.push(t), LexMode::Normal);
            } else {
                lemma_lex_from_wf(s, i + 1, acc, m);
            },
        }
    }
}

pub(crate) fn is_space_exec(c: char) -> (r: bool)
    ensures
        r == is_space(c),
{
    c == ' ' || c == '\t' || c == '\n' || c == '\r' || c == '\u{0B}' || c == '\u{0C}' || c
        == '\u{85}' || c == '\u{A0}' || c == '\u{1680}' || ('\u{2000}' <= c && c <= '\u{200A}')
        || c == '\u{2028}' || c == '\u{2029}' || c == '\u{202F}' || c == '\u{205F}' || c
        == '\u{3000}'
}

fn punct_kind_exec(c: char) -> (r: Option<TokenKind>)
    ensures
        r == punct_kind(c),
{
    if c == '{' {
        Some(TokenKind::LBrace)
    } else if c == '}' {
        Some(TokenKind::RBrace)
    } else if c == '[' {
        Some(TokenKind::LBracket)
    } else if c == ']' {
        Some(TokenKind::RBracket)
    } else if c == ':' {
        Some(TokenKind::Colon)
    } else if c == ';' {
        Some(TokenKind::Semi)
    } else if c == ',' {
        Some(TokenKind::Comma)
    } else {
        None
    }
}

fn triple_at_exec(s: &Vec<char>, i: usize) -> (r: bool)
    ensures
        r == triple_at(s@, i as int),
{
    i < s.len() && s.len() - i >= 3 && s[i] == '"' && s[i + 1] == '"' && s[i + 2] == '"'
}

/// Splits the characters `s` into tokens; fails with the position of a
/// string that never closes.
pub fn tokenize(s: &Vec<char>) -> (r: Result<Vec<Token>, usize>)
    ensures
        match r {
            Ok(v) => lex(s@) == Ok::<Seq<Token>, int>(v@) && tokens_wf(s@.len() as int, v@),
            Err(e) => lex(s@) == Err::<Seq<Token>, int>(e as int) && e < s.len(),
        },
{
    let n = s.len();
    proof {
        lemma_lex_from_wf(s@, 0, seq![], LexMode::Normal);
    }
    let mut acc: Vec<Token> = Vec::new();
    let mut m = LexMode::Normal;
    let mut i: usize = 0;
    while i < n
        invariant
            n == s.len(),
            i <= n,
            lex(s@) == lex_from(s@, i as int, acc@, m),
            match m {
                LexMode::Word(st) => st < i,
                LexMode::Quote(st) => st < i,
                LexMode::Triple(st) => st < i,
                _ => true,
            },
        decreases n - i, mode_rank(m),
    {
        let c = s[i];
        match m {
            LexMode::Normal => {
                if is_space_exec(c) {
                    i = i + 1;
                } else if c == '#' {
                    m = LexMode::Comment;
                    i = i + 1;
                } else if let Some(k) = punct_kind_exec(c) {
                    acc.push(Token { kind: k, at: i, lo: i, hi: i + 1 });
                    i = i + 1;
                } else if c == '"' {
                    if triple_at_exec(s, i) {
                        m = LexMode::Triple(i);
                        i = i + 3;
                    } else {
                        m = LexMode::Quote(i);
                        i = i + 1;
                    }
                } else {
                    m = LexMode::Word(i);
                    i = i + 1;
                }
            },
            LexMode::Comment => {
                if c == '\n' {
                    m = LexMode::Normal;
                }
                i = i + 1;
            },
            LexMode::Word(st) => {
                if !is_space_exec(c) && punct_kind_exec(c).is_none() && c != '"' && c != '#' {
                    i = i + 1;
                } else {
                    acc.push(Token { kind: TokenKind::Word, at: st, lo: st, hi: i });
                    m = LexMode::Normal;
                }
            },
            LexMode::Quote(st) => {
                if c == '"' {
                    acc.push(Token { kind: TokenKind::Str, at: st, lo: st + 1, hi: i });
                    m = LexMode::Normal;
                }
                i = i + 1;
            },
            LexMode::Triple(st) => {
                if triple_at_exec(s, i) && (n - i == 3 || s[i + 3] != '"') {
                    acc.push(Token { kind: TokenKind::Multi, at: st, lo: st + 3, hi: i });
                    m = LexMode::Normal;
                    i = i + 3;
                } else {
                    i = i + 1;
                }
            },
        }
    }
    match m {
        LexMode::Word(st) => {
            acc.push(Token { kind: TokenKind::Word, at: st, lo: st, hi: n });
            Ok(acc)
        },
        LexMode::Quote(st) => Err(st),
        LexMode::Triple(st) => Err(st),
        _ => Ok(acc),
    }
}

} // verus!
