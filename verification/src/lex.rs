//! The tokenizer: a single left-to-right scan over the source text that
//! groups characters into lexical tokens.
//!
//! The scanner is modelled by a pure state machine: `step_sp` gives the
//! effect of one character on the scanner state, `run_from` folds it over
//! the input, and `tokenize` is proved to implement exactly that machine.
//!
//! Two behaviours are normalized relative to the lineage of this design,
//! both stated by the machine below: a letter or digit seen during a run of
//! special characters flushes that run and starts a fresh identifier or
//! numeric run, and a colon inside a string literal is ordinary string
//! content.
use vstd::prelude::*;
use vstd::string::StringExecFns;
use crate::arith::number_bits;
use crate::text::{chars_of, push_char, string_eq_str};

verus! {

/// The eight bracket characters recognized by the scanner.  Only the
/// parenthesis pair drives list structure in the reader; the other kinds
/// are lexed but carry no structural meaning yet.
#[derive(Clone, Copy, Debug, PartialEq, Eq, Structural)]
pub enum Bracket {
    ParenOpen,
    ParenClose,
    SquareOpen,
    SquareClose,
    CurlyOpen,
    CurlyClose,
    AngleOpen,
    AngleClose,
}

/// The single character a bracket token stands for.
pub open spec fn bracket_text(b: Bracket) -> Seq<char> {
    match b {
        Bracket::ParenOpen => seq!['('],
        Bracket::ParenClose => seq![')'],
        Bracket::SquareOpen => seq!['['],
        Bracket::SquareClose => seq![']'],
        Bracket::CurlyOpen => seq!['{'],
        Bracket::CurlyClose => seq!['}'],
        Bracket::AngleOpen => seq!['<'],
        Bracket::AngleClose => seq!['>'],
    }
}

impl Bracket {
    /// The textual rendering of a bracket: its own source character.
    pub fn _format(self) -> (r: String)
        ensures
            r@ == bracket_text(self),
    {
        let mut s = String::new();
        match self {
            Bracket::ParenOpen => push_char(&mut s, '('),
            Bracket::ParenClose => push_char(&mut s, ')'),
            Bracket::SquareOpen => push_char(&mut s, '['),
            Bracket::SquareClose => push_char(&mut s, ']'),
            Bracket::CurlyOpen => push_char(&mut s, '{'),
            Bracket::CurlyClose => push_char(&mut s, '}'),
            Bracket::AngleOpen => push_char(&mut s, '<'),
            Bracket::AngleClose => push_char(&mut s, '>'),
        }
        s
    }
}

/// A lexical token.  Numbers carry the 64-bit encoding of the IEEE-754
/// binary64 value the digit run denotes.
#[derive(Debug, PartialEq)]
pub enum Token {
    Bracket(Bracket),
    StringLiteral(String),
    NumberLiteral(u64),
    Identifier(String),
    KeySymbol(String),
    ReservedWord(String),
    EndOfStream,
}

/// The mathematical value of a token.
pub enum TokV {
    Bracket(Bracket),
    StringLit(Seq<char>),
    Number(u64),
    Ident(Seq<char>),
    Key(Seq<char>),
    Reserved(Seq<char>),
    End,
}

impl View for Token {
    type V = TokV;

    open spec fn view(&self) -> TokV {
        match self {
            Token::Bracket(b) => TokV::Bracket(*b),
            Token::StringLiteral(s) => TokV::StringLit(s@),
            Token::NumberLiteral(n) => TokV::Number(*n),
            Token::Identifier(s) => TokV::Ident(s@),
            Token::KeySymbol(s) => TokV::Key(s@),
            Token::ReservedWord(s) => TokV::Reserved(s@),
            Token::EndOfStream => TokV::End,
        }
    }
}

impl Token {
    /// A structurally equal copy.
    pub fn duplicate(&self) -> (r: Token)
        ensures
            r@ == self@,
    {
        match self {
            Token::Bracket(b) => Token::Bracket(*b),
            Token::StringLiteral(s) => Token::StringLiteral(s.clone()),
            Token::NumberLiteral(n) => Token::NumberLiteral(*n),
            Token::Identifier(s) => Token::Identifier(s.clone()),
            Token::KeySymbol(s) => Token::KeySymbol(s.clone()),
            Token::ReservedWord(s) => Token::ReservedWord(s.clone()),
            Token::EndOfStream => Token::EndOfStream,
        }
    }

    /// A one-token description, used by `Lexer::_dump`.
    pub fn _format(&self) -> (r: String)
        ensures
            r@ == token_text(self@),
    {
        match self {
            Token::Bracket(b) => {
                let mut s: String = "Token Type: Bracket\nToken Val: ".to_owned();
                let t = b._format();
                s.append(t.as_str());
                s
            },
            Token::StringLiteral(v) => {
                let mut s: String = "Token Type: String\nToken Val: ".to_owned();
                s.append(v.as_str());
                s
            },
            Token::NumberLiteral(n) => {
                let mut s: String = "Token Type: Number\nToken Val: ".to_owned();
                let t = crate::arith::render_num(*n);
                s.append(t.as_str());
                s
            },
            Token::Identifier(v) => {
                let mut s: String = "Token Type: Identifier\nToken Val: ".to_owned();
                s.append(v.as_str());
                s
            },
            Token::KeySymbol(v) => {
                let mut s: String = "Token Type: Key\nToken Val: ".to_owned();
                s.append(v.as_str());
                s
            },
            Token::ReservedWord(v) => {
                let mut s: String = "Token Type: Reserved Ident\nToken Val: ".to_owned();
                s.append(v.as_str());
                s
            },
            Token::EndOfStream => "Token Type: End Of Stream".to_owned(),
        }
    }
}

/// The description `Token::_format` returns.
pub open spec fn token_text(t: TokV) -> Seq<char> {
    match t {
        TokV::Bracket(b) => "Token Type: Bracket\nToken Val: "@ + bracket_text(b),
        TokV::StringLit(s) => "Token Type: String\nToken Val: "@ + s,
        TokV::Number(n) => "Token Type: Number\nToken Val: "@ + crate::arith::num_text(n),
        TokV::Ident(s) => "Token Type: Identifier\nToken Val: "@ + s,
        TokV::Key(s) => "Token Type: Key\nToken Val: "@ + s,
        TokV::Reserved(s) => "Token Type: Reserved Ident\nToken Val: "@ + s,
        TokV::End => "Token Type: End Of Stream"@,
    }
}

/// The scanner's six mutually exclusive modes.
#[derive(Clone, Copy, Debug, PartialEq, Eq, Structural)]
pub enum LexerMode {
    Neutral,
    Numeric,
    StringLiteral,
    Ident,
    Key,
    SpecialCharacters,
}

/// The fatal outcome of scanning a character outside every recognized
/// class: the offending character and its position in the input.
#[derive(Clone, Copy, Debug, PartialEq, Eq, Structural)]
pub struct LexError {
    pub character: char,
    pub position: usize,
}

/// The scanner state: the current mode, the three pending buffers, and the
/// tokens emitted so far.
#[verifier::ext_equal]
pub struct LexSt {
    pub mode: LexerMode,
    pub sbuf: Seq<char>,
    pub nbuf: Seq<char>,
    pub ibuf: Seq<char>,
    pub out: Seq<TokV>,
}

pub open spec fn is_letter(c: char) -> bool {
    ('a' <= c && c <= 'z') || ('A' <= c && c <= 'Z')
}

pub open spec fn is_digit_char(c: char) -> bool {
    '0' <= c && c <= '9'
}

pub open spec fn is_whitespace(c: char) -> bool {
    c == ' ' || c == '\t' || c == '\n'
}

pub open spec fn is_bracket_char(c: char) -> bool {
    c == '(' || c == ')' || c == '{' || c == '}' || c == '[' || c == ']' || c == '<' || c == '>'
}

/// The fixed ledger of punctuation characters that form special-character
/// runs: `@ !`, the range `$` to `'`, the range `*` to `/`, the range `;`
/// to `?`, and `^` — checked after brackets, so `<` and `>` are brackets.
pub open spec fn is_special(c: char) -> bool {
    c == '@' || c == '!' || ('$' <= c && c <= '\'') || ('*' <= c && c <= '/') || (';' <= c && c
        <= '?') || c == '^'
}

pub open spec fn bracket_of(c: char) -> Bracket {
    if c == '(' {
        Bracket::ParenOpen
    } else if c == ')' {
        Bracket::ParenClose
    } else if c == '[' {
        Bracket::SquareOpen
    } else if c == ']' {
        Bracket::SquareClose
    } else if c == '{' {
        Bracket::CurlyOpen
    } else if c == '}' {
        Bracket::CurlyClose
    } else if c == '<' {
        Bracket::AngleOpen
    } else {
        Bracket::AngleClose
    }
}

/// Emptying the buffer of the current mode into a token.  In `Neutral`
/// mode there is nothing pending; a special-character run is emitted as an
/// identifier, which is how operator names such as `+` arise.
pub open spec fn flush_sp(st: LexSt) -> LexSt {
    match st.mode {
        LexerMode::Neutral => st,
        LexerMode::StringLiteral => LexSt {
            sbuf: Seq::empty(),
            out: st.out.push(TokV::StringLit(st.sbuf)),
            ..st
        },
        LexerMode::Numeric => LexSt {
            nbuf: Seq::empty(),
            out: st.out.push(TokV::Number(number_bits(st.nbuf))),
            ..st
        },
        LexerMode::Ident => LexSt { ibuf: Seq::empty(), out: st.out.push(TokV::Ident(st.ibuf)), ..st },
        LexerMode::Key => LexSt { ibuf: Seq::empty(), out: st.out.push(TokV::Key(st.ibuf)), ..st },
        LexerMode::SpecialCharacters => LexSt {
            ibuf: Seq::empty(),
            out: st.out.push(TokV::Ident(st.ibuf)),
            ..st
        },
    }
}

/// The effect of a letter: string content in a string, otherwise it
/// extends or starts an identifier run.
pub open spec fn letter_sp(st: LexSt, c: char) -> LexSt {
    match st.mode {
        LexerMode::Neutral => LexSt { mode: LexerMode::Ident, ibuf: st.ibuf.push(c), ..st },
        LexerMode::StringLiteral => LexSt { sbuf: st.sbuf.push(c), ..st },
        LexerMode::Numeric => {
            let f = flush_sp(st);
            LexSt { mode: LexerMode::Ident, ibuf: f.ibuf.push(c), ..f }
        },
        LexerMode::Ident => LexSt { ibuf: st.ibuf.push(c), ..st },
        LexerMode::Key => LexSt { ibuf: st.ibuf.push(c), ..st },
        LexerMode::SpecialCharacters => {
            let f = flush_sp(st);
            LexSt { mode: LexerMode::Ident, ibuf: f.ibuf.push(c), ..f }
        },
    }
}

/// The effect of a digit: string content in a string, part of the pending
/// identifier or key if one is open, otherwise it extends or starts a
/// numeric run.
pub open spec fn digit_sp(st: LexSt, c: char) -> LexSt {
    match st.mode {
        LexerMode::Neutral => LexSt { mode: LexerMode::Numeric, nbuf: st.nbuf.push(c), ..st },
        LexerMode::StringLiteral => LexSt { sbuf: st.sbuf.push(c), ..st },
        LexerMode::Numeric => LexSt { nbuf: st.nbuf.push(c), ..st },
        LexerMode::Ident => LexSt { ibuf: st.ibuf.push(c), ..st },
        LexerMode::Key => LexSt { ibuf: st.ibuf.push(c), ..st },
        LexerMode::SpecialCharacters => {
            let f = flush_sp(st);
            LexSt { mode: LexerMode::Numeric, nbuf: f.nbuf.push(c), ..f }
        },
    }
}

/// The effect of a special character: string content in a string, part of
/// the pending identifier or special run if one is open (this is how names
/// such as `add-3` stay one identifier), otherwise it starts a run.
pub open spec fn special_sp(st: LexSt, c: char) -> LexSt {
    match st.mode {
        LexerMode::Neutral => LexSt {
            mode: LexerMode::SpecialCharacters,
            ibuf: st.ibuf.push(c),
            ..st
        },
        LexerMode::StringLiteral => LexSt { sbuf: st.sbuf.push(c), ..st },
        LexerMode::Numeric => {
            let f = flush_sp(st);
            LexSt { mode: LexerMode::SpecialCharacters, ibuf: f.ibuf.push(c), ..f }
        },
        LexerMode::Ident => LexSt { ibuf: st.ibuf.push(c), ..st },
        LexerMode::Key => {
            let f = flush_sp(st);
            LexSt { mode: LexerMode::SpecialCharacters, ibuf: f.ibuf.push(c), ..f }
        },
        LexerMode::SpecialCharacters => LexSt { ibuf: st.ibuf.push(c), ..st },
    }
}

/// The effect of a bracket: string content in a string; otherwise it
/// flushes whatever is pending and is emitted on its own, never buffered.
pub open spec fn bracket_sp(st: LexSt, c: char) -> LexSt {
    if st.mode is StringLiteral {
        LexSt { sbuf: st.sbuf.push(c), ..st }
    } else {
        let f = flush_sp(st);
        LexSt { mode: LexerMode::Neutral, out: f.out.push(TokV::Bracket(bracket_of(c))), ..f }
    }
}

/// The effect of one input character on the scanner state; `None` is the
/// fatal outcome for a character outside every recognized class.
pub open spec fn step_sp(st: LexSt, c: char) -> Option<LexSt> {
    if c == '"' {
        if st.mode is StringLiteral {
            Some(LexSt { mode: LexerMode::Neutral, ..flush_sp(st) })
        } else {
            Some(LexSt { mode: LexerMode::StringLiteral, ..flush_sp(st) })
        }
    } else if is_letter(c) {
        Some(letter_sp(st, c))
    } else if is_digit_char(c) {
        Some(digit_sp(st, c))
    } else if is_whitespace(c) {
        if st.mode is StringLiteral {
            Some(LexSt { sbuf: st.sbuf.push(c), ..st })
        } else {
            Some(LexSt { mode: LexerMode::Neutral, ..flush_sp(st) })
        }
    } else if is_bracket_char(c) {
        Some(bracket_sp(st, c))
    } else if is_special(c) {
        Some(special_sp(st, c))
    } else if c == ':' {
        if st.mode is StringLiteral {
            Some(LexSt { sbuf: st.sbuf.push(c), ..st })
        } else {
            let f = flush_sp(st);
            Some(LexSt { mode: LexerMode::Key, ibuf: f.ibuf.push(':'), ..f })
        }
    } else {
        None
    }
}

/// Folding the scanner over the input from position `i` on.
pub open spec fn run_from(st: LexSt, cs: Seq<char>, i: int) -> Result<LexSt, LexError>
    decreases cs.len() - i,
{
    if i < 0 || i >= cs.len() {
        Ok(st)
    } else {
        match step_sp(st, cs[i]) {
            Some(st2) => run_from(st2, cs, i + 1),
            None => Err(LexError { character: cs[i], position: i as usize }),
        }
    }
}

/// The final flush and end-of-stream marker appended after a scan.
pub open spec fn lex_done(st: LexSt) -> LexSt {
    let f = flush_sp(st);
    LexSt { out: f.out.push(TokV::End), ..f }
}

/// The numeric buffer holds decimal digits only, and is nonempty whenever
/// a numeric run is open.
pub open spec fn lex_wf(st: LexSt) -> bool {
    &&& forall|j: int| 0 <= j < st.nbuf.len() ==> is_digit_char(#[trigger] st.nbuf[j])
    &&& st.mode is Numeric ==> st.nbuf.len() > 0
}

/// The scanner: the source text, the current mode, the emitted tokens and
/// the three pending buffers.
pub struct Lexer {
    stream: String,
    mode: LexerMode,
    pub out: Vec<Token>,
    str_buffer: String,
    num_buffer: String,
    ident_buffer: String,
}

impl Lexer {
    /// The scanner state this lexer is in.
    pub closed spec fn st(&self) -> LexSt {
        LexSt {
            mode: self.mode,
            sbuf: self.str_buffer@,
            nbuf: self.num_buffer@,
            ibuf: self.ident_buffer@,
            out: self.out@.map_values(|t: Token| t@),
        }
    }

    /// The source text this lexer scans.
    pub closed spec fn src_text(&self) -> Seq<char> {
        self.stream@
    }

    /// The state every fresh lexer starts in.
    pub open spec fn initial_st() -> LexSt {
        LexSt {
            mode: LexerMode::Neutral,
            sbuf: Seq::empty(),
            nbuf: Seq::empty(),
            ibuf: Seq::empty(),
            out: Seq::empty(),
        }
    }

    /// A fresh lexer over the given source text.
    pub fn from_string(str: String) -> (r: Self)
        ensures
            r.st() == Self::initial_st(),
            r.src_text() == str@,
            lex_wf(r.st()),
    {
        let mut tmp = Self::new();
        tmp.stream = str;
        proof {
            assert(tmp.st() =~= Self::initial_st());
        }
        tmp
    }

    /// A fresh lexer over empty source text.
    pub fn new() -> (r: Self)
        ensures
            r.st() == Self::initial_st(),
            r.src_text() == Seq::<char>::empty(),
            lex_wf(r.st()),
    {
        let r = Lexer {
            stream: String::new(),
            mode: LexerMode::Neutral,
            out: Vec::new(),
            str_buffer: String::new(),
            num_buffer: String::new(),
            ident_buffer: String::new(),
        };
        proof {
            assert(r.st() =~= Self::initial_st());
        }
        r
    }

    /// Hands out the collected tokens, consuming the lexer.
    pub fn into_tokens(self) -> (r: Vec<Token>)
        ensures
            r@.map_values(|t: Token| t@) == self.st().out,
    {
        self.out
    }

    /// The description of every token collected so far, in order.
    pub fn _dump(&self) -> (r: Vec<String>)
        ensures
            r@.map_values(|s: String| s@) == self.st().out.map_values(|t: TokV| token_text(t)),
    {
        let mut ret: Vec<String> = Vec::new();
        let n = self.out.len();
        let mut i: usize = 0;
        while i < n
            invariant
                n == self.out.len(),
                i <= n,
                ret@.len() == i,
                forall|j: int| 0 <= j < i ==> (#[trigger] ret@[j])@ == token_text(self.out@[j]@),
            decreases n - i,
        {
            let s = self.out[i]._format();
            ret.push(s);
            i = i + 1;
        }
        proof {
            assert(ret@.map_values(|s: String| s@) =~= self.st().out.map_values(
                |t: TokV| token_text(t),
            ));
        }
        ret
    }

    /// Empties the buffer of the current mode into a token.
    fn flush(&mut self)
        requires
            lex_wf(old(self).st()),
        ensures
            final(self).st() == flush_sp(old(self).st()),
            final(self).src_text() == old(self).src_text(),
            forall|j: int|
                0 <= j < final(self).st().nbuf.len() ==> is_digit_char(
                    #[trigger] final(self).st().nbuf[j],
                ),
    {
        match self.mode {
            LexerMode::Neutral => {
                proof {
                    assert(self.st() =~= flush_sp(old(self).st()));
                }
            },
            LexerMode::StringLiteral => {
                let s = self.str_buffer.clone();
                self.str_buffer = String::new();
                self.out.push(Token::StringLiteral(s));
                proof {
                    assert(self.st().out =~= old(self).st().out.push(
                        TokV::StringLit(old(self).st().sbuf),
                    ));
                    assert(self.st() =~= flush_sp(old(self).st()));
                }
            },
            LexerMode::Numeric => {
                let bits = crate::arith::parse_number(self.num_buffer.as_str());
                self.num_buffer = String::new();
                self.out.push(Token::NumberLiteral(bits));
                proof {
                    assert(self.st().out =~= old(self).st().out.push(
                        TokV::Number(number_bits(old(self).st().nbuf)),
                    ));
                    assert(self.st() =~= flush_sp(old(self).st()));
                }
            },
            LexerMode::Ident => {
                let s = self.ident_buffer.clone();
                self.ident_buffer = String::new();
                self.out.push(Token::Identifier(s));
                proof {
                    assert(self.st().out =~= old(self).st().out.push(
                        TokV::Ident(old(self).st().ibuf),
                    ));
                    assert(self.st() =~= flush_sp(old(self).st()));
                }
            },
            LexerMode::Key => {
                let s = self.ident_buffer.clone();
                self.ident_buffer = String::new();
                self.out.push(Token::KeySymbol(s));
                proof {
                    assert(self.st().out =~= old(self).st().out.push(TokV::Key(old(self).st().ibuf)));
                    assert(self.st() =~= flush_sp(old(self).st()));
                }
            },
            LexerMode::SpecialCharacters => {
                let s = self.ident_buffer.clone();
                self.ident_buffer = String::new();
                self.out.push(Token::Identifier(s));
                proof {
                    assert(self.st().out =~= old(self).st().out.push(
                        TokV::Ident(old(self).st().ibuf),
                    ));
                    assert(self.st() =~= flush_sp(old(self).st()));
                }
            },
        }
    }

    /// Handles a letter.
    fn match_char(&mut self, c: char)
        requires
            lex_wf(old(self).st()),
            is_letter(c),
        ensures
            final(self).st() == letter_sp(old(self).st(), c),
            final(self).src_text() == old(self).src_text(),
            lex_wf(final(self).st()),
    {
        match self.mode {
            LexerMode::Neutral => {
                self.mode = LexerMode::Ident;
                push_char(&mut self.ident_buffer, c);
            },
            LexerMode::StringLiteral => {
                push_char(&mut self.str_buffer, c);
            },
            LexerMode::Numeric => {
                self.flush();
                self.mode = LexerMode::Ident;
                push_char(&mut self.ident_buffer, c);
            },
            LexerMode::Ident => {
                push_char(&mut self.ident_buffer, c);
            },
            LexerMode::Key => {
                push_char(&mut self.ident_buffer, c);
            },
            LexerMode::SpecialCharacters => {
                self.flush();
                self.mode = LexerMode::Ident;
                push_char(&mut self.ident_buffer, c);
            },
        }
        proof {
            assert(self.st() =~= letter_sp(old(self).st(), c));
        }
    }

    /// Handles a digit.
    fn match_digit(&mut self, d: char)
        requires
            lex_wf(old(self).st()),
            is_digit_char(d),
        ensures
            final(self).st() == digit_sp(old(self).st(), d),
            final(self).src_text() == old(self).src_text(),
            lex_wf(final(self).st()),
    {
        match self.mode {
            LexerMode::Neutral => {
                self.mode = LexerMode::Numeric;
                push_char(&mut self.num_buffer, d);
            },
            LexerMode::StringLiteral => {
                push_char(&mut self.str_buffer, d);
            },
            LexerMode::Numeric => {
                push_char(&mut self.num_buffer, d);
            },
            LexerMode::Ident => {
                push_char(&mut self.ident_buffer, d);
            },
            LexerMode::Key => {
                push_char(&mut self.ident_buffer, d);
            },
            LexerMode::SpecialCharacters => {
                self.flush();
                self.mode = LexerMode::Numeric;
                push_char(&mut self.num_buffer, d);
            },
        }
        proof {
            assert(self.st() =~= digit_sp(old(self).st(), d));
        }
    }

    /// Handles a special character.
    fn match_special_char(&mut self, c: char)
        requires
            lex_wf(old(self).st()),
            is_special(c),
        ensures
            final(self).st() == special_sp(old(self).st(), c),
            final(self).src_text() == old(self).src_text(),
            lex_wf(final(self).st()),
    {
        match self.mode {
            LexerMode::SpecialCharacters => {
                push_char(&mut self.ident_buffer, c);
            },
            LexerMode::Neutral => {
                self.mode = LexerMode::SpecialCharacters;
                push_char(&mut self.ident_buffer, c);
            },
            LexerMode::StringLiteral => {
                push_char(&mut self.str_buffer, c);
            },
            LexerMode::Numeric => {
                self.flush();
                self.mode = LexerMode::SpecialCharacters;
                push_char(&mut self.ident_buffer, c);
            },
            LexerMode::Ident => {
                push_char(&mut self.ident_buffer, c);
            },
            LexerMode::Key => {
                self.flush();
                self.mode = LexerMode::SpecialCharacters;
                push_char(&mut self.ident_buffer, c);
            },
        }
        proof {
            assert(self.st() =~= special_sp(old(self).st(), c));
        }
    }

    /// Handles one of the eight bracket characters.
    fn match_bracket(&mut self, b: char)
        requires
            lex_wf(old(self).st()),
            is_bracket_char(b),
        ensures
            final(self).st() == bracket_sp(old(self).st(), b),
            final(self).src_text() == old(self).src_text(),
            lex_wf(final(self).st()),
    {
        match self.mode {
            LexerMode::StringLiteral => {
                push_char(&mut self.str_buffer, b);
                proof {
                    assert(self.st() =~= bracket_sp(old(self).st(), b));
                }
                return ;
            },
            _ => {},
        }
        self.flush();
        self.mode = LexerMode::Neutral;
        if b == '(' {
            self.out.push(Token::Bracket(Bracket::ParenOpen));
        } else if b == ')' {
            self.out.push(Token::Bracket(Bracket::ParenClose));
        } else if b == '[' {
            self.out.push(Token::Bracket(Bracket::SquareOpen));
        } else if b == ']' {
            self.out.push(Token::Bracket(Bracket::SquareClose));
        } else if b == '{' {
            self.out.push(Token::Bracket(Bracket::CurlyOpen));
        } else if b == '}' {
            self.out.push(Token::Bracket(Bracket::CurlyClose));
        } else if b == '<' {
            self.out.push(Token::Bracket(Bracket::AngleOpen));
        } else {
            self.out.push(Token::Bracket(Bracket::AngleClose));
        }
        proof {
            assert(self.st().out =~= flush_sp(old(self).st()).out.push(
                TokV::Bracket(bracket_of(b)),
            ));
            assert(self.st() =~= bracket_sp(old(self).st(), b));
        }
    }

    /// Scans the whole source text, appending the resulting tokens
    /// (terminated by exactly one end-of-stream marker) to `out`.  A
    /// character outside every recognized class is a fatal failure: the
    /// scan stops and reports the character and its position, distinct
    /// from every data-level error value of the evaluator.
    pub fn tokenize(&mut self) -> (r: Result<(), LexError>)
        requires
            lex_wf(old(self).st()),
        ensures
            final(self).src_text() == old(self).src_text(),
            match r {
                Ok(()) => {
                    &&& run_from(old(self).st(), old(self).src_text(), 0) is Ok
                    &&& final(self).st() == lex_done(
                        run_from(old(self).st(), old(self).src_text(), 0)->Ok_0,
                    )
                },
                Err(e) => run_from(old(self).st(), old(self).src_text(), 0) == Err::<
                    LexSt,
                    LexError,
                >(e),
            },
    {
        let stream_copy = self.stream.clone();
        let cs = chars_of(stream_copy.as_str());
        let n = cs.len();
        let mut i: usize = 0;
        while i < n
            invariant
                n == cs@.len(),
                cs@ == old(self).src_text(),
                i <= n,
                lex_wf(self.st()),
                self.src_text() == old(self).src_text(),
                run_from(old(self).st(), cs@, 0) == run_from(self.st(), cs@, i as int),
            decreases n - i,
        {
            let c = cs[i];
            if c == '"' {
                match self.mode {
                    LexerMode::StringLiteral => {
                        self.flush();
                        self.mode = LexerMode::Neutral;
                    },
                    _ => {
                        self.flush();
                        self.mode = LexerMode::StringLiteral;
                    },
                }
            } else if ('a' <= c && c <= 'z') || ('A' <= c && c <= 'Z') {
                self.match_char(c);
            } else if '0' <= c && c <= '9' {
                self.match_digit(c);
            } else if c == ' ' || c == '\t' || c == '\n' {
                match self.mode {
                    LexerMode::StringLiteral => {
                        push_char(&mut self.str_buffer, c);
                    },
                    _ => {
                        self.flush();
                        self.mode = LexerMode::Neutral;
                    },
                }
            } else if c == '(' || c == ')' || c == '{' || c == '}' || c == '[' || c == ']' || c
                == '<' || c == '>' {
                self.match_bracket(c);
            } else if c == '@' || c == '!' || ('$' <= c && c <= '\'') || ('*' <= c && c <= '/') || (
            ';' <= c && c <= '?') || c == '^' {
                self.match_special_char(c);
            } else if c == ':' {
                match self.mode {
                    LexerMode::StringLiteral => {
                        push_char(&mut self.str_buffer, c);
                    },
                    _ => {
                        self.flush();
                        self.mode = LexerMode::Key;
                        push_char(&mut self.ident_buffer, ':');
                    },
                }
            } else {
                return Err(LexError { character: c, position: i });
            }
            i = i + 1;
        }
        self.flush();
        self.out.push(Token::EndOfStream);
        proof {
            let endst = run_from(old(self).st(), cs@, 0)->Ok_0;
            assert(self.st().out =~= flush_sp(endst).out.push(TokV::End));
            assert(self.st() =~= lex_done(endst));
        }
        Ok(())
    }

    /// Reclassifies each identifier whose text is exactly `true`, `false`
    /// or `nil` as a reserved word; every other token is kept as it is.
    pub fn substitute(&mut self)
        ensures
            final(self).st() == (LexSt { out: subst_seq(old(self).st().out), ..old(self).st() }),
            final(self).src_text() == old(self).src_text(),
            lex_wf(old(self).st()) ==> lex_wf(final(self).st()),
    {
        let mut new_tokens: Vec<Token> = Vec::new();
        let n = self.out.len();
        let mut i: usize = 0;
        while i < n
            invariant
                n == self.out.len(),
                i <= n,
                new_tokens@.len() == i,
                forall|j: int|
                    0 <= j < i ==> (#[trigger] new_tokens@[j])@ == subst_tok(self.out@[j]@),
            decreases n - i,
        {
            match &self.out[i] {
                Token::Identifier(s) => {
                    if string_eq_str(s, "true") {
                        new_tokens.push(Token::ReservedWord(s.clone()));
                    } else if string_eq_str(s, "false") {
                        new_tokens.push(Token::ReservedWord(s.clone()));
                    } else if string_eq_str(s, "nil") {
                        new_tokens.push(Token::ReservedWord(s.clone()));
                    } else {
                        new_tokens.push(Token::Identifier(s.clone()));
                    }
                },
                t => {
                    let d = t.duplicate();
                    new_tokens.push(d);
                },
            }
            i = i + 1;
        }
        self.out = new_tokens;
        proof {
            assert(self.st().out =~= subst_seq(old(self).st().out));
            assert(self.st() =~= LexSt { out: subst_seq(old(self).st().out), ..old(self).st() });
        }
    }
}

/// One token after reserved-word reclassification.
pub open spec fn subst_tok(t: TokV) -> TokV {
    match t {
        TokV::Ident(s) => if s == "true"@ || s == "false"@ || s == "nil"@ {
            TokV::Reserved(s)
        } else {
            t
        },
        _ => t,
    }
}

/// A token sequence after reserved-word reclassification.
pub open spec fn subst_seq(s: Seq<TokV>) -> Seq<TokV> {
    s.map_values(|t: TokV| subst_tok(t))
}

} // verus!
