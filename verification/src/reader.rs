//! The reader: a recursive-descent parser from the token sequence to one
//! expression tree per top-level form.
//!
//! The reader is modelled by the fuel-indexed functions `parse_all_sp` and
//! `parse_list_sp`; fuel only bounds the recursion, and `lemma_parse_all_mono`
//! shows the result does not depend on which sufficient fuel is used, so
//! `exists|f| parse_all_sp(..) == Some(..)` pins the output completely.
//!
//! Structural leniencies of the grammar are kept and stated by the model:
//! any bracket token opens list parsing at top level, any close bracket
//! ends a list, and reaching the end of the stream inside a list appends
//! an unmatched-parenthesis error value to the list instead of failing.
use vstd::prelude::*;
use crate::lex::{Bracket, Lexer, Token, TokV};
use crate::liblisp::{lemma_lits_view, lits_view, LitV, Literal};

verus! {

/// A cursor into the token sequence: a position and the token under it.
#[verifier::ext_equal]
pub struct Curs {
    pub i: int,
    pub cur: TokV,
}

/// Advancing the cursor: at the last token it stays put and shows the
/// end-of-stream marker instead.
pub open spec fn next_c(toks: Seq<TokV>, c: Curs) -> Curs {
    if toks.len() == 0 || c.i + 1 == toks.len() {
        Curs { cur: TokV::End, ..c }
    } else {
        Curs { i: c.i + 1, cur: toks[c.i + 1] }
    }
}

/// The cursor measure that every parsing step lowers: twice the tokens
/// left, plus one while the cursor is not at the end marker.
pub open spec fn curs_m(toks: Seq<TokV>, c: Curs) -> int {
    2 * (toks.len() - c.i) + if c.cur is End {
        0int
    } else {
        1int
    }
}

/// Reading one atomic form: names become atoms, number and string tokens
/// become their values, and a bracket or end-of-stream where an atom was
/// expected becomes an error value; the cursor always advances.
pub open spec fn parse_atomic_sp(toks: Seq<TokV>, c: Curs) -> (LitV, Curs) {
    match c.cur {
        TokV::Key(s) => (LitV::Atom(s), next_c(toks, c)),
        TokV::Ident(s) => (LitV::Atom(s), next_c(toks, c)),
        TokV::Reserved(s) => (LitV::Atom(s), next_c(toks, c)),
        TokV::Number(b) => (LitV::Num(b), next_c(toks, c)),
        TokV::StringLit(s) => (LitV::Str(s), next_c(toks, c)),
        TokV::Bracket(_) => (
            LitV::ErrVal("Parser Error: Unexpected bracket encountered"@, -1),
            next_c(toks, c),
        ),
        TokV::End => (LitV::ErrVal("Parser Error: Unexpected EOF encountered"@, -1), next_c(toks, c)),
    }
}

/// Reading the items of a list, the opening bracket already consumed: an
/// open parenthesis starts a nested list, any close bracket ends this one,
/// and end-of-stream appends an unmatched-parenthesis error value.
pub open spec fn parse_list_sp(toks: Seq<TokV>, c: Curs, fuel: nat) -> Option<(Seq<LitV>, Curs)>
    decreases fuel,
{
    if fuel == 0 {
        None
    } else {
        match c.cur {
            TokV::Bracket(b) => if b is ParenOpen {
                match parse_list_sp(toks, next_c(toks, c), (fuel - 1) as nat) {
                    None => None,
                    Some(p) => match parse_list_sp(toks, p.1, (fuel - 1) as nat) {
                        None => None,
                        Some(q) => Some((seq![LitV::List(p.0)] + q.0, q.1)),
                    },
                }
            } else {
                Some((Seq::empty(), next_c(toks, c)))
            },
            TokV::End => Some(
                (seq![LitV::ErrVal("Parser Error: Unmatched Parenthesis"@, -1)], c),
            ),
            _ => {
                let p = parse_atomic_sp(toks, c);
                match parse_list_sp(toks, p.1, (fuel - 1) as nat) {
                    None => None,
                    Some(q) => Some((seq![p.0] + q.0, q.1)),
                }
            },
        }
    }
}

/// Reading every top-level form: any bracket token starts list parsing,
/// the end marker stops, and anything else is an atomic form.
pub open spec fn parse_all_sp(toks: Seq<TokV>, c: Curs, fuel: nat) -> Option<(Seq<LitV>, Curs)>
    decreases fuel,
{
    if fuel == 0 {
        None
    } else if c.i >= toks.len() {
        Some((Seq::empty(), c))
    } else {
        match c.cur {
            TokV::End => Some((Seq::empty(), c)),
            TokV::Bracket(_) => match parse_list_sp(toks, next_c(toks, c), (fuel - 1) as nat) {
                None => None,
                Some(p) => match parse_all_sp(toks, p.1, (fuel - 1) as nat) {
                    None => None,
                    Some(q) => Some((seq![LitV::List(p.0)] + q.0, q.1)),
                },
            },
            _ => {
                let p = parse_atomic_sp(toks, c);
                match parse_all_sp(toks, p.1, (fuel - 1) as nat) {
                    None => None,
                    Some(q) => Some((seq![p.0] + q.0, q.1)),
                }
            },
        }
    }
}

/// Once enough fuel is given, giving more does not change what list
/// parsing returns.
pub proof fn lemma_parse_list_mono(toks: Seq<TokV>, c: Curs, f1: nat, f2: nat)
    requires
        f1 <= f2,
        parse_list_sp(toks, c, f1) is Some,
    ensures
        parse_list_sp(toks, c, f2) == parse_list_sp(toks, c, f1),
    decreases f1,
{
    match c.cur {
        TokV::Bracket(b) => {
            if b is ParenOpen {
                lemma_parse_list_mono(toks, next_c(toks, c), (f1 - 1) as nat, (f2 - 1) as nat);
                let p = parse_list_sp(toks, next_c(toks, c), (f1 - 1) as nat)->0;
                lemma_parse_list_mono(toks, p.1, (f1 - 1) as nat, (f2 - 1) as nat);
            }
        },
        TokV::End => {},
        _ => {
            let p = parse_atomic_sp(toks, c);
            lemma_parse_list_mono(toks, p.1, (f1 - 1) as nat, (f2 - 1) as nat);
        },
    }
}

/// Once enough fuel is given, giving more does not change what the reader
/// returns: with `lemma_parse_all_mono`, any two successful runs agree, so
/// the reader's result is a function of the token sequence alone.
pub proof fn lemma_parse_all_mono(toks: Seq<TokV>, c: Curs, f1: nat, f2: nat)
    requires
        f1 <= f2,
        parse_all_sp(toks, c, f1) is Some,
    ensures
        parse_all_sp(toks, c, f2) == parse_all_sp(toks, c, f1),
    decreases f1,
{
    if c.i < toks.len() {
        match c.cur {
            TokV::End => {},
            TokV::Bracket(_) => {
                lemma_parse_list_mono(toks, next_c(toks, c), (f1 - 1) as nat, (f2 - 1) as nat);
                let p = parse_list_sp(toks, next_c(toks, c), (f1 - 1) as nat)->0;
                lemma_parse_all_mono(toks, p.1, (f1 - 1) as nat, (f2 - 1) as nat);
            },
            _ => {
                let p = parse_atomic_sp(toks, c);
                lemma_parse_all_mono(toks, p.1, (f1 - 1) as nat, (f2 - 1) as nat);
            },
        }
    }
}

/// The reader: the token sequence, a cursor into it, and the top-level
/// forms read so far.
pub struct Parser {
    pub stream: Vec<Token>,
    pub out: Vec<Literal>,
    current_tok: Token,
    index: usize,
    stream_length: usize,
}

impl Parser {
    /// The mathematical token sequence this reader walks.
    pub closed spec fn toks(&self) -> Seq<TokV> {
        self.stream@.map_values(|t: Token| t@)
    }

    /// The reader's cursor.
    pub closed spec fn curs(&self) -> Curs {
        Curs { i: self.index as int, cur: self.current_tok@ }
    }

    /// The values of the forms read so far, in source order.
    pub closed spec fn forms(&self) -> Seq<LitV> {
        lits_view(self.out@)
    }

    /// The cursor sits inside the stream and shows either the token at its
    /// position or the end marker.
    pub closed spec fn wf(&self) -> bool {
        &&& self.stream_length == self.stream@.len()
        &&& self.index < self.stream@.len()
        &&& (self.curs().cur == self.toks()[self.index as int] || self.curs().cur == TokV::End)
    }

    /// A reader over the tokens a lexer collected, which must at least
    /// hold the end-of-stream marker.
    pub fn from_tokenizer(to_parse: Lexer) -> (r: Parser)
        requires
            to_parse.st().out.len() > 0,
        ensures
            r.wf(),
            r.toks() == to_parse.st().out,
            r.forms() == Seq::<LitV>::empty(),
            r.curs() == (Curs { i: 0, cur: to_parse.st().out[0] }),
    {
        let cache = to_parse.into_tokens();
        let n = cache.len();
        let first = (&cache[0]).duplicate();
        let r = Parser { stream: cache, out: Vec::new(), current_tok: first, index: 0, stream_length: n };
        proof {
            assert(r.toks() =~= to_parse.st().out);
        }
        r
    }

    /// The forms read, in source order.
    pub fn out(self) -> (r: Vec<Literal>)
        ensures
            lits_view(r@) == self.forms(),
    {
        self.out
    }

    /// Advances the cursor.
    fn get_next_token(&mut self)
        requires
            old(self).wf(),
        ensures
            final(self).wf(),
            final(self).toks() == old(self).toks(),
            final(self).out == old(self).out,
            final(self).curs() == next_c(old(self).toks(), old(self).curs()),
            curs_m(final(self).toks(), final(self).curs()) <= curs_m(
                old(self).toks(),
                old(self).curs(),
            ),
            !(old(self).curs().cur is End) ==> curs_m(final(self).toks(), final(self).curs())
                < curs_m(old(self).toks(), old(self).curs()),
    {
        if self.stream.len() == 0 || self.stream.len() == self.index + 1 {
            self.current_tok = Token::EndOfStream;
            return ;
        }
        self.index = self.index + 1;
        let t = (&self.stream[self.index]).duplicate();
        self.current_tok = t;
    }

    /// Reads one atomic form, exactly as `parse_atomic_sp` states.
    fn parse_atomic(&mut self) -> (r: Literal)
        requires
            old(self).wf(),
        ensures
            final(self).wf(),
            final(self).toks() == old(self).toks(),
            final(self).out == old(self).out,
            r@ == parse_atomic_sp(old(self).toks(), old(self).curs()).0,
            final(self).curs() == parse_atomic_sp(old(self).toks(), old(self).curs()).1,
            curs_m(final(self).toks(), final(self).curs()) <= curs_m(
                old(self).toks(),
                old(self).curs(),
            ),
            !(old(self).curs().cur is End) ==> curs_m(final(self).toks(), final(self).curs())
                < curs_m(old(self).toks(), old(self).curs()),
    {
        let r: Literal;
        match &self.current_tok {
            Token::KeySymbol(s) => {
                r = Literal::Atom(s.clone());
            },
            Token::Identifier(s) => {
                r = Literal::Atom(s.clone());
            },
            Token::ReservedWord(s) => {
                r = Literal::Atom(s.clone());
            },
            Token::NumberLiteral(n) => {
                r = Literal::Num(*n);
            },
            Token::StringLiteral(s) => {
                r = Literal::Str(s.clone());
            },
            Token::Bracket(_) => {
                r = Literal::ErrVal("Parser Error: Unexpected bracket encountered".to_owned(), -1);
            },
            Token::EndOfStream => {
                r = Literal::ErrVal("Parser Error: Unexpected EOF encountered".to_owned(), -1);
            },
        }
        self.get_next_token();
        r
    }

    /// Reads the items of a list, the opening bracket already consumed,
    /// exactly as `parse_list_sp` states for some sufficient fuel.
    fn parse_list(&mut self) -> (r: Vec<Literal>)
        requires
            old(self).wf(),
        ensures
            final(self).wf(),
            final(self).toks() == old(self).toks(),
            final(self).out == old(self).out,
            (exists|f: nat|
                parse_list_sp(old(self).toks(), old(self).curs(), f) == Some(
                    (lits_view(r@), final(self).curs()),
                )),
            curs_m(final(self).toks(), final(self).curs()) <= curs_m(
                old(self).toks(),
                old(self).curs(),
            ),
        decreases curs_m(self.toks(), self.curs()),
    {
        let is_open: bool;
        let is_close: bool;
        let is_end: bool;
        match &self.current_tok {
            Token::Bracket(b) => {
                match b {
                    Bracket::ParenOpen => {
                        is_open = true;
                        is_close = false;
                    },
                    _ => {
                        is_open = false;
                        is_close = true;
                    },
                }
                is_end = false;
            },
            Token::EndOfStream => {
                is_open = false;
                is_close = false;
                is_end = true;
            },
            _ => {
                is_open = false;
                is_close = false;
                is_end = false;
            },
        }
        if is_open {
            self.get_next_token();
            let kids = self.parse_list();
            let ghost kidsv = lits_view(kids@);
            let ghost cmid = self.curs();
            let mut rest = self.parse_list();
            let ghost f1 = choose|f: nat|
                parse_list_sp(old(self).toks(), next_c(old(self).toks(), old(self).curs()), f)
                    == Some((kidsv, cmid));
            let ghost f2 = choose|f: nat|
                parse_list_sp(old(self).toks(), cmid, f) == Some((lits_view(rest@), self.curs()));
            let ghost restv = lits_view(rest@);
            let ghost rest_old = rest@;
            let mut out_v: Vec<Literal> = Vec::new();
            out_v.push(Literal::List(kids));
            out_v.append(&mut rest);
            proof {
                let toks = old(self).toks();
                let c0 = old(self).curs();
                let fb = if f1 <= f2 {
                    f2
                } else {
                    f1
                };
                lemma_parse_list_mono(toks, next_c(toks, c0), f1, fb);
                lemma_parse_list_mono(toks, cmid, f2, fb);
                lemma_lits_view(out_v@);
                lemma_lits_view(rest_old);
                assert(out_v@[0]@ == LitV::List(kidsv));
                assert(lits_view(out_v@) =~= seq![LitV::List(kidsv)] + restv);
                assert(parse_list_sp(toks, c0, fb + 1) == Some((lits_view(out_v@), self.curs())));
            }
            out_v
        } else if is_close {
            self.get_next_token();
            let r: Vec<Literal> = Vec::new();
            proof {
                assert(parse_list_sp(old(self).toks(), old(self).curs(), 1) == Some(
                    (lits_view(r@), self.curs()),
                ));
            }
            r
        } else if is_end {
            let mut r: Vec<Literal> = Vec::new();
            r.push(Literal::ErrVal("Parser Error: Unmatched Parenthesis".to_owned(), -1));
            proof {
                lemma_lits_view(r@);
                assert(lits_view(r@) =~= seq![
                    LitV::ErrVal("Parser Error: Unmatched Parenthesis"@, -1),
                ]);
                assert(parse_list_sp(old(self).toks(), old(self).curs(), 1) == Some(
                    (lits_view(r@), self.curs()),
                ));
            }
            r
        } else {
            let a = self.parse_atomic();
            let ghost av = a@;
            let ghost cmid = self.curs();
            let mut rest = self.parse_list();
            let ghost f2 = choose|f: nat|
                parse_list_sp(old(self).toks(), cmid, f) == Some((lits_view(rest@), self.curs()));
            let ghost restv = lits_view(rest@);
            let ghost rest_old = rest@;
            let mut out_v: Vec<Literal> = Vec::new();
            out_v.push(a);
            out_v.append(&mut rest);
            proof {
                let toks = old(self).toks();
                let c0 = old(self).curs();
                lemma_lits_view(out_v@);
                lemma_lits_view(rest_old);
                assert(out_v@[0]@ == av);
                assert(lits_view(out_v@) =~= seq![av] + restv);
                assert(parse_list_sp(toks, c0, f2 + 1) == Some((lits_view(out_v@), self.curs())));
            }
            out_v
        }
    }

    /// Reads every remaining top-level form and appends each, in order, to
    /// `out`, exactly as `parse_all_sp` states for some sufficient fuel.
    pub fn parse(&mut self)
        requires
            old(self).wf(),
        ensures
            final(self).wf(),
            final(self).toks() == old(self).toks(),
            old(self).forms().len() <= final(self).forms().len(),
            final(self).forms().subrange(0, old(self).forms().len() as int) == old(self).forms(),
            (exists|f: nat|
                parse_all_sp(old(self).toks(), old(self).curs(), f) == Some(
                    (
                        final(self).forms().skip(old(self).forms().len() as int),
                        final(self).curs(),
                    ),
                )),
        decreases curs_m(self.toks(), self.curs()),
    {
        proof {
            lemma_lits_view(self.out@);
        }
        let ghost toks = self.toks();
        let ghost c0 = self.curs();
        let ghost forms0 = self.forms();
        let ghost k = forms0.len() as int;
        if self.index >= self.stream_length {
            proof {
                assert(self.forms().skip(k) =~= Seq::<LitV>::empty());
                assert(self.forms().subrange(0, k) =~= forms0);
                assert(parse_all_sp(toks, c0, 1) == Some((self.forms().skip(k), self.curs())));
            }
            return ;
        }
        let is_bracket: bool;
        let is_end: bool;
        match &self.current_tok {
            Token::Bracket(_) => {
                is_bracket = true;
                is_end = false;
            },
            Token::EndOfStream => {
                is_bracket = false;
                is_end = true;
            },
            _ => {
                is_bracket = false;
                is_end = false;
            },
        }
        if is_end {
            proof {
                assert(self.forms().skip(k) =~= Seq::<LitV>::empty());
                assert(self.forms().subrange(0, k) =~= forms0);
                assert(parse_all_sp(toks, c0, 1) == Some((self.forms().skip(k), self.curs())));
            }
            return ;
        }
        if is_bracket {
            self.get_next_token();
            let kids = self.parse_list();
            let ghost cmid = self.curs();
            let ghost f1 = choose|f: nat|
                parse_list_sp(toks, next_c(toks, c0), f) == Some((lits_view(kids@), cmid));
            let ghost item = lit_of_list(kids@);
            let ghost out_mid = self.out@;
            self.out.push(Literal::List(kids));
            proof {
                lemma_lits_view(self.out@);
                lemma_lits_view(out_mid);
                assert(self.forms() =~= forms0.push(item));
            }
            self.parse();
            proof {
                let f2 = choose|f: nat|
                    parse_all_sp(toks, cmid, f) == Some(
                        (self.forms().skip(k + 1), self.curs()),
                    );
                let fb = if f1 <= f2 {
                    f2
                } else {
                    f1
                };
                lemma_parse_list_mono(toks, next_c(toks, c0), f1, fb);
                lemma_parse_all_mono(toks, cmid, f2, fb);
                assert(self.forms().subrange(0, k + 1) == forms0.push(item));
                assert(self.forms().subrange(0, k + 1)[k] == item);
                assert(self.forms().skip(k)[0] == self.forms()[k]);
                assert(self.forms().skip(k).drop_first() =~= self.forms().skip(k + 1));
                assert(self.forms().skip(k) =~= seq![item] + self.forms().skip(k + 1));
                assert(parse_all_sp(toks, c0, fb + 1) == Some(
                    (self.forms().skip(k), self.curs()),
                ));
                assert(self.forms().subrange(0, k) =~= forms0);
            }
        } else {
            let a = self.parse_atomic();
            let ghost cmid = self.curs();
            let ghost item = a@;
            let ghost out_mid = self.out@;
            self.out.push(a);
            proof {
                lemma_lits_view(self.out@);
                lemma_lits_view(out_mid);
                assert(self.forms() =~= forms0.push(item));
            }
            self.parse();
            proof {
                let f2 = choose|f: nat|
                    parse_all_sp(toks, cmid, f) == Some(
                        (self.forms().skip(k + 1), self.curs()),
                    );
                assert(self.forms().subrange(0, k + 1) == forms0.push(item));
                assert(self.forms().subrange(0, k + 1)[k] == item);
                assert(self.forms().skip(k)[0] == self.forms()[k]);
                assert(self.forms().skip(k).drop_first() =~= self.forms().skip(k + 1));
                assert(self.forms().skip(k) =~= seq![item] + self.forms().skip(k + 1));
                assert(parse_all_sp(toks, c0, f2 + 1) == Some(
                    (self.forms().skip(k), self.curs()),
                ));
                assert(self.forms().subrange(0, k) =~= forms0);
            }
        }
    }
}

/// The list value holding the given items' values.
pub open spec fn lit_of_list(items: Seq<Literal>) -> LitV {
    LitV::List(lits_view(items))
}

} // verus!
