//! The template language and its parser.
//!
//! A template is a string of literal text, variable references and style
//! scopes:
//!
//! - `$name` — a variable reference (letters, digits and `_`);
//! - `$name($stylename)` — a variable reference styled by a style variable;
//! - `[ ... ]($stylename)` — a style scope: the style applies to every
//!   literal and variable inside it that no inner scope already styles
//!   (the innermost scope wins, style handles being opaque at this layer);
//! - `\$`, `\[`, `\]`, `\(`, `\)`, `\\` — escaped literal characters.
//!
//! Anything else — an unknown escape, a bare `(`, `)`, `[` or `]` out of
//! place, an empty name, or an unclosed scope — is a parse error, never a
//! panic. The parser runs once per resolution pass and keeps, for every
//! piece, the name of the innermost style scope enclosing it, so that the
//! resolver can walk a flat sequence.

use vstd::prelude::*;
use vstd::string::*;
use crate::errors::FormatError;
use crate::text::{is_name_char, push_char, spec_is_name_char, str_eq};

verus! {

/// One piece of a parsed template: a literal or a variable reference,
/// together with the name of the innermost style scope that encloses it.
#[derive(Debug)]
pub struct Piece {
    /// `true` for a variable reference, `false` for literal text.
    pub var: bool,
    /// The literal text, or the variable's name.
    pub text: String,
    /// The style variable naming this piece's style scope, if any.
    pub style: Option<String>,
}

/// Mathematical image of a `Piece`.
#[verifier::ext_equal]
pub struct SpecPiece {
    pub var: bool,
    pub text: Seq<char>,
    pub style: Option<Seq<char>>,
}

/// View of an optional owned string.
pub open spec fn opt_view(o: Option<String>) -> Option<Seq<char>> {
    match o {
        Some(s) => Some(s@),
        None => None,
    }
}

impl View for Piece {
    type V = SpecPiece;

    open spec fn view(&self) -> SpecPiece {
        SpecPiece { var: self.var, text: self.text@, style: opt_view(self.style) }
    }
}

/// The views of a sequence of pieces.
pub open spec fn pieces_view(v: Seq<Piece>) -> Seq<SpecPiece> {
    v.map_values(|p: Piece| p@)
}

/// What the parser is in the middle of reading.
enum Mode {
    /// Literal text.
    Lit,
    /// The character after a backslash.
    Esc,
    /// A variable name after `$`.
    Var(String),
    /// The `$` that must follow `(`; `Some(v)` when the style belongs to
    /// variable `v`, `None` when it closes a `[ ... ]` scope.
    StyleDollar(Option<String>),
    /// A style name; same owner convention as `StyleDollar`.
    StyleName(Option<String>, String),
    /// The `(` that must follow `]`.
    ClosePar,
}

/// Mathematical image of a `Mode`.
#[verifier::ext_equal]
pub enum SpecMode {
    Lit,
    Esc,
    Var(Seq<char>),
    StyleDollar(Option<Seq<char>>),
    StyleName(Option<Seq<char>>, Seq<char>),
    ClosePar,
}

impl View for Mode {
    type V = SpecMode;

    closed spec fn view(&self) -> SpecMode {
        match self {
            Mode::Lit => SpecMode::Lit,
            Mode::Esc => SpecMode::Esc,
            Mode::Var(s) => SpecMode::Var(s@),
            Mode::StyleDollar(o) => SpecMode::StyleDollar(opt_view(*o)),
            Mode::StyleName(o, s) => SpecMode::StyleName(opt_view(*o), s@),
            Mode::ClosePar => SpecMode::ClosePar,
        }
    }
}

/// The parser's whole state after some prefix of the input.
struct Parser {
    err: bool,
    pieces: Vec<Piece>,
    opens: Vec<usize>,
    lit: String,
    mode: Mode,
}

/// Mathematical image of a `Parser`.
#[verifier::ext_equal]
pub struct PSt {
    pub err: bool,
    pub pieces: Seq<SpecPiece>,
    pub opens: Seq<int>,
    pub lit: Seq<char>,
    pub mode: SpecMode,
}

impl View for Parser {
    type V = PSt;

    closed spec fn view(&self) -> PSt {
        PSt {
            err: self.err,
            pieces: pieces_view(self.pieces@),
            opens: self.opens@.map_values(|u: usize| u as int),
            lit: self.lit@,
            mode: self.mode@,
        }
    }
}

/// The state every parse starts from.
pub open spec fn spec_init() -> PSt {
    PSt {
        err: false,
        pieces: Seq::empty(),
        opens: Seq::empty(),
        lit: Seq::empty(),
        mode: SpecMode::Lit,
    }
}

/// Closes the pending literal buffer into a piece, if it is nonempty.
pub open spec fn spec_flush(pieces: Seq<SpecPiece>, lit: Seq<char>) -> Seq<SpecPiece> {
    if lit.len() == 0 {
        pieces
    } else {
        pieces.push(SpecPiece { var: false, text: lit, style: None })
    }
}

/// Gives `style` to every piece from `from` on that no inner scope styled.
pub open spec fn spec_patch(ps: Seq<SpecPiece>, from: int, style: Seq<char>) -> Seq<SpecPiece> {
    Seq::new(
        ps.len(),
        |i: int|
            if i >= from && ps[i].style is None {
                SpecPiece { var: ps[i].var, text: ps[i].text, style: Some(style) }
            } else {
                ps[i]
            },
    )
}

/// The parse failed; everything but the flag stands still.
pub open spec fn spec_fail(st: PSt) -> PSt {
    PSt { err: true, ..st }
}

/// One character read in literal position.
pub open spec fn spec_step_lit(st: PSt, c: char) -> PSt {
    if c == '\\' {
        PSt { mode: SpecMode::Esc, ..st }
    } else if c == '$' {
        PSt { pieces: spec_flush(st.pieces, st.lit), lit: Seq::empty(), mode: SpecMode::Var(Seq::empty()), ..st }
    } else if c == '[' {
        let ps = spec_flush(st.pieces, st.lit);
        PSt { pieces: ps, lit: Seq::empty(), opens: st.opens.push(ps.len() as int), mode: SpecMode::Lit, ..st }
    } else if c == ']' {
        PSt { pieces: spec_flush(st.pieces, st.lit), lit: Seq::empty(), mode: SpecMode::ClosePar, ..st }
    } else if c == '(' || c == ')' {
        spec_fail(st)
    } else {
        PSt { lit: st.lit.push(c), mode: SpecMode::Lit, ..st }
    }
}

/// One character of input applied to a parser state.
pub open spec fn spec_step(st: PSt, c: char) -> PSt {
    if st.err {
        st
    } else {
        match st.mode {
            SpecMode::Lit => spec_step_lit(st, c),
            SpecMode::Esc => {
                if c == '$' || c == '[' || c == ']' || c == '(' || c == ')' || c == '\\' {
                    PSt { lit: st.lit.push(c), mode: SpecMode::Lit, ..st }
                } else {
                    spec_fail(st)
                }
            },
            SpecMode::Var(name) => {
                if spec_is_name_char(c) {
                    PSt { mode: SpecMode::Var(name.push(c)), ..st }
                } else if name.len() == 0 {
                    spec_fail(st)
                } else if c == '(' {
                    PSt { mode: SpecMode::StyleDollar(Some(name)), ..st }
                } else {
                    let emitted = PSt {
                        pieces: st.pieces.push(SpecPiece { var: true, text: name, style: None }),
                        mode: SpecMode::Lit,
                        ..st
                    };
                    spec_step_lit(emitted, c)
                }
            },
            SpecMode::StyleDollar(owner) => {
                if c == '$' {
                    PSt { mode: SpecMode::StyleName(owner, Seq::empty()), ..st }
                } else {
                    spec_fail(st)
                }
            },
            SpecMode::StyleName(owner, sname) => {
                if spec_is_name_char(c) {
                    PSt { mode: SpecMode::StyleName(owner, sname.push(c)), ..st }
                } else if c != ')' || sname.len() == 0 {
                    spec_fail(st)
                } else {
                    match owner {
                        Some(vname) => PSt {
                            pieces: st.pieces.push(
                                SpecPiece { var: true, text: vname, style: Some(sname) },
                            ),
                            mode: SpecMode::Lit,
                            ..st
                        },
                        None => {
                            if st.opens.len() == 0 {
                                spec_fail(st)
                            } else {
                                PSt {
                                    pieces: spec_patch(st.pieces, st.opens.last(), sname),
                                    opens: st.opens.drop_last(),
                                    mode: SpecMode::Lit,
                                    ..st
                                }
                            }
                        },
                    }
                }
            },
            SpecMode::ClosePar => {
                if c == '(' {
                    PSt { mode: SpecMode::StyleDollar(None), ..st }
                } else {
                    spec_fail(st)
                }
            },
        }
    }
}

/// The parser state after the first `i` characters of `s`.
pub open spec fn parse_upto(s: Seq<char>, i: int) -> PSt
    decreases i,
{
    if i <= 0 {
        spec_init()
    } else {
        spec_step(parse_upto(s, i - 1), s[i - 1])
    }
}

/// The end of input: pending literal or variable closes; anything else
/// half-open — an escape, a style reference, an unclosed scope — is an error.
pub open spec fn spec_finalize(st: PSt) -> Result<Seq<SpecPiece>, ()> {
    if st.err || st.opens.len() != 0 {
        Err(())
    } else {
        match st.mode {
            SpecMode::Lit => Ok(spec_flush(st.pieces, st.lit)),
            SpecMode::Var(name) => if name.len() == 0 {
                Err(())
            } else {
                Ok(
                    spec_flush(st.pieces, st.lit).push(
                        SpecPiece { var: true, text: name, style: None },
                    ),
                )
            },
            _ => Err(()),
        }
    }
}

/// What parsing a whole template string yields.
pub open spec fn spec_parse(s: Seq<char>) -> Result<Seq<SpecPiece>, ()> {
    spec_finalize(parse_upto(s, s.len() as int))
}

proof fn lemma_pieces_view_push(v: Seq<Piece>, x: Piece)
    ensures
        pieces_view(v.push(x)) =~= pieces_view(v).push(x@),
{
}

fn flush(pieces: &mut Vec<Piece>, lit: String)
    ensures
        pieces_view(final(pieces)@) == spec_flush(pieces_view(old(pieces)@), lit@),
{
    if lit.as_str().unicode_len() > 0 {
        let ghost pre = pieces@;
        let piece = Piece { var: false, text: lit, style: None };
        let ghost pg = piece;
        pieces.push(piece);
        proof {
            lemma_pieces_view_push(pre, pg);
            assert(pieces_view(pieces@) =~= spec_flush(pieces_view(pre), pg.text@));
        }
    }
}

fn piece_clone(p: &Piece) -> (r: Piece)
    ensures
        r@ == p@,
{
    Piece {
        var: p.var,
        text: p.text.clone(),
        style: match &p.style {
            Some(s) => Some(s.clone()),
            None => None,
        },
    }
}

fn patch(pieces: &mut Vec<Piece>, from: usize, style: &String)
    ensures
        pieces_view(final(pieces)@) == spec_patch(pieces_view(old(pieces)@), from as int, style@),
{
    let ghost target = spec_patch(pieces_view(old(pieces)@), from as int, style@);
    let mut out: Vec<Piece> = Vec::new();
    let mut i: usize = 0;
    while i < pieces.len()
        invariant
            i <= pieces@.len(),
            pieces@ == old(pieces)@,
            target == spec_patch(pieces_view(pieces@), from as int, style@),
            out@.len() == i,
            forall|j: int| 0 <= j < i ==> pieces_view(out@)[j] == target[j],
        decreases pieces@.len() - i,
    {
        let p = piece_clone(&pieces[i]);
        if i >= from && p.style.is_none() {
            out.push(Piece { var: p.var, text: p.text, style: Some(style.clone()) });
        } else {
            out.push(p);
        }
        i += 1;
    }
    proof {
        assert(pieces_view(out@) =~= target);
    }
    *pieces = out;
}

fn step_lit(p: Parser, c: char) -> (r: Parser)
    ensures
        r@ == spec_step_lit(p@, c),
{
    let Parser { err, mut pieces, mut opens, lit, mode } = p;
    if c == '\\' {
        Parser { err, pieces, opens, lit, mode: Mode::Esc }
    } else if c == '$' {
        flush(&mut pieces, lit);
        Parser { err, pieces, opens, lit: String::new(), mode: Mode::Var(String::new()) }
    } else if c == '[' {
        flush(&mut pieces, lit);
        let at = pieces.len();
        opens.push(at);
        let r = Parser { err, pieces, opens, lit: String::new(), mode: Mode::Lit };
        proof {
            assert(r@.opens =~= spec_step_lit(p@, c).opens);
            assert(r@ =~= spec_step_lit(p@, c));
        }
        r
    } else if c == ']' {
        flush(&mut pieces, lit);
        Parser { err, pieces, opens, lit: String::new(), mode: Mode::ClosePar }
    } else if c == '(' || c == ')' {
        Parser { err: true, pieces, opens, lit, mode }
    } else {
        let mut lit = lit;
        push_char(&mut lit, c);
        Parser { err, pieces, opens, lit, mode: Mode::Lit }
    }
}

fn step(p: Parser, c: char) -> (r: Parser)
    ensures
        r@ == spec_step(p@, c),
{
    if p.err {
        return p;
    }
    let Parser { err, mut pieces, mut opens, lit, mode } = p;
    match mode {
        Mode::Lit => step_lit(Parser { err, pieces, opens, lit, mode: Mode::Lit }, c),
        Mode::Esc => {
            if c == '$' || c == '[' || c == ']' || c == '(' || c == ')' || c == '\\' {
                let mut lit = lit;
                push_char(&mut lit, c);
                Parser { err, pieces, opens, lit, mode: Mode::Lit }
            } else {
                Parser { err: true, pieces, opens, lit, mode: Mode::Esc }
            }
        },
        Mode::Var(name) => {
            if is_name_char(c) {
                let mut name = name;
                push_char(&mut name, c);
                Parser { err, pieces, opens, lit, mode: Mode::Var(name) }
            } else if name.as_str().unicode_len() == 0 {
                Parser { err: true, pieces, opens, lit, mode: Mode::Var(name) }
            } else if c == '(' {
                Parser { err, pieces, opens, lit, mode: Mode::StyleDollar(Some(name)) }
            } else {
                let ghost pre = pieces@;
                let piece = Piece { var: true, text: name, style: None };
                let ghost pg = piece;
                pieces.push(piece);
                proof {
                    lemma_pieces_view_push(pre, pg);
                }
                step_lit(Parser { err, pieces, opens, lit, mode: Mode::Lit }, c)
            }
        },
        Mode::StyleDollar(owner) => {
            if c == '$' {
                Parser { err, pieces, opens, lit, mode: Mode::StyleName(owner, String::new()) }
            } else {
                Parser { err: true, pieces, opens, lit, mode: Mode::StyleDollar(owner) }
            }
        },
        Mode::StyleName(owner, sname) => {
            if is_name_char(c) {
                let mut sname = sname;
                push_char(&mut sname, c);
                Parser { err, pieces, opens, lit, mode: Mode::StyleName(owner, sname) }
            } else if c != ')' || sname.as_str().unicode_len() == 0 {
                Parser { err: true, pieces, opens, lit, mode: Mode::StyleName(owner, sname) }
            } else {
                match owner {
                    Some(vname) => {
                        let ghost pre = pieces@;
                        let piece = Piece { var: true, text: vname, style: Some(sname) };
                        let ghost pg = piece;
                        pieces.push(piece);
                        proof {
                            lemma_pieces_view_push(pre, pg);
                        }
                        let r = Parser { err, pieces, opens, lit, mode: Mode::Lit };
                        proof {
                            assert(r@ =~= spec_step(p@, c));
                        }
                        r
                    },
                    None => {
                        if opens.len() == 0 {
                            Parser { err: true, pieces, opens, lit, mode: Mode::StyleName(None, sname) }
                        } else {
                            let from = opens.pop().unwrap();
                            patch(&mut pieces, from, &sname);
                            let r = Parser { err, pieces, opens, lit, mode: Mode::Lit };
                            proof {
                                assert(r@.opens =~= spec_step(p@, c).opens);
                                assert(r@ =~= spec_step(p@, c));
                            }
                            r
                        }
                    },
                }
            }
        },
        Mode::ClosePar => {
            if c == '(' {
                Parser { err, pieces, opens, lit, mode: Mode::StyleDollar(None) }
            } else {
                Parser { err: true, pieces, opens, lit, mode: Mode::ClosePar }
            }
        },
    }
}

/// Parses a template string into its pieces, or rejects malformed input.
pub fn parse_template(s: &str) -> (r: Result<Vec<Piece>, FormatError>)
    ensures
        match r {
            Ok(ps) => spec_parse(s@) == Ok::<Seq<SpecPiece>, ()>(pieces_view(ps@)),
            Err(e) => spec_parse(s@) is Err && e == FormatError::Parse,
        },
{
    let n = s.unicode_len();
    let mut p = Parser {
        err: false,
        pieces: Vec::new(),
        opens: Vec::new(),
        lit: String::new(),
        mode: Mode::Lit,
    };
    proof {
        assert(p@ =~= spec_init());
    }
    let mut i: usize = 0;
    while i < n
        invariant
            n == s@.len(),
            i <= n,
            p@ == parse_upto(s@, i as int),
        decreases n - i,
    {
        let c = s.get_char(i);
        p = step(p, c);
        i += 1;
    }
    let Parser { err, mut pieces, opens, lit, mode } = p;
    if err || opens.len() != 0 {
        return Err(FormatError::Parse);
    }
    match mode {
        Mode::Lit => {
            flush(&mut pieces, lit);
            Ok(pieces)
        },
        Mode::Var(name) => {
            if name.as_str().unicode_len() == 0 {
                Err(FormatError::Parse)
            } else {
                flush(&mut pieces, lit);
                let ghost pre = pieces@;
                let piece = Piece { var: true, text: name, style: None };
                let ghost pg = piece;
                pieces.push(piece);
                proof {
                    lemma_pieces_view_push(pre, pg);
                }
                Ok(pieces)
            }
        },
        _ => Err(FormatError::Parse),
    }
}

/// A variable name occurs among the parsed pieces in value position.
pub open spec fn spec_references(ps: Seq<SpecPiece>, name: Seq<char>) -> bool {
    exists|i: int| 0 <= i < ps.len() && (#[trigger] ps[i]).var && ps[i].text == name
}

/// The explicit is-this-variable-referenced check that gates every
/// probe-capable provider: a variable never present in the parsed template
/// must never trigger its side effect.
pub fn references(pieces: &Vec<Piece>, name: &str) -> (r: bool)
    ensures
        r == spec_references(pieces_view(pieces@), name@),
{
    let mut i: usize = 0;
    while i < pieces.len()
        invariant
            i <= pieces@.len(),
            forall|j: int| 0 <= j < i
                ==> !((#[trigger] pieces_view(pieces@)[j]).var && pieces_view(pieces@)[j].text
                == name@),
        decreases pieces@.len() - i,
    {
        let pc = &pieces[i];
        if pc.var && str_eq(pc.text.as_str(), name) {
            proof {
                assert(pieces_view(pieces@)[i as int] == pieces@[i as int]@);
            }
            return true;
        }
        i += 1;
    }
    false
}

} // verus!
