//! The tokenizer: turns raw zone-file bytes into logical lines of
//! tokens. A logical line is a source line together with any
//! continuation lines grouped by parentheses; comments are discarded,
//! quoted strings are decoded (including `\"`, `\\` and `\DDD` decimal
//! escapes).

use vstd::prelude::*;

verus! {

use crate::ascii::{BACKSLASH, CR, D0, D9, DQUOTE, HT, LPAREN, NL, RPAREN, SEMI, SP};
use crate::diag::{ParseError, ParseErrorKind};
use crate::num::is_digit;

/// One token: a bare word, or a decoded quoted string.
pub enum Token {
    Word(Vec<u8>),
    Quoted(Vec<u8>),
}

/// Mathematical view of [`Token`].
pub enum TokenView {
    Word(Seq<u8>),
    Quoted(Seq<u8>),
}

impl DeepView for Token {
    type V = TokenView;

    open spec fn deep_view(&self) -> TokenView {
        match self {
            Token::Word(v) => TokenView::Word(v@),
            Token::Quoted(v) => TokenView::Quoted(v@),
        }
    }
}

/// One logical line: the source line and byte offset where its first
/// token starts, whether that token was preceded by whitespace at the
/// start of its source line (a blank owner field), and the tokens.
pub struct TokenLine {
    pub line: usize,
    pub offset: usize,
    pub blank: bool,
    pub toks: Vec<Token>,
}

/// Mathematical view of [`TokenLine`].
pub struct LineView {
    pub line: usize,
    pub offset: usize,
    pub blank: bool,
    pub toks: Seq<TokenView>,
}

impl DeepView for TokenLine {
    type V = LineView;

    open spec fn deep_view(&self) -> LineView {
        LineView { line: self.line, offset: self.offset, blank: self.blank, toks: self.toks.deep_view() }
    }
}

/// The lexer's position state.
pub struct LexSt {
    pub i: usize,
    pub ln: usize,
    pub depth: usize,
    pub indented: bool,
    pub cur: Option<LineView>,
    pub out: Seq<LineView>,
}

/// What the lexer is in the middle of reading.
pub enum LexMode {
    Normal,
    Comment,
    Word { start: usize, acc: Seq<u8> },
    Quoted { start: usize, sln: usize, acc: Seq<u8> },
    QEsc { start: usize, sln: usize, acc: Seq<u8> },
    QDig { start: usize, sln: usize, acc: Seq<u8>, val: u16, nd: u8 },
}

pub open spec fn mode_rank(m: LexMode) -> int {
    match m {
        LexMode::Normal => 0,
        _ => 1,
    }
}

/// A line count that sticks at `usize::MAX` instead of wrapping.
pub open spec fn bump(n: usize) -> usize {
    if n == usize::MAX {
        n
    } else {
        (n + 1) as usize
    }
}

/// Bytes that end a bare word.
pub open spec fn is_delim(b: u8) -> bool {
    b == SP || b == HT || b == CR || b == NL || b == SEMI || b == LPAREN || b == RPAREN || b
        == DQUOTE
}

/// Appends a token to the logical line under construction, opening one
/// if none is open; a fresh line remembers where its first token began
/// and whether the source line was indented.
pub open spec fn attach_tok(st: LexSt, tln: usize, toff: usize, t: TokenView) -> LexSt {
    match st.cur {
        Some(lv) => LexSt {
            i: st.i,
            ln: st.ln,
            depth: st.depth,
            indented: st.indented,
            cur: Some(LineView { line: lv.line, offset: lv.offset, blank: lv.blank, toks: lv.toks.push(t) }),
            out: st.out,
        },
        None => LexSt {
            i: st.i,
            ln: st.ln,
            depth: st.depth,
            indented: st.indented,
            cur: Some(LineView { line: tln, offset: toff, blank: st.indented, toks: seq![t] }),
            out: st.out,
        },
    }
}

/// Moves a finished logical line, if one is open, into the output.
pub open spec fn flush_line(st: LexSt) -> LexSt {
    match st.cur {
        Some(lv) => LexSt {
            i: st.i,
            ln: st.ln,
            depth: st.depth,
            indented: st.indented,
            cur: None,
            out: st.out.push(lv),
        },
        None => st,
    }
}

/// End of input: open parentheses are an error, otherwise any open line
/// is flushed and the lines are done.
pub open spec fn lex_finish(st: LexSt) -> Result<Seq<LineView>, ParseError> {
    if st.depth > 0 {
        Err(ParseError { kind: ParseErrorKind::UnbalancedParen, line: st.ln, offset: st.i })
    } else {
        Ok(flush_line(st).out)
    }
}

/// The lexer, one byte at a time.
pub open spec fn lex_run(s: Seq<u8>, st: LexSt, m: LexMode) -> Result<Seq<LineView>, ParseError>
    decreases s.len() - st.i, mode_rank(m),
        when st.i <= s.len() && s.len() <= usize::MAX
{
    if st.i >= s.len() {
        match m {
            LexMode::Normal => lex_finish(st),
            LexMode::Comment => lex_finish(st),
            LexMode::Word { start, acc } => lex_finish(
                attach_tok(st, st.ln, start, TokenView::Word(acc)),
            ),
            LexMode::Quoted { start, sln, acc } => Err(
                ParseError { kind: ParseErrorKind::UnterminatedString, line: sln, offset: start },
            ),
            LexMode::QEsc { start, sln, acc } => Err(
                ParseError { kind: ParseErrorKind::UnterminatedString, line: sln, offset: start },
            ),
            LexMode::QDig { start, sln, acc, val, nd } => Err(
                ParseError { kind: ParseErrorKind::UnterminatedString, line: sln, offset: start },
            ),
        }
    } else {
        let b = s[st.i as int];
        let inext = (st.i + 1) as usize;
        match m {
            LexMode::Normal => {
                if b == SP || b == HT || b == CR {
                    let ind2 = if st.cur is None {
                        true
                    } else {
                        st.indented
                    };
                    lex_run(
                        s,
                        LexSt {
                            i: inext,
                            ln: st.ln,
                            depth: st.depth,
                            indented: ind2,
                            cur: st.cur,
                            out: st.out,
                        },
                        LexMode::Normal,
                    )
                } else if b == NL {
                    if st.depth == 0 {
                        let st2 = flush_line(st);
                        lex_run(
                            s,
                            LexSt {
                                i: inext,
                                ln: bump(st.ln),
                                depth: st2.depth,
                                indented: false,
                                cur: None,
                                out: st2.out,
                            },
                            LexMode::Normal,
                        )
                    } else {
                        lex_run(
                            s,
                            LexSt {
                                i: inext,
                                ln: bump(st.ln),
                                depth: st.depth,
                                indented: st.indented,
                                cur: st.cur,
                                out: st.out,
                            },
                            LexMode::Normal,
                        )
                    }
                } else if b == SEMI {
                    lex_run(
                        s,
                        LexSt {
                            i: inext,
                            ln: st.ln,
                            depth: st.depth,
                            indented: st.indented,
                            cur: st.cur,
                            out: st.out,
                        },
                        LexMode::Comment,
                    )
                } else if b == LPAREN {
                    lex_run(
                        s,
                        LexSt {
                            i: inext,
                            ln: st.ln,
                            depth: (st.depth + 1) as usize,
                            indented: st.indented,
                            cur: st.cur,
                            out: st.out,
                        },
                        LexMode::Normal,
                    )
                } else if b == RPAREN {
                    if st.depth == 0 {
                        Err(
                            ParseError {
                                kind: ParseErrorKind::UnbalancedParen,
                                line: st.ln,
                                offset: st.i,
                            },
                        )
                    } else {
                        lex_run(
                            s,
                            LexSt {
                                i: inext,
                                ln: st.ln,
                                depth: (st.depth - 1) as usize,
                                indented: st.indented,
                                cur: st.cur,
                                out: st.out,
                            },
                            LexMode::Normal,
                        )
                    }
                } else if b == DQUOTE {
                    lex_run(
                        s,
                        LexSt {
                            i: inext,
                            ln: st.ln,
                            depth: st.depth,
                            indented: st.indented,
                            cur: st.cur,
                            out: st.out,
                        },
                        LexMode::Quoted { start: st.i, sln: st.ln, acc: Seq::empty() },
                    )
                } else {
                    lex_run(
                        s,
                        LexSt {
                            i: inext,
                            ln: st.ln,
                            depth: st.depth,
                            indented: st.indented,
                            cur: st.cur,
                            out: st.out,
                        },
                        LexMode::Word { start: st.i, acc: seq![b] },
                    )
                }
            },
            LexMode::Comment => {
                if b == NL {
                    lex_run(s, st, LexMode::Normal)
                } else {
                    lex_run(
                        s,
                        LexSt {
                            i: inext,
                            ln: st.ln,
                            depth: st.depth,
                            indented: st.indented,
                            cur: st.cur,
                            out: st.out,
                        },
                        LexMode::Comment,
                    )
                }
            },
            LexMode::Word { start, acc } => {
                if is_delim(b) {
                    lex_run(s, attach_tok(st, st.ln, start, TokenView::Word(acc)), LexMode::Normal)
                } else {
                    lex_run(
                        s,
                        LexSt {
                            i: inext,
                            ln: st.ln,
                            depth: st.depth,
                            indented: st.indented,
                            cur: st.cur,
                            out: st.out,
                        },
                        LexMode::Word { start, acc: acc.push(b) },
                    )
                }
            },
            LexMode::Quoted { start, sln, acc } => {
                if b == DQUOTE {
                    let st2 = attach_tok(st, sln, start, TokenView::Quoted(acc));
                    lex_run(
                        s,
                        LexSt {
                            i: inext,
                            ln: st2.ln,
                            depth: st2.depth,
                            indented: st2.indented,
                            cur: st2.cur,
                            out: st2.out,
                        },
                        LexMode::Normal,
                    )
                } else if b == BACKSLASH {
                    lex_run(
                        s,
                        LexSt {
                            i: inext,
                            ln: st.ln,
                            depth: st.depth,
                            indented: st.indented,
                            cur: st.cur,
                            out: st.out,
                        },
                        LexMode::QEsc { start, sln, acc },
                    )
                } else {
                    let ln2 = if b == NL {
                        bump(st.ln)
                    } else {
                        st.ln
                    };
                    lex_run(
                        s,
                        LexSt {
                            i: inext,
                            ln: ln2,
                            depth: st.depth,
                            indented: st.indented,
                            cur: st.cur,
                            out: st.out,
                        },
                        LexMode::Quoted { start, sln, acc: acc.push(b) },
                    )
                }
            },
            LexMode::QEsc { start, sln, acc } => {
                if is_digit(b) {
                    lex_run(
                        s,
                        LexSt {
                            i: inext,
                            ln: st.ln,
                            depth: st.depth,
                            indented: st.indented,
                            cur: st.cur,
                            out: st.out,
                        },
                        LexMode::QDig { start, sln, acc, val: (b - D0) as u16, nd: 1 },
                    )
                } else {
                    let ln2 = if b == NL {
                        bump(st.ln)
                    } else {
                        st.ln
                    };
                    lex_run(
                        s,
                        LexSt {
                            i: inext,
                            ln: ln2,
                            depth: st.depth,
                            indented: st.indented,
                            cur: st.cur,
                            out: st.out,
                        },
                        LexMode::Quoted { start, sln, acc: acc.push(b) },
                    )
                }
            },
            LexMode::QDig { start, sln, acc, val, nd } => {
                if !is_digit(b) {
                    Err(ParseError { kind: ParseErrorKind::InvalidEscape, line: st.ln, offset: st.i })
                } else {
                    let v2 = (val * 10 + (b - D0)) as u16;
                    if nd == 2 {
                        if v2 > 255 {
                            Err(
                                ParseError {
                                    kind: ParseErrorKind::InvalidEscape,
                                    line: st.ln,
                                    offset: st.i,
                                },
                            )
                        } else {
                            lex_run(
                                s,
                                LexSt {
                                    i: inext,
                                    ln: st.ln,
                                    depth: st.depth,
                                    indented: st.indented,
                                    cur: st.cur,
                                    out: st.out,
                                },
                                LexMode::Quoted { start, sln, acc: acc.push(v2 as u8) },
                            )
                        }
                    } else {
                        lex_run(
                            s,
                            LexSt {
                                i: inext,
                                ln: st.ln,
                                depth: st.depth,
                                indented: st.indented,
                                cur: st.cur,
                                out: st.out,
                            },
                            LexMode::QDig { start, sln, acc, val: v2, nd: (nd + 1) as u8 },
                        )
                    }
                }
            },
        }
    }
}

/// The lexer's starting state.
pub open spec fn lex_init() -> LexSt {
    LexSt { i: 0, ln: 1, depth: 0, indented: false, cur: None, out: Seq::empty() }
}

/// What tokenizing a byte string yields.
pub open spec fn spec_tokenize(s: Seq<u8>) -> Result<Seq<LineView>, ParseError> {
    lex_run(s, lex_init(), LexMode::Normal)
}

/// The executable lexer's mode tag; the token buffer and counters live
/// beside it.
#[derive(Clone, Copy, PartialEq, Eq, Structural, Debug)]
enum Tag {
    Normal,
    Comment,
    Word,
    Quoted,
    QEsc,
    QDig,
}

spec fn mode_of(tag: Tag, tstart: usize, tsln: usize, tacc: Seq<u8>, val: u16, nd: u8) -> LexMode {
    match tag {
        Tag::Normal => LexMode::Normal,
        Tag::Comment => LexMode::Comment,
        Tag::Word => LexMode::Word { start: tstart, acc: tacc },
        Tag::Quoted => LexMode::Quoted { start: tstart, sln: tsln, acc: tacc },
        Tag::QEsc => LexMode::QEsc { start: tstart, sln: tsln, acc: tacc },
        Tag::QDig => LexMode::QDig { start: tstart, sln: tsln, acc: tacc, val, nd },
    }
}

spec fn st_of(
    i: usize,
    ln: usize,
    depth: usize,
    indented: bool,
    cur: Option<TokenLine>,
    out: Vec<TokenLine>,
) -> LexSt {
    LexSt { i, ln, depth, indented, cur: cur.deep_view(), out: out.deep_view() }
}

/// Tokenizes zone-file text, exactly as [`spec_tokenize`] describes.
pub fn tokenize(input: &Vec<u8>) -> (r: Result<Vec<TokenLine>, ParseError>)
    ensures
        match r {
            Ok(v) => spec_tokenize(input@) == Ok::<Seq<LineView>, ParseError>(v.deep_view()),
            Err(e) => spec_tokenize(input@) == Err::<Seq<LineView>, ParseError>(e),
        },
{
    let mut i: usize = 0;
    let mut ln: usize = 1;
    let mut depth: usize = 0;
    let mut indented: bool = false;
    let mut cur: Option<TokenLine> = None;
    let mut out: Vec<TokenLine> = Vec::new();
    let mut tag: Tag = Tag::Normal;
    let mut tstart: usize = 0;
    let mut tsln: usize = 0;
    let mut tacc: Vec<u8> = Vec::new();
    let mut val: u16 = 0;
    let mut nd: u8 = 0;
    proof {
        assert(out.deep_view() =~= Seq::<LineView>::empty());
        assert(st_of(i, ln, depth, indented, cur, out) == lex_init());
    }
    while i < input.len()
        invariant
            i <= input.len(),
            depth <= i,
            tag == Tag::QDig ==> ((nd == 1 && val <= 9) || (nd == 2 && val <= 99)),
            lex_run(
                input@,
                st_of(i, ln, depth, indented, cur, out),
                mode_of(tag, tstart, tsln, tacc@, val, nd),
            ) == spec_tokenize(input@),
        decreases input.len() - i, mode_rank(mode_of(tag, tstart, tsln, tacc@, val, nd)),
    {
        let ghost pre_st = st_of(i, ln, depth, indented, cur, out);
        let ghost pre_mode = mode_of(tag, tstart, tsln, tacc@, val, nd);
        let b = input[i];
        match tag {
            Tag::Normal => {
                if b == SP || b == HT || b == CR {
                    if cur.is_none() {
                        indented = true;
                    }
                    i = i + 1;
                } else if b == NL {
                    if depth == 0 {
                        let c = cur.take();
                        match c {
                            Some(l) => {
                                let ghost pre_out = out.deep_view();
                                let ghost lv = l.deep_view();
                                out.push(l);
                                proof {
                                    assert(out.deep_view() =~= pre_out.push(lv));
                                }
                            },
                            None => {},
                        }
                        indented = false;
                        ln = if ln == usize::MAX {
                            ln
                        } else {
                            ln + 1
                        };
                        i = i + 1;
                    } else {
                        ln = if ln == usize::MAX {
                            ln
                        } else {
                            ln + 1
                        };
                        i = i + 1;
                    }
                } else if b == SEMI {
                    tag = Tag::Comment;
                    i = i + 1;
                } else if b == LPAREN {
                    depth = depth + 1;
                    i = i + 1;
                } else if b == RPAREN {
                    if depth == 0 {
                        return Err(
                            ParseError { kind: ParseErrorKind::UnbalancedParen, line: ln, offset: i },
                        );
                    }
                    depth = depth - 1;
                    i = i + 1;
                } else if b == DQUOTE {
                    tag = Tag::Quoted;
                    tstart = i;
                    tsln = ln;
                    tacc = Vec::new();
                    proof {
                        assert(tacc@ =~= Seq::<u8>::empty());
                    }
                    i = i + 1;
                } else {
                    tag = Tag::Word;
                    tstart = i;
                    tacc = Vec::new();
                    tacc.push(b);
                    proof {
                        assert(tacc@ =~= seq![b]);
                    }
                    i = i + 1;
                }
            },
            Tag::Comment => {
                if b == NL {
                    tag = Tag::Normal;
                } else {
                    i = i + 1;
                }
            },
            Tag::Word => {
                if b == SP || b == HT || b == CR || b == NL || b == SEMI || b == LPAREN || b
                    == RPAREN || b == DQUOTE {
                    let t = Token::Word(tacc);
                    tacc = Vec::new();
                    let ghost tv = t.deep_view();
                    let c = cur.take();
                    match c {
                        Some(mut l) => {
                            let ghost pre_toks = l.toks.deep_view();
                            l.toks.push(t);
                            proof {
                                assert(l.toks.deep_view() =~= pre_toks.push(tv));
                            }
                            cur = Some(l);
                        },
                        None => {
                            let mut v: Vec<Token> = Vec::new();
                            v.push(t);
                            proof {
                                assert(v.deep_view() =~= seq![tv]);
                            }
                            cur = Some(TokenLine { line: ln, offset: tstart, blank: indented, toks: v });
                        },
                    }
                    tag = Tag::Normal;
                    proof {
                        assert(st_of(i, ln, depth, indented, cur, out) == attach_tok(
                            pre_st,
                            ln,
                            tstart,
                            tv,
                        ));
                    }
                } else {
                    let ghost pre_acc = tacc@;
                    tacc.push(b);
                    proof {
                        assert(tacc@ =~= pre_acc.push(b));
                    }
                    i = i + 1;
                }
            },
            Tag::Quoted => {
                if b == DQUOTE {
                    let t = Token::Quoted(tacc);
                    tacc = Vec::new();
                    let ghost tv = t.deep_view();
                    let c = cur.take();
                    match c {
                        Some(mut l) => {
                            let ghost pre_toks = l.toks.deep_view();
                            l.toks.push(t);
                            proof {
                                assert(l.toks.deep_view() =~= pre_toks.push(tv));
                            }
                            cur = Some(l);
                        },
                        None => {
                            let mut v: Vec<Token> = Vec::new();
                            v.push(t);
                            proof {
                                assert(v.deep_view() =~= seq![tv]);
                            }
                            cur = Some(
                                TokenLine { line: tsln, offset: tstart, blank: indented, toks: v },
                            );
                        },
                    }
                    tag = Tag::Normal;
                    proof {
                        assert(st_of(i, ln, depth, indented, cur, out) == attach_tok(
                            pre_st,
                            tsln,
                            tstart,
                            tv,
                        ));
                    }
                    i = i + 1;
                } else if b == BACKSLASH {
                    tag = Tag::QEsc;
                    i = i + 1;
                } else {
                    if b == NL {
                        ln = if ln == usize::MAX {
                            ln
                        } else {
                            ln + 1
                        };
                    }
                    let ghost pre_acc = tacc@;
                    tacc.push(b);
                    proof {
                        assert(tacc@ =~= pre_acc.push(b));
                    }
                    i = i + 1;
                }
            },
            Tag::QEsc => {
                if b >= D0 && b <= D9 {
                    val = (b - D0) as u16;
                    nd = 1;
                    tag = Tag::QDig;
                    i = i + 1;
                } else {
                    if b == NL {
                        ln = if ln == usize::MAX {
                            ln
                        } else {
                            ln + 1
                        };
                    }
                    let ghost pre_acc = tacc@;
                    tacc.push(b);
                    proof {
                        assert(tacc@ =~= pre_acc.push(b));
                    }
                    tag = Tag::Quoted;
                    i = i + 1;
                }
            },
            Tag::QDig => {
                if b < D0 || b > D9 {
                    return Err(
                        ParseError { kind: ParseErrorKind::InvalidEscape, line: ln, offset: i },
                    );
                }
                let v2: u16 = val * 10 + ((b - D0) as u16);
                if nd == 2 {
                    if v2 > 255 {
                        return Err(
                            ParseError { kind: ParseErrorKind::InvalidEscape, line: ln, offset: i },
                        );
                    }
                    let ghost pre_acc = tacc@;
                    tacc.push(v2 as u8);
                    proof {
                        assert(tacc@ =~= pre_acc.push(v2 as u8));
                    }
                    tag = Tag::Quoted;
                    i = i + 1;
                } else {
                    val = v2;
                    nd = nd + 1;
                    i = i + 1;
                }
            },
        }
    }
    // End of input: finish according to the mode.
    if tag == Tag::Quoted || tag == Tag::QEsc || tag == Tag::QDig {
        return Err(
            ParseError { kind: ParseErrorKind::UnterminatedString, line: tsln, offset: tstart },
        );
    }
    let ghost pre_st = st_of(i, ln, depth, indented, cur, out);
    if tag == Tag::Word {
        let t = Token::Word(tacc);
        tacc = Vec::new();
        let ghost tv = t.deep_view();
        let c = cur.take();
        match c {
            Some(mut l) => {
                let ghost pre_toks = l.toks.deep_view();
                l.toks.push(t);
                proof {
                    assert(l.toks.deep_view() =~= pre_toks.push(tv));
                }
                cur = Some(l);
            },
            None => {
                let mut v: Vec<Token> = Vec::new();
                v.push(t);
                proof {
                    assert(v.deep_view() =~= seq![tv]);
                }
                cur = Some(TokenLine { line: ln, offset: tstart, blank: indented, toks: v });
            },
        }
        proof {
            assert(st_of(i, ln, depth, indented, cur, out) == attach_tok(pre_st, ln, tstart, tv));
        }
    }
    if depth > 0 {
        return Err(ParseError { kind: ParseErrorKind::UnbalancedParen, line: ln, offset: i });
    }
    let ghost flush_pre = st_of(i, ln, depth, indented, cur, out);
    let c = cur.take();
    match c {
        Some(l) => {
            let ghost pre_out = out.deep_view();
            let ghost lv = l.deep_view();
            out.push(l);
            proof {
                assert(out.deep_view() =~= pre_out.push(lv));
            }
        },
        None => {},
    }
    proof {
        assert(out.deep_view() == flush_line(flush_pre).out);
    }
    Ok(out)
}

} // verus!
