use vstd::prelude::*;
use crate::expand::{
    SeqError, SeqHeader, expand, expand_tokens, find_repetition, is_panic_error, is_punct,
    panic_error, repeat_body, repeat_tokens, result_view, scan,
};
use crate::syn_calls::{
    IntLiteral, accepts_ident, int_literal, starts_numeric, syn_accepts_ident, syn_int_literal,
};
use crate::tokens::{
    Delimiter, Spacing, Token, TokenV, copy_token, copy_tokens, lemma_tokens_view_index, token_view,
    tokens_view,
};

verus! {

/// The value of a parsed `seq!` header.
pub struct HeaderV {
    pub counter: Seq<char>,
    pub start: u64,
    pub end: u64,
    pub body: Seq<TokenV>,
}

pub open spec fn header_view(h: SeqHeader) -> HeaderV {
    HeaderV { counter: h.counter@, start: h.start, end: h.end, body: tokens_view(h.body@) }
}

pub open spec fn header_result_view(r: Result<SeqHeader, SeqError>) -> Result<HeaderV, SeqError> {
    match r {
        Ok(h) => Ok(header_view(h)),
        Err(e) => Err(e),
    }
}

/// One entry of the input as the `syn` parser walks it: a token, or the start
/// of a group of invisible delimiters (its contents, and the number of entries
/// that they take up), whose entries follow it.
pub enum FlatV {
    Tok(TokenV),
    Enter(Seq<TokenV>, nat),
}

/// The entries of `s`, groups of invisible delimiters opened in place.
pub open spec fn entries(s: Seq<TokenV>) -> Seq<FlatV>
    decreases s,
{
    if s.len() == 0 {
        Seq::empty()
    } else {
        match s.last() {
            TokenV::Group(Delimiter::Invisible, inner) => entries(s.drop_last()) + (seq![
                FlatV::Enter(inner, entries(inner).len()),
            ] + entries(inner)),
            t => entries(s.drop_last()).push(FlatV::Tok(t)),
        }
    }
}

/// The position of the first token at or after `p`, stepping into groups of
/// invisible delimiters; `f.len()` where there is none.
pub open spec fn visible(f: Seq<FlatV>, p: int) -> int
    decreases f.len() - p,
{
    if 0 <= p < f.len() && f[p] is Enter {
        visible(f, p + 1)
    } else {
        p
    }
}

/// The token at the first visible position at or after `p`.
pub open spec fn tok_at(f: Seq<FlatV>, p: int) -> Option<TokenV> {
    let q = visible(f, p);
    if 0 <= q < f.len() {
        match f[q] {
            FlatV::Tok(t) => Some(t),
            _ => None,
        }
    } else {
        None
    }
}

pub open spec fn is_joint_punct(t: TokenV, c: char) -> bool {
    t matches TokenV::Punct(p, Spacing::Joint, _) && p == c
}

/// The source text of the integer literal that starts at `p`, a leading `-`
/// included, and the position after it.
pub open spec fn int_text_at(f: Seq<FlatV>, p: int) -> Option<(Seq<char>, int)> {
    let q = visible(f, p);
    match tok_at(f, p) {
        Some(TokenV::Literal(t, _)) => Some((t, q + 1)),
        Some(TokenV::Punct(c, _, _)) => if c == '-' {
            match tok_at(f, q + 1) {
                Some(TokenV::Literal(t, _)) => Some((seq!['-'] + t, visible(f, q + 1) + 1)),
                _ => None,
            }
        } else {
            None
        },
        _ => None,
    }
}

/// The range operator at `p`: whether it is `..=` (rather than `..`), and the
/// position after it. All of its characters but the last must be joined to
/// the next.
pub open spec fn range_at(f: Seq<FlatV>, p: int) -> Option<(bool, int)> {
    let q = visible(f, p);
    let q2 = visible(f, q + 1);
    let q3 = visible(f, q2 + 1);
    match (tok_at(f, p), tok_at(f, q + 1)) {
        (Some(a), Some(b)) => if is_joint_punct(a, '.') && is_punct(b, '.') {
            if is_joint_punct(b, '.') && (tok_at(f, q2 + 1) matches Some(e) && is_punct(e, '=')) {
                Some((true, q3 + 1))
            } else {
                Some((false, q2 + 1))
            }
        } else {
            None
        },
        _ => None,
    }
}

/// The body at `p`, the next token tree there: the contents of a brace group,
/// or, where a group of invisible delimiters starts at `p` and a brace group is
/// the first token inside it, the contents of that invisible group; and the
/// position after it.
pub open spec fn body_at(f: Seq<FlatV>, p: int) -> Option<(Seq<TokenV>, int)> {
    match tok_at(f, p) {
        Some(TokenV::Group(Delimiter::Brace, inner)) => if 0 <= p < f.len() {
            match f[p] {
                FlatV::Enter(g, n) => Some((g, p + 1 + n)),
                _ => Some((inner, p + 1)),
            }
        } else {
            None
        },
        _ => None,
    }
}

/// The text of the counter, where the input starts with an identifier.
pub open spec fn counter_text(f: Seq<FlatV>) -> Option<Seq<char>> {
    match tok_at(f, 0) {
        Some(TokenV::Ident(t, _)) => Some(t),
        _ => None,
    }
}

/// The position after `in`.
pub open spec fn after_in(f: Seq<FlatV>) -> int {
    visible(f, visible(f, 0) + 1) + 1
}

/// The text of the start literal.
pub open spec fn start_text(f: Seq<FlatV>) -> Option<Seq<char>> {
    match int_text_at(f, after_in(f)) {
        Some((t, _)) => Some(t),
        None => None,
    }
}

/// The text of the end literal.
pub open spec fn end_text(f: Seq<FlatV>) -> Option<Seq<char>> {
    match int_text_at(f, after_in(f)) {
        Some((_, k)) => match range_at(f, k) {
            Some((_, k2)) => match int_text_at(f, k2) {
                Some((t, _)) => Some(t),
                None => None,
            },
            None => None,
        },
        None => None,
    }
}

/// The header of `seq!` read from the entries `f`, given what `syn` says of
/// the counter (`counter_ok`) and of the start and end literals.
pub open spec fn header_spec(
    f: Seq<FlatV>,
    counter_ok: bool,
    start_lit: IntLiteral,
    end_lit: IntLiteral,
) -> Result<HeaderV, SeqError> {
    if !(counter_text(f) is Some && counter_ok) {
        Err(SeqError::ExpectedCounter)
    } else if !(tok_at(f, visible(f, 0) + 1) matches Some(TokenV::Ident(t, _)) && t == seq!['i', 'n']) {
        Err(SeqError::ExpectedIn)
    } else {
        match int_text_at(f, after_in(f)) {
            None => Err(SeqError::ExpectedStart),
            Some((_, k)) => if start_lit is Unrecognized {
                Err(SeqError::UnrecognizedLiteral)
            } else if start_lit is NotInt {
                Err(SeqError::ExpectedStart)
            } else {
                match range_at(f, k) {
                    None => Err(SeqError::ExpectedRange),
                    Some((inclusive, k2)) => match int_text_at(f, k2) {
                        None => Err(SeqError::ExpectedEnd),
                        Some((_, k3)) => if end_lit is Unrecognized {
                            Err(SeqError::UnrecognizedLiteral)
                        } else if end_lit is NotInt {
                            Err(SeqError::ExpectedEnd)
                        } else if inclusive && !(end_lit matches IntLiteral::Value(v) && v
                            < u64::MAX) {
                            Err(SeqError::InclusiveEndOutOfRange)
                        } else {
                            match body_at(f, k3) {
                                None => Err(SeqError::ExpectedBody),
                                Some((body, k4)) => if visible(f, k4) < f.len() {
                                    Err(SeqError::UnexpectedToken)
                                } else {
                                    match (start_lit, end_lit, counter_text(f)) {
                                        (IntLiteral::Value(a), IntLiteral::Value(b), Some(c)) => Ok(
                                            HeaderV {
                                                counter: c,
                                                start: a,
                                                end: if inclusive {
                                                    (b + 1) as u64
                                                } else {
                                                    b
                                                },
                                                body,
                                            },
                                        ),
                                        (IntLiteral::Value(_), _, _) => Err(
                                            SeqError::EndOutOfRange,
                                        ),
                                        _ => Err(SeqError::StartOutOfRange),
                                    }
                                },
                            }
                        },
                    },
                }
            },
        }
    }
}

/// What `syn` says of the pieces of a `seq!` header.
#[derive(Clone, Copy, Debug, PartialEq, Eq, Structural)]
pub struct HeaderFacts {
    pub counter_accepted: bool,
    pub start: IntLiteral,
    pub end: IntLiteral,
}

/// A literal's text starts as one of the kinds that `syn` knows: a string, a
/// raw string, a byte, a byte string, a character or a number.
pub open spec fn recognized_literal(text: Seq<char>) -> bool {
    text.len() > 0 && {
        let c = text[0];
        ||| c == '"' || c == 'r' || c == '\'' || c == '-'
        ||| '0' <= c && c <= '9'
        ||| c == 'b' && text.len() > 1 && (text[1] == '"' || text[1] == 'r' || text[1] == '\'')
    }
}

/// How `syn` reads the text of a literal (a leading `-` included) as an
/// integer literal: literals that start with a quote, `r` or `b` are strings,
/// characters or bytes, never integers.
pub open spec fn literal_class(text: Seq<char>) -> IntLiteral {
    if !recognized_literal(text) {
        IntLiteral::Unrecognized
    } else if starts_numeric(text) {
        syn_int_literal(text)
    } else {
        IntLiteral::NotInt
    }
}

/// The facts that `syn` gives for the pieces of `f`.
pub open spec fn facts_of(f: Seq<FlatV>) -> HeaderFacts {
    HeaderFacts {
        counter_accepted: match counter_text(f) {
            Some(t) => syn_accepts_ident(t),
            None => false,
        },
        start: match start_text(f) {
            Some(t) => literal_class(t),
            None => IntLiteral::NotInt,
        },
        end: match end_text(f) {
            Some(t) => literal_class(t),
            None => IntLiteral::NotInt,
        },
    }
}

/// The header that `seq!` reads from `s`.
pub open spec fn parse_header_spec(s: Seq<TokenV>) -> Result<HeaderV, SeqError> {
    let f = entries(s);
    header_spec(f, facts_of(f).counter_accepted, facts_of(f).start, facts_of(f).end)
}

/// One entry of the input as the `syn` parser walks it; see `FlatV`.
#[derive(Debug)]
pub enum FlatToken {
    Tok(Token),
    Enter(Vec<Token>, usize),
}

pub open spec fn flat_view(e: FlatToken) -> FlatV {
    match e {
        FlatToken::Tok(t) => FlatV::Tok(token_view(t)),
        FlatToken::Enter(g, n) => FlatV::Enter(tokens_view(g@), n as nat),
    }
}

pub open spec fn flats_view(f: Seq<FlatToken>) -> Seq<FlatV> {
    Seq::new(f.len(), |i: int| flat_view(f[i]))
}

proof fn lemma_flats_push(f: Seq<FlatToken>, e: FlatToken)
    ensures
        flats_view(f.push(e)) == flats_view(f).push(flat_view(e)),
{
    assert(flats_view(f.push(e)) =~= flats_view(f).push(flat_view(e)));
}

proof fn lemma_flats_concat(a: Seq<FlatToken>, b: Seq<FlatToken>)
    ensures
        flats_view(a + b) == flats_view(a) + flats_view(b),
{
    assert(flats_view(a + b) =~= flats_view(a) + flats_view(b));
}

/// The entries of `tokens`, groups of invisible delimiters opened in place.
pub fn entries_of(tokens: &Vec<Token>) -> (r: Vec<FlatToken>)
    ensures
        flats_view(r@) == entries(tokens_view(tokens@)),
    decreases tokens@,
{
    proof {
        lemma_tokens_view_index(tokens@);
    }
    let ghost s = tokens_view(tokens@);
    let mut out: Vec<FlatToken> = Vec::new();
    let mut i: usize = 0;
    while i < tokens.len()
        invariant
            s == tokens_view(tokens@),
            s.len() == tokens.len(),
            forall|k: int| 0 <= k < tokens.len() ==> #[trigger] s[k] == token_view(tokens@[k]),
            i <= tokens.len(),
            flats_view(out@) == entries(s.take(i as int)),
        decreases tokens.len() - i,
    {
        assert(s.take(i + 1).drop_last() =~= s.take(i as int));
        assert(s.take(i + 1).last() == s[i as int]);
        assert(s[i as int] == token_view(tokens@[i as int]));
        match &tokens[i] {
            Token::Group(Delimiter::Invisible, inner) => {
                let mut inside = entries_of(inner);
                let e = FlatToken::Enter(copy_tokens(inner), inside.len());
                proof {
                    lemma_flats_push(out@, e);
                    lemma_flats_concat(out@.push(e), inside@);
                    assert(flats_view(out@).push(flat_view(e)) + flats_view(inside@) =~= flats_view(
                        out@,
                    ) + (seq![flat_view(e)] + flats_view(inside@)));
                }
                out.push(e);
                out.append(&mut inside);
            },
            t => {
                let e = FlatToken::Tok(copy_token(t));
                proof {
                    lemma_flats_push(out@, e);
                }
                out.push(e);
            },
        }
        i += 1;
    }
    assert(s.take(tokens.len() as int) =~= s);
    out
}

/// The first visible position is never an invisible group's start.
pub proof fn lemma_visible(f: Seq<FlatV>, p: int)
    requires
        0 <= p,
    ensures
        p <= visible(f, p),
        visible(f, p) <= f.len() || visible(f, p) == p,
        visible(f, p) < f.len() ==> !(f[visible(f, p)] is Enter),
    decreases f.len() - p,
{
    if 0 <= p < f.len() && f[p] is Enter {
        lemma_visible(f, p + 1);
    }
}

fn is_enter(f: &Vec<FlatToken>, q: usize) -> (r: bool)
    requires
        q < f.len(),
    ensures
        r == (flats_view(f@)[q as int] is Enter),
{
    match &f[q] {
        FlatToken::Enter(_, _) => true,
        _ => false,
    }
}

/// The first visible position at or after `p`.
fn visible_exec(f: &Vec<FlatToken>, p: usize) -> (q: usize)
    ensures
        q == visible(flats_view(f@), p as int),
        p <= q,
        q <= f.len() || q == p,
{
    let ghost v = flats_view(f@);
    let mut q = p;
    while q < f.len() && is_enter(f, q)
        invariant
            v == flats_view(f@),
            p <= q,
            q <= f.len() || q == p,
            visible(v, p as int) == visible(v, q as int),
        decreases f.len() - q,
    {
        q += 1;
    }
    q
}

/// The token at the first visible position at or after `p`, and that position.
fn tok_at_exec(f: &Vec<FlatToken>, p: usize) -> (r: Option<(&Token, usize)>)
    ensures
        match r {
            Some((t, q)) => tok_at(flats_view(f@), p as int) == Some(token_view(*t)) && q
                == visible(flats_view(f@), p as int) && q < f.len(),
            None => tok_at(flats_view(f@), p as int) is None && visible(flats_view(f@), p as int)
                >= f.len(),
        },
{
    let q = visible_exec(f, p);
    proof {
        lemma_visible(flats_view(f@), p as int);
    }
    if q < f.len() {
        assert(flats_view(f@)[q as int] == flat_view(f@[q as int]));
        match &f[q] {
            FlatToken::Tok(t) => Some((t, q)),
            FlatToken::Enter(_, _) => None,
        }
    } else {
        None
    }
}

/// The integer literal text at `p`, as `int_text_at` reads it.
fn int_text_at_exec(f: &Vec<FlatToken>, p: usize) -> (r: Option<(String, usize)>)
    ensures
        match int_text_at(flats_view(f@), p as int) {
            Some((t, n)) => r matches Some((rt, rn)) && rt@ == t && rn == n,
            None => r is None,
        },
{
    match tok_at_exec(f, p) {
        Some((Token::Literal(t, _), q)) => Some((t.clone(), q + 1)),
        Some((Token::Punct(c, _, _), q)) => {
            if *c != '-' {
                return None;
            }
            match tok_at_exec(f, q + 1) {
                Some((Token::Literal(t, _), q2)) => {
                    let mut text = String::new();
                    proof {
                        reveal_strlit("-");
                    }
                    text.append("-");
                    text.append(t.as_str());
                    assert(text@ =~= seq!['-'] + t@);
                    Some((text, q2 + 1))
                },
                _ => None,
            }
        },
        _ => None,
    }
}

fn is_punct_tok(t: &Token, c: char) -> (r: bool)
    ensures
        r == is_punct(token_view(*t), c),
{
    match t {
        Token::Punct(p, _, _) => *p == c,
        _ => false,
    }
}

fn is_joint_punct_tok(t: &Token, c: char) -> (r: bool)
    ensures
        r == is_joint_punct(token_view(*t), c),
{
    match t {
        Token::Punct(p, sp, _) => *p == c && *sp == Spacing::Joint,
        _ => false,
    }
}

/// The range operator at `p`, as `range_at` reads it.
fn range_at_exec(f: &Vec<FlatToken>, p: usize) -> (r: Option<(bool, usize)>)
    ensures
        match range_at(flats_view(f@), p as int) {
            Some((b, n)) => r matches Some((rb, rn)) && rb == b && rn == n,
            None => r is None,
        },
{
    let (a, q) = match tok_at_exec(f, p) {
        Some(x) => x,
        None => {
            return None;
        },
    };
    let (b, q2) = match tok_at_exec(f, q + 1) {
        Some(x) => x,
        None => {
            return None;
        },
    };
    if !(is_joint_punct_tok(a, '.') && is_punct_tok(b, '.')) {
        return None;
    }
    if is_joint_punct_tok(b, '.') {
        if let Some((e, q3)) = tok_at_exec(f, q2 + 1) {
            if is_punct_tok(e, '=') {
                return Some((true, q3 + 1));
            }
        }
    }
    Some((false, q2 + 1))
}

/// The body at `p`, as `body_at` reads it.
fn body_at_exec(f: &Vec<FlatToken>, p: usize) -> (r: Option<(Vec<Token>, usize)>)
    ensures
        match body_at(flats_view(f@), p as int) {
            Some((b, n)) => r matches Some((rb, rn)) && tokens_view(rb@) == b && (rn == n || (n
                > usize::MAX && rn == usize::MAX)),
            None => r is None,
        },
{
    match tok_at_exec(f, p) {
        Some((Token::Group(Delimiter::Brace, inner), _)) => {
            assert(p < f.len());
            assert(flats_view(f@)[p as int] == flat_view(f@[p as int]));
            match &f[p] {
                FlatToken::Enter(g, n) => {
                    if *n >= usize::MAX - p {
                        // No position lies that far: nothing is left after the body.
                        return Some((copy_tokens(g), usize::MAX));
                    }
                    Some((copy_tokens(g), p + 1 + *n))
                },
                FlatToken::Tok(_) => Some((copy_tokens(inner), p + 1)),
            }
        },
        _ => None,
    }
}

/// The header of `seq!` read from the entries `f`, given what `syn` says of
/// the counter and of the two literals, every error included.
pub(crate) fn read_from_facts(f: &Vec<FlatToken>, facts: &HeaderFacts) -> (r: Result<SeqHeader, SeqError>)
    ensures
        header_result_view(r) == header_spec(
            flats_view(f@),
            facts.counter_accepted,
            facts.start,
            facts.end,
        ),
{
    let ghost v = flats_view(f@);
    let (counter, q0) = match tok_at_exec(f, 0) {
        Some((Token::Ident(t, _), q0)) => (t.clone(), q0),
        _ => {
            return Err(SeqError::ExpectedCounter);
        },
    };
    if !facts.counter_accepted {
        return Err(SeqError::ExpectedCounter);
    }
    let keyword_in = String::from_str("in");
    proof {
        reveal_strlit("in");
        assert(keyword_in@ =~= seq!['i', 'n']);
    }
    let q1 = match tok_at_exec(f, q0 + 1) {
        Some((Token::Ident(t, _), q1)) => {
            if *t != keyword_in {
                return Err(SeqError::ExpectedIn);
            }
            q1
        },
        _ => {
            return Err(SeqError::ExpectedIn);
        },
    };
    let k = match int_text_at_exec(f, q1 + 1) {
        Some((_, k)) => k,
        None => {
            return Err(SeqError::ExpectedStart);
        },
    };
    if facts.start == IntLiteral::Unrecognized {
        return Err(SeqError::UnrecognizedLiteral);
    }
    if facts.start == IntLiteral::NotInt {
        return Err(SeqError::ExpectedStart);
    }
    let (inclusive, k2) = match range_at_exec(f, k) {
        Some(x) => x,
        None => {
            return Err(SeqError::ExpectedRange);
        },
    };
    let k3 = match int_text_at_exec(f, k2) {
        Some((_, k3)) => k3,
        None => {
            return Err(SeqError::ExpectedEnd);
        },
    };
    if facts.end == IntLiteral::Unrecognized {
        return Err(SeqError::UnrecognizedLiteral);
    }
    if facts.end == IntLiteral::NotInt {
        return Err(SeqError::ExpectedEnd);
    }
    let end_inclusive: u64 = if inclusive {
        match facts.end {
            IntLiteral::Value(b) => {
                if b < u64::MAX {
                    b + 1
                } else {
                    return Err(SeqError::InclusiveEndOutOfRange);
                }
            },
            _ => {
                return Err(SeqError::InclusiveEndOutOfRange);
            },
        }
    } else {
        0
    };
    let (body, k4) = match body_at_exec(f, k3) {
        Some(x) => x,
        None => {
            return Err(SeqError::ExpectedBody);
        },
    };
    if k4 < f.len() {
        let q = visible_exec(f, k4);
        if q < f.len() {
            return Err(SeqError::UnexpectedToken);
        }
    }
    let start = match facts.start {
        IntLiteral::Value(a) => a,
        _ => {
            return Err(SeqError::StartOutOfRange);
        },
    };
    let end = match facts.end {
        IntLiteral::Value(b) => if inclusive {
            end_inclusive
        } else {
            b
        },
        _ => {
            return Err(SeqError::EndOutOfRange);
        },
    };
    Ok(SeqHeader { counter, start, end, body })
}

/// How `syn` reads `text` as an integer literal; see `literal_class`.
pub fn classify_literal(text: &String) -> (r: IntLiteral)
    ensures
        r == literal_class(text@),
{
    let s = text.as_str();
    let n = s.unicode_len();
    if n == 0 {
        return IntLiteral::Unrecognized;
    }
    let c = s.get_char(0);
    if ('0' <= c && c <= '9') || c == '-' {
        int_literal(s)
    } else if c == '"' || c == 'r' || c == '\'' {
        IntLiteral::NotInt
    } else if c == 'b' && n > 1 {
        let d = s.get_char(1);
        if d == '"' || d == 'r' || d == '\'' {
            IntLiteral::NotInt
        } else {
            IntLiteral::Unrecognized
        }
    } else {
        IntLiteral::Unrecognized
    }
}

/// Reads `counter in start..end { body }` (or `..=`), asking `syn` whether the
/// counter is an identifier and what the two literals are worth, every error
/// included.
pub(crate) fn read_header(input: &Vec<Token>) -> (r: Result<SeqHeader, SeqError>)
    ensures
        header_result_view(r) == parse_header_spec(tokens_view(input@)),
{
    let f = entries_of(input);
    let counter_accepted = match tok_at_exec(&f, 0) {
        Some((Token::Ident(t, _), _)) => accepts_ident(t.as_str()),
        _ => false,
    };
    let q0 = visible_exec(&f, 0);
    if q0 >= f.len() {
        let facts = HeaderFacts { counter_accepted, start: IntLiteral::NotInt, end: IntLiteral::NotInt };
        return read_from_facts(&f, &facts);
    }
    let q1 = visible_exec(&f, q0 + 1);
    if q1 >= f.len() {
        let facts = HeaderFacts { counter_accepted, start: IntLiteral::NotInt, end: IntLiteral::NotInt };
        return read_from_facts(&f, &facts);
    }
    let (start, k) = match int_text_at_exec(&f, q1 + 1) {
        Some((t, k)) => (classify_literal(&t), Some(k)),
        None => (IntLiteral::NotInt, None),
    };
    let end = match k {
        Some(k) => match range_at_exec(&f, k) {
            Some((_, k2)) => match int_text_at_exec(&f, k2) {
                Some((t, _)) => classify_literal(&t),
                None => IntLiteral::NotInt,
            },
            None => IntLiteral::NotInt,
        },
        None => IntLiteral::NotInt,
    };
    let facts = HeaderFacts { counter_accepted, start, end };
    read_from_facts(&f, &facts)
}

/// What a parsed header expands to: with a repetition in the body, the body
/// once, its repetitions run over the range and the counter outside them read
/// as 0; without one, the body once for every counter value in the range.
pub open spec fn expansion(h: HeaderV) -> Result<Seq<TokenV>, SeqError> {
    match scan(h.body, 0) {
        Err(e) => Err(e),
        Ok(true) => expand(h.counter, h.start, h.end, true, 0, h.body, 0),
        Ok(false) => repeat_body(h.counter, h.start, h.end, false, h.body, h.start),
    }
}

/// What `seq!` makes of `s`.
pub open spec fn seq_spec(s: Seq<TokenV>) -> Result<Seq<TokenV>, SeqError> {
    match parse_header_spec(s) {
        Err(e) => Err(e),
        Ok(h) => expansion(h),
    }
}

/// `r` is not one of the errors on whose inputs the macro panics.
pub open spec fn no_panic<T>(r: Result<T, SeqError>) -> bool {
    !(r matches Err(e) && panic_error(e))
}

/// The header of `seq!` read from the entries `f`, given what `syn` says of
/// the counter and of the two literals. The macro panics where no
/// brace-delimited body follows the range, where a bound is not a `u64` or
/// not a literal `syn` knows, and where an inclusive end is `u64::MAX`;
/// `requires` leaves those inputs out.
pub fn header_from_facts(f: &Vec<FlatToken>, facts: &HeaderFacts) -> (r: Result<SeqHeader, SeqError>)
    requires
        no_panic(header_spec(flats_view(f@), facts.counter_accepted, facts.start, facts.end)),
    ensures
        header_result_view(r) == header_spec(
            flats_view(f@),
            facts.counter_accepted,
            facts.start,
            facts.end,
        ),
{
    read_from_facts(f, facts)
}

/// Parses `counter in start..end { body }` (or `..=`), asking `syn` whether the
/// counter is an identifier and what the two literals are worth; the inputs on
/// which the macro panics (see `header_from_facts`) are left out.
pub fn parse_header(input: &Vec<Token>) -> (r: Result<SeqHeader, SeqError>)
    requires
        no_panic(parse_header_spec(tokens_view(input@))),
    ensures
        header_result_view(r) == parse_header_spec(tokens_view(input@)),
{
    read_header(input)
}

/// The expansion of a parsed `seq!` header, every error included.
pub(crate) fn expand_header(ds: &SeqHeader) -> (r: Result<Vec<Token>, SeqError>)
    ensures
        result_view(r) == expansion(header_view(*ds)),
{
    let repeating = find_repetition(&ds.body)?;
    if repeating {
        expand_tokens(&ds.counter, 0, &ds.body, true, ds)
    } else {
        repeat_tokens(&ds.counter, &ds.body, false, ds, ds.start)
    }
}

/// `seq!`: `N in start..end { body }` expands to the body once for every
/// value of `N` in the range, with `N` replaced by that value; where the body
/// holds `#( ... )*`, only that part is repeated. The inputs on which the macro
/// panics (see `panic_error`) are left out by `requires`; `check_seq` tests
/// for them.
pub fn seq(input: &Vec<Token>) -> (r: Result<Vec<Token>, SeqError>)
    requires
        no_panic(seq_spec(tokens_view(input@))),
    ensures
        result_view(r) == seq_spec(tokens_view(input@)),
{
    let ds = parse_header(input)?;
    expand_header(&ds)
}

/// The same expansion as `seq`, under the name by which it is used in
/// expression position.
pub fn eseq(input: &Vec<Token>) -> (r: Result<Vec<Token>, SeqError>)
    requires
        no_panic(seq_spec(tokens_view(input@))),
    ensures
        result_view(r) == seq_spec(tokens_view(input@)),
{
    seq(input)
}

/// `seq!` on any input: tests whether the macro would panic on it, and calls
/// `seq` only where it would not; otherwise the error that names the panic.
pub fn check_seq(input: &Vec<Token>) -> (r: Result<Vec<Token>, SeqError>)
    ensures
        result_view(r) == seq_spec(tokens_view(input@)),
{
    let read = match read_header(input) {
        Ok(ds) => expand_header(&ds),
        Err(e) => Err(e),
    };
    if let Err(e) = read {
        if is_panic_error(e) {
            return Err(e);
        }
    }
    seq(input)
}

/// `eseq!` on any input, as `check_seq`: calls `eseq` only where the macro
/// would not panic.
pub fn check_eseq(input: &Vec<Token>) -> (r: Result<Vec<Token>, SeqError>)
    ensures
        result_view(r) == seq_spec(tokens_view(input@)),
{
    let read = match read_header(input) {
        Ok(ds) => expand_header(&ds),
        Err(e) => Err(e),
    };
    if let Err(e) = read {
        if is_panic_error(e) {
            return Err(e);
        }
    }
    eseq(input)
}

} // verus!
