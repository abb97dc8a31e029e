use vstd::prelude::*;
use crate::decimal::{decimal, decimal_string};
use crate::lexing::chars_of;
use crate::tokens::{
    Delimiter, SpanRef, Token, TokenV, lemma_tokens_view_concat, lemma_tokens_view_index,
    lemma_tokens_view_push, token_view, tokens_view,
};

verus! {

/// Why a `seq!` invocation is rejected. The first five and `UnexpectedToken`
/// are the errors that the macro reports as compile errors; on the inputs of
/// the others it panics (see `panic_error`): `seq` leaves those inputs out by
/// `requires`, and only `check_seq` returns these errors (`app/` then panics
/// with the macro's messages).
#[derive(Clone, Copy, Debug, PartialEq, Eq, Structural)]
pub enum SeqError {
    /// The input does not start with an identifier for the counter.
    ExpectedCounter,
    /// The counter is not followed by `in`.
    ExpectedIn,
    /// `in` is not followed by an integer literal.
    ExpectedStart,
    /// The start is not followed by `..` or `..=`.
    ExpectedRange,
    /// The range operator is not followed by an integer literal.
    ExpectedEnd,
    /// An inclusive range ends at a value whose successor is not a `u64`.
    InclusiveEndOutOfRange,
    /// The range is not followed by a brace-delimited body.
    ExpectedBody,
    /// Tokens follow the body.
    UnexpectedToken,
    /// The start or the end of the range is a literal of a kind that `syn`
    /// does not know.
    UnrecognizedLiteral,
    /// The start of the range is not a `u64`.
    StartOutOfRange,
    /// The end of the range is not a `u64`.
    EndOutOfRange,
    /// A `#` that must be followed by a token ends its group.
    DanglingPound,
    /// A `#( ... )` repetition is not followed by `*`.
    MissingStar,
}

/// The parts of a `seq!` invocation: `counter in start..end { body }`,
/// with `end` exclusive.
#[derive(Debug)]
pub struct SeqHeader {
    pub counter: String,
    pub start: u64,
    pub end: u64,
    pub body: Vec<Token>,
}

pub open spec fn is_punct(t: TokenV, c: char) -> bool {
    t matches TokenV::Punct(p, _, _) && p == c
}

/// Whether a body holds a repetition `#( ... )*`, read left to right as the
/// expansion reads it; an error where a `#` is not followed as it must be.
pub open spec fn scan(s: Seq<TokenV>, i: int) -> Result<bool, SeqError>
    decreases s, s.len() - i,
{
    if i < 0 || i >= s.len() {
        Ok(false)
    } else {
        match s[i] {
            TokenV::Group(_, inner) => match scan(inner, 0) {
                Ok(true) => Ok(true),
                Ok(false) => scan(s, i + 1),
                Err(e) => Err(e),
            },
            TokenV::Punct(c, _, _) => if c != '#' {
                scan(s, i + 1)
            } else if i + 1 >= s.len() {
                Err(SeqError::DanglingPound)
            } else {
                match s[i + 1] {
                    TokenV::Group(d, inner) => if d != Delimiter::Parenthesis {
                        match scan(inner, 0) {
                            Ok(true) => Ok(true),
                            Ok(false) => scan(s, i + 2),
                            Err(e) => Err(e),
                        }
                    } else if i + 2 >= s.len() {
                        Err(SeqError::MissingStar)
                    } else if is_punct(s[i + 2], '*') {
                        Ok(true)
                    } else {
                        Err(SeqError::MissingStar)
                    },
                    _ => scan(s, i + 2),
                }
            },
            _ => scan(s, i + 1),
        }
    }
}

/// The source text of token `t` is `c`: an identifier, literal or punctuation
/// with that text, or a group of invisible delimiters around one such token
/// (it is written without delimiters).
pub open spec fn displays_as(t: TokenV, c: Seq<char>) -> bool
    decreases t,
{
    match t {
        TokenV::Ident(s, _) => s == c,
        TokenV::Literal(s, _) => s == c,
        TokenV::Punct(p, _, _) => c == seq![p],
        TokenV::Group(d, inner) => d == Delimiter::Invisible && inner.len() == 1 && displays_as(
            inner[0],
            c,
        ),
    }
}

/// Whether the source text of `t` is `c`; see `displays_as`.
pub fn reads_as(t: &Token, c: &String) -> (r: bool)
    ensures
        r == displays_as(token_view(*t), c@),
    decreases t,
{
    match t {
        Token::Ident(s, _) => *s == *c,
        Token::Literal(s, _) => *s == *c,
        Token::Punct(p, _, _) => {
            let cs = chars_of(c);
            let r = cs.len() == 1 && cs[0] == *p;
            proof {
                if r {
                    assert(c@ =~= seq![*p]);
                }
            }
            r
        },
        Token::Group(d, inner) => {
            proof {
                lemma_tokens_view_index(inner@);
            }
            *d == Delimiter::Invisible && inner.len() == 1 && reads_as(&inner[0], c)
        },
    }
}

pub open spec fn prepend(x: Seq<TokenV>, r: Result<Seq<TokenV>, SeqError>) -> Result<
    Seq<TokenV>,
    SeqError,
> {
    match r {
        Ok(y) => Ok(x + y),
        Err(e) => Err(e),
    }
}

/// The literal that stands for counter value `n`.
pub open spec fn counter_literal(n: u64) -> TokenV {
    TokenV::Literal(decimal(n as nat), SpanRef::CallSite)
}

/// The expansion of `s[i..]` for counter value `n`: the counter becomes the
/// literal `n`; `ident # counter` (the counter's text, also inside a group of
/// invisible delimiters) becomes the identifier `ident` followed by the
/// digits of `n`, and `ident # other` becomes `ident` alone; where `rep` holds,
/// `#( body )*` becomes the expansions of `body` for every counter value from
/// `start` up to `end`; groups are expanded inside, and all else is kept.
pub open spec fn expand(
    c: Seq<char>,
    start: u64,
    end: u64,
    rep: bool,
    n: u64,
    s: Seq<TokenV>,
    i: int,
) -> Result<Seq<TokenV>, SeqError>
    decreases s, 0int, s.len() - i,
{
    if i < 0 || i >= s.len() {
        Ok(Seq::empty())
    } else {
        match s[i] {
            TokenV::Ident(id, _) => if id == c {
                prepend(seq![counter_literal(n)], expand(c, start, end, rep, n, s, i + 1))
            } else if i + 1 < s.len() && is_punct(s[i + 1], '#') {
                if i + 2 >= s.len() {
                    Err(SeqError::DanglingPound)
                } else if displays_as(s[i + 2], c) {
                    prepend(
                        seq![TokenV::Ident(id + decimal(n as nat), SpanRef::CallSite)],
                        expand(c, start, end, rep, n, s, i + 3),
                    )
                } else {
                    prepend(seq![s[i]], expand(c, start, end, rep, n, s, i + 3))
                }
            } else {
                prepend(seq![s[i]], expand(c, start, end, rep, n, s, i + 1))
            },
            TokenV::Punct(p, _, _) => if !rep || p != '#' {
                prepend(seq![s[i]], expand(c, start, end, rep, n, s, i + 1))
            } else if i + 1 >= s.len() {
                Err(SeqError::DanglingPound)
            } else {
                match s[i + 1] {
                    TokenV::Group(d, inner) => if d == Delimiter::Parenthesis {
                        if i + 2 >= s.len() {
                            Err(SeqError::MissingStar)
                        } else if is_punct(s[i + 2], '*') {
                            match repeat_body(c, start, end, rep, inner, start) {
                                Ok(x) => prepend(x, expand(c, start, end, rep, n, s, i + 3)),
                                Err(e) => Err(e),
                            }
                        } else {
                            Err(SeqError::MissingStar)
                        }
                    } else {
                        prepend(seq![s[i]], expand(c, start, end, rep, n, s, i + 1))
                    },
                    _ => prepend(seq![s[i]], expand(c, start, end, rep, n, s, i + 1)),
                }
            },
            TokenV::Literal(_, _) => prepend(seq![s[i]], expand(c, start, end, rep, n, s, i + 1)),
            TokenV::Group(d, inner) => match expand(c, start, end, rep, n, inner, 0) {
                Ok(x) => prepend(seq![TokenV::Group(d, x)], expand(c, start, end, rep, n, s, i + 1)),
                Err(e) => Err(e),
            },
        }
    }
}

/// The expansions of `s` for the counter values `j`, `j + 1`, ... up to
/// `end` (exclusive), one after the other.
pub open spec fn repeat_body(
    c: Seq<char>,
    start: u64,
    end: u64,
    rep: bool,
    s: Seq<TokenV>,
    j: u64,
) -> Result<Seq<TokenV>, SeqError>
    decreases s, 1int, end - j,
{
    if j >= end {
        Ok(Seq::empty())
    } else {
        match expand(c, start, end, rep, j, s, 0) {
            Ok(x) => prepend(x, repeat_body(c, start, end, rep, s, (j + 1) as u64)),
            Err(e) => Err(e),
        }
    }
}

pub open spec fn result_view(r: Result<Vec<Token>, SeqError>) -> Result<Seq<TokenV>, SeqError> {
    match r {
        Ok(v) => Ok(tokens_view(v@)),
        Err(e) => Err(e),
    }
}

proof fn lemma_prepend_assoc(a: Seq<TokenV>, b: Seq<TokenV>, r: Result<Seq<TokenV>, SeqError>)
    ensures
        prepend(a, prepend(b, r)) == prepend(a + b, r),
{
    if let Ok(y) = r {
        assert(a + (b + y) =~= (a + b) + y);
    }
}

proof fn lemma_prepend_empty(r: Result<Seq<TokenV>, SeqError>)
    ensures
        prepend(Seq::empty(), r) == r,
{
    if let Ok(y) = r {
        assert(Seq::<TokenV>::empty() + y =~= y);
    }
}

/// Whether `tree` holds a repetition `#( ... )*`, or the error where a `#`
/// ends its group or a `#( ... )` lacks its `*`.
pub(crate) fn find_repetition(tree: &Vec<Token>) -> (r: Result<bool, SeqError>)
    ensures
        r == scan(tokens_view(tree@), 0),
    decreases tree@,
{
    let ghost s = tokens_view(tree@);
    proof {
        lemma_tokens_view_index(tree@);
    }
    let len = tree.len();
    let mut i: usize = 0;
    while i < len
        invariant
            len == tree.len(),
            s == tokens_view(tree@),
            s.len() == tree.len(),
            forall|k: int| 0 <= k < tree.len() ==> #[trigger] s[k] == token_view(tree@[k]),
            i <= len,
            scan(s, 0) == scan(s, i as int),
        decreases len - i,
    {
        assert(s[i as int] == token_view(tree@[i as int]));
        match &tree[i] {
            Token::Ident(_, _) | Token::Literal(_, _) => {
                i += 1;
            },
            Token::Group(_, inner) => {
                let r = find_repetition(inner);
                match r {
                    Ok(true) => {
                        return Ok(true);
                    },
                    Ok(false) => {
                        i += 1;
                    },
                    Err(e) => {
                        return Err(e);
                    },
                }
            },
            Token::Punct(c, _, _) => {
                if *c != '#' {
                    i += 1;
                } else if i + 1 >= len {
                    return Err(SeqError::DanglingPound);
                } else {
                    assert(s[i + 1] == token_view(tree@[i + 1]));
                    match &tree[i + 1] {
                        Token::Group(d, inner) => {
                            if *d != Delimiter::Parenthesis {
                                let r = find_repetition(inner);
                                match r {
                                    Ok(true) => {
                                        return Ok(true);
                                    },
                                    Ok(false) => {
                                        i += 2;
                                    },
                                    Err(e) => {
                                        return Err(e);
                                    },
                                }
                            } else if i + 2 >= len {
                                return Err(SeqError::MissingStar);
                            } else {
                                assert(s[i + 2] == token_view(tree@[i + 2]));
                                match &tree[i + 2] {
                                    Token::Punct(star, _, _) => {
                                        if *star == '*' {
                                            return Ok(true);
                                        } else {
                                            return Err(SeqError::MissingStar);
                                        }
                                    },
                                    _ => {
                                        return Err(SeqError::MissingStar);
                                    },
                                }
                            }
                        },
                        _ => {
                            i += 2;
                        },
                    }
                }
            },
        }
    }
    Ok(false)
}


proof fn lemma_emit(out: Seq<Token>, t: Token, rest: Result<Seq<TokenV>, SeqError>)
    ensures
        prepend(tokens_view(out), prepend(seq![token_view(t)], rest)) == prepend(
            tokens_view(out.push(t)),
            rest,
        ),
{
    lemma_tokens_view_push(out, t);
    lemma_prepend_assoc(tokens_view(out), seq![token_view(t)], rest);
    assert(tokens_view(out) + seq![token_view(t)] =~= tokens_view(out).push(token_view(t)));
}

/// The expansion of `tree` for counter value `value`, or the error where a `#`
/// ends its group or a `#( ... )` lacks its `*`; see `replace_and_clone`.
pub(crate) fn expand_tokens(
    count_ident: &String,
    value: u64,
    tree: &Vec<Token>,
    repeating: bool,
    ds: &SeqHeader,
) -> (r: Result<Vec<Token>, SeqError>)
    ensures
        result_view(r) == expand(
            count_ident@,
            ds.start,
            ds.end,
            repeating,
            value,
            tokens_view(tree@),
            0,
        ),
    decreases tree@, 0int,
{
    let ghost c = count_ident@;
    let ghost s = tokens_view(tree@);
    proof {
        lemma_tokens_view_index(tree@);
    }
    let len = tree.len();
    let mut cloned: Vec<Token> = Vec::new();
    let mut i: usize = 0;
    proof {
        lemma_prepend_empty(expand(c, ds.start, ds.end, repeating, value, s, 0));
    }
    while i < len
        invariant
            len == tree.len(),
            c == count_ident@,
            s == tokens_view(tree@),
            s.len() == tree.len(),
            forall|k: int| 0 <= k < tree.len() ==> #[trigger] s[k] == token_view(tree@[k]),
            i <= len,
            expand(c, ds.start, ds.end, repeating, value, s, 0) == prepend(
                tokens_view(cloned@),
                expand(c, ds.start, ds.end, repeating, value, s, i as int),
            ),
        decreases len - i,
    {
        assert(s[i as int] == token_view(tree@[i as int]));
        match &tree[i] {
            Token::Ident(id, at) => {
                if *id == *count_ident {
                    let t = Token::Literal(decimal_string(value), SpanRef::CallSite);
                    proof {
                        lemma_emit(cloned@, t, expand(c, ds.start, ds.end, repeating, value, s, i + 1));
                    }
                    cloned.push(t);
                    i += 1;
                } else if i + 1 < len && match &tree[i + 1] {
                    Token::Punct(p, _, _) => *p == '#',
                    _ => false,
                } {
                    assert(s[i + 1] == token_view(tree@[i + 1]));
                    if i + 2 >= len {
                        return Err(SeqError::DanglingPound);
                    }
                    assert(s[i + 2] == token_view(tree@[i + 2]));
                    let pasted = reads_as(&tree[i + 2], count_ident);
                    let t = if pasted {
                        let mut joined = id.clone();
                        let digits = decimal_string(value);
                        joined.append(digits.as_str());
                        Token::Ident(joined, SpanRef::CallSite)
                    } else {
                        Token::Ident(id.clone(), *at)
                    };
                    proof {
                        lemma_emit(cloned@, t, expand(c, ds.start, ds.end, repeating, value, s, i + 3));
                    }
                    cloned.push(t);
                    i += 3;
                } else {
                    let t = Token::Ident(id.clone(), *at);
                    proof {
                        lemma_emit(cloned@, t, expand(c, ds.start, ds.end, repeating, value, s, i + 1));
                    }
                    cloned.push(t);
                    i += 1;
                }
            },
            Token::Punct(p, sp, at) => {
                let pound = *p == '#';
                if !repeating || !pound {
                    let t = Token::Punct(*p, *sp, *at);
                    proof {
                        lemma_emit(cloned@, t, expand(c, ds.start, ds.end, repeating, value, s, i + 1));
                    }
                    cloned.push(t);
                    i += 1;
                } else if i + 1 >= len {
                    return Err(SeqError::DanglingPound);
                } else {
                    assert(s[i + 1] == token_view(tree@[i + 1]));
                    let is_paren_group = match &tree[i + 1] {
                        Token::Group(d, _) => *d == Delimiter::Parenthesis,
                        _ => false,
                    };
                    if !is_paren_group {
                        let t = Token::Punct(*p, *sp, *at);
                        proof {
                            lemma_emit(
                                cloned@,
                                t,
                                expand(c, ds.start, ds.end, repeating, value, s, i + 1),
                            );
                        }
                        cloned.push(t);
                        i += 1;
                    } else if i + 2 >= len {
                        return Err(SeqError::MissingStar);
                    } else {
                        assert(s[i + 2] == token_view(tree@[i + 2]));
                        let star = match &tree[i + 2] {
                            Token::Punct(q, _, _) => *q == '*',
                            _ => false,
                        };
                        if !star {
                            return Err(SeqError::MissingStar);
                        }
                        match &tree[i + 1] {
                            Token::Group(_, inner) => {
                                match repeat_tokens(count_ident, inner, repeating, ds, ds.start) {
                                    Ok(mut copies) => {
                                        proof {
                                            lemma_tokens_view_concat(cloned@, copies@);
                                            lemma_prepend_assoc(
                                                tokens_view(cloned@),
                                                tokens_view(copies@),
                                                expand(c, ds.start, ds.end, repeating, value, s, i + 3),
                                            );
                                        }
                                        cloned.append(&mut copies);
                                        i += 3;
                                    },
                                    Err(e) => {
                                        return Err(e);
                                    },
                                }
                            },
                            _ => {
                                return Err(SeqError::MissingStar);
                            },
                        }
                    }
                }
            },
            Token::Literal(l, at) => {
                let t = Token::Literal(l.clone(), *at);
                proof {
                    lemma_emit(cloned@, t, expand(c, ds.start, ds.end, repeating, value, s, i + 1));
                }
                cloned.push(t);
                i += 1;
            },
            Token::Group(d, inner) => {
                match expand_tokens(count_ident, value, inner, repeating, ds) {
                    Ok(new) => {
                        let t = Token::Group(*d, new);
                        proof {
                            lemma_emit(
                                cloned@,
                                t,
                                expand(c, ds.start, ds.end, repeating, value, s, i + 1),
                            );
                        }
                        cloned.push(t);
                        i += 1;
                    },
                    Err(e) => {
                        return Err(e);
                    },
                }
            },
        }
    }
    proof {
        assert(tokens_view(cloned@) + Seq::<TokenV>::empty() =~= tokens_view(cloned@));
    }
    Ok(cloned)
}

/// The expansions of `tree` for the counter values from `from` up to the end
/// of the range, one after the other.
pub(crate) fn repeat_tokens(
    count_ident: &String,
    tree: &Vec<Token>,
    repeating: bool,
    ds: &SeqHeader,
    from: u64,
) -> (r: Result<Vec<Token>, SeqError>)
    ensures
        result_view(r) == repeat_body(
            count_ident@,
            ds.start,
            ds.end,
            repeating,
            tokens_view(tree@),
            from,
        ),
    decreases tree@, 1int,
{
    let ghost c = count_ident@;
    let ghost s = tokens_view(tree@);
    let mut out: Vec<Token> = Vec::new();
    let mut j: u64 = from;
    proof {
        lemma_prepend_empty(repeat_body(c, ds.start, ds.end, repeating, s, from));
    }
    while j < ds.end
        invariant
            c == count_ident@,
            s == tokens_view(tree@),
            repeat_body(c, ds.start, ds.end, repeating, s, from) == prepend(
                tokens_view(out@),
                repeat_body(c, ds.start, ds.end, repeating, s, j),
            ),
        decreases ds.end - j,
    {
        match expand_tokens(count_ident, j, tree, repeating, ds) {
            Ok(mut copy) => {
                proof {
                    lemma_tokens_view_concat(out@, copy@);
                    lemma_prepend_assoc(
                        tokens_view(out@),
                        tokens_view(copy@),
                        repeat_body(c, ds.start, ds.end, repeating, s, (j + 1) as u64),
                    );
                }
                out.append(&mut copy);
                j += 1;
            },
            Err(e) => {
                return Err(e);
            },
        }
    }
    proof {
        assert(tokens_view(out@) + Seq::<TokenV>::empty() =~= tokens_view(out@));
    }
    Ok(out)
}

/// The errors of `seq!` on whose inputs the macro panics rather than report a
/// compile error.
pub open spec fn panic_error(e: SeqError) -> bool {
    ||| e is InclusiveEndOutOfRange || e is ExpectedBody || e is UnrecognizedLiteral
    ||| e is StartOutOfRange || e is EndOutOfRange || e is DanglingPound || e is MissingStar
}

/// Whether `e` is one of the errors on whose inputs the macro panics.
pub fn is_panic_error(e: SeqError) -> (r: bool)
    ensures
        r == panic_error(e),
{
    match e {
        SeqError::ExpectedCounter | SeqError::ExpectedIn | SeqError::ExpectedStart
        | SeqError::ExpectedRange | SeqError::ExpectedEnd | SeqError::UnexpectedToken => false,
        _ => true,
    }
}

/// Whether `tree` holds a repetition `#( ... )*`. The macro panics where a `#`
/// ends its group or a `#( ... )` lacks its `*`; `requires` leaves those trees
/// out.
pub fn has_repeating_block(tree: &Vec<Token>) -> (r: bool)
    requires
        scan(tokens_view(tree@), 0) is Ok,
    ensures
        scan(tokens_view(tree@), 0) == Ok::<bool, SeqError>(r),
{
    match find_repetition(tree) {
        Ok(b) => b,
        Err(_) => false,
    }
}

/// The expansion of `tree` for counter value `value`: the counter becomes the
/// literal `value`, `ident # counter` is pasted, and, where `repeating`, each
/// `#( ... )*` is repeated over the range of `ds`. The macro panics where a `#`
/// ends its group or a `#( ... )` lacks its `*`; `requires` leaves those trees
/// out.
pub fn replace_and_clone(
    count_ident: &String,
    value: u64,
    tree: &Vec<Token>,
    repeating: bool,
    ds: &SeqHeader,
) -> (r: Vec<Token>)
    requires
        expand(count_ident@, ds.start, ds.end, repeating, value, tokens_view(tree@), 0) is Ok,
    ensures
        expand(count_ident@, ds.start, ds.end, repeating, value, tokens_view(tree@), 0) == Ok::<
            Seq<TokenV>,
            SeqError,
        >(tokens_view(r@)),
{
    match expand_tokens(count_ident, value, tree, repeating, ds) {
        Ok(v) => v,
        Err(_) => Vec::new(),
    }
}

} // verus!
