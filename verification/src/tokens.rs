use vstd::prelude::*;

verus! {

/// How a group of tokens is delimited.
#[derive(Clone, Copy, Debug, PartialEq, Eq, Structural)]
pub enum Delimiter {
    Parenthesis,
    Brace,
    Bracket,
    /// A group whose delimiters are invisible in the source.
    Invisible,
}

/// Whether a punctuation character is joined to the one that follows it
/// (as `.` is to `.` in `..`).
#[derive(Clone, Copy, Debug, PartialEq, Eq, Structural)]
pub enum Spacing {
    Alone,
    Joint,
}

/// Where a token came from, for the caller's error messages and name
/// resolution: the call site of the macro, or the caller's `n`-th recorded
/// input span.
#[derive(Clone, Copy, Debug, PartialEq, Eq, Structural)]
pub enum SpanRef {
    CallSite,
    Input(u64),
}

/// One token tree: what a procedural macro receives and produces. Groups
/// carry no span: a group that a macro writes is placed at the call site.
#[derive(Debug)]
pub enum Token {
    Ident(String, SpanRef),
    Punct(char, Spacing, SpanRef),
    Literal(String, SpanRef),
    Group(Delimiter, Vec<Token>),
}

/// The mathematical value of a token tree.
pub enum TokenV {
    Ident(Seq<char>, SpanRef),
    Punct(char, Spacing, SpanRef),
    Literal(Seq<char>, SpanRef),
    Group(Delimiter, Seq<TokenV>),
}

pub open spec fn token_view(t: Token) -> TokenV
    decreases t,
{
    match t {
        Token::Ident(s, at) => TokenV::Ident(s@, at),
        Token::Punct(c, sp, at) => TokenV::Punct(c, sp, at),
        Token::Literal(s, at) => TokenV::Literal(s@, at),
        Token::Group(d, v) => TokenV::Group(d, tokens_view(v@)),
    }
}

pub open spec fn tokens_view(s: Seq<Token>) -> Seq<TokenV>
    decreases s,
{
    if s.len() == 0 {
        Seq::empty()
    } else {
        tokens_view(s.drop_last()).push(token_view(s.last()))
    }
}

impl View for Token {
    type V = TokenV;

    open spec fn view(&self) -> TokenV {
        token_view(*self)
    }
}

/// The view of a sequence of token trees has one element per tree, in order.
pub proof fn lemma_tokens_view_index(s: Seq<Token>)
    ensures
        tokens_view(s).len() == s.len(),
        forall|i: int| 0 <= i < s.len() ==> #[trigger] tokens_view(s)[i] == token_view(s[i]),
    decreases s.len(),
{
    if s.len() > 0 {
        lemma_tokens_view_index(s.drop_last());
    }
}

/// Viewing distributes over pushing a tree.
pub proof fn lemma_tokens_view_push(s: Seq<Token>, t: Token)
    ensures
        tokens_view(s.push(t)) == tokens_view(s).push(token_view(t)),
{
    assert(s.push(t).drop_last() =~= s);
}

/// Viewing distributes over concatenation.
pub proof fn lemma_tokens_view_concat(a: Seq<Token>, b: Seq<Token>)
    ensures
        tokens_view(a + b) == tokens_view(a) + tokens_view(b),
    decreases b.len(),
{
    if b.len() == 0 {
        assert(a + b =~= a);
        assert(tokens_view(a) + tokens_view(b) =~= tokens_view(a));
    } else {
        lemma_tokens_view_concat(a, b.drop_last());
        assert((a + b).drop_last() =~= a + b.drop_last());
        assert((a + b).last() == b.last());
        assert(tokens_view(a) + tokens_view(b) =~= (tokens_view(a) + tokens_view(b.drop_last())).push(
            token_view(b.last()),
        ));
    }
}

/// A copy of a token tree.
pub fn copy_token(t: &Token) -> (r: Token)
    ensures
        r@ == t@,
    decreases t,
{
    match t {
        Token::Ident(s, at) => Token::Ident(s.clone(), *at),
        Token::Punct(c, sp, at) => Token::Punct(*c, *sp, *at),
        Token::Literal(s, at) => Token::Literal(s.clone(), *at),
        Token::Group(d, v) => Token::Group(*d, copy_tokens(v)),
    }
}

/// A copy of a sequence of token trees.
pub fn copy_tokens(v: &Vec<Token>) -> (r: Vec<Token>)
    ensures
        tokens_view(r@) == tokens_view(v@),
    decreases v,
{
    let mut r: Vec<Token> = Vec::new();
    let mut i: usize = 0;
    while i < v.len()
        invariant
            i <= v.len(),
            tokens_view(r@) == tokens_view(v@.take(i as int)),
        decreases v.len() - i,
    {
        let t = copy_token(&v[i]);
        proof {
            lemma_tokens_view_push(r@, t);
            lemma_tokens_view_push(v@.take(i as int), v@[i as int]);
            assert(v@.take(i as int).push(v@[i as int]) =~= v@.take(i + 1));
        }
        r.push(t);
        i += 1;
    }
    assert(v@.take(v.len() as int) =~= v@);
    r
}


} // verus!
