//! Source text of token trees, for handing them to a parser that reads text.
use vstd::prelude::*;
use crate::tokens::{
    Delimiter, Spacing, Token, TokenV, lemma_tokens_view_index, token_view, tokens_view,
};

verus! {

/// Calls `String::push`: `c` is added at the end of `s`.
#[verifier::external_body]
fn push_char(s: &mut String, c: char)
    ensures
        final(s)@ == old(s)@.push(c),
{
    s.push(c);
}

/// The text that opens and the text that closes a group.
pub open spec fn delimiter_text(d: Delimiter) -> (Seq<char>, Seq<char>) {
    match d {
        Delimiter::Parenthesis => (seq!['('], seq![')']),
        Delimiter::Brace => (seq!['{'], seq!['}']),
        Delimiter::Bracket => (seq!['['], seq![']']),
        Delimiter::Invisible => (Seq::empty(), Seq::empty()),
    }
}

/// The source text of a token tree: every token but a joined punctuation
/// character is followed by a space, so the text reads back as the same
/// tokens (a group of invisible delimiters reads back as its contents).
pub open spec fn token_text(t: TokenV) -> Seq<char>
    decreases t,
{
    match t {
        TokenV::Ident(s, _) => s.push(' '),
        TokenV::Punct(c, Spacing::Joint, _) => seq![c],
        TokenV::Punct(c, Spacing::Alone, _) => seq![c, ' '],
        TokenV::Literal(s, _) => s.push(' '),
        TokenV::Group(d, inner) => delimiter_text(d).0 + tokens_text(inner) + delimiter_text(
            d,
        ).1.push(' '),
    }
}

/// The source text of a sequence of token trees, one after the other.
pub open spec fn tokens_text(s: Seq<TokenV>) -> Seq<char>
    decreases s,
{
    if s.len() == 0 {
        Seq::empty()
    } else {
        tokens_text(s.drop_last()) + token_text(s.last())
    }
}

fn push_delimiter(out: &mut String, d: Delimiter, opening: bool)
    ensures
        final(out)@ == old(out)@ + if opening {
            delimiter_text(d).0
        } else {
            delimiter_text(d).1
        },
{
    let c = match d {
        Delimiter::Parenthesis => if opening { '(' } else { ')' },
        Delimiter::Brace => if opening { '{' } else { '}' },
        Delimiter::Bracket => if opening { '[' } else { ']' },
        Delimiter::Invisible => {
            assert(old(out)@ + Seq::<char>::empty() =~= old(out)@);
            return;
        },
    };
    push_char(out, c);
    assert(old(out)@.push(c) =~= old(out)@ + seq![c]);
}

/// Appends the source text of `tokens` to `out`.
pub fn write_tokens(tokens: &Vec<Token>, out: &mut String)
    ensures
        final(out)@ == old(out)@ + tokens_text(tokens_view(tokens@)),
    decreases tokens@,
{
    proof {
        lemma_tokens_view_index(tokens@);
    }
    let ghost s = tokens_view(tokens@);
    let ghost start = out@;
    let mut i: usize = 0;
    assert(s.take(0) =~= Seq::<TokenV>::empty());
    assert(start + Seq::<char>::empty() =~= start);
    while i < tokens.len()
        invariant
            s == tokens_view(tokens@),
            s.len() == tokens.len(),
            forall|k: int| 0 <= k < tokens.len() ==> #[trigger] s[k] == token_view(tokens@[k]),
            i <= tokens.len(),
            out@ == start + tokens_text(s.take(i as int)),
        decreases tokens.len() - i,
    {
        assert(s.take(i + 1).drop_last() =~= s.take(i as int));
        assert(s.take(i + 1).last() == s[i as int]);
        assert(s[i as int] == token_view(tokens@[i as int]));
        let ghost before = out@;
        match &tokens[i] {
            Token::Ident(t, _) | Token::Literal(t, _) => {
                out.append(t.as_str());
                push_char(out, ' ');
                assert(out@ =~= before + t@.push(' '));
            },
            Token::Punct(c, sp, _) => {
                push_char(out, *c);
                if *sp == Spacing::Alone {
                    push_char(out, ' ');
                    assert(out@ =~= before + seq![*c, ' ']);
                } else {
                    assert(out@ =~= before + seq![*c]);
                }
            },
            Token::Group(d, inner) => {
                push_delimiter(out, *d, true);
                write_tokens(inner, out);
                push_delimiter(out, *d, false);
                push_char(out, ' ');
                assert(out@ =~= before + (delimiter_text(*d).0 + tokens_text(tokens_view(inner@))
                    + delimiter_text(*d).1.push(' ')));
            },
        }
        assert(out@ == before + token_text(s[i as int]));
        assert(tokens_text(s.take(i + 1)) == tokens_text(s.take(i as int)) + token_text(s[i as int]));
        assert(out@ =~= start + tokens_text(s.take(i + 1)));
        i += 1;
    }
    assert(s.take(tokens.len() as int) =~= s);
}

/// The source text of `tokens`.
pub fn source_of(tokens: &Vec<Token>) -> (r: String)
    ensures
        r@ == tokens_text(tokens_view(tokens@)),
{
    let mut out = String::new();
    write_tokens(tokens, &mut out);
    assert(Seq::<char>::empty() + tokens_text(tokens_view(tokens@)) =~= tokens_text(
        tokens_view(tokens@),
    ));
    out
}

} // verus!
