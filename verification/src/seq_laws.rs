use vstd::prelude::*;
use crate::decimal::{decimal, digits_value, lemma_decimal_digits, lemma_decimal_value};
use crate::expand::{SeqError, counter_literal, expand, is_punct, repeat_body, scan};
use crate::seq_macro::{
    FlatV, HeaderV, after_in, body_at, counter_text, entries, expansion, header_spec, int_text_at,
    parse_header_spec, range_at, tok_at, visible,
};
use crate::syn_calls::{IntLiteral, syn_accepts_ident, syn_int_literal};
use crate::tokens::{Delimiter, Spacing, SpanRef, TokenV};

verus! {

/// `s[i..]` holds, at no depth, the counter `c` or a `#`.
pub open spec fn free_from(c: Seq<char>, s: Seq<TokenV>, i: int) -> bool
    decreases s, s.len() - i,
{
    if i < 0 || i >= s.len() {
        true
    } else {
        &&& match s[i] {
            TokenV::Ident(id, _) => id != c,
            TokenV::Punct(p, _, _) => p != '#',
            TokenV::Literal(_, _) => true,
            TokenV::Group(_, inner) => free_from(c, inner, 0),
        }
        &&& free_from(c, s, i + 1)
    }
}

/// No token of `s[i..]` is a `#` (groups are not looked into).
pub open spec fn no_pound_from(s: Seq<TokenV>, i: int) -> bool {
    forall|k: int| i <= k < s.len() ==> !is_punct(#[trigger] s[k], '#')
}

/// What one token becomes in an expansion for counter value `n` when no `#`
/// stands next to it.
pub open spec fn substitute(
    c: Seq<char>,
    start: u64,
    end: u64,
    rep: bool,
    n: u64,
    t: TokenV,
) -> TokenV {
    match t {
        TokenV::Ident(id, _) => if id == c {
            counter_literal(n)
        } else {
            t
        },
        TokenV::Group(d, inner) => match expand(c, start, end, rep, n, inner, 0) {
            Ok(y) => TokenV::Group(d, y),
            Err(_) => t,
        },
        _ => t,
    }
}

/// Tokens that hold neither the counter nor a `#`, at any depth, come out of an
/// expansion unchanged, whatever the counter value and the mode.
pub proof fn lemma_expand_identity(
    c: Seq<char>,
    start: u64,
    end: u64,
    rep: bool,
    n: u64,
    s: Seq<TokenV>,
    i: int,
)
    requires
        0 <= i <= s.len(),
        free_from(c, s, i),
    ensures
        expand(c, start, end, rep, n, s, i) == Ok::<Seq<TokenV>, SeqError>(s.skip(i)),
    decreases s, s.len() - i,
{
    if i < s.len() {
        lemma_expand_identity(c, start, end, rep, n, s, i + 1);
        if let TokenV::Group(d, inner) = s[i] {
            lemma_expand_identity(c, start, end, rep, n, inner, 0);
            assert(inner.skip(0) =~= inner);
        }
        if i + 1 < s.len() {
            assert(free_from(c, s, i + 1));
            if let TokenV::Punct(p, _, _) = s[i + 1] {
                assert(p != '#');
            }
        }
        assert(seq![s[i]] + s.skip(i + 1) =~= s.skip(i));
    } else {
        assert(s.skip(i) =~= Seq::<TokenV>::empty());
    }
}

/// Where no `#` stands at the top level, an expansion maps the tokens one for
/// one: the counter becomes its value, groups are expanded, and every other
/// token stays.
pub proof fn lemma_expand_pointwise(
    c: Seq<char>,
    start: u64,
    end: u64,
    rep: bool,
    n: u64,
    s: Seq<TokenV>,
    i: int,
)
    requires
        0 <= i <= s.len(),
        no_pound_from(s, i),
    ensures
        expand(c, start, end, rep, n, s, i) matches Ok(x) ==> {
            &&& x.len() == s.len() - i
            &&& forall|k: int|
                0 <= k < x.len() ==> #[trigger] x[k] == substitute(c, start, end, rep, n, s[i + k])
        },
    decreases s.len() - i,
{
    if i < s.len() {
        lemma_expand_pointwise(c, start, end, rep, n, s, i + 1);
        if i + 1 < s.len() {
            assert(!is_punct(s[i + 1], '#'));
        }
        assert(!is_punct(s[i], '#'));
        let r = expand(c, start, end, rep, n, s, i);
        let rest = expand(c, start, end, rep, n, s, i + 1);
        if let Ok(x) = r {
            if let Ok(y) = rest {
                assert(x == seq![substitute(c, start, end, rep, n, s[i])] + y);
                assert forall|k: int| 0 <= k < x.len() implies #[trigger] x[k] == substitute(
                    c,
                    start,
                    end,
                    rep,
                    n,
                    s[i + k],
                ) by {
                    if k > 0 {
                        assert(x[k] == y[k - 1]);
                    }
                }
            }
        }
    }
}

/// Repeating a body with no `#` at its top level gives one block of the body's
/// length per counter value, in order: block `k` is the body with the counter
/// read as `j + k`.
pub proof fn lemma_repeat_blocks(
    c: Seq<char>,
    start: u64,
    end: u64,
    rep: bool,
    s: Seq<TokenV>,
    j: u64,
)
    requires
        no_pound_from(s, 0),
        j <= end,
    ensures
        repeat_body(c, start, end, rep, s, j) matches Ok(out) ==> {
            &&& out.len() == (end - j) * s.len()
            &&& forall|k: int, i: int|
                0 <= k < end - j && 0 <= i < s.len() ==> #[trigger] out[k * s.len() + i]
                    == substitute(c, start, end, rep, (j + k) as u64, #[trigger] s[i])
        },
    decreases end - j,
{
    let len = s.len() as int;
    if j < end {
        lemma_repeat_blocks(c, start, end, rep, s, (j + 1) as u64);
        lemma_expand_pointwise(c, start, end, rep, j, s, 0);
        if let Ok(out) = repeat_body(c, start, end, rep, s, j) {
            let x = expand(c, start, end, rep, j, s, 0).unwrap();
            let rest = repeat_body(c, start, end, rep, s, (j + 1) as u64).unwrap();
            assert(out == x + rest);
            assert((end - j) * len == len + (end - (j + 1)) * len) by (nonlinear_arith);
            assert forall|k: int, i: int| 0 <= k < end - j && 0 <= i < len implies #[trigger] out[k
                * len + i] == substitute(c, start, end, rep, (j + k) as u64, #[trigger] s[i]) by {
                if k == 0 {
                    assert(out[i] == x[i]);
                } else {
                    assert(x.len() == len);
                    assert(rest.len() == (end - (j + 1)) * len);
                    assert(k * len + i - len == (k - 1) * len + i) by (nonlinear_arith);
                    assert((k - 1) * len + i < (end - (j + 1)) * len) by (nonlinear_arith)
                        requires
                            1 <= k < end - j,
                            0 <= i < len,
                    ;
                    assert(k * len + i >= len) by (nonlinear_arith)
                        requires
                            k >= 1,
                            i >= 0,
                            len >= 0,
                    ;
                    assert(out[k * len + i] == rest[(k - 1) * len + i]);
                    assert((j + 1 + (k - 1)) as u64 == (j + k) as u64);
                }
            }
        }
    }
}

/// An empty range repeats nothing.
pub proof fn lemma_empty_range(c: Seq<char>, start: u64, end: u64, rep: bool, s: Seq<TokenV>, j: u64)
    requires
        j >= end,
    ensures
        repeat_body(c, start, end, rep, s, j) == Ok::<Seq<TokenV>, SeqError>(
            Seq::empty(),
        ),
{
}


/// Where a body holds no `#` at its top level and no repetition, the
/// expansion of `seq!` is the body once per counter value of the range, in
/// order: block `k` is the body with the counter read as `start + k`.
pub proof fn lemma_seq_repeats_body(h: HeaderV)
    requires
        no_pound_from(h.body, 0),
        scan(h.body, 0) == Ok::<bool, SeqError>(false),
    ensures
        expansion(h) matches Ok(out) ==> {
            &&& h.start <= h.end ==> out.len() == (h.end - h.start) * h.body.len()
            &&& h.start > h.end ==> out.len() == 0
            &&& forall|k: int, i: int|
                0 <= k < h.end - h.start && 0 <= i < h.body.len() ==> #[trigger] out[k
                    * h.body.len() + i] == substitute(
                    h.counter,
                    h.start,
                    h.end,
                    false,
                    (h.start + k) as u64,
                    #[trigger] h.body[i],
                )
        },
{
    if h.start <= h.end {
        lemma_repeat_blocks(h.counter, h.start, h.end, false, h.body, h.start);
    }
}


/// `s[i..]` holds, at no depth, the counter `c`, and no identifier in it is
/// directly followed by `#`.
pub open spec fn untouched_from(c: Seq<char>, s: Seq<TokenV>, i: int) -> bool
    decreases s, s.len() - i,
{
    if i < 0 || i >= s.len() {
        true
    } else {
        &&& match s[i] {
            TokenV::Ident(id, _) => id != c && !(i + 1 < s.len() && is_punct(s[i + 1], '#')),
            TokenV::Group(_, inner) => untouched_from(c, inner, 0),
            _ => true,
        }
        &&& untouched_from(c, s, i + 1)
    }
}

/// Outside a repetition, tokens in which the counter does not occur, at any
/// depth, and in which no identifier is directly followed by `#` come out of
/// an expansion unchanged, whatever the counter value.
pub proof fn lemma_expand_unchanged(
    c: Seq<char>,
    start: u64,
    end: u64,
    n: u64,
    s: Seq<TokenV>,
    i: int,
)
    requires
        0 <= i <= s.len(),
        untouched_from(c, s, i),
    ensures
        expand(c, start, end, false, n, s, i) == Ok::<Seq<TokenV>, SeqError>(s.skip(i)),
    decreases s, s.len() - i,
{
    if i < s.len() {
        lemma_expand_unchanged(c, start, end, n, s, i + 1);
        if let TokenV::Group(d, inner) = s[i] {
            lemma_expand_unchanged(c, start, end, n, inner, 0);
            assert(inner.skip(0) =~= inner);
        }
        assert(seq![s[i]] + s.skip(i + 1) =~= s.skip(i));
    } else {
        assert(s.skip(i) =~= Seq::<TokenV>::empty());
    }
}

/// The number of top-level tokens in the expansion of `s[i..]` outside a
/// repetition: one per token, but an identifier other than the counter that is
/// followed by `#` and a third token makes one token of the three.
pub open spec fn expanded_len(c: Seq<char>, s: Seq<TokenV>, i: int) -> nat
    decreases s.len() - i,
{
    if i < 0 || i >= s.len() {
        0
    } else {
        match s[i] {
            TokenV::Ident(id, _) => if id != c && i + 2 < s.len() && is_punct(s[i + 1], '#') {
                1 + expanded_len(c, s, i + 3)
            } else {
                1 + expanded_len(c, s, i + 1)
            },
            _ => 1 + expanded_len(c, s, i + 1),
        }
    }
}

/// An expansion outside a repetition has `expanded_len` tokens at the top
/// level, whatever the counter value.
pub proof fn lemma_expand_len(
    c: Seq<char>,
    start: u64,
    end: u64,
    n: u64,
    s: Seq<TokenV>,
    i: int,
)
    requires
        0 <= i <= s.len(),
    ensures
        expand(c, start, end, false, n, s, i) matches Ok(x) ==> x.len() == expanded_len(c, s, i),
    decreases s.len() - i,
{
    if i < s.len() {
        lemma_expand_len(c, start, end, n, s, i + 1);
        if i + 3 <= s.len() {
            lemma_expand_len(c, start, end, n, s, i + 3);
        }
    }
}

/// Without a `#` at the top level, an expansion has as many top-level tokens
/// as the body.
pub proof fn lemma_expanded_len_plain(c: Seq<char>, s: Seq<TokenV>, i: int)
    requires
        0 <= i <= s.len(),
        no_pound_from(s, i),
    ensures
        expanded_len(c, s, i) == s.len() - i,
    decreases s.len() - i,
{
    if i < s.len() {
        lemma_expanded_len_plain(c, s, i + 1);
        if i + 1 < s.len() {
            assert(!is_punct(s[i + 1], '#'));
        }
    }
}

/// Block `k` of `out`, cut in blocks of `size` tokens.
pub open spec fn block(out: Seq<TokenV>, size: int, k: int) -> Seq<TokenV> {
    out.subrange(k * size, k * size + size)
}

/// Repeating a body outside a repetition gives one block of `expanded_len`
/// tokens per counter value, in order: block `k` is the expansion of the body
/// for counter value `j + k`.
pub proof fn lemma_repeat_expansions(
    c: Seq<char>,
    start: u64,
    end: u64,
    s: Seq<TokenV>,
    j: u64,
)
    requires
        j <= end,
    ensures
        repeat_body(c, start, end, false, s, j) matches Ok(out) ==> {
            &&& out.len() == (end - j) * expanded_len(c, s, 0)
            &&& forall|k: int|
                0 <= k < end - j ==> expand(c, start, end, false, (j + k) as u64, s, 0) == Ok::<
                    Seq<TokenV>,
                    SeqError,
                >(#[trigger] block(out, expanded_len(c, s, 0) as int, k))
        },
    decreases end - j,
{
    let len = expanded_len(c, s, 0) as int;
    if j < end {
        lemma_repeat_expansions(c, start, end, s, (j + 1) as u64);
        lemma_expand_len(c, start, end, j, s, 0);
        if let Ok(out) = repeat_body(c, start, end, false, s, j) {
            let x = expand(c, start, end, false, j, s, 0).unwrap();
            let rest = repeat_body(c, start, end, false, s, (j + 1) as u64).unwrap();
            assert(out == x + rest);
            assert(x.len() == len);
            assert((end - j) * len == len + (end - (j + 1)) * len) by (nonlinear_arith);
            assert forall|k: int| 0 <= k < end - j implies expand(
                c,
                start,
                end,
                false,
                (j + k) as u64,
                s,
                0,
            ) == Ok::<Seq<TokenV>, SeqError>(#[trigger] block(out, len, k)) by {
                if k == 0 {
                    assert(block(out, len, 0) =~= x);
                } else {
                    assert(k * len == len + (k - 1) * len) by (nonlinear_arith);
                    assert((k - 1) * len + len <= (end - (j + 1)) * len) by (nonlinear_arith)
                        requires
                            1 <= k < end - j,
                            len >= 0,
                    ;
                    assert((k - 1) * len >= 0) by (nonlinear_arith)
                        requires
                            k >= 1,
                            len >= 0,
                    ;
                    assert(block(out, len, k) =~= block(rest, len, k - 1));
                    assert((j + 1 + (k - 1)) as u64 == (j + k) as u64);
                }
            }
        }
    } else {
        assert((end - j) * len == 0) by (nonlinear_arith)
            requires
                end - j == 0,
        ;
    }
}

/// Without a repetition in the body, `seq!` gives one block per counter value
/// of the range, in order: block `k` is the expansion of the body for counter
/// value `start + k`, and every block has `expanded_len` tokens.
pub proof fn lemma_seq_blocks(h: HeaderV)
    requires
        scan(h.body, 0) == Ok::<bool, SeqError>(false),
    ensures
        expansion(h) matches Ok(out) ==> {
            &&& h.start <= h.end ==> out.len() == (h.end - h.start) * expanded_len(
                h.counter,
                h.body,
                0,
            )
            &&& h.start > h.end ==> out.len() == 0
            &&& forall|k: int|
                0 <= k < h.end - h.start ==> expand(
                    h.counter,
                    h.start,
                    h.end,
                    false,
                    (h.start + k) as u64,
                    h.body,
                    0,
                ) == Ok::<Seq<TokenV>, SeqError>(
                    #[trigger] block(out, expanded_len(h.counter, h.body, 0) as int, k),
                )
        },
{
    if h.start <= h.end {
        lemma_repeat_expansions(h.counter, h.start, h.end, h.body, h.start);
    }
}

proof fn lemma_remove_index(f1: Seq<FlatV>, q: int)
    requires
        0 <= q < f1.len(),
    ensures
        f1.remove(q).len() == f1.len() - 1,
        forall|j: int| 0 <= j < q ==> #[trigger] f1.remove(q)[j] == f1[j],
        forall|j: int| q <= j < f1.len() - 1 ==> #[trigger] f1.remove(q)[j] == f1[j + 1],
{
}

proof fn lemma_visible_shifted(f1: Seq<FlatV>, q: int, p: int)
    requires
        0 <= q < f1.len(),
        p > q,
    ensures
        visible(f1.remove(q), p - 1) == visible(f1, p) - 1,
    decreases f1.len() - p,
{
    let f2 = f1.remove(q);
    lemma_remove_index(f1, q);
    if p < f1.len() && f1[p] is Enter {
        assert(f2[p - 1] == f1[p]);
        lemma_visible_shifted(f1, q, p + 1);
    } else if p < f1.len() {
        assert(f2[p - 1] == f1[p]);
    }
}

proof fn lemma_visible_before(f1: Seq<FlatV>, q: int, p: int)
    requires
        0 <= q < f1.len(),
        0 <= p,
        visible(f1, p) < q,
    ensures
        visible(f1.remove(q), p) == visible(f1, p),
    decreases f1.len() - p,
{
    let f2 = f1.remove(q);
    lemma_remove_index(f1, q);
    crate::seq_macro::lemma_visible(f1, p);
    if p < f1.len() && f1[p] is Enter {
        assert(f2[p] == f1[p]);
        lemma_visible_before(f1, q, p + 1);
    } else if p < f1.len() {
        assert(f2[p] == f1[p]);
    }
}

proof fn lemma_visible_across(f1: Seq<FlatV>, q: int, p: int)
    requires
        0 <= p <= q < f1.len(),
        visible(f1, p) == q,
    ensures
        visible(f1.remove(q), p) == visible(f1, q + 1) - 1,
    decreases q - p,
{
    let f2 = f1.remove(q);
    lemma_remove_index(f1, q);
    lemma_visible_shifted(f1, q, q + 1);
    if p < q {
        assert(f1[p] is Enter);
        assert(f2[p] == f1[p]);
        lemma_visible_across(f1, q, p + 1);
    }
}

proof fn lemma_tok_shifted(f1: Seq<FlatV>, q: int, p: int)
    requires
        0 <= q < f1.len(),
        p > q,
    ensures
        tok_at(f1.remove(q), p - 1) == tok_at(f1, p),
{
    lemma_visible_shifted(f1, q, p);
    lemma_remove_index(f1, q);
    crate::seq_macro::lemma_visible(f1, p);
    let v = visible(f1, p);
    if v < f1.len() {
        assert(f1.remove(q)[v - 1] == f1[v]);
    }
}

proof fn lemma_tok_before(f1: Seq<FlatV>, q: int, p: int)
    requires
        0 <= q < f1.len(),
        0 <= p,
        visible(f1, p) < q,
    ensures
        tok_at(f1.remove(q), p) == tok_at(f1, p),
{
    lemma_visible_before(f1, q, p);
    lemma_remove_index(f1, q);
    crate::seq_macro::lemma_visible(f1, p);
}

/// `N in a..=b { body }` reads as `N in a..c { body }` where `c` is `b + 1`:
/// taking the `=` of the range operator out of the entries, and reading the
/// end literal as one more, gives the same header.
pub proof fn lemma_inclusive_range(
    f1: Seq<FlatV>,
    counter_ok: bool,
    start_lit: IntLiteral,
    b: u64,
    k: int,
    eq: int,
)
    requires
        int_text_at(f1, after_in(f1)) matches Some((_, k0)) && k0 == k,
        range_at(f1, k) == Some((true, eq + 1)),
        int_text_at(f1, eq + 1) is Some,
        b < u64::MAX,
    ensures
        header_spec(f1, counter_ok, start_lit, IntLiteral::Value(b)) == header_spec(
            f1.remove(eq),
            counter_ok,
            start_lit,
            IntLiteral::Value((b + 1) as u64),
        ),
{
    let f2 = f1.remove(eq);
    crate::seq_macro::lemma_visible(f1, 0);
    let q0 = visible(f1, 0);
    crate::seq_macro::lemma_visible(f1, q0 + 1);
    let q1 = visible(f1, q0 + 1);
    let q = visible(f1, k);
    crate::seq_macro::lemma_visible(f1, k);
    crate::seq_macro::lemma_visible(f1, q + 1);
    let q2 = visible(f1, q + 1);
    crate::seq_macro::lemma_visible(f1, q2 + 1);
    assert(visible(f1, q2 + 1) == eq);
    crate::seq_macro::lemma_visible(f1, after_in(f1));
    let a = visible(f1, after_in(f1));
    crate::seq_macro::lemma_visible(f1, a + 1);
    lemma_remove_index(f1, eq);
    assert(q0 < q1);
    assert(q1 < a);
    assert(a < k);
    assert(k <= q);
    assert(q < q2);
    assert(q2 < eq);
    lemma_tok_before(f1, eq, 0);
    lemma_visible_before(f1, eq, 0);
    lemma_tok_before(f1, eq, q0 + 1);
    lemma_visible_before(f1, eq, q0 + 1);
    lemma_tok_before(f1, eq, after_in(f1));
    lemma_visible_before(f1, eq, after_in(f1));
    if tok_at(f1, after_in(f1)) matches Some(TokenV::Punct(_, _, _)) {
        crate::seq_macro::lemma_visible(f1, a + 1);
        lemma_tok_before(f1, eq, a + 1);
        lemma_visible_before(f1, eq, a + 1);
    }
    assert(counter_text(f2) == counter_text(f1));
    assert(after_in(f2) == after_in(f1));
    assert(int_text_at(f2, after_in(f2)) == int_text_at(f1, after_in(f1)));
    lemma_tok_before(f1, eq, k);
    lemma_visible_before(f1, eq, k);
    lemma_tok_before(f1, eq, q + 1);
    lemma_visible_before(f1, eq, q + 1);
    lemma_visible_across(f1, eq, q2 + 1);
    let e = visible(f1, eq + 1);
    crate::seq_macro::lemma_visible(f1, eq + 1);
    lemma_tok_shifted(f1, eq, eq + 1);
    assert(visible(f2, q2 + 1) == e - 1);
    assert(tok_at(f2, q2 + 1) == tok_at(f1, eq + 1));
    assert(range_at(f2, k) == Some((false, q2 + 1)));
    if e < f1.len() {
        lemma_tok_shifted(f1, eq, e + 1);
        lemma_visible_shifted(f1, eq, e + 1);
    }
    crate::seq_macro::lemma_visible(f1, e + 1);
    let (_, k5) = int_text_at(f1, eq + 1).unwrap();
    assert(k5 > eq);
    assert(int_text_at(f2, q2 + 1) == Some((int_text_at(f1, eq + 1).unwrap().0, k5 - 1)));
    lemma_tok_shifted(f1, eq, k5);
    if k5 < f1.len() {
        assert(f2[k5 - 1] == f1[k5]);
    }
    if let Some((_, after)) = body_at(f1, k5) {
        lemma_visible_shifted(f1, eq, after);
        assert(body_at(f2, k5 - 1) == Some((body_at(f1, k5).unwrap().0, after - 1)));
    } else {
        assert(body_at(f2, k5 - 1) is None);
    }
}


/// Token trees with no group of invisible delimiters at the top level are
/// their own entries.
proof fn lemma_entries_plain(s: Seq<TokenV>)
    requires
        forall|k: int| 0 <= k < s.len() ==> !(#[trigger] s[k] matches TokenV::Group(
            Delimiter::Invisible,
            _,
        )),
    ensures
        entries(s) == s.map_values(|t: TokenV| FlatV::Tok(t)),
    decreases s.len(),
{
    if s.len() > 0 {
        let s0 = s.drop_last();
        assert forall|k: int| 0 <= k < s0.len() implies !(#[trigger] s0[k] matches TokenV::Group(
            Delimiter::Invisible,
            _,
        )) by {
            assert(s0[k] == s[k]);
        }
        lemma_entries_plain(s0);
        assert(!(s[s.len() - 1] matches TokenV::Group(Delimiter::Invisible, _)));
        assert(s.map_values(|t: TokenV| FlatV::Tok(t)) =~= s0.map_values(|t: TokenV| FlatV::Tok(t)).push(
            FlatV::Tok(s.last()),
        ));
    } else {
        assert(s.map_values(|t: TokenV| FlatV::Tok(t)) =~= Seq::<FlatV>::empty());
    }
}

/// `counter in start..=end { body }`, every token with span `sp`.
pub open spec fn inclusive_input(
    counter: Seq<char>,
    start: Seq<char>,
    end: Seq<char>,
    body: Seq<TokenV>,
    sp: SpanRef,
) -> Seq<TokenV> {
    seq![
        TokenV::Ident(counter, sp),
        TokenV::Ident(seq!['i', 'n'], sp),
        TokenV::Literal(start, sp),
        TokenV::Punct('.', Spacing::Joint, sp),
        TokenV::Punct('.', Spacing::Joint, sp),
        TokenV::Punct('=', Spacing::Alone, sp),
        TokenV::Literal(end, sp),
        TokenV::Group(Delimiter::Brace, body),
    ]
}

/// `counter in start..end { body }`, every token with span `sp`.
pub open spec fn exclusive_input(
    counter: Seq<char>,
    start: Seq<char>,
    end: Seq<char>,
    body: Seq<TokenV>,
    sp: SpanRef,
) -> Seq<TokenV> {
    seq![
        TokenV::Ident(counter, sp),
        TokenV::Ident(seq!['i', 'n'], sp),
        TokenV::Literal(start, sp),
        TokenV::Punct('.', Spacing::Joint, sp),
        TokenV::Punct('.', Spacing::Alone, sp),
        TokenV::Literal(end, sp),
        TokenV::Group(Delimiter::Brace, body),
    ]
}

/// `N in a..=b { body }` reads as `N in a..c { body }` wherever `syn` reads
/// the literal `c` as one more than `b`: the same counter, start and body,
/// and the same end, `b + 1`, or the same error; and both are read without
/// error where `syn` accepts the counter and reads the start as a `u64`.
pub proof fn lemma_inclusive_as_exclusive(
    counter: Seq<char>,
    start: Seq<char>,
    b: Seq<char>,
    c: Seq<char>,
    body: Seq<TokenV>,
    sp: SpanRef,
    bv: u64,
)
    requires
        b.len() > 0 && '0' <= b[0] && b[0] <= '9',
        c.len() > 0 && '0' <= c[0] && c[0] <= '9',
        syn_int_literal(b) == IntLiteral::Value(bv),
        bv < u64::MAX,
        syn_int_literal(c) == IntLiteral::Value((bv + 1) as u64),
    ensures
        parse_header_spec(inclusive_input(counter, start, b, body, sp)) == parse_header_spec(
            exclusive_input(counter, start, c, body, sp),
        ),
        parse_header_spec(inclusive_input(counter, start, b, body, sp)) matches Ok(h) ==> {
            &&& h.counter == counter
            &&& h.end == bv + 1
            &&& h.body == body
        },
        syn_accepts_ident(counter) && start.len() > 0 && '0' <= start[0] && start[0] <= '9'
            && syn_int_literal(start) is Value ==> parse_header_spec(
            inclusive_input(counter, start, b, body, sp),
        ) is Ok,
{
    let s1 = inclusive_input(counter, start, b, body, sp);
    let s2 = exclusive_input(counter, start, c, body, sp);
    lemma_entries_plain(s1);
    lemma_entries_plain(s2);
    let f1 = entries(s1);
    let f2 = entries(s2);
    assert(f1.len() == 8);
    assert(f2.len() == 7);
    assert forall|p: int| 0 <= p <= 8 implies visible(f1, p) == p by {
        if p < 8 {
            assert(f1[p] == FlatV::Tok(s1[p]));
        }
    }
    assert forall|p: int| 0 <= p <= 7 implies visible(f2, p) == p by {
        if p < 7 {
            assert(f2[p] == FlatV::Tok(s2[p]));
        }
    }
    assert(f1[7] == FlatV::Tok(s1[7]));
    assert(f2[6] == FlatV::Tok(s2[6]));
    assert(tok_at(f1, 0) == Some(s1[0]));
    assert(tok_at(f2, 0) == Some(s2[0]));
    assert(after_in(f1) == 2);
    assert(after_in(f2) == 2);
    assert(tok_at(f1, 2) == Some(s1[2]));
    assert(tok_at(f2, 2) == Some(s2[2]));
    assert(int_text_at(f1, 2) == Some((start, 3int)));
    assert(int_text_at(f2, 2) == Some((start, 3int)));
    assert(tok_at(f1, 3) == Some(s1[3]));
    assert(tok_at(f1, 4) == Some(s1[4]));
    assert(tok_at(f1, 5) == Some(s1[5]));
    assert(range_at(f1, 3) == Some((true, 6int)));
    assert(tok_at(f2, 3) == Some(s2[3]));
    assert(tok_at(f2, 4) == Some(s2[4]));
    assert(range_at(f2, 3) == Some((false, 5int)));
    assert(tok_at(f1, 6) == Some(s1[6]));
    assert(tok_at(f2, 5) == Some(s2[5]));
    assert(int_text_at(f1, 6) == Some((b, 7int)));
    assert(int_text_at(f2, 5) == Some((c, 6int)));
    assert(tok_at(f1, 7) == Some(s1[7]));
    assert(tok_at(f2, 6) == Some(s2[6]));
    assert(body_at(f1, 7) == Some((body, 8int)));
    assert(body_at(f2, 6) == Some((body, 7int)));
}


/// `s[i..]` holds no `#`, at any depth.
pub open spec fn pound_free(s: Seq<TokenV>, i: int) -> bool
    decreases s, s.len() - i,
{
    if i < 0 || i >= s.len() {
        true
    } else {
        &&& match s[i] {
            TokenV::Punct(p, _, _) => p != '#',
            TokenV::Group(_, inner) => pound_free(inner, 0),
            _ => true,
        }
        &&& pound_free(s, i + 1)
    }
}

/// Tokens with no `#` at any depth hold no repetition and no malformed `#`.
pub proof fn lemma_scan_pound_free(s: Seq<TokenV>, i: int)
    requires
        0 <= i <= s.len(),
        pound_free(s, i),
    ensures
        scan(s, i) == Ok::<bool, SeqError>(false),
    decreases s, s.len() - i,
{
    if i < s.len() {
        lemma_scan_pound_free(s, i + 1);
        if let TokenV::Group(_, inner) = s[i] {
            lemma_scan_pound_free(inner, 0);
        }
    }
}

proof fn lemma_scan_shift(p: Seq<TokenV>, t: Seq<TokenV>, j: int)
    requires
        0 <= j <= t.len(),
    ensures
        scan(p + t, p.len() + j) == scan(t, j),
    decreases t.len() - j,
{
    let s = p + t;
    if j < t.len() {
        lemma_scan_shift(p, t, j + 1);
        if j + 2 <= t.len() {
            lemma_scan_shift(p, t, j + 2);
        }
        assert(s[p.len() + j] == t[j]);
        if j + 1 < t.len() {
            assert(s[p.len() + j + 1] == t[j + 1]);
        }
        if j + 2 < t.len() {
            assert(s[p.len() + j + 2] == t[j + 2]);
        }
    }
}

proof fn lemma_scan_skips_from(p: Seq<TokenV>, t: Seq<TokenV>, i: int)
    requires
        0 <= i <= p.len(),
        pound_free(p, i),
    ensures
        scan(p + t, i) == scan(t, 0),
    decreases p.len() - i,
{
    if i < p.len() {
        lemma_scan_skips_from(p, t, i + 1);
        assert((p + t)[i] == p[i]);
        if let TokenV::Group(_, inner) = p[i] {
            lemma_scan_pound_free(inner, 0);
        }
    } else {
        lemma_scan_shift(p, t, 0);
    }
}

/// Looking for a repetition passes over tokens that hold no `#`, groups
/// included: what it finds in `p + t` is what it finds in `t`.
pub proof fn lemma_scan_skips_plain(p: Seq<TokenV>, t: Seq<TokenV>)
    requires
        pound_free(p, 0),
    ensures
        scan(p + t, 0) == scan(t, 0),
{
    lemma_scan_skips_from(p, t, 0);
}

/// A `#( ... )*` after tokens that hold no `#` is found, whatever follows it.
pub proof fn lemma_scan_finds_repetition(
    p: Seq<TokenV>,
    pound: TokenV,
    body: Seq<TokenV>,
    star: TokenV,
    r: Seq<TokenV>,
)
    requires
        pound_free(p, 0),
        is_punct(pound, '#'),
        is_punct(star, '*'),
    ensures
        scan(p + (seq![pound, TokenV::Group(Delimiter::Parenthesis, body), star] + r), 0)
            == Ok::<bool, SeqError>(true),
{
    let t = seq![pound, TokenV::Group(Delimiter::Parenthesis, body), star] + r;
    lemma_scan_skips_plain(p, t);
    assert(t[0] == pound);
    assert(t[1] == TokenV::Group(Delimiter::Parenthesis, body));
    assert(t[2] == star);
}

/// A group that holds a repetition, after tokens that hold no `#`, makes the
/// whole hold one, whatever follows it.
pub proof fn lemma_scan_finds_nested(
    p: Seq<TokenV>,
    d: Delimiter,
    inner: Seq<TokenV>,
    r: Seq<TokenV>,
)
    requires
        pound_free(p, 0),
        scan(inner, 0) == Ok::<bool, SeqError>(true),
    ensures
        scan(p + (seq![TokenV::Group(d, inner)] + r), 0) == Ok::<bool, SeqError>(true),
{
    let t = seq![TokenV::Group(d, inner)] + r;
    lemma_scan_skips_plain(p, t);
    assert(t[0] == TokenV::Group(d, inner));
}

/// `s[i..]` holds, at no depth, the counter `c` or a `#` that starts a
/// repetition or ends its group, and no identifier in it is directly followed
/// by `#`.
pub open spec fn untouched_rep_from(c: Seq<char>, s: Seq<TokenV>, i: int) -> bool
    decreases s, s.len() - i,
{
    if i < 0 || i >= s.len() {
        true
    } else {
        &&& match s[i] {
            TokenV::Ident(id, _) => id != c && !(i + 1 < s.len() && is_punct(s[i + 1], '#')),
            TokenV::Punct(p, _, _) => p == '#' ==> (i + 1 < s.len() && !(s[i + 1] matches TokenV::Group(
                d,
                _,
            ) && d == Delimiter::Parenthesis)),
            TokenV::Group(_, inner) => untouched_rep_from(c, inner, 0),
            _ => true,
        }
        &&& untouched_rep_from(c, s, i + 1)
    }
}

/// In a body that holds a repetition, tokens in which the counter does not
/// occur, no identifier is followed by `#`, and every `#` is followed by
/// something other than a parenthesised group (an attribute's `#[...]`, say)
/// come out of the expansion unchanged, `#` included.
pub proof fn lemma_expand_unchanged_rep(
    c: Seq<char>,
    start: u64,
    end: u64,
    n: u64,
    s: Seq<TokenV>,
    i: int,
)
    requires
        0 <= i <= s.len(),
        untouched_rep_from(c, s, i),
    ensures
        expand(c, start, end, true, n, s, i) == Ok::<Seq<TokenV>, SeqError>(s.skip(i)),
    decreases s, s.len() - i,
{
    if i < s.len() {
        lemma_expand_unchanged_rep(c, start, end, n, s, i + 1);
        if let TokenV::Group(d, inner) = s[i] {
            lemma_expand_unchanged_rep(c, start, end, n, inner, 0);
            assert(inner.skip(0) =~= inner);
        }
        assert(seq![s[i]] + s.skip(i + 1) =~= s.skip(i));
    } else {
        assert(s.skip(i) =~= Seq::<TokenV>::empty());
    }
}

/// `ident # counter` expands, for counter value `n`, to one identifier: `ident`
/// followed by the decimal digits of `n`, which read back as `n`. So the names
/// pasted for two counter values differ.
pub proof fn lemma_paste_counter(
    c: Seq<char>,
    start: u64,
    end: u64,
    rep: bool,
    n: u64,
    s: Seq<TokenV>,
    i: int,
    id: Seq<char>,
)
    requires
        0 <= i,
        i + 2 < s.len(),
        s[i] matches TokenV::Ident(t, _) && t == id,
        id != c,
        is_punct(s[i + 1], '#'),
        s[i + 2] matches TokenV::Ident(t, _) && t == c,
    ensures
        expand(c, start, end, rep, n, s, i) matches Ok(x) ==> {
            &&& x.len() > 0
            &&& x[0] matches TokenV::Ident(name, _) && {
                &&& name.len() > id.len()
                &&& name.take(id.len() as int) == id
                &&& forall|k: int| id.len() <= k < name.len() ==> '0' <= #[trigger] name[k] <= '9'
                &&& digits_value(name.skip(id.len() as int)) == n
            }
        },
{
    lemma_decimal_digits(n as nat);
    lemma_decimal_value(n as nat);
    let name = id + decimal(n as nat);
    assert(name.take(id.len() as int) =~= id);
    assert(name.skip(id.len() as int) =~= decimal(n as nat));
    assert forall|k: int| id.len() <= k < name.len() implies '0' <= #[trigger] name[k] <= '9' by {
        assert(name[k] == decimal(n as nat)[k - id.len()]);
    }
}


/// The counter expands, for counter value `n`, to a literal whose text is the
/// decimal digits of `n`.
pub proof fn lemma_counter_reads_value(
    c: Seq<char>,
    start: u64,
    end: u64,
    rep: bool,
    n: u64,
    s: Seq<TokenV>,
    i: int,
)
    requires
        0 <= i < s.len(),
        s[i] matches TokenV::Ident(t, _) && t == c,
    ensures
        expand(c, start, end, rep, n, s, i) matches Ok(x) ==> {
            &&& x.len() > 0
            &&& x[0] matches TokenV::Literal(t, _) && {
                &&& t.len() > 0
                &&& forall|k: int| 0 <= k < t.len() ==> '0' <= #[trigger] t[k] <= '9'
                &&& digits_value(t) == n
            }
        },
{
    lemma_decimal_digits(n as nat);
    lemma_decimal_value(n as nat);
}

/// With a repetition in the body, the counter outside `#( ... )*` reads 0.
pub proof fn lemma_counter_outside_repetition(h: HeaderV)
    requires
        scan(h.body, 0) == Ok::<bool, SeqError>(true),
        h.body.len() > 0,
        h.body[0] matches TokenV::Ident(t, _) && t == h.counter,
    ensures
        expansion(h) matches Ok(x) ==> {
            &&& x.len() > 0
            &&& x[0] matches TokenV::Literal(t, _) && digits_value(t) == 0
        },
{
    lemma_counter_reads_value(h.counter, h.start, h.end, true, 0, h.body, 0);
}

/// `#( g )*` (with no `#` at the top level of `g`) expands to one block of
/// `g`'s length for each counter value from `start` up to `end`, in order:
/// block `k` is `g` with the counter read as `start + k`.
pub proof fn lemma_repetition_section(
    c: Seq<char>,
    start: u64,
    end: u64,
    n: u64,
    pound: TokenV,
    g: Seq<TokenV>,
    star: TokenV,
    r: Seq<TokenV>,
)
    requires
        is_punct(pound, '#'),
        is_punct(star, '*'),
        no_pound_from(g, 0),
        start <= end,
    ensures
        expand(
            c,
            start,
            end,
            true,
            n,
            seq![pound, TokenV::Group(Delimiter::Parenthesis, g), star] + r,
            0,
        ) matches Ok(x) ==> {
            &&& x.len() >= (end - start) * g.len()
            &&& forall|k: int, i: int|
                0 <= k < end - start && 0 <= i < g.len() ==> #[trigger] x[k * g.len() + i]
                    == substitute(c, start, end, true, (start + k) as u64, #[trigger] g[i])
        },
{
    let s = seq![pound, TokenV::Group(Delimiter::Parenthesis, g), star] + r;
    assert(s[0] == pound);
    assert(s[1] == TokenV::Group(Delimiter::Parenthesis, g));
    assert(s[2] == star);
    lemma_repeat_blocks(c, start, end, true, g, start);
    if let Ok(x) = expand(c, start, end, true, n, s, 0) {
        let y = repeat_body(c, start, end, true, g, start).unwrap();
        let rest = expand(c, start, end, true, n, s, 3).unwrap();
        assert(x == y + rest);
        assert forall|k: int, i: int|
            0 <= k < end - start && 0 <= i < g.len() implies #[trigger] x[k * g.len() + i]
                == substitute(c, start, end, true, (start + k) as u64, #[trigger] g[i]) by {
            assert(k * g.len() + i < (end - start) * g.len()) by (nonlinear_arith)
                requires
                    0 <= k < end - start,
                    0 <= i < g.len(),
            ;
        }
    }
}


/// A `#` that ends the body, after tokens that hold no `#`, is refused as
/// dangling; a `#( ... )` followed by anything but `*` is refused as missing
/// its `*`.
pub proof fn lemma_scan_malformed_pounds(
    p: Seq<TokenV>,
    pound: TokenV,
    body: Seq<TokenV>,
    next: TokenV,
    r: Seq<TokenV>,
)
    requires
        pound_free(p, 0),
        is_punct(pound, '#'),
        !is_punct(next, '*'),
    ensures
        scan(p + seq![pound], 0) == Err::<bool, SeqError>(SeqError::DanglingPound),
        scan(p + seq![pound, TokenV::Group(Delimiter::Parenthesis, body)], 0) == Err::<bool, SeqError>(
            SeqError::MissingStar,
        ),
        scan(p + (seq![pound, TokenV::Group(Delimiter::Parenthesis, body), next] + r), 0) == Err::<
            bool,
            SeqError,
        >(SeqError::MissingStar),
{
    lemma_scan_skips_plain(p, seq![pound]);
    let t2 = seq![pound, TokenV::Group(Delimiter::Parenthesis, body)];
    lemma_scan_skips_plain(p, t2);
    let t3 = seq![pound, TokenV::Group(Delimiter::Parenthesis, body), next] + r;
    lemma_scan_skips_plain(p, t3);
    assert(t3[0] == pound);
    assert(t3[1] == TokenV::Group(Delimiter::Parenthesis, body));
    assert(t3[2] == next);
}


/// `N in a..b { body }` reads as the header with counter `N`, the start and
/// end that `syn` reads from `a` and `b`, and `body`, wherever `syn` accepts
/// `N` and reads both literals as `u64` values.
pub proof fn lemma_exclusive_header(
    counter: Seq<char>,
    start: Seq<char>,
    end: Seq<char>,
    body: Seq<TokenV>,
    sp: SpanRef,
    av: u64,
    bv: u64,
)
    requires
        syn_accepts_ident(counter),
        start.len() > 0 && '0' <= start[0] && start[0] <= '9',
        end.len() > 0 && '0' <= end[0] && end[0] <= '9',
        syn_int_literal(start) == IntLiteral::Value(av),
        syn_int_literal(end) == IntLiteral::Value(bv),
    ensures
        parse_header_spec(exclusive_input(counter, start, end, body, sp)) == Ok::<HeaderV, SeqError>(
            HeaderV { counter, start: av, end: bv, body },
        ),
{
    let s2 = exclusive_input(counter, start, end, body, sp);
    lemma_entries_plain(s2);
    let f2 = entries(s2);
    assert(f2.len() == 7);
    assert forall|p: int| 0 <= p <= 7 implies visible(f2, p) == p by {
        if p < 7 {
            assert(f2[p] == FlatV::Tok(s2[p]));
        }
    }
    assert(f2[6] == FlatV::Tok(s2[6]));
    assert(tok_at(f2, 0) == Some(s2[0]));
    assert(after_in(f2) == 2);
    assert(tok_at(f2, 2) == Some(s2[2]));
    assert(int_text_at(f2, 2) == Some((start, 3int)));
    assert(tok_at(f2, 3) == Some(s2[3]));
    assert(tok_at(f2, 4) == Some(s2[4]));
    assert(range_at(f2, 3) == Some((false, 5int)));
    assert(tok_at(f2, 5) == Some(s2[5]));
    assert(int_text_at(f2, 5) == Some((end, 6int)));
    assert(tok_at(f2, 6) == Some(s2[6]));
    assert(body_at(f2, 6) == Some((body, 7int)));
}

} // verus!
