//! Token trees whose source text lexes back to the same tokens, none of them a
//! literal of a kind that `syn` does not know (a C string such as `c"x"`).
use vstd::prelude::*;
use vstd::string::StrSliceExecFns;
use crate::tokens::{
    Delimiter, Spacing, Token, TokenV, lemma_tokens_view_index, token_view, tokens_view,
};

verus! {

pub open spec fn is_digit(c: char) -> bool {
    '0' <= c && c <= '9'
}

/// A character of a literal's suffix: an ASCII letter, a digit or `_`.
pub open spec fn is_suffix_char(c: char) -> bool {
    ('a' <= c && c <= 'z') || ('A' <= c && c <= 'Z') || is_digit(c) || c == '_'
}

/// A character of an identifier's text: a suffix character, `#` (of `r#`) or
/// any character outside ASCII.
pub open spec fn is_word_char(c: char) -> bool {
    is_suffix_char(c) || c == '#' || (c as u32) > 0x7f
}

/// A character of a number literal after its first.
pub open spec fn is_number_char(c: char) -> bool {
    is_suffix_char(c) || c == '.' || c == '+' || c == '-'
}

/// A character that a punctuation token can be.
pub open spec fn is_punct_char(c: char) -> bool {
    ||| c == '~' || c == '!' || c == '@' || c == '#' || c == '$' || c == '%' || c == '^'
    ||| c == '&' || c == '*' || c == '-' || c == '=' || c == '+' || c == '|' || c == ';'
    ||| c == ':' || c == ',' || c == '<' || c == '.' || c == '>' || c == '/' || c == '?'
    ||| c == '\''
}

/// Every character of `t[i..]` is a suffix character.
pub open spec fn suffix_from(t: Seq<char>, i: int) -> bool {
    forall|k: int| i <= k < t.len() ==> is_suffix_char(#[trigger] t[k])
}

/// The quote that closes a string whose contents start at `i`: the first `"`
/// that no backslash escapes.
pub open spec fn cooked_close(t: Seq<char>, i: int) -> Option<int>
    decreases t.len() - i,
{
    if i < 0 || i >= t.len() {
        None
    } else if t[i] == '"' {
        Some(i)
    } else if t[i] == '\\' {
        if i + 1 < t.len() {
            cooked_close(t, i + 2)
        } else {
            None
        }
    } else {
        cooked_close(t, i + 1)
    }
}

/// The number of `#` at `t[p..]`.
pub open spec fn count_hashes(t: Seq<char>, p: int) -> nat
    decreases t.len() - p,
{
    if 0 <= p < t.len() && t[p] == '#' {
        1 + count_hashes(t, p + 1)
    } else {
        0
    }
}

/// `t[p..p + h]` are `#`.
pub open spec fn hashes_at(t: Seq<char>, p: int, h: int) -> bool {
    0 <= p && p + h <= t.len() && forall|m: int| p <= m < p + h ==> #[trigger] t[m] == '#'
}

/// The quote that closes a raw string with `h` hashes, searched from `j`.
pub open spec fn raw_close(t: Seq<char>, j: int, h: int) -> Option<int>
    decreases t.len() - j,
{
    if j < 0 || j >= t.len() {
        None
    } else if t[j] == '"' && hashes_at(t, j + 1, h) {
        Some(j)
    } else {
        raw_close(t, j + 1, h)
    }
}

/// A string whose opening quote is at `p`, closed and followed by a suffix.
pub open spec fn cooked_ok(t: Seq<char>, p: int) -> bool {
    match cooked_close(t, p + 1) {
        Some(e) => suffix_from(t, e + 1),
        None => false,
    }
}

/// A raw string whose hashes start at `p`, closed and followed by a suffix.
pub open spec fn raw_ok(t: Seq<char>, p: int) -> bool {
    let h = count_hashes(t, p) as int;
    let q = p + h;
    &&& 0 <= q < t.len()
    &&& t[q] == '"'
    &&& match raw_close(t, q + 1, h) {
        Some(e) => suffix_from(t, e + 1 + h),
        None => false,
    }
}

/// The first `'` at or after `i`.
pub open spec fn find_quote(t: Seq<char>, i: int) -> Option<int>
    decreases t.len() - i,
{
    if i < 0 || i >= t.len() {
        None
    } else if t[i] == '\'' {
        Some(i)
    } else {
        find_quote(t, i + 1)
    }
}

/// A character literal whose opening `'` is at `p`, closed and followed by a
/// suffix.
pub open spec fn char_ok(t: Seq<char>, p: int) -> bool {
    if p + 1 < t.len() && t[p + 1] == '\\' {
        match find_quote(t, p + 3) {
            Some(e) => suffix_from(t, e + 1),
            None => false,
        }
    } else {
        p + 2 < t.len() && t[p + 1] != '\'' && t[p + 2] == '\'' && suffix_from(t, p + 3)
    }
}

/// A number: a digit (or `-` and a digit) and then number characters.
pub open spec fn number_ok(t: Seq<char>) -> bool {
    &&& t.len() > 0
    &&& is_digit(t[0]) || (t[0] == '-' && t.len() > 1 && is_digit(t[1]))
    &&& forall|k: int| 1 <= k < t.len() ==> is_number_char(#[trigger] t[k])
}

/// `t` is one literal of a kind that `syn` knows: a string, a raw string, a
/// byte string, a character, a byte or a number, each with its suffix.
pub open spec fn known_literal(t: Seq<char>) -> bool {
    if t.len() == 0 {
        false
    } else if t[0] == '"' {
        cooked_ok(t, 0)
    } else if t[0] == 'r' {
        raw_ok(t, 1)
    } else if t[0] == 'b' {
        t.len() > 1 && if t[1] == '"' {
            cooked_ok(t, 1)
        } else if t[1] == 'r' {
            raw_ok(t, 2)
        } else if t[1] == '\'' {
            char_ok(t, 1)
        } else {
            false
        }
    } else if t[0] == '\'' {
        char_ok(t, 0)
    } else {
        number_ok(t)
    }
}

/// An identifier's text: not empty, and made of word characters only.
pub open spec fn word_ok(t: Seq<char>) -> bool {
    t.len() > 0 && forall|k: int| 0 <= k < t.len() ==> is_word_char(#[trigger] t[k])
}

/// The punctuation at `s[i]` is one that lexes alone: a `'` is joined to an
/// identifier (a lifetime), and a joined `/` is not followed by `/`, `*` or a
/// group of invisible delimiters (which could start a comment).
pub open spec fn punct_ok(s: Seq<TokenV>, i: int, c: char, sp: Spacing) -> bool {
    &&& is_punct_char(c)
    &&& c == '\'' ==> sp == Spacing::Joint && i + 1 < s.len() && s[i + 1] is Ident
    &&& (c == '/' && sp == Spacing::Joint && i + 1 < s.len()) ==> {
        &&& !(s[i + 1] matches TokenV::Group(d, _) && d == Delimiter::Invisible)
        &&& !(s[i + 1] matches TokenV::Punct(n, _, _) && (n == '/' || n == '*'))
    }
}

/// The source text of `s[i..]` lexes back to its tokens: every identifier and
/// punctuation is plain, and every literal is one literal of a kind that `syn`
/// knows, at any depth.
pub open spec fn lex_safe_from(s: Seq<TokenV>, i: int) -> bool
    decreases s, s.len() - i,
{
    if i < 0 || i >= s.len() {
        true
    } else {
        &&& match s[i] {
            TokenV::Ident(t, _) => word_ok(t),
            TokenV::Punct(c, sp, _) => punct_ok(s, i, c, sp),
            TokenV::Literal(t, _) => known_literal(t),
            TokenV::Group(_, inner) => lex_safe_from(inner, 0),
        }
        &&& lex_safe_from(s, i + 1)
    }
}

pub open spec fn lex_safe(s: Seq<TokenV>) -> bool {
    lex_safe_from(s, 0)
}

/// The characters of `s`.
pub fn chars_of(s: &String) -> (v: Vec<char>)
    ensures
        v@ == s@,
{
    let st = s.as_str();
    let n = st.unicode_len();
    let mut v: Vec<char> = Vec::new();
    let mut i: usize = 0;
    while i < n
        invariant
            i <= n,
            n == st@.len(),
            st@ == s@,
            v@ == st@.take(i as int),
        decreases n - i,
    {
        let c = st.get_char(i);
        v.push(c);
        i += 1;
        assert(v@ =~= st@.take(i as int));
    }
    assert(st@.take(n as int) =~= st@);
    v
}

fn is_digit_exec(c: char) -> (r: bool)
    ensures
        r == is_digit(c),
{
    '0' <= c && c <= '9'
}

fn is_suffix_char_exec(c: char) -> (r: bool)
    ensures
        r == is_suffix_char(c),
{
    ('a' <= c && c <= 'z') || ('A' <= c && c <= 'Z') || is_digit_exec(c) || c == '_'
}

fn is_word_char_exec(c: char) -> (r: bool)
    ensures
        r == is_word_char(c),
{
    is_suffix_char_exec(c) || c == '#' || (c as u32) > 0x7f
}

fn is_number_char_exec(c: char) -> (r: bool)
    ensures
        r == is_number_char(c),
{
    is_suffix_char_exec(c) || c == '.' || c == '+' || c == '-'
}

fn is_punct_char_exec(c: char) -> (r: bool)
    ensures
        r == is_punct_char(c),
{
    c == '~' || c == '!' || c == '@' || c == '#' || c == '$' || c == '%' || c == '^' || c == '&'
        || c == '*' || c == '-' || c == '=' || c == '+' || c == '|' || c == ';' || c == ':' || c
        == ',' || c == '<' || c == '.' || c == '>' || c == '/' || c == '?' || c == '\''
}

fn suffix_from_exec(t: &Vec<char>, i: usize) -> (r: bool)
    ensures
        r == suffix_from(t@, i as int),
{
    let mut k: usize = i;
    while k < t.len()
        invariant
            i <= k || t.len() <= k,
            forall|m: int| i <= m < k && m < t.len() ==> is_suffix_char(#[trigger] t@[m]),
        decreases t.len() - k,
    {
        if !is_suffix_char_exec(t[k]) {
            assert(!is_suffix_char(t@[k as int]));
            return false;
        }
        k += 1;
    }
    true
}

fn cooked_close_exec(t: &Vec<char>, i: usize) -> (r: Option<usize>)
    ensures
        match r {
            Some(e) => cooked_close(t@, i as int) == Some(e as int) && e < t.len(),
            None => cooked_close(t@, i as int) is None,
        },
{
    let mut j: usize = i;
    while j < t.len()
        invariant
            cooked_close(t@, i as int) == cooked_close(t@, j as int),
        decreases t.len() - j,
    {
        if t[j] == '"' {
            return Some(j);
        } else if t[j] == '\\' {
            if j + 1 < t.len() {
                j += 2;
            } else {
                return None;
            }
        } else {
            j += 1;
        }
    }
    None
}

fn count_hashes_exec(t: &Vec<char>, p: usize) -> (r: usize)
    ensures
        r == count_hashes(t@, p as int),
        p + r <= t.len() || r == 0,
{
    let mut k: usize = p;
    while k < t.len() && t[k] == '#'
        invariant
            p <= k,
            k <= t.len() || k == p,
            count_hashes(t@, p as int) == (k - p) + count_hashes(t@, k as int),
        decreases t.len() - k,
    {
        k += 1;
    }
    k - p
}

fn hashes_at_exec(t: &Vec<char>, p: usize, h: usize) -> (r: bool)
    ensures
        r == hashes_at(t@, p as int, h as int),
{
    if h > t.len() || p > t.len() - h {
        return false;
    }
    let mut m: usize = p;
    while m < p + h
        invariant
            p <= m <= p + h,
            p + h <= t.len(),
            forall|k: int| p <= k < m ==> #[trigger] t@[k] == '#',
        decreases p + h - m,
    {
        if t[m] != '#' {
            return false;
        }
        m += 1;
    }
    true
}

fn raw_close_exec(t: &Vec<char>, j: usize, h: usize) -> (r: Option<usize>)
    ensures
        match r {
            Some(e) => raw_close(t@, j as int, h as int) == Some(e as int) && e < t.len()
                && hashes_at(t@, e + 1, h as int),
            None => raw_close(t@, j as int, h as int) is None,
        },
{
    let mut k: usize = j;
    while k < t.len()
        invariant
            raw_close(t@, j as int, h as int) == raw_close(t@, k as int, h as int),
        decreases t.len() - k,
    {
        if t[k] == '"' && k + 1 <= t.len() && hashes_at_exec(t, k + 1, h) {
            return Some(k);
        }
        k += 1;
    }
    None
}

fn find_quote_exec(t: &Vec<char>, i: usize) -> (r: Option<usize>)
    ensures
        match r {
            Some(e) => find_quote(t@, i as int) == Some(e as int) && e < t.len(),
            None => find_quote(t@, i as int) is None,
        },
{
    let mut k: usize = i;
    while k < t.len()
        invariant
            find_quote(t@, i as int) == find_quote(t@, k as int),
        decreases t.len() - k,
    {
        if t[k] == '\'' {
            return Some(k);
        }
        k += 1;
    }
    None
}

fn cooked_ok_exec(t: &Vec<char>, p: usize) -> (r: bool)
    requires
        p < t.len(),
    ensures
        r == cooked_ok(t@, p as int),
{
    match cooked_close_exec(t, p + 1) {
        Some(e) => suffix_from_exec(t, e + 1),
        None => false,
    }
}

fn raw_ok_exec(t: &Vec<char>, p: usize) -> (r: bool)
    requires
        p <= t.len(),
    ensures
        r == raw_ok(t@, p as int),
{
    let h = count_hashes_exec(t, p);
    let q = p + h;
    if q >= t.len() || t[q] != '"' {
        return false;
    }
    match raw_close_exec(t, q + 1, h) {
        Some(e) => {
            if h > t.len() - e - 1 {
                proof {
                    assert(hashes_at(t@, e + 1, h as int));
                }
                false
            } else {
                suffix_from_exec(t, e + 1 + h)
            }
        },
        None => false,
    }
}

fn char_ok_exec(t: &Vec<char>, p: usize) -> (r: bool)
    requires
        p < t.len(),
    ensures
        r == char_ok(t@, p as int),
{
    if p + 1 < t.len() && t[p + 1] == '\\' {
        if t.len() - p < 3 {
            return false;
        }
        match find_quote_exec(t, p + 3) {
            Some(e) => suffix_from_exec(t, e + 1),
            None => false,
        }
    } else {
        t.len() - p > 2 && t[p + 1] != '\'' && t[p + 2] == '\'' && suffix_from_exec(t, p + 3)
    }
}

fn number_ok_exec(t: &Vec<char>) -> (r: bool)
    ensures
        r == number_ok(t@),
{
    if t.len() == 0 {
        return false;
    }
    if !(is_digit_exec(t[0]) || (t[0] == '-' && t.len() > 1 && is_digit_exec(t[1]))) {
        return false;
    }
    let mut k: usize = 1;
    while k < t.len()
        invariant
            1 <= k,
            forall|m: int| 1 <= m < k && m < t.len() ==> is_number_char(#[trigger] t@[m]),
        decreases t.len() - k,
    {
        if !is_number_char_exec(t[k]) {
            assert(!is_number_char(t@[k as int]));
            return false;
        }
        k += 1;
    }
    true
}

/// Whether `text` is one literal of a kind that `syn` knows.
pub fn is_known_literal(text: &String) -> (r: bool)
    ensures
        r == known_literal(text@),
{
    let t = chars_of(text);
    if t.len() == 0 {
        false
    } else if t[0] == '"' {
        cooked_ok_exec(&t, 0)
    } else if t[0] == 'r' {
        raw_ok_exec(&t, 1)
    } else if t[0] == 'b' {
        if t.len() <= 1 {
            false
        } else if t[1] == '"' {
            cooked_ok_exec(&t, 1)
        } else if t[1] == 'r' {
            raw_ok_exec(&t, 2)
        } else if t[1] == '\'' {
            char_ok_exec(&t, 1)
        } else {
            false
        }
    } else if t[0] == '\'' {
        char_ok_exec(&t, 0)
    } else {
        number_ok_exec(&t)
    }
}

fn is_word(text: &String) -> (r: bool)
    ensures
        r == word_ok(text@),
{
    let t = chars_of(text);
    if t.len() == 0 {
        return false;
    }
    let mut k: usize = 0;
    while k < t.len()
        invariant
            t@ == text@,
            forall|m: int| 0 <= m < k && m < t.len() ==> is_word_char(#[trigger] t@[m]),
        decreases t.len() - k,
    {
        if !is_word_char_exec(t[k]) {
            assert(!is_word_char(text@[k as int]));
            return false;
        }
        k += 1;
    }
    true
}

/// Whether the source text of `tokens` lexes back to them; see `lex_safe`.
pub fn lexes_safely(tokens: &Vec<Token>) -> (r: bool)
    ensures
        r == lex_safe(tokens_view(tokens@)),
    decreases tokens@,
{
    proof {
        lemma_tokens_view_index(tokens@);
    }
    let ghost s = tokens_view(tokens@);
    let n = tokens.len();
    let mut i: usize = n;
    let mut ok = true;
    while i > 0
        invariant
            i <= n,
            n == tokens.len(),
            s == tokens_view(tokens@),
            s.len() == n,
            forall|k: int| 0 <= k < n ==> #[trigger] s[k] == token_view(tokens@[k]),
            ok == lex_safe_from(s, i as int),
        decreases i,
    {
        i -= 1;
        let here = match &tokens[i] {
            Token::Ident(t, _) => is_word(t),
            Token::Literal(t, _) => is_known_literal(t),
            Token::Group(_, inner) => lexes_safely(inner),
            Token::Punct(c, sp, _) => {
                let c = *c;
                let mut good = is_punct_char_exec(c);
                if c == '\'' {
                    good = good && *sp == Spacing::Joint && i + 1 < n && matches!(
                        tokens[i + 1],
                        Token::Ident(_, _)
                    );
                }
                if c == '/' && *sp == Spacing::Joint && i + 1 < n {
                    good = good && match &tokens[i + 1] {
                        Token::Group(d, _) => *d != Delimiter::Invisible,
                        Token::Punct(m, _, _) => *m != '/' && *m != '*',
                        _ => true,
                    };
                }
                good
            },
        };
        ok = here && ok;
    }
    ok
}

/// No literal that passes is a C string (`c"..."`, `cr"..."`), the kind that
/// `syn` does not know; tokens that lex safely hold none at their top level.
pub proof fn lemma_no_c_string(s: Seq<TokenV>, i: int)
    requires
        0 <= i <= s.len(),
        lex_safe_from(s, i),
    ensures
        forall|k: int|
            i <= k < s.len() ==> (#[trigger] s[k] matches TokenV::Literal(t, _) ==> t.len() > 0
                && t[0] != 'c'),
    decreases s.len() - i,
{
    if i < s.len() {
        lemma_no_c_string(s, i + 1);
    }
}

/// A plain string literal, `"` text `"` with no quote or backslash inside,
/// is one that `syn` knows.
pub proof fn lemma_plain_string_known(body: Seq<char>)
    requires
        forall|k: int| 0 <= k < body.len() ==> #[trigger] body[k] != '"' && body[k] != '\\',
    ensures
        known_literal(seq!['"'] + body + seq!['"']),
{
    let t = seq!['"'] + body + seq!['"'];
    assert forall|j: int| 1 <= j <= body.len() + 1 implies cooked_close(t, j) == Some(
        (body.len() + 1) as int,
    ) by {
        lemma_cooked_close_plain(t, body, j);
    }
    assert(cooked_close(t, 1) == Some((body.len() + 1) as int));
}

proof fn lemma_cooked_close_plain(t: Seq<char>, body: Seq<char>, j: int)
    requires
        t == seq!['"'] + body + seq!['"'],
        forall|k: int| 0 <= k < body.len() ==> #[trigger] body[k] != '"' && body[k] != '\\',
        1 <= j <= body.len() + 1,
    ensures
        cooked_close(t, j) == Some((body.len() + 1) as int),
    decreases body.len() + 1 - j,
{
    if j <= body.len() {
        assert(t[j] == body[j - 1]);
        lemma_cooked_close_plain(t, body, j + 1);
    } else {
        assert(t[j] == '"');
    }
}

} // verus!
