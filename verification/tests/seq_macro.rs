use proc_macro2::{Delimiter as PmDelimiter, Spacing as PmSpacing, TokenStream, TokenTree};
use proc_macro_workshop::expand::{has_repeating_block, is_panic_error, replace_and_clone, SeqError, SeqHeader};
use proc_macro_workshop::seq_macro::{entries_of, eseq, header_from_facts, parse_header, HeaderFacts};
use proc_macro_workshop::syn_calls::IntLiteral;
use proc_macro_workshop::tokens::{Delimiter, SpanRef, Spacing, Token};
use proc_macro_workshop::procs::Proc;
use proc_macro_workshop::decimal::decimal_string;

fn to_model(ts: TokenStream, next: &mut u64) -> Vec<Token> {
    let mut out = Vec::new();
    for tt in ts {
        let at = SpanRef::Input(*next);
        *next += 1;
        out.push(match tt {
            TokenTree::Ident(i) => Token::Ident(i.to_string(), at),
            TokenTree::Punct(p) => Token::Punct(
                p.as_char(),
                if p.spacing() == PmSpacing::Joint { Spacing::Joint } else { Spacing::Alone },
                at,
            ),
            TokenTree::Literal(l) => Token::Literal(l.to_string(), at),
            TokenTree::Group(g) => Token::Group(
                match g.delimiter() {
                    PmDelimiter::Parenthesis => Delimiter::Parenthesis,
                    PmDelimiter::Brace => Delimiter::Brace,
                    PmDelimiter::Bracket => Delimiter::Bracket,
                    PmDelimiter::None => Delimiter::Invisible,
                },
                to_model(g.stream(), next),
            ),
        });
    }
    out
}

fn toks(text: &str) -> Vec<Token> {
    let mut next = 0;
    to_model(text.parse::<TokenStream>().unwrap(), &mut next)
}

fn show(tokens: &[Token]) -> String {
    let parts: Vec<String> = tokens
        .iter()
        .map(|t| match t {
            Token::Ident(s, _) => s.clone(),
            Token::Punct(c, Spacing::Joint, _) => format!("{}~", c),
            Token::Punct(c, Spacing::Alone, _) => c.to_string(),
            Token::Literal(s, _) => s.clone(),
            Token::Group(d, inner) => {
                let (open, close) = match d {
                    Delimiter::Parenthesis => ("(", ")"),
                    Delimiter::Brace => ("{", "}"),
                    Delimiter::Bracket => ("[", "]"),
                    Delimiter::Invisible => ("<<", ">>"),
                };
                format!("{} {} {}", open, show(inner), close)
            }
        })
        .collect();
    parts.join(" ")
}

fn expand(text: &str) -> Result<String, SeqError> {
    proc_macro_workshop::seq_macro::check_seq(&toks(text)).map(|v| show(&v))
}

fn same(text: &str) -> String {
    show(&toks(text))
}

#[test]
fn proc_table_scenario() {
    let out = proc_macro_workshop::seq_macro::seq(&toks("N in 0..256 { [ #( Proc::new(N), )* ] }")).unwrap();
    assert_eq!(out.len(), 1);
    let items = match &out[0] {
        Token::Group(Delimiter::Bracket, items) => items,
        other => panic!("unexpected {:?}", other),
    };
    assert_eq!(items.len(), 256 * 6);
    let arg = match &items[32 * 6 + 4] {
        Token::Group(Delimiter::Parenthesis, inner) => inner,
        other => panic!("unexpected {:?}", other),
    };
    let value = match &arg[..] {
        [Token::Literal(v, _)] => v.parse::<usize>().unwrap(),
        other => panic!("unexpected {:?}", other),
    };
    let p = Proc::new(value);
    assert_eq!(p.id, 32);
}

#[test]
fn repeats_whole_body() {
    assert_eq!(
        expand("N in 0..3 { compile_error!(concat!(\"error number \", stringify!(N))); }").unwrap(),
        same(
            "compile_error!(concat!(\"error number \", stringify!(0))); \
             compile_error!(concat!(\"error number \", stringify!(1))); \
             compile_error!(concat!(\"error number \", stringify!(2)));"
        )
    );
}

#[test]
fn pastes_counter_into_identifiers() {
    assert_eq!(
        expand("N in 1..4 { fn f#N () -> u64 { N * 2 } }").unwrap(),
        same("fn f1 () -> u64 { 1 * 2 } fn f2 () -> u64 { 2 * 2 } fn f3 () -> u64 { 3 * 2 }")
    );
}

#[test]
fn paste_with_other_identifier_drops_it() {
    assert_eq!(expand("N in 0..1 { a # b c }").unwrap(), same("a c"));
}

#[test]
fn inclusive_range_includes_end() {
    assert_eq!(expand("N in 16..=18 { N }").unwrap(), same("16 17 18"));
    assert_eq!(expand("N in 16..19 { N }").unwrap(), expand("N in 16..=18 { N }").unwrap());
}

#[test]
fn empty_range_gives_nothing() {
    assert_eq!(expand("N in 5..5 { x N }").unwrap(), "");
    assert_eq!(expand("N in 7..2 { x N }").unwrap(), "");
}

#[test]
fn repetition_section() {
    assert_eq!(
        expand("N in 0..3 { enum E { #( V#N, )* } }").unwrap(),
        same("enum E { V0, V1, V2, }")
    );
}

#[test]
fn counter_outside_repetition_reads_zero() {
    assert_eq!(expand("N in 3..5 { N #( N )* }").unwrap(), same("0 3 4"));
}

#[test]
fn nested_groups_are_expanded() {
    assert_eq!(expand("i in 0..2 { [ ( { i } ) ] }").unwrap(), same("[ ( { 0 } ) ] [ ( { 1 } ) ]"));
}

#[test]
fn hex_and_suffixed_bounds() {
    assert_eq!(expand("N in 0x2..4u8 { N }").unwrap(), same("2 3"));
}

#[test]
fn eseq_is_seq() {
    let input = toks("N in 0..2 { N }");
    assert_eq!(show(&eseq(&input).unwrap()), show(&proc_macro_workshop::seq_macro::seq(&input).unwrap()));
    assert_eq!(show(&proc_macro_workshop::seq_macro::check_eseq(&input).unwrap()), show(&eseq(&input).unwrap()));
}

#[test]
fn error_expected_counter() {
    assert_eq!(expand("in in 0..2 { }"), Err(SeqError::ExpectedCounter));
    assert_eq!(expand("_ in 0..2 { }"), Err(SeqError::ExpectedCounter));
    assert_eq!(expand("5 in 0..2 { }"), Err(SeqError::ExpectedCounter));
    assert_eq!(expand(""), Err(SeqError::ExpectedCounter));
}

#[test]
fn error_expected_in() {
    assert_eq!(expand("N of 0..2 { }"), Err(SeqError::ExpectedIn));
}

#[test]
fn error_expected_start() {
    assert_eq!(expand("N in x..2 { }"), Err(SeqError::ExpectedStart));
    assert_eq!(expand("N in 1.5..2 { }"), Err(SeqError::ExpectedStart));
}

#[test]
fn error_expected_range() {
    assert_eq!(expand("N in 0 to 2 { }"), Err(SeqError::ExpectedRange));
    assert_eq!(expand("N in 0 . . 2 { }"), Err(SeqError::ExpectedRange));
}

#[test]
fn error_expected_end() {
    assert_eq!(expand("N in 0..x { }"), Err(SeqError::ExpectedEnd));
}

#[test]
fn error_inclusive_end_out_of_range() {
    assert_eq!(
        expand("N in 0..=18446744073709551615 { }"),
        Err(SeqError::InclusiveEndOutOfRange)
    );
    assert_eq!(expand("N in 0..=-1 { }"), Err(SeqError::InclusiveEndOutOfRange));
}

#[test]
fn error_expected_body() {
    assert_eq!(expand("N in 0..2 ( N )"), Err(SeqError::ExpectedBody));
    assert_eq!(expand("N in 0..2"), Err(SeqError::ExpectedBody));
}

#[test]
fn error_unexpected_token() {
    assert_eq!(expand("N in 0..2 { N } x"), Err(SeqError::UnexpectedToken));
}

#[test]
fn error_start_out_of_range() {
    assert_eq!(expand("N in 18446744073709551616..2 { }"), Err(SeqError::StartOutOfRange));
    assert_eq!(expand("N in -1..2 { }"), Err(SeqError::StartOutOfRange));
}

#[test]
fn error_end_out_of_range() {
    assert_eq!(expand("N in 0..18446744073709551616 { }"), Err(SeqError::EndOutOfRange));
}

#[test]
fn error_missing_star() {
    assert_eq!(expand("N in 0..2 { #( N ) + }"), Err(SeqError::MissingStar));
    assert_eq!(expand("N in 0..2 { x #( N ) }"), Err(SeqError::MissingStar));
}

#[test]
fn error_dangling_pound() {
    assert_eq!(expand("N in 0..2 { ( # ) }"), Err(SeqError::DanglingPound));
    assert_eq!(expand("N in 0..2 { a # }"), Err(SeqError::DanglingPound));
}

#[test]
fn dangling_paste_in_empty_range_is_never_read() {
    assert_eq!(expand("N in 2..2 { #( a # )* }").unwrap(), "");
}

#[test]
fn has_repeating_block_cases() {
    assert!(!has_repeating_block(&toks("a b ( c )")));
    assert!(has_repeating_block(&toks("a ( #( b )* )")));
    assert!(has_repeating_block(&toks("# [ x ] #[ #( y )* ]")));
    assert!(!has_repeating_block(&toks("# x")));
    assert_eq!(expand("N in 0..1 { x # }"), Err(SeqError::DanglingPound));
    assert_eq!(expand("N in 0..1 { #( x ) }"), Err(SeqError::MissingStar));
    assert_eq!(expand("N in 0..1 { #( x ) y }"), Err(SeqError::MissingStar));
}

#[test]
fn replace_and_clone_direct() {
    let header = SeqHeader { counter: "K".to_string(), start: 1, end: 3, body: Vec::new() };
    let out = replace_and_clone(&"K".to_string(), 7, &toks("K + x # K"), false, &header);
    assert_eq!(show(&out), same("7 + x7"));
    let out = replace_and_clone(&"K".to_string(), 7, &toks("#( K )* K"), true, &header);
    assert_eq!(show(&out), same("1 2 7"));
}

#[test]
fn parse_header_fields() {
    let h = parse_header(&toks("idx in 3..=9 { a b }")).unwrap();
    assert_eq!(h.counter, "idx");
    assert_eq!(h.start, 3);
    assert_eq!(h.end, 10);
    assert_eq!(show(&h.body), same("a b"));
}

#[test]
fn decimal_text() {
    assert_eq!(decimal_string(0), "0");
    assert_eq!(decimal_string(7), "7");
    assert_eq!(decimal_string(32), "32");
    assert_eq!(decimal_string(u64::MAX), "18446744073709551615");
}

#[test]
fn invisible_groups_in_header_are_looked_through() {
    let mut input = toks("N in 0..2 { N }");
    let start = input.remove(2);
    input.insert(2, Token::Group(Delimiter::Invisible, vec![start]));
    assert_eq!(show(&proc_macro_workshop::seq_macro::seq(&input).unwrap()), same("0 1"));
}

#[test]
fn invisible_group_around_body_is_the_body() {
    let mut input = toks("N in 0..2 { N }");
    let body = input.pop().unwrap();
    input.push(Token::Group(Delimiter::Invisible, vec![body]));
    assert_eq!(show(&proc_macro_workshop::seq_macro::seq(&input).unwrap()), same("{ 0 } { 1 }"));
    let mut input = toks("N in 0..2 { N }");
    let body = input.pop().unwrap();
    input.push(Token::Group(Delimiter::Invisible, vec![body, Token::Ident("x".to_string(), SpanRef::CallSite)]));
    assert_eq!(show(&proc_macro_workshop::seq_macro::seq(&input).unwrap()), same("{ 0 } x { 1 } x"));
    let mut input = toks("N in 0..2 { N }");
    input.push(Token::Group(Delimiter::Invisible, vec![]));
    assert_eq!(show(&proc_macro_workshop::seq_macro::seq(&input).unwrap()), same("0 1"));
}

#[test]
fn invisible_groups_in_body_are_kept() {
    let body = Token::Group(Delimiter::Brace, vec![Token::Group(Delimiter::Invisible, toks("N"))]);
    let mut input = toks("N in 0..2");
    input.push(body);
    assert_eq!(
        show(&proc_macro_workshop::seq_macro::seq(&input).unwrap()),
        "<< 0 >> << 1 >>"
    );
}

#[test]
fn header_from_given_facts() {
    let f = entries_of(&toks("N in 0..=0 { N }"));
    let facts = HeaderFacts {
        counter_accepted: true,
        start: IntLiteral::Value(4),
        end: IntLiteral::Value(6),
    };
    let h = header_from_facts(&f, &facts).unwrap();
    assert_eq!((h.counter.as_str(), h.start, h.end), ("N", 4, 7));
    let refused = HeaderFacts { counter_accepted: false, ..facts };
    assert_eq!(header_from_facts(&f, &refused).err(), Some(SeqError::ExpectedCounter));
    let not_int = HeaderFacts { start: IntLiteral::NotInt, ..facts };
    assert_eq!(header_from_facts(&f, &not_int).err(), Some(SeqError::ExpectedStart));
}

#[test]
fn spans_of_copied_and_written_tokens() {
    // `a` is token 0, `#` 1, `N` 2, `+` 3, `N` 4.
    let header = SeqHeader { counter: "N".to_string(), start: 0, end: 1, body: Vec::new() };
    let out = replace_and_clone(&"N".to_string(), 3, &toks("a # N + N"), false, &header);
    assert_eq!(out.len(), 3);
    assert!(matches!(&out[0], Token::Ident(s, SpanRef::CallSite) if s == "a3"));
    assert!(matches!(&out[1], Token::Punct('+', _, SpanRef::Input(3))));
    assert!(matches!(&out[2], Token::Literal(s, SpanRef::CallSite) if s == "3"));
    let out = replace_and_clone(&"N".to_string(), 3, &toks("b c"), false, &header);
    assert!(matches!(&out[1], Token::Ident(s, SpanRef::Input(1)) if s == "c"));
}

#[test]
fn error_unrecognized_literal() {
    assert_eq!(expand("N in c\"x\"..2 { }"), Err(SeqError::UnrecognizedLiteral));
    assert_eq!(expand("N in 0..c\"x\" { }"), Err(SeqError::UnrecognizedLiteral));
}

#[test]
fn other_literal_kinds_are_not_integers() {
    assert_eq!(expand("N in \"a\"..2 { }"), Err(SeqError::ExpectedStart));
    assert_eq!(expand("N in 'a'..2 { }"), Err(SeqError::ExpectedStart));
    assert_eq!(expand("N in b'a'..2 { }"), Err(SeqError::ExpectedStart));
    assert_eq!(expand("N in -c\"x\"..2 { }"), Err(SeqError::ExpectedStart));
    assert_eq!(expand("N in -1.5..2 { }"), Err(SeqError::ExpectedStart));
}

#[test]
fn untouched_tree_comes_out_unchanged() {
    let header = SeqHeader { counter: "N".to_string(), start: 0, end: 2, body: Vec::new() };
    let tree = toks("x = # y ; ( 1 # 2 ) [ # z ]");
    let out = replace_and_clone(&"N".to_string(), 5, &tree, false, &header);
    assert_eq!(show(&out), show(&tree));
}

#[test]
fn block_length_counts_pastes_and_dropped_pounds() {
    // `a # b` makes one token of three, whether `b` is the counter or not.
    let out = expand("N in 0..3 { a # b c d # N }").unwrap();
    assert_eq!(out, same("a c d0 a c d1 a c d2"));
    let body = toks("a # b c d # N");
    let header = SeqHeader { counter: "N".to_string(), start: 0, end: 3, body: Vec::new() };
    let block = replace_and_clone(&"N".to_string(), 0, &body, false, &header);
    assert_eq!(block.len(), 3);
}

#[test]
fn inclusive_header_equals_exclusive_one() {
    let a = parse_header(&toks("M in 2..=5 { q M }")).unwrap();
    let b = parse_header(&toks("M in 2..6 { q M }")).unwrap();
    assert_eq!((a.counter, a.start, a.end), (b.counter, b.start, b.end));
    assert_eq!(show(&a.body), show(&b.body));
}

#[test]
fn paste_reads_counter_inside_invisible_group() {
    let mut body = toks("x #");
    body.push(Token::Group(Delimiter::Invisible, toks("N")));
    let mut input = toks("N in 0..2");
    input.push(Token::Group(Delimiter::Brace, body));
    assert_eq!(show(&proc_macro_workshop::seq_macro::seq(&input).unwrap()), same("x0 x1"));
}

#[test]
fn panicking_inputs_are_named_by_check_seq() {
    assert!(is_panic_error(SeqError::ExpectedBody));
    assert!(is_panic_error(SeqError::EndOutOfRange));
    assert!(!is_panic_error(SeqError::ExpectedRange));
    assert!(!is_panic_error(SeqError::UnexpectedToken));
    assert_eq!(expand("N in 0..2 { N }").unwrap(), same("0 1"));
}
