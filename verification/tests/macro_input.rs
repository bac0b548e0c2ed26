//! What the macro makes of its input.

use std::collections::HashSet;

use join_me_maybe_core::entry::{expand, join, Refusal};
use join_me_maybe_core::expansion::{Name, Piece};
use join_me_maybe_core::render::{meaning, private_module_name, render};
use join_me_maybe_core::shape::{ArmShape, Kind};
use join_me_maybe_core::source::{Found, Source, Token};
use join_me_maybe_core::syntax::{
    ArmKind, Expected, JoinMeMaybe, JoinMeMaybeArm, ParseError, Region,
};
use proc_macro2::{Delimiter, Group, TokenStream, TokenTree};
use syn::parse::{ParseStream, Parser};

fn tokens(text: &str) -> TokenStream {
    text.parse().unwrap()
}

fn parse(text: &str) -> Result<Vec<JoinMeMaybeArm>, ParseError> {
    JoinMeMaybe::parse(&Source::read(&tokens(text))).map(|join| join.arms)
}

fn refusal(text: &str) -> Refusal {
    match join(&tokens(text)) {
        Ok(_) => panic!("accepted: {}", text),
        Err(refusal) => refusal,
    }
}

fn pieces(text: &str) -> Vec<Piece> {
    match join(&tokens(text)) {
        Ok(pieces) => pieces,
        Err(refusal) => panic!("refused: {}: {}", text, refusal.message),
    }
}

fn found(left: usize) -> Found {
    Found { left, unexpected: None }
}

/// A group without visible delimiters around the tokens.
fn hidden(text: &str) -> TokenStream {
    TokenTree::Group(Group::new(Delimiter::None, tokens(text))).into()
}

fn chain(parts: Vec<TokenStream>) -> TokenStream {
    parts.into_iter().collect()
}

fn parse_stream(stream: &TokenStream) -> Result<Vec<JoinMeMaybeArm>, ParseError> {
    JoinMeMaybe::parse(&Source::read(stream)).map(|join| join.arms)
}

fn region(start: usize, end: usize) -> Region {
    Region { start, end }
}

fn future(start: usize, end: usize) -> ArmKind {
    ArmKind::FutureOnly { future: region(start, end) }
}

const EVERYTHING: &str = "a, maybe b, l1: c, l2: maybe d, \
    x1 = async { 1 } => x1, \
    maybe x2 = async { 2 } => x2, \
    label1: x3 = async { 3 } => x3, \
    label2: maybe x4 = async { 4 } => x4, \
    x5 in stream(5) => _ = x5, \
    maybe x6 in stream(6) => _ = x6, \
    label7: x7 in stream(7) => _ = x7, \
    label8: maybe x8 in stream(8) => _ = x8, \
    y1 in stream(1) => _ = y1 finally 1, \
    maybe y2 in stream(2) => _ = y2 finally 2, \
    label3: y3 in stream(3) => _ = y3 finally 3, \
    label4: maybe y4 in stream(4) => _ = y4 finally 4";

#[test]
fn reads_a_stream_of_tokens() {
    let source = Source::read(&tokens("foo: maybe a::b(1)"));
    assert_eq!(
        source.trees,
        vec![
            Token::Ident("foo".to_string()),
            Token::Punct(':', false),
            Token::Ident("maybe".to_string()),
            Token::Ident("a".to_string()),
            Token::Punct(':', true),
            Token::Punct(':', false),
            Token::Ident("b".to_string()),
            Token::Group,
        ]
    );
    assert_eq!(source.idents, vec![true, false, true, true, false, false, true, false, false]);
    // The path with its arguments leaves nothing, and a lone name leaves what follows it.
    assert_eq!(source.exprs[3], Ok(found(0)));
    assert_eq!(source.exprs[2], Ok(found(5)));
    assert!(source.exprs[8].is_err());
    assert_eq!(source.patterns[3], Some(found(0)));
    assert_eq!(source.patterns[0], Some(found(7)));
    assert_eq!(source.patterns[1], None);
}

#[test]
fn a_keyword_is_no_identifier() {
    let source = Source::read(&tokens("in r#in 1"));
    assert_eq!(source.trees[2], Token::Literal);
    assert_eq!(source.idents, vec![false, true, false, false]);
}

#[test]
fn futures_with_and_without_maybe() {
    let arms = parse("ready(1), maybe ready(2),").unwrap();
    assert_eq!(
        arms,
        vec![
            JoinMeMaybeArm { cancel_label: None, is_maybe: false, kind: future(0, 2) },
            JoinMeMaybeArm { cancel_label: None, is_maybe: true, kind: future(4, 6) },
        ]
    );
}

#[test]
fn labels_bodies_and_finally() {
    let arms = parse("foo: maybe (a, b) = f() => g(), x in s => { } finally 7").unwrap();
    assert_eq!(
        arms,
        vec![
            JoinMeMaybeArm {
                cancel_label: Some(0),
                is_maybe: true,
                kind: ArmKind::FutureAndBody {
                    pattern: region(3, 4),
                    future: region(5, 7),
                    body: region(9, 11),
                },
            },
            JoinMeMaybeArm {
                cancel_label: None,
                is_maybe: false,
                kind: ArmKind::StreamAndBody {
                    pattern: region(12, 13),
                    stream: region(14, 15),
                    body: region(17, 18),
                    finally: Some(region(19, 20)),
                },
            },
        ]
    );
}

#[test]
fn potentially_ambiguous_colons() {
    // A path is no label.
    let arms = parse("std::future::ready(1), a: std::future::ready(2)").unwrap();
    assert_eq!(arms[0].cancel_label, None);
    assert_eq!(arms[0].kind, future(0, 8));
    assert_eq!(arms[1].cancel_label, Some(9));
    assert_eq!(arms[1].kind, future(11, 19));
    // A label may stand before a path that starts with colons.
    let arms = parse("a: ::b").unwrap();
    assert_eq!(arms[0].cancel_label, Some(0));
    assert_eq!(arms[0].kind, future(2, 5));
}

#[test]
fn each_arm_has_its_shape() {
    let join = JoinMeMaybe::parse(&Source::read(&tokens(EVERYTHING))).unwrap();
    let mut expected = Vec::new();
    for kind in [Kind::Future, Kind::FutureBody, Kind::Stream, Kind::StreamFinally] {
        for labeled in [false, true] {
            for is_maybe in [false, true] {
                expected.push(ArmShape { kind, is_maybe, labeled });
            }
        }
    }
    assert_eq!(join.shapes(), expected);
}

#[test]
fn one_arm_at_a_time() {
    let source = Source::read(&tokens("a, foo: maybe b"));
    let (first, end) = JoinMeMaybeArm::parse(&source, 0).unwrap();
    assert_eq!((first.kind, end), (future(0, 1), 1));
    let (second, end) = JoinMeMaybeArm::parse(&source, 2).unwrap();
    assert_eq!((second.cancel_label, second.is_maybe, end), (Some(2), true, 6));
    assert_eq!(JoinMeMaybeArm::parse(&source, 6), Err(ParseError::Expr { at: 6 }));
    assert_eq!(JoinMeMaybeArm::parse(&source, usize::MAX), Err(ParseError::Expr { at: usize::MAX }));
}

#[test]
fn nothing_to_wait_for() {
    let refused = refusal("maybe std::future::ready(1), maybe std::future::ready(2),");
    assert_eq!(refused.error, ParseError::OnlyMaybe);
    let parser = |input: ParseStream<'_>| {
        input.parse::<TokenStream>()?;
        Err::<(), syn::Error>(
            input.error("a `join!` with only `maybe` arms returns immediately and executes nothing"),
        )
    };
    assert_eq!(refused.message, parser.parse2(tokens("a")).unwrap_err().to_string());
    // So has an empty join.
    assert_eq!(refusal("").error, ParseError::OnlyMaybe);
}

#[test]
fn a_body_needs_a_capture() {
    let refused = refusal("async {} => (),");
    assert_eq!(refused.error, ParseError::MissingCapture { at: 2 });
    assert_eq!(
        refused.message,
        "`[fut] => [body]` is not allowed, you must write `[output] = [fut] => [body]`"
    );
}

#[test]
fn labels_are_unique() {
    let refused = refusal("unique1: a, repeated: b, repeated: c, unique2: d, unique1: e");
    assert_eq!(refused.error, ParseError::RepeatedLabel { at: 8 });
    assert_eq!(refused.message, "the label `repeated` is used more than once");
    assert!(parse("a: x, b: x, c: x").is_ok());
}

#[test]
fn arms_are_separated_by_commas() {
    let refused = refusal("a b");
    assert_eq!(refused.error, ParseError::Expected { what: Expected::Comma, at: 1 });
    let parser = |input: ParseStream<'_>| {
        input.parse::<syn::Expr>()?;
        input.parse::<syn::token::Comma>().map(|_| ())
    };
    assert_eq!(refused.message, parser.parse2(tokens("a b")).unwrap_err().to_string());
    assert_eq!(refused.message, "expected `,`");
}

#[test]
fn a_capture_needs_a_body() {
    for text in ["x = a", "x in a", "x = a, b"] {
        let refused = refusal(text);
        assert_eq!(refused.error, ParseError::Expected { what: Expected::FatArrow, at: 3 });
        let parser = |input: ParseStream<'_>| {
            input.parse::<syn::Ident>()?;
            input.step(|cursor| Ok(((), cursor.token_tree().unwrap().1)))?;
            input.parse::<syn::Expr>()?;
            input.parse::<syn::token::FatArrow>().map(|_| ())
        };
        assert_eq!(refused.message, parser.parse2(tokens(text)).unwrap_err().to_string());
        assert_eq!(refused.message, "expected `=>`");
    }
}

#[test]
fn what_is_no_expression_is_refused_where_it_stands() {
    for (text, at) in [
        (", a", 0),
        ("a,, b", 2),
        ("foo: maybe", 3),
        ("x = => b", 2),
        ("x in a => ", 5),
        ("x in a => b finally", 7),
        ("x => b", 2),
    ] {
        let refused = refusal(text);
        assert_eq!(refused.error, ParseError::Expr { at }, "{}", text);
        let rest: TokenStream = tokens(text).into_iter().skip(at).collect();
        let parser = |input: ParseStream<'_>| input.parse::<syn::Expr>().map(|_| ());
        assert_eq!(refused.message, parser.parse2(rest).unwrap_err().to_string(), "{}", text);
    }
}

#[test]
fn messages_fall_back_where_nothing_is_known() {
    let source = Source { trees: vec![], idents: vec![], exprs: vec![], patterns: vec![] };
    assert_eq!(ParseError::Expr { at: 3 }.message(&source), "expected an expression");
    assert_eq!(
        ParseError::RepeatedLabel { at: 0 }.message(&source),
        "the label `` is used more than once"
    );
    assert_eq!(ParseError::UnexpectedInExpr { at: 0 }.message(&source), "unexpected token");
    assert_eq!(ParseError::UnexpectedInPattern { at: 0 }.message(&source), "unexpected token");
}

#[test]
fn what_is_known_of_the_input_decides() {
    // Whatever a parser says of `a`, a join of it is one future.
    let source = Source {
        trees: vec![Token::Ident("a".to_string())],
        idents: vec![true, false],
        exprs: vec![Ok(found(0)), Err("nothing here".to_string())],
        patterns: vec![Some(found(0)), None],
    };
    assert!(expand(&source).is_ok());
    let refused = expand(&Source { exprs: vec![Err("not a".to_string())], ..source }).unwrap_err();
    assert_eq!(refused.error, ParseError::Expr { at: 0 });
    assert_eq!(refused.message, "not a");
}

#[test]
fn hidden_groups_are_entries_followed_by_what_they_hold() {
    let source = Source::read(&chain(vec![tokens("a"), hidden("b c"), tokens("(d)"), hidden("")]));
    assert_eq!(
        source.trees,
        vec![
            Token::Ident("a".to_string()),
            Token::Open(2),
            Token::Ident("b".to_string()),
            Token::Ident("c".to_string()),
            Token::Group,
            Token::Open(0),
        ]
    );
    // An identifier is seen through the group.
    assert_eq!(source.idents, vec![true, true, true, true, false, false, false]);
    assert_eq!(source.patterns[2], Some(found(3)));
}

#[test]
fn labels_are_seen_in_hidden_groups() {
    let stream = chain(vec![hidden("foo"), tokens(": a,"), hidden("bar"), tokens(": b")]);
    let arms = parse_stream(&stream).unwrap();
    assert_eq!(arms[0].cancel_label, Some(1));
    assert_eq!(arms[1].cancel_label, Some(6));
    let stream = chain(vec![hidden("foo"), tokens(": a,"), hidden("foo : b")]);
    assert_eq!(parse_stream(&stream), Err(ParseError::RepeatedLabel { at: 6 }));
    match join(&stream) {
        Ok(_) => panic!("accepted"),
        Err(refused) => {
            assert_eq!(refused.message, "the label `foo` is used more than once")
        }
    }
}

#[test]
fn arms_are_seen_in_hidden_groups() {
    // The pattern, the `=` and the future all lie in the group.
    let stream = chain(vec![hidden("x = f()"), tokens("=> b")]);
    assert_eq!(
        parse_stream(&stream).unwrap()[0].kind,
        ArmKind::FutureAndBody {
            pattern: region(0, 2),
            future: region(3, 5),
            body: region(7, 8),
        }
    );
    let stream = chain(vec![hidden("foo: maybe"), tokens("x"), hidden("in"), tokens("s => b, c")]);
    let arms = parse_stream(&stream).unwrap();
    assert_eq!((arms[0].cancel_label, arms[0].is_maybe), (Some(1), true));
    assert!(matches!(arms[0].kind, ArmKind::StreamAndBody { .. }));
    // A whole group is an expression of its own.
    let stream = chain(vec![hidden("a + b"), tokens("* c")]);
    assert_eq!(parse_stream(&stream).unwrap()[0].kind, future(0, 6));
    // Nothing but a comma may follow, not even an empty group.
    let stream = chain(vec![tokens("a"), hidden("")]);
    assert_eq!(
        parse_stream(&stream),
        Err(ParseError::Expected { what: Expected::Comma, at: 1 })
    );
}

#[test]
fn regions_are_covered_by_trees() {
    let source =
        Source::read(&chain(vec![tokens("a"), hidden("b c"), tokens("d"), hidden("e")]));
    // A group that lies within the region is taken whole, and else what the region has of it.
    assert_eq!(source.cover(region(0, 5)), vec![0, 1, 4]);
    assert_eq!(source.cover(region(1, 3)), vec![2]);
    assert_eq!(source.cover(region(2, 5)), vec![2, 3, 4]);
    assert_eq!(source.cover(region(5, 7)), vec![5]);
    assert_eq!(source.cover(region(3, 3)), vec![]);
    assert_eq!(source.cover(region(6, 100)), vec![6]);
}

#[test]
fn leftover_tokens_are_judged_last() {
    let stray = Some("unexpected token, expected `}`".to_string());
    let source = Source::read(&tokens("Foo { .., x } = f => b"));
    assert_eq!(source.patterns[0], Some(Found { left: 5, unexpected: stray }));
    let refused = refusal("Foo { .., x } = f => b");
    assert_eq!(refused.error, ParseError::UnexpectedInPattern { at: 0 });
    assert_eq!(refused.message, "unexpected token, expected `}`");
    let refused = refusal("a, Foo { ..b, x }");
    assert_eq!(refused.error, ParseError::UnexpectedInExpr { at: 2 });
    assert_eq!(refused.message, "unexpected token, expected `}`");
    // Whatever else is wrong comes first.
    assert_eq!(refusal("maybe Foo { ..b, x }").error, ParseError::OnlyMaybe);
    assert_eq!(refusal("Foo { ..b, x } c").error, ParseError::Expected { what: Expected::Comma, at: 2 });
    assert_eq!(refusal("l: Foo { ..b, x }, l: c").error, ParseError::RepeatedLabel { at: 5 });
    // The first of several is reported.
    let text = "p = f => Foo { ..b, x }, Foo { .., x } in s => c finally Foo { ..d, x }";
    assert_eq!(refusal(text).error, ParseError::UnexpectedInExpr { at: 5 });
    let parser = |input: ParseStream<'_>| {
        while !input.is_empty() {
            input.parse::<syn::Expr>()?;
            input.parse::<Option<syn::token::Comma>>()?;
        }
        Ok(())
    };
    let message = parser.parse2(tokens("a, Foo { ..b, x }")).unwrap_err().to_string();
    assert_eq!(message, "unexpected token, expected `}`");
}

#[test]
fn a_trailing_comma_changes_nothing() {
    for text in [EVERYTHING, "a", "foo: a", "x = a => b", "x in a => b finally c", "a, maybe b"] {
        let with_comma = format!("{},", text);
        assert_eq!(parse(text).unwrap(), parse(&with_comma).unwrap());
        assert_eq!(
            parse(&format!("{},,", text)).unwrap_err(),
            ParseError::Expr { at: tokens(&with_comma).into_iter().count() }
        );
    }
}

#[test]
fn a_trailing_comma_behind_a_hidden_group_changes_nothing() {
    for stream in [
        hidden("a"),
        chain(vec![hidden("x = f()"), tokens("=> b")]),
        chain(vec![tokens("x in s =>"), hidden("b")]),
    ] {
        let with_comma = chain(vec![stream.clone(), tokens(",")]);
        assert_eq!(parse_stream(&stream).unwrap(), parse_stream(&with_comma).unwrap());
    }
    // A comma at the end of a group is a comma at the end.
    let stream = chain(vec![tokens("a"), hidden(",")]);
    assert!(parse_stream(&stream).is_ok());
    let with_comma = chain(vec![stream, tokens(",")]);
    assert_eq!(parse_stream(&with_comma), Err(ParseError::Expr { at: 3 }));
}

#[test]
fn words_stand_for_their_pieces() {
    let all = pieces(EVERYTHING);
    let mut marked = 0;
    for piece in &all {
        let word = render(&vec![*piece], "m");
        let meant = meaning(&all, "m", word.trim());
        match piece {
            Piece::Id(name) if !name.is_hidden() => assert!(meant.is_none()),
            Piece::Id(_) | Piece::Input(_) | Piece::Tree(_) => {
                marked += 1;
                assert_eq!(format!("{:?}", meant), format!("{:?}", Some(piece)));
            }
            _ => assert!(meant.is_none()),
        }
    }
    assert!(marked > 100);
    assert!(meaning(&all, "m", "drop").is_none());
}

fn inputs(pieces: &[Piece]) -> Vec<Region> {
    pieces
        .iter()
        .filter_map(|piece| match piece {
            Piece::Input(region) => Some(*region),
            _ => None,
        })
        .collect()
}

#[test]
fn user_code_stands_once() {
    // The futures and streams come first, in order, then patterns, bodies and `finally`.
    let text = "a, p = b => c, q in d => e finally f, g";
    let expected = ["a", "b", "d", "g", "p", "c", "q", "e", "f"];
    let trees: Vec<String> = tokens(text).into_iter().map(|tree| tree.to_string()).collect();
    let found: Vec<&str> =
        inputs(&pieces(text)).iter().map(|region| trees[region.start].as_str()).collect();
    assert_eq!(found, expected);
    assert_eq!(inputs(&pieces("a, maybe b")), vec![region(0, 1), region(3, 4)]);
}

#[test]
fn labels_are_bound_first() {
    let all = pieces("a, foo: b, maybe c, bar: maybe d");
    let first = all.iter().position(|piece| matches!(piece, Piece::Input(_))).unwrap();
    let labels: Vec<usize> = all[..first]
        .iter()
        .filter_map(|piece| match piece {
            Piece::Tree(at) => Some(*at),
            _ => None,
        })
        .collect();
    assert_eq!(labels, vec![2, 9]);
}

#[test]
fn generated_names_do_not_clash() {
    let module = private_module_name("join_me_maybe_impl", "0.6.1");
    let mut hidden = HashSet::new();
    let mut visible = HashSet::new();
    let mut names = vec![
        Name::DefinitelyFinishedCount,
        Name::RunBodyFn,
        Name::RunBodyFuture,
        Name::RunBodyNoReturn,
        Name::BodyIsMaybe,
        Name::BodyCancelledFlag,
        Name::Item,
        Name::Future,
        Name::Stream,
        Name::ItemConsumedFromLiveStream,
        Name::NextArm,
        Name::FirstArm,
        Name::PrivateModule,
        Name::OutputTemporary,
    ];
    for i in 0..120 {
        names.extend([
            Name::Finished(i),
            Name::ShouldRunFinally(i),
            Name::Cancelled(i),
            Name::Arm(i),
            Name::ArmItem(i),
            Name::ArmOutput(i),
            Name::TypeParam(i),
            Name::Variant(i),
            Name::FinallyVariant(i),
        ]);
    }
    for name in names {
        let fresh = if name.is_hidden() {
            hidden.insert(name.text(&module))
        } else {
            visible.insert(name.text(&module))
        };
        assert!(fresh, "{:?}", name);
    }
    assert_eq!(hidden.len(), 12 + 6 * 120);
    assert_eq!(visible.len(), 2 + 3 * 120);
}

#[test]
fn names_are_spelled_out() {
    assert_eq!(private_module_name("join_me_maybe_impl", "0.6.1"), "__join_me_maybe_impl_v0_6_1");
    assert_eq!(private_module_name("", ""), "___v");
    assert_eq!(Name::Arm(0).text("m"), "arm_0");
    assert_eq!(Name::Arm(10).text("m"), "arm_10");
    assert_eq!(Name::ArmItem(usize::MAX).text("m"), format!("arm_{}_item", usize::MAX));
    assert_eq!(Name::ShouldRunFinally(7).text("m"), "arm_7_should_run_finally");
    assert_eq!(Name::FinallyVariant(123).text("m"), "Arm123Finally");
    assert_eq!(Name::PrivateModule.text("m"), "m");
    assert_eq!(Name::OutputTemporary.text("m"), "_output");
}

#[test]
fn pieces_become_text() {
    let text = render(
        &vec![
            Piece::Code("let"),
            Piece::Id(Name::Arm(3)),
            Piece::Code("="),
            Piece::Id(Name::Variant(3)),
            Piece::Number(15),
            Piece::Input(region(4, 9)),
            Piece::Tree(2),
        ],
        "m",
    );
    assert_eq!(text, "let __hidden_arm_3 = Arm3 15usize __input_4_9 __tree_2 ");
    assert_eq!(render(&vec![], "m"), "");
}

#[test]
fn the_expansion_is_a_block() {
    let module = private_module_name("join_me_maybe_impl", "0.6.1");
    for text in [EVERYTHING, "a", "a, maybe b", "foo: a, maybe b", "x = a => b", "x in a => b, c"] {
        let rendered = render(&pieces(text), &module);
        if let Err(error) = syn::parse_str::<syn::Block>(&rendered) {
            panic!("{}: {}: {}", text, error, rendered);
        }
    }
}

#[test]
fn the_expansion_of_a_small_join() {
    let rendered = render(&pieces("a, maybe b"), "m");
    let expected = "{ \
        let __hidden_definitely_finished_count = ::core::sync::atomic::AtomicUsize::new(0); \
        let mut __hidden_arm_0 = ::core::pin::pin!(::core::option::Option::Some(__input_0_1)); \
        let mut __hidden_arm_0_output = ::core::option::Option::None; \
        let mut __hidden_arm_1 = ::core::pin::pin!(::core::option::Option::Some(__input_3_4)); \
        let mut __hidden_arm_1_output = ::core::option::Option::None; \
        loop { \
            if !(__hidden_definitely_finished_count.load(::core::sync::atomic::Ordering::Relaxed) == 1usize) { \
                loop { \
                    let is_ready = if let ::core::option::Option::Some(__hidden_future) = __hidden_arm_0.as_mut().as_pin_mut() { \
                        match ::join_me_maybe::_impl::PollOnce(__hidden_future).await { \
                            ::core::task::Poll::Ready(output) => { \
                                __hidden_arm_0_output = ::core::option::Option::Some(output); true } \
                            ::core::task::Poll::Pending => false, \
                        } \
                    } else { false }; \
                    if is_ready { \
                        __hidden_arm_0.set(::core::option::Option::None); \
                        __hidden_definitely_finished_count.fetch_add(1, ::core::sync::atomic::Ordering::Relaxed); \
                    } \
                    if (__hidden_definitely_finished_count.load(::core::sync::atomic::Ordering::Relaxed) == 1usize) { break; } \
                    let is_ready = if let ::core::option::Option::Some(__hidden_future) = __hidden_arm_1.as_mut().as_pin_mut() { \
                        match ::join_me_maybe::_impl::PollOnce(__hidden_future).await { \
                            ::core::task::Poll::Ready(output) => { \
                                __hidden_arm_1_output = ::core::option::Option::Some(output); true } \
                            ::core::task::Poll::Pending => false, \
                        } \
                    } else { false }; \
                    if is_ready { __hidden_arm_1.set(::core::option::Option::None); } \
                    if (__hidden_definitely_finished_count.load(::core::sync::atomic::Ordering::Relaxed) == 1usize) { break; } \
                    break; \
                } \
            } \
            if (__hidden_definitely_finished_count.load(::core::sync::atomic::Ordering::Relaxed) == 1usize) { \
                __hidden_arm_1.set(::core::option::Option::None); \
            } \
            let mut __hidden_item_consumed_from_live_stream = false; \
            if (__hidden_definitely_finished_count.load(::core::sync::atomic::Ordering::Relaxed) == 1usize) { \
                break (__hidden_arm_0_output.take().expect(\"this arm can't be cancelled\"), __hidden_arm_1_output.take(),); \
            } else if !__hidden_item_consumed_from_live_stream { \
                ::join_me_maybe::_impl::yield_once().await; \
            } \
        } \
    }";
    assert_eq!(tokens(&rendered).to_string(), tokens(expected).to_string());
}

fn next_word_is(input: ParseStream<'_>, word: &str) -> bool {
    input.cursor().ident().is_some_and(|(ident, _)| ident == word)
}

fn take_word(input: ParseStream<'_>) -> syn::Result<()> {
    input.step(|cursor| match cursor.ident() {
        Some((_, rest)) => Ok(((), rest)),
        None => Err(cursor.error("expected a word")),
    })
}

/// One arm, read with the combinators of the parser.
fn arm_by_combinators(
    input: ParseStream<'_>,
) -> syn::Result<(Option<syn::Ident>, bool, Vec<String>)> {
    let text = |tokens: &dyn quote::ToTokens| visible(tokens.to_token_stream());
    let mut label = None;
    if input.peek(syn::Ident)
        && input.peek2(syn::token::Colon)
        && !input.peek2(syn::token::PathSep)
    {
        label = Some(input.parse::<syn::Ident>()?);
        input.parse::<syn::token::Colon>()?;
    }
    let is_maybe = next_word_is(input, "maybe");
    if is_maybe {
        take_word(input)?;
    }
    let fork = input.fork();
    let captures = syn::Pat::parse_single(&fork).is_ok();
    let mut parts = Vec::new();
    if captures && fork.peek(syn::token::Eq) {
        parts.push(text(&syn::Pat::parse_single(input)?));
        input.parse::<syn::token::Eq>()?;
        parts.push(text(&input.parse::<syn::Expr>()?));
        input.parse::<syn::token::FatArrow>()?;
        parts.push(text(&input.parse::<syn::Expr>()?));
    } else if captures && fork.peek(syn::token::In) {
        parts.push(text(&syn::Pat::parse_single(input)?));
        input.parse::<syn::token::In>()?;
        parts.push(text(&input.parse::<syn::Expr>()?));
        input.parse::<syn::token::FatArrow>()?;
        parts.push(text(&input.parse::<syn::Expr>()?));
        if next_word_is(input, "finally") {
            take_word(input)?;
            parts.push(text(&input.parse::<syn::Expr>()?));
        }
    } else {
        parts.push(text(&input.parse::<syn::Expr>()?));
    }
    Ok((label, is_maybe, parts))
}

/// A join, read with the combinators of the parser.
fn join_by_combinators(
    input: ParseStream<'_>,
) -> syn::Result<Vec<(Option<String>, bool, Vec<String>)>> {
    let mut arms = Vec::new();
    while !input.is_empty() {
        arms.push(arm_by_combinators(input)?);
        if !input.is_empty() {
            if input.peek(syn::token::FatArrow) {
                return Err(input.error(
                    "`[fut] => [body]` is not allowed, you must write `[output] = [fut] => [body]`",
                ));
            }
            input.parse::<syn::token::Comma>()?;
        }
    }
    if arms.iter().all(|(_, is_maybe, _)| *is_maybe) {
        return Err(
            input.error("a `join!` with only `maybe` arms returns immediately and executes nothing")
        );
    }
    let mut labels = HashSet::new();
    for label in arms.iter().filter_map(|(label, _, _)| label.as_ref()) {
        if !labels.insert(label) {
            let message = format!("the label `{}` is used more than once", label);
            return Err(syn::Error::new_spanned(label, message));
        }
    }
    Ok(arms
        .iter()
        .map(|(label, is_maybe, parts)| {
            (label.as_ref().map(|label| label.to_string()), *is_maybe, parts.clone())
        })
        .collect())
}

fn collect(stream: TokenStream, trees: &mut Vec<TokenTree>) {
    for tree in stream {
        let inner = match &tree {
            TokenTree::Group(group) if group.delimiter() == Delimiter::None => group.stream(),
            _ => TokenStream::new(),
        };
        trees.push(tree);
        collect(inner, trees);
    }
}

/// The text of the tokens that can be seen.
fn visible(stream: TokenStream) -> String {
    let mut trees = Vec::new();
    collect(stream, &mut trees);
    let is_hidden = |tree: &TokenTree| match tree {
        TokenTree::Group(group) => group.delimiter() == Delimiter::None,
        _ => false,
    };
    trees.into_iter().filter(|tree| !is_hidden(tree)).collect::<TokenStream>().to_string()
}

/// A join, read with the library.
fn join_by_library(
    stream: &TokenStream,
) -> Result<Vec<(Option<String>, bool, Vec<String>)>, String> {
    let source = Source::read(stream);
    let mut trees = Vec::new();
    collect(stream.clone(), &mut trees);
    let text = |region: Region| {
        let entries = source.cover(region).into_iter();
        visible(entries.map(|entry| trees[entry].clone()).collect())
    };
    match JoinMeMaybe::parse(&source) {
        Ok(join) => Ok(join
            .arms
            .iter()
            .map(|arm| {
                let parts = match arm.kind {
                    ArmKind::FutureOnly { future } => vec![text(future)],
                    ArmKind::FutureAndBody { pattern, future, body } => {
                        vec![text(pattern), text(future), text(body)]
                    }
                    ArmKind::StreamAndBody { pattern, stream, body, finally } => {
                        let mut parts = vec![text(pattern), text(stream), text(body)];
                        parts.extend(finally.map(text));
                        parts
                    }
                };
                (arm.cancel_label.map(|at| trees[at].to_string()), arm.is_maybe, parts)
            })
            .collect()),
        Err(error) => Err(error.message(&source)),
    }
}

/// Holds the library against the combinators, on every list of at most `n` of these tokens.
fn agrees_on(alphabet: &[TokenStream], first: &TokenStream, n: usize) {
    let by_combinators = join_by_combinators.parse2(first.clone());
    let by_library = join_by_library(first);
    assert_eq!(by_combinators.map_err(|error| error.to_string()), by_library, "{:?}", first);
    if n > 0 {
        for token in alphabet {
            let longer = chain(vec![first.clone(), token.clone()]);
            agrees_on(alphabet, &longer, n - 1);
        }
    }
}

#[test]
fn the_grammar_agrees_with_combinators() {
    let alphabet: Vec<TokenStream> =
        ["a", ":", "maybe", "=", "in", "=>", ",", "finally", "::b", "(c)"].map(tokens).into();
    agrees_on(&alphabet, &TokenStream::new(), 4);
    for start in ["a: x in s => b", "maybe x = f => g", "a: c, a", "x = f => b,"] {
        agrees_on(&alphabet, &tokens(start), 2);
    }
}

#[test]
fn the_grammar_agrees_with_combinators_on_hidden_groups() {
    let mut alphabet: Vec<TokenStream> =
        ["a", ":", "=", "=>", ",", "maybe", "in"].map(tokens).into();
    alphabet.extend(
        ["", "a", "b", "x = f", "a : x", "x in", "=> b", ", c", "maybe"].map(hidden),
    );
    agrees_on(&alphabet, &TokenStream::new(), 3);
    agrees_on(&alphabet, &chain(vec![hidden("foo"), tokens(": a,")]), 2);
    agrees_on(&alphabet, &chain(vec![hidden("x = f()"), tokens("=> b,")]), 2);
}

#[test]
fn the_grammar_agrees_with_combinators_on_leftovers() {
    let alphabet: Vec<TokenStream> =
        ["Foo { .., x }", "Foo { ..b, x }", "=", "in", "=>", ",", "maybe", "l:"].map(tokens).into();
    agrees_on(&alphabet, &TokenStream::new(), 4);
    agrees_on(&alphabet, &tokens("a,"), 3);
}
