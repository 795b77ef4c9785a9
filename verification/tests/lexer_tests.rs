use beatsaber::lexer::{lexer, Token};

#[test]
fn simple_lex() {
    let src = b"a. // yeet is increment\n";
    let mut lex = lexer(src);
    let (t, sp) = lex.next().unwrap();
    assert_eq!(t, Token::Identifier);
    assert_eq!(&src[sp.start..sp.end], b"a");
    let (t, sp) = lex.next().unwrap();
    assert_eq!(t, Token::Operator);
    assert_eq!(&src[sp.start..sp.end], b".");
    let (t, sp) = lex.next().unwrap();
    assert_eq!(t, Token::BehaviourStart);
    assert_eq!(&src[sp.start..sp.end], b"//");
    let (t, sp) = lex.next().unwrap();
    assert_eq!(t, Token::Discard);
    assert_eq!(&src[sp.start..sp.end], b"yeet");
    let (t, sp) = lex.next().unwrap();
    assert_eq!(t, Token::Is);
    assert_eq!(&src[sp.start..sp.end], b"is");
    let (t, sp) = lex.next().unwrap();
    assert_eq!(t, Token::Identifier);
    assert_eq!(&src[sp.start..sp.end], b"increment");
    let (t, _) = lex.next().unwrap();
    assert_eq!(t, Token::Newline);
}

#[test]
fn complex_lex() {
    let src = b"* Recursive fibonacci to get the nth number in the sequence ****
// fib is with n
// still in fib one is 1
// still in fib two is 2
n.two // still in fib cond is less
n // still in fib if cond return is
(n.one)..(n.two). // still in fib return is sub then fib then sub then fib then add
// malloc is not here
// multiply is with a and b
";
    let mut lex = lexer(src);
    // Comments are ignored, the newline after a comment stays a newline.
    assert_eq!(lex.next().unwrap().0, Token::Newline);
    assert_eq!(lex.next().unwrap().0, Token::BehaviourStart);
    assert_eq!(lex.next().unwrap().0, Token::Identifier);
    assert_eq!(lex.next().unwrap().0, Token::Is);
    assert_eq!(lex.next().unwrap().0, Token::With);
    let (t, sp) = lex.next().unwrap();
    assert_eq!(t, Token::Identifier);
    assert_eq!(&src[sp.start..sp.end], b"n");
    assert_eq!(lex.next().unwrap().0, Token::Newline);

    assert_eq!(lex.next().unwrap().0, Token::BehaviourStart);
    assert_eq!(lex.next().unwrap().0, Token::StillIn);
    let (t, sp) = lex.next().unwrap();
    assert_eq!(t, Token::Identifier);
    assert_eq!(&src[sp.start..sp.end], b"fib");
    let (t, sp) = lex.next().unwrap();
    assert_eq!(t, Token::Identifier);
    assert_eq!(&src[sp.start..sp.end], b"one");
    assert_eq!(lex.next().unwrap().0, Token::Is);
    assert_eq!(lex.next().unwrap().0, Token::Number(1));
    assert_eq!(lex.next().unwrap().0, Token::Newline);

    assert_eq!(lex.next().unwrap().0, Token::BehaviourStart);
    assert_eq!(lex.next().unwrap().0, Token::StillIn);
    let (t, sp) = lex.next().unwrap();
    assert_eq!(t, Token::Identifier);
    assert_eq!(&src[sp.start..sp.end], b"fib");
    let (t, sp) = lex.next().unwrap();
    assert_eq!(t, Token::Identifier);
    assert_eq!(&src[sp.start..sp.end], b"two");
    assert_eq!(lex.next().unwrap().0, Token::Is);
    assert_eq!(lex.next().unwrap().0, Token::Number(2));
    assert_eq!(lex.next().unwrap().0, Token::Newline);

    let (t, sp) = lex.next().unwrap();
    assert_eq!(t, Token::Identifier);
    assert_eq!(&src[sp.start..sp.end], b"n");
    assert_eq!(lex.next().unwrap().0, Token::Operator);
    let (t, sp) = lex.next().unwrap();
    assert_eq!(t, Token::Identifier);
    assert_eq!(&src[sp.start..sp.end], b"two");
    assert_eq!(lex.next().unwrap().0, Token::BehaviourStart);
    assert_eq!(lex.next().unwrap().0, Token::StillIn);
    let (t, sp) = lex.next().unwrap();
    assert_eq!(t, Token::Identifier);
    assert_eq!(&src[sp.start..sp.end], b"fib");
    let (t, sp) = lex.next().unwrap();
    assert_eq!(t, Token::Identifier);
    assert_eq!(&src[sp.start..sp.end], b"cond");
    assert_eq!(lex.next().unwrap().0, Token::Is);
    let (t, sp) = lex.next().unwrap();
    assert_eq!(t, Token::Identifier);
    assert_eq!(&src[sp.start..sp.end], b"less");
    assert_eq!(lex.next().unwrap().0, Token::Newline);

    let (t, sp) = lex.next().unwrap();
    assert_eq!(t, Token::Identifier);
    assert_eq!(&src[sp.start..sp.end], b"n");
    assert_eq!(lex.next().unwrap().0, Token::BehaviourStart);
    assert_eq!(lex.next().unwrap().0, Token::StillIn);
    let (t, sp) = lex.next().unwrap();
    assert_eq!(t, Token::Identifier);
    assert_eq!(&src[sp.start..sp.end], b"fib");
    assert_eq!(lex.next().unwrap().0, Token::If);
    let (t, sp) = lex.next().unwrap();
    assert_eq!(t, Token::Identifier);
    assert_eq!(&src[sp.start..sp.end], b"cond");
    assert_eq!(lex.next().unwrap().0, Token::Return);
    assert_eq!(lex.next().unwrap().0, Token::Is);
    assert_eq!(lex.next().unwrap().0, Token::Newline);

    assert_eq!(lex.next().unwrap().0, Token::ParenLeft);
    let (t, sp) = lex.next().unwrap();
    assert_eq!(t, Token::Identifier);
    assert_eq!(&src[sp.start..sp.end], b"n");
    assert_eq!(lex.next().unwrap().0, Token::Operator);
    let (t, sp) = lex.next().unwrap();
    assert_eq!(t, Token::Identifier);
    assert_eq!(&src[sp.start..sp.end], b"one");
    assert_eq!(lex.next().unwrap().0, Token::ParenRight);
    assert_eq!(lex.next().unwrap().0, Token::Operator);
    assert_eq!(lex.next().unwrap().0, Token::Operator);
    assert_eq!(lex.next().unwrap().0, Token::ParenLeft);
    let (t, sp) = lex.next().unwrap();
    assert_eq!(t, Token::Identifier);
    assert_eq!(&src[sp.start..sp.end], b"n");
    assert_eq!(lex.next().unwrap().0, Token::Operator);
    let (t, sp) = lex.next().unwrap();
    assert_eq!(t, Token::Identifier);
    assert_eq!(&src[sp.start..sp.end], b"two");
    assert_eq!(lex.next().unwrap().0, Token::ParenRight);
    assert_eq!(lex.next().unwrap().0, Token::Operator);
    assert_eq!(lex.next().unwrap().0, Token::BehaviourStart);
    assert_eq!(lex.next().unwrap().0, Token::StillIn);
    let (t, sp) = lex.next().unwrap();
    assert_eq!(t, Token::Identifier);
    assert_eq!(&src[sp.start..sp.end], b"fib");
    assert_eq!(lex.next().unwrap().0, Token::Return);
    assert_eq!(lex.next().unwrap().0, Token::Is);
    let (t, sp) = lex.next().unwrap();
    assert_eq!(t, Token::Identifier);
    assert_eq!(&src[sp.start..sp.end], b"sub");
    assert_eq!(lex.next().unwrap().0, Token::Then);
    let (t, sp) = lex.next().unwrap();
    assert_eq!(t, Token::Identifier);
    assert_eq!(&src[sp.start..sp.end], b"fib");
    assert_eq!(lex.next().unwrap().0, Token::Then);
    let (t, sp) = lex.next().unwrap();
    assert_eq!(t, Token::Identifier);
    assert_eq!(&src[sp.start..sp.end], b"sub");
    assert_eq!(lex.next().unwrap().0, Token::Then);
    let (t, sp) = lex.next().unwrap();
    assert_eq!(t, Token::Identifier);
    assert_eq!(&src[sp.start..sp.end], b"fib");
    assert_eq!(lex.next().unwrap().0, Token::Then);
    let (t, sp) = lex.next().unwrap();
    assert_eq!(t, Token::Identifier);
    assert_eq!(&src[sp.start..sp.end], b"add");
    assert_eq!(lex.next().unwrap().0, Token::Newline);

    assert_eq!(lex.next().unwrap().0, Token::BehaviourStart);
    let (t, sp) = lex.next().unwrap();
    assert_eq!(t, Token::Identifier);
    assert_eq!(&src[sp.start..sp.end], b"malloc");
    assert_eq!(lex.next().unwrap().0, Token::Is);
    assert_eq!(lex.next().unwrap().0, Token::NotHere);
    assert_eq!(lex.next().unwrap().0, Token::Newline);

    assert_eq!(lex.next().unwrap().0, Token::BehaviourStart);
    let (t, sp) = lex.next().unwrap();
    assert_eq!(t, Token::Identifier);
    assert_eq!(&src[sp.start..sp.end], b"multiply");
    assert_eq!(lex.next().unwrap().0, Token::Is);
    assert_eq!(lex.next().unwrap().0, Token::With);
    let (t, sp) = lex.next().unwrap();
    assert_eq!(t, Token::Identifier);
    assert_eq!(&src[sp.start..sp.end], b"a");
    assert_eq!(lex.next().unwrap().0, Token::And);
    let (t, sp) = lex.next().unwrap();
    assert_eq!(t, Token::Identifier);
    assert_eq!(&src[sp.start..sp.end], b"b");
}

#[test]
fn discard_words_lex_to_discard_with_their_slices() {
    let src = b"yeet fuckall";
    let mut lex = lexer(src);
    let (t, sp) = lex.next().unwrap();
    assert_eq!(t, Token::Discard);
    assert_eq!(&src[sp.start..sp.end], b"yeet");
    let (t, sp) = lex.next().unwrap();
    assert_eq!(t, Token::Discard);
    assert_eq!(&src[sp.start..sp.end], b"fuckall");
    assert!(lex.next().is_none());
}

#[test]
fn compound_keywords_lex_as_single_tokens() {
    let src = b"not here still in";
    let mut lex = lexer(src);
    let (t, sp) = lex.next().unwrap();
    assert_eq!(t, Token::NotHere);
    assert_eq!(&src[sp.start..sp.end], b"not here");
    let (t, sp) = lex.next().unwrap();
    assert_eq!(t, Token::StillIn);
    assert_eq!(&src[sp.start..sp.end], b"still in");
    assert!(lex.next().is_none());
}

#[test]
fn nothere_without_space_is_an_identifier() {
    let src = b"nothere";
    let mut lex = lexer(src);
    let (t, sp) = lex.next().unwrap();
    assert_eq!(t, Token::Identifier);
    assert_eq!(&src[sp.start..sp.end], b"nothere");
    assert!(lex.next().is_none());
}

#[test]
fn keyword_prefixes_fall_back_to_identifiers() {
    let src = b"island ifx yeets returning";
    let mut lex = lexer(src);
    for expected in [&b"island"[..], b"ifx", b"yeets", b"returning"] {
        let (t, sp) = lex.next().unwrap();
        assert_eq!(t, Token::Identifier);
        assert_eq!(&src[sp.start..sp.end], expected);
    }
    assert!(lex.next().is_none());
}

#[test]
fn comment_yields_single_newline() {
    // The comment body is skipped whole; its terminating newline remains.
    let src = b"* a comment with yeet and is inside\nx";
    let mut lex = lexer(src);
    let (t, sp) = lex.next().unwrap();
    assert_eq!(t, Token::Newline);
    assert_eq!(sp.start, 35);
    assert_eq!(sp.end, 36);
    let (t, sp) = lex.next().unwrap();
    assert_eq!(t, Token::Identifier);
    assert_eq!(&src[sp.start..sp.end], b"x");
    assert!(lex.next().is_none());
}

#[test]
fn whitespace_only_lines_give_one_newline_each() {
    // Two LF and one FF: exactly three Newline tokens, nothing else.
    let src = b" \t\r\n   \x0c\t\n";
    let mut lex = lexer(src);
    let mut newlines = 0;
    while let Some((t, _)) = lex.next() {
        assert_eq!(t, Token::Newline);
        newlines += 1;
    }
    assert_eq!(newlines, 3);
}

#[test]
fn numbers_parse_and_huge_numbers_are_errors() {
    let src = b"42 18446744073709551615 18446744073709551616";
    let mut lex = lexer(src);
    assert_eq!(lex.next().unwrap().0, Token::Number(42));
    assert_eq!(lex.next().unwrap().0, Token::Number(usize::MAX));
    let (t, sp) = lex.next().unwrap();
    assert_eq!(t, Token::Error);
    assert_eq!(&src[sp.start..sp.end], b"18446744073709551616");
    assert!(lex.next().is_none());
}

#[test]
fn unknown_bytes_are_error_tokens() {
    let src = b"%";
    let mut lex = lexer(src);
    let (t, sp) = lex.next().unwrap();
    assert_eq!(t, Token::Error);
    assert_eq!(sp.start, 0);
    assert_eq!(sp.end, 1);
}

#[test]
fn peek_does_not_consume() {
    let src = b"goto x";
    let mut lex = lexer(src);
    assert_eq!(lex.peek().unwrap().0, Token::Goto);
    assert_eq!(lex.peek().unwrap().0, Token::Goto);
    assert_eq!(lex.next().unwrap().0, Token::Goto);
    assert_eq!(lex.next().unwrap().0, Token::Identifier);
}

#[test]
fn monch_returns_span_or_rejects() {
    let src = b"is x";
    let mut lex = lexer(src);
    let sp = lex.monch(Token::Is).unwrap();
    assert_eq!(&src[sp.start..sp.end], b"is");
    assert!(lex.monch(Token::Newline).is_err());
}
