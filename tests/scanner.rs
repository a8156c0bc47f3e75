use clox::scanner::{ScanError, Scanner, TokenData, TT};

#[test]
fn check_basics() {
    let mut s = Scanner::new(&"(){};,.-+/*");

    assert_eq!(s.scan_token().typ, TT::LeftParen);
    assert_eq!(s.scan_token().typ, TT::RightParen);
    assert_eq!(s.scan_token().typ, TT::LeftBrace);
    assert_eq!(s.scan_token().typ, TT::RightBrace);
    assert_eq!(s.scan_token().typ, TT::Semicolon);
    assert_eq!(s.scan_token().typ, TT::Comma);
    assert_eq!(s.scan_token().typ, TT::Dot);
    assert_eq!(s.scan_token().typ, TT::Minus);
    assert_eq!(s.scan_token().typ, TT::Plus);
    assert_eq!(s.scan_token().typ, TT::Slash);
    assert_eq!(s.scan_token().typ, TT::Star);
    assert_eq!(s.scan_token().typ, TT::Eof);
}

#[test]
fn check_long_ops() {
    let mut s = Scanner::new(&"! != = == < <= > >= ");

    assert_eq!(s.scan_token().typ, TT::Bang);
    assert_eq!(s.scan_token().typ, TT::BangEqual);
    assert_eq!(s.scan_token().typ, TT::Equal);
    assert_eq!(s.scan_token().typ, TT::EqualEqual);
    assert_eq!(s.scan_token().typ, TT::Less);
    assert_eq!(s.scan_token().typ, TT::LessEqual);
    assert_eq!(s.scan_token().typ, TT::Greater);
    assert_eq!(s.scan_token().typ, TT::GreaterEqual);
    assert_eq!(s.scan_token().typ, TT::Eof);
}

#[test]
fn check_whitespace() {
    let mut s = Scanner::new(&" \t\n");

    assert_eq!(s.scan_token().typ, TT::Eof);
}

#[test]
fn check_single_line_comment() {
    let mut s = Scanner::new(&"; // hello world\n ;");

    assert_eq!(s.scan_token().typ, TT::Semicolon);
    assert_eq!(s.scan_token().typ, TT::Semicolon);
    assert_eq!(s.scan_token().typ, TT::Eof);
}

#[test]
fn check_string() {
    let mut s = Scanner::new(&r###";"hello \n worl";"###);

    assert_eq!(s.scan_token().typ, TT::Semicolon);
    assert_eq!(s.scan_token().typ, TT::String);
    assert_eq!(s.scan_token().typ, TT::Semicolon);
    assert_eq!(s.scan_token().typ, TT::Eof);
}

#[test]
fn check_invalid_string() {
    let _expected_error = "Unterminated string.";
    let mut s = Scanner::new(&r###""hello "###);
    assert_eq!(s.scan_token().typ, TT::Error);
    let _error = s.scan_token().data;
}

#[test]
fn check_number() {
    let mut s = Scanner::new(&"123");

    assert_eq!(s.scan_token().typ, TT::Number);
    assert_eq!(s.scan_token().typ, TT::Eof);

    let mut s2 = Scanner::new(&"123.42");

    assert_eq!(s2.scan_token().typ, TT::Number);
    assert_eq!(s2.scan_token().typ, TT::Eof);
}

#[test]
fn unterminated_string_reports_its_reason_and_line() {
    let mut s = Scanner::new("\"ab\ncd");
    let t = s.scan_token();
    assert_eq!(t.typ, TT::Error);
    assert_eq!(t.data, TokenData::Message(ScanError::UnterminatedString));
    assert_eq!(t.line, 2);
    assert_eq!(s.scan_token().typ, TT::Eof);
}

#[test]
fn lexeme_spans_and_lines() {
    let mut s = Scanner::new("a1 >=\n  12.5.x \"q\nr\"");
    let t = s.scan_token();
    assert_eq!((t.typ, t.data, t.line), (TT::Identifier, TokenData::Lexeme(0, 2), 1));
    let t = s.scan_token();
    assert_eq!((t.typ, t.data, t.line), (TT::GreaterEqual, TokenData::Lexeme(3, 5), 1));
    let t = s.scan_token();
    assert_eq!((t.typ, t.data, t.line), (TT::Number, TokenData::Lexeme(8, 12), 2));
    let t = s.scan_token();
    assert_eq!((t.typ, t.data), (TT::Dot, TokenData::Lexeme(12, 13)));
    let t = s.scan_token();
    assert_eq!((t.typ, t.data), (TT::Identifier, TokenData::Lexeme(13, 14)));
    let t = s.scan_token();
    assert_eq!((t.typ, t.data, t.line), (TT::String, TokenData::Lexeme(15, 20), 3));
    assert_eq!(s.scan_token().typ, TT::Eof);
    assert_eq!(s.scan_token().typ, TT::Eof);
}

#[test]
fn keywords_and_identifiers() {
    let src = "and class else false for fun if nil or print return super this true var while \
               an classy f fo funny i orr t thi whilst _x";
    let mut s = Scanner::new(src);
    let expected = [
        TT::And,
        TT::Class,
        TT::Else,
        TT::False,
        TT::For,
        TT::Fun,
        TT::If,
        TT::Nil,
        TT::Or,
        TT::Print,
        TT::Return,
        TT::Super,
        TT::This,
        TT::True,
        TT::Var,
        TT::While,
    ];
    for tt in expected {
        assert_eq!(s.scan_token().typ, tt);
    }
    for _ in 0..11 {
        assert_eq!(s.scan_token().typ, TT::Identifier);
    }
    assert_eq!(s.scan_token().typ, TT::Eof);
}

#[test]
fn unexpected_character_is_an_error_token() {
    let mut s = Scanner::new("@;");
    let t = s.scan_token();
    assert_eq!(t.typ, TT::Error);
    assert_eq!(t.data, TokenData::Message(ScanError::UnexpectedCharacter));
    assert_eq!(s.scan_token().typ, TT::Semicolon);
}

#[test]
fn slash_at_end_of_source() {
    let mut s = Scanner::new("1/");
    assert_eq!(s.scan_token().typ, TT::Number);
    assert_eq!(s.scan_token().typ, TT::Slash);
    assert_eq!(s.scan_token().typ, TT::Eof);
}
