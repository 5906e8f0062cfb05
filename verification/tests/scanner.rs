use compute::scanner::{DiagnosticKind, Scanner};
use compute::token::{LiteralType, Token, TokenType};

fn scan(src: &str) -> Vec<Token> {
    Scanner::new(src.to_string()).scan()
}

fn scan_with_diags(src: &str) -> (Vec<Token>, Vec<compute::scanner::Diagnostic>) {
    Scanner::new(src.to_string()).scan_report()
}

fn kinds(tokens: &[Token]) -> Vec<TokenType> {
    tokens.iter().map(|t| t.token_type).collect()
}

#[test]
fn empty_input_yields_single_eof() {
    let tokens = scan("");
    assert_eq!(kinds(&tokens), vec![TokenType::EoF]);
    assert_eq!(tokens[0].line, 1);
}

#[test]
fn every_scan_ends_in_eof() {
    for src in ["", "(", "+= 0xFF", "@@@", "0x", "=/", "a b c", "\n\n"] {
        let tokens = scan(src);
        assert!(!tokens.is_empty());
        assert_eq!(tokens.last().unwrap().token_type, TokenType::EoF);
    }
}

#[test]
fn each_single_char_operator_scans_alone() {
    let table = [
        ("(", TokenType::LeftParen),
        (")", TokenType::RightParen),
        ("[", TokenType::LeftBracket),
        ("]", TokenType::RightBracket),
        ("{", TokenType::LeftBrace),
        ("}", TokenType::RightBrace),
        ("+", TokenType::Add),
        ("-", TokenType::Subtract),
        ("/", TokenType::Divide),
        ("*", TokenType::Multiply),
        ("%", TokenType::Modulo),
        (">", TokenType::GreaterThan),
        ("<", TokenType::LessThan),
        ("&", TokenType::BitAnd),
        ("|", TokenType::BitOr),
        ("^", TokenType::BitXOr),
        ("!", TokenType::Exclaim),
        ("=", TokenType::Assign),
        (",", TokenType::Comma),
    ];
    for (src, expected) in table {
        let tokens = scan(src);
        assert_eq!(kinds(&tokens), vec![expected, TokenType::EoF], "input {:?}", src);
    }
}

#[test]
fn maximal_munch_prefers_longest_operator() {
    assert_eq!(kinds(&scan("+=")), vec![TokenType::InAdd, TokenType::EoF]);
    assert_eq!(kinds(&scan(">>=")), vec![TokenType::InBitRShift, TokenType::EoF]);
    assert_eq!(kinds(&scan(">")), vec![TokenType::GreaterThan, TokenType::EoF]);
}

#[test]
fn two_char_operators_scan() {
    assert_eq!(kinds(&scan("++")), vec![TokenType::Increment, TokenType::EoF]);
    assert_eq!(kinds(&scan("--")), vec![TokenType::Decrement, TokenType::EoF]);
    assert_eq!(kinds(&scan("**")), vec![TokenType::Pow, TokenType::EoF]);
    assert_eq!(kinds(&scan(">>")), vec![TokenType::BitRightShift, TokenType::EoF]);
    assert_eq!(kinds(&scan("<<")), vec![TokenType::BitLeftShift, TokenType::EoF]);
    assert_eq!(kinds(&scan(">=")), vec![TokenType::GtOrEqualTo, TokenType::EoF]);
    assert_eq!(kinds(&scan("<=")), vec![TokenType::LtOrEqualTo, TokenType::EoF]);
    assert_eq!(kinds(&scan("==")), vec![TokenType::Equals, TokenType::EoF]);
    assert_eq!(kinds(&scan("!=")), vec![TokenType::InBitNot, TokenType::EoF]);
    assert_eq!(kinds(&scan("&=")), vec![TokenType::InBitAnd, TokenType::EoF]);
    assert_eq!(kinds(&scan("|=")), vec![TokenType::InBitOr, TokenType::EoF]);
    assert_eq!(kinds(&scan("^=")), vec![TokenType::InBitXOr, TokenType::EoF]);
    assert_eq!(kinds(&scan("%=")), vec![TokenType::InModulo, TokenType::EoF]);
    assert_eq!(kinds(&scan("/=")), vec![TokenType::InDivide, TokenType::EoF]);
    assert_eq!(kinds(&scan("*=")), vec![TokenType::InMultiply, TokenType::EoF]);
    assert_eq!(kinds(&scan("-=")), vec![TokenType::InSubtract, TokenType::EoF]);
}

#[test]
fn three_char_operators_scan() {
    assert_eq!(kinds(&scan("=/=")), vec![TokenType::NotEquals, TokenType::EoF]);
    assert_eq!(kinds(&scan("<<=")), vec![TokenType::InBitLShift, TokenType::EoF]);
}

#[test]
fn adjacent_operators_after_two_char_token() {
    assert_eq!(
        kinds(&scan("+=,")),
        vec![TokenType::InAdd, TokenType::Comma, TokenType::EoF]
    );
}

#[test]
fn hex_literal_round_trips() {
    let tokens = scan("0xFF");
    assert_eq!(kinds(&tokens), vec![TokenType::Literal, TokenType::EoF]);
    assert!(matches!(tokens[0].literal, LiteralType::Int(255)));
    assert_eq!(tokens[0].lexeme, "FF");
}

#[test]
fn binary_literal_round_trips() {
    let tokens = scan("0b101");
    assert_eq!(kinds(&tokens), vec![TokenType::Literal, TokenType::EoF]);
    assert!(matches!(tokens[0].literal, LiteralType::Int(5)));
    assert_eq!(tokens[0].lexeme, "101");
}

#[test]
fn octal_literal_round_trips() {
    let tokens = scan("0o17");
    assert_eq!(kinds(&tokens), vec![TokenType::Literal, TokenType::EoF]);
    assert!(matches!(tokens[0].literal, LiteralType::Int(15)));
    assert_eq!(tokens[0].lexeme, "17");
}

#[test]
fn uppercase_radix_markers_work() {
    let tokens = scan("0XfF");
    assert!(matches!(tokens[0].literal, LiteralType::Int(255)));
    let tokens = scan("0B11");
    assert!(matches!(tokens[0].literal, LiteralType::Int(3)));
    let tokens = scan("0O7");
    assert!(matches!(tokens[0].literal, LiteralType::Int(7)));
}

#[test]
fn largest_literal_fits() {
    let tokens = scan("0x7FFFFFFF");
    assert!(matches!(tokens[0].literal, LiteralType::Int(2147483647)));
}

#[test]
fn literal_above_range_reports_bad_number() {
    let (tokens, diags) = scan_with_diags("0x80000000");
    assert_eq!(kinds(&tokens), vec![TokenType::EoF]);
    assert_eq!(diags.len(), 1);
    assert_eq!(diags[0].kind, DiagnosticKind::BadNumber);
}

#[test]
fn empty_radix_literal_recovers() {
    let (tokens, diags) = scan_with_diags("0x(");
    assert_eq!(kinds(&tokens), vec![TokenType::LeftParen, TokenType::EoF]);
    assert_eq!(diags.len(), 1);
    assert_eq!(diags[0].kind, DiagnosticKind::NoNumber);
    assert_eq!(diags[0].line, 1);
}

#[test]
fn bare_prefix_at_end_reports_no_number() {
    let (tokens, diags) = scan_with_diags("0x");
    assert_eq!(kinds(&tokens), vec![TokenType::EoF]);
    assert_eq!(diags.len(), 1);
    assert_eq!(diags[0].kind, DiagnosticKind::NoNumber);
}

#[test]
fn unexpected_char_recovers() {
    let (tokens, diags) = scan_with_diags("@(");
    assert_eq!(
        kinds(&tokens),
        vec![TokenType::Error, TokenType::LeftParen, TokenType::EoF]
    );
    assert_eq!(diags.len(), 1);
    assert_eq!(diags[0].kind, DiagnosticKind::UnexpectedChar('@'));
    assert_eq!(diags[0].line, 1);
    assert_eq!(diags[0].column, 1);
}

#[test]
fn bare_digits_fall_to_unexpected_path() {
    let (tokens, diags) = scan_with_diags("07");
    assert_eq!(kinds(&tokens), vec![TokenType::Error, TokenType::Error, TokenType::EoF]);
    assert_eq!(diags.len(), 2);
    assert_eq!(diags[0].kind, DiagnosticKind::UnexpectedChar('0'));
    assert_eq!(diags[1].kind, DiagnosticKind::UnexpectedChar('7'));
}

#[test]
fn malformed_not_equals_reports_third_char() {
    let (tokens, diags) = scan_with_diags("=/x");
    assert_eq!(kinds(&tokens), vec![TokenType::Error, TokenType::EoF]);
    assert_eq!(diags.len(), 1);
    assert_eq!(diags[0].kind, DiagnosticKind::UnexpectedChar('x'));
}

#[test]
fn malformed_not_equals_at_end_of_input() {
    let (tokens, diags) = scan_with_diags("=/");
    assert_eq!(kinds(&tokens), vec![TokenType::Error, TokenType::EoF]);
    assert_eq!(diags.len(), 1);
    assert_eq!(diags[0].kind, DiagnosticKind::UnexpectedChar('\0'));
}

#[test]
fn whitespace_is_skipped() {
    assert_eq!(kinds(&scan(" \t( \t")), vec![TokenType::LeftParen, TokenType::EoF]);
}

#[test]
fn newline_increments_line_counter() {
    let tokens = scan("(\n)");
    assert_eq!(
        kinds(&tokens),
        vec![TokenType::LeftParen, TokenType::RightParen, TokenType::EoF]
    );
    assert_eq!(tokens[0].line, 1);
    assert_eq!(tokens[1].line, 2);
    assert_eq!(tokens[2].line, 2);
}

#[test]
fn column_advances_once_per_token() {
    let (_, diags) = scan_with_diags("@@");
    assert_eq!(diags.len(), 2);
    assert_eq!(diags[0].column, 1);
    assert_eq!(diags[1].column, 2);
}

#[test]
fn plain_tokens_carry_empty_lexeme() {
    let tokens = scan("(");
    assert_eq!(tokens[0].lexeme, "");
    assert!(matches!(tokens[0].literal, LiteralType::Other));
}

#[test]
fn token_new_sets_fields() {
    let t = Token::new(TokenType::Literal, LiteralType::Int(9), 4, "9".to_string());
    assert_eq!(t.token_type, TokenType::Literal);
    assert!(matches!(t.literal, LiteralType::Int(9)));
    assert_eq!(t.line, 4);
    assert_eq!(t.lexeme, "9");
}

#[test]
fn mixed_input_keeps_source_order() {
    let (tokens, diags) = scan_with_diags("0x 0b10,@");
    assert_eq!(
        kinds(&tokens),
        vec![
            TokenType::Literal,
            TokenType::Comma,
            TokenType::Error,
            TokenType::EoF
        ]
    );
    assert!(matches!(tokens[0].literal, LiteralType::Int(2)));
    assert_eq!(diags.len(), 2);
    assert_eq!(diags[0].kind, DiagnosticKind::NoNumber);
    assert_eq!(diags[1].kind, DiagnosticKind::UnexpectedChar('@'));
}
