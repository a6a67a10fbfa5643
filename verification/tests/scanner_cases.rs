use std::borrow::Cow;

use flog_compiler::error::ParserError;
use flog_compiler::lexer::token::{Token, TokenType};
use flog_compiler::lexer::Lexer;

fn scan(source: &str) -> Vec<(TokenType, String)> {
    Lexer::new(source)
        .drain()
        .into_iter()
        .map(|token| (token.toktype, token.literal.into_owned()))
        .collect()
}

fn scan_bytes(source: &[u8]) -> Vec<(TokenType, String)> {
    Lexer::new_with_bytes(source)
        .drain()
        .into_iter()
        .map(|token| (token.toktype, token.literal.into_owned()))
        .collect()
}

fn pairs(expected: &[(TokenType, &str)]) -> Vec<(TokenType, String)> {
    expected.iter().map(|(kind, text)| (*kind, text.to_string())).collect()
}

#[test]
fn empty_input_has_no_token() {
    let mut lexer = Lexer::new("");
    assert!(lexer.next_token().is_none());
    assert!(lexer.next_token().is_none());
    assert!(Lexer::new("").drain().is_empty());
}

#[test]
fn whitespace_only_has_no_token() {
    for source in [" ", "\t", "\n", "\r", "\x0c", " \t\r\n\x0c  \n\n"] {
        let mut lexer = Lexer::new(source);
        assert!(lexer.next().is_none(), "{source:?}");
        assert!(scan(source).is_empty(), "{source:?}");
    }
}

#[test]
fn vertical_tab_is_not_whitespace() {
    assert_eq!(scan("\x0b"), pairs(&[(TokenType::Illegal, "\x0b")]));
}

#[test]
fn comment_only_has_no_token() {
    for source in [
        "`a comment`",
        "`a comment\n",
        "``",
        "`\n",
        "`",
        "`never closed",
        "`with \"quotes\" and \\ and 12.5 inside`",
    ] {
        let mut lexer = Lexer::new(source);
        assert!(lexer.next().is_none(), "{source:?}");
        assert!(scan(source).is_empty(), "{source:?}");
    }
}

#[test]
fn comment_ends_at_first_backtick_or_line_feed() {
    assert_eq!(scan("`one`1"), pairs(&[(TokenType::Integer, "1")]));
    assert_eq!(scan("`one\n1"), pairs(&[(TokenType::Integer, "1")]));
    assert_eq!(
        scan("`one`two`three"),
        pairs(&[(TokenType::Variable, "two")])
    );
    assert_eq!(
        scan("1 `a` 2 `b\n 3 `c"),
        pairs(&[
            (TokenType::Integer, "1"),
            (TokenType::Integer, "2"),
            (TokenType::Integer, "3"),
        ])
    );
}

#[test]
fn end_of_stream_is_reported_again() {
    let mut lexer = Lexer::new("a ");
    assert!(lexer.next_token().is_some());
    for _ in 0..4 {
        assert!(lexer.next_token().is_none());
    }
    assert!(lexer.drain().is_empty());
}

#[test]
fn every_symbol_has_its_category() {
    let table = [
        (".", TokenType::Period),
        (",", TokenType::Comma),
        ("+", TokenType::Plus),
        ("-", TokenType::Minus),
        ("*", TokenType::Star),
        ("/", TokenType::Slash),
        ("\\", TokenType::Backslash),
        ("|", TokenType::Vert),
        ("!", TokenType::Bang),
        ("=", TokenType::Equal),
        ("<", TokenType::Less),
        (">", TokenType::Great),
        ("@", TokenType::At),
        ("^", TokenType::Hat),
        ("_", TokenType::Underscore),
        ("#", TokenType::Sharp),
        ("%", TokenType::Percent),
        ("&", TokenType::Ampersand),
        ("$", TokenType::Dollar),
        ("~", TokenType::Tilde),
        (":", TokenType::Colon),
        (";", TokenType::Semicolon),
        ("'", TokenType::Quote),
        ("(", TokenType::LeftParen),
        (")", TokenType::RightParen),
        ("{", TokenType::LeftBracket),
        ("}", TokenType::RightBracket),
        ("[", TokenType::LeftSquare),
        ("]", TokenType::RightSquare),
    ];
    for (source, kind) in table {
        assert_eq!(scan(source), pairs(&[(kind, source)]), "{source:?}");
    }
    let all: String = table.iter().map(|(source, _)| *source).collect();
    let expected: Vec<(TokenType, String)> =
        table.iter().map(|(source, kind)| (*kind, source.to_string())).collect();
    assert_eq!(scan(&all), expected);
}

#[test]
fn every_keyword_has_its_category() {
    let table = [
        ("A", TokenType::AssignPop),
        ("C", TokenType::Assign),
        ("D", TokenType::Decrement),
        ("E", TokenType::Exponent),
        ("F", TokenType::FloatType),
        ("H", TokenType::Hashmap),
        ("I", TokenType::IntegerType),
        ("L", TokenType::Loop),
        ("LK", TokenType::LoopKey),
        ("LV", TokenType::LoopValue),
        ("M", TokenType::Mapping),
        ("P", TokenType::Print),
        ("U", TokenType::Increment),
    ];
    for (source, kind) in table {
        assert_eq!(scan(source), pairs(&[(kind, source)]), "{source:?}");
    }
}

#[test]
fn other_capitals_are_illegal() {
    for source in ["B", "G", "J", "K", "N", "O", "Q", "R", "S", "T", "V", "W", "X", "Y", "Z"] {
        assert_eq!(scan(source), pairs(&[(TokenType::Illegal, source)]), "{source:?}");
    }
}

#[test]
fn unrecognised_bytes_are_illegal_one_by_one() {
    assert_eq!(
        scan("?\x00\x7f"),
        pairs(&[
            (TokenType::Illegal, "?"),
            (TokenType::Illegal, "\x00"),
            (TokenType::Illegal, "\x7f"),
        ])
    );
}

#[test]
fn text_outside_strings_is_illegal_byte_by_byte() {
    // Two bytes encode the letter; each alone is ill-formed and is replaced.
    assert_eq!(
        scan("é"),
        pairs(&[(TokenType::Illegal, "\u{fffd}"), (TokenType::Illegal, "\u{fffd}")])
    );
    assert_eq!(
        scan_bytes(&[0xff, b'a']),
        pairs(&[(TokenType::Illegal, "\u{fffd}"), (TokenType::Variable, "a")])
    );
}

#[test]
fn compound_keywords_need_the_second_letter() {
    assert_eq!(
        scan("LLV@LK"),
        pairs(&[
            (TokenType::Loop, "L"),
            (TokenType::LoopValue, "LV"),
            (TokenType::At, "@"),
            (TokenType::LoopKey, "LK"),
        ])
    );
    assert_eq!(
        scan("LX"),
        pairs(&[(TokenType::Loop, "L"), (TokenType::Illegal, "X")])
    );
    assert_eq!(
        scan("L K"),
        pairs(&[(TokenType::Loop, "L"), (TokenType::Illegal, "K")])
    );
    assert_eq!(
        scan("LKV"),
        pairs(&[(TokenType::LoopKey, "LK"), (TokenType::Illegal, "V")])
    );
    assert_eq!(
        scan("Lk"),
        pairs(&[(TokenType::Loop, "L"), (TokenType::Variable, "k")])
    );
}

#[test]
fn numbers_take_the_longest_run() {
    assert_eq!(scan("0"), pairs(&[(TokenType::Integer, "0")]));
    assert_eq!(scan("007"), pairs(&[(TokenType::Integer, "007")]));
    assert_eq!(scan("12."), pairs(&[(TokenType::Float, "12.")]));
    assert_eq!(scan("-."), pairs(&[(TokenType::Float, "-.")]));
    assert_eq!(scan("-5."), pairs(&[(TokenType::Float, "-5.")]));
    assert_eq!(
        scan("1.2.3"),
        pairs(&[
            (TokenType::Float, "1.2"),
            (TokenType::Period, "."),
            (TokenType::Integer, "3"),
        ])
    );
    assert_eq!(
        scan(".5"),
        pairs(&[(TokenType::Period, "."), (TokenType::Integer, "5")])
    );
    assert_eq!(
        scan("12ab34"),
        pairs(&[
            (TokenType::Integer, "12"),
            (TokenType::Variable, "ab"),
            (TokenType::Integer, "34"),
        ])
    );
    assert_eq!(
        scan("3.14+2"),
        pairs(&[
            (TokenType::Float, "3.14"),
            (TokenType::Plus, "+"),
            (TokenType::Integer, "2"),
        ])
    );
}

#[test]
fn minus_is_a_sign_before_a_digit_or_a_period() {
    assert_eq!(scan("-"), pairs(&[(TokenType::Minus, "-")]));
    assert_eq!(
        scan("--"),
        pairs(&[(TokenType::Minus, "-"), (TokenType::Minus, "-")])
    );
    assert_eq!(
        scan("- 1"),
        pairs(&[(TokenType::Minus, "-"), (TokenType::Integer, "1")])
    );
    assert_eq!(
        scan("-a"),
        pairs(&[(TokenType::Minus, "-"), (TokenType::Variable, "a")])
    );
    assert_eq!(
        scan("1-1"),
        pairs(&[(TokenType::Integer, "1"), (TokenType::Integer, "-1")])
    );
    assert_eq!(
        scan("a-.5"),
        pairs(&[(TokenType::Variable, "a"), (TokenType::Float, "-.5")])
    );
    assert_eq!(
        scan("--7"),
        pairs(&[(TokenType::Minus, "-"), (TokenType::Integer, "-7")])
    );
}

#[test]
fn variables_are_runs_of_lowercase_letters() {
    assert_eq!(scan("a"), pairs(&[(TokenType::Variable, "a")]));
    assert_eq!(scan("azbycx"), pairs(&[(TokenType::Variable, "azbycx")]));
    assert_eq!(
        scan("foo_bar"),
        pairs(&[
            (TokenType::Variable, "foo"),
            (TokenType::Underscore, "_"),
            (TokenType::Variable, "bar"),
        ])
    );
    assert_eq!(
        scan("fooD"),
        pairs(&[(TokenType::Variable, "foo"), (TokenType::Decrement, "D")])
    );
    assert_eq!(
        scan("x1"),
        pairs(&[(TokenType::Variable, "x"), (TokenType::Integer, "1")])
    );
}

#[test]
fn strings_decode_each_escape() {
    assert_eq!(scan("\"\""), pairs(&[(TokenType::String, "")]));
    assert_eq!(scan("\"a\\nb\""), pairs(&[(TokenType::String, "a\nb")]));
    assert_eq!(scan("\"a\\tb\""), pairs(&[(TokenType::String, "a\tb")]));
    assert_eq!(scan("\"a\\\\b\""), pairs(&[(TokenType::String, "a\\b")]));
    assert_eq!(scan("\"a\\\"b\""), pairs(&[(TokenType::String, "a\"b")]));
    assert_eq!(
        scan("\"\\n\\t\\\\\\\"\""),
        pairs(&[(TokenType::String, "\n\t\\\"")])
    );
}

#[test]
fn strings_keep_everything_else() {
    assert_eq!(
        scan("\"`not a comment`\n 12 -3 L\""),
        pairs(&[(TokenType::String, "`not a comment`\n 12 -3 L")])
    );
    assert_eq!(
        scan("\"a\"\"b\""),
        pairs(&[(TokenType::String, "a"), (TokenType::String, "b")])
    );
    assert_eq!(
        scan("\"ども\"x"),
        pairs(&[(TokenType::String, "ども"), (TokenType::Variable, "x")])
    );
}

#[test]
fn escapes_between_characters_of_any_width_decode() {
    assert_eq!(
        scan("\"ど\\nも\\t\u{1f980}\\\"é\""),
        pairs(&[(TokenType::String, "ど\nも\t\u{1f980}\"é")])
    );
}

#[test]
fn unterminated_string_is_illegal_with_the_whole_span() {
    assert_eq!(scan("\""), pairs(&[(TokenType::Illegal, "\"")]));
    assert_eq!(
        scan("1 \"abc\\n def"),
        pairs(&[(TokenType::Integer, "1"), (TokenType::Illegal, "\"abc\\n def")])
    );
    assert_eq!(
        scan("\"ども"),
        pairs(&[(TokenType::Illegal, "\"ども")])
    );
}

#[test]
fn invalid_escape_is_illegal_and_scanning_goes_on() {
    assert_eq!(
        scan("\"Hello, \\World!"),
        pairs(&[
            (TokenType::Illegal, "\\"),
            (TokenType::Variable, "orld"),
            (TokenType::Bang, "!"),
        ])
    );
    assert_eq!(
        scan("\"a\\qb\" 7"),
        pairs(&[
            (TokenType::Illegal, "\\"),
            (TokenType::Variable, "b"),
            (TokenType::Illegal, "\" 7"),
        ])
    );
}

#[test]
fn dangling_backslash_is_illegal() {
    assert_eq!(scan("\"abc\\"), pairs(&[(TokenType::Illegal, "\\")]));
    assert_eq!(scan("\"\\"), pairs(&[(TokenType::Illegal, "\\")]));
}

#[test]
fn string_that_is_not_text_is_illegal_with_the_whole_span() {
    assert_eq!(
        scan_bytes(&[b'"', b'a', 0xff, b'"', b'1']),
        pairs(&[(TokenType::Illegal, "\"a\u{fffd}\""), (TokenType::Integer, "1")])
    );
    // An escape between the bytes of one character breaks the character.
    assert_eq!(
        scan_bytes(&[b'"', 0xc3, b'\\', b'n', 0xa9, b'"']),
        pairs(&[(TokenType::Illegal, "\"\u{fffd}\\n\u{fffd}\"")])
    );
}

#[test]
fn bytes_that_are_not_text_may_stand_in_comments() {
    assert_eq!(
        scan_bytes(&[b'`', 0xff, 0xfe, b'`', b'x', b' ', b'`', 0x80]),
        pairs(&[(TokenType::Variable, "x")])
    );
}

#[test]
fn bytes_and_text_give_the_same_tokens() {
    let source = "(,,P:\"{} bottles\\n\";): foo `c` -12.5 LK";
    assert_eq!(scan(source), scan_bytes(source.as_bytes()));
    assert_eq!(scan(source).len(), 12);
}

#[test]
fn literals_without_blanks_or_strings_spell_the_input() {
    for source in ["1+2", "LLV@LK", "foo-1.5*-.2", "a-b--3..", "~!LK&&^$%[]{}()", "x\x0by?"] {
        let spelled: String = scan(source).into_iter().map(|(_, text)| text).collect();
        assert_eq!(spelled, source);
    }
}

#[test]
fn drain_gives_what_repeated_pulls_give() {
    let source = "~!\nLLV@LK& &^$% \"a\\tb\" 12.5 `x` -3 \"open";
    let mut lexer = Lexer::new(source);
    let mut pulled: Vec<Token> = Vec::new();
    while let Some(token) = lexer.next_token() {
        pulled.push(token);
    }
    let drained = Lexer::new(source).drain();
    assert_eq!(drained.len(), pulled.len());
    assert_eq!(drained.len(), 15);
    for (left, right) in drained.iter().zip(pulled.iter()) {
        assert_eq!(left.toktype, right.toktype);
        assert_eq!(left.literal, right.literal);
    }
    assert_eq!(drained[11].toktype, TokenType::String);
    assert_eq!(drained[11].literal, "a\tb");
    assert_eq!(drained[14].toktype, TokenType::Illegal);
    assert_eq!(drained[14].literal, "\"open");
}

#[test]
fn drain_starts_where_the_scanner_stands() {
    let mut lexer = Lexer::new("a b c");
    assert_eq!(lexer.next().unwrap().literal, "a");
    let rest = lexer.drain();
    assert_eq!(rest.len(), 2);
    assert_eq!(rest[0].literal, "b");
    assert_eq!(rest[1].literal, "c");
    assert!(lexer.next().is_none());
}

#[test]
fn symbols_scenario_ends_the_stream() {
    assert_eq!(
        scan("~!\nLLV@LK& &^$%"),
        pairs(&[
            (TokenType::Tilde, "~"),
            (TokenType::Bang, "!"),
            (TokenType::Loop, "L"),
            (TokenType::LoopValue, "LV"),
            (TokenType::At, "@"),
            (TokenType::LoopKey, "LK"),
            (TokenType::Ampersand, "&"),
            (TokenType::Ampersand, "&"),
            (TokenType::Hat, "^"),
            (TokenType::Dollar, "$"),
            (TokenType::Percent, "%"),
        ])
    );
}

#[test]
fn only_strings_and_replaced_bytes_are_copied() {
    let mut lexer = Lexer::new_with_bytes(b"foo -1.5 \"bar\" ? \xff \"a\\q");
    assert!(matches!(lexer.next().unwrap().literal, Cow::Borrowed("foo")));
    assert!(matches!(lexer.next().unwrap().literal, Cow::Borrowed("-1.5")));
    let string = lexer.next().unwrap();
    assert_eq!(string.toktype, TokenType::String);
    assert!(matches!(string.literal, Cow::Owned(_)));
    assert_eq!(string.literal, "bar");
    assert!(matches!(lexer.next().unwrap().literal, Cow::Borrowed("?")));
    let replaced = lexer.next().unwrap();
    assert_eq!(replaced.toktype, TokenType::Illegal);
    assert!(matches!(replaced.literal, Cow::Owned(_)));
    assert_eq!(replaced.literal, "\u{fffd}");
    let escape = lexer.next().unwrap();
    assert_eq!(escape.toktype, TokenType::Illegal);
    assert!(matches!(escape.literal, Cow::Borrowed("\\")));
    assert!(lexer.next().is_none());
}

#[test]
fn token_clone_is_equal() {
    let mut lexer = Lexer::new("\"a\\nb\" foo");
    let owned = lexer.next().unwrap();
    let borrowed = lexer.next().unwrap();
    let owned_copy = owned.clone();
    let borrowed_copy = borrowed.clone();
    assert_eq!(owned_copy.toktype, TokenType::String);
    assert_eq!(owned_copy.literal, "a\nb");
    assert_eq!(borrowed_copy.toktype, TokenType::Variable);
    assert_eq!(borrowed_copy.literal, "foo");
}

#[test]
fn parser_error_message() {
    assert_eq!(ParserError.message(), "Error occurs while parsing the flog");
}
