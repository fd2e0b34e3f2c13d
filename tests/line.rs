use denture::{
    Error, LineTokenizer, NumberState, NumberType, Operator, Parser, State, Token, Tokenizer,
};

fn texts(input: &str) -> Vec<Token> {
    LineTokenizer::from_str(input).unwrap().tokens
}

fn lexeme(t: &Token) -> String {
    match t {
        Token::Comment(s)
        | Token::Identifier(s)
        | Token::Whitespaces(s)
        | Token::BinNumber(s)
        | Token::OctNumber(s)
        | Token::DecNumber(s)
        | Token::HexNumber(s) => s.clone(),
        Token::Operator(Operator::Colon) => ":".to_string(),
        Token::Operator(Operator::Plus) => "+".to_string(),
    }
}

fn reassemble(input: &str) -> String {
    let lt = LineTokenizer::from_str(input).unwrap();
    let mut out = " ".repeat(lt.offset);
    for t in &lt.tokens {
        out.push_str(&lexeme(t));
    }
    out
}

#[test]
fn test_simple_number() {
    match LineTokenizer::from_str("100").unwrap().tokens.as_slice() {
        [Token::DecNumber(num)] => {
            assert_eq!(num, "100", "{}", num);
        }
        etc => {
            panic!("{:?}", etc);
        }
    }

    match LineTokenizer::from_str("100_000_000")
        .unwrap()
        .tokens
        .as_slice()
    {
        [Token::DecNumber(num)] => {
            assert_eq!(num, "100_000_000", "{}", num);
        }
        etc => {
            panic!("{:?}", etc);
        }
    }

    assert!(LineTokenizer::from_str("100_000_000_").is_err());
    assert!(LineTokenizer::from_str("100__000_000").is_err());
}

#[test]
fn test_numbers() {
    match LineTokenizer::from_str("0x10fF + 0x1234")
        .unwrap()
        .tokens
        .as_slice()
    {
        [Token::HexNumber(hex_a), Token::Whitespaces(space_a), Token::Operator(Operator::Plus), Token::Whitespaces(space_b), Token::HexNumber(hex_b)] =>
        {
            assert_eq!(hex_a, "0x10fF", "{}", hex_a);
            assert_eq!(space_a, " ", "{}", space_a);
            assert_eq!(hex_b, "0x1234", "{}", hex_b);
            assert_eq!(space_b, " ", "{}", space_b);
        }
        etc => {
            panic!("{:?}", etc);
        }
    }

    match LineTokenizer::from_str("0xff+0x01")
        .unwrap()
        .tokens
        .as_slice()
    {
        [Token::HexNumber(hex_a), Token::Operator(Operator::Plus), Token::HexNumber(hex_b)] => {
            assert_eq!(hex_a, "0xff", "{}", hex_a);
            assert_eq!(hex_b, "0x01", "{}", hex_b);
        }
        etc => {
            panic!("{:?}", etc);
        }
    }

    match LineTokenizer::from_str("0b01001 + 0o1234+0x1010")
        .unwrap()
        .tokens
        .as_slice()
    {
        [Token::BinNumber(bin_a), Token::Whitespaces(space_a), Token::Operator(Operator::Plus), Token::Whitespaces(space_b), Token::OctNumber(oct_a), Token::Operator(Operator::Plus), Token::HexNumber(hex_a)] =>
        {
            assert_eq!(bin_a, "0b01001", "{}", bin_a);
            assert_eq!(space_a, " ", "{}", space_a);
            assert_eq!(oct_a, "0o1234", "{}", oct_a);
            assert_eq!(space_b, " ", "{}", space_b);
            assert_eq!(hex_a, "0x1010", "{}", hex_a);
        }
        etc => {
            panic!("{:?}", etc);
        }
    }
}

#[test]
fn digits_alone_are_one_decimal_literal() {
    for input in ["7", "42", "9876543210", "1000000000000000000000000"] {
        match texts(input).as_slice() {
            [Token::DecNumber(n)] => assert_eq!(n, input),
            etc => panic!("{:?}", etc),
        }
    }
}

#[test]
fn lone_zero_is_rejected() {
    assert_eq!(
        LineTokenizer::from_str("0").unwrap_err(),
        Error::InvalidTerminalState { state: State::Zero(0) }
    );
    assert_eq!(
        LineTokenizer::from_str("00").unwrap_err(),
        Error::InvalidTerminalState { state: State::ZeroPadded(0) }
    );
    assert_eq!(
        LineTokenizer::from_str("0 ").unwrap_err(),
        Error::InvalidCharacter { state: State::Zero(0), c: ' ' }
    );
}

#[test]
fn separator_errors_name_the_state() {
    assert_eq!(
        LineTokenizer::from_str("100_000_000_").unwrap_err(),
        Error::InvalidTerminalState {
            state: State::Number(NumberType::Dec, NumberState::Underscore, 0)
        }
    );
    assert_eq!(
        LineTokenizer::from_str("100__000_000").unwrap_err(),
        Error::InvalidCharacter {
            state: State::Number(NumberType::Dec, NumberState::Underscore, 0),
            c: '_'
        }
    );
    match texts("0xff_ff").as_slice() {
        [Token::HexNumber(n)] => assert_eq!(n, "0xff_ff"),
        etc => panic!("{:?}", etc),
    }
    assert!(LineTokenizer::from_str("0b1__0").is_err());
}

#[test]
fn decimal_ended_mid_line_is_decimal() {
    match texts("12+3").as_slice() {
        [Token::DecNumber(a), Token::Operator(Operator::Plus), Token::DecNumber(b)] => {
            assert_eq!(a, "12");
            assert_eq!(b, "3");
        }
        etc => panic!("{:?}", etc),
    }
}

#[test]
fn digits_of_each_radix() {
    match texts("0b102").as_slice() {
        [Token::BinNumber(a), Token::DecNumber(b)] => {
            assert_eq!(a, "0b10");
            assert_eq!(b, "2");
        }
        etc => panic!("{:?}", etc),
    }
    match texts("0o78").as_slice() {
        [Token::OctNumber(a), Token::DecNumber(b)] => {
            assert_eq!(a, "0o7");
            assert_eq!(b, "8");
        }
        etc => panic!("{:?}", etc),
    }
    assert_eq!(NumberType::Hex.radix(), 16);
    assert_eq!(NumberType::Oct.radix(), 8);
    assert_eq!(NumberType::Bin.radix(), 2);
    assert_eq!(NumberType::Dec.radix(), 10);
    assert!(NumberType::Hex.is_digit('F'));
    assert!(!NumberType::Oct.is_digit('8'));
    assert!(!NumberType::Bin.is_digit('2'));
    assert!(NumberType::Dec.is_digit('9'));
    match NumberType::Oct.token_builder("0o7".to_string()) {
        Token::OctNumber(s) => assert_eq!(s, "0o7"),
        etc => panic!("{:?}", etc),
    }
}

#[test]
fn identifiers() {
    match texts("spam").as_slice() {
        [Token::Identifier(s)] => assert_eq!(s, "spam"),
        etc => panic!("{:?}", etc),
    }
    match texts("spam:").as_slice() {
        [Token::Identifier(s), Token::Operator(Operator::Colon)] => assert_eq!(s, "spam"),
        etc => panic!("{:?}", etc),
    }
    match texts("x_1 + y").as_slice() {
        [Token::Identifier(a), Token::Whitespaces(_), Token::Operator(Operator::Plus), Token::Whitespaces(_), Token::Identifier(b)] =>
        {
            assert_eq!(a, "x_1");
            assert_eq!(b, "y");
        }
        etc => panic!("{:?}", etc),
    }
}

#[test]
fn non_ascii_identifiers() {
    match texts("naïve:").as_slice() {
        [Token::Identifier(s), Token::Operator(Operator::Colon)] => assert_eq!(s, "naïve"),
        etc => panic!("{:?}", etc),
    }
    match texts("日本").as_slice() {
        [Token::Identifier(s)] => assert_eq!(s, "日本"),
        etc => panic!("{:?}", etc),
    }
    assert_eq!(
        LineTokenizer::from_str("€").unwrap_err(),
        Error::InvalidCharacter { state: State::Indent, c: '€' }
    );
}

#[test]
fn string_prefix_letters() {
    match texts("brand").as_slice() {
        [Token::Identifier(s)] => assert_eq!(s, "brand"),
        etc => panic!("{:?}", etc),
    }
    match texts("b:").as_slice() {
        [Token::Identifier(s), Token::Operator(Operator::Colon)] => assert_eq!(s, "b"),
        etc => panic!("{:?}", etc),
    }
    match texts("Rbx +u1").as_slice() {
        [Token::Identifier(a), Token::Whitespaces(_), Token::Operator(Operator::Plus), Token::Identifier(b)] =>
        {
            assert_eq!(a, "Rbx");
            assert_eq!(b, "u1");
        }
        etc => panic!("{:?}", etc),
    }
    assert_eq!(
        LineTokenizer::from_str("b").unwrap_err(),
        Error::InvalidTerminalState { state: State::StringPrefixSingle(0, 'b') }
    );
    assert_eq!(
        LineTokenizer::from_str("rb").unwrap_err(),
        Error::InvalidTerminalState { state: State::StringPrefixDouble(0) }
    );
    assert!(LineTokenizer::from_str("f'x'").is_err());
}

#[test]
fn comments() {
    let lt = LineTokenizer::from_str("   # any thing: + 0__").unwrap();
    assert_eq!(lt.offset, 3);
    match lt.tokens.as_slice() {
        [Token::Comment(s)] => assert_eq!(s, "# any thing: + 0__"),
        etc => panic!("{:?}", etc),
    }
    match texts("x # note").as_slice() {
        [Token::Identifier(a), Token::Whitespaces(_), Token::Comment(c)] => {
            assert_eq!(a, "x");
            assert_eq!(c, "# note");
        }
        etc => panic!("{:?}", etc),
    }
}

#[test]
fn indentation_and_blank_lines() {
    let lt = LineTokenizer::from_str("    key:").unwrap();
    assert_eq!(lt.offset, 4);
    assert_eq!(lt.tokens.len(), 2);
    let blank = LineTokenizer::from_str("   ").unwrap();
    assert_eq!(blank.offset, 3);
    assert!(blank.tokens.is_empty());
    let empty = LineTokenizer::from_str("").unwrap();
    assert_eq!(empty.offset, 0);
    assert!(empty.tokens.is_empty());
    match texts("a  ").as_slice() {
        [Token::Identifier(a)] => assert_eq!(a, "a"),
        etc => panic!("{:?}", etc),
    }
    match texts("a   c").as_slice() {
        [Token::Identifier(a), Token::Whitespaces(w), Token::Identifier(b)] => {
            assert_eq!(a, "a");
            assert_eq!(w, "   ");
            assert_eq!(b, "c");
        }
        etc => panic!("{:?}", etc),
    }
}

#[test]
fn unknown_characters_are_rejected() {
    assert_eq!(
        LineTokenizer::from_str("a - b").unwrap_err(),
        Error::InvalidCharacter { state: State::Whitespaces(1), c: '-' }
    );
    assert_eq!(
        LineTokenizer::from_str("a$").unwrap_err(),
        Error::InvalidCharacter { state: State::Identifier(0), c: '$' }
    );
}

#[test]
fn lexemes_rebuild_the_line() {
    for input in [
        "0b01001 + 0o1234+0x1010",
        "  spam: eggs + 100_000",
        "# only a comment",
        "   ",
        "",
        "x+y:z # tail",
    ] {
        assert_eq!(reassemble(input), input);
        let again = LineTokenizer::from_str(&reassemble(input)).unwrap();
        let first = LineTokenizer::from_str(input).unwrap();
        assert_eq!(format!("{:?}", again), format!("{:?}", first));
    }
}

#[test]
fn document_tokenizes_every_line() {
    let lines = vec!["a: 1".to_string(), "  # c".to_string(), "".to_string()];
    let t = Tokenizer::from_reader(lines).unwrap();
    assert_eq!(t.lines.len(), 3);
    assert_eq!(t.lines[1].offset, 2);
    assert_eq!(t.lines[0].tokens.len(), 4);
    let bad = vec!["a".to_string(), "0x_".to_string(), "$".to_string()];
    assert_eq!(
        Tokenizer::from_reader(bad).unwrap_err(),
        Error::InvalidTerminalState {
            state: State::Number(NumberType::Hex, NumberState::Underscore, 0)
        }
    );
}

#[test]
fn parser_numbers_lines() {
    let p = Parser::from_reader(vec!["first".to_string(), "second".to_string()]);
    assert_eq!(p.lines, vec![(0, "first".to_string()), (1, "second".to_string())]);
    assert!(Parser::from_reader(vec![]).lines.is_empty());
}
