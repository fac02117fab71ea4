use uni_glsl::error::{ErrorKind, ParseError, Rule};
use uni_glsl::scan::{chars_of, either_tag, scan_run, skip_blanks, tag, CharClass};
use uni_glsl::tokens::{
    basic_type, constant, float_s, identifier, operator, token, unsigned_integer, BasicType,
    Constant, Token,
};

fn lexical(rule: Rule, position: usize) -> ParseError {
    ParseError { kind: ErrorKind::LexicalMismatch, rule, position }
}

#[test]
fn identifier_is_parsed_whole() {
    for name in ["a", "_", "main", "gl_Position", "_x9", "A1_b2", "highp2"] {
        let src = chars_of(name);
        assert_eq!(identifier(&src, 0), Ok((src.len(), name.to_string())));
    }
}

#[test]
fn identifier_stops_at_the_first_other_character() {
    assert_eq!(identifier(&chars_of("main_2 rest"), 0), Ok((6, "main_2".to_string())));
    assert_eq!(identifier(&chars_of("a+b"), 0), Ok((1, "a".to_string())));
    assert_eq!(identifier(&chars_of("x = y"), 4), Ok((5, "y".to_string())));
}

#[test]
fn identifier_does_not_begin_with_a_digit() {
    assert_eq!(identifier(&chars_of("1abc"), 0), Err(lexical(Rule::Identifier, 0)));
    assert_eq!(identifier(&chars_of(" abc"), 0), Err(lexical(Rule::Identifier, 0)));
    assert_eq!(identifier(&chars_of(""), 0), Err(lexical(Rule::Identifier, 0)));
    assert_eq!(identifier(&chars_of("ab"), 2), Err(lexical(Rule::Identifier, 2)));
    assert_eq!(identifier(&chars_of("\u{e9}t\u{e9}"), 0), Err(lexical(Rule::Identifier, 0)));
}

#[test]
fn float_is_tried_before_integer() {
    assert_eq!(constant(&chars_of("1.0"), 0), Ok((3, Constant::Float32("1.0".to_string()))));
    let text = match constant(&chars_of("1.0"), 0) {
        Ok((_, Constant::Float32(text))) => text,
        other => panic!("not a float: {:?}", other),
    };
    assert_eq!(text.parse::<f32>(), Ok(1.0f32));
}

#[test]
fn digits_alone_are_an_integer() {
    assert_eq!(constant(&chars_of("10;"), 0), Ok((2, Constant::Integer(10))));
    assert_eq!(constant(&chars_of("0"), 0), Ok((1, Constant::Integer(0))));
    assert_eq!(float_s(&chars_of("10;"), 0), Err(lexical(Rule::Float, 0)));
}

#[test]
fn float_literal_forms() {
    for (input, text) in [
        ("1.", "1."),
        (".5", ".5"),
        ("3.25rest", "3.25"),
        ("1e5", "1e5"),
        ("1E+5", "1E+5"),
        ("2.5e-3;", "2.5e-3"),
        ("-1", "-1"),
        ("+7.0", "+7.0"),
        ("1.e", "1."),
        ("1.0e+", "1.0"),
        ("12e", "12"),
    ] {
        let src = chars_of(input);
        let expected = if text == "12" {
            Err(lexical(Rule::Float, 0))
        } else {
            Ok((text.chars().count(), text.to_string()))
        };
        assert_eq!(float_s(&src, 0), expected, "input {:?}", input);
    }
}

#[test]
fn float_literal_failures() {
    for input in ["", ".", "-", "+.", "e5", "abc", " 1.0"] {
        assert_eq!(float_s(&chars_of(input), 0), Err(lexical(Rule::Float, 0)), "input {:?}", input);
    }
    assert_eq!(float_s(&chars_of("1.0"), 4), Err(lexical(Rule::Float, 4)));
}

#[test]
fn float_literal_at_a_position() {
    assert_eq!(float_s(&chars_of("x = 0.5;"), 4), Ok((7, "0.5".to_string())));
    assert_eq!(float_s(&chars_of("x = 0.5"), 4), Ok((7, "0.5".to_string())));
    assert_eq!(float_s(&chars_of("x = 0.5"), 7), Err(lexical(Rule::Float, 7)));
}

#[test]
fn float_literal_ends_inside_a_run_of_numeral_characters() {
    assert_eq!(float_s(&chars_of("1e5e3"), 0), Ok((3, "1e5".to_string())));
    assert_eq!(float_s(&chars_of("1.2.3"), 0), Ok((3, "1.2".to_string())));
    assert_eq!(float_s(&chars_of("1.5+2.5"), 0), Ok((3, "1.5".to_string())));
    assert_eq!(float_s(&chars_of("1.5 + 2.5"), 0), Ok((3, "1.5".to_string())));
    assert_eq!(float_s(&chars_of("--1.5"), 0), Err(lexical(Rule::Float, 0)));
    assert_eq!(float_s(&chars_of("1-2"), 0), Err(lexical(Rule::Float, 0)));
    assert_eq!(constant(&chars_of("1-2"), 0), Ok((1, Constant::Integer(1))));
    assert_eq!(constant(&chars_of("7e"), 0), Ok((1, Constant::Integer(7))));
}

#[test]
fn unsigned_integer_values() {
    assert_eq!(unsigned_integer(&chars_of("0"), 0), Ok((1, 0)));
    assert_eq!(unsigned_integer(&chars_of("007"), 0), Ok((3, 7)));
    assert_eq!(unsigned_integer(&chars_of("12]"), 0), Ok((2, 12)));
    assert_eq!(unsigned_integer(&chars_of("4294967295"), 0), Ok((10, 4294967295)));
    assert_eq!(unsigned_integer(&chars_of("00000000004294967295"), 0), Ok((20, 4294967295)));
}

#[test]
fn unsigned_integer_failures() {
    assert_eq!(
        unsigned_integer(&chars_of("4294967296"), 0),
        Err(lexical(Rule::UnsignedInteger, 0))
    );
    assert_eq!(
        unsigned_integer(&chars_of("99999999999999999999999999"), 0),
        Err(lexical(Rule::UnsignedInteger, 0))
    );
    assert_eq!(unsigned_integer(&chars_of("x1"), 0), Err(lexical(Rule::UnsignedInteger, 0)));
    assert_eq!(unsigned_integer(&chars_of("-1"), 0), Err(lexical(Rule::UnsignedInteger, 0)));
    assert_eq!(unsigned_integer(&chars_of(""), 0), Err(lexical(Rule::UnsignedInteger, 0)));
}

#[test]
fn constant_alternatives() {
    assert_eq!(constant(&chars_of("true"), 0), Ok((4, Constant::Bool(true))));
    assert_eq!(constant(&chars_of("false;"), 0), Ok((5, Constant::Bool(false))));
    assert_eq!(constant(&chars_of("4294967296"), 0), Err(lexical(Rule::Constant, 0)));
    assert_eq!(constant(&chars_of("tru"), 0), Err(lexical(Rule::Constant, 0)));
    assert_eq!(constant(&chars_of("x"), 0), Err(lexical(Rule::Constant, 0)));
}

#[test]
fn operator_symbols() {
    for symbol in ".+-/*%<>[](){}^|&~=!:;,?".chars() {
        let src = vec![symbol, 'x'];
        assert_eq!(operator(&src, 0), Ok((1, symbol.to_string())));
    }
    for other in ['a', '0', ' ', '#', '@', '"', '\'', '\\', '_', '$', '`'] {
        assert_eq!(operator(&[other], 0), Err(lexical(Rule::Operator, 0)));
    }
    assert_eq!(operator(&[], 0), Err(lexical(Rule::Operator, 0)));
}

#[test]
fn basic_type_keywords() {
    for (word, value) in [
        ("void", BasicType::Void),
        ("bool", BasicType::Bool),
        ("int", BasicType::Int),
        ("float", BasicType::Float),
        ("vec2", BasicType::Vec2),
        ("vec3", BasicType::Vec3),
        ("vec4", BasicType::Vec4),
        ("bvec2", BasicType::Bvec2),
        ("bvec3", BasicType::Bvec3),
        ("bvec4", BasicType::Bvec4),
        ("ivec2", BasicType::Ivec2),
        ("ivec3", BasicType::Ivec3),
        ("ivec4", BasicType::Ivec4),
        ("mat2", BasicType::Mat2),
        ("mat3", BasicType::Mat3),
        ("mat4", BasicType::Mat4),
        ("Vec2", BasicType::Vec2),
        ("Vec3", BasicType::Vec3),
        ("Vec4", BasicType::Vec4),
        ("Bvec2", BasicType::Bvec2),
        ("Bvec3", BasicType::Bvec3),
        ("Bvec4", BasicType::Bvec4),
        ("Ivec2", BasicType::Ivec2),
        ("Ivec3", BasicType::Ivec3),
        ("Ivec4", BasicType::Ivec4),
        ("Mat2", BasicType::Mat2),
        ("Mat3", BasicType::Mat3),
        ("Mat4", BasicType::Mat4),
        ("sampler2D", BasicType::Sampler2D),
        ("samplerCube", BasicType::SamplerCube),
        ("sampler3D", BasicType::SamplerCube),
    ] {
        let src = chars_of(word);
        assert_eq!(basic_type(&src, 0), Ok((src.len(), value)), "keyword {:?}", word);
    }
}

#[test]
fn basic_type_failures() {
    for word in ["boid", "Void", "vec5", "sampler", "double", ""] {
        assert_eq!(basic_type(&chars_of(word), 0), Err(lexical(Rule::BasicType, 0)));
    }
}

#[test]
fn keywords_are_matched_as_prefixes() {
    assert_eq!(basic_type(&chars_of("integer"), 0), Ok((3, BasicType::Int)));
    assert_eq!(constant(&chars_of("truest"), 0), Ok((4, Constant::Bool(true))));
}

#[test]
fn token_alternatives_in_order() {
    assert_eq!(
        token(&chars_of("+1"), 0),
        Ok((1, Token::Operator("+".to_string(), "+".to_string())))
    );
    assert_eq!(
        token(&chars_of("1.5"), 0),
        Ok((3, Token::Constant(Constant::Float32("1.5".to_string()), "1.5".to_string())))
    );
    assert_eq!(
        token(&chars_of("17"), 0),
        Ok((2, Token::Constant(Constant::Integer(17), "17".to_string())))
    );
    assert_eq!(
        token(&chars_of("false"), 0),
        Ok((5, Token::Constant(Constant::Bool(false), "false".to_string())))
    );
    assert_eq!(
        token(&chars_of("vec4"), 0),
        Ok((4, Token::BasicType(BasicType::Vec4, "vec4".to_string())))
    );
    assert_eq!(
        token(&chars_of("color"), 0),
        Ok((5, Token::Identifier("color".to_string(), "color".to_string())))
    );
}

#[test]
fn token_skips_blanks_on_both_sides() {
    assert_eq!(
        token(&chars_of(" \t\r\n color \n= 1"), 0),
        Ok((12, Token::Identifier("color".to_string(), "color".to_string())))
    );
    assert_eq!(
        token(&chars_of(" \t\r\n color \n= 1"), 12),
        Ok((14, Token::Operator("=".to_string(), "=".to_string())))
    );
    assert_eq!(
        token(&chars_of(" \t\r\n color \n= 1"), 14),
        Ok((15, Token::Constant(Constant::Integer(1), "1".to_string())))
    );
}

#[test]
fn token_failures() {
    assert_eq!(token(&chars_of("  #"), 0), Err(lexical(Rule::Identifier, 2)));
    assert_eq!(token(&chars_of("   "), 0), Err(lexical(Rule::Identifier, 3)));
    assert_eq!(token(&chars_of(""), 0), Err(lexical(Rule::Identifier, 0)));
}

#[test]
fn tokens_of_a_line() {
    let src = chars_of("vec3 p = v * 2.0;");
    let mut pos = 0;
    let mut texts: Vec<String> = Vec::new();
    while pos < src.len() {
        let (next, found) = token(&src, pos).unwrap();
        texts.push(match found {
            Token::Operator(_, text) => text,
            Token::Constant(_, text) => text,
            Token::BasicType(_, text) => text,
            Token::Identifier(_, text) => text,
        });
        pos = next;
    }
    assert_eq!(texts, vec!["vec3", "p", "=", "v", "*", "2.0", ";"]);
}

#[test]
fn runs_and_tags() {
    let src = chars_of("  \t\nabc123 x");
    assert_eq!(skip_blanks(&src, 0), 4);
    assert_eq!(skip_blanks(&src, 4), 4);
    assert_eq!(skip_blanks(&src, 50), 50);
    assert_eq!(scan_run(&src, 4, CharClass::Word), 10);
    assert_eq!(scan_run(&src, 7, CharClass::Digit), 10);
    assert_eq!(scan_run(&src, 4, CharClass::Digit), 4);
    assert_eq!(tag(&src, 4, "abc"), Some(7));
    assert_eq!(tag(&src, 4, "abd"), None);
    assert_eq!(tag(&src, 4, ""), None);
    assert_eq!(tag(&src, 11, "xy"), None);
    assert_eq!(tag(&src, 50, "x"), None);
    assert_eq!(either_tag(&src, 4, "abd", "ab"), Some(6));
    assert_eq!(either_tag(&src, 4, "abc", "ab"), Some(7));
}

#[test]
fn chars_of_keeps_every_character() {
    assert_eq!(chars_of(""), Vec::<char>::new());
    assert_eq!(chars_of("a\u{e9}\u{4e16}\u{1f600}b"), vec!['a', '\u{e9}', '\u{4e16}', '\u{1f600}', 'b']);
}

#[test]
fn error_kinds_by_position() {
    let mismatch = ParseError::mismatch(Rule::Identifier, 4);
    assert_eq!(mismatch, lexical(Rule::Identifier, 4));
    assert_eq!(mismatch.committed(Rule::Declaration, 4, 10), mismatch);
    assert_eq!(
        mismatch.committed(Rule::Declaration, 2, 10),
        ParseError { kind: ErrorKind::SyntaxError, rule: Rule::Declaration, position: 4 }
    );
    assert_eq!(
        mismatch.committed(Rule::Declaration, 2, 4),
        ParseError { kind: ErrorKind::IncompleteInput, rule: Rule::Declaration, position: 4 }
    );
    let deeper = ParseError { kind: ErrorKind::SyntaxError, rule: Rule::TypeSpecifier, position: 6 };
    assert_eq!(deeper.committed(Rule::Declaration, 2, 10), deeper);
}

fn digit_run(text: &[char], from: usize) -> usize {
    let mut end = from;
    while end < text.len() && text[end].is_ascii_digit() {
        end += 1;
    }
    end
}

fn sign_at(text: &[char], at: usize) -> usize {
    if at < text.len() && (text[at] == '+' || text[at] == '-') {
        1
    } else {
        0
    }
}

fn numeral_end(text: &[char]) -> Option<usize> {
    let p0 = sign_at(text, 0);
    let p1 = digit_run(text, p0);
    let mantissa = if p1 > p0 {
        if p1 < text.len() && text[p1] == '.' {
            digit_run(text, p1 + 1)
        } else {
            p1
        }
    } else if p0 < text.len() && text[p0] == '.' && digit_run(text, p0 + 1) > p0 + 1 {
        digit_run(text, p0 + 1)
    } else {
        return None;
    };
    if mantissa < text.len() && (text[mantissa] == 'e' || text[mantissa] == 'E') {
        let e0 = mantissa + 1 + sign_at(text, mantissa + 1);
        let e1 = digit_run(text, e0);
        if e1 > e0 {
            return Some(e1);
        }
    }
    Some(mantissa)
}

#[test]
fn float_literal_on_every_short_text() {
    let alphabet = ['0', '7', '.', 'e', 'E', '+', '-', 'x'];
    let mut texts: Vec<Vec<char>> = vec![Vec::new()];
    let mut from = 0;
    for _ in 0..5 {
        let upto = texts.len();
        for i in from..upto {
            for c in alphabet {
                let mut longer = texts[i].clone();
                longer.push(c);
                texts.push(longer);
            }
        }
        from = upto;
    }
    assert_eq!(texts.len(), 1 + 8 + 64 + 512 + 4096 + 32768);
    for text in texts.iter() {
        let expected = match numeral_end(text) {
            Some(end) if digit_run(text, 0) < end => {
                Ok((end, text[..end].iter().collect::<String>()))
            }
            _ => Err(lexical(Rule::Float, 0)),
        };
        assert_eq!(float_s(text, 0), expected, "text {:?}", text);
    }
}

#[test]
fn unsigned_integer_agrees_with_decimal_notation() {
    let mut state: u64 = 0x2545_f491_4f6c_dd1d;
    for round in 0..2000 {
        state = state.wrapping_mul(6364136223846793005).wrapping_add(1442695040888963407);
        let len = 1 + (round % 12);
        let mut text = String::new();
        let mut bits = state >> 16;
        for _ in 0..len {
            text.push(char::from(b'0' + (bits % 10) as u8));
            bits /= 10;
        }
        let expected = match text.parse::<u32>() {
            Ok(value) => Ok((len, value)),
            Err(_) => Err(lexical(Rule::UnsignedInteger, 0)),
        };
        assert_eq!(unsigned_integer(&chars_of(&text), 0), expected, "text {:?}", text);
    }
}
