use rainicorn::token_writer::write_escaped_string;
use rainicorn::token_writer::writeStringToken_toString;
use rainicorn::token_writer::TokenWriter;
use rainicorn::util::CommonException;
use rainicorn::util::CommonExceptionT;
use rainicorn::util::GResult;

fn write_string_token_to_string(string: &str) -> String {
    let mut result = String::new();
    write_escaped_string::<CommonException, String>(string, &mut result).unwrap();
    result
}

fn write_raw_token_to_string(string: &str) -> GResult<String> {
    let mut writer = TokenWriter { out: String::new() };
    let result = writer.write_raw_token(string);
    match result {
        Ok(_) => Ok(writer.out),
        Err(error) => Err(error),
    }
}

/// Reads a quoted string back, as a reader of the format would.
fn unquote(text: &str) -> Option<String> {
    let chars: Vec<char> = text.chars().collect();
    if chars.len() < 2 || chars[0] != '"' || chars[chars.len() - 1] != '"' {
        return None;
    }
    let mut result = String::new();
    let mut i = 1;
    while i < chars.len() - 1 {
        if chars[i] == '\\' {
            if i + 1 >= chars.len() - 1 {
                return None;
            }
            result.push(chars[i + 1]);
            i += 2;
        } else if chars[i] == '"' {
            return None;
        } else {
            result.push(chars[i]);
            i += 1;
        }
    }
    Some(result)
}

#[test]
fn test__write_raw_token() {
    assert_eq!(write_raw_token_to_string("blah").ok().unwrap(), r#"blah "#);
    write_raw_token_to_string("bl ah").unwrap_err();
    write_raw_token_to_string("bl{ah").unwrap_err();
}

#[test]
fn test__write_escaped_string() {
    assert_eq!(write_string_token_to_string(""), r#""""#);
    assert_eq!(write_string_token_to_string("abc"), r#""abc""#);
    assert_eq!(write_string_token_to_string(r#"-"-"#), r#""-\"-""#);
    assert_eq!(write_string_token_to_string(r#"""#), r#""\"""#);
    assert_eq!(write_string_token_to_string(r#"\"#), r#""\\""#);
    assert_eq!(write_string_token_to_string(r#"--\"-"#), r#""--\\\"-""#);
    assert_eq!(write_string_token_to_string(r#"---\"#), r#""---\\""#);
}

#[test]
fn test_writeStringToken() {
    assert_eq!(writeStringToken_toString(""), r#""""#);
    assert_eq!(writeStringToken_toString("abc"), r#""abc""#);
    assert_eq!(writeStringToken_toString(r#"-"-"#), r#""-\"-""#);
    assert_eq!(writeStringToken_toString(r#"""#), r#""\"""#);
    assert_eq!(writeStringToken_toString(r#"\"#), r#""\\""#);
    assert_eq!(writeStringToken_toString(r#"--\"-"#), r#""--\\\"-""#);
    assert_eq!(writeStringToken_toString(r#"---\"#), r#""---\\""#);
}

#[test]
fn quote_of_string_with_quotes() {
    assert_eq!(writeStringToken_toString("a\"bc\""), "\"a\\\"bc\\\"\"");
}

#[test]
fn quote_leaves_other_characters_alone() {
    assert_eq!(writeStringToken_toString("a\nb\tc\u{1}\u{e9}"), "\"a\nb\tc\u{1}\u{e9}\"");
}

#[test]
fn quote_round_trip() {
    let samples = ["", "abc", "\"", "\\", "\\\"", "a\"bc\"", "line\nbreak", "x\\\\y", "\u{3000} \u{e9}"];
    for sample in samples {
        let quoted = writeStringToken_toString(sample);
        assert_eq!(unquote(&quoted), Some(String::from(sample)));
    }
}

#[test]
fn write_escaped_string_appends() {
    let mut out = String::from("head ");
    write_escaped_string::<CommonException, String>("a\\b", &mut out).unwrap();
    assert_eq!(out, "head \"a\\\\b\"");
}

#[test]
fn raw_token_refuses_space_and_brackets() {
    for bad in ["a b", " ", "a{", "}", "(x", "x)", "[", "a]b", "a\tb", "a\nb", "a\u{a0}b", "a\u{3000}"] {
        let mut writer = TokenWriter { out: String::from("kept") };
        let error = writer.write_raw_token(bad).unwrap_err();
        assert_eq!(error.write_message_to_string(), "Cannot write raw token");
        assert_eq!(writer.out, "kept");
    }
}

#[test]
fn raw_token_accepts_plain_words() {
    for good in ["", "ERROR", "EnumVariant", "a-b_c", "x<y>", "\u{e9}"] {
        let mut writer = TokenWriter { out: String::from("kept ") };
        writer.write_raw_token(good).unwrap();
        assert_eq!(writer.out, format!("kept {} ", good));
    }
}

#[test]
fn string_token_has_a_space_behind_it() {
    let mut writer = TokenWriter::new();
    writer.write_string_token("a\"b").unwrap();
    writer.write_raw("{}").unwrap();
    assert_eq!(writer.get_output(), "\"a\\\"b\" {}");
}

#[test]
fn raw_token_refuses_every_white_space() {
    let white = [
        '\u{9}', '\u{a}', '\u{b}', '\u{c}', '\u{d}', '\u{20}', '\u{85}', '\u{a0}', '\u{1680}', '\u{2000}', '\u{2001}',
        '\u{2005}', '\u{200a}', '\u{2028}', '\u{2029}', '\u{202f}', '\u{205f}', '\u{3000}',
    ];
    for c in white {
        let mut writer = TokenWriter::new();
        writer.write_raw_token(&format!("a{}b", c)).unwrap_err();
        assert_eq!(writer.out, "");
    }
}

#[test]
fn raw_token_accepts_what_is_not_white_space() {
    let other = ['\u{8}', '\u{e}', '\u{1f}', '\u{21}', '\u{84}', '\u{86}', '\u{9f}', '\u{a1}', '\u{180e}', '\u{1fff}', '\u{200b}', '\u{2027}', '\u{202a}', '\u{2060}', '\u{3001}', '\u{feff}'];
    for c in other {
        let mut writer = TokenWriter::new();
        writer.write_raw_token(&format!("a{}b", c)).unwrap();
        assert_eq!(writer.out, format!("a{}b ", c));
    }
}
