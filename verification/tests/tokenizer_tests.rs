use chat_inference::error::EngineError;
use chat_inference::tokenizer::{decode_tokens, encode_text, fragment_of, print_token};
use tokenizers::Tokenizer;

fn tokenizer() -> Tokenizer {
    let json = r#"{"version":"1.0","truncation":null,"padding":null,"added_tokens":[],
        "normalizer":null,"pre_tokenizer":{"type":"Whitespace"},"post_processor":null,
        "decoder":null,"model":{"type":"WordLevel","vocab":{"<unk>":0,"hello":1,"world":2,
        "User":3,"▁there":4,"<0x0A>":5,"<0xE2>":6,"a▁b▁":7},"unk_token":"<unk>"}}"#;
    Tokenizer::from_bytes(json.as_bytes()).unwrap()
}

fn shown(token: &str) -> String {
    fragment_of(Some(token.to_string()))
}

#[test]
fn fragment_turns_word_marks_into_spaces() {
    assert_eq!(shown("\u{2581}there"), " there");
    assert_eq!(shown("a\u{2581}b\u{2581}"), "a b ");
    assert_eq!(shown("plain"), "plain");
    assert_eq!(shown(""), "");
    assert_eq!(fragment_of(None), "");
}

#[test]
fn fragment_of_a_byte_token_is_its_ascii_character() {
    assert_eq!(shown("<0x0A>"), "\n");
    assert_eq!(shown("<0x41>"), "A");
    assert_eq!(shown("<0x7f>"), "\u{7f}");
    assert_eq!(shown("<0x7F>"), "\u{7f}");
    assert_eq!(shown("<0x+41>"), "A");
    assert_eq!(shown("<0x0041>"), "A");
    assert_eq!(shown("<0x0>"), "\u{0}");
}

#[test]
fn fragment_of_a_byte_token_beyond_ascii_is_empty() {
    assert_eq!(shown("<0x80>"), "");
    assert_eq!(shown("<0xE2>"), "");
    assert_eq!(shown("<0xff>"), "");
}

#[test]
fn fragment_keeps_what_is_no_byte_token() {
    assert_eq!(shown("<0x>"), "<0x>");
    assert_eq!(shown("<0x100>"), "<0x100>");
    assert_eq!(shown("<0xZZ>"), "<0xZZ>");
    assert_eq!(shown("<0x-1>"), "<0x-1>");
    assert_eq!(shown("<0x+>"), "<0x+>");
    assert_eq!(shown("<0x++1>"), "<0x++1>");
    assert_eq!(shown("<0x41"), "<0x41");
    assert_eq!(shown("0x41>"), "0x41>");
    assert_eq!(shown("<0X41>"), "<0X41>");
    assert_eq!(shown("<0x4 1>"), "<0x4 1>");
    assert_eq!(shown("<0x\u{2581}>"), "<0x >");
}

#[test]
fn fragment_agrees_with_the_standard_parser_on_every_short_digit_string() {
    let alphabet = ['0', '9', 'a', 'f', 'g', 'A', 'F', 'G', '+', '-', ' ', '1', '8'];
    let mut texts = vec![String::new()];
    for _ in 0..3 {
        let mut longer = Vec::new();
        for t in &texts {
            for c in alphabet {
                let mut s = t.clone();
                s.push(c);
                longer.push(s);
            }
        }
        texts.extend(longer);
    }
    for t in texts {
        let token = format!("<0x{t}>");
        let expected = match u8::from_str_radix(&t, 16) {
            Err(_) => token.clone(),
            Ok(b) if b < 128 => (b as char).to_string(),
            Ok(_) => String::new(),
        };
        assert_eq!(shown(&token), expected, "{token}");
    }
}

#[test]
fn print_token_looks_the_id_up_in_the_vocabulary() {
    let t = tokenizer();
    assert_eq!(print_token(1, &t), "hello");
    assert_eq!(print_token(4, &t), " there");
    assert_eq!(print_token(5, &t), "\n");
    assert_eq!(print_token(6, &t), "");
    assert_eq!(print_token(7, &t), "a b ");
    assert_eq!(print_token(99, &t), "");
}

#[test]
fn encode_and_decode_go_through_the_tokenizer() {
    let t = tokenizer();
    assert_eq!(encode_text(&t, "hello world", true), Ok(vec![1, 2]));
    assert_eq!(encode_text(&t, "hello nobody", true), Ok(vec![1, 0]));
    assert_eq!(encode_text(&t, "", true), Ok(vec![]));
    assert_eq!(decode_tokens(&t, &vec![1, 2, 3], true), Ok("hello world User".to_string()));
    assert_eq!(decode_tokens(&t, &vec![], true), Ok(String::new()));
    let failing: Result<String, EngineError> = decode_tokens(&t, &vec![2, 99], true);
    assert_eq!(failing, Ok("world".to_string()));
}
