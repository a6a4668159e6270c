//! The tokenizer, an outside collaborator that is pure from the engine's
//! point of view, and the text fragment that the engine shows for a token.

use vstd::prelude::*;
use tokenizers::Tokenizer;
use crate::error::EngineError;
use crate::text::push_char;

verus! {

#[verifier::external_type_specification]
#[verifier::external_body]
pub struct ExTokenizer(Tokenizer);

/// The token that a tokenizer's vocabulary holds under an id.
pub uninterp spec fn vocabulary_entry(tokenizer: Tokenizer, id: u32) -> Option<Seq<char>>;

/// The text that a tokenizer decodes a sequence of ids to, or `None` where it
/// fails.
pub uninterp spec fn decoded_text(tokenizer: Tokenizer, ids: Seq<u32>, skip_special: bool) -> Option<
    Seq<char>,
>;

/// `Tokenizer::id_to_token`: the vocabulary's entry for `id`.
#[verifier::external_body]
pub(crate) fn id_to_token(tokenizer: &Tokenizer, id: u32) -> (r: Option<String>)
    ensures
        match r {
            Some(text) => vocabulary_entry(*tokenizer, id) == Some(text@),
            None => vocabulary_entry(*tokenizer, id) is None,
        },
{
    tokenizer.id_to_token(id)
}

/// `Tokenizer::decode`: the text of a sequence of ids.
#[verifier::external_body]
pub(crate) fn decode(tokenizer: &Tokenizer, ids: &[u32], skip_special: bool) -> (r: Option<String>)
    ensures
        match r {
            Some(text) => decoded_text(*tokenizer, ids@, skip_special) == Some(text@),
            None => decoded_text(*tokenizer, ids@, skip_special) is None,
        },
{
    match tokenizer.decode(ids, skip_special) {
        Ok(text) => Some(text),
        Err(_) => None,
    }
}

/// `Tokenizer::encode` and `Encoding::get_ids`: the ids of a text.  A
/// tokenizer may draw at random while it encodes, so nothing is promised of
/// the ids.
#[verifier::external_body]
pub(crate) fn encode(tokenizer: &Tokenizer, text: &str, add_special: bool) -> (r: Option<Vec<u32>>) {
    match tokenizer.encode(text, add_special) {
        Ok(encoding) => Some(encoding.get_ids().to_vec()),
        Err(_) => None,
    }
}

/// The character that vocabularies write in place of a space.
pub const WORD_MARK: char = '\u{2581}';

/// A token's text with every word mark turned into a space.
pub open spec fn spaced(s: Seq<char>) -> Seq<char> {
    s.map_values(
        |c: char|
            if c == WORD_MARK {
                ' '
            } else {
                c
            },
    )
}

/// The value of a hexadecimal digit.
pub open spec fn hex_digit(c: char) -> Option<nat> {
    if '0' <= c <= '9' {
        Some((c as nat - '0' as nat) as nat)
    } else if 'a' <= c <= 'f' {
        Some((c as nat - 'a' as nat + 10) as nat)
    } else if 'A' <= c <= 'F' {
        Some((c as nat - 'A' as nat + 10) as nat)
    } else {
        None
    }
}

/// The number that a sequence of hexadecimal digits writes, or `None` where
/// a character is no digit.
pub open spec fn hex_number(s: Seq<char>) -> Option<nat>
    decreases s.len(),
{
    if s.len() == 0 {
        Some(0)
    } else {
        match (hex_number(s.drop_last()), hex_digit(s.last())) {
            (Some(high), Some(low)) => Some(16 * high + low),
            _ => None,
        }
    }
}

/// The byte that a text writes in base sixteen: an optional plus sign, then
/// at least one digit, the number below 256.
pub open spec fn hex_byte(s: Seq<char>) -> Option<u8> {
    digits_byte(unsigned_part(s))
}

/// A text without its leading plus sign, if it has one.
pub open spec fn unsigned_part(s: Seq<char>) -> Seq<char> {
    if s.len() > 0 && s[0] == '+' {
        s.subrange(1, s.len() as int)
    } else {
        s
    }
}

/// The byte that a non-empty sequence of hexadecimal digits writes, if the
/// number is below 256.
pub open spec fn digits_byte(digits: Seq<char>) -> Option<u8> {
    if digits.len() == 0 {
        None
    } else {
        match hex_number(digits) {
            Some(n) => if n < 256 {
                Some(n as u8)
            } else {
                None
            },
            None => None,
        }
    }
}

/// The byte that a token of the form `<0x..>` stands for.
pub open spec fn byte_escape(s: Seq<char>) -> Option<u8> {
    if s.len() >= 4 && s[0] == '<' && s[1] == '0' && s[2] == 'x' && s.last() == '>' {
        hex_byte(s.subrange(3, s.len() - 1))
    } else {
        None
    }
}

/// The text fragment shown for a token: nothing for an id outside the
/// vocabulary; for a byte token the byte's character, if it is ASCII, and
/// nothing otherwise; else the token with its word marks as spaces.
pub open spec fn token_fragment(raw: Option<Seq<char>>) -> Seq<char> {
    match raw {
        None => Seq::empty(),
        Some(s) => match byte_escape(spaced(s)) {
            None => spaced(s),
            Some(b) => if b < 128 {
                seq![b as char]
            } else {
                Seq::empty()
            },
        },
    }
}

/// A number that is too large stays too large when digits follow.
proof fn lemma_hex_number_grows(s: Seq<char>, n: int)
    requires
        0 <= n <= s.len(),
        hex_number(s) is Some,
    ensures
        hex_number(s.take(n)) is Some,
        hex_number(s.take(n)).unwrap() <= hex_number(s).unwrap(),
    decreases s.len() - n,
{
    if n == s.len() {
        assert(s.take(n) =~= s);
    } else {
        assert(s.drop_last().take(n) =~= s.take(n));
        lemma_hex_number_grows(s.drop_last(), n);
    }
}

/// The value of a hexadecimal digit.
fn hex_digit_of(c: char) -> (r: Option<u8>)
    ensures
        match r {
            Some(d) => hex_digit(c) == Some(d as nat) && d < 16,
            None => hex_digit(c) is None,
        },
{
    let v = c as u32;
    if 48 <= v && v <= 57 {
        Some((v - 48) as u8)
    } else if 97 <= v && v <= 102 {
        Some((v - 97 + 10) as u8)
    } else if 65 <= v && v <= 70 {
        Some((v - 65 + 10) as u8)
    } else {
        None
    }
}

/// Reads the byte between positions `from` and `to` of `text`.
fn hex_byte_of(text: &str, from: usize, to: usize) -> (r: Option<u8>)
    requires
        from <= to <= text@.len(),
    ensures
        r == hex_byte(text@.subrange(from as int, to as int)),
{
    let ghost whole = text@.subrange(from as int, to as int);
    let mut start = from;
    if from < to && text.get_char(from) == '+' {
        start = from + 1;
    }
    let ghost digits = text@.subrange(start as int, to as int);
    proof {
        if start > from {
            assert(whole[0] == '+');
            assert(digits =~= whole.subrange(1, whole.len() as int));
        } else {
            assert(digits =~= whole);
            if whole.len() > 0 {
                assert(whole[0] == text@[from as int]);
            }
        }
    }
    assert(digits == unsigned_part(whole));
    if start == to {
        return None;
    }
    let mut acc: u32 = 0;
    let mut i = start;
    while i < to
        invariant
            start <= i <= to,
            start < to,
            to <= text@.len(),
            digits == text@.subrange(start as int, to as int),
            digits == unsigned_part(text@.subrange(from as int, to as int)),
            hex_number(digits.take(i - start)) == Some(acc as nat),
            acc < 256,
        decreases to - i,
    {
        let c = text.get_char(i);
        proof {
            assert(digits.take(i - start + 1).drop_last() =~= digits.take(i - start));
            assert(digits.take(i - start + 1).last() == c);
        }
        match hex_digit_of(c) {
            Some(d) => {
                let next = acc * 16 + d as u32;
                assert(hex_number(digits.take(i - start + 1)) == Some(next as nat));
                if next >= 256 {
                    proof {
                        if hex_number(digits) is Some {
                            lemma_hex_number_grows(digits, i - start + 1);
                        }
                    }
                    return None;
                }
                acc = next;
            },
            None => {
                proof {
                    assert(hex_number(digits.take(i - start + 1)) is None);
                    if hex_number(digits) is Some {
                        lemma_hex_number_grows(digits, i - start + 1);
                    }
                }
                return None;
            },
        }
        i += 1;
    }
    proof {
        assert(digits.take(to - start) =~= digits);
    }
    Some(acc as u8)
}

/// The text fragment shown for a token of the vocabulary.
pub fn fragment_of(raw: Option<String>) -> (text: String)
    ensures
        text@ == token_fragment(
            match raw {
                Some(s) => Some(s@),
                None => None,
            },
        ),
{
    let token = match raw {
        Some(t) => t,
        None => {
            return String::new();
        },
    };
    let source = token.as_str();
    let n = source.unicode_len();
    let mut text = String::new();
    let mut i: usize = 0;
    while i < n
        invariant
            0 <= i <= n,
            n == source@.len(),
            text@ == spaced(source@.take(i as int)),
        decreases n - i,
    {
        let c = source.get_char(i);
        let ghost before = text@;
        if c == WORD_MARK {
            push_char(&mut text, ' ');
        } else {
            push_char(&mut text, c);
        }
        assert(text@ =~= spaced(source@.take(i + 1)));
        i += 1;
    }
    proof {
        assert(source@.take(n as int) =~= source@);
    }
    let shown = text.as_str();
    if n >= 4 && shown.get_char(0) == '<' && shown.get_char(1) == '0' && shown.get_char(2) == 'x'
        && shown.get_char(n - 1) == '>' {
        match hex_byte_of(shown, 3, n - 1) {
            None => text,
            Some(b) => {
                let mut single = String::new();
                if b < 128 {
                    push_char(&mut single, b as char);
                    assert(single@ =~= seq![b as char]);
                }
                single
            },
        }
    } else {
        text
    }
}

/// The text fragment that the engine shows for a token id.
pub fn print_token(next_token: u32, tokenizer: &Tokenizer) -> (text: String)
    ensures
        text@ == token_fragment(vocabulary_entry(*tokenizer, next_token)),
{
    fragment_of(id_to_token(tokenizer, next_token))
}

/// The text of a sequence of token ids.
pub fn decode_tokens(tokenizer: &Tokenizer, ids: &Vec<u32>, skip_special: bool) -> (r: Result<
    String,
    EngineError,
>)
    ensures
        match r {
            Ok(text) => decoded_text(*tokenizer, ids@, skip_special) == Some(text@),
            Err(e) => e == EngineError::TokenizerError && decoded_text(
                *tokenizer,
                ids@,
                skip_special,
            ) is None,
        },
{
    match decode(tokenizer, ids.as_slice(), skip_special) {
        Some(text) => Ok(text),
        None => Err(EngineError::TokenizerError),
    }
}

/// The token ids of a text, as the tokenizer gives them this time.
pub fn encode_text(tokenizer: &Tokenizer, text: &str, add_special: bool) -> (r: Result<
    Vec<u32>,
    EngineError,
>)
    ensures
        r matches Err(e) ==> e == EngineError::TokenizerError,
{
    match encode(tokenizer, text, add_special) {
        Some(ids) => Ok(ids),
        None => Err(EngineError::TokenizerError),
    }
}

} // verus!
