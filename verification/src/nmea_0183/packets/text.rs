use vstd::prelude::*;

use crate::error::ParseError;
use crate::misc::parser::{spec_string_field, spec_u8_field, Parser};

verus! {

/// A free-text report: sentence bookkeeping and the escaped message bytes.
#[derive(Debug, Clone, PartialEq, Eq)]
pub struct Text {
    pub total_sentences: u8,
    pub sentence_number: u8,
    pub text_identifier: u8,
    /// The message with its `^HH` escape sequences decoded.
    pub message: Vec<u8>,
}

/// The result of decoding the field list of a free-text sentence, with the
/// message as the decoded byte sequence.
pub open spec fn spec_parse_text(s: Seq<u8>) -> Result<(u8, u8, u8, Seq<u8>), ParseError> {
    let (total_r, i1) = spec_u8_field(s, 0, true);
    match total_r {
        Err(e) => Err(e),
        Ok(total_sentences) => {
            let (number_r, i2) = spec_u8_field(s, i1, true);
            match number_r {
                Err(e) => Err(e),
                Ok(sentence_number) => {
                    let (id_r, i3) = spec_u8_field(s, i2, true);
                    match id_r {
                        Err(e) => Err(e),
                        Ok(text_identifier) => {
                            let (msg_r, _i4) = spec_string_field(s, i3, true);
                            match msg_r {
                                Err(e) => Err(e),
                                Ok(message) => Ok(
                                    (total_sentences, sentence_number, text_identifier, message),
                                ),
                            }
                        },
                    }
                },
            }
        },
    }
}

impl Text {
    /// Decodes the field list of a free-text sentence.
    pub fn parse(sentence: &[u8]) -> (r: Result<Text, ParseError>)
        ensures
            match (r, spec_parse_text(sentence@)) {
                (Ok(t), Ok(v)) => t.total_sentences == v.0 && t.sentence_number == v.1
                    && t.text_identifier == v.2 && t.message@ == v.3,
                (Err(e), Err(se)) => e == se,
                _ => false,
            },
    {
        let mut parser = Parser::new(sentence).take_on_parse(0x2C);
        let total_sentences = match parser.parse_u8() {
            Ok(v) => v,
            Err(e) => {
                return Err(e);
            },
        };
        let sentence_number = match parser.parse_u8() {
            Ok(v) => v,
            Err(e) => {
                return Err(e);
            },
        };
        let text_identifier = match parser.parse_u8() {
            Ok(v) => v,
            Err(e) => {
                return Err(e);
            },
        };
        let message = match parser.parse_string() {
            Ok(v) => v,
            Err(e) => {
                return Err(e);
            },
        };

        Ok(Text { total_sentences, sentence_number, text_identifier, message })
    }
}

} // verus!
