//! Quantities, which sources write as hexadecimal text or as plain numbers.
use crate::text::{self, push_hexadecimal};
use crate::types;
use vstd::prelude::*;

verus! {

/// Bytes or a quantity as hexadecimal text after `0x`.
pub type HexBytes = String;

/// A value as it stands in a document.
#[derive(Debug)]
pub enum Token {
    Null,
    Text(String),
    U64(u64),
    U128(u128),
    /// Anything else.
    Other,
}

/// The value is not what was expected.
#[derive(Clone, Copy, Debug, PartialEq, Eq, Structural)]
pub enum NotAQuantity {
    /// "a hex string or an unsigned integer"
    Plain,
    /// "a hex string, an unsigned integer, or null"
    OrNull,
}

impl NotAQuantity {
    /// What was expected.
    pub open spec fn text(self) -> Seq<char> {
        match self {
            NotAQuantity::Plain => "a hex string or an unsigned integer"@,
            NotAQuantity::OrNull => "a hex string, an unsigned integer, or null"@,
        }
    }

    /// What was expected.
    pub fn expecting(&self) -> (expected: &'static str)
        ensures
            expected@ == self.text(),
    {
        match self {
            NotAQuantity::Plain => "a hex string or an unsigned integer",
            NotAQuantity::OrNull => "a hex string, an unsigned integer, or null",
        }
    }
}

/// A number as hexadecimal text.
pub open spec fn hex_text(n: nat) -> Seq<char> {
    "0x"@ + text::hexadecimal(n)
}

/// The quantity that a value stands for: text is taken as it is.
pub open spec fn quantity_of(token: Token) -> Option<Seq<char>> {
    match token {
        Token::Text(value) => Some(value@),
        Token::U64(value) => Some(hex_text(value as nat)),
        Token::U128(value) => Some(hex_text(value as nat)),
        _ => None,
    }
}

/// A quantity given as text.
pub fn visit_str(value: &str) -> (quantity: HexBytes)
    ensures
        quantity@ == value@,
{
    value.to_owned()
}

/// A quantity given as a number.
pub fn visit_u64(value: u64) -> (quantity: HexBytes)
    ensures
        quantity@ == hex_text(value as nat),
{
    visit_u128(value as u128)
}

/// A quantity given as a large number.
pub fn visit_u128(value: u128) -> (quantity: HexBytes)
    ensures
        quantity@ == hex_text(value as nat),
{
    let mut quantity: HexBytes = "0x".to_owned();
    push_hexadecimal(&mut quantity, value);
    quantity
}

/// The quantity that a value stands for.
pub fn deserialize(token: Token) -> (r: Result<HexBytes, NotAQuantity>)
    ensures
        match quantity_of(token) {
            Some(quantity) => r matches Ok(q) && q@ == quantity,
            None => r == Err::<HexBytes, NotAQuantity>(NotAQuantity::Plain),
        },
{
    match token {
        Token::Text(value) => Ok(value),
        Token::U64(value) => Ok(visit_u64(value)),
        Token::U128(value) => Ok(visit_u128(value)),
        _ => Err(NotAQuantity::Plain),
    }
}

/// The quantity that a value stands for, or none if it is null. Of any other value it
/// is said, as where null is not allowed, that a quantity was expected.
pub fn deserialize_option(token: Token) -> (r: Result<Option<HexBytes>, NotAQuantity>)
    ensures
        match (token, quantity_of(token)) {
            (Token::Null, _) => r matches Ok(q) && q is None,
            (_, Some(quantity)) => r matches Ok(q) && types::text_view(q) == Some(quantity),
            (_, None) => r == Err::<Option<HexBytes>, NotAQuantity>(NotAQuantity::Plain),
        },
{
    match token {
        Token::Null => Ok(None),
        token => match deserialize(token) {
            Ok(quantity) => Ok(Some(quantity)),
            Err(error) => Err(error),
        },
    }
}

} // verus!
