//! Reading typed values out of character data. Text is parsed by `autosar_data`.

use vstd::prelude::*;
use crate::element::{CharacterData, CharacterDataView, EnumItem};

verus! {

/// What `autosar_data::CharacterData::parse_integer::<u64>` gives for text content.
pub uninterp spec fn parse_integer_text_u64(text: Seq<char>) -> Option<u64>;

/// What `autosar_data::CharacterData::parse_integer::<i64>` gives for text content.
pub uninterp spec fn parse_integer_text_i64(text: Seq<char>) -> Option<i64>;

/// The bits of what `autosar_data::CharacterData::parse_float` gives for text content.
pub uninterp spec fn parse_float_text(text: Seq<char>) -> Option<u64>;

/// The bits of what `autosar_data::CharacterData::parse_float` gives for an unsigned
/// integer content (the integer converted to a double).
pub uninterp spec fn parse_float_uint(value: u64) -> Option<u64>;

/// `autosar_data::CharacterData::parse_integer::<u64>` on text content (decimal, or
/// hexadecimal, binary, octal with a prefix). Its result is named, not stated.
#[verifier::external_body]
fn autosar_parse_integer_u64(text: &str) -> (r: Option<u64>)
    ensures
        r == parse_integer_text_u64(text@),
{
    autosar_data::CharacterData::String(text.to_string()).parse_integer::<u64>()
}

/// `autosar_data::CharacterData::parse_integer::<i64>` on text content. Its result is
/// named, not stated.
#[verifier::external_body]
fn autosar_parse_integer_i64(text: &str) -> (r: Option<i64>)
    ensures
        r == parse_integer_text_i64(text@),
{
    autosar_data::CharacterData::String(text.to_string()).parse_integer::<i64>()
}

/// `autosar_data::CharacterData::parse_float` on text content, the double given by its
/// bits. Its result is named, not stated.
#[verifier::external_body]
fn autosar_parse_float_text(text: &str) -> (r: Option<u64>)
    ensures
        r == parse_float_text(text@),
{
    autosar_data::CharacterData::String(text.to_string()).parse_float().map(|v| v.to_bits())
}

/// `autosar_data::CharacterData::parse_float` on unsigned integer content, the double
/// given by its bits. It always gives a number (the integer converted to a double); which
/// double is named, not stated.
#[verifier::external_body]
fn autosar_parse_float_uint(value: u64) -> (r: Option<u64>)
    ensures
        r is Some,
        r == parse_float_uint(value),
{
    autosar_data::CharacterData::UnsignedInteger(value).parse_float().map(|v| v.to_bits())
}

/// `parse_integer::<u64>`: text is parsed, an unsigned integer is taken as it is
pub open spec fn spec_parse_integer_u64(cd: CharacterDataView) -> Option<u64> {
    match cd {
        CharacterDataView::String(t) => parse_integer_text_u64(t),
        CharacterDataView::UnsignedInteger(n) => Some(n),
        _ => None,
    }
}

/// `parse_integer::<i64>`: text is parsed, an unsigned integer is converted if it fits
pub open spec fn spec_parse_integer_i64(cd: CharacterDataView) -> Option<i64> {
    match cd {
        CharacterDataView::String(t) => parse_integer_text_i64(t),
        CharacterDataView::UnsignedInteger(n) => if n <= i64::MAX {
            Some(n as i64)
        } else {
            None
        },
        _ => None,
    }
}

/// `parse_float`, the double given by its bits
pub open spec fn spec_parse_float(cd: CharacterDataView) -> Option<u64> {
    match cd {
        CharacterDataView::String(t) => parse_float_text(t),
        CharacterDataView::Float(b) => Some(b),
        CharacterDataView::UnsignedInteger(n) => parse_float_uint(n),
        _ => None,
    }
}

/// `parse_bool`: "true" and "1" are true, "false" and "0" are false
pub open spec fn spec_parse_bool(cd: CharacterDataView) -> Option<bool> {
    match cd {
        CharacterDataView::String(t) => if t == "true"@ || t == "1"@ {
            Some(true)
        } else if t == "false"@ || t == "0"@ {
            Some(false)
        } else {
            None
        },
        _ => None,
    }
}

pub open spec fn spec_string_value(cd: CharacterDataView) -> Option<Seq<char>> {
    match cd {
        CharacterDataView::String(t) => Some(t),
        _ => None,
    }
}

pub open spec fn spec_enum_value(cd: CharacterDataView) -> Option<EnumItem> {
    match cd {
        CharacterDataView::Enum(e) => Some(e),
        _ => None,
    }
}

/// the character data that a boolean becomes: the text "true" or "false"
pub open spec fn bool_data(value: bool) -> CharacterDataView {
    CharacterDataView::String(if value { "true"@ } else { "false"@ })
}

/// whether the string holds exactly the given text
pub fn text_is(s: &str, text: &str) -> (r: bool)
    ensures
        r == (s@ == text@),
{
    s.to_owned() == text.to_owned()
}

impl CharacterData {
    /// a copy of this character data
    pub fn copy(&self) -> (r: CharacterData)
        ensures
            r@ == self@,
    {
        match self {
            CharacterData::Enum(x) => CharacterData::Enum(*x),
            CharacterData::String(x) => CharacterData::String(x.clone()),
            CharacterData::UnsignedInteger(x) => CharacterData::UnsignedInteger(*x),
            CharacterData::Float(x) => CharacterData::Float(*x),
        }
    }

    /// the character data that a boolean becomes
    pub fn from_bool(value: bool) -> (r: CharacterData)
        ensures
            r@ == bool_data(value),
    {
        if value {
            CharacterData::String("true".to_owned())
        } else {
            CharacterData::String("false".to_owned())
        }
    }

    /// the text, if this is text
    pub fn string_value(&self) -> (r: Option<String>)
        ensures
            match r {
                Some(s) => spec_string_value(self@) == Some(s@),
                None => spec_string_value(self@) is None,
            },
    {
        match self {
            CharacterData::String(s) => Some(s.clone()),
            _ => None,
        }
    }

    /// the enumeration item, if this is one
    pub fn enum_value(&self) -> (r: Option<EnumItem>)
        ensures
            r == spec_enum_value(self@),
    {
        match self {
            CharacterData::Enum(e) => Some(*e),
            _ => None,
        }
    }

    /// the value as an unsigned integer
    pub fn parse_integer_u64(&self) -> (r: Option<u64>)
        ensures
            r == spec_parse_integer_u64(self@),
    {
        match self {
            CharacterData::String(t) => autosar_parse_integer_u64(t.as_str()),
            CharacterData::UnsignedInteger(n) => Some(*n),
            _ => None,
        }
    }

    /// the value as a signed integer
    pub fn parse_integer_i64(&self) -> (r: Option<i64>)
        ensures
            r == spec_parse_integer_i64(self@),
    {
        match self {
            CharacterData::String(t) => autosar_parse_integer_i64(t.as_str()),
            CharacterData::UnsignedInteger(n) => if *n <= 0x7fff_ffff_ffff_ffffu64 {
                Some(*n as i64)
            } else {
                None
            },
            _ => None,
        }
    }

    /// the value as a double, given by its bits
    pub fn parse_float(&self) -> (r: Option<u64>)
        ensures
            r == spec_parse_float(self@),
    {
        match self {
            CharacterData::String(t) => autosar_parse_float_text(t.as_str()),
            CharacterData::Float(b) => Some(*b),
            CharacterData::UnsignedInteger(n) => autosar_parse_float_uint(*n),
            _ => None,
        }
    }

    /// the value as a boolean
    pub fn parse_bool(&self) -> (r: Option<bool>)
        ensures
            r == spec_parse_bool(self@),
    {
        match self {
            CharacterData::String(t) => {
                if text_is(t.as_str(), "true") || text_is(t.as_str(), "1") {
                    Some(true)
                } else if text_is(t.as_str(), "false") || text_is(t.as_str(), "0") {
                    Some(false)
                } else {
                    None
                }
            },
            _ => None,
        }
    }
}

/// Law: a boolean written as character data reads back as itself.
pub proof fn lemma_bool_data_parses(value: bool)
    ensures
        spec_parse_bool(bool_data(value)) == Some(value),
{
    reveal_strlit("true");
    reveal_strlit("false");
    reveal_strlit("1");
    reveal_strlit("0");
    if !value {
        assert("false"@.len() == 5 && "true"@.len() == 4 && "1"@.len() == 1);
        assert("false"@ != "true"@);
        assert("false"@ != "1"@);
    }
}

} // verus!
