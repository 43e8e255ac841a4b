use vstd::prelude::*;

use crate::model::{Product, OS, Device, CPU, Engine};

verus! {

/// The lowercase hexadecimal BLAKE3 digest of a text, as a function of its
/// characters alone.
pub uninterp spec fn blake3_hex_of(s: Seq<char>) -> Seq<char>;

/// Whether a character is a lowercase hexadecimal digit.
pub open spec fn is_lower_hex_char(c: char) -> bool {
    (48 <= c as u32 && c as u32 <= 57) || (97 <= c as u32 && c as u32 <= 102)
}

/// Relies on blake3::Hasher (new, update, finalize) and blake3::Hash::to_hex:
/// hashing the UTF-8 bytes of the text gives a 32-byte digest, rendered as 64
/// lowercase hexadecimal characters; the digest depends on the input bytes
/// alone.
#[verifier::external_body]
pub fn blake3_hex(s: &str) -> (r: String)
    ensures
        r@ == blake3_hex_of(s@),
        r@.len() == 64,
        forall|i: int| 0 <= i < r@.len() ==> is_lower_hex_char(#[trigger] r@[i]),
{
    let mut hasher = blake3::Hasher::new();
    hasher.update(s.as_bytes());
    hasher.finalize().to_hex().to_string()
}

/// Whether a character is alphanumeric in the Unicode sense, as a function
/// of the character alone.
pub uninterp spec fn is_alphanumeric_char(c: char) -> bool;

/// Relies on char::is_alphanumeric: whether the character is in one of the
/// Unicode number categories or is alphabetic; it depends on the character
/// alone.
#[verifier::external_body]
pub fn char_is_alphanumeric(c: char) -> (r: bool)
    ensures
        r == is_alphanumeric_char(c),
{
    c.is_alphanumeric()
}

/// Whether a character is whitespace in the Unicode sense, as a function of
/// the character alone.
pub uninterp spec fn is_whitespace_char(c: char) -> bool;

/// Relies on char::is_whitespace: whether the character has the Unicode
/// White_Space property; it depends on the character alone.
#[verifier::external_body]
pub fn char_is_whitespace(c: char) -> (r: bool)
    ensures
        r == is_whitespace_char(c),
{
    c.is_whitespace()
}

#[verifier::external_type_specification]
#[verifier::external_body]
pub struct ExUserAgentParser(user_agent_parser::UserAgentParser);

/// Relies on UserAgentParser::parse_product: it extracts the browser name
/// and version parts that the parser's patterns capture, each field
/// independently optional. The result depends on the rules the parser was
/// built from, so nothing is assumed of the values.
#[verifier::external_body]
pub fn parse_product_raw(parser: &user_agent_parser::UserAgentParser, agent: &str) -> Product {
    let p = parser.parse_product(agent);
    Product {
        name: p.name.map(|v| v.into_owned()),
        major: p.major.map(|v| v.into_owned()),
        minor: p.minor.map(|v| v.into_owned()),
        patch: p.patch.map(|v| v.into_owned()),
    }
}

/// Relies on UserAgentParser::parse_os: it extracts the operating-system
/// name and version parts that the parser's patterns capture. The result
/// depends on the rules the parser was built from, so nothing is assumed of
/// the values.
#[verifier::external_body]
pub fn parse_os_raw(parser: &user_agent_parser::UserAgentParser, agent: &str) -> OS {
    let o = parser.parse_os(agent);
    OS {
        name: o.name.map(|v| v.into_owned()),
        major: o.major.map(|v| v.into_owned()),
        minor: o.minor.map(|v| v.into_owned()),
        patch: o.patch.map(|v| v.into_owned()),
        patch_minor: o.patch_minor.map(|v| v.into_owned()),
    }
}

/// Relies on UserAgentParser::parse_device: it extracts the device name,
/// brand and model that the parser's patterns capture. The result depends on
/// the rules the parser was built from, so nothing is assumed of the values.
#[verifier::external_body]
pub fn parse_device_raw(parser: &user_agent_parser::UserAgentParser, agent: &str) -> Device {
    let d = parser.parse_device(agent);
    Device {
        name: d.name.map(|v| v.into_owned()),
        brand: d.brand.map(|v| v.into_owned()),
        model: d.model.map(|v| v.into_owned()),
    }
}

/// Relies on UserAgentParser::parse_cpu: it extracts the processor
/// architecture that the parser's patterns capture. The result depends on
/// the rules the parser was built from, so nothing is assumed of the value.
#[verifier::external_body]
pub fn parse_cpu_raw(parser: &user_agent_parser::UserAgentParser, agent: &str) -> CPU {
    let c = parser.parse_cpu(agent);
    CPU { architecture: c.architecture.map(|v| v.into_owned()) }
}

/// Relies on UserAgentParser::parse_engine: it extracts the layout-engine
/// name and version parts that the parser's patterns capture. The result
/// depends on the rules the parser was built from, so nothing is assumed of
/// those values; the parser reports no engine patch-minor version, so that
/// field is always absent.
#[verifier::external_body]
pub fn parse_engine_raw(parser: &user_agent_parser::UserAgentParser, agent: &str) -> (r: Engine)
    ensures
        r.patch_minor is None,
{
    let e = parser.parse_engine(agent);
    Engine {
        name: e.name.map(|v| v.into_owned()),
        major: e.major.map(|v| v.into_owned()),
        minor: e.minor.map(|v| v.into_owned()),
        patch: e.patch.map(|v| v.into_owned()),
        patch_minor: None,
    }
}

} // verus!
