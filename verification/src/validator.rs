//! String Validator: the checks applied to user-supplied names before they
//! are handed to the substitution table.

use vstd::prelude::*;

verus! {

/// A character the namespace pattern accepts: an ASCII lower-case letter,
/// a digit, `_`, `.`, `-` or `:`.
pub open spec fn is_namespace_char(c: char) -> bool {
    let u = c as u32;
    (0x61 <= u && u <= 0x7A) || (0x30 <= u && u <= 0x39) || u == 0x5F || u == 0x2E || u == 0x2D
        || u == 0x3A
}

/// A namespace ID: non-empty, every character from the namespace class.
pub open spec fn spec_namespace_ok(s: Seq<char>) -> bool {
    s.len() > 0 && forall|i: int| 0 <= i < s.len() ==> is_namespace_char(#[trigger] s[i])
}

/// An ASCII word character: a letter, a digit or `_`.
pub open spec fn is_ascii_word_char(c: char) -> bool {
    let u = c as u32;
    (0x41 <= u && u <= 0x5A) || (0x61 <= u && u <= 0x7A) || (0x30 <= u && u <= 0x39) || u == 0x5F
}

/// An ASCII white-space character, as the `\s` regex class has it within
/// the ASCII range.
pub open spec fn is_ascii_space_char(c: char) -> bool {
    let u = c as u32;
    u == 0x20 || (0x09 <= u && u <= 0x0D)
}

/// Whether every character of `s` is ASCII.
pub open spec fn is_ascii_seq(s: Seq<char>) -> bool {
    forall|i: int| 0 <= i < s.len() ==> (#[trigger] s[i] as u32) < 0x80
}

/// A valid player name restricted to ASCII: 3 to 16 word characters.
pub open spec fn spec_ascii_name_ok(s: Seq<char>) -> bool {
    3 <= s.len() <= 16 && forall|i: int| 0 <= i < s.len() ==> is_ascii_word_char(#[trigger] s[i])
}

/// A valid datapack name restricted to ASCII: non-empty, each character a
/// word character or white space.
pub open spec fn spec_ascii_datapack_name_ok(s: Seq<char>) -> bool {
    s.len() > 0 && forall|i: int|
        0 <= i < s.len() ==> is_ascii_word_char(#[trigger] s[i]) || is_ascii_space_char(s[i])
}

/// What matching a text against `^\w{3,16}$` returns: a function of the
/// characters alone.
pub uninterp spec fn word_name_match(s: Seq<char>) -> bool;

/// What matching a text against `^[\w\d\s]+$` returns: a function of the
/// characters alone.
pub uninterp spec fn datapack_name_match(s: Seq<char>) -> bool;

/// Relies on `regex::Regex::new` and `Regex::is_match`: the anchored
/// pattern `^[a-z0-9_\.\-:]+$` matches the whole text exactly when it
/// consists of one or more characters of that class.
#[verifier::external_body]
fn namespace_pattern_match(text: &str) -> (r: bool)
    ensures
        r == spec_namespace_ok(text@),
{
    match regex::Regex::new(r"^[a-z0-9_\.\-:]+$") {
        Ok(re) => re.is_match(text),
        Err(_) => false,
    }
}

/// Relies on `regex::Regex::new` and `Regex::is_match`: the anchored
/// pattern `^\w{3,16}$` matches the whole text exactly when it is 3 to 16
/// word characters; `\w` is the Unicode word class, each repetition one
/// character, and within ASCII the class is a letter, a digit or `_`.
#[verifier::external_body]
fn name_pattern_match(text: &str) -> (r: bool)
    ensures
        r == word_name_match(text@),
        !(3 <= text@.len() <= 16) ==> !r,
        is_ascii_seq(text@) ==> (r <==> spec_ascii_name_ok(text@)),
{
    match regex::Regex::new(r"^\w{3,16}$") {
        Ok(re) => re.is_match(text),
        Err(_) => false,
    }
}

/// Relies on `regex::Regex::new` and `Regex::is_match`: the anchored
/// pattern `^[\w\d\s]+$` matches the whole text exactly when it is one or
/// more characters of the word, digit or white-space classes; within
/// ASCII those are a letter, a digit, `_` or white space.
#[verifier::external_body]
fn datapack_pattern_match(text: &str) -> (r: bool)
    ensures
        r == datapack_name_match(text@),
        text@.len() == 0 ==> !r,
        is_ascii_seq(text@) ==> (r <==> spec_ascii_datapack_name_ok(text@)),
{
    match regex::Regex::new(r"^[\w\d\s]+$") {
        Ok(re) => re.is_match(text),
        Err(_) => false,
    }
}

/// Why a user-supplied string is rejected; each variant carries the
/// offending text.
#[derive(Debug)]
pub enum ValidatorError {
    InvalidNamespace(String),
    InvalidName(String),
    InvalidDatapackName(String),
}

/// Validating Namespace ID
pub struct NamespaceValidator;

impl NamespaceValidator {
    /// Accepts exactly the non-empty strings built from the namespace
    /// character class.
    pub fn validate(&self, text: &str) -> (r: Result<(), ValidatorError>)
        ensures
            r is Ok <==> spec_namespace_ok(text@),
            r matches Err(e) ==> e matches ValidatorError::InvalidNamespace(t) && t@ == text@,
    {
        if namespace_pattern_match(text) {
            Ok(())
        } else {
            Err(ValidatorError::InvalidNamespace(text.to_owned()))
        }
    }
}

/// Validating Player name
pub struct NameValidator;

impl NameValidator {
    /// Accepts exactly the strings of 3 to 16 word characters; on ASCII
    /// input that is a letter, a digit or `_` each.
    pub fn validate(&self, text: &str) -> (r: Result<(), ValidatorError>)
        ensures
            r is Ok <==> word_name_match(text@),
            !(3 <= text@.len() <= 16) ==> r is Err,
            is_ascii_seq(text@) ==> (r is Ok <==> spec_ascii_name_ok(text@)),
            r matches Err(e) ==> e matches ValidatorError::InvalidName(t) && t@ == text@,
    {
        if name_pattern_match(text) {
            Ok(())
        } else {
            Err(ValidatorError::InvalidName(text.to_owned()))
        }
    }
}

/// Validating Datapack Name that *could* be transformed into namespace
pub struct DatapackNameValidator;

impl DatapackNameValidator {
    /// Accepts exactly the non-empty strings of word, digit or white-space
    /// characters; on ASCII input that is a letter, a digit, `_` or white
    /// space each.
    pub fn validate(&self, text: &str) -> (r: Result<(), ValidatorError>)
        ensures
            r is Ok <==> datapack_name_match(text@),
            text@.len() == 0 ==> r is Err,
            is_ascii_seq(text@) ==> (r is Ok <==> spec_ascii_datapack_name_ok(text@)),
            r matches Err(e) ==> e matches ValidatorError::InvalidDatapackName(t) && t@ == text@,
    {
        if datapack_pattern_match(text) {
            Ok(())
        } else {
            Err(ValidatorError::InvalidDatapackName(text.to_owned()))
        }
    }
}

} // verus!
