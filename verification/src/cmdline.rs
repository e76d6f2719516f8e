//! The prefix that the boot-time configuration asks for.

use vstd::prelude::*;
use vstd::string::*;
use crate::error::{ConfigError, NamingError};

verus! {

/// How the prefix stands on the kernel command line: the key, written out
/// with its dots, an equals sign, and the prefix as a run of word characters.
pub const PREFIX_PATTERN: &'static str = "net\\.ifnames\\.prefix=(\\w+)";

/// The group of a pattern that holds the prefix.
pub const PREFIX_GROUP: usize = 1;

/// The prefix that the kernel uses for its own names.
pub const RESERVED_PREFIX: &'static str = "eth";

/// The greatest number of characters that a prefix may have.
pub const MAX_PREFIX_LEN: usize = 14;

/// `regex::Error`, the error of `regex::Regex::new`. Nothing is known of a
/// value of it.
#[verifier::external_type_specification]
#[verifier::external_body]
pub struct ExRegexError(regex::Error);

/// What the group with the number `group` of `pattern` holds in the leftmost
/// match that `regex::Regex::captures` finds in `text`: `None` where
/// `regex::Regex::new` refuses the pattern, `Some(None)` where nothing matches,
/// the pattern has no such group, or the group takes no part in the match.
pub uninterp spec fn regex_group(pattern: Seq<char>, text: Seq<char>, group: usize) -> Option<Option<Seq<char>>>;

/// Compiles `pattern` with `regex::Regex::new`, searches `text` with
/// `regex::Regex::captures` and copies what `regex::Captures::get` gives for
/// `group`. The outcome is a function of the pattern, the text and the number
/// alone, named by [`regex_group`]; nothing more is claimed of it.
#[verifier::external_body]
fn captured_group(pattern: &str, text: &str, group: usize) -> (r: Result<Option<String>, regex::Error>)
    ensures
        regex_group(pattern@, text@, group) == match r {
            Ok(found) => Some(found.deep_view()),
            Err(_) => None,
        },
{
    let re = match regex::Regex::new(pattern) {
        Ok(re) => re,
        Err(e) => return Err(e),
    };
    match re.captures(text) {
        Some(captures) => Ok(captures.get(group).map(|found| found.as_str().to_string())),
        None => Ok(None),
    }
}

/// The prefix that a search of the command line yields: what was found, or the
/// empty prefix where nothing was; refused where it is the reserved prefix or
/// has more characters than a prefix may have.
pub open spec fn spec_checked_prefix(found: Option<Seq<char>>) -> Result<Seq<char>, NamingError> {
    let prefix = match found {
        Some(prefix) => prefix,
        None => Seq::empty(),
    };
    if prefix == RESERVED_PREFIX@ {
        Err(NamingError::Config(ConfigError::Reserved))
    } else if prefix.len() > MAX_PREFIX_LEN {
        Err(NamingError::Config(ConfigError::TooLong))
    } else {
        Ok(prefix)
    }
}

/// The prefix that `content` asks for, where `pattern` says how a prefix
/// stands in it: what the first group of the pattern holds is the prefix.
pub open spec fn spec_prefix_with_pattern(pattern: Seq<char>, content: Seq<char>) -> Result<Seq<char>, NamingError> {
    match regex_group(pattern, content, PREFIX_GROUP) {
        None => Err(NamingError::Config(ConfigError::Pattern)),
        Some(found) => spec_checked_prefix(found),
    }
}

/// The prefix that the text of the kernel command line asks for.
pub open spec fn spec_prefix_from_cmdline(content: Seq<char>) -> Result<Seq<char>, NamingError> {
    spec_prefix_with_pattern(PREFIX_PATTERN@, content)
}

/// What a fallible function that makes a text returns, as contracts see it.
pub open spec fn text_outcome(r: Result<String, NamingError>) -> Result<Seq<char>, NamingError> {
    match r {
        Ok(text) => Ok(text@),
        Err(e) => Err(e),
    }
}

/// Decides on the prefix that a search of the command line has yielded.
pub fn checked_prefix(found: Option<String>) -> (r: Result<String, NamingError>)
    ensures
        text_outcome(r) == spec_checked_prefix(found.deep_view()),
{
    let prefix = match found {
        Some(prefix) => prefix,
        None => String::new(),
    };
    let reserved = String::from_str(RESERVED_PREFIX);
    if prefix == reserved {
        return Err(NamingError::Config(ConfigError::Reserved));
    }
    if prefix.as_str().unicode_len() > MAX_PREFIX_LEN {
        return Err(NamingError::Config(ConfigError::TooLong));
    }
    Ok(prefix)
}

/// The prefix that `content` asks for, where `pattern` says how a prefix
/// stands in it; the empty prefix where it asks for none.
pub fn prefix_with_pattern(pattern: &str, content: &str) -> (r: Result<String, NamingError>)
    ensures
        text_outcome(r) == spec_prefix_with_pattern(pattern@, content@),
{
    match captured_group(pattern, content, PREFIX_GROUP) {
        Err(_) => Err(NamingError::Config(ConfigError::Pattern)),
        Ok(found) => checked_prefix(found),
    }
}

/// The prefix that the text of the kernel command line asks for; the empty
/// prefix where it asks for none.
pub fn prefix_from_cmdline(content: &str) -> (r: Result<String, NamingError>)
    ensures
        text_outcome(r) == spec_prefix_from_cmdline(content@),
{
    prefix_with_pattern(PREFIX_PATTERN, content)
}

} // verus!
