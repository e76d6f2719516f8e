//! What can go wrong while a name is allocated.

use vstd::prelude::*;

verus! {

/// Why a boot-time prefix is refused.
#[derive(Clone, Copy, Debug, PartialEq, Eq, Structural)]
pub enum ConfigError {
    /// The boot-time configuration could not be read.
    Unreadable,
    /// The pattern that finds the prefix was not accepted.
    Pattern,
    /// The prefix is the one the kernel itself uses.
    Reserved,
    /// The prefix leaves no room for a number in an interface name.
    TooLong,
}

/// Why a link file yields no record.
#[derive(Clone, Copy, Debug, PartialEq, Eq, Structural)]
pub enum RecordError {
    /// The text is not a well-formed key-value document.
    Syntax,
    /// There is no `MACAddress` key in a `[Match]` section.
    MissingAddress,
    /// There is no `Name` key in a `[Link]` section.
    MissingName,
    /// The value of `MACAddress` is not a hardware address.
    BadAddress,
}

/// A failure of one allocation run.
#[derive(Clone, Copy, Debug, PartialEq, Eq, Structural)]
pub enum NamingError {
    /// The boot-time configuration is unusable.
    Config(ConfigError),
    /// The lock could not be created.
    Lock,
    /// The devices could not be listed, or the device that caused the run
    /// has no usable hardware address.
    Enumeration,
    /// A link file is malformed.
    RecordParse(RecordError),
    /// A known name does not end in a number.
    MalformedName,
    /// The largest number in use has no successor.
    NamesExhausted,
    /// The new link file could not be written.
    Persist,
    /// An event arrived that the current state does not expect.
    UnexpectedEvent,
}

} // verus!
