//! The errors a parse can end in.

use vstd::prelude::*;
use vstd::string::StringExecFns;

verus! {

/// Why the byte source could not serve a read or a seek.
#[derive(Debug, Clone, Copy, PartialEq, Eq, Hash, Structural)]
pub enum IoError {
    /// Fewer bytes were left than the read asked for.
    UnexpectedEof,
    /// The seek target does not fit in 64 bits.
    InvalidSeek,
}

/// Which structural rule a corrupt file breaks.
#[derive(Debug, Clone, Copy, PartialEq, Eq, Hash, Structural)]
pub enum Corruption {
    /// A child element is larger than what is left of its parent.
    ChildOverrun,
    /// Master elements are nested deeper than the parser follows.
    NestingTooDeep,
    /// A chain of SeekHead elements is longer than any real file needs.
    SeekHeadCycle,
    /// A seek position plus the Segment start does not fit in 64 bits.
    SeekOffsetOverflow,
    /// A seek entry leads to an element with another ID than the entry names.
    SeekTargetMismatch,
    /// An element declares the reserved "unknown" size.
    UnknownSize,
}

/// A possible error when parsing a Matroska file.
#[derive(Debug, Clone, Copy, PartialEq, Eq, Hash, Structural)]
pub enum MatroskaError {
    /// The byte source failed.
    Io(IoError),
    /// An element ID is wider than four bytes or is cut off.
    InvalidId,
    /// An element size is wider than eight bytes or is cut off.
    InvalidSize,
    /// An integer body is wider than eight bytes.
    InvalidInt,
    /// A float body is neither four nor eight bytes wide.
    InvalidFloat,
    /// A date body is not eight bytes wide.
    InvalidDate,
    /// A string body is not valid UTF-8.
    InvalidUtf8,
    /// The file breaks a structural rule.
    CorruptFile { reason: Corruption },
}

impl IoError {
    /// What went wrong, in words.
    pub open spec fn text(self) -> Seq<char> {
        match self {
            IoError::UnexpectedEof => "failed to fill whole buffer"@,
            IoError::InvalidSeek => "invalid seek to an overflowing position"@,
        }
    }

    /// What went wrong, in words.
    pub fn as_str(&self) -> (text: &'static str)
        ensures
            text@ == self.text(),
    {
        match self {
            IoError::UnexpectedEof => "failed to fill whole buffer",
            IoError::InvalidSeek => "invalid seek to an overflowing position",
        }
    }
}

impl Corruption {
    /// Which rule is broken, in words.
    pub open spec fn text(self) -> Seq<char> {
        match self {
            Corruption::ChildOverrun => "child element overruns its parent"@,
            Corruption::NestingTooDeep => "elements nested too deep"@,
            Corruption::SeekHeadCycle => "SeekHead cycle"@,
            Corruption::SeekOffsetOverflow => "seek offset overflow"@,
            Corruption::SeekTargetMismatch => "seek entry leads to another element"@,
            Corruption::UnknownSize => "element of unknown size"@,
        }
    }

    /// Which rule is broken, in words.
    pub fn as_str(&self) -> (text: &'static str)
        ensures
            text@ == self.text(),
    {
        match self {
            Corruption::ChildOverrun => "child element overruns its parent",
            Corruption::NestingTooDeep => "elements nested too deep",
            Corruption::SeekHeadCycle => "SeekHead cycle",
            Corruption::SeekOffsetOverflow => "seek offset overflow",
            Corruption::SeekTargetMismatch => "seek entry leads to another element",
            Corruption::UnknownSize => "element of unknown size",
        }
    }
}

impl MatroskaError {
    /// The error message.
    pub open spec fn text(self) -> Seq<char> {
        match self {
            MatroskaError::Io(error) => error.text(),
            MatroskaError::InvalidId => "invalid element ID"@,
            MatroskaError::InvalidSize => "invalid element size"@,
            MatroskaError::InvalidInt => "invalid integer"@,
            MatroskaError::InvalidFloat => "invalid float"@,
            MatroskaError::InvalidDate => "invalid date"@,
            MatroskaError::InvalidUtf8 => "invalid UTF-8 string"@,
            MatroskaError::CorruptFile { reason } => "corrupt file: "@ + reason.text(),
        }
    }

    /// The error message.
    pub fn message(&self) -> (text: String)
        ensures
            text@ == self.text(),
    {
        match self {
            MatroskaError::Io(error) => String::from_str(error.as_str()),
            MatroskaError::InvalidId => String::from_str("invalid element ID"),
            MatroskaError::InvalidSize => String::from_str("invalid element size"),
            MatroskaError::InvalidInt => String::from_str("invalid integer"),
            MatroskaError::InvalidFloat => String::from_str("invalid float"),
            MatroskaError::InvalidDate => String::from_str("invalid date"),
            MatroskaError::InvalidUtf8 => String::from_str("invalid UTF-8 string"),
            MatroskaError::CorruptFile { reason } => {
                let mut text = String::from_str("corrupt file: ");
                text.append(reason.as_str());
                text
            },
        }
    }

    /// The failure of the byte source that lies behind the error, if one
    /// does.
    pub fn cause(&self) -> (cause: Option<IoError>)
        ensures
            cause == match *self {
                MatroskaError::Io(error) => Some(error),
                _ => None::<IoError>,
            },
    {
        match self {
            MatroskaError::Io(error) => Some(*error),
            _ => None,
        }
    }
}

} // verus!
