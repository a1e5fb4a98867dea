//! What can go wrong, and how it is told to the user.

use vstd::prelude::*;
use vstd::string::StringExecFns;

verus! {

/// One of the three axes of a position.
#[derive(Debug, Clone, Copy, PartialEq, Eq, Structural)]
pub enum Axis {
    X,
    Y,
    Z,
}

impl Axis {
    /// The letter that names the axis.
    pub open spec fn letter(self) -> Seq<char> {
        match self {
            Axis::X => "x"@,
            Axis::Y => "y"@,
            Axis::Z => "z"@,
        }
    }
}

/// What was wrong with a position that the user typed. The user is told and
/// asked again; it never ends a recording.
#[derive(Debug, Clone, Copy, PartialEq, Eq, Structural)]
pub enum InvalidInput {
    /// The line did not hold exactly three tokens.
    Format,
    /// The token for the axis does not read as a finite number.
    Number(Axis),
}

impl InvalidInput {
    /// The line that tells the user what was wrong.
    pub open spec fn text(self) -> Seq<char> {
        match self {
            InvalidInput::Format => "    Error: Must be in format \"x y z\""@,
            InvalidInput::Number(axis) => "    Error: Failed to parse "@ + axis.letter()
                + " as float"@,
        }
    }

    /// Writes the line that tells the user what was wrong.
    pub fn message(&self) -> (out: String)
        ensures
            out@ == self.text(),
    {
        match self {
            InvalidInput::Format => String::from_str("    Error: Must be in format \"x y z\""),
            InvalidInput::Number(axis) => {
                let mut out = String::from_str("    Error: Failed to parse ");
                match axis {
                    Axis::X => out.append("x"),
                    Axis::Y => out.append("y"),
                    Axis::Z => out.append("z"),
                }
                out.append(" as float");
                out
            },
        }
    }
}

/// Why a scan for wireless networks failed.
#[derive(Debug, Clone, Copy, PartialEq, Eq, Structural)]
pub enum ScanFault {
    SyntaxRegexError,
    CommandNotFound,
    NoMatch,
    FailedToParse,
    NoValue,
}

impl ScanFault {
    /// The name of the fault.
    pub open spec fn name(self) -> Seq<char> {
        match self {
            ScanFault::SyntaxRegexError => "SyntaxRegexError"@,
            ScanFault::CommandNotFound => "CommandNotFound"@,
            ScanFault::NoMatch => "NoMatch"@,
            ScanFault::FailedToParse => "FailedToParse"@,
            ScanFault::NoValue => "NoValue"@,
        }
    }
}

/// The failure of a scan for wireless networks.
#[derive(Debug, Clone, Copy, PartialEq, Eq, Structural)]
pub struct ScanError {
    /// Reason the scan failed.
    pub reason: ScanFault,
}

impl ScanError {
    /// The failure with the given reason.
    pub fn from(reason: ScanFault) -> (e: ScanError)
        ensures
            e.reason == reason,
    {
        ScanError { reason }
    }

    /// The description of the failure.
    pub open spec fn text(self) -> Seq<char> {
        "resource="@ + self.reason.name()
    }

    /// Writes the description of the failure: `resource=` and the name of
    /// the reason.
    pub fn message(&self) -> (out: String)
        ensures
            out@ == self.text(),
    {
        let mut out = String::from_str("resource=");
        match self.reason {
            ScanFault::SyntaxRegexError => out.append("SyntaxRegexError"),
            ScanFault::CommandNotFound => out.append("CommandNotFound"),
            ScanFault::NoMatch => out.append("NoMatch"),
            ScanFault::FailedToParse => out.append("FailedToParse"),
            ScanFault::NoValue => out.append("NoValue"),
        }
        out
    }
}

/// A failure that ends the program.
#[derive(Debug, Clone, Copy, PartialEq, Eq, Structural)]
pub enum MapError {
    /// The scan map file was expected and is not there.
    NotFound,
    /// The scan map file does not hold a scan map.
    ParseError,
    /// A file could not be read or written.
    IoError,
    /// The scan for wireless networks failed.
    ScanFailure(ScanError),
    /// The place to export to exists and is not a directory.
    InvalidTarget,
}

impl MapError {
    /// Why a scan map file could not be opened: it is not there, or it is
    /// there and cannot be read.
    pub fn on_open(missing: bool) -> (e: MapError)
        ensures
            e == if missing {
                MapError::NotFound
            } else {
                MapError::IoError
            },
    {
        if missing {
            MapError::NotFound
        } else {
            MapError::IoError
        }
    }

    /// Why an opened scan map file gave no scan map: reading it failed, or
    /// what was read is not a scan map.
    pub fn on_read(reading_failed: bool) -> (e: MapError)
        ensures
            e == if reading_failed {
                MapError::IoError
            } else {
                MapError::ParseError
            },
    {
        if reading_failed {
            MapError::IoError
        } else {
            MapError::ParseError
        }
    }

    /// The description of the failure.
    pub open spec fn text(self) -> Seq<char> {
        match self {
            MapError::NotFound => "scan map file not found"@,
            MapError::ParseError => "failed to load existing scan map"@,
            MapError::IoError => "failed to read or write a file"@,
            MapError::ScanFailure(e) => "failed to acquire new reading: "@ + e.text(),
            MapError::InvalidTarget => "export target is not a directory"@,
        }
    }

    /// Writes the description of the failure.
    pub fn message(&self) -> (out: String)
        ensures
            out@ == self.text(),
    {
        match self {
            MapError::NotFound => String::from_str("scan map file not found"),
            MapError::ParseError => String::from_str("failed to load existing scan map"),
            MapError::IoError => String::from_str("failed to read or write a file"),
            MapError::ScanFailure(e) => {
                let mut out = String::from_str("failed to acquire new reading: ");
                let why = e.message();
                out.append(why.as_str());
                out
            },
            MapError::InvalidTarget => String::from_str("export target is not a directory"),
        }
    }

    /// Writes the line for the error stream: `Error: ` and the description.
    pub fn report(&self) -> (out: String)
        ensures
            out@ == "Error: "@ + self.text(),
    {
        let mut out = String::from_str("Error: ");
        let what = self.message();
        out.append(what.as_str());
        out
    }
}

/// The exit status of the program: 0 after success, 1 after a failure.
pub fn exit_code(outcome: &Result<(), MapError>) -> (code: i32)
    ensures
        outcome is Ok ==> code == 0,
        outcome is Err ==> code == 1,
{
    match outcome {
        Ok(_) => 0,
        Err(_) => 1,
    }
}

} // verus!
