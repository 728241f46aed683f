//! What can go wrong, and how it is reported.
use vstd::prelude::*;

use crate::text::ParseIntError;

verus! {

/// An error of the daemon. Where the operating system or a parser gave a reason, the variant
/// holds its text.
#[derive(Debug)]
pub enum Error {
    /// The daemon was started without root rights.
    NotRoot,
    /// No fan was discovered.
    NoFan,
    /// Reading a sensor failed.
    TempRead(String),
    /// Rewinding a sensor failed.
    TempSeek(String),
    /// A sensor did not give an integer.
    TempParse(ParseIntError),
    /// Reading a fan speed failed.
    MinSpeedRead(String),
    /// A fan speed is not an integer.
    MinSpeedParse(ParseIntError),
    /// Reading the maximum speed failed.
    MaxSpeedRead(String),
    /// The maximum speed is not an integer.
    MaxSpeedParse(ParseIntError),
    /// A file of a fan cannot be opened.
    FanOpen(String),
    /// A command cannot be written to a fan.
    FanWrite(String),
    /// The pid file cannot be read.
    PidRead(String),
    /// The pid file cannot be written.
    PidWrite(String),
    /// The pid file cannot be deleted.
    PidDelete(String),
    /// Another daemon is running.
    AlreadyRunning,
    /// The signals cannot be handled.
    Signal(String),
    /// A file pattern is invalid.
    Glob(String),
    /// The configuration cannot be read.
    ConfigRead(String),
    /// The configuration cannot be created.
    ConfigCreate(String),
    /// The configuration is not valid.
    ConfigParse(String),
}

/// The outcome of reading a file.
#[derive(Debug)]
pub enum FileRead {
    /// What the file holds.
    Content(String),
    /// There is no such file.
    Missing,
    /// Reading failed, for the reason given.
    Failed(String),
}

impl Error {
    /// What is reported.
    pub open spec fn text(self) -> Seq<char> {
        match self {
            Error::NotRoot => "Fan daemon must be run as root"@,
            Error::NoFan => "No fans found"@,
            Error::TempRead(e) => "Temperature sensor cannot be read: "@ + e@,
            Error::TempSeek(e) => "Temperature sensor cannot be seeked: "@ + e@,
            Error::TempParse(e) => "Temperature sensor cannot be parsed: "@ + e.text(),
            Error::MinSpeedRead(e) => "Cannot read minimum fan speed: "@ + e@,
            Error::MinSpeedParse(e) => "Cannot parse minimum fan speed: "@ + e.text(),
            Error::MaxSpeedRead(e) => "Cannot read maximum fan speed: "@ + e@,
            Error::MaxSpeedParse(e) => "Cannot parse maximum fan speed: "@ + e.text(),
            Error::FanOpen(e) => "Cannot open fan controller handle: "@ + e@,
            Error::FanWrite(e) => "Cannot write to fan controller: "@ + e@,
            Error::PidRead(e) => "Cannot read pid file: "@ + e@,
            Error::PidWrite(e) => "Cannot write pid file: "@ + e@,
            Error::PidDelete(e) => "Cannot delete pid file: "@ + e@,
            Error::AlreadyRunning => "Fan daemon is already running"@,
            Error::Signal(e) => "Cannot setup shutdown signals: "@ + e@,
            Error::Glob(e) => "Invalid glob pattern: "@ + e@,
            Error::ConfigRead(e) => "Cannot read config file: "@ + e@,
            Error::ConfigCreate(e) => "Cannot create config file: "@ + e@,
            Error::ConfigParse(e) => "Cannot parse config file: "@ + e@,
        }
    }

    /// What is reported.
    pub fn message(&self) -> (r: String)
        ensures
            r@ == self.text(),
    {
        match self {
            Error::NotRoot => "Fan daemon must be run as root".to_string(),
            Error::NoFan => "No fans found".to_string(),
            Error::TempRead(e) => with_reason("Temperature sensor cannot be read: ", e.as_str()),
            Error::TempSeek(e) => with_reason("Temperature sensor cannot be seeked: ", e.as_str()),
            Error::TempParse(e) => with_reason("Temperature sensor cannot be parsed: ", e.message()),
            Error::MinSpeedRead(e) => with_reason("Cannot read minimum fan speed: ", e.as_str()),
            Error::MinSpeedParse(e) => with_reason("Cannot parse minimum fan speed: ", e.message()),
            Error::MaxSpeedRead(e) => with_reason("Cannot read maximum fan speed: ", e.as_str()),
            Error::MaxSpeedParse(e) => with_reason("Cannot parse maximum fan speed: ", e.message()),
            Error::FanOpen(e) => with_reason("Cannot open fan controller handle: ", e.as_str()),
            Error::FanWrite(e) => with_reason("Cannot write to fan controller: ", e.as_str()),
            Error::PidRead(e) => with_reason("Cannot read pid file: ", e.as_str()),
            Error::PidWrite(e) => with_reason("Cannot write pid file: ", e.as_str()),
            Error::PidDelete(e) => with_reason("Cannot delete pid file: ", e.as_str()),
            Error::AlreadyRunning => "Fan daemon is already running".to_string(),
            Error::Signal(e) => with_reason("Cannot setup shutdown signals: ", e.as_str()),
            Error::Glob(e) => with_reason("Invalid glob pattern: ", e.as_str()),
            Error::ConfigRead(e) => with_reason("Cannot read config file: ", e.as_str()),
            Error::ConfigCreate(e) => with_reason("Cannot create config file: ", e.as_str()),
            Error::ConfigParse(e) => with_reason("Cannot parse config file: ", e.as_str()),
        }
    }
}

fn with_reason(what: &str, reason: &str) -> (r: String)
    ensures
        r@ == what@ + reason@,
{
    let mut out = what.to_string();
    out.append(reason);
    out
}

/// What is reported of an error says what went wrong, and behind that the reason, whole.
pub proof fn law_reports_give_the_reason(reason: String, number: ParseIntError)
    ensures
        Error::TempRead(reason).text() == "Temperature sensor cannot be read: "@ + reason@,
        Error::TempSeek(reason).text() == "Temperature sensor cannot be seeked: "@ + reason@,
        Error::MinSpeedRead(reason).text() == "Cannot read minimum fan speed: "@ + reason@,
        Error::MaxSpeedRead(reason).text() == "Cannot read maximum fan speed: "@ + reason@,
        Error::FanOpen(reason).text() == "Cannot open fan controller handle: "@ + reason@,
        Error::FanWrite(reason).text() == "Cannot write to fan controller: "@ + reason@,
        Error::PidRead(reason).text() == "Cannot read pid file: "@ + reason@,
        Error::PidWrite(reason).text() == "Cannot write pid file: "@ + reason@,
        Error::PidDelete(reason).text() == "Cannot delete pid file: "@ + reason@,
        Error::Signal(reason).text() == "Cannot setup shutdown signals: "@ + reason@,
        Error::Glob(reason).text() == "Invalid glob pattern: "@ + reason@,
        Error::ConfigRead(reason).text() == "Cannot read config file: "@ + reason@,
        Error::ConfigCreate(reason).text() == "Cannot create config file: "@ + reason@,
        Error::ConfigParse(reason).text() == "Cannot parse config file: "@ + reason@,
        Error::TempParse(number).text() == "Temperature sensor cannot be parsed: "@ + number.text(),
        Error::MinSpeedParse(number).text() == "Cannot parse minimum fan speed: "@ + number.text(),
        Error::MaxSpeedParse(number).text() == "Cannot parse maximum fan speed: "@ + number.text(),
        Error::NotRoot.text() == "Fan daemon must be run as root"@,
        Error::NoFan.text() == "No fans found"@,
        Error::AlreadyRunning.text() == "Fan daemon is already running"@,
        ParseIntError::Empty.text() == "cannot parse integer from empty string"@,
        ParseIntError::InvalidDigit.text() == "invalid digit found in string"@,
        ParseIntError::PosOverflow.text() == "number too large to fit in target type"@,
        ParseIntError::NegOverflow.text() == "number too small to fit in target type"@,
{
}

} // verus!
