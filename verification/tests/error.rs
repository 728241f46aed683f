use macprot2fans::error::Error;
use macprot2fans::text::ParseIntError;

fn why() -> String {
    "why".to_string()
}

#[test]
fn every_error_is_reported() {
    let cases = [
        (Error::NotRoot, "Fan daemon must be run as root"),
        (Error::NoFan, "No fans found"),
        (Error::TempRead(why()), "Temperature sensor cannot be read: why"),
        (Error::TempSeek(why()), "Temperature sensor cannot be seeked: why"),
        (
            Error::TempParse(ParseIntError::Empty),
            "Temperature sensor cannot be parsed: cannot parse integer from empty string",
        ),
        (Error::MinSpeedRead(why()), "Cannot read minimum fan speed: why"),
        (
            Error::MinSpeedParse(ParseIntError::InvalidDigit),
            "Cannot parse minimum fan speed: invalid digit found in string",
        ),
        (Error::MaxSpeedRead(why()), "Cannot read maximum fan speed: why"),
        (
            Error::MaxSpeedParse(ParseIntError::PosOverflow),
            "Cannot parse maximum fan speed: number too large to fit in target type",
        ),
        (Error::FanOpen(why()), "Cannot open fan controller handle: why"),
        (Error::FanWrite(why()), "Cannot write to fan controller: why"),
        (Error::PidRead(why()), "Cannot read pid file: why"),
        (Error::PidWrite(why()), "Cannot write pid file: why"),
        (Error::PidDelete(why()), "Cannot delete pid file: why"),
        (Error::AlreadyRunning, "Fan daemon is already running"),
        (Error::Signal(why()), "Cannot setup shutdown signals: why"),
        (Error::Glob(why()), "Invalid glob pattern: why"),
        (Error::ConfigRead(why()), "Cannot read config file: why"),
        (Error::ConfigCreate(why()), "Cannot create config file: why"),
        (Error::ConfigParse(why()), "Cannot parse config file: why"),
    ];
    for (error, text) in cases {
        assert_eq!(error.message(), text);
    }
}
