//! The temperature sensors of the machine.
pub mod discovery;
pub mod registry;

use vstd::prelude::*;

use crate::error::Error;
use crate::text::{all_white, decimal, digit_value, law_decimal_reads_back, law_trimming_removes_the_white_space_around, lemma_decimal_digits, parse_i32, parsed, trim_end, trimmed_end};

verus! {

/// What a sensor says.
#[derive(Debug)]
pub enum SensorStatus {
    /// The temperature in degrees.
    Active(u8),
    /// The sensor cannot be read.
    Unavailable,
    /// The sensor gave something else than a temperature.
    Error(String),
}

/// The value of a `SensorStatus`.
pub ghost enum StatusView {
    Active(u8),
    Unavailable,
    Error(Seq<char>),
}

impl View for SensorStatus {
    type V = StatusView;

    open spec fn view(&self) -> StatusView {
        match self {
            SensorStatus::Active(t) => StatusView::Active(*t),
            SensorStatus::Unavailable => StatusView::Unavailable,
            SensorStatus::Error(e) => StatusView::Error(e@),
        }
    }
}

/// How reading a sensor's file and rewinding it went.
#[derive(Debug)]
pub enum SensorRead {
    /// What the file holds.
    Content(String),
    /// Reading failed, for the reason given.
    ReadFailed(String),
    /// Rewinding failed, for the reason given.
    SeekFailed(String),
}

/// Whole degrees of a temperature in thousandths of a degree, within a byte.
pub open spec fn whole_degrees(millidegrees: int) -> u8 {
    if millidegrees < 0 {
        0
    } else if millidegrees / 1000 > 255 {
        255
    } else {
        (millidegrees / 1000) as u8
    }
}

/// The temperature that was read.
pub open spec fn temperature(read: SensorRead) -> Result<u8, Error> {
    match read {
        SensorRead::ReadFailed(e) => Err(Error::TempRead(e)),
        SensorRead::SeekFailed(e) => Err(Error::TempSeek(e)),
        SensorRead::Content(s) => match parsed(
            trimmed_end(s@),
            true,
            i32::MIN as int,
            i32::MAX as int,
        ) {
            Ok(v) => Ok(whole_degrees(v)),
            Err(e) => Err(Error::TempParse(e)),
        },
    }
}

/// What a sensor says that was read so.
pub open spec fn status_of(read: SensorRead) -> StatusView {
    match temperature(read) {
        Ok(t) => StatusView::Active(t),
        Err(Error::TempRead(_)) => StatusView::Unavailable,
        Err(Error::TempSeek(_)) => StatusView::Unavailable,
        Err(e) => StatusView::Error(e.text()),
    }
}

/// A sensor of the hwmon subsystem. `H` is an open file.
#[derive(Debug)]
pub struct HwmonSensor<H> {
    name: String,
    driver: String,
    temp_file: H,
}

/// The values of an `HwmonSensor`.
#[verifier::ext_equal]
pub ghost struct SensorView<H> {
    pub name: Seq<char>,
    pub driver: Seq<char>,
    pub temp_file: H,
}

impl<H> View for HwmonSensor<H> {
    type V = SensorView<H>;

    closed spec fn view(&self) -> SensorView<H> {
        SensorView { name: self.name@, driver: self.driver@, temp_file: self.temp_file }
    }
}

/// The views of a list of sensors.
pub open spec fn sensor_views<H>(list: Seq<HwmonSensor<H>>) -> Seq<SensorView<H>> {
    Seq::new(list.len(), |i: int| list[i]@)
}

/// The names of a list of sensors.
pub open spec fn sensor_names<H>(list: Seq<SensorView<H>>) -> Seq<Seq<char>> {
    Seq::new(list.len(), |i: int| list[i].name)
}

impl<H> HwmonSensor<H> {
    /// A sensor.
    pub fn new(name: String, driver: String, temp_file: H) -> (r: HwmonSensor<H>)
        ensures
            r@ == (SensorView { name: name@, driver: driver@, temp_file }),
    {
        HwmonSensor { name, driver, temp_file }
    }

    /// The name of the sensor.
    pub fn name(&self) -> (r: &str)
        ensures
            r@ == self@.name,
    {
        self.name.as_str()
    }

    /// The driver of the sensor.
    pub fn driver(&self) -> (r: &str)
        ensures
            r@ == self@.driver,
    {
        self.driver.as_str()
    }

    /// The open file with the temperature.
    pub fn temp_file(&self) -> (r: &H)
        ensures
            *r == self@.temp_file,
    {
        &self.temp_file
    }

    /// What the sensor says, from the outcome of reading its file.
    pub fn read_temp(&self, read: SensorRead) -> (r: SensorStatus)
        ensures
            r@ == status_of(read),
    {
        match self.read_temp_inner(read) {
            Ok(t) => SensorStatus::Active(t),
            Err(Error::TempRead(_)) => SensorStatus::Unavailable,
            Err(Error::TempSeek(_)) => SensorStatus::Unavailable,
            Err(e) => SensorStatus::Error(e.message()),
        }
    }

    fn read_temp_inner(&self, read: SensorRead) -> (r: Result<u8, Error>)
        ensures
            r == temperature(read),
    {
        match read {
            SensorRead::ReadFailed(e) => Err(Error::TempRead(e)),
            SensorRead::SeekFailed(e) => Err(Error::TempSeek(e)),
            SensorRead::Content(s) => match parse_i32(trim_end(s.as_str())) {
                Ok(millidegrees) => {
                    if millidegrees < 0 {
                        Ok(0)
                    } else {
                        let degrees: i32 = millidegrees / 1000;
                        if degrees > 255 {
                            Ok(255)
                        } else {
                            Ok(degrees as u8)
                        }
                    }
                },
                Err(e) => Err(Error::TempParse(e)),
            },
        }
    }
}

/// A hotter reading never gives a lower temperature.
pub proof fn law_degrees_are_monotonic(a: int, b: int)
    requires
        a <= b,
    ensures
        whole_degrees(a) <= whole_degrees(b),
{
}

/// The whole thousands of a number, cut off towards zero.
pub open spec fn thousands(millidegrees: int) -> int {
    if millidegrees >= 0 {
        millidegrees / 1000
    } else {
        -((-millidegrees) / 1000)
    }
}

/// The degrees of a reading are its whole thousands, or the nearest that a byte holds.
pub proof fn law_degrees_are_clamped_thousands(millidegrees: int)
    ensures
        0 <= thousands(millidegrees) <= 255 ==> whole_degrees(millidegrees) == thousands(
            millidegrees,
        ),
        thousands(millidegrees) < 0 ==> whole_degrees(millidegrees) == 0,
        thousands(millidegrees) > 255 ==> whole_degrees(millidegrees) == 255,
{
}

/// What is read depends on the content of the file alone: read again, an unchanged file gives
/// the same.
pub proof fn law_same_content_reads_the_same(first: String, second: String)
    requires
        first@ == second@,
    ensures
        temperature(SensorRead::Content(first)) == temperature(SensorRead::Content(second)),
        status_of(SensorRead::Content(first)) == status_of(SensorRead::Content(second)),
{
}

/// What the content of a sensor's file says: an integer, with nothing before it and white space
/// at most behind it, is thousandths of a degree, of which the whole degrees count, from zero to
/// 255; anything else is told with the reason.
pub proof fn law_thousandths_become_degrees(content: String)
    ensures
        match parsed(trimmed_end(content@), true, -2_147_483_648, 2_147_483_647) {
            Ok(v) => status_of(SensorRead::Content(content)) matches StatusView::Active(t) && (v < 0
                ==> t == 0) && (0 <= v < 256_000 ==> t * 1000 <= v < (t + 1) * 1000) && (v
                >= 256_000 ==> t == 255),
            Err(e) => status_of(SensorRead::Content(content)) == StatusView::Error(
                "Temperature sensor cannot be parsed: "@ + e.text(),
            ),
        },
{
}

/// A file with a number of thousandths in decimal, and white space behind it, gives its degrees.
pub proof fn law_written_temperature_is_read(content: String, thousandths: nat, behind: Seq<char>)
    requires
        all_white(behind),
        content@ == decimal(thousandths) + behind,
        thousandths < 256_000,
    ensures
        status_of(SensorRead::Content(content)) matches StatusView::Active(t) && t * 1000
            <= thousandths < (t + 1) * 1000,
{
    lemma_decimal_digits(thousandths);
    let s = decimal(thousandths);
    assert(digit_value(s[0]) is Some);
    assert(digit_value(s[s.len() - 1]) is Some);
    let none = Seq::<char>::empty();
    law_trimming_removes_the_white_space_around(none, s, behind);
    assert(none + s =~= s);
    law_decimal_reads_back(thousandths, true, i32::MIN as int, i32::MAX as int);
}

/// A sensor that cannot be read or rewound is unavailable, whatever the reason.
pub proof fn law_unreadable_sensors_are_unavailable(reason: String)
    ensures
        status_of(SensorRead::ReadFailed(reason)) is Unavailable,
        status_of(SensorRead::SeekFailed(reason)) is Unavailable,
{
}

} // verus!
