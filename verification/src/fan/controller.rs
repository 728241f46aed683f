//! Controlling one fan.
use vstd::prelude::*;
use vstd::utf8::{encode_utf8, valid_utf8};

use crate::config::{ResolvedFanConfig, ResolvedView, SensorAggregation, SpeedCurve};
use crate::error::Error;
use crate::fan::discovery::FanPath;
use crate::path::{file_name_of, renamed, SysPath};
use crate::text::{all_white, decimal, decimal_text, law_decimal_reads_back, law_number_between_white_space, lemma_decimal_is_trimmed, parse_u32, parsed, trim, trimmed};

verus! {

/// The files of a fan.
#[derive(Clone, Copy, Debug, PartialEq, Eq, Structural)]
pub enum FanFile {
    /// The lowest speed.
    Min,
    /// The highest speed.
    Max,
    /// The current speed.
    Input,
    /// Whether the speed is controlled by hand.
    Manual,
    /// The wanted speed.
    Output,
}

impl FanFile {
    /// How the name of the file ends.
    pub open spec fn ending(self) -> Seq<char> {
        match self {
            FanFile::Min => "_min"@,
            FanFile::Max => "_max"@,
            FanFile::Input => "_input"@,
            FanFile::Manual => "_manual"@,
            FanFile::Output => "_output"@,
        }
    }

    /// How the name of the file ends.
    pub fn suffix(self) -> (r: &'static str)
        ensures
            r@ == self.ending(),
    {
        match self {
            FanFile::Min => "_min",
            FanFile::Max => "_max",
            FanFile::Input => "_input",
            FanFile::Manual => "_manual",
            FanFile::Output => "_output",
        }
    }
}

/// The path with `suffix` behind its file name.
pub fn join_suffix(base: &SysPath, suffix: &str) -> (r: SysPath)
    requires
        file_name_of(base@) matches Some(name) && valid_utf8(name),
    ensures
        r@ == renamed(base@, file_name_of(base@)->0 + encode_utf8(suffix@)),
{
    let mut name: Vec<u8> = Vec::new();
    let file_name = base.file_name().unwrap();
    name.extend_from_slice(file_name.as_slice());
    let mut bytes = suffix.as_bytes_vec();
    assert(name@ == file_name@);
    name.append(&mut bytes);
    base.with_file_name(&name)
}

/// What a file with a speed gives: the number in it, between white space.
pub open spec fn speed_reading(content: Result<String, String>) -> Result<u32, Error> {
    match content {
        Err(e) => Err(Error::MinSpeedRead(e)),
        Ok(s) => match parsed(trimmed(s@), false, 0, u32::MAX as int) {
            Ok(v) => Ok(v as u32),
            Err(e) => Err(Error::MinSpeedParse(e)),
        },
    }
}

/// Reads a speed from the content of a file.
pub fn read_u32(content: Result<String, String>) -> (r: Result<u32, Error>)
    ensures
        r == speed_reading(content),
{
    match content {
        Err(e) => Err(Error::MinSpeedRead(e)),
        Ok(s) => match parse_u32(trim(s.as_str())) {
            Ok(v) => Ok(v),
            Err(e) => Err(Error::MinSpeedParse(e)),
        },
    }
}

/// A speed that is written to a file reads back as the same speed.
pub proof fn law_written_speed_reads_back(content: String, speed: u32)
    requires
        content@ == decimal(speed as nat),
    ensures
        speed_reading(Ok(content)) == Ok::<u32, Error>(speed),
{
    lemma_decimal_is_trimmed(speed as nat);
    law_decimal_reads_back(speed as nat, false, 0, u32::MAX as int);
}

/// What is asked of a fan for a wanted speed: never less than its minimum, and from its
/// maximum on a speed that it is sure to take as full.
pub open spec fn commanded_speed(min: u32, max: u32, speed: int) -> int {
    if speed < min {
        min as int
    } else if speed >= max {
        max + 260
    } else {
        speed
    }
}

/// The speed at `percent` of the range.
pub open spec fn percent_speed(min: u32, max: u32, percent: u8) -> int {
    min + (max - min) * percent / 100
}

/// What a temperature asks of a fan.
#[derive(Clone, Copy, Debug, PartialEq, Eq, Structural)]
pub enum SpeedTarget {
    /// This speed.
    Fixed(u32),
    /// The minimum speed and a part of `range`: the part that `curve` gives `above` degrees of
    /// `span`.
    Curve { curve: SpeedCurve, above: u32, span: u32, range: u32 },
}

/// A fan under control. `H` is an open file.
#[derive(Debug)]
pub struct FanController<H> {
    name: String,
    base_path: SysPath,
    manual_file: Option<H>,
    output_file: Option<H>,
    input_file: H,
    config: ResolvedFanConfig,
    min_speed: u32,
    max_speed: u32,
}

/// The values of a `FanController`.
#[verifier::ext_equal]
pub ghost struct FanState<H> {
    pub name: Seq<char>,
    pub base_path: Seq<Seq<u8>>,
    pub manual_file: Option<H>,
    pub output_file: Option<H>,
    pub input_file: H,
    pub config: ResolvedView,
    pub min_speed: u32,
    pub max_speed: u32,
}

impl<H> View for FanController<H> {
    type V = FanState<H>;

    closed spec fn view(&self) -> FanState<H> {
        FanState {
            name: self.name@,
            base_path: self.base_path@,
            manual_file: self.manual_file,
            output_file: self.output_file,
            input_file: self.input_file,
            config: self.config@,
            min_speed: self.min_speed,
            max_speed: self.max_speed,
        }
    }
}

/// What a temperature asks of a fan in that state.
pub open spec fn speed_target<H>(fan: FanState<H>, temp: u8) -> SpeedTarget {
    if temp <= fan.config.low_temp {
        SpeedTarget::Fixed(fan.min_speed)
    } else if temp >= fan.config.high_temp {
        SpeedTarget::Fixed(fan.max_speed)
    } else {
        SpeedTarget::Curve {
            curve: fan.config.speed_curve,
            above: (temp - fan.config.low_temp) as u32,
            span: (fan.config.high_temp - fan.config.low_temp) as u32,
            range: (fan.max_speed - fan.min_speed) as u32,
        }
    }
}

/// Whether `hotter` asks for no less than `cooler`, of a fan with that lowest and highest
/// speed: on the curve, for no smaller part of it.
pub open spec fn asks_no_less(cooler: SpeedTarget, hotter: SpeedTarget, min: u32, max: u32) -> bool {
    match (cooler, hotter) {
        (SpeedTarget::Fixed(a), SpeedTarget::Fixed(b)) => a <= b,
        (SpeedTarget::Fixed(a), SpeedTarget::Curve { above, .. }) => a == min && above > 0,
        (SpeedTarget::Curve { above, span, .. }, SpeedTarget::Fixed(b)) => b == max && above < span,
        (
            SpeedTarget::Curve { curve: c1, above: a1, span: s1, range: r1 },
            SpeedTarget::Curve { curve: c2, above: a2, span: s2, range: r2 },
        ) => c1 == c2 && s1 == s2 && r1 == r2 && 0 < a1 <= a2 < s1,
    }
}

/// What is asked of a fan never falls as the temperature rises: first the lowest speed, then a
/// growing part of the curve, then the highest speed.
pub proof fn law_target_is_monotonic<H>(fan: FanState<H>, cooler: u8, hotter: u8)
    requires
        fan.min_speed <= fan.max_speed,
        cooler <= hotter,
    ensures
        asks_no_less(
            speed_target(fan, cooler),
            speed_target(fan, hotter),
            fan.min_speed,
            fan.max_speed,
        ),
{
}

/// How opening the two control files of a fan went.
#[derive(Debug)]
pub enum ControlFiles<H> {
    /// Both are open.
    Opened { manual: H, output: H },
    /// The first could not be opened, for the reason given; the second was not tried.
    ManualFailed(String),
    /// The first is open; the second could not be opened, for the reason given.
    OutputFailed { manual: H, reason: String },
}

/// Why nothing is written before the control files are open.
pub open spec fn not_opened() -> Seq<char> {
    "control files not opened"@
}

/// Whether a command was refused because the control files are not open.
pub open spec fn refused<T>(r: Result<T, Error>) -> bool {
    r matches Err(Error::FanWrite(e)) && e@ == not_opened()
}

/// Whether `percent` of the fan's range, and the command for it, are in the range of a `u32`.
pub open spec fn percent_in_range<H>(fan: FanState<H>, percent: u8) -> bool {
    &&& fan.min_speed <= fan.max_speed
    &&& (fan.max_speed - fan.min_speed) * percent <= u32::MAX
    &&& percent_speed(fan.min_speed, fan.max_speed, percent) <= u32::MAX
    &&& fan.output_file is Some ==> commanded_speed(
        fan.min_speed,
        fan.max_speed,
        percent_speed(fan.min_speed, fan.max_speed, percent),
    ) <= u32::MAX
}

impl<H> FanController<H> {
    /// A fan, from the contents of the files with its speeds and its open speed file.
    pub fn new(
        fan_path: FanPath,
        config: ResolvedFanConfig,
        min: Result<String, String>,
        max: Result<String, String>,
        input: Result<H, String>,
    ) -> (r: Result<FanController<H>, Error>)
        ensures
            match speed_reading(min) {
                Err(e) => r == Err::<FanController<H>, Error>(e),
                Ok(lowest) => match speed_reading(max) {
                    Err(e) => r == Err::<FanController<H>, Error>(e),
                    Ok(highest) => match input {
                        Err(e) => r == Err::<FanController<H>, Error>(Error::FanOpen(e)),
                        Ok(file) => r matches Ok(fan) && fan@ == (FanState {
                            name: fan_path.name@,
                            base_path: fan_path.base_path@,
                            manual_file: None::<H>,
                            output_file: None::<H>,
                            input_file: file,
                            config: config@,
                            min_speed: lowest,
                            max_speed: highest,
                        }),
                    },
                },
            },
    {
        let min_speed: u32 = match read_u32(min) {
            Ok(v) => v,
            Err(e) => {
                return Err(e);
            },
        };
        let max_speed: u32 = match read_u32(max) {
            Ok(v) => v,
            Err(e) => {
                return Err(e);
            },
        };
        match input {
            Err(e) => Err(Error::FanOpen(e)),
            Ok(file) => Ok(
                FanController {
                    name: fan_path.name,
                    base_path: fan_path.base_path,
                    manual_file: None,
                    output_file: None,
                    input_file: file,
                    config,
                    min_speed,
                    max_speed,
                },
            ),
        }
    }

    /// Takes the control files, as far as they could be opened.
    pub fn open_control_files(&mut self, files: ControlFiles<H>) -> (r: Result<(), Error>)
        ensures
            match files {
                ControlFiles::Opened { manual, output } => r is Ok && final(self)@ == (FanState {
                    manual_file: Some(manual),
                    output_file: Some(output),
                    ..old(self)@
                }),
                ControlFiles::ManualFailed(reason) => r == Err::<(), Error>(Error::FanOpen(reason))
                    && final(self)@ == old(self)@,
                ControlFiles::OutputFailed { manual, reason } => r == Err::<(), Error>(
                    Error::FanOpen(reason),
                ) && final(self)@ == (FanState { manual_file: Some(manual), ..old(self)@ }),
            },
    {
        match files {
            ControlFiles::Opened { manual, output } => {
                self.manual_file = Some(manual);
                self.output_file = Some(output);
                Ok(())
            },
            ControlFiles::ManualFailed(reason) => Err(Error::FanOpen(reason)),
            ControlFiles::OutputFailed { manual, reason } => {
                self.manual_file = Some(manual);
                Err(Error::FanOpen(reason))
            },
        }
    }

    /// The name of the fan.
    pub fn name(&self) -> (r: &str)
        ensures
            r@ == self@.name,
    {
        self.name.as_str()
    }

    /// The path that the names of the fan's files begin with.
    pub fn base_path(&self) -> (r: &SysPath)
        ensures
            r@ == self@.base_path,
    {
        &self.base_path
    }

    /// The open file with the current speed.
    pub fn input_file(&mut self) -> (r: &mut H)
        ensures
            *r == old(self)@.input_file,
            final(self)@ == (FanState { input_file: *final(r), ..old(self)@ }),
    {
        &mut self.input_file
    }

    /// The lowest speed.
    pub fn min_speed(&self) -> (r: u32)
        ensures
            r == self@.min_speed,
    {
        self.min_speed
    }

    /// The highest speed.
    pub fn max_speed(&self) -> (r: u32)
        ensures
            r == self@.max_speed,
    {
        self.max_speed
    }

    /// The positions of the sensors that the fan follows, where it does not follow all.
    pub fn sensor_indices(&self) -> (r: Option<&Vec<usize>>)
        ensures
            r is Some <==> self@.config.sensor_indices is Some,
            r matches Some(indices) ==> self@.config.sensor_indices == Some(indices@),
    {
        self.config.sensor_indices.as_ref()
    }

    /// How the fan combines its sensors.
    pub fn sensor_aggregation(&self) -> (r: SensorAggregation)
        ensures
            r == self@.config.sensor_aggregation,
    {
        self.config.sensor_aggregation
    }

    /// How fast the fan follows a falling temperature.
    pub fn ramp_down_rate(&self) -> (r: &str)
        ensures
            r@ == self@.config.ramp_down_rate,
    {
        self.config.ramp_down_rate.as_str()
    }

    /// What to write where, to take over the fan or to give it back.
    pub fn set_manual(&self, enabled: bool) -> (r: Result<(&H, &'static str), Error>)
        ensures
            self@.manual_file matches Some(file) ==> r matches Ok(w) && *w.0 == file && w.1@
                == if enabled {
                "1"@
            } else {
                "0"@
            },
            self@.manual_file is None ==> refused(r),
    {
        match &self.manual_file {
            Some(file) => Ok(
                (
                    file,
                    if enabled {
                        "1"
                    } else {
                        "0"
                    },
                ),
            ),
            None => Err(Error::FanWrite("control files not opened".to_string())),
        }
    }

    /// Whether the command for `speed` is in range.
    pub fn speed_fits(&self, speed: u32) -> (r: bool)
        ensures
            r == (self@.output_file is Some ==> commanded_speed(
                self@.min_speed,
                self@.max_speed,
                speed as int,
            ) <= u32::MAX),
    {
        self.output_file.is_none() || speed < self.min_speed || speed < self.max_speed
            || self.max_speed <= u32::MAX - 260
    }

    /// What to write where, for the fan to run at `speed`.
    pub fn set_speed(&self, speed: u32) -> (r: Result<(&H, String), Error>)
        requires
            self@.output_file is Some ==> commanded_speed(
                self@.min_speed,
                self@.max_speed,
                speed as int,
            ) <= u32::MAX,
        ensures
            self@.output_file matches Some(file) ==> r matches Ok(w) && *w.0 == file && w.1@
                == decimal(
                commanded_speed(self@.min_speed, self@.max_speed, speed as int) as nat,
            ),
            self@.output_file is None ==> refused(r),
    {
        match &self.output_file {
            Some(file) => {
                let mut wanted: u32 = speed;
                if speed < self.min_speed {
                    wanted = self.min_speed;
                } else if speed >= self.max_speed {
                    wanted = self.max_speed + 260;
                }
                Ok((file, decimal_text(wanted as u64)))
            },
            None => Err(Error::FanWrite("control files not opened".to_string())),
        }
    }

    /// Whether the command for `percent` of the range is in range.
    pub fn percent_fits(&self, percent: u8) -> (r: bool)
        ensures
            r == percent_in_range(self@, percent),
    {
        if self.min_speed > self.max_speed {
            return false;
        }
        let range: u64 = (self.max_speed - self.min_speed) as u64;
        assert(0 <= range * percent <= u32::MAX * 255) by (nonlinear_arith)
            requires
                0 <= range <= u32::MAX,
                0 <= percent <= 255,
        ;
        let part: u64 = range * percent as u64;
        if part > u32::MAX as u64 {
            return false;
        }
        let speed: u64 = self.min_speed as u64 + part / 100;
        speed <= u32::MAX as u64 && self.speed_fits(speed as u32)
    }

    /// What to write where, for the fan to run at `percent` of its range.
    pub fn set_speed_percent(&self, percent: u8) -> (r: Result<(&H, String), Error>)
        requires
            percent_in_range(self@, percent),
        ensures
            self@.output_file matches Some(file) ==> r matches Ok(w) && *w.0 == file && w.1@
                == decimal(
                commanded_speed(
                    self@.min_speed,
                    self@.max_speed,
                    percent_speed(self@.min_speed, self@.max_speed, percent),
                ) as nat,
            ),
            self@.output_file is None ==> refused(r),
    {
        let range: u32 = self.max_speed - self.min_speed;
        assert(0 <= range * percent) by (nonlinear_arith);
        let speed: u32 = self.min_speed + range * (percent as u32) / 100;
        self.set_speed(speed)
    }

    /// Whether what `temp` asks of the fan is in range.
    pub fn curve_fits(&self, temp: u8) -> (r: bool)
        ensures
            r == (self@.config.low_temp < temp < self@.config.high_temp ==> self@.min_speed
                <= self@.max_speed),
    {
        temp <= self.config.low_temp || temp >= self.config.high_temp || self.min_speed
            <= self.max_speed
    }

    /// What `temp` asks of the fan: its minimum up to the low temperature, its maximum from
    /// the high temperature on, and the curve between.
    pub fn calc_speed(&self, temp: u8) -> (r: SpeedTarget)
        requires
            self@.config.low_temp < temp < self@.config.high_temp ==> self@.min_speed
                <= self@.max_speed,
        ensures
            r == speed_target(self@, temp),
            temp <= self@.config.low_temp ==> r == SpeedTarget::Fixed(self@.min_speed),
            temp > self@.config.low_temp && temp >= self@.config.high_temp ==> r
                == SpeedTarget::Fixed(self@.max_speed),
            self@.config.low_temp < temp < self@.config.high_temp ==> (
            r matches SpeedTarget::Curve { curve, above, span, range } && curve
                == self@.config.speed_curve && above == temp - self@.config.low_temp && span
                == self@.config.high_temp - self@.config.low_temp && range == self@.max_speed
                - self@.min_speed),
    {
        if temp <= self.config.low_temp {
            return SpeedTarget::Fixed(self.min_speed);
        }
        if temp >= self.config.high_temp {
            return SpeedTarget::Fixed(self.max_speed);
        }
        SpeedTarget::Curve {
            curve: self.config.speed_curve,
            above: (temp - self.config.low_temp) as u32,
            span: (self.config.high_temp - self.config.low_temp) as u32,
            range: self.max_speed - self.min_speed,
        }
    }

    /// The speed at `rise` above the minimum.
    pub fn curve_speed(&self, rise: u32) -> (r: u32)
        requires
            rise + self@.min_speed <= u32::MAX,
        ensures
            r == rise + self@.min_speed,
    {
        rise + self.min_speed
    }

    /// The current speed, from the content of the speed file.
    pub fn read_rpm(&self, content: Result<String, String>) -> (r: Result<u32, Error>)
        ensures
            r == speed_reading(content),
    {
        read_u32(content)
    }
}

/// A fan is never asked to run slower than its minimum, unless what counts as full is itself
/// below the minimum.
pub proof fn law_never_below_minimum(min: u32, max: u32, speed: int)
    requires
        speed < min || min <= max + 260,
    ensures
        commanded_speed(min, max, speed) >= min,
{
}

/// A higher wanted speed never asks for a lower one, unless what counts as full is below the
/// minimum and only the higher speed is at or above it.
pub proof fn law_command_is_monotonic(min: u32, max: u32, a: int, b: int)
    requires
        a <= b,
        min <= a || b < min || min <= max + 260,
    ensures
        commanded_speed(min, max, a) <= commanded_speed(min, max, b),
{
}

/// A percentage up to a hundred stays within the range of the fan, nothing is its minimum, and
/// a hundred its maximum.
pub proof fn law_percent_spans_the_range(min: u32, max: u32, percent: u8)
    requires
        min <= max,
        percent <= 100,
    ensures
        min <= percent_speed(min, max, percent) <= max,
        percent_speed(min, max, 0) == min,
        percent_speed(min, max, 100) == max,
{
    let range = max - min;
    assert(0 <= range * percent <= range * 100) by (nonlinear_arith)
        requires
            0 <= range,
            0 <= percent <= 100,
    ;
}

/// A higher percentage never asks for a lower speed.
pub proof fn law_percent_is_monotonic(min: u32, max: u32, a: u8, b: u8)
    requires
        min <= max,
        a <= b,
    ensures
        percent_speed(min, max, a) <= percent_speed(min, max, b),
{
    let range = max - min;
    assert(range * a <= range * b) by (nonlinear_arith)
        requires
            0 <= range,
            a <= b,
    ;
}

/// Strictly between the low and the high temperature a fan is asked for a point of the curve
/// that its configuration names: as many degrees as the temperature is above the low one, of as
/// many as lie between the two, and the range from its lowest to its highest speed.
pub proof fn law_curve_of_the_configuration_counts<H>(fan: FanState<H>, temp: u8)
    requires
        fan.config.low_temp < temp < fan.config.high_temp,
        fan.min_speed <= fan.max_speed,
    ensures
        speed_target(fan, temp) matches SpeedTarget::Curve { curve, above, span, range }
            && curve == fan.config.speed_curve && above == temp - fan.config.low_temp && span
            == fan.config.high_temp - fan.config.low_temp && range == fan.max_speed
            - fan.min_speed,
{
}

/// Up to the low temperature a fan is asked for its lowest speed, and from the high temperature
/// on for its highest; where the two temperatures overlap, the low one counts.
pub proof fn law_extremes_of_the_curve<H>(fan: FanState<H>, temp: u8)
    ensures
        temp <= fan.config.low_temp ==> speed_target(fan, temp) == SpeedTarget::Fixed(
            fan.min_speed,
        ),
        temp > fan.config.low_temp && temp >= fan.config.high_temp ==> speed_target(fan, temp)
            == SpeedTarget::Fixed(fan.max_speed),
{
}

/// What a fan is asked for depends on its temperatures, its speeds and its curve alone.
pub proof fn law_target_depends_on_the_curve_alone<H>(a: FanState<H>, b: FanState<H>, temp: u8)
    requires
        a.config.low_temp == b.config.low_temp,
        a.config.high_temp == b.config.high_temp,
        a.config.speed_curve == b.config.speed_curve,
        a.min_speed == b.min_speed,
        a.max_speed == b.max_speed,
    ensures
        speed_target(a, temp) == speed_target(b, temp),
{
}

/// What is written to a fan for a wanted speed: its lowest speed for less than that, 260 above
/// its highest for that or more, and else the wanted speed itself.
pub proof fn law_wanted_speed_is_written(min: u32, max: u32, speed: int)
    ensures
        speed < min ==> commanded_speed(min, max, speed) == min,
        min <= speed && max <= speed ==> commanded_speed(min, max, speed) == max + 260,
        min <= speed < max ==> commanded_speed(min, max, speed) == speed,
{
}

/// The speed at a percentage is above the lowest by that many hundredths of the range, rounded
/// down, also above a hundred.
pub proof fn law_percent_is_of_the_range(min: u32, max: u32, percent: u8)
    requires
        min <= max,
    ensures
        ({
            let rise = percent_speed(min, max, percent) - min;
            rise * 100 <= (max - min) * percent < (rise + 1) * 100
        }),
{
    let part = (max - min) * percent;
    assert(part >= 0) by (nonlinear_arith)
        requires
            part == (max - min) * percent,
            min <= max,
    ;
}

/// The speeds of ordinary fans are in range at every percentage.
pub proof fn law_ordinary_speeds_are_in_range<H>(fan: FanState<H>, percent: u8)
    requires
        fan.min_speed <= fan.max_speed <= 1_000_000,
    ensures
        percent_in_range(fan, percent),
{
    let range = fan.max_speed - fan.min_speed;
    assert(0 <= range * percent <= 1_000_000 * 255) by (nonlinear_arith)
        requires
            0 <= range <= 1_000_000,
            0 <= percent <= 255,
    ;
}

/// A speed is read between white space, up to the highest that fits, and what cannot be read or
/// is no number is told as such.
pub proof fn law_speeds_are_read(
    content: String,
    before: Seq<char>,
    speed: u32,
    behind: Seq<char>,
    reason: String,
)
    requires
        all_white(before),
        all_white(behind),
    ensures
        content@ == before + decimal(speed as nat) + behind ==> speed_reading(Ok(content)) == Ok::<
            u32,
            Error,
        >(speed),
        speed_reading(Err(reason)) == Err::<u32, Error>(Error::MinSpeedRead(reason)),
        parsed(trimmed(content@), false, 0, u32::MAX as int) matches Err(e) ==> speed_reading(
            Ok(content),
        ) == Err::<u32, Error>(Error::MinSpeedParse(e)),
        parsed(trimmed(content@), false, 0, u32::MAX as int) matches Ok(v) ==> (speed_reading(
            Ok(content),
        ) matches Ok(read) && read == v as u32),
{
    law_number_between_white_space(before, speed as nat, behind, false, 0, u32::MAX as int);
}

} // verus!
