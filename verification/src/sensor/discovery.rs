//! Finding the sensors.
use vstd::prelude::*;
use vstd::utf8::{decode_utf8, encode_utf8};

use crate::path::{by_path, lemma_encode_ascii, path_stem, renamed, sort_by_path, stem_of, utf8_text, AtPath, SysPath};
use crate::sensor::{sensor_views, HwmonSensor, SensorView};
use crate::text::{decimal, decimal_text, digit_value, law_decimal_is_injective, lemma_decimal_digits, lemma_filter_pushed, lemma_filter_uniform, same_text, texts, trim, trimmed};

verus! {

/// A file with a temperature: its path, the content of its label file if there is one, and the
/// file itself if it could be opened.
#[derive(Debug)]
pub struct TempInput<H> {
    pub path: SysPath,
    pub label: Option<String>,
    pub handle: Option<H>,
}

impl<H> AtPath for TempInput<H> {
    open spec fn place(&self) -> Seq<Seq<u8>> {
        self.path@
    }

    fn path(&self) -> (r: &SysPath) {
        &self.path
    }
}

/// A directory of the hwmon subsystem: its path, the content of its `name` file if that could
/// be read, and its files with temperatures.
#[derive(Debug)]
pub struct HwmonDevice<H> {
    pub path: SysPath,
    pub driver: Option<String>,
    pub inputs: Vec<TempInput<H>>,
}

impl<H> AtPath for HwmonDevice<H> {
    open spec fn place(&self) -> Seq<Seq<u8>> {
        self.path@
    }

    fn path(&self) -> (r: &SysPath) {
        &self.path
    }
}

/// What was found, and which drivers were not; no driver is listed twice.
#[derive(Debug)]
pub struct DiscoveryResult<H> {
    pub sensors: Vec<HwmonSensor<H>>,
    pub missing_drivers: Vec<String>,
}

/// Where the directories of the hwmon subsystem are.
pub const HWMON_BASE: &'static str = "/sys/class/hwmon";

/// The pattern of the files with temperatures in a directory.
pub fn input_glob(dir: &str) -> (r: String)
    ensures
        r@ == dir@ + "/temp*_input"@,
{
    let mut out = dir.to_string();
    out.append("/temp*_input");
    out
}

/// The drivers whose sensors are used.
pub open spec fn known_driver(driver: Seq<char>) -> bool {
    ||| driver == "coretemp"@
    ||| driver == "amdgpu"@
    ||| driver == "applesmc"@
    ||| driver == "nvme"@
}

/// Whether the sensors of the driver are used.
pub fn is_known_driver(driver: &str) -> (r: bool)
    ensures
        r == known_driver(driver@),
{
    same_text(driver, "coretemp") || same_text(driver, "amdgpu") || same_text(driver, "applesmc")
        || same_text(driver, "nvme")
}

/// The sensors of the Apple system management controller that are used.
pub open spec fn curated_key(label: Seq<char>) -> bool {
    ||| label == "TC0P"@
    ||| label == "TC0D"@
    ||| label == "TG0P"@
    ||| label == "TG0D"@
    ||| label == "TG1P"@
    ||| label == "Tm0P"@
    ||| label == "Tm1P"@
    ||| label == "TH0A"@
    ||| label == "TH0B"@
    ||| label == "TB0T"@
    ||| label == "TB1T"@
    ||| label == "Tp0P"@
    ||| label == "TA0P"@
}

fn is_curated_key(label: &str) -> (r: bool)
    ensures
        r == curated_key(label@),
{
    same_text(label, "TC0P") || same_text(label, "TC0D") || same_text(label, "TG0P")
        || same_text(label, "TG0D") || same_text(label, "TG1P") || same_text(label, "Tm0P")
        || same_text(label, "Tm1P") || same_text(label, "TH0A") || same_text(label, "TH0B")
        || same_text(label, "TB0T") || same_text(label, "TB1T") || same_text(label, "Tp0P")
        || same_text(label, "TA0P")
}

/// Whether a sensor with that label is used.
pub open spec fn used_label(driver: Seq<char>, label: Seq<char>) -> bool {
    known_driver(driver) && (driver == "applesmc"@ ==> curated_key(label))
}

/// Whether a sensor with that label is used.
pub fn uses_label(driver: &str, label: &str) -> (r: bool)
    ensures
        r == used_label(driver@, label@),
{
    is_known_driver(driver) && (!same_text(driver, "applesmc") || is_curated_key(label))
}

/// The name of a sensor: its driver and its label, and between them the number of the graphics
/// card where `numbered`.
pub open spec fn sensor_name(
    driver: Seq<char>,
    gpu_index: nat,
    numbered: bool,
    label: Seq<char>,
) -> Seq<char> {
    if driver == "amdgpu"@ && numbered {
        "amdgpu ["@ + decimal(gpu_index) + "] "@ + label
    } else {
        driver + " "@ + label
    }
}

fn name_sensor(driver: &str, gpu_index: usize, numbered: bool, label: &str) -> (r: String)
    ensures
        r@ == sensor_name(driver@, gpu_index as nat, numbered, label@),
{
    if numbered && same_text(driver, "amdgpu") {
        let mut out = "amdgpu [".to_string();
        out.append(decimal_text(gpu_index as u64).as_str());
        out.append("] ");
        out.append(label);
        out
    } else {
        let mut out = driver.to_string();
        out.append(" ");
        out.append(label);
        out
    }
}

/// The path of the label file of an input file.
pub open spec fn label_place(input: Seq<Seq<u8>>) -> Option<Seq<Seq<u8>>> {
    match path_stem(input) {
        Some(stem) => Some(renamed(input, stem + label_suffix())),
        None => None,
    }
}

/// The bytes of `_label`.
pub open spec fn label_suffix() -> Seq<u8> {
    seq![95u8, 108, 97, 98, 101, 108]
}

/// The path of the label file of an input file.
pub fn label_path(input: &SysPath) -> (r: Option<SysPath>)
    ensures
        r is Some <==> label_place(input@) is Some,
        r matches Some(path) ==> label_place(input@) == Some(path@),
{
    match stem_of(input) {
        Some(stem) => {
            let ghost start = stem@;
            let mut name = stem;
            name.push(95);
            name.push(108);
            name.push(97);
            name.push(98);
            name.push(101);
            name.push(108);
            assert(name@ == start + label_suffix());
            Some(input.with_file_name(&name))
        },
        None => None,
    }
}

/// The label of an input: what its label file says, or else the beginning of its file name.
pub open spec fn label_of<H>(input: TempInput<H>) -> Option<Seq<char>> {
    match path_stem(input.path@) {
        Some(stem) => Some(
            match input.label {
                Some(content) => trimmed(content@),
                None => decode_utf8(stem),
            },
        ),
        None => None,
    }
}

/// The label of an input.
pub fn input_label<H>(input: &TempInput<H>) -> (r: Option<String>)
    ensures
        r is Some <==> label_of(*input) is Some,
        r matches Some(label) ==> label_of(*input) == Some(label@),
{
    match stem_of(&input.path) {
        Some(stem) => match &input.label {
            Some(content) => Some(trim(content.as_str()).to_string()),
            None => utf8_text(&stem),
        },
        None => None,
    }
}

/// The sensor that an input gives.
pub open spec fn input_sensor<H>(
    driver: Seq<char>,
    gpu_index: nat,
    numbered: bool,
    input: TempInput<H>,
) -> Option<SensorView<H>> {
    match label_of(input) {
        Some(label) => match input.handle {
            Some(file) => if used_label(driver, label) {
                Some(
                    SensorView {
                        name: sensor_name(driver, gpu_index, numbered, label),
                        driver,
                        temp_file: file,
                    },
                )
            } else {
                None
            },
            None => None,
        },
        None => None,
    }
}

/// The sensors that the inputs give, in their order.
pub open spec fn input_sensors<H>(
    driver: Seq<char>,
    gpu_index: nat,
    numbered: bool,
    inputs: Seq<TempInput<H>>,
) -> Seq<SensorView<H>>
    decreases inputs.len(),
{
    if inputs.len() == 0 {
        Seq::empty()
    } else {
        let before = input_sensors(driver, gpu_index, numbered, inputs.drop_last());
        match input_sensor(driver, gpu_index, numbered, inputs.last()) {
            Some(sensor) => before.push(sensor),
            None => before,
        }
    }
}

fn discover_inputs<H>(
    driver: &str,
    gpu_index: usize,
    numbered: bool,
    inputs: Vec<TempInput<H>>,
    sensors: &mut Vec<HwmonSensor<H>>,
)
    ensures
        sensor_views(final(sensors)@) == sensor_views(old(sensors)@) + input_sensors(
            driver@,
            gpu_index as nat,
            numbered,
            by_path(inputs@),
        ),
{
    let mut inputs = sort_by_path(inputs);
    let ghost all = inputs@;
    let ghost start = sensor_views(sensors@);
    let n: usize = inputs.len();
    let mut done: usize = 0;
    assert(all.skip(0) == all);
    assert(all.take(0) == Seq::<TempInput<H>>::empty());
    assert(start + Seq::<SensorView<H>>::empty() == start);
    while done < n
        invariant
            n == all.len(),
            done <= n,
            inputs@ == all.skip(done as int),
            sensor_views(sensors@) == start + input_sensors(
                driver@,
                gpu_index as nat,
                numbered,
                all.take(done as int),
            ),
        decreases n - done,
    {
        let ghost had = sensors@;
        let input = inputs.remove(0);
        assert(input == all[done as int]);
        assert(inputs@ == all.skip(done + 1));
        assert(all.take(done + 1).drop_last() == all.take(done as int));
        assert(all.take(done + 1).last() == input);
        let label = input_label(&input);
        match label {
            Some(label) => {
                if uses_label(driver, label.as_str()) {
                    match input.handle {
                        Some(file) => {
                            let name = name_sensor(driver, gpu_index, numbered, label.as_str());
                            let sensor = HwmonSensor::new(name, driver.to_string(), file);
                            sensors.push(sensor);
                            assert(sensor_views(sensors@) == sensor_views(had).push(sensor@));
                        },
                        None => {},
                    }
                }
            },
            None => {},
        }
        done = done + 1;
        assert(sensor_views(sensors@) == start + input_sensors(
            driver@,
            gpu_index as nat,
            numbered,
            all.take(done as int),
        ));
    }
    assert(all.take(done as int) == all);
}

/// The driver of a device.
pub open spec fn driver_of<H>(device: HwmonDevice<H>) -> Option<Seq<char>> {
    match device.driver {
        Some(content) => Some(trimmed(content@)),
        None => None,
    }
}

fn device_driver<H>(device: &HwmonDevice<H>) -> (r: Option<String>)
    ensures
        r is Some <==> driver_of(*device) is Some,
        r matches Some(driver) ==> driver_of(*device) == Some(driver@),
{
    match &device.driver {
        Some(content) => Some(trim(content.as_str()).to_string()),
        None => None,
    }
}

/// How many of the devices are AMD graphics cards.
pub open spec fn gpu_count<H>(devices: Seq<HwmonDevice<H>>) -> nat
    decreases devices.len(),
{
    if devices.len() == 0 {
        0
    } else {
        gpu_count(devices.drop_last()) + if driver_of(devices.last()) == Some("amdgpu"@) {
            1nat
        } else {
            0nat
        }
    }
}

/// Whether more than one of the devices is an AMD graphics card.
pub fn has_multiple_amdgpu<H>(devices: &Vec<HwmonDevice<H>>) -> (r: bool)
    ensures
        r == (gpu_count(devices@) > 1),
{
    let mut count: usize = 0;
    let mut i: usize = 0;
    assert(devices@.take(0) == Seq::<HwmonDevice<H>>::empty());
    while i < devices.len()
        invariant
            i <= devices.len(),
            count <= i,
            count == gpu_count(devices@.take(i as int)),
        decreases devices.len() - i,
    {
        assert(devices@.take(i + 1).drop_last() == devices@.take(i as int));
        assert(devices@.take(i + 1).last() == devices@[i as int]);
        match device_driver(&devices[i]) {
            Some(driver) => {
                if same_text(driver.as_str(), "amdgpu") {
                    count = count + 1;
                }
            },
            None => {},
        }
        i = i + 1;
    }
    assert(devices@.take(i as int) == devices@);
    count > 1
}

/// The sensors of the devices whose driver is `wanted`, in the order of the devices. Graphics
/// cards are counted whether they are wanted or not, and numbered where `several`.
pub open spec fn found_sensors<H>(
    devices: Seq<HwmonDevice<H>>,
    several: bool,
    wanted: spec_fn(Seq<char>) -> bool,
) -> Seq<SensorView<H>>
    decreases devices.len(),
{
    if devices.len() == 0 {
        Seq::empty()
    } else {
        let before = found_sensors(devices.drop_last(), several, wanted);
        match driver_of(devices.last()) {
            Some(driver) => if wanted(driver) {
                let gpu_index = gpu_count(devices.drop_last());
                before + input_sensors(
                    driver,
                    gpu_index,
                    gpu_index > 0 || several,
                    by_path(devices.last().inputs@),
                )
            } else {
                before
            },
            None => before,
        }
    }
}

/// Whether one of the devices has the driver.
pub open spec fn driver_present<H>(devices: Seq<HwmonDevice<H>>, driver: Seq<char>) -> bool {
    exists|i: int| 0 <= i < devices.len() && driver_of(#[trigger] devices[i]) == Some(driver)
}

/// The drivers that are used, as a predicate.
pub open spec fn all_known() -> spec_fn(Seq<char>) -> bool {
    |driver: Seq<char>| known_driver(driver)
}

/// The drivers of a list, as a predicate.
pub open spec fn all_of(list: Seq<Seq<char>>) -> spec_fn(Seq<char>) -> bool {
    |driver: Seq<char>| list.contains(driver)
}

/// The members of `list` that `keep` holds of, each listed once.
pub open spec fn lists_exactly(
    result: Seq<Seq<char>>,
    list: Seq<Seq<char>>,
    keep: spec_fn(Seq<char>) -> bool,
) -> bool {
    &&& result.no_duplicates()
    &&& forall|d: Seq<char>| #[trigger] result.contains(d) <==> list.contains(d) && keep(d)
}

/// Whether the text is one of the list.
pub fn text_listed(list: &Vec<String>, s: &str) -> (r: bool)
    ensures
        r == texts(list@).contains(s@),
{
    let mut i: usize = 0;
    while i < list.len()
        invariant
            i <= list.len(),
            forall|j: int| 0 <= j < i ==> texts(list@)[j] != s@,
        decreases list.len() - i,
    {
        if same_text(list[i].as_str(), s) {
            assert(texts(list@)[i as int] == s@);
            return true;
        }
        i = i + 1;
    }
    false
}

fn add_driver(list: &mut Vec<String>, driver: &str)
    requires
        texts(old(list)@).no_duplicates(),
    ensures
        texts(final(list)@).no_duplicates(),
        forall|d: Seq<char>| #[trigger]
            texts(final(list)@).contains(d) <==> texts(old(list)@).contains(d) || d == driver@,
{
    if text_listed(list, driver) {
        return;
    }
    let ghost had = texts(list@);
    list.push(driver.to_string());
    let ghost now = texts(list@);
    assert(now == had.push(driver@));
    assert forall|d: Seq<char>| #[trigger] now.contains(d) <==> had.contains(d) || d == driver@ by {
        if had.contains(d) {
            let k = choose|k: int| 0 <= k < had.len() && had[k] == d;
            assert(now[k] == d);
        }
        if d == driver@ {
            assert(now[now.len() - 1] == d);
        }
    }
}

/// The members of `list` that are not in `without`, each once.
fn list_without(list: &Vec<String>, without: &Vec<String>) -> (r: Vec<String>)
    ensures
        lists_exactly(
            texts(r@),
            texts(list@),
            |d: Seq<char>| !texts(without@).contains(d),
        ),
{
    let ghost keep = |d: Seq<char>| !texts(without@).contains(d);
    let ghost all = texts(list@);
    let mut out: Vec<String> = Vec::new();
    let mut i: usize = 0;
    assert(texts(out@) == Seq::<Seq<char>>::empty());
    assert(all.take(0) == Seq::<Seq<char>>::empty());
    while i < list.len()
        invariant
            i <= list.len(),
            all == texts(list@),
            keep == (|d: Seq<char>| !texts(without@).contains(d)),
            texts(out@).no_duplicates(),
            forall|d: Seq<char>| #[trigger]
                texts(out@).contains(d) <==> all.take(i as int).contains(d) && keep(d),
        decreases list.len() - i,
    {
        let ghost had = texts(out@);
        let ghost d0 = list@[i as int]@;
        assert(all.take(i + 1) == all.take(i as int).push(d0));
        assert forall|d: Seq<char>| #[trigger]
            all.take(i + 1).contains(d) <==> all.take(i as int).contains(d) || d == d0 by {
            if all.take(i as int).contains(d) {
                let k = choose|k: int| 0 <= k < i && all.take(i as int)[k] == d;
                assert(all.take(i + 1)[k] == d);
            }
            if d == d0 {
                assert(all.take(i + 1)[i as int] == d);
            }
        }
        if !text_listed(without, list[i].as_str()) {
            add_driver(&mut out, list[i].as_str());
        }
        i = i + 1;
    }
    assert(all.take(i as int) == all);
    out
}

/// The sensors of the devices whose driver is accepted (every known one, or those of a list),
/// and the drivers of all devices.
fn scan<H>(
    devices: Vec<HwmonDevice<H>>,
    accepted: Option<&Vec<String>>,
) -> (r: (Vec<HwmonSensor<H>>, Vec<String>))
    ensures
        ({
            let sorted = by_path(devices@);
            let wanted = match accepted {
                Some(list) => all_of(texts(list@)),
                None => all_known(),
            };
            &&& sensor_views(r.0@) == found_sensors(sorted, gpu_count(sorted) > 1, wanted)
            &&& texts(r.1@).no_duplicates()
            &&& forall|d: Seq<char>| #[trigger]
                texts(r.1@).contains(d) <==> driver_present(sorted, d)
        }),
{
    let ghost wanted = match accepted {
        Some(list) => all_of(texts(list@)),
        None => all_known(),
    };
    let mut devices = sort_by_path(devices);
    let ghost all = devices@;
    let several = has_multiple_amdgpu(&devices);
    let n: usize = devices.len();
    let mut sensors: Vec<HwmonSensor<H>> = Vec::new();
    let mut found: Vec<String> = Vec::new();
    let mut gpu_index: usize = 0;
    let mut done: usize = 0;
    assert(all.skip(0) == all);
    assert(all.take(0) == Seq::<HwmonDevice<H>>::empty());
    assert(sensor_views(sensors@) == Seq::<SensorView<H>>::empty());
    assert(texts(found@) == Seq::<Seq<char>>::empty());
    while done < n
        invariant
            n == all.len(),
            done <= n,
            wanted == match accepted {
                Some(list) => all_of(texts(list@)),
                None => all_known(),
            },
            several == (gpu_count(all) > 1),
            devices@ == all.skip(done as int),
            gpu_index <= done,
            gpu_index == gpu_count(all.take(done as int)),
            sensor_views(sensors@) == found_sensors(all.take(done as int), several, wanted),
            texts(found@).no_duplicates(),
            forall|d: Seq<char>| #[trigger]
                texts(found@).contains(d) <==> driver_present(all.take(done as int), d),
        decreases n - done,
    {
        let device = devices.remove(0);
        assert(device == all[done as int]);
        assert(devices@ == all.skip(done + 1));
        let ghost before = all.take(done as int);
        let ghost now = all.take(done + 1);
        assert(now.drop_last() == before);
        assert(now.last() == device);
        proof {
            lemma_driver_present_step(now);
        }
        match device_driver(&device) {
            Some(driver) => {
                let accept = match accepted {
                    Some(list) => text_listed(list, driver.as_str()),
                    None => is_known_driver(driver.as_str()),
                };
                assert(accept == wanted(driver@));
                add_driver(&mut found, driver.as_str());
                if accept {
                    discover_inputs(
                        driver.as_str(),
                        gpu_index,
                        gpu_index > 0 || several,
                        device.inputs,
                        &mut sensors,
                    );
                }
                if same_text(driver.as_str(), "amdgpu") {
                    gpu_index = gpu_index + 1;
                }
            },
            None => {},
        }
        done = done + 1;
    }
    assert(all.take(done as int) == all);
    (sensors, found)
}

proof fn lemma_driver_present_step<H>(devices: Seq<HwmonDevice<H>>)
    requires
        devices.len() > 0,
    ensures
        forall|d: Seq<char>| #[trigger]
            driver_present(devices, d) <==> driver_present(devices.drop_last(), d) || driver_of(
                devices.last(),
            ) == Some(d),
{
    let before = devices.drop_last();
    assert forall|d: Seq<char>| #[trigger] driver_present(devices, d) <==> driver_present(before, d)
        || driver_of(devices.last()) == Some(d) by {
        if driver_present(devices, d) {
            let i = choose|i: int|
                0 <= i < devices.len() && driver_of(#[trigger] devices[i]) == Some(d);
            if i < before.len() {
                assert(before[i] == devices[i]);
            }
        }
        if driver_present(before, d) {
            let i = choose|i: int|
                0 <= i < before.len() && driver_of(#[trigger] before[i]) == Some(d);
            assert(devices[i] == before[i]);
        }
        if driver_of(devices.last()) == Some(d) {
            assert(devices[devices.len() - 1] == devices.last());
        }
    }
}

/// Finds the sensors of all known drivers, and which of the expected drivers are missing: those
/// that no device has, whether or not their sensors are used.
///
/// `devices` lists the directories of the hwmon subsystem, or says why they cannot be listed.
pub fn scan_hwmon_devices<H>(
    expected_drivers: &Vec<String>,
    devices: Result<Vec<HwmonDevice<H>>, String>,
) -> (r: DiscoveryResult<H>)
    ensures
        devices matches Ok(list) ==> {
            let sorted = by_path(list@);
            &&& sensor_views(r.sensors@) == found_sensors(
                sorted,
                gpu_count(sorted) > 1,
                all_known(),
            )
            &&& lists_exactly(
                texts(r.missing_drivers@),
                texts(expected_drivers@),
                |d: Seq<char>| !driver_present(sorted, d),
            )
        },
        devices is Err ==> r.sensors.len() == 0 && lists_exactly(
            texts(r.missing_drivers@),
            texts(expected_drivers@),
            |d: Seq<char>| true,
        ),
{
    match devices {
        Ok(list) => {
            let (sensors, found) = scan(list, None);
            let missing_drivers = list_without(expected_drivers, &found);
            DiscoveryResult { sensors, missing_drivers }
        },
        Err(_) => {
            let none: Vec<String> = Vec::new();
            assert(texts(none@) == Seq::<Seq<char>>::empty());
            let missing_drivers = list_without(expected_drivers, &none);
            DiscoveryResult { sensors: Vec::new(), missing_drivers }
        },
    }
}

/// Finds the sensors of the wanted drivers, and which of these are still missing.
pub fn scan_for_drivers<H>(
    wanted: &Vec<String>,
    devices: Result<Vec<HwmonDevice<H>>, String>,
) -> (r: DiscoveryResult<H>)
    ensures
        devices matches Ok(list) ==> {
            let sorted = by_path(list@);
            &&& sensor_views(r.sensors@) == found_sensors(
                sorted,
                gpu_count(sorted) > 1,
                all_of(texts(wanted@)),
            )
            &&& lists_exactly(
                texts(r.missing_drivers@),
                texts(wanted@),
                |d: Seq<char>| !driver_present(sorted, d),
            )
        },
        devices is Err ==> r.sensors.len() == 0 && lists_exactly(
            texts(r.missing_drivers@),
            texts(wanted@),
            |d: Seq<char>| true,
        ),
{
    match devices {
        Ok(list) => {
            let (sensors, found) = scan(list, Some(wanted));
            let missing_drivers = list_without(wanted, &found);
            DiscoveryResult { sensors, missing_drivers }
        },
        Err(_) => {
            let none: Vec<String> = Vec::new();
            assert(texts(none@) == Seq::<Seq<char>>::empty());
            let missing_drivers = list_without(wanted, &none);
            DiscoveryResult { sensors: Vec::new(), missing_drivers }
        },
    }
}

/// Sensors of different graphics cards have different names, whatever their labels.
pub proof fn law_numbered_names_differ(i: nat, j: nat, a: Seq<char>, b: Seq<char>)
    requires
        i != j,
    ensures
        sensor_name("amdgpu"@, i, true, a) != sensor_name("amdgpu"@, j, true, b),
{
    if sensor_name("amdgpu"@, i, true, a) == sensor_name("amdgpu"@, j, true, b) {
        if decimal(i).len() <= decimal(j).len() {
            lemma_same_number(i, j, a, b);
        } else {
            lemma_same_number(j, i, b, a);
        }
    }
}

proof fn lemma_same_number(i: nat, j: nat, a: Seq<char>, b: Seq<char>)
    requires
        sensor_name("amdgpu"@, i, true, a) == sensor_name("amdgpu"@, j, true, b),
        decimal(i).len() <= decimal(j).len(),
    ensures
        i == j,
{
    reveal_strlit("] ");
    let x = sensor_name("amdgpu"@, i, true, a);
    let y = sensor_name("amdgpu"@, j, true, b);
    let start = "amdgpu ["@.len() as int;
    let n = decimal(i).len() as int;
    lemma_decimal_digits(j);
    assert(x[start + n] == ']');
    if n < decimal(j).len() {
        assert(y[start + n] == decimal(j)[n]);
        assert(digit_value(decimal(j)[n]) is Some);
        assert(false);
    }
    assert(x.subrange(start, start + n) == decimal(i));
    assert(y.subrange(start, start + n) == decimal(j));
    law_decimal_is_injective(i, j);
}

/// The driver of a sensor, as a condition on sensors.
pub open spec fn driver_is<H>(wanted: spec_fn(Seq<char>) -> bool) -> spec_fn(SensorView<H>) -> bool {
    |sensor: SensorView<H>| wanted(sensor.driver)
}

/// The sensors of a device have its driver, and there are none where the driver is not known.
proof fn lemma_input_sensors<H>(
    driver: Seq<char>,
    gpu_index: nat,
    numbered: bool,
    inputs: Seq<TempInput<H>>,
)
    ensures
        forall|i: int|
            #![trigger input_sensors(driver, gpu_index, numbered, inputs)[i]]
            0 <= i < input_sensors(driver, gpu_index, numbered, inputs).len()
                ==> input_sensors(driver, gpu_index, numbered, inputs)[i].driver == driver,
        !known_driver(driver) ==> input_sensors(driver, gpu_index, numbered, inputs).len() == 0,
    decreases inputs.len(),
{
    if inputs.len() > 0 {
        let before = input_sensors(driver, gpu_index, numbered, inputs.drop_last());
        let all = input_sensors(driver, gpu_index, numbered, inputs);
        lemma_input_sensors(driver, gpu_index, numbered, inputs.drop_last());
        assert forall|i: int| 0 <= i < all.len() implies (#[trigger] all[i]).driver == driver by {
            if i < before.len() {
                assert(all[i] == before[i]);
            }
        }
    }
}

/// A search for some drivers finds the same sensors, under the same names and in the same
/// order, as the search for all drivers finds of these.
pub proof fn law_late_search_agrees<H>(
    devices: Seq<HwmonDevice<H>>,
    several: bool,
    wanted: spec_fn(Seq<char>) -> bool,
)
    ensures
        found_sensors(devices, several, wanted) == found_sensors(
            devices,
            several,
            all_known(),
        ).filter(driver_is(wanted)),
    decreases devices.len(),
{
    let keep = driver_is::<H>(wanted);
    if devices.len() == 0 {
        reveal(Seq::filter);
        assert(found_sensors(devices, several, all_known()).filter(keep) == Seq::<
            SensorView<H>,
        >::empty());
    } else {
        let before = devices.drop_last();
        law_late_search_agrees(before, several, wanted);
        let known_before = found_sensors(before, several, all_known());
        match driver_of(devices.last()) {
            Some(driver) => {
                let gpu_index = gpu_count(before);
                let new = input_sensors(
                    driver,
                    gpu_index,
                    gpu_index > 0 || several,
                    by_path(devices.last().inputs@),
                );
                lemma_input_sensors(
                    driver,
                    gpu_index,
                    gpu_index > 0 || several,
                    by_path(devices.last().inputs@),
                );
                lemma_filter_uniform(new, keep, wanted(driver));
                Seq::filter_distributes_over_add(known_before, new, keep);
                if !known_driver(driver) {
                    assert(new == Seq::<SensorView<H>>::empty());
                }
                assert(known_before.filter(keep) + Seq::<SensorView<H>>::empty()
                    == known_before.filter(keep));
                assert(known_before + Seq::<SensorView<H>>::empty() == known_before);
            },
            None => {},
        }
    }
}

/// The drivers whose sensors are used.
pub open spec fn drivers_in_use() -> Seq<Seq<char>> {
    seq!["coretemp"@, "amdgpu"@, "applesmc"@, "nvme"@]
}

/// The labels of the Apple system management controller that are used.
pub open spec fn keys_in_use() -> Seq<Seq<char>> {
    seq![
        "TC0P"@,
        "TC0D"@,
        "TG0P"@,
        "TG0D"@,
        "TG1P"@,
        "Tm0P"@,
        "Tm1P"@,
        "TH0A"@,
        "TH0B"@,
        "TB0T"@,
        "TB1T"@,
        "Tp0P"@,
        "TA0P"@,
    ]
}

/// Sensors are used of the listed drivers alone, all of them but for the Apple system management
/// controller, whose labels are listed too.
pub proof fn law_listed_drivers_and_labels_are_used(driver: Seq<char>, label: Seq<char>)
    ensures
        known_driver(driver) <==> drivers_in_use().contains(driver),
        curated_key(label) <==> keys_in_use().contains(label),
        used_label(driver, label) <==> drivers_in_use().contains(driver) && (driver == "applesmc"@
            ==> keys_in_use().contains(label)),
{
    let drivers = drivers_in_use();
    let keys = keys_in_use();
    assert(drivers[0] == "coretemp"@ && drivers[1] == "amdgpu"@ && drivers[2] == "applesmc"@
        && drivers[3] == "nvme"@);
    assert(keys[0] == "TC0P"@);
    assert(keys[1] == "TC0D"@);
    assert(keys[2] == "TG0P"@);
    assert(keys[3] == "TG0D"@);
    assert(keys[4] == "TG1P"@);
    assert(keys[5] == "Tm0P"@);
    assert(keys[6] == "Tm1P"@);
    assert(keys[7] == "TH0A"@);
    assert(keys[8] == "TH0B"@);
    assert(keys[9] == "TB0T"@);
    assert(keys[10] == "TB1T"@);
    assert(keys[11] == "Tp0P"@);
    assert(keys[12] == "TA0P"@);
}

/// A sensor is named by its driver and its label, with a blank between, and with the number of
/// the graphics card in brackets between them where the cards are numbered.
pub proof fn law_sensors_are_named_by_driver_and_label(
    driver: Seq<char>,
    gpu_index: nat,
    label: Seq<char>,
)
    ensures
        sensor_name(driver, gpu_index, false, label) == driver + " "@ + label,
        driver != "amdgpu"@ ==> sensor_name(driver, gpu_index, true, label) == driver + " "@ + label,
        sensor_name("amdgpu"@, gpu_index, true, label) == "amdgpu ["@ + decimal(gpu_index) + "] "@
            + label,
{
}

/// The label of an input file is what its label file holds, between white space, and without a
/// label file what stands before `_input` in its name; a file with another name has none.
pub proof fn law_label_is_of_the_label_file<H>(input: TempInput<H>)
    ensures
        label_of(input) is Some <==> path_stem(input.path@) is Some,
        path_stem(input.path@) is Some && input.label is Some ==> label_of(input) == Some(
            trimmed(input.label->0@),
        ),
        path_stem(input.path@) is Some && input.label is None ==> label_of(input) == Some(
            decode_utf8(path_stem(input.path@)->0),
        ),
{
}

/// The label file of an input stands beside it, under its name with `_label` in place of
/// `_input`.
pub proof fn law_label_file_stands_beside(input: Seq<Seq<u8>>)
    ensures
        label_place(input) is Some <==> path_stem(input) is Some,
        path_stem(input) matches Some(stem) ==> label_place(input) == Some(
            renamed(input, stem + encode_utf8("_label"@)),
        ),
{
    reveal_strlit("_label");
    lemma_encode_ascii("_label"@, label_suffix());
}

/// The inputs of a device that are used: they are open, have a label, and it is in use.
pub open spec fn usable<H>(driver: Seq<char>) -> spec_fn(TempInput<H>) -> bool {
    |input: TempInput<H>|
        input.handle is Some && label_of(input) is Some && drivers_in_use().contains(driver) && (
        driver == "applesmc"@ ==> keys_in_use().contains(label_of(input)->0))
}

/// The sensor of an input that is used.
pub open spec fn sensor_from<H>(driver: Seq<char>, gpu_index: nat, numbered: bool) -> spec_fn(
    TempInput<H>,
) -> SensorView<H> {
    |input: TempInput<H>|
        SensorView {
            name: sensor_name(driver, gpu_index, numbered, label_of(input)->0),
            driver,
            temp_file: input.handle->0,
        }
}

/// The inputs of a device that are used give its sensors, one each and in their order.
pub proof fn law_usable_inputs_give_the_sensors<H>(
    driver: Seq<char>,
    gpu_index: nat,
    numbered: bool,
    inputs: Seq<TempInput<H>>,
)
    ensures
        input_sensors(driver, gpu_index, numbered, inputs) == inputs.filter(
            usable(driver),
        ).map_values(sensor_from(driver, gpu_index, numbered)),
    decreases inputs.len(),
{
    let keep = usable::<H>(driver);
    let value = sensor_from::<H>(driver, gpu_index, numbered);
    if inputs.len() == 0 {
        lemma_filter_pushed(inputs, arbitrary(), keep);
        assert(inputs =~= Seq::<TempInput<H>>::empty());
        assert(inputs.filter(keep).map_values(value) =~= Seq::<SensorView<H>>::empty());
    } else {
        let before = inputs.drop_last();
        let last = inputs.last();
        law_usable_inputs_give_the_sensors(driver, gpu_index, numbered, before);
        lemma_filter_pushed(before, last, keep);
        assert(inputs =~= before.push(last));
        if label_of(last) is Some {
            law_listed_drivers_and_labels_are_used(driver, label_of(last)->0);
        }
        if keep(last) {
            assert(before.filter(keep).push(last).map_values(value) =~= before.filter(
                keep,
            ).map_values(value).push(value(last)));
        }
    }
}

/// The devices whose `name` file names the driver of AMD graphics cards.
pub open spec fn amd_graphics<H>() -> spec_fn(HwmonDevice<H>) -> bool {
    |device: HwmonDevice<H>| device.driver is Some && trimmed(device.driver->0@) == "amdgpu"@
}

/// The graphics cards that are counted are the devices with that driver.
pub proof fn law_graphics_cards_are_counted<H>(devices: Seq<HwmonDevice<H>>)
    ensures
        gpu_count(devices) == devices.filter(amd_graphics()).len(),
    decreases devices.len(),
{
    if devices.len() == 0 {
        lemma_filter_pushed(devices, arbitrary(), amd_graphics());
        assert(devices =~= Seq::<HwmonDevice<H>>::empty());
    } else {
        let before = devices.drop_last();
        law_graphics_cards_are_counted(before);
        lemma_filter_pushed(before, devices.last(), amd_graphics());
        assert(devices =~= before.push(devices.last()));
    }
}

/// A device more adds its sensors behind those of the devices before it, if its driver is
/// wanted: those of its usable inputs in the order of their paths, numbered by the graphics cards
/// before it where there is one before it or where there are several. Another adds none.
pub proof fn law_each_device_adds_its_sensors<H>(
    devices: Seq<HwmonDevice<H>>,
    device: HwmonDevice<H>,
    several: bool,
    wanted: spec_fn(Seq<char>) -> bool,
)
    ensures
        found_sensors(Seq::<HwmonDevice<H>>::empty(), several, wanted) == Seq::<
            SensorView<H>,
        >::empty(),
        ({
            let driver = trimmed(device.driver->0@);
            let cards = devices.filter(amd_graphics()).len();
            &&& device.driver is Some && wanted(driver) ==> found_sensors(
                devices.push(device),
                several,
                wanted,
            ) == found_sensors(devices, several, wanted) + by_path(device.inputs@).filter(
                usable(driver),
            ).map_values(sensor_from(driver, cards, several || cards > 0))
            &&& device.driver is None || !wanted(driver) ==> found_sensors(
                devices.push(device),
                several,
                wanted,
            ) == found_sensors(devices, several, wanted)
        }),
{
    assert(devices.push(device).drop_last() =~= devices);
    law_graphics_cards_are_counted(devices);
    if device.driver is Some {
        let driver = trimmed(device.driver->0@);
        let cards = gpu_count(devices);
        law_usable_inputs_give_the_sensors(
            driver,
            cards,
            cards > 0 || several,
            by_path(device.inputs@),
        );
    }
}

} // verus!
