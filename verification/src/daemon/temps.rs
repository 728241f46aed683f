//! The temperature that a fan follows.
use std::collections::VecDeque;
use vstd::prelude::*;

use crate::config::SensorAggregation;
use crate::sensor::registry::reading_views;
use crate::sensor::{SensorStatus, StatusView};
use crate::text::lemma_filter_pushed;

verus! {

/// The sum of the temperatures.
pub open spec fn sum_of(temps: Seq<u8>) -> int
    decreases temps.len(),
{
    if temps.len() == 0 {
        0
    } else {
        sum_of(temps.drop_last()) + temps.last()
    }
}

/// The highest of the temperatures.
pub open spec fn highest(temps: Seq<u8>) -> u8
    decreases temps.len(),
{
    if temps.len() == 0 {
        0
    } else if highest(temps.drop_last()) > temps.last() {
        highest(temps.drop_last())
    } else {
        temps.last()
    }
}

/// The lowest of the temperatures.
pub open spec fn lowest(temps: Seq<u8>) -> u8
    decreases temps.len(),
{
    if temps.len() == 0 {
        255
    } else if lowest(temps.drop_last()) < temps.last() {
        lowest(temps.drop_last())
    } else {
        temps.last()
    }
}

/// The temperatures in one, if there are any; an average is rounded down.
pub open spec fn aggregate(temps: Seq<u8>, method: SensorAggregation) -> Option<u8> {
    if temps.len() == 0 {
        None
    } else {
        match method {
            SensorAggregation::Max => Some(highest(temps)),
            SensorAggregation::Average => Some((sum_of(temps) / temps.len() as int) as u8),
            SensorAggregation::Min => Some(lowest(temps)),
        }
    }
}

proof fn lemma_sum_bounds(temps: Seq<u8>)
    ensures
        lowest(temps) * temps.len() <= sum_of(temps) <= highest(temps) * temps.len(),
        0 <= sum_of(temps) <= 255 * temps.len(),
    decreases temps.len(),
{
    if temps.len() > 0 {
        let before = temps.drop_last();
        lemma_sum_bounds(before);
        let n = before.len() as int;
        let (lo, hi) = (lowest(temps) as int, highest(temps) as int);
        let (lo2, hi2) = (lowest(before) as int, highest(before) as int);
        assert(lo * (n + 1) <= lo2 * n + temps.last()) by (nonlinear_arith)
            requires
                n >= 0,
                n > 0 ==> lo <= lo2,
                lo <= temps.last(),
        ;
        assert(hi2 * n + temps.last() <= hi * (n + 1)) by (nonlinear_arith)
            requires
                n >= 0,
                n > 0 ==> hi2 <= hi,
                temps.last() <= hi,
        ;
    }
}

/// The temperatures in one, if there are any.
pub fn aggregate_temps(temps: &Vec<u8>, method: SensorAggregation) -> (r: Option<u8>)
    ensures
        r == aggregate(temps@, method),
{
    if temps.len() == 0 {
        return None;
    }
    let mut sum: u128 = 0;
    let mut high: u8 = 0;
    let mut low: u8 = 255;
    let mut i: usize = 0;
    while i < temps.len()
        invariant
            i <= temps.len(),
            sum == sum_of(temps@.take(i as int)),
            sum <= 255 * i,
            high == highest(temps@.take(i as int)),
            low == lowest(temps@.take(i as int)),
        decreases temps.len() - i,
    {
        assert(temps@.take(i + 1).drop_last() == temps@.take(i as int));
        let t: u8 = temps[i];
        sum = sum + t as u128;
        if t >= high {
            high = t;
        }
        if t <= low {
            low = t;
        }
        i = i + 1;
    }
    assert(temps@.take(i as int) == temps@);
    match method {
        SensorAggregation::Max => Some(high),
        SensorAggregation::Min => Some(low),
        SensorAggregation::Average => {
            proof {
                law_average_is_between(temps@);
            }
            Some((sum / temps.len() as u128) as u8)
        },
    }
}

/// The average of some temperatures is not below the lowest and not above the highest.
pub proof fn law_average_is_between(temps: Seq<u8>)
    requires
        temps.len() > 0,
    ensures
        lowest(temps) <= sum_of(temps) / temps.len() as int <= highest(temps),
{
    lemma_sum_bounds(temps);
    let n = temps.len() as int;
    let (lo, hi, sum) = (lowest(temps) as int, highest(temps) as int, sum_of(temps));
    assert(lo <= sum / n <= hi) by (nonlinear_arith)
        requires
            n > 0,
            lo * n <= sum <= hi * n,
    ;
}

/// The highest temperature is one of the temperatures, and none is above it.
pub proof fn law_highest_is_reached(temps: Seq<u8>)
    requires
        temps.len() > 0,
    ensures
        temps.contains(highest(temps)),
        forall|i: int| 0 <= i < temps.len() ==> #[trigger] temps[i] <= highest(temps),
    decreases temps.len(),
{
    let before = temps.drop_last();
    assert(temps[temps.len() - 1] == temps.last());
    if before.len() > 0 {
        law_highest_is_reached(before);
        let k = choose|k: int| 0 <= k < before.len() && before[k] == highest(before);
        assert(temps[k] == highest(before));
        assert forall|i: int| 0 <= i < temps.len() implies #[trigger] temps[i] <= highest(
            temps,
        ) by {
            if i < before.len() {
                assert(before[i] <= highest(before));
            }
        }
    }
}

/// The lowest temperature is one of the temperatures, and none is below it.
pub proof fn law_lowest_is_reached(temps: Seq<u8>)
    requires
        temps.len() > 0,
    ensures
        temps.contains(lowest(temps)),
        forall|i: int| 0 <= i < temps.len() ==> lowest(temps) <= #[trigger] temps[i],
    decreases temps.len(),
{
    let before = temps.drop_last();
    assert(temps[temps.len() - 1] == temps.last());
    if before.len() > 0 {
        law_lowest_is_reached(before);
        let k = choose|k: int| 0 <= k < before.len() && before[k] == lowest(before);
        assert(temps[k] == lowest(before));
        assert forall|i: int| 0 <= i < temps.len() implies lowest(
            temps,
        ) <= #[trigger] temps[i] by {
            if i < before.len() {
                assert(lowest(before) <= before[i]);
            }
        }
    }
}

/// Every method gives one temperature back as it is, and for more the three methods are in
/// order.
pub proof fn law_methods_are_ordered(temps: Seq<u8>)
    requires
        temps.len() > 0,
    ensures
        aggregate(temps, SensorAggregation::Min)->0 <= aggregate(
            temps,
            SensorAggregation::Average,
        )->0 <= aggregate(temps, SensorAggregation::Max)->0,
        temps.len() == 1 ==> forall|method: SensorAggregation|
            aggregate(temps, method) == Some(temps[0]),
{
    law_average_is_between(temps);
    if temps.len() == 1 {
        assert(temps.drop_last() == Seq::<u8>::empty());
        reveal_with_fuel(highest, 2);
        reveal_with_fuel(lowest, 2);
    }
}

/// How many samples are kept.
pub const BUFFER_LEN: usize = 16;

/// The last samples of a longer list.
pub open spec fn latest<T>(samples: Seq<T>) -> Seq<T> {
    if samples.len() > BUFFER_LEN {
        samples.skip(samples.len() - BUFFER_LEN)
    } else {
        samples
    }
}

/// The latest samples of a temperature.
#[derive(Debug)]
pub struct TempBuffer<T>(VecDeque<T>);

impl<T> View for TempBuffer<T> {
    type V = Seq<T>;

    closed spec fn view(&self) -> Seq<T> {
        self.0@
    }
}

impl<T> TempBuffer<T> {
    #[verifier::type_invariant]
    spec fn bounded(self) -> bool {
        self.0@.len() <= BUFFER_LEN
    }

    /// No samples.
    pub fn new() -> (r: TempBuffer<T>)
        ensures
            r@ == Seq::<T>::empty(),
    {
        TempBuffer(VecDeque::with_capacity(BUFFER_LEN))
    }

    /// Takes a sample; the oldest go when there are too many.
    pub fn push(&mut self, value: T)
        ensures
            final(self)@ == latest(old(self)@.push(value)),
            final(self)@.len() <= BUFFER_LEN,
    {
        proof {
            use_type_invariant(&*self);
        }
        let ghost all = self@.push(value);
        let mut samples: VecDeque<T> = VecDeque::new();
        std::mem::swap(&mut samples, &mut self.0);
        samples.push_back(value);
        let ghost mut gone: int = 0;
        assert(all.skip(0) == all);
        while samples.len() > BUFFER_LEN
            invariant
                0 <= gone <= all.len(),
                samples@ == all.skip(gone),
                gone > 0 ==> samples@.len() >= BUFFER_LEN,
            decreases samples.len(),
        {
            samples.pop_front();
            proof {
                gone = gone + 1;
            }
            assert(samples@ == all.skip(gone));
        }
        assert(samples@ =~= latest(all));
        self.0 = samples;
    }

    /// The samples, the oldest first.
    pub fn samples(&self) -> (r: &VecDeque<T>)
        ensures
            r@ == self@,
            r@.len() <= BUFFER_LEN,
    {
        proof {
            use_type_invariant(self);
        }
        &self.0
    }
}

/// The samples of a buffer that took those of a list one by one.
pub open spec fn buffered<T>(samples: Seq<T>) -> Seq<T>
    decreases samples.len(),
{
    if samples.len() == 0 {
        Seq::empty()
    } else {
        latest(buffered(samples.drop_last()).push(samples.last()))
    }
}

/// However many samples it took, a buffer holds the latest of them, in order.
pub proof fn law_buffer_holds_the_latest<T>(samples: Seq<T>)
    ensures
        buffered(samples) == latest(samples),
    decreases samples.len(),
{
    if samples.len() > 0 {
        law_buffer_holds_the_latest(samples.drop_last());
        assert(buffered(samples) =~= latest(samples));
    } else {
        assert(latest(samples) =~= Seq::<T>::empty());
    }
}

/// The temperature of a reading, if it has one.
pub open spec fn active(status: StatusView) -> Option<u8> {
    match status {
        StatusView::Active(t) => Some(t),
        _ => None,
    }
}

/// The temperatures of the active sensors.
pub open spec fn all_active(readings: Seq<(Seq<char>, StatusView)>) -> Seq<u8>
    decreases readings.len(),
{
    if readings.len() == 0 {
        Seq::empty()
    } else {
        let before = all_active(readings.drop_last());
        match active(readings.last().1) {
            Some(t) => before.push(t),
            None => before,
        }
    }
}

/// The temperatures of the sensors at the given positions, as far as there are such sensors
/// and they are active.
pub open spec fn active_at(readings: Seq<(Seq<char>, StatusView)>, indices: Seq<usize>) -> Seq<u8>
    decreases indices.len(),
{
    if indices.len() == 0 {
        Seq::empty()
    } else {
        let before = active_at(readings, indices.drop_last());
        if indices.last() < readings.len() {
            match active(readings[indices.last() as int].1) {
                Some(t) => before.push(t),
                None => before,
            }
        } else {
            before
        }
    }
}

/// The temperatures that a fan follows: those of its sensors, or of all if it has none.
pub open spec fn followed(
    readings: Seq<(Seq<char>, StatusView)>,
    indices: Option<Seq<usize>>,
) -> Seq<u8> {
    match indices {
        Some(list) => if list.len() > 0 {
            active_at(readings, list)
        } else {
            all_active(readings)
        },
        None => all_active(readings),
    }
}

/// The temperature that a fan follows: nothing active counts as zero.
pub open spec fn fan_temp(
    readings: Seq<(Seq<char>, StatusView)>,
    indices: Option<Seq<usize>>,
    method: SensorAggregation,
) -> u8 {
    match aggregate(followed(readings, indices), method) {
        Some(t) => t,
        None => 0,
    }
}

fn active_temps(readings: &Vec<(&str, SensorStatus)>) -> (r: Vec<u8>)
    ensures
        r@ == all_active(reading_views(readings@)),
{
    let ghost all = reading_views(readings@);
    let mut out: Vec<u8> = Vec::new();
    let mut i: usize = 0;
    assert(all.take(0) == Seq::<(Seq<char>, StatusView)>::empty());
    while i < readings.len()
        invariant
            i <= readings.len(),
            all == reading_views(readings@),
            out@ == all_active(all.take(i as int)),
        decreases readings.len() - i,
    {
        assert(all.take(i + 1).drop_last() == all.take(i as int));
        assert(all.take(i + 1).last() == all[i as int]);
        match &readings[i].1 {
            SensorStatus::Active(t) => {
                out.push(*t);
            },
            _ => {},
        }
        i = i + 1;
    }
    assert(all.take(i as int) == all);
    out
}

fn temps_at(readings: &Vec<(&str, SensorStatus)>, indices: &Vec<usize>) -> (r: Vec<u8>)
    ensures
        r@ == active_at(reading_views(readings@), indices@),
{
    let ghost all = reading_views(readings@);
    let mut out: Vec<u8> = Vec::new();
    let mut i: usize = 0;
    assert(indices@.take(0) == Seq::<usize>::empty());
    while i < indices.len()
        invariant
            i <= indices.len(),
            all == reading_views(readings@),
            out@ == active_at(all, indices@.take(i as int)),
        decreases indices.len() - i,
    {
        assert(indices@.take(i + 1).drop_last() == indices@.take(i as int));
        let idx: usize = indices[i];
        if idx < readings.len() {
            assert(all[idx as int].1 == readings@[idx as int].1@);
            match &readings[idx].1 {
                SensorStatus::Active(t) => {
                    out.push(*t);
                },
                _ => {},
            }
        }
        i = i + 1;
    }
    assert(indices@.take(i as int) == indices@);
    out
}

/// The temperature that a fan follows.
pub fn fan_temperature(
    readings: &Vec<(&str, SensorStatus)>,
    indices: Option<&Vec<usize>>,
    method: SensorAggregation,
) -> (r: u8)
    ensures
        indices matches Some(list) ==> r == fan_temp(
            reading_views(readings@),
            Some(list@),
            method,
        ),
        indices is None ==> r == fan_temp(reading_views(readings@), None, method),
{
    let temps = match indices {
        Some(list) => {
            if list.len() > 0 {
                temps_at(readings, list)
            } else {
                active_temps(readings)
            }
        },
        None => active_temps(readings),
    };
    match aggregate_temps(&temps, method) {
        Some(t) => t,
        None => 0,
    }
}

/// Whether a fan follows the sensor at position `k`: one of its own, or any if it has none.
pub open spec fn follows(
    readings: Seq<(Seq<char>, StatusView)>,
    indices: Option<Seq<usize>>,
    k: int,
) -> bool {
    &&& 0 <= k < readings.len()
    &&& indices matches Some(list) ==> list.len() == 0 || exists|i: int|
        0 <= i < list.len() && #[trigger] list[i] == k
}

/// Every active sensor that a fan follows counts: with the highest temperature as its method,
/// the temperature of the fan is below none of theirs, and with the lowest above none.
pub proof fn law_every_followed_sensor_counts(
    readings: Seq<(Seq<char>, StatusView)>,
    indices: Option<Seq<usize>>,
    k: int,
)
    requires
        follows(readings, indices, k),
        active(readings[k].1) is Some,
    ensures
        fan_temp(readings, indices, SensorAggregation::Max) >= active(readings[k].1)->0,
        fan_temp(readings, indices, SensorAggregation::Min) <= active(readings[k].1)->0,
{
    let temps = followed(readings, indices);
    match indices {
        Some(list) => {
            if list.len() > 0 {
                let i = choose|i: int| 0 <= i < list.len() && #[trigger] list[i] == k;
                lemma_active_at_counts(readings, list, i);
            } else {
                lemma_active_counts(readings, k);
            }
        },
        None => {
            lemma_active_counts(readings, k);
        },
    }
    law_highest_is_reached(temps);
    law_lowest_is_reached(temps);
}

proof fn lemma_active_at_counts(
    readings: Seq<(Seq<char>, StatusView)>,
    indices: Seq<usize>,
    i: int,
)
    requires
        0 <= i < indices.len(),
        indices[i] < readings.len(),
        active(readings[indices[i] as int].1) is Some,
    ensures
        active_at(readings, indices).contains(active(readings[indices[i] as int].1)->0),
    decreases indices.len(),
{
    let before = indices.drop_last();
    let all = active_at(readings, indices);
    let t = active(readings[indices[i] as int].1)->0;
    if i < before.len() {
        lemma_active_at_counts(readings, before, i);
        let temps = active_at(readings, before);
        let j = choose|j: int| 0 <= j < temps.len() && temps[j] == t;
        assert(all[j] == temps[j]);
    } else {
        assert(all[all.len() - 1] == t);
    }
}

proof fn lemma_active_counts(readings: Seq<(Seq<char>, StatusView)>, k: int)
    requires
        0 <= k < readings.len(),
        active(readings[k].1) is Some,
    ensures
        all_active(readings).contains(active(readings[k].1)->0),
    decreases readings.len(),
{
    let before = readings.drop_last();
    let all = all_active(readings);
    if k < before.len() {
        lemma_active_counts(before, k);
        let temps = all_active(before);
        let j = choose|j: int| 0 <= j < temps.len() && temps[j] == active(readings[k].1)->0;
        assert(all[j] == temps[j]);
    } else {
        assert(all[all.len() - 1] == active(readings[k].1)->0);
    }
}

proof fn lemma_sum_is_the_fold(temps: Seq<u8>)
    ensures
        sum_of(temps) == temps.fold_left(0int, |sum: int, t: u8| sum + t),
    decreases temps.len(),
{
    if temps.len() > 0 {
        lemma_sum_is_the_fold(temps.drop_last());
    }
}

/// The average of some temperatures is their sum divided by their number, rounded down: so many
/// times the number fits in the sum, and not once more.
pub proof fn law_average_is_the_sum_by_the_number(temps: Seq<u8>)
    requires
        temps.len() > 0,
    ensures
        ({
            let sum = temps.fold_left(0int, |sum: int, t: u8| sum + t);
            &&& aggregate(temps, SensorAggregation::Average) matches Some(average)
            &&& average * temps.len() <= sum < (average + 1) * temps.len()
        }),
{
    lemma_sum_is_the_fold(temps);
    law_average_is_between(temps);
    let n = temps.len() as int;
    let sum = sum_of(temps);
    let q = sum / n;
    assert(q * n <= sum < (q + 1) * n) by (nonlinear_arith)
        requires
            n > 0,
            q == sum / n,
    ;
}

/// The highest temperature is one of those given, and none is above it; the lowest is one of
/// those given, and none is below it; and nothing gives nothing, whatever the method.
pub proof fn law_extremes_are_of_the_temperatures(temps: Seq<u8>)
    ensures
        temps.len() > 0 ==> (aggregate(temps, SensorAggregation::Max) matches Some(high)
            && temps.contains(high) && forall|i: int|
            0 <= i < temps.len() ==> #[trigger] temps[i] <= high),
        temps.len() > 0 ==> (aggregate(temps, SensorAggregation::Min) matches Some(low)
            && temps.contains(low) && forall|i: int|
            0 <= i < temps.len() ==> low <= #[trigger] temps[i]),
        temps.len() == 0 ==> forall|method: SensorAggregation| aggregate(temps, method) is None,
{
    if temps.len() > 0 {
        law_highest_is_reached(temps);
        law_lowest_is_reached(temps);
    }
}

/// Of many samples the last sixteen are kept, and of fewer all.
pub proof fn law_last_sixteen_are_kept<T>(samples: Seq<T>, i: int)
    ensures
        samples.len() > 16 ==> latest(samples).len() == 16,
        samples.len() > 16 && 0 <= i < 16 ==> latest(samples)[i] == samples[samples.len() - 16 + i],
        samples.len() <= 16 ==> latest(samples) == samples,
{
}

/// The temperatures of all readings that are active, in order.
pub open spec fn readings_that_are_active(readings: Seq<(Seq<char>, StatusView)>) -> Seq<u8> {
    readings.filter(|r: (Seq<char>, StatusView)| r.1 is Active).map_values(
        |r: (Seq<char>, StatusView)| r.1->Active_0,
    )
}

/// The temperatures of the readings at the positions that have one and are active, in order.
pub open spec fn readings_at(
    readings: Seq<(Seq<char>, StatusView)>,
    positions: Seq<usize>,
) -> Seq<u8> {
    positions.filter(
        |i: usize| i < readings.len() && readings[i as int].1 is Active,
    ).map_values(|i: usize| readings[i as int].1->Active_0)
}

proof fn lemma_all_active_are_the_filtered(readings: Seq<(Seq<char>, StatusView)>)
    ensures
        all_active(readings) == readings_that_are_active(readings),
    decreases readings.len(),
{
    let keep = |r: (Seq<char>, StatusView)| r.1 is Active;
    let value = |r: (Seq<char>, StatusView)| r.1->Active_0;
    if readings.len() == 0 {
        lemma_filter_pushed(readings, arbitrary(), keep);
        assert(readings =~= Seq::<(Seq<char>, StatusView)>::empty());
        assert(readings_that_are_active(readings) =~= Seq::<u8>::empty());
    } else {
        let before = readings.drop_last();
        let last = readings.last();
        lemma_all_active_are_the_filtered(before);
        lemma_filter_pushed(before, last, keep);
        assert(readings =~= before.push(last));
        if keep(last) {
            assert(before.filter(keep).push(last).map_values(value) =~= before.filter(
                keep,
            ).map_values(value).push(value(last)));
        }
    }
}

proof fn lemma_active_at_are_the_filtered(
    readings: Seq<(Seq<char>, StatusView)>,
    positions: Seq<usize>,
)
    ensures
        active_at(readings, positions) == readings_at(readings, positions),
    decreases positions.len(),
{
    let keep = |i: usize| i < readings.len() && readings[i as int].1 is Active;
    let value = |i: usize| readings[i as int].1->Active_0;
    if positions.len() == 0 {
        lemma_filter_pushed(positions, arbitrary(), keep);
        assert(positions =~= Seq::<usize>::empty());
        assert(readings_at(readings, positions) =~= Seq::<u8>::empty());
    } else {
        let before = positions.drop_last();
        let last = positions.last();
        lemma_active_at_are_the_filtered(readings, before);
        lemma_filter_pushed(before, last, keep);
        assert(positions =~= before.push(last));
        if keep(last) {
            assert(before.filter(keep).push(last).map_values(value) =~= before.filter(
                keep,
            ).map_values(value).push(value(last)));
        }
    }
}

/// A fan follows the active ones of its sensors and no others, or of all sensors where it has
/// none of its own; their temperatures become one by its method, and nothing active is zero.
pub proof fn law_fan_follows_its_sensors(
    readings: Seq<(Seq<char>, StatusView)>,
    indices: Option<Seq<usize>>,
    method: SensorAggregation,
)
    ensures
        ({
            let temps = if indices is Some && indices->0.len() > 0 {
                readings_at(readings, indices->0)
            } else {
                readings_that_are_active(readings)
            };
            &&& temps.len() == 0 ==> fan_temp(readings, indices, method) == 0
            &&& temps.len() > 0 ==> aggregate(temps, method) == Some(
                fan_temp(readings, indices, method),
            )
        }),
{
    lemma_all_active_are_the_filtered(readings);
    if indices is Some {
        lemma_active_at_are_the_filtered(readings, indices->0);
    }
}

/// What a sensor says that a fan does not follow makes no difference to the fan.
pub proof fn law_other_sensors_make_no_difference(
    readings: Seq<(Seq<char>, StatusView)>,
    list: Seq<usize>,
    method: SensorAggregation,
    k: int,
    status: StatusView,
)
    requires
        list.len() > 0,
        0 <= k < readings.len(),
        forall|i: int| 0 <= i < list.len() ==> #[trigger] list[i] != k,
    ensures
        fan_temp(readings.update(k, (readings[k].0, status)), Some(list), method) == fan_temp(
            readings,
            Some(list),
            method,
        ),
{
    lemma_active_at_elsewhere(readings, list, k, status);
}

proof fn lemma_active_at_elsewhere(
    readings: Seq<(Seq<char>, StatusView)>,
    list: Seq<usize>,
    k: int,
    status: StatusView,
)
    requires
        0 <= k < readings.len(),
        forall|i: int| 0 <= i < list.len() ==> #[trigger] list[i] != k,
    ensures
        active_at(readings.update(k, (readings[k].0, status)), list) == active_at(readings, list),
    decreases list.len(),
{
    if list.len() > 0 {
        let before = list.drop_last();
        assert forall|i: int| 0 <= i < before.len() implies #[trigger] before[i] != k by {
            assert(before[i] == list[i]);
        }
        lemma_active_at_elsewhere(readings, before, k, status);
        assert(list[list.len() - 1] != k);
    }
}

} // verus!
