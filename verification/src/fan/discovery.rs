//! Finding the fans.
use vstd::prelude::*;
use vstd::utf8::{encode_utf8, valid_utf8};

use crate::error::Error;
use crate::path::{by_path, file_name_of, law_components_are_the_names_between_slashes, law_file_name_is_the_last_component, law_renaming_keeps_the_directory, law_stem_stands_before_input, law_sorting_orders_and_keeps_all, lemma_path_order, path_before, path_stem, renamed, sort_by_path, stem_of, AtPath, SysPath};
use crate::text::{decimal, decimal_text, law_decimal_is_injective};

verus! {

/// A fan: its name, and the path that the names of its files begin with.
#[derive(Debug)]
pub struct FanPath {
    pub name: String,
    pub base_path: SysPath,
}

/// The pattern of the files that fans are found by.
pub open spec fn fan_pattern() -> Seq<char> {
    "/sys/devices/pci*/*/*/APP0001:00/fan*_input"@
}

/// The pattern of the files that fans are found by.
pub fn fan_glob() -> (r: &'static str)
    ensures
        r@ == fan_pattern(),
{
    "/sys/devices/pci*/*/*/APP0001:00/fan*_input"
}

/// The views of a list of fans.
pub open spec fn fan_views(fans: Seq<FanPath>) -> Seq<(Seq<char>, Seq<Seq<u8>>)> {
    Seq::new(fans.len(), |i: int| (fans[i].name@, fans[i].base_path@))
}

/// Whether the path occurs in the list.
pub open spec fn listed(list: Seq<SysPath>, path: Seq<Seq<u8>>) -> bool {
    exists|i: int| 0 <= i < list.len() && (#[trigger] list[i])@ == path
}

/// Each path of the list once, where it came first.
pub open spec fn first_seen(list: Seq<SysPath>) -> Seq<SysPath>
    decreases list.len(),
{
    if list.len() == 0 {
        list
    } else {
        let before = first_seen(list.drop_last());
        if listed(before, list.last()@) {
            before
        } else {
            before.push(list.last())
        }
    }
}

/// The name of the fan whose file is at position `idx` of the sorted list.
pub open spec fn fan_name(idx: nat) -> Seq<char> {
    "fan"@ + decimal(idx)
}

/// The fans of the sorted list of input files: a file whose name does not end in `_input`
/// gives no fan, but counts in the numbering.
pub open spec fn fan_list(inputs: Seq<SysPath>) -> Seq<(Seq<char>, Seq<Seq<u8>>)>
    decreases inputs.len(),
{
    if inputs.len() == 0 {
        Seq::empty()
    } else {
        let before = fan_list(inputs.drop_last());
        let last = inputs.last()@;
        match path_stem(last) {
            Some(stem) => before.push(
                (fan_name((inputs.len() - 1) as nat), renamed(last, stem)),
            ),
            None => before,
        }
    }
}

fn path_listed(list: &Vec<SysPath>, path: &SysPath) -> (r: bool)
    ensures
        r == listed(list@, path@),
{
    let mut i: usize = 0;
    while i < list.len()
        invariant
            i <= list.len(),
            forall|j: int| 0 <= j < i ==> (#[trigger] list@[j])@ != path@,
        decreases list.len() - i,
    {
        if list[i].same(path) {
            return true;
        }
        i = i + 1;
    }
    false
}

fn without_repeats(list: Vec<SysPath>) -> (r: Vec<SysPath>)
    ensures
        r@ == first_seen(list@),
{
    let ghost all = list@;
    let mut list = list;
    let mut out: Vec<SysPath> = Vec::new();
    let n: usize = list.len();
    let mut done: usize = 0;
    assert(all.skip(0) == all);
    assert(all.take(0) == Seq::<SysPath>::empty());
    while done < n
        invariant
            n == all.len(),
            done <= n,
            list@ == all.skip(done as int),
            out@ == first_seen(all.take(done as int)),
        decreases n - done,
    {
        let path = list.remove(0);
        assert(path == all[done as int]);
        assert(list@ == all.skip(done + 1));
        assert(all.take(done + 1).drop_last() == all.take(done as int));
        if !path_listed(&out, &path) {
            out.push(path);
        }
        done = done + 1;
    }
    assert(all.take(done as int) == all);
    out
}

/// The fans whose input files were found.
///
/// `found` lists the files that match `fan_glob`, each by its canonical path, or says what is
/// wrong with the pattern.
pub fn find_fan_paths(found: Result<Vec<SysPath>, String>) -> (r: Result<Vec<FanPath>, Error>)
    ensures
        found matches Err(e) ==> r == Err::<Vec<FanPath>, Error>(Error::Glob(e)),
        found matches Ok(list) ==> {
            let fans = fan_list(by_path(first_seen(list@)));
            match r {
                Ok(v) => fans.len() > 0 && fan_views(v@) == fans,
                Err(e) => fans.len() == 0 && e == Error::NoFan,
            }
        },
{
    let list = match found {
        Ok(list) => list,
        Err(e) => {
            return Err(Error::Glob(e));
        },
    };
    let inputs = sort_by_path(without_repeats(list));
    let mut fans: Vec<FanPath> = Vec::new();
    let mut idx: usize = 0;
    assert(inputs@.take(0) == Seq::<SysPath>::empty());
    assert(fan_views(fans@) == Seq::<(Seq<char>, Seq<Seq<u8>>)>::empty());
    while idx < inputs.len()
        invariant
            idx <= inputs.len(),
            fan_views(fans@) == fan_list(inputs@.take(idx as int)),
        decreases inputs.len() - idx,
    {
        assert(inputs@.take(idx + 1).drop_last() == inputs@.take(idx as int));
        assert(inputs@.take(idx + 1).last() == inputs@[idx as int]);
        let input = &inputs[idx];
        match stem_of(input) {
            Some(stem) => {
                let base_path = input.with_file_name(&stem);
                let mut name = "fan".to_string();
                name.append(decimal_text(idx as u64).as_str());
                let ghost had = fans@;
                fans.push(FanPath { name, base_path });
                assert(fan_views(fans@) == fan_views(had).push((name@, base_path@)));
            },
            None => {},
        }
        idx = idx + 1;
    }
    assert(inputs@.take(idx as int) == inputs@);
    assert(fan_views(fans@).len() == fans.len());
    if fans.len() == 0 {
        return Err(Error::NoFan);
    }
    Ok(fans)
}

/// Every path of the list is kept once, and nothing is added.
proof fn lemma_first_seen(list: Seq<SysPath>)
    ensures
        forall|i: int|
            0 <= i < first_seen(list).len() ==> list.contains(#[trigger] first_seen(list)[i]),
        forall|i: int|
            0 <= i < list.len() ==> listed(first_seen(list), (#[trigger] list[i])@),
        forall|i: int, j: int|
            0 <= i < j < first_seen(list).len() ==> (#[trigger] first_seen(list)[i])@ != (
            #[trigger] first_seen(list)[j])@,
    decreases list.len(),
{
    if list.len() > 0 {
        let shorter = list.drop_last();
        lemma_first_seen(shorter);
        let before = first_seen(shorter);
        let r = first_seen(list);
        assert forall|i: int| 0 <= i < r.len() implies list.contains(#[trigger] r[i]) by {
            if i < before.len() {
                assert(r[i] == before[i]);
                let k = choose|k: int| 0 <= k < shorter.len() && shorter[k] == before[i];
                assert(list[k] == r[i]);
            } else {
                assert(list[list.len() - 1] == r[i]);
            }
        }
        assert forall|i: int| 0 <= i < list.len() implies listed(r, (#[trigger] list[i])@) by {
            if i < shorter.len() {
                assert(shorter[i] == list[i]);
                let k = choose|k: int| 0 <= k < before.len() && (#[trigger] before[k])@
                    == list[i]@;
                assert(r[k]@ == list[i]@);
            } else if !listed(before, list.last()@) {
                assert(r[r.len() - 1]@ == list[i]@);
            }
        }
        assert forall|i: int, j: int| 0 <= i < j < r.len() implies (#[trigger] r[i])@ != (
        #[trigger] r[j])@ by {
            if j < before.len() {
                assert(r[i] == before[i] && r[j] == before[j]);
            } else {
                assert(r[i] == before[i]);
            }
        }
    }
}

/// The input files are numbered in the order of their paths, and each of them once, however
/// often and in whatever order it was found.
pub proof fn law_inputs_are_sorted_without_repeats(found: Seq<SysPath>)
    ensures
        forall|i: int, j: int|
            0 <= i < j < by_path(first_seen(found)).len() ==> path_before(
                (#[trigger] by_path(first_seen(found))[i])@,
                (#[trigger] by_path(first_seen(found))[j])@,
            ),
        forall|path: Seq<Seq<u8>>|
            listed(found, path) <==> #[trigger] listed(by_path(first_seen(found)), path),
{
    broadcast use vstd::seq_lib::group_to_multiset_ensures;

    let once = first_seen(found);
    let sorted = by_path(once);
    lemma_first_seen(found);
    law_sorting_orders_and_keeps_all(once);
    lemma_path_order();
    lemma_distinct_views(once);
    once.lemma_multiset_has_no_duplicates();
    sorted.lemma_multiset_has_no_duplicates_conv();
    assert forall|i: int| 0 <= i < sorted.len() implies once.contains(#[trigger] sorted[i]) by {
        assert(sorted.contains(sorted[i]));
        assert(sorted.to_multiset().count(sorted[i]) > 0);
    }
    assert forall|i: int, j: int| 0 <= i < j < sorted.len() implies path_before(
        (#[trigger] sorted[i])@,
        (#[trigger] sorted[j])@,
    ) by {
        assert(!path_before(sorted[j].place(), sorted[i].place()));
        assert(sorted[i] != sorted[j]);
        let a = choose|a: int| 0 <= a < once.len() && once[a] == sorted[i];
        let b = choose|b: int| 0 <= b < once.len() && once[b] == sorted[j];
        assert(once[a]@ != once[b]@);
    }
    assert forall|path: Seq<Seq<u8>>| listed(found, path) <==> #[trigger] listed(sorted, path) by {
        if listed(found, path) {
            let i = choose|i: int| 0 <= i < found.len() && (#[trigger] found[i])@ == path;
            let k = choose|k: int| 0 <= k < once.len() && (#[trigger] once[k])@ == found[i]@;
            assert(once.contains(once[k]));
            assert(sorted.to_multiset().count(once[k]) > 0);
            let m = choose|m: int| 0 <= m < sorted.len() && sorted[m] == once[k];
            assert(sorted[m]@ == path);
        }
        if listed(sorted, path) {
            let m = choose|m: int| 0 <= m < sorted.len() && (#[trigger] sorted[m])@ == path;
            let k = choose|k: int| 0 <= k < once.len() && once[k] == sorted[m];
            assert(found.contains(once[k]));
            let i = choose|i: int| 0 <= i < found.len() && found[i] == once[k];
            assert(found[i]@ == path);
        }
    }
}

proof fn lemma_distinct_views(s: Seq<SysPath>)
    requires
        forall|i: int, j: int|
            0 <= i < j < s.len() ==> (#[trigger] s[i])@ != (#[trigger] s[j])@,
    ensures
        s.no_duplicates(),
{
}

/// Each fan is named by a position of the list.
proof fn lemma_fan_number(inputs: Seq<SysPath>, i: int) -> (k: nat)
    requires
        0 <= i < fan_list(inputs).len(),
    ensures
        k < inputs.len(),
        fan_list(inputs)[i].0 == fan_name(k),
    decreases inputs.len(),
{
    if i < fan_list(inputs.drop_last()).len() {
        lemma_fan_number(inputs.drop_last(), i)
    } else {
        (inputs.len() - 1) as nat
    }
}

/// No two fans have the same name.
pub proof fn law_fan_names_are_distinct(inputs: Seq<SysPath>, i: int, j: int)
    requires
        0 <= i < j < fan_list(inputs).len(),
    ensures
        fan_list(inputs)[i].0 != fan_list(inputs)[j].0,
    decreases inputs.len(),
{
    let before = fan_list(inputs.drop_last());
    let list = fan_list(inputs);
    if j < before.len() {
        law_fan_names_are_distinct(inputs.drop_last(), i, j);
        assert(list[i] == before[i] && list[j] == before[j]);
    } else {
        let k = lemma_fan_number(inputs.drop_last(), i);
        assert(list[i] == before[i]);
        let last = (inputs.len() - 1) as nat;
        assert(list[j].0 == fan_name(last));
        if fan_name(k) == fan_name(last) {
            let n = "fan"@.len() as int;
            assert(fan_name(k).skip(n) == decimal(k));
            assert(fan_name(last).skip(n) == decimal(last));
            law_decimal_is_injective(k, last);
        }
    }
}

/// A file more in the sorted list gives a fan behind the others if its name ends in `_input`,
/// numbered by its place in the list, with the path of the file without that ending; another
/// gives none.
pub proof fn law_fans_are_numbered_by_their_place(inputs: Seq<SysPath>, input: SysPath)
    ensures
        fan_list(Seq::<SysPath>::empty()) == Seq::<(Seq<char>, Seq<Seq<u8>>)>::empty(),
        path_stem(input@) is None ==> fan_list(inputs.push(input)) == fan_list(inputs),
        path_stem(input@) matches Some(stem) ==> fan_list(inputs.push(input)) == fan_list(
            inputs,
        ).push(("fan"@ + decimal(inputs.len()), renamed(input@, stem))),
{
    assert(inputs.push(input).drop_last() =~= inputs);
}

/// The path of a fan lies in the directory of its input file and is named as the file without
/// `_input`.
pub proof fn law_fan_lies_beside_its_input(directory: Seq<Seq<u8>>, stem: Seq<u8>)
    requires
        stem.len() > 0,
        stem != seq![46u8],
        !stem.contains(47u8),
        valid_utf8(stem + encode_utf8("_input"@)),
    ensures
        ({
            let input = directory.push(stem + encode_utf8("_input"@));
            path_stem(input) == Some(stem) && renamed(input, stem) == directory.push(stem)
        }),
{
    let name = stem + encode_utf8("_input"@);
    let input = directory.push(name);
    law_stem_stands_before_input(input, stem);
    law_components_are_the_names_between_slashes(Seq::empty(), stem);
    assert(stem.contains(stem[0]));
    law_renaming_keeps_the_directory(directory, name, stem);
    if name == seq![46u8, 46u8] {
        law_file_name_is_the_last_component(directory, name);
        assert(file_name_of(input) is None);
    }
    assert(directory + seq![stem] =~= directory.push(stem));
}

} // verus!
