//! The questions of the wizard.
use vstd::prelude::*;

use crate::text::{decimal, decimal_text, texts};

verus! {

/// The question for a line of text.
pub open spec fn line_question(prompt: Seq<char>, default: Seq<char>) -> Seq<char> {
    prompt + " ["@ + default + "]: "@
}

/// The question for a line of text.
pub fn ask_line(prompt: &str, default: &str) -> (r: String)
    ensures
        r@ == line_question(prompt@, default@),
{
    let mut out = prompt.to_string();
    out.append(" [");
    out.append(default);
    out.append("]: ");
    out
}

/// The line of an option, the first with number one.
pub open spec fn option_line(idx: int, option: Seq<char>, default_idx: int) -> Seq<char> {
    "  "@ + decimal((idx + 1) as nat) + ") "@ + option + if idx == default_idx {
        " (default)\n"@
    } else {
        "\n"@
    }
}

/// The lines of the options.
pub open spec fn option_lines(options: Seq<Seq<char>>, default_idx: int) -> Seq<char>
    decreases options.len(),
{
    if options.len() == 0 {
        Seq::empty()
    } else {
        option_lines(options.drop_last(), default_idx) + option_line(
            options.len() - 1,
            options.last(),
            default_idx,
        )
    }
}

/// The question for one of the options.
pub open spec fn selection_question(
    prompt: Seq<char>,
    options: Seq<Seq<char>>,
    default_idx: int,
) -> Seq<char> {
    prompt + "\n"@ + option_lines(options, default_idx) + "Selection ["@ + decimal(
        (default_idx + 1) as nat,
    ) + "]: "@
}

/// The question for one of the options.
pub fn ask_selection(prompt: &str, options: &Vec<String>, default_idx: usize) -> (r: String)
    requires
        default_idx < usize::MAX,
    ensures
        r@ == selection_question(prompt@, texts(options@), default_idx as int),
{
    let ghost all = texts(options@);
    let mut out = prompt.to_string();
    out.append("\n");
    let ghost start = out@;
    let mut i: usize = 0;
    assert(all.take(0) == Seq::<Seq<char>>::empty());
    assert(out@ =~= start + option_lines(all.take(0), default_idx as int));
    while i < options.len()
        invariant
            i <= options.len(),
            all == texts(options@),
            out@ == start + option_lines(all.take(i as int), default_idx as int),
        decreases options.len() - i,
    {
        assert(all.take(i + 1).drop_last() == all.take(i as int));
        assert(all.take(i + 1).last() == options@[i as int]@);
        let ghost had = out@;
        out.append("  ");
        out.append(decimal_text(i as u64 + 1).as_str());
        out.append(") ");
        out.append(options[i].as_str());
        if i == default_idx {
            out.append(" (default)\n");
        } else {
            out.append("\n");
        }
        assert(out@ =~= had + option_line(i as int, options@[i as int]@, default_idx as int));
        assert(out@ =~= start + option_lines(all.take(i + 1), default_idx as int));
        i = i + 1;
    }
    assert(all.take(i as int) == all);
    out.append("Selection [");
    out.append(decimal_text(default_idx as u64 + 1).as_str());
    out.append("]: ");
    out
}

/// What stands before the first question.
pub open spec fn heading(sensors: nat, fans: nat) -> Seq<char> {
    "\n=== macprot2fans Configuration Wizard ===\n\nDiscovered "@ + decimal(sensors)
        + " sensor(s), "@ + decimal(fans) + " fan(s).\n\n── Global Defaults ──\n"@
}

/// What stands before the first question.
pub fn heading_text(sensors: usize, fans: usize) -> (r: String)
    ensures
        r@ == heading(sensors as nat, fans as nat),
{
    let mut out = "\n=== macprot2fans Configuration Wizard ===\n\nDiscovered ".to_string();
    out.append(decimal_text(sensors as u64).as_str());
    out.append(" sensor(s), ");
    out.append(decimal_text(fans as u64).as_str());
    out.append(" fan(s).\n\n── Global Defaults ──\n");
    out
}

/// What stands before the questions about a fan.
pub open spec fn fan_heading(name: Seq<char>) -> Seq<char> {
    "\n── "@ + name + " ──\n"@
}

/// What stands before the questions about a fan.
pub fn fan_heading_text(name: &str) -> (r: String)
    ensures
        r@ == fan_heading(name@),
{
    let mut out = "\n── ".to_string();
    out.append(name);
    out.append(" ──\n");
    out
}

/// The lines of the sensors, the first with number one.
pub open spec fn sensor_lines(names: Seq<Seq<char>>) -> Seq<char>
    decreases names.len(),
{
    if names.len() == 0 {
        Seq::empty()
    } else {
        sensor_lines(names.drop_last()) + "    "@ + decimal(names.len()) + ") "@ + names.last()
            + "\n"@
    }
}

/// What stands before the question for the sensors of a fan.
pub fn sensor_list_text(names: &Vec<String>) -> (r: String)
    ensures
        r@ == "  Available sensors:\n"@ + sensor_lines(texts(names@)),
{
    let ghost all = texts(names@);
    let mut out = "  Available sensors:\n".to_string();
    let ghost start = out@;
    let mut i: usize = 0;
    assert(all.take(0) == Seq::<Seq<char>>::empty());
    assert(out@ =~= start + sensor_lines(all.take(0)));
    while i < names.len()
        invariant
            i <= names.len(),
            all == texts(names@),
            out@ == start + sensor_lines(all.take(i as int)),
        decreases names.len() - i,
    {
        assert(all.take(i + 1).drop_last() == all.take(i as int));
        assert(all.take(i + 1).last() == names@[i as int]@);
        out.append("    ");
        out.append(decimal_text(i as u64 + 1).as_str());
        out.append(") ");
        out.append(names[i].as_str());
        out.append("\n");
        assert(out@ =~= start + sensor_lines(all.take(i + 1)));
        i = i + 1;
    }
    assert(all.take(i as int) == all);
    out
}

} // verus!
