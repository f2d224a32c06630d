//! What the screen shows, apart from drawing it: gauge colours, value
//! colours, labels and the layout sizes that depend on the snapshot.

use vstd::prelude::*;
use crate::text::{decimal, push_decimal, string_push};
use crate::float_bits::{cpu_usage_text, f32_bits_to_u16, f32_one_decimal, f32_to_u16};
use crate::memory::{format_memory, memory_text};
use crate::system_information::ProcessInformation;

verus! {

/// The colour of a gauge or of a value in the table.
#[derive(Clone, Copy, Debug, PartialEq, Eq, Structural)]
pub enum GaugeColor {
    Green,
    Yellow,
    Red,
}

/// The number of columns in which the per-core gauges are laid out.
pub const CORE_COLUMNS: usize = 2;

/// The colour of a gauge filled to `percent`: green up to 50, yellow up to
/// 75, red above.
pub fn gauge_color(percent: u16) -> (color: GaugeColor)
    ensures
        color == (if percent <= 50 { GaugeColor::Green } else if percent <= 75 { GaugeColor::Yellow } else { GaugeColor::Red }),
{
    if percent <= 50 {
        GaugeColor::Green
    } else if percent <= 75 {
        GaugeColor::Yellow
    } else {
        GaugeColor::Red
    }
}

/// The colour of a process's CPU usage, given as whole percent (the usage
/// cut to an integer): green up to 10, yellow up to 50, red above.
pub fn cpu_value_color(usage: u16) -> (color: GaugeColor)
    ensures
        color == cpu_color_of(usage),
{
    if usage <= 10 {
        GaugeColor::Green
    } else if usage <= 50 {
        GaugeColor::Yellow
    } else {
        GaugeColor::Red
    }
}

/// The colour of a process's memory of `bytes` bytes, by whole mebibytes:
/// green up to 500, yellow up to 2000, red above.
pub fn mem_value_color(bytes: u64) -> (color: GaugeColor)
    ensures
        color == memory_color_of(bytes),
{
    let mb = bytes / (1024 * 1024);
    if mb <= 500 {
        GaugeColor::Green
    } else if mb <= 2000 {
        GaugeColor::Yellow
    } else {
        GaugeColor::Red
    }
}

/// The label inside a gauge: the percentage followed by `%`, as `"42%"`.
pub fn percent_label(percent: u16) -> (label: String)
    ensures
        label@ == decimal(percent as nat).push('%'),
{
    let mut label = String::new();
    push_decimal(&mut label, percent as u128);
    string_push(&mut label, '%');
    assert(label@ =~= decimal(percent as nat).push('%'));
    label
}

/// The title of the gauge of core `index`, as `"C3"`.
pub fn core_label(index: usize) -> (label: String)
    ensures
        label@ == seq!['C'] + decimal(index as nat),
{
    let mut label = String::new();
    string_push(&mut label, 'C');
    push_decimal(&mut label, index as u128);
    label
}

/// The height of the top panel for `core_count` cores: three lines for
/// each row of two core gauges, and at least three.
pub fn top_panel_height(core_count: u16) -> (height: u16)
    requires
        core_count < u16::MAX,
        (core_count + 1) / 2 * 3 <= u16::MAX,
    ensures
        height == (if (core_count + 1) / 2 * 3 >= 3 { (core_count + 1) / 2 * 3 } else { 3 }),
{
    let rows = (core_count + 1) / 2;
    let height = rows * 3;
    if height >= 3 { height } else { 3 }
}

/// The cores whose gauges stand in column `column`: those whose index
/// leaves `column` when divided by the number of columns, in order.
pub fn column_cores(core_count: usize, column: usize) -> (cores: Vec<usize>)
    ensures
        forall|j: int| 0 <= j < cores@.len() ==> #[trigger] cores@[j] < core_count
            && cores@[j] % CORE_COLUMNS == column,
        forall|a: int, b: int| 0 <= a < b < cores@.len() ==> #[trigger] cores@[a] < #[trigger] cores@[b],
        forall|i: usize| i < core_count && i % CORE_COLUMNS == column ==> cores@.contains(i),
{
    let mut cores: Vec<usize> = Vec::new();
    let mut i: usize = 0;
    while i < core_count
        invariant
            i <= core_count,
            forall|j: int| 0 <= j < cores@.len() ==> #[trigger] cores@[j] < i
                && cores@[j] % CORE_COLUMNS == column,
            forall|a: int, b: int| 0 <= a < b < cores@.len() ==> #[trigger] cores@[a] < #[trigger] cores@[b],
            forall|x: usize| x < i && x % CORE_COLUMNS == column ==> cores@.contains(x),
        decreases core_count - i,
    {
        let ghost before = cores@;
        if i % CORE_COLUMNS == column {
            cores.push(i);
            assert(cores@[cores@.len() - 1] == i);
            assert forall|x: usize| x < i && x % CORE_COLUMNS == column implies cores@.contains(x) by {
                assert(before.contains(x));
                let w = choose|w: int| 0 <= w < before.len() && before[w] == x;
                assert(cores@[w] == x);
            }
        }
        i = i + 1;
    }
    cores
}

/// The cells of one row of the process table.
pub struct ProcessRow {
    /// The process identifier in decimal.
    pub pid: String,
    pub name: String,
    /// The CPU usage with one decimal and a percent sign.
    pub cpu: String,
    pub cpu_color: GaugeColor,
    /// The memory in a human-readable unit.
    pub memory: String,
    pub memory_color: GaugeColor,
}

/// The colour of a CPU usage of `usage` whole percent.
pub open spec fn cpu_color_of(usage: u16) -> GaugeColor {
    if usage <= 10 { GaugeColor::Green } else if usage <= 50 { GaugeColor::Yellow } else { GaugeColor::Red }
}

/// The colour of a memory of `bytes` bytes.
pub open spec fn memory_color_of(bytes: u64) -> GaugeColor {
    let mb = bytes / 1048576;
    if mb <= 500 { GaugeColor::Green } else if mb <= 2000 { GaugeColor::Yellow } else { GaugeColor::Red }
}

/// The row of the process table that shows `p`: its identifier, its name,
/// its CPU usage with one decimal (coloured by its whole percent) and its
/// memory in a human-readable unit (coloured by its size).
pub fn process_row(p: &ProcessInformation) -> (row: ProcessRow)
    ensures
        row.pid@ == decimal(p.pid as nat),
        row.name@ == p.name@,
        row.cpu@ == f32_one_decimal(p.cpu_usage_bits).push('%'),
        row.cpu_color == cpu_color_of(f32_to_u16(p.cpu_usage_bits)),
        row.memory@ == memory_text(p.memory_usage),
        row.memory_color == memory_color_of(p.memory_usage),
{
    let mut pid = String::new();
    push_decimal(&mut pid, p.pid as u128);
    ProcessRow {
        pid,
        name: p.name.clone(),
        cpu: cpu_usage_text(p.cpu_usage_bits),
        cpu_color: cpu_value_color(f32_bits_to_u16(p.cpu_usage_bits)),
        memory: format_memory(p.memory_usage),
        memory_color: mem_value_color(p.memory_usage),
    }
}

/// The title of the filter box: `"Filter"` while the filter is typed,
/// else a reminder of the keys that set and clear it.
pub fn filter_title(is_editing: bool) -> (title: &'static str)
    ensures
        is_editing ==> title@ == "Filter"@,
        !is_editing ==> title@ == "Filter (f - filter, c - clear)"@,
{
    if is_editing { "Filter" } else { "Filter (f - filter, c - clear)" }
}

/// The colour of a process's memory follows its size in bytes, whatever
/// the size: below 501 MiB green, from 501 MiB to below 2001 MiB yellow,
/// from 2001 MiB on red.
pub proof fn lemma_memory_color_thresholds(bytes: u64)
    ensures
        bytes < 501 * 1048576 ==> memory_color_of(bytes) == GaugeColor::Green,
        501 * 1048576 <= bytes < 2001 * 1048576 ==> memory_color_of(bytes) == GaugeColor::Yellow,
        bytes >= 2001 * 1048576 ==> memory_color_of(bytes) == GaugeColor::Red,
{
}

/// The colour of a CPU usage follows its whole percent: up to 10 green, up
/// to 50 yellow, above red; and the colour never gets lighter as the usage
/// grows.
pub proof fn lemma_cpu_color_thresholds(usage: u16, more: u16)
    ensures
        usage <= 10 ==> cpu_color_of(usage) == GaugeColor::Green,
        10 < usage <= 50 ==> cpu_color_of(usage) == GaugeColor::Yellow,
        usage > 50 ==> cpu_color_of(usage) == GaugeColor::Red,
        usage <= more && cpu_color_of(usage) == GaugeColor::Red ==> cpu_color_of(more) == GaugeColor::Red,
        usage <= more && cpu_color_of(more) == GaugeColor::Green ==> cpu_color_of(usage) == GaugeColor::Green,
{
}

} // verus!
