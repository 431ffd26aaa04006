//! What the dashboard shows: which sensors get a graph and which graph is
//! highlighted, how much of a window a graph shows, and the texts beside the
//! graphs. Drawing itself happens outside the library.
use crate::app::App;
use crate::decimal::{decimal, push_decimal};
use crate::sensors::{sensor_name, sensor_name_spec, SensorData};
use vstd::prelude::*;
use vstd::string::StringExecFns;

verus! {

/// A graph on the left of the dashboard: the sensor it shows, and whether it
/// is the selected one and so drawn highlighted.
#[derive(Clone, Copy, Debug, PartialEq, Eq)]
pub struct SensorPanel {
    pub index: usize,
    pub selected: bool,
}

/// The graphs for the sensors numbered below `n`, in order: one for each
/// sensor that has data under its name in `names`.
pub open spec fn panels_below(n: nat, selected: usize, names: Set<Seq<char>>) -> Seq<SensorPanel>
    decreases n,
{
    if n == 0 {
        Seq::empty()
    } else {
        let earlier = panels_below((n - 1) as nat, selected, names);
        if names.contains(sensor_name_spec((n - 1) as nat)) {
            earlier.push(SensorPanel { index: (n - 1) as usize, selected: selected == n - 1 })
        } else {
            earlier
        }
    }
}

impl App {
    /// The graphs to draw: one for each of the configured sensors whose data
    /// the store holds, in the order of their numbers; the graph of the
    /// selected sensor is highlighted.
    pub fn sensor_panels<D>(&self, data: &SensorData<D>) -> (panels: Vec<SensorPanel>)
        ensures
            panels@ == panels_below(self.sensor_count as nat, self.selected_sensor, data@.dom()),
    {
        let mut panels: Vec<SensorPanel> = Vec::new();
        for i in 0..self.sensor_count
            invariant
                panels@ == panels_below(i as nat, self.selected_sensor, data@.dom()),
        {
            let name = sensor_name(i);
            if data.contains(&name) {
                panels.push(SensorPanel { index: i, selected: self.selected_sensor == i });
            }
        }
        panels
    }
}

/// The graphs are in the order of their sensors' numbers, each for a
/// configured sensor with data; every configured sensor with data has one;
/// exactly the graph of the selected sensor is highlighted.
pub proof fn lemma_panels_shape(n: nat, selected: usize, names: Set<Seq<char>>)
    requires
        n <= usize::MAX + 1,
    ensures
        ({
            let p = panels_below(n, selected, names);
            &&& forall|i: int, j: int| 0 <= i < j < p.len() ==> p[i].index < p[j].index
            &&& forall|i: int| 0 <= i < p.len() ==> {
                &&& #[trigger] p[i].index < n
                &&& names.contains(sensor_name_spec(p[i].index as nat))
                &&& p[i].selected == (p[i].index == selected)
            }
            &&& forall|k: nat| k < n && names.contains(sensor_name_spec(k)) ==> exists|i: int|
                0 <= i < p.len() && #[trigger] p[i].index == k
        }),
    decreases n,
{
    if n > 0 {
        lemma_panels_shape((n - 1) as nat, selected, names);
        let e = panels_below((n - 1) as nat, selected, names);
        let p = panels_below(n, selected, names);
        if names.contains(sensor_name_spec((n - 1) as nat)) {
            assert(p[p.len() - 1].index == n - 1);
            assert forall|i: int| 0 <= i < e.len() implies p[i] == e[i] by {}
            assert forall|k: nat| k < n && names.contains(sensor_name_spec(k)) implies exists|i: int|
                0 <= i < p.len() && #[trigger] p[i].index == k by {
                if k == n - 1 {
                    assert(p[p.len() - 1].index == k);
                } else {
                    let i = choose|i: int| 0 <= i < e.len() && #[trigger] e[i].index == k;
                    assert(p[i].index == k);
                }
            }
        }
    }
}

/// Where the part of a window of `len` readings that a graph `graph_width`
/// cells wide shows begins: the graph shows the last `graph_width - 2`
/// readings, or all of them when there are fewer.
pub fn graph_tail_start(len: usize, graph_width: usize) -> (start: usize)
    requires
        graph_width >= 2,
    ensures
        start == if len <= graph_width - 2 { 0 } else { len - (graph_width - 2) },
{
    let shown = graph_width - 2;
    if len <= shown {
        0
    } else {
        len - shown
    }
}

/// The first line of the help panel.
pub const HELP_LINE: &'static str = "Press `Esc`, `Ctrl-C` or `q` to stop running.\n";

/// The text of the panel on the lower right: how to quit, the length of the
/// data window, the selected sensor and the number of sensors.
pub fn status_text(window_in_minutes: u32, selected: usize, sensor_count: usize) -> (text: String)
    ensures
        text@ == HELP_LINE@ + "Data window in minutes: "@ + decimal(window_in_minutes as nat)
            + "\nSelected: "@ + decimal(selected as nat) + "\nSensor count: "@ + decimal(
            sensor_count as nat,
        ),
{
    let mut text = String::from_str(HELP_LINE);
    text.append("Data window in minutes: ");
    push_decimal(&mut text, window_in_minutes as u64);
    text.append("\nSelected: ");
    push_decimal(&mut text, selected as u64);
    text.append("\nSensor count: ");
    push_decimal(&mut text, sensor_count as u64);
    text
}

/// The title of the panel of averages on the upper right, which names how
/// often the averages are queried.
pub fn averages_title(query_delay_ms: u64) -> (title: String)
    ensures
        title@ == "Last minute averages (query every "@ + decimal(query_delay_ms as nat) + "ms)"@,
{
    let mut title = String::from_str("Last minute averages (query every ");
    push_decimal(&mut title, query_delay_ms);
    title.append("ms)");
    title
}

} // verus!
