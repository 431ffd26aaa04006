//! Sensor names and the store of the latest data window of each sensor.
//!
//! Each simulated sensor is named after its number. The query worker fetches
//! the readings of the recent minutes, one window per sensor name, and merges
//! them into the store that the dashboard draws from; the payload of a window
//! is left generic.
use crate::decimal::{decimal, digits_value, is_digit, push_decimal};
use vstd::prelude::*;
use vstd::string::StringExecFns;

verus! {

/// The name of the sensor with number `i`: `sensor-` followed by `i` in decimal.
pub open spec fn sensor_name_spec(i: nat) -> Seq<char> {
    "sensor-"@ + decimal(i)
}

/// The name of the sensor with number `i`.
pub fn sensor_name(i: usize) -> (name: String)
    ensures
        name@ == sensor_name_spec(i as nat),
{
    let mut name = String::from_str("sensor-");
    push_decimal(&mut name, i as u64);
    name
}

/// The names of the sensors numbered `0` to `count - 1`, in that order.
pub fn sensor_names(count: usize) -> (names: Vec<String>)
    ensures
        names.len() == count,
        forall|i: int| 0 <= i < count ==> #[trigger] names[i]@ == sensor_name_spec(i as nat),
{
    let mut names: Vec<String> = Vec::new();
    for i in 0..count
        invariant
            names.len() == i,
            forall|j: int| 0 <= j < i ==> #[trigger] names[j]@ == sensor_name_spec(j as nat),
    {
        names.push(sensor_name(i));
    }
    names
}

/// Distinct sensors have distinct names.
pub proof fn lemma_sensor_names_distinct(a: nat, b: nat)
    requires
        sensor_name_spec(a) == sensor_name_spec(b),
    ensures
        a == b,
{
    let p = "sensor-"@;
    assert(sensor_name_spec(a).skip(p.len() as int) =~= decimal(a));
    assert(sensor_name_spec(b).skip(p.len() as int) =~= decimal(b));
    crate::decimal::lemma_decimal_injective(a, b);
}

/// The name of sensor `i` is `sensor-` followed by the standard decimal
/// notation of `i`: digits only, no leading zero, and reading them back in
/// base ten gives `i`.
pub proof fn lemma_sensor_name_reads_back(i: nat)
    ensures
        ({
            let s = sensor_name_spec(i);
            &&& s.len() >= 8
            &&& s.take(7) == seq!['s', 'e', 'n', 's', 'o', 'r', '-']
            &&& forall|j: int| 7 <= j < s.len() ==> is_digit(#[trigger] s[j])
            &&& digits_value(s.skip(7)) == i
            &&& s[7] == '0' ==> i == 0 && s.len() == 8
        }),
{
    reveal_strlit("sensor-");
    let s = sensor_name_spec(i);
    let p = "sensor-"@;
    assert(p.len() == 7);
    crate::decimal::lemma_decimal_reads_back(i);
    assert(s.skip(7) =~= decimal(i));
    assert(s.take(7) =~= seq!['s', 'e', 'n', 's', 'o', 'r', '-']);
    assert forall|j: int| 7 <= j < s.len() implies is_digit(#[trigger] s[j]) by {
        assert(s[j] == decimal(i)[j - 7]);
    }
    assert(s[7] == decimal(i)[0]);
}

/// The readings of one sensor over the recent minutes, as a query returns them.
pub struct SensorWindow<D> {
    pub sensor: String,
    pub values: D,
}

/// The latest data window of each sensor, found by the sensor's name.
pub struct SensorData<D> {
    windows: Vec<SensorWindow<D>>,
}

/// No two windows of `ws` belong to the same sensor.
pub open spec fn names_distinct<D>(ws: Seq<SensorWindow<D>>) -> bool {
    forall|i: int, j: int|
        0 <= i < ws.len() && 0 <= j < ws.len() && i != j ==> #[trigger] ws[i].sensor@
            != #[trigger] ws[j].sensor@
}

/// `ws` holds a window of the sensor named `name`.
pub open spec fn has_name<D>(ws: Seq<SensorWindow<D>>, name: Seq<char>) -> bool {
    exists|i: int| 0 <= i < ws.len() && #[trigger] ws[i].sensor@ == name
}

/// The position of the window of the sensor named `name` in `ws`.
pub open spec fn position_of<D>(ws: Seq<SensorWindow<D>>, name: Seq<char>) -> int {
    choose|i: int| 0 <= i < ws.len() && #[trigger] ws[i].sensor@ == name
}

/// The map from sensor names to window payloads that `ws` holds.
pub open spec fn windows_map<D>(ws: Seq<SensorWindow<D>>) -> Map<Seq<char>, D> {
    Map::new(|name: Seq<char>| has_name(ws, name), |name: Seq<char>| ws[position_of(ws, name)].values)
}

/// The map `m` after the windows of `ws` are stored in turn, each replacing
/// the one stored before under its sensor's name.
pub open spec fn stored_all<D>(m: Map<Seq<char>, D>, ws: Seq<SensorWindow<D>>) -> Map<Seq<char>, D>
    decreases ws.len(),
{
    if ws.len() == 0 {
        m
    } else {
        stored_all(m, ws.drop_last()).insert(ws.last().sensor@, ws.last().values)
    }
}

/// In a sequence of windows with distinct names, the window found for a name
/// is the one at the given position.
proof fn lemma_position_unique<D>(ws: Seq<SensorWindow<D>>, i: int)
    requires
        names_distinct(ws),
        0 <= i < ws.len(),
    ensures
        has_name(ws, ws[i].sensor@),
        position_of(ws, ws[i].sensor@) == i,
{
    assert(has_name(ws, ws[i].sensor@));
    let j = position_of(ws, ws[i].sensor@);
    assert(ws[j].sensor@ == ws[i].sensor@);
}

/// Storing a sequence of windows leaves, for each sensor, its last window in
/// the sequence; a sensor that has no window in the sequence keeps what was
/// stored for it before, or stays absent.
pub proof fn lemma_latest_window_wins<D>(m: Map<Seq<char>, D>, ws: Seq<SensorWindow<D>>)
    ensures
        forall|name: Seq<char>| #![trigger has_name(ws, name)] !has_name(ws, name) ==> {
            &&& stored_all(m, ws).dom().contains(name) == m.dom().contains(name)
            &&& m.dom().contains(name) ==> stored_all(m, ws)[name] == m[name]
        },
        forall|i: int|
            0 <= i < ws.len() && (forall|j: int| i < j < ws.len() ==> ws[j].sensor@ != ws[i].sensor@)
                ==> {
                &&& stored_all(m, ws).dom().contains(#[trigger] ws[i].sensor@)
                &&& stored_all(m, ws)[ws[i].sensor@] == ws[i].values
            },
    decreases ws.len(),
{
    if ws.len() > 0 {
        let init = ws.drop_last();
        lemma_latest_window_wins(m, init);
        assert forall|name: Seq<char>| #![trigger has_name(ws, name)] !has_name(ws, name) implies {
            &&& stored_all(m, ws).dom().contains(name) == m.dom().contains(name)
            &&& m.dom().contains(name) ==> stored_all(m, ws)[name] == m[name]
        } by {
            if has_name(init, name) {
                let i = position_of(init, name);
                assert(ws[i] == init[i]);
            }
            assert(ws[ws.len() - 1].sensor@ != name);
            assert(!has_name(init, name));
        }
        assert forall|i: int|
            0 <= i < ws.len() && (forall|j: int| i < j < ws.len() ==> ws[j].sensor@ != ws[i].sensor@)
            implies {
                &&& stored_all(m, ws).dom().contains(#[trigger] ws[i].sensor@)
                &&& stored_all(m, ws)[ws[i].sensor@] == ws[i].values
            } by {
            if i < ws.len() - 1 {
                assert(init[i] == ws[i]);
                assert forall|j: int| i < j < init.len() implies init[j].sensor@ != init[i].sensor@ by {
                    assert(init[j] == ws[j]);
                }
                assert(ws[ws.len() - 1].sensor@ != ws[i].sensor@);
            }
        }
    }
}

impl<D> View for SensorData<D> {
    type V = Map<Seq<char>, D>;

    closed spec fn view(&self) -> Map<Seq<char>, D> {
        windows_map(self.windows@)
    }
}

impl<D> SensorData<D> {
    #[verifier::type_invariant]
    spec fn names_are_distinct(self) -> bool {
        names_distinct(self.windows@)
    }

    /// An empty store.
    pub fn new() -> (data: Self)
        ensures
            data@ == Map::<Seq<char>, D>::empty(),
    {
        let data = SensorData { windows: Vec::new() };
        assert(data@ =~= Map::<Seq<char>, D>::empty());
        data
    }

    /// The position of the window of the sensor named `name`, if there is one.
    fn find(&self, name: &String) -> (pos: Option<usize>)
        ensures
            pos is Some <==> has_name(self.windows@, name@),
            pos matches Some(p) ==> p < self.windows.len() && self.windows@[p as int].sensor@
                == name@,
    {
        let mut i: usize = 0;
        while i < self.windows.len()
            invariant
                i <= self.windows.len(),
                forall|j: int| 0 <= j < i ==> #[trigger] self.windows@[j].sensor@ != name@,
            decreases self.windows.len() - i,
        {
            if self.windows[i].sensor == *name {
                return Some(i);
            }
            i += 1;
        }
        None
    }

    /// The window of the sensor named `name`, if the store has one.
    pub fn get(&self, name: &String) -> (window: Option<&SensorWindow<D>>)
        ensures
            window is Some <==> self@.dom().contains(name@),
            window matches Some(w) ==> w.sensor@ == name@ && w.values == self@[name@],
    {
        proof {
            use_type_invariant(self);
        }
        match self.find(name) {
            Some(p) => {
                proof {
                    lemma_position_unique(self.windows@, p as int);
                }
                Some(&self.windows[p])
            },
            None => None,
        }
    }

    /// Whether the store has a window of the sensor named `name`.
    pub fn contains(&self, name: &String) -> (found: bool)
        ensures
            found == self@.dom().contains(name@),
    {
        self.find(name).is_some()
    }

    /// Stores `window` under its sensor's name, replacing the window stored
    /// there before.
    pub fn insert(&mut self, window: SensorWindow<D>)
        ensures
            final(self)@ == old(self)@.insert(window.sensor@, window.values),
    {
        proof {
            use_type_invariant(&*self);
        }
        let ghost old_ws = self.windows@;
        let ghost key = window.sensor@;
        let ghost value = window.values;
        let pos = self.find(&window.sensor);
        let mut ws: Vec<SensorWindow<D>> = Vec::new();
        std::mem::swap(&mut ws, &mut self.windows);
        match pos {
            Some(p) => {
                ws.set(p, window);
                proof {
                    let new_ws = ws@;
                    assert(new_ws =~= old_ws.update(p as int, new_ws[p as int]));
                    assert(names_distinct(new_ws));
                    assert(windows_map(new_ws) =~= windows_map(old_ws).insert(key, value)) by {
                        lemma_position_unique(new_ws, p as int);
                        assert forall|name: Seq<char>| #[trigger] has_name(new_ws, name) <==> (has_name(old_ws, name) || name == key) by {
                            if has_name(new_ws, name) {
                                let j = position_of(new_ws, name);
                                if j != p {
                                    assert(old_ws[j].sensor@ == name);
                                }
                            }
                            if has_name(old_ws, name) {
                                let j = position_of(old_ws, name);
                                if j != p {
                                    assert(new_ws[j].sensor@ == name);
                                } else {
                                    assert(new_ws[p as int].sensor@ == name);
                                }
                            }
                        }
                        assert forall|name: Seq<char>| has_name(new_ws, name) && name != key implies
                            new_ws[position_of(new_ws, name)].values == old_ws[position_of(old_ws, name)].values by {
                            let j = position_of(new_ws, name);
                            assert(j != p);
                            assert(old_ws[j] == new_ws[j]);
                            lemma_position_unique(old_ws, j);
                        }
                    }
                }
            },
            None => {
                ws.push(window);
                proof {
                    let new_ws = ws@;
                    let n = old_ws.len() as int;
                    assert(names_distinct(new_ws)) by {
                        assert forall|i: int, j: int|
                            0 <= i < new_ws.len() && 0 <= j < new_ws.len() && i != j implies
                            #[trigger] new_ws[i].sensor@ != #[trigger] new_ws[j].sensor@ by {
                            if i == n {
                                assert(new_ws[j] == old_ws[j]);
                            } else if j == n {
                                assert(new_ws[i] == old_ws[i]);
                            } else {
                                assert(new_ws[i] == old_ws[i]);
                                assert(new_ws[j] == old_ws[j]);
                            }
                        }
                    }
                    assert(windows_map(new_ws) =~= windows_map(old_ws).insert(key, value)) by {
                        lemma_position_unique(new_ws, n);
                        assert forall|name: Seq<char>| #[trigger] has_name(new_ws, name) <==> (has_name(old_ws, name) || name == key) by {
                            if has_name(new_ws, name) {
                                let j = position_of(new_ws, name);
                                if j != n {
                                    assert(old_ws[j].sensor@ == name);
                                }
                            }
                            if has_name(old_ws, name) {
                                let j = position_of(old_ws, name);
                                assert(new_ws[j].sensor@ == name);
                            }
                        }
                        assert forall|name: Seq<char>| has_name(new_ws, name) && name != key implies
                            new_ws[position_of(new_ws, name)].values == old_ws[position_of(old_ws, name)].values by {
                            let j = position_of(new_ws, name);
                            assert(j != n);
                            assert(old_ws[j] == new_ws[j]);
                            lemma_position_unique(old_ws, j);
                        }
                    }
                }
            },
        }
        self.windows = ws;
    }

    /// Stores each of `windows` in turn, as the query worker does with the
    /// windows that one query returns.
    pub fn insert_windows(&mut self, windows: Vec<SensorWindow<D>>)
        ensures
            final(self)@ == stored_all(old(self)@, windows@),
    {
        let ghost ws = windows@;
        for win in it: windows.into_iter()
            invariant
                it.seq() == ws,
                self@ == stored_all(old(self)@, ws.take(it.index() as int)),
        {
            proof {
                assert(ws.take(it.index() + 1).drop_last() =~= ws.take(it.index() as int));
            }
            self.insert(win);
        }
        proof {
            assert(ws.take(ws.len() as int) =~= ws);
        }
    }
}

} // verus!
