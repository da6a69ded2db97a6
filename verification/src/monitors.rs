//! Monitor enumeration: filtering active display devices into a name map.
//!
//! The OS hands over a snapshot of display devices, each with its device
//! name, its adapter description and its state flags.  Only active devices
//! are monitors a mode change can target; the library keeps them in a small
//! map from device name to description, mirroring how the enumeration is
//! cached and offered for selection.

use vstd::prelude::*;

verus! {

/// State flag bit that marks a display device as active.
pub const DISPLAY_DEVICE_ACTIVE: u32 = 1;

/// One display device as enumerated by the OS: device name, adapter
/// description, and the raw state flags.
#[derive(Debug)]
pub struct DisplayDevice {
    pub device_name: String,
    pub device_string: String,
    pub state_flags: u32,
}

/// Whether a device's state flags mark it active.
pub open spec fn spec_device_active(d: DisplayDevice) -> bool {
    d.state_flags & DISPLAY_DEVICE_ACTIVE != 0
}

/// The map that a sequence of (name, description) entries stands for; a later
/// entry with the same name wins.
pub open spec fn map_of_entries(entries: Seq<(String, String)>) -> Map<Seq<char>, Seq<char>>
    decreases entries.len(),
{
    if entries.len() == 0 {
        Map::empty()
    } else {
        map_of_entries(entries.drop_last()).insert(entries.last().0@, entries.last().1@)
    }
}

/// No two entries share a device name.
pub open spec fn distinct_keys(entries: Seq<(String, String)>) -> bool {
    forall|i: int, j: int|
        0 <= i < j < entries.len() ==> entries[i].0@ != entries[j].0@
}

/// The monitors map: device name to adapter description.  Entries are kept in
/// insertion order with unique names, and the map it stands for is its view.
#[derive(Debug)]
pub struct MonitorMap {
    pub entries: Vec<(String, String)>,
}

impl View for MonitorMap {
    type V = Map<Seq<char>, Seq<char>>;

    open spec fn view(&self) -> Map<Seq<char>, Seq<char>> {
        map_of_entries(self.entries@)
    }
}

/// A name is in the map exactly when some entry carries it.
pub proof fn lemma_map_of_entries_contains(entries: Seq<(String, String)>, k: Seq<char>)
    ensures
        map_of_entries(entries).contains_key(k) <==> exists|i: int|
            0 <= i < entries.len() && entries[i].0@ == k,
    decreases entries.len(),
{
    if entries.len() > 0 {
        lemma_map_of_entries_contains(entries.drop_last(), k);
        if map_of_entries(entries).contains_key(k) {
            if entries.last().0@ != k {
                let i = choose|i: int|
                    0 <= i < entries.drop_last().len() && entries.drop_last()[i].0@ == k;
                assert(entries[i].0@ == k);
            }
        }
        if exists|i: int| 0 <= i < entries.len() && entries[i].0@ == k {
            let i = choose|i: int| 0 <= i < entries.len() && entries[i].0@ == k;
            if i < entries.len() - 1 {
                assert(entries.drop_last()[i].0@ == k);
            }
        }
    }
}

/// With unique names, the map holds exactly one pair per entry.
pub proof fn lemma_map_of_entries_len(entries: Seq<(String, String)>)
    requires
        distinct_keys(entries),
    ensures
        map_of_entries(entries).dom().finite(),
        map_of_entries(entries).len() == entries.len(),
    decreases entries.len(),
{
    broadcast use vstd::set::axiom_set_insert_len;

    if entries.len() > 0 {
        let prefix = entries.drop_last();
        assert(distinct_keys(prefix)) by {
            assert(forall|i: int, j: int|
                0 <= i < j < prefix.len() ==> prefix[i].0@ == entries[i].0@ && prefix[j].0@
                    == entries[j].0@);
        }
        lemma_map_of_entries_len(prefix);
        lemma_map_of_entries_contains(prefix, entries.last().0@);
        assert(forall|i: int|
            0 <= i < prefix.len() ==> entries[i].0@ != entries.last().0@);
        assert(!map_of_entries(prefix).contains_key(entries.last().0@));
    }
}

/// Replacing the value of the entry that carries `k` updates the map at `k`.
proof fn lemma_map_of_entries_update(
    entries: Seq<(String, String)>,
    idx: int,
    k: String,
    v: String,
)
    requires
        distinct_keys(entries),
        0 <= idx < entries.len(),
        entries[idx].0@ == k@,
    ensures
        map_of_entries(entries.update(idx, (k, v))) == map_of_entries(entries).insert(k@, v@),
    decreases entries.len(),
{
    let updated = entries.update(idx, (k, v));
    if idx == entries.len() - 1 {
        assert(updated.drop_last() =~= entries.drop_last());
        assert(map_of_entries(updated) =~= map_of_entries(entries).insert(k@, v@));
    } else {
        let prefix = entries.drop_last();
        assert(distinct_keys(prefix));
        lemma_map_of_entries_update(prefix, idx, k, v);
        assert(updated.drop_last() =~= prefix.update(idx, (k, v)));
        assert(updated.last() == entries.last());
        // the two inserts commute because the names differ
        assert(entries.last().0@ != k@);
        assert(map_of_entries(updated) =~= map_of_entries(entries).insert(k@, v@));
    }
}

impl MonitorMap {
    /// Entries carry unique device names.
    pub open spec fn wf(self) -> bool {
        distinct_keys(self.entries@)
    }

    /// An empty map.
    pub fn new() -> (m: Self)
        ensures
            m.wf(),
            m@ == Map::<Seq<char>, Seq<char>>::empty(),
            m.entries@.len() == 0,
    {
        MonitorMap { entries: Vec::new() }
    }

    /// How many monitors the map holds.
    pub fn len(&self) -> (n: usize)
        requires
            self.wf(),
        ensures
            n == self@.len(),
            n == self.entries@.len(),
    {
        proof {
            lemma_map_of_entries_len(self.entries@);
        }
        self.entries.len()
    }

    /// Inserts a monitor, replacing the description if the name is present.
    pub fn insert(&mut self, name: String, description: String)
        requires
            old(self).wf(),
        ensures
            final(self).wf(),
            final(self)@ == old(self)@.insert(name@, description@),
    {
        let n = self.entries.len();
        let mut i: usize = 0;
        while i < n
            invariant
                n == self.entries@.len(),
                self.wf(),
                *self == *old(self),
                forall|j: int| 0 <= j < i ==> self.entries@[j].0@ != name@,
            decreases n - i,
        {
            if self.entries[i].0 == name {
                proof {
                    lemma_map_of_entries_update(self.entries@, i as int, name, description);
                }
                self.entries.set(i, (name, description));
                return ;
            }
            i += 1;
        }
        self.entries.push((name, description));
        proof {
            assert(self.entries@.drop_last() =~= old(self).entries@);
        }
    }

    /// Looks a monitor up by device name.
    pub fn get(&self, name: &String) -> (r: Option<&String>)
        requires
            self.wf(),
        ensures
            match r {
                Some(d) => self@.contains_key(name@) && self@[name@] == d@,
                None => !self@.contains_key(name@),
            },
    {
        proof {
            lemma_map_of_entries_contains(self.entries@, name@);
        }
        let n = self.entries.len();
        let mut i: usize = 0;
        while i < n
            invariant
                n == self.entries@.len(),
                self.wf(),
                forall|j: int| 0 <= j < i ==> self.entries@[j].0@ != name@,
            decreases n - i,
        {
            if self.entries[i].0 == *name {
                proof {
                    lemma_map_of_entries_value(self.entries@, i as int);
                }
                return Some(&self.entries[i].1);
            }
            i += 1;
        }
        None
    }
}

/// The value the map gives for an entry's name is that entry's description,
/// provided the names are unique.
proof fn lemma_map_of_entries_value(entries: Seq<(String, String)>, idx: int)
    requires
        distinct_keys(entries),
        0 <= idx < entries.len(),
    ensures
        map_of_entries(entries).contains_key(entries[idx].0@),
        map_of_entries(entries)[entries[idx].0@] == entries[idx].1@,
    decreases entries.len(),
{
    if idx == entries.len() - 1 {
    } else {
        let prefix = entries.drop_last();
        assert(distinct_keys(prefix));
        assert(prefix[idx] == entries[idx]);
        lemma_map_of_entries_value(prefix, idx);
        assert(entries.last().0@ != entries[idx].0@);
    }
}

/// The monitors that a device snapshot yields: active devices only, keyed by
/// device name, a later duplicate name winning as in the OS enumeration.
pub open spec fn active_monitors_of(devices: Seq<DisplayDevice>) -> Map<Seq<char>, Seq<char>>
    decreases devices.len(),
{
    if devices.len() == 0 {
        Map::empty()
    } else {
        let rest = active_monitors_of(devices.drop_last());
        if spec_device_active(devices.last()) {
            rest.insert(devices.last().device_name@, devices.last().device_string@)
        } else {
            rest
        }
    }
}

/// Monitor enumeration excludes inactive devices: the monitors map holds a
/// device name exactly when some active device of the snapshot carries it —
/// an inactive or disconnected output never contributes an entry.
pub proof fn lemma_active_monitors_domain(devices: Seq<DisplayDevice>, name: Seq<char>)
    ensures
        active_monitors_of(devices).contains_key(name) <==> exists|i: int|
            0 <= i < devices.len() && spec_device_active(#[trigger] devices[i])
                && devices[i].device_name@ == name,
    decreases devices.len(),
{
    if devices.len() > 0 {
        let prefix = devices.drop_last();
        lemma_active_monitors_domain(prefix, name);
        if active_monitors_of(devices).contains_key(name) {
            if !(spec_device_active(devices.last()) && devices.last().device_name@ == name) {
                let i = choose|i: int|
                    0 <= i < prefix.len() && spec_device_active(#[trigger] prefix[i])
                        && prefix[i].device_name@ == name;
                assert(spec_device_active(devices[i]) && devices[i].device_name@ == name);
            }
        }
        if exists|i: int|
            0 <= i < devices.len() && spec_device_active(#[trigger] devices[i])
                && devices[i].device_name@ == name {
            let i = choose|i: int|
                0 <= i < devices.len() && spec_device_active(#[trigger] devices[i])
                    && devices[i].device_name@ == name;
            if i < devices.len() - 1 {
                assert(spec_device_active(prefix[i]) && prefix[i].device_name@ == name);
            }
        }
    }
}

/// Builds the monitors map from an enumerated device snapshot, keeping the
/// active devices only: inactive or disconnected outputs are excluded.
pub fn filter_active_monitors(devices: Vec<DisplayDevice>) -> (m: MonitorMap)
    ensures
        m.wf(),
        m@ == active_monitors_of(devices@),
{
    let mut m = MonitorMap::new();
    let n = devices.len();
    let mut i: usize = 0;
    while i < n
        invariant
            n == devices@.len(),
            m.wf(),
            m@ == active_monitors_of(devices@.take(i as int)),
            i <= n,
        decreases n - i,
    {
        let ghost prefix = devices@.take(i as int + 1);
        proof {
            assert(prefix.drop_last() =~= devices@.take(i as int));
            assert(prefix.last() == devices@[i as int]);
        }
        let d = &devices[i];
        if d.state_flags & DISPLAY_DEVICE_ACTIVE != 0 {
            let name = d.device_name.clone();
            let description = d.device_string.clone();
            m.insert(name, description);
        }
        i += 1;
    }
    proof {
        assert(devices@.take(n as int) =~= devices@);
    }
    m
}

} // verus!
