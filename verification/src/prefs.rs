//! The monitor's settings that preferences switch, and how switching a sensor
//! category off hides its pinned rows until it is switched back on.
use vstd::prelude::*;

use crate::text::{starts_with, str_eq};

verus! {

/// Where the status item sits in the menu bar.
#[derive(Clone, Copy, Debug, PartialEq, Eq, Structural)]
pub enum PanelPosition {
    FarLeft,
    Left,
    Center,
    Right,
    FarRight,
}

/// The temperature unit.
#[derive(Clone, Copy, Debug, PartialEq, Eq, Structural)]
pub enum TempUnit {
    Celsius,
    Fahrenheit,
}

/// Where the public address is asked.
#[derive(Clone, Copy, Debug, PartialEq, Eq, Structural)]
pub enum IpProvider {
    CoreCoding,
    MyIp,
    Ipify,
}

/// Network speeds in bits or bytes.
#[derive(Clone, Copy, Debug, PartialEq, Eq, Structural)]
pub enum SpeedFormat {
    Bits,
    Bytes,
}

/// The unit of network speeds.
#[derive(Clone, Copy, Debug, PartialEq, Eq, Structural)]
pub enum SpeedUnit {
    Auto,
    FixedK,
    FixedM,
}

/// Binary (1024) or decimal (1000) size units.
#[derive(Clone, Copy, Debug, PartialEq, Eq, Structural)]
pub enum SizeUnit {
    Binary,
    Decimal,
}

/// How icons are drawn.
#[derive(Clone, Copy, Debug, PartialEq, Eq, Structural)]
pub enum IconStyle {
    SfSymbols,
}

/// The provider the public-address watcher asks, for a setting.
pub fn provider_for(p: IpProvider) -> (r: crate::public_ip::Provider)
    ensures
        p == IpProvider::CoreCoding ==> r == crate::public_ip::Provider::CoreCoding,
        p == IpProvider::MyIp ==> r == crate::public_ip::Provider::MyIp,
        p == IpProvider::Ipify ==> r == crate::public_ip::Provider::Ipify,
{
    match p {
        IpProvider::CoreCoding => crate::public_ip::Provider::CoreCoding,
        IpProvider::MyIp => crate::public_ip::Provider::MyIp,
        IpProvider::Ipify => crate::public_ip::Provider::Ipify,
    }
}

/// The sensor category a pinnable row belongs to, by its key.
pub open spec fn category_for_key_spec(key: Seq<char>) -> Option<Seq<char>> {
    if key == "cpu_total"@ {
        Some("processor"@)
    } else if key == "mem_usage"@ || key == "swap_usage"@ {
        Some("memory"@)
    } else if key == "load1"@ || key == "uptime"@ || key == "display_hz"@ {
        Some("system"@)
    } else if key == "disk_usage"@ {
        Some("storage"@)
    } else if key == "net_down"@ || key == "net_up"@ || key == "wifi_quality"@ {
        Some("network"@)
    } else if key == "battery_percentage"@ {
        Some("battery"@)
    } else if key == "cpu_temp"@ {
        Some("temperature"@)
    } else if key == "voltage_avg"@ {
        Some("voltage"@)
    } else if "fan_"@.is_prefix_of(key) {
        Some("fan"@)
    } else {
        None
    }
}

/// The sensor category a pinnable row belongs to.
pub fn category_for_key(key: &str) -> (r: Option<&'static str>)
    ensures
        match r {
            Some(c) => category_for_key_spec(key@) == Some(c@),
            None => category_for_key_spec(key@) is None,
        },
{
    if str_eq(key, "cpu_total") {
        Some("processor")
    } else if str_eq(key, "mem_usage") || str_eq(key, "swap_usage") {
        Some("memory")
    } else if str_eq(key, "load1") || str_eq(key, "uptime") || str_eq(key, "display_hz") {
        Some("system")
    } else if str_eq(key, "disk_usage") {
        Some("storage")
    } else if str_eq(key, "net_down") || str_eq(key, "net_up") || str_eq(key, "wifi_quality") {
        Some("network")
    } else if str_eq(key, "battery_percentage") {
        Some("battery")
    } else if str_eq(key, "cpu_temp") {
        Some("temperature")
    } else if str_eq(key, "voltage_avg") {
        Some("voltage")
    } else if starts_with(key, "fan_") {
        Some("fan")
    } else {
        None
    }
}

/// The sensor categories, in the order of their switches (tags 10 to 19).
pub open spec fn category_keys() -> Seq<Seq<char>> {
    seq![
        "temperature"@,
        "voltage"@,
        "fan"@,
        "memory"@,
        "processor"@,
        "system"@,
        "storage"@,
        "network"@,
        "battery"@,
        "gpu"@,
    ]
}

fn category_key_at(i: usize) -> (k: &'static str)
    requires
        i < 10,
    ensures
        k@ == category_keys()[i as int],
{
    let keys = vec![
        "temperature",
        "voltage",
        "fan",
        "memory",
        "processor",
        "system",
        "storage",
        "network",
        "battery",
        "gpu",
    ];
    assert(keys@.map_values(|s: &str| s@) =~= category_keys());
    assert(keys@.map_values(|s: &str| s@)[i as int] == keys@[i as int]@);
    keys[i]
}

/// The simple switches of the preferences, with their tags.
#[derive(Clone, Copy, Debug, PartialEq, Eq, Structural)]
pub enum Switch {
    HigherPrecision,
    Alphabetize,
    HideZeros,
    FixedWidths,
    HideIcons,
    IncludePublicIp,
    ShowFlag,
}

/// The switch a tag names: 1 to 5, then 20 and 21.
pub open spec fn switch_for_tag(tag: int) -> Option<Switch> {
    if tag == 1 {
        Some(Switch::HigherPrecision)
    } else if tag == 2 {
        Some(Switch::Alphabetize)
    } else if tag == 3 {
        Some(Switch::HideZeros)
    } else if tag == 4 {
        Some(Switch::FixedWidths)
    } else if tag == 5 {
        Some(Switch::HideIcons)
    } else if tag == 20 {
        Some(Switch::IncludePublicIp)
    } else if tag == 21 {
        Some(Switch::ShowFlag)
    } else {
        None
    }
}

/// The position of a switch among the switch flags.
pub open spec fn switch_index(s: Switch) -> int {
    match s {
        Switch::HigherPrecision => 0,
        Switch::Alphabetize => 1,
        Switch::HideZeros => 2,
        Switch::FixedWidths => 3,
        Switch::HideIcons => 4,
        Switch::IncludePublicIp => 5,
        Switch::ShowFlag => 6,
    }
}

/// The settings the preferences window changes, with the pins it has put aside.
pub struct PrefsWindowController {
    /// The pinned rows' keys.
    pub hot_sensors: Vec<String>,
    /// The simple switches, by `switch_index`.
    pub switches: Vec<bool>,
    /// Whether each sensor category is shown, in the order of `category_keys`.
    pub shown: Vec<bool>,
    /// For each category, the pins put aside when it was switched off.
    pub stashed: Vec<Vec<String>>,
    pub unit: TempUnit,
    pub memory_measurement: SizeUnit,
    pub storage_measurement: SizeUnit,
    pub network_speed_format: SpeedFormat,
    pub network_public_ip_provider: IpProvider,
}

/// The pins as values.
pub open spec fn pins(v: Seq<String>) -> Seq<Seq<char>> {
    v.map_values(|s: String| s@)
}

/// Whether a pin belongs to category `c`.
pub open spec fn in_category(key: Seq<char>, c: Seq<char>) -> bool {
    category_for_key_spec(key) == Some(c)
}

/// The pins after category `c` is switched off: those of other categories stay, the
/// others are put aside (the aside list keeps the earlier one when there is none).
pub open spec fn hidden(hot: Seq<Seq<char>>, c: Seq<char>) -> (Seq<Seq<char>>, Seq<Seq<char>>) {
    (hot.filter(|k: Seq<char>| !in_category(k, c)), hot.filter(|k: Seq<char>| in_category(k, c)))
}

/// The pins after category `c` is switched back on: the pins put aside are added back,
/// each unless already pinned.
pub open spec fn restored(hot: Seq<Seq<char>>, aside: Seq<Seq<char>>) -> Seq<Seq<char>>
    decreases aside.len(),
{
    if aside.len() == 0 {
        hot
    } else {
        let r = restored(hot, aside.drop_last());
        if r.contains(aside.last()) {
            r
        } else {
            r.push(aside.last())
        }
    }
}

/// The unit and format choices of two preference states agree.
pub open spec fn same_units(a: PrefsWindowController, b: PrefsWindowController) -> bool {
    &&& a.unit == b.unit
    &&& a.memory_measurement == b.memory_measurement
    &&& a.storage_measurement == b.storage_measurement
    &&& a.network_speed_format == b.network_speed_format
    &&& a.network_public_ip_provider == b.network_public_ip_provider
}

impl PrefsWindowController {
    /// Well formed: a flag per switch, a flag and an aside list per category.
    pub open spec fn wf(&self) -> bool {
        self.switches.len() == 7 && self.shown.len() == 10 && self.stashed.len() == 10
    }

    /// The preferences for the given pins, everything shown, switches as in `switches`.
    pub fn new(hot_sensors: Vec<String>, switches: Vec<bool>) -> (p: PrefsWindowController)
        requires
            switches.len() == 7,
        ensures
            p.wf(),
            p.hot_sensors@ == hot_sensors@,
            p.switches@ == switches@,
            forall|i: int| 0 <= i < 10 ==> #[trigger] p.shown@[i],
            forall|i: int| 0 <= i < 10 ==> #[trigger] p.stashed@[i]@ == Seq::<String>::empty(),
    {
        let mut shown: Vec<bool> = Vec::new();
        let mut stashed: Vec<Vec<String>> = Vec::new();
        let mut i: usize = 0;
        while i < 10
            invariant
                i <= 10,
                shown.len() == i,
                stashed.len() == i,
                forall|j: int| 0 <= j < i ==> #[trigger] shown@[j],
                forall|j: int| 0 <= j < i ==> #[trigger] stashed@[j]@ == Seq::<String>::empty(),
            decreases 10 - i,
        {
            shown.push(true);
            stashed.push(Vec::new());
            i = i + 1;
        }
        PrefsWindowController {
            hot_sensors,
            switches,
            shown,
            stashed,
            unit: TempUnit::Celsius,
            memory_measurement: SizeUnit::Binary,
            storage_measurement: SizeUnit::Decimal,
            network_speed_format: SpeedFormat::Bytes,
            network_public_ip_provider: IpProvider::Ipify,
        }
    }

    /// A switch was clicked: a simple switch flips; a category switch (tags 10 to 19)
    /// flips the category and hides or brings back its pins; other tags do nothing.
    pub fn handle_toggle(&mut self, tag: i64)
        requires
            old(self).wf(),
        ensures
            final(self).wf(),
            same_units(*old(self), *final(self)),
            !(10 <= tag < 20) ==> final(self).stashed@ == old(self).stashed@,
            switch_for_tag(tag as int) matches Some(s) ==> final(self).switches@ == old(self).switches@.update(
                switch_index(s),
                !old(self).switches@[switch_index(s)],
            ) && final(self).shown@ == old(self).shown@ && final(self).hot_sensors@ == old(
                self,
            ).hot_sensors@,
            switch_for_tag(tag as int) is None && !(10 <= tag < 20) ==> final(self).switches@ == old(
                self,
            ).switches@ && final(self).shown@ == old(self).shown@ && final(self).hot_sensors@ == old(
                self,
            ).hot_sensors@,
            switch_for_tag(tag as int) is None && 10 <= tag < 20 ==> final(self).switches@ == old(
                self,
            ).switches@ && final(self).shown@ == old(self).shown@.update(
                tag - 10,
                !old(self).shown@[tag - 10],
            ) && pins(final(self).hot_sensors@) == if old(self).shown@[tag - 10] {
                hidden(pins(old(self).hot_sensors@), category_keys()[tag - 10]).0
            } else {
                restored(pins(old(self).hot_sensors@), pins(old(self).stashed@[tag - 10]@))
            },
    {
        let idx: Option<usize> = if tag == 1 {
            Some(0)
        } else if tag == 2 {
            Some(1)
        } else if tag == 3 {
            Some(2)
        } else if tag == 4 {
            Some(3)
        } else if tag == 5 {
            Some(4)
        } else if tag == 20 {
            Some(5)
        } else if tag == 21 {
            Some(6)
        } else {
            None
        };
        match idx {
            Some(i) => {
                let v = self.switches[i];
                self.switches.set(i, !v);
            },
            None => {
                if 10 <= tag && tag < 20 {
                    self.handle_category_toggle((tag - 10) as usize);
                }
            },
        }
    }

    /// A category switch was clicked: the category flips. Switched off, its pins are
    /// put aside (replacing what was aside, when there are any); switched back on, what
    /// was aside is pinned again, each unless already pinned, and the aside list is
    /// emptied.
    pub fn handle_category_toggle(&mut self, c: usize)
        requires
            old(self).wf(),
            c < 10,
        ensures
            final(self).wf(),
            same_units(*old(self), *final(self)),
            final(self).switches@ == old(self).switches@,
            final(self).shown@ == old(self).shown@.update(c as int, !old(self).shown@[c as int]),
            old(self).shown@[c as int] ==> {
                let h = hidden(pins(old(self).hot_sensors@), category_keys()[c as int]);
                &&& pins(final(self).hot_sensors@) == h.0
                &&& pins(final(self).stashed@[c as int]@) == if h.1.len() > 0 {
                    h.1
                } else {
                    pins(old(self).stashed@[c as int]@)
                }
            },
            !old(self).shown@[c as int] ==> {
                &&& pins(final(self).hot_sensors@) == restored(
                    pins(old(self).hot_sensors@),
                    pins(old(self).stashed@[c as int]@),
                )
                &&& final(self).stashed@[c as int]@ == Seq::<String>::empty()
            },
            forall|j: int| 0 <= j < 10 && j != c ==> #[trigger] final(self).stashed@[j] == old(self).stashed@[j],
    {
        let key = category_key_at(c);
        let now_enabled = !self.shown[c];
        self.shown.set(c, now_enabled);
        let ghost hv = pins(self.hot_sensors@);
        if now_enabled {
            let mut aside: Vec<String> = Vec::new();
            std::mem::swap(&mut aside, &mut self.stashed[c]);
            let ghost av = pins(aside@);
            assert(pins(aside@) == pins(old(self).stashed@[c as int]@));
            let mut i: usize = 0;
            while i < aside.len()
                invariant
                    i <= aside.len(),
                    av == pins(aside@),
                    pins(self.hot_sensors@) == restored(hv, av.take(i as int)),
                    self.wf(),
                    self.stashed@[c as int]@ == Seq::<String>::empty(),
                    c < 10,
                    self.switches@ == old(self).switches@,
                    same_units(*old(self), *self),
                    self.shown@ == old(self).shown@.update(c as int, !old(self).shown@[c as int]),
                    forall|j: int| 0 <= j < 10 && j != c ==> #[trigger] self.stashed@[j] == old(self).stashed@[j],
                decreases aside.len() - i,
            {
                let ghost before = pins(self.hot_sensors@);
                assert(av.take(i + 1).drop_last() =~= av.take(i as int));
                assert(av.take(i + 1).last() == aside@[i as int]@);
                if !contains_key(&self.hot_sensors, aside[i].as_str()) {
                    self.hot_sensors.push(aside[i].clone());
                    assert(pins(self.hot_sensors@) =~= before.push(av[i as int]));
                }
                i = i + 1;
            }
            assert(av.take(aside.len() as int) =~= av);
        } else {
            let ghost cat = category_keys()[c as int];
            let mut moved: Vec<String> = Vec::new();
            let mut kept: Vec<String> = Vec::new();
            let mut i: usize = 0;
            while i < self.hot_sensors.len()
                invariant
                    i <= self.hot_sensors.len(),
                    hv == pins(self.hot_sensors@),
                    key@ == cat,
                    pins(kept@) == hv.take(i as int).filter(|k: Seq<char>| !in_category(k, cat)),
                    pins(moved@) == hv.take(i as int).filter(|k: Seq<char>| in_category(k, cat)),
                decreases self.hot_sensors.len() - i,
            {
                let ghost kb = pins(kept@);
                let ghost mb = pins(moved@);
                let k = self.hot_sensors[i].clone();
                assert(hv[i as int] == k@);
                proof {
                    assert(hv.take(i + 1) =~= hv.take(i as int).push(hv[i as int]));
                    hv.take(i as int).lemma_filter_push(hv[i as int], |k: Seq<char>| !in_category(k, cat));
                    hv.take(i as int).lemma_filter_push(hv[i as int], |k: Seq<char>| in_category(k, cat));
                }
                let belongs = match category_for_key(k.as_str()) {
                    Some(kc) => str_eq(kc, key),
                    None => false,
                };
                if belongs {
                    moved.push(k);
                    assert(pins(moved@) =~= mb.push(hv[i as int]));
                } else {
                    kept.push(k);
                    assert(pins(kept@) =~= kb.push(hv[i as int]));
                }
                i = i + 1;
            }
            assert(hv.take(self.hot_sensors.len() as int) =~= hv);
            self.hot_sensors = kept;
            if moved.len() > 0 {
                self.stashed.set(c, moved);
            }
        }
    }

    /// A choice in a pop-up menu: the temperature unit (tag 100), memory and storage
    /// size units (101, 102), network speed format (103) and public address provider
    /// (104), by the index chosen.
    pub fn handle_popup(&mut self, tag: i64, index: i64)
        ensures
            tag == 100 ==> final(self).unit == if index == 0 {
                TempUnit::Celsius
            } else {
                TempUnit::Fahrenheit
            },
            tag == 101 ==> final(self).memory_measurement == if index == 0 {
                SizeUnit::Binary
            } else {
                SizeUnit::Decimal
            },
            tag == 102 ==> final(self).storage_measurement == if index == 0 {
                SizeUnit::Binary
            } else {
                SizeUnit::Decimal
            },
            tag == 103 ==> final(self).network_speed_format == if index == 0 {
                SpeedFormat::Bits
            } else {
                SpeedFormat::Bytes
            },
            tag == 104 ==> final(self).network_public_ip_provider == if index == 0 {
                IpProvider::CoreCoding
            } else if index == 1 {
                IpProvider::MyIp
            } else {
                IpProvider::Ipify
            },
            tag != 100 ==> final(self).unit == old(self).unit,
            tag != 101 ==> final(self).memory_measurement == old(self).memory_measurement,
            tag != 102 ==> final(self).storage_measurement == old(self).storage_measurement,
            tag != 103 ==> final(self).network_speed_format == old(self).network_speed_format,
            tag != 104 ==> final(self).network_public_ip_provider == old(self).network_public_ip_provider,
            final(self).hot_sensors@ == old(self).hot_sensors@,
            final(self).switches@ == old(self).switches@,
            final(self).shown@ == old(self).shown@,
            final(self).stashed@ == old(self).stashed@,
    {
        if tag == 100 {
            self.unit = if index == 0 {
                TempUnit::Celsius
            } else {
                TempUnit::Fahrenheit
            };
        } else if tag == 101 {
            self.memory_measurement = if index == 0 {
                SizeUnit::Binary
            } else {
                SizeUnit::Decimal
            };
        } else if tag == 102 {
            self.storage_measurement = if index == 0 {
                SizeUnit::Binary
            } else {
                SizeUnit::Decimal
            };
        } else if tag == 103 {
            self.network_speed_format = if index == 0 {
                SpeedFormat::Bits
            } else {
                SpeedFormat::Bytes
            };
        } else if tag == 104 {
            self.network_public_ip_provider = if index == 0 {
                IpProvider::CoreCoding
            } else if index == 1 {
                IpProvider::MyIp
            } else {
                IpProvider::Ipify
            };
        }
    }
}

fn contains_key(v: &Vec<String>, k: &str) -> (r: bool)
    ensures
        r == pins(v@).contains(k@),
{
    let ghost pv = pins(v@);
    let mut i: usize = 0;
    while i < v.len()
        invariant
            i <= v.len(),
            pv == pins(v@),
            forall|j: int| 0 <= j < i ==> pv[j] != k@,
        decreases v.len() - i,
    {
        assert(pv[i as int] == v@[i as int]@);
        if str_eq(v[i].as_str(), k) {
            return true;
        }
        i = i + 1;
    }
    false
}

proof fn lemma_restored_contains(hot: Seq<Seq<char>>, aside: Seq<Seq<char>>, k: Seq<char>)
    ensures
        restored(hot, aside).contains(k) <==> (hot.contains(k) || aside.contains(k)),
    decreases aside.len(),
{
    if aside.len() > 0 {
        lemma_restored_contains(hot, aside.drop_last(), k);
        let r = restored(hot, aside.drop_last());
        if aside.drop_last().contains(k) {
            let j = choose|j: int| 0 <= j < aside.drop_last().len() && aside.drop_last()[j] == k;
            assert(aside[j] == k);
        }
        if aside.contains(k) && !aside.drop_last().contains(k) {
            let j = choose|j: int| 0 <= j < aside.len() && aside[j] == k;
            if j < aside.len() - 1 {
                assert(aside.drop_last()[j] == k);
            }
            assert(j == aside.len() - 1);
        }
        if !r.contains(aside.last()) {
            if r.push(aside.last()).contains(k) {
                let j = choose|j: int| 0 <= j < r.push(aside.last()).len() && r.push(aside.last())[j] == k;
                if j < r.len() {
                    assert(r[j] == k);
                }
            }
            if r.contains(k) {
                let j = choose|j: int| 0 <= j < r.len() && r[j] == k;
                assert(r.push(aside.last())[j] == k);
            }
            if k == aside.last() {
                assert(r.push(aside.last())[r.len() as int] == k);
            }
        }
    } else {
        assert(!aside.contains(k));
    }
}

proof fn lemma_filter_sub(s: Seq<Seq<char>>, pred: spec_fn(Seq<char>) -> bool, k: Seq<char>)
    requires
        s.filter(pred).contains(k),
    ensures
        s.contains(k),
    decreases s.len(),
{
    if s.len() == 0 {
        assert(s.filter(pred).len() == 0) by {
            broadcast use vstd::seq_lib::group_filter_ensures;
        }
    } else {
        s.drop_last().lemma_filter_push(s.last(), pred);
        assert(s.drop_last().push(s.last()) =~= s);
        let f = s.drop_last().filter(pred);
        if k != s.last() {
            if pred(s.last()) {
                let j = choose|j: int| 0 <= j < f.push(s.last()).len() && f.push(s.last())[j] == k;
                assert(f[j] == k);
            }
            assert(f.contains(k));
            lemma_filter_sub(s.drop_last(), pred, k);
            let j = choose|j: int| 0 <= j < s.drop_last().len() && s.drop_last()[j] == k;
            assert(s[j] == k);
        } else {
            assert(s[s.len() - 1] == k);
        }
    }
}

/// Switching a category off and on again keeps the same pins: each pin is pinned again
/// afterwards, and nothing else is (the order may change).
pub proof fn lemma_category_off_on_keeps_pins(hot: Seq<Seq<char>>, c: Seq<char>, k: Seq<char>)
    ensures
        ({
            let h = hidden(hot, c);
            restored(h.0, h.1).contains(k) <==> hot.contains(k)
        }),
{
    let h = hidden(hot, c);
    lemma_restored_contains(h.0, h.1, k);
    broadcast use vstd::seq_lib::group_filter_ensures;
    if hot.contains(k) {
        let j = choose|j: int| 0 <= j < hot.len() && hot[j] == k;
        if in_category(k, c) {
            assert(h.1.contains(hot[j]));
        } else {
            assert(h.0.contains(hot[j]));
        }
    }
    if h.0.contains(k) {
        lemma_filter_sub(hot, |x: Seq<char>| !in_category(x, c), k);
    }
    if h.1.contains(k) {
        lemma_filter_sub(hot, |x: Seq<char>| in_category(x, c), k);
    }
}

} // verus!
