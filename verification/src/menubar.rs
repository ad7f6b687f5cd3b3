//! The menu bar monitor's decisions that do not involve sensor values: icons, the order
//! of pinned rows, the status item's title, pins, and the preference switches with the
//! pins they hide and bring back.
use vstd::prelude::*;

use crate::order::{by_key, sort_by_key, Keyed};
use crate::text::{chars_of, push_char, push_str, starts_with, str_eq};

verus! {

/// The SF Symbol shown beside a sensor row, by sensor key.
pub open spec fn sensor_icon_spec(key: Seq<char>) -> Option<Seq<char>> {
    if key == "cpu_total"@ {
        Some("cpu"@)
    } else if key == "cpu_temp"@ {
        Some("thermometer"@)
    } else if key == "mem_usage"@ {
        Some("memorychip"@)
    } else if key == "swap_usage"@ {
        Some("arrow.triangle.2.circlepath"@)
    } else if key == "disk_usage"@ {
        Some("internaldrive"@)
    } else if key == "uptime"@ {
        Some("clock"@)
    } else if key == "net_up"@ {
        Some("arrow.up.circle"@)
    } else if key == "net_down"@ {
        Some("arrow.down.circle"@)
    } else if key == "wifi_quality"@ {
        Some("wifi"@)
    } else if key == "public_ip"@ {
        Some("globe"@)
    } else if key == "voltage_avg"@ {
        Some("bolt.fill"@)
    } else if key == "display_hz"@ {
        Some("display"@)
    } else if "fan_"@.is_prefix_of(key) {
        Some("fanblades.fill"@)
    } else {
        None
    }
}

/// The SF Symbol shown beside a sensor row.
pub fn sensor_icon_name(key: &str) -> (r: Option<&'static str>)
    ensures
        match r {
            Some(s) => sensor_icon_spec(key@) == Some(s@),
            None => sensor_icon_spec(key@) is None,
        },
{
    if str_eq(key, "cpu_total") {
        Some("cpu")
    } else if str_eq(key, "cpu_temp") {
        Some("thermometer")
    } else if str_eq(key, "mem_usage") {
        Some("memorychip")
    } else if str_eq(key, "swap_usage") {
        Some("arrow.triangle.2.circlepath")
    } else if str_eq(key, "disk_usage") {
        Some("internaldrive")
    } else if str_eq(key, "uptime") {
        Some("clock")
    } else if str_eq(key, "net_up") {
        Some("arrow.up.circle")
    } else if str_eq(key, "net_down") {
        Some("arrow.down.circle")
    } else if str_eq(key, "wifi_quality") {
        Some("wifi")
    } else if str_eq(key, "public_ip") {
        Some("globe")
    } else if str_eq(key, "voltage_avg") {
        Some("bolt.fill")
    } else if str_eq(key, "display_hz") {
        Some("display")
    } else if starts_with(key, "fan_") {
        Some("fanblades.fill")
    } else {
        None
    }
}

/// The SF Symbol of a category submenu, by its name.
pub open spec fn category_icon_spec(name: Seq<char>) -> Option<Seq<char>> {
    if name == "CPU"@ {
        Some("cpu"@)
    } else if name == "Memory"@ {
        Some("memorychip"@)
    } else if name == "System"@ {
        Some("gearshape"@)
    } else if name == "Storage"@ {
        Some("internaldrive"@)
    } else if name == "Network"@ {
        Some("network"@)
    } else if name == "Battery"@ {
        Some("battery.100"@)
    } else if name == "GPU"@ {
        Some("display"@)
    } else {
        None
    }
}

/// The SF Symbol of a category submenu.
pub fn category_icon_name(name: &str) -> (r: Option<&'static str>)
    ensures
        match r {
            Some(s) => category_icon_spec(name@) == Some(s@),
            None => category_icon_spec(name@) is None,
        },
{
    if str_eq(name, "CPU") {
        Some("cpu")
    } else if str_eq(name, "Memory") {
        Some("memorychip")
    } else if str_eq(name, "System") {
        Some("gearshape")
    } else if str_eq(name, "Storage") {
        Some("internaldrive")
    } else if str_eq(name, "Network") {
        Some("network")
    } else if str_eq(name, "Battery") {
        Some("battery.100")
    } else if str_eq(name, "GPU") {
        Some("display")
    } else {
        None
    }
}

/// The names of the detail submenus, in order.
pub fn category_names() -> (out: Vec<&'static str>)
    ensures
        out@.map_values(|s: &str| s@) == seq!["CPU"@, "Memory"@, "System"@, "Storage"@, "Network"@, "Battery"@, "GPU"@],
{
    let out = vec!["CPU", "Memory", "System", "Storage", "Network", "Battery", "GPU"];
    assert(out@.map_values(|s: &str| s@) =~= seq!["CPU"@, "Memory"@, "System"@, "Storage"@, "Network"@, "Battery"@, "GPU"@]);
    out
}

/// The keys of the pinnable rows in their display order; other keys come last.
pub open spec fn panel_keys() -> Seq<Seq<char>> {
    seq![
        "cpu_total"@,
        "cpu_temp"@,
        "mem_usage"@,
        "swap_usage"@,
        "disk_usage"@,
        "uptime"@,
        "net_up"@,
        "net_down"@,
        "wifi_quality"@,
        "public_ip"@,
        "fan_0"@,
        "fan_1"@,
        "fan_2"@,
        "fan_3"@,
        "voltage_avg"@,
        "display_hz"@,
    ]
}

/// The position of the first `key` in `s` (its length when there is none).
pub open spec fn index_in(s: Seq<Seq<char>>, key: Seq<char>) -> nat
    decreases s.len(),
{
    if s.len() == 0 {
        0
    } else if s[0] == key {
        0
    } else {
        1 + index_in(s.drop_first(), key)
    }
}

/// The position of a row's key in the display order. A key not in the list takes the
/// place just after Storage (that of `uptime`, 5), so it stays in the ordering.
pub open spec fn panel_order_spec(key: Seq<char>) -> u8 {
    let i = index_in(panel_keys(), key);
    if i < panel_keys().len() {
        i as u8
    } else {
        5
    }
}

proof fn lemma_index_in_bound(s: Seq<Seq<char>>, key: Seq<char>)
    ensures
        index_in(s, key) <= s.len(),
    decreases s.len(),
{
    if s.len() > 0 && s[0] != key {
        lemma_index_in_bound(s.drop_first(), key);
    }
}

/// The position of a row's key in the display order.
pub fn panel_order(key: &str) -> (r: u8)
    ensures
        r == panel_order_spec(key@),
{
    let keys = vec![
        "cpu_total",
        "cpu_temp",
        "mem_usage",
        "swap_usage",
        "disk_usage",
        "uptime",
        "net_up",
        "net_down",
        "wifi_quality",
        "public_ip",
        "fan_0",
        "fan_1",
        "fan_2",
        "fan_3",
        "voltage_avg",
        "display_hz",
    ];
    let ghost k = panel_keys();
    assert(keys@.map_values(|s: &str| s@) =~= k);
    let mut i: usize = 0;
    assert(k.skip(0) =~= k);
    while i < keys.len()
        invariant
            i <= keys.len(),
            keys.len() == 16,
            keys@.map_values(|s: &str| s@) == k,
            k == panel_keys(),
            index_in(k, key@) == i + index_in(k.skip(i as int), key@),
        decreases keys.len() - i,
    {
        assert(k[i as int] == keys@[i as int]@);
        assert(k.skip(i as int)[0] == k[i as int]);
        if str_eq(keys[i], key) {
            return i as u8;
        }
        assert(k.skip(i as int).drop_first() =~= k.skip(i + 1));
        i = i + 1;
    }
    assert(k.skip(16) =~= Seq::<Seq<char>>::empty());
    5
}

/// Whether the row at a position has order `v`.
pub open spec fn has_order(orders: Seq<u8>, v: int) -> spec_fn(int) -> bool {
    |i: int| orders[i] == v
}

/// The positions `0..orders.len()` whose order is `v`, in order.
pub open spec fn rows_with_order(orders: Seq<u8>, v: int) -> Seq<int> {
    Seq::new(orders.len(), |i: int| i).filter(has_order(orders, v))
}

/// The positions of the rows with order below `v`, by order, equal orders in their
/// given order.
pub open spec fn rows_by_order(orders: Seq<u8>, v: nat) -> Seq<int>
    decreases v,
{
    if v == 0 {
        Seq::empty()
    } else {
        rows_by_order(orders, (v - 1) as nat) + rows_with_order(orders, v - 1)
    }
}

/// The positions kept from a strictly increasing sequence stay strictly increasing.
proof fn lemma_filter_increasing(s: Seq<int>, p: spec_fn(int) -> bool)
    requires
        forall|a: int, b: int| 0 <= a < b < s.len() ==> s[a] < s[b],
    ensures
        forall|a: int, b: int| 0 <= a < b < s.filter(p).len() ==> s.filter(p)[a] < s.filter(p)[b],
    decreases s.len(),
{
    reveal(Seq::filter);
    if s.len() > 0 {
        let rest = s.drop_last();
        lemma_filter_increasing(rest, p);
        let f = rest.filter(p);
        assert forall|k: int| 0 <= k < f.len() implies f[k] < s.last() by {
            assert(f.contains(f[k]));
            rest.lemma_filter_contains_rev(p, f[k]);
            let j = choose|j: int| 0 <= j < rest.len() && rest[j] == f[k];
            assert(s[j] < s[s.len() - 1]);
        }
    }
}

proof fn lemma_rows_by_order_upto(orders: Seq<u8>, v: nat)
    ensures
        ({
            let r = rows_by_order(orders, v);
            &&& forall|k: int| 0 <= k < r.len() ==> 0 <= #[trigger] r[k] < orders.len() && orders[r[k]] < v
            &&& forall|i: int| 0 <= i < orders.len() && orders[i] < v ==> #[trigger] r.contains(i)
            &&& forall|a: int, b: int|
                0 <= a < b < r.len() ==> orders[r[a]] < orders[r[b]] || (orders[r[a]] == orders[r[b]] && r[a]
                    < r[b])
        }),
    decreases v,
{
    broadcast use vstd::seq_lib::group_filter_ensures;

    if v > 0 {
        let w = (v - 1) as nat;
        lemma_rows_by_order_upto(orders, w);
        let r0 = rows_by_order(orders, w);
        let idx = Seq::new(orders.len(), |i: int| i);
        let f = idx.filter(has_order(orders, w as int));
        let r = r0 + f;
        assert(r == rows_by_order(orders, v));
        lemma_filter_increasing(idx, has_order(orders, w as int));
        assert forall|k: int| 0 <= k < f.len() implies 0 <= #[trigger] f[k] < orders.len() && orders[f[k]] == w by {
            assert(has_order(orders, w as int)(f[k]));
            assert(f.contains(f[k]));
            idx.lemma_filter_contains_rev(has_order(orders, w as int), f[k]);
        }
        assert forall|k: int| 0 <= k < r.len() implies 0 <= #[trigger] r[k] < orders.len() && orders[r[k]] < v by {
            if k >= r0.len() {
                assert(r[k] == f[k - r0.len()]);
            }
        }
        assert forall|i: int| 0 <= i < orders.len() && orders[i] < v implies r.contains(i) by {
            if orders[i] < w {
                assert(r0.contains(i));
                let j = choose|j: int| 0 <= j < r0.len() && r0[j] == i;
                assert(r[j] == r0[j]);
                assert(r[j] == i);
            } else {
                assert(has_order(orders, w as int)(idx[i]));
                idx.lemma_filter_contains(has_order(orders, w as int), i);
                let j = choose|j: int| 0 <= j < f.len() && f[j] == idx[i];
                assert(r[r0.len() + j] == i);
            }
        }
        assert forall|a: int, b: int| 0 <= a < b < r.len() implies orders[r[a]] < orders[r[b]] || (
        orders[r[a]] == orders[r[b]] && r[a] < r[b]) by {
            if b < r0.len() {
            } else if a < r0.len() {
                assert(r[b] == f[b - r0.len()]);
                assert(orders[r[a]] < w);
            } else {
                assert(r[a] == f[a - r0.len()]);
                assert(r[b] == f[b - r0.len()]);
            }
        }
    }
}

/// Pinned rows are shown in display order: every row appears, each once, and rows of
/// equal order keep their order.
pub proof fn lemma_panel_rows_in_order(orders: Seq<u8>)
    ensures
        ({
            let r = rows_by_order(orders, 256);
            &&& forall|k: int| 0 <= k < r.len() ==> 0 <= #[trigger] r[k] < orders.len()
            &&& forall|i: int| 0 <= i < orders.len() ==> r.contains(i)
            &&& forall|a: int, b: int| 0 <= a < b < r.len() ==> r[a] != r[b]
            &&& forall|a: int, b: int|
                0 <= a < b < r.len() ==> orders[r[a]] < orders[r[b]] || (orders[r[a]] == orders[r[b]] && r[a]
                    < r[b])
        }),
{
    lemma_rows_by_order_upto(orders, 256);
}

/// The order in which pinned rows are shown: their positions sorted by `panel_order` of
/// their keys, rows of equal order keeping their order (a stable sort).
pub fn panel_row_order(keys: &Vec<String>) -> (out: Vec<usize>)
    ensures
        out@.map_values(|i: usize| i as int) == rows_by_order(
            keys@.map_values(|k: String| panel_order_spec(k@)),
            256,
        ),
{
    let ghost kv = keys@.map_values(|k: String| panel_order_spec(k@));
    let mut orders: Vec<u8> = Vec::new();
    let mut i: usize = 0;
    while i < keys.len()
        invariant
            i <= keys.len(),
            kv == keys@.map_values(|k: String| panel_order_spec(k@)),
            orders@ == kv.take(i as int),
        decreases keys.len() - i,
    {
        let o = panel_order(keys[i].as_str());
        orders.push(o);
        assert(orders@ =~= kv.take(i + 1));
        i = i + 1;
    }
    assert(kv.take(keys.len() as int) =~= kv);
    let mut out: Vec<usize> = Vec::new();
    let mut v: u32 = 0;
    while v < 256
        invariant
            v <= 256,
            orders@ == kv,
            orders.len() == keys.len(),
            out@.map_values(|i: usize| i as int) == rows_by_order(kv, v as nat),
        decreases 256 - v,
    {
        let ghost before = out@.map_values(|i: usize| i as int);
        let ghost idx = Seq::new(kv.len(), |i: int| i);
        let mut j: usize = 0;
        while j < orders.len()
            invariant
                j <= orders.len(),
                v < 256,
                orders@ == kv,
                idx == Seq::new(kv.len(), |i: int| i),
                out@.map_values(|i: usize| i as int) == before + idx.take(j as int).filter(has_order(kv, v as int)),
            decreases orders.len() - j,
        {
            proof {
                assert(idx.take(j + 1) =~= idx.take(j as int).push(j as int));
                idx.take(j as int).lemma_filter_push(j as int, has_order(kv, v as int));
            }
            let ghost b2 = out@.map_values(|i: usize| i as int);
            if orders[j] as u32 == v {
                assert(has_order(kv, v as int)(j as int));
                out.push(j);
                assert(out@.map_values(|i: usize| i as int) =~= b2.push(j as int));
            }
            j = j + 1;
        }
        assert(idx.take(orders.len() as int) =~= idx);
        assert(rows_by_order(kv, (v + 1) as nat) == rows_by_order(kv, v as nat) + rows_with_order(kv, v as int));
        v = v + 1;
    }
    out
}

/// A summary row by its label, remembering its position in the list it came from.
pub struct LabeledRow {
    pub label: String,
    pub index: usize,
}

impl Keyed for LabeledRow {
    open spec fn key_of(&self) -> Seq<char> {
        self.label@
    }

    fn key(&self) -> (r: String) {
        self.label.clone()
    }
}

/// The rows of `labels`, each with its position.
pub open spec fn labeled_rows(labels: Seq<String>) -> Seq<LabeledRow> {
    Seq::new(labels.len(), |i: int| LabeledRow { label: labels[i], index: i as usize })
}

/// The order of the summary rows when they are alphabetized: their positions sorted by
/// label, in the order of `String` (no locale, no natural numbering), rows of equal label
/// keeping their order.
pub fn alphabetical_row_order(labels: &Vec<String>) -> (out: Vec<usize>)
    ensures
        out@ == by_key(labeled_rows(labels@)).map_values(|r: LabeledRow| r.index),
{
    let mut rows: Vec<LabeledRow> = Vec::new();
    let mut i: usize = 0;
    while i < labels.len()
        invariant
            i <= labels.len(),
            rows@ == labeled_rows(labels@).take(i as int),
        decreases labels.len() - i,
    {
        rows.push(LabeledRow { label: labels[i].clone(), index: i });
        assert(rows@ =~= labeled_rows(labels@).take(i + 1));
        i = i + 1;
    }
    assert(labeled_rows(labels@).take(labels.len() as int) =~= labeled_rows(labels@));
    let sorted = sort_by_key(rows);
    let ghost target = by_key(labeled_rows(labels@)).map_values(|r: LabeledRow| r.index);
    let mut out: Vec<usize> = Vec::new();
    let mut j: usize = 0;
    while j < sorted.len()
        invariant
            j <= sorted.len(),
            sorted@ == by_key(labeled_rows(labels@)),
            out@ == target.take(j as int),
            target == sorted@.map_values(|r: LabeledRow| r.index),
        decreases sorted.len() - j,
    {
        out.push(sorted[j].index);
        assert(out@ =~= target.take(j + 1));
        j = j + 1;
    }
    assert(target.take(sorted.len() as int) =~= target);
    out
}

/// The key of fan `index` among the pinnable rows: `fan_0` to `fan_3`, none beyond.
pub open spec fn fan_key_spec(index: u32) -> Option<Seq<char>> {
    if index == 0 {
        Some("fan_0"@)
    } else if index == 1 {
        Some("fan_1"@)
    } else if index == 2 {
        Some("fan_2"@)
    } else if index == 3 {
        Some("fan_3"@)
    } else {
        None
    }
}

/// The key of fan `index` among the pinnable rows.
pub fn fan_key(index: u32) -> (r: Option<&'static str>)
    ensures
        match r {
            Some(k) => fan_key_spec(index) == Some(k@),
            None => fan_key_spec(index) is None,
        },
{
    if index == 0 {
        Some("fan_0")
    } else if index == 1 {
        Some("fan_1")
    } else if index == 2 {
        Some("fan_2")
    } else if index == 3 {
        Some("fan_3")
    } else {
        None
    }
}

/// The public address row's text: `"Public IP: "`, the country's flag and a space when
/// flags are shown and the country code gives one, then the address.
pub open spec fn public_ip_row_spec(ip: Seq<char>, country_code: Option<Seq<char>>, show_flag: bool) -> Seq<char> {
    let flag = match country_code {
        Some(c) => if show_flag {
            match crate::public_ip::flag_from_upper(crate::text::unicode_uppercase(c)) {
                Some(f) => f + " "@,
                None => Seq::empty(),
            }
        } else {
            Seq::empty()
        },
        None => Seq::empty(),
    };
    "Public IP: "@ + flag + ip
}

/// The public address row's text.
pub fn public_ip_row(ip: &str, country_code: Option<&str>, show_flag: bool) -> (s: String)
    ensures
        s@ == public_ip_row_spec(
            ip@,
            match country_code {
                Some(c) => Some(c@),
                None => None,
            },
            show_flag,
        ),
{
    let mut s = "Public IP: ".to_string();
    if show_flag {
        if let Some(c) = country_code {
            if let Some(f) = crate::public_ip::flag_emoji(c) {
                push_str(&mut s, f.as_str());
                push_str(&mut s, " ");
            }
        }
    }
    push_str(&mut s, ip);
    s
}

/// How many characters of pinned values the status item shows.
pub open spec fn max_title_chars() -> nat {
    16
}

/// How many pinned values fit: the first always, then each one whose addition (after
/// two spaces, unless the text is still empty) keeps the text within 16 characters,
/// stopping at the first that does not.
pub open spec fn shown_count(pinned: Seq<Seq<char>>) -> nat
    decreases pinned.len(),
{
    shown_from(pinned, 0, 0)
}

/// The text made of the first `n` values, two spaces apart (no spaces are added while
/// the text is still empty).
pub open spec fn joined_values(pinned: Seq<Seq<char>>, n: nat) -> Seq<char>
    decreases n,
{
    if n == 0 {
        Seq::empty()
    } else {
        let t = joined_values(pinned, (n - 1) as nat);
        if t.len() == 0 {
            pinned[n - 1]
        } else {
            t + "  "@ + pinned[n - 1]
        }
    }
}

/// Counting from `n` values shown (text of length `len`), how many are shown in the end.
pub open spec fn shown_from(pinned: Seq<Seq<char>>, n: nat, len: nat) -> nat
    decreases pinned.len() - n,
{
    if n >= pinned.len() {
        n
    } else {
        let cand_len = if len == 0 {
            pinned[n as int].len()
        } else {
            len + 2 + pinned[n as int].len()
        };
        if cand_len > max_title_chars() && n > 0 {
            n
        } else {
            shown_from(pinned, n + 1, cand_len)
        }
    }
}

/// The status item's title: `"Pantau"` when nothing is pinned; otherwise the values
/// that fit, `" +N"` for the `N` that did not, right-padded with spaces to 16 characters.
pub open spec fn panel_title_spec(pinned: Seq<Seq<char>>) -> Seq<char> {
    if pinned.len() == 0 {
        "Pantau"@
    } else {
        let n = shown_count(pinned);
        let text = joined_values(pinned, n);
        let text = if n < pinned.len() {
            text + " +"@ + crate::text::decimal((pinned.len() - n) as nat)
        } else {
            text
        };
        pad_to(text, max_title_chars())
    }
}

/// `s` right-padded with spaces to `w` characters.
pub open spec fn pad_to(s: Seq<char>, w: nat) -> Seq<char> {
    if s.len() >= w {
        s
    } else {
        s + Seq::new((w - s.len()) as nat, |i: int| ' ')
    }
}

proof fn lemma_joined_len(pinned: Seq<Seq<char>>, n: nat)
    requires
        1 <= n <= pinned.len(),
    ensures
        joined_values(pinned, n).len() == joined_values(pinned, (n - 1) as nat).len() + (if joined_values(
            pinned,
            (n - 1) as nat,
        ).len() == 0 {
            0int
        } else {
            2
        }) + pinned[n - 1].len(),
{
    reveal_strlit("  ");
}

/// The status item's title for the pinned values, in order.
pub fn panel_title(pinned: &Vec<String>) -> (out: String)
    requires
        pinned.len() <= u64::MAX,
    ensures
        out@ == panel_title_spec(pinned@.map_values(|s: String| s@)),
{
    let ghost pv = pinned@.map_values(|s: String| s@);
    if pinned.len() == 0 {
        return "Pantau".to_string();
    }
    let mut text = String::new();
    let mut len: usize = 0;
    let mut shown: usize = 0;
    let mut stop = false;
    while shown < pinned.len() && !stop
        invariant
            shown <= pinned.len(),
            pv == pinned@.map_values(|s: String| s@),
            pinned.len() > 0,
            text@ == joined_values(pv, shown as nat),
            len == text@.len(),
            !stop ==> shown_count(pv) == shown_from(pv, shown as nat, len as nat),
            stop ==> shown_count(pv) == shown as nat,
        decreases (pinned.len() - shown) * 2 + if stop {
            0int
        } else {
            1int
        },
    {
        let v = chars_of(pinned[shown].as_str());
        assert(pv[shown as int] == v@);
        let vlen = v.len();
        let too_long = if len == 0 {
            vlen > 16
        } else {
            vlen > 14 || len > 14 - vlen
        };
        if too_long && shown > 0 {
            stop = true;
        } else {
            proof {
                lemma_joined_len(pv, (shown + 1) as nat);
            }
            if len > 0 {
                push_str(&mut text, "  ");
            }
            push_str(&mut text, pinned[shown].as_str());
            assert(text@ =~= joined_values(pv, (shown + 1) as nat));
            len = if len == 0 {
                vlen
            } else {
                len + 2 + vlen
            };
            shown = shown + 1;
        }
    }
    proof {
        if !stop {
            assert(shown_from(pv, shown as nat, len as nat) == shown);
        }
    }
    if shown < pinned.len() {
        push_str(&mut text, " +");
        crate::text::push_decimal(&mut text, (pinned.len() - shown) as u64);
    }
    let final_len = chars_of(text.as_str()).len();
    let mut k: usize = final_len;
    let ghost base = text@;
    while k < 16
        invariant
            final_len == base.len(),
            final_len <= k <= 16 || (k == final_len && final_len >= 16),
            text@ == base + Seq::new((k - final_len) as nat, |i: int| ' '),
        decreases 16 - k,
    {
        push_char(&mut text, ' ');
        assert(text@ =~= base + Seq::new((k + 1 - final_len) as nat, |i: int| ' '));
        k = k + 1;
    }
    proof {
        if final_len >= 16 {
            assert(Seq::new((k - final_len) as nat, |i: int| ' ') =~= Seq::<char>::empty());
            assert(text@ =~= base);
        }
    }
    text
}

/// Whether a pin is not `key`.
pub open spec fn other_than(key: Seq<char>) -> spec_fn(Seq<char>) -> bool {
    |k: Seq<char>| k != key
}

/// The pinned keys after a click on a row: the key is unpinned when pinned, pinned
/// (at the end) otherwise.
pub open spec fn toggled_pin(hot: Seq<Seq<char>>, key: Seq<char>) -> Seq<Seq<char>> {
    if hot.contains(key) {
        hot.filter(other_than(key))
    } else {
        hot.push(key)
    }
}

proof fn lemma_filter_keeps_all(s: Seq<Seq<char>>, key: Seq<char>)
    requires
        !s.contains(key),
    ensures
        s.filter(other_than(key)) == s,
    decreases s.len(),
{
    reveal(Seq::filter);
    if s.len() > 0 {
        assert(!s.drop_last().contains(key)) by {
            if s.drop_last().contains(key) {
                let j = choose|j: int| 0 <= j < s.drop_last().len() && s.drop_last()[j] == key;
                assert(s[j] == key);
            }
        }
        lemma_filter_keeps_all(s.drop_last(), key);
        assert(s.last() != key) by {
            assert(s[s.len() - 1] == s.last());
        }
        assert(s.drop_last().push(s.last()) =~= s);
    }
}

/// Pinning a row that was not pinned and unpinning it again leaves the pins as they were.
pub proof fn lemma_pin_then_unpin(hot: Seq<Seq<char>>, key: Seq<char>)
    requires
        !hot.contains(key),
    ensures
        toggled_pin(toggled_pin(hot, key), key) == hot,
{
    let pushed = hot.push(key);
    assert(pushed.contains(key)) by {
        assert(pushed[hot.len() as int] == key);
    }
    hot.lemma_filter_push(key, other_than(key));
    lemma_filter_keeps_all(hot, key);
}

/// Pins or unpins a row.
pub fn toggle_pin(hot: &Vec<String>, key: &str) -> (out: Vec<String>)
    ensures
        out@.map_values(|s: String| s@) == toggled_pin(hot@.map_values(|s: String| s@), key@),
{
    let ghost hv = hot@.map_values(|s: String| s@);
    let mut found = false;
    let mut out: Vec<String> = Vec::new();
    let mut i: usize = 0;
    while i < hot.len()
        invariant
            i <= hot.len(),
            hv == hot@.map_values(|s: String| s@),
            found == exists|j: int| 0 <= j < i && #[trigger] hv[j] == key@,
            out@.map_values(|s: String| s@) == hv.take(i as int).filter(other_than(key@)),
        decreases hot.len() - i,
    {
        let ghost before = out@.map_values(|s: String| s@);
        assert(hv[i as int] == hot@[i as int]@);
        proof {
            assert(hv.take(i + 1) =~= hv.take(i as int).push(hv[i as int]));
            hv.take(i as int).lemma_filter_push(hv[i as int], other_than(key@));
        }
        if str_eq(hot[i].as_str(), key) {
            found = true;
        } else {
            out.push(hot[i].clone());
            assert(out@.map_values(|s: String| s@) =~= before.push(hv[i as int]));
        }
        i = i + 1;
    }
    assert(hv.take(hot.len() as int) =~= hv);
    if found {
        assert(hv.contains(key@));
        out
    } else {
        proof {
            if hv.contains(key@) {
                let j = choose|j: int| 0 <= j < hv.len() && hv[j] == key@;
                assert(hv[j] == key@);
            }
        }
        let mut all = Vec::new();
        let mut j: usize = 0;
        while j < hot.len()
            invariant
                j <= hot.len(),
                hv == hot@.map_values(|s: String| s@),
                all@.map_values(|s: String| s@) == hv.take(j as int),
            decreases hot.len() - j,
        {
            let ghost before = all@.map_values(|s: String| s@);
            assert(hv[j as int] == hot@[j as int]@);
            all.push(hot[j].clone());
            assert(all@.map_values(|s: String| s@) =~= before.push(hv[j as int]));
            assert(hv.take(j + 1) =~= hv.take(j as int).push(hv[j as int]));
            j = j + 1;
        }
        assert(hv.take(hot.len() as int) =~= hv);
        all.push(key.to_string());
        assert(all@.map_values(|s: String| s@) =~= hv.push(key@));
        all
    }
}

/// The number standing for a public address (so that a change of address counts as a
/// change): each byte, from the first, folded in as `acc * 31 + byte`, wrapping at
/// 64 bits.
pub open spec fn ip_hash_spec(bytes: Seq<u8>) -> u64
    decreases bytes.len(),
{
    if bytes.len() == 0 {
        0
    } else {
        ((ip_hash_spec(bytes.drop_last()) * 31 + bytes.last()) % 0x1_0000_0000_0000_0000) as u64
    }
}

/// The number standing for a public address, from its bytes.
pub fn ip_hash(bytes: &[u8]) -> (h: u64)
    ensures
        h == ip_hash_spec(bytes@),
{
    let mut acc: u64 = 0;
    let mut i: usize = 0;
    while i < bytes.len()
        invariant
            i <= bytes.len(),
            acc == ip_hash_spec(bytes@.take(i as int)),
        decreases bytes.len() - i,
    {
        assert(bytes@.take(i + 1).drop_last() =~= bytes@.take(i as int));
        let b = bytes[i];
        let next = acc.wrapping_mul(31).wrapping_add(b as u64);
        assert(next == ((acc * 31 + b) % 0x1_0000_0000_0000_0000) as u64) by (bit_vector)
            requires
                next == (((acc * 31) % 0x1_0000_0000_0000_0000) as u64 + b as u64) % 0x1_0000_0000_0000_0000,
        ;
        acc = next;
        i = i + 1;
    }
    assert(bytes@.take(bytes.len() as int) =~= bytes@);
    acc
}

} // verus!
