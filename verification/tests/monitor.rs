use pantau::menubar::{
    alphabetical_row_order,
    category_icon_name, fan_key, ip_hash, panel_order, panel_row_order, panel_title, public_ip_row, sensor_icon_name,
    toggle_pin,
};
use pantau::prefs::{category_for_key, PrefsWindowController};
use pantau::sensors::{
    aggregate_counts, disk_bytes, link_counters, memory_bytes, tick_sums, CpuSampler, CpuTicks, NetworkAccumulator, RawCounters,
    vm_statistics64,
};
use pantau::smc::{fourcc_to_string, key_code, FanKeys, ThermalProbe};

fn s(v: &[&str]) -> Vec<String> {
    v.iter().map(|x| x.to_string()).collect()
}

#[test]
fn sensor_icons() {
    assert_eq!(sensor_icon_name("cpu_total"), Some("cpu"));
    assert_eq!(sensor_icon_name("fan_2"), Some("fanblades.fill"));
    assert_eq!(sensor_icon_name("nonsense"), None);
    assert!(category_icon_name("CPU").is_some());
    assert_eq!(category_icon_name("Nope"), None);
}

#[test]
fn panel_order_follows_display_order() {
    assert_eq!(panel_order("cpu_total"), 0);
    assert_eq!(panel_order("cpu_temp"), 1);
    assert_eq!(panel_order("display_hz"), 15);
    assert_eq!(panel_order("unknown"), 5);
    assert_eq!(panel_order("battery_percentage"), panel_order("uptime"));
    assert!(panel_order("disk_usage") < panel_order("battery_percentage"));
}

#[test]
fn panel_title_nothing_pinned() {
    assert_eq!(panel_title(&vec![]), "Pantau");
}

#[test]
fn panel_title_fits_and_pads() {
    assert_eq!(panel_title(&s(&["12%", "48°C"])), format!("{:<16}", "12%  48°C"));
    assert_eq!(panel_title(&s(&["12%", "48°C"])).chars().count(), 16);
}

#[test]
fn panel_title_counts_what_does_not_fit() {
    let t = panel_title(&s(&["1.2 MB/s", "3.4 MB/s", "55%"]));
    assert_eq!(t, format!("{:<16}", "1.2 MB/s +2"));
    let long = panel_title(&s(&["a value far too long for the bar"]));
    assert_eq!(long, "a value far too long for the bar");
}

#[test]
fn pins_toggle_twice_is_identity_when_absent() {
    let hot = s(&["cpu_total", "mem_usage"]);
    let once = toggle_pin(&hot, "net_up");
    assert_eq!(once, s(&["cpu_total", "mem_usage", "net_up"]));
    assert_eq!(toggle_pin(&once, "net_up"), hot);
    assert_eq!(toggle_pin(&hot, "cpu_total"), s(&["mem_usage"]));
}

#[test]
fn ip_hash_folds_bytes() {
    assert_eq!(ip_hash(b""), 0);
    assert_eq!(ip_hash(b"a"), 97);
    assert_eq!(ip_hash(b"ab"), 97 * 31 + 98);
    let mut acc: u64 = 0;
    for b in b"203.0.113.77 and a long tail to wrap around".iter() {
        acc = acc.wrapping_mul(31).wrapping_add(*b as u64);
    }
    assert_eq!(ip_hash(b"203.0.113.77 and a long tail to wrap around"), acc);
}

#[test]
fn categories_of_keys() {
    assert_eq!(category_for_key("cpu_total"), Some("processor"));
    assert_eq!(category_for_key("fan_1"), Some("fan"));
    assert_eq!(category_for_key("net_up"), Some("network"));
    assert_eq!(category_for_key("bogus"), None);
}

#[test]
fn prefs_switch_flips() {
    let mut p = PrefsWindowController::new(s(&["cpu_total"]), vec![false; 7]);
    p.handle_toggle(3);
    assert_eq!(p.switches, vec![false, false, true, false, false, false, false]);
    p.handle_toggle(21);
    assert!(p.switches[6]);
    p.handle_toggle(99);
    assert_eq!(p.hot_sensors, s(&["cpu_total"]));
}

#[test]
fn prefs_category_off_then_on_brings_pins_back() {
    let mut p = PrefsWindowController::new(s(&["cpu_total", "fan_0", "mem_usage", "fan_1"]), vec![false; 7]);
    // tag 12 is the fan category
    p.handle_toggle(12);
    assert!(!p.shown[2]);
    assert_eq!(p.hot_sensors, s(&["cpu_total", "mem_usage"]));
    assert_eq!(p.stashed[2], s(&["fan_0", "fan_1"]));
    p.handle_toggle(12);
    assert!(p.shown[2]);
    assert_eq!(p.hot_sensors, s(&["cpu_total", "mem_usage", "fan_0", "fan_1"]));
    assert!(p.stashed[2].is_empty());
}

#[test]
fn smc_codes_round_trip() {
    let c = key_code(b"FNum");
    assert_eq!(c, 0x464E_756D);
    assert_eq!(fourcc_to_string(c), "FNum");
    assert_eq!(key_code(b"TC0"), u32::from_be_bytes(*b"TC0 "));
    assert_eq!(fourcc_to_string(key_code(b"TC0")), "TC0");
    let f = FanKeys::for_index(1);
    assert_eq!(f.actual_key, "F1Ac");
    assert_eq!(f.min_key, "F1Mn");
    assert_eq!(f.max_key, "F1Mx");
}

fn vm(free: u32, active: u32, inactive: u32, wire: u32, compressor: u32, external: u32) -> vm_statistics64 {
    vm_statistics64 {
        free_count: free,
        active_count: active,
        inactive_count: inactive,
        wire_count: wire,
        zero_fill_count: 0,
        reactivations: 0,
        pageins: 0,
        pageouts: 0,
        faults: 0,
        cow_faults: 0,
        lookups: 0,
        hits: 0,
        purges: 0,
        purgeable_count: 0,
        speculative_count: 0,
        decompressions: 0,
        compressions: 0,
        swapins: 0,
        swapouts: 0,
        compressor_page_count: compressor,
        throttled_count: 0,
        external_page_count: external,
        internal_page_count: 0,
        total_uncompressed_pages_in_compressor: 0,
    }
}

#[test]
fn memory_from_pages() {
    let m = memory_bytes(&vm(10, 20, 30, 40, 5, 7), 16384).unwrap();
    assert_eq!(m, (65 * 16384, 10 * 16384, 40 * 16384, 7 * 16384));
    assert_eq!(memory_bytes(&vm(1, 1, 1, 1, 1, 1), u64::MAX), None);
}

#[test]
fn cpu_deltas_between_samples() {
    let mut sampler = CpuSampler::new();
    let t0 = vec![CpuTicks { user: 10, system: 5, idle: 100, nice: 0 }];
    assert!(sampler.sample_deltas(t0).is_empty());
    let t1 = vec![CpuTicks { user: 30, system: 10, idle: 150, nice: 1 }];
    assert_eq!(sampler.sample_deltas(t1), vec![(26, 76)]);
    let two = vec![CpuTicks { user: 1, system: 1, idle: 1, nice: 1 }; 2];
    assert!(sampler.sample_deltas(two).is_empty());
    assert_eq!(tick_sums(&vec![CpuTicks { user: 1, system: 2, idle: 3, nice: 4 }; 3]), Some((30, 9)));
}

#[test]
fn link_counters_sum_per_interface() {
    let entries = vec![
        ("en0".to_string(), 100u64, 10u64),
        ("lo0".to_string(), 5, 5),
        ("en1".to_string(), 1, 2),
        ("en0".to_string(), 50, 5),
    ];
    let out = link_counters(&entries).unwrap();
    assert_eq!(out.len(), 2);
    assert_eq!(out[0].0, "en0");
    assert_eq!((out[0].1.rx_bytes, out[0].1.tx_bytes), (150, 15));
    assert_eq!(out[1].0, "en1");
    let overflow = vec![("en0".to_string(), u64::MAX, 0u64), ("en0".to_string(), 1, 0)];
    assert!(link_counters(&overflow).is_none());
}

#[test]
fn network_session_keeps_first_baseline() {
    let mut acc = NetworkAccumulator::new();
    let first = acc.sample(&vec![("en0".to_string(), RawCounters { rx_bytes: 1000, tx_bytes: 500 })], 1_000);
    assert_eq!(first[0].rx_bytes_session, 0);
    assert_eq!(first[0].since_previous, None);
    let second = acc.sample(&vec![("en0".to_string(), RawCounters { rx_bytes: 1600, tx_bytes: 700 })], 3_000);
    assert_eq!(second[0].rx_bytes_total, 1600);
    assert_eq!(second[0].rx_bytes_session, 600);
    assert_eq!(second[0].tx_bytes_session, 200);
    assert_eq!(second[0].since_previous, Some((600, 200, 2_000)));
    let third = acc.sample(&vec![("en0".to_string(), RawCounters { rx_bytes: 1700, tx_bytes: 700 })], 4_000);
    assert_eq!(third[0].rx_bytes_session, 700);
    assert_eq!(third[0].since_previous, Some((100, 0, 1_000)));
    // a counter reset never gives a negative amount
    let reset = acc.sample(&vec![("en0".to_string(), RawCounters { rx_bytes: 10, tx_bytes: 10 })], 5_000);
    assert_eq!(reset[0].rx_bytes_session, 0);
    assert_eq!(reset[0].since_previous, Some((0, 0, 1_000)));
}

#[test]
fn thermal_probe_prefers_intel_keys() {
    let table = vec![("Tp01".to_string(), "flt".to_string()), ("VC1C".to_string(), "sp78".to_string())];
    let p = ThermalProbe::discover(&vec![true, false], true, true, &vec![true, false, true], &table);
    assert_eq!(p.cpu_temp_keys, vec!["TC0P".to_string()]);
    assert_eq!(p.voltage_keys, vec!["VC0C".to_string()]);
    assert_eq!(p.gpu_temp_key, Some("TG0P".to_string()));
    let idx: Vec<u32> = p.fans.iter().map(|f| f.index).collect();
    assert_eq!(idx, vec![0, 2]);
    assert_eq!(p.fans[1].actual_key, "F2Ac");
}

#[test]
fn thermal_probe_scans_the_key_table() {
    let table = vec![
        ("Tp01".to_string(), "flt".to_string()),
        ("Tp05".to_string(), "ui8".to_string()),
        ("VC1C".to_string(), "sp78".to_string()),
        ("VC12X".to_string(), "flt".to_string()),
        ("Tp09".to_string(), "sp78".to_string()),
    ];
    let p = ThermalProbe::discover(&vec![false, false], false, false, &vec![], &table);
    assert_eq!(p.cpu_temp_keys, vec!["Tp01".to_string(), "Tp09".to_string()]);
    assert_eq!(p.voltage_keys, vec!["VC1C".to_string()]);
    assert_eq!(p.gpu_temp_key, None);
    assert!(p.fans.is_empty());
}

#[test]
fn device_aggregate_adds_interfaces() {
    let mut acc = NetworkAccumulator::new();
    let d = acc.sample(
        &vec![
            ("en0".to_string(), RawCounters { rx_bytes: 10, tx_bytes: 20 }),
            ("en1".to_string(), RawCounters { rx_bytes: 1, tx_bytes: 2 }),
        ],
        0,
    );
    assert_eq!(aggregate_counts(&d), Some((11, 22, 0, 0)));
}

#[test]
fn rows_follow_panel_order() {
    let keys = s(&["net_up", "bogus", "cpu_total", "other", "cpu_temp"]);
    assert_eq!(panel_row_order(&keys), vec![2, 4, 1, 3, 0]);
    assert!(panel_row_order(&vec![]).is_empty());
}

#[test]
fn fan_keys_and_ip_row() {
    assert_eq!(fan_key(0), Some("fan_0"));
    assert_eq!(fan_key(3), Some("fan_3"));
    assert_eq!(fan_key(4), None);
    assert_eq!(public_ip_row("203.0.113.7", Some("de"), true), "Public IP: 🇩🇪 203.0.113.7");
    assert_eq!(public_ip_row("203.0.113.7", Some("de"), false), "Public IP: 203.0.113.7");
    assert_eq!(public_ip_row("203.0.113.7", Some("x1"), true), "Public IP: 203.0.113.7");
    assert_eq!(public_ip_row("203.0.113.7", None, true), "Public IP: 203.0.113.7");
}

#[test]
fn disk_amounts_from_blocks() {
    assert_eq!(disk_bytes(1000, 250, 4096), Some((4_096_000, 3_072_000, 1_024_000)));
    assert_eq!(disk_bytes(10, 20, 512), Some((5120, 0, 10240)));
    assert_eq!(disk_bytes(u64::MAX, 1, 2), None);
    assert_eq!(disk_bytes(0, 0, 4096), Some((0, 0, 0)));
}

#[test]
fn rows_alphabetized_by_label() {
    let labels = s(&["Memory", "CPU Total", "Disk", "CPU Temp"]);
    assert_eq!(alphabetical_row_order(&labels), vec![3, 1, 2, 0]);
    assert_eq!(alphabetical_row_order(&s(&["apple", "Zed", "apple"])), vec![1, 0, 2]);
    assert!(alphabetical_row_order(&vec![]).is_empty());
}
