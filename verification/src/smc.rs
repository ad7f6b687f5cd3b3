//! SMC key names: the four-character codes they travel as, and the keys the thermal
//! probe looks for.
use vstd::prelude::*;

use crate::text::{chars_of, decimal, push_decimal, push_str, starts_with, str_eq, trim_end_seq};

verus! {

/// The byte at position `i` of a key, or a space past its end.
pub open spec fn key_byte(key: Seq<u8>, i: int) -> u8 {
    if i < key.len() {
        key[i]
    } else {
        32
    }
}

/// The four-character code of a key: its first four bytes (padded with spaces), most
/// significant first.
pub open spec fn key_code_spec(key: Seq<u8>) -> u32 {
    (key_byte(key, 0) * 16777216 + key_byte(key, 1) * 65536 + key_byte(key, 2) * 256 + key_byte(key, 3)) as u32
}

/// The four-character code of a key, from its UTF-8 bytes.
pub fn key_code(key: &[u8]) -> (r: u32)
    ensures
        r == key_code_spec(key@),
{
    let b0: u32 = if key.len() > 0 {
        key[0] as u32
    } else {
        32
    };
    let b1: u32 = if key.len() > 1 {
        key[1] as u32
    } else {
        32
    };
    let b2: u32 = if key.len() > 2 {
        key[2] as u32
    } else {
        32
    };
    let b3: u32 = if key.len() > 3 {
        key[3] as u32
    } else {
        32
    };
    b0 * 16777216 + b1 * 65536 + b2 * 256 + b3
}

/// The four bytes of a code, most significant first.
pub open spec fn code_bytes(code: u32) -> Seq<u8> {
    seq![(code / 16777216) as u8, ((code / 65536) % 256) as u8, ((code / 256) % 256) as u8, (code % 256) as u8]
}

/// What `String::from_utf8_lossy` makes of some bytes: their UTF-8 text, with each
/// invalid sequence replaced by U+FFFD.
pub uninterp spec fn utf8_lossy(bytes: Seq<u8>) -> Seq<char>;

/// `String::from_utf8_lossy`. Which sequences are invalid and how they are replaced is
/// named, not written out; what its documentation states of ASCII (valid UTF-8, one
/// character per byte) is.
#[verifier::external_body]
fn from_utf8_lossy(bytes: &[u8]) -> (r: String)
    ensures
        r@ == utf8_lossy(bytes@),
        (forall|i: int| 0 <= i < bytes@.len() ==> bytes@[i] < 128) ==> r@ == bytes@.map_values(
            |b: u8| b as char,
        ),
{
    String::from_utf8_lossy(bytes).into_owned()
}

/// A four-character code as text: its bytes decoded, trailing white space removed.
pub open spec fn fourcc_spec(code: u32) -> Seq<char> {
    trim_end_seq(utf8_lossy(code_bytes(code)))
}

/// A four-character code as text.
pub fn fourcc_to_string(code: u32) -> (s: String)
    ensures
        s@ == fourcc_spec(code),
        (forall|i: int| 0 <= i < 4 ==> code_bytes(code)[i] < 128) ==> s@ == trim_end_seq(
            code_bytes(code).map_values(|b: u8| b as char),
        ),
{
    let bytes: [u8; 4] = [(code / 16777216) as u8, ((code / 65536) % 256) as u8, ((code / 256) % 256) as u8, (
    code % 256) as u8];
    assert(bytes@ =~= code_bytes(code));
    let text = from_utf8_lossy(&bytes);
    crate::text::trim_end(text.as_str())
}

/// The bytes of a code are the bytes it was made from.
pub proof fn lemma_code_bytes(key: Seq<u8>)
    ensures
        code_bytes(key_code_spec(key)) == seq![key_byte(key, 0), key_byte(key, 1), key_byte(key, 2), key_byte(key, 3)],
{
    let b0 = key_byte(key, 0);
    let b1 = key_byte(key, 1);
    let b2 = key_byte(key, 2);
    let b3 = key_byte(key, 3);
    let c = key_code_spec(key);
    assert(c == b0 * 16777216 + b1 * 65536 + b2 * 256 + b3);
    assert(c / 16777216 == b0) by (nonlinear_arith)
        requires
            c == b0 * 16777216 + b1 * 65536 + b2 * 256 + b3,
            b1 < 256,
            b2 < 256,
            b3 < 256,
    ;
    assert((c / 65536) % 256 == b1) by (nonlinear_arith)
        requires
            c == b0 * 16777216 + b1 * 65536 + b2 * 256 + b3,
            b1 < 256,
            b2 < 256,
            b3 < 256,
    ;
    assert((c / 256) % 256 == b2) by (nonlinear_arith)
        requires
            c == b0 * 16777216 + b1 * 65536 + b2 * 256 + b3,
            b2 < 256,
            b3 < 256,
    ;
    assert(c % 256 == b3) by (nonlinear_arith)
        requires
            c == b0 * 16777216 + b1 * 65536 + b2 * 256 + b3,
            b3 < 256,
    ;
    assert(code_bytes(c) =~= seq![b0, b1, b2, b3]);
}

/// The fan keys for fan `index`: actual, minimum and maximum speed.
pub struct FanKeys {
    pub index: u32,
    pub actual_key: String,
    pub min_key: String,
    pub max_key: String,
}

impl FanKeys {
    /// The keys `F<i>Ac`, `F<i>Mn` and `F<i>Mx` of fan `i`.
    pub fn for_index(index: u32) -> (f: FanKeys)
        ensures
            f.index == index,
            f.actual_key@ == "F"@ + decimal(index as nat) + "Ac"@,
            f.min_key@ == "F"@ + decimal(index as nat) + "Mn"@,
            f.max_key@ == "F"@ + decimal(index as nat) + "Mx"@,
    {
        let mut a = "F".to_string();
        push_decimal(&mut a, index as u64);
        let mut mn = a.clone();
        let mut mx = a.clone();
        push_str(&mut a, "Ac");
        push_str(&mut mn, "Mn");
        push_str(&mut mx, "Mx");
        FanKeys { index, actual_key: a, min_key: mn, max_key: mx }
    }
}

/// The CPU temperature keys of Intel Macs, tried first.
pub fn intel_cpu_temp_keys() -> (out: Vec<&'static str>)
    ensures
        out@.map_values(|s: &str| s@) == seq!["TC0P"@, "TC0D"@],
{
    let out = vec!["TC0P", "TC0D"];
    assert(out@.map_values(|s: &str| s@) =~= seq!["TC0P"@, "TC0D"@]);
    out
}

/// The number of bytes of a character in UTF-8.
pub open spec fn utf8_width(c: char) -> nat {
    if (c as u32) < 0x80 {
        1
    } else if (c as u32) < 0x800 {
        2
    } else if (c as u32) < 0x10000 {
        3
    } else {
        4
    }
}

/// The number of bytes of a text in UTF-8 (what `str::len` gives).
pub open spec fn utf8_len(s: Seq<char>) -> nat
    decreases s.len(),
{
    if s.len() == 0 {
        0
    } else {
        utf8_len(s.drop_last()) + utf8_width(s.last())
    }
}

proof fn lemma_utf8_len_mono(s: Seq<char>, i: int)
    requires
        0 <= i <= s.len(),
    ensures
        utf8_len(s.take(i)) <= utf8_len(s),
    decreases s.len() - i,
{
    if i < s.len() {
        lemma_utf8_len_mono(s, i + 1);
        assert(s.take(i + 1).drop_last() =~= s.take(i));
    } else {
        assert(s.take(i) =~= s);
    }
}

/// Whether a text takes exactly four bytes in UTF-8 (`str::len() == 4`).
pub fn utf8_len_is_four(s: &str) -> (r: bool)
    ensures
        r == (utf8_len(s@) == 4),
{
    let v = chars_of(s);
    let mut n: usize = 0;
    let mut i: usize = 0;
    while i < v.len()
        invariant
            i <= v.len(),
            v@ == s@,
            n == utf8_len(v@.take(i as int)),
            n <= 4,
        decreases v.len() - i,
    {
        assert(v@.take(i + 1).drop_last() =~= v@.take(i as int));
        let c = v[i] as u32;
        let w: usize = if c < 0x80 {
            1
        } else if c < 0x800 {
            2
        } else if c < 0x10000 {
            3
        } else {
            4
        };
        if n + w > 4 {
            proof {
                lemma_utf8_len_mono(v@, i + 1);
            }
            return false;
        }
        n = n + w;
        i = i + 1;
    }
    assert(v@.take(v.len() as int) =~= v@);
    n == 4
}

/// Which keys found by scanning the key table the probe keeps: those of type `flt` or
/// `sp78`; as CPU temperatures those starting with `Tp0` (when the Intel keys were not
/// there), as voltages the four-byte ones starting with `VC` (when the Intel key was not
/// there).
pub open spec fn scanned_key_use(name: Seq<char>, ty: Seq<char>, need_cpu: bool, need_voltage: bool) -> (bool, bool) {
    if ty == "flt"@ || ty == "sp78"@ {
        (
            need_cpu && "Tp0"@.is_prefix_of(name),
            need_voltage && "VC"@.is_prefix_of(name) && utf8_len(name) == 4,
        )
    } else {
        (false, false)
    }
}

/// Which lists a scanned key joins: (CPU temperatures, voltages).
pub fn scanned_key(name: &str, ty: &str, need_cpu: bool, need_voltage: bool) -> (r: (bool, bool))
    ensures
        r == scanned_key_use(name@, ty@, need_cpu, need_voltage),
{
    if str_eq(ty, "flt") || str_eq(ty, "sp78") {
        let cpu = need_cpu && starts_with(name, "Tp0");
        let volt = need_voltage && starts_with(name, "VC") && utf8_len_is_four(name);
        (cpu, volt)
    } else {
        (false, false)
    }
}

/// The SMC keys this Mac exposes for the thermal readings, found once at start.
pub struct ThermalProbe {
    pub cpu_temp_keys: Vec<String>,
    pub gpu_temp_key: Option<String>,
    pub fans: Vec<FanKeys>,
    pub voltage_keys: Vec<String>,
}

/// The Intel keys that are present, in order.
pub open spec fn present_keys(keys: Seq<Seq<char>>, present: Seq<bool>) -> Seq<Seq<char>> {
    crate::clean::flagged(keys, present)
}

/// The names of the key-table entries that join the CPU temperatures.
pub open spec fn scanned_cpu_keys(table: Seq<(Seq<char>, Seq<char>)>, need_cpu: bool, need_voltage: bool) -> Seq<
    Seq<char>,
> {
    table.filter(|e: (Seq<char>, Seq<char>)| scanned_key_use(e.0, e.1, need_cpu, need_voltage).0).map_values(
        |e: (Seq<char>, Seq<char>)| e.0,
    )
}

/// The names of the key-table entries that join the voltages.
pub open spec fn scanned_voltage_keys(table: Seq<(Seq<char>, Seq<char>)>, need_cpu: bool, need_voltage: bool) -> Seq<
    Seq<char>,
> {
    table.filter(|e: (Seq<char>, Seq<char>)| scanned_key_use(e.0, e.1, need_cpu, need_voltage).1).map_values(
        |e: (Seq<char>, Seq<char>)| e.0,
    )
}

/// The indices of the fans whose speed key is present.
pub open spec fn present_fans(fan_present: Seq<bool>) -> Seq<nat> {
    crate::clean::flagged(Seq::new(fan_present.len(), |i: int| i as nat), fan_present)
}

impl ThermalProbe {
    /// The keys found: the Intel CPU temperature keys that are present
    /// (`intel_cpu_present`, for `TC0P` and `TC0D`), else the `Tp0` keys of the key
    /// table; `TG0P` when present; the keys of each fan whose speed key is present
    /// (`fan_present`, one flag per fan that `FNum` counts); `VC0C` when present, else
    /// the four-byte `VC` keys of the key table. Only entries of type `flt` or `sp78` of
    /// the key table (name, type) are taken; it is read only when something is missing.
    pub fn discover(
        intel_cpu_present: &Vec<bool>,
        gpu_present: bool,
        voltage_present: bool,
        fan_present: &Vec<bool>,
        key_table: &Vec<(String, String)>,
    ) -> (p: ThermalProbe)
        requires
            intel_cpu_present.len() == 2,
            fan_present.len() <= u32::MAX,
        ensures
            ({
                let cpu0 = present_keys(seq!["TC0P"@, "TC0D"@], intel_cpu_present@);
                let volt0: Seq<Seq<char>> = if voltage_present {
                    seq!["VC0C"@]
                } else {
                    Seq::empty()
                };
                let table = key_table@.map_values(|e: (String, String)| (e.0@, e.1@));
                let need_cpu = cpu0.len() == 0;
                let need_voltage = volt0.len() == 0;
                &&& p.cpu_temp_keys@.map_values(|s: String| s@) == cpu0 + scanned_cpu_keys(
                    table,
                    need_cpu,
                    need_voltage,
                )
                &&& p.voltage_keys@.map_values(|s: String| s@) == volt0 + scanned_voltage_keys(
                    table,
                    need_cpu,
                    need_voltage,
                )
            }),
            gpu_present ==> (p.gpu_temp_key matches Some(k) && k@ == "TG0P"@),
            !gpu_present ==> p.gpu_temp_key is None,
            p.fans@.map_values(|f: FanKeys| f.index as nat) == present_fans(fan_present@),
            forall|k: int|
                0 <= k < p.fans.len() ==> {
                    let f = #[trigger] p.fans@[k];
                    &&& f.actual_key@ == "F"@ + decimal(f.index as nat) + "Ac"@
                    &&& f.min_key@ == "F"@ + decimal(f.index as nat) + "Mn"@
                    &&& f.max_key@ == "F"@ + decimal(f.index as nat) + "Mx"@
                },
    {
        let intel = intel_cpu_temp_keys();
        let ghost iv = intel@.map_values(|s: &str| s@);
        assert(iv.len() == intel@.len());
        let mut cpu: Vec<String> = Vec::new();
        let mut i: usize = 0;
        while i < 2
            invariant
                i <= 2,
                intel.len() == 2,
                intel_cpu_present.len() == 2,
                iv == intel@.map_values(|s: &str| s@),
                iv == seq!["TC0P"@, "TC0D"@],
                cpu@.map_values(|s: String| s@) == present_keys(iv.take(i as int), intel_cpu_present@),
            decreases 2 - i,
        {
            assert(iv.take(i + 1).drop_last() =~= iv.take(i as int));
            let ghost before = cpu@.map_values(|s: String| s@);
            if intel_cpu_present[i] {
                cpu.push(intel[i].to_string());
                assert(cpu@.map_values(|s: String| s@) =~= before.push(iv[i as int]));
            }
            i = i + 1;
        }
        assert(iv.take(2) =~= iv);
        let gpu_temp_key = if gpu_present {
            Some("TG0P".to_string())
        } else {
            None
        };
        let mut voltage: Vec<String> = Vec::new();
        if voltage_present {
            voltage.push("VC0C".to_string());
        }
        assert(voltage@.map_values(|s: String| s@) =~= if voltage_present {
            seq!["VC0C"@]
        } else {
            Seq::<Seq<char>>::empty()
        });
        let ghost idx = Seq::new(fan_present.len() as nat, |i: int| i as nat);
        let mut fans: Vec<FanKeys> = Vec::new();
        let mut f: usize = 0;
        while f < fan_present.len()
            invariant
                f <= fan_present.len(),
                fan_present.len() <= u32::MAX,
                idx == Seq::new(fan_present.len() as nat, |i: int| i as nat),
                fans@.map_values(|x: FanKeys| x.index as nat) == crate::clean::flagged(
                    idx.take(f as int),
                    fan_present@,
                ),
                forall|k: int|
                    0 <= k < fans.len() ==> {
                        let x = #[trigger] fans@[k];
                        &&& x.actual_key@ == "F"@ + decimal(x.index as nat) + "Ac"@
                        &&& x.min_key@ == "F"@ + decimal(x.index as nat) + "Mn"@
                        &&& x.max_key@ == "F"@ + decimal(x.index as nat) + "Mx"@
                    },
            decreases fan_present.len() - f,
        {
            assert(idx.take(f + 1).drop_last() =~= idx.take(f as int));
            let ghost before = fans@.map_values(|x: FanKeys| x.index as nat);
            if fan_present[f] {
                let keys = FanKeys::for_index(f as u32);
                fans.push(keys);
                assert(fans@.map_values(|x: FanKeys| x.index as nat) =~= before.push(f as nat));
            }
            f = f + 1;
        }
        assert(idx.take(fan_present.len() as int) =~= idx);
        let need_cpu = cpu.len() == 0;
        let need_voltage = voltage.len() == 0;
        let ghost table = key_table@.map_values(|e: (String, String)| (e.0@, e.1@));
        let ghost cpu0 = cpu@.map_values(|s: String| s@);
        let ghost volt0 = voltage@.map_values(|s: String| s@);
        let mut t: usize = 0;
        while t < key_table.len()
            invariant
                t <= key_table.len(),
                table == key_table@.map_values(|e: (String, String)| (e.0@, e.1@)),
                cpu@.map_values(|s: String| s@) == cpu0 + scanned_cpu_keys(table.take(t as int), need_cpu, need_voltage),
                voltage@.map_values(|s: String| s@) == volt0 + scanned_voltage_keys(
                    table.take(t as int),
                    need_cpu,
                    need_voltage,
                ),
            decreases key_table.len() - t,
        {
            let ghost pre = table.take(t as int);
            let ghost e = table[t as int];
            assert(table.take(t + 1) =~= pre.push(e));
            proof {
                pre.lemma_filter_push(
                    e,
                    |e: (Seq<char>, Seq<char>)| scanned_key_use(e.0, e.1, need_cpu, need_voltage).0,
                );
                pre.lemma_filter_push(
                    e,
                    |e: (Seq<char>, Seq<char>)| scanned_key_use(e.0, e.1, need_cpu, need_voltage).1,
                );
            }
            let ghost cb = cpu@.map_values(|s: String| s@);
            let ghost vb = voltage@.map_values(|s: String| s@);
            let (to_cpu, to_volt) = scanned_key(key_table[t].0.as_str(), key_table[t].1.as_str(), need_cpu, need_voltage);
            if to_cpu {
                cpu.push(key_table[t].0.clone());
                assert(cpu@.map_values(|s: String| s@) =~= cb.push(e.0));
            }
            if to_volt {
                voltage.push(key_table[t].0.clone());
                assert(voltage@.map_values(|s: String| s@) =~= vb.push(e.0));
            }
            assert(scanned_cpu_keys(table.take(t + 1), need_cpu, need_voltage) =~= if to_cpu {
                scanned_cpu_keys(pre, need_cpu, need_voltage).push(e.0)
            } else {
                scanned_cpu_keys(pre, need_cpu, need_voltage)
            });
            assert(scanned_voltage_keys(table.take(t + 1), need_cpu, need_voltage) =~= if to_volt {
                scanned_voltage_keys(pre, need_cpu, need_voltage).push(e.0)
            } else {
                scanned_voltage_keys(pre, need_cpu, need_voltage)
            });
            t = t + 1;
        }
        assert(table.take(key_table.len() as int) =~= table);
        ThermalProbe { cpu_temp_keys: cpu, gpu_temp_key, fans, voltage_keys: voltage }
    }
}

/// Trailing spaces make no difference once trailing white space is removed.
proof fn lemma_trim_end_spaces(x: Seq<char>, n: nat)
    ensures
        trim_end_seq(x + Seq::new(n, |i: int| ' ')) == trim_end_seq(x),
    decreases n,
{
    if n > 0 {
        let y = x + Seq::new(n, |i: int| ' ');
        assert(y.drop_last() =~= x + Seq::new((n - 1) as nat, |i: int| ' '));
        assert(y.last() == ' ');
        lemma_trim_end_spaces(x, (n - 1) as nat);
    } else {
        assert(x + Seq::new(0, |i: int| ' ') =~= x);
    }
}

/// A key of at most four ASCII bytes comes back from its code as its text, trailing
/// white space removed (what the key table's codes give back as names).
pub proof fn lemma_key_code_roundtrip(key: Seq<u8>)
    requires
        key.len() <= 4,
        forall|i: int| 0 <= i < key.len() ==> key[i] < 128,
    ensures
        forall|i: int| 0 <= i < 4 ==> code_bytes(key_code_spec(key))[i] < 128,
        trim_end_seq(code_bytes(key_code_spec(key)).map_values(|b: u8| b as char)) == trim_end_seq(
            key.map_values(|b: u8| b as char),
        ),
{
    lemma_code_bytes(key);
    let bytes = code_bytes(key_code_spec(key));
    let x = key.map_values(|b: u8| b as char);
    let n = (4 - key.len()) as nat;
    assert((32u8 as char) == ' ');
    assert(bytes.map_values(|b: u8| b as char) =~= x + Seq::new(n, |i: int| ' '));
    lemma_trim_end_spaces(x, n);
}

} // verus!
