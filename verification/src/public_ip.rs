//! The public IP address: what each provider's answer means, the flag of its country,
//! and when to ask again.
use vstd::prelude::*;

use crate::text::{chars_of, push_char, str_eq, to_lowercase, to_uppercase, unicode_lowercase, unicode_uppercase};

verus! {

/// Where the public address is asked.
#[derive(Clone, Copy, Debug, PartialEq, Eq, Structural)]
pub enum Provider {
    CoreCoding,
    MyIp,
    Ipify,
}

/// A public address, with the lower-case two-letter code of its country when the
/// provider gives one (MyIP.com's `"xx"` meaning unknown).
pub struct PublicIpReading {
    pub ip: String,
    pub country_code: Option<String>,
}

/// Whether a character is an ASCII letter.
pub open spec fn is_ascii_letter(c: char) -> bool {
    ('A' <= c && c <= 'Z') || ('a' <= c && c <= 'z')
}

/// The regional indicator symbol for a letter: `🇦` for `A`, then in order.
pub open spec fn regional_indicator(c: char) -> char {
    (0x1F1E6 + (c as u32 - 65)) as char
}

/// The flag for a code already upper-cased: two ASCII letters give their two regional
/// indicator symbols; anything else gives no flag.
pub open spec fn flag_from_upper(upper: Seq<char>) -> Option<Seq<char>> {
    if upper.len() == 2 && is_ascii_letter(upper[0]) && is_ascii_letter(upper[1]) {
        Some(seq![regional_indicator(upper[0]), regional_indicator(upper[1])])
    } else {
        None
    }
}

fn regional_indicator_exec(c: char) -> (r: char)
    requires
        is_ascii_letter(c),
    ensures
        r == regional_indicator(c),
{
    let b: u8 = if ('A' <= c && c <= 'Z') || ('a' <= c && c <= 'z') {
        proof {
            assert(c as u32 <= 122);
        }
        c as u8
    } else {
        65
    };
    let offset: u32 = (b - 65) as u32;
    let code: u32 = 0x1F1E6 + offset;
    assert(code as char == regional_indicator(c));
    match char_from_u32(code) {
        Some(r) => r,
        None => c,
    }
}

/// `char::from_u32`: the character with code point `code`, or `None` for a surrogate
/// (`0xD800` to `0xDFFF`) or a value above `0x10FFFF`, as its documentation says.
#[verifier::external_body]
fn char_from_u32(code: u32) -> (r: Option<char>)
    ensures
        (code < 0xD800 || (0xDFFF < code && code <= 0x10FFFF)) ==> r == Some(code as char),
        !(code < 0xD800 || (0xDFFF < code && code <= 0x10FFFF)) ==> r is None,
{
    char::from_u32(code)
}

/// The flag for a country code already upper-cased.
pub fn flag_emoji_from_upper(upper: &str) -> (out: Option<String>)
    ensures
        match out {
            Some(f) => flag_from_upper(upper@) == Some(f@),
            None => flag_from_upper(upper@) is None,
        },
{
    let v = chars_of(upper);
    if v.len() != 2 {
        return None;
    }
    let a = v[0];
    let b = v[1];
    if !((('A' <= a && a <= 'Z') || ('a' <= a && a <= 'z')) && (('A' <= b && b <= 'Z') || ('a' <= b && b <= 'z'))) {
        return None;
    }
    let mut out = String::new();
    push_char(&mut out, regional_indicator_exec(a));
    push_char(&mut out, regional_indicator_exec(b));
    assert(out@ =~= seq![regional_indicator(a), regional_indicator(b)]);
    Some(out)
}

/// The flag emoji of a two-letter country code, in either case: the code is
/// upper-cased, then its letters become regional indicator symbols.
pub fn flag_emoji(country_code: &str) -> (out: Option<String>)
    ensures
        match out {
            Some(f) => flag_from_upper(unicode_uppercase(country_code@)) == Some(f@),
            None => flag_from_upper(unicode_uppercase(country_code@)) is None,
        },
{
    let upper = to_uppercase(country_code);
    flag_emoji_from_upper(upper.as_str())
}

/// The country code a provider gave, lower-cased (the name of lower-casing), dropped
/// when it is `"xx"` for a provider that uses that for unknown.
pub open spec fn country_from(cc: Option<Seq<char>>, xx_means_unknown: bool) -> Option<Seq<char>> {
    match cc {
        Some(c) => {
            let l = unicode_lowercase(c);
            if xx_means_unknown && l == "xx"@ {
                None
            } else {
                Some(l)
            }
        },
        None => None,
    }
}

/// The reading from a provider's answer: its address and country code. MyIP.com uses
/// `"xx"` for an unknown country; ipify gives none.
pub fn reading_from(provider: Provider, ip: String, cc: Option<String>) -> (r: PublicIpReading)
    ensures
        r.ip@ == ip@,
        provider == Provider::Ipify ==> r.country_code is None,
        provider != Provider::Ipify ==> match r.country_code {
            Some(c) => country_from(
                match cc {
                    Some(c) => Some(c@),
                    None => None,
                },
                provider == Provider::MyIp,
            ) == Some(c@),
            None => country_from(
                match cc {
                    Some(c) => Some(c@),
                    None => None,
                },
                provider == Provider::MyIp,
            ) is None,
        },
{
    let country_code = match provider {
        Provider::Ipify => None,
        _ => match cc {
            None => None,
            Some(c) => {
                let l = to_lowercase(c.as_str());
                if provider == Provider::MyIp && str_eq(l.as_str(), "xx") {
                    None
                } else {
                    Some(l)
                }
            },
        },
    };
    PublicIpReading { ip, country_code }
}

/// When the public address was last asked for, and what is known of it.
pub struct PublicIpWatcher {
    pub in_flight: bool,
    pub last_fetch_ms: Option<u64>,
    pub latest: Option<PublicIpReading>,
}

/// Whether it is time to ask again: never asked, or at least `interval` seconds (at
/// least one) since the last time.
pub open spec fn fetch_due(last_fetch_ms: Option<u64>, now_ms: u64, interval_s: u32) -> bool {
    match last_fetch_ms {
        None => true,
        Some(t) => now_ms >= t && now_ms - t >= (if interval_s == 0 {
            1
        } else {
            interval_s
        }) * 1000,
    }
}

impl PublicIpWatcher {
    /// Nothing asked yet.
    pub fn new() -> (w: PublicIpWatcher)
        ensures
            !w.in_flight,
            w.last_fetch_ms is None,
            w.latest is None,
    {
        PublicIpWatcher { in_flight: false, last_fetch_ms: None, latest: None }
    }

    /// One tick at `now_ms` (milliseconds on a monotonic clock), with the answer that
    /// came back since the last tick, if any. When disabled nothing changes. Otherwise
    /// an answer becomes the latest reading and ends the request in flight; then, when
    /// the interval has passed and no request is in flight, a new one starts: the result
    /// says whether to start it.
    pub fn poll(&mut self, enabled: bool, now_ms: u64, interval_s: u32, received: Option<PublicIpReading>) -> (start: bool)
        ensures
            !enabled ==> !start && final(self).in_flight == old(self).in_flight && final(self).last_fetch_ms
                == old(self).last_fetch_ms,
            !enabled ==> final(self).latest == old(self).latest,
            enabled ==> {
                let in_flight = old(self).in_flight && received is None;
                &&& start == (fetch_due(old(self).last_fetch_ms, now_ms, interval_s) && !in_flight)
                &&& final(self).in_flight == (in_flight || start)
                &&& final(self).last_fetch_ms == if start {
                    Some(now_ms)
                } else {
                    old(self).last_fetch_ms
                }
                &&& (received is Some ==> final(self).latest == received)
                &&& (received is None ==> final(self).latest == old(self).latest)
            },
    {
        if !enabled {
            return false;
        }
        if old_in_flight_answered(&received) {
            self.latest = received;
            self.in_flight = false;
        }
        let interval: u64 = if interval_s == 0 {
            1
        } else {
            interval_s as u64
        };
        let due = match self.last_fetch_ms {
            None => true,
            Some(t) => now_ms >= t && now_ms - t >= interval * 1000,
        };
        let start = due && !self.in_flight;
        if start {
            self.in_flight = true;
            self.last_fetch_ms = Some(now_ms);
        }
        start
    }
}

fn old_in_flight_answered(received: &Option<PublicIpReading>) -> (r: bool)
    ensures
        r == received is Some,
{
    match received {
        Some(_) => true,
        None => false,
    }
}

} // verus!
