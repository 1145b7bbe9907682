//! Connection and timing parameters read from the key/value configuration
//! table. A missing key or an unreadable value always falls back to the default.

use vstd::prelude::*;
use crate::address::PlcMap;
use crate::codec::{spec_parse_byte_order, ByteOrder};
use crate::text::{chars_vec, split_chars, split_on, str_eq, trim, trim_bounds};

verus! {

/// The configuration table as key/value pairs, as the table holds them (each
/// key at most once; see `keys_unique`).
pub type ConfigEntries = Vec<(String, String)>;

/// No key occurs twice, as in the key/value table the pairs are read from.
pub open spec fn keys_unique(m: Seq<(String, String)>) -> bool {
    forall|i: int, j: int| 0 <= i < j < m.len() ==> #[trigger] m[i].0@ != #[trigger] m[j].0@
}

/// The value stored under key `k`, if any (the first entry with that key).
pub open spec fn lookup(m: Seq<(String, String)>, k: Seq<char>) -> Option<Seq<char>>
    decreases m.len(),
{
    if m.len() == 0 {
        None
    } else if m[0].0@ == k {
        Some(m[0].1@)
    } else {
        lookup(m.drop_first(), k)
    }
}

/// With unique keys, the value found under a key is the one its entry holds,
/// wherever that entry stands: the pairs act as the map they were read from.
pub proof fn lemma_lookup_unique(m: Seq<(String, String)>, i: int)
    requires
        keys_unique(m),
        0 <= i < m.len(),
    ensures
        lookup(m, m[i].0@) == Some(m[i].1@),
    decreases m.len(),
{
    if i > 0 {
        assert(m[0].0@ != m[i].0@);
        let t = m.drop_first();
        assert forall|a: int, b: int| 0 <= a < b < t.len() implies #[trigger] t[a].0@ != #[trigger] t[b].0@ by {
            assert(t[a] == m[a + 1] && t[b] == m[b + 1]);
        }
        assert(t[i - 1] == m[i]);
        lemma_lookup_unique(t, i - 1);
    }
}

/// The value under `k`, or `d` when the key is missing.
pub open spec fn cfg_str(m: Seq<(String, String)>, k: Seq<char>, d: Seq<char>) -> Seq<char> {
    match lookup(m, k) {
        Some(v) => v,
        None => d,
    }
}

/// An ASCII decimal digit.
pub open spec fn is_digit(c: char) -> bool {
    '0' <= c && c <= '9'
}

/// Every character is an ASCII decimal digit.
pub open spec fn all_digits(s: Seq<char>) -> bool {
    forall|i: int| 0 <= i < s.len() ==> is_digit(#[trigger] s[i])
}

/// The number that a string of decimal digits denotes.
pub open spec fn digits_value(s: Seq<char>) -> int
    decreases s.len(),
{
    if s.len() == 0 {
        0
    } else {
        digits_value(s.drop_last()) * 10 + ((s.last() as int) - ('0' as int))
    }
}

/// The result of `<u64 as FromStr>::from_str`: an optional `+` and then one or
/// more ASCII digits whose value fits in 64 bits; anything else is refused.
pub open spec fn spec_parse_u64(s: Seq<char>) -> Option<u64> {
    let body = if s.len() > 0 && s[0] == '+' {
        s.drop_first()
    } else {
        s
    };
    if body.len() == 0 || !all_digits(body) || digits_value(body) > u64::MAX {
        None
    } else {
        Some(digits_value(body) as u64)
    }
}

/// The number under `k`, or `d` when the key is missing or its value is not a number.
pub open spec fn cfg_num(m: Seq<(String, String)>, k: Seq<char>, d: u64) -> u64 {
    match lookup(m, k) {
        Some(v) => match spec_parse_u64(v) {
            Some(x) => x,
            None => d,
        },
        None => d,
    }
}

/// The number under `k` when it is at most `max`; `d` when the key is missing,
/// its value is not a number, or the number is out of the field's range.
pub open spec fn cfg_num_upto(m: Seq<(String, String)>, k: Seq<char>, d: u64, max: u64) -> u64 {
    match lookup(m, k) {
        Some(v) => match spec_parse_u64(v) {
            Some(x) => if x <= max {
                x
            } else {
                d
            },
            None => d,
        },
        None => d,
    }
}

/// The larger of two numbers.
pub open spec fn max_u64(a: u64, b: u64) -> u64 {
    if a >= b {
        a
    } else {
        b
    }
}

/// The numbers among comma-separated pieces: each piece trimmed, unreadable ones skipped.
pub open spec fn parse_list(parts: Seq<Seq<char>>) -> Seq<u64>
    decreases parts.len(),
{
    if parts.len() == 0 {
        Seq::<u64>::empty()
    } else {
        let prev = parse_list(parts.drop_last());
        match spec_parse_u64(trim(parts.last())) {
            Some(x) => prev.push(x),
            None => prev,
        }
    }
}

/// Default reconnect back-off schedule, in milliseconds.
pub open spec fn default_backoff() -> Seq<u64> {
    seq![1000u64, 2000u64, 5000u64, 10000u64]
}

/// The reconnect back-off schedule that the table selects; an empty list selects the default.
pub open spec fn spec_backoff(m: Seq<(String, String)>) -> Seq<u64> {
    let l = parse_list(
        split_on(cfg_str(m, "reconnect_backoff_ms"@, "1000,2000,5000,10000"@), ','),
    );
    if l.len() == 0 {
        default_backoff()
    } else {
        l
    }
}

/// The alarm polling period: its own key when that holds at least 100 ms,
/// else the telemetry read period.
pub open spec fn spec_alarm_interval(m: Seq<(String, String)>) -> u64 {
    let v = cfg_num(m, "alarm_interval_ms"@, 0);
    if v >= 100 {
        v
    } else {
        max_u64(cfg_num(m, "read_interval_ms"@, 500), 100)
    }
}

/// Whether the supervisor connects at start-up: unless `auto_connect` holds
/// something other than `true`.
pub open spec fn spec_auto_connect(m: Seq<(String, String)>) -> bool {
    match lookup(m, "auto_connect"@) {
        Some(v) => v == "true"@,
        None => true,
    }
}

/// Connection and timing parameters.
#[derive(Debug, Clone)]
pub struct PlcConfig {
    pub ip: String,
    pub port: u16,
    pub unit_id: u8,
    pub heartbeat_reg: u16,
    pub heartbeat_ms: u64,
    pub watchdog_read_ms: u64,
    pub watchdog_fails: u32,
    pub conn_timeout_ms: u64,
    pub io_timeout_ms: u64,
    pub read_interval_ms: u64,
    /// Alarm/prompt polling period; falls back to `read_interval_ms` when not configured.
    pub alarm_interval_ms: u64,
    pub backoff_ms: Vec<u64>,
    pub byte_order: ByteOrder,
    /// Width of the short pulse of rising-edge command coils (Inc/Abs/stop ...).
    pub cmd_pulse_ms: u64,
    pub map: PlcMap,
}

/// The value stored under key `k`, if any.
pub fn config_get<'a>(m: &'a ConfigEntries, k: &str) -> (r: Option<&'a String>)
    ensures
        match r {
            Some(v) => lookup(m@, k@) == Some(v@),
            None => lookup(m@, k@) is None,
        },
{
    let mut i: usize = 0;
    assert(m@.subrange(0, m@.len() as int) =~= m@);
    while i < m.len()
        invariant
            i <= m.len(),
            lookup(m@, k@) == lookup(m@.subrange(i as int, m@.len() as int), k@),
        decreases m.len() - i,
    {
        assert(m@.subrange(i as int, m@.len() as int).drop_first() =~= m@.subrange(
            i + 1,
            m@.len() as int,
        ));
        if str_eq(m[i].0.as_str(), k) {
            return Some(&m[i].1);
        }
        i = i + 1;
    }
    None
}

/// Digit strings are never negative.
proof fn lemma_digits_value_nonneg(s: Seq<char>)
    requires
        all_digits(s),
    ensures
        digits_value(s) >= 0,
    decreases s.len(),
{
    if s.len() > 0 {
        assert(all_digits(s.drop_last()));
        lemma_digits_value_nonneg(s.drop_last());
        assert(is_digit(s[s.len() - 1]));
    }
}

/// A prefix of a digit string denotes no more than the whole string.
proof fn lemma_digits_prefix_le(s: Seq<char>, k: int)
    requires
        all_digits(s),
        0 <= k <= s.len(),
    ensures
        digits_value(s.subrange(0, k)) <= digits_value(s),
    decreases s.len(),
{
    if k == s.len() {
        assert(s.subrange(0, k) =~= s);
    } else {
        assert(all_digits(s.drop_last()));
        lemma_digits_prefix_le(s.drop_last(), k);
        assert(s.drop_last().subrange(0, k) =~= s.subrange(0, k));
        lemma_digits_value_nonneg(s.drop_last());
        assert(is_digit(s[s.len() - 1]));
    }
}

/// Reads an unsigned 64-bit decimal number from `cs[lo..hi]` (`u64::from_str`).
pub fn parse_u64_range(cs: &Vec<char>, lo: usize, hi: usize) -> (r: Option<u64>)
    requires
        lo <= hi <= cs.len(),
    ensures
        r == spec_parse_u64(cs@.subrange(lo as int, hi as int)),
{
    let ghost s = cs@.subrange(lo as int, hi as int);
    let start: usize = if lo < hi && cs[lo] == '+' {
        lo + 1
    } else {
        lo
    };
    let ghost body = cs@.subrange(start as int, hi as int);
    proof {
        if lo < hi && cs@[lo as int] == '+' {
            assert(s.drop_first() =~= body);
        } else {
            assert(s =~= body);
        }
    }
    if start == hi {
        return None;
    }
    let mut acc: u64 = 0;
    let mut j: usize = start;
    assert(cs@.subrange(start as int, start as int) =~= Seq::<char>::empty());
    while j < hi
        invariant
            start <= j <= hi <= cs.len(),
            start < hi,
            body == cs@.subrange(start as int, hi as int),
            s == cs@.subrange(lo as int, hi as int),
            spec_parse_u64(s) == (if body.len() == 0 || !all_digits(body) || digits_value(body)
                > u64::MAX {
                None
            } else {
                Some(digits_value(body) as u64)
            }),
            all_digits(cs@.subrange(start as int, j as int)),
            acc == digits_value(cs@.subrange(start as int, j as int)),
        decreases hi - j,
    {
        let c = cs[j];
        let ghost pre = cs@.subrange(start as int, j as int);
        let ghost nxt = cs@.subrange(start as int, j + 1);
        proof {
            assert(nxt.drop_last() =~= pre);
            assert(nxt.last() == c);
        }
        if !('0' <= c && c <= '9') {
            proof {
                assert(body[j - start] == c);
            }
            return None;
        }
        let d: u64 = (c as u64) - ('0' as u64);
        proof {
            assert(all_digits(nxt)) by {
                assert forall|t: int| 0 <= t < nxt.len() implies is_digit(#[trigger] nxt[t]) by {
                    if t < pre.len() {
                        assert(nxt[t] == pre[t]);
                    }
                }
            }
        }
        let step = acc.checked_mul(10);
        let next = match step {
            Some(x) => x.checked_add(d),
            None => None,
        };
        match next {
            Some(v) => {
                acc = v;
            },
            None => {
                proof {
                    assert(digits_value(nxt) > u64::MAX);
                    if all_digits(body) {
                        assert(body.subrange(0, (j + 1 - start) as int) =~= nxt);
                        lemma_digits_prefix_le(body, (j + 1 - start) as int);
                    }
                }
                return None;
            },
        }
        j = j + 1;
    }
    proof {
        assert(cs@.subrange(start as int, j as int) =~= body);
    }
    Some(acc)
}

/// The number stored under `k`, or `d`.
pub fn config_num(m: &ConfigEntries, k: &str, d: u64) -> (r: u64)
    ensures
        r == cfg_num(m@, k@, d),
{
    match config_get(m, k) {
        Some(v) => {
            let cs = chars_vec(v.as_str());
            assert(cs@.subrange(0, cs@.len() as int) =~= cs@);
            match parse_u64_range(&cs, 0, cs.len()) {
                Some(x) => x,
                None => d,
            }
        },
        None => d,
    }
}

/// The number stored under `k` when it is at most `max`, else `d`.
pub fn config_num_upto(m: &ConfigEntries, k: &str, d: u64, max: u64) -> (r: u64)
    ensures
        r == cfg_num_upto(m@, k@, d, max),
{
    match config_get(m, k) {
        Some(v) => {
            let cs = chars_vec(v.as_str());
            assert(cs@.subrange(0, cs@.len() as int) =~= cs@);
            match parse_u64_range(&cs, 0, cs.len()) {
                Some(x) => if x <= max {
                    x
                } else {
                    d
                },
                None => d,
            }
        },
        None => d,
    }
}

/// `v`, raised to `floor` when smaller.
fn at_least(v: u64, floor: u64) -> (r: u64)
    ensures
        r == max_u64(v, floor),
{
    if v >= floor {
        v
    } else {
        floor
    }
}

/// The reconnect back-off schedule.
pub fn config_backoff(m: &ConfigEntries) -> (v: Vec<u64>)
    ensures
        v@ == spec_backoff(m@),
        v@.len() > 0,
{
    let text = match config_get(m, "reconnect_backoff_ms") {
        Some(s) => chars_vec(s.as_str()),
        None => chars_vec("1000,2000,5000,10000"),
    };
    let parts = split_chars(&text, ',');
    let ghost sp = split_on(text@, ',');
    let mut out: Vec<u64> = Vec::new();
    let mut i: usize = 0;
    assert(sp.subrange(0, 0) =~= Seq::<Seq<char>>::empty());
    while i < parts.len()
        invariant
            i <= parts@.len() == sp.len(),
            forall|k: int| 0 <= k < parts@.len() ==> #[trigger] parts@[k]@ == sp[k],
            out@ == parse_list(sp.subrange(0, i as int)),
        decreases parts.len() - i,
    {
        let piece = &parts[i];
        let (lo, hi) = trim_bounds(piece);
        let got = parse_u64_range(piece, lo, hi);
        proof {
            assert(sp.subrange(0, i + 1).drop_last() =~= sp.subrange(0, i as int));
            assert(sp.subrange(0, i + 1).last() == piece@);
        }
        match got {
            Some(x) => {
                out.push(x);
            },
            None => {},
        }
        i = i + 1;
    }
    assert(sp.subrange(0, sp.len() as int) =~= sp);
    if out.len() == 0 {
        let d = vec![1000u64, 2000u64, 5000u64, 10000u64];
        assert(d@ =~= default_backoff());
        d
    } else {
        out
    }
}

/// Whether the supervisor connects at start-up.
pub fn auto_connect(m: &ConfigEntries) -> (b: bool)
    ensures
        b == spec_auto_connect(m@),
{
    match config_get(m, "auto_connect") {
        Some(v) => str_eq(v.as_str(), "true"),
        None => true,
    }
}

impl PlcConfig {
    /// Reads the parameters from the configuration table.
    pub fn from_map(m: &ConfigEntries) -> (c: Self)
        ensures
            c.ip@ == cfg_str(m@, "plc_ip"@, "192.168.1.88"@),
            c.port == cfg_num_upto(m@, "plc_port"@, 502, u16::MAX as u64) as u16,
            c.unit_id == cfg_num_upto(m@, "modbus_unit_id"@, 1, u8::MAX as u64) as u8,
            c.heartbeat_reg == cfg_num_upto(m@, "heartbeat_reg"@, 210, u16::MAX as u64) as u16,
            c.heartbeat_ms == max_u64(cfg_num(m@, "heartbeat_ms"@, 100), 10),
            c.watchdog_read_ms == max_u64(cfg_num(m@, "watchdog_read_ms"@, 1000), 100),
            c.watchdog_fails == cfg_num_upto(m@, "watchdog_fails"@, 3, u32::MAX as u64) as u32,
            c.conn_timeout_ms == max_u64(cfg_num(m@, "conn_timeout_ms"@, 3000), 100),
            c.io_timeout_ms == max_u64(cfg_num(m@, "io_timeout_ms"@, 1000), 50),
            c.read_interval_ms == max_u64(cfg_num(m@, "read_interval_ms"@, 500), 100),
            c.alarm_interval_ms == spec_alarm_interval(m@),
            c.backoff_ms@ == spec_backoff(m@),
            c.byte_order == spec_parse_byte_order(cfg_str(m@, "real_byte_order"@, "CDAB"@)),
            c.cmd_pulse_ms == max_u64(cfg_num(m@, "cmd_pulse_ms"@, 200), 20),
            c.map.d_base == cfg_num_upto(m@, "d_base"@, 0, u16::MAX as u64) as u16,
            c.map.m_base == cfg_num_upto(m@, "m_base"@, 0, u16::MAX as u64) as u16,
    {
        let ip = match config_get(m, "plc_ip") {
            Some(v) => v.clone(),
            None => "192.168.1.88".to_owned(),
        };
        let order = match config_get(m, "real_byte_order") {
            Some(v) => ByteOrder::parse(v.as_str()),
            None => ByteOrder::parse("CDAB"),
        };
        let own_alarm = config_num(m, "alarm_interval_ms", 0);
        let alarm_interval_ms = if own_alarm >= 100 {
            own_alarm
        } else {
            at_least(config_num(m, "read_interval_ms", 500), 100)
        };
        PlcConfig {
            ip,
            port: config_num_upto(m, "plc_port", 502, u16::MAX as u64) as u16,
            unit_id: config_num_upto(m, "modbus_unit_id", 1, u8::MAX as u64) as u8,
            heartbeat_reg: config_num_upto(m, "heartbeat_reg", 210, u16::MAX as u64) as u16,
            heartbeat_ms: at_least(config_num(m, "heartbeat_ms", 100), 10),
            watchdog_read_ms: at_least(config_num(m, "watchdog_read_ms", 1000), 100),
            watchdog_fails: config_num_upto(m, "watchdog_fails", 3, u32::MAX as u64) as u32,
            conn_timeout_ms: at_least(config_num(m, "conn_timeout_ms", 3000), 100),
            io_timeout_ms: at_least(config_num(m, "io_timeout_ms", 1000), 50),
            read_interval_ms: at_least(config_num(m, "read_interval_ms", 500), 100),
            alarm_interval_ms,
            backoff_ms: config_backoff(m),
            byte_order: order,
            cmd_pulse_ms: at_least(config_num(m, "cmd_pulse_ms", 200), 20),
            map: PlcMap {
                d_base: config_num_upto(m, "d_base", 0, u16::MAX as u64) as u16,
                m_base: config_num_upto(m, "m_base", 0, u16::MAX as u64) as u16,
            },
        }
    }
}

/// The alarm polling period: a number of at least 100 ms stored under
/// `alarm_interval_ms` is taken as it is, whatever the read period; otherwise
/// (missing, unreadable, or below 100) the read period is used, raised to 100 ms.
pub proof fn lemma_alarm_interval(m: Seq<(String, String)>)
    ensures
        forall|t: Seq<char>, v: u64|
            lookup(m, "alarm_interval_ms"@) == Some(t) && spec_parse_u64(t) == Some(v) && v >= 100
                ==> spec_alarm_interval(m) == v,
        !(exists|t: Seq<char>, v: u64|
            lookup(m, "alarm_interval_ms"@) == Some(t) && spec_parse_u64(t) == Some(v) && v >= 100)
            ==> spec_alarm_interval(m) == max_u64(cfg_num(m, "read_interval_ms"@, 500), 100),
        spec_alarm_interval(m) >= 100,
{
    match lookup(m, "alarm_interval_ms"@) {
        Some(t) => match spec_parse_u64(t) {
            Some(v) => {
                if v >= 100 {
                    assert(lookup(m, "alarm_interval_ms"@) == Some(t) && spec_parse_u64(t) == Some(v)
                        && v >= 100);
                }
            },
            None => {},
        },
        None => {},
    }
}

} // verus!
