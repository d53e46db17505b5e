//! What the output sinks compute from a measurement: the UDP line-protocol
//! record and the fields of the HTTP push. The transports themselves (the
//! socket, the request, the console) live outside the library.

use vstd::prelude::*;

use crate::metric::{Metric, MetricView};
use crate::strutil::{
    dec_int, digits_val, i64_to_string, lemma_digits_val_prefix, scan_to, str_eq, strip_sign,
    CharClass,
};

verus! {

/// The integer a value token begins with: an optional sign, then its
/// leading digits, clamped to the `i64` range. The sinks fall back on this
/// when no graph value was set.
pub open spec fn int_prefix_val(s: Seq<char>) -> i64 {
    let neg = s.len() > 0 && s[0] == '-';
    let d = strip_sign(s);
    let p = d.take(scan_to(d, 0, CharClass::NonDigit));
    let v = digits_val(p);
    if neg {
        if v > 0x8000_0000_0000_0000 {
            i64::MIN
        } else {
            (-v) as i64
        }
    } else {
        if v > 0x7fff_ffff_ffff_ffff {
            i64::MAX
        } else {
            v as i64
        }
    }
}

/// Read the leading integer of a value token, exactly as
/// [`int_prefix_val`] describes.
pub fn int_prefix(s: &str) -> (r: i64)
    ensures
        r == int_prefix_val(s@),
{
    let n = s.unicode_len();
    let neg = n > 0 && s.get_char(0) == '-';
    let d = crate::strutil::strip_sign_exec(s);
    let j = crate::strutil::scan(d, 0, &CharClass::NonDigit);
    proof {
        crate::strutil::lemma_scan_to(d@, 0, CharClass::NonDigit);
    }
    let ghost p = d@.take(scan_to(d@, 0, CharClass::NonDigit));
    proof {
        assert(crate::strutil::all_digits(p));
    }
    let limit: u64 = if neg {
        0x8000_0000_0000_0000
    } else {
        0x7fff_ffff_ffff_ffff
    };
    let mut acc: u64 = 0;
    let mut i: usize = 0;
    while i < j
        invariant
            j == scan_to(d@, 0, CharClass::NonDigit),
            j <= d@.len(),
            i <= j,
            p == d@.take(j as int),
            crate::strutil::all_digits(p),
            neg == (s@.len() > 0 && s@[0] == '-'),
            d@ == strip_sign(s@),
            limit == if neg {
                0x8000_0000_0000_0000u64
            } else {
                0x7fff_ffff_ffff_ffffu64
            },
            acc == digits_val(p.take(i as int)),
            acc <= limit,
        decreases j - i,
    {
        let c = d.get_char(i);
        proof {
            assert(p[i as int] == d@[i as int]);
            assert(crate::strutil::is_digit(p[i as int]));
            assert(p.take(i + 1).drop_last() =~= p.take(i as int));
            assert(p.take(i + 1).last() == p[i as int]);
        }
        let dv: u64 = (c as u32 - '0' as u32) as u64;
        if acc > (limit - dv) / 10 {
            proof {
                assert(digits_val(p.take(i + 1)) > limit);
                lemma_digits_val_prefix(p, i + 1);
            }
            return if neg {
                i64::MIN
            } else {
                i64::MAX
            };
        }
        acc = acc * 10 + dv;
        i = i + 1;
    }
    proof {
        assert(p.take(j as int) =~= p);
    }
    if neg {
        let wide: i128 = -(acc as i128);
        wide as i64
    } else {
        acc as i64
    }
}

/// The integer a sink graphs for `m`: the graph value when the worker set
/// one, else the leading integer of the value token, else zero.
pub open spec fn graphite_value_v(m: MetricView) -> i64 {
    match m.graph_value {
        Some(v) => v,
        None => match m.value {
            Some(s) => int_prefix_val(s),
            None => 0,
        },
    }
}

/// The display key a sink uses for `m`: the graph display key when the
/// worker set one, else the probe's function name.
pub open spec fn graphite_key_v(m: MetricView) -> Seq<char> {
    match m.graph_short_name {
        Some(g) => g,
        None => m.function,
    }
}

/// The line-protocol type tag: `ms` for a timing, `g` (a gauge) otherwise.
pub open spec fn graphite_tag_v(m: MetricView) -> Seq<char> {
    if m.graph_type == Some("time"@) {
        "ms"@
    } else {
        "g"@
    }
}

/// The UDP line-protocol record of a measurement:
/// `jr.<key>.<status>:<value>|<tag>`.
pub open spec fn graphite_line_v(m: MetricView) -> Seq<char> {
    "jr."@ + graphite_key_v(m) + "."@ + m.status + ":"@ + dec_int(graphite_value_v(m) as int)
        + "|"@ + graphite_tag_v(m)
}

/// Format a measurement as one line-protocol record.
pub fn graphite_line(m: &Metric) -> (r: String)
    ensures
        r@ == graphite_line_v(m@),
{
    let mut r = "jr.".to_owned();
    match &m.graph_short_name {
        Some(g) => r.append(g.as_str()),
        None => r.append(m.function.as_str()),
    }
    r.append(".");
    r.append(m.status.as_str());
    r.append(":");
    let value: i64 = match &m.graph_value {
        Some(v) => *v,
        None => match &m.value {
            Some(s) => int_prefix(s.as_str()),
            None => 0,
        },
    };
    let digits = i64_to_string(value);
    r.append(digits.as_str());
    r.append("|");
    let timing = match &m.graph_type {
        Some(t) => str_eq(t.as_str(), "time"),
        None => false,
    };
    if timing {
        r.append("ms");
    } else {
        r.append("g");
    }
    assert(r@ =~= graphite_line_v(m@));
    r
}

/// The interval field of the HTTP push: `-1` marks a run-once probe,
/// otherwise the probe's interval in seconds.
pub open spec fn angelweb_every_v(m: MetricView) -> i64 {
    if m.once {
        -1i64
    } else {
        m.n as i64
    }
}

/// The interval field of the HTTP push for `m`.
pub fn angelweb_every(m: &Metric) -> (r: i64)
    ensures
        r == angelweb_every_v(m@),
{
    if m.once {
        -1
    } else {
        #[verifier::truncate] (m.n as i64)
    }
}

/// The HTTP push skips a measurement that carries no display key.
pub fn angelweb_skips(m: &Metric) -> (r: bool)
    ensures
        r == (m@.graph_short_name is None),
{
    m.graph_short_name.is_none()
}

} // verus!
