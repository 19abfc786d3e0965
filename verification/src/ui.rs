//! Display formatting helpers: the latency sparkline, the session-duration
//! progress bar, and compact duration rendering.
use vstd::prelude::*;
use vstd::string::*;

use crate::text::{chars_to_string, dec_str, u64_to_string};

verus! {

/// The largest latency in a history, 0 when it is empty.
pub open spec fn max_latency(s: Seq<u32>) -> u32
    decreases s.len(),
{
    if s.len() == 0 {
        0
    } else {
        let m = max_latency(s.drop_last());
        if s.last() > m {
            s.last()
        } else {
            m
        }
    }
}

/// The bar glyph for one latency measurement, scaled against the largest
/// one: eight steps from the lowest bar to the full block.
pub open spec fn spark_char(latency: u32, max: u32) -> char {
    let idx = if max == 0 {
        0int
    } else if latency * 7 / (max as int) > 7 {
        7int
    } else {
        latency * 7 / (max as int)
    };
    if idx <= 0 {
        '▁'
    } else if idx == 1 {
        '▂'
    } else if idx == 2 {
        '▃'
    } else if idx == 3 {
        '▄'
    } else if idx == 4 {
        '▅'
    } else if idx == 5 {
        '▆'
    } else if idx == 6 {
        '▇'
    } else {
        '█'
    }
}

proof fn lemma_max_latency_take_step(s: Seq<u32>, i: int)
    requires
        0 <= i < s.len(),
    ensures
        max_latency(s.take(i + 1)) == if s[i] > max_latency(s.take(i)) {
            s[i]
        } else {
            max_latency(s.take(i))
        },
{
    assert(s.take(i + 1).drop_last() =~= s.take(i));
    assert(s.take(i + 1).last() == s[i]);
}

/// A mini sparkline of the most recent latency measurements, newest first:
/// up to eight glyphs, each scaled against the largest recorded latency. An
/// empty history renders as a flat baseline.
pub fn render_latency_sparkline(history: &Vec<u32>) -> (r: String)
    ensures
        history@.len() == 0 ==> r@ == "▁▁▁▁▁"@,
        history@.len() > 0 ==> r@ == Seq::new(
            if history@.len() < 8 {
                history@.len()
            } else {
                8
            },
            |i: int| spark_char(history@[history@.len() - 1 - i], max_latency(history@)),
        ),
{
    let n: usize = history.len();
    if n == 0 {
        return String::from_str("▁▁▁▁▁");
    }
    let mut max: u32 = 0;
    let mut i: usize = 0;
    proof {
        assert(history@.take(0) =~= Seq::<u32>::empty());
    }
    while i < n
        invariant
            0 <= i <= n == history@.len(),
            max == max_latency(history@.take(i as int)),
        decreases n - i,
    {
        proof {
            lemma_max_latency_take_step(history@, i as int);
        }
        if history[i] > max {
            max = history[i];
        }
        i = i + 1;
    }
    proof {
        assert(history@.take(n as int) =~= history@);
    }
    let take: usize = if n < 8 {
        n
    } else {
        8
    };
    let mut out: Vec<char> = Vec::new();
    let mut j: usize = 0;
    while j < take
        invariant
            0 <= j <= take <= n == history@.len(),
            max == max_latency(history@),
            out@ =~= Seq::new(
                j as nat,
                |i: int| spark_char(history@[history@.len() - 1 - i], max_latency(history@)),
            ),
        decreases take - j,
    {
        let latency: u32 = history[n - 1 - j];
        let idx: u64 = if max == 0 {
            0
        } else {
            let v: u64 = latency as u64 * 7 / (max as u64);
            if v > 7 {
                7
            } else {
                v
            }
        };
        let glyph: char = if idx == 0 {
            '▁'
        } else if idx == 1 {
            '▂'
        } else if idx == 2 {
            '▃'
        } else if idx == 3 {
            '▄'
        } else if idx == 4 {
            '▅'
        } else if idx == 5 {
            '▆'
        } else if idx == 6 {
            '▇'
        } else {
            '█'
        };
        proof {
            assert(glyph == spark_char(history@[history@.len() - 1 - j], max_latency(history@)));
        }
        out.push(glyph);
        proof {
            assert(out@ =~= Seq::new(
                (j + 1) as nat,
                |i: int| spark_char(history@[history@.len() - 1 - i], max_latency(history@)),
            ));
        }
        j = j + 1;
    }
    chars_to_string(&out)
}

/// The bar glyph standing for a session's age: six steps from minutes to
/// hours.
pub open spec fn duration_bar_char(total_seconds: u64) -> char {
    if total_seconds <= 300 {
        '▁'
    } else if total_seconds <= 900 {
        '▂'
    } else if total_seconds <= 1800 {
        '▃'
    } else if total_seconds <= 3600 {
        '▄'
    } else if total_seconds <= 7200 {
        '▅'
    } else {
        '▆'
    }
}

/// A five-glyph progress bar standing for a session duration.
pub fn create_duration_progress_bar(duration_secs: u64) -> (r: String)
    ensures
        r@ == Seq::new(5, |i: int| duration_bar_char(duration_secs)),
{
    let glyph: char = if duration_secs <= 300 {
        '▁'
    } else if duration_secs <= 900 {
        '▂'
    } else if duration_secs <= 1800 {
        '▃'
    } else if duration_secs <= 3600 {
        '▄'
    } else if duration_secs <= 7200 {
        '▅'
    } else {
        '▆'
    };
    let mut out: Vec<char> = Vec::new();
    let mut i: usize = 0;
    while i < 5
        invariant
            0 <= i <= 5,
            out@ =~= Seq::new(i as nat, |k: int| duration_bar_char(duration_secs)),
            glyph == duration_bar_char(duration_secs),
        decreases 5 - i,
    {
        out.push(glyph);
        proof {
            assert(out@ =~= Seq::new((i + 1) as nat, |k: int| duration_bar_char(duration_secs)));
        }
        i = i + 1;
    }
    chars_to_string(&out)
}

/// The compact duration rendering used in listings: hours and minutes once
/// an hour has passed, else minutes and seconds, else seconds alone.
pub open spec fn std_duration_str(total_seconds: int) -> Seq<char> {
    let hours = total_seconds / 3600;
    let minutes = (total_seconds % 3600) / 60;
    let seconds = total_seconds % 60;
    if hours > 0 {
        dec_str(hours) + "h "@ + dec_str(minutes) + "m"@
    } else if minutes > 0 {
        dec_str(minutes) + "m "@ + dec_str(seconds) + "s"@
    } else {
        dec_str(seconds) + "s"@
    }
}

/// Renders a duration in seconds compactly.
pub fn format_std_duration(total_seconds: u64) -> (r: String)
    ensures
        r@ == std_duration_str(total_seconds as int),
{
    let hours: u64 = total_seconds / 3600;
    let minutes: u64 = (total_seconds % 3600) / 60;
    let seconds: u64 = total_seconds % 60;
    if hours > 0 {
        let mut s = u64_to_string(hours);
        s.append("h ");
        let m = u64_to_string(minutes);
        s.append(m.as_str());
        s.append("m");
        s
    } else if minutes > 0 {
        let mut s = u64_to_string(minutes);
        s.append("m ");
        let sec = u64_to_string(seconds);
        s.append(sec.as_str());
        s.append("s");
        s
    } else {
        let mut s = u64_to_string(seconds);
        s.append("s");
        s
    }
}

} // verus!
