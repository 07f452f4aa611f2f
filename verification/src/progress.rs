//! Reading the key=value report that `ffmpeg -progress` keeps rewriting.
use vstd::prelude::*;
use crate::records::Outcome;
use crate::text::{
    chars_of, find_char, index_of, lines, matches_at, opt_view, range_equals, range_texts,
    same_text, split_lines, starts_with, trim, trim_range,
};

verus! {

/// The fields of a progress report that the task list shows. The two times
/// are the raw `HH:MM:SS.micro` texts, for the caller to convert.
pub struct ProgressFields {
    /// The value of the last `duration=` line.
    pub duration: Option<String>,
    /// The value of the last `out_time=` line.
    pub out_time: Option<String>,
    /// The value of the last `speed=` line that holds a speed.
    pub speed: Option<String>,
}

/// The value of a `key` line: what follows the key, trimmed.
pub open spec fn field_value(line: Seq<char>, key: Seq<char>) -> Seq<char> {
    trim(line.skip(key.len() as int))
}

/// The value of the last of `ls` that starts with `key`.
pub open spec fn last_field(ls: Seq<Seq<char>>, key: Seq<char>) -> Option<Seq<char>>
    decreases ls.len(),
{
    if ls.len() == 0 {
        None
    } else if starts_with(ls.last(), key) {
        Some(field_value(ls.last(), key))
    } else {
        last_field(ls.drop_last(), key)
    }
}

/// A speed value is shown unless it is empty or `N/A`.
pub open spec fn usable_speed(v: Seq<char>) -> bool {
    v.len() > 0 && v != "N/A"@
}

/// The value of the last `speed=` line of `ls` whose value is usable.
pub open spec fn last_speed(ls: Seq<Seq<char>>) -> Option<Seq<char>>
    decreases ls.len(),
{
    if ls.len() == 0 {
        None
    } else if starts_with(ls.last(), "speed="@) && usable_speed(field_value(ls.last(), "speed="@)) {
        Some(field_value(ls.last(), "speed="@))
    } else {
        last_speed(ls.drop_last())
    }
}

/// The text of an optional range of `s`.
pub open spec fn range_text(s: Seq<char>, r: Option<(usize, usize)>) -> Option<Seq<char>> {
    match r {
        Some(p) => Some(s.subrange(p.0 as int, p.1 as int)),
        None => None,
    }
}

/// The range of the value of the line `[a, b)` of `s` if that line starts with `key`.
fn key_value(s: &Vec<char>, a: usize, b: usize, key: &Vec<char>) -> (r: Option<(usize, usize)>)
    requires
        a <= b <= s@.len(),
    ensures
        match r {
            Some(v) => {
                &&& starts_with(s@.subrange(a as int, b as int), key@)
                &&& v.0 <= v.1 <= s@.len()
                &&& s@.subrange(v.0 as int, v.1 as int) == field_value(
                    s@.subrange(a as int, b as int),
                    key@,
                )
            },
            None => !starts_with(s@.subrange(a as int, b as int), key@),
        },
{
    let ghost line = s@.subrange(a as int, b as int);
    if key.len() > b - a {
        return None;
    }
    if !matches_at(s, key, a) {
        proof {
            if starts_with(line, key@) {
                assert(s@.subrange(a as int, a + key@.len()) =~= line.subrange(0, key@.len() as int));
            }
        }
        return None;
    }
    proof {
        assert(s@.subrange(a as int, a + key@.len()) =~= line.subrange(0, key@.len() as int));
        assert(line.skip(key@.len() as int) =~= s@.subrange(a + key@.len(), b as int));
    }
    let v = trim_range(s, a + key.len(), b);
    Some(v)
}

fn materialize(txt: &str, s: &Vec<char>, r: Option<(usize, usize)>) -> (o: Option<String>)
    requires
        s@ == txt@,
        r matches Some(p) ==> p.0 <= p.1 <= s@.len(),
    ensures
        opt_view(o) == range_text(s@, r),
{
    match r {
        Some(p) => Some(String::from_str(txt.substring_char(p.0, p.1))),
        None => None,
    }
}

/// Reads a progress report: the values of its last `duration=` and
/// `out_time=` lines, and of its last `speed=` line whose value is neither
/// empty nor `N/A`. Lines are those of `str::lines`; values are trimmed.
pub fn parse_progress(txt: &str) -> (p: ProgressFields)
    ensures
        opt_view(p.duration) == last_field(lines(txt@), "duration="@),
        opt_view(p.out_time) == last_field(lines(txt@), "out_time="@),
        opt_view(p.speed) == last_speed(lines(txt@)),
{
    let s = chars_of(txt);
    let ranges = split_lines(&s);
    let ghost ls = range_texts(s@, ranges@);
    let k_duration = chars_of("duration=");
    let k_out_time = chars_of("out_time=");
    let k_speed = chars_of("speed=");
    let na = chars_of("N/A");
    let mut duration: Option<(usize, usize)> = None;
    let mut out_time: Option<(usize, usize)> = None;
    let mut speed: Option<(usize, usize)> = None;
    let n = ranges.len();
    let mut i: usize = 0;
    while i < n
        invariant
            n == ranges@.len(),
            i <= n,
            ls == range_texts(s@, ranges@),
            forall|j: int| 0 <= j < ranges@.len() ==> (#[trigger] ranges@[j]).0 <= ranges@[j].1
                <= s@.len(),
            k_duration@ == "duration="@,
            k_out_time@ == "out_time="@,
            k_speed@ == "speed="@,
            na@ == "N/A"@,
            duration matches Some(p) ==> p.0 <= p.1 <= s@.len(),
            out_time matches Some(p) ==> p.0 <= p.1 <= s@.len(),
            speed matches Some(p) ==> p.0 <= p.1 <= s@.len(),
            range_text(s@, duration) == last_field(ls.take(i as int), "duration="@),
            range_text(s@, out_time) == last_field(ls.take(i as int), "out_time="@),
            range_text(s@, speed) == last_speed(ls.take(i as int)),
        decreases n - i,
    {
        let (a, b) = ranges[i];
        let ghost line = ls[i as int];
        proof {
            assert(ranges@[i as int] == (a, b));
            assert(line == s@.subrange(a as int, b as int));
            assert(ls.take(i + 1).drop_last() =~= ls.take(i as int));
            assert(ls.take(i + 1).last() == line);
        }
        match key_value(&s, a, b, &k_duration) {
            Some(v) => {
                duration = Some(v);
            },
            None => {},
        }
        match key_value(&s, a, b, &k_out_time) {
            Some(v) => {
                out_time = Some(v);
            },
            None => {},
        }
        match key_value(&s, a, b, &k_speed) {
            Some(v) => {
                if v.1 > v.0 && !range_equals(&s, v.0, v.1, &na) {
                    speed = Some(v);
                }
            },
            None => {},
        }
        i = i + 1;
    }
    assert(ls.take(n as int) =~= ls);
    ProgressFields {
        duration: materialize(txt, &s, duration),
        out_time: materialize(txt, &s, out_time),
        speed: materialize(txt, &s, speed),
    }
}

/// What the task list is told about a job.
pub struct ProgressEvent {
    /// `"running"`, `"done"` or `"error"`.
    pub status: String,
    /// Percent done.
    pub progress: u8,
    pub speed: String,
}

/// Takes in one progress report of a running job, with the percentage done
/// that it gives (if any): `last_speed` keeps the last usable speed seen,
/// and the event shows it with the percentage, 0 when there is none.
pub fn running_event(last_speed: &mut String, speed: Option<String>, percent: Option<u8>) -> (e:
    ProgressEvent)
    ensures
        final(last_speed)@ == match opt_view(speed) {
            Some(s) => s,
            None => old(last_speed)@,
        },
        e.status@ == "running"@,
        e.progress == match percent {
            Some(p) => p,
            None => 0,
        },
        e.speed@ == final(last_speed)@,
{
    match speed {
        Some(s) => {
            *last_speed = s;
        },
        None => {},
    }
    let progress = match percent {
        Some(p) => p,
        None => 0,
    };
    ProgressEvent { status: String::from_str("running"), progress, speed: last_speed.clone() }
}

/// The last event of a finished job: done at 100% with the last speed seen,
/// or an error at 0% without a speed.
pub fn finish_event(outcome: &Outcome, last_speed: &str) -> (e: ProgressEvent)
    ensures
        outcome.status@ == "done"@ ==> e.status@ == "done"@ && e.progress == 100 && e.speed@
            == last_speed@,
        outcome.status@ != "done"@ ==> e.status@ == "error"@ && e.progress == 0 && e.speed@
            == Seq::<char>::empty(),
{
    if same_text(outcome.status.as_str(), "done") {
        ProgressEvent {
            status: String::from_str("done"),
            progress: 100,
            speed: String::from_str(last_speed),
        }
    } else {
        ProgressEvent { status: String::from_str("error"), progress: 0, speed: String::new() }
    }
}

/// The three `:`-separated fields of `s`, as `s.split(':')` gives them,
/// when there are exactly three.
pub open spec fn hms_fields(s: Seq<char>) -> Option<(Seq<char>, Seq<char>, Seq<char>)> {
    let i = index_of(s, ':');
    if i >= s.len() {
        None
    } else {
        let rest = s.skip(i + 1int);
        let j = index_of(rest, ':');
        if j >= rest.len() {
            None
        } else {
            let last = rest.skip(j + 1int);
            if index_of(last, ':') < last.len() {
                None
            } else {
                Some((s.take(i as int), rest.take(j as int), last))
            }
        }
    }
}

/// Splits an `HH:MM:SS` time into its hours, minutes and seconds texts;
/// `None` unless it has exactly two `:`.
pub fn split_hms(s: &str) -> (r: Option<(String, String, String)>)
    ensures
        match r {
            Some((h, m, sec)) => hms_fields(s@) == Some((h@, m@, sec@)),
            None => hms_fields(s@) is None,
        },
{
    let cs = chars_of(s);
    let n = cs.len();
    assert(cs@.skip(0) =~= cs@);
    let i = find_char(&cs, ':', 0);
    if i == n {
        return None;
    }
    let j = find_char(&cs, ':', i + 1);
    let ghost rest = cs@.skip(i + 1);
    if j == n {
        return None;
    }
    let k = find_char(&cs, ':', j + 1);
    proof {
        assert(rest.skip(j - i) =~= cs@.skip(j + 1));
    }
    if k < n {
        return None;
    }
    let h = String::from_str(s.substring_char(0, i));
    let m = String::from_str(s.substring_char(i + 1, j));
    let sec = String::from_str(s.substring_char(j + 1, n));
    proof {
        assert(cs@.take(i as int) =~= cs@.subrange(0, i as int));
        assert(rest.take(j - (i + 1)) =~= cs@.subrange(i + 1, j as int));
        assert(rest.skip(j - i) =~= cs@.subrange(j + 1, n as int));
    }
    Some((h, m, sec))
}

} // verus!
