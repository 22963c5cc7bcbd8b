//! The daily schedule: `HH:MM` times, the commands that register the task
//! with the Windows Task Scheduler and the reading of its answers, and the
//! in-window monitor that starts a backup at the scheduled minute.
use vstd::prelude::*;
use crate::text::views;
use crate::clock::{day_text, local_now, minute_text, LocalTime};
use crate::error::{BackupError, BackupResult};
use crate::number::{parse_u32, parse_u32_spec, push_zero_padded, zero_padded};
use crate::text::{
    append_str, contains, contains_spec, find_char, find_str, find_text, occurs_at, split_once,
    split_once_char, sub_chars, to_chars,
};

verus! {

/// The two fields of a text with exactly one `:`.
pub open spec fn two_fields(s: Seq<char>) -> Option<(Seq<char>, Seq<char>)> {
    match split_once(s, ':') {
        Some((a, b)) => if find_char(b, ':') is None {
            Some((a, b))
        } else {
            None
        },
        None => None,
    }
}

/// The fields of `s` split at `:`, when there are exactly two.
pub fn split_two_fields(s: &str) -> (r: Option<(String, String)>)
    ensures
        match r {
            Some((a, b)) => two_fields(s@) == Some((a@, b@)),
            None => two_fields(s@) is None,
        },
{
    match split_once_char(s, ':') {
        Some((a, b)) => {
            match split_once_char(b.as_str(), ':') {
                Some(_) => None,
                None => Some((a, b)),
            }
        },
        None => None,
    }
}

/// A valid schedule time: `H:M` with an hour from 0 to 23 and a minute
/// from 0 to 59, each read as `str::parse::<u32>` reads it.
pub open spec fn valid_time(s: Seq<char>) -> bool {
    match two_fields(s) {
        Some((h, m)) => match (parse_u32_spec(h), parse_u32_spec(m)) {
            (Some(hour), Some(minute)) => hour <= 23 && minute <= 59,
            _ => false,
        },
        None => false,
    }
}

/// Whether `time` is a valid schedule time.
pub fn validate_schedule_time(time: &str) -> (r: bool)
    ensures
        r == valid_time(time@),
{
    match split_two_fields(time) {
        Some((h, m)) => match (parse_u32(h.as_str()), parse_u32(m.as_str())) {
            (Some(hour), Some(minute)) => hour <= 23 && minute <= 59,
            _ => false,
        },
        None => false,
    }
}

/// The hour and minute of a saved schedule time, 14:30 when there is none
/// or it does not have two fields; a field that does not read as a number
/// falls back on its part of 14:30.
pub open spec fn schedule_hour_minute(time: Option<Seq<char>>) -> (u32, u32) {
    match time {
        Some(t) => match two_fields(t) {
            Some((h, m)) => (
                match parse_u32_spec(h) {
                    Some(v) => v,
                    None => 14,
                },
                match parse_u32_spec(m) {
                    Some(v) => v,
                    None => 30,
                },
            ),
            None => (14, 30),
        },
        None => (14, 30),
    }
}

/// The hour and minute of a saved schedule time (14:30 by default).
pub fn parse_schedule_time(time: &Option<String>) -> (r: (u32, u32))
    ensures
        r == schedule_hour_minute(match time {
            Some(t) => Some(t@),
            None => None,
        }),
{
    match time {
        Some(t) => match split_two_fields(t.as_str()) {
            Some((h, m)) => {
                let hour = match parse_u32(h.as_str()) {
                    Some(v) => v,
                    None => 14,
                };
                let minute = match parse_u32(m.as_str()) {
                    Some(v) => v,
                    None => 30,
                };
                (hour, minute)
            },
            None => (14, 30),
        },
        None => (14, 30),
    }
}

/// `format!("{:02}:{:02}", hour, minute)`, as the time picker writes it.
pub open spec fn time_text(hour: u32, minute: u32) -> Seq<char> {
    zero_padded(hour as nat, 2) + seq![':'] + zero_padded(minute as nat, 2)
}

/// Writes a schedule time from the time picker's hour and minute.
pub fn format_schedule_time(hour: u32, minute: u32) -> (r: String)
    ensures
        r@ == time_text(hour, minute),
{
    let mut r = String::new();
    push_zero_padded(&mut r, hour as u64, 2);
    crate::text::push_char(&mut r, ':');
    push_zero_padded(&mut r, minute as u64, 2);
    assert(r@ =~= time_text(hour, minute));
    r
}

proof fn lemma_digits_have_no_colon(s: Seq<char>)
    requires
        crate::number::all_digits(s),
    ensures
        find_char(s, ':') is None,
        s.len() > 0 ==> s[0] != '+',
{
    crate::text::find_char_in_bounds(s, ':');
    match find_char(s, ':') {
        Some(i) => {
            assert(crate::number::is_digit(s[i]));
        },
        None => {},
    }
    if s.len() > 0 {
        assert(crate::number::is_digit(s[0]));
    }
}

/// What the time picker writes reads back as the same hour and minute, and
/// counts as a valid schedule time exactly when the hour is at most 23 and
/// the minute at most 59.
pub proof fn lemma_schedule_time_round_trip(hour: u32, minute: u32)
    ensures
        two_fields(time_text(hour, minute)) == Some((zero_padded(hour as nat, 2), zero_padded(minute as nat, 2))),
        schedule_hour_minute(Some(time_text(hour, minute))) == (hour, minute),
        valid_time(time_text(hour, minute)) == (hour <= 23 && minute <= 59),
{
    let h = zero_padded(hour as nat, 2);
    let m = zero_padded(minute as nat, 2);
    let t = time_text(hour, minute);
    crate::number::lemma_zero_padded_reads_back(hour as nat, 2);
    crate::number::lemma_zero_padded_reads_back(minute as nat, 2);
    lemma_digits_have_no_colon(h);
    lemma_digits_have_no_colon(m);
    crate::text::find_char_in_bounds(h, ':');
    assert forall|k: int| 0 <= k < h.len() implies t[k] != ':' by {
        assert(t[k] == h[k]);
    }
    assert(t[h.len() as int] == ':');
    crate::text::lemma_find_char(t, ':', h.len() as int);
    assert(t.subrange(0, h.len() as int) =~= h);
    assert(t.subrange(h.len() as int + 1, t.len() as int) =~= m);
    assert(parse_u32_spec(h) == Some(hour));
    assert(parse_u32_spec(m) == Some(minute));
}

/// A schedule time whose minute of the day can be counted in a `u32`.
pub open spec fn countable_time(s: Seq<char>) -> bool {
    match two_fields(s) {
        Some((h, m)) => match (parse_u32_spec(h), parse_u32_spec(m)) {
            (Some(hour), Some(minute)) => hour * 60 + minute <= u32::MAX,
            _ => true,
        },
        None => true,
    }
}

/// Whether the minute of the day of `time` can be counted in a `u32`.
pub fn is_countable_time(time: &str) -> (r: bool)
    ensures
        r == countable_time(time@),
{
    match split_two_fields(time) {
        Some((h, m)) => match (parse_u32(h.as_str()), parse_u32(m.as_str())) {
            (Some(hour), Some(minute)) => (hour as u64) * 60 + (minute as u64) <= 0xffff_ffff,
            _ => true,
        },
        None => true,
    }
}

/// The text that announces the next scheduled backup: `hoy HH:MM` when the
/// scheduled minute is still ahead today, `mañana HH:MM` otherwise; nothing
/// when the schedule is off or its time does not read as two numbers.
pub open spec fn next_backup_text(enabled: bool, time: Seq<char>, now: LocalTime) -> Option<Seq<char>> {
    if !enabled {
        None
    } else {
        match two_fields(time) {
            Some((h, m)) => match (parse_u32_spec(h), parse_u32_spec(m)) {
                (Some(hour), Some(minute)) => {
                    let clock = zero_padded(hour as nat, 2) + seq![':'] + zero_padded(minute as nat, 2);
                    if hour * 60 + minute > now.hour * 60 + now.minute {
                        Some("hoy "@ + clock)
                    } else {
                        Some("mañana "@ + clock)
                    }
                },
                _ => None,
            },
            None => None,
        }
    }
}

/// The announcement says `hoy` exactly when the scheduled minute of the day
/// is later than the present one (14:30 seen at 14:10 is today, seen at
/// 14:30 or later it is tomorrow), and it ends with the scheduled time
/// written `HH:MM`.
pub proof fn lemma_today_exactly_when_ahead(
    time: Seq<char>,
    now: LocalTime,
    h: Seq<char>,
    m: Seq<char>,
    hour: u32,
    minute: u32,
)
    requires
        two_fields(time) == Some((h, m)),
        parse_u32_spec(h) == Some(hour),
        parse_u32_spec(m) == Some(minute),
    ensures
        next_backup_text(true, time, now) matches Some(x) && {
            &&& x.len() >= 4
            &&& (x.subrange(0, 4) == "hoy "@ <==> hour * 60 + minute > now.hour * 60 + now.minute)
            &&& crate::text::ends_with_spec(x, time_text(hour, minute))
        },
{
    reveal_strlit("hoy ");
    reveal_strlit("mañana ");
    let clock = time_text(hour, minute);
    let x = next_backup_text(true, time, now)->0;
    if hour * 60 + minute > now.hour * 60 + now.minute {
        assert(x == "hoy "@ + clock);
        assert(x.subrange(0, 4) =~= "hoy "@);
        assert(x.subrange(x.len() - clock.len(), x.len() as int) =~= clock);
    } else {
        assert(x == "mañana "@ + clock);
        assert(x.subrange(0, 4)[0] == 'm');
        assert(x.subrange(x.len() - clock.len(), x.len() as int) =~= clock);
    }
}

/// The announcement of the next scheduled backup, given the clock now.
pub fn next_backup_display(enabled: bool, time: &str, now: LocalTime) -> (r: Option<String>)
    requires
        enabled ==> countable_time(time@),
        now.valid(),
    ensures
        match r {
            Some(t) => next_backup_text(enabled, time@, now) == Some(t@),
            None => next_backup_text(enabled, time@, now) is None,
        },
{
    if enabled {
        let current_minutes = now.hour * 60 + now.minute;
        match split_two_fields(time) {
            Some((h, m)) => match (parse_u32(h.as_str()), parse_u32(m.as_str())) {
                (Some(hour), Some(minute)) => {
                    let schedule_minutes = hour * 60 + minute;
                    let mut text = String::new();
                    if schedule_minutes > current_minutes {
                        append_str(&mut text, "hoy ");
                    } else {
                        append_str(&mut text, "mañana ");
                    }
                    let ghost head = text@;
                    push_zero_padded(&mut text, hour as u64, 2);
                    crate::text::push_char(&mut text, ':');
                    push_zero_padded(&mut text, minute as u64, 2);
                    assert(text@ =~= head + (zero_padded(hour as nat, 2) + seq![':'] + zero_padded(
                        minute as nat,
                        2,
                    )));
                    return Some(text);
                },
                _ => {},
            },
            None => {},
        }
    }
    None
}


/// The announcement of the next scheduled backup at the present moment: the
/// local clock is read, and the text is that of `next_backup_display` for the
/// reading.
pub fn next_backup_display_now(enabled: bool, time: &str) -> (r: Option<String>)
    requires
        enabled ==> countable_time(time@),
    ensures
        exists|now: LocalTime|
            #![trigger next_backup_text(enabled, time@, now)]
            now.valid() && match r {
                Some(t) => next_backup_text(enabled, time@, now) == Some(t@),
                None => next_backup_text(enabled, time@, now) is None,
            },
{
    let now = local_now();
    let r = next_backup_display(enabled, time, now);
    assert(match r {
        Some(t) => next_backup_text(enabled, time@, now) == Some(t@),
        None => next_backup_text(enabled, time@, now) is None,
    });
    r
}


// ---------------------------------------------------------------------------
// The Windows Task Scheduler
// ---------------------------------------------------------------------------

/// The arguments of `schtasks` that create (or replace) the daily task
/// running `exe --backup` at the minute `hour:minute`.
pub open spec fn create_task_args(exe: Seq<char>, hour: Seq<char>, minute: Seq<char>) -> Seq<Seq<char>> {
    seq![
        "/create"@,
        "/sc"@,
        "daily"@,
        "/st"@,
        hour + seq![':'] + minute,
        "/tn"@,
        "AutoCopy"@,
        "/tr"@,
        seq!['"'] + exe + "\" --backup"@,
        "/f"@,
    ]
}

fn owned(s: &str) -> (r: String)
    ensures
        r@ == s@,
{
    s.to_owned()
}

/// The `schtasks` arguments that schedule a daily backup at `time`, or an
/// error when `time` does not have exactly two fields separated by `:`.
pub fn schedule_task_args(exe_path: &str, time: &str) -> (r: BackupResult<Vec<String>>)
    ensures
        match two_fields(time@) {
            Some((h, m)) => r matches Ok(args) && views(args@) == create_task_args(exe_path@, h, m),
            None => r matches Err(BackupError::InvalidScheduleTime(t)) && t@ == time@,
        },
{
    let (hour, minute) = match split_two_fields(time) {
        Some(parts) => parts,
        None => return Err(BackupError::InvalidScheduleTime(time.to_owned())),
    };
    proof {
        reveal_strlit(":");
        reveal_strlit("\"");
    }
    let ghost hour_text = hour@;
    let mut at = hour;
    append_str(&mut at, ":");
    append_str(&mut at, minute.as_str());
    let mut command = owned("\"");
    append_str(&mut command, exe_path);
    append_str(&mut command, "\" --backup");
    let mut args: Vec<String> = Vec::new();
    args.push(owned("/create"));
    args.push(owned("/sc"));
    args.push(owned("daily"));
    args.push(owned("/st"));
    args.push(at);
    args.push(owned("/tn"));
    args.push(owned("AutoCopy"));
    args.push(owned("/tr"));
    args.push(command);
    args.push(owned("/f"));
    assert(at@ =~= hour_text + seq![':'] + minute@);
    assert(command@ =~= seq!['"'] + exe_path@ + "\" --backup"@);
    assert(views(args@) =~= create_task_args(exe_path@, hour_text, minute@));
    Ok(args)
}

/// The `schtasks` arguments that delete the task.
pub fn unschedule_task_args() -> (r: Vec<String>)
    ensures
        views(r@) == seq!["/delete"@, "/tn"@, "AutoCopy"@, "/f"@],
{
    let mut args: Vec<String> = Vec::new();
    args.push(owned("/delete"));
    args.push(owned("/tn"));
    args.push(owned("AutoCopy"));
    args.push(owned("/f"));
    assert(views(args@) =~= seq!["/delete"@, "/tn"@, "AutoCopy"@, "/f"@]);
    args
}

/// The `schtasks` arguments that ask whether the task exists.
pub fn query_task_args() -> (r: Vec<String>)
    ensures
        views(r@) == seq!["/query"@, "/tn"@, "AutoCopy"@],
{
    let mut args: Vec<String> = Vec::new();
    args.push(owned("/query"));
    args.push(owned("/tn"));
    args.push(owned("AutoCopy"));
    assert(views(args@) =~= seq!["/query"@, "/tn"@, "AutoCopy"@]);
    args
}

/// The `schtasks` arguments that list the task's details.
pub fn query_task_details_args() -> (r: Vec<String>)
    ensures
        views(r@) == seq!["/query"@, "/tn"@, "AutoCopy"@, "/fo"@, "list"@, "/v"@],
{
    let mut args: Vec<String> = Vec::new();
    args.push(owned("/query"));
    args.push(owned("/tn"));
    args.push(owned("AutoCopy"));
    args.push(owned("/fo"));
    args.push(owned("list"));
    args.push(owned("/v"));
    assert(views(args@) =~= seq!["/query"@, "/tn"@, "AutoCopy"@, "/fo"@, "list"@, "/v"@]);
    args
}

/// The `schtasks` arguments that print the task's XML definition.
pub fn query_task_xml_args() -> (r: Vec<String>)
    ensures
        views(r@) == seq!["/query"@, "/tn"@, "AutoCopy"@, "/xml"@],
{
    let mut args: Vec<String> = Vec::new();
    args.push(owned("/query"));
    args.push(owned("/tn"));
    args.push(owned("AutoCopy"));
    args.push(owned("/xml"));
    assert(views(args@) =~= seq!["/query"@, "/tn"@, "AutoCopy"@, "/xml"@]);
    args
}

/// What creating the task amounts to, given whether `schtasks` succeeded
/// and what it wrote on its error stream.
pub fn schedule_outcome(success: bool, stderr: String) -> (r: BackupResult<()>)
    ensures
        success ==> r is Ok,
        !success ==> r == Err::<(), BackupError>(BackupError::SchedulingFailed(stderr)),
{
    if success {
        Ok(())
    } else {
        Err(BackupError::SchedulingFailed(stderr))
    }
}

/// A task that was not there counts as deleted.
pub open spec fn task_absent(stderr: Seq<char>) -> bool {
    contains_spec(stderr, "does not exist"@) || contains_spec(stderr, "cannot find"@)
}

/// What deleting the task amounts to: success, or a failure that only says
/// the task does not exist, is fine; anything else is an error.
pub fn unschedule_outcome(success: bool, stderr: String) -> (r: BackupResult<()>)
    ensures
        success || task_absent(stderr@) ==> r is Ok,
        !success && !task_absent(stderr@) ==> r == Err::<(), BackupError>(
            BackupError::SchedulingFailed(stderr),
        ),
{
    if success {
        Ok(())
    } else if contains(stderr.as_str(), "does not exist") || contains(stderr.as_str(), "cannot find") {
        Ok(())
    } else {
        Err(BackupError::SchedulingFailed(stderr))
    }
}

// ---------------------------------------------------------------------------
// Reading the scheduled time back from `schtasks /query /fo list /v`
// ---------------------------------------------------------------------------

/// `char::is_whitespace`: the characters with the Unicode White_Space property.
pub open spec fn is_whitespace(c: char) -> bool {
    ||| '\u{9}' <= c <= '\u{d}'
    ||| c == ' '
    ||| c == '\u{85}'
    ||| c == '\u{a0}'
    ||| c == '\u{1680}'
    ||| '\u{2000}' <= c <= '\u{200a}'
    ||| c == '\u{2028}'
    ||| c == '\u{2029}'
    ||| c == '\u{202f}'
    ||| c == '\u{205f}'
    ||| c == '\u{3000}'
}

/// `char::is_whitespace`.
pub fn is_whitespace_char(c: char) -> (r: bool)
    ensures
        r == is_whitespace(c),
{
    ('\u{9}' <= c && c <= '\u{d}') || c == ' ' || c == '\u{85}' || c == '\u{a0}' || c == '\u{1680}'
        || ('\u{2000}' <= c && c <= '\u{200a}') || c == '\u{2028}' || c == '\u{2029}' || c
        == '\u{202f}' || c == '\u{205f}' || c == '\u{3000}'
}

/// `s` without its trailing whitespace.
pub open spec fn trim_end(s: Seq<char>) -> Seq<char>
    decreases s.len(),
{
    if s.len() > 0 && is_whitespace(s.last()) {
        trim_end(s.drop_last())
    } else {
        s
    }
}

/// The run of non-whitespace characters that ends `s`.
pub open spec fn trailing_word(s: Seq<char>) -> Seq<char>
    decreases s.len(),
{
    if s.len() == 0 || is_whitespace(s.last()) {
        Seq::empty()
    } else {
        trailing_word(s.drop_last()).push(s.last())
    }
}

/// `s.split_whitespace().last()`.
pub open spec fn last_word(s: Seq<char>) -> Option<Seq<char>> {
    let t = trim_end(s);
    if t.len() == 0 {
        None
    } else {
        Some(trailing_word(t))
    }
}

/// The last whitespace-separated word of `v`.
pub fn last_word_of(v: &Vec<char>) -> (r: Option<String>)
    ensures
        match r {
            Some(w) => last_word(v@) == Some(w@),
            None => last_word(v@) is None,
        },
{
    let mut j: usize = v.len();
    assert(v@.subrange(0, j as int) =~= v@);
    while j > 0 && is_whitespace_char(v[j - 1])
        invariant
            j <= v.len(),
            trim_end(v@) == trim_end(v@.subrange(0, j as int)),
        decreases j,
    {
        assert(v@.subrange(0, j as int).drop_last() =~= v@.subrange(0, j - 1));
        j = j - 1;
    }
    let ghost t = v@.subrange(0, j as int);
    assert(trim_end(t) == t);
    if j == 0 {
        return None;
    }
    let mut k: usize = j;
    assert(t.subrange(0, k as int) =~= t);
    assert(t.subrange(k as int, j as int) =~= Seq::<char>::empty());
    while k > 0 && !is_whitespace_char(v[k - 1])
        invariant
            k <= j <= v.len(),
            t == v@.subrange(0, j as int),
            trailing_word(t) == trailing_word(t.subrange(0, k as int)) + t.subrange(k as int, j as int),
        decreases k,
    {
        assert(t.subrange(0, k as int).drop_last() =~= t.subrange(0, k - 1));
        assert(t.subrange(k - 1, j as int) =~= seq![t[k - 1]] + t.subrange(k as int, j as int));
        assert(trailing_word(t.subrange(0, k - 1)).push(t[k - 1]) + t.subrange(k as int, j as int)
            =~= trailing_word(t.subrange(0, k - 1)) + t.subrange(k - 1, j as int));
        k = k - 1;
    }
    assert(trailing_word(t.subrange(0, k as int)) =~= Seq::<char>::empty());
    assert(t.subrange(k as int, j as int) =~= v@.subrange(k as int, j as int));
    Some(crate::text::slice_string(v, k, j))
}

/// The lines of a text: the pieces between its newlines. (A carriage
/// return before a newline stays at the end of its line; it is whitespace,
/// and the markers looked for hold none.)
pub open spec fn text_lines(s: Seq<char>) -> Seq<Seq<char>>
    decreases s.len(),
{
    if s.len() == 0 {
        seq![Seq::empty()]
    } else {
        let prev = text_lines(s.drop_last());
        if s.last() == '\n' {
            prev.push(Seq::empty())
        } else {
            prev.update(prev.len() - 1, prev.last().push(s.last()))
        }
    }
}

proof fn lemma_text_lines_nonempty(s: Seq<char>)
    ensures
        text_lines(s).len() >= 1,
    decreases s.len(),
{
    if s.len() > 0 {
        lemma_text_lines_nonempty(s.drop_last());
    }
}

/// The characters of each line.
pub open spec fn line_views(lines: Seq<Vec<char>>) -> Seq<Seq<char>> {
    lines.map_values(|l: Vec<char>| l@)
}

/// The lines of the text `v`.
pub fn split_lines(v: &Vec<char>) -> (r: Vec<Vec<char>>)
    ensures
        line_views(r@) == text_lines(v@),
{
    let mut done: Vec<Vec<char>> = Vec::new();
    let mut current: Vec<char> = Vec::new();
    let mut i: usize = 0;
    assert(v@.subrange(0, 0) =~= Seq::<char>::empty());
    assert(line_views(done@).push(current@) =~= text_lines(v@.subrange(0, 0)));
    while i < v.len()
        invariant
            i <= v.len(),
            line_views(done@).push(current@) == text_lines(v@.subrange(0, i as int)),
        decreases v.len() - i,
    {
        let ghost prefix = v@.subrange(0, i + 1);
        assert(prefix.drop_last() =~= v@.subrange(0, i as int));
        proof {
            lemma_text_lines_nonempty(prefix.drop_last());
        }
        if v[i] == '\n' {
            let finished = current;
            let ghost before = line_views(done@);
            done.push(finished);
            current = Vec::new();
            assert(line_views(done@) =~= before.push(finished@));
            assert(line_views(done@).push(current@) =~= text_lines(prefix));
        } else {
            let ghost before = line_views(done@);
            let ghost old_current = current@;
            current.push(v[i]);
            assert(line_views(done@).push(current@) =~= before.push(old_current).update(
                before.len() as int,
                old_current.push(v@[i as int]),
            ));
        }
        i = i + 1;
    }
    let ghost before = line_views(done@);
    done.push(current);
    assert(v@.subrange(0, v.len() as int) =~= v@);
    assert(line_views(done@) =~= before.push(done@.last()@));
    done
}

/// The `HH:MM` at the head of a word: its first two `:`-separated fields.
pub open spec fn hour_minute_of(word: Seq<char>) -> Option<Seq<char>> {
    match split_once(word, ':') {
        Some((h, rest)) => {
            let m = match split_once(rest, ':') {
                Some((m, _)) => m,
                None => rest,
            };
            Some(h + seq![':'] + m)
        },
        None => None,
    }
}

/// The scheduled time that a line of the listing gives: in a line that
/// names the start time (in English or Spanish), the hour and minute of its
/// last word, when they make a valid time.
pub open spec fn line_time(line: Seq<char>) -> Option<Seq<char>> {
    if contains_spec(line, "Start Time:"@) || contains_spec(line, "Hora de inicio:"@) {
        match last_word(line) {
            Some(w) => match hour_minute_of(w) {
                Some(hm) => if valid_time(hm) {
                    Some(hm)
                } else {
                    None
                },
                None => None,
            },
            None => None,
        }
    } else {
        None
    }
}

/// The time given by the first line that gives one.
pub open spec fn first_line_time(lines: Seq<Seq<char>>) -> Option<Seq<char>>
    decreases lines.len(),
{
    if lines.len() == 0 {
        None
    } else {
        match line_time(lines[0]) {
            Some(t) => Some(t),
            None => first_line_time(lines.drop_first()),
        }
    }
}

fn line_time_of(line: &Vec<char>) -> (r: Option<String>)
    ensures
        match r {
            Some(t) => line_time(line@) == Some(t@),
            None => line_time(line@) is None,
        },
{
    let text = crate::text::from_chars(line);
    if contains(text.as_str(), "Start Time:") || contains(text.as_str(), "Hora de inicio:") {
        match last_word_of(line) {
            Some(word) => match split_once_char(word.as_str(), ':') {
                Some((h, rest)) => {
                    let m = match split_once_char(rest.as_str(), ':') {
                        Some((m, _)) => m,
                        None => rest,
                    };
                    let ghost h_text = h@;
                    let mut hm = h;
                    crate::text::push_char(&mut hm, ':');
                    append_str(&mut hm, m.as_str());
                    assert(hm@ =~= h_text + seq![':'] + m@);
                    if validate_schedule_time(hm.as_str()) {
                        Some(hm)
                    } else {
                        None
                    }
                },
                None => None,
            },
            None => None,
        }
    } else {
        None
    }
}

/// The scheduled time in the output of `schtasks /query /fo list /v`: the
/// first line that names the start time and ends in a valid `HH:MM...`
/// gives it.
pub fn scheduled_time_from_listing(output: &str) -> (r: Option<String>)
    ensures
        match r {
            Some(t) => first_line_time(text_lines(output@)) == Some(t@),
            None => first_line_time(text_lines(output@)) is None,
        },
{
    let v = crate::text::to_chars(output);
    let lines = split_lines(&v);
    let ghost all = line_views(lines@);
    let mut j: usize = 0;
    assert(all.subrange(0, all.len() as int) =~= all);
    while j < lines.len()
        invariant
            j <= lines.len(),
            all == line_views(lines@),
            all == text_lines(v@),
            v@ == output@,
            first_line_time(all) == first_line_time(all.subrange(j as int, all.len() as int)),
        decreases lines.len() - j,
    {
        let ghost rest = all.subrange(j as int, all.len() as int);
        assert(rest[0] == lines@[j as int]@);
        assert(rest.drop_first() =~= all.subrange(j + 1, all.len() as int));
        match line_time_of(&lines[j]) {
            Some(t) => {
                return Some(t);
            },
            None => {},
        }
        j = j + 1;
    }
    assert(all.subrange(j as int, all.len() as int) =~= Seq::<Seq<char>>::empty());
    None
}

// ---------------------------------------------------------------------------
// Reading the scheduled time back from `schtasks /query /xml`
// ---------------------------------------------------------------------------

/// The scheduled time in the task's XML: in the first `<StartBoundary>`
/// element, the part after the date's `T`, taken to its first two
/// `:`-separated fields.
pub open spec fn xml_time(s: Seq<char>) -> Option<Seq<char>> {
    match find_text(s, "<StartBoundary>"@) {
        Some(a) => {
            let rest = s.subrange(a, s.len() as int);
            match find_text(rest, "</StartBoundary>"@) {
                Some(e) => {
                    let boundary = rest.subrange(15, e);
                    match split_once(boundary, 'T') {
                        Some((_, after)) => {
                            let time_part = match split_once(after, 'T') {
                                Some((t, _)) => t,
                                None => after,
                            };
                            hour_minute_of(time_part)
                        },
                        None => None,
                    }
                },
                None => None,
            }
        },
        None => None,
    }
}

proof fn lemma_close_after_open(rest: Seq<char>, e: int)
    requires
        occurs_at(rest, "<StartBoundary>"@, 0),
        occurs_at(rest, "</StartBoundary>"@, e),
    ensures
        e >= 15,
{
    reveal_strlit("<StartBoundary>");
    reveal_strlit("</StartBoundary>");
    if e < 15 {
        let open = "<StartBoundary>"@;
        let close = "</StartBoundary>"@;
        assert(rest.subrange(e, e + 16)[0] == close[0]);
        assert(rest[e] == '<');
        assert(rest.subrange(0, 15)[e] == open[e]);
        if e == 0 {
            assert(rest.subrange(e, e + 16)[1] == close[1]);
            assert(rest.subrange(0, 15)[1] == open[1]);
        }
    }
}

/// The scheduled time in the output of `schtasks /query /xml`.
pub fn scheduled_time_from_xml(output: &str) -> (r: Option<String>)
    ensures
        match r {
            Some(t) => xml_time(output@) == Some(t@),
            None => xml_time(output@) is None,
        },
{
    let v = to_chars(output);
    let open = to_chars("<StartBoundary>");
    let close = to_chars("</StartBoundary>");
    proof {
        reveal_strlit("<StartBoundary>");
    }
    let a = match find_str(&v, &open) {
        Some(a) => a,
        None => return None,
    };
    let rest = sub_chars(&v, a, v.len());
    assert(rest@.subrange(0, 15) =~= v@.subrange(a as int, a + 15));
    let e = match find_str(&rest, &close) {
        Some(e) => e,
        None => return None,
    };
    proof {
        lemma_close_after_open(rest@, e as int);
    }
    let boundary = crate::text::slice_string(&rest, 15, e);
    match split_once_char(boundary.as_str(), 'T') {
        Some((_, after)) => {
            let time_part = match split_once_char(after.as_str(), 'T') {
                Some((t, _)) => t,
                None => after,
            };
            match split_once_char(time_part.as_str(), ':') {
                Some((h, rest_fields)) => {
                    let m = match split_once_char(rest_fields.as_str(), ':') {
                        Some((m, _)) => m,
                        None => rest_fields,
                    };
                    let ghost h_text = h@;
                    let mut hm = h;
                    crate::text::push_char(&mut hm, ':');
                    append_str(&mut hm, m.as_str());
                    assert(hm@ =~= h_text + seq![':'] + m@);
                    Some(hm)
                },
                None => None,
            }
        },
        None => None,
    }
}

// ---------------------------------------------------------------------------
// The in-window monitor
// ---------------------------------------------------------------------------

/// Watches the clock while the window is open and says when the scheduled
/// backup is due: at the scheduled minute, once a day.
pub struct ScheduleMonitor {
    pub schedule_time: String,
    /// The day (`YYYY-MM-DD`) of the last backup started, empty before the first.
    pub last_executed_day: String,
}

impl ScheduleMonitor {
    /// A monitor for `schedule_time` that has not started any backup.
    pub fn new(schedule_time: String) -> (r: Self)
        ensures
            r.schedule_time == schedule_time,
            r.last_executed_day@.len() == 0,
    {
        ScheduleMonitor { schedule_time, last_executed_day: String::new() }
    }

    /// Looks at the clock: true when the scheduled minute has come and no
    /// backup was started yet on this day, which then counts as done.
    pub fn tick(&mut self, now: LocalTime) -> (due: bool)
        ensures
            due == (minute_text(now) == old(self).schedule_time@ && day_text(now)
                != old(self).last_executed_day@),
            final(self).schedule_time == old(self).schedule_time,
            due ==> final(self).last_executed_day@ == day_text(now),
            !due ==> final(self).last_executed_day == old(self).last_executed_day,
    {
        let current_time = now.minute_stamp();
        let current_day = now.day_stamp();
        if current_time == self.schedule_time && current_day != self.last_executed_day {
            self.last_executed_day = current_day;
            true
        } else {
            false
        }
    }
}

impl ScheduleMonitor {
    /// Reads the local clock and ticks with the reading.
    pub fn tick_now(&mut self) -> (due: bool)
        ensures
            final(self).schedule_time == old(self).schedule_time,
            exists|now: LocalTime|
                #![trigger minute_text(now), day_text(now)]
                {
                    &&& now.valid()
                    &&& due == (minute_text(now) == old(self).schedule_time@ && day_text(now)
                        != old(self).last_executed_day@)
                    &&& (due ==> final(self).last_executed_day@ == day_text(now))
                    &&& (!due ==> final(self).last_executed_day == old(self).last_executed_day)
                },
    {
        let now = local_now();
        let due = self.tick(now);
        assert(minute_text(now) == minute_text(now) && day_text(now) == day_text(now));
        due
    }
}

/// The monitor starts at most one backup a day: once a tick has said the
/// backup is due, no later tick on the same day says so again.
pub proof fn lemma_once_a_day(m0: ScheduleMonitor, m1: ScheduleMonitor, t0: LocalTime, t1: LocalTime)
    requires
        minute_text(t0) == m0.schedule_time@ && day_text(t0) != m0.last_executed_day@,
        m1.last_executed_day@ == day_text(t0),
        day_text(t1) == day_text(t0),
    ensures
        !(minute_text(t1) == m1.schedule_time@ && day_text(t1) != m1.last_executed_day@),
{
}

/// What a change on the schedule panel brings about.
pub struct ScheduleResult {
    pub config_changed: bool,
    pub success_message: Option<String>,
    pub error_message: Option<String>,
}

impl ScheduleResult {
    /// Nothing changed, nothing to say.
    pub fn new() -> (r: Self)
        ensures
            !r.config_changed,
            r.success_message is None,
            r.error_message is None,
    {
        ScheduleResult { config_changed: false, success_message: None, error_message: None }
    }
}

} // verus!
