//! The plain-text listings that `--today` and `--week` print.
use vstd::prelude::*;
use vstd::string::StringExecFns;
use crate::text::{chars_of, decimal, decimal_chars, join, string_of, trim, trim_chars};
use crate::html::string_views;
use crate::parser::{display_name_of, event_views, EventView, Schedule};
use crate::groups::GroupSet;
use crate::app::{events_in_week_number, events_on_date, groups_display, groups_text, listed_events, ref_views};

verus! {

// ---------------------------------------------------------------------------
// What the listings say
// ---------------------------------------------------------------------------

/// The rule above and below a listing's heading.
pub open spec fn rule_line() -> Seq<char> {
    "=================================================="@
}

/// A listing's heading: its title, the program and, where groups are
/// selected, the group filter, between two rules.
pub open spec fn report_header(title: Seq<char>, program: Seq<char>, groups: Seq<Seq<char>>) -> Seq<
    Seq<char>,
> {
    seq![rule_line(), title, "  Program: "@ + trim(program)] + (if groups.len() > 0 {
        seq!["  Gruppfilter: "@ + groups_display(groups)]
    } else {
        Seq::empty()
    }) + seq![rule_line()]
}

/// `s` padded with spaces on the right to `w` characters, as `{:<w}` formats
/// it.
pub open spec fn padded(s: Seq<char>, w: nat) -> Seq<char> {
    if s.len() >= w {
        s
    } else {
        s + Seq::new((w - s.len()) as nat, |i: int| ' ')
    }
}

/// The lines of the `n`-th (from 1) event of the day: time, kind and course;
/// rooms and teachers where there are any; the moment; and an empty line.
pub open spec fn day_entry(n: nat, e: EventView) -> Seq<Seq<char>> {
    seq![decimal(n) + ". "@ + e.time_span + " ["@ + display_name_of(e.activity_type) + "] - "@ + e.course]
        + (if e.rooms.len() > 0 {
        seq!["   Lokal: "@ + join(e.rooms, ", "@)]
    } else {
        Seq::empty()
    }) + (if e.signatures.len() > 0 {
        seq!["   Lärare: "@ + join(e.signatures, ", "@)]
    } else {
        Seq::empty()
    }) + seq!["   Moment: "@ + e.moment, Seq::empty()]
}

pub open spec fn day_entries(es: Seq<EventView>) -> Seq<Seq<char>>
    decreases es.len(),
{
    if es.len() == 0 {
        Seq::empty()
    } else {
        day_entries(es.drop_last()) + day_entry(es.len(), es.last())
    }
}

/// The listing of `--today`: the heading, then each of the day's events, or
/// a line saying that there are none.
pub open spec fn today_report(
    program: Seq<char>,
    today: Seq<char>,
    groups: Seq<Seq<char>>,
    events: Seq<EventView>,
) -> Seq<Seq<char>> {
    report_header("  HB SCHEMA - IDAG ("@ + today + ")"@, program, groups) + if events.len() == 0 {
        seq!["Inga schemalagda aktiviteter idag."@]
    } else {
        day_entries(events)
    }
}

/// One line of the week listing: day and date, time, kind, course code, rooms
/// and moment, in columns.
pub open spec fn week_entry(e: EventView) -> Seq<char> {
    "["@ + e.day + " "@ + e.date + "] "@ + e.time_span + " | "@ + padded(
        display_name_of(e.activity_type),
        12,
    ) + " | "@ + padded(e.course_code, 25) + " | Sal: "@ + padded(join(e.rooms, ", "@), 10)
        + " | "@ + e.moment
}

/// The listing of `--week`: the heading, then a line per event of the week,
/// or a line saying that there are none.
pub open spec fn week_report(
    program: Seq<char>,
    week: u32,
    groups: Seq<Seq<char>>,
    events: Seq<EventView>,
) -> Seq<Seq<char>> {
    report_header("  HB SCHEMA - VECKA "@ + decimal(week as nat), program, groups) + if events.len()
        == 0 {
        seq!["Inga aktiviteter hittades för vecka "@ + decimal(week as nat) + "."@]
    } else {
        events.map_values(|e: EventView| week_entry(e))
    }
}

// ---------------------------------------------------------------------------
// Building them
// ---------------------------------------------------------------------------

/// The strings joined with `sep` between neighbours.
fn join_strings(parts: &Vec<String>, sep: &str) -> (res: String)
    ensures
        res@ == join(string_views(parts@), sep@),
{
    let ghost views = string_views(parts@);
    let mut res = String::new();
    let mut i: usize = 0;
    while i < parts.len()
        invariant
            i <= parts@.len(),
            views == string_views(parts@),
            res@ == join(views.take(i as int), sep@),
        decreases parts@.len() - i,
    {
        assert(views.take(i + 1).drop_last() =~= views.take(i as int));
        if i == 0 {
            res = parts[0].clone();
            assert(views.take(1) =~= seq![views[0]]);
        } else {
            res = res.concat(sep).concat(parts[i].as_str());
        }
        i = i + 1;
    }
    assert(views.take(parts@.len() as int) =~= views);
    res
}

/// `s` padded with spaces on the right to `w` characters.
fn pad(s: String, w: usize) -> (res: String)
    ensures
        res@ == padded(s@, w as nat),
{
    let ghost sv = s@;
    let n = s.unicode_len();
    if n >= w {
        return s;
    }
    let mut res = s;
    let mut k: usize = n;
    assert(res@ =~= sv + Seq::new(0, |i: int| ' '));
    while k < w
        invariant
            n <= k <= w,
            n == sv.len(),
            res@ == sv + Seq::new((k - n) as nat, |i: int| ' '),
        decreases w - k,
    {
        let ghost prev = res@;
        res = res.concat(" ");
        proof {
            reveal_strlit(" ");
        }
        assert(" "@ =~= seq![' ']);
        assert(res@ == prev + seq![' ']);
        k = k + 1;
        assert(res@ =~= sv + Seq::new((k - n) as nat, |i: int| ' '));
    }
    res
}

/// The decimal notation of `n` as a string.
fn decimal_string(n: u64) -> (res: String)
    ensures
        res@ == decimal(n as nat),
{
    let d = decimal_chars(n);
    string_of(d.as_slice())
}

fn header_lines(title: String, program: &str, groups: &GroupSet) -> (lines: Vec<String>)
    ensures
        string_views(lines@) == report_header(title@, program@, groups@),
{
    let mut lines: Vec<String> = Vec::new();
    lines.push(String::from_str("=================================================="));
    lines.push(title);
    let pc = chars_of(program);
    let pt = trim_chars(pc.as_slice());
    let ps = string_of(pt.as_slice());
    lines.push(String::from_str("  Program: ").concat(ps.as_str()));
    if groups.len() > 0 {
        let g = groups_text(groups);
        lines.push(String::from_str("  Gruppfilter: ").concat(g.as_str()));
    }
    lines.push(String::from_str("=================================================="));
    assert(string_views(lines@) =~= report_header(title@, program@, groups@));
    lines
}

/// Appends each of `new` to `lines`.
fn append_lines(lines: &mut Vec<String>, new: Vec<String>)
    ensures
        string_views(final(lines)@) == string_views(old(lines)@) + string_views(new@),
{
    let ghost start = string_views(lines@);
    let mut i: usize = 0;
    while i < new.len()
        invariant
            i <= new@.len(),
            string_views(lines@) == start + string_views(new@).take(i as int),
        decreases new@.len() - i,
    {
        let ghost before = string_views(lines@);
        lines.push(new[i].clone());
        assert(string_views(lines@) =~= before.push(new@[i as int]@));
        assert(string_views(new@).take(i + 1) =~= string_views(new@).take(i as int).push(
            new@[i as int]@,
        ));
        assert(string_views(lines@) =~= start + string_views(new@).take(i + 1));
        i = i + 1;
    }
    assert(string_views(new@).take(new@.len() as int) =~= string_views(new@));
}

/// The lines of the `n`-th event of the day (see `day_entry`).
fn day_entry_lines(n: u64, e: &crate::parser::Event) -> (lines: Vec<String>)
    ensures
        string_views(lines@) == day_entry(n as nat, e@),
{
    let num = decimal_string(n);
    let first = num.concat(". ").concat(e.time_span.as_str()).concat(" [").concat(
        e.activity_type.display_name(),
    ).concat("] - ").concat(e.course.as_str());
    let mut lines: Vec<String> = Vec::new();
    lines.push(first);
    if e.rooms.len() > 0 {
        let r = join_strings(&e.rooms, ", ");
        lines.push(String::from_str("   Lokal: ").concat(r.as_str()));
    }
    if e.signatures.len() > 0 {
        let t = join_strings(&e.signatures, ", ");
        lines.push(String::from_str("   Lärare: ").concat(t.as_str()));
    }
    lines.push(String::from_str("   Moment: ").concat(e.moment.as_str()));
    lines.push(String::new());
    assert(string_views(lines@) =~= day_entry(n as nat, e@));
    lines
}

/// The listing that `--today` prints for `schedule` on the date `today`
/// (YYYY-MM-DD) under the group filters, a line per element.
pub fn today_lines(schedule: &Schedule, today: &str, groups: &GroupSet) -> (lines: Vec<String>)
    ensures
        string_views(lines@) == today_report(
            schedule.metadata.program_info@,
            today@,
            groups@,
            listed_events(event_views(schedule.events@), Some(today@), 0, groups@),
        ),
{
    let events = events_on_date(&schedule.events, today, groups);
    let ghost evs = ref_views(events@);
    let title = String::from_str("  HB SCHEMA - IDAG (").concat(today).concat(")");
    let mut lines = header_lines(title, schedule.metadata.program_info.as_str(), groups);
    if events.len() == 0 {
        lines.push(String::from_str("Inga schemalagda aktiviteter idag."));
        return lines;
    }
    let ghost head = string_views(lines@);
    let mut i: usize = 0;
    assert(day_entries(evs.take(0)) =~= Seq::<Seq<char>>::empty());
    while i < events.len()
        invariant
            i <= events@.len(),
            evs == ref_views(events@),
            string_views(lines@) == head + day_entries(evs.take(i as int)),
        decreases events@.len() - i,
    {
        let entry = day_entry_lines((i + 1) as u64, events[i]);
        append_lines(&mut lines, entry);
        assert(evs.take(i + 1).drop_last() =~= evs.take(i as int));
        assert(evs.take(i + 1).last() == events[i as int]@);
        assert(head + day_entries(evs.take(i as int)) + day_entry((i + 1) as nat, events[i as int]@)
            =~= head + day_entries(evs.take(i + 1)));
        i = i + 1;
    }
    assert(evs.take(events@.len() as int) =~= evs);
    lines
}

/// One line of the week listing (see `week_entry`).
fn week_entry_line(e: &crate::parser::Event) -> (line: String)
    ensures
        line@ == week_entry(e@),
{
    let kind = pad(String::from_str(e.activity_type.display_name()), 12);
    let code = pad(e.course_code.clone(), 25);
    let rooms = pad(join_strings(&e.rooms, ", "), 10);
    String::from_str("[").concat(e.day.as_str()).concat(" ").concat(e.date.as_str()).concat("] ").concat(
        e.time_span.as_str(),
    ).concat(" | ").concat(kind.as_str()).concat(" | ").concat(code.as_str()).concat(" | Sal: ").concat(
        rooms.as_str(),
    ).concat(" | ").concat(e.moment.as_str())
}

/// The listing that `--week` prints for `schedule` for week number `week`
/// under the group filters, a line per element.
pub fn week_lines(schedule: &Schedule, week: u32, groups: &GroupSet) -> (lines: Vec<String>)
    ensures
        string_views(lines@) == week_report(
            schedule.metadata.program_info@,
            week,
            groups@,
            listed_events(event_views(schedule.events@), None, week, groups@),
        ),
{
    let events = events_in_week_number(&schedule.events, week, groups);
    let ghost evs = ref_views(events@);
    let num = decimal_string(week as u64);
    let title = String::from_str("  HB SCHEMA - VECKA ").concat(num.as_str());
    let mut lines = header_lines(title, schedule.metadata.program_info.as_str(), groups);
    if events.len() == 0 {
        lines.push(String::from_str("Inga aktiviteter hittades för vecka ").concat(num.as_str()).concat("."));
        return lines;
    }
    let ghost head = string_views(lines@);
    let mut i: usize = 0;
    while i < events.len()
        invariant
            i <= events@.len(),
            evs == ref_views(events@),
            string_views(lines@) == head + evs.take(i as int).map_values(|e: EventView| week_entry(e)),
        decreases events@.len() - i,
    {
        let line = week_entry_line(events[i]);
        let ghost before = string_views(lines@);
        lines.push(line);
        assert(string_views(lines@) =~= before.push(line@));
        assert(evs.take(i + 1).map_values(|e: EventView| week_entry(e)) =~= evs.take(i as int).map_values(
            |e: EventView| week_entry(e),
        ).push(week_entry(evs[i as int])));
        i = i + 1;
    }
    assert(evs.take(events@.len() as int) =~= evs);
    lines
}

} // verus!
