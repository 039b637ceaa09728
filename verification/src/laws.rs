//! Properties that hold of the schedule model as a whole.
use vstd::prelude::*;
use crate::text::{contains, trim, unicode_lower};
use crate::parser::{
    active_filters, duration_text, groups_match, is_wildcard, week_index, weeks_of, EventView,
    WeekInfoView,
};
use crate::groups::{
    lemma_sorted_set_exists, lemma_sorted_set_of, lemma_text_lt_irreflexive, sorted_set,
    strictly_sorted, text_lt,
};
use crate::config::{active_profile, key_index, lookup, ProfileView};
use crate::app::{
    all_events, course_events, course_overview, current_week, date_index, goto_step,
    jump_today_view, key_step, main_step, next_event_view, next_mode_of, prev_event_view,
    prev_mode_of, search_step, select_events, summary_of, today_from, toggle_group, view_events,
    week_events, week_number_index, AppView, CourseSummaryView, Key, ModalView, ViewMode,
};
use crate::fetcher::{cache_fresh, fallback_of, FallbackView, ServerFailure};
use crate::parser::{classify, display_name_of, filter_matches, ActivityView};
use crate::text::{find_from, is_swedish_text, match_at, swedish_lower};
use crate::text::{is_ws, parse_u32_spec, split, words, ws_back, ws_end};
use crate::parser::{
    clean_cell, course_code_of, full_date_of, group_patterns, links_in, page_schedule,
    patterns_in, scan_rows, trimmed_pieces, clock_seconds,
};
use crate::html::{html_select, HtmlElementView};
use crate::parser::building_of;
use crate::text::{
    ascii_upper, decimal, digits_value, is_ascii_text, is_digit, starts_with, words_from,
    zero_padded,
};
use crate::parser::{cell_text, month_number, scan_row, week_heading, RowScan};
use crate::text::{find, set_back, set_end, trim_set};
use crate::text::{digit_char, digit_value};

verus! {

// ---------------------------------------------------------------------------
// Group filters
// ---------------------------------------------------------------------------

/// An event that names no group (a lecture for everyone) is shown whatever
/// groups are selected.
pub proof fn law_ungrouped_events_always_shown(filters: Seq<Seq<char>>)
    ensures
        groups_match(Seq::empty(), filters),
{
}

proof fn lemma_all_wildcards(filters: Seq<Seq<char>>)
    requires
        forall|i: int| 0 <= i < filters.len() ==> is_wildcard(unicode_lower(trim(#[trigger] filters[i]))),
    ensures
        active_filters(filters).len() == 0,
    decreases filters.len(),
{
    if filters.len() > 0 {
        assert forall|i: int| 0 <= i < filters.drop_last().len() implies is_wildcard(
            unicode_lower(trim(#[trigger] filters.drop_last()[i])),
        ) by {
            assert(filters.drop_last()[i] == filters[i]);
        }
        lemma_all_wildcards(filters.drop_last());
        assert(is_wildcard(unicode_lower(trim(filters[filters.len() - 1]))));
    }
}

/// Filters that select nothing in particular ("alla", "all", "*" or empty)
/// show every event.
pub proof fn law_wildcard_filters_show_everything(groups: Seq<Seq<char>>, filters: Seq<Seq<char>>)
    requires
        forall|i: int| 0 <= i < filters.len() ==> is_wildcard(unicode_lower(trim(#[trigger] filters[i]))),
    ensures
        groups_match(groups, filters),
{
    lemma_all_wildcards(filters);
}

/// No active group filter is a wildcard: a filter string's set of selected
/// groups never holds "", "alla", "all" or "*".
pub proof fn law_active_filters_select_something(filters: Seq<Seq<char>>)
    ensures
        forall|i: int| 0 <= i < active_filters(filters).len() ==> !is_wildcard(
            #[trigger] active_filters(filters)[i],
        ),
    decreases filters.len(),
{
    if filters.len() > 0 {
        law_active_filters_select_something(filters.drop_last());
        let r = active_filters(filters.drop_last());
        assert forall|i: int| 0 <= i < active_filters(filters).len() implies !is_wildcard(
            #[trigger] active_filters(filters)[i],
        ) by {
            if i < r.len() {
                assert(active_filters(filters)[i] == r[i]);
            }
        }
    }
}

proof fn lemma_active_filters_concat(a: Seq<Seq<char>>, b: Seq<Seq<char>>)
    ensures
        active_filters(a + b) == active_filters(a) + active_filters(b),
    decreases b.len(),
{
    if b.len() == 0 {
        assert(a + b =~= a);
        assert(active_filters(a) + active_filters(b) =~= active_filters(a));
    } else {
        lemma_active_filters_concat(a, b.drop_last());
        assert((a + b).drop_last() =~= a + b.drop_last());
        assert((a + b).last() == b.last());
        let g = unicode_lower(trim(b.last()));
        if !is_wildcard(g) {
            assert(active_filters(a) + active_filters(b.drop_last()).push(g) =~= (active_filters(a)
                + active_filters(b.drop_last())).push(g));
        }
    }
}

/// Once some group is selected, selecting further groups never hides an event
/// that was shown.
pub proof fn law_more_groups_never_hide(groups: Seq<Seq<char>>, f1: Seq<Seq<char>>, f2: Seq<Seq<char>>)
    requires
        active_filters(f1).len() > 0,
        groups_match(groups, f1),
    ensures
        groups_match(groups, f1 + f2),
{
    lemma_active_filters_concat(f1, f2);
    let fl = active_filters(f1);
    let fl2 = active_filters(f1 + f2);
    if groups.len() > 0 {
        let (i, j) = choose|i: int, j: int|
            0 <= i < fl.len() && 0 <= j < groups.len() && crate::parser::group_hits(
                #[trigger] fl[i],
                #[trigger] groups[j],
            );
        assert(fl2[i] == fl[i]);
        assert(crate::parser::group_hits(fl2[i], groups[j]));
    }
}

/// Toggling a group twice in the group filter dialog restores the selection.
pub proof fn law_toggle_group_twice(gs: Seq<Seq<char>>, k: Seq<char>)
    requires
        strictly_sorted(gs),
    ensures
        toggle_group(toggle_group(gs, k), k) == gs,
{
    lemma_sorted_set_of(gs);
    vstd::seq_lib::seq_to_set_is_finite(gs);
    if gs.contains(k) {
        let m = gs.to_set().remove(k);
        let once = sorted_set(m);
        lemma_sorted_set_exists(m);
        assert(!once.to_set().contains(k));
        assert(!once.contains(k));
        assert(once.to_set().insert(k) =~= gs.to_set());
    } else {
        let m = gs.to_set().insert(k);
        let once = sorted_set(m);
        lemma_sorted_set_exists(m);
        assert(once.to_set().contains(k));
        assert(once.contains(k));
        assert(once.to_set().remove(k) =~= gs.to_set());
    }
}

// ---------------------------------------------------------------------------
// Navigation
// ---------------------------------------------------------------------------

/// Moving to the next event and back returns to the same state, while the
/// selection lies within the view's events.
pub proof fn law_next_then_prev_event(s: AppView)
    requires
        s.selected_event_index < view_events(s).len(),
        view_events(s).len() <= usize::MAX,
    ensures
        prev_event_view(next_event_view(s)) == s,
{
    assert(view_events(next_event_view(s)) == view_events(s));
}

/// Moving to the previous event and forward again returns to the same state,
/// while the selection lies within the view's events.
pub proof fn law_prev_then_next_event(s: AppView)
    requires
        s.selected_event_index < view_events(s).len(),
        view_events(s).len() <= usize::MAX,
    ensures
        next_event_view(prev_event_view(s)) == s,
{
    assert(view_events(prev_event_view(s)) == view_events(s));
}

/// Moving to the next event always lands on an event of the view; moving to
/// the previous one does so from any selection up to the end of the view.
pub proof fn law_event_selection_stays_in_view(s: AppView)
    requires
        0 < view_events(s).len() <= usize::MAX,
    ensures
        next_event_view(s).selected_event_index < view_events(s).len(),
        s.selected_event_index <= view_events(s).len() ==> prev_event_view(s).selected_event_index
            < view_events(s).len(),
{
}

/// Tab cycles through the four views: four presses return to the start, and
/// BackTab undoes Tab.
pub proof fn law_view_cycle(m: crate::app::ViewMode)
    ensures
        next_mode_of(next_mode_of(next_mode_of(next_mode_of(m)))) == m,
        prev_mode_of(next_mode_of(m)) == m,
        next_mode_of(prev_mode_of(m)) == m,
{
}

/// Esc closes whichever dialog is open.
pub proof fn law_escape_closes_dialog(s: AppView, today: Seq<char>, week: u32)
    requires
        !(s.modal is Closed),
    ensures
        key_step(s, Key::Esc, today, week).0.modal is Closed,
{
}

/// Opening the search dialog and confirming it at once keeps the search.
pub proof fn law_search_open_confirm_keeps_query(s: AppView, today: Seq<char>, week: u32)
    requires
        s.modal is Closed,
    ensures
        key_step(key_step(s, Key::Char('/'), today, week).0, Key::Enter, today, week).0.search_query
            == s.search_query,
        key_step(key_step(s, Key::Char('/'), today, week).0, Key::Enter, today, week).0.modal is Closed,
{
    let s1 = main_step(s, Key::Char('/'), today, week).0;
    assert(s1.modal == ModalView::Search);
    assert(search_step(s1, Key::Enter).search_query == s.search_query);
}

/// The week view shows only events of the selected week.
pub proof fn law_week_view_shows_only_its_week(s: AppView, w: u32, y: u32)
    ensures
        forall|i: int| 0 <= i < week_events(s, w, y).len() ==> (#[trigger] week_events(s, w, y)[i]).week
            == w && week_events(s, w, y)[i].week_year == y,
{
    match s.schedule {
        Some(sc) => lemma_selected_in_week(sc.events, w, y, s.search_query, s.selected_groups,
            s.activity_filter),
        None => {},
    }
}

proof fn lemma_selected_in_week(
    es: Seq<EventView>,
    w: u32,
    y: u32,
    q: Seq<char>,
    gs: Seq<Seq<char>>,
    act: Option<crate::parser::ActivityView>,
)
    ensures
        forall|i: int| 0 <= i < select_events(es, Some((w, y)), q, gs, act).len() ==> (
        #[trigger] select_events(es, Some((w, y)), q, gs, act)[i]).week == w && select_events(
            es,
            Some((w, y)),
            q,
            gs,
            act,
        )[i].week_year == y,
    decreases es.len(),
{
    if es.len() > 0 {
        lemma_selected_in_week(es.drop_last(), w, y, q, gs, act);
    }
}

// ---------------------------------------------------------------------------
// Weeks of a schedule
// ---------------------------------------------------------------------------

/// The number of events over the weeks.
pub open spec fn total_count(ws: Seq<WeekInfoView>) -> nat
    decreases ws.len(),
{
    if ws.len() == 0 {
        0
    } else {
        total_count(ws.drop_last()) + ws.last().event_count
    }
}

proof fn lemma_total_count_update(ws: Seq<WeekInfoView>, k: int, nw: WeekInfoView)
    requires
        0 <= k < ws.len(),
        nw.event_count == ws[k].event_count + 1,
    ensures
        total_count(ws.update(k, nw)) == total_count(ws) + 1,
    decreases ws.len(),
{
    if k == ws.len() - 1 {
        assert(ws.update(k, nw).drop_last() =~= ws.drop_last());
    } else {
        lemma_total_count_update(ws.drop_last(), k, nw);
        assert(ws.update(k, nw).drop_last() =~= ws.drop_last().update(k, nw));
    }
}

proof fn lemma_week_index(ws: Seq<WeekInfoView>, w: u32, y: u32, i: int)
    requires
        0 <= i,
    ensures
        week_index(ws, w, y, i) matches Some(k) ==> i <= k < ws.len() && ws[k].week_number == w
            && ws[k].year == y,
        week_index(ws, w, y, i) is None ==> forall|m: int|
            i <= m < ws.len() ==> !(ws[m].week_number == w && ws[m].year == y),
    decreases ws.len() - i,
{
    if i < ws.len() && !(ws[i].week_number == w && ws[i].year == y) {
        lemma_week_index(ws, w, y, i + 1);
    }
}

/// The weeks of a parsed schedule account for every event exactly once: their
/// counts add up to the number of events, no week appears twice, and every
/// event's week appears.
pub proof fn law_weeks_account_for_every_event(events: Seq<EventView>)
    ensures
        total_count(weeks_of(events)) == events.len(),
        forall|i: int, j: int|
            0 <= i < j < weeks_of(events).len() ==> !((#[trigger] weeks_of(events)[i]).week_number
                == (#[trigger] weeks_of(events)[j]).week_number && weeks_of(events)[i].year
                == weeks_of(events)[j].year),
        forall|k: int|
            0 <= k < events.len() ==> exists|i: int|
                0 <= i < weeks_of(events).len() && (#[trigger] weeks_of(events)[i]).week_number
                    == (#[trigger] events[k]).week && weeks_of(events)[i].year == events[k].week_year,
    decreases events.len(),
{
    if events.len() > 0 {
        let prev = events.drop_last();
        law_weeks_account_for_every_event(prev);
        let ws = weeks_of(prev);
        let e = events.last();
        lemma_week_index(ws, e.week, e.week_year, 0);
        let nws = weeks_of(events);
        match week_index(ws, e.week, e.week_year, 0) {
            Some(k) => {
                let nw = WeekInfoView {
                    week_number: ws[k].week_number,
                    year: ws[k].year,
                    date_span: ws[k].date_span,
                    event_count: ws[k].event_count + 1,
                };
                assert(nws == ws.update(k, nw));
                lemma_total_count_update(ws, k, nw);
                assert forall|m: int| 0 <= m < events.len() implies exists|i: int|
                    0 <= i < nws.len() && (#[trigger] nws[i]).week_number == (
                    #[trigger] events[m]).week && nws[i].year == events[m].week_year by {
                    if m < events.len() - 1 {
                        assert(events[m] == prev[m]);
                        let i = choose|i: int|
                            0 <= i < ws.len() && (#[trigger] ws[i]).week_number == (
                            #[trigger] prev[m]).week && ws[i].year == prev[m].week_year;
                        assert(nws[i].week_number == ws[i].week_number && nws[i].year == ws[i].year);
                    } else {
                        assert(nws[k].week_number == e.week);
                    }
                }
            },
            None => {
                let nw = WeekInfoView {
                    week_number: e.week,
                    year: e.week_year,
                    date_span: e.date,
                    event_count: 1,
                };
                assert(nws == ws.push(nw));
                assert(nws.drop_last() =~= ws);
                assert forall|m: int| 0 <= m < events.len() implies exists|i: int|
                    0 <= i < nws.len() && (#[trigger] nws[i]).week_number == (
                    #[trigger] events[m]).week && nws[i].year == events[m].week_year by {
                    if m < events.len() - 1 {
                        assert(events[m] == prev[m]);
                        let i = choose|i: int|
                            0 <= i < ws.len() && (#[trigger] ws[i]).week_number == (
                            #[trigger] prev[m]).week && ws[i].year == prev[m].week_year;
                        assert(nws[i] == ws[i]);
                    } else {
                        assert(nws[ws.len() as int] == nw);
                    }
                }
            },
        }
    }
}

/// How many of the events fall in week `w` of year `y`.
pub open spec fn week_count(es: Seq<EventView>, w: u32, y: u32) -> nat
    decreases es.len(),
{
    if es.len() == 0 {
        0
    } else {
        week_count(es.drop_last(), w, y) + if es.last().week == w && es.last().week_year == y {
            1nat
        } else {
            0nat
        }
    }
}

/// The index of the first event in week `w` of year `y`.
pub open spec fn first_of_week(es: Seq<EventView>, w: u32, y: u32) -> Option<int>
    decreases es.len(),
{
    if es.len() == 0 {
        None
    } else {
        match first_of_week(es.drop_last(), w, y) {
            Some(f) => Some(f),
            None => if es.last().week == w && es.last().week_year == y {
                Some(es.len() - 1)
            } else {
                None
            },
        }
    }
}

proof fn lemma_first_of_week(es: Seq<EventView>, w: u32, y: u32)
    ensures
        first_of_week(es, w, y) matches Some(f) ==> 0 <= f < es.len() && es[f].week == w
            && es[f].week_year == y,
        first_of_week(es, w, y) is None ==> week_count(es, w, y) == 0,
        first_of_week(es, w, y) is None ==> forall|k: int|
            0 <= k < es.len() ==> !((#[trigger] es[k]).week == w && es[k].week_year == y),
    decreases es.len(),
{
    if es.len() > 0 {
        lemma_first_of_week(es.drop_last(), w, y);
        if first_of_week(es, w, y) is None {
            assert forall|k: int| 0 <= k < es.len() implies !((#[trigger] es[k]).week == w
                && es[k].week_year == y) by {
                if k < es.len() - 1 {
                    assert(es[k] == es.drop_last()[k]);
                }
            }
        }
    }
}

/// The week counts exactly the events of its week and year, and carries the
/// date of the first of them.
pub open spec fn summarizes(events: Seq<EventView>, w: WeekInfoView) -> bool {
    &&& w.event_count == week_count(events, w.week_number, w.year)
    &&& first_of_week(events, w.week_number, w.year) is Some
    &&& w.date_span == events[first_of_week(events, w.week_number, w.year)->0].date
}

/// Each week of a parsed schedule counts exactly the events of that week and
/// carries the date of its first event, and the weeks stand in the order in
/// which their first events do.
pub proof fn law_weeks_count_and_order(events: Seq<EventView>)
    ensures
        forall|i: int|
            0 <= i < weeks_of(events).len() ==> summarizes(events, #[trigger] weeks_of(events)[i]),
        forall|i: int, j: int|
            0 <= i < j < weeks_of(events).len() ==> first_of_week(
                events,
                (#[trigger] weeks_of(events)[i]).week_number,
                weeks_of(events)[i].year,
            )->0 < first_of_week(
                events,
                (#[trigger] weeks_of(events)[j]).week_number,
                weeks_of(events)[j].year,
            )->0,
    decreases events.len(),
{
    if events.len() > 0 {
        let prev = events.drop_last();
        law_weeks_count_and_order(prev);
        law_weeks_account_for_every_event(prev);
        let ws = weeks_of(prev);
        let e = events.last();
        let nws = weeks_of(events);
        lemma_week_index(ws, e.week, e.week_year, 0);
        lemma_first_of_week(prev, e.week, e.week_year);
        assert forall|i: int| 0 <= i < ws.len() implies first_of_week(
            prev,
            ws[i].week_number,
            ws[i].year,
        ) is Some && first_of_week(prev, ws[i].week_number, ws[i].year)->0 < prev.len() by {
            lemma_first_of_week(prev, ws[i].week_number, ws[i].year);
        }
        match week_index(ws, e.week, e.week_year, 0) {
            Some(k) => {
                assert forall|i: int| 0 <= i < nws.len() implies summarizes(events, #[trigger] nws[i]) by {
                    assert(nws[i].week_number == ws[i].week_number && nws[i].year == ws[i].year);
                    assert(summarizes(prev, ws[i]));
                    lemma_first_of_week(prev, ws[i].week_number, ws[i].year);
                    let f = first_of_week(prev, ws[i].week_number, ws[i].year)->0;
                    assert(events[f] == prev[f]);
                    if i != k {
                        assert(!(ws[i].week_number == ws[k].week_number && ws[i].year == ws[k].year));
                    }
                }
                assert forall|i: int, j: int| 0 <= i < j < nws.len() implies first_of_week(
                    events,
                    (#[trigger] nws[i]).week_number,
                    nws[i].year,
                )->0 < first_of_week(events, (#[trigger] nws[j]).week_number, nws[j].year)->0 by {
                    assert(nws[i].week_number == ws[i].week_number && nws[i].year == ws[i].year);
                    assert(nws[j].week_number == ws[j].week_number && nws[j].year == ws[j].year);
                    assert(first_of_week(prev, ws[i].week_number, ws[i].year) is Some);
                    assert(first_of_week(prev, ws[j].week_number, ws[j].year) is Some);
                }
            },
            None => {
                let nw = nws[ws.len() as int];
                assert(nws == ws.push(nw));
                assert(first_of_week(prev, e.week, e.week_year) is None) by {
                    if first_of_week(prev, e.week, e.week_year) is Some {
                        let f = first_of_week(prev, e.week, e.week_year)->0;
                        let i = choose|i: int|
                            0 <= i < ws.len() && (#[trigger] ws[i]).week_number == (
                            #[trigger] prev[f]).week && ws[i].year == prev[f].week_year;
                    }
                }
                assert forall|i: int| 0 <= i < nws.len() implies summarizes(events, #[trigger] nws[i]) by {
                    if i < ws.len() {
                        assert(nws[i] == ws[i]);
                        assert(summarizes(prev, ws[i]));
                        lemma_first_of_week(prev, ws[i].week_number, ws[i].year);
                        let f = first_of_week(prev, ws[i].week_number, ws[i].year)->0;
                        assert(events[f] == prev[f]);
                    } else {
                        assert(events[events.len() - 1] == e);
                    }
                }
                assert forall|i: int, j: int| 0 <= i < j < nws.len() implies first_of_week(
                    events,
                    (#[trigger] nws[i]).week_number,
                    nws[i].year,
                )->0 < first_of_week(events, (#[trigger] nws[j]).week_number, nws[j].year)->0 by {
                    assert(nws[i] == ws[i]);
                    assert(first_of_week(prev, ws[i].week_number, ws[i].year) is Some);
                    if j < ws.len() {
                        assert(nws[j] == ws[j]);
                        assert(first_of_week(prev, ws[j].week_number, ws[j].year) is Some);
                    }
                }
            },
        }
    }
}

// ---------------------------------------------------------------------------
// Events of a parsed schedule
// ---------------------------------------------------------------------------

/// An event whose derived fields agree with its texts: course code, kind,
/// groups, links, full date and duration are what `extract_course_code`,
/// `ActivityType::from_moment`, `extract_groups`, `extract_urls`,
/// `resolve_full_date` and `compute_duration` give, and its rooms and
/// signatures are nonempty and trimmed.
pub open spec fn consistent_event(e: EventView) -> bool {
    &&& e.course_code == course_code_of(e.course)
    &&& e.activity_type == classify(unicode_lower(e.moment), e.moment)
    &&& e.groups == patterns_in(group_patterns(), unicode_lower(e.moment))
    &&& e.urls == links_in(words(e.moment))
    &&& e.full_date == full_date_of(e.date, e.week_year)
    &&& e.duration_display == duration_text(clock_seconds(e.start_time), clock_seconds(e.end_time))
    &&& forall|k: int|
        0 <= k < e.rooms.len() ==> (#[trigger] e.rooms[k]).len() > 0 && trim(e.rooms[k])
            == e.rooms[k]
    &&& forall|k: int|
        0 <= k < e.signatures.len() ==> (#[trigger] e.signatures[k]).len() > 0 && trim(
            e.signatures[k],
        ) == e.signatures[k]
}

proof fn lemma_ws_end(s: Seq<char>, i: int)
    requires
        0 <= i <= s.len(),
    ensures
        i <= ws_end(s, i) <= s.len(),
        ws_end(s, i) < s.len() ==> !is_ws(s[ws_end(s, i)]),
    decreases s.len() - i,
{
    if i < s.len() && is_ws(s[i]) {
        lemma_ws_end(s, i + 1);
    }
}

proof fn lemma_ws_back(s: Seq<char>, lo: int, j: int)
    requires
        0 <= lo <= j <= s.len(),
    ensures
        lo <= ws_back(s, lo, j) <= j,
        ws_back(s, lo, j) > lo ==> !is_ws(s[ws_back(s, lo, j) - 1]),
    decreases j - lo,
{
    if lo < j && 0 < j <= s.len() && is_ws(s[j - 1]) {
        lemma_ws_back(s, lo, j - 1);
    }
}

/// Trimming a trimmed text changes nothing.
proof fn lemma_trim_trimmed(s: Seq<char>)
    ensures
        trim(trim(s)) == trim(s),
{
    let a = ws_end(s, 0);
    lemma_ws_end(s, 0);
    let b = ws_back(s, a, s.len() as int);
    lemma_ws_back(s, a, s.len() as int);
    let t = trim(s);
    if t.len() > 0 {
        assert(t[0] == s[a]);
        assert(t[t.len() - 1] == s[b - 1]);
        assert(ws_end(t, 0) == 0);
        assert(ws_back(t, 0, t.len() as int) == t.len());
        assert(t.subrange(0, t.len() as int) =~= t);
    } else {
        assert(trim(t) =~= t);
    }
}

proof fn lemma_trimmed_pieces(ps: Seq<Seq<char>>)
    ensures
        forall|k: int|
            0 <= k < trimmed_pieces(ps).len() ==> (#[trigger] trimmed_pieces(ps)[k]).len() > 0 && trim(
                trimmed_pieces(ps)[k],
            ) == trimmed_pieces(ps)[k],
    decreases ps.len(),
{
    if ps.len() > 0 {
        lemma_trimmed_pieces(ps.drop_last());
        lemma_trim_trimmed(ps.last());
        let r = trimmed_pieces(ps.drop_last());
        assert forall|k: int| 0 <= k < trimmed_pieces(ps).len() implies (
        #[trigger] trimmed_pieces(ps)[k]).len() > 0 && trim(trimmed_pieces(ps)[k])
            == trimmed_pieces(ps)[k] by {
            if k < r.len() {
                assert(trimmed_pieces(ps)[k] == r[k]);
            }
        }
    }
}

proof fn lemma_scan_rows_consistent(rows: Seq<HtmlElementView>)
    ensures
        forall|k: int|
            0 <= k < scan_rows(rows).events.len() ==> consistent_event(
                #[trigger] scan_rows(rows).events[k],
            ),
    decreases rows.len(),
{
    if rows.len() > 0 {
        let prev = scan_rows(rows.drop_last());
        lemma_scan_rows_consistent(rows.drop_last());
        let row = rows.last();
        let now = scan_rows(rows);
        if now.events.len() > prev.events.len() {
            let cells = row.cells;
            lemma_trimmed_pieces(split(clean_cell(cells[5]), ','));
            lemma_trimmed_pieces(split(clean_cell(cells[6]), ','));
            assert(consistent_event(now.events[prev.events.len() as int]));
        }
        assert forall|k: int| 0 <= k < now.events.len() implies consistent_event(
            #[trigger] now.events[k],
        ) by {
            if k < prev.events.len() {
                assert(now.events[k] == prev.events[k]);
            }
        }
    }
}

/// Every event of a parsed schedule agrees with its texts (see
/// `consistent_event`).
pub proof fn law_parsed_events_are_consistent(html: Seq<char>, base: Option<Seq<char>>)
    ensures
        forall|k: int|
            0 <= k < page_schedule(html, base).events.len() ==> consistent_event(
                #[trigger] page_schedule(html, base).events[k],
            ),
{
    lemma_scan_rows_consistent(html_select(html, "tr"@, "class"@, "td"@));
}

// ---------------------------------------------------------------------------
// Profiles and durations
// ---------------------------------------------------------------------------

proof fn lemma_key_index_first(es: Seq<(Seq<char>, ProfileView)>)
    requires
        es.len() > 0,
    ensures
        key_index(es, es[0].0, 0) == Some(0int),
{
}

/// The active profile is one that the configuration stores under its key,
/// and there is one whenever the configuration has any profile.
pub proof fn law_active_profile_is_stored(
    es: Seq<(Seq<char>, ProfileView)>,
    default_key: Seq<char>,
    override_name: Option<Seq<char>>,
)
    ensures
        active_profile(es, default_key, override_name) is None <==> es.len() == 0,
        active_profile(es, default_key, override_name) matches Some(kp) ==> lookup(es, kp.0) == Some(
            kp.1,
        ),
{
    if es.len() > 0 {
        lemma_key_index_first(es);
    }
}

/// A duration is shown exactly when both times are read and the end is at
/// least a minute after the start.
pub proof fn law_duration_shown_when_span_positive(start: Option<u32>, end: Option<u32>)
    ensures
        duration_text(start, end).len() > 0 <==> (start is Some && end is Some && end->0 - start->0
            >= 60),
{
    if start is Some && end is Some && end->0 - start->0 >= 60 {
        let mins = (end->0 - start->0) / 60;
        crate::text::lemma_decimal_nonempty((mins / 60) as nat);
        crate::text::lemma_decimal_nonempty((mins % 60) as nat);
    }
}

// ---------------------------------------------------------------------------
// Jumping to a week or to today
// ---------------------------------------------------------------------------

proof fn lemma_week_number_index(ws: Seq<WeekInfoView>, w: u32, i: int, k: int)
    requires
        0 <= i <= k < ws.len(),
        ws[k].week_number == w,
    ensures
        week_number_index(ws, w, i) matches Some(p) && i <= p < ws.len() && ws[p].week_number == w,
    decreases k - i,
{
    if ws[i].week_number != w {
        lemma_week_number_index(ws, w, i + 1, k);
    }
}

/// Entering the number of a week that the schedule has in the go-to-week
/// dialog selects that week and closes the dialog.
pub proof fn law_go_to_week_selects_it(s: AppView, buf: Seq<char>, today: Seq<char>, week: u32)
    requires
        s.modal == ModalView::GoToWeek(buf),
        parse_u32_spec(trim(buf)) is Some,
        s.schedule matches Some(sc) && sc.weeks.len() <= usize::MAX && exists|k: int|
            0 <= k < sc.weeks.len() && (#[trigger] sc.weeks[k]).week_number == parse_u32_spec(
                trim(buf),
            )->0,
    ensures
        current_week(key_step(s, Key::Enter, today, week).0) matches Some(wi) && wi.week_number
            == parse_u32_spec(trim(buf))->0,
        key_step(s, Key::Enter, today, week).0.modal is Closed,
{
    let w = parse_u32_spec(trim(buf))->0;
    let sc = s.schedule->0;
    let k = choose|k: int| 0 <= k < sc.weeks.len() && (#[trigger] sc.weeks[k]).week_number == w;
    lemma_week_number_index(sc.weeks, w, 0, k);
    assert(key_step(s, Key::Enter, today, week).0 == goto_step(s, buf, Key::Enter));
}

proof fn lemma_date_index(es: Seq<EventView>, day: Seq<char>, j: int, k: int)
    requires
        0 <= j <= k < es.len(),
        es[k].full_date == day,
    ensures
        date_index(es, day, j) matches Some(p) && j <= p < es.len() && es[p].full_date == day,
    decreases k - j,
{
    if es[j].full_date != day {
        lemma_date_index(es, day, j + 1, k);
    }
}

proof fn lemma_date_index_found(es: Seq<EventView>, day: Seq<char>, j: int)
    requires
        0 <= j,
    ensures
        date_index(es, day, j) matches Some(p) ==> j <= p < es.len() && es[p].full_date == day,
    decreases es.len() - j,
{
    if j < es.len() && es[j].full_date != day {
        lemma_date_index_found(es, day, j + 1);
    }
}

proof fn lemma_today_from(s: AppView, ws: Seq<WeekInfoView>, today: Seq<char>, i: int)
    requires
        0 <= i,
    ensures
        today_from(s, ws, today, i) matches Some(p) ==> i <= p.0 < ws.len() && 0 <= p.1 < week_events(
            s,
            ws[p.0].week_number,
            ws[p.0].year,
        ).len() && week_events(s, ws[p.0].week_number, ws[p.0].year)[p.1].full_date == today,
        (exists|k: int, j: int|
            i <= k < ws.len() && 0 <= j < week_events(s, ws[k].week_number, ws[k].year).len()
                && (#[trigger] week_events(s, ws[k].week_number, ws[k].year)[j]).full_date == today)
            ==> today_from(s, ws, today, i) is Some,
    decreases ws.len() - i,
{
    if i < ws.len() {
        let es = week_events(s, ws[i].week_number, ws[i].year);
        lemma_date_index_found(es, today, 0);
        lemma_today_from(s, ws, today, i + 1);
        if exists|k: int, j: int|
            i <= k < ws.len() && 0 <= j < week_events(s, ws[k].week_number, ws[k].year).len()
                && (#[trigger] week_events(s, ws[k].week_number, ws[k].year)[j]).full_date == today {
            let (k, j) = choose|k: int, j: int|
                i <= k < ws.len() && 0 <= j < week_events(s, ws[k].week_number, ws[k].year).len()
                    && (#[trigger] week_events(s, ws[k].week_number, ws[k].year)[j]).full_date
                    == today;
            if k == i {
                lemma_date_index(es, today, 0, j);
            }
        }
    }
}

/// In the week view, jumping to today selects an event on today's date
/// whenever a week of the schedule shows one.
pub proof fn law_jump_to_today_selects_today(s: AppView, today: Seq<char>, w: u32)
    requires
        s.view_mode == ViewMode::Week,
        s.schedule matches Some(sc) && sc.weeks.len() <= usize::MAX && sc.events.len()
            <= usize::MAX && exists|k: int, j: int|
            0 <= k < sc.weeks.len() && 0 <= j < week_events(
                s,
                sc.weeks[k].week_number,
                sc.weeks[k].year,
            ).len() && (#[trigger] week_events(s, sc.weeks[k].week_number, sc.weeks[k].year)[j]).full_date
                == today,
    ensures
        ({
            let t = jump_today_view(s, today, w);
            &&& t.selected_event_index < view_events(t).len()
            &&& view_events(t)[t.selected_event_index as int].full_date == today
        }),
{
    let sc = s.schedule->0;
    lemma_today_from(s, sc.weeks, today, 0);
    let p = today_from(s, sc.weeks, today, 0)->0;
    let t = jump_today_view(s, today, w);
    lemma_select_len(sc.events, Some((sc.weeks[p.0].week_number, sc.weeks[p.0].year)), s.search_query,
        s.selected_groups, s.activity_filter);
    assert(week_events(t, sc.weeks[p.0].week_number, sc.weeks[p.0].year) == week_events(
        s,
        sc.weeks[p.0].week_number,
        sc.weeks[p.0].year,
    ));
}

proof fn lemma_select_len(
    es: Seq<EventView>,
    week: Option<(u32, u32)>,
    q: Seq<char>,
    gs: Seq<Seq<char>>,
    act: Option<crate::parser::ActivityView>,
)
    ensures
        select_events(es, week, q, gs, act).len() <= es.len(),
    decreases es.len(),
{
    if es.len() > 0 {
        lemma_select_len(es.drop_last(), week, q, gs, act);
    }
}

// ---------------------------------------------------------------------------
// Fetching and searching
// ---------------------------------------------------------------------------

/// When the server gives no schedule, a cached copy is shown where there is
/// one; only without one does the fetch fail.
pub proof fn law_cached_copy_survives_server_failure(failure: ServerFailure)
    ensures
        fallback_of(failure, true) is UseCache,
        fallback_of(failure, false) is Fail,
{
}

/// A forced refresh never uses the cache, and a cached copy that is fresh
/// stays fresh at any younger age.
pub proof fn law_cache_freshness(cache_age_secs: Option<u64>, younger: u64, ttl_minutes: u64)
    ensures
        !cache_fresh(true, cache_age_secs, ttl_minutes),
        cache_age_secs matches Some(a) && younger <= a && cache_fresh(false, cache_age_secs, ttl_minutes)
            ==> cache_fresh(false, Some(younger), ttl_minutes),
{
}

/// An empty search shows every event.
pub proof fn law_empty_search_matches_everything(e: EventView)
    ensures
        filter_matches(e, Seq::empty()),
{
}

// ---------------------------------------------------------------------------
// Course overview
// ---------------------------------------------------------------------------

/// The number of events over the course summaries.
pub open spec fn summary_total(cs: Seq<CourseSummaryView>) -> nat
    decreases cs.len(),
{
    if cs.len() == 0 {
        0
    } else {
        summary_total(cs.drop_last()) + cs.last().event_count
    }
}

spec fn course_count_sum(es: Seq<EventView>, ks: Seq<Seq<char>>) -> nat
    decreases ks.len(),
{
    if ks.len() == 0 {
        0
    } else {
        course_count_sum(es, ks.drop_last()) + course_events(es, ks.last()).len()
    }
}

spec fn no_dups(ks: Seq<Seq<char>>) -> bool {
    forall|i: int, j: int| 0 <= i < j < ks.len() ==> ks[i] != ks[j]
}

proof fn lemma_course_count_step(es: Seq<EventView>, ks: Seq<Seq<char>>)
    requires
        es.len() > 0,
        no_dups(ks),
    ensures
        course_count_sum(es, ks) == course_count_sum(es.drop_last(), ks) + if ks.contains(
            es.last().course,
        ) {
            1nat
        } else {
            0nat
        },
    decreases ks.len(),
{
    if ks.len() > 0 {
        let init = ks.drop_last();
        assert(no_dups(init));
        lemma_course_count_step(es, init);
        if ks.last() == es.last().course {
            assert(!init.contains(ks.last())) by {
                if init.contains(ks.last()) {
                    let i = choose|i: int| 0 <= i < init.len() && init[i] == ks.last();
                    assert(ks[i] == ks[ks.len() - 1]);
                }
            }
            assert(ks.contains(es.last().course)) by {
                assert(ks[ks.len() - 1] == es.last().course);
            }
        } else {
            assert(ks.contains(es.last().course) == init.contains(es.last().course)) by {
                if ks.contains(es.last().course) {
                    let i = choose|i: int| 0 <= i < ks.len() && ks[i] == es.last().course;
                    assert(init[i] == es.last().course);
                }
                if init.contains(es.last().course) {
                    let i = choose|i: int| 0 <= i < init.len() && init[i] == es.last().course;
                    assert(ks[i] == es.last().course);
                }
            }
        }
    }
}

proof fn lemma_course_count_sum(es: Seq<EventView>, ks: Seq<Seq<char>>)
    requires
        no_dups(ks),
        forall|k: int| 0 <= k < es.len() ==> ks.contains(#[trigger] es[k].course),
    ensures
        course_count_sum(es, ks) == es.len(),
    decreases es.len(),
{
    if es.len() == 0 {
        lemma_course_count_empty(ks);
        assert(es =~= Seq::<EventView>::empty());
    } else {
        let prev = es.drop_last();
        assert forall|k: int| 0 <= k < prev.len() implies ks.contains(#[trigger] prev[k].course) by {
            assert(prev[k] == es[k]);
        }
        lemma_course_count_sum(prev, ks);
        lemma_course_count_step(es, ks);
        assert(ks.contains(es[es.len() - 1].course));
    }
}

proof fn lemma_course_count_empty(ks: Seq<Seq<char>>)
    ensures
        course_count_sum(Seq::empty(), ks) == 0,
    decreases ks.len(),
{
    if ks.len() > 0 {
        lemma_course_count_empty(ks.drop_last());
    }
}

proof fn lemma_summary_total(es: Seq<EventView>, ks: Seq<Seq<char>>)
    ensures
        summary_total(ks.map_values(|c: Seq<char>| summary_of(c, course_events(es, c))))
            == course_count_sum(es, ks),
    decreases ks.len(),
{
    if ks.len() > 0 {
        lemma_summary_total(es, ks.drop_last());
        assert(ks.map_values(|c: Seq<char>| summary_of(c, course_events(es, c))).drop_last()
            =~= ks.drop_last().map_values(|c: Seq<char>| summary_of(c, course_events(es, c))));
    }
}

/// The course overview accounts for every shown event: the event counts of
/// its courses add up to the number of shown events.
pub proof fn law_course_overview_counts_every_event(s: AppView)
    ensures
        summary_total(course_overview(s)) == all_events(s).len(),
{
    let all = all_events(s);
    let names = all.map_values(|e: EventView| e.course);
    let m = names.to_set();
    vstd::seq_lib::seq_to_set_is_finite(names);
    lemma_sorted_set_exists(m);
    let ks = sorted_set(m);
    assert(no_dups(ks)) by {
        assert forall|i: int, j: int| 0 <= i < j < ks.len() implies ks[i] != ks[j] by {
            assert(text_lt(ks[i], ks[j]));
            if ks[i] == ks[j] {
                lemma_text_lt_irreflexive(ks[i]);
            }
        }
    }
    assert forall|k: int| 0 <= k < all.len() implies ks.contains(#[trigger] all[k].course) by {
        assert(names[k] == all[k].course);
        assert(m.contains(all[k].course));
        assert(ks.to_set().contains(all[k].course));
    }
    lemma_course_count_sum(all, ks);
    lemma_summary_total(all, ks);
}

// ---------------------------------------------------------------------------
// Activity kinds
// ---------------------------------------------------------------------------

/// From index `i` on, no character `a` in `s` is followed by `b`.
spec fn no_pair_from(s: Seq<char>, a: char, b: char, i: int) -> bool
    decreases s.len() - i,
{
    if i < 0 || i + 1 >= s.len() {
        true
    } else {
        !(s[i] == a && s[i + 1] == b) && no_pair_from(s, a, b, i + 1)
    }
}

proof fn lemma_no_pair_from(s: Seq<char>, a: char, b: char, i: int)
    requires
        0 <= i,
        no_pair_from(s, a, b, i),
    ensures
        forall|m: int| i <= m && m + 1 < s.len() ==> !(#[trigger] s[m] == a && s[m + 1] == b),
    decreases s.len() - i,
{
    if i + 1 < s.len() {
        lemma_no_pair_from(s, a, b, i + 1);
    }
}

proof fn lemma_find_none(s: Seq<char>, p: Seq<char>, k: int, i: int)
    requires
        0 <= k,
        k + 1 < p.len(),
        forall|m: int| 0 <= m && m + 1 < s.len() ==> !(#[trigger] s[m] == p[k] && s[m + 1] == p[k + 1]),
    ensures
        find_from(s, p, i) is None,
    decreases s.len() - i,
{
    if !(i < 0 || i + p.len() > s.len()) {
        if match_at(s, p, i) {
            assert(s.subrange(i, i + p.len())[k] == s[i + k]);
            assert(s.subrange(i, i + p.len())[k + 1] == s[i + k + 1]);
            assert(s[i + k] == p[k]);
        }
        if i < s.len() {
            lemma_find_none(s, p, k, i + 1);
        }
    }
}

/// `p` does not occur in `s` where its characters `k` and `k + 1` never stand
/// side by side in `s`.
proof fn lemma_pair_absent(s: Seq<char>, p: Seq<char>, k: int)
    requires
        0 <= k,
        k + 1 < p.len(),
        no_pair_from(s, p[k], p[k + 1], 0),
    ensures
        !contains(s, p),
{
    lemma_no_pair_from(s, p[k], p[k + 1], 0);
    lemma_find_none(s, p, k, 0);
}

proof fn lemma_find_some(s: Seq<char>, p: Seq<char>, i: int, j: int)
    requires
        0 <= i <= j,
        match_at(s, p, j),
    ensures
        find_from(s, p, i) is Some,
    decreases j - i,
{
    if !match_at(s, p, i) {
        lemma_find_some(s, p, i + 1, j);
    }
}

/// `p` occurs in `s` where it stands at index `j`.
proof fn lemma_found_at(s: Seq<char>, p: Seq<char>, j: int)
    requires
        0 <= j,
        j + p.len() <= s.len(),
        s.subrange(j, j + p.len()) =~= p,
    ensures
        contains(s, p),
{
    lemma_find_some(s, p, 0, j);
}

/// The name under which a kind of activity is shown is read back as that
/// kind: with `from_moment`'s contract, `from_moment(a.display_name()) == a`
/// for every kind but `Other`.
pub proof fn law_kind_name_reads_back(a: ActivityView)
    requires
        !(a is Other),
    ensures
        is_swedish_text(display_name_of(a)),
        classify(swedish_lower(display_name_of(a)), display_name_of(a)) == a,
{
    reveal_strlit("Föreläsning");
    reveal_strlit("Övning");
    reveal_strlit("Laboration");
    reveal_strlit("Tentamen");
    reveal_strlit("Seminarium");
    reveal_strlit("föreläs");
    reveal_strlit("forelas");
    reveal_strlit("intro");
    reveal_strlit("uppstart");
    reveal_strlit("övn");
    reveal_strlit("ovn");
    reveal_strlit("räknestuga");
    reveal_strlit("handledning");
    reveal_strlit("workshop");
    reveal_strlit("lab");
    reveal_strlit("tent");
    reveal_strlit("dugga");
    reveal_strlit("prov");
    reveal_strlit("examination");
    reveal_strlit("seminar");
    reveal_with_fuel(no_pair_from, 12);
    let l = swedish_lower(display_name_of(a));
    match a {
        ActivityView::Lecture => {
            assert(l =~= seq!['f', 'ö', 'r', 'e', 'l', 'ä', 's', 'n', 'i', 'n', 'g']);
            lemma_found_at(l, "föreläs"@, 0);
        },
        ActivityView::Exercise => {
            assert(l =~= seq!['ö', 'v', 'n', 'i', 'n', 'g']);
            lemma_pair_absent(l, "föreläs"@, 0);
            lemma_pair_absent(l, "forelas"@, 0);
            lemma_pair_absent(l, "intro"@, 2);
            lemma_pair_absent(l, "uppstart"@, 0);
            lemma_found_at(l, "övn"@, 0);
        },
        ActivityView::Lab => {
            assert(l =~= seq!['l', 'a', 'b', 'o', 'r', 'a', 't', 'i', 'o', 'n']);
            lemma_pair_absent(l, "föreläs"@, 0);
            lemma_pair_absent(l, "forelas"@, 0);
            lemma_pair_absent(l, "intro"@, 0);
            lemma_pair_absent(l, "uppstart"@, 0);
            lemma_pair_absent(l, "övn"@, 0);
            lemma_pair_absent(l, "ovn"@, 0);
            lemma_pair_absent(l, "räknestuga"@, 0);
            lemma_pair_absent(l, "handledning"@, 0);
            lemma_pair_absent(l, "workshop"@, 0);
            lemma_found_at(l, "lab"@, 0);
        },
        ActivityView::Exam => {
            assert(l =~= seq!['t', 'e', 'n', 't', 'a', 'm', 'e', 'n']);
            lemma_pair_absent(l, "föreläs"@, 0);
            lemma_pair_absent(l, "forelas"@, 0);
            lemma_pair_absent(l, "intro"@, 0);
            lemma_pair_absent(l, "uppstart"@, 0);
            lemma_pair_absent(l, "övn"@, 0);
            lemma_pair_absent(l, "ovn"@, 0);
            lemma_pair_absent(l, "räknestuga"@, 0);
            lemma_pair_absent(l, "handledning"@, 0);
            lemma_pair_absent(l, "workshop"@, 0);
            lemma_pair_absent(l, "lab"@, 0);
            lemma_found_at(l, "tent"@, 0);
        },
        ActivityView::Seminar => {
            assert(l =~= seq!['s', 'e', 'm', 'i', 'n', 'a', 'r', 'i', 'u', 'm']);
            lemma_pair_absent(l, "föreläs"@, 0);
            lemma_pair_absent(l, "forelas"@, 0);
            lemma_pair_absent(l, "intro"@, 1);
            lemma_pair_absent(l, "uppstart"@, 0);
            lemma_pair_absent(l, "övn"@, 0);
            lemma_pair_absent(l, "ovn"@, 0);
            lemma_pair_absent(l, "räknestuga"@, 0);
            lemma_pair_absent(l, "handledning"@, 0);
            lemma_pair_absent(l, "workshop"@, 0);
            lemma_pair_absent(l, "lab"@, 0);
            lemma_pair_absent(l, "tent"@, 0);
            lemma_pair_absent(l, "dugga"@, 0);
            lemma_pair_absent(l, "prov"@, 0);
            lemma_pair_absent(l, "examination"@, 0);
            lemma_found_at(l, "seminar"@, 0);
        },
        ActivityView::Other(_) => {},
    }
}

// ---------------------------------------------------------------------------
// Keywords of the activity kinds
// ---------------------------------------------------------------------------

/// The words that mark a lecture, an exercise, a lab, an exam and a seminar.
pub open spec fn lecture_words() -> Seq<Seq<char>> {
    seq!["föreläs"@, "forelas"@, "intro"@, "uppstart"@]
}

pub open spec fn exercise_words() -> Seq<Seq<char>> {
    seq!["övn"@, "ovn"@, "räknestuga"@, "handledning"@, "workshop"@]
}

pub open spec fn lab_words() -> Seq<Seq<char>> {
    seq!["lab"@]
}

pub open spec fn exam_words() -> Seq<Seq<char>> {
    seq!["tent"@, "dugga"@, "prov"@, "examination"@]
}

pub open spec fn seminar_words() -> Seq<Seq<char>> {
    seq!["seminar"@]
}

/// The lower-case text holds one of the words.
pub open spec fn mentions(l: Seq<char>, ws: Seq<Seq<char>>) -> bool {
    exists|k: int| 0 <= k < ws.len() && contains(l, #[trigger] ws[k])
}

/// Every keyword marks its kind: a moment whose lower-case text holds a word
/// of a kind, and no word of a kind tested before it (lecture, exercise, lab,
/// exam, seminar in this order), is of that kind; one that holds none of the
/// words is `Other`, keeping its text.
pub proof fn law_keywords_mark_their_kind(l: Seq<char>, m: Seq<char>)
    ensures
        mentions(l, lecture_words()) ==> classify(l, m) == ActivityView::Lecture,
        !mentions(l, lecture_words()) && mentions(l, exercise_words()) ==> classify(l, m)
            == ActivityView::Exercise,
        !mentions(l, lecture_words()) && !mentions(l, exercise_words()) && mentions(l, lab_words())
            ==> classify(l, m) == ActivityView::Lab,
        !mentions(l, lecture_words()) && !mentions(l, exercise_words()) && !mentions(l, lab_words())
            && mentions(l, exam_words()) ==> classify(l, m) == ActivityView::Exam,
        !mentions(l, lecture_words()) && !mentions(l, exercise_words()) && !mentions(l, lab_words())
            && !mentions(l, exam_words()) && mentions(l, seminar_words()) ==> classify(l, m)
            == ActivityView::Seminar,
        !mentions(l, lecture_words()) && !mentions(l, exercise_words()) && !mentions(l, lab_words())
            && !mentions(l, exam_words()) && !mentions(l, seminar_words()) ==> classify(l, m)
            == ActivityView::Other(m),
{
    let lw = lecture_words();
    let ew = exercise_words();
    let bw = lab_words();
    let xw = exam_words();
    let sw = seminar_words();
    assert(mentions(l, lw) <== (contains(l, lw[0]) || contains(l, lw[1]) || contains(l, lw[2])
        || contains(l, lw[3])));
    assert(mentions(l, lw) ==> (contains(l, lw[0]) || contains(l, lw[1]) || contains(l, lw[2])
        || contains(l, lw[3])));
    assert(mentions(l, ew) <== (contains(l, ew[0]) || contains(l, ew[1]) || contains(l, ew[2])
        || contains(l, ew[3]) || contains(l, ew[4])));
    assert(mentions(l, ew) ==> (contains(l, ew[0]) || contains(l, ew[1]) || contains(l, ew[2])
        || contains(l, ew[3]) || contains(l, ew[4])));
    assert(mentions(l, bw) <==> contains(l, bw[0]));
    assert(mentions(l, xw) <== (contains(l, xw[0]) || contains(l, xw[1]) || contains(l, xw[2])
        || contains(l, xw[3])));
    assert(mentions(l, xw) ==> (contains(l, xw[0]) || contains(l, xw[1]) || contains(l, xw[2])
        || contains(l, xw[3])));
    assert(mentions(l, sw) <==> contains(l, sw[0]));
}

// ---------------------------------------------------------------------------
// Any group of an event counts
// ---------------------------------------------------------------------------

proof fn lemma_contains_itself(s: Seq<char>)
    ensures
        contains(s, s),
{
    assert(s.subrange(0, s.len() as int) =~= s);
    assert(match_at(s, s, 0));
}

proof fn lemma_active_filter_kept(fs: Seq<Seq<char>>, i: int)
    requires
        0 <= i < fs.len(),
        !is_wildcard(unicode_lower(trim(fs[i]))),
    ensures
        active_filters(fs).contains(unicode_lower(trim(fs[i]))),
    decreases fs.len(),
{
    let g = unicode_lower(trim(fs[i]));
    if i == fs.len() - 1 {
        assert(active_filters(fs) == active_filters(fs.drop_last()).push(g));
        assert(active_filters(fs)[active_filters(fs).len() - 1] == g);
    } else {
        lemma_active_filter_kept(fs.drop_last(), i);
        assert(fs.drop_last()[i] == fs[i]);
        let r = active_filters(fs.drop_last());
        let k = choose|k: int| 0 <= k < r.len() && r[k] == g;
        let last = unicode_lower(trim(fs.last()));
        if !is_wildcard(last) {
            assert(active_filters(fs) == r.push(last));
            assert(active_filters(fs)[k] == g);
        } else {
            assert(active_filters(fs) == r);
        }
    }
}

/// A selected group selects every event that names it, wherever it stands
/// among the event's groups: where the filter at position `i`, trimmed and in
/// lower case, lies within the event's group at any position `j` (in lower
/// case) or holds it, or is a single character that the group names as
/// "grupp <character>", the event is shown.
pub proof fn law_any_group_of_the_event_counts(
    groups: Seq<Seq<char>>,
    filters: Seq<Seq<char>>,
    i: int,
    j: int,
)
    requires
        0 <= i < filters.len(),
        0 <= j < groups.len(),
        !is_wildcard(unicode_lower(trim(filters[i]))),
        ({
            let f = unicode_lower(trim(filters[i]));
            let g = unicode_lower(groups[j]);
            ||| contains(g, f)
            ||| contains(f, g)
            ||| f.len() == 1 && (f[0] as u32) < 128 && contains(g, "grupp "@ + f)
        }),
    ensures
        groups_match(groups, filters),
{
    lemma_active_filter_kept(filters, i);
    let fl = active_filters(filters);
    let k = choose|k: int| 0 <= k < fl.len() && fl[k] == unicode_lower(trim(filters[i]));
    let f = unicode_lower(trim(filters[i]));
    assert(crate::parser::group_hits(f, groups[j]));
    assert(crate::parser::group_hits(fl[k], groups[j]));
}

proof fn lemma_match_one_way(g1: Seq<Seq<char>>, g2: Seq<Seq<char>>, fs: Seq<Seq<char>>)
    requires
        g1.to_set() == g2.to_set(),
        groups_match(g1, fs),
    ensures
        groups_match(g2, fs),
{
    let fl = active_filters(fs);
    if fl.len() > 0 && g2.len() > 0 {
        if g1.len() == 0 {
            assert(g2.to_set().contains(g2[0]));
            assert(g1.to_set().contains(g2[0]));
        } else {
            let (i, j) = choose|i: int, j: int|
                0 <= i < fl.len() && 0 <= j < g1.len() && crate::parser::group_hits(
                    #[trigger] fl[i],
                    #[trigger] g1[j],
                );
            assert(g1.to_set().contains(g1[j]));
            assert(g2.to_set().contains(g1[j]));
            let j2 = choose|j2: int| 0 <= j2 < g2.len() && g2[j2] == g1[j];
            assert(crate::parser::group_hits(fl[i], g2[j2]));
        }
    }
}

/// Whether an event is shown does not depend on the order of its groups, nor
/// on a group named twice.
pub proof fn law_group_order_does_not_matter(g1: Seq<Seq<char>>, g2: Seq<Seq<char>>, fs: Seq<Seq<char>>)
    requires
        g1.to_set() == g2.to_set(),
    ensures
        groups_match(g1, fs) == groups_match(g2, fs),
{
    if groups_match(g1, fs) {
        lemma_match_one_way(g1, g2, fs);
    }
    if groups_match(g2, fs) {
        lemma_match_one_way(g2, g1, fs);
    }
}

/// A filter naming one of the event's groups (in any case, with spaces around
/// it) shows the event, whichever of its groups that is.
pub proof fn law_naming_a_group_shows_the_event(
    groups: Seq<Seq<char>>,
    filters: Seq<Seq<char>>,
    i: int,
    j: int,
)
    requires
        0 <= i < filters.len(),
        0 <= j < groups.len(),
        !is_wildcard(unicode_lower(trim(filters[i]))),
        unicode_lower(trim(filters[i])) == unicode_lower(groups[j]),
    ensures
        groups_match(groups, filters),
{
    lemma_contains_itself(unicode_lower(groups[j]));
    law_any_group_of_the_event_counts(groups, filters, i, j);
}

// ---------------------------------------------------------------------------
// Buildings
// ---------------------------------------------------------------------------

pub open spec fn upper_ascii(c: char) -> char {
    if 'a' <= c && c <= 'z' {
        ((c as int) - 32) as char
    } else {
        c
    }
}

/// The campus of each building letter: for a room code (in ASCII, either
/// case, with spaces around it) whose first letter is A, B, C, D, E or J the
/// description begins "Hus <letter> (Balder)", for M or S "Hus <letter>
/// (Sandgärdet)", for T "Textile Fashion Center" and for K "Kårhuset"; a
/// digit after the letter is the floor, which the description ends with.  Any
/// other room is remote ("Distans / Zoom") where it says ZOOM, ONLINE or
/// DISTANS, and has no description otherwise.
pub proof fn law_building_of_room(room: Seq<char>)
    requires
        is_ascii_text(trim(room)),
        trim(room).len() > 0,
    ensures
        ({
            let t = trim(room);
            let c = upper_ascii(t[0]);
            let d = building_of(ascii_upper(t));
            &&& (c == 'A' || c == 'B' || c == 'C' || c == 'D' || c == 'E' || c == 'J') ==> starts_with(
                d,
                "Hus "@.push(c) + " (Balder)"@,
            )
            &&& (c == 'M' || c == 'S') ==> starts_with(d, "Hus "@.push(c) + " (Sandgärdet)"@)
            &&& c == 'T' ==> starts_with(d, "Textile Fashion Center"@)
            &&& c == 'K' ==> starts_with(d, "Kårhuset"@)
            &&& (c == 'A' || c == 'B' || c == 'C' || c == 'D' || c == 'E' || c == 'J' || c == 'M'
                || c == 'S' || c == 'T' || c == 'K') && t.len() > 1 && '0' <= t[1] <= '9' ==> d
                =~= d.take(d.len() - 8) + ", Plan "@.push(t[1])
            &&& !(c == 'A' || c == 'B' || c == 'C' || c == 'D' || c == 'E' || c == 'J' || c == 'M'
                || c == 'S' || c == 'T' || c == 'K') ==> d == (if contains(ascii_upper(t), "ZOOM"@)
                || contains(ascii_upper(t), "ONLINE"@) || contains(ascii_upper(t), "DISTANS"@) {
                "Distans / Zoom"@
            } else {
                Seq::empty()
            })
        }),
{
    let t = trim(room);
    let u = ascii_upper(t);
    let c = upper_ascii(t[0]);
    assert(u[0] == c);
    assert(t.len() > 1 ==> (is_digit(u[1]) <==> is_digit(t[1])) && (is_digit(t[1]) ==> u[1]
        == t[1]));
    reveal_strlit("Hus ");
    reveal_strlit(" (Balder)");
    reveal_strlit(" (Sandgärdet)");
    reveal_strlit("Hus A (Balder)");
    reveal_strlit("Hus B (Balder)");
    reveal_strlit("Hus C (Balder)");
    reveal_strlit("Hus D (Balder)");
    reveal_strlit("Hus E (Balder)");
    reveal_strlit("Hus J (Balder)");
    reveal_strlit("Hus M (Sandgärdet)");
    reveal_strlit("Hus S (Sandgärdet)");
    reveal_strlit("Textile Fashion Center");
    reveal_strlit("Kårhuset");
    reveal_strlit(", ");
    reveal_strlit("Plan ");
    reveal_strlit(", Plan ");
    let d = building_of(u);
    let b = if c == 'A' || c == 'B' || c == 'C' || c == 'D' || c == 'E' || c == 'J' {
        "Hus "@.push(c) + " (Balder)"@
    } else if c == 'M' || c == 'S' {
        "Hus "@.push(c) + " (Sandgärdet)"@
    } else if c == 'T' {
        "Textile Fashion Center"@
    } else {
        "Kårhuset"@
    };
    if c == 'A' || c == 'B' || c == 'C' || c == 'D' || c == 'E' || c == 'J' || c == 'M' || c == 'S'
        || c == 'T' || c == 'K' {
        if c == 'A' {
            assert(b =~= "Hus A (Balder)"@);
        } else if c == 'B' {
            assert(b =~= "Hus B (Balder)"@);
        } else if c == 'C' {
            assert(b =~= "Hus C (Balder)"@);
        } else if c == 'D' {
            assert(b =~= "Hus D (Balder)"@);
        } else if c == 'E' {
            assert(b =~= "Hus E (Balder)"@);
        } else if c == 'J' {
            assert(b =~= "Hus J (Balder)"@);
        } else if c == 'M' {
            assert(b =~= "Hus M (Sandgärdet)"@);
        } else if c == 'S' {
            assert(b =~= "Hus S (Sandgärdet)"@);
        }
        if u.len() > 1 && is_digit(u[1]) {
            assert(d == b + ", "@ + "Plan "@.push(u[1]));
            assert(d.subrange(0, b.len() as int) =~= b);
            assert(d.take(d.len() - 8) =~= b);
            assert(d =~= b + ", Plan "@.push(t[1]));
        } else {
            assert(d == b);
            assert(d.subrange(0, b.len() as int) =~= b);
        }
    }
}

// ---------------------------------------------------------------------------
// Numbers and words in dates and headings
// ---------------------------------------------------------------------------

proof fn lemma_digit_char(k: int)
    requires
        0 <= k < 10,
    ensures
        digit_value(digit_char(k)) == k,
        is_digit(digit_char(k)),
{
    assert(('0' as int) == 48);
    assert(((k + 48) as char) as int == k + 48);
}

proof fn lemma_decimal_digits(n: nat)
    ensures
        decimal(n).len() > 0,
        forall|k: int| 0 <= k < decimal(n).len() ==> is_digit(#[trigger] decimal(n)[k]),
        digits_value(decimal(n)) == n,
    decreases n,
{
    if n < 10 {
        lemma_digit_char(n as int);
        assert(decimal(n).drop_last() =~= Seq::<char>::empty());
        assert(digits_value(Seq::<char>::empty()) == 0);
        assert(decimal(n).last() == digit_char(n as int));
    } else {
        lemma_decimal_digits(n / 10);
        lemma_digit_char((n % 10) as int);
        let p = decimal(n / 10);
        assert(decimal(n).last() == digit_char((n % 10) as int));
        assert(decimal(n).drop_last() =~= p);
        assert forall|k: int| 0 <= k < decimal(n).len() implies is_digit(#[trigger] decimal(n)[k]) by {
            if k < p.len() {
                assert(decimal(n)[k] == p[k]);
            }
        }
    }
}

/// A number written out in decimal reads back as that number.
proof fn lemma_parse_decimal(n: u32)
    ensures
        parse_u32_spec(decimal(n as nat)) == Some(n),
        decimal(n as nat).len() > 0,
        forall|k: int| 0 <= k < decimal(n as nat).len() ==> is_digit(#[trigger] decimal(n as nat)[k]),
{
    lemma_decimal_digits(n as nat);
    assert(is_digit(decimal(n as nat)[0]));
}

proof fn lemma_words_in_word(s: Seq<char>, i: int, k: int, w: int)
    requires
        0 <= w <= i <= k <= s.len(),
        forall|m: int| i <= m < k ==> !is_ws(#[trigger] s[m]),
    ensures
        words_from(s, i, w) == words_from(s, k, w),
    decreases k - i,
{
    if i < k {
        lemma_words_in_word(s, i + 1, k, w);
    }
}

/// The words of "<a> <b>" for words `a` and `b` without spaces.
proof fn lemma_two_words(a: Seq<char>, b: Seq<char>)
    requires
        a.len() > 0,
        b.len() > 0,
        forall|m: int| 0 <= m < a.len() ==> !is_ws(#[trigger] a[m]),
        forall|m: int| 0 <= m < b.len() ==> !is_ws(#[trigger] b[m]),
    ensures
        words(a + seq![' '] + b) == seq![a, b],
{
    let s = a + seq![' '] + b;
    let n = a.len() as int;
    assert forall|m: int| 1 <= m < n implies !is_ws(#[trigger] s[m]) by {
        assert(s[m] == a[m]);
    }
    assert(s[0] == a[0]);
    lemma_words_in_word(s, 1, n, 0);
    assert(s[n] == ' ');
    assert(s[n + 1] == b[0]);
    assert forall|m: int| n + 2 <= m < s.len() implies !is_ws(#[trigger] s[m]) by {
        assert(s[m] == b[m - n - 1]);
    }
    lemma_words_in_word(s, n + 2, s.len() as int, n + 1);
    assert(s.subrange(0, n) =~= a);
    assert(s.subrange(n + 1, s.len() as int) =~= b);
    assert(words(s) == seq![s.subrange(0, n)] + words_from(s, n + 1, -1));
    assert(words_from(s, n + 1, -1) == seq![s.subrange(n + 1, s.len() as int)]);
    assert(words(s) =~= seq![a, b]);
}

proof fn lemma_ne(a: Seq<char>, b: Seq<char>, k: int)
    requires
        0 <= k < a.len(),
        k < b.len(),
        a[k] != b[k],
    ensures
        a != b,
{
}

/// The months of the year by their abbreviations, January first.
pub open spec fn month_names() -> Seq<Seq<char>> {
    seq![
        "jan"@, "feb"@, "mar"@, "apr"@, "maj"@, "jun"@, "jul"@, "aug"@, "sep"@, "okt"@, "nov"@,
        "dec"@,
    ]
}

/// Each of the twelve month abbreviations names its own month, numbered 1 to
/// 12 from January; the other spellings "mår", "may" and "oct" name March,
/// May and October.
pub proof fn law_month_numbers()
    ensures
        forall|i: int| 0 <= i < 12 ==> month_number(#[trigger] month_names()[i]) == i + 1,
        month_number("mår"@) == 3,
        month_number("may"@) == 5,
        month_number("oct"@) == 10,
{
    reveal_strlit("jan");
    reveal_strlit("feb");
    reveal_strlit("mar");
    reveal_strlit("mår");
    reveal_strlit("apr");
    reveal_strlit("maj");
    reveal_strlit("may");
    reveal_strlit("jun");
    reveal_strlit("jul");
    reveal_strlit("aug");
    reveal_strlit("sep");
    reveal_strlit("okt");
    reveal_strlit("oct");
    reveal_strlit("nov");
    reveal_strlit("dec");
    assert forall|i: int| 0 <= i < 12 implies month_number(#[trigger] month_names()[i]) == i + 1 by {
        let m = month_names()[i];
        if i == 0 {
            assert(m == "jan"@);
        } else if i == 1 {
            assert(m == "feb"@);
            lemma_ne(m, "jan"@, 0);
        } else if i == 2 {
            assert(m == "mar"@);
            lemma_ne(m, "jan"@, 0);
            lemma_ne(m, "feb"@, 0);
        } else if i == 3 {
            assert(m == "apr"@);
            lemma_ne(m, "jan"@, 0);
            lemma_ne(m, "feb"@, 0);
            lemma_ne(m, "mar"@, 0);
            lemma_ne(m, "mår"@, 0);
        } else if i == 4 {
            assert(m == "maj"@);
            lemma_ne(m, "jan"@, 0);
            lemma_ne(m, "feb"@, 0);
            lemma_ne(m, "mar"@, 2);
            lemma_ne(m, "mår"@, 1);
            lemma_ne(m, "apr"@, 0);
        } else if i == 5 {
            assert(m == "jun"@);
            lemma_ne(m, "jan"@, 1);
            lemma_ne(m, "feb"@, 0);
            lemma_ne(m, "mar"@, 0);
            lemma_ne(m, "mår"@, 0);
            lemma_ne(m, "apr"@, 0);
            lemma_ne(m, "maj"@, 0);
            lemma_ne(m, "may"@, 0);
        } else if i == 6 {
            assert(m == "jul"@);
            lemma_ne(m, "jan"@, 1);
            lemma_ne(m, "feb"@, 0);
            lemma_ne(m, "mar"@, 0);
            lemma_ne(m, "mår"@, 0);
            lemma_ne(m, "apr"@, 0);
            lemma_ne(m, "maj"@, 0);
            lemma_ne(m, "may"@, 0);
            lemma_ne(m, "jun"@, 2);
        } else if i == 7 {
            assert(m == "aug"@);
            lemma_ne(m, "jan"@, 0);
            lemma_ne(m, "feb"@, 0);
            lemma_ne(m, "mar"@, 0);
            lemma_ne(m, "mår"@, 0);
            lemma_ne(m, "apr"@, 1);
            lemma_ne(m, "maj"@, 0);
            lemma_ne(m, "may"@, 0);
            lemma_ne(m, "jun"@, 0);
            lemma_ne(m, "jul"@, 0);
        } else if i == 8 {
            assert(m == "sep"@);
            lemma_ne(m, "jan"@, 0);
            lemma_ne(m, "feb"@, 0);
            lemma_ne(m, "mar"@, 0);
            lemma_ne(m, "mår"@, 0);
            lemma_ne(m, "apr"@, 0);
            lemma_ne(m, "maj"@, 0);
            lemma_ne(m, "may"@, 0);
            lemma_ne(m, "jun"@, 0);
            lemma_ne(m, "jul"@, 0);
            lemma_ne(m, "aug"@, 0);
        } else if i == 9 {
            assert(m == "okt"@);
            lemma_ne(m, "jan"@, 0);
            lemma_ne(m, "feb"@, 0);
            lemma_ne(m, "mar"@, 0);
            lemma_ne(m, "mår"@, 0);
            lemma_ne(m, "apr"@, 0);
            lemma_ne(m, "maj"@, 0);
            lemma_ne(m, "may"@, 0);
            lemma_ne(m, "jun"@, 0);
            lemma_ne(m, "jul"@, 0);
            lemma_ne(m, "aug"@, 0);
            lemma_ne(m, "sep"@, 0);
        } else if i == 10 {
            assert(m == "nov"@);
            lemma_ne(m, "jan"@, 0);
            lemma_ne(m, "feb"@, 0);
            lemma_ne(m, "mar"@, 0);
            lemma_ne(m, "mår"@, 0);
            lemma_ne(m, "apr"@, 0);
            lemma_ne(m, "maj"@, 0);
            lemma_ne(m, "may"@, 0);
            lemma_ne(m, "jun"@, 0);
            lemma_ne(m, "jul"@, 0);
            lemma_ne(m, "aug"@, 0);
            lemma_ne(m, "sep"@, 0);
            lemma_ne(m, "okt"@, 0);
            lemma_ne(m, "oct"@, 0);
        } else {
            assert(m == "dec"@);
            lemma_ne(m, "jan"@, 0);
            lemma_ne(m, "feb"@, 0);
            lemma_ne(m, "mar"@, 0);
            lemma_ne(m, "mår"@, 0);
            lemma_ne(m, "apr"@, 0);
            lemma_ne(m, "maj"@, 0);
            lemma_ne(m, "may"@, 0);
            lemma_ne(m, "jun"@, 0);
            lemma_ne(m, "jul"@, 0);
            lemma_ne(m, "aug"@, 0);
            lemma_ne(m, "sep"@, 0);
            lemma_ne(m, "okt"@, 0);
            lemma_ne(m, "oct"@, 0);
            lemma_ne(m, "nov"@, 0);
        }
    }
    lemma_ne("mår"@, "jan"@, 0);
    lemma_ne("mår"@, "feb"@, 0);
    lemma_ne("mår"@, "mar"@, 1);
    lemma_ne("may"@, "jan"@, 0);
    lemma_ne("may"@, "feb"@, 0);
    lemma_ne("may"@, "mar"@, 2);
    lemma_ne("may"@, "mår"@, 1);
    lemma_ne("may"@, "apr"@, 0);
    lemma_ne("may"@, "maj"@, 2);
    lemma_ne("oct"@, "jan"@, 0);
    lemma_ne("oct"@, "feb"@, 0);
    lemma_ne("oct"@, "mar"@, 0);
    lemma_ne("oct"@, "mår"@, 0);
    lemma_ne("oct"@, "apr"@, 0);
    lemma_ne("oct"@, "maj"@, 0);
    lemma_ne("oct"@, "may"@, 0);
    lemma_ne("oct"@, "jun"@, 0);
    lemma_ne("oct"@, "jul"@, 0);
    lemma_ne("oct"@, "aug"@, 0);
    lemma_ne("oct"@, "sep"@, 0);
    lemma_ne("oct"@, "okt"@, 1);
}

/// A date written "<day> <month>" becomes `YYYY-MM-DD` in the given year,
/// with MM the month's number 1 to 12 (January first), for every day and
/// every month abbreviation in any case.
pub proof fn law_dates_resolve_to_iso(day: u32, month: Seq<char>, i: int, year: u32)
    requires
        0 <= i < 12,
        month.len() > 0,
        forall|m: int| 0 <= m < month.len() ==> !is_ws(#[trigger] month[m]),
        unicode_lower(month) == month_names()[i],
    ensures
        full_date_of(decimal(day as nat) + seq![' '] + month, year) == zero_padded(year as nat, 4)
            + seq!['-'] + zero_padded((i + 1) as nat, 2) + seq!['-'] + zero_padded(day as nat, 2),
{
    lemma_parse_decimal(day);
    let d = decimal(day as nat);
    assert forall|m: int| 0 <= m < d.len() implies !is_ws(#[trigger] d[m]) by {
        assert(is_digit(d[m]));
    }
    lemma_two_words(d, month);
    law_month_numbers();
    assert(month_number(month_names()[i]) == i + 1);
}

// ---------------------------------------------------------------------------
// Week headings
// ---------------------------------------------------------------------------

/// The words of "<a> <b> <c>" for words `a`, `b` and `c` without spaces.
proof fn lemma_three_words(a: Seq<char>, b: Seq<char>, c: Seq<char>)
    requires
        a.len() > 0,
        b.len() > 0,
        c.len() > 0,
        forall|m: int| 0 <= m < a.len() ==> !is_ws(#[trigger] a[m]),
        forall|m: int| 0 <= m < b.len() ==> !is_ws(#[trigger] b[m]),
        forall|m: int| 0 <= m < c.len() ==> !is_ws(#[trigger] c[m]),
    ensures
        words(a + seq![' '] + b + seq![' '] + c) == seq![a, b, c],
{
    let s = a + seq![' '] + b + seq![' '] + c;
    let n = a.len() as int;
    let p = n + 1 + b.len();
    assert forall|m: int| 0 <= m < n implies !is_ws(#[trigger] s[m]) by {
        assert(s[m] == a[m]);
    }
    lemma_words_in_word(s, 1, n, 0);
    assert(s[n] == ' ');
    assert forall|m: int| n + 1 <= m < p implies !is_ws(#[trigger] s[m]) by {
        assert(s[m] == b[m - n - 1]);
    }
    lemma_words_in_word(s, n + 2, p, n + 1);
    assert(s[p] == ' ');
    assert forall|m: int| p + 1 <= m < s.len() implies !is_ws(#[trigger] s[m]) by {
        assert(s[m] == c[m - p - 1]);
    }
    lemma_words_in_word(s, p + 2, s.len() as int, p + 1);
    assert(s.subrange(0, n) =~= a);
    assert(s.subrange(n + 1, p) =~= b);
    assert(s.subrange(p + 1, s.len() as int) =~= c);
    assert(words(s) == seq![s.subrange(0, n)] + words_from(s, n + 1, -1));
    assert(words_from(s, n + 1, -1) == seq![s.subrange(n + 1, p)] + words_from(s, p + 1, -1));
    assert(words_from(s, p + 1, -1) == seq![s.subrange(p + 1, s.len() as int)]);
    assert(words(s) =~= seq![a, b, c]);
}

/// The heading row text "Vecka <w>, <y>".
pub open spec fn heading_text(w: u32, y: u32) -> Seq<char> {
    "Vecka"@ + seq![' '] + decimal(w as nat) + seq![',', ' '] + decimal(y as nat)
}

/// A heading "Vecka <w>, <y>" makes week `w` of year `y` the current week and
/// keeps the day, the date and the events.
pub proof fn law_heading_sets_week_and_year(st: RowScan, w: u32, y: u32)
    ensures
        week_heading(st, heading_text(w, y)) == (RowScan { week: w, year: y, ..st }),
{
    reveal_strlit("Vecka");
    let t = heading_text(w, y);
    let d1 = decimal(w as nat);
    let d2 = decimal(y as nat);
    lemma_parse_decimal(w);
    lemma_parse_decimal(y);
    let a = "Vecka"@;
    let b = d1 + seq![','];
    assert(t =~= a + seq![' '] + b + seq![' '] + d2);
    assert forall|m: int| 0 <= m < b.len() implies !is_ws(#[trigger] b[m]) by {
        if m < d1.len() {
            assert(b[m] == d1[m]);
            assert(is_digit(d1[m]));
        }
    }
    assert forall|m: int| 0 <= m < d2.len() implies !is_ws(#[trigger] d2[m]) by {
        assert(is_digit(d2[m]));
    }
    lemma_three_words(a, b, d2);
    assert(t.subrange(0, 5) =~= a);
    assert(match_at(t, a, 0));
    assert(find(t, a) == Some(0int));
    assert(t.skip(0) =~= t);
    let parts = words(t.skip(0));
    assert(parts == seq![a, b, d2]);
    // The week: "<w>," without its comma.
    let set = seq![','];
    assert(!set.contains(b[0])) by {
        assert(b[0] == d1[0]);
        assert(is_digit(d1[0]));
        if set.contains(b[0]) {
            let k = choose|k: int| 0 <= k < set.len() && set[k] == b[0];
        }
    }
    assert(set.contains(b[b.len() - 1])) by {
        assert(set[0] == ',');
    }
    assert(!set.contains(b[b.len() - 2])) by {
        assert(b[b.len() - 2] == d1[d1.len() - 1]);
        assert(is_digit(d1[d1.len() - 1]));
        if set.contains(b[b.len() - 2]) {
            let k = choose|k: int| 0 <= k < set.len() && set[k] == b[b.len() - 2];
        }
    }
    assert(set_end(b, set, 0) == 0);
    assert(set_back(b, set, 0, b.len() as int - 1) == b.len() - 1);
    assert(set_back(b, set, 0, b.len() as int) == b.len() - 1);
    assert(trim_set(b, set) =~= d1);
    // The year, already trimmed.
    assert(!is_ws(d2[0]) && !is_ws(d2[d2.len() - 1])) by {
        assert(is_digit(d2[0]) && is_digit(d2[d2.len() - 1]));
    }
    assert(ws_end(d2, 0) == 0);
    assert(ws_back(d2, 0, d2.len() as int) == d2.len());
    assert(trim(d2) =~= d2);
}

proof fn lemma_rows_after_heading(q: Seq<HtmlElementView>, data: Seq<HtmlElementView>)
    requires
        forall|k: int| 0 <= k < data.len() ==> (#[trigger] data[k]).attr is Some,
    ensures
        scan_rows(q + data).week == scan_rows(q).week,
        scan_rows(q + data).year == scan_rows(q).year,
        scan_rows(q + data).events.len() >= scan_rows(q).events.len(),
        forall|k: int|
            0 <= k < scan_rows(q).events.len() ==> scan_rows(q + data).events[k] == scan_rows(
                q,
            ).events[k],
        forall|k: int|
            scan_rows(q).events.len() <= k < scan_rows(q + data).events.len() ==> {
                let e = #[trigger] scan_rows(q + data).events[k];
                &&& e.week == scan_rows(q).week
                &&& e.week_year == scan_rows(q).year
                &&& e.full_date == full_date_of(e.date, scan_rows(q).year)
            },
    decreases data.len(),
{
    if data.len() == 0 {
        assert(q + data =~= q);
    } else {
        let init = data.drop_last();
        assert forall|k: int| 0 <= k < init.len() implies (#[trigger] init[k]).attr is Some by {
            assert(init[k] == data[k]);
        }
        lemma_rows_after_heading(q, init);
        assert((q + data).drop_last() =~= q + init);
        assert((q + data).last() == data[data.len() - 1]);
        let prev = scan_rows(q + init);
        let now = scan_rows(q + data);
        assert(now == scan_row(prev, data[data.len() - 1]));
        assert forall|k: int| 0 <= k < prev.events.len() implies now.events[k] == prev.events[k] by {
        }
    }
}

/// After a heading row "Vecka <w>, <y>", every event of the data rows that
/// follow it (up to the next row without a class, such as the next heading)
/// is in week `w` of year `y`, and its full date is in year `y`.
pub proof fn law_events_after_heading(
    before: Seq<HtmlElementView>,
    heading: HtmlElementView,
    data: Seq<HtmlElementView>,
    w: u32,
    y: u32,
)
    requires
        heading.attr is None,
        cell_text(heading.text) == heading_text(w, y),
        forall|k: int| 0 <= k < data.len() ==> (#[trigger] data[k]).attr is Some,
    ensures
        forall|k: int|
            scan_rows(before).events.len() <= k < scan_rows(before.push(heading) + data).events.len()
                ==> {
                let e = #[trigger] scan_rows(before.push(heading) + data).events[k];
                &&& e.week == w
                &&& e.week_year == y
                &&& e.full_date == full_date_of(e.date, y)
            },
{
    let q = before.push(heading);
    assert(q.drop_last() =~= before);
    assert(scan_rows(q) == scan_row(scan_rows(before), heading));
    law_heading_sets_week_and_year(scan_rows(before), w, y);
    assert(scan_rows(q).week == w && scan_rows(q).year == y);
    assert(scan_rows(q).events == scan_rows(before).events);
    lemma_rows_after_heading(q, data);
}

} // verus!
