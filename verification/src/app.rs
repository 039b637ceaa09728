//! The viewer's state and how it moves: which schedule is shown, which view,
//! week, day and event are selected, which filters apply, and what each key
//! does.
use vstd::prelude::*;
use vstd::string::StringExecFns;
use crate::text::{
    chars_of, concat, contains, contains_chars, decimal, decimal_chars, join, parse_u32_chars,
    parse_u32_spec, string_of, string_pop, string_push, to_lowercase, trim, trim_chars,
    unicode_lower,
};
use crate::html::{opt_str_view, opt_view, string_views};
use crate::parser::{
    filter_matches, groups_match, ActivityType, ActivityView, Event, EventView, Schedule,
    ScheduleView, WeekInfo, WeekInfoView, event_views, week_views,
};
use crate::config::{
    active_profile, lookup, AppConfig, AppConfigView, Profile, ProfileView,
};
use crate::groups::{capitalized, sorted_set, GroupSet};
pub use crate::groups::{capitalize_group_name, parse_group_filter_string};
use crate::text::split;
use crate::fetcher::FetchResult;

use crate::parser::{active_filters, clock_seconds, parse_clock};

verus! {

/// The four views of the schedule.
#[derive(Debug, Clone, Copy, PartialEq, Eq, Structural)]
pub enum ViewMode {
    Week,
    Timeline,
    Day,
    Courses,
}

/// The dialog on top of the view, if any.
#[derive(Debug, Clone, PartialEq, Eq)]
pub enum Modal {
    Closed,
    Help,
    Search,
    GroupFilter,
    SwitchProfile,
    EventDetails,
    GoToWeek(String),
}

pub enum ModalView {
    Closed,
    Help,
    Search,
    GroupFilter,
    SwitchProfile,
    EventDetails,
    GoToWeek(Seq<char>),
}

impl View for Modal {
    type V = ModalView;

    open spec fn view(&self) -> ModalView {
        match self {
            Modal::Closed => ModalView::Closed,
            Modal::Help => ModalView::Help,
            Modal::Search => ModalView::Search,
            Modal::GroupFilter => ModalView::GroupFilter,
            Modal::SwitchProfile => ModalView::SwitchProfile,
            Modal::EventDetails => ModalView::EventDetails,
            Modal::GoToWeek(s) => ModalView::GoToWeek(s@),
        }
    }
}

/// A choice in the group filter dialog.
#[derive(Debug, Clone, PartialEq, Eq)]
pub struct GroupOptionItem {
    pub key: String,
    pub title: String,
    pub description: String,
}

pub struct GroupOptionView {
    pub key: Seq<char>,
    pub title: Seq<char>,
    pub description: Seq<char>,
}

impl View for GroupOptionItem {
    type V = GroupOptionView;

    open spec fn view(&self) -> GroupOptionView {
        GroupOptionView { key: self.key@, title: self.title@, description: self.description@ }
    }
}

pub open spec fn option_views(v: Seq<GroupOptionItem>) -> Seq<GroupOptionView> {
    v.map_values(|o: GroupOptionItem| o@)
}

/// The viewer's state.
pub struct App {
    pub config: AppConfig,
    pub active_profile_key: String,
    pub active_profile: Profile,
    pub schedule: Option<Schedule>,
    pub fetch_info: Option<String>,
    pub warning_message: Option<String>,
    pub view_mode: ViewMode,
    pub modal: Modal,
    pub selected_event_index: usize,
    pub selected_week_index: usize,
    pub selected_day_index: usize,
    pub selected_course_index: usize,
    pub selected_profile_index: usize,
    pub selected_group_index: usize,
    pub search_query: String,
    pub search_input_buffer: String,
    pub selected_groups: GroupSet,
    pub activity_filter: Option<ActivityType>,
    pub status_message: Option<String>,
    pub status_serial: u64,
    pub should_quit: bool,
}

pub struct AppView {
    pub config: AppConfigView,
    pub active_profile_key: Seq<char>,
    pub active_profile: ProfileView,
    pub schedule: Option<ScheduleView>,
    pub fetch_info: Option<Seq<char>>,
    pub warning_message: Option<Seq<char>>,
    pub view_mode: ViewMode,
    pub modal: ModalView,
    pub selected_event_index: usize,
    pub selected_week_index: usize,
    pub selected_day_index: usize,
    pub selected_course_index: usize,
    pub selected_profile_index: usize,
    pub selected_group_index: usize,
    pub search_query: Seq<char>,
    pub search_input_buffer: Seq<char>,
    pub selected_groups: Seq<Seq<char>>,
    pub activity_filter: Option<ActivityView>,
    pub status_message: Option<Seq<char>>,
    pub status_serial: u64,
    pub should_quit: bool,
}

pub open spec fn schedule_view(o: Option<Schedule>) -> Option<ScheduleView> {
    match o {
        Some(s) => Some(s@),
        None => None,
    }
}

pub open spec fn activity_view(o: Option<ActivityType>) -> Option<ActivityView> {
    match o {
        Some(a) => Some(a@),
        None => None,
    }
}

impl View for App {
    type V = AppView;

    open spec fn view(&self) -> AppView {
        AppView {
            config: self.config@,
            active_profile_key: self.active_profile_key@,
            active_profile: self.active_profile@,
            schedule: schedule_view(self.schedule),
            fetch_info: opt_view(self.fetch_info),
            warning_message: opt_view(self.warning_message),
            view_mode: self.view_mode,
            modal: self.modal@,
            selected_event_index: self.selected_event_index,
            selected_week_index: self.selected_week_index,
            selected_day_index: self.selected_day_index,
            selected_course_index: self.selected_course_index,
            selected_profile_index: self.selected_profile_index,
            selected_group_index: self.selected_group_index,
            search_query: self.search_query@,
            search_input_buffer: self.search_input_buffer@,
            selected_groups: self.selected_groups@,
            activity_filter: activity_view(self.activity_filter),
            status_message: opt_view(self.status_message),
            status_serial: self.status_serial,
            should_quit: self.should_quit,
        }
    }
}

// ---------------------------------------------------------------------------
// Which events are shown
// ---------------------------------------------------------------------------

/// The event passes the search, the group filters and the activity filter.
pub open spec fn shown(
    e: EventView,
    query: Seq<char>,
    groups: Seq<Seq<char>>,
    act: Option<ActivityView>,
) -> bool {
    &&& filter_matches(e, query)
    &&& groups_match(e.groups, groups)
    &&& match act {
        Some(a) => e.activity_type == a,
        None => true,
    }
}

/// The events, in order, that are in the given week (where one is given) and
/// pass the filters.
pub open spec fn select_events(
    es: Seq<EventView>,
    week: Option<(u32, u32)>,
    query: Seq<char>,
    groups: Seq<Seq<char>>,
    act: Option<ActivityView>,
) -> Seq<EventView>
    decreases es.len(),
{
    if es.len() == 0 {
        Seq::empty()
    } else {
        let r = select_events(es.drop_last(), week, query, groups, act);
        let e = es.last();
        let in_week = match week {
            Some(wy) => e.week == wy.0 && e.week_year == wy.1,
            None => true,
        };
        if in_week && shown(e, query, groups, act) {
            r.push(e)
        } else {
            r
        }
    }
}

/// The shown events of the given week.
pub open spec fn week_events(s: AppView, week: u32, year: u32) -> Seq<EventView> {
    match s.schedule {
        Some(sc) => select_events(
            sc.events,
            Some((week, year)),
            s.search_query,
            s.selected_groups,
            s.activity_filter,
        ),
        None => Seq::empty(),
    }
}

/// All shown events.
pub open spec fn all_events(s: AppView) -> Seq<EventView> {
    match s.schedule {
        Some(sc) => select_events(
            sc.events,
            None,
            s.search_query,
            s.selected_groups,
            s.activity_filter,
        ),
        None => Seq::empty(),
    }
}

/// The selected week, where it exists.
pub open spec fn current_week(s: AppView) -> Option<WeekInfoView> {
    match s.schedule {
        Some(sc) => if s.selected_week_index < sc.weeks.len() {
            Some(sc.weeks[s.selected_week_index as int])
        } else {
            None
        },
        None => None,
    }
}

/// The texts without repeats of a neighbour.
pub open spec fn dedup_adjacent(s: Seq<Seq<char>>) -> Seq<Seq<char>>
    decreases s.len(),
{
    if s.len() == 0 {
        Seq::empty()
    } else {
        let r = dedup_adjacent(s.drop_last());
        if r.len() > 0 && r.last() == s.last() {
            r
        } else {
            r.push(s.last())
        }
    }
}

/// The dates of the shown events, without repeats of a neighbour.
pub open spec fn unique_days(s: AppView) -> Seq<Seq<char>> {
    dedup_adjacent(all_events(s).map_values(|e: EventView| e.full_date))
}

/// The events on the given date.
pub open spec fn events_on(es: Seq<EventView>, day: Seq<char>) -> Seq<EventView>
    decreases es.len(),
{
    if es.len() == 0 {
        Seq::empty()
    } else {
        let r = events_on(es.drop_last(), day);
        if es.last().full_date == day {
            r.push(es.last())
        } else {
            r
        }
    }
}

/// The events of the current view: the selected week's, all, the selected
/// day's, or none in the course overview.
pub open spec fn view_events(s: AppView) -> Seq<EventView> {
    match s.view_mode {
        ViewMode::Week => match current_week(s) {
            Some(w) => week_events(s, w.week_number, w.year),
            None => Seq::empty(),
        },
        ViewMode::Timeline => all_events(s),
        ViewMode::Day => {
            let days = unique_days(s);
            if s.selected_day_index < days.len() {
                events_on(all_events(s), days[s.selected_day_index as int])
            } else {
                Seq::empty()
            }
        },
        ViewMode::Courses => Seq::empty(),
    }
}

pub open spec fn ref_views(v: Seq<&Event>) -> Seq<EventView> {
    v.map_values(|e: &Event| e@)
}

/// Whether the event passes the filters.
fn is_shown(e: &Event, query: &str, groups: &GroupSet, act: &Option<ActivityType>) -> (b: bool)
    ensures
        b == shown(e@, query@, groups@, activity_view(*act)),
{
    if !e.matches_filter(query) {
        return false;
    }
    if !e.matches_groups(groups.items()) {
        return false;
    }
    match act {
        Some(a) => e.activity_type.same_as(a),
        None => true,
    }
}

/// The events, in order, of the given week (where one is given) that pass
/// the filters.
fn select_exec<'a>(
    events: &'a Vec<Event>,
    week: Option<(u32, u32)>,
    query: &str,
    groups: &GroupSet,
    act: &Option<ActivityType>,
) -> (res: Vec<&'a Event>)
    ensures
        ref_views(res@) == select_events(
            event_views(events@),
            week,
            query@,
            groups@,
            activity_view(*act),
        ),
{
    let ghost ev = event_views(events@);
    let mut res: Vec<&'a Event> = Vec::new();
    let mut i: usize = 0;
    while i < events.len()
        invariant
            i <= events@.len(),
            ev == event_views(events@),
            ref_views(res@) == select_events(
                ev.take(i as int),
                week,
                query@,
                groups@,
                activity_view(*act),
            ),
        decreases events@.len() - i,
    {
        let e = &events[i];
        assert(ev.take(i + 1).drop_last() =~= ev.take(i as int));
        assert(ev.take(i + 1).last() == e@);
        let in_week = match week {
            Some(wy) => e.week == wy.0 && e.week_year == wy.1,
            None => true,
        };
        if in_week && is_shown(e, query, groups, act) {
            let ghost before = ref_views(res@);
            res.push(e);
            assert(ref_views(res@) =~= before.push(e@));
        }
        i = i + 1;
    }
    assert(ev.take(events@.len() as int) =~= ev);
    res
}

/// The events on the given date.
fn events_on_exec<'a>(es: &Vec<&'a Event>, day: &String) -> (res: Vec<&'a Event>)
    ensures
        ref_views(res@) == events_on(ref_views(es@), day@),
{
    let ghost ev = ref_views(es@);
    let mut res: Vec<&'a Event> = Vec::new();
    let mut i: usize = 0;
    while i < es.len()
        invariant
            i <= es@.len(),
            ev == ref_views(es@),
            ref_views(res@) == events_on(ev.take(i as int), day@),
        decreases es@.len() - i,
    {
        let e = es[i];
        assert(ev.take(i + 1).drop_last() =~= ev.take(i as int));
        assert(ev.take(i + 1).last() == e@);
        if e.full_date == *day {
            let ghost before = ref_views(res@);
            res.push(e);
            assert(ref_views(res@) =~= before.push(e@));
        }
        i = i + 1;
    }
    assert(ev.take(es@.len() as int) =~= ev);
    res
}

/// The view after setting the status line.
pub open spec fn with_status(s: AppView, msg: Seq<char>) -> AppView {
    AppView {
        status_message: Some(msg),
        status_serial: if s.status_serial == u64::MAX {
            0
        } else {
            (s.status_serial + 1) as u64
        },
        ..s
    }
}

impl App {
    pub open spec fn wf(&self) -> bool {
        self.config.wf() && self.selected_groups.wf()
    }

    /// Shows a message in the status line.
    pub fn set_status(&mut self, msg: String)
        ensures
            final(self)@ == with_status(old(self)@, msg@),
            final(self).config == old(self).config,
            final(self).selected_groups == old(self).selected_groups,
    {
        self.status_message = Some(msg);
        self.status_serial = if self.status_serial == u64::MAX {
            0
        } else {
            self.status_serial + 1
        };
    }

    /// The status message while it is fresh: shown for five seconds after it
    /// was set.
    pub fn get_status(&self, elapsed_secs: u64) -> (r: Option<&str>)
        ensures
            match r {
                Some(m) => elapsed_secs < 5 && self@.status_message == Some(m@),
                None => elapsed_secs >= 5 || self@.status_message is None,
            },
    {
        match &self.status_message {
            Some(msg) => if elapsed_secs < 5 {
                Some(msg.as_str())
            } else {
                None
            },
            None => None,
        }
    }

    /// The selected week.
    pub fn get_current_week_info(&self) -> (r: Option<&WeekInfo>)
        ensures
            match r {
                Some(w) => current_week(self@) == Some(w@),
                None => current_week(self@) is None,
            },
    {
        match &self.schedule {
            Some(s) => if self.selected_week_index < s.weeks.len() {
                Some(&s.weeks[self.selected_week_index])
            } else {
                None
            },
            None => None,
        }
    }

    /// The shown events of the given week, in order.
    pub fn get_filtered_events_for_week(&self, week_num: u32, year: u32) -> (res: Vec<&Event>)
        ensures
            ref_views(res@) == week_events(self@, week_num, year),
    {
        match &self.schedule {
            Some(s) => select_exec(
                &s.events,
                Some((week_num, year)),
                self.search_query.as_str(),
                &self.selected_groups,
                &self.activity_filter,
            ),
            None => Vec::new(),
        }
    }

    /// All shown events, in order.
    pub fn get_all_filtered_events(&self) -> (res: Vec<&Event>)
        ensures
            ref_views(res@) == all_events(self@),
    {
        match &self.schedule {
            Some(s) => select_exec(
                &s.events,
                None,
                self.search_query.as_str(),
                &self.selected_groups,
                &self.activity_filter,
            ),
            None => Vec::new(),
        }
    }

    /// The dates of the shown events, without repeats of a neighbour.
    pub fn get_unique_days(&self) -> (res: Vec<String>)
        ensures
            string_views(res@) == unique_days(self@),
    {
        let events = self.get_all_filtered_events();
        let ghost dates = ref_views(events@).map_values(|e: EventView| e.full_date);
        let mut days: Vec<String> = Vec::new();
        let mut i: usize = 0;
        while i < events.len()
            invariant
                i <= events@.len(),
                dates == ref_views(events@).map_values(|e: EventView| e.full_date),
                string_views(days@) == dedup_adjacent(dates.take(i as int)),
            decreases events@.len() - i,
        {
            let d = &events[i].full_date;
            assert(dates.take(i + 1).drop_last() =~= dates.take(i as int));
            assert(dates.take(i + 1).last() == d@);
            let n = days.len();
            let repeat = n > 0 && days[n - 1] == *d;
            if !repeat {
                let ghost before = string_views(days@);
                days.push(d.clone());
                assert(string_views(days@) =~= before.push(d@));
            }
            i = i + 1;
        }
        assert(dates.take(events@.len() as int) =~= dates);
        days
    }

    /// The events of the current view, in order.
    pub fn get_current_view_events(&self) -> (res: Vec<&Event>)
        ensures
            ref_views(res@) == view_events(self@),
    {
        match self.view_mode {
            ViewMode::Week => match self.get_current_week_info() {
                Some(w) => self.get_filtered_events_for_week(w.week_number, w.year),
                None => Vec::new(),
            },
            ViewMode::Timeline => self.get_all_filtered_events(),
            ViewMode::Day => {
                let all_events = self.get_all_filtered_events();
                let days = self.get_unique_days();
                if self.selected_day_index < days.len() {
                    events_on_exec(&all_events, &days[self.selected_day_index])
                } else {
                    Vec::new()
                }
            },
            ViewMode::Courses => Vec::new(),
        }
    }

    /// The selected event of the current view.
    pub fn get_selected_event(&self) -> (r: Option<&Event>)
        ensures
            match r {
                Some(e) => self@.selected_event_index < view_events(self@).len() && e@
                    == view_events(self@)[self@.selected_event_index as int],
                None => self@.selected_event_index >= view_events(self@).len(),
            },
    {
        let events = self.get_current_view_events();
        if self.selected_event_index < events.len() {
            Some(events[self.selected_event_index])
        } else {
            None
        }
    }
}

// ---------------------------------------------------------------------------
// Navigation
// ---------------------------------------------------------------------------

pub open spec fn next_event_view(s: AppView) -> AppView {
    let c = view_events(s).len();
    if c > 0 {
        AppView {
            selected_event_index: if s.selected_event_index + 1 < c {
                (s.selected_event_index + 1) as usize
            } else {
                0
            },
            ..s
        }
    } else {
        s
    }
}

pub open spec fn prev_event_view(s: AppView) -> AppView {
    let c = view_events(s).len();
    if c > 0 {
        AppView {
            selected_event_index: if s.selected_event_index > 0 {
                (s.selected_event_index - 1) as usize
            } else {
                (c - 1) as usize
            },
            ..s
        }
    } else {
        s
    }
}

pub open spec fn next_week_view(s: AppView) -> AppView {
    match s.schedule {
        Some(sc) => if s.selected_week_index + 1 < sc.weeks.len() {
            AppView {
                selected_week_index: (s.selected_week_index + 1) as usize,
                selected_event_index: 0,
                ..s
            }
        } else {
            s
        },
        None => s,
    }
}

pub open spec fn prev_week_view(s: AppView) -> AppView {
    if s.selected_week_index > 0 {
        AppView {
            selected_week_index: (s.selected_week_index - 1) as usize,
            selected_event_index: 0,
            ..s
        }
    } else {
        s
    }
}

pub open spec fn next_day_view(s: AppView) -> AppView {
    if s.selected_day_index + 1 < unique_days(s).len() {
        AppView {
            selected_day_index: (s.selected_day_index + 1) as usize,
            selected_event_index: 0,
            ..s
        }
    } else {
        s
    }
}

pub open spec fn prev_day_view(s: AppView) -> AppView {
    if s.selected_day_index > 0 {
        AppView {
            selected_day_index: (s.selected_day_index - 1) as usize,
            selected_event_index: 0,
            ..s
        }
    } else {
        s
    }
}

/// The view after this one, in the order week, timeline, day, courses.
pub open spec fn next_mode_of(m: ViewMode) -> ViewMode {
    match m {
        ViewMode::Week => ViewMode::Timeline,
        ViewMode::Timeline => ViewMode::Day,
        ViewMode::Day => ViewMode::Courses,
        ViewMode::Courses => ViewMode::Week,
    }
}

/// The view before this one.
pub open spec fn prev_mode_of(m: ViewMode) -> ViewMode {
    match m {
        ViewMode::Week => ViewMode::Courses,
        ViewMode::Timeline => ViewMode::Week,
        ViewMode::Day => ViewMode::Timeline,
        ViewMode::Courses => ViewMode::Day,
    }
}

pub open spec fn set_mode_view(s: AppView, m: ViewMode) -> AppView {
    AppView { view_mode: m, selected_event_index: 0, ..s }
}

/// The first week at or after `i` whose number is at least `w`.
pub open spec fn first_week_from(ws: Seq<WeekInfoView>, w: u32, i: int) -> Option<int>
    decreases ws.len() - i,
{
    if i < 0 || i >= ws.len() {
        None
    } else if ws[i].week_number >= w {
        Some(i)
    } else {
        first_week_from(ws, w, i + 1)
    }
}

/// Selects the first week numbered `w` or later (else the last week), and
/// its first event.
pub open spec fn jump_week_view(s: AppView, w: u32) -> AppView {
    let idx = match s.schedule {
        Some(sc) => match first_week_from(sc.weeks, w, 0) {
            Some(p) => p as usize,
            None => if sc.weeks.len() > 0 {
                (sc.weeks.len() - 1) as usize
            } else {
                s.selected_week_index
            },
        },
        None => s.selected_week_index,
    };
    AppView { selected_week_index: idx, selected_event_index: 0, ..s }
}

/// The first index at or after `j` of an event on the given date.
pub open spec fn date_index(es: Seq<EventView>, day: Seq<char>, j: int) -> Option<int>
    decreases es.len() - j,
{
    if j < 0 || j >= es.len() {
        None
    } else if es[j].full_date == day {
        Some(j)
    } else {
        date_index(es, day, j + 1)
    }
}

/// The first week, from index `i`, with a shown event on `today`, and the
/// position of that event in the week.
pub open spec fn today_from(s: AppView, ws: Seq<WeekInfoView>, today: Seq<char>, i: int) -> Option<
    (int, int),
>
    decreases ws.len() - i,
{
    if i < 0 || i >= ws.len() {
        None
    } else {
        match date_index(week_events(s, ws[i].week_number, ws[i].year), today, 0) {
            Some(j) => Some((i, j)),
            None => today_from(s, ws, today, i + 1),
        }
    }
}

/// Selects today's first shown event; where there is none, the current week.
pub open spec fn jump_today_view(s: AppView, today: Seq<char>, w: u32) -> AppView {
    let hit = match s.schedule {
        Some(sc) => today_from(s, sc.weeks, today, 0),
        None => None,
    };
    match hit {
        Some(p) => with_status(
            AppView {
                selected_week_index: p.0 as usize,
                selected_event_index: p.1 as usize,
                ..s
            },
            "Hoppade till dagens schema."@,
        ),
        None => with_status(
            jump_week_view(s, w),
            "Inga händelser hittades för idag. Visar aktuell vecka."@,
        ),
    }
}

/// How the source of a schedule is described in the header.
pub open spec fn fetch_info_of(from_cache: bool, age_secs: Option<u64>) -> Seq<char> {
    if from_cache {
        match age_secs {
            Some(a) => {
                let mins = a / 60;
                if mins == 0 {
                    "Cachad (nyss)"@
                } else if mins < 60 {
                    "Cachad (för "@ + decimal(mins as nat) + " min sedan)"@
                } else {
                    "Cachad (för "@ + decimal((mins / 60) as nat) + "h "@ + decimal(
                        (mins % 60) as nat,
                    ) + "m sedan)"@
                }
            },
            None => "Cachad offline"@,
        }
    } else {
        "Hämtat live från HB"@
    }
}

/// How the source of a schedule is described: live, cached a given time ago,
/// or cached offline.
pub fn fetch_info_text(from_cache: bool, age_secs: Option<u64>) -> (res: String)
    ensures
        res@ == fetch_info_of(from_cache, age_secs),
{
    if from_cache {
        match age_secs {
            Some(a) => {
                let mins = a / 60;
                if mins == 0 {
                    String::from_str("Cachad (nyss)")
                } else if mins < 60 {
                    let d = decimal_chars(mins);
                    let ds = string_of(d.as_slice());
                    let r = String::from_str("Cachad (för ").concat(ds.as_str()).concat(" min sedan)");
                    r
                } else {
                    let h = decimal_chars(mins / 60);
                    let m = decimal_chars(mins % 60);
                    let hs = string_of(h.as_slice());
                    let ms = string_of(m.as_slice());
                    let r = String::from_str("Cachad (för ").concat(hs.as_str()).concat("h ").concat(
                        ms.as_str(),
                    ).concat("m sedan)");
                    r
                }
            },
            None => String::from_str("Cachad offline"),
        }
    } else {
        String::from_str("Hämtat live från HB")
    }
}

/// The state once a fetched schedule is shown.
pub open spec fn apply_fetch_view(
    s: AppView,
    schedule: ScheduleView,
    from_cache: bool,
    age_secs: Option<u64>,
    warning: Option<Seq<char>>,
) -> AppView {
    with_status(
        AppView {
            fetch_info: Some(fetch_info_of(from_cache, age_secs)),
            warning_message: warning,
            schedule: Some(schedule),
            selected_event_index: 0,
            ..s
        },
        "Schemat laddades utan problem."@,
    )
}

/// The group names as shown in the header: "Alla" when none is selected.
pub open spec fn groups_display(gs: Seq<Seq<char>>) -> Seq<char> {
    if gs.len() == 0 {
        "Alla"@
    } else {
        join(gs.map_values(|g: Seq<char>| capitalized(unicode_lower(trim(g)))), ", "@)
    }
}

/// The selected groups of a filter string.
pub open spec fn filter_groups(filter: Seq<char>) -> Seq<Seq<char>> {
    sorted_set(active_filters(split(filter, ',')).to_set())
}

/// The profile that the viewer starts with: one made for an address given on
/// the command line, else the active profile of the configuration, else a
/// standard profile.
pub open spec fn start_profile(
    cfg: AppConfigView,
    initial_profile: Option<Seq<char>>,
    initial_url: Option<Seq<char>>,
) -> (Seq<char>, ProfileView) {
    match initial_url {
        Some(u) => (
            "custom"@,
            ProfileView {
                name: "Anpassat schema"@,
                url: u,
                group_filter: "alla"@,
                description: Some("Länkat via kommandorad"@),
            },
        ),
        None => match active_profile(cfg.profiles, cfg.default_profile, initial_profile) {
            Some(kp) => kp,
            None => (
                "default"@,
                ProfileView {
                    name: "Standard"@,
                    url: "https://schema.hb.se"@,
                    group_filter: "alla"@,
                    description: None,
                },
            ),
        },
    }
}

/// The state before any schedule is loaded.
pub open spec fn start_view(
    cfg: AppConfigView,
    initial_profile: Option<Seq<char>>,
    initial_url: Option<Seq<char>>,
) -> AppView {
    let kp = start_profile(cfg, initial_profile, initial_url);
    AppView {
        config: cfg,
        active_profile_key: kp.0,
        active_profile: kp.1,
        schedule: None,
        fetch_info: None,
        warning_message: None,
        view_mode: ViewMode::Week,
        modal: ModalView::Closed,
        selected_event_index: 0,
        selected_week_index: 0,
        selected_day_index: 0,
        selected_course_index: 0,
        selected_profile_index: 0,
        selected_group_index: 0,
        search_query: Seq::empty(),
        search_input_buffer: Seq::empty(),
        selected_groups: filter_groups(kp.1.group_filter),
        activity_filter: None,
        status_message: None,
        status_serial: 0,
        should_quit: false,
    }
}

/// The state once the profile stored under `key` is made active (unchanged
/// where there is none).
pub open spec fn switch_profile_view(s: AppView, key: Seq<char>) -> AppView {
    match lookup(s.config.profiles, key) {
        Some(p) => AppView {
            active_profile_key: key,
            active_profile: p,
            selected_groups: filter_groups(p.group_filter),
            ..s
        },
        None => s,
    }
}

/// A group option made from its key, title and description.
fn option_item(key: &str, title: &str, description: &str) -> (o: GroupOptionItem)
    ensures
        o@ == (GroupOptionView { key: key@, title: title@, description: description@ }),
{
    GroupOptionItem {
        key: String::from_str(key),
        title: String::from_str(title),
        description: String::from_str(description),
    }
}

/// The fixed choices of the group filter dialog.
pub open spec fn default_options() -> Seq<GroupOptionView> {
    seq![
        GroupOptionView { key: "grupp 1"@, title: "Grupp 1"@, description: "Övningar & seminarier"@ },
        GroupOptionView { key: "grupp 2"@, title: "Grupp 2"@, description: "Övningar & seminarier"@ },
        GroupOptionView { key: "grupp 3"@, title: "Grupp 3"@, description: "Övningar & seminarier"@ },
        GroupOptionView { key: "grupp 4"@, title: "Grupp 4"@, description: "Övningar & seminarier"@ },
        GroupOptionView { key: "grupp 5"@, title: "Grupp 5"@, description: "Övningar & seminarier"@ },
        GroupOptionView { key: "grupp 6"@, title: "Grupp 6"@, description: "Övningar & seminarier"@ },
        GroupOptionView { key: "grupp a"@, title: "Grupp A"@, description: "Laborationsgrupp A"@ },
        GroupOptionView { key: "grupp b"@, title: "Grupp B"@, description: "Laborationsgrupp B"@ },
        GroupOptionView { key: "grupp c"@, title: "Grupp C"@, description: "Laborationsgrupp C"@ },
        GroupOptionView { key: "grupp d"@, title: "Grupp D"@, description: "Laborationsgrupp D"@ },
        GroupOptionView { key: "grupp e"@, title: "Grupp E"@, description: "Laborationsgrupp E"@ },
        GroupOptionView { key: "grupp f"@, title: "Grupp F"@, description: "Laborationsgrupp F"@ },
        GroupOptionView { key: "grupp g"@, title: "Grupp G"@, description: "Laborationsgrupp G"@ },
        GroupOptionView { key: "grupp h"@, title: "Grupp H"@, description: "Laborationsgrupp H"@ },
    ]
}

fn default_option_list() -> (v: Vec<GroupOptionItem>)
    ensures
        option_views(v@) == default_options(),
{
    let mut v: Vec<GroupOptionItem> = Vec::new();
    v.push(option_item("grupp 1", "Grupp 1", "Övningar & seminarier"));
    v.push(option_item("grupp 2", "Grupp 2", "Övningar & seminarier"));
    v.push(option_item("grupp 3", "Grupp 3", "Övningar & seminarier"));
    v.push(option_item("grupp 4", "Grupp 4", "Övningar & seminarier"));
    v.push(option_item("grupp 5", "Grupp 5", "Övningar & seminarier"));
    v.push(option_item("grupp 6", "Grupp 6", "Övningar & seminarier"));
    v.push(option_item("grupp a", "Grupp A", "Laborationsgrupp A"));
    v.push(option_item("grupp b", "Grupp B", "Laborationsgrupp B"));
    v.push(option_item("grupp c", "Grupp C", "Laborationsgrupp C"));
    v.push(option_item("grupp d", "Grupp D", "Laborationsgrupp D"));
    v.push(option_item("grupp e", "Grupp E", "Laborationsgrupp E"));
    v.push(option_item("grupp f", "Grupp F", "Laborationsgrupp F"));
    v.push(option_item("grupp g", "Grupp G", "Laborationsgrupp G"));
    v.push(option_item("grupp h", "Grupp H", "Laborationsgrupp H"));
    assert(option_views(v@) =~= default_options());
    v
}

/// The groups of the events, event by event.
pub open spec fn all_groups(es: Seq<EventView>) -> Seq<Seq<char>>
    decreases es.len(),
{
    if es.len() == 0 {
        Seq::empty()
    } else {
        all_groups(es.drop_last()) + es.last().groups
    }
}

pub open spec fn has_key(opts: Seq<GroupOptionView>, k: Seq<char>) -> bool {
    exists|i: int| 0 <= i < opts.len() && (#[trigger] opts[i]).key == k
}

/// The options extended by each single group of `gs` (trimmed, lower case,
/// not a combination with "och" or "/", not "alla") that has no option yet.
pub open spec fn add_options(opts: Seq<GroupOptionView>, gs: Seq<Seq<char>>) -> Seq<GroupOptionView>
    decreases gs.len(),
{
    if gs.len() == 0 {
        opts
    } else {
        let r = add_options(opts, gs.drop_last());
        let g = unicode_lower(trim(gs.last()));
        if contains(g, "och"@) || contains(g, "/"@) || g == "alla"@ || has_key(r, g) {
            r
        } else {
            r.push(
                GroupOptionView {
                    key: g,
                    title: capitalized(unicode_lower(trim(g))),
                    description: "Från schemat"@,
                },
            )
        }
    }
}

/// The choices of the group filter dialog.
pub open spec fn group_options(s: AppView) -> Seq<GroupOptionView> {
    match s.schedule {
        Some(sc) => add_options(default_options(), all_groups(sc.events)),
        None => default_options(),
    }
}

/// Whether some option has the key.
fn has_option(opts: &Vec<GroupOptionItem>, k: &String) -> (b: bool)
    ensures
        b == has_key(option_views(opts@), k@),
{
    let ghost ov = option_views(opts@);
    let mut i: usize = 0;
    while i < opts.len()
        invariant
            i <= opts@.len(),
            ov == option_views(opts@),
            forall|m: int| 0 <= m < i ==> (#[trigger] ov[m]).key != k@,
        decreases opts@.len() - i,
    {
        if opts[i].key == *k {
            assert(ov[i as int].key == k@);
            return true;
        }
        i = i + 1;
    }
    false
}

/// The next caller-visible text `s` with `sep` and `piece` appended.
fn append_joined(acc: String, first: bool, sep: &str, piece: &str) -> (r: String)
    ensures
        r@ == (if first {
            piece@
        } else {
            acc@ + sep@ + piece@
        }),
{
    if first {
        String::from_str(piece)
    } else {
        acc.concat(sep).concat(piece)
    }
}

/// The group names as shown, separated by commas; "Alla" for none.
pub fn groups_text(groups: &GroupSet) -> (res: String)
    ensures
        res@ == groups_display(groups@),
{
    let items = groups.items();
    if items.len() == 0 {
        return String::from_str("Alla");
    }
    let ghost names = groups@.map_values(|g: Seq<char>| capitalized(unicode_lower(trim(g))));
    let mut res = String::new();
    let mut i: usize = 0;
    while i < items.len()
        invariant
            i <= items@.len(),
            string_views(items@) == groups@,
            names == groups@.map_values(|g: Seq<char>| capitalized(unicode_lower(trim(g)))),
            res@ == join(names.take(i as int), ", "@),
        decreases items@.len() - i,
    {
        let name = capitalize_group_name(items[i].as_str());
        assert(names[i as int] == name@);
        res = append_joined(res, i == 0, ", ", name.as_str());
        assert(names.take(i + 1).drop_last() =~= names.take(i as int));
        if i == 0 {
            assert(names.take(1) =~= seq![name@]);
        }
        i = i + 1;
    }
    assert(names.take(items@.len() as int) =~= names);
    res
}

impl App {
    /// The state before any schedule is loaded: the profile given by address
    /// or name (see `start_profile`) with its group filter, in the week view.
    pub fn new(config: AppConfig, initial_profile: Option<&str>, initial_url: Option<&str>) -> (app:
        App)
        requires
            config.wf(),
        ensures
            app.wf(),
            app@ == start_view(config@, opt_str_view(initial_profile), opt_str_view(initial_url)),
    {
        let (profile_key, profile) = match initial_url {
            Some(url) => (
                String::from_str("custom"),
                Profile {
                    name: String::from_str("Anpassat schema"),
                    url: String::from_str(url),
                    group_filter: String::from_str("alla"),
                    description: Some(String::from_str("Länkat via kommandorad")),
                },
            ),
            None => match config.get_active_profile(initial_profile) {
                Some((k, p)) => (String::from_str(k), p.duplicate()),
                None => (
                    String::from_str("default"),
                    Profile {
                        name: String::from_str("Standard"),
                        url: String::from_str("https://schema.hb.se"),
                        group_filter: String::from_str("alla"),
                        description: None,
                    },
                ),
            },
        };
        let selected_groups = parse_group_filter_string(profile.group_filter.as_str());
        App {
            config: config,
            active_profile_key: profile_key,
            active_profile: profile,
            schedule: None,
            fetch_info: None,
            warning_message: None,
            view_mode: ViewMode::Week,
            modal: Modal::Closed,
            selected_event_index: 0,
            selected_week_index: 0,
            selected_day_index: 0,
            selected_course_index: 0,
            selected_profile_index: 0,
            selected_group_index: 0,
            search_query: String::new(),
            search_input_buffer: String::new(),
            selected_groups: selected_groups,
            activity_filter: None,
            status_message: None,
            status_serial: 0,
            should_quit: false,
        }
    }

    /// Shows a fetched schedule: records where it came from and any warning,
    /// selects the first event and reports success.
    pub fn apply_fetch(&mut self, result: FetchResult)
        requires
            old(self).wf(),
        ensures
            final(self).wf(),
            final(self)@ == apply_fetch_view(
                old(self)@,
                result.schedule@,
                result.from_cache,
                result.cache_age_secs,
                opt_view(result.warning),
            ),
    {
        let info = fetch_info_text(result.from_cache, result.cache_age_secs);
        self.fetch_info = Some(info);
        self.warning_message = result.warning;
        self.schedule = Some(result.schedule);
        self.selected_event_index = 0;
        self.set_status(String::from_str("Schemat laddades utan problem."));
    }

    /// Selects the first week numbered `current_week` or later (the last week
    /// when all are earlier) and its first event.
    pub fn jump_to_current_week(&mut self, current_week: u32)
        ensures
            final(self)@ == jump_week_view(old(self)@, current_week),
            final(self).config == old(self).config,
            final(self).selected_groups == old(self).selected_groups,
    {
        match &self.schedule {
            Some(schedule) => {
                let ghost ws = week_views(schedule.weeks@);
                let mut k: usize = 0;
                while k < schedule.weeks.len() && schedule.weeks[k].week_number < current_week
                    invariant
                        k <= schedule.weeks@.len(),
                        ws == week_views(schedule.weeks@),
                        first_week_from(ws, current_week, k as int) == first_week_from(
                            ws,
                            current_week,
                            0,
                        ),
                    decreases schedule.weeks@.len() - k,
                {
                    k = k + 1;
                }
                if k < schedule.weeks.len() {
                    self.selected_week_index = k;
                } else if schedule.weeks.len() > 0 {
                    self.selected_week_index = schedule.weeks.len() - 1;
                }
            },
            None => {},
        }
        self.selected_event_index = 0;
    }

    /// Selects today's first shown event (`today` as YYYY-MM-DD); where there
    /// is none, the current week.  Reports which happened.
    pub fn jump_to_today(&mut self, today: &str, current_week: u32)
        ensures
            final(self)@ == jump_today_view(old(self)@, today@, current_week),
            final(self).config == old(self).config,
            final(self).selected_groups == old(self).selected_groups,
    {
        let ghost s0 = self@;
        let today_s = String::from_str(today);
        let mut hit: Option<(usize, usize)> = None;
        match &self.schedule {
            Some(schedule) => {
                let ghost ws = week_views(schedule.weeks@);
                let mut wi: usize = 0;
                while wi < schedule.weeks.len() && hit.is_none()
                    invariant
                        wi <= schedule.weeks@.len(),
                        ws == week_views(schedule.weeks@),
                        self@ == s0,
                        today_s@ == today@,
                        s0.schedule == Some(schedule@),
                        hit is None ==> today_from(s0, ws, today@, wi as int) == today_from(
                            s0,
                            ws,
                            today@,
                            0,
                        ),
                        hit matches Some(p) ==> today_from(s0, ws, today@, 0) == Some(
                            (p.0 as int, p.1 as int),
                        ),
                    decreases schedule.weeks@.len() - wi + (if hit is None {
                        1int
                    } else {
                        0int
                    }),
                {
                    let w = &schedule.weeks[wi];
                    let events = self.get_filtered_events_for_week(w.week_number, w.year);
                    let ghost evs = ref_views(events@);
                    let mut ei: usize = 0;
                    while ei < events.len() && !(events[ei].full_date == today_s)
                        invariant
                            ei <= events@.len(),
                            evs == ref_views(events@),
                            today_s@ == today@,
                            date_index(evs, today@, ei as int) == date_index(evs, today@, 0),
                        decreases events@.len() - ei,
                    {
                        ei = ei + 1;
                    }
                    if ei < events.len() {
                        hit = Some((wi, ei));
                    } else {
                        wi = wi + 1;
                    }
                }
            },
            None => {},
        }
        match hit {
            Some((wi, ei)) => {
                self.selected_week_index = wi;
                self.selected_event_index = ei;
                self.set_status(String::from_str("Hoppade till dagens schema."));
            },
            None => {
                self.jump_to_current_week(current_week);
                self.set_status(
                    String::from_str("Inga händelser hittades för idag. Visar aktuell vecka."),
                );
            },
        }
    }

    /// The selected group names as shown, separated by commas; "Alla" when
    /// none is selected.
    pub fn selected_groups_display(&self) -> (res: String)
        ensures
            res@ == groups_display(self@.selected_groups),
    {
        groups_text(&self.selected_groups)
    }

    /// Replaces the selected groups with those that the filter string names.
    pub fn set_group_filter(&mut self, filter: &str)
        ensures
            final(self)@ == (AppView { selected_groups: filter_groups(filter@), ..old(self)@ }),
            final(self).selected_groups.wf(),
            final(self).config == old(self).config,
    {
        self.selected_groups = parse_group_filter_string(filter);
    }

    /// The choices of the group filter dialog: the fixed groups 1-6 and A-H,
    /// then each further single group named in the schedule.
    pub fn get_group_options(&self) -> (res: Vec<GroupOptionItem>)
        ensures
            option_views(res@) == group_options(self@),
    {
        let mut result = default_option_list();
        match &self.schedule {
            Some(schedule) => {
                let ghost ev = event_views(schedule.events@);
                let mut i: usize = 0;
                while i < schedule.events.len()
                    invariant
                        i <= schedule.events@.len(),
                        ev == event_views(schedule.events@),
                        option_views(result@) == add_options(
                            default_options(),
                            all_groups(ev.take(i as int)),
                        ),
                    decreases schedule.events@.len() - i,
                {
                    let ev_i = &schedule.events[i];
                    let ghost prefix = all_groups(ev.take(i as int));
                    let ghost gv = string_views(ev_i.groups@);
                    let mut j: usize = 0;
                    while j < ev_i.groups.len()
                        invariant
                            j <= ev_i.groups@.len(),
                            gv == string_views(ev_i.groups@),
                            option_views(result@) == add_options(
                                default_options(),
                                prefix + gv.take(j as int),
                            ),
                        decreases ev_i.groups@.len() - j,
                    {
                        let gc = chars_of(ev_i.groups[j].as_str());
                        let t = trim_chars(gc.as_slice());
                        let ts = string_of(t.as_slice());
                        let g_clean = to_lowercase(ts.as_str());
                        let l = chars_of(g_clean.as_str());
                        let och = chars_of("och");
                        let slash: [char; 1] = ['/'];
                        proof {
                            reveal_strlit("/");
                        }
                        assert(slash@ =~= "/"@);
                        assert((prefix + gv.take(j + 1)).drop_last() =~= prefix + gv.take(j as int));
                        assert((prefix + gv.take(j + 1)).last() == gv[j as int]);
                        let skip = contains_chars(l.as_slice(), och.as_slice()) || contains_chars(
                            l.as_slice(),
                            slash.as_slice(),
                        ) || g_clean == String::from_str("alla") || has_option(&result, &g_clean);
                        if !skip {
                            let title = capitalize_group_name(g_clean.as_str());
                            let ghost before = option_views(result@);
                            result.push(
                                GroupOptionItem {
                                    key: g_clean,
                                    title: title,
                                    description: String::from_str("Från schemat"),
                                },
                            );
                            assert(option_views(result@) =~= before.push(
                                GroupOptionView {
                                    key: l@,
                                    title: capitalized(unicode_lower(trim(l@))),
                                    description: "Från schemat"@,
                                },
                            ));
                        }
                        j = j + 1;
                    }
                    assert(gv.take(ev_i.groups@.len() as int) =~= gv);
                    assert(ev.take(i + 1).drop_last() =~= ev.take(i as int));
                    assert(ev.take(i + 1).last() == ev_i@);
                    i = i + 1;
                }
                assert(ev.take(schedule.events@.len() as int) =~= ev);
            },
            None => {},
        }
        result
    }

    /// Makes the profile stored under `key` active with its group filter;
    /// returns whether there is one (its schedule is then to be loaded).
    pub fn begin_profile_switch(&mut self, key: &str) -> (found: bool)
        requires
            old(self).wf(),
        ensures
            final(self).wf(),
            final(self)@ == switch_profile_view(old(self)@, key@),
            found == lookup(old(self)@.config.profiles, key@) is Some,
    {
        match self.config.profiles.get(key) {
            Some(p) => {
                let p2 = p.duplicate();
                let groups = parse_group_filter_string(p2.group_filter.as_str());
                self.active_profile_key = String::from_str(key);
                self.active_profile = p2;
                self.selected_groups = groups;
                true
            },
            None => false,
        }
    }

    /// After the new profile's schedule is shown: selects the current week
    /// and reports the switch.
    pub fn finish_profile_switch(&mut self, current_week: u32)
        ensures
            final(self)@ == with_status(
                jump_week_view(old(self)@, current_week),
                "Växlade till schema: "@ + old(self)@.active_profile.name,
            ),
            final(self).config == old(self).config,
            final(self).selected_groups == old(self).selected_groups,
    {
        self.jump_to_current_week(current_week);
        let msg = String::from_str("Växlade till schema: ").concat(self.active_profile.name.as_str());
        self.set_status(msg);
    }

    /// Reports a failed reload with the error's text.
    pub fn report_reload_failure(&mut self, error: &str)
        ensures
            final(self)@ == with_status(old(self)@, "Kunde inte uppdatera: "@ + error@),
            final(self).config == old(self).config,
            final(self).selected_groups == old(self).selected_groups,
    {
        let msg = String::from_str("Kunde inte uppdatera: ").concat(error);
        self.set_status(msg);
    }

    /// Reports whether the selected event's link was opened.
    pub fn report_link_opened(&mut self, url: &str, opened: bool)
        ensures
            final(self)@ == with_status(
                old(self)@,
                if opened {
                    "Öppnade länk i webbläsare: "@ + url@
                } else {
                    "Ingen webblänk hittades i den markerade händelsen."@
                },
            ),
            final(self).config == old(self).config,
            final(self).selected_groups == old(self).selected_groups,
    {
        if opened {
            let msg = String::from_str("Öppnade länk i webbläsare: ").concat(url);
            self.set_status(msg);
        } else {
            self.set_status(String::from_str("Ingen webblänk hittades i den markerade händelsen."));
        }
    }

    /// Moves to the next event of the view, wrapping to the first.
    pub fn next_event(&mut self)
        ensures
            final(self)@ == next_event_view(old(self)@),
            final(self).config == old(self).config,
            final(self).selected_groups == old(self).selected_groups,
    {
        let count = self.get_current_view_events().len();
        if count > 0 {
            if self.selected_event_index < count - 1 {
                self.selected_event_index = self.selected_event_index + 1;
            } else {
                self.selected_event_index = 0;
            }
        }
    }

    /// Moves to the previous event of the view, wrapping to the last.
    pub fn prev_event(&mut self)
        ensures
            final(self)@ == prev_event_view(old(self)@),
            final(self).config == old(self).config,
            final(self).selected_groups == old(self).selected_groups,
    {
        let count = self.get_current_view_events().len();
        if count > 0 {
            if self.selected_event_index > 0 {
                self.selected_event_index = self.selected_event_index - 1;
            } else {
                self.selected_event_index = count - 1;
            }
        }
    }

    /// Moves to the next week, if any, and its first event.
    pub fn next_week(&mut self)
        ensures
            final(self)@ == next_week_view(old(self)@),
            final(self).config == old(self).config,
            final(self).selected_groups == old(self).selected_groups,
    {
        let n = match &self.schedule {
            Some(s) => s.weeks.len(),
            None => 0,
        };
        if self.selected_week_index < n && self.selected_week_index < n - 1 {
            self.selected_week_index = self.selected_week_index + 1;
            self.selected_event_index = 0;
        }
    }

    /// Moves to the previous week, if any, and its first event.
    pub fn prev_week(&mut self)
        ensures
            final(self)@ == prev_week_view(old(self)@),
            final(self).config == old(self).config,
            final(self).selected_groups == old(self).selected_groups,
    {
        if self.selected_week_index > 0 {
            self.selected_week_index = self.selected_week_index - 1;
            self.selected_event_index = 0;
        }
    }

    /// Moves to the next day, if any, and its first event.
    pub fn next_day(&mut self)
        ensures
            final(self)@ == next_day_view(old(self)@),
            final(self).config == old(self).config,
            final(self).selected_groups == old(self).selected_groups,
    {
        let n = self.get_unique_days().len();
        if self.selected_day_index < n && self.selected_day_index < n - 1 {
            self.selected_day_index = self.selected_day_index + 1;
            self.selected_event_index = 0;
        }
    }

    /// Moves to the previous day, if any, and its first event.
    pub fn prev_day(&mut self)
        ensures
            final(self)@ == prev_day_view(old(self)@),
            final(self).config == old(self).config,
            final(self).selected_groups == old(self).selected_groups,
    {
        if self.selected_day_index > 0 {
            self.selected_day_index = self.selected_day_index - 1;
            self.selected_event_index = 0;
        }
    }

    /// Shows the next view (week, timeline, day, courses, week, ...).
    pub fn next_mode(&mut self)
        ensures
            final(self)@ == set_mode_view(old(self)@, next_mode_of(old(self)@.view_mode)),
            final(self).config == old(self).config,
            final(self).selected_groups == old(self).selected_groups,
    {
        self.view_mode = match self.view_mode {
            ViewMode::Week => ViewMode::Timeline,
            ViewMode::Timeline => ViewMode::Day,
            ViewMode::Day => ViewMode::Courses,
            ViewMode::Courses => ViewMode::Week,
        };
        self.selected_event_index = 0;
    }
}

// ---------------------------------------------------------------------------
// Keys
// ---------------------------------------------------------------------------

/// A key press.
#[derive(Debug, Clone, Copy, PartialEq, Eq)]
pub enum Key {
    Char(char),
    Enter,
    Esc,
    Backspace,
    Tab,
    BackTab,
    Up,
    Down,
    Left,
    Right,
    F(u8),
    Other,
}

/// What the caller is to do after a key press.
#[derive(Debug, Clone, PartialEq, Eq)]
pub enum KeyAction {
    /// Nothing more.
    Nothing,
    /// Fetch the active profile's schedule anew, bypassing the cache, and
    /// show it (`apply_fetch`) or report the failure (`report_reload_failure`).
    Reload,
    /// Fetch the newly active profile's schedule, show it (`apply_fetch`) and
    /// then call `finish_profile_switch`.
    LoadProfile,
    /// Open this link in the browser and report it (`report_link_opened`).
    OpenLink(String),
    /// Open the active profile's schedule in the browser.
    OpenSchedule,
}

pub enum ActionView {
    Nothing,
    Reload,
    LoadProfile,
    OpenLink(Seq<char>),
    OpenSchedule,
}

impl View for KeyAction {
    type V = ActionView;

    open spec fn view(&self) -> ActionView {
        match self {
            KeyAction::Nothing => ActionView::Nothing,
            KeyAction::Reload => ActionView::Reload,
            KeyAction::LoadProfile => ActionView::LoadProfile,
            KeyAction::OpenLink(u) => ActionView::OpenLink(u@),
            KeyAction::OpenSchedule => ActionView::OpenSchedule,
        }
    }
}

pub open spec fn close_modal(s: AppView) -> AppView {
    AppView { modal: ModalView::Closed, ..s }
}

pub open spec fn is_char(k: Key, c: char) -> bool {
    k matches Key::Char(x) && x == c
}

/// The search dialog: Enter applies the typed text, Esc closes, Backspace and
/// characters edit the text.
pub open spec fn search_step(s: AppView, key: Key) -> AppView {
    match key {
        Key::Enter => {
            let q = s.search_input_buffer;
            with_status(
                AppView {
                    search_query: q,
                    modal: ModalView::Closed,
                    selected_event_index: 0,
                    ..s
                },
                if q.len() == 0 {
                    "Sökning rensad."@
                } else {
                    "Filtrerar på \""@ + q + "\""@
                },
            )
        },
        Key::Esc => close_modal(s),
        Key::Backspace => AppView {
            search_input_buffer: if s.search_input_buffer.len() > 0 {
                s.search_input_buffer.drop_last()
            } else {
                s.search_input_buffer
            },
            ..s
        },
        Key::Char(c) => AppView { search_input_buffer: s.search_input_buffer.push(c), ..s },
        _ => s,
    }
}

/// The first week at or after `i` with the given number.
pub open spec fn week_number_index(ws: Seq<WeekInfoView>, w: u32, i: int) -> Option<int>
    decreases ws.len() - i,
{
    if i < 0 || i >= ws.len() {
        None
    } else if ws[i].week_number == w {
        Some(i)
    } else {
        week_number_index(ws, w, i + 1)
    }
}

/// The go-to-week dialog with typed text `buf`: Enter selects the typed week
/// where the schedule has it, Esc closes, Backspace and digits edit.
pub open spec fn goto_step(s: AppView, buf: Seq<char>, key: Key) -> AppView {
    match key {
        Key::Enter => {
            let s1 = match parse_u32_spec(trim(buf)) {
                Some(w) => match s.schedule {
                    Some(sc) => match week_number_index(sc.weeks, w, 0) {
                        Some(p) => with_status(
                            AppView {
                                selected_week_index: p as usize,
                                selected_event_index: 0,
                                ..s
                            },
                            "Hoppade till vecka "@ + decimal(w as nat),
                        ),
                        None => with_status(
                            s,
                            "Vecka "@ + decimal(w as nat) + " hittades inte i schemat."@,
                        ),
                    },
                    None => s,
                },
                None => s,
            };
            close_modal(s1)
        },
        Key::Esc => close_modal(s),
        Key::Backspace => AppView {
            modal: ModalView::GoToWeek(
                if buf.len() > 0 {
                    buf.drop_last()
                } else {
                    buf
                },
            ),
            ..s
        },
        Key::Char(c) => if '0' <= c && c <= '9' {
            AppView { modal: ModalView::GoToWeek(buf.push(c)), ..s }
        } else {
            s
        },
        _ => s,
    }
}

/// The selected groups with `k` added, or removed where it was selected.
pub open spec fn toggle_group(gs: Seq<Seq<char>>, k: Seq<char>) -> Seq<Seq<char>> {
    if gs.contains(k) {
        sorted_set(gs.to_set().remove(k))
    } else {
        sorted_set(gs.to_set().insert(k))
    }
}

pub open spec fn option_keys(opts: Seq<GroupOptionView>) -> Seq<Seq<char>> {
    opts.map_values(|o: GroupOptionView| o.key)
}

pub open spec fn toggle_option(s: AppView, i: int) -> AppView {
    let opts = group_options(s);
    if 0 <= i < opts.len() {
        AppView {
            selected_groups: toggle_group(s.selected_groups, opts[i].key),
            selected_event_index: 0,
            ..s
        }
    } else {
        s
    }
}

/// The group filter dialog: Esc, q, g, f or Enter close it and report the
/// filter; arrows move; space and the digits 1-9 toggle an option; c clears;
/// a selects every option, or clears when at least as many are selected.
pub open spec fn group_step(s: AppView, key: Key) -> AppView {
    let opts = group_options(s);
    if key == Key::Esc || key == Key::Enter || is_char(key, 'q') || is_char(key, 'g') || is_char(
        key,
        'f',
    ) {
        close_modal(
            with_status(
                s,
                if s.selected_groups.len() == 0 {
                    "Visar alla grupper."@
                } else {
                    "Aktiva gruppfilter: "@ + groups_display(s.selected_groups)
                },
            ),
        )
    } else if key == Key::Up || is_char(key, 'k') {
        if s.selected_group_index > 0 {
            AppView { selected_group_index: (s.selected_group_index - 1) as usize, ..s }
        } else {
            s
        }
    } else if key == Key::Down || is_char(key, 'j') {
        if s.selected_group_index + 1 < opts.len() {
            AppView { selected_group_index: (s.selected_group_index + 1) as usize, ..s }
        } else {
            s
        }
    } else if is_char(key, ' ') {
        toggle_option(s, s.selected_group_index as int)
    } else if is_char(key, 'c') {
        with_status(
            AppView { selected_groups: Seq::empty(), selected_event_index: 0, ..s },
            "Alla gruppfilter rensade (visar alla grupper)."@,
        )
    } else if is_char(key, 'a') {
        AppView {
            selected_groups: if s.selected_groups.len() >= opts.len() {
                Seq::empty()
            } else {
                sorted_set(s.selected_groups.to_set().union(option_keys(opts).to_set()))
            },
            selected_event_index: 0,
            ..s
        }
    } else {
        match key {
            Key::Char(c) => if '1' <= c && c <= '9' {
                toggle_option(s, (c as int) - ('1' as int))
            } else {
                s
            },
            _ => s,
        }
    }
}

/// Makes the profile at position `i` (in key order) active, where there is one.
pub open spec fn pick_profile(s: AppView, i: int) -> (AppView, ActionView) {
    if 0 <= i < s.config.profiles.len() {
        (
            close_modal(switch_profile_view(s, s.config.profiles[i].0)),
            ActionView::LoadProfile,
        )
    } else {
        (s, ActionView::Nothing)
    }
}

/// The profile dialog: Esc, q or s close it; arrows move; Enter picks the
/// selected profile and closes; a digit picks a profile by its number.
pub open spec fn profile_step(s: AppView, key: Key) -> (AppView, ActionView) {
    let n = s.config.profiles.len();
    if key == Key::Esc || is_char(key, 'q') || is_char(key, 's') {
        (close_modal(s), ActionView::Nothing)
    } else if key == Key::Up || is_char(key, 'k') {
        (
            if s.selected_profile_index > 0 {
                AppView { selected_profile_index: (s.selected_profile_index - 1) as usize, ..s }
            } else {
                s
            },
            ActionView::Nothing,
        )
    } else if key == Key::Down || is_char(key, 'j') {
        (
            if s.selected_profile_index + 1 < n {
                AppView { selected_profile_index: (s.selected_profile_index + 1) as usize, ..s }
            } else {
                s
            },
            ActionView::Nothing,
        )
    } else if key == Key::Enter {
        let r = pick_profile(s, s.selected_profile_index as int);
        (close_modal(r.0), r.1)
    } else {
        match key {
            Key::Char(c) => if '0' <= c && c <= '9' {
                pick_profile(
                    s,
                    if c == '0' {
                        0
                    } else {
                        (c as int) - ('1' as int)
                    },
                )
            } else {
                (s, ActionView::Nothing)
            },
            _ => (s, ActionView::Nothing),
        }
    }
}

/// Opens the selected event's first link, or reports that it has none.
pub open spec fn open_link_step(s: AppView) -> (AppView, ActionView) {
    let evs = view_events(s);
    if s.selected_event_index < evs.len() && evs[s.selected_event_index as int].urls.len() > 0 {
        (s, ActionView::OpenLink(evs[s.selected_event_index as int].urls[0]))
    } else {
        (with_status(s, "Ingen webblänk hittades i den markerade händelsen."@), ActionView::Nothing)
    }
}

/// The event details dialog: Esc, q, Enter or d close it; w or u open the
/// event's link; o opens the schedule in the browser.
pub open spec fn details_step(s: AppView, key: Key) -> (AppView, ActionView) {
    if key == Key::Esc || key == Key::Enter || is_char(key, 'q') || is_char(key, 'd') {
        (close_modal(s), ActionView::Nothing)
    } else if is_char(key, 'w') || is_char(key, 'u') {
        open_link_step(s)
    } else if is_char(key, 'o') {
        (s, ActionView::OpenSchedule)
    } else {
        (s, ActionView::Nothing)
    }
}

/// The help dialog: Esc, q, ? or Enter close it.
pub open spec fn help_step(s: AppView, key: Key) -> AppView {
    if key == Key::Esc || key == Key::Enter || is_char(key, 'q') || is_char(key, '?') {
        close_modal(s)
    } else {
        s
    }
}

/// How many rows the course overview lets the cursor move over.
pub open spec fn course_rows(s: AppView) -> int {
    if s.config.profiles.len() > 5 {
        s.config.profiles.len() as int
    } else {
        5
    }
}

/// The main view without a dialog: q quits; Tab, BackTab and 1-4 change the
/// view; arrows and h/j/k/l/n/p move over events, weeks, days or courses; t
/// jumps to today; w, /, g, f, s, Enter, d, space and ? open dialogs; Esc
/// clears the search; r reloads; o opens the schedule and u the event's link.
pub open spec fn main_step(s: AppView, key: Key, today: Seq<char>, week: u32) -> (AppView, ActionView) {
    if is_char(key, 'q') {
        (AppView { should_quit: true, ..s }, ActionView::Nothing)
    } else if key == Key::Tab {
        (set_mode_view(s, next_mode_of(s.view_mode)), ActionView::Nothing)
    } else if key == Key::BackTab {
        (set_mode_view(s, prev_mode_of(s.view_mode)), ActionView::Nothing)
    } else if is_char(key, '1') {
        (set_mode_view(s, ViewMode::Week), ActionView::Nothing)
    } else if is_char(key, '2') {
        (set_mode_view(s, ViewMode::Timeline), ActionView::Nothing)
    } else if is_char(key, '3') {
        (set_mode_view(s, ViewMode::Day), ActionView::Nothing)
    } else if is_char(key, '4') {
        (set_mode_view(s, ViewMode::Courses), ActionView::Nothing)
    } else if key == Key::Down || is_char(key, 'j') {
        (
            if s.view_mode == ViewMode::Courses {
                if s.selected_course_index + 1 < course_rows(s) {
                    AppView { selected_course_index: (s.selected_course_index + 1) as usize, ..s }
                } else {
                    s
                }
            } else {
                next_event_view(s)
            },
            ActionView::Nothing,
        )
    } else if key == Key::Up || is_char(key, 'k') {
        (
            if s.view_mode == ViewMode::Courses {
                if s.selected_course_index > 0 {
                    AppView { selected_course_index: (s.selected_course_index - 1) as usize, ..s }
                } else {
                    s
                }
            } else {
                prev_event_view(s)
            },
            ActionView::Nothing,
        )
    } else if key == Key::Right || is_char(key, 'l') || is_char(key, 'n') {
        (
            if s.view_mode == ViewMode::Day {
                next_day_view(s)
            } else {
                next_week_view(s)
            },
            ActionView::Nothing,
        )
    } else if key == Key::Left || is_char(key, 'h') || is_char(key, 'p') {
        (
            if s.view_mode == ViewMode::Day {
                prev_day_view(s)
            } else {
                prev_week_view(s)
            },
            ActionView::Nothing,
        )
    } else if is_char(key, 't') {
        (jump_today_view(s, today, week), ActionView::Nothing)
    } else if is_char(key, 'w') {
        (AppView { modal: ModalView::GoToWeek(Seq::empty()), ..s }, ActionView::Nothing)
    } else if is_char(key, '/') {
        (
            AppView { search_input_buffer: s.search_query, modal: ModalView::Search, ..s },
            ActionView::Nothing,
        )
    } else if is_char(key, 'g') || is_char(key, 'f') {
        (AppView { modal: ModalView::GroupFilter, ..s }, ActionView::Nothing)
    } else if key == Key::Esc {
        (
            if s.search_query.len() > 0 {
                with_status(AppView { search_query: Seq::empty(), ..s }, "Sökfilter rensat."@)
            } else {
                s
            },
            ActionView::Nothing,
        )
    } else if is_char(key, 's') {
        (AppView { modal: ModalView::SwitchProfile, ..s }, ActionView::Nothing)
    } else if is_char(key, 'r') {
        (with_status(s, "Hämtar nytt schema från servern..."@), ActionView::Reload)
    } else if key == Key::Enter || is_char(key, 'd') || is_char(key, ' ') {
        (AppView { modal: ModalView::EventDetails, ..s }, ActionView::Nothing)
    } else if is_char(key, 'o') {
        (with_status(s, "Öppnade schemat i webbläsaren."@), ActionView::OpenSchedule)
    } else if is_char(key, 'u') {
        open_link_step(s)
    } else if is_char(key, '?') || key == Key::F(1) {
        (AppView { modal: ModalView::Help, ..s }, ActionView::Nothing)
    } else {
        (s, ActionView::Nothing)
    }
}

/// The state after a key press and what the caller is to do, given today's
/// date (YYYY-MM-DD) and the current week number.
pub open spec fn key_step(s: AppView, key: Key, today: Seq<char>, week: u32) -> (AppView, ActionView) {
    match s.modal {
        ModalView::Search => (search_step(s, key), ActionView::Nothing),
        ModalView::GoToWeek(buf) => (goto_step(s, buf, key), ActionView::Nothing),
        ModalView::GroupFilter => (group_step(s, key), ActionView::Nothing),
        ModalView::SwitchProfile => profile_step(s, key),
        ModalView::Help => (help_step(s, key), ActionView::Nothing),
        ModalView::EventDetails => details_step(s, key),
        ModalView::Closed => main_step(s, key, today, week),
    }
}

fn key_is(key: Key, c: char) -> (b: bool)
    ensures
        b == is_char(key, c),
{
    match key {
        Key::Char(x) => x == c,
        _ => false,
    }
}

fn same_key(a: Key, b: Key) -> (r: bool)
    ensures
        r == (a == b),
{
    match (a, b) {
        (Key::Char(x), Key::Char(y)) => x == y,
        (Key::Enter, Key::Enter) => true,
        (Key::Esc, Key::Esc) => true,
        (Key::Backspace, Key::Backspace) => true,
        (Key::Tab, Key::Tab) => true,
        (Key::BackTab, Key::BackTab) => true,
        (Key::Up, Key::Up) => true,
        (Key::Down, Key::Down) => true,
        (Key::Left, Key::Left) => true,
        (Key::Right, Key::Right) => true,
        (Key::F(x), Key::F(y)) => x == y,
        (Key::Other, Key::Other) => true,
        _ => false,
    }
}

impl App {
    fn close_modal(&mut self)
        ensures
            final(self)@ == close_modal(old(self)@),
            final(self).config == old(self).config,
            final(self).selected_groups == old(self).selected_groups,
    {
        self.modal = Modal::Closed;
    }

    fn search_key(&mut self, key: Key)
        requires
            old(self)@.modal == ModalView::Search,
        ensures
            final(self)@ == search_step(old(self)@, key),
            final(self).config == old(self).config,
            final(self).selected_groups == old(self).selected_groups,
    {
        match key {
            Key::Enter => {
                self.search_query = self.search_input_buffer.clone();
                self.modal = Modal::Closed;
                self.selected_event_index = 0;
                let msg = if self.search_query.unicode_len() == 0 {
                    String::from_str("Sökning rensad.")
                } else {
                    String::from_str("Filtrerar på \"").concat(self.search_query.as_str()).concat(
                        "\"",
                    )
                };
                self.set_status(msg);
            },
            Key::Esc => {
                self.modal = Modal::Closed;
            },
            Key::Backspace => {
                string_pop(&mut self.search_input_buffer);
            },
            Key::Char(c) => {
                string_push(&mut self.search_input_buffer, c);
            },
            _ => {},
        }
    }

    fn goto_key(&mut self, key: Key, buf: String)
        requires
            old(self)@.modal == ModalView::GoToWeek(buf@),
        ensures
            final(self)@ == goto_step(old(self)@, buf@, key),
            final(self).config == old(self).config,
            final(self).selected_groups == old(self).selected_groups,
    {
        match key {
            Key::Enter => {
                let bc = chars_of(buf.as_str());
                let t = trim_chars(bc.as_slice());
                match parse_u32_chars(t.as_slice()) {
                    Some(target_w) => {
                        let d = decimal_chars(target_w as u64);
                        let ds = string_of(d.as_slice());
                        let mut found: Option<usize> = None;
                        match &self.schedule {
                            Some(schedule) => {
                                let ghost ws = week_views(schedule.weeks@);
                                let mut k: usize = 0;
                                while k < schedule.weeks.len() && schedule.weeks[k].week_number
                                    != target_w
                                    invariant
                                        k <= schedule.weeks@.len(),
                                        ws == week_views(schedule.weeks@),
                                        week_number_index(ws, target_w, k as int)
                                            == week_number_index(ws, target_w, 0),
                                    decreases schedule.weeks@.len() - k,
                                {
                                    k = k + 1;
                                }
                                if k < schedule.weeks.len() {
                                    found = Some(k);
                                } else {
                                    found = None;
                                }
                            },
                            None => {},
                        }
                        if self.schedule.is_some() {
                            match found {
                                Some(pos) => {
                                    self.selected_week_index = pos;
                                    self.selected_event_index = 0;
                                    self.set_status(
                                        String::from_str("Hoppade till vecka ").concat(ds.as_str()),
                                    );
                                },
                                None => {
                                    self.set_status(
                                        String::from_str("Vecka ").concat(ds.as_str()).concat(
                                            " hittades inte i schemat.",
                                        ),
                                    );
                                },
                            }
                        }
                    },
                    None => {},
                }
                self.modal = Modal::Closed;
            },
            Key::Esc => {
                self.modal = Modal::Closed;
            },
            Key::Backspace => {
                let mut b = buf;
                string_pop(&mut b);
                self.modal = Modal::GoToWeek(b);
            },
            Key::Char(c) => {
                if '0' <= c && c <= '9' {
                    let mut b = buf;
                    string_push(&mut b, c);
                    self.modal = Modal::GoToWeek(b);
                }
            },
            _ => {},
        }
    }

    fn toggle_option_exec(&mut self, options: &Vec<GroupOptionItem>, i: usize)
        requires
            old(self).wf(),
            option_views(options@) == group_options(old(self)@),
        ensures
            final(self).wf(),
            final(self)@ == toggle_option(old(self)@, i as int),
            final(self).config == old(self).config,
    {
        if i < options.len() {
            let key = &options[i].key;
            proof {
                self.selected_groups.lemma_view_is_sorted_set();
            }
            if self.selected_groups.contains(key.as_str()) {
                self.selected_groups.remove(key.as_str());
            } else {
                self.selected_groups.insert(key.clone());
            }
            self.selected_event_index = 0;
        }
    }

    fn group_key(&mut self, key: Key)
        requires
            old(self).wf(),
            old(self)@.modal == ModalView::GroupFilter,
        ensures
            final(self).wf(),
            final(self)@ == group_step(old(self)@, key),
            final(self).config == old(self).config,
    {
        let options = self.get_group_options();
        if same_key(key, Key::Esc) || same_key(key, Key::Enter) || key_is(key, 'q') || key_is(
            key,
            'g',
        ) || key_is(key, 'f') {
            let msg = if self.selected_groups.is_empty() {
                String::from_str("Visar alla grupper.")
            } else {
                String::from_str("Aktiva gruppfilter: ").concat(
                    self.selected_groups_display().as_str(),
                )
            };
            self.set_status(msg);
            self.modal = Modal::Closed;
        } else if same_key(key, Key::Up) || key_is(key, 'k') {
            if self.selected_group_index > 0 {
                self.selected_group_index = self.selected_group_index - 1;
            }
        } else if same_key(key, Key::Down) || key_is(key, 'j') {
            if self.selected_group_index < options.len() && self.selected_group_index
                < options.len() - 1 {
                self.selected_group_index = self.selected_group_index + 1;
            }
        } else if key_is(key, ' ') {
            let i = self.selected_group_index;
            self.toggle_option_exec(&options, i);
        } else if key_is(key, 'c') {
            self.selected_groups.clear();
            self.selected_event_index = 0;
            self.set_status(String::from_str("Alla gruppfilter rensade (visar alla grupper)."));
        } else if key_is(key, 'a') {
            if self.selected_groups.len() >= options.len() {
                self.selected_groups.clear();
            } else {
                let ghost start = self@.selected_groups.to_set();
                let ghost keys = option_keys(option_views(options@));
                let ghost s0 = self@;
                let ghost c0 = self.config;
                let mut i: usize = 0;
                while i < options.len()
                    invariant
                        i <= options@.len(),
                        self.wf(),
                        self.config == c0,
                        self@ == (AppView { selected_groups: self@.selected_groups, ..s0 }),
                        keys == option_keys(option_views(options@)),
                        self.selected_groups.members() == start.union(keys.take(i as int).to_set()),
                    decreases options@.len() - i,
                {
                    self.selected_groups.insert(options[i].key.clone());
                    proof {
                        assert(keys.take(i + 1) =~= keys.take(i as int) + seq![keys[i as int]]);
                        Seq::lemma_to_set_insert_commutes(keys.take(i as int), keys[i as int]);
                        assert(start.union(keys.take(i + 1).to_set()) =~= start.union(
                            keys.take(i as int).to_set(),
                        ).insert(keys[i as int]));
                    }
                    i = i + 1;
                }
                proof {
                    assert(keys.take(options@.len() as int) =~= keys);
                    self.selected_groups.lemma_view_is_sorted_set();
                }
            }
            self.selected_event_index = 0;
        } else {
            match key {
                Key::Char(c) => {
                    if '1' <= c && c <= '9' {
                        let i = (c as u32 - '1' as u32) as usize;
                        self.toggle_option_exec(&options, i);
                    }
                },
                _ => {},
            }
        }
    }

    fn pick_profile_exec(&mut self, i: usize) -> (a: KeyAction)
        requires
            old(self).wf(),
        ensures
            final(self).wf(),
            (final(self)@, a@) == pick_profile(old(self)@, i as int),
    {
        if i < self.config.profiles.len() {
            let keys = self.config.profiles.keys();
            let key = keys[i].clone();
            self.begin_profile_switch(key.as_str());
            self.modal = Modal::Closed;
            KeyAction::LoadProfile
        } else {
            KeyAction::Nothing
        }
    }

    fn profile_key(&mut self, key: Key) -> (a: KeyAction)
        requires
            old(self).wf(),
            old(self)@.modal == ModalView::SwitchProfile,
        ensures
            final(self).wf(),
            (final(self)@, a@) == profile_step(old(self)@, key),
    {
        let n = self.config.profiles.len();
        if same_key(key, Key::Esc) || key_is(key, 'q') || key_is(key, 's') {
            self.modal = Modal::Closed;
            KeyAction::Nothing
        } else if same_key(key, Key::Up) || key_is(key, 'k') {
            if self.selected_profile_index > 0 {
                self.selected_profile_index = self.selected_profile_index - 1;
            }
            KeyAction::Nothing
        } else if same_key(key, Key::Down) || key_is(key, 'j') {
            if self.selected_profile_index < n && self.selected_profile_index < n - 1 {
                self.selected_profile_index = self.selected_profile_index + 1;
            }
            KeyAction::Nothing
        } else if same_key(key, Key::Enter) {
            let i = self.selected_profile_index;
            let a = self.pick_profile_exec(i);
            self.modal = Modal::Closed;
            a
        } else {
            match key {
                Key::Char(c) => {
                    if '0' <= c && c <= '9' {
                        let i: usize = if c == '0' {
                            0
                        } else {
                            (c as u32 - '1' as u32) as usize
                        };
                        self.pick_profile_exec(i)
                    } else {
                        KeyAction::Nothing
                    }
                },
                _ => KeyAction::Nothing,
            }
        }
    }

    fn open_link(&mut self) -> (a: KeyAction)
        ensures
            (final(self)@, a@) == open_link_step(old(self)@),
            final(self).config == old(self).config,
            final(self).selected_groups == old(self).selected_groups,
    {
        let url = match self.get_selected_event() {
            Some(e) => if e.urls.len() > 0 {
                Some(e.urls[0].clone())
            } else {
                None
            },
            None => None,
        };
        match url {
            Some(u) => KeyAction::OpenLink(u),
            None => {
                self.set_status(
                    String::from_str("Ingen webblänk hittades i den markerade händelsen."),
                );
                KeyAction::Nothing
            },
        }
    }

    fn details_key(&mut self, key: Key) -> (a: KeyAction)
        requires
            old(self)@.modal == ModalView::EventDetails,
        ensures
            (final(self)@, a@) == details_step(old(self)@, key),
            final(self).config == old(self).config,
            final(self).selected_groups == old(self).selected_groups,
    {
        if same_key(key, Key::Esc) || same_key(key, Key::Enter) || key_is(key, 'q') || key_is(
            key,
            'd',
        ) {
            self.modal = Modal::Closed;
            KeyAction::Nothing
        } else if key_is(key, 'w') || key_is(key, 'u') {
            self.open_link()
        } else if key_is(key, 'o') {
            KeyAction::OpenSchedule
        } else {
            KeyAction::Nothing
        }
    }

    fn help_key(&mut self, key: Key)
        requires
            old(self)@.modal == ModalView::Help,
        ensures
            final(self)@ == help_step(old(self)@, key),
            final(self).config == old(self).config,
            final(self).selected_groups == old(self).selected_groups,
    {
        if same_key(key, Key::Esc) || same_key(key, Key::Enter) || key_is(key, 'q') || key_is(
            key,
            '?',
        ) {
            self.modal = Modal::Closed;
        }
    }

    fn set_mode(&mut self, m: ViewMode)
        ensures
            final(self)@ == set_mode_view(old(self)@, m),
            final(self).config == old(self).config,
            final(self).selected_groups == old(self).selected_groups,
    {
        self.view_mode = m;
        self.selected_event_index = 0;
    }

    fn main_key(&mut self, key: Key, today: &str, current_week: u32) -> (a: KeyAction)
        requires
            old(self)@.modal == ModalView::Closed,
        ensures
            (final(self)@, a@) == main_step(old(self)@, key, today@, current_week),
            final(self).config == old(self).config,
            final(self).selected_groups == old(self).selected_groups,
    {
        if key_is(key, 'q') {
            self.should_quit = true;
        } else if same_key(key, Key::Tab) {
            self.next_mode();
        } else if same_key(key, Key::BackTab) {
            let m = match self.view_mode {
                ViewMode::Week => ViewMode::Courses,
                ViewMode::Timeline => ViewMode::Week,
                ViewMode::Day => ViewMode::Timeline,
                ViewMode::Courses => ViewMode::Day,
            };
            self.set_mode(m);
        } else if key_is(key, '1') {
            self.set_mode(ViewMode::Week);
        } else if key_is(key, '2') {
            self.set_mode(ViewMode::Timeline);
        } else if key_is(key, '3') {
            self.set_mode(ViewMode::Day);
        } else if key_is(key, '4') {
            self.set_mode(ViewMode::Courses);
        } else if same_key(key, Key::Down) || key_is(key, 'j') {
            if self.view_mode == ViewMode::Courses {
                let p = self.config.profiles.len();
                let count = if p > 5 {
                    p
                } else {
                    5
                };
                if self.selected_course_index < count - 1 {
                    self.selected_course_index = self.selected_course_index + 1;
                }
            } else {
                self.next_event();
            }
        } else if same_key(key, Key::Up) || key_is(key, 'k') {
            if self.view_mode == ViewMode::Courses {
                if self.selected_course_index > 0 {
                    self.selected_course_index = self.selected_course_index - 1;
                }
            } else {
                self.prev_event();
            }
        } else if same_key(key, Key::Right) || key_is(key, 'l') || key_is(key, 'n') {
            if self.view_mode == ViewMode::Day {
                self.next_day();
            } else {
                self.next_week();
            }
        } else if same_key(key, Key::Left) || key_is(key, 'h') || key_is(key, 'p') {
            if self.view_mode == ViewMode::Day {
                self.prev_day();
            } else {
                self.prev_week();
            }
        } else if key_is(key, 't') {
            self.jump_to_today(today, current_week);
        } else if key_is(key, 'w') {
            self.modal = Modal::GoToWeek(String::new());
        } else if key_is(key, '/') {
            self.search_input_buffer = self.search_query.clone();
            self.modal = Modal::Search;
        } else if key_is(key, 'g') || key_is(key, 'f') {
            self.modal = Modal::GroupFilter;
        } else if same_key(key, Key::Esc) {
            if self.search_query.unicode_len() > 0 {
                self.search_query = String::new();
                self.set_status(String::from_str("Sökfilter rensat."));
            }
        } else if key_is(key, 's') {
            self.modal = Modal::SwitchProfile;
        } else if key_is(key, 'r') {
            self.set_status(String::from_str("Hämtar nytt schema från servern..."));
            return KeyAction::Reload;
        } else if same_key(key, Key::Enter) || key_is(key, 'd') || key_is(key, ' ') {
            self.modal = Modal::EventDetails;
        } else if key_is(key, 'o') {
            self.set_status(String::from_str("Öppnade schemat i webbläsaren."));
            return KeyAction::OpenSchedule;
        } else if key_is(key, 'u') {
            return self.open_link();
        } else if key_is(key, '?') || same_key(key, Key::F(1)) {
            self.modal = Modal::Help;
        }
        KeyAction::Nothing
    }

    /// Handles a key press (see `key_step`): updates the state and says what
    /// the caller is to do.  `today` is today's date as YYYY-MM-DD and
    /// `current_week` the current ISO week number.
    pub fn handle_key(&mut self, key: Key, today: &str, current_week: u32) -> (a: KeyAction)
        requires
            old(self).wf(),
        ensures
            final(self).wf(),
            (final(self)@, a@) == key_step(old(self)@, key, today@, current_week),
    {
        match &self.modal {
            Modal::Search => {
                self.search_key(key);
                KeyAction::Nothing
            },
            Modal::GoToWeek(buf) => {
                let b = buf.clone();
                self.goto_key(key, b);
                KeyAction::Nothing
            },
            Modal::GroupFilter => {
                self.group_key(key);
                KeyAction::Nothing
            },
            Modal::SwitchProfile => self.profile_key(key),
            Modal::Help => {
                self.help_key(key);
                KeyAction::Nothing
            },
            Modal::EventDetails => self.details_key(key),
            Modal::Closed => self.main_key(key, today, current_week),
        }
    }
}

// ---------------------------------------------------------------------------
// Course overview
// ---------------------------------------------------------------------------

/// Statistics of one course over the shown events: how many events, how many
/// of each kind, the minutes of exercise, the rooms and teachers in order of
/// first appearance, and the dates of its first and last event.
#[derive(Debug, Clone)]
pub struct CourseSummary {
    pub course: String,
    pub event_count: usize,
    pub lectures: usize,
    pub exercises: usize,
    pub exercise_minutes: u128,
    pub labs: usize,
    pub exams: usize,
    pub rooms: Vec<String>,
    pub signatures: Vec<String>,
    pub first_date: String,
    pub last_date: String,
}

pub struct CourseSummaryView {
    pub course: Seq<char>,
    pub event_count: nat,
    pub lectures: nat,
    pub exercises: nat,
    pub exercise_minutes: nat,
    pub labs: nat,
    pub exams: nat,
    pub rooms: Seq<Seq<char>>,
    pub signatures: Seq<Seq<char>>,
    pub first_date: Seq<char>,
    pub last_date: Seq<char>,
}

impl View for CourseSummary {
    type V = CourseSummaryView;

    open spec fn view(&self) -> CourseSummaryView {
        CourseSummaryView {
            course: self.course@,
            event_count: self.event_count as nat,
            lectures: self.lectures as nat,
            exercises: self.exercises as nat,
            exercise_minutes: self.exercise_minutes as nat,
            labs: self.labs as nat,
            exams: self.exams as nat,
            rooms: string_views(self.rooms@),
            signatures: string_views(self.signatures@),
            first_date: self.first_date@,
            last_date: self.last_date@,
        }
    }
}

/// The events of the course, in order.
pub open spec fn course_events(es: Seq<EventView>, c: Seq<char>) -> Seq<EventView>
    decreases es.len(),
{
    if es.len() == 0 {
        Seq::empty()
    } else {
        let r = course_events(es.drop_last(), c);
        if es.last().course == c {
            r.push(es.last())
        } else {
            r
        }
    }
}

/// How many of the events are of the kind.
pub open spec fn count_kind(es: Seq<EventView>, k: ActivityView) -> nat
    decreases es.len(),
{
    if es.len() == 0 {
        0
    } else {
        count_kind(es.drop_last(), k) + if es.last().activity_type == k {
            1nat
        } else {
            0nat
        }
    }
}

/// The texts without repeats, in order of first appearance.
pub open spec fn distinct_in_order(items: Seq<Seq<char>>) -> Seq<Seq<char>>
    decreases items.len(),
{
    if items.len() == 0 {
        Seq::empty()
    } else {
        let r = distinct_in_order(items.drop_last());
        if r.contains(items.last()) {
            r
        } else {
            r.push(items.last())
        }
    }
}

/// The rooms of the events, event by event.
pub open spec fn all_rooms(es: Seq<EventView>) -> Seq<Seq<char>>
    decreases es.len(),
{
    if es.len() == 0 {
        Seq::empty()
    } else {
        all_rooms(es.drop_last()) + es.last().rooms
    }
}

/// The signatures of the events, event by event.
pub open spec fn all_signatures(es: Seq<EventView>) -> Seq<Seq<char>>
    decreases es.len(),
{
    if es.len() == 0 {
        Seq::empty()
    } else {
        all_signatures(es.drop_last()) + es.last().signatures
    }
}

/// The whole minutes from the start to the end of the event; 0 where either
/// time is not an `HH:MM` time or the end comes before the start.
pub open spec fn event_minutes(e: EventView) -> nat {
    match (clock_seconds(e.start_time), clock_seconds(e.end_time)) {
        (Some(s), Some(t)) => if t >= s {
            ((t - s) / 60) as nat
        } else {
            0
        },
        _ => 0,
    }
}

/// The minutes of the events of the kind, added up.
pub open spec fn kind_minutes(es: Seq<EventView>, k: ActivityView) -> nat
    decreases es.len(),
{
    if es.len() == 0 {
        0
    } else {
        kind_minutes(es.drop_last(), k) + if es.last().activity_type == k {
            event_minutes(es.last())
        } else {
            0nat
        }
    }
}

/// The minutes of the event, as `event_minutes` says.
fn minutes_of(e: &Event) -> (m: u128)
    ensures
        m as nat == event_minutes(e@),
        m < 1440,
{
    let s = parse_clock(e.start_time.as_str());
    let t = parse_clock(e.end_time.as_str());
    match (s, t) {
        (Some(a), Some(b)) => if b >= a {
            ((b - a) / 60) as u128
        } else {
            0
        },
        _ => 0,
    }
}

/// The statistics of course `c` over its events `es`.
pub open spec fn summary_of(c: Seq<char>, es: Seq<EventView>) -> CourseSummaryView {
    CourseSummaryView {
        course: c,
        event_count: es.len(),
        lectures: count_kind(es, ActivityView::Lecture),
        exercises: count_kind(es, ActivityView::Exercise),
        exercise_minutes: kind_minutes(es, ActivityView::Exercise),
        labs: count_kind(es, ActivityView::Lab),
        exams: count_kind(es, ActivityView::Exam),
        rooms: distinct_in_order(all_rooms(es)),
        signatures: distinct_in_order(all_signatures(es)),
        first_date: if es.len() > 0 {
            es[0].full_date
        } else {
            "-"@
        },
        last_date: if es.len() > 0 {
            es.last().full_date
        } else {
            "-"@
        },
    }
}

/// The courses of the shown events in increasing name order, each with its
/// statistics.
pub open spec fn course_overview(s: AppView) -> Seq<CourseSummaryView> {
    let all = all_events(s);
    sorted_set(all.map_values(|e: EventView| e.course).to_set()).map_values(
        |c: Seq<char>| summary_of(c, course_events(all, c)),
    )
}

/// Whether `x` is among the strings.
fn has_string(v: &Vec<String>, x: &String) -> (b: bool)
    ensures
        b == string_views(v@).contains(x@),
{
    let ghost sv = string_views(v@);
    let mut i: usize = 0;
    while i < v.len()
        invariant
            i <= v@.len(),
            sv == string_views(v@),
            forall|m: int| 0 <= m < i ==> sv[m] != x@,
        decreases v@.len() - i,
    {
        if v[i] == *x {
            assert(sv[i as int] == x@);
            return true;
        }
        i = i + 1;
    }
    false
}

/// Adds to `acc` each of `items` that it does not hold yet.
fn add_distinct(acc: &mut Vec<String>, items: &Vec<String>)
    ensures
        string_views(final(acc)@) == distinct_extend(string_views(old(acc)@), string_views(items@)),
{
    let ghost a0 = string_views(acc@);
    let ghost iv = string_views(items@);
    let mut j: usize = 0;
    while j < items.len()
        invariant
            j <= items@.len(),
            iv == string_views(items@),
            string_views(acc@) == distinct_extend(a0, iv.take(j as int)),
        decreases items@.len() - j,
    {
        assert(iv.take(j + 1).drop_last() =~= iv.take(j as int));
        assert(iv.take(j + 1).last() == items@[j as int]@);
        if !has_string(acc, &items[j]) {
            let ghost before = string_views(acc@);
            acc.push(items[j].clone());
            assert(string_views(acc@) =~= before.push(items@[j as int]@));
        }
        j = j + 1;
    }
    assert(iv.take(items@.len() as int) =~= iv);
}

/// `acc` extended by each of `items` that it does not hold yet.
pub open spec fn distinct_extend(acc: Seq<Seq<char>>, items: Seq<Seq<char>>) -> Seq<Seq<char>>
    decreases items.len(),
{
    if items.len() == 0 {
        acc
    } else {
        let r = distinct_extend(acc, items.drop_last());
        if r.contains(items.last()) {
            r
        } else {
            r.push(items.last())
        }
    }
}

proof fn lemma_distinct_extend_concat(a: Seq<Seq<char>>, b: Seq<Seq<char>>)
    ensures
        distinct_extend(distinct_in_order(a), b) == distinct_in_order(a + b),
    decreases b.len(),
{
    if b.len() == 0 {
        assert(a + b =~= a);
    } else {
        lemma_distinct_extend_concat(a, b.drop_last());
        assert((a + b).drop_last() =~= a + b.drop_last());
        assert((a + b).last() == b.last());
    }
}

/// The statistics of course `c` over the events.
fn summary_for(events: &Vec<&Event>, c: &String) -> (res: CourseSummary)
    ensures
        res@ == summary_of(c@, course_events(ref_views(events@), c@)),
{
    let ghost ev = ref_views(events@);
    let mut count: usize = 0;
    let mut lectures: usize = 0;
    let mut exercises: usize = 0;
    let mut exercise_minutes: u128 = 0;
    let mut labs: usize = 0;
    let mut exams: usize = 0;
    let mut rooms: Vec<String> = Vec::new();
    let mut signatures: Vec<String> = Vec::new();
    let mut first_date: Option<String> = None;
    let mut last_date: Option<String> = None;
    let mut i: usize = 0;
    while i < events.len()
        invariant
            i <= events@.len(),
            ev == ref_views(events@),
            count as nat == course_events(ev.take(i as int), c@).len(),
            count <= i,
            lectures as nat == count_kind(course_events(ev.take(i as int), c@), ActivityView::Lecture),
            exercises as nat == count_kind(course_events(ev.take(i as int), c@), ActivityView::Exercise),
            exercise_minutes as nat == kind_minutes(
                course_events(ev.take(i as int), c@),
                ActivityView::Exercise,
            ),
            exercise_minutes <= 1440 * exercises,
            labs as nat == count_kind(course_events(ev.take(i as int), c@), ActivityView::Lab),
            exams as nat == count_kind(course_events(ev.take(i as int), c@), ActivityView::Exam),
            lectures <= count && exercises <= count && labs <= count && exams <= count,
            string_views(rooms@) == distinct_in_order(all_rooms(course_events(ev.take(i as int), c@))),
            string_views(signatures@) == distinct_in_order(
                all_signatures(course_events(ev.take(i as int), c@)),
            ),
            count == 0 ==> first_date is None && last_date is None,
            count > 0 ==> first_date is Some && last_date is Some && first_date->0@ == course_events(
                ev.take(i as int),
                c@,
            )[0].full_date && last_date->0@ == course_events(ev.take(i as int), c@).last().full_date,
        decreases events@.len() - i,
    {
        let e = events[i];
        let ghost prev = course_events(ev.take(i as int), c@);
        assert(ev.take(i + 1).drop_last() =~= ev.take(i as int));
        assert(ev.take(i + 1).last() == e@);
        if e.course == *c {
            let ghost next = prev.push(e@);
            assert(course_events(ev.take(i + 1), c@) == next);
            assert(next.drop_last() =~= prev);
            count = count + 1;
            match &e.activity_type {
                ActivityType::Lecture => {
                    lectures = lectures + 1;
                },
                ActivityType::Exercise => {
                    exercises = exercises + 1;
                    exercise_minutes = exercise_minutes + minutes_of(e);
                },
                ActivityType::Lab => {
                    labs = labs + 1;
                },
                ActivityType::Exam => {
                    exams = exams + 1;
                },
                _ => {},
            }
            proof {
                lemma_distinct_extend_concat(all_rooms(prev), e@.rooms);
                lemma_distinct_extend_concat(all_signatures(prev), e@.signatures);
            }
            add_distinct(&mut rooms, &e.rooms);
            add_distinct(&mut signatures, &e.signatures);
            if first_date.is_none() {
                first_date = Some(e.full_date.clone());
            }
            last_date = Some(e.full_date.clone());
        }
        i = i + 1;
    }
    assert(ev.take(events@.len() as int) =~= ev);
    let fd = match first_date {
        Some(d) => d,
        None => String::from_str("-"),
    };
    let ld = match last_date {
        Some(d) => d,
        None => String::from_str("-"),
    };
    CourseSummary {
        course: c.clone(),
        event_count: count,
        lectures: lectures,
        exercises: exercises,
        exercise_minutes: exercise_minutes,
        labs: labs,
        exams: exams,
        rooms: rooms,
        signatures: signatures,
        first_date: fd,
        last_date: ld,
    }
}

impl App {
    /// The course overview: the courses of the shown events in increasing
    /// name order, each with its statistics.
    pub fn course_summaries(&self) -> (res: Vec<CourseSummary>)
        ensures
            res@.map_values(|c: CourseSummary| c@) == course_overview(self@),
    {
        let events = self.get_all_filtered_events();
        let ghost all = ref_views(events@);
        let ghost names = all.map_values(|e: EventView| e.course);
        let mut courses = GroupSet::new();
        let mut i: usize = 0;
        while i < events.len()
            invariant
                i <= events@.len(),
                all == ref_views(events@),
                names == all.map_values(|e: EventView| e.course),
                courses.wf(),
                courses.members() == names.take(i as int).to_set(),
            decreases events@.len() - i,
        {
            courses.insert(events[i].course.clone());
            proof {
                assert(names.take(i + 1) =~= names.take(i as int) + seq![names[i as int]]);
                Seq::lemma_to_set_insert_commutes(names.take(i as int), names[i as int]);
            }
            i = i + 1;
        }
        proof {
            assert(names.take(events@.len() as int) =~= names);
            courses.lemma_view_is_sorted_set();
        }
        let keys = courses.items();
        let ghost cs = string_views(keys@);
        let mut res: Vec<CourseSummary> = Vec::new();
        let mut k: usize = 0;
        while k < keys.len()
            invariant
                k <= keys@.len(),
                cs == string_views(keys@),
                all == ref_views(events@),
                res@.map_values(|c: CourseSummary| c@) == cs.take(k as int).map_values(
                    |c: Seq<char>| summary_of(c, course_events(all, c)),
                ),
            decreases keys@.len() - k,
        {
            let summary = summary_for(&events, &keys[k]);
            let ghost before = res@.map_values(|c: CourseSummary| c@);
            res.push(summary);
            assert(res@.map_values(|c: CourseSummary| c@) =~= before.push(summary@));
            assert(cs.take(k + 1).map_values(|c: Seq<char>| summary_of(c, course_events(all, c)))
                =~= cs.take(k as int).map_values(|c: Seq<char>| summary_of(c, course_events(all, c))).push(
                summary_of(cs[k as int], course_events(all, cs[k as int])),
            ));
            k = k + 1;
        }
        assert(cs.take(keys@.len() as int) =~= cs);
        res
    }
}

// ---------------------------------------------------------------------------
// Command-line listings
// ---------------------------------------------------------------------------

/// The events, in order, that satisfy the date or week condition and are
/// shown under the group filters: on `date` where one is given, else in week
/// number `week` (of any year).
pub open spec fn listed_events(
    es: Seq<EventView>,
    date: Option<Seq<char>>,
    week: u32,
    groups: Seq<Seq<char>>,
) -> Seq<EventView>
    decreases es.len(),
{
    if es.len() == 0 {
        Seq::empty()
    } else {
        let r = listed_events(es.drop_last(), date, week, groups);
        let e = es.last();
        let wanted = match date {
            Some(d) => e.full_date == d,
            None => e.week == week,
        };
        if wanted && groups_match(e.groups, groups) {
            r.push(e)
        } else {
            r
        }
    }
}

fn listed_exec<'a>(events: &'a Vec<Event>, date: Option<&String>, week: u32, groups: &GroupSet) -> (res:
    Vec<&'a Event>)
    ensures
        ref_views(res@) == listed_events(
            event_views(events@),
            match date {
                Some(d) => Some(d@),
                None => None,
            },
            week,
            groups@,
        ),
{
    let ghost ev = event_views(events@);
    let ghost dv = match date {
        Some(d) => Some(d@),
        None => None,
    };
    let mut res: Vec<&'a Event> = Vec::new();
    let mut i: usize = 0;
    while i < events.len()
        invariant
            i <= events@.len(),
            ev == event_views(events@),
            dv == (match date {
                Some(d) => Some(d@),
                None => None,
            }),
            ref_views(res@) == listed_events(ev.take(i as int), dv, week, groups@),
        decreases events@.len() - i,
    {
        let e = &events[i];
        assert(ev.take(i + 1).drop_last() =~= ev.take(i as int));
        assert(ev.take(i + 1).last() == e@);
        let wanted = match date {
            Some(d) => e.full_date == *d,
            None => e.week == week,
        };
        if wanted && e.matches_groups(groups.items()) {
            let ghost before = ref_views(res@);
            res.push(e);
            assert(ref_views(res@) =~= before.push(e@));
        }
        i = i + 1;
    }
    assert(ev.take(events@.len() as int) =~= ev);
    res
}

/// The events on the date (YYYY-MM-DD) that the group filters show, in order:
/// the listing of `--today`.
pub fn events_on_date<'a>(events: &'a Vec<Event>, date: &str, groups: &GroupSet) -> (res: Vec<
    &'a Event,
>)
    ensures
        ref_views(res@) == listed_events(event_views(events@), Some(date@), 0, groups@),
{
    let d = String::from_str(date);
    listed_exec(events, Some(&d), 0, groups)
}

/// The events of week number `week` (of any year) that the group filters
/// show, in order: the listing of `--week`.
pub fn events_in_week_number<'a>(events: &'a Vec<Event>, week: u32, groups: &GroupSet) -> (res: Vec<
    &'a Event,
>)
    ensures
        ref_views(res@) == listed_events(event_views(events@), None, week, groups@),
{
    listed_exec(events, None, week, groups)
}

} // verus!
