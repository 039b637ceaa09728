//! Events of a KronoX schedule page: how a row of the page becomes an event,
//! how an event is classified, described and filtered, and how the whole page
//! becomes a schedule.
use vstd::prelude::*;
use vstd::string::StringExecFns;
use crate::text::{
    chars_of, concat, contains, contains_chars, decimal, decimal_chars, find, find_chars_from,
    is_digit, join, join_space, parse_u32_chars, parse_u32_spec, replace_all, replace_chars,
    slice_chars, split, split_chars, starts_with, starts_with_chars, string_of, to_lowercase,
    to_uppercase, trim, trim_chars, trim_end_set, trim_end_set_chars, trim_set, trim_set_chars,
    unicode_lower, unicode_upper, words, words_chars, zero_padded, zero_padded_chars,
    is_swedish_text, swedish_lower, is_ascii_text, ascii_upper,
};
use crate::html::{
    opt_str_view,
    element_views, html_select, join_url, opt_view, select_elements, string_views, url_join, HtmlElement,
    HtmlElementView,
};

verus! {

// ---------------------------------------------------------------------------
// Activity types
// ---------------------------------------------------------------------------

/// The kind of a scheduled activity, read from its "moment" text.
#[derive(Debug, Clone, PartialEq, Eq)]
pub enum ActivityType {
    Lecture,
    Exercise,
    Lab,
    Exam,
    Seminar,
    Other(String),
}

pub enum ActivityView {
    Lecture,
    Exercise,
    Lab,
    Exam,
    Seminar,
    Other(Seq<char>),
}

impl View for ActivityType {
    type V = ActivityView;

    open spec fn view(&self) -> ActivityView {
        match self {
            ActivityType::Lecture => ActivityView::Lecture,
            ActivityType::Exercise => ActivityView::Exercise,
            ActivityType::Lab => ActivityView::Lab,
            ActivityType::Exam => ActivityView::Exam,
            ActivityType::Seminar => ActivityView::Seminar,
            ActivityType::Other(s) => ActivityView::Other(s@),
        }
    }
}

/// The activity that a moment text denotes, given the moment in lower case.
pub open spec fn classify(lower: Seq<char>, moment: Seq<char>) -> ActivityView {
    if contains(lower, "föreläs"@) || contains(lower, "forelas"@) || contains(lower, "intro"@)
        || contains(lower, "uppstart"@) {
        ActivityView::Lecture
    } else if contains(lower, "övn"@) || contains(lower, "ovn"@) || contains(lower, "räknestuga"@)
        || contains(lower, "handledning"@) || contains(lower, "workshop"@) {
        ActivityView::Exercise
    } else if contains(lower, "lab"@) {
        ActivityView::Lab
    } else if contains(lower, "tent"@) || contains(lower, "dugga"@) || contains(lower, "prov"@)
        || contains(lower, "examination"@) {
        ActivityView::Exam
    } else if contains(lower, "seminar"@) {
        ActivityView::Seminar
    } else {
        ActivityView::Other(moment)
    }
}

pub open spec fn display_name_of(a: ActivityView) -> Seq<char> {
    match a {
        ActivityView::Lecture => "Föreläsning"@,
        ActivityView::Exercise => "Övning"@,
        ActivityView::Lab => "Laboration"@,
        ActivityView::Exam => "Tentamen"@,
        ActivityView::Seminar => "Seminarium"@,
        ActivityView::Other(_) => "Övrigt"@,
    }
}

pub open spec fn icon_of(a: ActivityView) -> Seq<char> {
    match a {
        ActivityView::Lecture => "🎓"@,
        ActivityView::Exercise => "✏️"@,
        ActivityView::Lab => "🔬"@,
        ActivityView::Exam => "📝"@,
        ActivityView::Seminar => "💬"@,
        ActivityView::Other(_) => "📌"@,
    }
}

/// Whether the text `p` occurs in the characters `l`.
fn has(l: &[char], p: &str) -> (b: bool)
    ensures
        b == contains(l@, p@),
{
    let pv = chars_of(p);
    contains_chars(l, pv.as_slice())
}

impl ActivityType {
    /// The activity that the moment text describes.
    pub fn from_moment(moment: &str) -> (res: ActivityType)
        ensures
            res@ == classify(unicode_lower(moment@), moment@),
            is_swedish_text(moment@) ==> res@ == classify(swedish_lower(moment@), moment@),
    {
        let lower = to_lowercase(moment);
        let l = chars_of(lower.as_str());
        let l = l.as_slice();
        if has(l, "föreläs") || has(l, "forelas") || has(l, "intro") || has(l, "uppstart") {
            ActivityType::Lecture
        } else if has(l, "övn") || has(l, "ovn") || has(l, "räknestuga") || has(l, "handledning")
            || has(l, "workshop") {
            ActivityType::Exercise
        } else if has(l, "lab") {
            ActivityType::Lab
        } else if has(l, "tent") || has(l, "dugga") || has(l, "prov") || has(l, "examination") {
            ActivityType::Exam
        } else if has(l, "seminar") {
            ActivityType::Seminar
        } else {
            ActivityType::Other(String::from_str(moment))
        }
    }

    /// The Swedish name of the activity kind.
    pub fn display_name(&self) -> (r: &str)
        ensures
            r@ == display_name_of(self@),
    {
        match self {
            ActivityType::Lecture => "Föreläsning",
            ActivityType::Exercise => "Övning",
            ActivityType::Lab => "Laboration",
            ActivityType::Exam => "Tentamen",
            ActivityType::Seminar => "Seminarium",
            ActivityType::Other(_) => "Övrigt",
        }
    }

    /// The symbol shown beside the activity kind.
    pub fn icon(&self) -> (r: &str)
        ensures
            r@ == icon_of(self@),
    {
        match self {
            ActivityType::Lecture => "🎓",
            ActivityType::Exercise => "✏️",
            ActivityType::Lab => "🔬",
            ActivityType::Exam => "📝",
            ActivityType::Seminar => "💬",
            ActivityType::Other(_) => "📌",
        }
    }

    /// Whether two activity types are equal.
    pub fn same_as(&self, other: &ActivityType) -> (b: bool)
        ensures
            b == (self@ == other@),
    {
        match (self, other) {
            (ActivityType::Lecture, ActivityType::Lecture) => true,
            (ActivityType::Exercise, ActivityType::Exercise) => true,
            (ActivityType::Lab, ActivityType::Lab) => true,
            (ActivityType::Exam, ActivityType::Exam) => true,
            (ActivityType::Seminar, ActivityType::Seminar) => true,
            (ActivityType::Other(a), ActivityType::Other(b)) => a.eq(b),
            _ => false,
        }
    }
}

// ---------------------------------------------------------------------------
// Course codes, groups, links and dates
// ---------------------------------------------------------------------------

/// The course name before the first comma, trimmed.
pub open spec fn course_code_of(course: Seq<char>) -> Seq<char> {
    match find(course, seq![',']) {
        Some(k) => trim(course.take(k)),
        None => trim(course),
    }
}

/// The short course name: the text before the first comma, trimmed.
pub fn extract_course_code(course: &str) -> (res: String)
    ensures
        res@ == course_code_of(course@),
{
    let c = chars_of(course);
    let comma: [char; 1] = [','];
    assert(comma@ =~= seq![',']);
    match find_chars_from(c.as_slice(), comma.as_slice(), 0) {
        Some(k) => {
            let head = slice_chars(c.as_slice(), 0, k);
            let t = trim_chars(head.as_slice());
            string_of(t.as_slice())
        },
        None => {
            let t = trim_chars(c.as_slice());
            string_of(t.as_slice())
        },
    }
}

/// The group names that the schedule writes in moment texts.
pub open spec fn group_patterns() -> Seq<Seq<char>> {
    seq![
        "grupp 1"@, "grupp 2"@, "grupp 3"@, "grupp 4"@, "grupp 5"@, "grupp 6"@,
        "grupp 7"@, "grupp 8"@, "grupp 9"@, "grupp 10"@, "grupp 11"@, "grupp 12"@,
        "grupp a"@, "grupp b"@, "grupp c"@, "grupp d"@, "grupp e"@, "grupp f"@, "grupp g"@,
        "grupp h"@, "grupp i"@, "grupp j"@, "grupp k"@, "grupp l"@,
        "grupp a och b"@, "grupp c och d"@, "grupp e och f"@, "grupp g och h"@,
        "grupp a/b"@, "grupp c/d"@, "grupp e/f"@, "grupp g/h"@,
        "grupp 1 och 2"@, "grupp 3 och 4"@, "grupp 5 och 6"@,
        "grupp 1/2"@, "grupp 3/4"@, "grupp 5/6"@,
        "pgrp1"@, "pgrp2"@, "pgrp3"@,
    ]
}

/// The patterns among `pats` that occur in `lower`, in the order of `pats`.
pub open spec fn patterns_in(pats: Seq<Seq<char>>, lower: Seq<char>) -> Seq<Seq<char>>
    decreases pats.len(),
{
    if pats.len() == 0 {
        Seq::empty()
    } else {
        let r = patterns_in(pats.drop_last(), lower);
        if contains(lower, pats.last()) {
            r.push(pats.last())
        } else {
            r
        }
    }
}

fn group_pattern_list() -> (v: Vec<&'static str>)
    ensures
        v@.map_values(|p: &str| p@) == group_patterns(),
{
    let v: Vec<&'static str> = vec![
        "grupp 1", "grupp 2", "grupp 3", "grupp 4", "grupp 5", "grupp 6",
        "grupp 7", "grupp 8", "grupp 9", "grupp 10", "grupp 11", "grupp 12",
        "grupp a", "grupp b", "grupp c", "grupp d", "grupp e", "grupp f", "grupp g",
        "grupp h", "grupp i", "grupp j", "grupp k", "grupp l",
        "grupp a och b", "grupp c och d", "grupp e och f", "grupp g och h",
        "grupp a/b", "grupp c/d", "grupp e/f", "grupp g/h",
        "grupp 1 och 2", "grupp 3 och 4", "grupp 5 och 6",
        "grupp 1/2", "grupp 3/4", "grupp 5/6",
        "pgrp1", "pgrp2", "pgrp3",
    ];
    assert(v@.map_values(|p: &str| p@) =~= group_patterns());
    v
}

/// The group names that occur in the moment text, ignoring case.
pub fn extract_groups(moment: &str) -> (res: Vec<String>)
    ensures
        string_views(res@) == patterns_in(group_patterns(), unicode_lower(moment@)),
{
    let lower = to_lowercase(moment);
    let l = chars_of(lower.as_str());
    let pats = group_pattern_list();
    let ghost pv = pats@.map_values(|p: &str| p@);
    let mut res: Vec<String> = Vec::new();
    let mut i: usize = 0;
    while i < pats.len()
        invariant
            i <= pats@.len(),
            pv == pats@.map_values(|p: &str| p@),
            l@ == unicode_lower(moment@),
            string_views(res@) == patterns_in(pv.take(i as int), l@),
        decreases pats@.len() - i,
    {
        let p = pats[i];
        assert(pv.take(i + 1).drop_last() =~= pv.take(i as int));
        if has(l.as_slice(), p) {
            res.push(String::from_str(p));
            assert(string_views(res@) =~= patterns_in(pv.take(i as int), l@).push(p@));
        }
        i = i + 1;
    }
    assert(pv.take(pats@.len() as int) =~= pv);
    res
}

/// The characters that are stripped from the end of a link.
pub open spec fn link_end_chars() -> Seq<char> {
    seq![',', '.', ';', ')', '>', ']']
}

/// The links among the words `ws`, without trailing punctuation.
pub open spec fn links_in(ws: Seq<Seq<char>>) -> Seq<Seq<char>>
    decreases ws.len(),
{
    if ws.len() == 0 {
        Seq::empty()
    } else {
        let r = links_in(ws.drop_last());
        let w = ws.last();
        if starts_with(w, "http://"@) || starts_with(w, "https://"@) {
            r.push(trim_end_set(w, link_end_chars()))
        } else {
            r
        }
    }
}

/// The web links written in the text: each whitespace-separated word that
/// starts with `http://` or `https://`, without trailing punctuation.
pub fn extract_urls(text: &str) -> (res: Vec<String>)
    ensures
        string_views(res@) == links_in(words(text@)),
{
    let t = chars_of(text);
    let ws = words_chars(t.as_slice());
    let ghost wv = ws@.map_values(|v: Vec<char>| v@);
    let http = chars_of("http://");
    let https = chars_of("https://");
    let ends: [char; 6] = [',', '.', ';', ')', '>', ']'];
    assert(ends@ =~= link_end_chars());
    let mut res: Vec<String> = Vec::new();
    let mut i: usize = 0;
    while i < ws.len()
        invariant
            i <= ws@.len(),
            wv == ws@.map_values(|v: Vec<char>| v@),
            wv == words(text@),
            http@ == "http://"@,
            https@ == "https://"@,
            ends@ == link_end_chars(),
            string_views(res@) == links_in(wv.take(i as int)),
        decreases ws@.len() - i,
    {
        let w = ws[i].as_slice();
        assert(wv.take(i + 1).drop_last() =~= wv.take(i as int));
        assert(wv.take(i + 1).last() == w@);
        if starts_with_chars(w, http.as_slice()) || starts_with_chars(w, https.as_slice()) {
            let clean = trim_end_set_chars(w, ends.as_slice());
            res.push(string_of(clean.as_slice()));
            assert(string_views(res@) =~= links_in(wv.take(i as int)).push(
                trim_end_set(w@, link_end_chars()),
            ));
        }
        i = i + 1;
    }
    assert(wv.take(ws@.len() as int) =~= wv);
    res
}

/// The month that a (lower-case) month abbreviation names, or 0.
pub open spec fn month_number(m: Seq<char>) -> u32 {
    if m == "jan"@ {
        1
    } else if m == "feb"@ {
        2
    } else if m == "mar"@ || m == "mår"@ {
        3
    } else if m == "apr"@ {
        4
    } else if m == "maj"@ || m == "may"@ {
        5
    } else if m == "jun"@ {
        6
    } else if m == "jul"@ {
        7
    } else if m == "aug"@ {
        8
    } else if m == "sep"@ {
        9
    } else if m == "okt"@ || m == "oct"@ {
        10
    } else if m == "nov"@ {
        11
    } else if m == "dec"@ {
        12
    } else {
        0
    }
}

/// `YYYY-MM-DD` for a date written as day number and month abbreviation
/// ("31 Aug"), in the given year; any other text is kept as it is.
pub open spec fn full_date_of(date: Seq<char>, year: u32) -> Seq<char> {
    let parts = words(date);
    if parts.len() >= 2 {
        match parse_u32_spec(parts[0]) {
            Some(day) => {
                let m = month_number(unicode_lower(parts[1]));
                if m > 0 {
                    zero_padded(year as nat, 4) + seq!['-'] + zero_padded(m as nat, 2) + seq!['-']
                        + zero_padded(day as nat, 2)
                } else {
                    date
                }
            },
            None => date,
        }
    } else {
        date
    }
}

fn month_of(m: &str) -> (r: u32)
    ensures
        r == month_number(m@),
{
    let s = String::from_str(m);
    if s == String::from_str("jan") {
        1
    } else if s == String::from_str("feb") {
        2
    } else if s == String::from_str("mar") || s == String::from_str("mår") {
        3
    } else if s == String::from_str("apr") {
        4
    } else if s == String::from_str("maj") || s == String::from_str("may") {
        5
    } else if s == String::from_str("jun") {
        6
    } else if s == String::from_str("jul") {
        7
    } else if s == String::from_str("aug") {
        8
    } else if s == String::from_str("sep") {
        9
    } else if s == String::from_str("okt") || s == String::from_str("oct") {
        10
    } else if s == String::from_str("nov") {
        11
    } else if s == String::from_str("dec") {
        12
    } else {
        0
    }
}

/// The ISO date (`YYYY-MM-DD`) of a date such as "31 Aug" in the given year;
/// text that is not such a date is returned unchanged.
pub fn resolve_full_date(date_str: &str, year: u32) -> (res: String)
    ensures
        res@ == full_date_of(date_str@, year),
{
    let d = chars_of(date_str);
    let parts = words_chars(d.as_slice());
    proof {
        assert(parts@.map_values(|v: Vec<char>| v@) == words(date_str@));
    }
    if parts.len() >= 2 {
        assert(parts@[0]@ == words(date_str@)[0]);
        assert(parts@[1]@ == words(date_str@)[1]);
        match parse_u32_chars(parts[0].as_slice()) {
            Some(day) => {
                let name = string_of(parts[1].as_slice());
                let lower = to_lowercase(name.as_str());
                let m = month_of(lower.as_str());
                if m > 0 {
                    let y = zero_padded_chars(year as u64, 4);
                    let mm = zero_padded_chars(m as u64, 2);
                    let dd = zero_padded_chars(day as u64, 2);
                    let a = concat(y.as_slice(), &['-']);
                    let b = concat(a.as_slice(), mm.as_slice());
                    let c = concat(b.as_slice(), &['-']);
                    let e = concat(c.as_slice(), dd.as_slice());
                    assert(e@ =~= zero_padded(year as nat, 4) + seq!['-'] + zero_padded(m as nat, 2)
                        + seq!['-'] + zero_padded(day as nat, 2));
                    return string_of(e.as_slice());
                }
            },
            None => {},
        }
    }
    String::from_str(date_str)
}

// ---------------------------------------------------------------------------
// Rooms
// ---------------------------------------------------------------------------

/// The building (and floor) of a room code, given the code in upper case.
pub open spec fn building_of(r: Seq<char>) -> Seq<char> {
    if r.len() == 0 {
        Seq::empty()
    } else {
        let first = r[0];
        let floor = if r.len() > 1 && is_digit(r[1]) {
            "Plan "@.push(r[1])
        } else {
            Seq::empty()
        };
        let building = if first == 'A' {
            "Hus A (Balder)"@
        } else if first == 'B' {
            "Hus B (Balder)"@
        } else if first == 'C' {
            "Hus C (Balder)"@
        } else if first == 'D' {
            "Hus D (Balder)"@
        } else if first == 'E' {
            "Hus E (Balder)"@
        } else if first == 'J' {
            "Hus J (Balder)"@
        } else if first == 'M' {
            "Hus M (Sandgärdet)"@
        } else if first == 'S' {
            "Hus S (Sandgärdet)"@
        } else if first == 'T' {
            "Textile Fashion Center"@
        } else if first == 'K' {
            "Kårhuset"@
        } else {
            Seq::empty()
        };
        let remote = !(first == 'A' || first == 'B' || first == 'C' || first == 'D' || first
            == 'E' || first == 'J' || first == 'M' || first == 'S' || first == 'T' || first
            == 'K') && (contains(r, "ZOOM"@) || contains(r, "ONLINE"@) || contains(
            r,
            "DISTANS"@,
        ));
        if remote {
            "Distans / Zoom"@
        } else if building.len() == 0 {
            Seq::empty()
        } else if floor.len() > 0 {
            building + ", "@ + floor
        } else {
            building
        }
    }
}

fn building_name(first: char) -> (r: &'static str)
    ensures
        r@ == (if first == 'A' {
            "Hus A (Balder)"@
        } else if first == 'B' {
            "Hus B (Balder)"@
        } else if first == 'C' {
            "Hus C (Balder)"@
        } else if first == 'D' {
            "Hus D (Balder)"@
        } else if first == 'E' {
            "Hus E (Balder)"@
        } else if first == 'J' {
            "Hus J (Balder)"@
        } else if first == 'M' {
            "Hus M (Sandgärdet)"@
        } else if first == 'S' {
            "Hus S (Sandgärdet)"@
        } else if first == 'T' {
            "Textile Fashion Center"@
        } else if first == 'K' {
            "Kårhuset"@
        } else {
            Seq::empty()
        }),
{
    proof {
        reveal_strlit("");
    }
    if first == 'A' {
        "Hus A (Balder)"
    } else if first == 'B' {
        "Hus B (Balder)"
    } else if first == 'C' {
        "Hus C (Balder)"
    } else if first == 'D' {
        "Hus D (Balder)"
    } else if first == 'E' {
        "Hus E (Balder)"
    } else if first == 'J' {
        "Hus J (Balder)"
    } else if first == 'M' {
        "Hus M (Sandgärdet)"
    } else if first == 'S' {
        "Hus S (Sandgärdet)"
    } else if first == 'T' {
        "Textile Fashion Center"
    } else if first == 'K' {
        "Kårhuset"
    } else {
        ""
    }
}

/// Where on campus a room is: its building, and its floor when the second
/// character of the room code is a digit ("M404" is "Hus M (Sandgärdet),
/// Plan 4"); remote rooms are "Distans / Zoom"; unknown rooms give "".
pub fn get_building_description(room: &str) -> (res: String)
    ensures
        res@ == building_of(unicode_upper(trim(room@))),
        is_ascii_text(trim(room@)) ==> res@ == building_of(ascii_upper(trim(room@))),
{
    let rc = chars_of(room);
    let t = trim_chars(rc.as_slice());
    let ts = string_of(t.as_slice());
    let upper = to_uppercase(ts.as_str());
    let r = chars_of(upper.as_str());
    if r.len() == 0 {
        return String::new();
    }
    let first = r[0];
    let known = first == 'A' || first == 'B' || first == 'C' || first == 'D' || first == 'E'
        || first == 'J' || first == 'M' || first == 'S' || first == 'T' || first == 'K';
    if !known && (has(r.as_slice(), "ZOOM") || has(r.as_slice(), "ONLINE") || has(
        r.as_slice(),
        "DISTANS",
    )) {
        return String::from_str("Distans / Zoom");
    }
    let building = building_name(first);
    if building.unicode_len() == 0 {
        return String::new();
    }
    if r.len() > 1 && '0' <= r[1] && r[1] <= '9' {
        let b = String::from_str(building);
        let b = b.concat(", ");
        let mut floor = chars_of("Plan ");
        floor.push(r[1]);
        let fs = string_of(floor.as_slice());
        let res = b.concat(fs.as_str());
        assert(res@ =~= building@ + ", "@ + "Plan "@.push(r@[1]));
        res
    } else {
        String::from_str(building)
    }
}

// ---------------------------------------------------------------------------
// Durations
// ---------------------------------------------------------------------------

/// What `chrono::NaiveTime::parse_from_str(s, "%H:%M")` yields, as seconds
/// since midnight, or `None` where the text is not such a time.
pub uninterp spec fn clock_seconds(s: Seq<char>) -> Option<u32>;

/// A time "HH:MM" written with two digits each, hours below 24 and minutes
/// below 60.
pub open spec fn is_hhmm(s: Seq<char>) -> bool {
    &&& s.len() == 5
    &&& is_digit(s[0]) && is_digit(s[1]) && s[2] == ':' && is_digit(s[3]) && is_digit(s[4])
    &&& (s[0] as int - '0' as int) * 10 + (s[1] as int - '0' as int) < 24
    &&& (s[3] as int - '0' as int) * 10 + (s[4] as int - '0' as int) < 60
}

/// The seconds since midnight of such a time.
pub open spec fn hhmm_seconds(s: Seq<char>) -> int {
    ((s[0] as int - '0' as int) * 10 + (s[1] as int - '0' as int)) * 3600 + ((s[3] as int
        - '0' as int) * 10 + (s[4] as int - '0' as int)) * 60
}

/// Calls `chrono::NaiveTime::parse_from_str` with the format `%H:%M` and
/// reads the parsed time with `Timelike::num_seconds_from_midnight`.  The
/// result is named `clock_seconds`; chrono documents that a time of day is
/// below 86400 seconds, and a well-formed "HH:MM" is read as that hour and
/// minute.
#[verifier::external_body]
pub(crate) fn parse_clock(s: &str) -> (res: Option<u32>)
    ensures
        res == clock_seconds(s@),
        res matches Some(t) ==> t < 86400,
        is_hhmm(s@) ==> res == Some(hhmm_seconds(s@) as u32),
{
    chrono::NaiveTime::parse_from_str(s, "%H:%M").ok().map(
        |t| chrono::Timelike::num_seconds_from_midnight(&t),
    )
}

/// The length of the span from `start` to `end` (seconds since midnight) as
/// "3h 45m", "2h" or "45m"; empty unless the span is at least a minute.
pub open spec fn duration_text(start: Option<u32>, end: Option<u32>) -> Seq<char> {
    match (start, end) {
        (Some(s), Some(e)) => {
            let diff = e - s;
            if diff >= 60 {
                let mins = diff / 60;
                let h = mins / 60;
                let m = mins % 60;
                if h > 0 && m > 0 {
                    decimal(h as nat) + "h "@ + decimal(m as nat) + "m"@
                } else if h > 0 {
                    decimal(h as nat) + "h"@
                } else {
                    decimal(m as nat) + "m"@
                }
            } else {
                Seq::empty()
            }
        },
        _ => Seq::empty(),
    }
}

/// The text of the span between two times of day given as seconds since
/// midnight (see `duration_text`).
pub fn duration_between(start: Option<u32>, end: Option<u32>) -> (res: String)
    requires
        start matches Some(s) ==> s < 86400,
        end matches Some(e) ==> e < 86400,
    ensures
        res@ == duration_text(start, end),
{
    match (start, end) {
        (Some(s), Some(e)) => {
            if e >= s && e - s >= 60 {
                let mins = (e - s) / 60;
                let h = mins / 60;
                let m = mins % 60;
                if h > 0 && m > 0 {
                    let hv = decimal_chars(h as u64);
                    let mv = decimal_chars(m as u64);
                    let a = string_of(hv.as_slice()).concat("h ");
                    let ms = string_of(mv.as_slice());
                    let res = a.concat(ms.as_str()).concat("m");
                    assert(res@ =~= decimal(h as nat) + "h "@ + decimal(m as nat) + "m"@);
                    res
                } else if h > 0 {
                    let hv = decimal_chars(h as u64);
                    string_of(hv.as_slice()).concat("h")
                } else {
                    let mv = decimal_chars(m as u64);
                    string_of(mv.as_slice()).concat("m")
                }
            } else {
                String::new()
            }
        },
        _ => String::new(),
    }
}

/// The duration between two `HH:MM` times, such as "3h 45m" from "08:15" to
/// "12:00"; empty when either is not a time or the end is not at least a
/// minute after the start.
pub fn compute_duration(start: &str, end: &str) -> (res: String)
    ensures
        res@ == duration_text(clock_seconds(start@), clock_seconds(end@)),
        is_hhmm(start@) && is_hhmm(end@) ==> res@ == duration_text(
            Some(hhmm_seconds(start@) as u32),
            Some(hhmm_seconds(end@) as u32),
        ),
{
    let s = parse_clock(start);
    let e = parse_clock(end);
    duration_between(s, e)
}

// ---------------------------------------------------------------------------
// Events
// ---------------------------------------------------------------------------

/// One scheduled activity.
#[derive(Debug, Clone)]
pub struct Event {
    pub week: u32,
    pub week_year: u32,
    pub day: String,
    pub date: String,
    pub full_date: String,
    pub time_span: String,
    pub start_time: String,
    pub end_time: String,
    pub duration_display: String,
    pub course: String,
    pub course_code: String,
    pub signatures: Vec<String>,
    pub rooms: Vec<String>,
    pub aids: String,
    pub moment: String,
    pub activity_type: ActivityType,
    pub groups: Vec<String>,
    pub urls: Vec<String>,
    pub updated: String,
}

pub struct EventView {
    pub week: u32,
    pub week_year: u32,
    pub day: Seq<char>,
    pub date: Seq<char>,
    pub full_date: Seq<char>,
    pub time_span: Seq<char>,
    pub start_time: Seq<char>,
    pub end_time: Seq<char>,
    pub duration_display: Seq<char>,
    pub course: Seq<char>,
    pub course_code: Seq<char>,
    pub signatures: Seq<Seq<char>>,
    pub rooms: Seq<Seq<char>>,
    pub aids: Seq<char>,
    pub moment: Seq<char>,
    pub activity_type: ActivityView,
    pub groups: Seq<Seq<char>>,
    pub urls: Seq<Seq<char>>,
    pub updated: Seq<char>,
}

impl View for Event {
    type V = EventView;

    open spec fn view(&self) -> EventView {
        EventView {
            week: self.week,
            week_year: self.week_year,
            day: self.day@,
            date: self.date@,
            full_date: self.full_date@,
            time_span: self.time_span@,
            start_time: self.start_time@,
            end_time: self.end_time@,
            duration_display: self.duration_display@,
            course: self.course@,
            course_code: self.course_code@,
            signatures: string_views(self.signatures@),
            rooms: string_views(self.rooms@),
            aids: self.aids@,
            moment: self.moment@,
            activity_type: self.activity_type@,
            groups: string_views(self.groups@),
            urls: string_views(self.urls@),
            updated: self.updated@,
        }
    }
}

/// A room with its building description in brackets, when it has one.
pub open spec fn room_info(r: Seq<char>) -> Seq<char> {
    let d = building_of(unicode_upper(trim(r)));
    if d.len() == 0 {
        r
    } else {
        r + " ("@ + d + ")"@
    }
}

/// Each room with its building description.
pub open spec fn room_infos(rooms: Seq<Seq<char>>) -> Seq<Seq<char>> {
    rooms.map_values(|r: Seq<char>| room_info(r))
}

/// Some item, in lower case, contains `q`.
pub open spec fn any_contains(items: Seq<Seq<char>>, q: Seq<char>) -> bool {
    exists|i: int| 0 <= i < items.len() && contains(unicode_lower(#[trigger] items[i]), q)
}

/// Whether the event matches a free-text search: an empty query matches
/// everything; otherwise the query, ignoring case, must occur in the course,
/// moment, day, date, time span, activity name, a room, a signature or a group.
pub open spec fn filter_matches(e: EventView, query: Seq<char>) -> bool {
    query.len() == 0 || {
        let q = unicode_lower(query);
        ||| contains(unicode_lower(e.course), q)
        ||| contains(unicode_lower(e.moment), q)
        ||| contains(unicode_lower(e.day), q)
        ||| contains(unicode_lower(e.date), q)
        ||| contains(e.time_span, q)
        ||| contains(unicode_lower(display_name_of(e.activity_type)), q)
        ||| any_contains(e.rooms, q)
        ||| any_contains(e.signatures, q)
        ||| any_contains(e.groups, q)
    }
}

/// A group filter that selects every group.
pub open spec fn is_wildcard(g: Seq<char>) -> bool {
    g.len() == 0 || g == "alla"@ || g == "all"@ || g == "*"@
}

/// The group filters that select something, trimmed and in lower case.
pub open spec fn active_filters(fs: Seq<Seq<char>>) -> Seq<Seq<char>>
    decreases fs.len(),
{
    if fs.len() == 0 {
        Seq::empty()
    } else {
        let r = active_filters(fs.drop_last());
        let g = unicode_lower(trim(fs.last()));
        if is_wildcard(g) {
            r
        } else {
            r.push(g)
        }
    }
}

/// Text of exactly one byte in UTF-8: one ASCII character.
pub open spec fn single_byte(s: Seq<char>) -> bool {
    s.len() == 1 && (s[0] as u32) < 128
}

/// Whether the (lower-case) filter `gf` selects the event group `g`: one
/// contains the other, or the filter is a single letter or digit that the
/// group names as "grupp <filter>".
pub open spec fn group_hits(gf: Seq<char>, g: Seq<char>) -> bool {
    let gl = unicode_lower(g);
    ||| contains(gl, gf)
    ||| contains(gf, gl)
    ||| single_byte(gf) && (contains(gl, "grupp "@ + gf) || contains(
        gl,
        "grupp "@ + unicode_upper(gf),
    ))
}

/// Whether an event with the given groups is shown under the given group
/// filters: always when no filter selects anything or the event names no
/// group, and otherwise when some filter selects some group of the event.
pub open spec fn groups_match(groups: Seq<Seq<char>>, filters: Seq<Seq<char>>) -> bool {
    let fl = active_filters(filters);
    ||| fl.len() == 0
    ||| groups.len() == 0
    ||| exists|i: int, j: int|
        0 <= i < fl.len() && 0 <= j < groups.len() && group_hits(#[trigger] fl[i], #[trigger] groups[j])
}

/// Some item of `items`, in lower case, contains `q`.
fn any_lower_contains(items: &Vec<String>, q: &[char]) -> (b: bool)
    ensures
        b == any_contains(string_views(items@), q@),
{
    let ghost iv = string_views(items@);
    let mut i: usize = 0;
    while i < items.len()
        invariant
            i <= items@.len(),
            iv == string_views(items@),
            forall|k: int| 0 <= k < i ==> !contains(unicode_lower(#[trigger] iv[k]), q@),
        decreases items@.len() - i,
    {
        let l = to_lowercase(items[i].as_str());
        let lc = chars_of(l.as_str());
        if contains_chars(lc.as_slice(), q) {
            assert(iv[i as int] == items@[i as int]@);
            return true;
        }
        i = i + 1;
    }
    false
}

/// Whether the lower-case form of `s` contains `q`.
fn lower_contains(s: &str, q: &[char]) -> (b: bool)
    ensures
        b == contains(unicode_lower(s@), q@),
{
    let l = to_lowercase(s);
    let lc = chars_of(l.as_str());
    contains_chars(lc.as_slice(), q)
}

/// Whether `s` is a wildcard group filter.
fn wildcard(s: &String) -> (b: bool)
    ensures
        b == is_wildcard(s@),
{
    s.unicode_len() == 0 || *s == String::from_str("alla") || *s == String::from_str("all") || *s
        == String::from_str("*")
}

/// The group filters that select something, trimmed and in lower case.
pub fn active_group_filters(filters: &Vec<String>) -> (res: Vec<String>)
    ensures
        string_views(res@) == active_filters(string_views(filters@)),
{
    let ghost fv = string_views(filters@);
    let mut res: Vec<String> = Vec::new();
    let mut i: usize = 0;
    while i < filters.len()
        invariant
            i <= filters@.len(),
            fv == string_views(filters@),
            string_views(res@) == active_filters(fv.take(i as int)),
        decreases filters@.len() - i,
    {
        let c = chars_of(filters[i].as_str());
        let t = trim_chars(c.as_slice());
        let ts = string_of(t.as_slice());
        let g = to_lowercase(ts.as_str());
        assert(fv.take(i + 1).drop_last() =~= fv.take(i as int));
        assert(fv.take(i + 1).last() == filters@[i as int]@);
        if !wildcard(&g) {
            res.push(g);
            assert(string_views(res@) =~= active_filters(fv.take(i as int)).push(
                unicode_lower(trim(fv[i as int])),
            ));
        }
        i = i + 1;
    }
    assert(fv.take(filters@.len() as int) =~= fv);
    res
}

/// Whether the filter `gf` (lower case) selects the group `g`.
fn group_hit(gf: &String, g: &String) -> (b: bool)
    ensures
        b == group_hits(gf@, g@),
{
    let gl = to_lowercase(g.as_str());
    let glc = chars_of(gl.as_str());
    let gfc = chars_of(gf.as_str());
    if contains_chars(glc.as_slice(), gfc.as_slice()) || contains_chars(
        gfc.as_slice(),
        glc.as_slice(),
    ) {
        return true;
    }
    if gfc.len() == 1 && (gfc[0] as u32) < 128 {
        let prefix = chars_of("grupp ");
        let p1 = concat(prefix.as_slice(), gfc.as_slice());
        let up = to_uppercase(gf.as_str());
        let upc = chars_of(up.as_str());
        let p2 = concat(prefix.as_slice(), upc.as_slice());
        return contains_chars(glc.as_slice(), p1.as_slice()) || contains_chars(
            glc.as_slice(),
            p2.as_slice(),
        );
    }
    false
}

impl Event {
    /// Each room with its building description, as "M404 (Hus M (Sandgärdet),
    /// Plan 4)", or the bare room where there is no description.
    pub fn room_info_formatted(&self) -> (res: Vec<String>)
        ensures
            string_views(res@) == room_infos(self@.rooms),
    {
        let ghost rv = self@.rooms;
        let mut res: Vec<String> = Vec::new();
        let mut i: usize = 0;
        while i < self.rooms.len()
            invariant
                i <= self.rooms@.len(),
                rv == string_views(self.rooms@),
                string_views(res@) == room_infos(rv.take(i as int)),
            decreases self.rooms@.len() - i,
        {
            let r = &self.rooms[i];
            let desc = get_building_description(r.as_str());
            let item = if desc.unicode_len() == 0 {
                r.clone()
            } else {
                let a = r.clone().concat(" (");
                a.concat(desc.as_str()).concat(")")
            };
            assert(rv[i as int] == r@);
            assert(item@ == room_info(r@));
            let ghost before = string_views(res@);
            res.push(item);
            assert(string_views(res@) =~= before.push(item@));
            assert(room_infos(rv.take(i + 1)) =~= room_infos(rv.take(i as int)).push(room_info(rv[i as int])));
            i = i + 1;
        }
        assert(rv.take(self.rooms@.len() as int) =~= rv);
        res
    }

    /// Whether the event matches a free-text search (see `filter_matches`).
    pub fn matches_filter(&self, query: &str) -> (b: bool)
        ensures
            b == filter_matches(self@, query@),
    {
        if query.unicode_len() == 0 {
            return true;
        }
        let ql = to_lowercase(query);
        let q = chars_of(ql.as_str());
        let q = q.as_slice();
        let ts = chars_of(self.time_span.as_str());
        lower_contains(self.course.as_str(), q) || lower_contains(self.moment.as_str(), q)
            || lower_contains(self.day.as_str(), q) || lower_contains(self.date.as_str(), q)
            || contains_chars(ts.as_slice(), q) || lower_contains(
            self.activity_type.display_name(),
            q,
        ) || any_lower_contains(&self.rooms, q) || any_lower_contains(&self.signatures, q)
            || any_lower_contains(&self.groups, q)
    }

    /// Whether the event is shown under the single group filter.
    pub fn matches_group(&self, group_filter: &str) -> (b: bool)
        ensures
            b == groups_match(self@.groups, seq![group_filter@]),
    {
        let mut set: Vec<String> = Vec::new();
        set.push(String::from_str(group_filter));
        assert(string_views(set@) =~= seq![group_filter@]);
        self.matches_groups(&set)
    }

    /// Whether the event is shown under the group filters (see `groups_match`).
    pub fn matches_groups(&self, group_filters: &Vec<String>) -> (b: bool)
        ensures
            b == groups_match(self@.groups, string_views(group_filters@)),
    {
        let fl = active_group_filters(group_filters);
        let ghost flv = string_views(fl@);
        let ghost gv = self@.groups;
        if fl.len() == 0 || self.groups.len() == 0 {
            return true;
        }
        let mut i: usize = 0;
        while i < fl.len()
            invariant
                i <= fl@.len(),
                flv == string_views(fl@),
                flv == active_filters(string_views(group_filters@)),
                gv == string_views(self.groups@),
                forall|a: int, c: int|
                    0 <= a < i && 0 <= c < gv.len() ==> !group_hits(#[trigger] flv[a], #[trigger] gv[c]),
            decreases fl@.len() - i,
        {
            let mut j: usize = 0;
            while j < self.groups.len()
                invariant
                    i < fl@.len(),
                    j <= self.groups@.len(),
                    flv == string_views(fl@),
                    flv == active_filters(string_views(group_filters@)),
                    gv == string_views(self.groups@),
                    forall|a: int, c: int|
                        0 <= a < i && 0 <= c < gv.len() ==> !group_hits(#[trigger] flv[a], #[trigger] gv[c]),
                    forall|c: int| 0 <= c < j ==> !group_hits(flv[i as int], #[trigger] gv[c]),
                decreases self.groups@.len() - j,
            {
                if group_hit(&fl[i], &self.groups[j]) {
                    assert(group_hits(flv[i as int], gv[j as int]));
                    assert(flv == active_filters(string_views(group_filters@)));
                    assert(exists|a: int, c: int|
                        0 <= a < flv.len() && 0 <= c < gv.len() && group_hits(
                            #[trigger] flv[a],
                            #[trigger] gv[c],
                        ));
                    return true;
                }
                j = j + 1;
            }
            i = i + 1;
        }
        false
    }
}

// ---------------------------------------------------------------------------
// Schedules
// ---------------------------------------------------------------------------

/// A week of the schedule: its number, year, the date of its first event and
/// how many events it has.
#[derive(Debug, Clone)]
pub struct WeekInfo {
    pub week_number: u32,
    pub year: u32,
    pub date_span: String,
    pub event_count: usize,
}

pub struct WeekInfoView {
    pub week_number: u32,
    pub year: u32,
    pub date_span: Seq<char>,
    pub event_count: nat,
}

impl View for WeekInfo {
    type V = WeekInfoView;

    open spec fn view(&self) -> WeekInfoView {
        WeekInfoView {
            week_number: self.week_number,
            year: self.year,
            date_span: self.date_span@,
            event_count: self.event_count as nat,
        }
    }
}

/// What the page says about itself.
#[derive(Debug, Clone)]
pub struct ScheduleMetadata {
    pub program_info: String,
    pub date_range: String,
    pub printed_at: String,
    pub ical_url: Option<String>,
}

pub struct ScheduleMetadataView {
    pub program_info: Seq<char>,
    pub date_range: Seq<char>,
    pub printed_at: Seq<char>,
    pub ical_url: Option<Seq<char>>,
}

impl View for ScheduleMetadata {
    type V = ScheduleMetadataView;

    open spec fn view(&self) -> ScheduleMetadataView {
        ScheduleMetadataView {
            program_info: self.program_info@,
            date_range: self.date_range@,
            printed_at: self.printed_at@,
            ical_url: opt_view(self.ical_url),
        }
    }
}

/// A parsed schedule: the page's metadata, its events in page order, and its
/// weeks in order of first appearance.
#[derive(Debug, Clone)]
pub struct Schedule {
    pub metadata: ScheduleMetadata,
    pub events: Vec<Event>,
    pub weeks: Vec<WeekInfo>,
}

pub struct ScheduleView {
    pub metadata: ScheduleMetadataView,
    pub events: Seq<EventView>,
    pub weeks: Seq<WeekInfoView>,
}

pub open spec fn event_views(v: Seq<Event>) -> Seq<EventView> {
    v.map_values(|e: Event| e@)
}

pub open spec fn week_views(v: Seq<WeekInfo>) -> Seq<WeekInfoView> {
    v.map_values(|w: WeekInfo| w@)
}

impl View for Schedule {
    type V = ScheduleView;

    open spec fn view(&self) -> ScheduleView {
        ScheduleView {
            metadata: self.metadata@,
            events: event_views(self.events@),
            weeks: week_views(self.weeks@),
        }
    }
}

/// The text of a cell: its text nodes joined by spaces, trimmed.
pub open spec fn cell_text(parts: Seq<Seq<char>>) -> Seq<char> {
    trim(join(parts, seq![' ']))
}

/// A cell's text without non-breaking spaces, written or encoded.
pub open spec fn clean_cell(parts: Seq<Seq<char>>) -> Seq<char> {
    replace_all(replace_all(cell_text(parts), "&nbsp;"@, Seq::empty()), seq!['\u{a0}'], Seq::empty())
}

/// The date range ("Datum:") and print time ("Utskrivet:") among the cells;
/// the last cell of each kind counts.
pub open spec fn page_dates(tds: Seq<HtmlElementView>) -> (Seq<char>, Seq<char>)
    decreases tds.len(),
{
    if tds.len() == 0 {
        (Seq::empty(), Seq::empty())
    } else {
        let prev = page_dates(tds.drop_last());
        let t = cell_text(tds.last().text);
        if starts_with(t, "Datum:"@) {
            (trim(replace_all(t, "Datum:"@, Seq::empty())), prev.1)
        } else if starts_with(t, "Utskrivet:"@) {
            (prev.0, trim(replace_all(t, "Utskrivet:"@, Seq::empty())))
        } else {
            prev
        }
    }
}

/// The program line: the first "big" cell without its "Program:" label.
pub open spec fn program_info_of(big: Seq<HtmlElementView>) -> Seq<char> {
    if big.len() > 0 {
        trim(replace_all(join(big[0].text, seq![' ']), "Program:"@, Seq::empty()))
    } else {
        Seq::empty()
    }
}

/// The calendar link: the last link to an `.ics` file, made absolute.
pub open spec fn ical_link(links: Seq<HtmlElementView>, base: Option<Seq<char>>) -> Option<Seq<char>>
    decreases links.len(),
{
    if links.len() == 0 {
        None
    } else {
        let prev = ical_link(links.drop_last(), base);
        match links.last().attr {
            Some(href) => if contains(href, "SchemaICAL.ics"@) || contains(href, ".ics"@) {
                if starts_with(href, "http"@) {
                    Some(href)
                } else {
                    match base {
                        Some(b) => match url_join(b, href) {
                            Some(j) => Some(j),
                            None => prev,
                        },
                        None => Some("https://schema.hb.se"@ + href),
                    }
                }
            } else {
                prev
            },
            None => prev,
        }
    }
}

/// The nonempty trimmed pieces, in order.
pub open spec fn trimmed_pieces(ps: Seq<Seq<char>>) -> Seq<Seq<char>>
    decreases ps.len(),
{
    if ps.len() == 0 {
        Seq::empty()
    } else {
        let r = trimmed_pieces(ps.drop_last());
        let t = trim(ps.last());
        if t.len() > 0 {
            r.push(t)
        } else {
            r
        }
    }
}

/// The start and end of a time span such as "08:15-10:00".
pub open spec fn span_ends(t: Seq<char>) -> (Seq<char>, Seq<char>) {
    match find(t, seq!['-']) {
        Some(k) => (trim(t.take(k)), trim(t.skip(k + 1))),
        None => (t, Seq::empty()),
    }
}

/// The event that a schedule row describes, in the given week, year, day
/// and date.
pub open spec fn event_of(
    cells: Seq<Seq<Seq<char>>>,
    week: u32,
    year: u32,
    day: Seq<char>,
    date: Seq<char>,
) -> EventView {
    let time_raw = clean_cell(cells[3]);
    let course_raw = cell_text(cells[4]);
    let moment = clean_cell(cells[8]);
    let ends = span_ends(time_raw);
    EventView {
        week: week,
        week_year: year,
        day: day,
        date: date,
        full_date: full_date_of(date, year),
        time_span: time_raw,
        start_time: ends.0,
        end_time: ends.1,
        duration_display: duration_text(clock_seconds(ends.0), clock_seconds(ends.1)),
        course: course_raw,
        course_code: course_code_of(course_raw),
        signatures: trimmed_pieces(split(clean_cell(cells[5]), ',')),
        rooms: trimmed_pieces(split(clean_cell(cells[6]), ',')),
        aids: clean_cell(cells[7]),
        moment: moment,
        activity_type: classify(unicode_lower(moment), moment),
        groups: patterns_in(group_patterns(), unicode_lower(moment)),
        urls: links_in(words(moment)),
        updated: if cells.len() > 9 {
            clean_cell(cells[9])
        } else {
            Seq::empty()
        },
    }
}

/// Where the scan of the rows stands: the current week, year, day and date,
/// and the events so far.
pub struct RowScan {
    pub week: u32,
    pub year: u32,
    pub day: Seq<char>,
    pub date: Seq<char>,
    pub events: Seq<EventView>,
}

/// A heading row "Vecka 36, 2026" sets the week and the year.
pub open spec fn week_heading(st: RowScan, text: Seq<char>) -> RowScan {
    match find(text, "Vecka"@) {
        Some(idx) => {
            let parts = words(text.skip(idx));
            let w = if parts.len() >= 2 {
                match parse_u32_spec(trim_set(parts[1], seq![','])) {
                    Some(w) => w,
                    None => st.week,
                }
            } else {
                st.week
            };
            let y = if parts.len() >= 3 {
                match parse_u32_spec(trim(parts[2])) {
                    Some(y) => y,
                    None => st.year,
                }
            } else {
                st.year
            };
            RowScan { week: w, year: y, day: st.day, date: st.date, events: st.events }
        },
        None => st,
    }
}

/// A data row (class "data-white" or "data-grey", at least nine cells) adds
/// an event; a row without class may be a week heading.
pub open spec fn scan_row(st: RowScan, row: HtmlElementView) -> RowScan {
    match row.attr {
        Some(class) => if (contains(class, "data-white"@) || contains(class, "data-grey"@))
            && row.cells.len() >= 9 {
            let day_raw = clean_cell(row.cells[1]);
            let date_raw = clean_cell(row.cells[2]);
            let day = if day_raw.len() > 0 {
                day_raw
            } else {
                st.day
            };
            let date = if date_raw.len() > 0 {
                date_raw
            } else {
                st.date
            };
            RowScan {
                week: st.week,
                year: st.year,
                day: day,
                date: date,
                events: st.events.push(event_of(row.cells, st.week, st.year, day, date)),
            }
        } else {
            st
        },
        None => week_heading(st, cell_text(row.text)),
    }
}

/// The scan after the given rows, starting in week 0 of 2026.
pub open spec fn scan_rows(rows: Seq<HtmlElementView>) -> RowScan
    decreases rows.len(),
{
    if rows.len() == 0 {
        RowScan { week: 0, year: 2026, day: Seq::empty(), date: Seq::empty(), events: Seq::empty() }
    } else {
        scan_row(scan_rows(rows.drop_last()), rows.last())
    }
}

/// The first index at or after `i` of the week with this number and year.
pub open spec fn week_index(ws: Seq<WeekInfoView>, week: u32, year: u32, i: int) -> Option<int>
    decreases ws.len() - i,
{
    if i < 0 || i >= ws.len() {
        None
    } else if ws[i].week_number == week && ws[i].year == year {
        Some(i)
    } else {
        week_index(ws, week, year, i + 1)
    }
}

/// The weeks of the events in order of first appearance, each with the date
/// of its first event and its number of events.
pub open spec fn weeks_of(events: Seq<EventView>) -> Seq<WeekInfoView>
    decreases events.len(),
{
    if events.len() == 0 {
        Seq::empty()
    } else {
        let ws = weeks_of(events.drop_last());
        let e = events.last();
        match week_index(ws, e.week, e.week_year, 0) {
            Some(k) => ws.update(
                k,
                WeekInfoView {
                    week_number: ws[k].week_number,
                    year: ws[k].year,
                    date_span: ws[k].date_span,
                    event_count: ws[k].event_count + 1,
                },
            ),
            None => ws.push(
                WeekInfoView {
                    week_number: e.week,
                    year: e.week_year,
                    date_span: e.date,
                    event_count: 1,
                },
            ),
        }
    }
}

/// The schedule described by the page's cells, "big" cells, links and rows.
pub open spec fn schedule_of(
    tds: Seq<HtmlElementView>,
    big: Seq<HtmlElementView>,
    links: Seq<HtmlElementView>,
    rows: Seq<HtmlElementView>,
    base: Option<Seq<char>>,
) -> ScheduleView {
    let events = scan_rows(rows).events;
    ScheduleView {
        metadata: ScheduleMetadataView {
            program_info: program_info_of(big),
            date_range: page_dates(tds).0,
            printed_at: page_dates(tds).1,
            ical_url: ical_link(links, base),
        },
        events: events,
        weeks: weeks_of(events),
    }
}

/// The text of a cell.
fn cell_text_exec(parts: &Vec<String>) -> (res: Vec<char>)
    ensures
        res@ == cell_text(string_views(parts@)),
{
    let j = join_space(parts);
    trim_chars(j.as_slice())
}

/// The cleaned text of a cell.
fn clean_cell_exec(parts: &Vec<String>) -> (res: String)
    ensures
        res@ == clean_cell(string_views(parts@)),
{
    proof {
        reveal_strlit("&nbsp;");
    }
    let t = cell_text_exec(parts);
    let nbsp = chars_of("&nbsp;");
    let empty: [char; 0] = [];
    assert(empty@ =~= Seq::<char>::empty());
    let a = replace_chars(t.as_slice(), nbsp.as_slice(), empty.as_slice());
    let nb: [char; 1] = ['\u{a0}'];
    assert(nb@ =~= seq!['\u{a0}']);
    let b = replace_chars(a.as_slice(), nb.as_slice(), empty.as_slice());
    string_of(b.as_slice())
}

fn strip_label(t: &[char], label: &str) -> (res: String)
    requires
        label@.len() > 0,
    ensures
        res@ == trim(replace_all(t@, label@, Seq::empty())),
{
    let l = chars_of(label);
    let empty: [char; 0] = [];
    assert(empty@ =~= Seq::<char>::empty());
    let r = replace_chars(t, l.as_slice(), empty.as_slice());
    let tr = trim_chars(r.as_slice());
    string_of(tr.as_slice())
}

fn page_dates_exec(tds: &Vec<HtmlElement>) -> (res: (String, String))
    ensures
        (res.0@, res.1@) == page_dates(element_views(tds@)),
{
    proof {
        reveal_strlit("Datum:");
        reveal_strlit("Utskrivet:");
    }
    let ghost tv = element_views(tds@);
    let mut date_range = String::new();
    let mut printed_at = String::new();
    let mut i: usize = 0;
    while i < tds.len()
        invariant
            i <= tds@.len(),
            tv == element_views(tds@),
            "Datum:"@.len() > 0,
            "Utskrivet:"@.len() > 0,
            (date_range@, printed_at@) == page_dates(tv.take(i as int)),
        decreases tds@.len() - i,
    {
        let t = cell_text_exec(&tds[i].text);
        let datum = chars_of("Datum:");
        let utskrivet = chars_of("Utskrivet:");
        assert(tv.take(i + 1).drop_last() =~= tv.take(i as int));
        assert(tv.take(i + 1).last() == tds@[i as int]@);
        if starts_with_chars(t.as_slice(), datum.as_slice()) {
            date_range = strip_label(t.as_slice(), "Datum:");
        } else if starts_with_chars(t.as_slice(), utskrivet.as_slice()) {
            printed_at = strip_label(t.as_slice(), "Utskrivet:");
        }
        i = i + 1;
    }
    assert(tv.take(tds@.len() as int) =~= tv);
    (date_range, printed_at)
}

fn program_info_exec(big: &Vec<HtmlElement>) -> (res: String)
    ensures
        res@ == program_info_of(element_views(big@)),
{
    proof {
        reveal_strlit("Program:");
    }
    if big.len() > 0 {
        let j = join_space(&big[0].text);
        strip_label(j.as_slice(), "Program:")
    } else {
        String::new()
    }
}

fn ical_link_exec(links: &Vec<HtmlElement>, base_url: Option<&str>) -> (res: Option<String>)
    ensures
        opt_view(res) == ical_link(element_views(links@), opt_str_view(base_url)),
{
    let ghost lv = element_views(links@);
    let ghost base = opt_str_view(base_url);
    let mut ical: Option<String> = None;
    let mut i: usize = 0;
    while i < links.len()
        invariant
            i <= links@.len(),
            lv == element_views(links@),
            base == opt_str_view(base_url),
            opt_view(ical) == ical_link(lv.take(i as int), base),
        decreases links@.len() - i,
    {
        assert(lv.take(i + 1).drop_last() =~= lv.take(i as int));
        assert(lv.take(i + 1).last() == links@[i as int]@);
        match &links[i].attr {
            Some(href) => {
                let h = chars_of(href.as_str());
                if has(h.as_slice(), "SchemaICAL.ics") || has(h.as_slice(), ".ics") {
                    let http = chars_of("http");
                    if starts_with_chars(h.as_slice(), http.as_slice()) {
                        ical = Some(href.clone());
                    } else {
                        match base_url {
                            Some(b) => {
                                match join_url(b, href.as_str()) {
                                    Some(j) => {
                                        ical = Some(j);
                                    },
                                    None => {},
                                }
                            },
                            None => {
                                ical = Some(String::from_str("https://schema.hb.se").concat(href.as_str()));
                            },
                        }
                    }
                }
            },
            None => {},
        }
        i = i + 1;
    }
    assert(lv.take(links@.len() as int) =~= lv);
    ical
}

/// The nonempty trimmed pieces as strings.
fn trimmed_pieces_exec(ps: &Vec<Vec<char>>) -> (res: Vec<String>)
    ensures
        string_views(res@) == trimmed_pieces(ps@.map_values(|v: Vec<char>| v@)),
{
    let ghost pv = ps@.map_values(|v: Vec<char>| v@);
    let mut res: Vec<String> = Vec::new();
    let mut i: usize = 0;
    while i < ps.len()
        invariant
            i <= ps@.len(),
            pv == ps@.map_values(|v: Vec<char>| v@),
            string_views(res@) == trimmed_pieces(pv.take(i as int)),
        decreases ps@.len() - i,
    {
        assert(pv.take(i + 1).drop_last() =~= pv.take(i as int));
        assert(pv.take(i + 1).last() == ps@[i as int]@);
        let t = trim_chars(ps[i].as_slice());
        if t.len() > 0 {
            let ghost before = string_views(res@);
            res.push(string_of(t.as_slice()));
            assert(string_views(res@) =~= before.push(t@));
        }
        i = i + 1;
    }
    assert(pv.take(ps@.len() as int) =~= pv);
    res
}

/// The nonempty trimmed pieces of a comma-separated list.
fn comma_list(s: &String) -> (res: Vec<String>)
    ensures
        string_views(res@) == trimmed_pieces(split(s@, ',')),
{
    let c = chars_of(s.as_str());
    let ps = split_chars(c.as_slice(), ',');
    trimmed_pieces_exec(&ps)
}

fn span_ends_exec(t: &String) -> (res: (String, String))
    ensures
        (res.0@, res.1@) == span_ends(t@),
{
    let c = chars_of(t.as_str());
    let dash: [char; 1] = ['-'];
    assert(dash@ =~= seq!['-']);
    match find_chars_from(c.as_slice(), dash.as_slice(), 0) {
        Some(k) => {
            assert(k + 1 <= c.len());
            let a = slice_chars(c.as_slice(), 0, k);
            let b = slice_chars(c.as_slice(), k + 1, c.len());
            let ta = trim_chars(a.as_slice());
            let tb = trim_chars(b.as_slice());
            assert(b@ =~= c@.skip(k + 1));
            (string_of(ta.as_slice()), string_of(tb.as_slice()))
        },
        None => (t.clone(), String::new()),
    }
}

/// The event that a schedule row with at least nine cells describes.
fn event_from_cells(cells: &Vec<Vec<String>>, week: u32, year: u32, day: String, date: String) -> (res:
    Event)
    requires
        cells@.len() >= 9,
    ensures
        res@ == event_of(
            cells@.map_values(|c: Vec<String>| string_views(c@)),
            week,
            year,
            day@,
            date@,
        ),
{
    let ghost cv = cells@.map_values(|c: Vec<String>| string_views(c@));
    let time_raw = clean_cell_exec(&cells[3]);
    let course_t = cell_text_exec(&cells[4]);
    let course_raw = string_of(course_t.as_slice());
    let sign_raw = clean_cell_exec(&cells[5]);
    let room_raw = clean_cell_exec(&cells[6]);
    let aids_raw = clean_cell_exec(&cells[7]);
    let moment_raw = clean_cell_exec(&cells[8]);
    let updated_raw = if cells.len() > 9 {
        clean_cell_exec(&cells[9])
    } else {
        String::new()
    };
    let (start_time, end_time) = span_ends_exec(&time_raw);
    let duration_display = compute_duration(start_time.as_str(), end_time.as_str());
    let signatures = comma_list(&sign_raw);
    let rooms = comma_list(&room_raw);
    let course_code = extract_course_code(course_raw.as_str());
    let activity_type = ActivityType::from_moment(moment_raw.as_str());
    let groups = extract_groups(moment_raw.as_str());
    let urls = extract_urls(moment_raw.as_str());
    let full_date = resolve_full_date(date.as_str(), year);
    let ev = Event {
        week: week,
        week_year: year,
        day: day,
        date: date,
        full_date: full_date,
        time_span: time_raw,
        start_time: start_time,
        end_time: end_time,
        duration_display: duration_display,
        course: course_raw,
        course_code: course_code,
        signatures: signatures,
        rooms: rooms,
        aids: aids_raw,
        moment: moment_raw,
        activity_type: activity_type,
        groups: groups,
        urls: urls,
        updated: updated_raw,
    };
    assert(ev@ == event_of(cv, week, year, day@, date@));
    ev
}

/// Reads a week heading ("Vecka 36, 2026") into the current week and year.
fn apply_week_heading(week: &mut u32, year: &mut u32, text: &[char])
    ensures
        ({
            let st = RowScan {
                week: *old(week),
                year: *old(year),
                day: Seq::empty(),
                date: Seq::empty(),
                events: Seq::empty(),
            };
            let r = week_heading(st, text@);
            *final(week) == r.week && *final(year) == r.year
        }),
{
    let vecka = chars_of("Vecka");
    match find_chars_from(text, vecka.as_slice(), 0) {
        Some(idx) => {
            let sub_text = slice_chars(text, idx, text.len());
            assert(sub_text@ =~= text@.skip(idx as int));
            let parts = words_chars(sub_text.as_slice());
            proof {
                assert(parts@.map_values(|v: Vec<char>| v@) == words(text@.skip(idx as int)));
            }
            if parts.len() >= 2 {
                assert(parts@[1]@ == words(text@.skip(idx as int))[1]);
                let comma: [char; 1] = [','];
                assert(comma@ =~= seq![',']);
                let t = trim_set_chars(parts[1].as_slice(), comma.as_slice());
                match parse_u32_chars(t.as_slice()) {
                    Some(w) => {
                        *week = w;
                    },
                    None => {},
                }
            }
            if parts.len() >= 3 {
                assert(parts@[2]@ == words(text@.skip(idx as int))[2]);
                let t = trim_chars(parts[2].as_slice());
                match parse_u32_chars(t.as_slice()) {
                    Some(y) => {
                        *year = y;
                    },
                    None => {},
                }
            }
        },
        None => {},
    }
}

/// The weeks of the events in order of first appearance (see `weeks_of`).
fn summarize_weeks(events: &Vec<Event>) -> (res: Vec<WeekInfo>)
    ensures
        week_views(res@) == weeks_of(event_views(events@)),
{
    let ghost ev = event_views(events@);
    let mut weeks: Vec<WeekInfo> = Vec::new();
    let mut i: usize = 0;
    while i < events.len()
        invariant
            i <= events@.len(),
            ev == event_views(events@),
            week_views(weeks@) == weeks_of(ev.take(i as int)),
            forall|k: int| 0 <= k < weeks@.len() ==> #[trigger] weeks@[k].event_count <= i,
        decreases events@.len() - i,
    {
        let e = &events[i];
        assert(ev.take(i + 1).drop_last() =~= ev.take(i as int));
        assert(ev.take(i + 1).last() == e@);
        let ghost wv = week_views(weeks@);
        let mut k: usize = 0;
        while k < weeks.len() && !(weeks[k].week_number == e.week && weeks[k].year == e.week_year)
            invariant
                k <= weeks@.len(),
                wv == week_views(weeks@),
                week_index(wv, e.week, e.week_year, k as int) == week_index(
                    wv,
                    e.week,
                    e.week_year,
                    0,
                ),
            decreases weeks@.len() - k,
        {
            k = k + 1;
        }
        if k < weeks.len() {
            let count = weeks[k].event_count + 1;
            let updated = WeekInfo {
                week_number: weeks[k].week_number,
                year: weeks[k].year,
                date_span: weeks[k].date_span.clone(),
                event_count: count,
            };
            weeks.set(k, updated);
            assert(week_views(weeks@) =~= wv.update(
                k as int,
                WeekInfoView {
                    week_number: wv[k as int].week_number,
                    year: wv[k as int].year,
                    date_span: wv[k as int].date_span,
                    event_count: wv[k as int].event_count + 1,
                },
            ));
        } else {
            weeks.push(
                WeekInfo {
                    week_number: e.week,
                    year: e.week_year,
                    date_span: e.date.clone(),
                    event_count: 1,
                },
            );
            assert(week_views(weeks@) =~= wv.push(
                WeekInfoView {
                    week_number: e.week,
                    year: e.week_year,
                    date_span: e.date@,
                    event_count: 1,
                },
            ));
        }
        i = i + 1;
    }
    assert(ev.take(events@.len() as int) =~= ev);
    weeks
}

/// The schedule that the HTML page `html` describes, as `scraper` reads it,
/// with relative calendar links resolved against `base`.
pub open spec fn page_schedule(html: Seq<char>, base: Option<Seq<char>>) -> ScheduleView {
    schedule_of(
        html_select(html, "td"@, "class"@, "td"@),
        html_select(html, "td.big2"@, "class"@, "td"@),
        html_select(html, "a"@, "href"@, "td"@),
        html_select(html, "tr"@, "class"@, "td"@),
        base,
    )
}

impl Schedule {
    /// The schedule that the page's cells (`td`), program cells (`td.big2`),
    /// links (`a`, with `href`) and rows (`tr`, with `class`, and the texts of
    /// their `td` cells) describe, resolving relative calendar links against
    /// `base_url`.
    pub fn from_page(
        tds: &Vec<HtmlElement>,
        big: &Vec<HtmlElement>,
        links: &Vec<HtmlElement>,
        rows: &Vec<HtmlElement>,
        base_url: Option<&str>,
    ) -> (res: Schedule)
        ensures
            res@ == schedule_of(
                element_views(tds@),
                element_views(big@),
                element_views(links@),
                element_views(rows@),
                opt_str_view(base_url),
            ),
    {
        let (date_range, printed_at) = page_dates_exec(tds);
        let program_info = program_info_exec(big);
        let ical_url = ical_link_exec(links, base_url);
        let ghost rv = element_views(rows@);
        let mut events: Vec<Event> = Vec::new();
        let mut current_week: u32 = 0;
        let mut current_year: u32 = 2026;
        let mut current_day = String::new();
        let mut current_date = String::new();
        let mut i: usize = 0;
        assert(rv.take(0) =~= Seq::<HtmlElementView>::empty());
        assert(event_views(events@) =~= Seq::<EventView>::empty());
        while i < rows.len()
            invariant
                i <= rows@.len(),
                rv == element_views(rows@),
                scan_rows(rv.take(i as int)) == (RowScan {
                    week: current_week,
                    year: current_year,
                    day: current_day@,
                    date: current_date@,
                    events: event_views(events@),
                }),
            decreases rows@.len() - i,
        {
            let row = &rows[i];
            assert(rv.take(i + 1).drop_last() =~= rv.take(i as int));
            assert(rv.take(i + 1).last() == row@);
            match &row.attr {
                Some(class) => {
                    let cc = chars_of(class.as_str());
                    if (has(cc.as_slice(), "data-white") || has(cc.as_slice(), "data-grey"))
                        && row.cells.len() >= 9 {
                        let day_raw = clean_cell_exec(&row.cells[1]);
                        let date_raw = clean_cell_exec(&row.cells[2]);
                        if day_raw.unicode_len() > 0 {
                            current_day = day_raw;
                        }
                        if date_raw.unicode_len() > 0 {
                            current_date = date_raw;
                        }
                        let ev = event_from_cells(
                            &row.cells,
                            current_week,
                            current_year,
                            current_day.clone(),
                            current_date.clone(),
                        );
                        let ghost before = event_views(events@);
                        events.push(ev);
                        assert(event_views(events@) =~= before.push(ev@));
                    }
                },
                None => {
                    let t = cell_text_exec(&row.text);
                    apply_week_heading(&mut current_week, &mut current_year, t.as_slice());
                },
            }
            i = i + 1;
        }
        assert(rv.take(rows@.len() as int) =~= rv);
        let weeks = summarize_weeks(&events);
        Schedule {
            metadata: ScheduleMetadata {
                program_info: program_info,
                date_range: date_range,
                printed_at: printed_at,
                ical_url: ical_url,
            },
            events: events,
            weeks: weeks,
        }
    }

    /// Parses a KronoX schedule page.  The page's metadata, events and weeks
    /// are those that `from_page` reads from what `scraper` finds in the page.
    pub fn parse_html(html_str: &str, base_url: Option<&str>) -> (res: Schedule)
        ensures
            res@ == page_schedule(html_str@, opt_str_view(base_url)),
    {
        let tds = select_elements(html_str, "td", "class", "td");
        let big = select_elements(html_str, "td.big2", "class", "td");
        let links = select_elements(html_str, "a", "href", "td");
        let rows = select_elements(html_str, "tr", "class", "td");
        Schedule::from_page(&tds, &big, &links, &rows, base_url)
    }
}

} // verus!
