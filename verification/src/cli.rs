//! The command line: what a run is asked to do, and where a non-interactive
//! run reads its schedule from.
use vstd::prelude::*;
use crate::html::opt_view;
use crate::config::{active_profile, AppConfig};
use crate::groups::{parse_group_filter_string, GroupSet};
use crate::app::filter_groups;

verus! {

#[verifier::external_type_specification]
#[verifier::external_body]
pub struct ExPathBuf(std::path::PathBuf);

/// The command-line options.
pub struct CliArgs {
    /// The configuration file to use.
    pub config: Option<std::path::PathBuf>,
    /// The profile of the configuration to show.
    pub profile: Option<String>,
    /// A KronoX schedule address to show in place of the configured ones.
    pub url: Option<String>,
    /// The group filter to start with, such as "grupp 1, grupp a".
    pub group: Option<String>,
    /// Fetch the schedule anew, bypassing the cache.
    pub refresh: bool,
    /// Print today's schedule and exit.
    pub today: bool,
    /// Print a week's schedule (the current one where no number is given) and exit.
    pub week: Option<Option<u32>>,
    /// Download the schedule's calendar file to this path and exit.
    pub export_ical: Option<std::path::PathBuf>,
}

/// What a run does.
#[derive(Debug, Clone, Copy, PartialEq, Eq, Structural)]
pub enum CliRequest {
    /// Start the terminal viewer.
    Interactive,
    /// Download the calendar file.
    ExportCalendar,
    /// Print today's schedule.
    Today,
    /// Print the given week's schedule (the current week for `None`).
    Week(Option<u32>),
}

/// A calendar export comes first, then today's listing, then a week's; with
/// none of them asked for the viewer starts.
pub open spec fn request_of(export: bool, today: bool, week: Option<Option<u32>>) -> CliRequest {
    if export {
        CliRequest::ExportCalendar
    } else if today {
        CliRequest::Today
    } else {
        match week {
            Some(w) => CliRequest::Week(w),
            None => CliRequest::Interactive,
        }
    }
}

/// What the options ask a run to do (see `request_of`).
pub fn cli_request(args: &CliArgs) -> (r: CliRequest)
    ensures
        r == request_of(args.export_ical is Some, args.today, args.week),
{
    if args.export_ical.is_some() {
        CliRequest::ExportCalendar
    } else if args.today {
        CliRequest::Today
    } else {
        match args.week {
            Some(w) => CliRequest::Week(w),
            None => CliRequest::Interactive,
        }
    }
}

/// Where a non-interactive run reads its schedule and which groups its
/// listing shows: the address given on the command line, else the active
/// profile's; the groups given on the command line, else the profile's
/// filter.  `None` where the configuration has no profile.
pub fn cli_source(args: &CliArgs, config: &AppConfig) -> (r: Option<(String, GroupSet)>)
    requires
        config.wf(),
    ensures
        match active_profile(config.profiles@, config.default_profile@, opt_view(args.profile)) {
            None => r is None,
            Some(kp) => r matches Some(ug) && ug.0@ == (match args.url {
                Some(u) => u@,
                None => kp.1.url,
            }) && ug.1.wf() && ug.1@ == filter_groups(
                match args.group {
                    Some(g) => g@,
                    None => kp.1.group_filter,
                },
            ),
        },
{
    let name: Option<&str> = match &args.profile {
        Some(p) => Some(p.as_str()),
        None => None,
    };
    match config.get_active_profile(name) {
        None => None,
        Some((_, profile)) => {
            let url = match &args.url {
                Some(u) => u.clone(),
                None => profile.url.clone(),
            };
            let groups = match &args.group {
                Some(g) => parse_group_filter_string(g.as_str()),
                None => parse_group_filter_string(profile.group_filter.as_str()),
            };
            Some((url, groups))
        },
    }
}

} // verus!
