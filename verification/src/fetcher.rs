//! What fetching a schedule yields, and when a cached copy is fresh enough.
use vstd::prelude::*;
use vstd::string::StringExecFns;
use crate::html::opt_view;
use crate::parser::{page_schedule, Schedule};

verus! {

/// What fetching a schedule gave: the schedule, whether it came from the
/// cache, how old the cached copy was (in whole seconds) where known, and a
/// warning to show.
pub struct FetchResult {
    pub schedule: Schedule,
    pub from_cache: bool,
    pub cache_age_secs: Option<u64>,
    pub warning: Option<String>,
}

/// A cached copy is used without asking the server when no refresh is forced
/// and it is younger than the configured time to live.
pub open spec fn cache_fresh(force_refresh: bool, cache_age_secs: Option<u64>, ttl_minutes: u64) -> bool {
    !force_refresh && match cache_age_secs {
        Some(a) => a < ttl_minutes * 60,
        None => false,
    }
}

/// Whether a cached copy of the given age (in whole seconds; `None` where
/// there is no readable copy) is used without asking the server.
pub fn cache_is_fresh(force_refresh: bool, cache_age_secs: Option<u64>, ttl_minutes: u64) -> (b: bool)
    requires
        ttl_minutes * 60 <= u64::MAX,
    ensures
        b == cache_fresh(force_refresh, cache_age_secs, ttl_minutes),
{
    if force_refresh {
        return false;
    }
    match cache_age_secs {
        Some(a) => a < ttl_minutes * 60,
        None => false,
    }
}

/// The fetch result for the page `html` fetched from `url`: its schedule,
/// with relative links resolved against `url`, and where it came from.
pub fn schedule_result(
    html: &str,
    url: &str,
    from_cache: bool,
    cache_age_secs: Option<u64>,
    warning: Option<String>,
) -> (r: FetchResult)
    ensures
        r.schedule@ == page_schedule(html@, Some(url@)),
        r.from_cache == from_cache,
        r.cache_age_secs == cache_age_secs,
        opt_view(r.warning) == opt_view(warning),
{
    FetchResult {
        schedule: Schedule::parse_html(html, Some(url)),
        from_cache: from_cache,
        cache_age_secs: cache_age_secs,
        warning: warning,
    }
}

/// Why the server gave no schedule: it answered with an error status (the
/// status as text, such as "404 Not Found"), or it could not be reached (the
/// error as text).
pub enum ServerFailure {
    Status(String),
    Unreachable(String),
}

/// What a fetch does when the server gives no schedule: show the cached copy
/// with a warning, or fail with a message.
#[derive(Debug, Clone, PartialEq, Eq)]
pub enum Fallback {
    UseCache(String),
    Fail(String),
}

pub enum FallbackView {
    UseCache(Seq<char>),
    Fail(Seq<char>),
}

impl View for Fallback {
    type V = FallbackView;

    open spec fn view(&self) -> FallbackView {
        match self {
            Fallback::UseCache(w) => FallbackView::UseCache(w@),
            Fallback::Fail(m) => FallbackView::Fail(m@),
        }
    }
}

/// A cached copy, where there is one, is shown with a warning that says why;
/// without one the fetch fails with a message that says why.
pub open spec fn fallback_of(failure: ServerFailure, cache_exists: bool) -> FallbackView {
    match failure {
        ServerFailure::Status(st) => if cache_exists {
            FallbackView::UseCache("Servern svarade med felkod "@ + st@ + ". Visar cachad version."@)
        } else {
            FallbackView::Fail("Servern svarade med felkod: "@ + st@)
        },
        ServerFailure::Unreachable(err) => if cache_exists {
            FallbackView::UseCache(
                "Kunde inte ansluta till nätverket ("@ + err@ + "). Visar offline-cache."@,
            )
        } else {
            FallbackView::Fail("Kunde inte hämta schemat och ingen offline-cache hittades: "@ + err@)
        },
    }
}

/// What to do when the server gave no schedule (see `fallback_of`).
pub fn fallback_for(failure: &ServerFailure, cache_exists: bool) -> (r: Fallback)
    ensures
        r@ == fallback_of(*failure, cache_exists),
{
    match failure {
        ServerFailure::Status(st) => if cache_exists {
            Fallback::UseCache(
                String::from_str("Servern svarade med felkod ").concat(st.as_str()).concat(
                    ". Visar cachad version.",
                ),
            )
        } else {
            Fallback::Fail(String::from_str("Servern svarade med felkod: ").concat(st.as_str()))
        },
        ServerFailure::Unreachable(err) => if cache_exists {
            Fallback::UseCache(
                String::from_str("Kunde inte ansluta till nätverket (").concat(err.as_str()).concat(
                    "). Visar offline-cache.",
                ),
            )
        } else {
            Fallback::Fail(
                String::from_str("Kunde inte hämta schemat och ingen offline-cache hittades: ").concat(
                    err.as_str(),
                ),
            )
        },
    }
}

} // verus!
