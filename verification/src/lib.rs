//! Schedule model for the KronoX timetables of Högskolan i Borås: parsing of the
//! schedule page, classification and filtering of events, group filters,
//! profile configuration, the navigation state of the terminal viewer, the
//! cache policy of fetching and the listings of the command line.

pub mod text;
pub mod html;
pub mod parser;
pub mod groups;
pub mod config;
pub mod app;
pub mod fetcher;
pub mod report;
pub mod cli;
pub mod laws;
