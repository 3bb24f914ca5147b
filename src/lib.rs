//! Rewrites URLs by evaluating a tree-shaped rule language against them.
//!
//! - [`string_location`], [`string_matcher`], [`string_source`], [`bool_source`],
//!   [`conditions`] and [`mappers`]: the expression trees and their evaluation.
//! - [`rules`]: rules, and lists of rules applied to a URL all or nothing.
//! - [`job_state`]: what an evaluation runs against; [`jobs`]: whole jobs and the
//!   round-robin plan that spreads them over workers.
//! - [`better_url`]: the URL as its components; [`glob`]: glob patterns; [`cache`]: a keyed
//!   store of optional strings; [`text`]: character-level helpers.
//! - [`laws`]: properties that hold for every input.
pub mod better_url;
pub mod bool_source;
pub mod cache;
pub mod conditions;
pub mod glob;
pub mod job_state;
pub mod jobs;
pub mod laws;
pub mod mappers;
pub mod rules;
pub mod string_location;
pub mod string_matcher;
pub mod string_source;
pub mod text;
