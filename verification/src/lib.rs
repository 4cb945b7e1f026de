//! A deterministic feature-flag and experiment decision engine.
//!
//! The engine answers, repeatably, "is feature F active for this request,
//! and which variant should it receive?" given a static table of feature
//! definitions and a per-request [`context::Context`] of identifying
//! attributes. The same context against the same table always yields the
//! same decision, across process restarts and across independently running
//! instances.
//!
//! Rollout rules are composed per feature from an ordered chain of
//! strategies (fixed value, percentage range, explicit override,
//! multi-variant experiment, dynamic configuration value); the first
//! strategy with an opinion wins. Percentage positions are fixed-point
//! fractions of [`bucket::BUCKET_SCALE`], derived from a deterministic
//! 64-bit mixing hash of the feature name and the chosen identifier value.

pub mod bucket;
pub mod context;
pub mod decision;
pub mod strategy;
pub mod config;
pub mod engine;
