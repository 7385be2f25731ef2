//! Reviewable, freshness-fenced Supabase target lifecycle for Henosis.

pub mod authoring;
pub mod authoring_content_laws;
pub mod authoring_laws;
pub mod context;
pub mod context_laws;
pub mod document_laws;
pub mod hashing;
pub mod identity_laws;
pub mod inputs;
pub mod journal;
pub mod journal_laws;
pub mod json;
pub mod level_laws;
pub mod model;
pub mod order;
pub mod pass;
pub mod pass_journey_laws;
pub mod pass_laws;
pub mod plan;
pub mod plan_content_laws;
pub mod plan_laws;
pub mod reconciler;
pub mod report;
pub mod review;
pub mod review_laws;
pub mod slice;
pub mod target;
pub mod target_laws;
pub mod text;
pub mod text_laws;

use vstd::prelude::*;

verus! {

/// Registry key served by this connector.
pub const CONNECTOR_NAME: &'static str = "supabase";

}
