//! The view that is streamed to the web frontend, and its log model.
//!
//! On connect the complete view is sent, on a change only what changed.

use vstd::prelude::*;

use crate::api::v1alpha1::{Cluster, TiltBuild, UIButton, UIResource, UISession, VersionSettings};

verus! {

/// LogLevel severity. Values: NONE INFO VERBOSE DEBUG WARN ERROR.
pub type LogLevel = String;

#[derive(Debug, Clone, Default, PartialEq)]
pub struct LogSegment {
    pub span_id: Option<String>,
    pub time: Option<String>,
    pub text: Option<String>,
    pub level: Option<LogLevel>,
    pub anchor: Option<bool>,
    pub fields: Option<Vec<(String, String)>>,
}

#[derive(Debug, Clone, Default, PartialEq)]
pub struct LogSpan {
    pub manifest_name: Option<String>,
}

#[derive(Debug, Clone, Default, PartialEq)]
pub struct LogList {
    pub spans: Option<Vec<(String, LogSpan)>>,
    pub segments: Vec<LogSegment>,
    /// Inclusive start of the interval on the central log store.
    pub from_checkpoint: Option<i32>,
    /// Exclusive end of the interval on the central log store.
    pub to_checkpoint: Option<i32>,
}

#[derive(Debug, Clone, Default, PartialEq)]
pub struct WebView {
    pub log: Option<String>,
    pub feature_flags: Option<Vec<(String, bool)>>,
    pub needs_analytics_nudge: Option<bool>,
    pub running_tilt_build: Option<TiltBuild>,
    pub suggested_tilt_version: Option<String>,
    pub version_settings: Option<VersionSettings>,
    pub tilt_cloud_username: Option<String>,
    pub tilt_cloud_team_name: Option<String>,
    pub tilt_cloud_scheme_host: Option<String>,
    pub tilt_cloud_team_id: Option<String>,
    pub fatal_error: Option<String>,
    pub log_list: Option<LogList>,
    /// Lets the UI detect when Tilt has restarted.
    pub tilt_start_time: Option<String>,
    pub tiltfile_key: Option<String>,
    pub ui_session: Option<UISession>,
    pub ui_resources: Vec<UIResource>,
    pub ui_buttons: Vec<UIButton>,
    pub clusters: Vec<Cluster>,
    /// True for the initial full view, false for delta updates.
    pub is_complete: Option<bool>,
}

/// Wraps a view for the `/api/snapshot/{id}` endpoint.
#[derive(Debug, Clone, Default, PartialEq)]
pub struct Snapshot {
    pub view: Option<WebView>,
    pub is_sidebar_closed: Option<bool>,
    pub path: Option<String>,
    pub created_at: Option<String>,
}

} // verus!
