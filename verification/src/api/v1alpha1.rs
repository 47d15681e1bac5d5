//! The objects that the web frontend shows.
//!
//! Labels and annotations are lists of keys and values in the order of the keys.

use vstd::prelude::*;

verus! {

/// Kubernetes ObjectMeta. Every API object embeds one.
#[derive(Debug, Clone, Default, PartialEq)]
pub struct ObjectMeta {
    pub name: String,
    pub namespace: String,
    pub resource_version: Option<String>,
    pub uid: String,
    pub labels: Option<Vec<(String, String)>>,
    pub annotations: Option<Vec<(String, String)>>,
    pub creation_timestamp: Option<String>,
    pub deletion_timestamp: Option<String>,
}

/// RuntimeStatus: high-level summary of a server's runtime state.
/// Valid values: "unknown" "ok" "pending" "error" "not_applicable" "none".
pub type RuntimeStatus = String;

/// UpdateStatus: high-level summary of update tasks bringing a resource up to date.
/// Valid values: "none" "in_progress" "ok" "pending" "error" "not_applicable".
pub type UpdateStatus = String;

/// DisableState: "" (pending) "Enabled" "Disabled" "Error".
pub type DisableState = String;

#[derive(Debug, Clone, Default, PartialEq)]
pub struct UISession {
    pub metadata: Option<ObjectMeta>,
    pub spec: Option<UISessionSpec>,
    pub status: Option<UISessionStatus>,
}

/// UISessionSpec is intentionally empty (a kludge for surfacing internal status).
#[derive(Debug, Clone, Default, PartialEq)]
pub struct UISessionSpec {}

#[derive(Debug, Clone, Default, PartialEq)]
pub struct UISessionStatus {
    pub feature_flags: Vec<UIFeatureFlag>,
    pub needs_analytics_nudge: Option<bool>,
    pub running_tilt_build: Option<TiltBuild>,
    pub suggested_tilt_version: Option<String>,
    pub version_settings: Option<VersionSettings>,
    pub tilt_cloud_username: Option<String>,
    pub tilt_cloud_team_name: Option<String>,
    pub tilt_cloud_scheme_host: Option<String>,
    pub tilt_cloud_team_id: Option<String>,
    pub fatal_error: Option<String>,
    pub tilt_start_time: Option<String>,
    pub tiltfile_key: Option<String>,
}

#[derive(Debug, Clone, Default, PartialEq)]
pub struct UIFeatureFlag {
    pub name: Option<String>,
    pub value: Option<bool>,
}

#[derive(Debug, Clone, Default, PartialEq)]
pub struct TiltBuild {
    pub version: Option<String>,
    pub commit_sha: Option<String>,
    pub date: Option<String>,
    pub dev: Option<bool>,
}

#[derive(Debug, Clone, Default, PartialEq)]
pub struct VersionSettings {
    pub check_updates: Option<bool>,
}

#[derive(Debug, Clone, Default, PartialEq)]
pub struct UIResource {
    pub metadata: Option<ObjectMeta>,
    pub spec: Option<UIResourceSpec>,
    pub status: Option<UIResourceStatus>,
}

#[derive(Debug, Clone, Default, PartialEq)]
pub struct UIResourceSpec {}

#[derive(Debug, Clone, Default, PartialEq)]
pub struct UIResourceStatus {
    pub last_deploy_time: Option<String>,
    pub trigger_mode: Option<i32>,
    pub build_history: Vec<UIBuildTerminated>,
    pub current_build: Option<UIBuildRunning>,
    pub pending_build_since: Option<String>,
    pub has_pending_changes: Option<bool>,
    pub endpoint_links: Vec<UIResourceLink>,
    pub k8s_resource_info: Option<UIResourceKubernetes>,
    pub compose_resource_info: Option<UIResourceCompose>,
    pub local_resource_info: Option<UIResourceLocal>,
    pub runtime_status: Option<RuntimeStatus>,
    pub update_status: Option<UpdateStatus>,
    pub specs: Vec<UIResourceTargetSpec>,
    pub queued: Option<bool>,
    pub order: Option<i32>,
    pub disable_status: Option<DisableResourceStatus>,
    pub waiting: Option<UIResourceStateWaiting>,
    pub conditions: Vec<UIResourceCondition>,
}

#[derive(Debug, Clone, Default, PartialEq)]
pub struct UIResourceLink {
    pub url: Option<String>,
    pub name: Option<String>,
}

#[derive(Debug, Clone, Default, PartialEq)]
pub struct UIResourceTargetSpec {
    pub id: Option<String>,
    pub target_type: Option<String>,
    pub has_live_update: Option<bool>,
}

#[derive(Debug, Clone, Default, PartialEq)]
pub struct UIBuildRunning {
    pub start_time: Option<String>,
    pub span_id: Option<String>,
}

#[derive(Debug, Clone, Default, PartialEq)]
pub struct UIBuildTerminated {
    pub error: Option<String>,
    pub warnings: Vec<String>,
    pub start_time: Option<String>,
    pub finish_time: Option<String>,
    pub span_id: Option<String>,
    pub is_crash_rebuild: Option<bool>,
}

#[derive(Debug, Clone, Default, PartialEq)]
pub struct UIResourceKubernetes {
    pub pod_name: Option<String>,
    pub pod_creation_time: Option<String>,
    pub pod_update_start_time: Option<String>,
    pub pod_status: Option<String>,
    pub pod_status_message: Option<String>,
    pub all_containers_ready: Option<bool>,
    pub pod_restarts: Option<i32>,
    pub span_id: Option<String>,
    pub display_names: Vec<String>,
}

#[derive(Debug, Clone, Default, PartialEq)]
pub struct UIResourceCompose {
    pub health_status: Option<String>,
}

#[derive(Debug, Clone, Default, PartialEq)]
pub struct UIResourceLocal {
    pub pid: Option<i64>,
    pub is_test: Option<bool>,
    pub restart_count: Option<i32>,
    pub last_start_time: Option<String>,
}

#[derive(Debug, Clone, Default, PartialEq)]
pub struct UIResourceStateWaiting {
    pub reason: String,
    pub on: Vec<UIResourceStateWaitingOnRef>,
}

#[derive(Debug, Clone, Default, PartialEq)]
pub struct UIResourceStateWaitingOnRef {
    pub group: String,
    pub api_version: String,
    pub kind: String,
    pub name: String,
}

#[derive(Debug, Clone, Default, PartialEq)]
pub struct UIResourceCondition {
    pub condition_type: String,
    pub status: String,
    pub last_transition_time: Option<String>,
    pub reason: Option<String>,
    pub message: Option<String>,
}

#[derive(Debug, Clone, Default, PartialEq)]
pub struct DisableResourceStatus {
    pub enabled_count: i32,
    pub disabled_count: i32,
    pub state: DisableState,
    pub sources: Vec<DisableSource>,
}

#[derive(Debug, Clone, Default, PartialEq)]
pub struct DisableSource {
    pub config_map: Option<ConfigMapDisableSource>,
    pub every_config_map: Vec<ConfigMapDisableSource>,
}

#[derive(Debug, Clone, Default, PartialEq)]
pub struct ConfigMapDisableSource {
    pub name: String,
    pub key: String,
}

#[derive(Debug, Clone, Default, PartialEq)]
pub struct UIButton {
    pub metadata: Option<ObjectMeta>,
    pub spec: Option<UIButtonSpec>,
    pub status: Option<UIButtonStatus>,
}

#[derive(Debug, Clone, Default, PartialEq)]
pub struct UIButtonSpec {
    pub location: UIComponentLocation,
    pub text: String,
    pub icon_name: Option<String>,
    pub icon_svg: Option<String>,
    pub disabled: Option<bool>,
    pub requires_confirmation: Option<bool>,
    pub inputs: Vec<UIInputSpec>,
}

#[derive(Debug, Clone, Default, PartialEq)]
pub struct UIComponentLocation {
    pub component_id: String,
    pub component_type: String,
}

#[derive(Debug, Clone, Default, PartialEq)]
pub struct UIInputSpec {
    pub name: String,
    pub label: String,
    pub text: Option<UITextInputSpec>,
    pub bool: Option<UIBoolInputSpec>,
    pub hidden: Option<UIHiddenInputSpec>,
    pub choice: Option<UIChoiceInputSpec>,
}

#[derive(Debug, Clone, Default, PartialEq)]
pub struct UITextInputSpec {
    pub default_value: Option<String>,
    pub placeholder: Option<String>,
}

#[derive(Debug, Clone, Default, PartialEq)]
pub struct UIBoolInputSpec {
    pub default_value: Option<bool>,
    pub true_string: Option<String>,
    pub false_string: Option<String>,
}

#[derive(Debug, Clone, Default, PartialEq)]
pub struct UIHiddenInputSpec {
    pub value: String,
}

#[derive(Debug, Clone, Default, PartialEq)]
pub struct UIChoiceInputSpec {
    pub choices: Vec<String>,
}

#[derive(Debug, Clone, Default, PartialEq)]
pub struct UIButtonStatus {
    pub last_clicked_at: Option<String>,
    pub inputs: Vec<UIInputStatus>,
}

#[derive(Debug, Clone, Default, PartialEq)]
pub struct UIInputStatus {
    pub name: String,
    pub text: Option<UITextInputStatus>,
    pub bool: Option<UIBoolInputStatus>,
    pub hidden: Option<UIHiddenInputStatus>,
    pub choice: Option<UIChoiceInputStatus>,
}

#[derive(Debug, Clone, Default, PartialEq)]
pub struct UITextInputStatus {
    pub value: String,
}
#[derive(Debug, Clone, Default, PartialEq)]
pub struct UIBoolInputStatus {
    pub value: bool,
}
#[derive(Debug, Clone, Default, PartialEq)]
pub struct UIHiddenInputStatus {
    pub value: String,
}
#[derive(Debug, Clone, Default, PartialEq)]
pub struct UIChoiceInputStatus {
    pub value: String,
}

#[derive(Debug, Clone, Default, PartialEq)]
pub struct Cluster {
    pub metadata: Option<ObjectMeta>,
    pub spec: Option<ClusterSpec>,
    pub status: Option<ClusterStatus>,
}

#[derive(Debug, Clone, Default, PartialEq)]
pub struct ClusterSpec {
    pub connection: Option<ClusterConnection>,
    pub default_registry: Option<RegistryHosting>,
}

#[derive(Debug, Clone, Default, PartialEq)]
pub struct ClusterConnection {
    pub kubernetes: Option<KubernetesClusterConnection>,
    pub docker: Option<DockerClusterConnection>,
}

#[derive(Debug, Clone, Default, PartialEq)]
pub struct KubernetesClusterConnection {
    pub context: Option<String>,
    pub namespace: Option<String>,
}

#[derive(Debug, Clone, Default, PartialEq)]
pub struct DockerClusterConnection {
    pub host: Option<String>,
}

#[derive(Debug, Clone, Default, PartialEq)]
pub struct ClusterStatus {
    pub arch: Option<String>,
    pub error: Option<String>,
    pub connected_at: Option<String>,
    pub registry: Option<RegistryHosting>,
    pub connection: Option<ClusterConnectionStatus>,
    pub version: Option<String>,
}

#[derive(Debug, Clone, Default, PartialEq)]
pub struct ClusterConnectionStatus {
    pub kubernetes: Option<KubernetesClusterConnectionStatus>,
}

#[derive(Debug, Clone, Default, PartialEq)]
pub struct KubernetesClusterConnectionStatus {
    pub context: String,
    pub namespace: String,
    pub cluster: String,
    pub product: Option<String>,
    pub config_path: Option<String>,
}

#[derive(Debug, Clone, Default, PartialEq)]
pub struct RegistryHosting {
    pub host: String,
    pub host_from_cluster_network: Option<String>,
    pub host_from_container_runtime: Option<String>,
    pub help: Option<String>,
    pub single_name: Option<String>,
}

} // verus!
