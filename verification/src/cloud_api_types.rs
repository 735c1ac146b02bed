//! The values exchanged with the cloud service: the signed-in user, organizations,
//! language-model tokens and system settings.

use vstd::prelude::*;

verus! {

/// The header that carries the system's identifier.
pub const ZED_SYSTEM_ID_HEADER_NAME: &'static str = "x-zed-system-id";

/// A point in time, as the service writes it.
#[derive(Debug, PartialEq, Eq, Clone)]
pub struct Timestamp(pub String);

#[derive(Debug, PartialEq)]
pub struct GetAuthenticatedUserResponse {
    pub user: AuthenticatedUser,
    pub feature_flags: Vec<String>,
    /// Empty when the service leaves it out.
    pub organizations: Vec<Organization>,
    /// `None` when the service leaves it out.
    pub default_organization_id: Option<OrganizationId>,
}

#[derive(Debug, PartialEq)]
pub struct AuthenticatedUser {
    pub id_v2: String,
    pub legacy_user_id: i32,
    pub metrics_id: String,
    pub username: String,
    pub avatar_url: String,
    pub github_login: String,
    pub name: Option<String>,
    pub is_staff: bool,
    pub accepted_tos_at: Option<Timestamp>,
    pub has_connected_to_collab_once: bool,
}

#[derive(Debug, PartialEq, Eq, PartialOrd, Ord, Hash, Clone)]
pub struct OrganizationId(pub String);

#[derive(Debug, PartialEq)]
pub struct Organization {
    pub id: OrganizationId,
    pub name: String,
    pub is_personal: bool,
}

#[derive(Debug, PartialEq)]
pub struct OrganizationEditPredictionConfiguration {
    pub is_enabled: bool,
    pub is_feedback_enabled: bool,
}

#[derive(Debug, PartialEq, Clone)]
pub struct LlmToken(pub String);

#[derive(Debug, PartialEq, Clone)]
pub struct CreateLlmTokenBody {
    pub organization_id: OrganizationId,
}

#[derive(Debug, PartialEq, Clone)]
pub struct CreateLlmTokenResponse {
    pub token: LlmToken,
}

#[derive(Debug, Default, PartialEq, Clone)]
pub struct UpdateSystemSettingsBody {
    pub selected_organization_id: Option<OrganizationId>,
}

#[derive(Debug, Default, PartialEq, Clone)]
pub struct SystemSettings {
    pub selected_organization_id: Option<OrganizationId>,
}

} // verus!
