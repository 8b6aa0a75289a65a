//! Rules of a multi-player word-tile game service.
#![allow(unused_imports)]

pub mod account_laws;
pub mod accounts;
pub mod append_laws;
pub mod attempt_laws;
pub mod avatars;
pub mod challenges;
pub mod components;
pub mod config;
pub mod creation_laws;
pub mod credential_laws;
pub mod crypto;
pub mod dashboard;
pub mod dashboard_laws;
pub mod definition_laws;
pub mod definitions;
pub mod exactly_once;
pub mod external_identities;
pub mod first_login_laws;
pub mod frames;
pub mod game;
pub mod game_service;
pub mod google_accounts;
pub mod history_laws;
pub mod identity_laws;
pub mod ids;
pub mod invitation_laws;
pub mod invitations;
pub mod journal;
pub mod journal_laws;
pub mod lobbies;
pub mod lobby_laws;
pub mod login_laws;
pub mod migrations;
pub mod model;
pub mod move_history;
pub mod move_plans;
pub mod observability;
pub mod oidc;
pub mod oidc_attempts;
pub mod order;
pub mod outcome_laws;
pub mod page_laws;
pub mod payload;
pub mod person_laws;
pub mod presentation;
pub mod profile_laws;
pub mod profiles;
pub mod projection_laws;
pub mod projections;
pub mod rack_preferences;
pub mod read_back;
pub mod rebuild_laws;
pub mod recovery_laws;
pub mod rollback_laws;
pub mod row_laws;
pub mod script;
pub mod sessions;
pub mod settings_laws;
pub mod snapshot_laws;
pub mod stages;
pub mod start_laws;
pub mod steady;
pub mod store;
pub mod submission_laws;
pub mod text;
pub mod totals;
pub mod transactions;
pub mod urls;

pub use accounts::{
    authenticate, hash_password, normalize_username, register, verify_password, AccountError,
};
pub use challenges::{
    accept_challenge, cancel_challenge, create_challenge, create_game_in_transaction,
    decline_challenge, find_user_by_username, ChallengeError, ChallengeStatus,
};
pub use components::{
    game_view, GameView, PendingMoveError, PendingMoveView, PremiumView,
};
pub use dashboard::{
    dashboard_projection, user_game_summaries, DashboardProjection, GameSummary, PendingItem,
};
pub use definitions::{
    lookup_definition, DefinitionError, DefinitionLookup, DefinitionMeaning,
    DefinitionUnavailableReason, WordDefinition, DEFAULT_DEFINITION_PROVIDER_BASE_URL,
};
pub use external_identities::{
    link_external_identity, resolve_or_create_external_account, user_for_external_identity,
    ExternalIdentityError, ResolvedExternalAccount, VerifiedExternalIdentity,
};
pub use game_service::{player_for_user, submit_game_command, GameServiceError};
pub use google_accounts::{
    complete_legacy_google_migration, google_login_and_create_session,
    prove_legacy_password_account, GoogleAccountWorkflowError,
};
pub use invitations::{
    create_invitation, redeem_invitation, redeem_invitation_and_start_game, revoke_invitation,
    InvitationError, InvitationToken,
};
pub use journal::{
    append_events, append_events_transactionally, load_events, load_latest_snapshot,
    persisted_payload_compatibility, recover_game, store_snapshot, JournalError,
    PersistedGameEvent, PersistedPayloadCompatibility,
};
pub use migrations::app_migrations;
pub use move_history::{
    final_score_adjustments, move_history_view, MoveHistoryError, MoveHistoryView,
};
pub use move_plans::{clear_move_plan, load_move_plan, save_move_plan, MovePlanError};
pub use observability::{app_metrics_snapshot, AppMetrics, AppMetricsSnapshot};
pub use oidc::{GoogleOidcClient, GoogleOidcError, GOOGLE_ISSUER};
pub use oidc_attempts::{
    claim_oidc_attempt, cleanup_oidc_attempts, consume_oidc_attempt, create_oidc_attempt,
    ClaimedOidcAttempt, NewOidcAttempt, OidcAttemptError, OidcAttemptPurpose,
};
pub use presentation::{
    authenticated_user, load_authenticated_dashboard, load_authorized_game_page,
    AuthenticatedDashboard, AuthorizedGamePage, PresentationError, CSRF_COOKIE_NAME,
    CSRF_HEADER_NAME, OIDC_BINDING_COOKIE_NAME, SESSION_COOKIE_NAME,
};
pub use profiles::{
    can_view_profile_avatar, create_google_profile, generate_unique_handle, load_profile,
    load_profile_image, normalize_display_name, profile_image_hash, remove_custom_avatar,
    set_custom_avatar, set_custom_display_name, set_google_avatar, synchronize_google_profile,
    use_google_avatar, use_google_display_name, AvatarSource, ProfileError, ProfileFieldSource,
    UserProfile,
};
pub use projections::{
    game_history, projected_revision, rebuild_all_user_score_totals, rebuild_game_projections,
    user_score_totals, GameHistoryEntry, ProjectionError, UserScoreTotals,
};
pub use rack_preferences::{
    load_rack_order, reconcile_rack_order, save_rack_order, swap_rack_tiles, RackPreferenceError,
};
