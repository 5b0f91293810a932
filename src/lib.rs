//! A registry of collaborative projects, permission grants, contributors and
//! contributions, with authority tables of named types.
//!
//! Every operation is a pure function of the registry state and of the values
//! the host supplies (caller identity, random bytes); storage and bindings
//! live outside this crate.
mod connection;
mod contribution;
mod contributor;
mod id;
mod laws;
mod permission;
mod project;
mod registry;
mod table;

pub use connection::{may_accept, Connection, ConnectionModel, Party};
pub use contribution::{
    contribution_models, contributions_of, Contribution, ContributionModel, ContributionStatus,
    ContributionStatusType, ContributionStatusTypeModel, ContributionType, ContributionTypeModel,
    ProjectContributions, ProjectContributionsModel,
};
pub use contributor::{offered_of, resolved_types, type_models, Contributor, ContributorModel};
pub use id::{issue_id, issued_id, seed_block, uuid_text_of};
pub use laws::{
    lemma_created_project_found, lemma_offered_union, lemma_page_exact,
    lemma_project_ids_distinct, lemma_removed_type_hides_permission, lemma_second_type_refused,
    lemma_updated_project_found,
};
pub use permission::{
    permission_view_at, resolved_view, type_opt, view_of, view_opt, with_id, Permission,
    PermissionModel, PermissionType, PermissionTypeModel, PermissionView, PermissionViewModel,
};
pub use project::{fresh_project, CreateProject, Project, ProjectModel, DEFAULT_PAGE_LIMIT};
pub use registry::{Contract, RegistryModel};
pub use table::{
    keys_unique, page, seq_has_key, seq_index_of, seq_lookup, texts, Keyed, Table,
};
