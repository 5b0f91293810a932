use vstd::prelude::*;

use crate::contribution::{
    ContributionStatusType, ContributionStatusTypeModel, ContributionType, ContributionTypeModel,
    ProjectContributions, ProjectContributionsModel,
};
use crate::contributor::{Contributor, ContributorModel};
use crate::permission::{Permission, PermissionModel, PermissionType, PermissionTypeModel};
use crate::project::{Project, ProjectModel};
use crate::table::Table;

verus! {

/// All collections of the registry.
pub struct Contract {
    pub projects: Table<Project>,
    pub permission_types: Table<PermissionType>,
    pub permissions: Table<Permission>,
    pub contribution_types: Table<ContributionType>,
    pub contribution_status_types: Table<ContributionStatusType>,
    pub contributors: Table<Contributor>,
    pub contributions: Table<ProjectContributions>,
}

/// The registry's collections, each as the sequence of its records in order.
pub struct RegistryModel {
    pub projects: Seq<ProjectModel>,
    pub permission_types: Seq<PermissionTypeModel>,
    pub permissions: Seq<PermissionModel>,
    pub contribution_types: Seq<ContributionTypeModel>,
    pub contribution_status_types: Seq<ContributionStatusTypeModel>,
    pub contributors: Seq<ContributorModel>,
    pub contributions: Seq<ProjectContributionsModel>,
}

impl View for Contract {
    type V = RegistryModel;

    open spec fn view(&self) -> RegistryModel {
        RegistryModel {
            projects: self.projects@,
            permission_types: self.permission_types@,
            permissions: self.permissions@,
            contribution_types: self.contribution_types@,
            contribution_status_types: self.contribution_status_types@,
            contributors: self.contributors@,
            contributions: self.contributions@,
        }
    }
}

impl Contract {
    /// Every collection holds one record per key, and no contributor offers a
    /// type name twice.
    pub open spec fn wf(&self) -> bool {
        &&& self.projects.wf()
        &&& self.permission_types.wf()
        &&& self.permissions.wf()
        &&& self.contribution_types.wf()
        &&& self.contribution_status_types.wf()
        &&& self.contributors.wf()
        &&& self.contributions.wf()
        &&& forall|i: int|
            0 <= i < self.contributors@.len() ==> (#[trigger] self.contributors@[i]).offered.no_duplicates()
    }

    /// An empty registry.
    pub fn new() -> (r: Contract)
        ensures
            r.wf(),
            r@.projects.len() == 0,
            r@.permission_types.len() == 0,
            r@.permissions.len() == 0,
            r@.contribution_types.len() == 0,
            r@.contribution_status_types.len() == 0,
            r@.contributors.len() == 0,
            r@.contributions.len() == 0,
    {
        Contract {
            projects: Table::new(),
            permission_types: Table::new(),
            permissions: Table::new(),
            contribution_types: Table::new(),
            contribution_status_types: Table::new(),
            contributors: Table::new(),
            contributions: Table::new(),
        }
    }
}

impl Default for Contract {
    fn default() -> (r: Contract)
        ensures
            r.wf(),
            r@.projects.len() == 0,
            r@.permission_types.len() == 0,
            r@.permissions.len() == 0,
            r@.contribution_types.len() == 0,
            r@.contribution_status_types.len() == 0,
            r@.contributors.len() == 0,
            r@.contributions.len() == 0,
    {
        Contract::new()
    }
}

} // verus!
