use vstd::prelude::*;

use crate::registry::{Contract, RegistryModel};
use crate::table::Keyed;

verus! {

/// A status that a contribution can be in, known by its name.
pub struct ContributionStatusType {
    pub name: String,
    pub description: String,
}

pub struct ContributionStatusTypeModel {
    pub name: Seq<char>,
    pub description: Seq<char>,
}

/// A status given to a contribution, with the transaction that settled it.
pub struct ContributionStatus {
    pub id: String,
    pub type_id: String,
    pub transaction_id: String,
}

/// A kind of contribution, known by its name.
pub struct ContributionType {
    pub name: String,
    pub description: String,
    pub metadata: String,
}

pub struct ContributionTypeModel {
    pub name: Seq<char>,
    pub description: Seq<char>,
    pub metadata: Seq<char>,
}

/// A contribution of a contributor to a project.
pub struct Contribution {
    pub id: String,
    pub description: String,
    pub project_id: String,
    pub contributor_id: String,
    pub type_id: String,
    pub status_id: String,
}

pub struct ContributionModel {
    pub id: Seq<char>,
    pub description: Seq<char>,
    pub project_id: Seq<char>,
    pub contributor_id: Seq<char>,
    pub type_id: Seq<char>,
    pub status_id: Seq<char>,
}

/// The contributions made to one project, in the order they were added.
pub struct ProjectContributions {
    pub project_id: String,
    pub contributions: Vec<Contribution>,
}

pub struct ProjectContributionsModel {
    pub project_id: Seq<char>,
    pub contributions: Seq<ContributionModel>,
}

impl View for ContributionStatusType {
    type V = ContributionStatusTypeModel;

    open spec fn view(&self) -> ContributionStatusTypeModel {
        ContributionStatusTypeModel { name: self.name@, description: self.description@ }
    }
}

impl Keyed for ContributionStatusType {
    open spec fn key_of(m: ContributionStatusTypeModel) -> Seq<char> {
        m.name
    }

    fn key(&self) -> (r: &String) {
        &self.name
    }

    fn duplicate(&self) -> (r: Self) {
        ContributionStatusType { name: self.name.clone(), description: self.description.clone() }
    }
}

impl View for ContributionType {
    type V = ContributionTypeModel;

    open spec fn view(&self) -> ContributionTypeModel {
        ContributionTypeModel {
            name: self.name@,
            description: self.description@,
            metadata: self.metadata@,
        }
    }
}

impl Keyed for ContributionType {
    open spec fn key_of(m: ContributionTypeModel) -> Seq<char> {
        m.name
    }

    fn key(&self) -> (r: &String) {
        &self.name
    }

    fn duplicate(&self) -> (r: Self) {
        ContributionType {
            name: self.name.clone(),
            description: self.description.clone(),
            metadata: self.metadata.clone(),
        }
    }
}

impl View for Contribution {
    type V = ContributionModel;

    open spec fn view(&self) -> ContributionModel {
        ContributionModel {
            id: self.id@,
            description: self.description@,
            project_id: self.project_id@,
            contributor_id: self.contributor_id@,
            type_id: self.type_id@,
            status_id: self.status_id@,
        }
    }
}

impl Contribution {
    pub fn duplicate(&self) -> (r: Self)
        ensures
            r@ == self@,
    {
        Contribution {
            id: self.id.clone(),
            description: self.description.clone(),
            project_id: self.project_id.clone(),
            contributor_id: self.contributor_id.clone(),
            type_id: self.type_id.clone(),
            status_id: self.status_id.clone(),
        }
    }
}

/// The models of a list of contributions.
pub open spec fn contribution_models(v: Seq<Contribution>) -> Seq<ContributionModel> {
    v.map_values(|c: Contribution| c@)
}

pub(crate) fn copy_contributions(v: &Vec<Contribution>) -> (r: Vec<Contribution>)
    ensures
        contribution_models(r@) == contribution_models(v@),
{
    let mut r: Vec<Contribution> = Vec::new();
    let mut i: usize = 0;
    while i < v.len()
        invariant
            i <= v@.len(),
            r@.len() == i,
            forall|j: int| 0 <= j < i ==> #[trigger] r@[j]@ == v@[j]@,
        decreases v@.len() - i,
    {
        r.push(v[i].duplicate());
        i = i + 1;
    }
    assert(contribution_models(r@) =~= contribution_models(v@));
    r
}

impl View for ProjectContributions {
    type V = ProjectContributionsModel;

    open spec fn view(&self) -> ProjectContributionsModel {
        ProjectContributionsModel {
            project_id: self.project_id@,
            contributions: contribution_models(self.contributions@),
        }
    }
}

impl Keyed for ProjectContributions {
    open spec fn key_of(m: ProjectContributionsModel) -> Seq<char> {
        m.project_id
    }

    fn key(&self) -> (r: &String) {
        &self.project_id
    }

    fn duplicate(&self) -> (r: Self) {
        ProjectContributions {
            project_id: self.project_id.clone(),
            contributions: copy_contributions(&self.contributions),
        }
    }
}

/// The contributions recorded for a project in `m`, oldest first.
pub open spec fn contributions_of(m: RegistryModel, project_id: Seq<char>) -> Seq<ContributionModel> {
    match crate::table::seq_lookup::<ProjectContributions>(m.contributions, project_id) {
        Some(log) => log.contributions,
        None => Seq::empty(),
    }
}

impl Contract {

    pub fn get_contribution_type(&self, name: String) -> (r: Option<ContributionType>)
        requires
            self.wf(),
        ensures
            r matches Some(t) ==> self.contribution_types.lookup(name@) == Some(t@),
            r is None ==> self.contribution_types.lookup(name@) is None,
    {
        self.contribution_types.get(&name)
    }

    /// All contribution types, in the order they were created.
    pub fn get_contribution_types(&self) -> (r: Vec<ContributionType>)
        ensures
            r@.map_values(|t: ContributionType| t@) == self@.contribution_types,
    {
        let r = self.contribution_types.page(self.contribution_types.len(), 0);
        assert(crate::table::page(self@.contribution_types, self@.contribution_types.len(), 0) =~= self@.contribution_types);
        r
    }

    /// Adds a contribution type under a name not yet in use and returns it; gives
    /// `None`, and changes nothing, if the name is taken.
    pub fn create_contribution_type(&mut self, contribution_type: ContributionType) -> (r: Option<ContributionType>)
        requires
            old(self).wf(),
        ensures
            final(self).wf(),
            r is Some == !old(self).contribution_types.has_key(contribution_type@.name),
            r matches Some(t) ==> t@ == contribution_type@ && final(self)@ == (RegistryModel {
                contribution_types: old(self)@.contribution_types.push(contribution_type@),
                ..old(self)@
            }),
            r is None ==> final(self)@ == old(self)@,
    {
        let copy = contribution_type.duplicate();
        if self.contribution_types.insert_if_absent(contribution_type) {
            Some(copy)
        } else {
            None
        }
    }

    /// Replaces the contribution type of the same name, if there is one, and returns
    /// the one it replaced.
    pub fn update_contribution_type(&mut self, contribution_type: ContributionType) -> (r: Option<ContributionType>)
        requires
            old(self).wf(),
        ensures
            final(self).wf(),
            r is Some == old(self).contribution_types.has_key(contribution_type@.name),
            r matches Some(t) ==> old(self).contribution_types.lookup(contribution_type@.name) == Some(t@)
                && final(self)@ == (RegistryModel {
                contribution_types: old(self)@.contribution_types.update(
                    old(self).contribution_types.index_of(contribution_type@.name),
                    contribution_type@,
                ),
                ..old(self)@
            }),
            r is None ==> final(self)@ == old(self)@,
    {
        self.contribution_types.update_existing(contribution_type)
    }

    /// Removes the contribution type of that name and returns it; records that
    /// name it stay as they are.
    pub fn remove_contribution_type(&mut self, name: String) -> (r: Option<ContributionType>)
        requires
            old(self).wf(),
        ensures
            final(self).wf(),
            r is Some == old(self).contribution_types.has_key(name@),
            r matches Some(t) ==> old(self).contribution_types.lookup(name@) == Some(t@) && final(self)@
                == (RegistryModel {
                contribution_types: old(self)@.contribution_types.remove(old(self).contribution_types.index_of(name@)),
                ..old(self)@
            }),
            r is None ==> final(self)@ == old(self)@,
    {
        self.contribution_types.remove_key(&name)
    }

    pub fn get_contribution_status_type(&self, name: String) -> (r: Option<ContributionStatusType>)
        requires
            self.wf(),
        ensures
            r matches Some(t) ==> self.contribution_status_types.lookup(name@) == Some(t@),
            r is None ==> self.contribution_status_types.lookup(name@) is None,
    {
        self.contribution_status_types.get(&name)
    }

    /// All contribution status types, in the order they were created.
    pub fn get_contribution_status_types(&self) -> (r: Vec<ContributionStatusType>)
        ensures
            r@.map_values(|t: ContributionStatusType| t@) == self@.contribution_status_types,
    {
        let r = self.contribution_status_types.page(self.contribution_status_types.len(), 0);
        assert(crate::table::page(self@.contribution_status_types, self@.contribution_status_types.len(), 0) =~= self@.contribution_status_types);
        r
    }

    /// Adds a contribution status type under a name not yet in use and returns it; gives
    /// `None`, and changes nothing, if the name is taken.
    pub fn create_contribution_status_type(&mut self, contribution_status_type: ContributionStatusType) -> (r: Option<ContributionStatusType>)
        requires
            old(self).wf(),
        ensures
            final(self).wf(),
            r is Some == !old(self).contribution_status_types.has_key(contribution_status_type@.name),
            r matches Some(t) ==> t@ == contribution_status_type@ && final(self)@ == (RegistryModel {
                contribution_status_types: old(self)@.contribution_status_types.push(contribution_status_type@),
                ..old(self)@
            }),
            r is None ==> final(self)@ == old(self)@,
    {
        let copy = contribution_status_type.duplicate();
        if self.contribution_status_types.insert_if_absent(contribution_status_type) {
            Some(copy)
        } else {
            None
        }
    }

    /// Replaces the contribution status type of the same name, if there is one, and returns
    /// the one it replaced.
    pub fn update_contribution_status_type(&mut self, contribution_status_type: ContributionStatusType) -> (r: Option<ContributionStatusType>)
        requires
            old(self).wf(),
        ensures
            final(self).wf(),
            r is Some == old(self).contribution_status_types.has_key(contribution_status_type@.name),
            r matches Some(t) ==> old(self).contribution_status_types.lookup(contribution_status_type@.name) == Some(t@)
                && final(self)@ == (RegistryModel {
                contribution_status_types: old(self)@.contribution_status_types.update(
                    old(self).contribution_status_types.index_of(contribution_status_type@.name),
                    contribution_status_type@,
                ),
                ..old(self)@
            }),
            r is None ==> final(self)@ == old(self)@,
    {
        self.contribution_status_types.update_existing(contribution_status_type)
    }

    /// Removes the contribution status type of that name and returns it; records that
    /// name it stay as they are.
    pub fn remove_contribution_status_type(&mut self, name: String) -> (r: Option<ContributionStatusType>)
        requires
            old(self).wf(),
        ensures
            final(self).wf(),
            r is Some == old(self).contribution_status_types.has_key(name@),
            r matches Some(t) ==> old(self).contribution_status_types.lookup(name@) == Some(t@) && final(self)@
                == (RegistryModel {
                contribution_status_types: old(self)@.contribution_status_types.remove(old(self).contribution_status_types.index_of(name@)),
                ..old(self)@
            }),
            r is None ==> final(self)@ == old(self)@,
    {
        self.contribution_status_types.remove_key(&name)
    }

    /// Appends `contribution` to the contributions of its project if its type
    /// and its status are known; tells whether it did.
    pub fn add_contribution(&mut self, contribution: Contribution) -> (r: bool)
        requires
            old(self).wf(),
        ensures
            final(self).wf(),
            r == (old(self).contribution_types.has_key(contribution.type_id@)
                && old(self).contribution_status_types.has_key(contribution.status_id@)),
            !r ==> final(self)@ == old(self)@,
            r ==> final(self)@ == (RegistryModel {
                contributions: final(self)@.contributions,
                ..old(self)@
            }),
            r ==> contributions_of(final(self)@, contribution.project_id@) == contributions_of(
                old(self)@,
                contribution.project_id@,
            ).push(contribution@),
            r ==> forall|p: Seq<char>|
                p != contribution.project_id@ ==> #[trigger] contributions_of(final(self)@, p)
                    == contributions_of(old(self)@, p),
    {
        if !self.contribution_types.contains_key(&contribution.type_id) {
            return false;
        }
        if !self.contribution_status_types.contains_key(&contribution.status_id) {
            return false;
        }
        let ghost m = contribution@;
        let ghost pid = contribution.project_id@;
        let ghost pre = self@;
        let ghost pre_tab = self.contributions;
        match self.contributions.position(&contribution.project_id) {
            Some(i) => {
                let mut log = self.contributions.entries[i].duplicate();
                let ghost before = log.contributions@;
                log.contributions.push(contribution);
                assert(contribution_models(log.contributions@) =~= contribution_models(before).push(m));
                self.contributions.replace_at(i, log);
            },
            None => {
                let project_id = contribution.project_id.clone();
                let mut contributions: Vec<Contribution> = Vec::new();
                contributions.push(contribution);
                let log = ProjectContributions { project_id, contributions };
                assert(log@.contributions =~= Seq::<ContributionModel>::empty().push(m));
                self.contributions.push_new(log);
            },
        }
        proof {
            assert forall|p: Seq<char>| p != pid implies #[trigger] contributions_of(self@, p)
                == contributions_of(pre, p) by {
                assert(self.contributions.lookup(p) == pre_tab.lookup(p));
            }
        }
        true
    }

    /// The contributions recorded for a project, oldest first.
    pub fn get_contributions(&self, project_id: String) -> (r: Vec<Contribution>)
        requires
            self.wf(),
        ensures
            contribution_models(r@) == contributions_of(self@, project_id@),
    {
        match self.contributions.get(&project_id) {
            Some(log) => log.contributions,
            None => {
                let r: Vec<Contribution> = Vec::new();
                assert(contribution_models(r@) =~= Seq::<ContributionModel>::empty());
                r
            },
        }
    }
}

} // verus!
