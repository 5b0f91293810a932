use vstd::prelude::*;

use crate::id::{issue_id, issued_id};
use crate::registry::Contract;
use crate::table::{copy_texts, page, texts, Keyed};

verus! {

/// A collaborative project.
pub struct Project {
    pub id: String,
    pub name: String,
    pub description: String,
    pub link: String,
    pub github: String,
    pub verified: bool,
    pub contributors: Vec<String>,
}

/// What a project holds, as values.
pub struct ProjectModel {
    pub id: Seq<char>,
    pub name: Seq<char>,
    pub description: Seq<char>,
    pub link: Seq<char>,
    pub github: Seq<char>,
    pub verified: bool,
    pub contributors: Seq<Seq<char>>,
}

/// The fields a caller gives to create or replace a project.
pub struct CreateProject {
    pub name: String,
    pub description: String,
    pub link: String,
    pub github: String,
}

impl View for Project {
    type V = ProjectModel;

    open spec fn view(&self) -> ProjectModel {
        ProjectModel {
            id: self.id@,
            name: self.name@,
            description: self.description@,
            link: self.link@,
            github: self.github@,
            verified: self.verified,
            contributors: texts(self.contributors@),
        }
    }
}

impl Keyed for Project {
    open spec fn key_of(m: ProjectModel) -> Seq<char> {
        m.id
    }

    fn key(&self) -> (r: &String) {
        &self.id
    }

    fn duplicate(&self) -> (r: Self) {
        Project {
            id: self.id.clone(),
            name: self.name.clone(),
            description: self.description.clone(),
            link: self.link.clone(),
            github: self.github.clone(),
            verified: self.verified,
            contributors: copy_texts(&self.contributors),
        }
    }
}

/// The project that `fields` describe under `id`: not verified, with no contributors.
pub open spec fn fresh_project(id: Seq<char>, fields: CreateProject) -> ProjectModel {
    ProjectModel {
        id,
        name: fields.name@,
        description: fields.description@,
        link: fields.link@,
        github: fields.github@,
        verified: false,
        contributors: Seq::empty(),
    }
}

/// The number of projects a page holds when no limit is given.
pub const DEFAULT_PAGE_LIMIT: usize = 20;

impl Project {
    /// The project that `fields` describe under `id`.
    pub fn new(id: String, fields: CreateProject) -> (r: Project)
        ensures
            r@ == fresh_project(id@, fields),
    {
        let r = Project {
            id,
            name: fields.name,
            description: fields.description,
            link: fields.link,
            github: fields.github,
            verified: false,
            contributors: Vec::new(),
        };
        assert(r@.contributors =~= Seq::<Seq<char>>::empty());
        r
    }
}

impl Contract {
    pub fn get_project(&self, project_id: String) -> (r: Option<Project>)
        requires
            self.wf(),
        ensures
            r matches Some(p) ==> self.projects.lookup(project_id@) == Some(p@),
            r is None ==> self.projects.lookup(project_id@) is None,
    {
        self.projects.get(&project_id)
    }

    /// The projects from position `from` (0 by default), at most `limit`
    /// of them (20 by default), in creation order.
    pub fn get_projects(&self, limit: Option<usize>, from: Option<usize>) -> (r: Vec<Project>)
        ensures
            r@.map_values(|p: Project| p@) == page(
                self.projects@,
                limit.unwrap_or(DEFAULT_PAGE_LIMIT) as nat,
                from.unwrap_or(0) as nat,
            ),
    {
        let limit = match limit {
            Some(l) => l,
            None => DEFAULT_PAGE_LIMIT,
        };
        let from = match from {
            Some(f) => f,
            None => 0,
        };
        self.projects.page(limit, from)
    }

    /// Creates a project under an identifier issued from `random_seed`; gives
    /// `None`, and changes nothing, if that identifier is already taken.
    pub fn create_project(&mut self, create_project: CreateProject, random_seed: &Vec<u8>) -> (r:
        Option<Project>)
        requires
            old(self).wf(),
        ensures
            final(self).wf(),
            r is Some == !old(self).projects.has_key(issued_id(random_seed@)),
            r matches Some(p) ==> p@ == fresh_project(issued_id(random_seed@), create_project)
                && final(self)@ == (crate::registry::RegistryModel {
                projects: old(self)@.projects.push(p@),
                ..old(self)@
            }),
            r is None ==> final(self)@ == old(self)@,
    {
        let id = issue_id(random_seed);
        if self.projects.contains_key(&id) {
            return None;
        }
        let project = Project::new(id, create_project);
        let copy = project.duplicate();
        self.projects.push_new(project);
        Some(copy)
    }

    /// Replaces the fields of an existing project; it is then not verified and
    /// has no contributors, as a created one.
    pub fn update_project(&mut self, project_id: String, update_project: CreateProject)
        requires
            old(self).wf(),
            old(self).projects.has_key(project_id@),
        ensures
            final(self).wf(),
            final(self)@ == (crate::registry::RegistryModel {
                projects: old(self)@.projects.update(
                    old(self).projects.index_of(project_id@),
                    fresh_project(project_id@, update_project),
                ),
                ..old(self)@
            }),
    {
        let project = Project::new(project_id, update_project);
        self.projects.update_existing(project);
    }

    pub fn remove_project(&mut self, project_id: String) -> (r: Option<Project>)
        requires
            old(self).wf(),
        ensures
            final(self).wf(),
            r is Some == old(self).projects.has_key(project_id@),
            r matches Some(p) ==> old(self).projects.lookup(project_id@) == Some(p@)
                && final(self)@ == (crate::registry::RegistryModel {
                projects: old(self)@.projects.remove(old(self).projects.index_of(project_id@)),
                ..old(self)@
            }),
            r is None ==> final(self)@ == old(self)@,
    {
        self.projects.remove_key(&project_id)
    }
}

} // verus!
