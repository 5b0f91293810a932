use vstd::prelude::*;

use crate::id::{issue_id, issued_id};
use crate::registry::{Contract, RegistryModel};
use crate::table::Keyed;

verus! {

/// A kind of permission, known by its name.
pub struct PermissionType {
    pub name: String,
    pub description: String,
}

pub struct PermissionTypeModel {
    pub name: Seq<char>,
    pub description: Seq<char>,
}

/// A permission granted to a contributor on a project.
pub struct Permission {
    pub id: String,
    pub description: String,
    pub contributor_id: String,
    pub project_id: String,
    pub type_id: String,
}

pub struct PermissionModel {
    pub id: Seq<char>,
    pub description: Seq<char>,
    pub contributor_id: Seq<char>,
    pub project_id: Seq<char>,
    pub type_id: Seq<char>,
}

/// A permission with its type resolved.
pub struct PermissionView {
    pub id: String,
    pub description: String,
    pub contributor_id: String,
    pub project_id: String,
    pub permission_type: PermissionType,
}

pub struct PermissionViewModel {
    pub id: Seq<char>,
    pub description: Seq<char>,
    pub contributor_id: Seq<char>,
    pub project_id: Seq<char>,
    pub permission_type: PermissionTypeModel,
}

impl View for PermissionType {
    type V = PermissionTypeModel;

    open spec fn view(&self) -> PermissionTypeModel {
        PermissionTypeModel { name: self.name@, description: self.description@ }
    }
}

impl Keyed for PermissionType {
    open spec fn key_of(m: PermissionTypeModel) -> Seq<char> {
        m.name
    }

    fn key(&self) -> (r: &String) {
        &self.name
    }

    fn duplicate(&self) -> (r: Self) {
        PermissionType { name: self.name.clone(), description: self.description.clone() }
    }
}

impl View for Permission {
    type V = PermissionModel;

    open spec fn view(&self) -> PermissionModel {
        PermissionModel {
            id: self.id@,
            description: self.description@,
            contributor_id: self.contributor_id@,
            project_id: self.project_id@,
            type_id: self.type_id@,
        }
    }
}

impl Keyed for Permission {
    open spec fn key_of(m: PermissionModel) -> Seq<char> {
        m.id
    }

    fn key(&self) -> (r: &String) {
        &self.id
    }

    fn duplicate(&self) -> (r: Self) {
        Permission {
            id: self.id.clone(),
            description: self.description.clone(),
            contributor_id: self.contributor_id.clone(),
            project_id: self.project_id.clone(),
            type_id: self.type_id.clone(),
        }
    }
}

impl View for PermissionView {
    type V = PermissionViewModel;

    open spec fn view(&self) -> PermissionViewModel {
        PermissionViewModel {
            id: self.id@,
            description: self.description@,
            contributor_id: self.contributor_id@,
            project_id: self.project_id@,
            permission_type: self.permission_type@,
        }
    }
}

/// A permission shown with its type.
pub open spec fn view_of(p: PermissionModel, t: PermissionTypeModel) -> PermissionViewModel {
    PermissionViewModel {
        id: p.id,
        description: p.description,
        contributor_id: p.contributor_id,
        project_id: p.project_id,
        permission_type: t,
    }
}

/// `p` under identifier `id`.
pub open spec fn with_id(p: PermissionModel, id: Seq<char>) -> PermissionModel {
    PermissionModel { id, ..p }
}

/// The view of a permission record whose type is found in `m`, if it is.
pub open spec fn resolved_view(m: RegistryModel, p: PermissionModel) -> Option<PermissionViewModel> {
    match crate::table::seq_lookup::<PermissionType>(m.permission_types, p.type_id) {
        Some(t) => Some(view_of(p, t)),
        None => None,
    }
}

fn make_view(p: Permission, t: PermissionType) -> (r: PermissionView)
    ensures
        r@ == view_of(p@, t@),
{
    PermissionView {
        id: p.id,
        description: p.description,
        contributor_id: p.contributor_id,
        project_id: p.project_id,
        permission_type: t,
    }
}

/// The models of an optional view.
pub open spec fn view_opt(r: Option<PermissionView>) -> Option<PermissionViewModel> {
    match r {
        Some(v) => Some(v@),
        None => None,
    }
}

/// The models of an optional permission type.
pub open spec fn type_opt(r: Option<PermissionType>) -> Option<PermissionTypeModel> {
    match r {
        Some(t) => Some(t@),
        None => None,
    }
}

/// The view of the permission stored under `id` in `m`: none if there is no
/// such permission or its type is not found.
pub open spec fn permission_view_at(m: RegistryModel, id: Seq<char>) -> Option<PermissionViewModel> {
    match crate::table::seq_lookup::<Permission>(m.permissions, id) {
        Some(p) => resolved_view(m, p),
        None => None,
    }
}

impl Contract {
    pub fn get_permission(&self, permission_id: String) -> (r: Option<PermissionView>)
        requires
            self.wf(),
        ensures
            view_opt(r) == permission_view_at(self@, permission_id@),
    {
        let permission = match self.permissions.get(&permission_id) {
            Some(p) => p,
            None => return None,
        };
        let permission_type = match self.permission_types.get(&permission.type_id) {
            Some(t) => t,
            None => return None,
        };
        Some(make_view(permission, permission_type))
    }

    /// Stores `permission` under an identifier issued from `random_seed`, if
    /// its type is known and the identifier is free, and returns its view.
    pub fn create_permission(&mut self, permission: Permission, random_seed: &Vec<u8>) -> (r:
        Option<PermissionView>)
        requires
            old(self).wf(),
        ensures
            final(self).wf(),
            r is Some == (old(self).permission_types.has_key(permission.type_id@)
                && !old(self).permissions.has_key(issued_id(random_seed@))),
            r is Some ==> final(self)@ == (RegistryModel {
                permissions: old(self)@.permissions.push(
                    with_id(permission@, issued_id(random_seed@)),
                ),
                ..old(self)@
            }) && view_opt(r) == resolved_view(
                old(self)@,
                with_id(permission@, issued_id(random_seed@)),
            ),
            r is None ==> final(self)@ == old(self)@,
    {
        let permission_type = match self.permission_types.get(&permission.type_id) {
            Some(t) => t,
            None => return None,
        };
        let id = issue_id(random_seed);
        if self.permissions.contains_key(&id) {
            return None;
        }
        let mut permission = permission;
        permission.id = id;
        let stored = permission.duplicate();
        self.permissions.push_new(stored);
        Some(make_view(permission, permission_type))
    }

    /// Replaces the permission stored under `permission_id`, if there is one
    /// and the type of the new one is known, and returns the new view.
    pub fn update_permission(&mut self, permission_id: String, permission: Permission) -> (r:
        Option<PermissionView>)
        requires
            old(self).wf(),
        ensures
            final(self).wf(),
            r is Some == (old(self).permissions.has_key(permission_id@)
                && old(self).permission_types.has_key(permission.type_id@)),
            r is Some ==> final(self)@ == (RegistryModel {
                permissions: old(self)@.permissions.update(
                    old(self).permissions.index_of(permission_id@),
                    with_id(permission@, permission_id@),
                ),
                ..old(self)@
            }) && view_opt(r) == resolved_view(old(self)@, with_id(permission@, permission_id@)),
            r is None ==> final(self)@ == old(self)@,
    {
        let i = match self.permissions.position(&permission_id) {
            Some(i) => i,
            None => return None,
        };
        let permission_type = match self.permission_types.get(&permission.type_id) {
            Some(t) => t,
            None => return None,
        };
        let mut permission = permission;
        permission.id = permission_id;
        let stored = permission.duplicate();
        self.permissions.replace_at(i, stored);
        Some(make_view(permission, permission_type))
    }

    /// Removes the permission stored under `permission_id` and returns its
    /// view, which is none if its type is no longer known.
    pub fn remove_permission(&mut self, permission_id: String) -> (r: Option<PermissionView>)
        requires
            old(self).wf(),
        ensures
            final(self).wf(),
            view_opt(r) == permission_view_at(old(self)@, permission_id@),
            old(self).permissions.has_key(permission_id@) ==> final(self)@ == (RegistryModel {
                permissions: old(self)@.permissions.remove(
                    old(self).permissions.index_of(permission_id@),
                ),
                ..old(self)@
            }),
            !old(self).permissions.has_key(permission_id@) ==> final(self)@ == old(self)@,
    {
        let permission = match self.permissions.remove_key(&permission_id) {
            Some(p) => p,
            None => return None,
        };
        let permission_type = match self.permission_types.get(&permission.type_id) {
            Some(t) => t,
            None => return None,
        };
        Some(make_view(permission, permission_type))
    }

    pub fn get_permission_type(&self, permission_type: String) -> (r: Option<PermissionType>)
        requires
            self.wf(),
        ensures
            type_opt(r) == self.permission_types.lookup(permission_type@),
    {
        self.permission_types.get(&permission_type)
    }

    /// All permission types, in the order they were created.
    pub fn get_permission_types(&self) -> (r: Vec<PermissionType>)
        ensures
            r@.map_values(|t: PermissionType| t@) == self@.permission_types,
    {
        let r = self.permission_types.page(self.permission_types.len(), 0);
        assert(crate::table::page(self@.permission_types, self@.permission_types.len(), 0)
            =~= self@.permission_types);
        r
    }

    /// Adds a permission type under a name not yet in use and returns it;
    /// gives `None`, and changes nothing, if the name is taken.
    pub fn create_permission_type(&mut self, permission_type: PermissionType) -> (r: Option<
        PermissionType,
    >)
        requires
            old(self).wf(),
        ensures
            final(self).wf(),
            r is Some == !old(self).permission_types.has_key(permission_type@.name),
            r is Some ==> type_opt(r) == Some(permission_type@) && final(self)@ == (RegistryModel {
                permission_types: old(self)@.permission_types.push(permission_type@),
                ..old(self)@
            }),
            r is None ==> final(self)@ == old(self)@,
    {
        let copy = permission_type.duplicate();
        if self.permission_types.insert_if_absent(permission_type) {
            Some(copy)
        } else {
            None
        }
    }

    /// Replaces the permission type of the same name, if there is one, and
    /// returns the one it replaced.
    pub fn update_permission_type(&mut self, permission_type: PermissionType) -> (r: Option<
        PermissionType,
    >)
        requires
            old(self).wf(),
        ensures
            final(self).wf(),
            type_opt(r) == old(self).permission_types.lookup(permission_type@.name),
            r is Some ==> final(self)@ == (RegistryModel {
                permission_types: old(self)@.permission_types.update(
                    old(self).permission_types.index_of(permission_type@.name),
                    permission_type@,
                ),
                ..old(self)@
            }),
            r is None ==> final(self)@ == old(self)@,
    {
        self.permission_types.update_existing(permission_type)
    }

    /// Removes the permission type of that name and returns it; permissions
    /// of that type stay as they are.
    pub fn remove_permission_type(&mut self, permission_type: String) -> (r: Option<
        PermissionType,
    >)
        requires
            old(self).wf(),
        ensures
            final(self).wf(),
            type_opt(r) == old(self).permission_types.lookup(permission_type@),
            r is Some ==> final(self)@ == (RegistryModel {
                permission_types: old(self)@.permission_types.remove(
                    old(self).permission_types.index_of(permission_type@),
                ),
                ..old(self)@
            }),
            r is None ==> final(self)@ == old(self)@,
    {
        self.permission_types.remove_key(&permission_type)
    }
}

} // verus!
