use vstd::prelude::*;

use crate::contributor::offered_of;
use crate::permission::{permission_view_at, PermissionType, PermissionTypeModel};
use crate::project::{fresh_project, CreateProject, Project, ProjectModel};
use crate::registry::RegistryModel;
use crate::table::{
    keys_unique, lemma_lookup_at, lemma_removed_key_absent, page, seq_has_key, seq_index_of, Keyed,
    seq_lookup,
};
use crate::permission::Permission;

verus! {

/// A project created under a fresh identifier is then found under it with the
/// fields it was created with, not verified and with no contributors.
pub proof fn lemma_created_project_found(
    projects: Seq<ProjectModel>,
    id: Seq<char>,
    fields: CreateProject,
)
    requires
        keys_unique::<Project>(projects),
        !seq_has_key::<Project>(projects, id),
    ensures
        seq_lookup::<Project>(projects.push(fresh_project(id, fields)), id) == Some(
            fresh_project(id, fields),
        ),
        fresh_project(id, fields).name == fields.name@,
        fresh_project(id, fields).description == fields.description@,
        fresh_project(id, fields).link == fields.link@,
        fresh_project(id, fields).github == fields.github@,
        !fresh_project(id, fields).verified,
        fresh_project(id, fields).contributors.len() == 0,
{
    let s = projects.push(fresh_project(id, fields));
    assert forall|i: int, j: int|
        0 <= i < s.len() && 0 <= j < s.len() && i != j implies #[trigger] Project::key_of(s[i])
        != #[trigger] Project::key_of(s[j]) by {
        if i == projects.len() {
            assert(s[j] == projects[j]);
        } else if j == projects.len() {
            assert(s[i] == projects[i]);
        } else {
            assert(s[i] == projects[i] && s[j] == projects[j]);
        }
    }
    lemma_lookup_at::<Project>(s, projects.len() as int);
}

/// A page holds the records from position `offset` on, as many as `limit`
/// allows and the sequence has.
pub proof fn lemma_page_exact<T>(s: Seq<T>, limit: nat, offset: nat)
    ensures
        offset >= s.len() ==> page(s, limit, offset).len() == 0,
        offset < s.len() ==> page(s, limit, offset).len() == if limit <= s.len() - offset {
            limit as int
        } else {
            s.len() - offset
        },
        forall|i: int|
            0 <= i < page(s, limit, offset).len() ==> #[trigger] page(s, limit, offset)[i] == s[offset
                + i],
{
}

/// Replacing an existing project leaves it with the new fields under the same
/// identifier, and every other project as it was.
pub proof fn lemma_updated_project_found(
    projects: Seq<ProjectModel>,
    id: Seq<char>,
    fields: CreateProject,
)
    requires
        keys_unique::<Project>(projects),
        seq_has_key::<Project>(projects, id),
    ensures
        seq_lookup::<Project>(
            projects.update(seq_index_of::<Project>(projects, id), fresh_project(id, fields)),
            id,
        ) == Some(fresh_project(id, fields)),
        forall|k: Seq<char>|
            k != id ==> #[trigger] seq_lookup::<Project>(
                projects.update(seq_index_of::<Project>(projects, id), fresh_project(id, fields)),
                k,
            ) == seq_lookup::<Project>(projects, k),
{
    let i = seq_index_of::<Project>(projects, id);
    let s = projects.update(i, fresh_project(id, fields));
    assert(Project::key_of(projects[i]) == id);
    assert forall|a: int, b: int|
        0 <= a < s.len() && 0 <= b < s.len() && a != b implies #[trigger] Project::key_of(s[a])
        != #[trigger] Project::key_of(s[b]) by {
        assert(Project::key_of(s[a]) == Project::key_of(projects[a]));
        assert(Project::key_of(s[b]) == Project::key_of(projects[b]));
    }
    lemma_lookup_at::<Project>(s, i);
    assert forall|k: Seq<char>| k != id implies #[trigger] seq_lookup::<Project>(s, k)
        == seq_lookup::<Project>(projects, k) by {
        if seq_has_key::<Project>(s, k) {
            let j = choose|j: int| 0 <= j < s.len() && #[trigger] Project::key_of(s[j]) == k;
            assert(j != i);
            lemma_lookup_at::<Project>(s, j);
            lemma_lookup_at::<Project>(projects, j);
        } else if seq_has_key::<Project>(projects, k) {
            let j = choose|j: int|
                0 <= j < projects.len() && #[trigger] Project::key_of(projects[j]) == k;
            assert(Project::key_of(s[j]) == k);
        }
    }
}

/// Once a permission type is created, a second one of the same name is refused
/// (its name is taken) and the first stays stored.
pub proof fn lemma_second_type_refused(
    types: Seq<PermissionTypeModel>,
    first: PermissionTypeModel,
    second: PermissionTypeModel,
)
    requires
        keys_unique::<PermissionType>(types),
        !seq_has_key::<PermissionType>(types, first.name),
        second.name == first.name,
    ensures
        seq_has_key::<PermissionType>(types.push(first), second.name),
        seq_lookup::<PermissionType>(types.push(first), first.name) == Some(first),
{
    let s = types.push(first);
    assert forall|i: int, j: int|
        0 <= i < s.len() && 0 <= j < s.len() && i != j implies #[trigger]
        PermissionType::key_of(s[i]) != #[trigger] PermissionType::key_of(s[j]) by {
        if i == types.len() {
            assert(s[j] == types[j]);
        } else if j == types.len() {
            assert(s[i] == types[i]);
        } else {
            assert(s[i] == types[i] && s[j] == types[j]);
        }
    }
    lemma_lookup_at::<PermissionType>(s, types.len() as int);
}

/// Two successful additions of offered types, by a caller with no record
/// before, leave it offering each name of either list exactly once.
pub proof fn lemma_offered_union(
    before: RegistryModel,
    middle: RegistryModel,
    after: RegistryModel,
    caller: Seq<char>,
    first: Seq<Seq<char>>,
    second: Seq<Seq<char>>,
)
    requires
        offered_of(before, caller) is None,
        offered_of(middle, caller) matches Some(o) && forall|s: Seq<char>|
            #[trigger] o.contains(s) == ((offered_of(before, caller) matches Some(p) && p.contains(
                s,
            )) || first.contains(s)),
        offered_of(after, caller) matches Some(o) && o.no_duplicates() && forall|s: Seq<char>|
            #[trigger] o.contains(s) == ((offered_of(middle, caller) matches Some(p) && p.contains(
                s,
            )) || second.contains(s)),
    ensures
        offered_of(after, caller) matches Some(o) && o.no_duplicates() && forall|s: Seq<char>|
            #[trigger] o.contains(s) == (first.contains(s) || second.contains(s)),
{
    let o1 = offered_of(middle, caller).unwrap();
    let o2 = offered_of(after, caller).unwrap();
    assert forall|s: Seq<char>| #[trigger] o2.contains(s) == (first.contains(s) || second.contains(
        s,
    )) by {
        assert(o2.contains(s) == (o1.contains(s) || second.contains(s)));
        assert(o1.contains(s) == first.contains(s));
    }
}

/// Once the type of a permission is removed, the permission has no view: it is
/// reported absent.
pub proof fn lemma_removed_type_hides_permission(m: RegistryModel, permission_id: Seq<char>)
    requires
        keys_unique::<PermissionType>(m.permission_types),
        seq_lookup::<Permission>(m.permissions, permission_id) matches Some(p)
            && seq_has_key::<PermissionType>(m.permission_types, p.type_id),
    ensures
        permission_view_at(
            RegistryModel {
                permission_types: m.permission_types.remove(
                    seq_index_of::<PermissionType>(
                        m.permission_types,
                        seq_lookup::<Permission>(m.permissions, permission_id).unwrap().type_id,
                    ),
                ),
                ..m
            },
            permission_id,
        ) is None,
{
    let p = seq_lookup::<Permission>(m.permissions, permission_id).unwrap();
    lemma_removed_key_absent::<PermissionType>(m.permission_types, p.type_id);
}

/// The identifiers of the registered projects are pairwise distinct.
pub proof fn lemma_project_ids_distinct(m: RegistryModel)
    requires
        keys_unique::<Project>(m.projects),
    ensures
        forall|i: int, j: int|
            0 <= i < m.projects.len() && 0 <= j < m.projects.len() && i != j ==> m.projects[i].id
                != m.projects[j].id,
{
    assert forall|i: int, j: int|
        0 <= i < m.projects.len() && 0 <= j < m.projects.len() && i != j implies m.projects[i].id
        != m.projects[j].id by {
        assert(Project::key_of(m.projects[i]) != Project::key_of(m.projects[j]));
    }
}

} // verus!
