use collab_registry::{
    issue_id, Connection, Contract, Contribution, ContributionStatusType, ContributionType, CreateProject, Party,
    Permission, PermissionType,
};

fn fields(name: &str) -> CreateProject {
    CreateProject {
        name: name.to_string(),
        description: format!("{} description", name),
        link: format!("https://{}.example", name),
        github: format!("github.com/{}", name),
    }
}

fn seed(n: u32) -> Vec<u8> {
    let mut s = vec![0u8; 32];
    s[0..4].copy_from_slice(&n.to_be_bytes());
    s
}

fn contribution_type(name: &str) -> ContributionType {
    ContributionType {
        name: name.to_string(),
        description: format!("{} work", name),
        metadata: String::new(),
    }
}

fn names(list: &[&str]) -> Vec<String> {
    list.iter().map(|s| s.to_string()).collect()
}

fn offered_names(c: &Contract, who: &str) -> Option<Vec<String>> {
    c.get_contributor_contribution_types(who.to_string())
        .map(|v| v.into_iter().map(|t| t.name).collect())
}

#[test]
fn issued_id_is_hyphenated_hex() {
    let id = issue_id(&vec![0x12, 0x34, 0x56, 0x78, 0x9a, 0xbc, 0xde, 0xf0, 1, 2, 3, 4, 5, 6, 7, 8, 99]);
    assert_eq!(id, "12345678-9abc-def0-0102-030405060708");
    assert_eq!(issue_id(&vec![]), "00000000-0000-0000-0000-000000000000");
    assert_eq!(issue_id(&vec![0xff]), "ff000000-0000-0000-0000-000000000000");
}

#[test]
fn created_project_is_found_unverified() {
    let mut c = Contract::default();
    let p = c.create_project(fields("alpha"), &seed(1)).unwrap();
    assert_eq!(p.id, issue_id(&seed(1)));
    let got = c.get_project(p.id.clone()).unwrap();
    assert_eq!(got.id, p.id);
    assert_eq!(got.name, "alpha");
    assert_eq!(got.description, "alpha description");
    assert_eq!(got.link, "https://alpha.example");
    assert_eq!(got.github, "github.com/alpha");
    assert!(!got.verified);
    assert!(got.contributors.is_empty());
    assert!(c.get_project("missing".to_string()).is_none());
}

#[test]
fn create_project_with_taken_id_is_refused() {
    let mut c = Contract::new();
    assert!(c.create_project(fields("a"), &seed(7)).is_some());
    assert!(c.create_project(fields("b"), &seed(7)).is_none());
    let all = c.get_projects(None, None);
    assert_eq!(all.len(), 1);
    assert_eq!(all[0].name, "a");
}

#[test]
fn projects_are_paged_in_creation_order() {
    let mut c = Contract::new();
    for i in 0..25u32 {
        c.create_project(fields(&format!("p{}", i)), &seed(i)).unwrap();
    }
    let first = c.get_projects(None, None);
    assert_eq!(first.len(), 20);
    assert_eq!(first[0].name, "p0");
    assert_eq!(first[19].name, "p19");
    let page = c.get_projects(Some(3), Some(5));
    let got: Vec<String> = page.into_iter().map(|p| p.name).collect();
    assert_eq!(got, vec!["p5", "p6", "p7"]);
    let tail = c.get_projects(Some(10), Some(22));
    assert_eq!(tail.len(), 3);
    assert_eq!(tail[2].name, "p24");
    assert!(c.get_projects(Some(4), Some(25)).is_empty());
    assert!(c.get_projects(Some(0), Some(0)).is_empty());
    assert_eq!(c.get_projects(None, Some(20)).len(), 5);
}

#[test]
fn update_project_replaces_fields() {
    let mut c = Contract::new();
    let a = c.create_project(fields("a"), &seed(1)).unwrap();
    let b = c.create_project(fields("b"), &seed(2)).unwrap();
    c.update_project(a.id.clone(), fields("renamed"));
    let got = c.get_project(a.id.clone()).unwrap();
    assert_eq!(got.id, a.id);
    assert_eq!(got.name, "renamed");
    assert_eq!(got.github, "github.com/renamed");
    assert_eq!(c.get_project(b.id.clone()).unwrap().name, "b");
    assert_eq!(c.get_projects(None, None)[0].name, "renamed");
}

#[test]
fn remove_project_returns_prior_value() {
    let mut c = Contract::new();
    let a = c.create_project(fields("a"), &seed(1)).unwrap();
    let b = c.create_project(fields("b"), &seed(2)).unwrap();
    assert_eq!(c.remove_project(a.id.clone()).unwrap().name, "a");
    assert!(c.remove_project(a.id.clone()).is_none());
    assert!(c.get_project(a.id).is_none());
    assert_eq!(c.get_project(b.id).unwrap().name, "b");
}

#[test]
fn thousand_projects_have_distinct_ids() {
    let mut c = Contract::new();
    let mut ids = std::collections::HashSet::new();
    for i in 0..1000u32 {
        let p = c.create_project(fields("p"), &seed(i)).unwrap();
        ids.insert(p.id);
    }
    assert_eq!(ids.len(), 1000);
}

#[test]
fn second_permission_type_of_same_name_is_refused() {
    let mut c = Contract::new();
    let first = c
        .create_permission_type(PermissionType { name: "x".to_string(), description: "one".to_string() })
        .unwrap();
    assert_eq!(first.description, "one");
    let second = c.create_permission_type(PermissionType {
        name: "x".to_string(),
        description: "two".to_string(),
    });
    assert!(second.is_none());
    let stored = c.get_permission_type("x".to_string()).unwrap();
    assert_eq!(stored.description, "one");
    assert_eq!(c.get_permission_types().len(), 1);
}

#[test]
fn permission_type_update_and_remove() {
    let mut c = Contract::new();
    let t = PermissionType { name: "admin".to_string(), description: "old".to_string() };
    assert!(c.update_permission_type(t).is_none());
    assert!(c.get_permission_type("admin".to_string()).is_none());
    c.create_permission_type(PermissionType { name: "admin".to_string(), description: "old".to_string() });
    let prior = c
        .update_permission_type(PermissionType { name: "admin".to_string(), description: "new".to_string() })
        .unwrap();
    assert_eq!(prior.description, "old");
    assert_eq!(c.get_permission_type("admin".to_string()).unwrap().description, "new");
    assert_eq!(c.remove_permission_type("admin".to_string()).unwrap().description, "new");
    assert!(c.remove_permission_type("admin".to_string()).is_none());
}

fn permission(type_id: &str) -> Permission {
    Permission {
        id: String::new(),
        description: "may merge".to_string(),
        contributor_id: "alice.near".to_string(),
        project_id: "proj".to_string(),
        type_id: type_id.to_string(),
    }
}

#[test]
fn permission_needs_known_type() {
    let mut c = Contract::new();
    assert!(c.create_permission(permission("write"), &seed(1)).is_none());
    c.create_permission_type(PermissionType { name: "write".to_string(), description: "w".to_string() });
    let v = c.create_permission(permission("write"), &seed(1)).unwrap();
    assert_eq!(v.id, issue_id(&seed(1)));
    assert_eq!(v.permission_type.name, "write");
    assert_eq!(v.contributor_id, "alice.near");
    let got = c.get_permission(v.id.clone()).unwrap();
    assert_eq!(got.description, "may merge");
    assert_eq!(got.permission_type.description, "w");
    assert!(c.create_permission(permission("write"), &seed(1)).is_none());
}

#[test]
fn update_permission_checks_id_and_type() {
    let mut c = Contract::new();
    c.create_permission_type(PermissionType { name: "write".to_string(), description: "w".to_string() });
    c.create_permission_type(PermissionType { name: "read".to_string(), description: "r".to_string() });
    let v = c.create_permission(permission("write"), &seed(3)).unwrap();
    assert!(c.update_permission("nope".to_string(), permission("read")).is_none());
    assert!(c.update_permission(v.id.clone(), permission("ghost")).is_none());
    assert_eq!(c.get_permission(v.id.clone()).unwrap().permission_type.name, "write");
    let u = c.update_permission(v.id.clone(), permission("read")).unwrap();
    assert_eq!(u.id, v.id);
    assert_eq!(u.permission_type.name, "read");
    assert_eq!(c.get_permission(v.id.clone()).unwrap().permission_type.name, "read");
}

#[test]
fn removed_type_hides_permission() {
    let mut c = Contract::new();
    c.create_permission_type(PermissionType { name: "write".to_string(), description: "w".to_string() });
    let v = c.create_permission(permission("write"), &seed(4)).unwrap();
    c.remove_permission_type("write".to_string());
    assert!(c.get_permission(v.id.clone()).is_none());
    assert!(c.remove_permission(v.id.clone()).is_none());
    assert!(c.remove_permission(v.id).is_none());
}

#[test]
fn remove_permission_returns_view() {
    let mut c = Contract::new();
    c.create_permission_type(PermissionType { name: "write".to_string(), description: "w".to_string() });
    let v = c.create_permission(permission("write"), &seed(5)).unwrap();
    let r = c.remove_permission(v.id.clone()).unwrap();
    assert_eq!(r.permission_type.name, "write");
    assert!(c.get_permission(v.id).is_none());
}

#[test]
fn offered_types_accumulate_without_duplicates() {
    let mut c = Contract::new();
    for n in ["code", "design", "audit"] {
        c.create_contribution_type(contribution_type(n)).unwrap();
    }
    let first = c.add_contributor_contribution_types(&"bob.near".to_string(), names(&["code", "design"])).unwrap();
    assert_eq!(first.len(), 2);
    let second = c
        .add_contributor_contribution_types(&"bob.near".to_string(), names(&["design", "audit"]))
        .unwrap();
    let got: Vec<String> = second.into_iter().map(|t| t.name).collect();
    assert_eq!(got, vec!["code", "design", "audit"]);
    assert_eq!(offered_names(&c, "bob.near").unwrap(), vec!["code", "design", "audit"]);
}

#[test]
fn unknown_offered_type_fails_whole_call() {
    let mut c = Contract::new();
    c.create_contribution_type(contribution_type("code"));
    assert!(c.add_contributor_contribution_types(&"eve.near".to_string(), names(&["code", "ghost"])).is_none());
    assert!(c.get_contributor_contribution_types("eve.near".to_string()).is_none());
    assert!(c.add_contributor_contribution_types(&"eve.near".to_string(), names(&["ghost"])).is_none());
    assert!(offered_names(&c, "eve.near").is_none());
}

#[test]
fn removing_offered_types() {
    let mut c = Contract::new();
    for n in ["code", "design"] {
        c.create_contribution_type(contribution_type(n));
    }
    c.add_contributor_contribution_types(&"bob.near".to_string(), names(&["code", "design"]));
    let left = c
        .remove_contributor_contribution_types(&"bob.near".to_string(), names(&["code", "other"]))
        .unwrap();
    assert_eq!(left.len(), 1);
    assert_eq!(left[0].name, "design");
    let fresh = c.remove_contributor_contribution_types(&"new.near".to_string(), names(&["code"])).unwrap();
    assert!(fresh.is_empty());
    assert_eq!(offered_names(&c, "new.near").unwrap(), Vec::<String>::new());
}

#[test]
fn deleted_type_is_left_out_of_offered() {
    let mut c = Contract::new();
    for n in ["code", "design"] {
        c.create_contribution_type(contribution_type(n));
    }
    c.add_contributor_contribution_types(&"bob.near".to_string(), names(&["code", "design"]));
    assert_eq!(c.remove_contribution_type("code".to_string()).unwrap().name, "code");
    assert_eq!(offered_names(&c, "bob.near").unwrap(), vec!["design"]);
}

#[test]
fn contribution_type_registries() {
    let mut c = Contract::new();
    assert!(c.create_contribution_type(contribution_type("code")).is_some());
    assert!(c.create_contribution_type(contribution_type("code")).is_none());
    let prior = c
        .update_contribution_type(ContributionType {
            name: "code".to_string(),
            description: "changed".to_string(),
            metadata: "m".to_string(),
        })
        .unwrap();
    assert_eq!(prior.description, "code work");
    assert_eq!(c.get_contribution_type("code".to_string()).unwrap().metadata, "m");
    assert_eq!(c.get_contribution_types().len(), 1);
    let st = ContributionStatusType { name: "open".to_string(), description: "o".to_string() };
    assert!(c.create_contribution_status_type(st).is_some());
    assert!(c
        .update_contribution_status_type(ContributionStatusType { name: "closed".to_string(), description: "c".to_string() })
        .is_none());
    assert_eq!(c.get_contribution_status_types().len(), 1);
    assert_eq!(c.get_contribution_status_type("open".to_string()).unwrap().description, "o");
    assert!(c.remove_contribution_status_type("open".to_string()).is_some());
    assert!(c.get_contribution_status_type("open".to_string()).is_none());
}

fn contribution(id: &str, project: &str, kind: &str, status: &str) -> Contribution {
    Contribution {
        id: id.to_string(),
        description: "work".to_string(),
        project_id: project.to_string(),
        contributor_id: "bob.near".to_string(),
        type_id: kind.to_string(),
        status_id: status.to_string(),
    }
}

#[test]
fn contributions_append_per_project() {
    let mut c = Contract::new();
    c.create_contribution_type(contribution_type("code"));
    c.create_contribution_status_type(ContributionStatusType { name: "open".to_string(), description: String::new() });
    assert!(!c.add_contribution(contribution("c0", "p1", "ghost", "open")));
    assert!(!c.add_contribution(contribution("c0", "p1", "code", "ghost")));
    assert!(c.add_contribution(contribution("c1", "p1", "code", "open")));
    assert!(c.add_contribution(contribution("c2", "p2", "code", "open")));
    assert!(c.add_contribution(contribution("c3", "p1", "code", "open")));
    let p1: Vec<String> = c.get_contributions("p1".to_string()).into_iter().map(|x| x.id).collect();
    assert_eq!(p1, vec!["c1", "c3"]);
    assert_eq!(c.get_contributions("p2".to_string()).len(), 1);
    assert!(c.get_contributions("p3".to_string()).is_empty());
}

#[test]
fn connection_transitions_are_validated() {
    let requested = Connection::RequestedByContributor;
    assert!(requested.accept(Party::Contributor, 5).is_none());
    assert!(requested.finish(6).is_none());
    let mut ongoing = requested.accept(Party::Project, 5).unwrap();
    match &ongoing {
        Connection::Ongoing { contributions, started_at } => {
            assert!(contributions.is_empty());
            assert_eq!(*started_at, 5);
        }
        _ => panic!("expected an ongoing connection"),
    }
    assert!(ongoing.accept(Party::Project, 7).is_none());
    assert!(ongoing.record(contribution("c1", "p1", "code", "open")));
    let finished = ongoing.finish(9).unwrap();
    match &finished {
        Connection::Finished { contributions, finished_at } => {
            assert_eq!(contributions.len(), 1);
            assert_eq!(contributions[0].id, "c1");
            assert_eq!(*finished_at, 9);
        }
        _ => panic!("expected a finished connection"),
    }
    let mut done = finished;
    assert!(!done.record(contribution("c2", "p1", "code", "open")));
    assert!(Connection::RequestedByProject.accept(Party::Contributor, 1).is_some());
    assert!(Connection::RequestedByProject.accept(Party::Project, 1).is_none());
}
