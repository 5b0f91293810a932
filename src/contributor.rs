use vstd::prelude::*;

use crate::contribution::{ContributionType, ContributionTypeModel};
use crate::registry::{Contract, RegistryModel};
use crate::table::{copy_texts, texts, Keyed};

verus! {

/// A contributor, known by the identity of the caller who made the record,
/// with the names of the contribution types it offers.
pub struct Contributor {
    pub id: String,
    pub contribution_types_currently_offered: Vec<String>,
}

pub struct ContributorModel {
    pub id: Seq<char>,
    pub offered: Seq<Seq<char>>,
}

impl View for Contributor {
    type V = ContributorModel;

    open spec fn view(&self) -> ContributorModel {
        ContributorModel { id: self.id@, offered: texts(self.contribution_types_currently_offered@) }
    }
}

impl Keyed for Contributor {
    open spec fn key_of(m: ContributorModel) -> Seq<char> {
        m.id
    }

    fn key(&self) -> (r: &String) {
        &self.id
    }

    fn duplicate(&self) -> (r: Self) {
        Contributor {
            id: self.id.clone(),
            contribution_types_currently_offered: copy_texts(
                &self.contribution_types_currently_offered,
            ),
        }
    }
}

/// The contribution types named in `names`, in that order, leaving out the
/// names that `types` does not hold.
pub open spec fn resolved_types(types: Seq<ContributionTypeModel>, names: Seq<Seq<char>>) -> Seq<
    ContributionTypeModel,
>
    decreases names.len(),
{
    if names.len() == 0 {
        Seq::empty()
    } else {
        let rest = resolved_types(types, names.drop_last());
        match crate::table::seq_lookup::<ContributionType>(types, names.last()) {
            Some(t) => rest.push(t),
            None => rest,
        }
    }
}

/// The type names offered by the contributor `id` in `m`, if it has a record.
pub open spec fn offered_of(m: RegistryModel, id: Seq<char>) -> Option<Seq<Seq<char>>> {
    match crate::table::seq_lookup::<Contributor>(m.contributors, id) {
        Some(c) => Some(c.offered),
        None => None,
    }
}

/// The models of a list of contribution types.
pub open spec fn type_models(v: Seq<ContributionType>) -> Seq<ContributionTypeModel> {
    v.map_values(|t: ContributionType| t@)
}

/// Appending a value not yet present keeps the values distinct.
proof fn lemma_push_distinct(s: Seq<Seq<char>>, x: Seq<char>)
    requires
        s.no_duplicates(),
        !s.contains(x),
    ensures
        s.push(x).no_duplicates(),
{
    let t = s.push(x);
    assert forall|a: int, b: int| 0 <= a < t.len() && 0 <= b < t.len() && a != b implies t[a]
        != t[b] by {
        if a == s.len() {
            assert(t[b] == s[b]);
        } else if b == s.len() {
            assert(t[a] == s[a]);
        } else {
            assert(t[a] == s[a] && t[b] == s[b]);
        }
    }
}

/// Whether `v` holds the text `s`.
fn contains_text(v: &Vec<String>, s: &String) -> (r: bool)
    ensures
        r == texts(v@).contains(s@),
{
    let mut i: usize = 0;
    while i < v.len()
        invariant
            i <= v@.len(),
            forall|j: int| 0 <= j < i ==> #[trigger] texts(v@)[j] != s@,
        decreases v@.len() - i,
    {
        if v[i] == *s {
            assert(texts(v@)[i as int] == s@);
            return true;
        }
        i = i + 1;
    }
    false
}

/// `base` followed by the texts of `added` that it lacks, each once.
fn union_texts(base: &Vec<String>, added: &Vec<String>) -> (r: Vec<String>)
    requires
        texts(base@).no_duplicates(),
    ensures
        texts(r@).no_duplicates(),
        texts(r@).subrange(0, base@.len() as int) == texts(base@),
        base@.len() <= r@.len(),
        forall|s: Seq<char>|
            #[trigger] texts(r@).contains(s) == (texts(base@).contains(s) || texts(
                added@,
            ).contains(s)),
{
    let mut r = copy_texts(base);
    assert(r@.len() == texts(r@).len());
    assert(texts(r@).subrange(0, base@.len() as int) =~= texts(base@));
    let mut i: usize = 0;
    while i < added.len()
        invariant
            i <= added@.len(),
            base@.len() <= r@.len(),
            texts(r@).no_duplicates(),
            texts(r@).subrange(0, base@.len() as int) == texts(base@),
            forall|s: Seq<char>|
                #[trigger] texts(r@).contains(s) == (texts(base@).contains(s) || texts(
                    added@.subrange(0, i as int),
                ).contains(s)),
        decreases added@.len() - i,
    {
        let ghost r0 = r@;
        let ghost x = added@[i as int]@;
        if !contains_text(&r, &added[i]) {
            r.push(added[i].clone());
            assert(texts(r@) =~= texts(r0).push(x));
            proof {
                lemma_push_distinct(texts(r0), x);
            }
            assert(texts(r@).subrange(0, base@.len() as int) =~= texts(r0).subrange(
                0,
                base@.len() as int,
            ));
        } else {
            assert(texts(r@) == texts(r0));
        }
        let ghost a0 = texts(added@.subrange(0, i as int));
        i = i + 1;
        let ghost a1 = texts(added@.subrange(0, i as int));
        assert(a1 =~= a0.push(x));
        assert forall|s: Seq<char>| #[trigger] texts(r@).contains(s) == (texts(base@).contains(s)
            || a1.contains(s)) by {
            if a1.contains(s) && s != x {
                let j = choose|j: int| 0 <= j < a1.len() && a1[j] == s;
                assert(a0[j] == s);
            }
            if a0.contains(s) {
                let j = choose|j: int| 0 <= j < a0.len() && a0[j] == s;
                assert(a1[j] == s);
            }
            if texts(r@).contains(s) && s != x {
                let j = choose|j: int| 0 <= j < texts(r@).len() && texts(r@)[j] == s;
                assert(texts(r0)[j] == s);
            }
            if texts(r0).contains(s) {
                let j = choose|j: int| 0 <= j < texts(r0).len() && texts(r0)[j] == s;
                assert(texts(r@)[j] == s);
            }
            if s == x {
                assert(a1[a1.len() - 1] == s);
                if !texts(r0).contains(x) {
                    assert(texts(r@)[texts(r@).len() - 1] == s);
                }
            }
        }
    }
    assert(added@.subrange(0, i as int) =~= added@);
    r
}

/// The texts of `base` that `removed` does not hold, in their order.
fn without_texts(base: &Vec<String>, removed: &Vec<String>) -> (r: Vec<String>)
    requires
        texts(base@).no_duplicates(),
    ensures
        texts(r@).no_duplicates(),
        forall|s: Seq<char>|
            #[trigger] texts(r@).contains(s) == (texts(base@).contains(s) && !texts(
                removed@,
            ).contains(s)),
{
    let mut r: Vec<String> = Vec::new();
    let mut i: usize = 0;
    while i < base.len()
        invariant
            i <= base@.len(),
            texts(base@).no_duplicates(),
            texts(r@).no_duplicates(),
            forall|s: Seq<char>|
                #[trigger] texts(r@).contains(s) == (texts(base@.subrange(0, i as int)).contains(
                    s,
                ) && !texts(removed@).contains(s)),
        decreases base@.len() - i,
    {
        let ghost r0 = r@;
        let ghost x = base@[i as int]@;
        let ghost b0 = texts(base@.subrange(0, i as int));
        assert(!b0.contains(x)) by {
            if b0.contains(x) {
                let j = choose|j: int| 0 <= j < b0.len() && b0[j] == x;
                assert(texts(base@)[j] == texts(base@)[i as int]);
            }
        }
        if !contains_text(removed, &base[i]) {
            r.push(base[i].clone());
            assert(texts(r@) =~= texts(r0).push(x));
            proof {
                assert(!texts(r0).contains(x));
                lemma_push_distinct(texts(r0), x);
            }
        } else {
            assert(texts(r@) == texts(r0));
        }
        i = i + 1;
        let ghost b1 = texts(base@.subrange(0, i as int));
        assert(b1 =~= b0.push(x));
        assert forall|s: Seq<char>| #[trigger] texts(r@).contains(s) == (b1.contains(s)
            && !texts(removed@).contains(s)) by {
            if b1.contains(s) && s != x {
                let j = choose|j: int| 0 <= j < b1.len() && b1[j] == s;
                assert(b0[j] == s);
            }
            if b0.contains(s) {
                let j = choose|j: int| 0 <= j < b0.len() && b0[j] == s;
                assert(b1[j] == s);
            }
            if texts(r@).contains(s) && s != x {
                let j = choose|j: int| 0 <= j < texts(r@).len() && texts(r@)[j] == s;
                assert(texts(r0)[j] == s);
            }
            if texts(r0).contains(s) {
                let j = choose|j: int| 0 <= j < texts(r0).len() && texts(r0)[j] == s;
                assert(texts(r@)[j] == s);
            }
            if s == x {
                assert(b1[b1.len() - 1] == s);
                if texts(r@).len() > texts(r0).len() {
                    assert(texts(r@)[texts(r@).len() - 1] == s);
                }
            }
        }
    }
    assert(base@.subrange(0, i as int) =~= base@);
    r
}

impl Contract {
    /// The contribution types that `names` name, in that order, leaving out
    /// those no longer known.
    fn resolve_types(&self, names: &Vec<String>) -> (r: Vec<ContributionType>)
        requires
            self.wf(),
        ensures
            type_models(r@) == resolved_types(self@.contribution_types, texts(names@)),
    {
        let mut r: Vec<ContributionType> = Vec::new();
        let mut i: usize = 0;
        while i < names.len()
            invariant
                self.wf(),
                i <= names@.len(),
                type_models(r@) == resolved_types(
                    self@.contribution_types,
                    texts(names@).subrange(0, i as int),
                ),
            decreases names@.len() - i,
        {
            let ghost r0 = r@;
            let ghost n1 = texts(names@).subrange(0, i + 1);
            assert(n1.drop_last() =~= texts(names@).subrange(0, i as int));
            assert(n1.last() == names@[i as int]@);
            match self.contribution_types.get(&names[i]) {
                Some(t) => {
                    r.push(t);
                    assert(type_models(r@) =~= type_models(r0).push(r@[r@.len() - 1]@));
                },
                None => {},
            }
            i = i + 1;
        }
        assert(texts(names@).subrange(0, i as int) =~= texts(names@));
        r
    }

    /// Adds the contribution types `names` to those the caller offers, creating
    /// its record if it has none, and returns the types it then offers; gives
    /// `None`, and changes nothing, if some name is not a known type.
    pub fn add_contributor_contribution_types(
        &mut self,
        caller: &String,
        contribution_types: Vec<String>,
    ) -> (r: Option<Vec<ContributionType>>)
        requires
            old(self).wf(),
        ensures
            final(self).wf(),
            r is Some == (forall|i: int|
                0 <= i < contribution_types@.len() ==> old(self).contribution_types.has_key(
                    #[trigger] contribution_types@[i]@,
                )),
            r is None ==> final(self)@ == old(self)@,
            r is Some ==> final(self)@ == (RegistryModel {
                contributors: final(self)@.contributors,
                ..old(self)@
            }),
            r is Some ==> forall|k: Seq<char>|
                k != caller@ ==> #[trigger] offered_of(final(self)@, k) == offered_of(
                    old(self)@,
                    k,
                ),
            r matches Some(v) ==> offered_of(final(self)@, caller@) matches Some(o) && o.no_duplicates()
                && (forall|s: Seq<char>|
                #[trigger] o.contains(s) == ((offered_of(old(self)@, caller@) matches Some(
                    p,
                ) && p.contains(s)) || texts(contribution_types@).contains(s)))
                && type_models(v@) == resolved_types(final(self)@.contribution_types, o),
    {
        let mut i: usize = 0;
        while i < contribution_types.len()
            invariant
                old(self) == self,
                self.wf(),
                i <= contribution_types@.len(),
                forall|j: int|
                    0 <= j < i ==> self.contribution_types.has_key(
                        #[trigger] contribution_types@[j]@,
                    ),
            decreases contribution_types@.len() - i,
        {
            if !self.contribution_types.contains_key(&contribution_types[i]) {
                return None;
            }
            i = i + 1;
        }
        let ghost pre = self@;
        let ghost pre_tab = self.contributors;
        let offered = match self.contributors.position(caller) {
            Some(i) => {
                let merged = union_texts(
                    &self.contributors.entries[i].contribution_types_currently_offered,
                    &contribution_types,
                );
                let copy = copy_texts(&merged);
                let record = Contributor {
                    id: caller.clone(),
                    contribution_types_currently_offered: merged,
                };
                self.contributors.replace_at(i, record);
                proof {
                    assert forall|j: int| 0 <= j < self.contributors@.len() implies (
                    #[trigger] self.contributors@[j]).offered.no_duplicates() by {
                        if j != i {
                            assert(self.contributors@[j] == pre.contributors[j]);
                        }
                    }
                }
                copy
            },
            None => {
                let empty: Vec<String> = Vec::new();
                assert(texts(empty@) =~= Seq::<Seq<char>>::empty());
                let merged = union_texts(&empty, &contribution_types);
                let copy = copy_texts(&merged);
                let record = Contributor {
                    id: caller.clone(),
                    contribution_types_currently_offered: merged,
                };
                self.contributors.push_new(record);
                proof {
                    assert forall|j: int| 0 <= j < self.contributors@.len() implies (
                    #[trigger] self.contributors@[j]).offered.no_duplicates() by {
                        if j < pre.contributors.len() {
                            assert(self.contributors@[j] == pre.contributors[j]);
                        }
                    }
                }
                copy
            },
        };
        proof {
            assert forall|k: Seq<char>| k != caller@ implies #[trigger] offered_of(self@, k)
                == offered_of(pre, k) by {
                assert(self.contributors.lookup(k) == pre_tab.lookup(k));
            }
        }
        Some(self.resolve_types(&offered))
    }

    /// Takes the contribution types `names` out of those the caller offers and
    /// returns the types it then offers; a caller with no record gets an empty one.
    pub fn remove_contributor_contribution_types(
        &mut self,
        caller: &String,
        contribution_types: Vec<String>,
    ) -> (r: Option<Vec<ContributionType>>)
        requires
            old(self).wf(),
        ensures
            final(self).wf(),
            final(self)@ == (RegistryModel { contributors: final(self)@.contributors, ..old(self)@ }),
            forall|k: Seq<char>|
                k != caller@ ==> #[trigger] offered_of(final(self)@, k) == offered_of(old(self)@, k),
            r matches Some(v) && offered_of(final(self)@, caller@) matches Some(o)
                && o.no_duplicates() && (forall|s: Seq<char>|
                #[trigger] o.contains(s) == (offered_of(old(self)@, caller@) matches Some(p)
                    && p.contains(s) && !texts(contribution_types@).contains(s)))
                && type_models(v@) == resolved_types(final(self)@.contribution_types, o),
    {
        let ghost pre = self@;
        let ghost pre_tab = self.contributors;
        let offered = match self.contributors.position(caller) {
            Some(i) => {
                let kept = without_texts(
                    &self.contributors.entries[i].contribution_types_currently_offered,
                    &contribution_types,
                );
                let copy = copy_texts(&kept);
                let record = Contributor {
                    id: caller.clone(),
                    contribution_types_currently_offered: kept,
                };
                self.contributors.replace_at(i, record);
                proof {
                    assert forall|j: int| 0 <= j < self.contributors@.len() implies (
                    #[trigger] self.contributors@[j]).offered.no_duplicates() by {
                        if j != i {
                            assert(self.contributors@[j] == pre.contributors[j]);
                        }
                    }
                }
                copy
            },
            None => {
                let empty: Vec<String> = Vec::new();
                let record = Contributor {
                    id: caller.clone(),
                    contribution_types_currently_offered: Vec::new(),
                };
                assert(record@.offered =~= Seq::<Seq<char>>::empty());
                assert(texts(empty@) =~= Seq::<Seq<char>>::empty());
                self.contributors.push_new(record);
                proof {
                    assert forall|j: int| 0 <= j < self.contributors@.len() implies (
                    #[trigger] self.contributors@[j]).offered.no_duplicates() by {
                        if j < pre.contributors.len() {
                            assert(self.contributors@[j] == pre.contributors[j]);
                        }
                    }
                }
                empty
            },
        };
        proof {
            assert forall|k: Seq<char>| k != caller@ implies #[trigger] offered_of(self@, k)
                == offered_of(pre, k) by {
                assert(self.contributors.lookup(k) == pre_tab.lookup(k));
            }
        }
        Some(self.resolve_types(&offered))
    }

    /// The contribution types that contributor `contributor_id` offers, leaving
    /// out those no longer known; `None` if it has no record.
    pub fn get_contributor_contribution_types(&self, contributor_id: String) -> (r: Option<
        Vec<ContributionType>,
    >)
        requires
            self.wf(),
        ensures
            r is Some == offered_of(self@, contributor_id@) is Some,
            r matches Some(v) ==> offered_of(self@, contributor_id@) matches Some(o)
                && type_models(v@) == resolved_types(self@.contribution_types, o),
    {
        match self.contributors.position(&contributor_id) {
            Some(i) => Some(
                self.resolve_types(&self.contributors.entries[i].contribution_types_currently_offered),
            ),
            None => None,
        }
    }
}

} // verus!
