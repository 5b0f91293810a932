use vstd::prelude::*;

use crate::contribution::{contribution_models, copy_contributions, Contribution, ContributionModel};

verus! {

/// The side of an engagement that acts.
pub enum Party {
    Contributor,
    Project,
}

/// The engagement of a contributor with a project: requested by one side,
/// ongoing once the other side accepts, then finished.
pub enum Connection {
    RequestedByContributor,
    RequestedByProject,
    Ongoing { contributions: Vec<Contribution>, started_at: u64 },
    Finished { contributions: Vec<Contribution>, finished_at: u64 },
}

pub enum ConnectionModel {
    RequestedByContributor,
    RequestedByProject,
    Ongoing { contributions: Seq<ContributionModel>, started_at: u64 },
    Finished { contributions: Seq<ContributionModel>, finished_at: u64 },
}

impl View for Connection {
    type V = ConnectionModel;

    open spec fn view(&self) -> ConnectionModel {
        match self {
            Connection::RequestedByContributor => ConnectionModel::RequestedByContributor,
            Connection::RequestedByProject => ConnectionModel::RequestedByProject,
            Connection::Ongoing { contributions, started_at } => ConnectionModel::Ongoing {
                contributions: contribution_models(contributions@),
                started_at: *started_at,
            },
            Connection::Finished { contributions, finished_at } => ConnectionModel::Finished {
                contributions: contribution_models(contributions@),
                finished_at: *finished_at,
            },
        }
    }
}

/// Whether `party` is the side that answers a request in state `c`.
pub open spec fn may_accept(c: ConnectionModel, party: Party) -> bool {
    match c {
        ConnectionModel::RequestedByContributor => party is Project,
        ConnectionModel::RequestedByProject => party is Contributor,
        _ => false,
    }
}

impl Connection {
    /// The ongoing engagement that starts at `now` when the side other than
    /// the requester accepts; `None` from any other state or side.
    pub fn accept(&self, party: Party, now: u64) -> (r: Option<Connection>)
        ensures
            r is Some == may_accept(self@, party),
            r matches Some(n) ==> n@ == (ConnectionModel::Ongoing {
                contributions: Seq::empty(),
                started_at: now,
            }),
    {
        let allowed = match (self, party) {
            (Connection::RequestedByContributor, Party::Project) => true,
            (Connection::RequestedByProject, Party::Contributor) => true,
            _ => false,
        };
        if allowed {
            let contributions: Vec<Contribution> = Vec::new();
            assert(contribution_models(contributions@) =~= Seq::<ContributionModel>::empty());
            Some(Connection::Ongoing { contributions, started_at: now })
        } else {
            None
        }
    }

    /// Adds a contribution to an ongoing engagement; tells whether it was ongoing.
    pub fn record(&mut self, contribution: Contribution) -> (r: bool)
        ensures
            r == old(self)@ is Ongoing,
            r ==> final(self)@ == (ConnectionModel::Ongoing {
                contributions: old(self)@->Ongoing_contributions.push(contribution@),
                started_at: old(self)@->Ongoing_started_at,
            }),
            !r ==> final(self)@ == old(self)@,
    {
        match self {
            Connection::Ongoing { contributions, started_at } => {
                let ghost before = contributions@;
                let ghost m = contribution@;
                contributions.push(contribution);
                assert(contribution_models(contributions@) =~= contribution_models(before).push(m));
                true
            },
            _ => false,
        }
    }

    /// The finished engagement, holding the contributions made while it was
    /// ongoing; `None` unless it is ongoing.
    pub fn finish(&self, now: u64) -> (r: Option<Connection>)
        ensures
            r is Some == self@ is Ongoing,
            r matches Some(n) ==> n@ == (ConnectionModel::Finished {
                contributions: self@->Ongoing_contributions,
                finished_at: now,
            }),
    {
        match self {
            Connection::Ongoing { contributions, .. } => Some(
                Connection::Finished { contributions: copy_contributions(contributions), finished_at: now },
            ),
            _ => None,
        }
    }
}

} // verus!
