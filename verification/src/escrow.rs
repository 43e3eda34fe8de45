use crate::access::AccessControl;
use crate::access::Role;
use crate::error::Error;
use crate::ledger::BalanceLedger;
use crate::ledger::TokenBalance;
use crate::project::deposit_outcome;
use crate::project::expire_outcome;
use crate::project::registration_outcome;
use crate::project::release_outcome;
use crate::project::Project;
use crate::project::ProjectStatus;
use vstd::prelude::*;

verus! {

/// The escrow: the role registry, the projects in order of registration, and the ledger.
/// A project's id is its position in `projects`.
pub struct Escrow {
    pub roles: AccessControl,
    pub projects: Vec<Project>,
    pub ledger: BalanceLedger,
}

impl Escrow {
    /// The ledger is well formed and every project is valid and sits at its id.
    pub open spec fn wf(&self) -> bool {
        &&& self.ledger.wf()
        &&& forall|i: int|
            0 <= i < self.projects@.len() ==> (#[trigger] self.projects@[i]).id == i
                && self.projects@[i].wf()
    }

    /// Whether a project with this id was registered.
    pub open spec fn has_project(&self, id: u64) -> bool {
        id < self.projects@.len()
    }

    /// What `deposit` answers in this state.
    pub open spec fn deposit_result(&self, id: u64, token: u64, amount: i128) -> Result<(), Error> {
        if !self.has_project(id) {
            Err(Error::ProjectNotFound)
        } else {
            deposit_outcome(
                self.projects@[id as int].status,
                self.projects@[id as int].accepted_tokens@,
                token,
                self.ledger.total_of(id),
                amount,
            )
        }
    }

    /// What `verify_and_release` answers in this state.
    pub open spec fn release_result(&self, caller: u64, id: u64, proof: Seq<u8>) -> Result<(), Error> {
        if !self.has_project(id) {
            Err(Error::ProjectNotFound)
        } else {
            release_outcome(
                self.roles@.contains((caller, Role::Oracle)),
                self.projects@[id as int].status,
                proof == self.projects@[id as int].proof_hash@,
                self.ledger.total_of(id),
                self.projects@[id as int].goal,
            )
        }
    }

    /// What `expire_project` answers in this state at time `now`.
    pub open spec fn expire_result(&self, id: u64, now: u64) -> Result<(), Error> {
        if !self.has_project(id) {
            Err(Error::ProjectNotFound)
        } else {
            expire_outcome(self.projects@[id as int].status, self.projects@[id as int].deadline, now)
        }
    }

    /// `post` is `self` with project `id` moved to `status` and nothing else changed
    /// outside the ledger.
    pub open spec fn moved(&self, post: &Escrow, id: u64, status: ProjectStatus) -> bool {
        &&& post.roles == self.roles
        &&& post.projects@ == self.projects@.update(
            id as int,
            self.projects@[id as int].with_status(status),
        )
    }

    /// `post` holds the same grants, projects and balances as `self`.
    pub open spec fn unchanged(&self, post: &Escrow) -> bool {
        &&& post.roles == self.roles
        &&& post.projects@ == self.projects@
        &&& post.ledger == self.ledger
    }

    /// A new escrow with no project and no balance, in which `admin` holds Admin.
    pub fn init(admin: u64) -> (r: Escrow)
        ensures
            r.wf(),
            r.roles@ == Set::<(u64, Role)>::empty().insert((admin, Role::Admin)),
            r.projects@.len() == 0,
            forall|p: u64, t: u64| #[trigger] r.ledger.balance(p, t) == 0,
            forall|p: u64| #[trigger] r.ledger.total_of(p) == 0,
    {
        Escrow { roles: AccessControl::new(admin), projects: Vec::new(), ledger: BalanceLedger::new() }
    }

    /// Grants `role` to `target` on behalf of `caller`, who must hold Admin.
    pub fn grant_role(&mut self, caller: u64, target: u64, role: Role) -> (r: Result<(), Error>)
        requires
            old(self).wf(),
        ensures
            final(self).wf(),
            r is Ok <==> old(self).roles@.contains((caller, Role::Admin)),
            r is Ok ==> final(self).roles@ == old(self).roles@.insert((target, role))
                && final(self).projects == old(self).projects && final(self).ledger == old(
                self,
            ).ledger,
            r is Err ==> r == Err::<(), Error>(Error::Unauthorized) && old(self).unchanged(final(self)),
    {
        self.roles.grant_role(caller, target, role)
    }

    /// Registers a project and returns its id, the number of projects registered before it.
    /// The new project is in status Funding. A rejection changes nothing.
    pub fn register_project(
        &mut self,
        env: &soroban_sdk::Env,
        creator: u64,
        tokens: Vec<u64>,
        goal: i128,
        proof_hash: [u8; 32],
        deadline: u64,
        now: u64,
    ) -> (r: Result<u64, Error>)
        requires
            old(self).wf(),
        ensures
            final(self).wf(),
            match r {
                Ok(id) => {
                    &&& registration_outcome(tokens@, goal, deadline, now) is Ok
                    &&& id == old(self).projects@.len()
                    &&& final(self).projects@ == old(self).projects@.push(
                        Project {
                            id,
                            creator,
                            accepted_tokens: tokens,
                            goal,
                            proof_hash,
                            deadline,
                            status: ProjectStatus::Funding,
                        },
                    )
                    &&& final(self).roles == old(self).roles
                    &&& final(self).ledger == old(self).ledger
                },
                Err(e) => registration_outcome(tokens@, goal, deadline, now) == Err::<(), Error>(e)
                    && old(self).unchanged(final(self)),
            },
    {
        let id = self.projects.len() as u64;
        match Project::register(env, id, creator, tokens, goal, proof_hash, deadline, now) {
            Err(e) => Err(e),
            Ok(project) => {
                self.projects.push(project);
                Ok(id)
            },
        }
    }

    /// Accepts a deposit by `donor` of `amount` in `token` for project `project_id`.
    /// The ledger keeps amounts per token, not per donor, so `donor` is not recorded.
    /// On success the amount is added to the project's bucket for the token and the project
    /// is Active. A rejection changes nothing.
    pub fn deposit(&mut self, project_id: u64, donor: u64, token: u64, amount: i128) -> (r: Result<
        (),
        Error,
    >)
        requires
            old(self).wf(),
        ensures
            final(self).wf(),
            r == old(self).deposit_result(project_id, token, amount),
            r is Ok ==> old(self).moved(final(self), project_id, ProjectStatus::Active) && old(
                self,
            ).ledger.credited(&final(self).ledger, project_id, token, amount as int),
            r is Err ==> old(self).unchanged(final(self)),
    {
        if project_id >= self.projects.len() as u64 {
            return Err(Error::ProjectNotFound);
        }
        let idx = project_id as usize;
        let r = self.projects[idx].on_deposit(&mut self.ledger, token, amount);
        proof {
            let pre = old(self).projects@;
            assert(r is Err ==> self.projects@ =~= pre);
            assert(r is Ok ==> self.projects@ =~= pre.update(idx as int, self.projects@[idx as int]));
        }
        r
    }

    /// The transfers that a release of `project_id` on the attestation of `caller` would owe
    /// to the creator, without releasing anything: the same answer as `verify_and_release`
    /// in the same state, so that the transfers can be arranged before the ledger changes.
    pub fn plan_release(&self, caller: u64, project_id: u64, proof: &[u8; 32]) -> (r: Result<
        Vec<TokenBalance>,
        Error,
    >)
        requires
            self.wf(),
        ensures
            match r {
                Ok(plan) => self.release_result(caller, project_id, proof@) is Ok && plan@
                    == self.ledger.release_plan(project_id),
                Err(e) => self.release_result(caller, project_id, proof@) == Err::<(), Error>(e),
            },
    {
        if project_id >= self.projects.len() as u64 {
            return Err(Error::ProjectNotFound);
        }
        let project = &self.projects[project_id as usize];
        match project.check_release(&self.roles, &self.ledger, caller, proof) {
            Err(e) => Err(e),
            Ok(()) => Ok(self.ledger.pending(project_id)),
        }
    }

    /// Releases project `project_id` on the attestation of `caller` and returns the
    /// transfers owed to the creator. On success every bucket of the project is empty and
    /// the project is Completed. A rejection changes nothing.
    pub fn verify_and_release(&mut self, caller: u64, project_id: u64, proof: &[u8; 32]) -> (r: Result<
        Vec<TokenBalance>,
        Error,
    >)
        requires
            old(self).wf(),
        ensures
            final(self).wf(),
            match r {
                Ok(plan) => {
                    &&& old(self).release_result(caller, project_id, proof@) is Ok
                    &&& plan@ == old(self).ledger.release_plan(project_id)
                    &&& old(self).ledger.drained(&final(self).ledger, project_id)
                    &&& old(self).moved(final(self), project_id, ProjectStatus::Completed)
                },
                Err(e) => old(self).release_result(caller, project_id, proof@) == Err::<(), Error>(e)
                    && old(self).unchanged(final(self)),
            },
    {
        if project_id >= self.projects.len() as u64 {
            return Err(Error::ProjectNotFound);
        }
        let idx = project_id as usize;
        let r = self.projects[idx].verify_and_release(&self.roles, &mut self.ledger, caller, proof);
        proof {
            let pre = old(self).projects@;
            assert(r is Err ==> self.projects@ =~= pre);
            assert(r is Ok ==> self.projects@ =~= pre.update(idx as int, self.projects@[idx as int]));
        }
        r
    }

    /// Marks project `project_id` Expired once `now` is past its deadline.
    /// A rejection changes nothing.
    pub fn expire_project(&mut self, project_id: u64, now: u64) -> (r: Result<(), Error>)
        requires
            old(self).wf(),
        ensures
            final(self).wf(),
            r == old(self).expire_result(project_id, now),
            r is Ok ==> old(self).moved(final(self), project_id, ProjectStatus::Expired)
                && final(self).ledger == old(self).ledger,
            r is Err ==> old(self).unchanged(final(self)),
    {
        if project_id >= self.projects.len() as u64 {
            return Err(Error::ProjectNotFound);
        }
        let idx = project_id as usize;
        let r = self.projects[idx].expire(now);
        proof {
            let pre = old(self).projects@;
            assert(r is Err ==> self.projects@ =~= pre);
            assert(r is Ok ==> self.projects@ =~= pre.update(idx as int, self.projects@[idx as int]));
        }
        r
    }

    /// The project with this id, if one was registered.
    pub fn get_project(&self, project_id: u64) -> (r: Option<&Project>)
        ensures
            r is Some <==> self.has_project(project_id),
            r is Some ==> *r.unwrap() == self.projects@[project_id as int],
    {
        if project_id >= self.projects.len() as u64 {
            return None;
        }
        Some(&self.projects[project_id as usize])
    }

    /// The amount held for `project_id` in `token`; zero for an unknown project or token.
    pub fn get_balance(&self, project_id: u64, token: u64) -> (r: i128)
        requires
            self.wf(),
        ensures
            r == self.ledger.balance(project_id, token),
    {
        self.ledger.snapshot(project_id, token)
    }

    /// The balance of each accepted token of `project_id`, in allow-list order, or `None`
    /// for an unknown project.
    pub fn get_project_balances(&self, project_id: u64) -> (r: Option<Vec<TokenBalance>>)
        requires
            self.wf(),
        ensures
            r is Some <==> self.has_project(project_id),
            r is Some ==> {
                let tokens = self.projects@[project_id as int].accepted_tokens@;
                &&& r.unwrap()@.len() == tokens.len()
                &&& forall|i: int|
                    0 <= i < tokens.len() ==> (#[trigger] r.unwrap()@[i]).token == tokens[i]
                        && r.unwrap()@[i].balance == self.ledger.balance(project_id, tokens[i])
            },
    {
        if project_id >= self.projects.len() as u64 {
            return None;
        }
        let project = &self.projects[project_id as usize];
        let mut out: Vec<TokenBalance> = Vec::new();
        let mut i: usize = 0;
        while i < project.accepted_tokens.len()
            invariant
                self.wf(),
                i <= project.accepted_tokens.len(),
                out@.len() == i,
                forall|j: int|
                    0 <= j < i ==> (#[trigger] out@[j]).token == project.accepted_tokens@[j]
                        && out@[j].balance == self.ledger.balance(
                        project_id,
                        project.accepted_tokens@[j],
                    ),
            decreases project.accepted_tokens.len() - i,
        {
            let token = project.accepted_tokens[i];
            let balance = self.ledger.snapshot(project_id, token);
            out.push(TokenBalance { token, balance });
            i = i + 1;
        }
        Some(out)
    }
}

/// Once a project has expired, every later attempt to expire it fails with
/// `InvalidStatus`, at whatever time it is made.
pub proof fn lemma_expire_only_once(pre: Escrow, post: Escrow, id: u64, now: u64, later: u64)
    requires
        pre.expire_result(id, now) is Ok,
        pre.moved(&post, id, ProjectStatus::Expired),
    ensures
        post.expire_result(id, later) == Err::<(), Error>(Error::InvalidStatus),
{
}

/// A deposit that is accepted leaves the project Active, whether it was the first or a
/// later one, and a rejected one leaves its status as it was.
pub proof fn lemma_deposit_status(pre: Escrow, post: Escrow, id: u64, token: u64, amount: i128)
    requires
        pre.has_project(id),
        if pre.deposit_result(id, token, amount) is Ok {
            pre.moved(&post, id, ProjectStatus::Active)
        } else {
            pre.unchanged(&post)
        },
    ensures
        pre.deposit_result(id, token, amount) is Ok ==> post.projects@[id as int].status
            == ProjectStatus::Active,
        pre.projects@[id as int].status == ProjectStatus::Active ==> post.projects@[id as int].status
            == ProjectStatus::Active,
{
}

} // verus!
