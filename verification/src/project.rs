use crate::access::AccessControl;
use crate::access::Role;
use crate::error::Error;
use crate::gas_profiling::validation_outcome;
use crate::gas_profiling::GasOptimizer;
use crate::ledger::BalanceLedger;
use crate::ledger::TokenBalance;
use vstd::prelude::*;

verus! {

/// Where a project stands in its life.
#[derive(Clone, Copy, Debug, PartialEq, Eq, Structural)]
pub enum ProjectStatus {
    /// Registered, no deposit yet.
    Funding,
    /// At least one deposit was accepted.
    Active,
    /// Verified and released. Terminal.
    Completed,
    /// The deadline passed before a release. Terminal.
    Expired,
}

impl ProjectStatus {
    /// Whether deposits and expiry are still possible.
    pub open spec fn is_open(self) -> bool {
        self == ProjectStatus::Funding || self == ProjectStatus::Active
    }

    /// Whether no transition leaves this status.
    pub open spec fn is_terminal(self) -> bool {
        self == ProjectStatus::Completed || self == ProjectStatus::Expired
    }
}

/// A funding campaign. Only `status` ever changes after registration.
#[derive(Clone, Debug)]
pub struct Project {
    pub id: u64,
    pub creator: u64,
    pub accepted_tokens: Vec<u64>,
    pub goal: i128,
    pub proof_hash: [u8; 32],
    pub deadline: u64,
    pub status: ProjectStatus,
}

/// What registration answers: the allow-list is validated first, then the goal,
/// then the deadline against the current time.
pub open spec fn registration_outcome(tokens: Seq<u64>, goal: i128, deadline: u64, now: u64) -> Result<
    (),
    Error,
> {
    if validation_outcome(tokens) is Err {
        validation_outcome(tokens)
    } else if goal <= 0 {
        Err(Error::InvalidGoal)
    } else if deadline <= now {
        Err(Error::InvalidDeadline)
    } else {
        Ok(())
    }
}

/// What a deposit answers for a project in `status` that accepts `tokens` and holds `total`.
pub open spec fn deposit_outcome(
    status: ProjectStatus,
    tokens: Seq<u64>,
    token: u64,
    total: int,
    amount: i128,
) -> Result<(), Error> {
    if !status.is_open() {
        Err(Error::InvalidStatus)
    } else if !tokens.contains(token) {
        Err(Error::TokenNotAccepted)
    } else {
        BalanceLedger::credit_outcome(total, amount)
    }
}

/// What a release answers: the caller's role is checked first, then the status,
/// then the proof, then the total against the goal.
pub open spec fn release_outcome(
    is_oracle: bool,
    status: ProjectStatus,
    proof_matches: bool,
    total: int,
    goal: i128,
) -> Result<(), Error> {
    if !is_oracle {
        Err(Error::Unauthorized)
    } else if status != ProjectStatus::Active {
        Err(Error::InvalidStatus)
    } else if !proof_matches {
        Err(Error::InvalidProof)
    } else if total < goal {
        Err(Error::GoalNotMet)
    } else {
        Ok(())
    }
}

/// What expiry answers: the status is checked first, then the deadline.
pub open spec fn expire_outcome(status: ProjectStatus, deadline: u64, now: u64) -> Result<(), Error> {
    if !status.is_open() {
        Err(Error::InvalidStatus)
    } else if now <= deadline {
        Err(Error::DeadlineNotReached)
    } else {
        Ok(())
    }
}

/// Whether two commitments agree byte for byte.
pub fn same_hash(a: &[u8; 32], b: &[u8; 32]) -> (r: bool)
    ensures
        r == (a@ == b@),
{
    let mut i: usize = 0;
    while i < 32
        invariant
            i <= 32,
            forall|j: int| 0 <= j < i ==> a@[j] == b@[j],
        decreases 32 - i,
    {
        if a[i] != b[i] {
            return false;
        }
        i = i + 1;
    }
    proof {
        assert(a@ =~= b@);
    }
    true
}

impl Project {
    /// The allow-list is valid and the goal is positive.
    pub open spec fn wf(&self) -> bool {
        &&& validation_outcome(self.accepted_tokens@) is Ok
        &&& self.goal > 0
    }

    /// `self` with its status replaced and every other field kept.
    pub open spec fn with_status(self, status: ProjectStatus) -> Project {
        Project { status, ..self }
    }

    /// Creates project `id` for `creator`, in status Funding, when the allow-list is valid,
    /// the goal is positive and the deadline lies after `now`.
    pub fn register(
        env: &soroban_sdk::Env,
        id: u64,
        creator: u64,
        tokens: Vec<u64>,
        goal: i128,
        proof_hash: [u8; 32],
        deadline: u64,
        now: u64,
    ) -> (r: Result<Project, Error>)
        ensures
            match r {
                Ok(p) => {
                    &&& registration_outcome(tokens@, goal, deadline, now) is Ok
                    &&& p == (Project {
                        id,
                        creator,
                        accepted_tokens: tokens,
                        goal,
                        proof_hash,
                        deadline,
                        status: ProjectStatus::Funding,
                    })
                    &&& p.wf()
                },
                Err(e) => registration_outcome(tokens@, goal, deadline, now) == Err::<(), Error>(e),
            },
    {
        match GasOptimizer::check_duplicate_tokens_optimized(env, &tokens) {
            Err(e) => {
                return Err(e);
            },
            Ok(()) => {},
        }
        if goal <= 0 {
            return Err(Error::InvalidGoal);
        }
        if deadline <= now {
            return Err(Error::InvalidDeadline);
        }
        Ok(
            Project {
                id,
                creator,
                accepted_tokens: tokens,
                goal,
                proof_hash,
                deadline,
                status: ProjectStatus::Funding,
            },
        )
    }

    /// Whether `token` is on the allow-list.
    pub fn accepts(&self, token: u64) -> (b: bool)
        ensures
            b == self.accepted_tokens@.contains(token),
    {
        let mut i: usize = 0;
        while i < self.accepted_tokens.len()
            invariant
                i <= self.accepted_tokens.len(),
                forall|j: int| 0 <= j < i ==> self.accepted_tokens@[j] != token,
            decreases self.accepted_tokens.len() - i,
        {
            if self.accepted_tokens[i] == token {
                return true;
            }
            i = i + 1;
        }
        false
    }

    /// Accepts a deposit of `amount` in `token`: credits the ledger and leaves the project
    /// Active. A rejection changes neither the project nor the ledger.
    pub fn on_deposit(&mut self, ledger: &mut BalanceLedger, token: u64, amount: i128) -> (r: Result<
        (),
        Error,
    >)
        requires
            old(ledger).wf(),
        ensures
            final(ledger).wf(),
            r == deposit_outcome(
                old(self).status,
                old(self).accepted_tokens@,
                token,
                old(ledger).total_of(old(self).id),
                amount,
            ),
            r is Ok ==> *final(self) == old(self).with_status(ProjectStatus::Active) && old(
                ledger,
            ).credited(final(ledger), old(self).id, token, amount as int),
            r is Err ==> *final(self) == *old(self) && *final(ledger) == *old(ledger),
    {
        match self.status {
            ProjectStatus::Funding => {},
            ProjectStatus::Active => {},
            _ => {
                return Err(Error::InvalidStatus);
            },
        }
        if !self.accepts(token) {
            return Err(Error::TokenNotAccepted);
        }
        match ledger.credit(self.id, token, amount) {
            Err(e) => {
                return Err(e);
            },
            Ok(()) => {},
        }
        self.status = ProjectStatus::Active;
        Ok(())
    }

    /// Whether a release on the attestation of `caller` would be accepted now.
    pub fn check_release(
        &self,
        roles: &AccessControl,
        ledger: &BalanceLedger,
        caller: u64,
        proof: &[u8; 32],
    ) -> (r: Result<(), Error>)
        requires
            ledger.wf(),
        ensures
            r == release_outcome(
                roles@.contains((caller, Role::Oracle)),
                self.status,
                proof@ == self.proof_hash@,
                ledger.total_of(self.id),
                self.goal,
            ),
    {
        if !roles.has_role(caller, Role::Oracle) {
            return Err(Error::Unauthorized);
        }
        match self.status {
            ProjectStatus::Active => {},
            _ => {
                return Err(Error::InvalidStatus);
            },
        }
        if !same_hash(proof, &self.proof_hash) {
            return Err(Error::InvalidProof);
        }
        if ledger.total(self.id) < self.goal {
            return Err(Error::GoalNotMet);
        }
        Ok(())
    }

    /// Releases the project on the attestation of `caller`: empties the project's buckets,
    /// marks it Completed and returns what is to be paid to the creator, one transfer per
    /// non-zero bucket. A rejection changes neither the project nor the ledger.
    pub fn verify_and_release(
        &mut self,
        roles: &AccessControl,
        ledger: &mut BalanceLedger,
        caller: u64,
        proof: &[u8; 32],
    ) -> (r: Result<Vec<TokenBalance>, Error>)
        requires
            old(ledger).wf(),
        ensures
            final(ledger).wf(),
            match r {
                Ok(plan) => {
                    &&& release_outcome(
                        roles@.contains((caller, Role::Oracle)),
                        old(self).status,
                        proof@ == old(self).proof_hash@,
                        old(ledger).total_of(old(self).id),
                        old(self).goal,
                    ) is Ok
                    &&& plan@ == old(ledger).release_plan(old(self).id)
                    &&& old(ledger).drained(final(ledger), old(self).id)
                    &&& *final(self) == old(self).with_status(ProjectStatus::Completed)
                },
                Err(e) => {
                    &&& release_outcome(
                        roles@.contains((caller, Role::Oracle)),
                        old(self).status,
                        proof@ == old(self).proof_hash@,
                        old(ledger).total_of(old(self).id),
                        old(self).goal,
                    ) == Err::<(), Error>(e)
                    &&& *final(self) == *old(self)
                    &&& *final(ledger) == *old(ledger)
                },
            },
    {
        match self.check_release(roles, ledger, caller, proof) {
            Err(e) => {
                return Err(e);
            },
            Ok(()) => {},
        }
        let plan = ledger.drain_all(self.id);
        self.status = ProjectStatus::Completed;
        Ok(plan)
    }

    /// Marks the project Expired once `now` is past the deadline. No funds move.
    /// A rejection changes nothing.
    pub fn expire(&mut self, now: u64) -> (r: Result<(), Error>)
        ensures
            r == expire_outcome(old(self).status, old(self).deadline, now),
            r is Ok ==> *final(self) == old(self).with_status(ProjectStatus::Expired),
            r is Err ==> *final(self) == *old(self),
    {
        match self.status {
            ProjectStatus::Funding => {},
            ProjectStatus::Active => {},
            _ => {
                return Err(Error::InvalidStatus);
            },
        }
        if now <= self.deadline {
            return Err(Error::DeadlineNotReached);
        }
        self.status = ProjectStatus::Expired;
        Ok(())
    }
}

/// A release succeeds exactly when the caller is an oracle, the project is Active,
/// the proof matches and the total has reached the goal.
pub proof fn lemma_release_conditions(
    is_oracle: bool,
    status: ProjectStatus,
    proof_matches: bool,
    total: int,
    goal: i128,
)
    ensures
        release_outcome(is_oracle, status, proof_matches, total, goal) is Ok <==> is_oracle && status
            == ProjectStatus::Active && proof_matches && total >= goal,
{
}

/// Expiry succeeds exactly when the deadline has passed and the project is Funding or Active.
pub proof fn lemma_expire_conditions(status: ProjectStatus, deadline: u64, now: u64)
    ensures
        expire_outcome(status, deadline, now) is Ok <==> now > deadline && (status
            == ProjectStatus::Funding || status == ProjectStatus::Active),
{
}

/// Nothing leaves a terminal status: deposits and expiry are refused with `InvalidStatus`
/// whatever their other inputs, and so is a release by an oracle.
pub proof fn lemma_terminal_is_final(
    status: ProjectStatus,
    tokens: Seq<u64>,
    token: u64,
    total: int,
    amount: i128,
    proof_matches: bool,
    goal: i128,
    deadline: u64,
    now: u64,
)
    requires
        status.is_terminal(),
    ensures
        deposit_outcome(status, tokens, token, total, amount) == Err::<(), Error>(Error::InvalidStatus),
        expire_outcome(status, deadline, now) == Err::<(), Error>(Error::InvalidStatus),
        release_outcome(true, status, proof_matches, total, goal) == Err::<(), Error>(
            Error::InvalidStatus,
        ),
{
}

} // verus!
