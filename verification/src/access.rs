use crate::error::Error;
use vstd::prelude::*;

verus! {

/// A privilege that an account can hold.
#[derive(Clone, Copy, Debug, PartialEq, Eq, Structural)]
pub enum Role {
    /// May grant roles.
    Admin,
    /// May attest completion and release escrowed funds.
    Oracle,
}

/// One role held by one account.
#[derive(Clone, Copy, Debug, PartialEq, Eq, Structural)]
pub struct RoleGrant {
    pub account: u64,
    pub role: Role,
}

/// The registry of role grants. Its view is the set of (account, role) pairs granted so far.
pub struct AccessControl {
    grants: Vec<RoleGrant>,
}

impl View for AccessControl {
    type V = Set<(u64, Role)>;

    closed spec fn view(&self) -> Set<(u64, Role)> {
        Set::new(|g: (u64, Role)| self.grants@.contains(RoleGrant { account: g.0, role: g.1 }))
    }
}

impl AccessControl {
    /// A registry in which `admin` holds the Admin role and nobody holds anything else.
    pub fn new(admin: u64) -> (r: AccessControl)
        ensures
            r@ == Set::<(u64, Role)>::empty().insert((admin, Role::Admin)),
    {
        let mut grants: Vec<RoleGrant> = Vec::new();
        let g = RoleGrant { account: admin, role: Role::Admin };
        grants.push(g);
        let r = AccessControl { grants };
        proof {
            assert(r.grants@[0] == g);
            assert(r@ =~= Set::<(u64, Role)>::empty().insert((admin, Role::Admin)));
        }
        r
    }

    /// Whether `account` holds `role`.
    pub fn has_role(&self, account: u64, role: Role) -> (b: bool)
        ensures
            b == self@.contains((account, role)),
    {
        let mut i: usize = 0;
        while i < self.grants.len()
            invariant
                i <= self.grants.len(),
                forall|j: int|
                    0 <= j < i ==> self.grants@[j] != (RoleGrant { account, role }),
            decreases self.grants.len() - i,
        {
            let g = self.grants[i];
            if g.account == account && g.role == role {
                return true;
            }
            i = i + 1;
        }
        false
    }

    /// Grants `role` to `target` on behalf of `caller`, who must hold Admin.
    /// Granting a role twice is the same as granting it once.
    pub fn grant_role(&mut self, caller: u64, target: u64, role: Role) -> (r: Result<(), Error>)
        ensures
            r is Ok <==> old(self)@.contains((caller, Role::Admin)),
            r is Ok ==> final(self)@ == old(self)@.insert((target, role)),
            r is Err ==> r == Err::<(), Error>(Error::Unauthorized) && *final(self) == *old(self),
    {
        if !self.has_role(caller, Role::Admin) {
            return Err(Error::Unauthorized);
        }
        if !self.has_role(target, role) {
            let g = RoleGrant { account: target, role };
            self.grants.push(g);
            proof {
                let pre = old(self).grants@;
                let post = self.grants@;
                assert(post[pre.len() as int] == g);
                assert forall|h: (u64, Role)|
                    self@.contains(h) == old(self)@.insert((target, role)).contains(h) by {
                    let x = RoleGrant { account: h.0, role: h.1 };
                    if pre.contains(x) {
                        let k = choose|k: int| 0 <= k < pre.len() && pre[k] == x;
                        assert(post[k] == x);
                    }
                    if post.contains(x) && x != g {
                        let k = choose|k: int| 0 <= k < post.len() && post[k] == x;
                        assert(pre[k] == x);
                    }
                }
                assert(self@ =~= old(self)@.insert((target, role)));
            }
        } else {
            proof {
                assert(self@ =~= old(self)@.insert((target, role)));
            }
        }
        Ok(())
    }
}

} // verus!
