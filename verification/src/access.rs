//! The access decision engine: a pure function over actor, resource and
//! action combining tenant isolation, the admin bypass, the lock gate,
//! visibility, department membership and the compliance overlay.

use vstd::prelude::*;
use crate::compliance::ComplianceRestrictions;
use crate::records::{opt_u64_is, Visibility};

verus! {

/// Role labels, ranked super-admin > admin > manager > employee > other.
/// A custom role ranks as `Other`; its extra permission tokens live on the
/// actor.
#[derive(Clone, Copy, PartialEq, Eq, Structural, Debug)]
pub enum RoleLabel {
    SuperAdmin,
    Admin,
    Manager,
    Employee,
    Other,
}

impl RoleLabel {
    pub open spec fn spec_rank(&self) -> u8 {
        match self {
            RoleLabel::SuperAdmin => 4,
            RoleLabel::Admin => 3,
            RoleLabel::Manager => 2,
            RoleLabel::Employee => 1,
            RoleLabel::Other => 0,
        }
    }

    /// Numeric rank of a role in the fixed total order.
    pub fn rank(&self) -> (r: u8)
        ensures
            r == self.spec_rank(),
    {
        match self {
            RoleLabel::SuperAdmin => 4,
            RoleLabel::Admin => 3,
            RoleLabel::Manager => 2,
            RoleLabel::Employee => 1,
            RoleLabel::Other => 0,
        }
    }
}

/// The principal a request runs as.
pub struct Actor {
    pub user_id: u64,
    pub tenant_id: u64,
    pub role: RoleLabel,
    pub department_id: Option<u64>,
    /// Departments granted beyond the primary one.
    pub allowed_department_ids: Vec<u64>,
    /// Permission token of a custom role that opens the lock gate as if the
    /// holder were manager-tier.
    pub can_lock_files: bool,
    /// Permission token of a custom role that passes the unlock role gate.
    pub can_unlock_files: bool,
}

impl Actor {
    /// Rank used by the lock gate: the role's own rank, lifted to manager
    /// tier when a lock permission token is held.
    pub open spec fn spec_effective_rank(&self) -> u8 {
        if (self.can_lock_files || self.can_unlock_files) && self.role.spec_rank() < 2 {
            2
        } else {
            self.role.spec_rank()
        }
    }

    pub fn effective_rank(&self) -> (r: u8)
        ensures
            r == self.spec_effective_rank(),
    {
        let base = self.role.rank();
        if (self.can_lock_files || self.can_unlock_files) && base < 2 {
            2
        } else {
            base
        }
    }

    pub open spec fn spec_is_admin(&self) -> bool {
        self.role == RoleLabel::SuperAdmin || self.role == RoleLabel::Admin
    }

    pub fn is_admin(&self) -> (r: bool)
        ensures
            r == self.spec_is_admin(),
    {
        match self.role {
            RoleLabel::SuperAdmin => true,
            RoleLabel::Admin => true,
            _ => false,
        }
    }

    /// The actor may act inside `department`: a resource without a
    /// department is company-wide; otherwise the primary department or one
    /// of the additionally allowed ones must match.
    pub open spec fn spec_in_department(&self, department: Option<u64>) -> bool {
        match department {
            Option::None => true,
            Option::Some(d) => self.department_id == Some(d)
                || self.allowed_department_ids@.contains(d),
        }
    }

    pub fn in_department(&self, department: &Option<u64>) -> (r: bool)
        ensures
            r == self.spec_in_department(*department),
    {
        match department {
            Option::None => true,
            Option::Some(d) => {
                opt_u64_is(&self.department_id, *d) || contains_u64(
                    &self.allowed_department_ids,
                    *d,
                )
            },
        }
    }
}

/// Whether `v` holds the value `x`.
pub fn contains_u64(v: &Vec<u64>, x: u64) -> (r: bool)
    ensures
        r == v@.contains(x),
{
    let mut i: usize = 0;
    while i < v.len()
        invariant
            i <= v@.len(),
            forall|j: int| 0 <= j < i ==> v@[j] != x,
        decreases v@.len() - i,
    {
        if v[i] == x {
            proof {
                assert(v@[i as int] == x);
            }
            return true;
        }
        i = i + 1;
    }
    false
}

/// The actions the engine rules on.
#[derive(Clone, Copy, PartialEq, Eq, Structural, Debug)]
pub enum Action {
    Read,
    Write,
    Delete,
    Share,
}

/// The projection of a catalog record the engine reads.
pub struct Resource {
    pub tenant_id: u64,
    pub visibility: Visibility,
    pub owner_id: Option<u64>,
    pub department_id: Option<u64>,
    pub is_locked: bool,
    pub locked_by: Option<u64>,
    pub lock_requires_role: Option<RoleLabel>,
    pub is_immutable: bool,
}

/// The lock gate: on a locked resource, access passes only for the locker,
/// the owner, or a rank at least the lock's required role. A lock without a
/// required role opens for the locker and the owner alone.
pub open spec fn spec_lock_gate(actor: &Actor, res: &Resource) -> bool {
    !res.is_locked || res.locked_by == Some(actor.user_id) || res.owner_id == Some(
        actor.user_id,
    ) || (match res.lock_requires_role {
        Option::Some(req) => actor.spec_effective_rank() >= req.spec_rank(),
        Option::None => false,
    })
}

/// The compliance overlay: public sharing can be blocked mode-wide, and an
/// immutable record can never be deleted.
pub open spec fn spec_compliance_gate(
    res: &Resource,
    action: Action,
    restrictions: &ComplianceRestrictions,
    public_share: bool,
) -> bool {
    &&& !(action == Action::Share && public_share && restrictions.public_sharing_blocked)
    &&& !(action == Action::Delete && res.is_immutable)
}

/// The whole decision, rules applied in order. `public_share` matters only
/// when `action` is `Share` and says whether the requested share would be
/// public.
pub open spec fn spec_decide(
    actor: &Actor,
    res: &Resource,
    action: Action,
    restrictions: &ComplianceRestrictions,
    public_share: bool,
) -> bool {
    if actor.tenant_id != res.tenant_id && actor.role != RoleLabel::SuperAdmin {
        false
    } else if actor.spec_is_admin() {
        // The admin bypass still honours an explicit lock role above the
        // actor's own rank, and the compliance overlay.
        &&& (match res.lock_requires_role {
            Option::Some(req) => !res.is_locked || res.locked_by == Some(actor.user_id)
                || res.owner_id == Some(actor.user_id)
                || actor.spec_effective_rank() >= req.spec_rank(),
            Option::None => true,
        })
        &&& spec_compliance_gate(res, action, restrictions, public_share)
    } else {
        &&& spec_lock_gate(actor, res)
        &&& (res.visibility == Visibility::Private ==> res.owner_id == Some(actor.user_id))
        &&& (res.visibility == Visibility::Department ==> actor.spec_in_department(
            res.department_id,
        ))
        &&& spec_compliance_gate(res, action, restrictions, public_share)
        &&& (action == Action::Share ==> (res.owner_id == Some(actor.user_id)
            || actor.role == RoleLabel::Manager))
    }
}

/// Decide whether `actor` may perform `action` on `res`.
pub fn decide(
    actor: &Actor,
    res: &Resource,
    action: Action,
    restrictions: &ComplianceRestrictions,
    public_share: bool,
) -> (allow: bool)
    ensures
        allow == spec_decide(actor, res, action, restrictions, public_share),
{
    if actor.tenant_id != res.tenant_id && !matches!(actor.role, RoleLabel::SuperAdmin) {
        return false;
    }
    let compliance_ok = !(matches!(action, Action::Share) && public_share
        && restrictions.public_sharing_blocked) && !(matches!(action, Action::Delete)
        && res.is_immutable);
    if actor.is_admin() {
        let lock_ok = match res.lock_requires_role {
            Option::Some(req) => !res.is_locked || opt_u64_is(&res.locked_by, actor.user_id)
                || opt_u64_is(&res.owner_id, actor.user_id) || actor.effective_rank() >= req.rank(),
            Option::None => true,
        };
        return lock_ok && compliance_ok;
    }
    let lock_ok = if res.is_locked {
        opt_u64_is(&res.locked_by, actor.user_id) || opt_u64_is(&res.owner_id, actor.user_id) || (
        match res.lock_requires_role {
            Option::Some(req) => actor.effective_rank() >= req.rank(),
            Option::None => false,
        })
    } else {
        true
    };
    if !lock_ok {
        return false;
    }
    let vis_ok = match res.visibility {
        Visibility::Private => opt_u64_is(&res.owner_id, actor.user_id),
        Visibility::Department => actor.in_department(&res.department_id),
    };
    if !vis_ok {
        return false;
    }
    let share_ok = if matches!(action, Action::Share) {
        opt_u64_is(&res.owner_id, actor.user_id) || matches!(actor.role, RoleLabel::Manager)
    } else {
        true
    };
    lock_ok && vis_ok && compliance_ok && share_ok
}

} // verus!
