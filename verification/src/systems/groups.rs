//! Collision groups: which collider may touch which.
//!
//! The groups themselves are ncollide2d's `CollisionGroups`. What such a value
//! holds is named here, and each call into ncollide2d is given a contract over
//! those names.

use vstd::prelude::*;

use ncollide2d::pipeline::object::CollisionGroups;

verus! {

#[verifier::external_type_specification]
#[verifier::external_body]
pub struct ExCollisionGroups(ncollide2d::pipeline::object::CollisionGroups);

/// The groups that `groups` is a member of.
pub uninterp spec fn membership_of(groups: CollisionGroups) -> Set<usize>;

/// The groups that `groups` accepts contacts with.
pub uninterp spec fn whitelist_of(groups: CollisionGroups) -> Set<usize>;

/// The groups that `groups` refuses contacts with.
pub uninterp spec fn blacklist_of(groups: CollisionGroups) -> Set<usize>;

/// Number of collision groups: they are numbered from 0.
pub const GROUP_COUNT: usize = 30;

/// Every group there is.
pub open spec fn all_groups() -> Set<usize> {
    Set::new(|g: usize| g < GROUP_COUNT)
}

/// What collision groups hold.
pub ghost struct GroupsState {
    /// The groups that the collider is a member of.
    pub membership: Set<usize>,
    /// The groups that the collider accepts contacts with.
    pub whitelist: Set<usize>,
    /// The groups that the collider refuses contacts with.
    pub blacklist: Set<usize>,
}

/// What `groups` holds.
pub open spec fn state_of(groups: CollisionGroups) -> GroupsState {
    GroupsState {
        membership: membership_of(groups),
        whitelist: whitelist_of(groups),
        blacklist: blacklist_of(groups),
    }
}

impl GroupsState {
    /// Two colliders with these groups may touch: neither is a member of a
    /// group that the other refuses, and each is a member of a group that the
    /// other accepts.
    pub open spec fn interact(self, other: GroupsState) -> bool {
        &&& self.membership.disjoint(other.blacklist)
        &&& other.membership.disjoint(self.blacklist)
        &&& !self.membership.disjoint(other.whitelist)
        &&& !other.membership.disjoint(self.whitelist)
    }

    /// Whether two colliders may touch does not depend on their order.
    pub proof fn lemma_interact_symmetric(self, other: GroupsState)
        ensures
            self.interact(other) == other.interact(self),
    {
    }

    /// Two colliders that are each a member of one group, and refuse none,
    /// may touch exactly when each accepts the group of the other.
    pub proof fn lemma_interact_by_whitelists(self, other: GroupsState, group: usize, other_group: usize)
        requires
            self.membership == set![group],
            other.membership == set![other_group],
            self.blacklist == Set::<usize>::empty(),
            other.blacklist == Set::<usize>::empty(),
        ensures
            self.interact(other) <==> self.whitelist.contains(other_group)
                && other.whitelist.contains(group),
    {
        assert(self.membership.contains(group));
        assert(other.membership.contains(other_group));
        if self.whitelist.contains(other_group) {
            assert(!other.membership.disjoint(self.whitelist));
        }
        if other.whitelist.contains(group) {
            assert(!self.membership.disjoint(other.whitelist));
        }
    }
}

/// `CollisionGroups::new` of ncollide2d: the value it returns is a member of
/// every group, accepts every group and refuses none.
#[verifier::external_body]
pub(crate) fn new_groups() -> (groups: CollisionGroups)
    ensures
        membership_of(groups) == all_groups(),
        whitelist_of(groups) == all_groups(),
        blacklist_of(groups) == Set::<usize>::empty(),
{
    CollisionGroups::new()
}

/// `CollisionGroups::set_membership` of ncollide2d: afterwards the value is a
/// member of the groups listed, and of no other. What it accepts and refuses
/// stays. ncollide2d panics on a group number from 30 on.
#[verifier::external_body]
pub(crate) fn set_membership(groups: &mut CollisionGroups, members: &Vec<usize>)
    requires
        forall|i: int| 0 <= i < members@.len() ==> members@[i] < GROUP_COUNT,
    ensures
        membership_of(*final(groups)) == members@.to_set(),
        whitelist_of(*final(groups)) == whitelist_of(*old(groups)),
        blacklist_of(*final(groups)) == blacklist_of(*old(groups)),
{
    groups.set_membership(members.as_slice())
}

/// `CollisionGroups::set_whitelist` of ncollide2d: afterwards the value accepts
/// the groups listed, and no other. What it is a member of and what it refuses
/// stays. ncollide2d panics on a group number from 30 on.
#[verifier::external_body]
pub(crate) fn set_whitelist(groups: &mut CollisionGroups, accepted: &Vec<usize>)
    requires
        forall|i: int| 0 <= i < accepted@.len() ==> accepted@[i] < GROUP_COUNT,
    ensures
        whitelist_of(*final(groups)) == accepted@.to_set(),
        membership_of(*final(groups)) == membership_of(*old(groups)),
        blacklist_of(*final(groups)) == blacklist_of(*old(groups)),
{
    groups.set_whitelist(accepted.as_slice())
}

/// `CollisionGroups::can_interact_with_groups` of ncollide2d: it compares the
/// membership of each side with what the other side refuses and accepts.
#[verifier::external_body]
pub(crate) fn can_interact_with_groups(a: &CollisionGroups, b: &CollisionGroups) -> (r: bool)
    ensures
        r == state_of(*a).interact(state_of(*b)),
{
    a.can_interact_with_groups(b)
}

} // verus!
