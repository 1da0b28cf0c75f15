//! Laws that relate the registry's operations to one another, stated over the
//! transition functions that the operations' contracts use.

use vstd::prelude::*;

use crate::model::lemma_insert_sorted_props;
use crate::model::lemma_remove_sorted_props;
use crate::model::lemma_sorted_strict_distinct;
use crate::model::valid_members;
use crate::model::MemberId;
use crate::registry::spec_add_member;
use crate::registry::spec_remove_member;
use crate::registry::spec_remove_member_by_yourself;
use crate::registry::Error;
use crate::registry::Event;
use crate::registry::Origin;

verus! {

/// Every operation preserves the registry invariant: starting from a valid
/// member set, the set it leaves behind is valid again, whatever the caller's
/// provenance and argument. Together with `Registry::new`, which starts from
/// the empty set, every reachable member set is valid.
pub proof fn lemma_operations_preserve_invariant(s: Seq<MemberId>, origin: Origin, who: MemberId)
    requires
        valid_members(s),
    ensures
        valid_members(spec_add_member(s, origin, who).0),
        valid_members(spec_remove_member(s, origin, who).0),
        valid_members(spec_remove_member_by_yourself(s, origin, who).0),
{
    if origin is Root && s.len() < 2 && !s.contains(who) {
        lemma_insert_sorted_props(s, who);
    }
    if s.contains(who) {
        lemma_remove_sorted_props(s, who);
    }
}

/// A valid member set never exceeds the capacity cap of two, and never holds
/// the same identifier twice.
pub proof fn lemma_valid_members_bounded_distinct(s: Seq<MemberId>)
    requires
        valid_members(s),
    ensures
        s.len() <= 2,
        s.no_duplicates(),
{
    lemma_sorted_strict_distinct(s);
}

/// Adding a candidate that is already a member never changes the set, and —
/// provided the caller is privileged and the set is not yet full, so that no
/// earlier check fires first — the outcome is `AlreadyMember`. (A
/// non-privileged caller is told `Unauthorized`, and a full set `GroupFull`,
/// before the candidate is looked at; the set stays unchanged in every such
/// case.)
pub proof fn lemma_add_member_present_fails(s: Seq<MemberId>, origin: Origin, who: MemberId)
    requires
        s.contains(who),
    ensures
        spec_add_member(s, origin, who).0 == s,
        origin is Root && s.len() < 2 ==> spec_add_member(s, origin, who).1 == Err::<
            Event,
            Error,
        >(Error::AlreadyMember),
{
}

/// A caller that is not the privileged authority can neither add nor remove:
/// both operations leave the set unchanged and report `Unauthorized`.
pub proof fn lemma_unauthorized_unchanged(s: Seq<MemberId>, origin: Origin, who: MemberId)
    requires
        !(origin is Root),
    ensures
        spec_add_member(s, origin, who) == (s, Err::<Event, Error>(Error::Unauthorized)),
        spec_remove_member(s, origin, who) == (s, Err::<Event, Error>(Error::Unauthorized)),
{
}

/// Self-removal by a caller whose identity differs from the target always
/// fails with `CannotRemoveOtherMember` and leaves the set unchanged, whether
/// or not the target is a member.
pub proof fn lemma_self_removal_restricted(s: Seq<MemberId>, caller: MemberId, who: MemberId)
    requires
        caller != who,
    ensures
        spec_remove_member_by_yourself(s, Origin::Signed(caller), who) == (
            s,
            Err::<Event, Error>(Error::CannotRemoveOtherMember),
        ),
{
}

/// Privileged removal and self-removal agree completely: for any member set
/// and any target, `remove_member` called by the privileged authority and
/// `remove_member_by_yourself` called by the target itself produce the same
/// new set and the same outcome. The two operations differ only in the
/// authorization they demand.
pub proof fn lemma_removal_symmetry(s: Seq<MemberId>, who: MemberId)
    ensures
        spec_remove_member(s, Origin::Root, who) == spec_remove_member_by_yourself(
            s,
            Origin::Signed(who),
            who,
        ),
{
}

} // verus!
