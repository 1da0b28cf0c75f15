//! The membership registry: caller provenance, domain events, error kinds,
//! the transition functions that define each operation, and the executable
//! registry that implements them.

use vstd::prelude::*;

use crate::model::insert_sorted;
use crate::model::lemma_insert_sorted_at;
use crate::model::lemma_insert_sorted_props;
use crate::model::lemma_remove_preserves_sorted;
use crate::model::lemma_remove_sorted_at;
use crate::model::lemma_sorted_window_contains;
use crate::model::remove_sorted;
use crate::model::sorted_strict;
use crate::model::valid_members;
use crate::model::MemberId;

verus! {

/// The provenance of a call, established by the host before the registry is
/// reached: either the privileged ("root") authority, or an authenticated,
/// non-privileged identity.
#[derive(Clone, Copy, Debug, PartialEq, Eq, Structural)]
pub enum Origin {
    Root,
    Signed(MemberId),
}

/// A domain event, handed back to the host for delivery to observers.
#[derive(Clone, Copy, Debug, PartialEq, Eq, Structural)]
pub enum Event {
    MemberAdded,
    MemberRemoved,
}

/// Why an operation was rejected. Every rejection leaves the member set
/// unchanged.
#[derive(Clone, Copy, Debug, PartialEq, Eq, Structural)]
pub enum Error {
    /// The candidate is already a member.
    AlreadyMember,
    /// The target is not a member.
    NotMember,
    /// A member tried to remove an identity other than its own.
    CannotRemoveOtherMember,
    /// The member set already holds two members.
    GroupFull,
    /// The caller lacks the provenance the operation demands.
    Unauthorized,
}

/// What `add_member` does to a member set: the new set and the outcome.
pub open spec fn spec_add_member(s: Seq<MemberId>, origin: Origin, who: MemberId) -> (
    Seq<MemberId>,
    Result<Event, Error>,
) {
    if !(origin is Root) {
        (s, Err(Error::Unauthorized))
    } else if s.len() >= 2 {
        (s, Err(Error::GroupFull))
    } else if s.contains(who) {
        (s, Err(Error::AlreadyMember))
    } else {
        (insert_sorted(s, who), Ok(Event::MemberAdded))
    }
}

/// What `remove_member` does to a member set: the new set and the outcome.
pub open spec fn spec_remove_member(s: Seq<MemberId>, origin: Origin, who: MemberId) -> (
    Seq<MemberId>,
    Result<Event, Error>,
) {
    if !(origin is Root) {
        (s, Err(Error::Unauthorized))
    } else if !s.contains(who) {
        (s, Err(Error::NotMember))
    } else {
        (remove_sorted(s, who), Ok(Event::MemberRemoved))
    }
}

/// What `remove_member_by_yourself` does to a member set: the new set and the
/// outcome. The identity check comes before the membership lookup, so a caller
/// naming another identity learns nothing about that identity's membership.
pub open spec fn spec_remove_member_by_yourself(
    s: Seq<MemberId>,
    origin: Origin,
    who: MemberId,
) -> (Seq<MemberId>, Result<Event, Error>) {
    match origin {
        Origin::Root => (s, Err(Error::Unauthorized)),
        Origin::Signed(caller) => if caller != who {
            (s, Err(Error::CannotRemoveOtherMember))
        } else if !s.contains(who) {
            (s, Err(Error::NotMember))
        } else {
            (remove_sorted(s, who), Ok(Event::MemberRemoved))
        },
    }
}

/// The membership registry. It owns the sole piece of persisted state, the
/// member set, which it keeps strictly sorted and capped at two members.
pub struct Registry {
    members: Vec<MemberId>,
}

impl View for Registry {
    type V = Seq<MemberId>;

    closed spec fn view(&self) -> Seq<MemberId> {
        self.members@
    }
}

impl Registry {
    /// The registry's invariant: the member set is valid (at most two
    /// members, strictly sorted).
    pub open spec fn wf(&self) -> bool {
        valid_members(self@)
    }

    /// Creates the registry in its initial state: no members.
    pub fn new() -> (r: Registry)
        ensures
            r.wf(),
            r@ == Seq::<MemberId>::empty(),
    {
        Registry { members: Vec::new() }
    }

    /// Returns a copy of the persisted member set. Read-only; never fails.
    pub fn current_members(&self) -> (r: Vec<MemberId>)
        ensures
            r@ == self@,
    {
        let mut r: Vec<MemberId> = Vec::new();
        let mut i: usize = 0;
        while i < self.members.len()
            invariant
                i <= self.members@.len(),
                r@ == self.members@.subrange(0, i as int),
            decreases self.members@.len() - i,
        {
            r.push(self.members[i]);
            i = i + 1;
            proof {
                assert(r@ =~= self.members@.subrange(0, i as int));
            }
        }
        proof {
            assert(r@ =~= self.members@);
        }
        r
    }

    /// Adds `candidate` to the member set. Only the privileged authority may
    /// add; the set must not be full and the candidate must be fresh. On
    /// success the candidate is inserted at its sorted position and a
    /// `MemberAdded` event is returned for the host to deliver; on any
    /// failure the set is unchanged.
    pub fn add_member(&mut self, origin: Origin, who: MemberId) -> (r: Result<Event, Error>)
        requires
            old(self).wf(),
        ensures
            final(self).wf(),
            final(self)@ == spec_add_member(old(self)@, origin, who).0,
            r == spec_add_member(old(self)@, origin, who).1,
    {
        if origin != Origin::Root {
            return Err(Error::Unauthorized);
        }
        if self.members.len() >= 2 {
            return Err(Error::GroupFull);
        }
        let p = lower_bound(&self.members, who);
        proof {
            lemma_sorted_window_contains(self.members@, who, p as int);
        }
        if p < self.members.len() && self.members[p] == who {
            return Err(Error::AlreadyMember);
        }
        proof {
            assert forall|k: int| p <= k < self.members@.len() implies self.members@[k] > who by {
                if k > p {
                    assert(self.members@[p as int] < self.members@[k]);
                }
            }
            lemma_insert_sorted_at(self.members@, who, p as int);
            lemma_insert_sorted_props(self.members@, who);
        }
        self.members.insert(p, who);
        Ok(Event::MemberAdded)
    }

    /// Removes `who` from the member set if present; the shared removal step
    /// of the two public removal operations, run after their authorization
    /// checks have passed.
    fn remove_present(&mut self, who: MemberId) -> (r: Result<Event, Error>)
        requires
            old(self).wf(),
        ensures
            final(self).wf(),
            old(self)@.contains(who) ==> final(self)@ == remove_sorted(old(self)@, who) && r
                == Ok::<Event, Error>(Event::MemberRemoved),
            !old(self)@.contains(who) ==> final(self)@ == old(self)@ && r == Err::<
                Event,
                Error,
            >(Error::NotMember),
    {
        let p = lower_bound(&self.members, who);
        proof {
            lemma_sorted_window_contains(self.members@, who, p as int);
        }
        if p < self.members.len() && self.members[p] == who {
            proof {
                lemma_remove_sorted_at(self.members@, who, p as int);
                lemma_remove_preserves_sorted(self.members@, p as int);
            }
            self.members.remove(p);
            Ok(Event::MemberRemoved)
        } else {
            Err(Error::NotMember)
        }
    }

    /// Removes `target` from the member set. Only the privileged authority
    /// may remove; the target must be a member. On success the target is
    /// removed and a `MemberRemoved` event is returned; on any failure the
    /// set is unchanged.
    pub fn remove_member(&mut self, origin: Origin, who: MemberId) -> (r: Result<Event, Error>)
        requires
            old(self).wf(),
        ensures
            final(self).wf(),
            final(self)@ == spec_remove_member(old(self)@, origin, who).0,
            r == spec_remove_member(old(self)@, origin, who).1,
    {
        if origin != Origin::Root {
            return Err(Error::Unauthorized);
        }
        self.remove_present(who)
    }

    /// Removes `who` from the member set on the member's own request. The
    /// signed caller must be `who` itself — checked before the membership
    /// lookup, so a caller naming another identity is told
    /// `CannotRemoveOtherMember` whether or not that identity is a member —
    /// and `who` must be a member. On success `who` is removed and a
    /// `MemberRemoved` event is returned; on any failure the set is
    /// unchanged.
    pub fn remove_member_by_yourself(&mut self, origin: Origin, who: MemberId) -> (r: Result<
        Event,
        Error,
    >)
        requires
            old(self).wf(),
        ensures
            final(self).wf(),
            final(self)@ == spec_remove_member_by_yourself(old(self)@, origin, who).0,
            r == spec_remove_member_by_yourself(old(self)@, origin, who).1,
    {
        match origin {
            Origin::Root => Err(Error::Unauthorized),
            Origin::Signed(caller) => {
                if caller != who {
                    Err(Error::CannotRemoveOtherMember)
                } else {
                    self.remove_present(who)
                }
            },
        }
    }
}

/// Ordered (binary) search for the first position whose value is at least
/// `x`: everything below the returned position is smaller than `x`,
/// everything from it on is at least `x`.
fn lower_bound(v: &Vec<MemberId>, x: MemberId) -> (p: usize)
    requires
        sorted_strict(v@),
    ensures
        p <= v@.len(),
        forall|k: int| 0 <= k < p ==> v@[k] < x,
        forall|k: int| p <= k < v@.len() ==> v@[k] >= x,
{
    let mut lo: usize = 0;
    let mut hi: usize = v.len();
    while lo < hi
        invariant
            lo <= hi <= v@.len(),
            sorted_strict(v@),
            forall|k: int| 0 <= k < lo ==> v@[k] < x,
            forall|k: int| hi <= k < v@.len() ==> v@[k] >= x,
        decreases hi - lo,
    {
        let mid = lo + (hi - lo) / 2;
        if v[mid] < x {
            proof {
                assert forall|k: int| 0 <= k < mid + 1 implies v@[k] < x by {
                    if k < mid {
                        assert(v@[k] < v@[mid as int]);
                    }
                }
            }
            lo = mid + 1;
        } else {
            proof {
                assert forall|k: int| mid <= k < v@.len() implies v@[k] >= x by {
                    if k > mid {
                        assert(v@[mid as int] < v@[k]);
                    }
                }
            }
            hi = mid;
        }
    }
    lo
}

} // verus!
