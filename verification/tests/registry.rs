use club_member::Error;
use club_member::Event;
use club_member::Origin;
use club_member::Registry;

fn registry_with(members: &[u64]) -> Registry {
    let mut r = Registry::new();
    for &m in members {
        assert_eq!(r.add_member(Origin::Root, m), Ok(Event::MemberAdded));
    }
    r
}

#[test]
fn new_registry_is_empty() {
    let r = Registry::new();
    assert_eq!(r.current_members(), Vec::<u64>::new());
}

#[test]
fn add_to_empty_set() {
    let mut r = Registry::new();
    assert_eq!(r.add_member(Origin::Root, 10), Ok(Event::MemberAdded));
    assert_eq!(r.current_members(), vec![10]);
}

#[test]
fn add_second_member() {
    let mut r = registry_with(&[10]);
    assert_eq!(r.add_member(Origin::Root, 20), Ok(Event::MemberAdded));
    assert_eq!(r.current_members(), vec![10, 20]);
}

#[test]
fn add_keeps_members_sorted() {
    let mut r = registry_with(&[20]);
    assert_eq!(r.add_member(Origin::Root, 10), Ok(Event::MemberAdded));
    assert_eq!(r.current_members(), vec![10, 20]);
}

#[test]
fn add_to_full_set_fails() {
    let mut r = registry_with(&[10, 20]);
    assert_eq!(r.add_member(Origin::Root, 30), Err(Error::GroupFull));
    assert_eq!(r.current_members(), vec![10, 20]);
}

#[test]
fn add_present_candidate_fails() {
    let mut r = registry_with(&[10]);
    assert_eq!(r.add_member(Origin::Root, 10), Err(Error::AlreadyMember));
    assert_eq!(r.current_members(), vec![10]);
}

#[test]
fn privileged_remove() {
    let mut r = registry_with(&[10, 20]);
    assert_eq!(r.remove_member(Origin::Root, 10), Ok(Event::MemberRemoved));
    assert_eq!(r.current_members(), vec![20]);
}

#[test]
fn remove_absent_target_fails() {
    let mut r = registry_with(&[10]);
    assert_eq!(r.remove_member(Origin::Root, 20), Err(Error::NotMember));
    assert_eq!(r.current_members(), vec![10]);
}

#[test]
fn remove_from_empty_set_fails() {
    let mut r = Registry::new();
    assert_eq!(r.remove_member(Origin::Root, 10), Err(Error::NotMember));
    assert_eq!(r.current_members(), Vec::<u64>::new());
}

#[test]
fn self_removal() {
    let mut r = registry_with(&[20]);
    assert_eq!(
        r.remove_member_by_yourself(Origin::Signed(20), 20),
        Ok(Event::MemberRemoved)
    );
    assert_eq!(r.current_members(), Vec::<u64>::new());
}

#[test]
fn self_removal_of_other_member_fails() {
    let mut r = registry_with(&[20]);
    assert_eq!(
        r.remove_member_by_yourself(Origin::Signed(30), 20),
        Err(Error::CannotRemoveOtherMember)
    );
    assert_eq!(r.current_members(), vec![20]);
}

#[test]
fn self_removal_of_other_non_member_fails_the_same_way() {
    // The identity check comes before the membership lookup: naming a
    // non-member leaks nothing about membership.
    let mut r = registry_with(&[20]);
    assert_eq!(
        r.remove_member_by_yourself(Origin::Signed(30), 99),
        Err(Error::CannotRemoveOtherMember)
    );
    assert_eq!(r.current_members(), vec![20]);
}

#[test]
fn self_removal_when_not_a_member_fails() {
    let mut r = registry_with(&[20]);
    assert_eq!(
        r.remove_member_by_yourself(Origin::Signed(30), 30),
        Err(Error::NotMember)
    );
    assert_eq!(r.current_members(), vec![20]);
}

#[test]
fn self_removal_by_root_fails() {
    let mut r = registry_with(&[20]);
    assert_eq!(
        r.remove_member_by_yourself(Origin::Root, 20),
        Err(Error::Unauthorized)
    );
    assert_eq!(r.current_members(), vec![20]);
}

#[test]
fn unauthorized_add_leaves_set_unchanged() {
    let mut r = registry_with(&[10]);
    assert_eq!(r.add_member(Origin::Signed(10), 20), Err(Error::Unauthorized));
    assert_eq!(r.current_members(), vec![10]);
}

#[test]
fn unauthorized_remove_leaves_set_unchanged() {
    let mut r = registry_with(&[10]);
    assert_eq!(r.remove_member(Origin::Signed(10), 10), Err(Error::Unauthorized));
    assert_eq!(r.current_members(), vec![10]);
}

#[test]
fn both_removal_paths_agree() {
    let mut privileged = registry_with(&[10, 20]);
    let mut self_service = registry_with(&[10, 20]);
    assert_eq!(
        privileged.remove_member(Origin::Root, 20),
        Ok(Event::MemberRemoved)
    );
    assert_eq!(
        self_service.remove_member_by_yourself(Origin::Signed(20), 20),
        Ok(Event::MemberRemoved)
    );
    assert_eq!(privileged.current_members(), self_service.current_members());
}

#[test]
fn capacity_and_distinctness_hold_along_a_run() {
    let mut r = Registry::new();
    let _ = r.add_member(Origin::Root, 3);
    let _ = r.add_member(Origin::Root, 3);
    let _ = r.add_member(Origin::Root, 1);
    let _ = r.add_member(Origin::Root, 2);
    let _ = r.remove_member(Origin::Root, 3);
    let _ = r.add_member(Origin::Root, 2);
    let members = r.current_members();
    assert!(members.len() <= 2);
    for i in 0..members.len() {
        for j in 0..members.len() {
            if i != j {
                assert_ne!(members[i], members[j]);
            }
        }
    }
    assert_eq!(members, vec![1, 2]);
}

#[test]
fn extreme_identifiers() {
    let mut r = Registry::new();
    assert_eq!(r.add_member(Origin::Root, u64::MAX), Ok(Event::MemberAdded));
    assert_eq!(r.add_member(Origin::Root, 0), Ok(Event::MemberAdded));
    assert_eq!(r.current_members(), vec![0, u64::MAX]);
    assert_eq!(
        r.remove_member_by_yourself(Origin::Signed(u64::MAX), u64::MAX),
        Ok(Event::MemberRemoved)
    );
    assert_eq!(r.current_members(), vec![0]);
}

#[test]
fn end_to_end_scenario() {
    // The full life of a two-member club: fill it, overfill it, and drain it
    // through both removal paths.
    let mut r = Registry::new();
    assert_eq!(r.add_member(Origin::Root, 100), Ok(Event::MemberAdded));
    assert_eq!(r.current_members(), vec![100]);
    assert_eq!(r.add_member(Origin::Root, 200), Ok(Event::MemberAdded));
    assert_eq!(r.current_members(), vec![100, 200]);
    assert_eq!(r.add_member(Origin::Root, 300), Err(Error::GroupFull));
    assert_eq!(r.current_members(), vec![100, 200]);
    assert_eq!(r.remove_member(Origin::Root, 100), Ok(Event::MemberRemoved));
    assert_eq!(r.current_members(), vec![200]);
    assert_eq!(
        r.remove_member_by_yourself(Origin::Signed(200), 200),
        Ok(Event::MemberRemoved)
    );
    assert_eq!(r.current_members(), Vec::<u64>::new());
    assert_eq!(
        r.remove_member_by_yourself(Origin::Signed(300), 200),
        Err(Error::CannotRemoveOtherMember)
    );
}
