use voice_rooms::access::{
    check_perms, grant_access, manage_access, member_overwrites, revoke_access, Overwrite,
    OverwriteKind, PermissionRequest,
};
use voice_rooms::reconcile::{AccessOverwrite, Action};
use voice_rooms::sync::sync_room;

fn member(user: u64, allow: u64, deny: u64) -> Overwrite {
    Overwrite { allow, deny, kind: OverwriteKind::Member(user) }
}

#[test]
fn read_bit_makes_an_entry_allowed() {
    let entries = member_overwrites(&vec![member(1, 0x400, 0), member(2, 0xC00, 0)]);
    assert_eq!(
        entries,
        vec![
            AccessOverwrite { user_id: 1, allowed: true },
            AccessOverwrite { user_id: 2, allowed: true },
        ]
    );
}

#[test]
fn other_bits_do_not_make_an_entry_allowed() {
    let overwrites = vec![member(1, 0x800, 0), member(2, 0, 0x400), member(3, 1, 0)];
    let entries = member_overwrites(&overwrites);
    assert_eq!(
        entries,
        vec![
            AccessOverwrite { user_id: 1, allowed: false },
            AccessOverwrite { user_id: 2, allowed: false },
            AccessOverwrite { user_id: 3, allowed: false },
        ]
    );
}

#[test]
fn role_overwrites_are_left_out() {
    let role = Overwrite { allow: 0x400, deny: 0, kind: OverwriteKind::Role(9) };
    assert_eq!(
        member_overwrites(&vec![role, member(4, 0x400, 0), role]),
        vec![AccessOverwrite { user_id: 4, allowed: true }]
    );
    assert_eq!(member_overwrites(&vec![]), vec![]);
}

#[test]
fn administrators_and_channel_managers_pass() {
    assert!(check_perms(0x8));
    assert!(check_perms(0x10));
    assert!(check_perms(0x18));
    assert!(check_perms(0x8 | 0x400));
}

#[test]
fn others_do_not_pass() {
    assert!(!check_perms(0));
    assert!(!check_perms(0x20));
    assert!(!check_perms(0x400 | 0x800));
    assert!(!check_perms(0x4));
}

#[test]
fn grant_allows_reading_and_sending() {
    let overwrite = grant_access(55);
    assert_eq!(overwrite, member(55, 0xC00, 0));
    assert_eq!(
        member_overwrites(&vec![overwrite]),
        vec![AccessOverwrite { user_id: 55, allowed: true }]
    );
}

#[test]
fn revoke_targets_the_member() {
    assert_eq!(revoke_access(56), OverwriteKind::Member(56));
}

#[test]
fn actions_become_requests() {
    assert_eq!(
        manage_access(Action::Grant(1)),
        PermissionRequest::Create(member(1, 0xC00, 0))
    );
    assert_eq!(
        manage_access(Action::Revoke(2)),
        PermissionRequest::Delete(OverwriteKind::Member(2))
    );
}

#[test]
fn sync_plans_revokes_then_grants() {
    let role = Overwrite { allow: 0x400, deny: 0, kind: OverwriteKind::Role(1) };
    let overwrites = vec![role, member(1, 0x400, 0), member(2, 0x800, 0), member(3, 0x400, 0)];
    let actions = sync_room(&vec![1, 2, 4], &overwrites);
    assert_eq!(actions, vec![Action::Revoke(3), Action::Grant(2), Action::Grant(4)]);
}

#[test]
fn sync_of_a_settled_room_plans_nothing() {
    let overwrites = vec![grant_access(1), grant_access(2)];
    assert_eq!(sync_room(&vec![2, 1], &overwrites), vec![]);
}

#[test]
fn sync_after_its_requests_were_fulfilled_plans_nothing() {
    let members = vec![1, 2];
    let mut overwrites = vec![member(2, 0x800, 0), member(3, 0x400, 0x800)];
    for action in sync_room(&members, &overwrites) {
        match manage_access(action) {
            PermissionRequest::Create(made) => {
                overwrites.retain(|held| held.kind != made.kind);
                overwrites.push(made);
            }
            PermissionRequest::Delete(target) => overwrites.retain(|held| held.kind != target),
        }
    }
    assert_eq!(overwrites, vec![member(1, 0xC00, 0), member(2, 0xC00, 0)]);
    assert_eq!(sync_room(&members, &overwrites), vec![]);
}
