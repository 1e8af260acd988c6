use modbot_core::error::RepoError;
use modbot_core::repository::Repository;
use modbot_core::repository::RepositoryOptions;
use modbot_core::role::Role;
use modbot_core::role::RoleSelector;

/// A registry with account 1 as Creator, 2 as User, 3 as Moderator and
/// 4 as User, under the given warn threshold.
fn setup(max_warns: Option<i64>) -> Repository {
    let mut repo = Repository::new(RepositoryOptions { max_warns });
    let selector = RoleSelector::new(Some(1));
    repo.new_user(1, selector.select(1), Some("boss".to_string()), "Boss".to_string(), 10)
        .unwrap();
    repo.new_user(2, selector.select(2), Some("two".to_string()), "Two".to_string(), 11)
        .unwrap();
    repo.new_user(3, Role::Moderator, Some("mod".to_string()), "Mod".to_string(), 12)
        .unwrap();
    repo.new_user(4, selector.select(4), None, "Four".to_string(), 13).unwrap();
    repo
}

#[test]
fn role_selector_picks_creator() {
    let selector = RoleSelector::new(Some(9));
    assert_eq!(selector.select(9), Role::Creator);
    assert_eq!(selector.select(10), Role::User);
    let none = RoleSelector::new(None);
    assert_eq!(none.select(9), Role::User);
}

#[test]
fn upsert_creates_account_with_audit_entry() {
    let repo = setup(None);
    let user = repo.get_user(2).unwrap();
    assert_eq!(user.id, 2);
    assert_eq!(user.role, Role::User);
    assert_eq!(user.warns, 0);
    assert_eq!(user.nickname, "Two");
    assert_eq!(user.username.as_deref(), Some("two"));
    let entries = repo.get_user_actions(2, 0, 10).unwrap();
    assert_eq!(entries.len(), 1);
    assert_eq!(entries[0].action_type, modbot_core::models::actions::Type::CreateUser);
}

#[test]
fn upsert_twice_is_idempotent() {
    let mut repo = setup(None);
    // A different role policy outcome on the second call must not matter.
    repo.new_user(2, Role::Creator, Some("two".to_string()), "Two".to_string(), 99)
        .unwrap();
    let user = repo.get_user(2).unwrap();
    assert_eq!(user.role, Role::User);
    assert_eq!(user.warns, 0);
    assert_eq!(user.nickname, "Two");
    let entries = repo.get_user_actions(2, 0, 10).unwrap();
    assert_eq!(entries.len(), 1);
}

#[test]
fn upsert_refreshes_display_fields_only() {
    let mut repo = setup(None);
    repo.new_user(2, Role::User, Some("renamed".to_string()), "New Two".to_string(), 99)
        .unwrap();
    let user = repo.get_user(2).unwrap();
    assert_eq!(user.username.as_deref(), Some("renamed"));
    assert_eq!(user.nickname, "New Two");
    assert_eq!(user.role, Role::User);
    assert_eq!(user.created_at, 11);
}

#[test]
fn upsert_rejects_taken_handle() {
    let mut repo = setup(None);
    let res = repo.new_user(5, Role::User, Some("two".to_string()), "Five".to_string(), 20);
    assert_eq!(res, Err(RepoError::AlreadyExists));
    assert_eq!(repo.get_user(5).unwrap_err(), RepoError::NotFound);
}

#[test]
fn get_user_by_username_finds_the_holder() {
    let repo = setup(None);
    let user = repo.get_user_by_username("mod".to_string()).unwrap();
    assert_eq!(user.id, 3);
    assert_eq!(
        repo.get_user_by_username("nobody".to_string()).unwrap_err(),
        RepoError::NotFound
    );
}

#[test]
fn get_user_absent_is_not_found() {
    let repo = setup(None);
    assert_eq!(repo.get_user(77).unwrap_err(), RepoError::NotFound);
}

#[test]
fn change_nickname_self_and_moderator() {
    let mut repo = setup(None);
    repo.change_nickname(2, 2, "Self".to_string()).unwrap();
    assert_eq!(repo.get_user(2).unwrap().nickname, "Self");
    repo.change_nickname(3, 2, "By Mod".to_string()).unwrap();
    assert_eq!(repo.get_user(2).unwrap().nickname, "By Mod");
}

#[test]
fn change_nickname_needs_moderator_for_others() {
    let mut repo = setup(None);
    let res = repo.change_nickname(2, 4, "Nope".to_string());
    assert_eq!(res, Err(RepoError::Forbidden));
    assert_eq!(repo.get_user(4).unwrap().nickname, "Four");
}

#[test]
fn block_requires_moderator_and_user_target() {
    let mut repo = setup(None);
    assert_eq!(repo.block_user(2, 4, 50), Err(RepoError::Forbidden));
    assert_eq!(repo.block_user(3, 1, 50), Err(RepoError::InvalidRole));
    repo.block_user(3, 4, 50).unwrap();
    assert_eq!(repo.get_user(4).unwrap().role, Role::Blocked);
    let entries = repo.get_user_actions(4, 0, 10).unwrap();
    let kinds: Vec<_> = entries.iter().map(|e| e.action_type).collect();
    assert!(kinds.contains(&modbot_core::models::actions::Type::BlockUser));
}

#[test]
fn unblock_restores_user_role() {
    let mut repo = setup(None);
    repo.block_user(3, 4, 50).unwrap();
    assert_eq!(repo.unblock_user(3, 2, 51), Err(RepoError::InvalidRole));
    repo.unblock_user(3, 4, 51).unwrap();
    assert_eq!(repo.get_user(4).unwrap().role, Role::User);
}

#[test]
fn blocked_actor_cannot_moderate() {
    let mut repo = setup(None);
    repo.block_user(3, 4, 50).unwrap();
    assert_eq!(repo.block_user(4, 2, 51), Err(RepoError::Forbidden));
}

#[test]
fn promote_and_demote_follow_the_table() {
    let mut repo = setup(None);
    // Only the creator may promote or demote.
    assert_eq!(repo.promote_user(3, 2, 60), Err(RepoError::Forbidden));
    repo.promote_user(1, 2, 60).unwrap();
    assert_eq!(repo.get_user(2).unwrap().role, Role::Moderator);
    // Promoting a Moderator fails and mutates nothing.
    assert_eq!(repo.promote_user(1, 2, 61), Err(RepoError::InvalidRole));
    assert_eq!(repo.get_user(2).unwrap().role, Role::Moderator);
    assert_eq!(repo.demote_user(3, 2, 62), Err(RepoError::Forbidden));
    repo.demote_user(1, 2, 62).unwrap();
    assert_eq!(repo.get_user(2).unwrap().role, Role::User);
    // Demoting a plain User fails.
    assert_eq!(repo.demote_user(1, 2, 63), Err(RepoError::InvalidRole));
}

#[test]
fn promote_blocked_account_fails() {
    let mut repo = setup(None);
    repo.block_user(3, 2, 70).unwrap();
    assert_eq!(repo.promote_user(1, 2, 71), Err(RepoError::InvalidRole));
    assert_eq!(repo.get_user(2).unwrap().role, Role::Blocked);
}

#[test]
fn warn_counts_and_auto_blocks_at_threshold() {
    let mut repo = setup(Some(5));
    for round in 0..4 {
        let auto_blocked = repo.warn(1, 2, 100 + round).unwrap();
        assert!(!auto_blocked);
        assert_eq!(repo.get_user(2).unwrap().role, Role::User);
    }
    let auto_blocked = repo.warn(1, 2, 104).unwrap();
    assert!(auto_blocked);
    let target = repo.get_user(2).unwrap();
    assert_eq!(target.role, Role::Blocked);
    assert_eq!(target.warns, 5);
    let entries = repo.get_user_actions(2, 0, 20).unwrap();
    let warns = entries
        .iter()
        .filter(|e| e.action_type == modbot_core::models::actions::Type::WarnUser)
        .count();
    let blocks = entries
        .iter()
        .filter(|e| e.action_type == modbot_core::models::actions::Type::BlockUser)
        .count();
    assert_eq!(warns, 5);
    assert_eq!(blocks, 1);
}

#[test]
fn warn_records_actor_and_count() {
    let mut repo = setup(Some(5));
    repo.warn(3, 2, 100).unwrap();
    let entries = repo.get_user_actions(2, 0, 20).unwrap();
    let warn = entries
        .iter()
        .find(|e| e.action_type == modbot_core::models::actions::Type::WarnUser)
        .unwrap();
    assert_eq!(warn.description.by, Some(3));
    assert_eq!(warn.description.warns, Some(1));
    assert_eq!(warn.created_at, 100);
}

#[test]
fn warn_requires_moderator_and_low_target() {
    let mut repo = setup(None);
    assert_eq!(repo.warn(2, 4, 100), Err(RepoError::Forbidden));
    assert_eq!(repo.warn(3, 1, 100), Err(RepoError::InvalidRole));
    assert_eq!(repo.warn(3, 77, 100), Err(RepoError::NotFound));
    assert_eq!(repo.warn(77, 2, 100), Err(RepoError::NotFound));
}

#[test]
fn un_warn_at_zero_is_not_allowed() {
    let mut repo = setup(None);
    assert_eq!(repo.un_warn(3, 2, 100), Err(RepoError::NotAllowed));
    assert_eq!(repo.get_user(2).unwrap().warns, 0);
}

#[test]
fn un_warn_never_goes_negative() {
    let mut repo = setup(Some(10));
    repo.warn(3, 2, 100).unwrap();
    repo.warn(3, 2, 101).unwrap();
    repo.un_warn(3, 2, 102).unwrap();
    assert_eq!(repo.get_user(2).unwrap().warns, 1);
    repo.un_warn(3, 2, 103).unwrap();
    assert_eq!(repo.get_user(2).unwrap().warns, 0);
    assert_eq!(repo.un_warn(3, 2, 104), Err(RepoError::NotAllowed));
    assert_eq!(repo.get_user(2).unwrap().warns, 0);
}

#[test]
fn creator_scenario_promote_demote_warn() {
    // Account 1 is Creator, account 2 is User.
    let mut repo = Repository::new(RepositoryOptions { max_warns: Some(5) });
    repo.new_user(1, Role::Creator, None, "One".to_string(), 0).unwrap();
    repo.new_user(2, Role::User, None, "Two".to_string(), 1).unwrap();
    repo.promote_user(1, 2, 2).unwrap();
    assert_eq!(repo.get_user(2).unwrap().role, Role::Moderator);
    repo.demote_user(1, 2, 3).unwrap();
    assert_eq!(repo.get_user(2).unwrap().role, Role::User);
    for round in 0..4 {
        assert_eq!(repo.warn(1, 2, 10 + round), Ok(false));
    }
    assert_eq!(repo.warn(1, 2, 14), Ok(true));
    let target = repo.get_user(2).unwrap();
    assert_eq!(target.role, Role::Blocked);
    assert_eq!(target.warns, 5);
    let entries = repo.get_user_actions(2, 0, 20).unwrap();
    let warns = entries
        .iter()
        .filter(|e| e.action_type == modbot_core::models::actions::Type::WarnUser)
        .count();
    let blocks = entries
        .iter()
        .filter(|e| e.action_type == modbot_core::models::actions::Type::BlockUser)
        .count();
    assert_eq!(warns, 5);
    assert_eq!(blocks, 1);
}

#[test]
fn warn_blocked_target_keeps_counting_without_second_block() {
    let mut repo = setup(Some(2));
    repo.warn(3, 2, 100).unwrap();
    assert_eq!(repo.warn(3, 2, 101), Ok(true));
    // The target is blocked now; further warnings still count but no
    // second transition or BlockUser entry happens.
    assert_eq!(repo.warn(3, 2, 102), Ok(false));
    let target = repo.get_user(2).unwrap();
    assert_eq!(target.role, Role::Blocked);
    assert_eq!(target.warns, 3);
    let entries = repo.get_user_actions(2, 0, 20).unwrap();
    let blocks = entries
        .iter()
        .filter(|e| e.action_type == modbot_core::models::actions::Type::BlockUser)
        .count();
    assert_eq!(blocks, 1);
}

#[test]
fn un_warn_writes_its_own_audit_entry() {
    let mut repo = setup(Some(10));
    repo.warn(3, 2, 100).unwrap();
    repo.un_warn(3, 2, 101).unwrap();
    let entries = repo.get_user_actions(2, 0, 20).unwrap();
    let unwarn = entries
        .iter()
        .find(|e| e.action_type == modbot_core::models::actions::Type::UnWarnUser)
        .unwrap();
    assert_eq!(unwarn.description.by, Some(3));
    assert_eq!(unwarn.description.warns, Some(0));
    assert_eq!(unwarn.created_at, 101);
}
