use modbot_core::error::RepoError;
use modbot_core::models::actions::Type;
use modbot_core::repository::Repository;
use modbot_core::repository::RepositoryOptions;
use modbot_core::role::Role;

/// A registry with account 1 as Creator, 2 and 3 as Users, 4 as
/// Moderator.
fn setup() -> Repository {
    let mut repo = Repository::new(RepositoryOptions { max_warns: None });
    repo.new_user(1, Role::Creator, None, "One".to_string(), 0).unwrap();
    repo.new_user(2, Role::User, None, "Two".to_string(), 1).unwrap();
    repo.new_user(3, Role::User, None, "Three".to_string(), 2).unwrap();
    repo.new_user(4, Role::Moderator, None, "Mod".to_string(), 3).unwrap();
    repo
}

#[test]
fn create_and_get_command() {
    let mut repo = setup();
    repo.create_command("ping".to_string(), "pong".to_string(), 2, 10).unwrap();
    let cmd = repo.get_command("ping".to_string()).unwrap();
    assert_eq!(cmd.name, "ping");
    assert_eq!(cmd.action, "pong");
    assert_eq!(cmd.creator_id, 2);
    assert_eq!(cmd.times_used, 0);
    assert_eq!(cmd.created_at, 10);
}

#[test]
fn create_command_duplicate_name_fails() {
    let mut repo = setup();
    repo.create_command("ping".to_string(), "pong".to_string(), 2, 10).unwrap();
    let res = repo.create_command("ping".to_string(), "other".to_string(), 3, 11);
    assert_eq!(res, Err(RepoError::AlreadyExists));
    let cmd = repo.get_command("ping".to_string()).unwrap();
    assert_eq!(cmd.action, "pong");
    assert_eq!(cmd.creator_id, 2);
    assert_eq!(cmd.times_used, 0);
}

#[test]
fn create_command_needs_existing_unblocked_creator() {
    let mut repo = setup();
    assert_eq!(
        repo.create_command("x".to_string(), "y".to_string(), 77, 10),
        Err(RepoError::NotFound)
    );
    repo.block_user(4, 2, 11).unwrap();
    assert_eq!(
        repo.create_command("x".to_string(), "y".to_string(), 2, 12),
        Err(RepoError::Forbidden)
    );
}

#[test]
fn command_names_are_case_sensitive() {
    let mut repo = setup();
    repo.create_command("Ping".to_string(), "a".to_string(), 2, 10).unwrap();
    repo.create_command("ping".to_string(), "b".to_string(), 2, 11).unwrap();
    assert_eq!(repo.get_command("Ping".to_string()).unwrap().action, "a");
    assert_eq!(repo.get_command("ping".to_string()).unwrap().action, "b");
}

#[test]
fn use_command_increments_count() {
    let mut repo = setup();
    repo.create_command("ping".to_string(), "pong".to_string(), 2, 10).unwrap();
    repo.use_command("ping".to_string(), 3, 11).unwrap();
    assert_eq!(repo.get_command("ping".to_string()).unwrap().times_used, 1);
    repo.use_command("ping".to_string(), 2, 12).unwrap();
    assert_eq!(repo.get_command("ping".to_string()).unwrap().times_used, 2);
}

#[test]
fn use_command_denied_to_blocked_and_unknown() {
    let mut repo = setup();
    repo.create_command("ping".to_string(), "pong".to_string(), 2, 10).unwrap();
    repo.block_user(4, 3, 11).unwrap();
    assert_eq!(repo.use_command("ping".to_string(), 3, 12), Err(RepoError::Forbidden));
    assert_eq!(repo.use_command("ping".to_string(), 77, 12), Err(RepoError::NotFound));
    assert_eq!(
        repo.use_command("gone".to_string(), 2, 12),
        Err(RepoError::CommandNotFound)
    );
}

#[test]
fn ownership_scenario_unrelated_user() {
    // create_command(2, "ping", "pong") succeeds while 2 is a User;
    // use_command by an unrelated non-blocked account counts; deleting
    // by that unrelated User fails.
    let mut repo = setup();
    repo.create_command("ping".to_string(), "pong".to_string(), 2, 10).unwrap();
    repo.use_command("ping".to_string(), 3, 11).unwrap();
    assert_eq!(repo.get_command("ping".to_string()).unwrap().times_used, 1);
    assert_eq!(
        repo.delete_command("ping".to_string(), 3, 12),
        Err(RepoError::Forbidden)
    );
    assert!(repo.get_command("ping".to_string()).is_ok());
}

#[test]
fn update_command_by_creator_and_moderator() {
    let mut repo = setup();
    repo.create_command("ping".to_string(), "pong".to_string(), 2, 10).unwrap();
    repo.update_command("ping".to_string(), 2, "pang".to_string(), 11).unwrap();
    assert_eq!(repo.get_command("ping".to_string()).unwrap().action, "pang");
    repo.update_command("ping".to_string(), 4, "peng".to_string(), 12).unwrap();
    assert_eq!(repo.get_command("ping".to_string()).unwrap().action, "peng");
    assert_eq!(
        repo.update_command("ping".to_string(), 3, "nope".to_string(), 13),
        Err(RepoError::Forbidden)
    );
    assert_eq!(
        repo.update_command("gone".to_string(), 2, "x".to_string(), 14),
        Err(RepoError::CommandNotFound)
    );
}

#[test]
fn delete_command_by_creator_and_moderator() {
    let mut repo = setup();
    repo.create_command("a".to_string(), "1".to_string(), 2, 10).unwrap();
    repo.create_command("b".to_string(), "2".to_string(), 2, 11).unwrap();
    repo.delete_command("a".to_string(), 2, 12).unwrap();
    assert_eq!(repo.get_command("a".to_string()).unwrap_err(), RepoError::CommandNotFound);
    repo.delete_command("b".to_string(), 4, 13).unwrap();
    assert_eq!(repo.get_command("b".to_string()).unwrap_err(), RepoError::CommandNotFound);
    assert_eq!(
        repo.delete_command("b".to_string(), 2, 14),
        Err(RepoError::CommandNotFound)
    );
}

#[test]
fn command_pages_are_offset_windows() {
    let mut repo = setup();
    for k in 0..5 {
        repo.create_command(format!("c{}", k), format!("a{}", k), 2, 10 + k).unwrap();
    }
    repo.create_command("other".to_string(), "x".to_string(), 3, 20).unwrap();
    let page0 = repo.get_commands(0, 2).unwrap();
    assert_eq!(page0.len(), 2);
    assert_eq!(page0[0].name, "c0");
    assert_eq!(page0[1].name, "c1");
    let page2 = repo.get_commands(2, 2).unwrap();
    assert_eq!(page2.len(), 2);
    assert_eq!(page2[0].name, "c4");
    assert_eq!(page2[1].name, "other");
    assert_eq!(repo.get_commands(3, 2).unwrap().len(), 0);
    assert_eq!(repo.get_commands(0, 0).unwrap().len(), 0);
}

#[test]
fn user_command_pages_filter_by_creator() {
    let mut repo = setup();
    for k in 0..3 {
        repo.create_command(format!("c{}", k), "x".to_string(), 2, 10 + k).unwrap();
    }
    repo.create_command("other".to_string(), "y".to_string(), 3, 20).unwrap();
    let mine = repo.get_user_commands(2, 0, 10).unwrap();
    assert_eq!(mine.len(), 3);
    assert!(mine.iter().all(|c| c.creator_id == 2));
    let second_page = repo.get_user_commands(2, 1, 2).unwrap();
    assert_eq!(second_page.len(), 1);
    assert_eq!(second_page[0].name, "c2");
    assert_eq!(repo.get_user_commands(77, 0, 10).unwrap().len(), 0);
}

#[test]
fn audit_log_records_command_lifecycle() {
    let mut repo = setup();
    repo.create_command("ping".to_string(), "pong".to_string(), 2, 10).unwrap();
    repo.update_command("ping".to_string(), 4, "pang".to_string(), 11).unwrap();
    repo.use_command("ping".to_string(), 3, 12).unwrap();
    repo.delete_command("ping".to_string(), 4, 13).unwrap();
    let all = repo.get_actions(0, 50).unwrap();
    let kinds: Vec<Type> = all.iter().map(|e| e.action_type).collect();
    assert!(kinds.contains(&Type::CreateCommand));
    assert!(kinds.contains(&Type::EditCommand));
    assert!(kinds.contains(&Type::UseCommand));
    assert!(kinds.contains(&Type::DeleteCommand));
    let edit = all.iter().find(|e| e.action_type == Type::EditCommand).unwrap();
    assert_eq!(edit.user_id, 4);
    assert_eq!(edit.description.command.as_deref(), Some("ping"));
    assert_eq!(edit.description.action.as_deref(), Some("pang"));
}

#[test]
fn actions_have_sequential_ids_and_lookup() {
    let mut repo = setup();
    let id = repo
        .new_action(2, Type::Unknown, modbot_core::models::actions::Description {
            by: None,
            warns: None,
            command: None,
            action: None,
        }, 30)
        .unwrap();
    // Four CreateUser entries come from setup.
    assert_eq!(id, 5);
    let entry = repo.get_action(id).unwrap();
    assert_eq!(entry.id, 5);
    assert_eq!(entry.user_id, 2);
    assert_eq!(entry.created_at, 30);
    assert_eq!(repo.get_action(99).unwrap_err(), RepoError::ActionNotFound);
    assert_eq!(repo.get_action(0).unwrap_err(), RepoError::ActionNotFound);
    assert_eq!(
        repo.new_action(77, Type::Unknown, modbot_core::models::actions::Description {
            by: None,
            warns: None,
            command: None,
            action: None,
        }, 31),
        Err(RepoError::NotFound)
    );
}

#[test]
fn action_pages_are_offset_windows() {
    let repo = setup();
    // Setup wrote entries 1..=4 (one CreateUser per account).
    let page = repo.get_actions(1, 2).unwrap();
    assert_eq!(page.len(), 2);
    assert_eq!(page[0].id, 3);
    assert_eq!(page[1].id, 4);
    assert_eq!(repo.get_actions(2, 2).unwrap().len(), 0);
    let user_page = repo.get_user_actions(3, 0, 10).unwrap();
    assert_eq!(user_page.len(), 1);
    assert_eq!(user_page[0].action_type, Type::CreateUser);
}

#[test]
fn pagination_handles_extreme_window_values() {
    let repo = setup();
    // Setup wrote four audit entries; the window must clip, whatever
    // the page arithmetic would overflow to.
    assert_eq!(repo.get_actions(u64::MAX, u64::MAX).unwrap().len(), 0);
    assert_eq!(repo.get_actions(0, u64::MAX).unwrap().len(), 4);
    assert_eq!(repo.get_actions(u64::MAX, 1).unwrap().len(), 0);
    assert_eq!(repo.get_commands(u64::MAX, u64::MAX).unwrap().len(), 0);
}
