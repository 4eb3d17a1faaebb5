use catlog::user::{
    PermissionLevel, Permissions, UserProfile, is_level_authorized, is_username_valid,
};

#[test]
fn validate_user_profile() {
    assert!(UserProfile {
        username: None,
        display_name: None
    }
    .validate()
    .is_ok());

    assert!(UserProfile {
        username: Some("evan!".into()),
        display_name: Some("Evan".into()),
    }
    .validate()
    .is_err());
}

#[test]
fn validate_username() {
    assert!(!is_username_valid(""));
    assert!(is_username_valid("foo"));
    assert!(!is_username_valid("_foo"));
    assert!(!is_username_valid("foo_"));
    assert!(is_username_valid("foo_bar"));
    assert!(is_username_valid("foo-bar"));
    assert!(is_username_valid("foo.bar"));
    assert!(!is_username_valid("foo!bar"));
}

#[test]
fn invalid_username_error_message() {
    let profile = UserProfile {
        username: Some("-bad".into()),
        display_name: None,
    };
    assert_eq!(profile.validate(), Err("Username does not follow the rules".to_string()));
    let profile = UserProfile {
        username: Some("good1".into()),
        display_name: None,
    };
    assert_eq!(profile.validate(), Ok(()));
}

#[test]
fn max_permission_level() {
    let p = Permissions { anyone: None, user: None };
    assert_eq!(p.max_level(), None);
    let p = Permissions { anyone: Some(PermissionLevel::Write), user: None };
    assert_eq!(p.max_level(), Some(PermissionLevel::Write));
    let p = Permissions { anyone: None, user: Some(PermissionLevel::Read) };
    assert_eq!(p.max_level(), Some(PermissionLevel::Read));
    let p = Permissions { anyone: Some(PermissionLevel::Read), user: Some(PermissionLevel::Own) };
    assert_eq!(p.max_level(), Some(PermissionLevel::Own));
    let p = Permissions { anyone: Some(PermissionLevel::Maintain), user: Some(PermissionLevel::Write) };
    assert_eq!(p.max_level(), Some(PermissionLevel::Maintain));
}

#[test]
fn authorization_by_level() {
    assert!(!is_level_authorized(None, PermissionLevel::Read));
    assert!(is_level_authorized(Some(PermissionLevel::Write), PermissionLevel::Read));
    assert!(is_level_authorized(Some(PermissionLevel::Write), PermissionLevel::Write));
    assert!(!is_level_authorized(Some(PermissionLevel::Write), PermissionLevel::Maintain));
    assert!(is_level_authorized(Some(PermissionLevel::Own), PermissionLevel::Own));
}
