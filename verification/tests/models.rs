use refactor_backend::User;

#[test]
fn user_new_keeps_its_arguments() {
    let user = User::new(7, "Ada".to_string(), "ada@example.org".to_string());
    assert_eq!(user.id, 7);
    assert_eq!(user.name, "Ada");
    assert_eq!(user.email, "ada@example.org");
}

#[test]
fn user_display_shows_name_and_email() {
    let user = User::new(1, "Ada".to_string(), "ada@example.org".to_string());
    assert_eq!(user.display(), "Ada (ada@example.org)");
    let blank = User::new(2, String::new(), String::new());
    assert_eq!(blank.display(), " ()");
}

#[test]
fn user_update_email_changes_only_the_email() {
    let mut user = User::new(1, "Ada".to_string(), "ada@example.org".to_string());
    user.update_email("countess@example.org".to_string());
    assert_eq!(user.id, 1);
    assert_eq!(user.name, "Ada");
    assert_eq!(user.email, "countess@example.org");
    assert_eq!(user.display(), "Ada (countess@example.org)");
}
