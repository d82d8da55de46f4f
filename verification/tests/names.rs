use create_v1_app::manifest::is_valid_project_name;

#[test]
fn test_valid_project_names() {
    assert!(is_valid_project_name("myproject").is_ok());
    assert!(is_valid_project_name("my-project").is_ok());
    assert!(is_valid_project_name("my_project").is_ok());
    assert!(is_valid_project_name("MyProject123").is_ok());
}

#[test]
fn test_invalid_project_names() {
    assert!(is_valid_project_name("").is_err());
    assert!(is_valid_project_name("123project").is_err());
    assert!(is_valid_project_name("-project").is_err());
    assert!(is_valid_project_name("_project").is_err());
    assert!(is_valid_project_name("my project").is_err());
    assert!(is_valid_project_name("my@project").is_err());
    assert!(is_valid_project_name("MY_PROJECT!").is_err());
    assert!(is_valid_project_name("myproject12345678901234567890").is_err());
}

#[test]
fn name_error_messages_are_specific() {
    assert_eq!(
        is_valid_project_name("").unwrap_err(),
        "Project name cannot be empty"
    );
    assert_eq!(
        is_valid_project_name("1abc").unwrap_err(),
        "Project name must start with a letter"
    );
    assert_eq!(
        is_valid_project_name("a b").unwrap_err(),
        "Project name can only contain letters, numbers, dashes, and underscores"
    );
    assert_eq!(
        is_valid_project_name("abcdefghijklmnopqrstu").unwrap_err(),
        "Project name is too long (maximum 20 characters)"
    );
}

#[test]
fn name_of_twenty_characters_is_accepted() {
    assert!(is_valid_project_name("abcdefghijklmnopqrst").is_ok());
}
