use lib::folder_arguments::{
    confirms_deletion, deletion_phrase,
    folder_rules, next_argument, parse_folder_id, parse_folder_maintenance, parse_folder_rules,
    parse_position, ArgumentError, FolderMaintenance,
};

fn args(values: &[&str]) -> Vec<String> {
    values.iter().map(|value| value.to_string()).collect()
}

#[test]
fn create_takes_a_title_and_rules() {
    let mut rest = args(&["Work", "contacts,bots", "--next"]);
    let parsed = parse_folder_maintenance(&mut rest, "--folder-create").unwrap();
    match parsed {
        FolderMaintenance::Create { title, rules } => {
            assert_eq!(title, "Work");
            assert!(rules.contacts && rules.bots);
            assert!(!rules.groups && !rules.broadcasts && !rules.exclude_muted);
        }
        other => panic!("unexpected command {other:?}"),
    }
    assert_eq!(rest, args(&["--next"]));
}

#[test]
fn reorder_takes_a_folder_and_a_position() {
    let mut rest = args(&["7", "+3"]);
    let parsed = parse_folder_maintenance(&mut rest, "--folder-reorder").unwrap();
    assert!(matches!(parsed, FolderMaintenance::Reorder { folder: 7, position: 3 }));
    assert!(rest.is_empty());
}

#[test]
fn share_delete_rename_and_rules_take_a_folder() {
    let mut rest = args(&["2"]);
    assert!(matches!(
        parse_folder_maintenance(&mut rest, "--folder-share"),
        Ok(FolderMaintenance::Share { folder: 2 })
    ));
    let mut rest = args(&["3"]);
    assert!(matches!(
        parse_folder_maintenance(&mut rest, "--folder-delete"),
        Ok(FolderMaintenance::Delete { folder: 3 })
    ));
    let mut rest = args(&["4", "Home"]);
    match parse_folder_maintenance(&mut rest, "--folder-rename") {
        Ok(FolderMaintenance::Rename { folder, title }) => {
            assert_eq!(folder, 4);
            assert_eq!(title, "Home");
        }
        other => panic!("unexpected result {other:?}"),
    }
    let mut rest = args(&["5", "exclude-read"]);
    match parse_folder_maintenance(&mut rest, "--folder-rules") {
        Ok(FolderMaintenance::Rules { folder, rules }) => {
            assert_eq!(folder, 5);
            assert!(rules.exclude_read && !rules.exclude_archived);
        }
        other => panic!("unexpected result {other:?}"),
    }
}

#[test]
fn unknown_argument_is_refused() {
    let mut rest = args(&["x"]);
    match parse_folder_maintenance(&mut rest, "--folder-paint") {
        Err(ArgumentError::UnknownArgument { argument }) => assert_eq!(argument, "--folder-paint"),
        other => panic!("unexpected result {other:?}"),
    }
    assert_eq!(rest, args(&["x"]));
}

#[test]
fn missing_value_is_refused() {
    let mut rest = args(&["Work"]);
    match parse_folder_maintenance(&mut rest, "--folder-create") {
        Err(ArgumentError::MissingArgumentValue { argument }) => {
            assert_eq!(argument, "--folder-create")
        }
        other => panic!("unexpected result {other:?}"),
    }
    let mut none: Vec<String> = Vec::new();
    assert!(matches!(
        next_argument(&mut none, "--folder-share"),
        Err(ArgumentError::MissingArgumentValue { .. })
    ));
}

#[test]
fn folder_ids_must_exceed_one() {
    assert_eq!(parse_folder_id("--folder-share", "2".to_owned()).unwrap(), 2);
    for value in ["1", "0", "-4", "abc", "", "2147483648", " 3"] {
        match parse_folder_id("--folder-share", value.to_owned()) {
            Err(ArgumentError::InvalidArgumentValue { argument, value: given }) => {
                assert_eq!(argument, "--folder-share");
                assert_eq!(given, value);
            }
            other => panic!("{value:?} gave {other:?}"),
        }
    }
    assert_eq!(parse_folder_id("--folder-share", "2147483647".to_owned()).unwrap(), i32::MAX);
}

#[test]
fn positions_are_unsigned_numbers() {
    assert_eq!(parse_position("--folder-reorder", "0".to_owned()).unwrap(), 0);
    assert_eq!(parse_position("--folder-reorder", "+12".to_owned()).unwrap(), 12);
    assert!(parse_position("--folder-reorder", "-1".to_owned()).is_err());
    assert!(parse_position("--folder-reorder", "+".to_owned()).is_err());
    assert!(parse_position("--folder-reorder", "99999999999999999999999".to_owned()).is_err());
}

#[test]
fn rule_lists_skip_empty_pieces_and_refuse_unknown_names() {
    let rules = folder_rules(",groups,,channels,").unwrap();
    assert!(rules.groups && rules.broadcasts);
    assert!(!rules.contacts && !rules.non_contacts && !rules.bots);
    let none = folder_rules("").unwrap();
    assert!(!none.contacts && !none.exclude_archived);
    assert!(folder_rules("groups,everyone").is_none());
    match parse_folder_rules("--folder-rules", "Groups".to_owned()) {
        Err(ArgumentError::InvalidArgumentValue { value, .. }) => assert_eq!(value, "Groups"),
        other => panic!("unexpected result {other:?}"),
    }
    let all = folder_rules(
        "contacts,non-contacts,groups,channels,bots,exclude-muted,exclude-read,exclude-archived",
    )
    .unwrap();
    assert!(all.contacts && all.non_contacts && all.groups && all.broadcasts && all.bots);
    assert!(all.exclude_muted && all.exclude_read && all.exclude_archived);
}

#[test]
fn folder_deletion_needs_the_exact_phrase() {
    assert_eq!(deletion_phrase(12), "DELETE FOLDER 12");
    assert!(confirms_deletion(&"DELETE FOLDER 12".to_owned(), 12));
    assert!(!confirms_deletion(&"DELETE FOLDER 13".to_owned(), 12));
    assert!(!confirms_deletion(&"delete folder 12".to_owned(), 12));
    assert!(!confirms_deletion(&"DELETE FOLDER 12 ".to_owned(), 12));
}
