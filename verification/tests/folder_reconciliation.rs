use lib::app::folder_reconciliation::{FolderOperationResult, FolderReconciliation};
use lib::app::App;
use lib::folder_arguments::FolderRules;
use lib::ids::ChatId;
use lib::protocol::{AdapterEvent, Bootstrap, Input, Intent};
use lib::view::{Action, ChatView, ConnectionState, FolderDetailsView, FolderManagerView, FolderView};

fn rules() -> FolderRules {
    FolderRules {
        contacts: true,
        non_contacts: false,
        groups: false,
        broadcasts: false,
        bots: false,
        exclude_muted: false,
        exclude_read: false,
        exclude_archived: true,
    }
}

fn folder(id: i32, title: &str) -> FolderView {
    FolderView { id, title: title.to_owned(), unread: 0 }
}

fn details(id: i32) -> FolderDetailsView {
    FolderDetailsView { id, rules: None, shareable: id != 9 }
}

fn chat(id: i64, folders: Vec<i32>) -> ChatView {
    ChatView {
        id: ChatId(id),
        title: format!("Chat {id}"),
        folders,
        unread: 0,
        status: String::new(),
        preview: String::new(),
        preview_sender: None,
        preview_sender_peer: None,
        preview_timestamp: String::new(),
        can_pin_messages: false,
    }
}

fn managed() -> App {
    let mut app = App::empty();
    app.apply(Input::Adapter(AdapterEvent::Bootstrap(Bootstrap {
        connection: ConnectionState::Connecting,
        account_name: "Ada".to_owned(),
        folders: vec![folder(0, "All"), folder(5, "Work"), folder(9, "Family"), folder(-1, "Archive")],
        chats: vec![chat(1, vec![0, 5]), chat(2, vec![0, 9]), chat(3, vec![-1])],
        drafts: Vec::new(),
        histories: Vec::new(),
        messages: Vec::new(),
    })));
    app.view.folder_details = vec![details(5), details(9)];
    app.view.folder_manager = Some(FolderManagerView {
        selected: 0,
        editor: None,
        delete_confirmation: None,
        pending: true,
    });
    app
}

fn folder_ids(app: &App) -> Vec<i32> {
    app.view.folders.iter().map(|f| f.id).collect()
}

fn detail_ids(app: &App) -> Vec<i32> {
    app.view.folder_details.iter().map(|d| d.id).collect()
}

fn complete(app: &mut App, result: FolderOperationResult) {
    let effect = app.apply(Input::Adapter(AdapterEvent::FolderOperationCompleted { result, reconciliation: None }));
    assert!(effect.is_none());
}

#[test]
fn created_folder_is_listed_before_the_archive() {
    let mut app = managed();
    app.view.notice = Some("working".to_owned());
    complete(&mut app, FolderOperationResult::Created { id: 7, title: "New".to_owned(), rules: rules() });
    assert_eq!(folder_ids(&app), vec![0, 5, 9, 7, -1]);
    assert_eq!(app.view.folders[3].title, "New");
    assert_eq!(detail_ids(&app), vec![5, 9, 7]);
    assert_eq!(app.view.folder_details[2].rules, Some(rules()));
    assert!(app.view.folder_details[2].shareable);
    let manager = app.view.folder_manager.as_ref().unwrap();
    assert!(!manager.pending);
    assert_eq!(manager.selected, 2);
    assert!(app.view.notice.is_none());
}

#[test]
fn created_folder_that_is_already_listed_is_not_added_again() {
    let mut app = managed();
    complete(&mut app, FolderOperationResult::Created { id: 5, title: "Work".to_owned(), rules: rules() });
    assert_eq!(folder_ids(&app), vec![0, 5, 9, -1]);
    assert_eq!(detail_ids(&app), vec![5, 9]);
}

#[test]
fn updated_folder_takes_its_title_and_rules() {
    let mut app = managed();
    complete(&mut app, FolderOperationResult::Updated { id: 9, title: "Kin".to_owned(), rules: Some(rules()) });
    assert_eq!(app.view.folders[2].title, "Kin");
    assert_eq!(app.view.folder_details[1].rules, Some(rules()));
}

#[test]
fn reordered_folder_moves_and_the_active_folder_follows() {
    let mut app = managed();
    app.view.active_folder = 1;
    complete(&mut app, FolderOperationResult::Reordered { id: 9, position: 0 });
    assert_eq!(detail_ids(&app), vec![9, 5]);
    assert_eq!(folder_ids(&app), vec![0, 9, 5, -1]);
    assert_eq!(app.view.folders[app.view.active_folder].id, 5);
    assert_eq!(app.view.folder_manager.as_ref().unwrap().selected, 0);
}

#[test]
fn reordering_past_the_end_puts_the_folder_last() {
    let mut app = managed();
    complete(&mut app, FolderOperationResult::Reordered { id: 5, position: 40 });
    assert_eq!(detail_ids(&app), vec![9, 5]);
    assert_eq!(folder_ids(&app), vec![0, 9, 5, -1]);
    assert_eq!(app.view.folder_manager.as_ref().unwrap().selected, 1);
}

#[test]
fn shared_folder_shows_its_link() {
    let mut app = managed();
    complete(&mut app, FolderOperationResult::Shared { id: 5, url: "https://t.me/addlist/x".to_owned() });
    assert_eq!(app.view.notice.as_deref(), Some("Folder share link: https://t.me/addlist/x"));
}

#[test]
fn deleted_folder_leaves_lists_and_chats() {
    let mut app = managed();
    app.view.active_folder = 1;
    app.view.folder_manager.as_mut().unwrap().selected = 1;
    app.view.folder_manager.as_mut().unwrap().delete_confirmation = Some(5);
    complete(&mut app, FolderOperationResult::Deleted { id: 5 });
    assert_eq!(folder_ids(&app), vec![0, 9, -1]);
    assert_eq!(detail_ids(&app), vec![9]);
    assert_eq!(app.all_chats[0].folders, vec![0]);
    assert_eq!(app.view.active_folder, 0);
    assert_eq!(app.view.chats.len(), 2);
    let manager = app.view.folder_manager.as_ref().unwrap();
    assert!(manager.delete_confirmation.is_none());
    assert_eq!(manager.selected, 0);
}

#[test]
fn failed_folder_operation_shows_the_reason() {
    let mut app = managed();
    app.apply(Input::Adapter(AdapterEvent::FolderOperationFailed("FILTER_ID_INVALID".to_owned())));
    assert!(!app.view.folder_manager.as_ref().unwrap().pending);
    assert_eq!(app.view.notice.as_deref(), Some("FILTER_ID_INVALID"));
}

#[test]
fn reconciled_folders_replace_the_listed_ones() {
    let mut app = managed();
    app.view.active_folder = 2;
    let reconciliation = FolderReconciliation {
        folders: vec![folder(0, "All"), folder(9, "Family"), folder(-1, "Archive")],
        details: vec![details(9)],
        chats: vec![chat(1, vec![0]), chat(8, vec![0])],
    };
    app.apply(Input::Adapter(AdapterEvent::FolderOperationCompleted {
        result: FolderOperationResult::Deleted { id: 5 },
        reconciliation: Some(Box::new(reconciliation)),
    }));
    assert_eq!(folder_ids(&app), vec![0, 9, -1]);
    assert_eq!(app.view.folders[app.view.active_folder].id, 9);
    assert_eq!(app.all_chats[0].folders, vec![0]);
    assert_eq!(app.all_chats.len(), 3);
}

#[test]
fn folder_manager_offers_operations_on_a_listed_folder() {
    let mut app = managed();
    app.view.folder_manager.as_mut().unwrap().pending = false;
    app.view.folder_manager.as_mut().unwrap().selected = 1;
    app.refresh_actions();
    assert_eq!(
        app.view.actions,
        vec![
            Action::Quit,
            Action::MoveUp,
            Action::MoveDown,
            Action::CreateFolder,
            Action::Cancel,
            Action::EditFolder,
            Action::ReorderFolderUp,
            Action::ReorderFolderDown,
            Action::DeleteFolder,
        ]
    );
    app.view.folder_manager.as_mut().unwrap().pending = true;
    app.refresh_actions();
    assert_eq!(app.view.actions, vec![Action::Quit]);
}

#[test]
fn open_folder_manager_keeps_actions_from_the_chat_list() {
    let mut app = managed();
    app.view.folder_manager.as_mut().unwrap().pending = false;
    app.view.active_chat = Some(0);
    app.apply(Input::Intent(Intent::Action(Action::MoveDown)));
    assert_eq!(app.view.active_chat, Some(0));
}
