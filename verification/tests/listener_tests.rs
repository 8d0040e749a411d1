use flowy_folder2::entities::TrashRecord;
use flowy_folder2::entities::ViewLayout;
use flowy_folder2::entities::ViewNode;
use flowy_folder2::entities::Workspace;
use flowy_folder2::folder::Folder;
use flowy_folder2::listener::process_trash_change;
use flowy_folder2::listener::process_view_change;
use flowy_folder2::listener::TrashChange;
use flowy_folder2::listener::ViewChange;
use flowy_folder2::notification::FolderNotification;
use flowy_folder2::notification::Notification;

fn view(id: &str, parent: &str, name: &str) -> ViewNode {
    ViewNode {
        id: id.to_string(),
        parent_view_id: parent.to_string(),
        name: name.to_string(),
        desc: String::new(),
        layout: ViewLayout::Document,
        created_at: 1,
    }
}

fn sample_folder() -> Folder {
    let mut f = Folder::new(Workspace {
        id: "w1".to_string(),
        name: "W".to_string(),
        created_at: 1,
    });
    f.insert_view(view("p", "w1", "Parent"));
    f.insert_view(view("v1", "p", "One"));
    f.insert_view(view("v2", "p", "Two"));
    f.insert_view(view("v3", "p", "Three"));
    f
}

fn child_notes_for<'a>(notes: &'a [Notification], topic: &str) -> Vec<&'a Notification> {
    notes
        .iter()
        .filter(|n| {
            n.kind == FolderNotification::DidUpdateChildViews && n.topic == topic.to_string()
        })
        .collect()
}

#[test]
fn trashing_many_siblings_notifies_their_parent_once() {
    let f = sample_folder();
    let change = TrashChange::DidCreateTrash {
        ids: vec!["v1".to_string(), "v2".to_string(), "v3".to_string()],
    };
    let notes = process_trash_change(&f, &change);
    // one trash-list refresh, then exactly one note for the shared parent
    assert_eq!(notes.len(), 2);
    assert_eq!(notes[0].kind, FolderNotification::DidUpdateTrash);
    assert_eq!(notes[0].topic, "trash".to_string());
    assert_eq!(child_notes_for(&notes, "p").len(), 1);
}

#[test]
fn trash_delivery_always_refreshes_the_trash_list() {
    let mut f = sample_folder();
    f.add_trash(TrashRecord { id: "v1".to_string(), created_at: 7 });
    let change = TrashChange::DidDeleteTrash { ids: vec!["v1".to_string()] };
    let notes = process_trash_change(&f, &change);
    assert_eq!(notes[0].kind, FolderNotification::DidUpdateTrash);
    match &notes[0].payload {
        flowy_folder2::notification::NotificationPayload::Trash(items) => {
            assert_eq!(items.len(), 1);
            assert_eq!(items[0].id, "v1".to_string());
        },
        _ => panic!("wrong payload"),
    }
}

#[test]
fn view_creation_notifies_the_parent_scope() {
    let f = sample_folder();
    let change = ViewChange::DidCreateView { view: view("v4", "p", "Four") };
    let notes = process_view_change(&f, &change);
    assert_eq!(notes.len(), 1);
    assert_eq!(notes[0].kind, FolderNotification::DidUpdateChildViews);
    assert_eq!(notes[0].topic, "p".to_string());
}

#[test]
fn view_deletion_is_driven_by_the_trash_stream() {
    let f = sample_folder();
    let change = ViewChange::DidDeleteView { views: vec![view("v1", "p", "One")] };
    let notes = process_view_change(&f, &change);
    assert!(notes.is_empty());
}

#[test]
fn update_under_the_workspace_root_refreshes_the_workspace() {
    let f = sample_folder();
    let change = ViewChange::DidUpdate { view: view("p", "w1", "Parent") };
    let notes = process_view_change(&f, &change);
    assert_eq!(notes.len(), 1);
    assert_eq!(notes[0].kind, FolderNotification::DidUpdateWorkspaceViews);
    assert_eq!(notes[0].topic, "w1".to_string());
}
