use flowy_folder2::entities::CreateViewParams;
use flowy_folder2::entities::ImportParams;
use flowy_folder2::entities::UpdateViewParams;
use flowy_folder2::entities::ViewLayout;
use flowy_folder2::entities::Workspace;
use flowy_folder2::errors::FolderError;
use flowy_folder2::folder::Folder;
use flowy_folder2::manager::Folder2Manager;
use flowy_folder2::notification::FolderNotification;
use flowy_folder2::notification::NotificationPayload;

fn workspace(id: &str, name: &str) -> Workspace {
    Workspace { id: id.to_string(), name: name.to_string(), created_at: 1 }
}

fn params(view_id: &str, parent: &str, name: &str, layout: ViewLayout) -> CreateViewParams {
    CreateViewParams {
        parent_view_id: parent.to_string(),
        name: name.to_string(),
        desc: String::new(),
        layout,
        initial_data: Vec::new(),
        view_id: view_id.to_string(),
        set_as_current: false,
    }
}

fn ready_manager() -> Folder2Manager {
    let mut m = Folder2Manager::new(vec![ViewLayout::Document, ViewLayout::Grid]).unwrap();
    m.initialize(Some(Folder::new(workspace("w1", "W")))).unwrap();
    m
}

#[test]
fn initialize_without_store_is_a_successful_noop() {
    let mut m = Folder2Manager::new(vec![ViewLayout::Document]).unwrap();
    assert!(m.initialize(None).is_ok());
    assert!(matches!(m.get_view("v"), Err(FolderError::NotInitialized)));
}

#[test]
fn initialize_with_new_user_announces_workspace() {
    let mut m = Folder2Manager::new(vec![ViewLayout::Document]).unwrap();
    let ws = workspace("w1", "W");
    m.initialize_with_new_user(Folder::new(ws.clone()), ws).unwrap();
    let notes = m.drain_notifications();
    assert_eq!(notes.len(), 1);
    assert_eq!(notes[0].kind, FolderNotification::DidCreateWorkspace);
    assert_eq!(notes[0].topic, "w1".to_string());
    match &notes[0].payload {
        NotificationPayload::Workspaces(items) => {
            assert_eq!(items.len(), 1);
            assert_eq!(items[0].name, "W".to_string());
        },
        _ => panic!("wrong payload"),
    }
}

#[test]
fn open_workspace_changes_only_the_marker() {
    let mut m = ready_manager();
    m.create_workspace(workspace("w2", "Other")).unwrap();
    m.drain_notifications();
    let w = m.open_workspace("w1").unwrap();
    assert_eq!(w.id, "w1".to_string());
    assert!(matches!(m.open_workspace("nope"), Err(FolderError::NotFound)));
    let current = m.get_current_workspace().unwrap();
    assert_eq!(current.id, "w1".to_string());
    assert_eq!(m.get_all_workspaces().len(), 2);
}

#[test]
fn open_workspace_needs_a_snapshot() {
    let mut m = Folder2Manager::new(vec![ViewLayout::Document]).unwrap();
    assert!(matches!(m.open_workspace("w1"), Err(FolderError::NotInitialized)));
}

#[test]
fn create_then_get_round_trip() {
    let mut m = ready_manager();
    let p = params("v1", "w1", "Notes", ViewLayout::Document);
    let v = m.create_view_with_params(p).unwrap();
    assert_eq!(v.id, "v1".to_string());
    let pb = m.get_view("v1").unwrap();
    assert_eq!(pb.name, "Notes".to_string());
    assert_eq!(pb.layout, ViewLayout::Document);
    assert_eq!(pb.parent_view_id, "w1".to_string());
    assert!(pb.child_views.is_empty());
}

#[test]
fn create_view_with_unknown_layout_fails_internal() {
    let mut m = Folder2Manager::new(vec![ViewLayout::Document]).unwrap();
    m.initialize(Some(Folder::new(workspace("w1", "W")))).unwrap();
    let p = params("v1", "w1", "Board", ViewLayout::Board);
    assert!(matches!(m.create_view_with_params(p), Err(FolderError::Internal)));
    assert!(matches!(m.get_view("v1"), Err(FolderError::NotFound)));
}

#[test]
fn create_view_queues_parent_notification() {
    let mut m = ready_manager();
    m.drain_notifications();
    m.create_view_with_params(params("v1", "w1", "A", ViewLayout::Document)).unwrap();
    m.create_view_with_params(params("v2", "v1", "B", ViewLayout::Document)).unwrap();
    let notes = m.drain_notifications();
    // one workspace-scope note for v1's parent (the workspace), then one
    // child-scope note for v2's parent (the view v1)
    assert_eq!(notes.len(), 2);
    assert_eq!(notes[0].kind, FolderNotification::DidUpdateWorkspaceViews);
    assert_eq!(notes[0].topic, "w1".to_string());
    assert_eq!(notes[1].kind, FolderNotification::DidUpdateChildViews);
    assert_eq!(notes[1].topic, "v1".to_string());
}

#[test]
fn get_view_filters_trashed_children() {
    let mut m = ready_manager();
    m.create_view_with_params(params("p", "w1", "Parent", ViewLayout::Document)).unwrap();
    m.create_view_with_params(params("c1", "p", "One", ViewLayout::Document)).unwrap();
    m.create_view_with_params(params("c2", "p", "Two", ViewLayout::Document)).unwrap();
    m.move_view_to_trash("c1").unwrap();
    let pb = m.get_view("p").unwrap();
    assert_eq!(pb.child_views.len(), 1);
    assert_eq!(pb.child_views[0].id, "c2".to_string());
}

#[test]
fn trashed_view_is_not_found_but_children_survive() {
    // create workspace W, view A under W, view B under A, then trash A
    let mut m = ready_manager();
    m.create_view_with_params(params("a", "w1", "A", ViewLayout::Document)).unwrap();
    m.create_view_with_params(params("b", "a", "B", ViewLayout::Document)).unwrap();
    m.move_view_to_trash("a").unwrap();
    assert!(matches!(m.get_view("a"), Err(FolderError::NotFound)));
    // B itself is not trashed, so it can still be fetched directly
    assert!(m.get_view("b").is_ok());
    // but A, and with it the subtree, is absent from the workspace listing
    let tops = m.get_workspace_views("w1").unwrap();
    assert!(tops.is_empty());
}

#[test]
fn trash_current_view_clears_selection() {
    let mut m = ready_manager();
    m.create_view_with_params(params("a", "w1", "A", ViewLayout::Document)).unwrap();
    m.create_view_with_params(params("b", "w1", "B", ViewLayout::Document)).unwrap();
    m.set_current_view("a").unwrap();
    // trashing some other view leaves the selection alone
    m.move_view_to_trash("b").unwrap();
    assert_eq!(m.get_current_view().unwrap().id, "a".to_string());
    // trashing the selected view clears the selection
    m.move_view_to_trash("a").unwrap();
    assert!(m.get_current_view().is_none());
}

#[test]
fn restore_all_trash_is_idempotent() {
    let mut m = ready_manager();
    m.create_view_with_params(params("a", "w1", "A", ViewLayout::Document)).unwrap();
    m.move_view_to_trash("a").unwrap();
    m.drain_notifications();
    m.restore_all_trash();
    assert!(m.get_all_trash().is_empty());
    assert!(m.get_view("a").is_ok());
    let first = m.drain_notifications();
    assert_eq!(first.len(), 1);
    assert_eq!(first[0].kind, FolderNotification::DidUpdateTrash);
    // a second run finds the trash empty, changes nothing, and still
    // announces the empty list
    m.restore_all_trash();
    assert!(m.get_all_trash().is_empty());
    assert!(m.get_view("a").is_ok());
    let second = m.drain_notifications();
    assert_eq!(second.len(), 1);
    assert_eq!(second[0].kind, FolderNotification::DidUpdateTrash);
}

#[test]
fn delete_all_trash_is_idempotent_and_purges() {
    let mut m = ready_manager();
    m.create_view_with_params(params("a", "w1", "A", ViewLayout::Document)).unwrap();
    m.create_view_with_params(params("b", "w1", "B", ViewLayout::Document)).unwrap();
    m.move_view_to_trash("a").unwrap();
    m.drain_notifications();
    m.delete_all_trash();
    assert!(m.get_all_trash().is_empty());
    assert!(matches!(m.get_view("a"), Err(FolderError::NotFound)));
    assert!(m.get_view("b").is_ok());
    m.delete_all_trash();
    assert!(m.get_all_trash().is_empty());
    assert!(m.get_view("b").is_ok());
    let notes = m.drain_notifications();
    assert_eq!(notes.len(), 2);
    assert_eq!(notes[0].kind, FolderNotification::DidUpdateTrash);
    assert_eq!(notes[1].kind, FolderNotification::DidUpdateTrash);
}

#[test]
fn restore_trash_brings_one_view_back() {
    let mut m = ready_manager();
    m.create_view_with_params(params("a", "w1", "A", ViewLayout::Document)).unwrap();
    m.move_view_to_trash("a").unwrap();
    let trash = m.get_all_trash();
    assert_eq!(trash.len(), 1);
    assert_eq!(trash[0].id, "a".to_string());
    assert!(trash[0].created_at >= 0);
    m.restore_trash("a");
    assert!(m.get_all_trash().is_empty());
    assert!(m.get_view("a").is_ok());
}

#[test]
fn delete_trash_purges_one_view() {
    let mut m = ready_manager();
    m.create_view_with_params(params("a", "w1", "A", ViewLayout::Document)).unwrap();
    m.move_view_to_trash("a").unwrap();
    m.delete_trash("a");
    assert!(m.get_all_trash().is_empty());
    assert!(matches!(m.get_view("a"), Err(FolderError::NotFound)));
}

#[test]
fn import_requires_data_or_path() {
    // neither raw data nor a file path: rejected before anything else runs
    let mut m = ready_manager();
    m.drain_notifications();
    let bad = ImportParams {
        parent_view_id: "w1".to_string(),
        name: "Imported".to_string(),
        data: None,
        file_path: None,
        view_layout: ViewLayout::Document,
    };
    assert!(matches!(m.import(bad, "v9".to_string()), Err(FolderError::InvalidInput)));
    assert!(m.drain_notifications().is_empty());
    assert!(matches!(m.get_view("v9"), Err(FolderError::NotFound)));
}

#[test]
fn import_with_data_creates_the_view() {
    let mut m = ready_manager();
    let good = ImportParams {
        parent_view_id: "w1".to_string(),
        name: "Imported".to_string(),
        data: Some(vec![1, 2, 3]),
        file_path: None,
        view_layout: ViewLayout::Grid,
    };
    let v = m.import(good, "v9".to_string()).unwrap();
    assert_eq!(v.id, "v9".to_string());
    let pb = m.get_view("v9").unwrap();
    assert_eq!(pb.name, "Imported".to_string());
    assert_eq!(pb.layout, ViewLayout::Grid);
}

#[test]
fn update_view_applies_only_supplied_fields() {
    let mut m = ready_manager();
    m.create_view_with_params(params("a", "w1", "Old", ViewLayout::Document)).unwrap();
    m.drain_notifications();
    let up = UpdateViewParams {
        view_id: "a".to_string(),
        name: Some("New".to_string()),
        desc: None,
        layout: None,
    };
    m.update_view_with_params(up).unwrap();
    let pb = m.get_view("a").unwrap();
    assert_eq!(pb.name, "New".to_string());
    assert_eq!(pb.layout, ViewLayout::Document);
    let notes = m.drain_notifications();
    // the parent scope and the view's own topic are both notified
    assert_eq!(notes.len(), 2);
    assert_eq!(notes[1].kind, FolderNotification::DidUpdateView);
    assert_eq!(notes[1].topic, "a".to_string());
}

#[test]
fn update_of_unknown_view_is_a_noop() {
    let mut m = ready_manager();
    m.drain_notifications();
    let up = UpdateViewParams {
        view_id: "ghostly".to_string(),
        name: Some("New".to_string()),
        desc: None,
        layout: None,
    };
    assert!(m.update_view_with_params(up).is_ok());
    assert!(m.drain_notifications().is_empty());
}

#[test]
fn duplicate_view_copies_under_same_parent() {
    let mut m = ready_manager();
    m.create_view_with_params(params("a", "w1", "Doc", ViewLayout::Document)).unwrap();
    m.duplicate_view("a", "a2".to_string(), vec![7]).unwrap();
    let pb = m.get_view("a2").unwrap();
    assert_eq!(pb.name, "Doc (copy)".to_string());
    assert_eq!(pb.parent_view_id, "w1".to_string());
    assert_eq!(pb.layout, ViewLayout::Document);
    assert!(matches!(
        m.duplicate_view("missing", "a3".to_string(), vec![]),
        Err(FolderError::NotFound)
    ));
}

#[test]
fn move_view_reorders_siblings() {
    let mut m = ready_manager();
    m.create_view_with_params(params("a", "w1", "A", ViewLayout::Document)).unwrap();
    m.create_view_with_params(params("b", "w1", "B", ViewLayout::Document)).unwrap();
    m.create_view_with_params(params("c", "w1", "C", ViewLayout::Document)).unwrap();
    m.move_view("a", 0, 2).unwrap();
    let siblings = m.get_views_belong_to("w1").unwrap();
    let ids: Vec<String> = siblings.iter().map(|v| v.id.clone()).collect();
    assert_eq!(ids, vec!["b".to_string(), "c".to_string(), "a".to_string()]);
    // unknown ids are a silent no-op
    assert!(m.move_view("nope", 0, 1).is_ok());
    // indices outside the sibling list leave the order alone
    assert!(m.move_view("b", 0, 9).is_ok());
    let unchanged = m.get_views_belong_to("w1").unwrap();
    let ids2: Vec<String> = unchanged.iter().map(|v| v.id.clone()).collect();
    assert_eq!(ids2, vec!["b".to_string(), "c".to_string(), "a".to_string()]);
}

#[test]
fn child_listing_includes_trashed_views() {
    // the raw child listing does not filter trash; only the annotated
    // lookups do
    let mut m = ready_manager();
    m.create_view_with_params(params("a", "w1", "A", ViewLayout::Document)).unwrap();
    m.create_view_with_params(params("b", "w1", "B", ViewLayout::Document)).unwrap();
    m.move_view_to_trash("a").unwrap();
    assert_eq!(m.get_views_belong_to("w1").unwrap().len(), 2);
    assert_eq!(m.get_workspace_views("w1").unwrap().len(), 1);
}

#[test]
fn close_view_resolves_view_and_handler() {
    let mut m = ready_manager();
    m.create_view_with_params(params("a", "w1", "A", ViewLayout::Document)).unwrap();
    assert!(m.close_view("a").is_ok());
    assert!(matches!(m.close_view("nope"), Err(FolderError::NotFound)));
}

#[test]
fn create_view_with_data_checks_the_handler() {
    let m = Folder2Manager::new(vec![ViewLayout::Document]).unwrap();
    assert!(m.create_view_with_data("v", "n", ViewLayout::Document, vec![1]).is_ok());
    assert!(matches!(
        m.create_view_with_data("v", "n", ViewLayout::Board, vec![1]),
        Err(FolderError::Internal)
    ));
}

#[test]
fn reload_replaces_the_snapshot_wholesale() {
    let mut m = ready_manager();
    m.create_view_with_params(params("a", "w1", "A", ViewLayout::Document)).unwrap();
    m.drain_notifications();
    // the reload takes the snapshot out; a create in that window commits
    // nothing and reports the missing snapshot
    let stale = m.begin_reload();
    assert!(stale.is_some());
    assert!(matches!(
        m.create_view_with_params(params("mid", "w1", "Mid", ViewLayout::Document)),
        Err(FolderError::NotInitialized)
    ));
    // the engine rebuilt the tree; the stale snapshot is dropped
    let rebuilt = Folder::new(workspace("w1", "W"));
    m.complete_reload("w1", rebuilt);
    let notes = m.drain_notifications();
    assert_eq!(notes.len(), 1);
    assert_eq!(notes[0].kind, FolderNotification::DidUpdateWorkspaceViews);
    // nothing from before the reload leaked into the rebuilt snapshot,
    // and a commit now lands in the rebuilt snapshot
    assert!(matches!(m.get_view("mid"), Err(FolderError::NotFound)));
    assert!(matches!(m.get_view("a"), Err(FolderError::NotFound)));
    m.create_view_with_params(params("fresh", "w1", "Fresh", ViewLayout::Document)).unwrap();
    assert!(m.get_view("fresh").is_ok());
}

#[test]
fn workspace_views_list_tops_with_children() {
    let mut m = ready_manager();
    m.create_view_with_params(params("a", "w1", "A", ViewLayout::Document)).unwrap();
    m.create_view_with_params(params("b", "a", "B", ViewLayout::Document)).unwrap();
    let tops = m.get_current_workspace_views().unwrap();
    assert_eq!(tops.len(), 1);
    assert_eq!(tops[0].id, "a".to_string());
    assert_eq!(tops[0].child_views.len(), 1);
    assert_eq!(tops[0].child_views[0].id, "b".to_string());
}
