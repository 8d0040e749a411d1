use vstd::prelude::*;
use vstd::string::*;

use crate::entities::create_view;
use crate::entities::view_pb_with_child_views;
use crate::entities::CreateViewParams;
use crate::entities::ImportParams;
use crate::entities::TrashRecord;
use crate::entities::UpdateViewParams;
use crate::entities::ViewLayout;
use crate::entities::ViewNode;
use crate::entities::ViewPB;
use crate::entities::Workspace;
use crate::errors::folder_not_init_error;
use crate::errors::FolderError;
use crate::folder::apply_update;
use crate::folder::children_of;
use crate::folder::has_view;
use crate::folder::has_workspace;
use crate::folder::lemma_remove_trash_singleton;
use crate::folder::lemma_remove_views_singleton;
use crate::folder::remove_trash_by_id;
use crate::folder::remove_view_by_id;
use crate::folder::remove_views;
use crate::folder::remove_workspace_by_id;
use crate::folder::trash_contains;
use crate::folder::trash_record_ids;
use crate::folder::trashed;
use crate::folder::visible_children_of;
use crate::folder::Folder;
use crate::notification::get_workspace_view_pbs;
use crate::notification::is_trash_note;
use crate::notification::is_workspace_note;
use crate::notification::notify_did_update_workspace;
use crate::notification::notify_parent_view_did_change;
use crate::notification::parent_notes_ok;
use crate::notification::pb_of;
use crate::notification::workspace_pbs_of;
use crate::notification::FolderNotification;
use crate::notification::Notification;
use crate::notification::NotificationPayload;

verus! {

/// Relies on std::time::SystemTime::now and duration_since: the milliseconds
/// since the Unix epoch, zero if the clock reads before the epoch or past the
/// range of the result type.
#[verifier::external_body]
fn current_timestamp() -> (r: i64)
    ensures
        r >= 0,
{
    match std::time::SystemTime::now().duration_since(std::time::UNIX_EPOCH) {
        Ok(d) => i64::try_from(d.as_millis()).unwrap_or(0),
        Err(_) => 0,
    }
}

/// The shared folder slot: at most one loaded snapshot. In the running
/// system the slot sits behind a mutual-exclusion lock and is re-acquired by
/// every caller; here exclusive access (`&mut`) stands for holding that lock,
/// so every operation below is one critical section, and no operation yields
/// while it runs.
pub struct MutexFolder {
    pub folder: Option<Folder>,
}

impl MutexFolder {
    /// An empty slot.
    pub fn new() -> (r: MutexFolder)
        ensures
            r.folder is None,
    {
        MutexFolder { folder: None }
    }

    /// Swaps in a new snapshot, dropping any old one.
    pub fn replace(&mut self, folder: Folder)
        ensures
            final(self).folder == Some(folder),
    {
        self.folder = Some(folder);
    }

    /// Removes and returns the current snapshot, leaving the slot empty.
    pub fn take(&mut self) -> (r: Option<Folder>)
        ensures
            r == old(self).folder,
            final(self).folder is None,
    {
        self.folder.take()
    }
}

impl Default for MutexFolder {
    /// An empty slot.
    fn default() -> (r: MutexFolder)
        ensures
            r.folder is None,
    {
        MutexFolder { folder: None }
    }
}

/// The folder manager: the public face of the workspace tree. It owns the
/// shared folder slot, knows which layout kinds have a registered content
/// handler, and queues the notifications that each operation owes.
///
/// The content handlers themselves, the collaborative engine and the
/// notification transport are external: they are driven around these
/// operations and exchange plain values with them. `notifications` is the
/// outbound best-effort queue; the delivery layer drains it and a lost
/// delivery never fails a data operation.
pub struct Folder2Manager {
    pub mutex_folder: MutexFolder,
    pub operation_handlers: Vec<ViewLayout>,
    pub notifications: Vec<Notification>,
}

impl Folder2Manager {
    /// A snapshot is loaded.
    pub open spec fn is_ready(self) -> bool {
        self.mutex_folder.folder is Some
    }

    /// The loaded snapshot.
    pub open spec fn folder_of(self) -> Folder {
        self.mutex_folder.folder->0
    }

    /// The loaded snapshot, if any, is well-formed.
    pub open spec fn wf(self) -> bool {
        match self.mutex_folder.folder {
            Some(f) => f.wf(),
            None => true,
        }
    }

    /// A content handler is registered for this layout kind.
    pub open spec fn handler_registered(self, layout: ViewLayout) -> bool {
        exists|i: int|
            0 <= i < self.operation_handlers@.len() && self.operation_handlers@[i] == layout
    }

    /// Everything but the slot is as it was.
    pub open spec fn same_but_folder(self, pre: Folder2Manager) -> bool {
        &&& self.operation_handlers == pre.operation_handlers
        &&& self.notifications == pre.notifications
    }

    /// A manager with the given handler registry, an empty slot and nothing
    /// queued.
    pub fn new(operation_handlers: Vec<ViewLayout>) -> (r: Result<Folder2Manager, FolderError>)
        ensures
            match r {
                Ok(m) => {
                    &&& !m.is_ready()
                    &&& m.wf()
                    &&& m.operation_handlers == operation_handlers
                    &&& m.notifications@.len() == 0
                },
                Err(_) => false,
            },
    {
        Ok(
            Folder2Manager {
                mutex_folder: MutexFolder::new(),
                operation_handlers,
                notifications: Vec::new(),
            },
        )
    }

    /// Installs the snapshot that the collaborative engine loaded for this
    /// session. A session without a persisted tree hands `None`: that is not
    /// an error, the call is a no-op and the slot stays as it was.
    pub fn initialize(&mut self, snapshot: Option<Folder>) -> (r: Result<(), FolderError>)
        requires
            old(self).wf(),
            match snapshot {
                Some(f) => f.wf(),
                None => true,
            },
        ensures
            final(self).wf(),
            r == Ok::<(), FolderError>(()),
            match snapshot {
                Some(f) => final(self).mutex_folder.folder == Some(f)
                    && final(self).same_but_folder(*old(self)),
                None => *final(self) == *old(self),
            },
    {
        match snapshot {
            Some(f) => {
                self.mutex_folder.replace(f);
            },
            None => {},
        }
        Ok(())
    }

    /// Installs the snapshot seeded for a fresh user — the external default
    /// builder made `snapshot` containing `workspace` — and announces the
    /// created workspace.
    pub fn initialize_with_new_user(&mut self, snapshot: Folder, workspace: Workspace) -> (r:
        Result<(), FolderError>)
        requires
            old(self).wf(),
            snapshot.wf(),
        ensures
            final(self).wf(),
            r == Ok::<(), FolderError>(()),
            final(self).mutex_folder.folder == Some(snapshot),
            final(self).operation_handlers == old(self).operation_handlers,
            final(self).notifications@.len() == old(self).notifications@.len() + 1,
            final(self).notifications@.drop_last() == old(self).notifications@,
            final(self).notifications@.last().kind == FolderNotification::DidCreateWorkspace,
            final(self).notifications@.last().topic == workspace.id,
            match final(self).notifications@.last().payload {
                NotificationPayload::Workspaces(items) => items@.len() == 1 && items@[0]
                    == workspace,
                _ => false,
            },
    {
        self.mutex_folder.replace(snapshot);
        let topic = workspace.id.clone();
        let mut items: Vec<Workspace> = Vec::new();
        items.push(workspace);
        let note = Notification {
            topic,
            kind: FolderNotification::DidCreateWorkspace,
            payload: NotificationPayload::Workspaces(items),
        };
        self.notifications.push(note);
        proof {
            assert(self.notifications@.drop_last() =~= old(self).notifications@);
        }
        Ok(())
    }

    /// Called when the session ends. The running system tears the slot down
    /// by dropping it; there is nothing to do here.
    pub fn clear(&self, _user_id: i64) {
    }

    /// Records the workspace that the session service created, opens it, and
    /// announces it. While no snapshot is loaded the record is not kept, but
    /// the announcement still goes out and the call still succeeds.
    pub fn create_workspace(&mut self, workspace: Workspace) -> (r: Result<Workspace, FolderError>)
        requires
            old(self).wf(),
        ensures
            final(self).wf(),
            match r {
                Ok(w) => w == workspace,
                Err(_) => false,
            },
            old(self).is_ready() ==> {
                &&& final(self).is_ready()
                &&& final(self).folder_of().workspaces@ == remove_workspace_by_id(
                    old(self).folder_of().workspaces@,
                    workspace.id@,
                ).push(workspace)
                &&& final(self).folder_of().views == old(self).folder_of().views
                &&& final(self).folder_of().trash == old(self).folder_of().trash
                &&& final(self).folder_of().current_view == old(self).folder_of().current_view
                &&& final(self).folder_of().current_workspace@ == workspace.id@
            },
            !old(self).is_ready() ==> final(self).mutex_folder == old(self).mutex_folder,
            final(self).operation_handlers == old(self).operation_handlers,
            final(self).notifications@.len() == old(self).notifications@.len() + 1,
            final(self).notifications@.drop_last() == old(self).notifications@,
            final(self).notifications@.last().kind == FolderNotification::DidCreateWorkspace,
            final(self).notifications@.last().topic == workspace.id,
            match final(self).notifications@.last().payload {
                NotificationPayload::Workspaces(items) => items@.len() == 1 && items@[0]
                    == workspace,
                _ => false,
            },
    {
        let topic = workspace.id.clone();
        match self.mutex_folder.take() {
            Some(mut f) => {
                f.create_workspace(workspace.clone());
                f.set_current_workspace(&topic);
                self.mutex_folder.replace(f);
            },
            None => {},
        }
        let mut items: Vec<Workspace> = Vec::new();
        items.push(workspace.clone());
        let note = Notification {
            topic,
            kind: FolderNotification::DidCreateWorkspace,
            payload: NotificationPayload::Workspaces(items),
        };
        self.notifications.push(note);
        proof {
            assert(self.notifications@.drop_last() =~= old(self).notifications@);
        }
        Ok(workspace)
    }

    /// Opens the workspace with this id: only the current-workspace marker
    /// changes, no data moves. Fails with `NotFound` for an unknown id and
    /// with `NotInitialized` while no snapshot is loaded.
    pub fn open_workspace(&mut self, workspace_id: &str) -> (r: Result<Workspace, FolderError>)
        requires
            old(self).wf(),
        ensures
            final(self).wf(),
            !old(self).is_ready() ==> r == Err::<Workspace, FolderError>(
                FolderError::NotInitialized,
            ) && *final(self) == *old(self),
            old(self).is_ready() && !has_workspace(
                old(self).folder_of().workspaces@,
                workspace_id@,
            ) ==> r == Err::<Workspace, FolderError>(FolderError::NotFound) && *final(self) == *old(
                self,
            ),
            old(self).is_ready() && has_workspace(
                old(self).folder_of().workspaces@,
                workspace_id@,
            ) ==> {
                &&& final(self).is_ready()
                &&& final(self).folder_of().workspaces == old(self).folder_of().workspaces
                &&& final(self).folder_of().views == old(self).folder_of().views
                &&& final(self).folder_of().trash == old(self).folder_of().trash
                &&& final(self).folder_of().current_view == old(self).folder_of().current_view
                &&& final(self).folder_of().current_workspace@ == workspace_id@
                &&& final(self).same_but_folder(*old(self))
                &&& match r {
                    Ok(w) => old(self).folder_of().workspaces@.contains(w) && w.id@
                        == workspace_id@,
                    Err(_) => false,
                }
            },
    {
        let wid = String::from_str(workspace_id);
        match self.mutex_folder.take() {
            None => Err(folder_not_init_error()),
            Some(mut f) => {
                match f.get_workspace(&wid) {
                    None => {
                        self.mutex_folder.replace(f);
                        Err(FolderError::NotFound)
                    },
                    Some(w) => {
                        f.set_current_workspace(&wid);
                        self.mutex_folder.replace(f);
                        Ok(w)
                    },
                }
            },
        }
    }

    /// Looks a workspace up by id.
    pub fn get_workspace(&self, workspace_id: &str) -> (r: Option<Workspace>)
        ensures
            match r {
                Some(w) => self.is_ready() && self.folder_of().workspaces@.contains(w) && w.id@
                    == workspace_id@,
                None => !self.is_ready() || !has_workspace(
                    self.folder_of().workspaces@,
                    workspace_id@,
                ),
            },
    {
        match &self.mutex_folder.folder {
            None => None,
            Some(f) => {
                let wid = String::from_str(workspace_id);
                f.get_workspace(&wid)
            },
        }
    }

    /// All workspaces; empty while no snapshot is loaded.
    pub fn get_all_workspaces(&self) -> (r: Vec<Workspace>)
        ensures
            self.is_ready() ==> r@ == self.folder_of().workspaces@,
            !self.is_ready() ==> r@.len() == 0,
    {
        match &self.mutex_folder.folder {
            None => Vec::new(),
            Some(f) => f.get_all_workspaces(),
        }
    }

    /// The open workspace. Fails with `NotFound` while no snapshot is loaded
    /// or while the marker names no existing workspace.
    pub fn get_current_workspace(&self) -> (r: Result<Workspace, FolderError>)
        ensures
            match r {
                Ok(w) => self.is_ready() && self.folder_of().workspaces@.contains(w) && w.id@
                    == self.folder_of().current_workspace@,
                Err(e) => e == FolderError::NotFound && (!self.is_ready() || !has_workspace(
                    self.folder_of().workspaces@,
                    self.folder_of().current_workspace@,
                )),
            },
    {
        match &self.mutex_folder.folder {
            None => Err(FolderError::NotFound),
            Some(f) => match f.get_current_workspace() {
                None => Err(FolderError::NotFound),
                Some(w) => Ok(w),
            },
        }
    }

    /// The non-trashed top-level views of the given workspace, each with all
    /// of its direct children. Empty while no snapshot is loaded.
    pub fn get_workspace_views(&self, workspace_id: &str) -> (r: Result<Vec<ViewPB>, FolderError>)
        ensures
            match r {
                Ok(pbs) => {
                    if self.is_ready() {
                        workspace_pbs_of(pbs@, self.folder_of(), workspace_id@)
                    } else {
                        pbs@.len() == 0
                    }
                },
                Err(_) => false,
            },
    {
        match &self.mutex_folder.folder {
            None => Ok(Vec::new()),
            Some(f) => {
                let wid = String::from_str(workspace_id);
                Ok(get_workspace_view_pbs(&wid, f))
            },
        }
    }

    /// The same for the open workspace; empty while none is open.
    pub fn get_current_workspace_views(&self) -> (r: Result<Vec<ViewPB>, FolderError>)
        ensures
            match r {
                Ok(pbs) => {
                    if self.is_ready() && self.folder_of().current_workspace@.len() > 0 {
                        workspace_pbs_of(
                            pbs@,
                            self.folder_of(),
                            self.folder_of().current_workspace@,
                        )
                    } else {
                        pbs@.len() == 0
                    }
                },
                Err(_) => false,
            },
    {
        match &self.mutex_folder.folder {
            None => Ok(Vec::new()),
            Some(f) => match f.get_current_workspace_id() {
                None => Ok(Vec::new()),
                Some(wid) => Ok(get_workspace_view_pbs(&wid, f)),
            },
        }
    }

    /// Resolves the content handler for a layout kind; `Internal` when none
    /// is registered. The handler's own work happens outside the core.
    pub fn get_handler(&self, view_layout: ViewLayout) -> (r: Result<ViewLayout, FolderError>)
        ensures
            self.handler_registered(view_layout) ==> r == Ok::<ViewLayout, FolderError>(
                view_layout,
            ),
            !self.handler_registered(view_layout) ==> r == Err::<ViewLayout, FolderError>(
                FolderError::Internal,
            ),
    {
        let mut i: usize = 0;
        while i < self.operation_handlers.len()
            invariant
                i <= self.operation_handlers.len(),
                forall|j: int| 0 <= j < i ==> self.operation_handlers@[j] != view_layout,
            decreases self.operation_handlers.len() - i,
        {
            if self.operation_handlers[i] == view_layout {
                return Ok(view_layout);
            }
            i = i + 1;
        }
        Err(FolderError::Internal)
    }

    /// Hands the queued notifications to the delivery layer and clears the
    /// queue. Delivery is best-effort: whatever the transport does with them
    /// cannot fail the operations that queued them.
    pub fn drain_notifications(&mut self) -> (r: Vec<Notification>)
        ensures
            r@ == old(self).notifications@,
            final(self).notifications@.len() == 0,
            final(self).mutex_folder == old(self).mutex_folder,
            final(self).operation_handlers == old(self).operation_handlers,
    {
        let mut out: Vec<Notification> = Vec::new();
        core::mem::swap(&mut out, &mut self.notifications);
        out
    }
}

} // verus!

verus! {

/// What a successful lookup hands out for the view with this id: the view
/// itself, annotated with exactly its non-trashed children.
pub open spec fn get_view_ok(f: Folder, id: Seq<char>, pb: ViewPB) -> bool {
    &&& has_view(f.views@, id)
    &&& !trashed(f.trash@, id)
    &&& exists|i: int|
        0 <= i < f.views@.len() && #[trigger] f.views@[i].id@ == id && pb_of(
            pb,
            f.views@[i],
            visible_children_of(f.views@, f.trash@, id),
        )
}

/// The note sent to a view's own topic after the view changed.
pub open spec fn is_view_note(n: Notification, f: Folder, id: Seq<char>) -> bool {
    &&& n.kind == FolderNotification::DidUpdateView
    &&& n.topic@ == id
    &&& match n.payload {
        NotificationPayload::View(pb) => get_view_ok(f, id, pb),
        _ => false,
    }
}

/// What creating a view does. With no handler for the layout nothing happens
/// and the caller is told `Internal`; with no loaded snapshot nothing happens
/// and the caller is told `NotInitialized`; otherwise the view built from
/// `params` is inserted — content was materialized by the handler before this
/// commit, so no view is ever visible without content — and the new parent
/// scope is queued for notification.
pub open spec fn create_view_post(
    pre: Folder2Manager,
    params: CreateViewParams,
    post: Folder2Manager,
    r: Result<ViewNode, FolderError>,
) -> bool {
    if !pre.handler_registered(params.layout) {
        r == Err::<ViewNode, FolderError>(FolderError::Internal) && post == pre
    } else if !pre.is_ready() {
        r == Err::<ViewNode, FolderError>(FolderError::NotInitialized) && post == pre
    } else {
        match r {
            Ok(v) => ({
                let f = pre.folder_of();
                let f2 = post.folder_of();
                &&& v.id == params.view_id
                &&& v.parent_view_id == params.parent_view_id
                &&& v.name == params.name
                &&& v.desc == params.desc
                &&& v.layout == params.layout
                &&& v.created_at >= 0
                &&& post.is_ready()
                &&& f2.views@ == remove_view_by_id(f.views@, v.id@).push(v)
                &&& f2.workspaces == f.workspaces
                &&& f2.trash == f.trash
                &&& f2.current_workspace == f.current_workspace
                &&& f2.current_view == f.current_view
                &&& post.operation_handlers == pre.operation_handlers
                &&& post.notifications@.len() >= pre.notifications@.len()
                &&& post.notifications@.take(pre.notifications@.len() as int)
                    == pre.notifications@
                &&& (f2.current_workspace@.len() == 0 ==> post.notifications@
                    == pre.notifications@)
                &&& (f2.current_workspace@.len() > 0 ==> parent_notes_ok(
                    post.notifications@.skip(pre.notifications@.len() as int),
                    f2,
                    seq![v.parent_view_id],
                ))
            }),
            Err(_) => false,
        }
    }
}

impl Folder2Manager {
    /// Returns the view with this id, annotated with its non-trashed direct
    /// children only — one level; a caller wanting a grandchild asks again.
    /// A trashed or absent view is `NotFound`; an empty slot is
    /// `NotInitialized`.
    pub fn get_view(&self, view_id: &str) -> (r: Result<ViewPB, FolderError>)
        ensures
            !self.is_ready() ==> r == Err::<ViewPB, FolderError>(FolderError::NotInitialized),
            self.is_ready() && trashed(self.folder_of().trash@, view_id@) ==> r == Err::<
                ViewPB,
                FolderError,
            >(FolderError::NotFound),
            self.is_ready() && !trashed(self.folder_of().trash@, view_id@) && !has_view(
                self.folder_of().views@,
                view_id@,
            ) ==> r == Err::<ViewPB, FolderError>(FolderError::NotFound),
            self.is_ready() && !trashed(self.folder_of().trash@, view_id@) && has_view(
                self.folder_of().views@,
                view_id@,
            ) ==> match r {
                Ok(pb) => get_view_ok(self.folder_of(), view_id@, pb),
                Err(_) => false,
            },
    {
        let vid = String::from_str(view_id);
        match &self.mutex_folder.folder {
            None => Err(folder_not_init_error()),
            Some(f) => {
                if trash_contains(&f.trash, &vid) {
                    Err(FolderError::NotFound)
                } else {
                    match f.get_view(&vid) {
                        None => Err(FolderError::NotFound),
                        Some(view) => {
                            let ghost v = view;
                            let children = f.get_visible_children(&vid);
                            let pb = view_pb_with_child_views(view, children);
                            proof {
                                let i = choose|i: int|
                                    0 <= i < f.views@.len() && f.views@[i] == v;
                                assert(f.views@[i].id@ == view_id@);
                                assert(pb_of(
                                    pb,
                                    f.views@[i],
                                    visible_children_of(f.views@, f.trash@, view_id@),
                                ));
                            }
                            Ok(pb)
                        },
                    }
                }
            },
        }
    }

    /// The children of the given parent, in order, trash included.
    pub fn get_views_belong_to(&self, parent_view_id: &str) -> (r: Result<
        Vec<ViewNode>,
        FolderError,
    >)
        ensures
            match r {
                Ok(views) => {
                    if self.is_ready() {
                        views@ == children_of(self.folder_of().views@, parent_view_id@)
                    } else {
                        views@.len() == 0
                    }
                },
                Err(_) => false,
            },
    {
        match &self.mutex_folder.folder {
            None => Ok(Vec::new()),
            Some(f) => {
                let pid = String::from_str(parent_view_id);
                Ok(f.get_views_belong_to(&pid))
            },
        }
    }

    /// Commits the view that `params` describes. The caller runs the content
    /// handler first, outside the lock, so this commit works on whatever
    /// snapshot is loaded when it runs — a reload in between is answered with
    /// `NotInitialized` while the slot is empty, never with a write into a
    /// stale snapshot.
    pub fn create_view_with_params(&mut self, params: CreateViewParams) -> (r: Result<
        ViewNode,
        FolderError,
    >)
        requires
            old(self).wf(),
        ensures
            final(self).wf(),
            create_view_post(*old(self), params, *final(self), r),
    {
        let ghost params_g = params;
        match self.get_handler(params.layout) {
            Err(e) => {
                return Err(e);
            },
            Ok(_) => {},
        }
        match self.mutex_folder.take() {
            None => Err(folder_not_init_error()),
            Some(mut f) => {
                let ts = current_timestamp();
                let parent_id = params.parent_view_id.clone();
                let view = create_view(params, ts);
                let result = view.clone();
                f.insert_view(view);
                let mut parents: Vec<String> = Vec::new();
                parents.push(parent_id);
                proof {
                    assert(parents@ =~= seq![result.parent_view_id]);
                }
                let mut notes = notify_parent_view_did_change(&f, &parents);
                self.mutex_folder.replace(f);
                let ghost pre_notes = self.notifications@;
                let ghost notes_g = notes@;
                self.notifications.append(&mut notes);
                proof {
                    assert(self.notifications@.take(pre_notes.len() as int) =~= pre_notes);
                    assert(self.notifications@.skip(pre_notes.len() as int) =~= notes_g);
                    if notes_g.len() == 0 {
                        assert(self.notifications@ =~= pre_notes);
                    }
                }
                Ok(result)
            },
        }
    }

    /// Checks that content for this layout kind can be created at all: the
    /// content itself is the registered handler's work, done outside the
    /// core against the given id, name and bytes.
    pub fn create_view_with_data(
        &self,
        _view_id: &str,
        _name: &str,
        view_layout: ViewLayout,
        _data: Vec<u8>,
    ) -> (r: Result<(), FolderError>)
        ensures
            self.handler_registered(view_layout) ==> r == Ok::<(), FolderError>(()),
            !self.handler_registered(view_layout) ==> r == Err::<(), FolderError>(
                FolderError::Internal,
            ),
    {
        match self.get_handler(view_layout) {
            Ok(_) => Ok(()),
            Err(e) => Err(e),
        }
    }

    /// Decides what closing a view needs: the view must exist (else
    /// `NotFound`) and its layout must have a handler (else `Internal`); the
    /// handler then closes the content outside the core.
    pub fn close_view(&self, view_id: &str) -> (r: Result<(), FolderError>)
        ensures
            !self.is_ready() || !has_view(self.folder_of().views@, view_id@) ==> r == Err::<
                (),
                FolderError,
            >(FolderError::NotFound),
            self.is_ready() && has_view(self.folder_of().views@, view_id@) ==> exists|i: int|
                0 <= i < self.folder_of().views@.len() && #[trigger] self.folder_of().views@[i].id@
                    == view_id@ && if self.handler_registered(self.folder_of().views@[i].layout) {
                    r == Ok::<(), FolderError>(())
                } else {
                    r == Err::<(), FolderError>(FolderError::Internal)
                },
    {
        let vid = String::from_str(view_id);
        let view = match &self.mutex_folder.folder {
            None => None,
            Some(f) => f.get_view(&vid),
        };
        match view {
            None => Err(FolderError::NotFound),
            Some(v) => {
                proof {
                    let i = choose|i: int|
                        0 <= i < self.folder_of().views@.len() && self.folder_of().views@[i] == v;
                    assert(self.folder_of().views@[i].id@ == view_id@);
                }
                match self.get_handler(v.layout) {
                    Ok(_) => Ok(()),
                    Err(e) => Err(e),
                }
            },
        }
    }

    /// Physically removes the view with this id, bypassing trash — the purge
    /// path for views that are already trashed.
    pub fn delete_view(&mut self, view_id: &str) -> (r: Result<(), FolderError>)
        requires
            old(self).wf(),
        ensures
            final(self).wf(),
            r == Ok::<(), FolderError>(()),
            !old(self).is_ready() ==> *final(self) == *old(self),
            old(self).is_ready() ==> {
                &&& final(self).is_ready()
                &&& final(self).folder_of().views@ == remove_view_by_id(
                    old(self).folder_of().views@,
                    view_id@,
                )
                &&& final(self).folder_of().workspaces == old(self).folder_of().workspaces
                &&& final(self).folder_of().trash == old(self).folder_of().trash
                &&& final(self).folder_of().current_workspace == old(
                    self,
                ).folder_of().current_workspace
                &&& final(self).folder_of().current_view == old(self).folder_of().current_view
                &&& final(self).same_but_folder(*old(self))
            },
    {
        match self.mutex_folder.take() {
            None => Ok(()),
            Some(mut f) => {
                let mut ids: Vec<String> = Vec::new();
                ids.push(String::from_str(view_id));
                let ghost pre_views = f.views@;
                f.delete_views(&ids);
                proof {
                    lemma_remove_views_singleton(pre_views, ids@);
                }
                self.mutex_folder.replace(f);
                Ok(())
            },
        }
    }

    /// Moves the view to trash: one record is added (none if it is already
    /// there), and if the trashed view was the selected one the selection is
    /// cleared — any other selection stays. The tree itself is untouched;
    /// the trash listener drives the notifications.
    pub fn move_view_to_trash(&mut self, view_id: &str) -> (r: Result<(), FolderError>)
        requires
            old(self).wf(),
        ensures
            final(self).wf(),
            r == Ok::<(), FolderError>(()),
            !old(self).is_ready() ==> *final(self) == *old(self),
            old(self).is_ready() ==> ({
                let f = old(self).folder_of();
                let f2 = final(self).folder_of();
                &&& final(self).is_ready()
                &&& f2.views == f.views
                &&& f2.workspaces == f.workspaces
                &&& f2.current_workspace == f.current_workspace
                &&& (trashed(f.trash@, view_id@) ==> f2.trash == f.trash)
                &&& (!trashed(f.trash@, view_id@) ==> f2.trash@.len() == f.trash@.len() + 1
                    && f2.trash@.drop_last() == f.trash@ && f2.trash@.last().id@ == view_id@
                    && f2.trash@.last().created_at >= 0)
                &&& (f.current_view@ == view_id@ ==> f2.current_view@.len() == 0)
                &&& (f.current_view@ != view_id@ ==> f2.current_view == f.current_view)
                &&& final(self).same_but_folder(*old(self))
            }),
    {
        match self.mutex_folder.take() {
            None => Ok(()),
            Some(mut f) => {
                let vid = String::from_str(view_id);
                let ts = current_timestamp();
                f.add_trash(TrashRecord { id: vid.clone(), created_at: ts });
                match f.get_current_view() {
                    Some(cur) => {
                        if cur == vid {
                            let empty = String::new();
                            f.set_current_view(&empty);
                        }
                    },
                    None => {},
                }
                self.mutex_folder.replace(f);
                Ok(())
            },
        }
    }

    /// Selects the view with this id; an empty id clears the selection.
    pub fn set_current_view(&mut self, view_id: &str) -> (r: Result<(), FolderError>)
        requires
            old(self).wf(),
        ensures
            final(self).wf(),
            !old(self).is_ready() ==> r == Err::<(), FolderError>(FolderError::NotInitialized)
                && *final(self) == *old(self),
            old(self).is_ready() ==> {
                &&& r == Ok::<(), FolderError>(())
                &&& final(self).is_ready()
                &&& final(self).folder_of().current_view@ == view_id@
                &&& final(self).folder_of().views == old(self).folder_of().views
                &&& final(self).folder_of().workspaces == old(self).folder_of().workspaces
                &&& final(self).folder_of().trash == old(self).folder_of().trash
                &&& final(self).folder_of().current_workspace == old(
                    self,
                ).folder_of().current_workspace
                &&& final(self).same_but_folder(*old(self))
            },
    {
        match self.mutex_folder.take() {
            None => Err(folder_not_init_error()),
            Some(mut f) => {
                let vid = String::from_str(view_id);
                f.set_current_view(&vid);
                self.mutex_folder.replace(f);
                Ok(())
            },
        }
    }

    /// The selected view, annotated like `get_view`; `None` while nothing is
    /// selected or the selected view is trashed or gone.
    pub fn get_current_view(&self) -> (r: Option<ViewPB>)
        ensures
            match r {
                Some(pb) => self.is_ready() && get_view_ok(
                    self.folder_of(),
                    self.folder_of().current_view@,
                    pb,
                ),
                None => !self.is_ready() || self.folder_of().current_view@.len() == 0 || trashed(
                    self.folder_of().trash@,
                    self.folder_of().current_view@,
                ) || !has_view(self.folder_of().views@, self.folder_of().current_view@),
            },
    {
        let cur = match &self.mutex_folder.folder {
            None => None,
            Some(f) => f.get_current_view(),
        };
        match cur {
            None => None,
            Some(vid) => match self.get_view(vid.as_str()) {
                Ok(pb) => Some(pb),
                Err(_) => None,
            },
        }
    }

    /// All trash records; empty while no snapshot is loaded.
    pub fn get_all_trash(&self) -> (r: Vec<TrashRecord>)
        ensures
            self.is_ready() ==> r@ == self.folder_of().trash@,
            !self.is_ready() ==> r@.len() == 0,
    {
        match &self.mutex_folder.folder {
            None => Vec::new(),
            Some(f) => f.get_all_trash(),
        }
    }
}

} // verus!

verus! {

/// What duplicating `src` as `new_id` inserts: a copy under the same parent
/// whose name carries the copy suffix, content duplicated by the handler
/// before the commit.
pub open spec fn duplicated_view_post(
    pre: Folder2Manager,
    src: ViewNode,
    new_id: String,
    post: Folder2Manager,
    v2: ViewNode,
) -> bool {
    let f = pre.folder_of();
    let f2 = post.folder_of();
    &&& v2.id == new_id
    &&& v2.parent_view_id == src.parent_view_id
    &&& v2.name@ == src.name@ + " (copy)"@
    &&& v2.desc == src.desc
    &&& v2.layout == src.layout
    &&& v2.created_at >= 0
    &&& post.is_ready()
    &&& f2.views@ == remove_view_by_id(f.views@, v2.id@).push(v2)
    &&& f2.workspaces == f.workspaces
    &&& f2.trash == f.trash
    &&& f2.current_workspace == f.current_workspace
    &&& f2.current_view == f.current_view
    &&& post.operation_handlers == pre.operation_handlers
    &&& post.notifications@.len() >= pre.notifications@.len()
    &&& post.notifications@.take(pre.notifications@.len() as int) == pre.notifications@
    &&& (f2.current_workspace@.len() == 0 ==> post.notifications@ == pre.notifications@)
    &&& (f2.current_workspace@.len() > 0 ==> parent_notes_ok(
        post.notifications@.skip(pre.notifications@.len() as int),
        f2,
        seq![v2.parent_view_id],
    ))
}

/// What emptying the trash by restoring does: every record is removed, the
/// views all stay, and one empty-trash note goes out — also when the trash
/// was already empty, which makes the operation idempotent.
pub open spec fn restore_all_trash_post(pre: Folder2Manager, post: Folder2Manager) -> bool {
    &&& (pre.is_ready() ==> {
        &&& post.is_ready()
        &&& post.folder_of().trash@ == Seq::<TrashRecord>::empty()
        &&& post.folder_of().views == pre.folder_of().views
        &&& post.folder_of().workspaces == pre.folder_of().workspaces
        &&& post.folder_of().current_workspace == pre.folder_of().current_workspace
        &&& post.folder_of().current_view == pre.folder_of().current_view
    })
    &&& (!pre.is_ready() ==> post.mutex_folder == pre.mutex_folder)
    &&& post.operation_handlers == pre.operation_handlers
    &&& post.notifications@.len() == pre.notifications@.len() + 1
    &&& post.notifications@.drop_last() == pre.notifications@
    &&& is_trash_note(post.notifications@.last(), Seq::<TrashRecord>::empty())
}

/// What emptying the trash by purging does: every record is removed, every
/// view that a record named is removed with it, and one empty-trash note
/// goes out — also when the trash was already empty, which makes the
/// operation idempotent.
pub open spec fn delete_all_trash_post(pre: Folder2Manager, post: Folder2Manager) -> bool {
    &&& (pre.is_ready() ==> {
        &&& post.is_ready()
        &&& post.folder_of().trash@ == Seq::<TrashRecord>::empty()
        &&& post.folder_of().views@ == remove_views(
            pre.folder_of().views@,
            trash_record_ids(pre.folder_of().trash@),
        )
        &&& post.folder_of().workspaces == pre.folder_of().workspaces
        &&& post.folder_of().current_workspace == pre.folder_of().current_workspace
        &&& post.folder_of().current_view == pre.folder_of().current_view
    })
    &&& (!pre.is_ready() ==> post.mutex_folder == pre.mutex_folder)
    &&& post.operation_handlers == pre.operation_handlers
    &&& post.notifications@.len() == pre.notifications@.len() + 1
    &&& post.notifications@.drop_last() == pre.notifications@
    &&& is_trash_note(post.notifications@.last(), Seq::<TrashRecord>::empty())
}

/// What importing inserts: a view with the freshly generated id, the asked
/// name and layout, under the asked parent, with an empty description.
pub open spec fn imported_view_post(
    pre: Folder2Manager,
    import_data: ImportParams,
    new_id: String,
    post: Folder2Manager,
    v: ViewNode,
) -> bool {
    let f = pre.folder_of();
    let f2 = post.folder_of();
    &&& v.id == new_id
    &&& v.parent_view_id == import_data.parent_view_id
    &&& v.name == import_data.name
    &&& v.desc@ == Seq::<char>::empty()
    &&& v.layout == import_data.view_layout
    &&& v.created_at >= 0
    &&& post.is_ready()
    &&& f2.views@ == remove_view_by_id(f.views@, v.id@).push(v)
    &&& f2.workspaces == f.workspaces
    &&& f2.trash == f.trash
    &&& f2.current_workspace == f.current_workspace
    &&& f2.current_view == f.current_view
    &&& post.operation_handlers == pre.operation_handlers
    &&& post.notifications@.len() >= pre.notifications@.len()
    &&& post.notifications@.take(pre.notifications@.len() as int) == pre.notifications@
    &&& (f2.current_workspace@.len() == 0 ==> post.notifications@ == pre.notifications@)
    &&& (f2.current_workspace@.len() > 0 ==> parent_notes_ok(
        post.notifications@.skip(pre.notifications@.len() as int),
        f2,
        seq![v.parent_view_id],
    ))
}

impl Folder2Manager {
    /// Applies the supplied fields of `params` to the view they name. An
    /// unknown id, like an empty slot, is a silent no-op — concurrent trash
    /// and delete make a vanished view an expected condition. After a
    /// successful update of a still-visible view, its parent scope and its
    /// own topic are queued; a view that ended up trashed gets no note, the
    /// update itself still stands.
    pub fn update_view_with_params(&mut self, params: UpdateViewParams) -> (r: Result<
        (),
        FolderError,
    >)
        requires
            old(self).wf(),
        ensures
            final(self).wf(),
            r == Ok::<(), FolderError>(()),
            !old(self).is_ready() ==> *final(self) == *old(self),
            old(self).is_ready() && !has_view(old(self).folder_of().views@, params.view_id@)
                ==> *final(self) == *old(self),
            old(self).is_ready() && has_view(old(self).folder_of().views@, params.view_id@) ==> ({
                let f = old(self).folder_of();
                let f2 = final(self).folder_of();
                &&& final(self).is_ready()
                &&& exists|i: int|
                    0 <= i < f.views@.len() && #[trigger] f.views@[i].id@ == params.view_id@
                        && f2.views@ == f.views@.update(i, apply_update(f.views@[i], params)) && (
                    !trashed(f2.trash@, params.view_id@) ==> ({
                        let appended = final(self).notifications@.skip(
                            old(self).notifications@.len() as int,
                        );
                        &&& final(self).notifications@.len() >= old(self).notifications@.len() + 1
                        &&& final(self).notifications@.take(old(self).notifications@.len() as int)
                            == old(self).notifications@
                        &&& is_view_note(appended.last(), f2, params.view_id@)
                        &&& (f2.current_workspace@.len() == 0 ==> appended.len() == 1)
                        &&& (f2.current_workspace@.len() > 0 ==> parent_notes_ok(
                            appended.drop_last(),
                            f2,
                            seq![f.views@[i].parent_view_id],
                        ))
                    }))
                &&& f2.workspaces == f.workspaces
                &&& f2.trash == f.trash
                &&& f2.current_workspace == f.current_workspace
                &&& f2.current_view == f.current_view
                &&& final(self).operation_handlers == old(self).operation_handlers
                &&& (trashed(f2.trash@, params.view_id@) ==> final(self).notifications == old(
                    self,
                ).notifications)
            }),
    {
        let vid = params.view_id.clone();
        match self.mutex_folder.take() {
            None => Ok(()),
            Some(mut f) => {
                let ghost f_pre = old(self).folder_of();
                let updated_opt = f.update_view(&params);
                match updated_opt {
                    None => {
                        self.mutex_folder.replace(f);
                        Ok(())
                    },
                    Some(updated) => {
                        let ghost upd = updated;
                        if trash_contains(&f.trash, &vid) {
                            self.mutex_folder.replace(f);
                            proof {
                                let i = choose|i: int|
                                    0 <= i < f_pre.views@.len() && f_pre.views@[i].id@
                                        == params.view_id@ && upd == apply_update(
                                        f_pre.views@[i],
                                        params,
                                    ) && self.folder_of().views@ == f_pre.views@.update(i, upd);
                                assert(f_pre.views@[i].id@ == params.view_id@);
                            }
                            Ok(())
                        } else {
                            let parent = updated.parent_view_id.clone();
                            let mut parents: Vec<String> = Vec::new();
                            parents.push(parent);
                            let mut notes = notify_parent_view_did_change(&f, &parents);
                            let children = f.get_visible_children(&vid);
                            let pb = view_pb_with_child_views(updated, children);
                            let view_note = Notification {
                                topic: vid,
                                kind: FolderNotification::DidUpdateView,
                                payload: NotificationPayload::View(pb),
                            };
                            let ghost i = choose|i: int|
                                0 <= i < f_pre.views@.len() && f_pre.views@[i].id@
                                    == params.view_id@ && upd == apply_update(f_pre.views@[i], params)
                                    && f.views@ == f_pre.views@.update(i, upd);
                            proof {
                                assert(f.views@[i] == upd);
                                assert(has_view(f.views@, params.view_id@)) by {
                                    assert(f.views@[i].id@ == params.view_id@);
                                }
                                assert(is_view_note(view_note, f, params.view_id@)) by {
                                    assert(f.views@[i].id@ == params.view_id@);
                                    assert(pb_of(
                                        pb,
                                        f.views@[i],
                                        visible_children_of(f.views@, f.trash@, params.view_id@),
                                    ));
                                }
                                assert(parents@ =~= seq![f_pre.views@[i].parent_view_id]) by {
                                    assert(upd.parent_view_id == f_pre.views@[i].parent_view_id);
                                }
                            }
                            let ghost parent_notes_g = notes@;
                            notes.push(view_note);
                            self.mutex_folder.replace(f);
                            let ghost pre_notes = self.notifications@;
                            let ghost notes_g = notes@;
                            self.notifications.append(&mut notes);
                            proof {
                                assert(self.notifications@.take(pre_notes.len() as int)
                                    =~= pre_notes);
                                assert(self.notifications@.skip(pre_notes.len() as int)
                                    =~= notes_g);
                                assert(notes_g.drop_last() =~= parent_notes_g);
                                assert(notes_g.last() == view_note);
                                assert(f_pre.views@[i].id@ == params.view_id@);
                            }
                            Ok(())
                        }
                    },
                }
            },
        }
    }

    /// Duplicates the view with this id: the handler has already copied the
    /// content into `view_data`, and the copy is created under the same
    /// parent, under the freshly generated `new_view_id`, with the copy
    /// suffix on its name. `NotFound` when the source is gone, `Internal`
    /// when its layout has no handler.
    pub fn duplicate_view(&mut self, view_id: &str, new_view_id: String, view_data: Vec<u8>) -> (r:
        Result<(), FolderError>)
        requires
            old(self).wf(),
        ensures
            final(self).wf(),
            !old(self).is_ready() || !has_view(old(self).folder_of().views@, view_id@) ==> r
                == Err::<(), FolderError>(FolderError::NotFound) && *final(self) == *old(self),
            old(self).is_ready() && has_view(old(self).folder_of().views@, view_id@) ==> exists|
                i: int,
            |
                0 <= i < old(self).folder_of().views@.len() && #[trigger] old(
                    self,
                ).folder_of().views@[i].id@ == view_id@ && if old(self).handler_registered(
                    old(self).folder_of().views@[i].layout,
                ) {
                    r == Ok::<(), FolderError>(()) && exists|v2: ViewNode|
                        #[trigger] duplicated_view_post(
                            *old(self),
                            old(self).folder_of().views@[i],
                            new_view_id,
                            *final(self),
                            v2,
                        )
                } else {
                    r == Err::<(), FolderError>(FolderError::Internal) && *final(self) == *old(
                        self,
                    )
                },
    {
        let vid = String::from_str(view_id);
        let found = match &self.mutex_folder.folder {
            None => None,
            Some(f) => f.get_view(&vid),
        };
        let view = match found {
            None => {
                return Err(FolderError::NotFound);
            },
            Some(v) => v,
        };
        let ghost src = view;
        proof {
            let i = choose|i: int|
                0 <= i < old(self).folder_of().views@.len() && old(self).folder_of().views@[i]
                    == src;
            assert(old(self).folder_of().views@[i].id@ == view_id@);
        }
        match self.get_handler(view.layout) {
            Err(e) => {
                return Err(e);
            },
            Ok(_) => {},
        }
        let name2 = view.name.clone().concat(" (copy)");
        let dup = CreateViewParams {
            parent_view_id: view.parent_view_id.clone(),
            name: name2,
            desc: view.desc.clone(),
            layout: view.layout,
            initial_data: view_data,
            view_id: new_view_id,
            set_as_current: true,
        };
        let ghost dup_g = dup;
        match self.create_view_with_params(dup) {
            Ok(v) => {
                proof {
                    assert(duplicated_view_post(
                        *old(self),
                        src,
                        dup_g.view_id,
                        *final(self),
                        v,
                    ));
                }
                Ok(())
            },
            Err(e) => {
                proof {
                    assert(false);
                }
                Err(e)
            },
        }
    }

    /// Restores everything from trash: the records are removed, the views
    /// all become visible again, and the empty trash list is announced —
    /// also when the trash was already empty.
    pub fn restore_all_trash(&mut self)
        requires
            old(self).wf(),
        ensures
            final(self).wf(),
            restore_all_trash_post(*old(self), *final(self)),
    {
        match self.mutex_folder.take() {
            None => {},
            Some(mut f) => {
                f.clear_trash();
                self.mutex_folder.replace(f);
            },
        }
        let note = Notification {
            topic: String::from_str("trash"),
            kind: FolderNotification::DidUpdateTrash,
            payload: NotificationPayload::Trash(Vec::new()),
        };
        self.notifications.push(note);
        proof {
            assert(self.notifications@.drop_last() =~= old(self).notifications@);
        }
    }

    /// Restores one view from trash: only its record is removed; the view
    /// itself was never gone, it only becomes visible again.
    pub fn restore_trash(&mut self, trash_id: &str)
        requires
            old(self).wf(),
        ensures
            final(self).wf(),
            !old(self).is_ready() ==> *final(self) == *old(self),
            old(self).is_ready() ==> {
                &&& final(self).is_ready()
                &&& final(self).folder_of().trash@ == remove_trash_by_id(
                    old(self).folder_of().trash@,
                    trash_id@,
                )
                &&& final(self).folder_of().views == old(self).folder_of().views
                &&& final(self).folder_of().workspaces == old(self).folder_of().workspaces
                &&& final(self).folder_of().current_workspace == old(
                    self,
                ).folder_of().current_workspace
                &&& final(self).folder_of().current_view == old(self).folder_of().current_view
                &&& final(self).same_but_folder(*old(self))
            },
    {
        match self.mutex_folder.take() {
            None => {},
            Some(mut f) => {
                let mut ids: Vec<String> = Vec::new();
                ids.push(String::from_str(trash_id));
                let ghost pre_trash = f.trash@;
                f.delete_trash(&ids);
                proof {
                    lemma_remove_trash_singleton(pre_trash, ids@);
                }
                self.mutex_folder.replace(f);
            },
        }
    }

    /// Purges one view: its trash record and the view itself are removed for
    /// good.
    pub fn delete_trash(&mut self, trash_id: &str)
        requires
            old(self).wf(),
        ensures
            final(self).wf(),
            !old(self).is_ready() ==> *final(self) == *old(self),
            old(self).is_ready() ==> {
                &&& final(self).is_ready()
                &&& final(self).folder_of().trash@ == remove_trash_by_id(
                    old(self).folder_of().trash@,
                    trash_id@,
                )
                &&& final(self).folder_of().views@ == remove_view_by_id(
                    old(self).folder_of().views@,
                    trash_id@,
                )
                &&& final(self).folder_of().workspaces == old(self).folder_of().workspaces
                &&& final(self).folder_of().current_workspace == old(
                    self,
                ).folder_of().current_workspace
                &&& final(self).folder_of().current_view == old(self).folder_of().current_view
                &&& final(self).same_but_folder(*old(self))
            },
    {
        match self.mutex_folder.take() {
            None => {},
            Some(mut f) => {
                let mut ids: Vec<String> = Vec::new();
                ids.push(String::from_str(trash_id));
                let ghost pre_trash = f.trash@;
                let ghost pre_views = f.views@;
                f.delete_trash(&ids);
                f.delete_views(&ids);
                proof {
                    lemma_remove_trash_singleton(pre_trash, ids@);
                    lemma_remove_views_singleton(pre_views, ids@);
                }
                self.mutex_folder.replace(f);
            },
        }
    }

    /// Purges the whole trash: every record is removed and every view that a
    /// record named is removed with it; the empty trash list is announced —
    /// also when the trash was already empty.
    pub fn delete_all_trash(&mut self)
        requires
            old(self).wf(),
        ensures
            final(self).wf(),
            delete_all_trash_post(*old(self), *final(self)),
    {
        match self.mutex_folder.take() {
            None => {},
            Some(mut f) => {
                let trash = f.get_all_trash();
                let mut ids: Vec<String> = Vec::new();
                let mut i: usize = 0;
                while i < trash.len()
                    invariant
                        i <= trash.len(),
                        ids@.len() == i,
                        forall|k: int| 0 <= k < i ==> ids@[k] == trash@[k].id,
                    decreases trash.len() - i,
                {
                    ids.push(trash[i].id.clone());
                    i = i + 1;
                }
                proof {
                    assert(ids@ =~= trash_record_ids(f.trash@));
                }
                f.delete_views(&ids);
                f.clear_trash();
                self.mutex_folder.replace(f);
            },
        }
        let note = Notification {
            topic: String::from_str("trash"),
            kind: FolderNotification::DidUpdateTrash,
            payload: NotificationPayload::Trash(Vec::new()),
        };
        self.notifications.push(note);
        proof {
            assert(self.notifications@.drop_last() =~= old(self).notifications@);
        }
    }

    /// Imports external content as a new view under `new_view_id`. Exactly
    /// one of raw data and a file path must be supplied — with neither the
    /// call fails `InvalidInput` before any handler would run. The handler
    /// ingests the content outside the core; the commit then creates the
    /// view exactly as `create_view_with_params` does.
    pub fn import(&mut self, import_data: ImportParams, new_view_id: String) -> (r: Result<
        ViewNode,
        FolderError,
    >)
        requires
            old(self).wf(),
        ensures
            final(self).wf(),
            import_data.data is None && import_data.file_path is None ==> r == Err::<
                ViewNode,
                FolderError,
            >(FolderError::InvalidInput) && *final(self) == *old(self),
            !(import_data.data is None && import_data.file_path is None) && !old(
                self,
            ).handler_registered(import_data.view_layout) ==> r == Err::<ViewNode, FolderError>(
                FolderError::Internal,
            ) && *final(self) == *old(self),
            !(import_data.data is None && import_data.file_path is None) && old(
                self,
            ).handler_registered(import_data.view_layout) && !old(self).is_ready() ==> r == Err::<
                ViewNode,
                FolderError,
            >(FolderError::NotInitialized) && *final(self) == *old(self),
            !(import_data.data is None && import_data.file_path is None) && old(
                self,
            ).handler_registered(import_data.view_layout) && old(self).is_ready() ==> match r {
                Ok(v) => imported_view_post(
                    *old(self),
                    import_data,
                    new_view_id,
                    *final(self),
                    v,
                ),
                Err(_) => false,
            },
    {
        if import_data.data.is_none() && import_data.file_path.is_none() {
            return Err(FolderError::InvalidInput);
        }
        match self.get_handler(import_data.view_layout) {
            Err(e) => {
                return Err(e);
            },
            Ok(_) => {},
        }
        let params = CreateViewParams {
            parent_view_id: import_data.parent_view_id,
            name: import_data.name,
            desc: String::new(),
            layout: import_data.view_layout,
            initial_data: Vec::new(),
            view_id: new_view_id,
            set_as_current: false,
        };
        self.create_view_with_params(params)
    }

    /// Takes the snapshot out for a root reload: the collaborative root
    /// changed, the engine will rebuild the snapshot from it. While the slot
    /// is empty every other operation answers `NotInitialized` or no-ops —
    /// none can write into the stale snapshot, which this call has removed.
    pub fn begin_reload(&mut self) -> (r: Option<Folder>)
        requires
            old(self).wf(),
        ensures
            final(self).wf(),
            r == old(self).mutex_folder.folder,
            final(self).mutex_folder.folder is None,
            final(self).same_but_folder(*old(self)),
    {
        self.mutex_folder.take()
    }

    /// Installs the rebuilt snapshot and announces the full view list of the
    /// workspace, computed from the rebuilt snapshot before it is installed.
    pub fn complete_reload(&mut self, workspace_id: &str, folder: Folder)
        requires
            old(self).wf(),
            folder.wf(),
        ensures
            final(self).wf(),
            final(self).mutex_folder.folder == Some(folder),
            final(self).operation_handlers == old(self).operation_handlers,
            final(self).notifications@.len() == old(self).notifications@.len() + 1,
            final(self).notifications@.drop_last() == old(self).notifications@,
            is_workspace_note(final(self).notifications@.last(), folder, workspace_id@),
    {
        let wid = String::from_str(workspace_id);
        let note = notify_did_update_workspace(&wid, &folder);
        self.mutex_folder.replace(folder);
        self.notifications.push(note);
        proof {
            assert(self.notifications@.drop_last() =~= old(self).notifications@);
        }
    }
}

} // verus!

verus! {

/// What moving a view among its siblings does: the tree keeps the same
/// views, only the order under the view's parent changes — the child at
/// `from` now stands at `to` — and the parent scope is queued for
/// notification.
pub open spec fn moved_view_post(
    pre: Folder2Manager,
    view_id: Seq<char>,
    from: int,
    to: int,
    post: Folder2Manager,
    v: ViewNode,
) -> bool {
    let f = pre.folder_of();
    let f2 = post.folder_of();
    &&& f.views@.contains(v)
    &&& v.id@ == view_id
    &&& post.is_ready()
    &&& f2.views@.len() == f.views@.len()
    &&& f2.workspaces == f.workspaces
    &&& f2.trash == f.trash
    &&& f2.current_workspace == f.current_workspace
    &&& f2.current_view == f.current_view
    &&& forall|q: Seq<char>|
        q != v.parent_view_id@ ==> #[trigger] children_of(f2.views@, q) == children_of(f.views@, q)
    &&& ({
        let c = children_of(f.views@, v.parent_view_id@);
        &&& (from < c.len() && to < c.len() ==> children_of(f2.views@, v.parent_view_id@)
            == crate::folder::move_elem(c, from, to))
        &&& (!(from < c.len() && to < c.len()) ==> f2.views@ == f.views@)
    })
    &&& post.operation_handlers == pre.operation_handlers
    &&& post.notifications@.len() >= pre.notifications@.len()
    &&& post.notifications@.take(pre.notifications@.len() as int) == pre.notifications@
    &&& (f2.current_workspace@.len() == 0 ==> post.notifications@ == pre.notifications@)
    &&& (f2.current_workspace@.len() > 0 ==> parent_notes_ok(
        post.notifications@.skip(pre.notifications@.len() as int),
        f2,
        seq![v.parent_view_id],
    ))
}

impl Folder2Manager {
    /// Reorders the view with this id among its siblings, moving the child
    /// at index `from` under its parent to index `to`, and queues the parent
    /// scope for notification. An unknown id is a non-fatal no-op: the view
    /// may well have vanished in a concurrent trash or delete.
    pub fn move_view(&mut self, view_id: &str, from: usize, to: usize) -> (r: Result<
        (),
        FolderError,
    >)
        requires
            old(self).wf(),
        ensures
            final(self).wf(),
            r == Ok::<(), FolderError>(()),
            !old(self).is_ready() ==> *final(self) == *old(self),
            old(self).is_ready() && !has_view(old(self).folder_of().views@, view_id@)
                ==> *final(self) == *old(self),
            old(self).is_ready() && has_view(old(self).folder_of().views@, view_id@) ==> exists|
                v: ViewNode,
            | #[trigger] moved_view_post(*old(self), view_id@, from as int, to as int, *final(self), v),
    {
        match self.mutex_folder.take() {
            None => Ok(()),
            Some(mut f) => {
                let vid = String::from_str(view_id);
                match f.move_view(&vid, from, to) {
                    None => {
                        self.mutex_folder.replace(f);
                        Ok(())
                    },
                    Some(view) => {
                        let ghost v = view;
                        let mut parents: Vec<String> = Vec::new();
                        parents.push(view.parent_view_id);
                        proof {
                            assert(parents@ =~= seq![v.parent_view_id]);
                        }
                        let mut notes = notify_parent_view_did_change(&f, &parents);
                        self.mutex_folder.replace(f);
                        let ghost pre_notes = self.notifications@;
                        let ghost notes_g = notes@;
                        self.notifications.append(&mut notes);
                        proof {
                            assert(self.notifications@.take(pre_notes.len() as int) =~= pre_notes);
                            assert(self.notifications@.skip(pre_notes.len() as int) =~= notes_g);
                            if notes_g.len() == 0 {
                                assert(self.notifications@ =~= pre_notes);
                            }
                            assert(moved_view_post(
                                *old(self),
                                view_id@,
                                from as int,
                                to as int,
                                *self,
                                v,
                            ));
                        }
                        Ok(())
                    },
                }
            },
        }
    }
}

} // verus!
