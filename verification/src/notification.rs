use vstd::prelude::*;

use crate::entities::view_pb_with_child_views;
use crate::entities::TrashRecord;
use crate::entities::ViewNode;
use crate::entities::ViewPB;
use crate::entities::Workspace;
use crate::folder::children_of;
use crate::folder::has_view;
use crate::folder::visible_children_of;
use crate::folder::Folder;

verus! {

/// What changed, as told to observers.
#[derive(Clone, Copy, Debug, PartialEq, Eq, Structural)]
pub enum FolderNotification {
    DidCreateWorkspace,
    DidUpdateWorkspaceViews,
    DidUpdateChildViews,
    DidUpdateView,
    DidUpdateTrash,
}

/// The payload carried with a notification.
pub enum NotificationPayload {
    Workspaces(Vec<Workspace>),
    WorkspaceViews(Vec<ViewPB>),
    View(ViewPB),
    Trash(Vec<TrashRecord>),
}

/// One outbound notification. The topic is a workspace id, a view id, or the
/// literal trash topic. Delivery is an external, best-effort concern: the
/// core only computes what to send and to whom.
pub struct Notification {
    pub topic: String,
    pub kind: FolderNotification,
    pub payload: NotificationPayload,
}

/// `pb` presents the view `v` with exactly the given children.
pub open spec fn pb_of(pb: ViewPB, v: ViewNode, children: Seq<ViewNode>) -> bool {
    &&& pb.id == v.id
    &&& pb.parent_view_id == v.parent_view_id
    &&& pb.name == v.name
    &&& pb.layout == v.layout
    &&& pb.child_views@ == children
}

/// `pbs` lists the non-trashed top-level views of the workspace, each
/// annotated with all of its direct children.
pub open spec fn workspace_pbs_of(pbs: Seq<ViewPB>, folder: Folder, workspace_id: Seq<char>) -> bool {
    let vis = visible_children_of(folder.views@, folder.trash@, workspace_id);
    &&& pbs.len() == vis.len()
    &&& forall|k: int|
        0 <= k < pbs.len() ==> pb_of(
            #[trigger] pbs[k],
            vis[k],
            children_of(folder.views@, vis[k].id@),
        )
}

/// A full refresh of one workspace's view list.
pub open spec fn is_workspace_note(n: Notification, folder: Folder, workspace_id: Seq<char>) -> bool {
    &&& n.kind == FolderNotification::DidUpdateWorkspaceViews
    &&& n.topic@ == workspace_id
    &&& match n.payload {
        NotificationPayload::WorkspaceViews(pbs) => workspace_pbs_of(pbs@, folder, workspace_id),
        _ => false,
    }
}

/// A refresh of one parent view together with its non-trashed children.
pub open spec fn is_child_note(n: Notification, folder: Folder, parent: Seq<char>) -> bool {
    &&& n.kind == FolderNotification::DidUpdateChildViews
    &&& n.topic@ == parent
    &&& match n.payload {
        NotificationPayload::View(pb) => exists|i: int|
            0 <= i < folder.views@.len() && #[trigger] folder.views@[i].id@ == parent && pb_of(
                pb,
                folder.views@[i],
                visible_children_of(folder.views@, folder.trash@, parent),
            ),
        _ => false,
    }
}

/// A refresh of the trash list, carrying the given records.
pub open spec fn is_trash_note(n: Notification, records: Seq<TrashRecord>) -> bool {
    &&& n.kind == FolderNotification::DidUpdateTrash
    &&& n.topic@ == "trash"@
    &&& match n.payload {
        NotificationPayload::Trash(t) => t@ == records,
        _ => false,
    }
}

/// The notifications owed for a list of parent ids, in order. A parent that
/// is the open workspace gets a workspace note; a parent that is a view gets
/// a child note; a parent that is neither stops the run — the remaining
/// parents get nothing.
pub open spec fn parent_notes_ok(
    notes: Seq<Notification>,
    folder: Folder,
    parents: Seq<String>,
) -> bool
    decreases parents.len(),
{
    if parents.len() == 0 {
        notes.len() == 0
    } else {
        let p = parents[0]@;
        if p == folder.current_workspace@ {
            notes.len() >= 1 && is_workspace_note(notes[0], folder, p) && parent_notes_ok(
                notes.drop_first(),
                folder,
                parents.drop_first(),
            )
        } else if has_view(folder.views@, p) {
            notes.len() >= 1 && is_child_note(notes[0], folder, p) && parent_notes_ok(
                notes.drop_first(),
                folder,
                parents.drop_first(),
            )
        } else {
            notes.len() == 0
        }
    }
}

/// Extending a complete run of notes by one more resolvable parent.
pub proof fn lemma_parent_notes_push(
    notes: Seq<Notification>,
    folder: Folder,
    parents: Seq<String>,
    n: Notification,
    p: String,
)
    requires
        parent_notes_ok(notes, folder, parents),
        notes.len() == parents.len(),
        (p@ == folder.current_workspace@ && is_workspace_note(n, folder, p@)) || (p@
            != folder.current_workspace@ && has_view(folder.views@, p@) && is_child_note(
            n,
            folder,
            p@,
        )),
    ensures
        parent_notes_ok(notes.push(n), folder, parents.push(p)),
    decreases parents.len(),
{
    if parents.len() == 0 {
        assert(parents.push(p)[0] == p);
        assert(notes.push(n)[0] == n);
        assert(parents.push(p).drop_first() =~= parents);
        assert(notes.push(n).drop_first() =~= notes);
    } else {
        assert(parents.push(p)[0] == parents[0]);
        assert(notes.push(n)[0] == notes[0]);
        assert(parents.push(p).drop_first() =~= parents.drop_first().push(p));
        assert(notes.push(n).drop_first() =~= notes.drop_first().push(n));
        lemma_parent_notes_push(notes.drop_first(), folder, parents.drop_first(), n, p);
    }
}

/// A complete run of notes for the first `i` parents also satisfies the
/// whole list when parent `i` can not be resolved: the run stops there.
pub proof fn lemma_parent_notes_abort(
    notes: Seq<Notification>,
    folder: Folder,
    parents: Seq<String>,
    i: int,
)
    requires
        0 <= i < parents.len(),
        notes.len() == i,
        parent_notes_ok(notes, folder, parents.take(i)),
        parents[i]@ != folder.current_workspace@,
        !has_view(folder.views@, parents[i]@),
    ensures
        parent_notes_ok(notes, folder, parents),
    decreases i,
{
    if i == 0 {
    } else {
        assert(parents.take(i)[0] == parents[0]);
        assert(parents.take(i).drop_first() =~= parents.drop_first().take(i - 1));
        assert(parents.drop_first()[i - 1] == parents[i]);
        lemma_parent_notes_abort(notes.drop_first(), folder, parents.drop_first(), i - 1);
    }
}

/// Reading a run of notes back: note `j` answers parent `j`, with the topic
/// naming the parent; and when every parent resolves, no note is missing.
pub proof fn lemma_parent_notes_topics(
    notes: Seq<Notification>,
    folder: Folder,
    parents: Seq<String>,
)
    requires
        parent_notes_ok(notes, folder, parents),
    ensures
        notes.len() <= parents.len(),
        forall|j: int|
            0 <= j < notes.len() ==> #[trigger] notes[j].topic@ == parents[j]@ && (if parents[j]@
                == folder.current_workspace@ {
                is_workspace_note(notes[j], folder, parents[j]@)
            } else {
                is_child_note(notes[j], folder, parents[j]@)
            }),
        (forall|j: int|
            0 <= j < parents.len() ==> #[trigger] parents[j]@ == folder.current_workspace@
                || has_view(folder.views@, parents[j]@)) ==> notes.len() == parents.len(),
    decreases parents.len(),
{
    if parents.len() == 0 {
    } else {
        let p = parents[0]@;
        if p == folder.current_workspace@ || has_view(folder.views@, p) {
            lemma_parent_notes_topics(notes.drop_first(), folder, parents.drop_first());
            assert forall|j: int| 0 <= j < notes.len() implies #[trigger] notes[j].topic@
                == parents[j]@ && (if parents[j]@ == folder.current_workspace@ {
                is_workspace_note(notes[j], folder, parents[j]@)
            } else {
                is_child_note(notes[j], folder, parents[j]@)
            }) by {
                if j > 0 {
                    assert(notes.drop_first()[j - 1] == notes[j]);
                    assert(parents.drop_first()[j - 1] == parents[j]);
                }
            }
            if forall|j: int|
                0 <= j < parents.len() ==> #[trigger] parents[j]@ == folder.current_workspace@
                    || has_view(folder.views@, parents[j]@) {
                assert forall|j: int| 0 <= j < parents.drop_first().len() implies #[trigger]
                parents.drop_first()[j]@ == folder.current_workspace@ || has_view(
                    folder.views@,
                    parents.drop_first()[j]@,
                ) by {
                    assert(parents.drop_first()[j] == parents[j + 1]);
                }
            }
        } else {
            // The run stops at the first parent; `notes` is empty.
        }
    }
}

/// The non-trashed top-level views of the workspace, each annotated with all
/// of its direct children. This is the payload of a workspace note.
pub fn get_workspace_view_pbs(workspace_id: &String, folder: &Folder) -> (r: Vec<ViewPB>)
    ensures
        workspace_pbs_of(r@, *folder, workspace_id@),
{
    let tops = folder.get_visible_children(workspace_id);
    let mut r: Vec<ViewPB> = Vec::new();
    let mut i: usize = 0;
    while i < tops.len()
        invariant
            i <= tops.len(),
            r@.len() == i,
            tops@ == visible_children_of(folder.views@, folder.trash@, workspace_id@),
            forall|k: int|
                0 <= k < i ==> pb_of(
                    #[trigger] r@[k],
                    tops@[k],
                    children_of(folder.views@, tops@[k].id@),
                ),
        decreases tops.len() - i,
    {
        let child_views = folder.get_views_belong_to(&tops[i].id);
        let pb = view_pb_with_child_views(tops[i].clone(), child_views);
        r.push(pb);
        i = i + 1;
    }
    r
}

/// The workspace note: a full refresh of the workspace's view list.
pub fn notify_did_update_workspace(workspace_id: &String, folder: &Folder) -> (r: Notification)
    ensures
        is_workspace_note(r, *folder, workspace_id@),
{
    let pbs = get_workspace_view_pbs(workspace_id, folder);
    Notification {
        topic: workspace_id.clone(),
        kind: FolderNotification::DidUpdateWorkspaceViews,
        payload: NotificationPayload::WorkspaceViews(pbs),
    }
}

/// The notes owed after the children of each listed parent changed. A parent
/// naming the open workspace gets a workspace note, a parent naming a view
/// gets a child note, and the run stops at the first parent that is neither
/// — later parents get nothing. No notes at all while no workspace is open.
pub fn notify_parent_view_did_change(folder: &Folder, parent_view_ids: &Vec<String>) -> (r: Vec<
    Notification,
>)
    ensures
        folder.current_workspace@.len() == 0 ==> r@.len() == 0,
        folder.current_workspace@.len() > 0 ==> parent_notes_ok(r@, *folder, parent_view_ids@),
{
    let workspace_id = match folder.get_current_workspace_id() {
        Some(id) => id,
        None => {
            return Vec::new();
        },
    };
    let mut r: Vec<Notification> = Vec::new();
    let mut i: usize = 0;
    while i < parent_view_ids.len()
        invariant
            i <= parent_view_ids.len(),
            workspace_id@ == folder.current_workspace@,
            folder.current_workspace@.len() > 0,
            r@.len() == i,
            parent_notes_ok(r@, *folder, parent_view_ids@.take(i as int)),
        decreases parent_view_ids.len() - i,
    {
        let ghost notes_before = r@;
        let parent = &parent_view_ids[i];
        if *parent == workspace_id {
            let note = notify_did_update_workspace(&workspace_id, folder);
            r.push(note);
            proof {
                lemma_parent_notes_push(
                    notes_before,
                    *folder,
                    parent_view_ids@.take(i as int),
                    r@[i as int],
                    parent_view_ids@[i as int],
                );
                assert(parent_view_ids@.take(i as int).push(parent_view_ids@[i as int])
                    =~= parent_view_ids@.take(i + 1 as int));
            }
        } else {
            match folder.get_view(parent) {
                None => {
                    proof {
                        lemma_parent_notes_abort(r@, *folder, parent_view_ids@, i as int);
                    }
                    return r;
                },
                Some(parent_view) => {
                    let ghost pv = parent_view;
                    let child_views = folder.get_visible_children(parent);
                    let pb = view_pb_with_child_views(parent_view, child_views);
                    let note = Notification {
                        topic: parent.clone(),
                        kind: FolderNotification::DidUpdateChildViews,
                        payload: NotificationPayload::View(pb),
                    };
                    r.push(note);
                    proof {
                        assert(is_child_note(r@[i as int], *folder, parent_view_ids@[i as int]@))
                            by {
                            let k = choose|k: int|
                                0 <= k < folder.views@.len() && folder.views@[k] == pv;
                            assert(folder.views@[k].id@ == parent@);
                        }
                        lemma_parent_notes_push(
                            notes_before,
                            *folder,
                            parent_view_ids@.take(i as int),
                            r@[i as int],
                            parent_view_ids@[i as int],
                        );
                        assert(parent_view_ids@.take(i as int).push(parent_view_ids@[i as int])
                            =~= parent_view_ids@.take(i + 1 as int));
                    }
                },
            }
        }
        i = i + 1;
    }
    proof {
        assert(parent_view_ids@.take(parent_view_ids@.len() as int) =~= parent_view_ids@);
    }
    r
}

} // verus!
