use vstd::prelude::*;
use vstd::string::*;

use crate::entities::ViewNode;
use crate::folder::contains_id;
use crate::folder::has_view;
use crate::folder::id_in;
use crate::folder::unique_view_ids;
use crate::folder::Folder;
use crate::notification::is_child_note;
use crate::notification::is_trash_note;
use crate::notification::is_workspace_note;
use crate::notification::lemma_parent_notes_topics;
use crate::notification::notify_parent_view_did_change;
use crate::notification::parent_notes_ok;
use crate::notification::FolderNotification;
use crate::notification::Notification;
use crate::notification::NotificationPayload;

verus! {

// ---------------------------------------------------------------------------
// The three inbound change streams are consumed by background tasks outside
// the core. Each delivery is handed to one of the decision functions below,
// which reads the committed snapshot and computes the notifications owed.
// ---------------------------------------------------------------------------

/// One delivery of the view-change stream.
#[derive(Clone)]
pub enum ViewChange {
    DidCreateView { view: ViewNode },
    DidDeleteView { views: Vec<ViewNode> },
    DidUpdate { view: ViewNode },
}

/// One delivery of the trash-change stream.
#[derive(Clone)]
pub enum TrashChange {
    DidCreateTrash { ids: Vec<String> },
    DidDeleteTrash { ids: Vec<String> },
}

/// The view ids a trash delivery speaks of.
pub open spec fn trash_change_ids(change: TrashChange) -> Seq<String> {
    match change {
        TrashChange::DidCreateTrash { ids } => ids@,
        TrashChange::DidDeleteTrash { ids } => ids@,
    }
}

/// `q` is the parent of some view that the listed ids name.
pub open spec fn affected_parent(folder: Folder, ids: Seq<String>, q: Seq<char>) -> bool {
    exists|i: int|
        0 <= i < folder.views@.len() && #[trigger] folder.views@[i].parent_view_id@ == q && id_in(
            ids,
            folder.views@[i].id@,
        )
}

/// What a trash delivery produces: first a trash note carrying the full
/// trash list, then at most one note per distinct affected parent — never a
/// duplicate, even when many siblings were trashed at once — and, as long as
/// a workspace is open and every affected parent resolves, a note for every
/// affected parent.
pub open spec fn trash_change_notes_ok(
    notes: Seq<Notification>,
    folder: Folder,
    ids: Seq<String>,
) -> bool {
    &&& notes.len() >= 1
    &&& is_trash_note(notes[0], folder.trash@)
    &&& forall|a: int, b: int| 1 <= a < b < notes.len() ==> notes[a].topic@ != notes[b].topic@
    &&& forall|k: int|
        1 <= k < notes.len() ==> affected_parent(folder, ids, #[trigger] notes[k].topic@) && (if
        notes[k].topic@ == folder.current_workspace@ {
            is_workspace_note(notes[k], folder, notes[k].topic@)
        } else {
            is_child_note(notes[k], folder, notes[k].topic@)
        })
    &&& (folder.current_workspace@.len() > 0 && (forall|q: Seq<char>|
        #[trigger] affected_parent(folder, ids, q) ==> q == folder.current_workspace@ || has_view(
            folder.views@,
            q,
        ))) ==> (forall|q: Seq<char>|
        #[trigger] affected_parent(folder, ids, q) ==> exists|k: int|
            1 <= k < notes.len() && notes[k].topic@ == q)
}

/// Reacts to a view-change delivery. A created or updated view earns its
/// parent a note; deleted views earn nothing here — the user-visible removal
/// path is trash, so the trash stream drives those notes.
pub fn process_view_change(folder: &Folder, change: &ViewChange) -> (r: Vec<Notification>)
    ensures
        match *change {
            ViewChange::DidCreateView { view } => {
                &&& folder.current_workspace@.len() == 0 ==> r@.len() == 0
                &&& folder.current_workspace@.len() > 0 ==> parent_notes_ok(
                    r@,
                    *folder,
                    seq![view.parent_view_id],
                )
            },
            ViewChange::DidUpdate { view } => {
                &&& folder.current_workspace@.len() == 0 ==> r@.len() == 0
                &&& folder.current_workspace@.len() > 0 ==> parent_notes_ok(
                    r@,
                    *folder,
                    seq![view.parent_view_id],
                )
            },
            ViewChange::DidDeleteView { views } => r@.len() == 0,
        },
{
    match change {
        ViewChange::DidCreateView { view } => {
            let mut parents: Vec<String> = Vec::new();
            parents.push(view.parent_view_id.clone());
            proof {
                assert(parents@ =~= seq![view.parent_view_id]);
            }
            notify_parent_view_did_change(folder, &parents)
        },
        ViewChange::DidUpdate { view } => {
            let mut parents: Vec<String> = Vec::new();
            parents.push(view.parent_view_id.clone());
            proof {
                assert(parents@ =~= seq![view.parent_view_id]);
            }
            notify_parent_view_did_change(folder, &parents)
        },
        ViewChange::DidDeleteView { views: _ } => Vec::new(),
    }
}

/// Reacts to a trash delivery: one trash note with the full trash list, then
/// one child (or workspace) note per distinct parent of the views the
/// delivery names — parents are deduplicated so trashing many siblings at
/// once notifies their shared parent once.
pub fn process_trash_change(folder: &Folder, change: &TrashChange) -> (r: Vec<Notification>)
    requires
        folder.wf(),
    ensures
        trash_change_notes_ok(r@, *folder, trash_change_ids(*change)),
{
    let ids: &Vec<String> = match change {
        TrashChange::DidCreateTrash { ids } => ids,
        TrashChange::DidDeleteTrash { ids } => ids,
    };
    proof {
        assert(ids@ == trash_change_ids(*change));
    }
    let views = folder.get_views(ids);
    let mut unique_parents: Vec<String> = Vec::new();
    let mut i: usize = 0;
    while i < views.len()
        invariant
            i <= views.len(),
            forall|a: int, b: int|
                0 <= a < b < unique_parents@.len() ==> unique_parents@[a]@
                    != unique_parents@[b]@,
            forall|k: int|
                0 <= k < unique_parents@.len() ==> exists|j: int|
                    0 <= j < views@.len() && #[trigger] unique_parents@[k]@
                        == views@[j].parent_view_id@,
            forall|j: int| 0 <= j < i ==> id_in(unique_parents@, #[trigger] views@[j].parent_view_id@),
        decreases views.len() - i,
    {
        let ghost up_before = unique_parents@;
        if !contains_id(&unique_parents, &views[i].parent_view_id) {
            unique_parents.push(views[i].parent_view_id.clone());
            proof {
                assert forall|a: int, b: int|
                    0 <= a < b < unique_parents@.len() implies unique_parents@[a]@
                    != unique_parents@[b]@ by {
                    if b < up_before.len() {
                        assert(up_before[a]@ != up_before[b]@);
                    } else {
                        assert(!id_in(up_before, views@[i as int].parent_view_id@));
                        assert(unique_parents@[b]@ == views@[i as int].parent_view_id@);
                    }
                }
                assert forall|k: int| 0 <= k < unique_parents@.len() implies exists|j: int|
                    0 <= j < views@.len() && #[trigger] unique_parents@[k]@
                        == views@[j].parent_view_id@ by {
                    if k < up_before.len() {
                    } else {
                        assert(unique_parents@[k]@ == views@[i as int].parent_view_id@);
                    }
                }
            }
        }
        proof {
            assert forall|j: int| 0 <= j < i + 1 implies id_in(
                unique_parents@,
                #[trigger] views@[j].parent_view_id@,
            ) by {
                if j == i {
                    if id_in(up_before, views@[i as int].parent_view_id@) {
                        let m = choose|m: int|
                            0 <= m < up_before.len() && up_before[m]@
                                == views@[i as int].parent_view_id@;
                        assert(unique_parents@[m]@ == views@[i as int].parent_view_id@);
                    } else {
                        assert(unique_parents@[unique_parents@.len() - 1]@ == views@[
                            i as int
                        ].parent_view_id@);
                    }
                } else {
                    let m = choose|m: int|
                        0 <= m < up_before.len() && up_before[m]@ == views@[j].parent_view_id@;
                    assert(unique_parents@[m]@ == views@[j].parent_view_id@);
                }
            }
        }
        i = i + 1;
    }
    let trash_note = Notification {
        topic: String::from_str("trash"),
        kind: FolderNotification::DidUpdateTrash,
        payload: NotificationPayload::Trash(folder.get_all_trash()),
    };
    let mut parent_notes = notify_parent_view_did_change(folder, &unique_parents);
    let ghost pn = parent_notes@;
    let mut r: Vec<Notification> = Vec::new();
    r.push(trash_note);
    r.append(&mut parent_notes);
    proof {
        let f = *folder;
        let idseq = trash_change_ids(*change);
        assert(r@[0].topic@ == "trash"@);
        assert(r@.len() == 1 + pn.len());
        assert forall|k: int| 1 <= k < r@.len() implies r@[k] == pn[k - 1] by {}
        // Every listed id that names a view has a representative among the
        // collected views, hence its parent among the deduplicated parents.
        assert forall|q: Seq<char>| #[trigger] affected_parent(f, idseq, q) implies id_in(
            unique_parents@,
            q,
        ) by {
            let vi = choose|vi: int|
                0 <= vi < f.views@.len() && f.views@[vi].parent_view_id@ == q && id_in(
                    idseq,
                    f.views@[vi].id@,
                );
            let j = choose|j: int| 0 <= j < idseq.len() && idseq[j]@ == f.views@[vi].id@;
            assert(has_view(f.views@, idseq[j]@)) by {
                assert(f.views@[vi].id@ == idseq[j]@);
            }
            let k = choose|k: int| 0 <= k < views@.len() && #[trigger] views@[k].id@ == idseq[j]@;
            let wi = choose|wi: int| 0 <= wi < f.views@.len() && f.views@[wi] == views@[k];
            assert(f.views@[wi].id@ == f.views@[vi].id@);
            assert(wi == vi) by {
                if wi < vi {
                    assert(f.views@[wi].id@ != f.views@[vi].id@);
                } else if vi < wi {
                    assert(f.views@[vi].id@ != f.views@[wi].id@);
                }
            }
            assert(views@[k].parent_view_id@ == q);
            assert(id_in(unique_parents@, views@[k].parent_view_id@));
        }
        if f.current_workspace@.len() > 0 {
            lemma_parent_notes_topics(pn, f, unique_parents@);
            // Soundness of each parent note and distinctness of topics.
            assert forall|k: int| 1 <= k < r@.len() implies affected_parent(
                f,
                idseq,
                #[trigger] r@[k].topic@,
            ) && (if r@[k].topic@ == f.current_workspace@ {
                is_workspace_note(r@[k], f, r@[k].topic@)
            } else {
                is_child_note(r@[k], f, r@[k].topic@)
            }) by {
                assert(pn[k - 1].topic@ == unique_parents@[k - 1]@);
                let j = choose|j: int|
                    0 <= j < views@.len() && #[trigger] unique_parents@[k - 1]@
                        == views@[j].parent_view_id@;
                assert(f.views@.contains(views@[j]));
                let vi = choose|vi: int| 0 <= vi < f.views@.len() && f.views@[vi] == views@[j];
                assert(affected_parent(f, idseq, r@[k].topic@)) by {
                    assert(f.views@[vi].parent_view_id@ == r@[k].topic@);
                    assert(id_in(idseq, f.views@[vi].id@));
                }
            }
            if forall|q: Seq<char>|
                #[trigger] affected_parent(f, idseq, q) ==> q == f.current_workspace@ || has_view(
                    f.views@,
                    q,
                ) {
                assert forall|j: int| 0 <= j < unique_parents@.len() implies #[trigger]
                unique_parents@[j]@ == f.current_workspace@ || has_view(
                    f.views@,
                    unique_parents@[j]@,
                ) by {
                    let vj = choose|vj: int|
                        0 <= vj < views@.len() && unique_parents@[j]@
                            == views@[vj].parent_view_id@;
                    assert(f.views@.contains(views@[vj]));
                    let vi = choose|vi: int|
                        0 <= vi < f.views@.len() && f.views@[vi] == views@[vj];
                    assert(affected_parent(f, idseq, unique_parents@[j]@)) by {
                        assert(f.views@[vi].parent_view_id@ == unique_parents@[j]@);
                        assert(id_in(idseq, f.views@[vi].id@));
                    }
                }
                assert(pn.len() == unique_parents@.len());
                assert forall|q: Seq<char>| #[trigger] affected_parent(f, idseq, q) implies exists|
                    k: int,
                |
                    1 <= k < r@.len() && r@[k].topic@ == q by {
                    let m = choose|m: int|
                        0 <= m < unique_parents@.len() && unique_parents@[m]@ == q;
                    assert(pn[m].topic@ == q);
                    assert(r@[m + 1].topic@ == q);
                }
            }
        } else {
            assert(pn.len() == 0);
        }
    }
    r
}

} // verus!
