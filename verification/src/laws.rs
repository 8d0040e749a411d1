use vstd::prelude::*;

use crate::entities::CreateViewParams;
use crate::entities::TrashRecord;
use crate::entities::ViewNode;
use crate::entities::ViewPB;
use crate::errors::FolderError;
use crate::folder::has_view;
use crate::folder::id_in;
use crate::folder::lemma_remove_view_by_id_props;
use crate::folder::remove_view_by_id;
use crate::folder::remove_views;
use crate::folder::trash_record_ids;
use crate::folder::trashed;
use crate::folder::visible_children_of;
use crate::folder::Folder;
use crate::listener::affected_parent;
use crate::listener::trash_change_notes_ok;
use crate::manager::create_view_post;
use crate::manager::delete_all_trash_post;
use crate::manager::get_view_ok;
use crate::manager::restore_all_trash_post;
use crate::manager::Folder2Manager;
use crate::notification::is_child_note;
use crate::notification::Notification;

verus! {

/// The two snapshots hold the same data: record for record and pointer for
/// pointer.
pub open spec fn folder_state_eq(a: Folder, b: Folder) -> bool {
    &&& a.workspaces@ == b.workspaces@
    &&& a.views@ == b.views@
    &&& a.trash@ == b.trash@
    &&& a.current_workspace@ == b.current_workspace@
    &&& a.current_view@ == b.current_view@
}

/// No element of the visible-children list is trashed.
pub proof fn lemma_visible_children_not_trashed(
    views: Seq<ViewNode>,
    trash: Seq<TrashRecord>,
    p: Seq<char>,
)
    ensures
        forall|k: int|
            0 <= k < visible_children_of(views, trash, p).len() ==> !trashed(
                trash,
                #[trigger] visible_children_of(views, trash, p)[k].id@,
            ),
    decreases views.len(),
{
    if views.len() == 0 {
    } else {
        lemma_visible_children_not_trashed(views.drop_last(), trash, p);
        let rest = visible_children_of(views.drop_last(), trash, p);
        let whole = visible_children_of(views, trash, p);
        assert forall|k: int| 0 <= k < whole.len() implies !trashed(
            trash,
            #[trigger] whole[k].id@,
        ) by {
            if k < rest.len() {
                assert(whole[k] == rest[k]);
            }
        }
    }
}

/// A parent no view names has no visible children.
pub proof fn lemma_visible_children_empty(
    views: Seq<ViewNode>,
    trash: Seq<TrashRecord>,
    p: Seq<char>,
)
    requires
        forall|i: int| 0 <= i < views.len() ==> #[trigger] views[i].parent_view_id@ != p,
    ensures
        visible_children_of(views, trash, p) == Seq::<ViewNode>::empty(),
    decreases views.len(),
{
    if views.len() == 0 {
        assert(visible_children_of(views, trash, p) =~= Seq::<ViewNode>::empty());
    } else {
        assert forall|i: int|
            0 <= i < views.drop_last().len() implies #[trigger] views.drop_last()[
            i
        ].parent_view_id@ != p by {
            assert(views[i].parent_view_id@ != p);
        }
        lemma_visible_children_empty(views.drop_last(), trash, p);
        assert(views.last().parent_view_id@ != p) by {
            assert(views[views.len() - 1].parent_view_id@ != p);
        }
    }
}

/// Law: restoring all trash is idempotent. The second call finds the trash
/// already empty and leaves the tree exactly as the first call left it; both
/// calls announce the empty trash list, and neither can fail — the operation
/// has no error outcome at all.
pub proof fn law_restore_all_trash_idempotent(
    m0: Folder2Manager,
    m1: Folder2Manager,
    m2: Folder2Manager,
)
    requires
        restore_all_trash_post(m0, m1),
        restore_all_trash_post(m1, m2),
    ensures
        m2.is_ready() == m1.is_ready(),
        m1.is_ready() ==> folder_state_eq(m2.folder_of(), m1.folder_of()),
        !m1.is_ready() ==> m2.mutex_folder == m1.mutex_folder,
{
}

/// Law: purging all trash is idempotent. The first call empties the trash
/// and removes the trashed views; the second finds nothing listed, so the
/// view set — already purged — stays exactly as it was; both calls announce
/// the empty trash list, and neither can fail.
pub proof fn law_delete_all_trash_idempotent(
    m0: Folder2Manager,
    m1: Folder2Manager,
    m2: Folder2Manager,
)
    requires
        delete_all_trash_post(m0, m1),
        delete_all_trash_post(m1, m2),
    ensures
        m2.is_ready() == m1.is_ready(),
        m1.is_ready() ==> folder_state_eq(m2.folder_of(), m1.folder_of()),
        !m1.is_ready() ==> m2.mutex_folder == m1.mutex_folder,
{
    if m0.is_ready() {
        let f1 = m1.folder_of();
        crate::folder::lemma_remove_views_props(f1.views@, trash_record_ids(f1.trash@));
        assert(trash_record_ids(f1.trash@).len() == 0);
        assert(m2.folder_of().views@ == f1.views@);
    }
}

/// Law: a view whose id is in trash is invisible — no lookup result exists
/// for it, and it stands in no parent's visible-children list.
pub proof fn law_trashed_view_hidden(f: Folder, id: Seq<char>)
    requires
        trashed(f.trash@, id),
    ensures
        forall|pb: ViewPB| !get_view_ok(f, id, pb),
        forall|p: Seq<char>, k: int|
            0 <= k < visible_children_of(f.views@, f.trash@, p).len() ==> #[trigger]
            visible_children_of(f.views@, f.trash@, p)[k].id@ != id,
{
    assert forall|p: Seq<char>, k: int|
        0 <= k < visible_children_of(f.views@, f.trash@, p).len() implies #[trigger]
    visible_children_of(f.views@, f.trash@, p)[k].id@ != id by {
        lemma_visible_children_not_trashed(f.views@, f.trash@, p);
    }
}

/// Law (round trip): creating a view from `params` — with a fresh id that no
/// view carries, that is not in trash, and that no view names as its parent
/// — and then looking that id up returns the view as asked: same name, same
/// layout, same parent, and no children yet.
pub proof fn law_create_then_get(
    m0: Folder2Manager,
    params: CreateViewParams,
    m1: Folder2Manager,
    v: ViewNode,
    pb: ViewPB,
)
    requires
        m0.wf(),
        m0.is_ready(),
        m0.handler_registered(params.layout),
        create_view_post(m0, params, m1, Ok(v)),
        !has_view(m0.folder_of().views@, params.view_id@),
        !trashed(m0.folder_of().trash@, params.view_id@),
        forall|i: int|
            0 <= i < m0.folder_of().views@.len() ==> #[trigger] m0.folder_of().views@[
            i
            ].parent_view_id@ != params.view_id@,
        params.parent_view_id@ != params.view_id@,
        get_view_ok(m1.folder_of(), params.view_id@, pb),
    ensures
        pb.name == params.name,
        pb.layout == params.layout,
        pb.parent_view_id == params.parent_view_id,
        pb.child_views@ == Seq::<ViewNode>::empty(),
{
    let f = m0.folder_of();
    let f2 = m1.folder_of();
    lemma_remove_view_by_id_props(f.views@, params.view_id@);
    assert(f2.views@ == f.views@.push(v));
    let i = choose|i: int|
        0 <= i < f2.views@.len() && #[trigger] f2.views@[i].id@ == params.view_id@ && crate::notification::pb_of(
            pb,
            f2.views@[i],
            visible_children_of(f2.views@, f2.trash@, params.view_id@),
        );
    if i < f.views@.len() {
        assert(f.views@[i].id@ == params.view_id@);
        assert(has_view(f.views@, params.view_id@));
    }
    assert(f2.views@[i] == v);
    assert forall|j: int|
        0 <= j < f2.views@.len() implies #[trigger] f2.views@[j].parent_view_id@
        != params.view_id@ by {
        if j < f.views@.len() {
            assert(f2.views@[j] == f.views@[j]);
        } else {
            assert(f2.views@[j] == v);
        }
    }
    lemma_visible_children_empty(f2.views@, f2.trash@, params.view_id@);
}

/// Law (deduplication): when one trash delivery names only views under one
/// parent view `p` — as when many sibling views are trashed at once — the
/// computed notes carry exactly one child note for `p`: one, not one per
/// sibling.
pub proof fn law_trash_change_dedup(
    notes: Seq<Notification>,
    f: Folder,
    ids: Seq<String>,
    p: Seq<char>,
)
    requires
        trash_change_notes_ok(notes, f, ids),
        f.current_workspace@.len() > 0,
        p != f.current_workspace@,
        has_view(f.views@, p),
        affected_parent(f, ids, p),
        forall|q: Seq<char>| #[trigger] affected_parent(f, ids, q) ==> q == p,
    ensures
        exists|k: int|
            1 <= k < notes.len() && #[trigger] notes[k].topic@ == p && is_child_note(
                notes[k],
                f,
                p,
            ),
        forall|k1: int, k2: int|
            1 <= k1 < notes.len() && 1 <= k2 < notes.len() && notes[k1].topic@ == p
                && notes[k2].topic@ == p ==> k1 == k2,
{
    assert forall|q: Seq<char>| #[trigger] affected_parent(f, ids, q) implies q
        == f.current_workspace@ || has_view(f.views@, q) by {
        assert(q == p);
    }
    let k = choose|k: int| 1 <= k < notes.len() && #[trigger] notes[k].topic@ == p;
    assert(is_child_note(notes[k], f, p));
}

/// Law (reload safety): a create that commits while a reload holds the slot
/// empty fails `NotInitialized` and changes nothing — it can not write into
/// the stale snapshot, which the reload has taken out.
pub proof fn law_create_mid_reload_fails(
    m1: Folder2Manager,
    params: CreateViewParams,
    m2: Folder2Manager,
    r: Result<ViewNode, FolderError>,
)
    requires
        !m1.is_ready(),
        m1.handler_registered(params.layout),
        create_view_post(m1, params, m2, r),
    ensures
        r == Err::<ViewNode, FolderError>(FolderError::NotInitialized),
        m2 == m1,
{
}

/// Law (reload safety): a create that commits after a reload installed the
/// rebuilt snapshot inserts into that snapshot — the one the slot holds at
/// commit time — and into nothing else.
pub proof fn law_create_after_reload(
    reloaded: Folder,
    m1: Folder2Manager,
    params: CreateViewParams,
    m2: Folder2Manager,
    v: ViewNode,
)
    requires
        m1.mutex_folder.folder == Some(reloaded),
        m1.handler_registered(params.layout),
        create_view_post(m1, params, m2, Ok(v)),
    ensures
        m2.folder_of().views@ == remove_view_by_id(reloaded.views@, v.id@).push(v),
        !has_view(reloaded.views@, v.id@) ==> m2.folder_of().views@ == reloaded.views@.push(v),
        m2.folder_of().trash == reloaded.trash,
        m2.folder_of().workspaces == reloaded.workspaces,
{
    lemma_remove_view_by_id_props(reloaded.views@, v.id@);
}

} // verus!
