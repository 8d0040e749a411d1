use vstd::prelude::*;

use crate::entities::TrashRecord;
use crate::entities::ViewNode;
use crate::entities::Workspace;

verus! {

// ---------------------------------------------------------------------------
// The mathematical model of a loaded tree snapshot: sequences of workspaces,
// views and trash records, queried and transformed by the spec functions
// below. Ids are character sequences, the views of the `String` ids.
// ---------------------------------------------------------------------------

/// Does the id list contain `id`?
pub open spec fn id_in(ids: Seq<String>, id: Seq<char>) -> bool {
    exists|i: int| 0 <= i < ids.len() && ids[i]@ == id
}

/// Is there a view with this id?
pub open spec fn has_view(views: Seq<ViewNode>, id: Seq<char>) -> bool {
    exists|i: int| 0 <= i < views.len() && views[i].id@ == id
}

/// Is there a workspace with this id?
pub open spec fn has_workspace(workspaces: Seq<Workspace>, id: Seq<char>) -> bool {
    exists|i: int| 0 <= i < workspaces.len() && workspaces[i].id@ == id
}

/// Is the view with this id marked as deleted?
pub open spec fn trashed(trash: Seq<TrashRecord>, id: Seq<char>) -> bool {
    exists|i: int| 0 <= i < trash.len() && trash[i].id@ == id
}

/// The ordered children of `parent`: the views whose parent field names it,
/// in snapshot order.
pub open spec fn children_of(views: Seq<ViewNode>, parent: Seq<char>) -> Seq<ViewNode>
    decreases views.len(),
{
    if views.len() == 0 {
        Seq::empty()
    } else {
        let rest = children_of(views.drop_last(), parent);
        if views.last().parent_view_id@ == parent {
            rest.push(views.last())
        } else {
            rest
        }
    }
}

/// The ordered children of `parent` that are not in trash: what observers of
/// the tree are shown.
pub open spec fn visible_children_of(
    views: Seq<ViewNode>,
    trash: Seq<TrashRecord>,
    parent: Seq<char>,
) -> Seq<ViewNode>
    decreases views.len(),
{
    if views.len() == 0 {
        Seq::empty()
    } else {
        let rest = visible_children_of(views.drop_last(), trash, parent);
        if views.last().parent_view_id@ == parent && !trashed(trash, views.last().id@) {
            rest.push(views.last())
        } else {
            rest
        }
    }
}

/// The views left after removing every view whose id is in `ids`.
pub open spec fn remove_views(views: Seq<ViewNode>, ids: Seq<String>) -> Seq<ViewNode>
    decreases views.len(),
{
    if views.len() == 0 {
        Seq::empty()
    } else {
        let rest = remove_views(views.drop_last(), ids);
        if id_in(ids, views.last().id@) {
            rest
        } else {
            rest.push(views.last())
        }
    }
}

/// The views left after removing every view with the given id.
pub open spec fn remove_view_by_id(views: Seq<ViewNode>, id: Seq<char>) -> Seq<ViewNode>
    decreases views.len(),
{
    if views.len() == 0 {
        Seq::empty()
    } else {
        let rest = remove_view_by_id(views.drop_last(), id);
        if views.last().id@ == id {
            rest
        } else {
            rest.push(views.last())
        }
    }
}

/// The trash records left after removing every record whose id is in `ids`.
pub open spec fn remove_trash(trash: Seq<TrashRecord>, ids: Seq<String>) -> Seq<TrashRecord>
    decreases trash.len(),
{
    if trash.len() == 0 {
        Seq::empty()
    } else {
        let rest = remove_trash(trash.drop_last(), ids);
        if id_in(ids, trash.last().id@) {
            rest
        } else {
            rest.push(trash.last())
        }
    }
}

/// The trash records left after removing every record with the given id.
pub open spec fn remove_trash_by_id(trash: Seq<TrashRecord>, id: Seq<char>) -> Seq<TrashRecord>
    decreases trash.len(),
{
    if trash.len() == 0 {
        Seq::empty()
    } else {
        let rest = remove_trash_by_id(trash.drop_last(), id);
        if trash.last().id@ == id {
            rest
        } else {
            rest.push(trash.last())
        }
    }
}

/// The workspaces left after removing every workspace with the given id.
pub open spec fn remove_workspace_by_id(workspaces: Seq<Workspace>, id: Seq<char>) -> Seq<Workspace>
    decreases workspaces.len(),
{
    if workspaces.len() == 0 {
        Seq::empty()
    } else {
        let rest = remove_workspace_by_id(workspaces.drop_last(), id);
        if workspaces.last().id@ == id {
            rest
        } else {
            rest.push(workspaces.last())
        }
    }
}

/// The ids of a trash list, as id values.
pub open spec fn trash_record_ids(trash: Seq<TrashRecord>) -> Seq<String> {
    trash.map_values(|t: TrashRecord| t.id)
}

/// Reordering a sequence: the element at `from` is taken out and reinserted
/// so that it stands at index `to`.
pub open spec fn move_elem<A>(s: Seq<A>, from: int, to: int) -> Seq<A> {
    s.remove(from).insert(to, s[from])
}

/// No two views share an id.
pub open spec fn unique_view_ids(views: Seq<ViewNode>) -> bool {
    forall|i: int, j: int|
        0 <= i < j < views.len() ==> views[i].id@ != views[j].id@
}

/// No two workspaces share an id.
pub open spec fn unique_workspace_ids(workspaces: Seq<Workspace>) -> bool {
    forall|i: int, j: int|
        0 <= i < j < workspaces.len() ==> workspaces[i].id@ != workspaces[j].id@
}

/// No two trash records share an id.
pub open spec fn unique_trash_ids(trash: Seq<TrashRecord>) -> bool {
    forall|i: int, j: int|
        0 <= i < j < trash.len() ==> trash[i].id@ != trash[j].id@
}

// ---------------------------------------------------------------------------
// Executable queries shared by the accessors.
// ---------------------------------------------------------------------------

/// Does the id list contain `id`?
pub fn contains_id(ids: &Vec<String>, id: &String) -> (r: bool)
    ensures
        r == id_in(ids@, id@),
{
    let mut i: usize = 0;
    while i < ids.len()
        invariant
            i <= ids.len(),
            forall|j: int| 0 <= j < i ==> ids@[j]@ != id@,
        decreases ids.len() - i,
    {
        if ids[i] == *id {
            return true;
        }
        i = i + 1;
    }
    false
}

/// Is `id` marked as deleted in `trash`?
pub fn trash_contains(trash: &Vec<TrashRecord>, id: &String) -> (r: bool)
    ensures
        r == trashed(trash@, id@),
{
    let mut i: usize = 0;
    while i < trash.len()
        invariant
            i <= trash.len(),
            forall|j: int| 0 <= j < i ==> trash@[j].id@ != id@,
        decreases trash.len() - i,
    {
        if trash[i].id == *id {
            return true;
        }
        i = i + 1;
    }
    false
}

// ---------------------------------------------------------------------------
// The loaded tree snapshot.
// ---------------------------------------------------------------------------

/// The in-memory representation of the collaborative tree: workspaces, views,
/// trash records and the two selection pointers. An empty `current_view`
/// means that no view is selected; `current_workspace` names the workspace
/// that is open.
///
/// The snapshot is created whole — on `initialize` or when a reload rebuilds
/// it — and mutated only through the accessors below, which keep `wf`.
pub struct Folder {
    pub workspaces: Vec<Workspace>,
    pub views: Vec<ViewNode>,
    pub trash: Vec<TrashRecord>,
    pub current_workspace: String,
    pub current_view: String,
}

impl Folder {
    /// Well-formedness: ids are unique within each record kind.
    pub open spec fn wf(self) -> bool {
        unique_view_ids(self.views@) && unique_workspace_ids(self.workspaces@)
            && unique_trash_ids(self.trash@)
    }

    /// A fresh snapshot holding one workspace, opened, with no views, no
    /// trash and no selected view.
    pub fn new(workspace: Workspace) -> (r: Folder)
        ensures
            r.wf(),
            r.workspaces@.len() == 1 && r.workspaces@[0] == workspace,
            r.views@ == Seq::<ViewNode>::empty(),
            r.trash@ == Seq::<TrashRecord>::empty(),
            r.current_workspace@ == workspace.id@,
            r.current_view@ == Seq::<char>::empty(),
    {
        let current_workspace = workspace.id.clone();
        let mut workspaces: Vec<Workspace> = Vec::new();
        workspaces.push(workspace);
        Folder {
            workspaces,
            views: Vec::new(),
            trash: Vec::new(),
            current_workspace,
            current_view: String::new(),
        }
    }

    /// Looks a workspace up by id.
    pub fn get_workspace(&self, workspace_id: &String) -> (r: Option<Workspace>)
        ensures
            match r {
                Some(w) => self.workspaces@.contains(w) && w.id@ == workspace_id@,
                None => !has_workspace(self.workspaces@, workspace_id@),
            },
    {
        let mut i: usize = 0;
        while i < self.workspaces.len()
            invariant
                i <= self.workspaces.len(),
                forall|j: int| 0 <= j < i ==> self.workspaces@[j].id@ != workspace_id@,
            decreases self.workspaces.len() - i,
        {
            if self.workspaces[i].id == *workspace_id {
                let w = self.workspaces[i].clone();
                proof {
                    assert(self.workspaces@.contains(w)) by {
                        assert(self.workspaces@[i as int] == w);
                    }
                }
                return Some(w);
            }
            i = i + 1;
        }
        None
    }

    /// All workspaces, in order.
    pub fn get_all_workspaces(&self) -> (r: Vec<Workspace>)
        ensures
            r@ == self.workspaces@,
    {
        let mut r: Vec<Workspace> = Vec::new();
        let mut i: usize = 0;
        while i < self.workspaces.len()
            invariant
                i <= self.workspaces.len(),
                r@ == self.workspaces@.take(i as int),
            decreases self.workspaces.len() - i,
        {
            r.push(self.workspaces[i].clone());
            proof {
                assert(r@ =~= self.workspaces@.take(i + 1 as int));
            }
            i = i + 1;
        }
        proof {
            assert(self.workspaces@.take(self.workspaces@.len() as int) =~= self.workspaces@);
        }
        r
    }

    /// The id of the open workspace, or `None` when none is open.
    pub fn get_current_workspace_id(&self) -> (r: Option<String>)
        ensures
            match r {
                Some(id) => id@ == self.current_workspace@ && self.current_workspace@.len() > 0,
                None => self.current_workspace@.len() == 0,
            },
    {
        let empty = String::new();
        if self.current_workspace == empty {
            None
        } else {
            proof {
                if self.current_workspace@.len() == 0 {
                    assert(self.current_workspace@ =~= empty@);
                }
            }
            Some(self.current_workspace.clone())
        }
    }

    /// The open workspace, if its id names one.
    pub fn get_current_workspace(&self) -> (r: Option<Workspace>)
        ensures
            match r {
                Some(w) => self.workspaces@.contains(w) && w.id@ == self.current_workspace@,
                None => !has_workspace(self.workspaces@, self.current_workspace@),
            },
    {
        self.get_workspace(&self.current_workspace)
    }

    /// Looks a view up by id, trashed or not.
    pub fn get_view(&self, view_id: &String) -> (r: Option<ViewNode>)
        ensures
            match r {
                Some(v) => self.views@.contains(v) && v.id@ == view_id@,
                None => !has_view(self.views@, view_id@),
            },
    {
        let mut i: usize = 0;
        while i < self.views.len()
            invariant
                i <= self.views.len(),
                forall|j: int| 0 <= j < i ==> self.views@[j].id@ != view_id@,
            decreases self.views.len() - i,
        {
            if self.views[i].id == *view_id {
                let v = self.views[i].clone();
                proof {
                    assert(self.views@.contains(v)) by {
                        assert(self.views@[i as int] == v);
                    }
                }
                return Some(v);
            }
            i = i + 1;
        }
        None
    }

    /// The ordered children of `parent_view_id`, trash included.
    pub fn get_views_belong_to(&self, parent_view_id: &String) -> (r: Vec<ViewNode>)
        ensures
            r@ == children_of(self.views@, parent_view_id@),
    {
        let mut r: Vec<ViewNode> = Vec::new();
        let mut i: usize = 0;
        while i < self.views.len()
            invariant
                i <= self.views.len(),
                r@ == children_of(self.views@.take(i as int), parent_view_id@),
            decreases self.views.len() - i,
        {
            proof {
                assert(self.views@.take(i + 1 as int).drop_last() =~= self.views@.take(i as int));
            }
            if self.views[i].parent_view_id == *parent_view_id {
                r.push(self.views[i].clone());
            }
            i = i + 1;
        }
        proof {
            assert(self.views@.take(self.views@.len() as int) =~= self.views@);
        }
        r
    }

    /// The ordered children of `parent_view_id` that are not in trash.
    pub fn get_visible_children(&self, parent_view_id: &String) -> (r: Vec<ViewNode>)
        ensures
            r@ == visible_children_of(self.views@, self.trash@, parent_view_id@),
    {
        let mut r: Vec<ViewNode> = Vec::new();
        let mut i: usize = 0;
        while i < self.views.len()
            invariant
                i <= self.views.len(),
                r@ == visible_children_of(self.views@.take(i as int), self.trash@, parent_view_id@),
            decreases self.views.len() - i,
        {
            proof {
                assert(self.views@.take(i + 1 as int).drop_last() =~= self.views@.take(i as int));
            }
            if self.views[i].parent_view_id == *parent_view_id
                && !trash_contains(&self.trash, &self.views[i].id) {
                r.push(self.views[i].clone());
            }
            i = i + 1;
        }
        proof {
            assert(self.views@.take(self.views@.len() as int) =~= self.views@);
        }
        r
    }

    /// Looks up each id of `ids` and collects the views that exist.
    pub fn get_views(&self, ids: &Vec<String>) -> (r: Vec<ViewNode>)
        ensures
            forall|k: int|
                0 <= k < r@.len() ==> self.views@.contains(#[trigger] r@[k]) && id_in(
                    ids@,
                    r@[k].id@,
                ),
            forall|j: int|
                0 <= j < ids@.len() && has_view(self.views@, ids@[j]@) ==> exists|k: int|
                    0 <= k < r@.len() && #[trigger] r@[k].id@ == ids@[j]@,
    {
        let mut r: Vec<ViewNode> = Vec::new();
        let mut i: usize = 0;
        while i < ids.len()
            invariant
                i <= ids.len(),
                forall|k: int|
                    0 <= k < r@.len() ==> self.views@.contains(#[trigger] r@[k]) && id_in(
                        ids@,
                        r@[k].id@,
                    ),
                forall|j: int|
                    0 <= j < i && has_view(self.views@, ids@[j]@) ==> exists|k: int|
                        0 <= k < r@.len() && #[trigger] r@[k].id@ == ids@[j]@,
            decreases ids.len() - i,
        {
            let ghost r_old = r@;
            match self.get_view(&ids[i]) {
                Some(v) => {
                    proof {
                        assert(id_in(ids@, v.id@)) by {
                            assert(ids@[i as int]@ == v.id@);
                        }
                    }
                    r.push(v);
                    proof {
                        assert forall|j: int|
                            0 <= j < i + 1 && has_view(self.views@, ids@[j]@) implies exists|
                            k: int,
                        |
                            0 <= k < r@.len() && #[trigger] r@[k].id@ == ids@[j]@ by {
                            if j == i {
                                assert(r@[r@.len() - 1].id@ == ids@[j]@);
                            } else {
                                let k0 = choose|k: int|
                                    0 <= k < r_old.len() && #[trigger] r_old[k].id@ == ids@[j]@;
                                assert(r@[k0].id@ == ids@[j]@);
                            }
                        }
                    }
                },
                None => {},
            }
            i = i + 1;
        }
        r
    }

    /// All trash records, in order.
    pub fn get_all_trash(&self) -> (r: Vec<TrashRecord>)
        ensures
            r@ == self.trash@,
    {
        let mut r: Vec<TrashRecord> = Vec::new();
        let mut i: usize = 0;
        while i < self.trash.len()
            invariant
                i <= self.trash.len(),
                r@ == self.trash@.take(i as int),
            decreases self.trash.len() - i,
        {
            r.push(self.trash[i].clone());
            proof {
                assert(r@ =~= self.trash@.take(i + 1 as int));
            }
            i = i + 1;
        }
        proof {
            assert(self.trash@.take(self.trash@.len() as int) =~= self.trash@);
        }
        r
    }

    /// The id of the selected view, or `None` when the selection is clear.
    pub fn get_current_view(&self) -> (r: Option<String>)
        ensures
            match r {
                Some(id) => id@ == self.current_view@ && self.current_view@.len() > 0,
                None => self.current_view@.len() == 0,
            },
    {
        let empty = String::new();
        if self.current_view == empty {
            None
        } else {
            proof {
                if self.current_view@.len() == 0 {
                    assert(self.current_view@ =~= empty@);
                }
            }
            Some(self.current_view.clone())
        }
    }
}

} // verus!

use crate::entities::UpdateViewParams;

verus! {

// ---------------------------------------------------------------------------
// Lemmas about the model: how membership and uniqueness behave under push
// and under the removal functions.
// ---------------------------------------------------------------------------

/// Membership in a view sequence extended by one element.
pub proof fn lemma_has_view_push(s: Seq<ViewNode>, v: ViewNode, id: Seq<char>)
    ensures
        has_view(s.push(v), id) == (has_view(s, id) || v.id@ == id),
{
    if has_view(s.push(v), id) {
        let i = choose|i: int| 0 <= i < s.push(v).len() && s.push(v)[i].id@ == id;
        if i < s.len() {
            assert(s[i].id@ == id);
        }
    }
    if has_view(s, id) {
        let i = choose|i: int| 0 <= i < s.len() && s[i].id@ == id;
        assert(s.push(v)[i].id@ == id);
    }
    if v.id@ == id {
        assert(s.push(v)[s.len() as int].id@ == id);
    }
}

/// Uniqueness of view ids survives appending a view with a fresh id.
pub proof fn lemma_unique_view_push(s: Seq<ViewNode>, v: ViewNode)
    requires
        unique_view_ids(s),
        !has_view(s, v.id@),
    ensures
        unique_view_ids(s.push(v)),
{
    let t = s.push(v);
    assert forall|i: int, j: int| 0 <= i < j < t.len() implies t[i].id@ != t[j].id@ by {
        if j < s.len() {
            assert(s[i].id@ != s[j].id@);
        } else {
            if t[i].id@ == v.id@ {
                assert(s[i].id@ == v.id@);
            }
        }
    }
}

/// What `remove_view_by_id` leaves behind: the id is gone, every other id is
/// untouched, uniqueness survives, and removing an absent id changes nothing.
pub proof fn lemma_remove_view_by_id_props(views: Seq<ViewNode>, id: Seq<char>)
    ensures
        !has_view(remove_view_by_id(views, id), id),
        unique_view_ids(views) ==> unique_view_ids(remove_view_by_id(views, id)),
        forall|id2: Seq<char>|
            id2 != id ==> has_view(remove_view_by_id(views, id), id2) == has_view(views, id2),
        !has_view(views, id) ==> remove_view_by_id(views, id) == views,
    decreases views.len(),
{
    let r = remove_view_by_id(views, id);
    if views.len() == 0 {
        assert(r =~= views);
        assert forall|id2: Seq<char>| id2 != id implies has_view(r, id2) == has_view(views, id2)
        by {}
    } else {
        let prefix = views.drop_last();
        let last = views.last();
        lemma_remove_view_by_id_props(prefix, id);
        let rp = remove_view_by_id(prefix, id);
        assert(views =~= prefix.push(last));
        assert forall|id2: Seq<char>| true implies has_view(views, id2) == (has_view(prefix, id2)
            || last.id@ == id2) by {
            lemma_has_view_push(prefix, last, id2);
        }
        if last.id@ == id {
            // r == rp: the last element is dropped.
            assert(!has_view(r, id));
            if !has_view(views, id) {
                assert(has_view(views, id)) by {
                    assert(views[views.len() - 1].id@ == id);
                }
            }
        } else {
            assert(r == rp.push(last));
            assert forall|id2: Seq<char>| true implies has_view(r, id2) == (has_view(rp, id2)
                || last.id@ == id2) by {
                lemma_has_view_push(rp, last, id2);
            }
            if unique_view_ids(views) {
                assert(unique_view_ids(prefix));
                assert(!has_view(prefix, last.id@)) by {
                    if has_view(prefix, last.id@) {
                        let i = choose|i: int|
                            0 <= i < prefix.len() && prefix[i].id@ == last.id@;
                        assert(views[i].id@ == views[views.len() - 1].id@);
                    }
                }
                assert(!has_view(rp, last.id@));
                lemma_unique_view_push(rp, last);
            }
            if !has_view(views, id) {
                assert(!has_view(prefix, id));
                assert(rp == prefix);
                assert(r =~= views);
            }
        }
    }
}

/// What `remove_views` leaves behind: every listed id is gone, every other id
/// is untouched, uniqueness survives, and removing nothing changes nothing.
pub proof fn lemma_remove_views_props(views: Seq<ViewNode>, ids: Seq<String>)
    ensures
        unique_view_ids(views) ==> unique_view_ids(remove_views(views, ids)),
        forall|id: Seq<char>| id_in(ids, id) ==> !has_view(remove_views(views, ids), id),
        forall|id: Seq<char>|
            !id_in(ids, id) ==> has_view(remove_views(views, ids), id) == has_view(views, id),
        (forall|i: int| 0 <= i < views.len() ==> !id_in(ids, #[trigger] views[i].id@))
            ==> remove_views(views, ids) == views,
    decreases views.len(),
{
    let r = remove_views(views, ids);
    if views.len() == 0 {
        assert(r =~= views);
    } else {
        let prefix = views.drop_last();
        let last = views.last();
        lemma_remove_views_props(prefix, ids);
        let rp = remove_views(prefix, ids);
        assert(views =~= prefix.push(last));
        assert forall|id2: Seq<char>| true implies has_view(views, id2) == (has_view(prefix, id2)
            || last.id@ == id2) by {
            lemma_has_view_push(prefix, last, id2);
        }
        if id_in(ids, last.id@) {
            assert(r == rp);
            assert forall|id: Seq<char>| id_in(ids, id) implies !has_view(r, id) by {}
        } else {
            assert(r == rp.push(last));
            assert forall|id2: Seq<char>| true implies has_view(r, id2) == (has_view(rp, id2)
                || last.id@ == id2) by {
                lemma_has_view_push(rp, last, id2);
            }
            if unique_view_ids(views) {
                assert(unique_view_ids(prefix));
                assert(!has_view(prefix, last.id@)) by {
                    if has_view(prefix, last.id@) {
                        let i = choose|i: int|
                            0 <= i < prefix.len() && prefix[i].id@ == last.id@;
                        assert(views[i].id@ == views[views.len() - 1].id@);
                    }
                }
                assert(!has_view(rp, last.id@));
                lemma_unique_view_push(rp, last);
            }
            if forall|i: int| 0 <= i < views.len() ==> !id_in(ids, #[trigger] views[i].id@) {
                assert forall|i: int| 0 <= i < prefix.len() implies !id_in(
                    ids,
                    #[trigger] prefix[i].id@,
                ) by {
                    assert(views[i].id@ == prefix[i].id@);
                }
                assert(rp == prefix);
                assert(r =~= views);
            }
        }
    }
}

/// Membership in a trash sequence extended by one record.
pub proof fn lemma_trashed_push(s: Seq<TrashRecord>, t: TrashRecord, id: Seq<char>)
    ensures
        trashed(s.push(t), id) == (trashed(s, id) || t.id@ == id),
{
    if trashed(s.push(t), id) {
        let i = choose|i: int| 0 <= i < s.push(t).len() && s.push(t)[i].id@ == id;
        if i < s.len() {
            assert(s[i].id@ == id);
        }
    }
    if trashed(s, id) {
        let i = choose|i: int| 0 <= i < s.len() && s[i].id@ == id;
        assert(s.push(t)[i].id@ == id);
    }
    if t.id@ == id {
        assert(s.push(t)[s.len() as int].id@ == id);
    }
}

/// Uniqueness of trash ids survives appending a record with a fresh id.
pub proof fn lemma_unique_trash_push(s: Seq<TrashRecord>, t: TrashRecord)
    requires
        unique_trash_ids(s),
        !trashed(s, t.id@),
    ensures
        unique_trash_ids(s.push(t)),
{
    let u = s.push(t);
    assert forall|i: int, j: int| 0 <= i < j < u.len() implies u[i].id@ != u[j].id@ by {
        if j < s.len() {
            assert(s[i].id@ != s[j].id@);
        } else {
            if u[i].id@ == t.id@ {
                assert(s[i].id@ == t.id@);
            }
        }
    }
}

/// What `remove_trash` leaves behind.
pub proof fn lemma_remove_trash_props(trash: Seq<TrashRecord>, ids: Seq<String>)
    ensures
        unique_trash_ids(trash) ==> unique_trash_ids(remove_trash(trash, ids)),
        forall|id: Seq<char>| id_in(ids, id) ==> !trashed(remove_trash(trash, ids), id),
        forall|id: Seq<char>|
            !id_in(ids, id) ==> trashed(remove_trash(trash, ids), id) == trashed(trash, id),
        (forall|i: int| 0 <= i < trash.len() ==> !id_in(ids, #[trigger] trash[i].id@))
            ==> remove_trash(trash, ids) == trash,
    decreases trash.len(),
{
    let r = remove_trash(trash, ids);
    if trash.len() == 0 {
        assert(r =~= trash);
    } else {
        let prefix = trash.drop_last();
        let last = trash.last();
        lemma_remove_trash_props(prefix, ids);
        let rp = remove_trash(prefix, ids);
        assert(trash =~= prefix.push(last));
        assert forall|id2: Seq<char>| true implies trashed(trash, id2) == (trashed(prefix, id2)
            || last.id@ == id2) by {
            lemma_trashed_push(prefix, last, id2);
        }
        if id_in(ids, last.id@) {
            assert(r == rp);
        } else {
            assert(r == rp.push(last));
            assert forall|id2: Seq<char>| true implies trashed(r, id2) == (trashed(rp, id2)
                || last.id@ == id2) by {
                lemma_trashed_push(rp, last, id2);
            }
            if unique_trash_ids(trash) {
                assert(unique_trash_ids(prefix));
                assert(!trashed(prefix, last.id@)) by {
                    if trashed(prefix, last.id@) {
                        let i = choose|i: int|
                            0 <= i < prefix.len() && prefix[i].id@ == last.id@;
                        assert(trash[i].id@ == trash[trash.len() - 1].id@);
                    }
                }
                assert(!trashed(rp, last.id@));
                lemma_unique_trash_push(rp, last);
            }
            if forall|i: int| 0 <= i < trash.len() ==> !id_in(ids, #[trigger] trash[i].id@) {
                assert forall|i: int| 0 <= i < prefix.len() implies !id_in(
                    ids,
                    #[trigger] prefix[i].id@,
                ) by {
                    assert(trash[i].id@ == prefix[i].id@);
                }
                assert(rp == prefix);
                assert(r =~= trash);
            }
        }
    }
}

/// Membership in a workspace sequence extended by one element.
pub proof fn lemma_has_workspace_push(s: Seq<Workspace>, w: Workspace, id: Seq<char>)
    ensures
        has_workspace(s.push(w), id) == (has_workspace(s, id) || w.id@ == id),
{
    if has_workspace(s.push(w), id) {
        let i = choose|i: int| 0 <= i < s.push(w).len() && s.push(w)[i].id@ == id;
        if i < s.len() {
            assert(s[i].id@ == id);
        }
    }
    if has_workspace(s, id) {
        let i = choose|i: int| 0 <= i < s.len() && s[i].id@ == id;
        assert(s.push(w)[i].id@ == id);
    }
    if w.id@ == id {
        assert(s.push(w)[s.len() as int].id@ == id);
    }
}

/// Uniqueness of workspace ids survives appending one with a fresh id.
pub proof fn lemma_unique_workspace_push(s: Seq<Workspace>, w: Workspace)
    requires
        unique_workspace_ids(s),
        !has_workspace(s, w.id@),
    ensures
        unique_workspace_ids(s.push(w)),
{
    let u = s.push(w);
    assert forall|i: int, j: int| 0 <= i < j < u.len() implies u[i].id@ != u[j].id@ by {
        if j < s.len() {
            assert(s[i].id@ != s[j].id@);
        } else {
            if u[i].id@ == w.id@ {
                assert(s[i].id@ == w.id@);
            }
        }
    }
}

/// What `remove_workspace_by_id` leaves behind.
pub proof fn lemma_remove_workspace_by_id_props(workspaces: Seq<Workspace>, id: Seq<char>)
    ensures
        !has_workspace(remove_workspace_by_id(workspaces, id), id),
        unique_workspace_ids(workspaces) ==> unique_workspace_ids(
            remove_workspace_by_id(workspaces, id),
        ),
        forall|id2: Seq<char>|
            id2 != id ==> has_workspace(remove_workspace_by_id(workspaces, id), id2)
                == has_workspace(workspaces, id2),
        !has_workspace(workspaces, id) ==> remove_workspace_by_id(workspaces, id) == workspaces,
    decreases workspaces.len(),
{
    let r = remove_workspace_by_id(workspaces, id);
    if workspaces.len() == 0 {
        assert(r =~= workspaces);
    } else {
        let prefix = workspaces.drop_last();
        let last = workspaces.last();
        lemma_remove_workspace_by_id_props(prefix, id);
        let rp = remove_workspace_by_id(prefix, id);
        assert(workspaces =~= prefix.push(last));
        assert forall|id2: Seq<char>| true implies has_workspace(workspaces, id2) == (
        has_workspace(prefix, id2) || last.id@ == id2) by {
            lemma_has_workspace_push(prefix, last, id2);
        }
        if last.id@ == id {
            assert(!has_workspace(r, id));
            if !has_workspace(workspaces, id) {
                assert(has_workspace(workspaces, id)) by {
                    assert(workspaces[workspaces.len() - 1].id@ == id);
                }
            }
        } else {
            assert(r == rp.push(last));
            assert forall|id2: Seq<char>| true implies has_workspace(r, id2) == (has_workspace(
                rp,
                id2,
            ) || last.id@ == id2) by {
                lemma_has_workspace_push(rp, last, id2);
            }
            if unique_workspace_ids(workspaces) {
                assert(unique_workspace_ids(prefix));
                assert(!has_workspace(prefix, last.id@)) by {
                    if has_workspace(prefix, last.id@) {
                        let i = choose|i: int|
                            0 <= i < prefix.len() && prefix[i].id@ == last.id@;
                        assert(workspaces[i].id@ == workspaces[workspaces.len() - 1].id@);
                    }
                }
                assert(!has_workspace(rp, last.id@));
                lemma_unique_workspace_push(rp, last);
            }
            if !has_workspace(workspaces, id) {
                assert(!has_workspace(prefix, id));
                assert(rp == prefix);
                assert(r =~= workspaces);
            }
        }
    }
}

} // verus!

verus! {

// ---------------------------------------------------------------------------
// Structural mutations. Each one states exactly how the new snapshot relates
// to the old one and preserves well-formedness.
// ---------------------------------------------------------------------------

impl Folder {
    /// Inserts `view` into the tree. A view that already carries the same id
    /// is replaced, so ids stay unique.
    pub fn insert_view(&mut self, view: ViewNode)
        requires
            old(self).wf(),
        ensures
            final(self).wf(),
            final(self).views@ == remove_view_by_id(old(self).views@, view.id@).push(view),
            !has_view(old(self).views@, view.id@) ==> final(self).views@ == old(
                self,
            ).views@.push(view),
            final(self).workspaces == old(self).workspaces,
            final(self).trash == old(self).trash,
            final(self).current_workspace == old(self).current_workspace,
            final(self).current_view == old(self).current_view,
    {
        let mut kept: Vec<ViewNode> = Vec::new();
        let mut i: usize = 0;
        while i < self.views.len()
            invariant
                i <= self.views.len(),
                kept@ == remove_view_by_id(self.views@.take(i as int), view.id@),
            decreases self.views.len() - i,
        {
            proof {
                assert(self.views@.take(i + 1 as int).drop_last() =~= self.views@.take(i as int));
            }
            if self.views[i].id == view.id {
            } else {
                kept.push(self.views[i].clone());
            }
            i = i + 1;
        }
        proof {
            assert(self.views@.take(self.views@.len() as int) =~= self.views@);
            lemma_remove_view_by_id_props(self.views@, view.id@);
        }
        proof {
            lemma_unique_view_push(remove_view_by_id(self.views@, view.id@), view);
            if !has_view(self.views@, view.id@) {
                assert(remove_view_by_id(self.views@, view.id@) == self.views@);
            }
        }
        kept.push(view);
        self.views = kept;
    }

    /// Physically removes every view whose id is listed.
    pub fn delete_views(&mut self, ids: &Vec<String>)
        requires
            old(self).wf(),
        ensures
            final(self).wf(),
            final(self).views@ == remove_views(old(self).views@, ids@),
            final(self).workspaces == old(self).workspaces,
            final(self).trash == old(self).trash,
            final(self).current_workspace == old(self).current_workspace,
            final(self).current_view == old(self).current_view,
    {
        let mut kept: Vec<ViewNode> = Vec::new();
        let mut i: usize = 0;
        while i < self.views.len()
            invariant
                i <= self.views.len(),
                kept@ == remove_views(self.views@.take(i as int), ids@),
            decreases self.views.len() - i,
        {
            proof {
                assert(self.views@.take(i + 1 as int).drop_last() =~= self.views@.take(i as int));
            }
            if contains_id(ids, &self.views[i].id) {
            } else {
                kept.push(self.views[i].clone());
            }
            i = i + 1;
        }
        proof {
            assert(self.views@.take(self.views@.len() as int) =~= self.views@);
            lemma_remove_views_props(self.views@, ids@);
        }
        self.views = kept;
    }

    /// Applies the supplied fields of `params` to the view they name.
    /// Returns the updated view, or `None` (and changes nothing) when the id
    /// is unknown.
    pub fn update_view(&mut self, params: &UpdateViewParams) -> (r: Option<ViewNode>)
        requires
            old(self).wf(),
        ensures
            final(self).wf(),
            final(self).workspaces == old(self).workspaces,
            final(self).trash == old(self).trash,
            final(self).current_workspace == old(self).current_workspace,
            final(self).current_view == old(self).current_view,
            match r {
                Some(v) => {
                    &&& exists|i: int|
                        0 <= i < old(self).views@.len() && old(self).views@[i].id@
                            == params.view_id@ && v == apply_update(old(self).views@[i], *params)
                            && final(self).views@ == old(self).views@.update(i, v)
                },
                None => !has_view(old(self).views@, params.view_id@) && *final(self) == *old(self),
            },
    {
        let mut i: usize = 0;
        while i < self.views.len()
            invariant
                i <= self.views.len(),
                old(self).wf(),
                *self == *old(self),
                forall|j: int| 0 <= j < i ==> self.views@[j].id@ != params.view_id@,
            decreases self.views.len() - i,
        {
            if self.views[i].id == params.view_id {
                let v = &self.views[i];
                let updated = ViewNode {
                    id: v.id.clone(),
                    parent_view_id: v.parent_view_id.clone(),
                    name: match &params.name {
                        Some(n) => n.clone(),
                        None => v.name.clone(),
                    },
                    desc: match &params.desc {
                        Some(d) => d.clone(),
                        None => v.desc.clone(),
                    },
                    layout: match params.layout {
                        Some(l) => l,
                        None => v.layout,
                    },
                    created_at: v.created_at,
                };
                proof {
                    assert(updated == apply_update(self.views@[i as int], *params));
                }
                let ghost old_views = self.views@;
                let result = updated.clone();
                self.views[i] = updated;
                proof {
                    assert(unique_view_ids(self.views@)) by {
                        assert forall|a: int, b: int|
                            0 <= a < b < self.views@.len() implies self.views@[a].id@
                            != self.views@[b].id@ by {
                            assert(old_views[a].id@ != old_views[b].id@);
                            assert(self.views@[a].id@ == old_views[a].id@);
                            assert(self.views@[b].id@ == old_views[b].id@);
                        }
                    }
                }
                return Some(result);
            }
            i = i + 1;
        }
        None
    }

    /// Adds a trash record, hiding the view it names. A second record for the
    /// same id is not added.
    pub fn add_trash(&mut self, record: TrashRecord)
        requires
            old(self).wf(),
        ensures
            final(self).wf(),
            trashed(old(self).trash@, record.id@) ==> *final(self) == *old(self),
            !trashed(old(self).trash@, record.id@) ==> final(self).trash@ == old(
                self,
            ).trash@.push(record),
            final(self).workspaces == old(self).workspaces,
            final(self).views == old(self).views,
            final(self).current_workspace == old(self).current_workspace,
            final(self).current_view == old(self).current_view,
    {
        if trash_contains(&self.trash, &record.id) {
            return ;
        }
        proof {
            lemma_unique_trash_push(self.trash@, record);
        }
        self.trash.push(record);
    }

    /// Removes the trash records whose ids are listed. The views themselves
    /// stay: restoring from trash is exactly this.
    pub fn delete_trash(&mut self, ids: &Vec<String>)
        requires
            old(self).wf(),
        ensures
            final(self).wf(),
            final(self).trash@ == remove_trash(old(self).trash@, ids@),
            final(self).workspaces == old(self).workspaces,
            final(self).views == old(self).views,
            final(self).current_workspace == old(self).current_workspace,
            final(self).current_view == old(self).current_view,
    {
        let mut kept: Vec<TrashRecord> = Vec::new();
        let mut i: usize = 0;
        while i < self.trash.len()
            invariant
                i <= self.trash.len(),
                kept@ == remove_trash(self.trash@.take(i as int), ids@),
            decreases self.trash.len() - i,
        {
            proof {
                assert(self.trash@.take(i + 1 as int).drop_last() =~= self.trash@.take(i as int));
            }
            if contains_id(ids, &self.trash[i].id) {
            } else {
                kept.push(self.trash[i].clone());
            }
            i = i + 1;
        }
        proof {
            assert(self.trash@.take(self.trash@.len() as int) =~= self.trash@);
            lemma_remove_trash_props(self.trash@, ids@);
        }
        self.trash = kept;
    }

    /// Empties the trash. The views themselves stay.
    pub fn clear_trash(&mut self)
        requires
            old(self).wf(),
        ensures
            final(self).wf(),
            final(self).trash@ == Seq::<TrashRecord>::empty(),
            final(self).workspaces == old(self).workspaces,
            final(self).views == old(self).views,
            final(self).current_workspace == old(self).current_workspace,
            final(self).current_view == old(self).current_view,
    {
        self.trash.clear();
    }

    /// Adds a workspace. A workspace that already carries the same id is
    /// replaced, so ids stay unique.
    pub fn create_workspace(&mut self, workspace: Workspace)
        requires
            old(self).wf(),
        ensures
            final(self).wf(),
            final(self).workspaces@ == remove_workspace_by_id(
                old(self).workspaces@,
                workspace.id@,
            ).push(workspace),
            !has_workspace(old(self).workspaces@, workspace.id@) ==> final(self).workspaces@
                == old(self).workspaces@.push(workspace),
            final(self).views == old(self).views,
            final(self).trash == old(self).trash,
            final(self).current_workspace == old(self).current_workspace,
            final(self).current_view == old(self).current_view,
    {
        let mut kept: Vec<Workspace> = Vec::new();
        let mut i: usize = 0;
        while i < self.workspaces.len()
            invariant
                i <= self.workspaces.len(),
                kept@ == remove_workspace_by_id(self.workspaces@.take(i as int), workspace.id@),
            decreases self.workspaces.len() - i,
        {
            proof {
                assert(self.workspaces@.take(i + 1 as int).drop_last() =~= self.workspaces@.take(
                    i as int,
                ));
            }
            if self.workspaces[i].id == workspace.id {
            } else {
                kept.push(self.workspaces[i].clone());
            }
            i = i + 1;
        }
        proof {
            assert(self.workspaces@.take(self.workspaces@.len() as int) =~= self.workspaces@);
            lemma_remove_workspace_by_id_props(self.workspaces@, workspace.id@);
            lemma_unique_workspace_push(
                remove_workspace_by_id(self.workspaces@, workspace.id@),
                workspace,
            );
            if !has_workspace(self.workspaces@, workspace.id@) {
                assert(remove_workspace_by_id(self.workspaces@, workspace.id@)
                    == self.workspaces@);
            }
        }
        kept.push(workspace);
        self.workspaces = kept;
    }

    /// Marks the workspace with this id as the open one.
    pub fn set_current_workspace(&mut self, workspace_id: &String)
        ensures
            final(self).current_workspace@ == workspace_id@,
            final(self).workspaces == old(self).workspaces,
            final(self).views == old(self).views,
            final(self).trash == old(self).trash,
            final(self).current_view == old(self).current_view,
            old(self).wf() ==> final(self).wf(),
    {
        self.current_workspace = workspace_id.clone();
    }

    /// Selects the view with this id; an empty id clears the selection.
    pub fn set_current_view(&mut self, view_id: &String)
        ensures
            final(self).current_view@ == view_id@,
            final(self).workspaces == old(self).workspaces,
            final(self).views == old(self).views,
            final(self).trash == old(self).trash,
            final(self).current_workspace == old(self).current_workspace,
            old(self).wf() ==> final(self).wf(),
    {
        self.current_view = view_id.clone();
    }
}

/// The view as it stands after an update request: each supplied field is
/// taken from the request, the rest keep their value.
pub open spec fn apply_update(v: ViewNode, params: UpdateViewParams) -> ViewNode {
    ViewNode {
        id: v.id,
        parent_view_id: v.parent_view_id,
        name: match params.name {
            Some(n) => n,
            None => v.name,
        },
        desc: match params.desc {
            Some(d) => d,
            None => v.desc,
        },
        layout: match params.layout {
            Some(l) => l,
            None => v.layout,
        },
        created_at: v.created_at,
    }
}

} // verus!

verus! {

/// Removing one listed id is removing that id.
pub proof fn lemma_remove_trash_singleton(trash: Seq<TrashRecord>, ids: Seq<String>)
    requires
        ids.len() == 1,
    ensures
        remove_trash(trash, ids) == remove_trash_by_id(trash, ids[0]@),
    decreases trash.len(),
{
    if trash.len() == 0 {
        assert(remove_trash(trash, ids) =~= remove_trash_by_id(trash, ids[0]@));
    } else {
        lemma_remove_trash_singleton(trash.drop_last(), ids);
        assert(id_in(ids, trash.last().id@) == (trash.last().id@ == ids[0]@)) by {
            if id_in(ids, trash.last().id@) {
                let i = choose|i: int| 0 <= i < ids.len() && ids[i]@ == trash.last().id@;
            }
        }
    }
}

/// Removing one listed id is removing that id.
pub proof fn lemma_remove_views_singleton(views: Seq<ViewNode>, ids: Seq<String>)
    requires
        ids.len() == 1,
    ensures
        remove_views(views, ids) == remove_view_by_id(views, ids[0]@),
    decreases views.len(),
{
    if views.len() == 0 {
        assert(remove_views(views, ids) =~= remove_view_by_id(views, ids[0]@));
    } else {
        lemma_remove_views_singleton(views.drop_last(), ids);
        assert(id_in(ids, views.last().id@) == (views.last().id@ == ids[0]@)) by {
            if id_in(ids, views.last().id@) {
                let i = choose|i: int| 0 <= i < ids.len() && ids[i]@ == views.last().id@;
            }
        }
    }
}

} // verus!

verus! {

/// The views that are not children of `parent`, in order.
pub open spec fn non_children_of(views: Seq<ViewNode>, parent: Seq<char>) -> Seq<ViewNode>
    decreases views.len(),
{
    if views.len() == 0 {
        Seq::empty()
    } else {
        let rest = non_children_of(views.drop_last(), parent);
        if views.last().parent_view_id@ == parent {
            rest
        } else {
            rest.push(views.last())
        }
    }
}

/// Children distribute over concatenation.
pub proof fn lemma_children_of_concat(a: Seq<ViewNode>, b: Seq<ViewNode>, p: Seq<char>)
    ensures
        children_of(a + b, p) == children_of(a, p) + children_of(b, p),
    decreases b.len(),
{
    if b.len() == 0 {
        assert(a + b =~= a);
        assert(children_of(a, p) + children_of(b, p) =~= children_of(a, p));
    } else {
        lemma_children_of_concat(a, b.drop_last(), p);
        assert((a + b).drop_last() =~= a + b.drop_last());
        assert((a + b).last() == b.last());
        if b.last().parent_view_id@ == p {
            assert(children_of(a, p) + children_of(b, p) =~= (children_of(a, p) + children_of(
                b.drop_last(),
                p,
            )).push(b.last()));
        }
    }
}

/// A sequence of views that all name `p` as parent is its own child list.
pub proof fn lemma_children_of_all_parent(c: Seq<ViewNode>, p: Seq<char>)
    requires
        forall|k: int| 0 <= k < c.len() ==> #[trigger] c[k].parent_view_id@ == p,
    ensures
        children_of(c, p) == c,
    decreases c.len(),
{
    if c.len() == 0 {
        assert(children_of(c, p) =~= c);
    } else {
        assert forall|k: int|
            0 <= k < c.drop_last().len() implies #[trigger] c.drop_last()[k].parent_view_id@
            == p by {
            assert(c[k].parent_view_id@ == p);
        }
        lemma_children_of_all_parent(c.drop_last(), p);
        assert(c[c.len() - 1].parent_view_id@ == p);
        assert(children_of(c, p) =~= c);
    }
}

/// A sequence of views none of which names `q` as parent has no children of
/// `q`.
pub proof fn lemma_children_of_none(c: Seq<ViewNode>, q: Seq<char>)
    requires
        forall|k: int| 0 <= k < c.len() ==> #[trigger] c[k].parent_view_id@ != q,
    ensures
        children_of(c, q) == Seq::<ViewNode>::empty(),
    decreases c.len(),
{
    if c.len() == 0 {
        assert(children_of(c, q) =~= Seq::<ViewNode>::empty());
    } else {
        assert forall|k: int|
            0 <= k < c.drop_last().len() implies #[trigger] c.drop_last()[k].parent_view_id@
            != q by {
            assert(c[k].parent_view_id@ != q);
        }
        lemma_children_of_none(c.drop_last(), q);
        assert(c[c.len() - 1].parent_view_id@ != q);
    }
}

/// Every child of `p` names `p`; every view is a child or a non-child; the
/// two parts inherit uniqueness from the whole and share no id; and together
/// they hold every view.
pub proof fn lemma_children_split(s: Seq<ViewNode>, p: Seq<char>)
    ensures
        forall|k: int|
            0 <= k < children_of(s, p).len() ==> #[trigger] children_of(s, p)[k].parent_view_id@
                == p,
        forall|k: int|
            0 <= k < non_children_of(s, p).len() ==> #[trigger] non_children_of(s, p)[
            k
            ].parent_view_id@ != p,
        children_of(s, p).len() + non_children_of(s, p).len() == s.len(),
        forall|id: Seq<char>|
            #[trigger] has_view(children_of(s, p), id) ==> has_view(s, id),
        forall|id: Seq<char>|
            #[trigger] has_view(non_children_of(s, p), id) ==> has_view(s, id),
        unique_view_ids(s) ==> unique_view_ids(children_of(s, p)) && unique_view_ids(
            non_children_of(s, p),
        ) && (forall|id: Seq<char>|
            !(#[trigger] has_view(children_of(s, p), id) && has_view(non_children_of(s, p), id))),
        forall|q: Seq<char>|
            q != p ==> #[trigger] children_of(non_children_of(s, p), q) == children_of(s, q),
    decreases s.len(),
{
    if s.len() == 0 {
        assert forall|q: Seq<char>| q != p implies #[trigger] children_of(non_children_of(s, p), q)
            == children_of(s, q) by {
            assert(non_children_of(s, p) =~= s);
        }
    } else {
        let prefix = s.drop_last();
        let last = s.last();
        lemma_children_split(prefix, p);
        let cp = children_of(prefix, p);
        let np = non_children_of(prefix, p);
        let c = children_of(s, p);
        let n = non_children_of(s, p);
        assert(s =~= prefix.push(last));
        assert forall|id: Seq<char>| true implies has_view(s, id) == (has_view(prefix, id)
            || last.id@ == id) by {
            lemma_has_view_push(prefix, last, id);
        }
        if unique_view_ids(s) {
            assert(unique_view_ids(prefix));
            assert(!has_view(prefix, last.id@)) by {
                if has_view(prefix, last.id@) {
                    let i = choose|i: int| 0 <= i < prefix.len() && prefix[i].id@ == last.id@;
                    assert(s[i].id@ == s[s.len() - 1].id@);
                }
            }
        }
        if last.parent_view_id@ == p {
            assert(c == cp.push(last));
            assert(n == np);
            assert forall|id: Seq<char>| true implies has_view(c, id) == (has_view(cp, id)
                || last.id@ == id) by {
                lemma_has_view_push(cp, last, id);
            }
            if unique_view_ids(s) {
                assert(!has_view(cp, last.id@));
                lemma_unique_view_push(cp, last);
            }
        } else {
            assert(n == np.push(last));
            assert(c == cp);
            assert forall|id: Seq<char>| true implies has_view(n, id) == (has_view(np, id)
                || last.id@ == id) by {
                lemma_has_view_push(np, last, id);
            }
            if unique_view_ids(s) {
                assert(!has_view(np, last.id@));
                lemma_unique_view_push(np, last);
            }
        }
        assert forall|q: Seq<char>| q != p implies #[trigger] children_of(non_children_of(s, p), q)
            == children_of(s, q) by {
            if last.parent_view_id@ == p {
                assert(children_of(non_children_of(s, p), q) == children_of(prefix, q));
                assert(children_of(s, q) == children_of(prefix, q));
            } else {
                assert(non_children_of(s, p) == np.push(last));
                assert(np.push(last).drop_last() =~= np);
                assert(children_of(np.push(last), q) == if last.parent_view_id@ == q {
                    children_of(np, q).push(last)
                } else {
                    children_of(np, q)
                });
                assert(children_of(s, q) == if last.parent_view_id@ == q {
                    children_of(prefix, q).push(last)
                } else {
                    children_of(prefix, q)
                });
            }
        }
    }
}

/// Two id-unique view lists that share no id concatenate to an id-unique
/// list.
pub proof fn lemma_unique_concat(a: Seq<ViewNode>, b: Seq<ViewNode>)
    requires
        unique_view_ids(a),
        unique_view_ids(b),
        forall|id: Seq<char>| !(#[trigger] has_view(a, id) && has_view(b, id)),
    ensures
        unique_view_ids(a + b),
{
    let t = a + b;
    assert forall|i: int, j: int| 0 <= i < j < t.len() implies t[i].id@ != t[j].id@ by {
        if j < a.len() {
            assert(t[i] == a[i] && t[j] == a[j]);
        } else if i >= a.len() {
            assert(t[i] == b[i - a.len()] && t[j] == b[j - a.len()]);
        } else {
            assert(t[i] == a[i] && t[j] == b[j - a.len()]);
            if t[i].id@ == t[j].id@ {
                assert(has_view(a, t[i].id@)) by {
                    assert(a[i].id@ == t[i].id@);
                }
                assert(has_view(b, t[i].id@)) by {
                    assert(b[j - a.len()].id@ == t[i].id@);
                }
            }
        }
    }
}

/// Reordering one element keeps the values: every slot of the result is a
/// slot of the source, ids stay unique, and the same ids are present.
pub proof fn lemma_move_elem_ids(c: Seq<ViewNode>, from: int, to: int)
    requires
        0 <= from < c.len(),
        0 <= to < c.len(),
    ensures
        move_elem(c, from, to).len() == c.len(),
        forall|k: int|
            0 <= k < c.len() ==> exists|j: int|
                0 <= j < c.len() && #[trigger] move_elem(c, from, to)[k] == c[j],
        unique_view_ids(c) ==> unique_view_ids(move_elem(c, from, to)),
        forall|id: Seq<char>|
            #[trigger] has_view(move_elem(c, from, to), id) == has_view(c, id),
{
    let c1 = c.remove(from);
    let m = c1.insert(to, c[from]);
    assert(m.len() == c.len());
    let src = |k: int|
        if k == to {
            from
        } else {
            let k1: int = if k < to {
                k
            } else {
                k - 1
            };
            if k1 < from {
                k1
            } else {
                k1 + 1
            }
        };
    assert forall|k: int| 0 <= k < c.len() implies m[k] == c[src(k)] && 0 <= src(k) < c.len() by {}
    assert forall|k: int| 0 <= k < c.len() implies exists|j: int|
        0 <= j < c.len() && #[trigger] m[k] == c[j] by {
        assert(m[k] == c[src(k)]);
    }
    if unique_view_ids(c) {
        assert forall|i: int, j: int| 0 <= i < j < m.len() implies m[i].id@ != m[j].id@ by {
            assert(m[i] == c[src(i)]);
            assert(m[j] == c[src(j)]);
            if src(i) < src(j) {
                assert(c[src(i)].id@ != c[src(j)].id@);
            } else if src(j) < src(i) {
                assert(c[src(j)].id@ != c[src(i)].id@);
            }
        }
    }
    assert forall|id: Seq<char>| true implies #[trigger] has_view(m, id) == has_view(c, id) by {
        if has_view(m, id) {
            let k = choose|k: int| 0 <= k < m.len() && m[k].id@ == id;
            assert(c[src(k)].id@ == id);
        }
        if has_view(c, id) {
            let j = choose|j: int| 0 <= j < c.len() && c[j].id@ == id;
            let k: int = if j == from {
                to
            } else {
                let j1: int = if j < from {
                    j
                } else {
                    j - 1
                };
                if j1 < to {
                    j1
                } else {
                    j1 + 1
                }
            };
            assert(m[k] == c[j]);
        }
    }
}

impl Folder {
    /// Moves the view with this id among its siblings: the child that stands
    /// at index `from` under the view's parent is reinserted at index `to`.
    /// An unknown id is a silent no-op (`None`) — a view vanishing between
    /// scheduling and execution is an expected race, not an error. Indices
    /// outside the sibling list leave the tree as it is. Children of every
    /// other parent are untouched.
    pub fn move_view(&mut self, view_id: &String, from: usize, to: usize) -> (r: Option<ViewNode>)
        requires
            old(self).wf(),
        ensures
            final(self).wf(),
            final(self).workspaces == old(self).workspaces,
            final(self).trash == old(self).trash,
            final(self).current_workspace == old(self).current_workspace,
            final(self).current_view == old(self).current_view,
            match r {
                None => !has_view(old(self).views@, view_id@) && *final(self) == *old(self),
                Some(v) => {
                    &&& old(self).views@.contains(v)
                    &&& v.id@ == view_id@
                    &&& final(self).views@.len() == old(self).views@.len()
                    &&& forall|q: Seq<char>|
                        q != v.parent_view_id@ ==> #[trigger] children_of(final(self).views@, q)
                            == children_of(old(self).views@, q)
                    &&& ({
                        let c = children_of(old(self).views@, v.parent_view_id@);
                        &&& ((from as int) < c.len() && (to as int) < c.len() ==> children_of(
                            final(self).views@,
                            v.parent_view_id@,
                        ) == move_elem(c, from as int, to as int))
                        &&& (!((from as int) < c.len() && (to as int) < c.len())
                            ==> final(self).views@ == old(self).views@)
                    })
                    &&& forall|id: Seq<char>|
                        #[trigger] has_view(final(self).views@, id) == has_view(
                            old(self).views@,
                            id,
                        )
                },
            },
    {
        let target = match self.get_view(view_id) {
            None => {
                return None;
            },
            Some(v) => v,
        };
        let parent = target.parent_view_id.clone();
        let mut c = self.get_views_belong_to(&parent);
        if from >= c.len() || to >= c.len() {
            return Some(target);
        }
        let ghost c0 = c@;
        let moved = c.remove(from);
        c.insert(to, moved);
        proof {
            assert(c@ == move_elem(c0, from as int, to as int));
            lemma_children_split(self.views@, parent@);
            lemma_move_elem_ids(c0, from as int, to as int);
        }
        let mut new_views: Vec<ViewNode> = Vec::new();
        let mut i: usize = 0;
        while i < self.views.len()
            invariant
                i <= self.views.len(),
                parent@ == target.parent_view_id@,
                new_views@ == non_children_of(self.views@.take(i as int), parent@),
            decreases self.views.len() - i,
        {
            proof {
                assert(self.views@.take(i + 1 as int).drop_last() =~= self.views@.take(i as int));
            }
            if self.views[i].parent_view_id == parent {
            } else {
                new_views.push(self.views[i].clone());
            }
            i = i + 1;
        }
        proof {
            assert(self.views@.take(self.views@.len() as int) =~= self.views@);
        }
        let ghost nc = new_views@;
        let ghost s0 = self.views@;
        new_views.append(&mut c);
        proof {
            let p = parent@;
            let cmoved = move_elem(c0, from as int, to as int);
            assert(new_views@ == nc + cmoved);
            // every element of the reordered child list still names `p`
            assert forall|k: int|
                0 <= k < cmoved.len() implies #[trigger] cmoved[k].parent_view_id@ == p by {
                let j = choose|j: int| 0 <= j < c0.len() && #[trigger] cmoved[k] == c0[j];
                assert(c0[j].parent_view_id@ == p);
            }
            lemma_children_of_all_parent(cmoved, p);
            lemma_children_of_concat(nc, cmoved, p);
            lemma_children_of_none(nc, p);
            assert(children_of(new_views@, p) =~= cmoved);
            // children of any other parent are exactly those of the old tree
            assert forall|q: Seq<char>| q != p implies #[trigger] children_of(new_views@, q)
                == children_of(s0, q) by {
                lemma_children_of_concat(nc, cmoved, q);
                lemma_children_of_none(cmoved, q);
                assert(children_of(new_views@, q) =~= children_of(nc, q));
            }
            // uniqueness and id preservation
            assert forall|id: Seq<char>| true implies #[trigger] has_view(cmoved, id) == has_view(
                c0,
                id,
            ) by {}
            assert forall|id: Seq<char>| !(#[trigger] has_view(nc, id) && has_view(cmoved, id))
                by {
                if has_view(nc, id) && has_view(cmoved, id) {
                    assert(has_view(c0, id));
                }
            }
            lemma_unique_concat(nc, cmoved);
            assert forall|id: Seq<char>| true implies #[trigger] has_view(new_views@, id)
                == has_view(s0, id) by {
                if has_view(new_views@, id) {
                    let k = choose|k: int| 0 <= k < new_views@.len() && new_views@[k].id@ == id;
                    if k < nc.len() {
                        assert(has_view(nc, id)) by {
                            assert(nc[k].id@ == id);
                        }
                    } else {
                        assert(has_view(cmoved, id)) by {
                            assert(cmoved[k - nc.len()].id@ == id);
                        }
                        assert(has_view(c0, id));
                    }
                }
                if has_view(s0, id) {
                    if has_view(nc, id) {
                        let k = choose|k: int| 0 <= k < nc.len() && nc[k].id@ == id;
                        assert(new_views@[k].id@ == id);
                    } else {
                        // the id sits among the children, hence in the moved list
                        let j = choose|j: int| 0 <= j < s0.len() && s0[j].id@ == id;
                        if s0[j].parent_view_id@ == p {
                            assert(has_view(c0, s0[j].id@)) by {
                                lemma_children_membership(s0, p, j);
                            }
                            assert(has_view(cmoved, id));
                            let k = choose|k: int|
                                0 <= k < cmoved.len() && cmoved[k].id@ == id;
                            assert(new_views@[nc.len() + k].id@ == id);
                        } else {
                            assert(has_view(nc, s0[j].id@)) by {
                                lemma_non_children_membership(s0, p, j);
                            }
                        }
                    }
                }
            }
        }
        self.views = new_views;
        Some(target)
    }
}

/// A view that names `p` stands in the child list of `p`.
pub proof fn lemma_children_membership(s: Seq<ViewNode>, p: Seq<char>, j: int)
    requires
        0 <= j < s.len(),
        s[j].parent_view_id@ == p,
    ensures
        has_view(children_of(s, p), s[j].id@),
    decreases s.len(),
{
    let c = children_of(s, p);
    if j == s.len() - 1 {
        assert(c[c.len() - 1].id@ == s[j].id@);
    } else {
        lemma_children_membership(s.drop_last(), p, j);
        let cp = children_of(s.drop_last(), p);
        let k = choose|k: int| 0 <= k < cp.len() && cp[k].id@ == s.drop_last()[j].id@;
        if s.last().parent_view_id@ == p {
            assert(c[k].id@ == s[j].id@);
        } else {
            assert(c[k].id@ == s[j].id@);
        }
    }
}

/// A view that does not name `p` stands in the non-child list of `p`.
pub proof fn lemma_non_children_membership(s: Seq<ViewNode>, p: Seq<char>, j: int)
    requires
        0 <= j < s.len(),
        s[j].parent_view_id@ != p,
    ensures
        has_view(non_children_of(s, p), s[j].id@),
    decreases s.len(),
{
    let n = non_children_of(s, p);
    if j == s.len() - 1 {
        assert(n[n.len() - 1].id@ == s[j].id@);
    } else {
        lemma_non_children_membership(s.drop_last(), p, j);
        let np = non_children_of(s.drop_last(), p);
        let k = choose|k: int| 0 <= k < np.len() && np[k].id@ == s.drop_last()[j].id@;
        if s.last().parent_view_id@ == p {
            assert(n[k].id@ == s[j].id@);
        } else {
            assert(n[k].id@ == s[j].id@);
        }
    }
}

} // verus!
