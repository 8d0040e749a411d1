use vstd::prelude::*;

verus! {

/// The layout kind of a view. Each kind is served by its own external
/// content handler; the core only dispatches on the kind.
#[derive(Clone, Copy, Debug, PartialEq, Eq, Structural)]
pub enum ViewLayout {
    Document,
    Grid,
    Board,
    Calendar,
}

/// A single document node of the workspace tree.
///
/// `parent_view_id` names either another view or the owning workspace; a view
/// whose parent is a workspace id is a top-level view. The ordered list of a
/// view's children is derived from the snapshot: it is the views whose
/// `parent_view_id` names this view, in snapshot order.
pub struct ViewNode {
    pub id: String,
    pub parent_view_id: String,
    pub name: String,
    pub desc: String,
    pub layout: ViewLayout,
    pub created_at: i64,
}

impl Clone for ViewNode {
    fn clone(&self) -> (r: Self)
        ensures
            r == *self,
    {
        ViewNode {
            id: self.id.clone(),
            parent_view_id: self.parent_view_id.clone(),
            name: self.name.clone(),
            desc: self.desc.clone(),
            layout: self.layout,
            created_at: self.created_at,
        }
    }
}

/// A top-level container owning a set of top-level views.
pub struct Workspace {
    pub id: String,
    pub name: String,
    pub created_at: i64,
}

impl Clone for Workspace {
    fn clone(&self) -> (r: Self)
        ensures
            r == *self,
    {
        Workspace { id: self.id.clone(), name: self.name.clone(), created_at: self.created_at }
    }
}

/// A soft-deletion marker: the view with this id is hidden but not removed.
pub struct TrashRecord {
    pub id: String,
    pub created_at: i64,
}

impl Clone for TrashRecord {
    fn clone(&self) -> (r: Self)
        ensures
            r == *self,
    {
        TrashRecord { id: self.id.clone(), created_at: self.created_at }
    }
}

/// A view annotated with its direct (first-level) children, as handed to
/// observers. Deeper levels are resolved by asking again for a child.
pub struct ViewPB {
    pub id: String,
    pub parent_view_id: String,
    pub name: String,
    pub layout: ViewLayout,
    pub child_views: Vec<ViewNode>,
}

/// The request to create a view. `initial_data` is the caller-supplied
/// content seed; when it is empty the content handler builds its built-in
/// template instead.
pub struct CreateViewParams {
    pub parent_view_id: String,
    pub name: String,
    pub desc: String,
    pub layout: ViewLayout,
    pub initial_data: Vec<u8>,
    pub view_id: String,
    pub set_as_current: bool,
}

/// The request to update a view: only the supplied (`Some`) fields are
/// applied.
pub struct UpdateViewParams {
    pub view_id: String,
    pub name: Option<String>,
    pub desc: Option<String>,
    pub layout: Option<ViewLayout>,
}

/// The request to import external content as a new view. Exactly one of
/// `data` and `file_path` must be supplied.
pub struct ImportParams {
    pub parent_view_id: String,
    pub name: String,
    pub data: Option<Vec<u8>>,
    pub file_path: Option<String>,
    pub view_layout: ViewLayout,
}

/// Builds the view record that `params` describes, stamped with `created_at`.
pub fn create_view(params: CreateViewParams, created_at: i64) -> (r: ViewNode)
    ensures
        r.id == params.view_id,
        r.parent_view_id == params.parent_view_id,
        r.name == params.name,
        r.desc == params.desc,
        r.layout == params.layout,
        r.created_at == created_at,
{
    ViewNode {
        id: params.view_id,
        parent_view_id: params.parent_view_id,
        name: params.name,
        desc: params.desc,
        layout: params.layout,
        created_at,
    }
}

/// Annotates `view` with the given first-level children.
pub fn view_pb_with_child_views(view: ViewNode, child_views: Vec<ViewNode>) -> (r: ViewPB)
    ensures
        r.id == view.id,
        r.parent_view_id == view.parent_view_id,
        r.name == view.name,
        r.layout == view.layout,
        r.child_views == child_views,
{
    ViewPB {
        id: view.id,
        parent_view_id: view.parent_view_id,
        name: view.name,
        layout: view.layout,
        child_views,
    }
}

} // verus!
