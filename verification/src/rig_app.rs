//! The program itself: its title, its menus, and when it keeps drawing.

use vstd::prelude::*;
use crate::rig::{AppMode, RigView};
use crate::rig_pose::shown_as;
use crate::scene::{NodeView, SceneView};
use crate::session::{drivers_on, soft_on, AppState, AppView};
use crate::text::join;

verus! {

pub struct RigApp;

/// Something the "View" menu shows or hides.
#[derive(Clone, Copy, Debug, PartialEq, Eq, Structural)]
pub enum ViewItem {
    Skeleton,
    Mesh,
    Weights,
    Colliders,
}

/// Whether `item` is shown.
pub open spec fn is_shown(r: RigView, item: ViewItem) -> bool {
    match item {
        ViewItem::Skeleton => r.show_skeleton,
        ViewItem::Mesh => r.show_mesh,
        ViewItem::Weights => r.show_weights,
        ViewItem::Colliders => r.show_colliders,
    }
}

/// What the menu says about `item`.
pub open spec fn view_label(item: ViewItem, shown: bool) -> Seq<char> {
    match item {
        ViewItem::Skeleton => if shown {
            "Hide Skeleton"@
        } else {
            "Show Skeleton"@
        },
        ViewItem::Mesh => if shown {
            "Hide Mesh"@
        } else {
            "Show Mesh"@
        },
        ViewItem::Weights => if shown {
            "Hide Weights"@
        } else {
            "Show Weights"@
        },
        ViewItem::Colliders => if shown {
            "Hide Colliders"@
        } else {
            "Show Colliders"@
        },
    }
}

/// The session after `item` was shown or hidden: meshes follow at once, and the
/// weights are to be made anew.
pub open spec fn view_switched(a: AppView, item: ViewItem) -> AppView {
    match item {
        ViewItem::Skeleton => AppView {
            rig: RigView { show_skeleton: !a.rig.show_skeleton, ..a.rig },
            ..a
        },
        ViewItem::Mesh => AppView {
            rig: RigView { show_mesh: !a.rig.show_mesh, ..a.rig },
            scene: SceneView {
                nodes: a.scene.nodes.map_values(
                    |n: NodeView| shown_as(n, !a.rig.show_mesh),
                ),
                ..a.scene
            },
            ..a
        },
        ViewItem::Weights => AppView {
            rig: RigView { show_weights: !a.rig.show_weights, overlay_dirty: true, ..a.rig },
            ..a
        },
        ViewItem::Colliders => AppView {
            rig: RigView { show_colliders: !a.rig.show_colliders, ..a.rig },
            ..a
        },
    }
}

/// Switching something twice shows it as before.
pub proof fn law_view_toggles(a: AppView, item: ViewItem)
    ensures
        is_shown(view_switched(a, item).rig, item) == !is_shown(a.rig, item),
        is_shown(view_switched(view_switched(a, item), item).rig, item) == is_shown(a.rig, item),
{
}

impl RigApp {
    pub fn title() -> (r: &'static str)
        ensures
            r@ == "model-rig"@,
    {
        "model-rig"
    }

    /// Whether frames must keep coming.
    pub fn update(state: &AppState) -> (r: bool)
        ensures
            r == (state@.drag is Some || (state@.rig.mode == AppMode::Pose && (soft_on(state@.rig)
                || drivers_on(state@.rig) || state@.editing_driver is Some))),
    {
        state.update()
    }

    /// Whether the widgets keep the program drawing: while the inspector, if it
    /// is open, has a bone, while dragging, and while a driver is edited.
    pub fn keep_drawing(state: &AppState, inspector_open: bool) -> (r: bool)
        ensures
            r == ((inspector_open && state@.edit_bone is Some) || state@.drag is Some
                || state@.editing_driver is Some),
    {
        (inspector_open && state.edit_bone.is_some()) || state.has_drag()
            || state.editing_driver.is_some()
    }
}

impl AppState {
    /// What the "View" menu says about `item`.
    pub fn view_item_label(&self, item: ViewItem) -> (r: &'static str)
        ensures
            r@ == view_label(item, is_shown(self@.rig, item)),
    {
        match item {
            ViewItem::Skeleton => if self.rig.show_skeleton {
                "Hide Skeleton"
            } else {
                "Show Skeleton"
            },
            ViewItem::Mesh => if self.rig.show_mesh {
                "Hide Mesh"
            } else {
                "Show Mesh"
            },
            ViewItem::Weights => if self.rig.show_weights {
                "Hide Weights"
            } else {
                "Show Weights"
            },
            ViewItem::Colliders => if self.rig.show_colliders {
                "Hide Colliders"
            } else {
                "Show Colliders"
            },
        }
    }

    fn switch_mesh(&mut self)
        requires
            old(self).wf(),
        ensures
            final(self).wf(),
            final(self)@ == view_switched(old(self)@, ViewItem::Mesh),
    {
        self.rig.show_mesh = !self.rig.show_mesh;
        self.rig.apply_mesh_visibility(&mut self.scene);
    }

    /// Shows or hides `item`.
    pub fn view_item_clicked(&mut self, item: ViewItem)
        requires
            old(self).wf(),
        ensures
            final(self).wf(),
            final(self)@ == view_switched(old(self)@, item),
    {
        match item {
            ViewItem::Skeleton => {
                self.rig.show_skeleton = !self.rig.show_skeleton;
            },
            ViewItem::Mesh => {
                self.switch_mesh();
            },
            ViewItem::Weights => {
                self.rig.show_weights = !self.rig.show_weights;
                self.rig.invalidate_weight_overlay();
            },
            ViewItem::Colliders => {
                self.rig.show_colliders = !self.rig.show_colliders;
            },
        }
    }

    /// The host switched skinning to the mode it calls `label`.
    pub fn skinning_switched(&mut self, label: &str, dual_quat: bool)
        requires
            old(self).wf(),
        ensures
            final(self).wf(),
            final(self)@ == (AppView {
                rig: RigView { overlay_dirty: true, ..old(self)@.rig },
                status: "Skinning: "@ + label@ + " ("@ + (if dual_quat {
                    "dual quaternion"@
                } else {
                    "matrix blend"@
                }) + ")"@,
                ..old(self)@
            }),
    {
        self.rig.invalidate_weight_overlay();
        let how = if dual_quat {
            "dual quaternion"
        } else {
            "matrix blend"
        };
        let a = join(&join("Skinning: ", label), " (");
        self.status = join(&join(&a, how), ")");
    }
}

} // verus!
