//! What the fields in the body of a driver node change.

use vstd::prelude::*;
use crate::bone_list::{
    bone_chosen, bone_from_selection, bone_on_line, bone_rows_view, space_chosen, BoneRow,
};
use crate::bones::BoneId;
use crate::driver::{DriverNode, DriverNodeView};
use crate::geom::{Scalar, Vec2, Vec3};
use crate::kinds::DriverSpace;
use crate::node_body::Field;
use crate::scene::MeshHandle;

verus! {

impl DriverNode {
    /// The node was dragged to `pos`.
    pub fn set_pos(&mut self, pos: Vec2)
        ensures
            final(self)@ == (DriverNodeView { pos, ..old(self)@ }),
    {
        self.pos = pos;
    }

    /// Line `i` of the bone menu was chosen.
    pub fn set_bone(&mut self, bones: &Vec<BoneRow>, i: usize)
        ensures
            final(self)@ == (DriverNodeView {
                bone: bone_on_line(bone_rows_view(bones@), i as int),
                ..old(self)@
            }),
    {
        self.bone = bone_chosen(bones, i);
    }

    /// The button that takes the selected bone: what the status line says.
    pub fn set_bone_from(&mut self, selection: Option<BoneId>) -> (r: &'static str)
        ensures
            final(self)@ == (DriverNodeView {
                bone: if selection is Some {
                    selection
                } else {
                    old(self)@.bone
                },
                ..old(self)@
            }),
            r@ == (if selection is Some {
                "Bone ← selection"@
            } else {
                "Select a bone in the viewport first"@
            }),
    {
        let (bone, status) = bone_from_selection(selection);
        if bone.is_some() {
            self.bone = bone;
        }
        status
    }

    /// Line `i` of the space menu was chosen.
    pub fn set_space(&mut self, i: usize)
        ensures
            final(self)@ == (DriverNodeView {
                space: DriverSpace::order()[if i < 2 {
                    i as int
                } else {
                    2
                }],
                ..old(self)@
            }),
    {
        self.space = space_chosen(i);
    }

    /// The shape key that the node drives becomes `taken`, where there is one.
    pub fn set_morph(&mut self, taken: Option<(MeshHandle, usize)>)
        ensures
            final(self)@ == (match taken {
                Some(key) => DriverNodeView { mesh: Some(key.0), shape: key.1, ..old(self)@ },
                None => old(self)@,
            }),
    {
        if let Some((mesh, shape)) = taken {
            self.mesh = Some(mesh);
            self.shape = shape;
        }
    }

    /// The number of `field` was dragged to `x`.
    pub fn set_number(&mut self, field: Field, x: Scalar)
        ensures
            final(self)@ == (DriverNodeView {
                floats: old(self)@.floats.update(field.slot_of() as int, x),
                ..old(self)@
            }),
    {
        let slot = field.slot();
        self.floats[slot] = x;
    }

    /// The three numbers of a vector or of angles were dragged to `v`.
    pub fn set_triple(&mut self, v: Vec3)
        ensures
            final(self)@ == (DriverNodeView {
                floats: old(self)@.floats.update(0, v.x).update(1, v.y).update(2, v.z),
                ..old(self)@
            }),
    {
        self.floats[0] = v.x;
        self.floats[1] = v.y;
        self.floats[2] = v.z;
    }
}

} // verus!
