//! The toolbar above the viewport: which toggles it shows, what they say, and
//! what switching one does.

use vstd::prelude::*;
use crate::rig::{AppMode, BrushKind, MoveMode, RigView, Tool, TransformSpace};
use crate::session::{app_in_mode, AppState, AppView};

verus! {

/// A toggle of the toolbar.
#[derive(Clone, Copy, Debug, PartialEq, Eq, Structural)]
pub enum Toggle {
    Mode,
    EditTool,
    PoseTool,
    Move,
    ShapeTool,
    Space,
}

/// The toolbar shows toggle `t`.
pub open spec fn shows(r: RigView, t: Toggle) -> bool {
    match t {
        Toggle::Mode => true,
        Toggle::EditTool => r.mode == AppMode::Edit,
        Toggle::PoseTool => r.mode == AppMode::Pose,
        Toggle::Move => r.mode == AppMode::Pose && r.tool == Tool::Translate,
        Toggle::ShapeTool => r.mode == AppMode::Shape,
        Toggle::Space => r.mode != AppMode::Shape && (r.tool == Tool::Translate || r.tool
            == Tool::Rotate),
    }
}

/// The options of toggle `t`.
pub open spec fn options_of(t: Toggle) -> Seq<Seq<char>> {
    match t {
        Toggle::Mode => seq!["Edit"@, "Pose"@, "Shape"@],
        Toggle::EditTool => seq!["Select"@, "Move"@, "Rotate"@, "Add"@],
        Toggle::PoseTool => seq!["Select"@, "Move"@, "Rotate"@, "Grab"@],
        Toggle::Move => seq!["FK"@, "IK"@, "Soft"@],
        Toggle::ShapeTool => seq!["Select"@, "Grab"@, "Inflate"@, "Smooth"@],
        Toggle::Space => seq!["Local"@, "World"@],
    }
}

/// The option of toggle `t` that is on.
pub open spec fn option_on(r: RigView, t: Toggle) -> int {
    match t {
        Toggle::Mode => match r.mode {
            AppMode::Edit => 0,
            AppMode::Pose => 1,
            AppMode::Shape => 2,
        },
        Toggle::EditTool => match r.tool {
            Tool::Translate => 1,
            Tool::Rotate => 2,
            Tool::AddBone => 3,
            _ => 0,
        },
        Toggle::PoseTool => match r.tool {
            Tool::Translate => 1,
            Tool::Rotate => 2,
            Tool::SoftGrab => 3,
            _ => 0,
        },
        Toggle::Move => match r.move_mode {
            MoveMode::Fk => 0,
            MoveMode::AutoIk => 1,
            MoveMode::Verlet => 2,
        },
        Toggle::ShapeTool => if r.tool == Tool::Brush {
            match r.brush_kind {
                BrushKind::Grab => 1,
                BrushKind::Inflate => 2,
                BrushKind::Smooth => 3,
            }
        } else {
            0
        },
        Toggle::Space => match r.transform_space {
            TransformSpace::Local => 0,
            TransformSpace::World => 1,
        },
    }
}

/// The mode behind option `i`.
pub open spec fn mode_at(i: int) -> AppMode {
    if i == 0 {
        AppMode::Edit
    } else if i == 2 {
        AppMode::Shape
    } else {
        AppMode::Pose
    }
}

/// The tool behind option `i`, the last option being `extra`.
pub open spec fn tool_at(i: int, extra: Tool) -> Tool {
    if i == 1 {
        Tool::Translate
    } else if i == 2 {
        Tool::Rotate
    } else if i == 3 {
        extra
    } else {
        Tool::Select
    }
}

pub open spec fn move_at(i: int) -> MoveMode {
    if i == 1 {
        MoveMode::AutoIk
    } else if i == 2 {
        MoveMode::Verlet
    } else {
        MoveMode::Fk
    }
}

pub open spec fn move_status(m: MoveMode) -> Seq<char> {
    match m {
        MoveMode::Fk => "Move · FK"@,
        MoveMode::AutoIk => "Move · IK (CCD, short chain)"@,
        MoveMode::Verlet => "Move · Soft (CCD + falloff)"@,
    }
}

pub open spec fn brush_at(i: int, kind: BrushKind) -> BrushKind {
    if i == 1 {
        BrushKind::Grab
    } else if i == 2 {
        BrushKind::Inflate
    } else if i == 3 {
        BrushKind::Smooth
    } else {
        kind
    }
}

/// The session after toggle `t` was switched to option `i`.
pub open spec fn switched(a: AppView, t: Toggle, i: int) -> AppView {
    match t {
        Toggle::Mode => app_in_mode(a, mode_at(i)),
        Toggle::EditTool => AppView {
            rig: RigView { tool: tool_at(i, Tool::AddBone), ..a.rig },
            drag: None,
            ..a
        },
        Toggle::PoseTool => AppView {
            rig: RigView { tool: tool_at(i, Tool::SoftGrab), ..a.rig },
            drag: None,
            status: if i == 3 {
                "Tool: Soft Grab — drag soft joints"@
            } else {
                a.status
            },
            ..a
        },
        Toggle::Move => AppView {
            rig: RigView { move_mode: move_at(i), ..a.rig },
            drag: None,
            status: move_status(move_at(i)),
            ..a
        },
        Toggle::ShapeTool => AppView {
            rig: RigView {
                tool: if 1 <= i <= 3 {
                    Tool::Brush
                } else {
                    Tool::Select
                },
                brush_kind: brush_at(i, a.rig.brush_kind),
                ..a.rig
            },
            drag: None,
            ..a
        },
        Toggle::Space => AppView {
            rig: RigView {
                transform_space: if i == 1 {
                    TransformSpace::World
                } else {
                    TransformSpace::Local
                },
                ..a.rig
            },
            drag: None,
            ..a
        },
    }
}

/// Switching a toggle to one of its options turns that option on, and ends
/// whatever was being dragged.
pub proof fn law_switch_sticks(a: AppView, t: Toggle, i: int)
    requires
        0 <= i < options_of(t).len(),
    ensures
        option_on(switched(a, t, i).rig, t) == i,
        switched(a, t, i).drag is None,
{
}

/// The option that is on is one of those offered, and exactly one tool row is
/// shown in every mode.
pub proof fn law_toggle_in_range(r: RigView, t: Toggle)
    ensures
        0 <= option_on(r, t) < options_of(t).len(),
        shows(r, Toggle::EditTool) || shows(r, Toggle::PoseTool) || shows(r, Toggle::ShapeTool),
        !(shows(r, Toggle::EditTool) && shows(r, Toggle::PoseTool)),
        !(shows(r, Toggle::EditTool) && shows(r, Toggle::ShapeTool)),
        !(shows(r, Toggle::PoseTool) && shows(r, Toggle::ShapeTool)),
{
}

impl Toggle {
    /// The toggles from left to right.
    pub fn all() -> (r: [Toggle; 6])
        ensures
            r@ == seq![
                Toggle::Mode,
                Toggle::EditTool,
                Toggle::PoseTool,
                Toggle::Move,
                Toggle::ShapeTool,
                Toggle::Space,
            ],
    {
        [
            Toggle::Mode,
            Toggle::EditTool,
            Toggle::PoseTool,
            Toggle::Move,
            Toggle::ShapeTool,
            Toggle::Space,
        ]
    }

    /// Name of the widget.
    pub fn id(self) -> (r: &'static str)
        ensures
            r@ == (match self {
                Toggle::Mode => "app_mode"@,
                Toggle::EditTool => "tool_edit"@,
                Toggle::PoseTool => "tool_pose"@,
                Toggle::Move => "move_mode"@,
                Toggle::ShapeTool => "tool_shape"@,
                Toggle::Space => "xform_space"@,
            }),
    {
        match self {
            Toggle::Mode => "app_mode",
            Toggle::EditTool => "tool_edit",
            Toggle::PoseTool => "tool_pose",
            Toggle::Move => "move_mode",
            Toggle::ShapeTool => "tool_shape",
            Toggle::Space => "xform_space",
        }
    }

    /// The options, from left to right.
    pub fn options(self) -> (r: Vec<&'static str>)
        ensures
            r@.len() == options_of(self).len(),
            forall|i: int| 0 <= i < r@.len() ==> (#[trigger] r@[i])@ == options_of(self)[i],
    {
        match self {
            Toggle::Mode => vec!["Edit", "Pose", "Shape"],
            Toggle::EditTool => vec!["Select", "Move", "Rotate", "Add"],
            Toggle::PoseTool => vec!["Select", "Move", "Rotate", "Grab"],
            Toggle::Move => vec!["FK", "IK", "Soft"],
            Toggle::ShapeTool => vec!["Select", "Grab", "Inflate", "Smooth"],
            Toggle::Space => vec!["Local", "World"],
        }
    }
}

impl AppState {
    /// Whether the toolbar shows toggle `t`.
    pub fn toggle_shown(&self, t: Toggle) -> (r: bool)
        ensures
            r == shows(self@.rig, t),
    {
        match t {
            Toggle::Mode => true,
            Toggle::EditTool => self.rig.mode == AppMode::Edit,
            Toggle::PoseTool => self.rig.mode == AppMode::Pose,
            Toggle::Move => self.rig.mode == AppMode::Pose && self.rig.tool == Tool::Translate,
            Toggle::ShapeTool => self.rig.mode == AppMode::Shape,
            Toggle::Space => self.rig.mode != AppMode::Shape && (self.rig.tool == Tool::Translate
                || self.rig.tool == Tool::Rotate),
        }
    }

    /// The option of toggle `t` that is on.
    pub fn toggle_index(&self, t: Toggle) -> (r: usize)
        ensures
            r == option_on(self@.rig, t),
    {
        match t {
            Toggle::Mode => match self.rig.mode {
                AppMode::Edit => 0,
                AppMode::Pose => 1,
                AppMode::Shape => 2,
            },
            Toggle::EditTool => match self.rig.tool {
                Tool::Translate => 1,
                Tool::Rotate => 2,
                Tool::AddBone => 3,
                _ => 0,
            },
            Toggle::PoseTool => match self.rig.tool {
                Tool::Translate => 1,
                Tool::Rotate => 2,
                Tool::SoftGrab => 3,
                _ => 0,
            },
            Toggle::Move => match self.rig.move_mode {
                MoveMode::Fk => 0,
                MoveMode::AutoIk => 1,
                MoveMode::Verlet => 2,
            },
            Toggle::ShapeTool => if self.rig.tool == Tool::Brush {
                match self.rig.brush_kind {
                    BrushKind::Grab => 1,
                    BrushKind::Inflate => 2,
                    BrushKind::Smooth => 3,
                }
            } else {
                0
            },
            Toggle::Space => match self.rig.transform_space {
                TransformSpace::Local => 0,
                TransformSpace::World => 1,
            },
        }
    }

    /// Takes up a tool and a brush, and lets go of what was dragged.
    fn take_up(&mut self, tool: Tool, kind: BrushKind)
        requires
            old(self).wf(),
        ensures
            final(self).wf(),
            final(self)@ == (AppView {
                rig: RigView { tool, brush_kind: kind, ..old(self)@.rig },
                drag: None,
                ..old(self)@
            }),
    {
        self.rig.tool = tool;
        self.rig.brush_kind = kind;
        self.drag = None;
    }

    /// Moves by `mode` from now on.
    fn take_move(&mut self, mode: MoveMode)
        requires
            old(self).wf(),
        ensures
            final(self).wf(),
            final(self)@ == (AppView {
                rig: RigView { move_mode: mode, ..old(self)@.rig },
                drag: None,
                status: move_status(mode),
                ..old(self)@
            }),
    {
        self.rig.move_mode = mode;
        self.drag = None;
        self.status = match mode {
            MoveMode::Fk => "Move · FK".to_owned(),
            MoveMode::AutoIk => "Move · IK (CCD, short chain)".to_owned(),
            MoveMode::Verlet => "Move · Soft (CCD + falloff)".to_owned(),
        };
    }

    /// Switches the mode toggle.
    fn switch_mode(&mut self, i: usize)
        requires
            old(self).wf(),
        ensures
            final(self).wf(),
            final(self)@ == switched(old(self)@, Toggle::Mode, i as int),
    {
        let mode = match i {
            0 => AppMode::Edit,
            2 => AppMode::Shape,
            _ => AppMode::Pose,
        };
        self.set_mode(mode);
    }

    /// Switches the tools of Edit.
    fn switch_edit_tool(&mut self, i: usize)
        requires
            old(self).wf(),
        ensures
            final(self).wf(),
            final(self)@ == switched(old(self)@, Toggle::EditTool, i as int),
    {
        let kind = self.rig.brush_kind;
        self.take_up(tool_of(i, Tool::AddBone), kind);
    }

    /// Switches the tools of Pose.
    fn switch_pose_tool(&mut self, i: usize)
        requires
            old(self).wf(),
        ensures
            final(self).wf(),
            final(self)@ == switched(old(self)@, Toggle::PoseTool, i as int),
    {
        let kind = self.rig.brush_kind;
        self.take_up(tool_of(i, Tool::SoftGrab), kind);
        if i == 3 {
            self.status = "Tool: Soft Grab — drag soft joints".to_owned();
        }
    }

    /// Switches how bones are moved.
    fn switch_move(&mut self, i: usize)
        requires
            old(self).wf(),
        ensures
            final(self).wf(),
            final(self)@ == switched(old(self)@, Toggle::Move, i as int),
    {
        let mode = match i {
            1 => MoveMode::AutoIk,
            2 => MoveMode::Verlet,
            _ => MoveMode::Fk,
        };
        self.take_move(mode);
    }

    /// Switches the tools of Shape.
    fn switch_shape_tool(&mut self, i: usize)
        requires
            old(self).wf(),
        ensures
            final(self).wf(),
            final(self)@ == switched(old(self)@, Toggle::ShapeTool, i as int),
    {
        let kind = self.rig.brush_kind;
        let (tool, brush): (Tool, BrushKind) = match i {
            1 => (Tool::Brush, BrushKind::Grab),
            2 => (Tool::Brush, BrushKind::Inflate),
            3 => (Tool::Brush, BrushKind::Smooth),
            _ => (Tool::Select, kind),
        };
        self.take_up(tool, brush);
    }

    /// Switches the space of the gizmo.
    fn switch_space(&mut self, i: usize)
        requires
            old(self).wf(),
        ensures
            final(self).wf(),
            final(self)@ == switched(old(self)@, Toggle::Space, i as int),
    {
        self.rig.transform_space = match i {
            1 => TransformSpace::World,
            _ => TransformSpace::Local,
        };
        self.drag = None;
    }

    /// Switches toggle `t` to option `i`.
    pub fn toggle_switched(&mut self, t: Toggle, i: usize)
        requires
            old(self).wf(),
        ensures
            final(self).wf(),
            final(self)@ == switched(old(self)@, t, i as int),
    {
        match t {
            Toggle::Mode => self.switch_mode(i),
            Toggle::EditTool => self.switch_edit_tool(i),
            Toggle::PoseTool => self.switch_pose_tool(i),
            Toggle::Move => self.switch_move(i),
            Toggle::ShapeTool => self.switch_shape_tool(i),
            Toggle::Space => self.switch_space(i),
        }
    }
}

/// The tool behind option `i`, the last option being `extra`.
fn tool_of(i: usize, extra: Tool) -> (r: Tool)
    ensures
        r == tool_at(i as int, extra),
{
    match i {
        1 => Tool::Translate,
        2 => Tool::Rotate,
        3 => extra,
        _ => Tool::Select,
    }
}

} // verus!
