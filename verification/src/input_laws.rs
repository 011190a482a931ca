//! What keys and buttons do.

use vstd::prelude::*;
use crate::frame::{
    blank_input, button_moved, camera_at_rest, control, key_done, key_hit, mouse_moved, moved_wheel,
    settled, shortcut_named, snapped, starved, tool_frame, turned, typed, Button, EditKey, EditKeys,
    HostView, Hotkey, InputView, KeyReply, MouseKey, OrbitState, PointerPlace, Projection,
};
use crate::geom::Scalar;
use crate::lists::lemma_filter_contains;
use crate::rig::{AppMode, Tool};
use crate::session::{app_in_mode, AppView};
use crate::text::lowercase;

verus! {

/// Going down is seen as a press and going up as a release, each only where the
/// button was not so already; the state is what was told.
pub proof fn law_button(b: Button, down: bool)
    ensures
        button_moved(b, down).down == down,
        !b.pressed ==> (button_moved(b, down).pressed <==> down && !b.down),
        !b.released ==> (button_moved(b, down).released <==> !down && b.down),
        b.pressed ==> button_moved(b, down).pressed,
        b.released ==> button_moved(b, down).released,
{
}

/// `key` is held in `k`.
pub open spec fn key_in(k: EditKeys, key: EditKey) -> bool {
    match key {
        EditKey::Backspace => k.backspace,
        EditKey::Enter => k.enter,
        EditKey::Left => k.left,
        EditKey::Right => k.right,
        EditKey::Up => k.up,
        EditKey::Down => k.down,
        EditKey::Home => k.home,
        EditKey::End => k.end,
        EditKey::Copy => k.copy,
        EditKey::Paste => k.paste,
        EditKey::Cut => k.cut,
        EditKey::SelectAll => k.select_all,
    }
}

/// Hitting an edit key marks that key, and leaves the others as they were.
pub proof fn law_key_hit(k: EditKeys, key: EditKey, other: EditKey)
    ensures
        key_in(key_hit(k, key), key),
        other != key ==> key_in(key_hit(k, key), other) == key_in(k, other),
{
}

/// What a frame leaves for the next: where the pointer is and what is held, and
/// none of what happened.
pub proof fn law_settled(i: InputView, key: EditKey)
    ensures
        ({
            let o = settled(i);
            &&& o.left.down == i.left.down && o.right.down == i.right.down && o.middle.down == i.middle.down
            &&& !o.left.pressed && !o.left.released && !o.right.pressed && !o.right.released
            &&& !o.middle.pressed && !o.middle.released
            &&& o.mouse_pos == i.mouse_pos && o.ctrl == i.ctrl && o.shift == i.shift && o.super_key == i.super_key
            &&& o.text.len() == 0 && o.clipboard_paste.len() == 0 && !key_in(o.keys, key)
            &&& o.scroll_delta.x.bits == 0 && o.scroll_delta.y.bits == 0
        }),
{
}

/// Input that the widgets do not get has neither button nor wheel, and all else.
pub proof fn law_starved(i: InputView)
    ensures
        ({
            let o = starved(i);
            &&& !o.left.down && !o.left.pressed && !o.left.released
            &&& !o.right.down && !o.right.pressed && !o.right.released
            &&& o.scroll_delta.x.bits == 0 && o.scroll_delta.y.bits == 0
            &&& o.middle == i.middle && o.mouse_pos == i.mouse_pos && o.text == i.text && o.keys == i.keys
        }),
{
}

/// The shortcuts of text fields: c copies, v pastes, x cuts, a selects all,
/// whatever the case; there are no others.
pub proof fn law_shortcuts(s: Seq<char>)
    ensures
        lowercase(s) == "c"@ ==> shortcut_named(s) == Some(EditKey::Copy),
        lowercase(s) == "v"@ ==> shortcut_named(s) == Some(EditKey::Paste),
        lowercase(s) == "x"@ ==> shortcut_named(s) == Some(EditKey::Cut),
        lowercase(s) == "a"@ ==> shortcut_named(s) == Some(EditKey::SelectAll),
        lowercase(s) != "c"@ && lowercase(s) != "v"@ && lowercase(s) != "x"@ && lowercase(s) != "a"@
            ==> shortcut_named(s) is None,
{
    reveal_strlit("c");
    reveal_strlit("v");
    reveal_strlit("x");
    reveal_strlit("a");
    assert("c"@[0] == 'c' && "v"@[0] == 'v' && "x"@[0] == 'x' && "a"@[0] == 'a');
}

/// What is typed are the characters that are no control characters.
pub proof fn law_typed(s: Seq<char>, c: char)
    ensures
        typed(s).contains(c) <==> s.contains(c) && c > '\u{1F}' && !('\u{7F}' <= c <= '\u{9F}'),
{
    lemma_filter_contains(s, |c: char| !control(c), c);
}

/// The right button turns the camera and the middle one pans it, while it is
/// down and where the camera may be moved; the left one does neither, and no
/// button moves another.
pub proof fn law_mouse(h: HostView, key: MouseKey, down: bool, p: PointerPlace)
    ensures
        ({
            let o = mouse_moved(h, key, down, p);
            let free = !p.has_drag && !p.over_view_gizmo && (!h.want_capture_mouse || p.over_viewport);
            &&& key == MouseKey::Right ==> (o.orbit.orbiting <==> down && free) && o.orbit.panning == h.orbit.panning
            &&& key == MouseKey::Middle ==> (o.orbit.panning <==> down && free) && o.orbit.orbiting
                == h.orbit.orbiting
            &&& key == MouseKey::Left ==> o.orbit == h.orbit
            &&& o.orbit.projection == h.orbit.projection
            &&& key == MouseKey::Left ==> o.input.left.down == down
            &&& key == MouseKey::Right ==> o.input.right.down == down
            &&& key == MouseKey::Middle ==> o.input.middle.down == down
            &&& key != MouseKey::Left ==> o.input.left == h.input.left
            &&& key != MouseKey::Right ==> o.input.right == h.input.right
            &&& key != MouseKey::Middle ==> o.input.middle == h.input.middle
        }),
{
}

/// What the tools get of a frame: the pointer and the left button, but no press
/// on the view gizmo; the widgets have no claim over the viewport.
pub proof fn law_tool_frame(h: HostView, p: PointerPlace, wants: bool)
    ensures
        ({
            let f = tool_frame(h, p, wants);
            &&& f.pointer.pos == h.input.mouse_pos && f.pointer.ctrl == h.input.ctrl
            &&& f.pointer.down == h.input.left.down && f.pointer.released == h.input.left.released
            &&& f.pointer.pressed <==> h.input.left.pressed && !p.over_view_gizmo
            &&& f.over == p.over_viewport
            &&& f.ui_wants_mouse <==> wants && !p.over_viewport
        }),
{
}

/// The wheel moved if it went by a number other than zero.
pub proof fn law_wheel(y: Scalar)
    ensures
        y.bits == 0 || y.bits == 0x8000_0000 ==> !moved_wheel(y),
        0 < y.bits <= 0x7F80_0000 || 0x8000_0000 < y.bits <= 0xFF80_0000 ==> moved_wheel(y),
        0x7F80_0000 < y.bits < 0x8000_0000 || 0xFF80_0000 < y.bits ==> !moved_wheel(y),
{
}

/// Snapping to an axis shows the model without perspective; turning from there
/// by hand brings perspective back where it was the snap that took it away.
pub proof fn law_snap(o: OrbitState)
    ensures
        snapped(o).snapping && snapped(o).projection == Projection::Orthographic && snapped(o).ortho_from_view,
        snapped(o).orbiting == o.orbiting && snapped(o).panning == o.panning,
        !turned(o).snapping,
        o.auto_perspective && o.ortho_from_view ==> turned(o).projection == Projection::Perspective,
        !(o.auto_perspective && o.ortho_from_view) ==> turned(o).projection == o.projection,
        turned(o).orbiting == o.orbiting && turned(o).panning == o.panning,
{
}

/// A camera at rest neither turns nor pans nor snaps.
pub proof fn law_camera_at_rest(p: Projection)
    ensures
        ({
            let o = camera_at_rest(p);
            &&& !o.orbiting && !o.panning && !o.snapping && !o.ortho_from_view
            &&& o.auto_perspective && o.projection == p
        }),
{
}

/// Nothing has happened in blank input.
pub proof fn law_blank_input(key: EditKey)
    ensures
        ({
            let i = blank_input();
            &&& !i.left.down && !i.right.down && !i.middle.down && !i.left.pressed && !i.right.pressed
            &&& !i.ctrl && !i.shift && !i.super_key && i.text.len() == 0 && !key_in(i.keys, key)
        }),
{
}

/// Escape lets go of what is selected or dragged, and leaves where there is
/// nothing to let go of; it works while a text field has the keyboard, too.
pub proof fn law_escape(a: AppView, captured: bool)
    ensures
        a.rig.selection is Some || a.drag is Some ==> {
            let (b, r) = key_done(a, Hotkey::Escape, captured);
            &&& r == KeyReply::Nothing
            &&& b.rig.selection is None && b.drag is None && b.edit_bone is None
            &&& b.scene == a.scene && b.rig.bones == a.rig.bones && b.rig.mode == a.rig.mode
        },
        a.rig.selection is None && a.drag is None ==> key_done(a, Hotkey::Escape, captured) == (a, KeyReply::Exit),
{
}

/// While a text field has the keyboard, every other key is the field's.
pub proof fn law_captured_key(a: AppView, key: Hotkey)
    requires
        key != Hotkey::Escape,
    ensures
        key_done(a, key, true) == (a, KeyReply::Nothing),
{
}

/// Tab switches between Edit and Pose and does nothing in Shape.
pub proof fn law_tab(a: AppView)
    ensures
        a.rig.mode == AppMode::Edit ==> key_done(a, Hotkey::Tab, false).0.rig.mode == AppMode::Pose,
        a.rig.mode == AppMode::Pose ==> key_done(a, Hotkey::Tab, false).0.rig.mode == AppMode::Edit,
        a.rig.mode == AppMode::Shape ==> key_done(a, Hotkey::Tab, false).0 == a,
        key_done(a, Hotkey::Tab, false).1 == KeyReply::Nothing,
        a.rig.mode == AppMode::Edit ==> key_done(a, Hotkey::Tab, false).0 == app_in_mode(a, AppMode::Pose),
        a.rig.mode == AppMode::Pose ==> key_done(a, Hotkey::Tab, false).0 == app_in_mode(a, AppMode::Edit),
{
}

/// The keys that take a tool: Rotate and Select in every mode, Move and Add in
/// Edit alone. Taking a tool ends a drag and changes nothing else of the
/// document.
pub proof fn law_tool_keys(a: AppView)
    ensures
        key_done(a, Hotkey::Rotate, false).0.rig.tool == Tool::Rotate,
        key_done(a, Hotkey::Select, false).0.rig.tool == Tool::Select,
        a.rig.mode == AppMode::Edit ==> key_done(a, Hotkey::Move, false).0.rig.tool == Tool::Translate,
        a.rig.mode == AppMode::Edit ==> key_done(a, Hotkey::Add, false).0.rig.tool == Tool::AddBone,
        a.rig.mode != AppMode::Edit ==> key_done(a, Hotkey::Move, false).0 == a && key_done(
            a,
            Hotkey::Add,
            false,
        ).0 == a,
        ({
            let b = key_done(a, Hotkey::Rotate, false).0;
            b.drag is None && b.rig.bones == a.rig.bones && b.rig.selection == a.rig.selection && b.rig.mode
                == a.rig.mode && b.scene == a.scene
        }),
{
}

/// Extruding by key grows from the active bone, in Edit alone.
pub proof fn law_extrude_key(a: AppView)
    ensures
        a.rig.mode == AppMode::Edit && a.rig.selection is Some ==> key_done(a, Hotkey::Extrude, false).1
            == KeyReply::Extrude(a.rig.selection->0),
        a.rig.mode != AppMode::Edit || a.rig.selection is None ==> key_done(a, Hotkey::Extrude, false).1
            == KeyReply::Nothing,
        key_done(a, Hotkey::Extrude, false).0 == a,
{
}

} // verus!
