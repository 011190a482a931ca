//! The host loop's decisions: what mouse buttons and keys do to the input of a
//! frame, when the camera orbits or pans, what a frame asks of the host, and how
//! soon the next one comes.

use vstd::prelude::*;
use crate::bones::BoneId;
use crate::bones_panel::{cut_off, subtree_deleted};
use crate::geom::{Scalar, Vec2, BITS_ONE, BITS_ZERO};
use crate::order::{at_least, nan, rank_of};
use crate::rig::{AppMode, RigView, Tool};
use crate::session::{app_in_mode, drivers_on, soft_on, AppState, AppView};
use crate::text::{chars_of, join, lowercase, same_text, string_of, to_lowercase};
use crate::tools::{PointerFrame, ToolFrame};
use crate::view_gizmo::ViewAxis;

verus! {

#[derive(Clone, Copy, Debug, PartialEq, Eq, Structural)]
pub enum Projection {
    Perspective,
    Orthographic,
}

#[derive(Clone, Copy, Debug, PartialEq, Eq, Structural)]
pub enum MouseKey {
    Left,
    Right,
    Middle,
}

/// A key of a text field.
#[derive(Clone, Copy, Debug, PartialEq, Eq, Structural)]
pub enum EditKey {
    Backspace,
    Enter,
    Left,
    Right,
    Up,
    Down,
    Home,
    End,
    Copy,
    Paste,
    Cut,
    SelectAll,
}

/// A mouse button during a frame.
#[derive(Clone, Copy, Debug, PartialEq, Eq, Structural)]
pub struct Button {
    pub down: bool,
    /// It went down in this frame.
    pub pressed: bool,
    /// It went up in this frame.
    pub released: bool,
}

/// A button that is up and was not touched.
pub open spec fn idle_button() -> Button {
    Button { down: false, pressed: false, released: false }
}

/// `b` after the button was reported down or up.
pub open spec fn button_moved(b: Button, down: bool) -> Button {
    Button {
        down,
        pressed: b.pressed || (down && !b.down),
        released: b.released || (!down && b.down),
    }
}

/// `b` when the next frame begins.
pub open spec fn button_settled(b: Button) -> Button {
    Button { pressed: false, released: false, ..b }
}

/// The editing keys hit during a frame.
#[derive(Clone, Copy, Debug, PartialEq, Eq, Structural)]
pub struct EditKeys {
    pub backspace: bool,
    pub enter: bool,
    pub left: bool,
    pub right: bool,
    pub up: bool,
    pub down: bool,
    pub home: bool,
    pub end: bool,
    pub copy: bool,
    pub paste: bool,
    pub cut: bool,
    pub select_all: bool,
}

pub open spec fn no_keys() -> EditKeys {
    EditKeys {
        backspace: false,
        enter: false,
        left: false,
        right: false,
        up: false,
        down: false,
        home: false,
        end: false,
        copy: false,
        paste: false,
        cut: false,
        select_all: false,
    }
}

/// `k` with one more key hit.
pub open spec fn key_hit(k: EditKeys, key: EditKey) -> EditKeys {
    match key {
        EditKey::Backspace => EditKeys { backspace: true, ..k },
        EditKey::Enter => EditKeys { enter: true, ..k },
        EditKey::Left => EditKeys { left: true, ..k },
        EditKey::Right => EditKeys { right: true, ..k },
        EditKey::Up => EditKeys { up: true, ..k },
        EditKey::Down => EditKeys { down: true, ..k },
        EditKey::Home => EditKeys { home: true, ..k },
        EditKey::End => EditKeys { end: true, ..k },
        EditKey::Copy => EditKeys { copy: true, ..k },
        EditKey::Paste => EditKeys { paste: true, ..k },
        EditKey::Cut => EditKeys { cut: true, ..k },
        EditKey::SelectAll => EditKeys { select_all: true, ..k },
    }
}

/// What came in since the last frame.
pub struct FrameInput {
    pub mouse_pos: Vec2,
    pub left: Button,
    pub right: Button,
    pub middle: Button,
    pub scroll_delta: Vec2,
    pub text: String,
    pub keys: EditKeys,
    pub shift: bool,
    pub ctrl: bool,
    pub super_key: bool,
    pub clipboard_paste: String,
}

/// What a frame input holds.
#[verifier::ext_equal]
pub struct InputView {
    pub mouse_pos: Vec2,
    pub left: Button,
    pub right: Button,
    pub middle: Button,
    pub scroll_delta: Vec2,
    pub text: Seq<char>,
    pub keys: EditKeys,
    pub shift: bool,
    pub ctrl: bool,
    pub super_key: bool,
    pub clipboard_paste: Seq<char>,
}

impl View for FrameInput {
    type V = InputView;

    open spec fn view(&self) -> InputView {
        InputView {
            mouse_pos: self.mouse_pos,
            left: self.left,
            right: self.right,
            middle: self.middle,
            scroll_delta: self.scroll_delta,
            text: self.text@,
            keys: self.keys,
            shift: self.shift,
            ctrl: self.ctrl,
            super_key: self.super_key,
            clipboard_paste: self.clipboard_paste@,
        }
    }
}

pub open spec fn zero2() -> Vec2 {
    Vec2 { x: Scalar { bits: BITS_ZERO }, y: Scalar { bits: BITS_ZERO } }
}

/// `i` when the next frame begins: what happened is forgotten, what is held
/// stays held.
pub open spec fn settled(i: InputView) -> InputView {
    InputView {
        left: button_settled(i.left),
        right: button_settled(i.right),
        middle: button_settled(i.middle),
        scroll_delta: zero2(),
        text: Seq::empty(),
        keys: no_keys(),
        clipboard_paste: Seq::empty(),
        ..i
    }
}

/// `i` as the widgets see it while the camera has the mouse: no button, no
/// wheel.
pub open spec fn starved(i: InputView) -> InputView {
    InputView { left: idle_button(), right: idle_button(), scroll_delta: zero2(), ..i }
}

/// The editing key that text `s` stands for while a shortcut key is held.
pub open spec fn shortcut_named(s: Seq<char>) -> Option<EditKey> {
    let k = lowercase(s);
    if k == "c"@ {
        Some(EditKey::Copy)
    } else if k == "v"@ {
        Some(EditKey::Paste)
    } else if k == "x"@ {
        Some(EditKey::Cut)
    } else if k == "a"@ {
        Some(EditKey::SelectAll)
    } else {
        None
    }
}

/// The editing key that text `s` stands for while a shortcut key is held.
pub fn shortcut_key(s: &str) -> (r: Option<EditKey>)
    ensures
        r == shortcut_named(s@),
{
    shortcut_of(&to_lowercase(s))
}

/// The editing key that the lower-case text `k` stands for.
pub fn shortcut_of(k: &str) -> (r: Option<EditKey>)
    ensures
        r == (if k@ == "c"@ {
            Some(EditKey::Copy)
        } else if k@ == "v"@ {
            Some(EditKey::Paste)
        } else if k@ == "x"@ {
            Some(EditKey::Cut)
        } else if k@ == "a"@ {
            Some(EditKey::SelectAll)
        } else {
            None
        }),
{
    if same_text(k, "c") {
        Some(EditKey::Copy)
    } else if same_text(k, "v") {
        Some(EditKey::Paste)
    } else if same_text(k, "x") {
        Some(EditKey::Cut)
    } else if same_text(k, "a") {
        Some(EditKey::SelectAll)
    } else {
        None
    }
}

/// A control character.
pub open spec fn control(c: char) -> bool {
    c <= '\u{1F}' || '\u{7F}' <= c <= '\u{9F}'
}

/// The characters of `s` that can stand in a text field.
pub open spec fn typed(s: Seq<char>) -> Seq<char> {
    s.filter(|c: char| !control(c))
}

/// After a press and a release in one frame, both are seen.
pub proof fn law_click_seen(b: Button)
    requires
        !b.down,
    ensures
        button_moved(button_moved(b, true), false).pressed,
        button_moved(button_moved(b, true), false).released,
        !button_moved(button_moved(b, true), false).down,
{
}

/// Reporting the state a button is in changes nothing, and a new frame changes
/// nothing about what is held.
pub proof fn law_button_repeat(b: Button)
    ensures
        button_moved(b, b.down) == b,
        button_settled(b).down == b.down,
        button_settled(button_settled(b)) == button_settled(b),
{
}

/// A new frame begun twice is begun once.
pub proof fn law_settled_idempotent(i: InputView)
    ensures
        settled(settled(i)) == settled(i),
{
}

impl Button {
    /// The button was reported down or up.
    fn moved(&mut self, down: bool)
        ensures
            *final(self) == button_moved(*old(self), down),
    {
        if down && !self.down {
            self.pressed = true;
        }
        if !down && self.down {
            self.released = true;
        }
        self.down = down;
    }

    fn settle(&mut self)
        ensures
            *final(self) == button_settled(*old(self)),
    {
        self.pressed = false;
        self.released = false;
    }
}

impl EditKeys {
    /// Key `key` was hit.
    fn hit(&mut self, key: EditKey)
        ensures
            *final(self) == key_hit(*old(self), key),
    {
        match key {
            EditKey::Backspace => {
                self.backspace = true;
            },
            EditKey::Enter => {
                self.enter = true;
            },
            EditKey::Left => {
                self.left = true;
            },
            EditKey::Right => {
                self.right = true;
            },
            EditKey::Up => {
                self.up = true;
            },
            EditKey::Down => {
                self.down = true;
            },
            EditKey::Home => {
                self.home = true;
            },
            EditKey::End => {
                self.end = true;
            },
            EditKey::Copy => {
                self.copy = true;
            },
            EditKey::Paste => {
                self.paste = true;
            },
            EditKey::Cut => {
                self.cut = true;
            },
            EditKey::SelectAll => {
                self.select_all = true;
            },
        }
    }
}

fn still_button() -> (r: Button)
    ensures
        r == idle_button(),
{
    Button { down: false, pressed: false, released: false }
}

fn still_keys() -> (r: EditKeys)
    ensures
        r == no_keys(),
{
    EditKeys {
        backspace: false,
        enter: false,
        left: false,
        right: false,
        up: false,
        down: false,
        home: false,
        end: false,
        copy: false,
        paste: false,
        cut: false,
        select_all: false,
    }
}

/// Nothing came in yet.
pub open spec fn blank_input() -> InputView {
    InputView {
        mouse_pos: zero2(),
        left: idle_button(),
        right: idle_button(),
        middle: idle_button(),
        scroll_delta: zero2(),
        text: Seq::empty(),
        keys: no_keys(),
        shift: false,
        ctrl: false,
        super_key: false,
        clipboard_paste: Seq::empty(),
    }
}

impl Default for FrameInput {
    fn default() -> (r: Self)
        ensures
            r@ == blank_input(),
    {
        let zero = Vec2 { x: Scalar { bits: BITS_ZERO }, y: Scalar { bits: BITS_ZERO } };
        FrameInput {
            mouse_pos: zero,
            left: still_button(),
            right: still_button(),
            middle: still_button(),
            scroll_delta: zero,
            text: String::new(),
            keys: still_keys(),
            shift: false,
            ctrl: false,
            super_key: false,
            clipboard_paste: String::new(),
        }
    }
}

impl FrameInput {
    /// Forgets what happened; what is held stays held.
    pub fn clear_edges(&mut self)
        ensures
            final(self)@ == settled(old(self)@),
    {
        self.left.settle();
        self.right.settle();
        self.middle.settle();
        self.scroll_delta = Vec2 { x: Scalar { bits: BITS_ZERO }, y: Scalar { bits: BITS_ZERO } };
        self.text = String::new();
        self.keys = still_keys();
        self.clipboard_paste = String::new();
    }

    /// Whether keys are shortcuts rather than text.
    pub fn shortcut_mod(&self) -> (r: bool)
        ensures
            r == (self@.ctrl || self@.super_key),
    {
        self.ctrl || self.super_key
    }

    /// What the widgets get to see; the camera, if it has the mouse, keeps
    /// buttons and wheel to itself.
    pub fn to_ui(&self, camera_busy: bool) -> (r: FrameInput)
        ensures
            r@ == (if camera_busy {
                starved(self@)
            } else {
                self@
            }),
    {
        let zero = Vec2 { x: Scalar { bits: BITS_ZERO }, y: Scalar { bits: BITS_ZERO } };
        FrameInput {
            mouse_pos: self.mouse_pos,
            left: if camera_busy {
                still_button()
            } else {
                self.left
            },
            right: if camera_busy {
                still_button()
            } else {
                self.right
            },
            middle: self.middle,
            scroll_delta: if camera_busy {
                zero
            } else {
                self.scroll_delta
            },
            text: self.text.clone(),
            keys: self.keys,
            shift: self.shift,
            ctrl: self.ctrl,
            super_key: self.super_key,
            clipboard_paste: self.clipboard_paste.clone(),
        }
    }

    /// An editing key was hit.
    pub fn edit_key(&mut self, key: EditKey)
        ensures
            final(self)@ == (InputView { keys: key_hit(old(self)@.keys, key), ..old(self)@ }),
    {
        let mut k = self.keys;
        k.hit(key);
        self.keys = k;
    }

    /// Pasting begins; `clipboard` is what the host's clipboard holds. Text that
    /// was fetched earlier in the frame stays.
    pub fn begin_paste(&mut self, clipboard: Option<String>)
        ensures
            final(self)@ == (InputView {
                keys: key_hit(old(self)@.keys, EditKey::Paste),
                clipboard_paste: if old(self)@.clipboard_paste.len() > 0 {
                    old(self)@.clipboard_paste
                } else {
                    match clipboard {
                        Some(t) => t@,
                        None => old(self)@.clipboard_paste,
                    }
                },
                ..old(self)@
            }),
    {
        self.edit_key(EditKey::Paste);
        let have = chars_of(&self.clipboard_paste);
        if have.len() == 0 {
            if let Some(t) = clipboard {
                self.clipboard_paste = t;
            }
        }
    }

    /// Text was typed: control characters are dropped, and with a shortcut key
    /// held nothing is text.
    pub fn type_text(&mut self, s: &str)
        ensures
            final(self)@ == (InputView {
                text: if old(self)@.ctrl || old(self)@.super_key {
                    old(self)@.text
                } else {
                    old(self)@.text + typed(s@)
                },
                ..old(self)@
            }),
    {
        if self.shortcut_mod() {
            return;
        }
        let ghost p = |c: char| !control(c);
        let chars = chars_of(s);
        let mut kept: Vec<char> = Vec::new();
        let mut i: usize = 0;
        proof {
            crate::lists::lemma_filter_ends(chars@, p);
        }
        while i < chars.len()
            invariant
                i <= chars@.len(),
                p == (|c: char| !control(c)),
                kept@ == chars@.take(i as int).filter(p),
            decreases chars.len() - i,
        {
            let c = chars[i];
            proof {
                crate::lists::lemma_filter_step(chars@, p, i as int);
            }
            if !(c <= '\u{1F}' || ('\u{7F}' <= c && c <= '\u{9F}')) {
                kept.push(c);
            }
            i = i + 1;
        }
        self.text = join(&self.text, &string_of(&kept));
    }

    /// Text was committed by an input method: it is taken as it is.
    pub fn commit_text(&mut self, s: &str)
        ensures
            final(self)@ == (InputView { text: old(self)@.text + s@, ..old(self)@ }),
    {
        self.text = join(&self.text, s);
    }
}

/// Who moves the camera, and how it projects.
#[derive(Clone, Copy, Debug, PartialEq, Eq, Structural)]
pub struct OrbitState {
    pub orbiting: bool,
    pub panning: bool,
    /// On its way to a view along an axis.
    pub snapping: bool,
    pub projection: Projection,
    /// Blender-style: orbit after an axis snap returns to perspective.
    pub auto_perspective: bool,
    /// Set by view-gizmo snap; cleared when orbiting restores perspective.
    pub ortho_from_view: bool,
}

/// A camera that nobody moves.
pub open spec fn camera_at_rest(projection: Projection) -> OrbitState {
    OrbitState {
        orbiting: false,
        panning: false,
        snapping: false,
        projection,
        auto_perspective: true,
        ortho_from_view: false,
    }
}

/// The camera after a turn by hand.
pub open spec fn turned(o: OrbitState) -> OrbitState {
    if o.auto_perspective && o.ortho_from_view {
        OrbitState {
            snapping: false,
            projection: Projection::Perspective,
            ortho_from_view: false,
            ..o
        }
    } else {
        OrbitState { snapping: false, ..o }
    }
}

/// The camera after a click on an axis.
pub open spec fn snapped(o: OrbitState) -> OrbitState {
    OrbitState {
        snapping: true,
        projection: Projection::Orthographic,
        ortho_from_view: true,
        ..o
    }
}

/// Turning by hand undoes what a click on an axis did to the projection.
pub proof fn law_turn_restores(o: OrbitState)
    requires
        o.auto_perspective,
    ensures
        turned(snapped(o)).projection == Projection::Perspective,
        !turned(snapped(o)).snapping,
        !turned(snapped(o)).ortho_from_view,
{
}

impl OrbitState {
    /// A camera that nobody moves.
    pub fn new(projection: Projection) -> (r: Self)
        ensures
            r == camera_at_rest(projection),
    {
        OrbitState {
            orbiting: false,
            panning: false,
            snapping: false,
            projection,
            auto_perspective: true,
            ortho_from_view: false,
        }
    }

    pub fn active(&self) -> (r: bool)
        ensures
            r == (self.orbiting || self.panning || self.snapping),
    {
        self.orbiting || self.panning || self.snapping
    }

    /// The mouse moved: whether it turns the camera, and whether it shifts it.
    pub fn motion(&mut self, has_drag: bool) -> (r: (bool, bool))
        ensures
            r.0 == (old(self).orbiting && !has_drag),
            r.1 == old(self).panning,
            *final(self) == (if r.0 {
                turned(*old(self))
            } else if r.1 {
                OrbitState { snapping: false, ..*old(self) }
            } else {
                *old(self)
            }),
    {
        let turns = self.orbiting && !has_drag;
        let shifts = self.panning;
        if turns {
            self.snapping = false;
            if self.auto_perspective && self.ortho_from_view {
                self.projection = Projection::Perspective;
                self.ortho_from_view = false;
            }
        }
        if shifts {
            self.snapping = false;
        }
        (turns, shifts)
    }

    /// The camera sets out for a view along an axis.
    pub fn snap(&mut self)
        ensures
            *final(self) == snapped(*old(self)),
    {
        self.snapping = true;
        self.projection = Projection::Orthographic;
        self.ortho_from_view = true;
    }

    /// The camera has arrived.
    pub fn arrived(&mut self)
        ensures
            *final(self) == (OrbitState { snapping: false, ..*old(self) }),
    {
        self.snapping = false;
    }
}

/// The host between frames.
pub struct HostState {
    pub input: FrameInput,
    pub orbit: OrbitState,
    pub want_capture_mouse: bool,
    pub want_capture_keyboard: bool,
    pub animating: bool,
}

/// What the host is, as a value.
#[verifier::ext_equal]
pub struct HostView {
    pub input: InputView,
    pub orbit: OrbitState,
    pub want_capture_mouse: bool,
    pub want_capture_keyboard: bool,
    pub animating: bool,
}

impl View for HostState {
    type V = HostView;

    open spec fn view(&self) -> HostView {
        HostView {
            input: self.input@,
            orbit: self.orbit,
            want_capture_mouse: self.want_capture_mouse,
            want_capture_keyboard: self.want_capture_keyboard,
            animating: self.animating,
        }
    }
}

/// Where the pointer is.
#[derive(Clone, Copy, Debug, PartialEq, Eq, Structural)]
pub struct PointerPlace {
    pub over_viewport: bool,
    /// Over the orientation gizmo in the viewport's corner.
    pub over_view_gizmo: bool,
    pub has_drag: bool,
}

/// A button may take hold of the camera: nothing is dragged, the pointer is not
/// on the orientation gizmo, and no widget wants it outside the viewport.
pub open spec fn nav_ok(h: HostView, p: PointerPlace) -> bool {
    !p.has_drag && !p.over_view_gizmo && (!h.want_capture_mouse || p.over_viewport)
}

/// The host after a mouse button was reported down or up.
pub open spec fn mouse_moved(h: HostView, key: MouseKey, down: bool, p: PointerPlace) -> HostView {
    match key {
        MouseKey::Left => HostView {
            input: InputView { left: button_moved(h.input.left, down), ..h.input },
            ..h
        },
        MouseKey::Right => HostView {
            input: InputView { right: button_moved(h.input.right, down), ..h.input },
            orbit: OrbitState { orbiting: down && nav_ok(h, p), ..h.orbit },
            ..h
        },
        MouseKey::Middle => HostView {
            input: InputView { middle: button_moved(h.input.middle, down), ..h.input },
            orbit: OrbitState { panning: down && nav_ok(h, p), ..h.orbit },
            ..h
        },
    }
}

/// No button takes hold of the camera while something is dragged, and letting a
/// button go lets the camera go.
pub proof fn law_nav(h: HostView, key: MouseKey, down: bool, p: PointerPlace)
    requires
        key != MouseKey::Left,
        p.has_drag || !down,
    ensures
        key == MouseKey::Right ==> !mouse_moved(h, key, down, p).orbit.orbiting,
        key == MouseKey::Middle ==> !mouse_moved(h, key, down, p).orbit.panning,
{
}

/// What the start of a frame asks of the host.
#[derive(Clone, Copy, Debug, PartialEq, Eq, Structural)]
pub struct FramePlan {
    /// Read the camera anew.
    pub resync: bool,
    /// Let the wheel zoom.
    pub zoom: bool,
    /// The session itself keeps moving.
    pub playing: bool,
}

/// What comes after the widgets of a frame.
#[derive(Clone, Copy, Debug, PartialEq, Eq, Structural)]
pub enum AfterUi {
    /// The camera has the mouse: no tools.
    Camera,
    /// Find out which axis of the orientation gizmo was clicked: `axis_clicked`.
    HitTest,
    /// On to the tools.
    Tools(ToolFrame),
}

/// The frame as the tools see it: a press on the orientation gizmo is none.
pub open spec fn tool_frame(h: HostView, p: PointerPlace, wants_mouse: bool) -> ToolFrame {
    ToolFrame {
        pointer: PointerFrame {
            pos: h.input.mouse_pos,
            pressed: h.input.left.pressed && !p.over_view_gizmo,
            down: h.input.left.down,
            released: h.input.left.released,
            ctrl: h.input.ctrl,
        },
        over: p.over_viewport,
        ui_wants_mouse: wants_mouse && !p.over_viewport,
    }
}

/// The wheel turned at all.
pub open spec fn moved_wheel(y: Scalar) -> bool {
    !nan(y) && rank_of(y) != 0
}

/// A press on the orientation gizmo never reaches the tools.
pub proof fn law_gizmo_keeps_press(h: HostView, p: PointerPlace, wants_mouse: bool)
    requires
        p.over_view_gizmo,
    ensures
        !tool_frame(h, p, wants_mouse).pointer.pressed,
{
}

/// Which gizmo to draw, and on which bone.
#[derive(Clone, Copy, Debug, PartialEq, Eq, Structural)]
pub enum GizmoShown {
    Nothing,
    Rotate(BoneId),
    Translate(BoneId),
}

/// A key that acts on the session.
#[derive(Clone, Copy, Debug, PartialEq, Eq, Structural)]
pub enum Hotkey {
    Escape,
    Tab,
    /// R or 3.
    Rotate,
    /// G or 2.
    Move,
    /// A.
    Add,
    /// E.
    Extrude,
    Delete,
    /// 1.
    Select,
}

/// What a key asks of the host.
#[derive(Clone, Copy, Debug, PartialEq, Eq, Structural)]
pub enum KeyReply {
    Nothing,
    /// Leave the program.
    Exit,
    /// Grow a bone from this one.
    Extrude(BoneId),
}

/// The session after Escape: nothing active, dragged or inspected.
pub open spec fn escaped(a: AppView) -> AppView {
    AppView {
        rig: RigView { selection: None, ..a.rig },
        drag: None,
        edit_bone: None,
        status: "Selection cleared."@,
        ..a
    }
}

/// The session with tool `tool` in hand.
pub open spec fn tool_taken(a: AppView, tool: Tool, status: Seq<char>) -> AppView {
    AppView { rig: RigView { tool, ..a.rig }, drag: None, status, ..a }
}

/// The mode that Tab leads to.
pub open spec fn tab_mode(mode: AppMode) -> AppMode {
    match mode {
        AppMode::Edit => AppMode::Pose,
        AppMode::Pose => AppMode::Edit,
        AppMode::Shape => AppMode::Shape,
    }
}

/// The session after a key, other than for deleting, and what the host is
/// asked; keys but Escape are the widgets' where they want them.
pub open spec fn key_done(a: AppView, key: Hotkey, captured: bool) -> (AppView, KeyReply) {
    match key {
        Hotkey::Escape => if a.rig.selection is Some || a.drag is Some {
            (escaped(a), KeyReply::Nothing)
        } else {
            (a, KeyReply::Exit)
        },
        _ => if captured {
            (a, KeyReply::Nothing)
        } else {
            match key {
                Hotkey::Tab => if a.rig.mode == AppMode::Shape {
                    (a, KeyReply::Nothing)
                } else {
                    (app_in_mode(a, tab_mode(a.rig.mode)), KeyReply::Nothing)
                },
                Hotkey::Rotate => (
                    tool_taken(a, Tool::Rotate, "Tool: Rotate"@),
                    KeyReply::Nothing,
                ),
                Hotkey::Select => (
                    tool_taken(a, Tool::Select, "Tool: Select"@),
                    KeyReply::Nothing,
                ),
                Hotkey::Move => if a.rig.mode == AppMode::Edit {
                    (tool_taken(a, Tool::Translate, "Tool: Move"@), KeyReply::Nothing)
                } else {
                    (a, KeyReply::Nothing)
                },
                Hotkey::Add => if a.rig.mode == AppMode::Edit {
                    (
                        tool_taken(
                            a,
                            Tool::AddBone,
                            "Tool: Add — click to extrude / place root"@,
                        ),
                        KeyReply::Nothing,
                    )
                } else {
                    (a, KeyReply::Nothing)
                },
                Hotkey::Extrude => match a.rig.selection {
                    Some(sel) => if a.rig.mode == AppMode::Edit {
                        (a, KeyReply::Extrude(sel))
                    } else {
                        (a, KeyReply::Nothing)
                    },
                    None => (a, KeyReply::Nothing),
                },
                _ => (a, KeyReply::Nothing),
            }
        },
    }
}

/// Tab twice is back where it was.
pub proof fn law_tab_toggles(mode: AppMode)
    ensures
        tab_mode(tab_mode(mode)) == mode,
{
}

/// Escape twice leaves the program.
pub proof fn law_escape_twice(a: AppView, captured: bool)
    ensures
        key_done(key_done(a, Hotkey::Escape, captured).0, Hotkey::Escape, captured).1
            == KeyReply::Exit,
{
}

impl HostState {
    /// A host before its first frame.
    pub fn new(projection: Projection) -> (r: Self)
        ensures
            r@ == (HostView {
                input: blank_input(),
                orbit: camera_at_rest(projection),
                want_capture_mouse: false,
                want_capture_keyboard: false,
                animating: true,
            }),
    {
        HostState {
            input: FrameInput::default(),
            orbit: OrbitState::new(projection),
            want_capture_mouse: false,
            want_capture_keyboard: false,
            animating: true,
        }
    }

    /// A mouse button was reported down or up.
    pub fn mouse_input(&mut self, key: MouseKey, down: bool, p: PointerPlace)
        ensures
            final(self)@ == mouse_moved(old(self)@, key, down, p),
    {
        match key {
            MouseKey::Left => self.left_moved(down, p),
            MouseKey::Right => self.right_moved(down, p),
            MouseKey::Middle => self.middle_moved(down, p),
        }
    }

    fn may_navigate(&self, p: PointerPlace) -> (r: bool)
        ensures
            r == nav_ok(self@, p),
    {
        !p.has_drag && !p.over_view_gizmo && (!self.want_capture_mouse || p.over_viewport)
    }

    fn left_moved(&mut self, down: bool, p: PointerPlace)
        ensures
            final(self)@ == mouse_moved(old(self)@, MouseKey::Left, down, p),
    {
        let mut b = self.input.left;
        b.moved(down);
        self.input.left = b;
    }

    fn right_moved(&mut self, down: bool, p: PointerPlace)
        ensures
            final(self)@ == mouse_moved(old(self)@, MouseKey::Right, down, p),
    {
        let mut b = self.input.right;
        b.moved(down);
        self.input.right = b;
        self.orbit.orbiting = down && self.may_navigate(p);
    }

    fn middle_moved(&mut self, down: bool, p: PointerPlace)
        ensures
            final(self)@ == mouse_moved(old(self)@, MouseKey::Middle, down, p),
    {
        let mut b = self.input.middle;
        b.moved(down);
        self.input.middle = b;
        self.orbit.panning = down && self.may_navigate(p);
    }

    /// The window lost the keyboard.
    pub fn focus_lost(&mut self)
        ensures
            final(self)@ == (HostView {
                orbit: OrbitState { orbiting: false, panning: false, ..old(self)@.orbit },
                ..old(self)@
            }),
    {
        self.orbit.orbiting = false;
        self.orbit.panning = false;
    }

    /// A frame begins on a window of `width` by `height`; without a surface to
    /// draw on there is no frame.
    pub fn redraw(&self, state: &mut AppState, width: u32, height: u32, p: PointerPlace) -> (r:
        Option<FramePlan>)
        requires
            old(state).wf(),
        ensures
            final(state).wf(),
            match r {
                None => (width == 0 || height == 0) && final(state)@ == old(state)@,
                Some(plan) => {
                    let a = old(state)@;
                    &&& width != 0 && height != 0
                    &&& plan.resync == a.resync_camera
                    &&& plan.zoom == (moved_wheel(self@.input.scroll_delta.y) && a.drag is None
                        && p.over_viewport)
                    &&& plan.playing == (a.drag is Some || (a.rig.mode == AppMode::Pose && (soft_on(
                        a.rig,
                    ) || drivers_on(a.rig) || a.editing_driver is Some)))
                    &&& final(state)@ == (AppView { resync_camera: false, ..a })
                },
            },
    {
        if width == 0 || height == 0 {
            return None;
        }
        let resync = state.resync_camera;
        let playing = state.update();
        state.resync_camera = false;
        let zero = Scalar { bits: BITS_ZERO };
        let y = self.input.scroll_delta.y;
        let wheel = y.less(&zero) || zero.less(&y);
        let zoom = wheel && !state.has_drag() && p.over_viewport;
        Some(FramePlan { resync, zoom, playing })
    }

    /// What the widgets of the frame get to see.
    pub fn ui_input(&self) -> (r: FrameInput)
        ensures
            r@ == (if self@.orbit.orbiting || self@.orbit.panning || self@.orbit.snapping {
                starved(self@.input)
            } else {
                self@.input
            }),
    {
        let busy = self.orbit.active();
        self.input.to_ui(busy)
    }

    /// The widgets are done: who wants mouse and keyboard, and whether anything
    /// keeps moving.
    pub fn ui_done(
        &mut self,
        wants_mouse: bool,
        wants_keyboard: bool,
        playing: bool,
        keep_ui: bool,
        needs_repaint: bool,
    )
        ensures
            final(self)@ == (HostView {
                want_capture_mouse: wants_mouse,
                want_capture_keyboard: wants_keyboard,
                animating: playing || old(self)@.orbit.orbiting || old(self)@.orbit.panning || old(
                    self,
                )@.orbit.snapping || keep_ui || needs_repaint,
                ..old(self)@
            }),
    {
        self.want_capture_mouse = wants_mouse;
        self.want_capture_keyboard = wants_keyboard;
        self.animating = playing || self.orbit.active() || keep_ui || needs_repaint;
    }

    fn frame_for_tools(&self, p: PointerPlace, wants_mouse: bool) -> (r: ToolFrame)
        ensures
            r == tool_frame(self@, p, wants_mouse),
    {
        ToolFrame {
            pointer: PointerFrame {
                pos: self.input.mouse_pos,
                pressed: self.input.left.pressed && !p.over_view_gizmo,
                down: self.input.left.down,
                released: self.input.left.released,
                ctrl: self.input.ctrl,
            },
            over: p.over_viewport,
            ui_wants_mouse: wants_mouse && !p.over_viewport,
        }
    }

    /// What comes after the widgets.
    pub fn after_ui(&self, p: PointerPlace, wants_mouse: bool) -> (r: AfterUi)
        ensures
            r == (if self@.orbit.orbiting || self@.orbit.panning || self@.orbit.snapping {
                AfterUi::Camera
            } else if p.over_view_gizmo && self@.input.left.pressed {
                AfterUi::HitTest
            } else {
                AfterUi::Tools(tool_frame(self@, p, wants_mouse))
            }),
    {
        if self.orbit.active() {
            return AfterUi::Camera;
        }
        if p.over_view_gizmo && self.input.left.pressed {
            return AfterUi::HitTest;
        }
        AfterUi::Tools(self.frame_for_tools(p, wants_mouse))
    }

    /// A click on the orientation gizmo hit `axis`: the camera sets out for it.
    /// A click beside its tips goes on to the tools.
    pub fn axis_clicked(
        &mut self,
        state: &mut AppState,
        axis: Option<ViewAxis>,
        p: PointerPlace,
        wants_mouse: bool,
    ) -> (r: Option<ToolFrame>)
        requires
            old(state).wf(),
        ensures
            final(state).wf(),
            match axis {
                Some(axis) => {
                    &&& r is None
                    &&& final(self)@ == (HostView { orbit: snapped(old(self)@.orbit), ..old(self)@ })
                    &&& final(state)@ == (AppView {
                        status: "View "@ + axis.view_text() + " · ortho"@,
                        ..old(state)@
                    })
                },
                None => {
                    &&& r == Some(tool_frame(old(self)@, p, wants_mouse))
                    &&& final(self)@ == old(self)@
                    &&& final(state)@ == old(state)@
                },
            },
    {
        match axis {
            Some(axis) => {
                self.orbit.snap();
                state.status = join(&join("View ", axis.label_view()), " · ortho");
                None
            },
            None => Some(self.frame_for_tools(p, wants_mouse)),
        }
    }

    /// The frame is drawn.
    pub fn frame_done(&mut self)
        ensures
            final(self)@ == (HostView { input: settled(old(self)@.input), ..old(self)@ }),
    {
        self.input.clear_edges();
    }

    /// Milliseconds until the next frame: short while anything moves.
    pub fn wait_ms(&self, has_drag: bool) -> (r: u64)
        ensures
            r == (if self@.animating || self@.orbit.orbiting || self@.orbit.panning
                || self@.orbit.snapping || has_drag {
                8u64
            } else {
                33u64
            }),
    {
        if self.animating || self.orbit.active() || has_drag {
            8
        } else {
            33
        }
    }
}

/// Frames counted until a second is full.
pub struct FrameCount {
    pub seconds: Scalar,
    pub frames: u32,
}

impl FrameCount {
    pub fn new() -> (r: Self)
        ensures
            r == (FrameCount { seconds: Scalar { bits: BITS_ZERO }, frames: 0 }),
    {
        FrameCount { seconds: Scalar { bits: BITS_ZERO }, frames: 0 }
    }

    /// One more frame passed, which makes it `seconds` in all. Once a second is
    /// full the time and the number of its frames are handed out, and counting
    /// begins anew.
    pub fn frame_passed(&mut self, seconds: Scalar) -> (r: Option<(Scalar, u32)>)
        requires
            old(self).frames < u32::MAX,
        ensures
            at_least(seconds, Scalar { bits: BITS_ONE }) ==> {
                &&& r == Some((seconds, (old(self).frames + 1) as u32))
                &&& *final(self) == (FrameCount { seconds: Scalar { bits: BITS_ZERO }, frames: 0 })
            },
            !at_least(seconds, Scalar { bits: BITS_ONE }) ==> {
                &&& r is None
                &&& *final(self) == (FrameCount { seconds, frames: (old(self).frames + 1) as u32 })
            },
    {
        let frames = self.frames + 1;
        if seconds.reaches(&(Scalar { bits: BITS_ONE })) {
            self.seconds = Scalar { bits: BITS_ZERO };
            self.frames = 0;
            Some((seconds, frames))
        } else {
            self.seconds = seconds;
            self.frames = frames;
            None
        }
    }
}

impl AppState {
    /// Whether the brush is drawn under the pointer.
    pub fn brush_shown(&self) -> (r: bool)
        ensures
            r == (self@.rig.mode == AppMode::Shape && self@.rig.tool == Tool::Brush),
    {
        self.rig.mode == AppMode::Shape && self.rig.tool == Tool::Brush
    }

    /// Which gizmo to draw, and on which bone.
    pub fn gizmo_shown(&self) -> (r: GizmoShown)
        ensures
            r == (match (self@.rig.selection, self@.rig.tool) {
                (Some(sel), Tool::Rotate) => GizmoShown::Rotate(sel),
                (Some(sel), Tool::Translate) => GizmoShown::Translate(sel),
                _ => GizmoShown::Nothing,
            }),
    {
        match (self.rig.selection, self.rig.tool) {
            (Some(sel), Tool::Rotate) => GizmoShown::Rotate(sel),
            (Some(sel), Tool::Translate) => GizmoShown::Translate(sel),
            _ => GizmoShown::Nothing,
        }
    }

    fn take_tool(&mut self, tool: Tool, status: &str)
        requires
            old(self).wf(),
        ensures
            final(self).wf(),
            final(self)@ == tool_taken(old(self)@, tool, status@),
    {
        self.rig.tool = tool;
        self.drag = None;
        self.status = status.to_owned();
    }

    /// A key was pressed; `captured` tells that the widgets want the keyboard.
    pub fn key_pressed(&mut self, key: Hotkey, captured: bool) -> (r: KeyReply)
        requires
            old(self).wf(),
        ensures
            final(self).wf(),
            key != Hotkey::Delete ==> (final(self)@, r) == key_done(old(self)@, key, captured),
            key == Hotkey::Delete ==> {
                &&& r == KeyReply::Nothing
                &&& if !captured && old(self)@.rig.mode == AppMode::Edit && old(
                    self,
                )@.rig.selection is Some {
                    &&& subtree_deleted(
                        old(self)@.rig,
                        old(self)@.scene,
                        old(self)@.rig.selection->0,
                        final(self)@.rig,
                        final(self)@.scene,
                    )
                    &&& final(self)@ == cut_off(
                        old(self)@,
                        final(self)@.rig,
                        final(self)@.scene,
                        "Deleted bone subtree"@,
                    )
                } else {
                    final(self)@ == old(self)@
                }
            },
    {
        if key == Hotkey::Escape {
            if self.rig.selection.is_some() || self.drag.is_some() {
                self.rig.selection = None;
                self.drag = None;
                self.edit_bone = None;
                self.status = "Selection cleared.".to_owned();
                return KeyReply::Nothing;
            }
            return KeyReply::Exit;
        }
        if captured {
            return KeyReply::Nothing;
        }
        let edit = self.rig.mode == AppMode::Edit;
        match key {
            Hotkey::Tab => {
                match self.rig.mode {
                    AppMode::Edit => self.set_mode(AppMode::Pose),
                    AppMode::Pose => self.set_mode(AppMode::Edit),
                    AppMode::Shape => {},
                }
                KeyReply::Nothing
            },
            Hotkey::Rotate => {
                self.take_tool(Tool::Rotate, "Tool: Rotate");
                KeyReply::Nothing
            },
            Hotkey::Select => {
                self.take_tool(Tool::Select, "Tool: Select");
                KeyReply::Nothing
            },
            Hotkey::Move => {
                if edit {
                    self.take_tool(Tool::Translate, "Tool: Move");
                }
                KeyReply::Nothing
            },
            Hotkey::Add => {
                if edit {
                    self.take_tool(Tool::AddBone, "Tool: Add — click to extrude / place root");
                }
                KeyReply::Nothing
            },
            Hotkey::Extrude => match self.rig.selection {
                Some(sel) => if edit {
                    KeyReply::Extrude(sel)
                } else {
                    KeyReply::Nothing
                },
                None => KeyReply::Nothing,
            },
            Hotkey::Delete => {
                if edit {
                    self.delete_clicked();
                }
                KeyReply::Nothing
            },
            Hotkey::Escape => KeyReply::Nothing,
        }
    }
}

} // verus!
