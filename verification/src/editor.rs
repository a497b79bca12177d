//! The screenshot editor's decisions: which tool is active, whether a crop
//! selection exists, what a drag on the canvas starts, changes and ends,
//! and what a key press asks for.
//!
//! Positions, sizes and colours stay with the caller, which measures them
//! and hands over the outcome of each test as a `bool`: whether a press
//! lies inside the crop box, whether the selection or a rectangle is more
//! than five pixels wide and high, whether a stroke has two points.
use vstd::prelude::*;

verus! {

/// The editor's tools.
#[derive(Clone, Copy, Debug, PartialEq, Eq, Structural)]
pub enum Tool {
    /// Drag out the crop selection.
    Select,
    /// Draw a free stroke.
    Pen,
    /// Draw a rectangle outline.
    Rect,
    /// Pixelate a rectangle.
    Blur,
    /// Remove the drawing under the pointer.
    Eraser,
}

/// What the editor decides by: the selection, the tool, the shapes being
/// drawn and whether the toolbar shows.
#[derive(Clone, Copy, Debug, PartialEq, Eq, Structural)]
pub struct EditorState {
    /// A crop selection exists.
    pub has_selection: bool,
    /// A drag is drawing out the crop selection.
    pub is_selecting: bool,
    pub current_tool: Tool,
    /// A pen stroke is being drawn.
    pub stroke_active: bool,
    /// A rectangle (outline or pixelated) is being drawn.
    pub rect_active: bool,
    pub toolbar_visible: bool,
}

/// What happens on the canvas or the toolbar.
#[derive(Clone, Copy, Debug, PartialEq, Eq, Structural)]
pub enum EditorEvent {
    /// A tool button was clicked.
    ToolClicked(Tool),
    /// The reset button was clicked.
    ResetClicked,
    /// A drag began; `inside_crop` tells whether it began inside the crop box.
    DragBegin { inside_crop: bool },
    /// The pointer moved during a drag.
    DragUpdate,
    /// A drag ended. `selection_large`: the crop box is more than five
    /// pixels wide and high; `stroke_long`: the stroke has at least two
    /// points; `rect_large`: the rectangle is more than five pixels wide
    /// and high.
    DragEnd { selection_large: bool, stroke_long: bool, rect_large: bool },
}

/// What the caller does to the geometry it keeps.
#[derive(Clone, Copy, Debug, PartialEq, Eq, Structural)]
pub enum EditorAction {
    Nothing,
    /// Zero the crop box, clear the drawings and the shapes being drawn.
    ClearAll,
    /// Remember the press; the crop box starts there with no size.
    BeginSelection,
    /// Remember the press; a stroke starts there.
    BeginStroke,
    /// Remember the press; a rectangle starts there with no size.
    BeginRect,
    /// Remember the press; remove the drawings under it.
    EraseAt,
    /// The crop box spans the press and the pointer.
    ResizeSelection,
    /// Add the pointer to the stroke where it moved far enough.
    ExtendStroke,
    /// The rectangle spans the press and the pointer.
    ResizeRect,
    /// The selection drag ended: keep the crop box, or zero it.
    EndSelection { keep: bool },
    /// The stroke ended: add it to the drawings, or drop it.
    EndStroke { keep: bool },
    /// The rectangle ended: add it as an outline, or drop it.
    EndRect { keep: bool },
    /// The rectangle ended: add it as a pixelated area, or drop it.
    EndBlur { keep: bool },
}

/// The keys the editor reads.
#[derive(Clone, Copy, Debug, PartialEq, Eq, Structural)]
pub enum EditorKey {
    Escape,
    Return,
    Char(char),
    Other,
}

/// What a key press asks for.
#[derive(Clone, Copy, Debug, PartialEq, Eq, Structural)]
pub enum KeyAction {
    /// Close the editor; the key is handled.
    Close,
    /// Copy the crop to the clipboard and close if that worked; handled.
    Copy,
    /// Save the crop to a file and close if that worked; handled.
    Save,
    /// Pass the key on.
    Proceed,
}

/// The editor as it opens: no selection, the selection tool, nothing
/// being drawn, no toolbar.
pub open spec fn initial_editor() -> EditorState {
    EditorState {
        has_selection: false,
        is_selecting: false,
        current_tool: Tool::Select,
        stroke_active: false,
        rect_active: false,
        toolbar_visible: false,
    }
}

/// The toolbar shows only while a selection exists.
pub open spec fn editor_wf(s: EditorState) -> bool {
    s.toolbar_visible ==> s.has_selection
}

/// A drag begins. Without a selection the tool becomes the selection
/// tool. With a selection, a drawing tool ignores a press outside the crop
/// box. Otherwise the selection tool starts a new selection (and hides the
/// toolbar), the pen a stroke, the rectangle and blur tools a rectangle,
/// and the eraser erases under the press.
pub open spec fn drag_begin(s: EditorState, inside_crop: bool) -> (EditorState, EditorAction) {
    let tool = if !s.has_selection { Tool::Select } else { s.current_tool };
    let s1 = EditorState { current_tool: tool, ..s };
    if s1.has_selection && tool != Tool::Select && !inside_crop {
        (s1, EditorAction::Nothing)
    } else {
        match tool {
            Tool::Select => (
                EditorState {
                    is_selecting: true,
                    has_selection: true,
                    toolbar_visible: false,
                    ..s1
                },
                EditorAction::BeginSelection,
            ),
            Tool::Pen => (EditorState { stroke_active: true, ..s1 }, EditorAction::BeginStroke),
            Tool::Rect | Tool::Blur => (
                EditorState { rect_active: true, ..s1 },
                EditorAction::BeginRect,
            ),
            Tool::Eraser => (s1, EditorAction::EraseAt),
        }
    }
}

/// The pointer moves: a selection being drawn follows it, a stroke being
/// drawn grows, a rectangle being drawn spans the press and the pointer.
/// A drag whose start was ignored (outside the crop box) draws nothing.
pub open spec fn drag_update(s: EditorState) -> (EditorState, EditorAction) {
    match s.current_tool {
        Tool::Select => if s.is_selecting {
            (s, EditorAction::ResizeSelection)
        } else {
            (s, EditorAction::Nothing)
        },
        Tool::Pen => if s.stroke_active {
            (s, EditorAction::ExtendStroke)
        } else {
            (s, EditorAction::Nothing)
        },
        Tool::Rect | Tool::Blur => if s.rect_active {
            (s, EditorAction::ResizeRect)
        } else {
            (s, EditorAction::Nothing)
        },
        Tool::Eraser => (s, EditorAction::Nothing),
    }
}

/// A drag ends. A selection larger than five pixels each way is kept and
/// the pen becomes the tool; a smaller one is discarded. A stroke with two
/// points or more, or a rectangle larger than five pixels each way, is
/// added to the drawings; the shape being drawn ends either way. The
/// toolbar then shows exactly when a selection exists.
pub open spec fn drag_end(
    s: EditorState,
    selection_large: bool,
    stroke_long: bool,
    rect_large: bool,
) -> (EditorState, EditorAction) {
    let (s1, a) = match s.current_tool {
        Tool::Select => if selection_large {
            (
                EditorState { is_selecting: false, current_tool: Tool::Pen, ..s },
                EditorAction::EndSelection { keep: true },
            )
        } else {
            (
                EditorState { is_selecting: false, has_selection: false, ..s },
                EditorAction::EndSelection { keep: false },
            )
        },
        Tool::Pen => if s.stroke_active {
            (EditorState { stroke_active: false, ..s }, EditorAction::EndStroke { keep: stroke_long })
        } else {
            (s, EditorAction::Nothing)
        },
        Tool::Rect => if s.rect_active {
            (EditorState { rect_active: false, ..s }, EditorAction::EndRect { keep: rect_large })
        } else {
            (s, EditorAction::Nothing)
        },
        Tool::Blur => if s.rect_active {
            (EditorState { rect_active: false, ..s }, EditorAction::EndBlur { keep: rect_large })
        } else {
            (s, EditorAction::Nothing)
        },
        Tool::Eraser => (s, EditorAction::Nothing),
    };
    (EditorState { toolbar_visible: s1.has_selection, ..s1 }, a)
}

/// The reset button drops the selection, the drawings and the shapes
/// being drawn, selects the selection tool and hides the toolbar.
pub open spec fn reset_editor(s: EditorState) -> EditorState {
    EditorState {
        has_selection: false,
        current_tool: Tool::Select,
        stroke_active: false,
        rect_active: false,
        toolbar_visible: false,
        ..s
    }
}

/// The editor after `e`, and what the caller does.
pub open spec fn editor_step(s: EditorState, e: EditorEvent) -> (EditorState, EditorAction) {
    match e {
        EditorEvent::ToolClicked(t) => (EditorState { current_tool: t, ..s }, EditorAction::Nothing),
        EditorEvent::ResetClicked => (reset_editor(s), EditorAction::ClearAll),
        EditorEvent::DragBegin { inside_crop } => drag_begin(s, inside_crop),
        EditorEvent::DragUpdate => drag_update(s),
        EditorEvent::DragEnd { selection_large, stroke_long, rect_large } => drag_end(
            s,
            selection_large,
            stroke_long,
            rect_large,
        ),
    }
}

/// What a key asks for: Escape closes, Return copies, `s` or `S` with
/// Control saves; anything else passes on.
pub open spec fn key_action(key: EditorKey, ctrl: bool) -> KeyAction {
    match key {
        EditorKey::Escape => KeyAction::Close,
        EditorKey::Return => KeyAction::Copy,
        EditorKey::Char(c) => if (c == 's' || c == 'S') && ctrl {
            KeyAction::Save
        } else {
            KeyAction::Proceed
        },
        EditorKey::Other => KeyAction::Proceed,
    }
}

impl EditorState {
    /// The editor as it opens.
    pub fn new() -> (s: Self)
        ensures
            s == initial_editor(),
    {
        EditorState {
            has_selection: false,
            is_selecting: false,
            current_tool: Tool::Select,
            stroke_active: false,
            rect_active: false,
            toolbar_visible: false,
        }
    }

    /// Applies `e`: the editor changes as `editor_step` says, and the
    /// action for the caller is returned.
    pub fn handle(&mut self, e: EditorEvent) -> (a: EditorAction)
        ensures
            (*final(self), a) == editor_step(*old(self), e),
    {
        let s = *self;
        match e {
            EditorEvent::ToolClicked(t) => {
                self.current_tool = t;
                EditorAction::Nothing
            },
            EditorEvent::ResetClicked => {
                self.has_selection = false;
                self.current_tool = Tool::Select;
                self.stroke_active = false;
                self.rect_active = false;
                self.toolbar_visible = false;
                EditorAction::ClearAll
            },
            EditorEvent::DragBegin { inside_crop } => {
                if !s.has_selection {
                    self.current_tool = Tool::Select;
                }
                let tool = self.current_tool;
                if self.has_selection && tool != Tool::Select && !inside_crop {
                    return EditorAction::Nothing;
                }
                match tool {
                    Tool::Select => {
                        self.is_selecting = true;
                        self.has_selection = true;
                        self.toolbar_visible = false;
                        EditorAction::BeginSelection
                    },
                    Tool::Pen => {
                        self.stroke_active = true;
                        EditorAction::BeginStroke
                    },
                    Tool::Rect | Tool::Blur => {
                        self.rect_active = true;
                        EditorAction::BeginRect
                    },
                    Tool::Eraser => EditorAction::EraseAt,
                }
            },
            EditorEvent::DragUpdate => match s.current_tool {
                Tool::Select => if s.is_selecting {
                    EditorAction::ResizeSelection
                } else {
                    EditorAction::Nothing
                },
                Tool::Pen => if s.stroke_active {
                    EditorAction::ExtendStroke
                } else {
                    EditorAction::Nothing
                },
                Tool::Rect | Tool::Blur => if s.rect_active {
                    EditorAction::ResizeRect
                } else {
                    EditorAction::Nothing
                },
                Tool::Eraser => EditorAction::Nothing,
            },
            EditorEvent::DragEnd { selection_large, stroke_long, rect_large } => {
                let a = match s.current_tool {
                    Tool::Select => {
                        self.is_selecting = false;
                        if selection_large {
                            self.current_tool = Tool::Pen;
                        } else {
                            self.has_selection = false;
                        }
                        EditorAction::EndSelection { keep: selection_large }
                    },
                    Tool::Pen => if s.stroke_active {
                        self.stroke_active = false;
                        EditorAction::EndStroke { keep: stroke_long }
                    } else {
                        EditorAction::Nothing
                    },
                    Tool::Rect => if s.rect_active {
                        self.rect_active = false;
                        EditorAction::EndRect { keep: rect_large }
                    } else {
                        EditorAction::Nothing
                    },
                    Tool::Blur => if s.rect_active {
                        self.rect_active = false;
                        EditorAction::EndBlur { keep: rect_large }
                    } else {
                        EditorAction::Nothing
                    },
                    Tool::Eraser => EditorAction::Nothing,
                };
                self.toolbar_visible = self.has_selection;
                a
            },
        }
    }
}

/// What a key press asks of the editor; `ctrl` tells whether Control is
/// held.
pub fn editor_key(key: EditorKey, ctrl: bool) -> (r: KeyAction)
    ensures
        r == key_action(key, ctrl),
{
    match key {
        EditorKey::Escape => KeyAction::Close,
        EditorKey::Return => KeyAction::Copy,
        EditorKey::Char(c) => if (c == 's' || c == 'S') && ctrl {
            KeyAction::Save
        } else {
            KeyAction::Proceed
        },
        EditorKey::Other => KeyAction::Proceed,
    }
}

/// The toolbar is hidden when the editor opens, and no event shows it
/// while no selection exists.
pub proof fn law_toolbar_needs_selection(s: EditorState, e: EditorEvent)
    requires
        editor_wf(s),
    ensures
        editor_wf(initial_editor()),
        editor_wf(editor_step(s, e).0),
{
}

/// A drag that begins without a selection always starts one; a stroke, a
/// rectangle or an erasure starts only inside the crop box of an existing
/// selection.
pub proof fn law_drawing_needs_selection(s: EditorState, inside_crop: bool)
    ensures
        !s.has_selection ==> editor_step(s, EditorEvent::DragBegin { inside_crop }).1
            == EditorAction::BeginSelection,
        ({
            let a = editor_step(s, EditorEvent::DragBegin { inside_crop }).1;
            (a == EditorAction::BeginStroke || a == EditorAction::BeginRect || a
                == EditorAction::EraseAt) ==> s.has_selection && inside_crop
        }),
{
}

/// A drag with a drawing tool that begins outside the crop box draws
/// nothing: between drags nothing is being drawn, the press is ignored and
/// leaves the editor as it was, every pointer move then leaves it as it is
/// and asks for nothing, and the end of the drag adds, erases or changes
/// nothing.
pub proof fn law_outside_drag_draws_nothing(
    s: EditorState,
    selection_large: bool,
    stroke_long: bool,
    rect_large: bool,
)
    requires
        s.has_selection,
        s.current_tool != Tool::Select,
        !s.stroke_active,
        !s.rect_active,
    ensures
        editor_step(s, (EditorEvent::DragBegin { inside_crop: false })) == (s, EditorAction::Nothing),
        editor_step(s, EditorEvent::DragUpdate) == (s, EditorAction::Nothing),
        editor_step(s, (EditorEvent::DragEnd { selection_large, stroke_long, rect_large })).1
            == EditorAction::Nothing,
        editor_step(s, (EditorEvent::DragEnd { selection_large, stroke_long, rect_large })).0
            == (EditorState { toolbar_visible: s.has_selection, ..s }),
{
}

/// When a selection drag ends, a selection larger than five pixels each
/// way stays, the pen becomes the tool and the toolbar shows; a smaller
/// one is discarded and the toolbar hides.
pub proof fn law_selection_end(
    s: EditorState,
    selection_large: bool,
    stroke_long: bool,
    rect_large: bool,
)
    requires
        s.current_tool == Tool::Select,
        s.has_selection,
    ensures
        ({
            let (t, a) = editor_step(
                s,
                EditorEvent::DragEnd { selection_large, stroke_long, rect_large },
            );
            &&& !t.is_selecting
            &&& t.has_selection == selection_large
            &&& t.toolbar_visible == selection_large
            &&& selection_large ==> t.current_tool == Tool::Pen
            &&& a == EditorAction::EndSelection { keep: selection_large }
        }),
{
}

/// Reset drops the selection and whatever is being drawn, selects the
/// selection tool and hides the toolbar; outside a selection drag it
/// brings the editor back to how it opened.
pub proof fn law_reset(s: EditorState)
    ensures
        ({
            let (t, a) = editor_step(s, EditorEvent::ResetClicked);
            &&& !t.has_selection && !t.toolbar_visible
            &&& !t.stroke_active && !t.rect_active
            &&& t.current_tool == Tool::Select
            &&& a == EditorAction::ClearAll
            &&& !s.is_selecting ==> t == initial_editor()
        }),
{
}

/// The selection tool always starts a new selection: with it current, a
/// press anywhere (inside the crop box or not, with or without a
/// selection) begins one there, marks a selection as being drawn and
/// hides the toolbar; the outside-the-crop guard is for drawing tools only.
pub proof fn law_select_tool_always_starts_selection(s: EditorState, inside_crop: bool)
    requires
        s.current_tool == Tool::Select,
    ensures
        ({
            let (t, a) = editor_step(s, (EditorEvent::DragBegin { inside_crop }));
            &&& a == EditorAction::BeginSelection
            &&& t.is_selecting && t.has_selection && !t.toolbar_visible
            &&& t.current_tool == Tool::Select
            &&& t.stroke_active == s.stroke_active && t.rect_active == s.rect_active
        }),
{
}

/// Inside the crop box of a selection, each drawing tool starts its own
/// shape: the pen a stroke, the rectangle and blur tools a rectangle, the
/// eraser an erasure.
pub proof fn law_drawing_starts_inside_crop(s: EditorState)
    requires
        s.has_selection,
    ensures
        ({
            let a = editor_step(s, (EditorEvent::DragBegin { inside_crop: true })).1;
            &&& s.current_tool == Tool::Pen ==> a == EditorAction::BeginStroke
            &&& (s.current_tool == Tool::Rect || s.current_tool == Tool::Blur) ==> a
                == EditorAction::BeginRect
            &&& s.current_tool == Tool::Eraser ==> a == EditorAction::EraseAt
        }),
{
}

} // verus!
