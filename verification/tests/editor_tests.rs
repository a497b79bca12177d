use archvnde::editor::{editor_key, EditorAction, EditorEvent, EditorKey, EditorState, KeyAction, Tool};

fn end(selection_large: bool, stroke_long: bool, rect_large: bool) -> EditorEvent {
    EditorEvent::DragEnd { selection_large, stroke_long, rect_large }
}

#[test]
fn editor_opens_with_select_tool_and_no_toolbar() {
    let s = EditorState::new();
    assert!(!s.has_selection);
    assert!(!s.is_selecting);
    assert_eq!(s.current_tool, Tool::Select);
    assert!(!s.toolbar_visible);
}

#[test]
fn editor_select_then_draw_stroke() {
    let mut s = EditorState::new();
    assert_eq!(s.handle(EditorEvent::DragBegin { inside_crop: false }), EditorAction::BeginSelection);
    assert!(s.is_selecting && s.has_selection && !s.toolbar_visible);
    assert_eq!(s.handle(EditorEvent::DragUpdate), EditorAction::ResizeSelection);
    assert_eq!(s.handle(end(true, false, false)), EditorAction::EndSelection { keep: true });
    assert_eq!(s.current_tool, Tool::Pen);
    assert!(s.toolbar_visible && !s.is_selecting);

    assert_eq!(s.handle(EditorEvent::DragBegin { inside_crop: true }), EditorAction::BeginStroke);
    assert_eq!(s.handle(EditorEvent::DragUpdate), EditorAction::ExtendStroke);
    assert_eq!(s.handle(end(false, true, false)), EditorAction::EndStroke { keep: true });
    assert!(!s.stroke_active);
    assert!(s.toolbar_visible);
}

#[test]
fn editor_small_selection_is_discarded() {
    let mut s = EditorState::new();
    s.handle(EditorEvent::DragBegin { inside_crop: false });
    assert_eq!(s.handle(end(false, true, true)), EditorAction::EndSelection { keep: false });
    assert!(!s.has_selection);
    assert!(!s.toolbar_visible);
    assert_eq!(s.current_tool, Tool::Select);
}

#[test]
fn editor_drawing_outside_crop_is_ignored() {
    let mut s = EditorState::new();
    s.handle(EditorEvent::DragBegin { inside_crop: false });
    s.handle(end(true, false, false));
    s.handle(EditorEvent::ToolClicked(Tool::Rect));
    let before = s;
    assert_eq!(s.handle(EditorEvent::DragBegin { inside_crop: false }), EditorAction::Nothing);
    assert_eq!(s, before);
}

#[test]
fn editor_tool_without_selection_falls_back_to_select() {
    let mut s = EditorState::new();
    s.handle(EditorEvent::ToolClicked(Tool::Pen));
    assert_eq!(s.current_tool, Tool::Pen);
    assert_eq!(s.handle(EditorEvent::DragBegin { inside_crop: true }), EditorAction::BeginSelection);
    assert_eq!(s.current_tool, Tool::Select);
}

#[test]
fn editor_rect_and_blur_and_eraser() {
    let mut s = EditorState::new();
    s.handle(EditorEvent::DragBegin { inside_crop: false });
    s.handle(end(true, false, false));
    s.handle(EditorEvent::ToolClicked(Tool::Rect));
    assert_eq!(s.handle(EditorEvent::DragBegin { inside_crop: true }), EditorAction::BeginRect);
    assert_eq!(s.handle(EditorEvent::DragUpdate), EditorAction::ResizeRect);
    assert_eq!(s.handle(end(false, false, false)), EditorAction::EndRect { keep: false });
    assert!(!s.rect_active);

    s.handle(EditorEvent::ToolClicked(Tool::Blur));
    assert_eq!(s.handle(EditorEvent::DragBegin { inside_crop: true }), EditorAction::BeginRect);
    assert_eq!(s.handle(end(false, false, true)), EditorAction::EndBlur { keep: true });

    s.handle(EditorEvent::ToolClicked(Tool::Eraser));
    assert_eq!(s.handle(EditorEvent::DragBegin { inside_crop: true }), EditorAction::EraseAt);
    assert_eq!(s.handle(EditorEvent::DragUpdate), EditorAction::Nothing);
    assert_eq!(s.handle(end(true, true, true)), EditorAction::Nothing);
    assert!(s.toolbar_visible);
}

#[test]
fn editor_rect_drag_outside_crop_draws_nothing() {
    let mut s = EditorState::new();
    s.handle(EditorEvent::DragBegin { inside_crop: false });
    s.handle(end(true, false, false));
    s.handle(EditorEvent::ToolClicked(Tool::Rect));
    assert_eq!(s.handle(EditorEvent::DragBegin { inside_crop: false }), EditorAction::Nothing);
    assert_eq!(s.handle(EditorEvent::DragUpdate), EditorAction::Nothing);
    assert!(!s.rect_active);
    assert_eq!(s.handle(end(true, true, true)), EditorAction::Nothing);
    assert!(s.toolbar_visible);
}

#[test]
fn editor_reset_returns_to_opening_state() {
    let mut s = EditorState::new();
    s.handle(EditorEvent::DragBegin { inside_crop: false });
    s.handle(end(true, false, false));
    s.handle(EditorEvent::DragBegin { inside_crop: true });
    assert_eq!(s.handle(EditorEvent::ResetClicked), EditorAction::ClearAll);
    assert_eq!(s, EditorState::new());
}

#[test]
fn editor_keys() {
    assert_eq!(editor_key(EditorKey::Escape, false), KeyAction::Close);
    assert_eq!(editor_key(EditorKey::Return, true), KeyAction::Copy);
    assert_eq!(editor_key(EditorKey::Char('s'), true), KeyAction::Save);
    assert_eq!(editor_key(EditorKey::Char('S'), true), KeyAction::Save);
    assert_eq!(editor_key(EditorKey::Char('s'), false), KeyAction::Proceed);
    assert_eq!(editor_key(EditorKey::Char('x'), true), KeyAction::Proceed);
    assert_eq!(editor_key(EditorKey::Other, true), KeyAction::Proceed);
}
