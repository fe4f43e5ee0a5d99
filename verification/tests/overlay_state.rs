use screenshot::overlay::{
    cursor_for_resize_edge, finish_action, hover_cursor, key_command, press_drag_mode, request_actions,
    resize_edge_from_hits, ActionRequests, Annotation, AnnotationLayer, CursorShape, DragMode,
    DrawTool, FinishAction, OverlayKey, PreviewKind, ResizeEdge, ToolState,
};

fn edge(top: bool, bottom: bool, left: bool, right: bool) -> ResizeEdge {
    ResizeEdge { top, bottom, left, right }
}

#[test]
fn toggling_a_tool_switches_the_others_off() {
    let mut tools = ToolState::new();
    tools.toggle_pick_color();
    tools.toggle_draw_tool(DrawTool::Pen);
    assert!(tools.pen && !tools.pick_color);
    tools.toggle_draw_tool(DrawTool::Arrow);
    assert!(tools.arrow && !tools.pen);
    assert_eq!(tools.preview_kind(), Some(PreviewKind::Line { arrow: true }));
    tools.toggle_draw_tool(DrawTool::Arrow);
    assert!(!tools.any_draw_tool_active());
    assert_eq!(tools.preview_kind(), None);
}

#[test]
fn pen_takes_precedence_in_previews() {
    let mut tools = ToolState::new();
    tools.set_active_draw_tool(true, true, false, false);
    assert_eq!(tools.preview_kind(), Some(PreviewKind::Pen));
    tools.set_active_draw_tool(false, false, true, false);
    assert_eq!(tools.preview_kind(), Some(PreviewKind::Line { arrow: false }));
    tools.finish_pick_color();
    assert!(!tools.pick_color);
}

#[test]
fn undo_discards_preview_before_history() {
    let mut layer: AnnotationLayer<u8, u16, u32> = AnnotationLayer::new();
    layer.begin_rect(1);
    layer.finalize(false, true, false);
    assert_eq!(layer.annotations, vec![Annotation::Rect(1)]);
    layer.begin_pen(7);
    layer.undo();
    assert!(layer.pen.is_none());
    assert_eq!(layer.annotations.len(), 1);
    layer.undo();
    assert!(layer.annotations.is_empty());
    layer.undo();
    assert!(layer.annotations.is_empty());
}

#[test]
fn finalize_keeps_only_large_enough_shapes() {
    let mut layer: AnnotationLayer<u8, u16, u32> = AnnotationLayer::new();
    layer.pen = Some(1);
    layer.rect = Some(2);
    layer.line = Some(3);
    layer.finalize(true, false, true);
    assert_eq!(layer.annotations, vec![Annotation::Pen(1), Annotation::Line(3)]);
    assert!(layer.pen.is_none() && layer.rect.is_none() && layer.line.is_none());
}

#[test]
fn begin_replaces_other_previews_and_clear_all_empties() {
    let mut layer: AnnotationLayer<u8, u16, u32> = AnnotationLayer::new();
    layer.begin_pen(1);
    layer.begin_line(2);
    assert!(layer.pen.is_none());
    assert_eq!(layer.line, Some(2));
    layer.finalize(true, true, true);
    layer.begin_rect(5);
    layer.clear_active_preview();
    assert_eq!(layer.annotations.len(), 1);
    layer.clear_all();
    assert!(layer.annotations.is_empty());
}

#[test]
fn resize_cursors() {
    assert_eq!(cursor_for_resize_edge(edge(true, false, true, false)), CursorShape::ResizeNwSe);
    assert_eq!(cursor_for_resize_edge(edge(false, true, true, false)), CursorShape::ResizeNeSw);
    assert_eq!(cursor_for_resize_edge(edge(false, false, false, true)), CursorShape::ResizeHorizontal);
    assert_eq!(cursor_for_resize_edge(edge(true, false, false, false)), CursorShape::ResizeVertical);
    assert_eq!(cursor_for_resize_edge(edge(false, false, false, false)), CursorShape::Default);
}

#[test]
fn edges_need_a_hit_near_the_box() {
    assert_eq!(resize_edge_from_hits(true, false, false, false, true), Some(edge(true, false, false, false)));
    assert_eq!(resize_edge_from_hits(true, false, false, false, false), None);
    assert_eq!(resize_edge_from_hits(false, false, false, false, true), None);
}

#[test]
fn press_starts_resize_move_or_new_selection() {
    let e = edge(false, true, false, false);
    assert_eq!(press_drag_mode(true, Some(e), true), DragMode::Resizing(e));
    assert_eq!(press_drag_mode(true, None, true), DragMode::Moving);
    assert_eq!(press_drag_mode(true, None, false), DragMode::Creating);
    assert_eq!(press_drag_mode(false, Some(e), true), DragMode::Creating);
}

#[test]
fn hover_cursor_follows_drag_and_position() {
    let e = edge(false, false, true, false);
    assert_eq!(hover_cursor(true, DragMode::Moving, None, false), Some(CursorShape::Grabbing));
    assert_eq!(hover_cursor(true, DragMode::Idle, None, true), None);
    assert_eq!(hover_cursor(false, DragMode::Idle, Some(e), true), Some(CursorShape::ResizeHorizontal));
    assert_eq!(hover_cursor(false, DragMode::Idle, None, true), Some(CursorShape::Grab));
    assert_eq!(hover_cursor(false, DragMode::Idle, None, false), Some(CursorShape::Crosshair));
}

#[test]
fn key_commands() {
    assert!(key_command(OverlayKey::C, true).copy);
    assert!(!key_command(OverlayKey::C, false).copy);
    assert!(key_command(OverlayKey::X, true).copy);
    assert!(key_command(OverlayKey::Enter, false).copy);
    assert!(key_command(OverlayKey::S, true).save);
    assert!(!key_command(OverlayKey::S, false).save);
    assert!(key_command(OverlayKey::Escape, false).exit);
    assert_eq!(
        key_command(OverlayKey::Other, true),
        screenshot::overlay::KeyCommand { copy: false, save: false, exit: false }
    );
}

#[test]
fn actions_need_a_selection() {
    let mut requests = ActionRequests { copy_requested: false, save_requested: false };
    request_actions(&mut requests, false, true, true);
    assert_eq!(requests, ActionRequests { copy_requested: false, save_requested: false });
    request_actions(&mut requests, true, true, false);
    assert_eq!(requests, ActionRequests { copy_requested: true, save_requested: false });
}

#[test]
fn save_takes_precedence_over_copy() {
    let both = ActionRequests { copy_requested: true, save_requested: true };
    assert_eq!(finish_action(&both), Some(FinishAction::Save));
    let copy = ActionRequests { copy_requested: true, save_requested: false };
    assert_eq!(finish_action(&copy), Some(FinishAction::Copy));
    let none = ActionRequests { copy_requested: false, save_requested: false };
    assert_eq!(finish_action(&none), None);
}
