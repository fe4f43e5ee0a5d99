//! The decisions of the crop-and-annotate overlay: which drawing tool is
//! active, the annotation history and its undo, what a press on the
//! selection starts, which cursor to show, and what a key press asks for.
use vstd::prelude::*;

verus! {

/// The drawing tools of the toolbar.
#[derive(Debug, Clone, Copy, PartialEq, Eq, Structural)]
pub enum DrawTool {
    Pen,
    Rect,
    Line,
    Arrow,
}

/// Which tool modes are on.
#[derive(Debug, Clone, Copy, PartialEq, Eq, Structural)]
pub struct ToolState {
    pub pen: bool,
    pub rect: bool,
    pub line: bool,
    pub arrow: bool,
    /// The eyedropper: the next press picks the colour under the pointer.
    pub pick_color: bool,
}

/// The annotation that a press inside the selection starts.
#[derive(Debug, Clone, Copy, PartialEq, Eq, Structural)]
pub enum PreviewKind {
    Pen,
    Rect,
    /// A straight line, with an arrow head when `arrow` is set.
    Line { arrow: bool },
}

/// At most one drawing tool is on.
pub open spec fn at_most_one_tool(t: ToolState) -> bool {
    (if t.pen { 1int } else { 0 }) + (if t.rect { 1int } else { 0 }) + (if t.line { 1int } else { 0 })
        + (if t.arrow { 1int } else { 0 }) <= 1
}

/// Whether a tool's mode is on.
pub open spec fn tool_on(t: ToolState, tool: DrawTool) -> bool {
    match tool {
        DrawTool::Pen => t.pen,
        DrawTool::Rect => t.rect,
        DrawTool::Line => t.line,
        DrawTool::Arrow => t.arrow,
    }
}

/// What a press inside the selection starts with these modes.
pub open spec fn spec_preview_kind(t: ToolState) -> Option<PreviewKind> {
    if t.pen {
        Some(PreviewKind::Pen)
    } else if t.rect {
        Some(PreviewKind::Rect)
    } else if t.line || t.arrow {
        Some(PreviewKind::Line { arrow: t.arrow })
    } else {
        None
    }
}

impl ToolState {
    /// All modes off.
    pub fn new() -> (t: ToolState)
        ensures
            !t.pen && !t.rect && !t.line && !t.arrow && !t.pick_color,
    {
        ToolState { pen: false, rect: false, line: false, arrow: false, pick_color: false }
    }

    /// Whether any drawing tool is on.
    pub fn any_draw_tool_active(&self) -> (res: bool)
        ensures
            res == (self.pen || self.rect || self.line || self.arrow),
    {
        self.pen || self.rect || self.line || self.arrow
    }

    /// Sets the four drawing modes and turns the eyedropper off.
    pub fn set_active_draw_tool(&mut self, pen: bool, rect: bool, line: bool, arrow: bool)
        ensures
            *final(self) == (ToolState { pen, rect, line, arrow, pick_color: false }),
    {
        self.pen = pen;
        self.rect = rect;
        self.line = line;
        self.arrow = arrow;
        self.pick_color = false;
    }

    /// A click on a tool's button: the tool is switched on if it was off and
    /// off if it was on, every other tool and the eyedropper are switched off.
    pub fn toggle_draw_tool(&mut self, tool: DrawTool)
        ensures
            tool_on(*final(self), tool) == !tool_on(*old(self), tool),
            forall|other: DrawTool| other != tool ==> !tool_on(*final(self), other),
            !final(self).pick_color,
    {
        match tool {
            DrawTool::Pen => {
                let next = !self.pen;
                self.set_active_draw_tool(next, false, false, false);
            },
            DrawTool::Rect => {
                let next = !self.rect;
                self.set_active_draw_tool(false, next, false, false);
            },
            DrawTool::Line => {
                let next = !self.line;
                self.set_active_draw_tool(false, false, next, false);
            },
            DrawTool::Arrow => {
                let next = !self.arrow;
                self.set_active_draw_tool(false, false, false, next);
            },
        }
    }

    /// A click on the eyedropper button switches it on or off.
    pub fn toggle_pick_color(&mut self)
        ensures
            *final(self) == (ToolState { pick_color: !old(self).pick_color, ..*old(self) }),
    {
        self.pick_color = !self.pick_color;
    }

    /// A colour was picked: the eyedropper switches off.
    pub fn finish_pick_color(&mut self)
        ensures
            *final(self) == (ToolState { pick_color: false, ..*old(self) }),
    {
        self.pick_color = false;
    }

    /// What a press inside the selection starts: the pen takes precedence,
    /// then the rectangle, then the line and arrow tools.
    pub fn preview_kind(&self) -> (res: Option<PreviewKind>)
        ensures
            res == spec_preview_kind(*self),
    {
        if self.pen {
            Some(PreviewKind::Pen)
        } else if self.rect {
            Some(PreviewKind::Rect)
        } else if self.line || self.arrow {
            Some(PreviewKind::Line { arrow: self.arrow })
        } else {
            None
        }
    }
}

/// The toolbar never has two drawing tools on: every button click keeps at
/// most one on, and clicking the same tool twice switches it off again.
pub proof fn toolbar_keeps_one_tool(t: ToolState, tool: DrawTool, after: ToolState, twice: ToolState)
    requires
        tool_on(after, tool) == !tool_on(t, tool),
        forall|other: DrawTool| other != tool ==> !tool_on(after, other),
        tool_on(twice, tool) == !tool_on(after, tool),
        forall|other: DrawTool| other != tool ==> !tool_on(twice, other),
    ensures
        at_most_one_tool(after),
        at_most_one_tool(twice),
        !t.pen && !t.rect && !t.line && !t.arrow ==> !twice.pen && !twice.rect && !twice.line
            && !twice.arrow,
{
    assert(!tool_on(after, DrawTool::Pen) || tool == DrawTool::Pen);
    assert(!tool_on(after, DrawTool::Rect) || tool == DrawTool::Rect);
    assert(!tool_on(after, DrawTool::Line) || tool == DrawTool::Line);
    assert(!tool_on(after, DrawTool::Arrow) || tool == DrawTool::Arrow);
    assert(!tool_on(twice, DrawTool::Pen) || tool == DrawTool::Pen);
    assert(!tool_on(twice, DrawTool::Rect) || tool == DrawTool::Rect);
    assert(!tool_on(twice, DrawTool::Line) || tool == DrawTool::Line);
    assert(!tool_on(twice, DrawTool::Arrow) || tool == DrawTool::Arrow);
}

/// What a press with a tool draws: the pen a stroke, the rectangle tool a
/// rectangle, the line tool a plain line and the arrow tool a line with an
/// arrow head.
pub open spec fn tool_preview(tool: DrawTool) -> PreviewKind {
    match tool {
        DrawTool::Pen => PreviewKind::Pen,
        DrawTool::Rect => PreviewKind::Rect,
        DrawTool::Line => PreviewKind::Line { arrow: false },
        DrawTool::Arrow => PreviewKind::Line { arrow: true },
    }
}

/// A press inside the selection draws with the tool that is on: when exactly
/// one drawing tool is on, it starts that tool's shape; with none on, it
/// starts nothing. Right after a toolbar click that switches a tool on, a
/// press draws with that tool.
pub proof fn press_draws_with_the_active_tool(t: ToolState, tool: DrawTool, after: ToolState)
    ensures
        tool_on(t, tool) && (forall|other: DrawTool| other != tool ==> !tool_on(t, other))
            ==> spec_preview_kind(t) == Some(tool_preview(tool)),
        !t.pen && !t.rect && !t.line && !t.arrow ==> spec_preview_kind(t) is None,
        t.rect && !t.pen && !t.line && !t.arrow ==> spec_preview_kind(t) == Some(PreviewKind::Rect),
        !tool_on(t, tool) && tool_on(after, tool) && (forall|other: DrawTool|
            other != tool ==> !tool_on(after, other)) ==> spec_preview_kind(after) == Some(
            tool_preview(tool),
        ),
{
    assert(tool_on(t, DrawTool::Pen) == t.pen);
    assert(tool_on(t, DrawTool::Rect) == t.rect);
    assert(tool_on(t, DrawTool::Line) == t.line);
    assert(tool_on(t, DrawTool::Arrow) == t.arrow);
    assert(tool_on(after, DrawTool::Pen) == after.pen);
    assert(tool_on(after, DrawTool::Rect) == after.rect);
    assert(tool_on(after, DrawTool::Line) == after.line);
    assert(tool_on(after, DrawTool::Arrow) == after.arrow);
}

/// A finished annotation: a pen stroke, a rectangle, or a line or arrow.
#[derive(Debug, Clone, PartialEq)]
pub enum Annotation<P, R, L> {
    Pen(P),
    Rect(R),
    Line(L),
}

/// The annotations of the current selection and the one being drawn.
#[derive(Debug, Clone)]
pub struct AnnotationLayer<P, R, L> {
    /// Finished annotations, oldest first.
    pub annotations: Vec<Annotation<P, R, L>>,
    /// The pen stroke being drawn.
    pub pen: Option<P>,
    /// The rectangle being drawn.
    pub rect: Option<R>,
    /// The line or arrow being drawn.
    pub line: Option<L>,
}

impl<P, R, L> AnnotationLayer<P, R, L> {
    /// No annotations and nothing being drawn.
    pub fn new() -> (layer: Self)
        ensures
            layer.annotations@.len() == 0,
            layer.pen is None && layer.rect is None && layer.line is None,
    {
        AnnotationLayer { annotations: Vec::new(), pen: None, rect: None, line: None }
    }

    /// Whether something is being drawn.
    pub open spec fn has_preview(&self) -> bool {
        self.pen is Some || self.rect is Some || self.line is Some
    }

    /// Discards what is being drawn; finished annotations stay.
    pub fn clear_active_preview(&mut self)
        ensures
            final(self).annotations@ == old(self).annotations@,
            final(self).pen is None && final(self).rect is None && final(self).line is None,
    {
        self.pen = None;
        self.rect = None;
        self.line = None;
    }

    /// Discards every annotation, finished or not (a new selection was started).
    pub fn clear_all(&mut self)
        ensures
            final(self).annotations@.len() == 0,
            final(self).pen is None && final(self).rect is None && final(self).line is None,
    {
        self.annotations.clear();
        self.clear_active_preview();
    }

    /// Starts a pen stroke, discarding any other shape being drawn.
    pub fn begin_pen(&mut self, stroke: P)
        ensures
            final(self).annotations@ == old(self).annotations@,
            final(self).pen == Some(stroke),
            final(self).rect is None && final(self).line is None,
    {
        self.rect = None;
        self.line = None;
        self.pen = Some(stroke);
    }

    /// Starts a rectangle, discarding any other shape being drawn.
    pub fn begin_rect(&mut self, shape: R)
        ensures
            final(self).annotations@ == old(self).annotations@,
            final(self).rect == Some(shape),
            final(self).pen is None && final(self).line is None,
    {
        self.pen = None;
        self.line = None;
        self.rect = Some(shape);
    }

    /// Starts a line or arrow, discarding any other shape being drawn.
    pub fn begin_line(&mut self, shape: L)
        ensures
            final(self).annotations@ == old(self).annotations@,
            final(self).line == Some(shape),
            final(self).pen is None && final(self).rect is None,
    {
        self.pen = None;
        self.rect = None;
        self.line = Some(shape);
    }

    /// Undo: discards the shape being drawn if there is one (pen stroke
    /// first, then rectangle, then line); otherwise removes the most recent
    /// finished annotation, if any.
    pub fn undo(&mut self)
        ensures
            old(self).pen is Some ==> {
                &&& final(self).pen is None
                &&& final(self).rect == old(self).rect
                &&& final(self).line == old(self).line
                &&& final(self).annotations@ == old(self).annotations@
            },
            old(self).pen is None && old(self).rect is Some ==> {
                &&& final(self).pen is None
                &&& final(self).rect is None
                &&& final(self).line == old(self).line
                &&& final(self).annotations@ == old(self).annotations@
            },
            old(self).pen is None && old(self).rect is None && old(self).line is Some ==> {
                &&& final(self).pen is None
                &&& final(self).rect is None
                &&& final(self).line is None
                &&& final(self).annotations@ == old(self).annotations@
            },
            !old(self).has_preview() ==> {
                &&& !final(self).has_preview()
                &&& final(self).annotations@ == without_last(old(self).annotations@)
            },
    {
        if self.pen.is_some() {
            self.pen = None;
            return;
        }
        if self.rect.is_some() {
            self.rect = None;
            return;
        }
        if self.line.is_some() {
            self.line = None;
            return;
        }
        let ghost before = self.annotations@;
        let _ = self.annotations.pop();
        assert(self.annotations@ =~= without_last(before));
    }

    /// Ends the shapes being drawn: each one whose size passed the caller's
    /// test (`keep_pen`: the stroke has more than one point; `keep_rect`:
    /// the rectangle is at least one point wide and tall; `keep_line`: the
    /// line is at least one point long) becomes a finished annotation, pen
    /// stroke first, then rectangle, then line; the others are discarded.
    pub fn finalize(&mut self, keep_pen: bool, keep_rect: bool, keep_line: bool)
        ensures
            final(self).pen is None && final(self).rect is None && final(self).line is None,
            final(self).annotations@ == old(self).annotations@ + finished(
                old(self).pen,
                old(self).rect,
                old(self).line,
                keep_pen,
                keep_rect,
                keep_line,
            ),
    {
        let ghost before = self.annotations@;
        let ghost pen0 = self.pen;
        let ghost rect0 = self.rect;
        let ghost line0 = self.line;
        let pen = self.pen.take();
        match pen {
            Some(stroke) => if keep_pen {
                self.annotations.push(Annotation::Pen(stroke));
            },
            None => {},
        }
        let ghost after_pen = self.annotations@;
        let rect = self.rect.take();
        match rect {
            Some(shape) => if keep_rect {
                self.annotations.push(Annotation::Rect(shape));
            },
            None => {},
        }
        let ghost after_rect = self.annotations@;
        let line = self.line.take();
        match line {
            Some(shape) => if keep_line {
                self.annotations.push(Annotation::Line(shape));
            },
            None => {},
        }
        assert(self.annotations@ =~= before + finished(pen0, rect0, line0, keep_pen, keep_rect, keep_line));
    }
}

/// The sequence without its last element (empty stays empty).
pub open spec fn without_last<A>(s: Seq<A>) -> Seq<A> {
    if s.len() == 0 { s } else { s.drop_last() }
}

/// The annotations that finishing these shapes adds, in order.
pub open spec fn finished<P, R, L>(
    pen: Option<P>,
    rect: Option<R>,
    line: Option<L>,
    keep_pen: bool,
    keep_rect: bool,
    keep_line: bool,
) -> Seq<Annotation<P, R, L>> {
    let a = match pen {
        Some(p) => if keep_pen { seq![Annotation::Pen(p)] } else { Seq::empty() },
        None => Seq::empty(),
    };
    let b = match rect {
        Some(r) => if keep_rect { seq![Annotation::Rect(r)] } else { Seq::empty() },
        None => Seq::empty(),
    };
    let c = match line {
        Some(l) => if keep_line { seq![Annotation::Line(l)] } else { Seq::empty() },
        None => Seq::empty(),
    };
    a + b + c
}

/// Undo right after finishing a single kept shape takes exactly that shape
/// back off: the finished annotations are those from before it was drawn.
pub proof fn undo_takes_back_finished_shape<P, R, L>(
    committed: Seq<Annotation<P, R, L>>,
    pen: Option<P>,
    rect: Option<R>,
    line: Option<L>,
    keep_pen: bool,
    keep_rect: bool,
    keep_line: bool,
)
    requires
        finished(pen, rect, line, keep_pen, keep_rect, keep_line).len() == 1,
    ensures
        without_last(committed + finished(pen, rect, line, keep_pen, keep_rect, keep_line))
            == committed,
{
    let after = committed + finished(pen, rect, line, keep_pen, keep_rect, keep_line);
    assert(after.drop_last() =~= committed);
}

/// Whether an annotation is a line or arrow.
pub open spec fn is_line<P, R, L>(a: Annotation<P, R, L>) -> bool {
    a is Line
}

/// Finishing the shapes being drawn keeps exactly those whose keep flag is
/// set: a shape adds one finished annotation, of its own kind and holding
/// it, when it was being drawn and is kept, and nothing otherwise. A click
/// with the line tool that drew a line too short to keep adds no line.
pub proof fn finalize_keeps_only_kept_shapes<P, R, L>(
    pen: Option<P>,
    rect: Option<R>,
    line: Option<L>,
    keep_pen: bool,
    keep_rect: bool,
    keep_line: bool,
)
    ensures
        ({
            let f = finished(pen, rect, line, keep_pen, keep_rect, keep_line);
            &&& f.len() == (if pen is Some && keep_pen { 1int } else { 0 }) + (if rect is Some
                && keep_rect { 1int } else { 0 }) + (if line is Some && keep_line { 1int } else { 0 })
            &&& forall|p: P| f.contains(Annotation::Pen(p)) <==> (pen == Some(p) && keep_pen)
            &&& forall|r: R| f.contains(Annotation::Rect(r)) <==> (rect == Some(r) && keep_rect)
            &&& forall|l: L| f.contains(Annotation::Line(l)) <==> (line == Some(l) && keep_line)
            &&& !keep_line ==> forall|i: int| 0 <= i < f.len() ==> !is_line(#[trigger] f[i])
        }),
{
    let f = finished(pen, rect, line, keep_pen, keep_rect, keep_line);
    let a: Seq<Annotation<P, R, L>> = match pen {
        Some(p) => if keep_pen { seq![Annotation::Pen(p)] } else { Seq::empty() },
        None => Seq::empty(),
    };
    let b: Seq<Annotation<P, R, L>> = match rect {
        Some(r) => if keep_rect { seq![Annotation::Rect(r)] } else { Seq::empty() },
        None => Seq::empty(),
    };
    let c: Seq<Annotation<P, R, L>> = match line {
        Some(l) => if keep_line { seq![Annotation::Line(l)] } else { Seq::empty() },
        None => Seq::empty(),
    };
    assert(f == a + b + c);
    assert forall|i: int| 0 <= i < f.len() implies (#[trigger] f[i] is Pen ==> i < a.len()) && (f[i] is Rect ==> a.len() <= i < a.len() + b.len()) && (f[i] is Line ==> a.len() + b.len() <= i) by {
        if i < a.len() {
            assert(f[i] == a[i]);
        } else if i < a.len() + b.len() {
            assert(f[i] == b[i - a.len()]);
        } else {
            assert(f[i] == c[i - a.len() - b.len()]);
        }
    }
    assert forall|p: P| f.contains(Annotation::Pen(p)) <==> (pen == Some(p) && keep_pen) by {
        if pen == Some(p) && keep_pen {
            assert(f[0] == Annotation::<P, R, L>::Pen(p));
        }
        if f.contains(Annotation::Pen(p)) {
            let i = choose|i: int| 0 <= i < f.len() && f[i] == Annotation::<P, R, L>::Pen(p);
            assert(f[i] == a[i]);
        }
    }
    assert forall|r: R| f.contains(Annotation::Rect(r)) <==> (rect == Some(r) && keep_rect) by {
        if rect == Some(r) && keep_rect {
            assert(f[a.len() as int] == Annotation::<P, R, L>::Rect(r));
        }
        if f.contains(Annotation::Rect(r)) {
            let i = choose|i: int| 0 <= i < f.len() && f[i] == Annotation::<P, R, L>::Rect(r);
            assert(f[i] == b[i - a.len()]);
        }
    }
    assert forall|l: L| f.contains(Annotation::Line(l)) <==> (line == Some(l) && keep_line) by {
        if line == Some(l) && keep_line {
            assert(f[(a.len() + b.len()) as int] == Annotation::<P, R, L>::Line(l));
        }
        if f.contains(Annotation::Line(l)) {
            let i = choose|i: int| 0 <= i < f.len() && f[i] == Annotation::<P, R, L>::Line(l);
            assert(f[i] == c[i - a.len() - b.len()]);
        }
    }
}

/// The sides of the selection a resize drag moves.
#[derive(Debug, Clone, Copy, PartialEq, Eq, Structural)]
pub struct ResizeEdge {
    pub top: bool,
    pub bottom: bool,
    pub left: bool,
    pub right: bool,
}

/// What a drag on the overlay does.
#[derive(Debug, Clone, Copy, PartialEq, Eq, Structural)]
pub enum DragMode {
    /// No drag in progress.
    Idle,
    /// Drawing a new selection from the press point.
    Creating,
    /// Moving the selection (and its annotations).
    Moving,
    /// Moving the given sides of the selection.
    Resizing(ResizeEdge),
}

/// The mouse cursors the overlay shows.
#[derive(Debug, Clone, Copy, PartialEq, Eq, Structural)]
pub enum CursorShape {
    Default,
    Crosshair,
    Grab,
    Grabbing,
    ResizeHorizontal,
    ResizeVertical,
    ResizeNwSe,
    ResizeNeSw,
}

/// The edges that a pointer within the handle distance of the selection
/// border grabs: those it is near, provided it is near at least one and
/// within the handle distance of the selection box (`near_box`).
pub fn resize_edge_from_hits(on_top: bool, on_bottom: bool, on_left: bool, on_right: bool, near_box: bool) -> (res: Option<ResizeEdge>)
    ensures
        res == (if (on_top || on_bottom || on_left || on_right) && near_box {
            Some(ResizeEdge { top: on_top, bottom: on_bottom, left: on_left, right: on_right })
        } else {
            None
        }),
{
    if (on_top || on_bottom || on_left || on_right) && near_box {
        Some(ResizeEdge { top: on_top, bottom: on_bottom, left: on_left, right: on_right })
    } else {
        None
    }
}

/// The resize cursor for the grabbed edges: diagonal for corners, then
/// horizontal or vertical for a single side.
pub open spec fn spec_cursor_for_resize_edge(edge: ResizeEdge) -> CursorShape {
    if (edge.top && edge.left) || (edge.bottom && edge.right) {
        CursorShape::ResizeNwSe
    } else if (edge.top && edge.right) || (edge.bottom && edge.left) {
        CursorShape::ResizeNeSw
    } else if edge.left || edge.right {
        CursorShape::ResizeHorizontal
    } else if edge.top || edge.bottom {
        CursorShape::ResizeVertical
    } else {
        CursorShape::Default
    }
}

/// The resize cursor for the grabbed edges.
pub fn cursor_for_resize_edge(edge: ResizeEdge) -> (res: CursorShape)
    ensures
        res == spec_cursor_for_resize_edge(edge),
{
    if (edge.top && edge.left) || (edge.bottom && edge.right) {
        CursorShape::ResizeNwSe
    } else if (edge.top && edge.right) || (edge.bottom && edge.left) {
        CursorShape::ResizeNeSw
    } else if edge.left || edge.right {
        CursorShape::ResizeHorizontal
    } else if edge.top || edge.bottom {
        CursorShape::ResizeVertical
    } else {
        CursorShape::Default
    }
}

/// The edges grabbed when the selection is turned half a turn: top and
/// bottom swap, and so do left and right.
pub open spec fn rotated(edge: ResizeEdge) -> ResizeEdge {
    ResizeEdge { top: edge.bottom, bottom: edge.top, left: edge.right, right: edge.left }
}

/// A corner's cursor is the diagonal through that corner: the top-left and
/// bottom-right corners resize along the `\` diagonal, the top-right and
/// bottom-left corners along `/`; a single side resizes along its normal;
/// and turning the selection half a turn keeps every cursor.
pub proof fn corner_cursor_is_its_diagonal(edge: ResizeEdge)
    ensures
        (edge.top && edge.left) || (edge.bottom && edge.right) ==> spec_cursor_for_resize_edge(edge)
            == CursorShape::ResizeNwSe,
        ((edge.top && edge.right) || (edge.bottom && edge.left)) && !(edge.top && edge.left)
            && !(edge.bottom && edge.right) ==> spec_cursor_for_resize_edge(edge)
            == CursorShape::ResizeNeSw,
        (edge.left || edge.right) && !edge.top && !edge.bottom ==> spec_cursor_for_resize_edge(edge)
            == CursorShape::ResizeHorizontal,
        (edge.top || edge.bottom) && !edge.left && !edge.right ==> spec_cursor_for_resize_edge(edge)
            == CursorShape::ResizeVertical,
        !edge.top && !edge.bottom && !edge.left && !edge.right ==> spec_cursor_for_resize_edge(edge)
            == CursorShape::Default,
        spec_cursor_for_resize_edge(rotated(edge)) == spec_cursor_for_resize_edge(edge),
{
}

/// What a primary press outside the drawing tools starts, given whether a
/// selection exists, the edges under the pointer, and whether the pointer
/// is inside the selection: resizing takes precedence over moving; a press
/// elsewhere starts a new selection.
pub fn press_drag_mode(has_selection: bool, edge_at: Option<ResizeEdge>, inside: bool) -> (res: DragMode)
    ensures
        res == (if has_selection && edge_at is Some {
            DragMode::Resizing(edge_at.unwrap())
        } else if has_selection && inside {
            DragMode::Moving
        } else {
            DragMode::Creating
        }),
{
    if has_selection {
        match edge_at {
            Some(edge) => DragMode::Resizing(edge),
            None => if inside {
                DragMode::Moving
            } else {
                DragMode::Creating
            },
        }
    } else {
        DragMode::Creating
    }
}

/// The cursor over an existing selection: during a drag the cursor of the
/// drag, otherwise the resize cursor on an edge, the grab hand inside, and
/// the crosshair outside.
pub open spec fn spec_hover_cursor(primary_down: bool, drag: DragMode, edge_at: Option<ResizeEdge>, inside: bool) -> Option<CursorShape> {
    if primary_down {
        match drag {
            DragMode::Resizing(edge) => Some(spec_cursor_for_resize_edge(edge)),
            DragMode::Moving => Some(CursorShape::Grabbing),
            DragMode::Creating => Some(CursorShape::Crosshair),
            DragMode::Idle => None,
        }
    } else {
        match edge_at {
            Some(edge) => Some(spec_cursor_for_resize_edge(edge)),
            None => if inside {
                Some(CursorShape::Grab)
            } else {
                Some(CursorShape::Crosshair)
            },
        }
    }
}

/// The cursor to show over an existing selection, if any.
pub fn hover_cursor(primary_down: bool, drag: DragMode, edge_at: Option<ResizeEdge>, inside: bool) -> (res: Option<CursorShape>)
    ensures
        res == spec_hover_cursor(primary_down, drag, edge_at, inside),
{
    if primary_down {
        match drag {
            DragMode::Resizing(edge) => Some(cursor_for_resize_edge(edge)),
            DragMode::Moving => Some(CursorShape::Grabbing),
            DragMode::Creating => Some(CursorShape::Crosshair),
            DragMode::Idle => None,
        }
    } else {
        match edge_at {
            Some(edge) => Some(cursor_for_resize_edge(edge)),
            None => if inside {
                Some(CursorShape::Grab)
            } else {
                Some(CursorShape::Crosshair)
            },
        }
    }
}

/// The keys the overlay reacts to.
#[derive(Debug, Clone, Copy, PartialEq, Eq, Structural)]
pub enum OverlayKey {
    C,
    X,
    S,
    Enter,
    Escape,
    Other,
}

/// What a key press asks for.
#[derive(Debug, Clone, Copy, PartialEq, Eq, Structural)]
pub struct KeyCommand {
    pub copy: bool,
    pub save: bool,
    pub exit: bool,
}

/// What pressing `key` asks for, with Ctrl or Command held or not:
/// Ctrl+C, Ctrl+X and Enter copy; Ctrl+S saves; Escape exits.
pub fn key_command(key: OverlayKey, ctrl_or_command: bool) -> (res: KeyCommand)
    ensures
        res.copy == (((key == OverlayKey::C || key == OverlayKey::X) && ctrl_or_command) || key
            == OverlayKey::Enter),
        res.save == (key == OverlayKey::S && ctrl_or_command),
        res.exit == (key == OverlayKey::Escape),
{
    let copy = match key {
        OverlayKey::C | OverlayKey::X => ctrl_or_command,
        OverlayKey::Enter => true,
        _ => false,
    };
    let save = match key {
        OverlayKey::S => ctrl_or_command,
        _ => false,
    };
    let exit = match key {
        OverlayKey::Escape => true,
        _ => false,
    };
    KeyCommand { copy, save, exit }
}

/// Pending requests of the overlay.
#[derive(Debug, Clone, Copy, PartialEq, Eq, Structural)]
pub struct ActionRequests {
    pub copy_requested: bool,
    pub save_requested: bool,
}

/// Applies the commands gathered in one frame: copy (from a copy command or
/// Enter) and save are only requested while a selection exists.
pub fn request_actions(requests: &mut ActionRequests, has_selection: bool, copy: bool, save: bool)
    ensures
        final(requests).copy_requested == (old(requests).copy_requested || (has_selection && copy)),
        final(requests).save_requested == (old(requests).save_requested || (has_selection && save)),
{
    if has_selection {
        if copy {
            requests.copy_requested = true;
        }
        if save {
            requests.save_requested = true;
        }
    }
}

/// What the overlay does before it exits.
#[derive(Debug, Clone, Copy, PartialEq, Eq, Structural)]
pub enum FinishAction {
    /// Save the selection as a PNG file.
    Save,
    /// Copy the selection to the clipboard.
    Copy,
}

/// The request the overlay carries out this frame, if any: a save request
/// takes precedence over a copy request.
pub fn finish_action(requests: &ActionRequests) -> (res: Option<FinishAction>)
    ensures
        res == (if requests.save_requested {
            Some(FinishAction::Save)
        } else if requests.copy_requested {
            Some(FinishAction::Copy)
        } else {
            None
        }),
{
    if requests.save_requested {
        Some(FinishAction::Save)
    } else if requests.copy_requested {
        Some(FinishAction::Copy)
    } else {
        None
    }
}

} // verus!
