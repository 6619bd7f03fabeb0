//! The annotation session: the current bitmap, the tool state, the drag in
//! progress, and the undo and redo histories of checkpoints.

use vstd::prelude::*;
use std::collections::VecDeque;
use crate::bitmap::{Bitmap, BitmapView, COORD_LIMIT};
use crate::tool_utils::{
    abs_diff, draw_line, get_real_image_pos, line_points, scale_axis, stroked, Tool,
};

verus! {

/// Smallest pen radius.
pub const MIN_PEN_SIZE: usize = 1;

/// Largest pen radius.
pub const MAX_PEN_SIZE: usize = 30;

/// Why an operation that needs the current bitmap could not proceed.
#[derive(Clone, Copy, PartialEq, Eq, Structural, Debug)]
pub enum SessionError {
    /// Nothing has been captured yet.
    NoImage,
}

/// What the pointer did on the displayed image since the last update.
#[derive(Clone, Copy, Debug)]
pub enum PointerEvent {
    /// A drag is under way; the pointer's position over the image, if it is
    /// over it, relative to the image's top-left corner.
    Dragged(Option<(i32, i32)>),
    /// The drag was released.
    Released,
    /// No drag is under way.
    Idle,
}

/// A coordinate brought into the range that strokes can be drawn in.
pub open spec fn clamp_coord(v: int) -> int {
    if v < -COORD_LIMIT {
        -COORD_LIMIT as int
    } else if v > COORD_LIMIT {
        COORD_LIMIT as int
    } else {
        v
    }
}

/// A number brought into the range of `u32`.
pub open spec fn saturate_u32(v: int) -> int {
    if v < 0 {
        0
    } else if v > u32::MAX {
        u32::MAX as int
    } else {
        v
    }
}

/// The smaller of two integers.
pub open spec fn min_of(a: int, b: int) -> int {
    if a <= b {
        a
    } else {
        b
    }
}

/// A pen radius brought into the allowed range.
pub open spec fn clamp_pen_size(size: usize) -> usize {
    if size < MIN_PEN_SIZE {
        MIN_PEN_SIZE
    } else if size > MAX_PEN_SIZE {
        MAX_PEN_SIZE
    } else {
        size
    }
}

/// The opaque colour with the channels of `rgb`.
pub open spec fn pen_rgba(rgb: [u8; 3]) -> [u8; 4] {
    [rgb[0], rgb[1], rgb[2], 255u8]
}

/// Mathematical model of a session.
pub struct SessionView {
    /// The visible bitmap, once something has been captured.
    pub snapshot: Option<BitmapView>,
    /// Checkpoints, oldest first.
    pub undo: Seq<BitmapView>,
    /// Reverted checkpoints, the one reverted last first.
    pub redo: Seq<BitmapView>,
    pub tool: Tool,
    /// Whether a drag is in progress.
    pub tooling: bool,
    pub pen_color: [u8; 3],
    pub pen_size: usize,
    pub last_pos: (i32, i32),
    pub current_pos: (i32, i32),
}

impl SessionView {
    /// A pen drag is in progress: the visible bitmap may hold a stroke that
    /// is not yet a checkpoint.
    pub open spec fn stroke_open(self) -> bool {
        self.tooling && self.tool == Tool::Pen
    }

    /// The visible bitmap is the newest checkpoint.
    pub open spec fn checkpointed(self) -> bool {
        self.undo.len() > 0 && self.snapshot == Some(self.undo.last())
    }

    /// The invariants of a session.
    ///
    /// A bitmap is visible exactly when the history holds a checkpoint; it is
    /// the newest checkpoint unless a pen drag is in progress; without a
    /// bitmap there is nothing to redo, no tool and no drag; the pen radius
    /// is within its limits.
    pub open spec fn wf(self) -> bool {
        &&& self.snapshot is Some <==> self.undo.len() > 0
        &&& self.snapshot is None ==> self.redo.len() == 0 && self.tool == Tool::NoTool
            && !self.tooling
        &&& self.snapshot is Some ==> self.stroke_open() || self.checkpointed()
        &&& MIN_PEN_SIZE <= self.pen_size <= MAX_PEN_SIZE
    }

    /// The session with the visible bitmap pushed as a checkpoint and nothing
    /// left to redo.
    pub open spec fn committed(self) -> SessionView {
        SessionView { undo: self.undo.push(self.snapshot->0), redo: Seq::empty(), ..self }
    }

    /// The session after a fresh capture has arrived: the bitmap is the only
    /// checkpoint and the visible one, no tool is selected and no drag is in
    /// progress. The pen keeps its settings.
    pub open spec fn reset(self, bitmap: BitmapView) -> SessionView {
        SessionView {
            snapshot: Some(bitmap),
            undo: seq![bitmap],
            redo: Seq::empty(),
            tool: Tool::NoTool,
            tooling: false,
            ..self
        }
    }

    /// The session after a tool was asked for. Without a bitmap the request
    /// is ignored. A pen stroke in progress becomes a checkpoint when the pen
    /// is put down for another tool.
    pub open spec fn with_tool(self, tool: Tool) -> SessionView {
        if self.snapshot is None {
            self
        } else if self.stroke_open() && tool != Tool::Pen {
            SessionView { tool, ..self.committed() }
        } else {
            SessionView { tool, ..self }
        }
    }

    /// The session one checkpoint back. The oldest checkpoint is never left.
    pub open spec fn undone(self) -> SessionView {
        if self.undo.len() < 2 {
            self
        } else {
            SessionView {
                snapshot: Some(self.undo[self.undo.len() - 2]),
                undo: self.undo.drop_last(),
                redo: seq![self.undo.last()] + self.redo,
                ..self
            }
        }
    }

    /// The session with the checkpoint reverted last restored.
    pub open spec fn redone(self) -> SessionView {
        if self.redo.len() == 0 {
            self
        } else {
            SessionView {
                snapshot: Some(self.redo[0]),
                undo: self.undo.push(self.redo[0]),
                redo: self.redo.subrange(1, self.redo.len() as int),
                ..self
            }
        }
    }

    /// The session after a drag has begun at `pointer`. Ignored without a
    /// bitmap or a tool.
    pub open spec fn begun(self, pointer: (i32, i32)) -> SessionView {
        if self.snapshot is None || self.tool == Tool::NoTool {
            self
        } else {
            SessionView { tooling: true, last_pos: pointer, current_pos: pointer, ..self }
        }
    }

    /// The pixel that a widget position points at, for a displayed size with
    /// no zero in it. Not clamped.
    pub open spec fn pixel_at(self, pos: (i32, i32), displayed: (u32, u32)) -> (int, int) {
        (
            scale_axis(pos.0 as int, displayed.0 as int, self.snapshot->0.width as int),
            scale_axis(pos.1 as int, displayed.1 as int, self.snapshot->0.height as int),
        )
    }

    /// The visible bitmap with a stroke segment drawn from the pixel under
    /// `from` to the pixel under `to`, both brought into the drawable range.
    pub open spec fn stroke_drawn(
        self,
        from: (i32, i32),
        to: (i32, i32),
        displayed: (u32, u32),
    ) -> BitmapView {
        let img = self.snapshot->0;
        let a = self.pixel_at(from, displayed);
        let b = self.pixel_at(to, displayed);
        BitmapView {
            data: stroked(
                img.data,
                img.width as int,
                img.height as int,
                line_points(clamp_coord(a.0), clamp_coord(a.1), clamp_coord(b.0), clamp_coord(b.1)),
                self.pen_size as int,
                pen_rgba(self.pen_color),
            ),
            ..img
        }
    }

    /// The session after the drag has moved to `pointer`.
    ///
    /// Under the pen a stroke segment is drawn into the visible bitmap from
    /// the last position to the new one; under crop only the selection
    /// grows. Ignored when no drag is in progress, and under the pen when
    /// nothing is displayed.
    pub open spec fn continued(self, pointer: (i32, i32), displayed: (u32, u32)) -> SessionView {
        if !self.tooling || self.snapshot is None {
            self
        } else {
            match self.tool {
                Tool::NoTool => self,
                Tool::Crop => SessionView { current_pos: pointer, ..self },
                Tool::Pen => if displayed.0 == 0 || displayed.1 == 0 {
                    self
                } else {
                    SessionView {
                        snapshot: Some(self.stroke_drawn(self.last_pos, pointer, displayed)),
                        last_pos: pointer,
                        current_pos: pointer,
                        ..self
                    }
                },
            }
        }
    }

    /// The rectangle that the crop selection asks for, in pixels: the corner
    /// nearest the origin first, then the extent, each brought into `u32`.
    pub open spec fn crop_request(self, displayed: (u32, u32)) -> (int, int, int, int) {
        let a = self.pixel_at(self.last_pos, displayed);
        let b = self.pixel_at(self.current_pos, displayed);
        (
            saturate_u32(min_of(a.0, b.0)),
            saturate_u32(min_of(a.1, b.1)),
            saturate_u32(abs_diff(a.0, b.0)),
            saturate_u32(abs_diff(a.1, b.1)),
        )
    }

    /// The session after the drag was released.
    ///
    /// Under the pen the visible bitmap becomes a checkpoint. Under crop the
    /// selection is cut out of the visible bitmap, and the cut-out becomes
    /// the visible bitmap and a checkpoint. Either way nothing is left to
    /// redo. Ignored when no drag is in progress.
    pub open spec fn ended(self, displayed: (u32, u32)) -> SessionView {
        if !self.tooling || self.snapshot is None {
            self
        } else {
            match self.tool {
                Tool::NoTool => SessionView { tooling: false, ..self },
                Tool::Pen => SessionView { tooling: false, ..self.committed() },
                Tool::Crop => if displayed.0 == 0 || displayed.1 == 0 {
                    SessionView { tooling: false, ..self }
                } else {
                    let (x, y, w, h) = self.crop_request(displayed);
                    let cut = self.snapshot->0.cropped(x, y, w, h);
                    SessionView {
                        snapshot: Some(cut),
                        undo: self.undo.push(cut),
                        redo: Seq::empty(),
                        tooling: false,
                        ..self
                    }
                },
            }
        }
    }

    /// The session after a drag ended without a release: a pen stroke in
    /// progress becomes a checkpoint, a crop selection is dropped.
    pub open spec fn cancelled(self) -> SessionView {
        if self.stroke_open() && self.snapshot is Some {
            SessionView { tooling: false, ..self.committed() }
        } else {
            SessionView { tooling: false, ..self }
        }
    }

    /// The session after one pointer event.
    pub open spec fn updated(self, event: PointerEvent, displayed: (u32, u32)) -> SessionView {
        match event {
            PointerEvent::Dragged(Some(p)) => {
                if self.tooling {
                    self.continued(p, displayed)
                } else {
                    self.begun(p).continued(p, displayed)
                }
            },
            PointerEvent::Dragged(None) => {
                if self.tooling {
                    self.continued(self.current_pos, displayed)
                } else {
                    self.begun(self.last_pos).continued(self.last_pos, displayed)
                }
            },
            PointerEvent::Released => self.ended(displayed),
            PointerEvent::Idle => self.cancelled(),
        }
    }
}

/// The session after a drag has moved through `moves` in turn, each a
/// pointer position with the displayed size at that moment.
pub open spec fn dragged_along(s: SessionView, moves: Seq<((i32, i32), (u32, u32))>) -> SessionView
    decreases moves.len(),
{
    if moves.len() == 0 {
        s
    } else {
        dragged_along(s, moves.drop_last()).continued(moves.last().0, moves.last().1)
    }
}

/// No operation leaves the session's invariants violated.
pub proof fn lemma_operations_keep_invariants(
    s: SessionView,
    bitmap: BitmapView,
    tool: Tool,
    pointer: (i32, i32),
    displayed: (u32, u32),
    event: PointerEvent,
)
    requires
        s.wf(),
    ensures
        s.reset(bitmap).wf(),
        s.with_tool(tool).wf(),
        s.undone().wf(),
        s.redone().wf(),
        s.begun(pointer).wf(),
        s.continued(pointer, displayed).wf(),
        s.ended(displayed).wf(),
        s.cancelled().wf(),
        s.updated(event, displayed).wf(),
{
}

/// A completed pen drag adds exactly one checkpoint, however the pointer
/// moved in between, and leaves nothing to redo: the visible bitmap, strokes
/// included, is the new newest checkpoint above the unchanged older ones.
pub proof fn lemma_pen_drag_adds_one_checkpoint(
    s: SessionView,
    start: (i32, i32),
    moves: Seq<((i32, i32), (u32, u32))>,
    displayed: (u32, u32),
)
    requires
        s.wf(),
        s.tool == Tool::Pen,
    ensures
        ({
            let drawn = dragged_along(s.begun(start), moves);
            let done = drawn.ended(displayed);
            &&& drawn.undo == s.undo
            &&& drawn.redo == s.redo
            &&& done.wf()
            &&& done.undo.len() == s.undo.len() + 1
            &&& done.undo == s.undo.push(drawn.snapshot->0)
            &&& done.redo.len() == 0
            &&& done.checkpointed()
            &&& !done.tooling
        }),
{
    lemma_pen_drag_in_progress(s, start, moves);
}

/// While a pen drag is in progress the histories stay as they were.
proof fn lemma_pen_drag_in_progress(
    s: SessionView,
    start: (i32, i32),
    moves: Seq<((i32, i32), (u32, u32))>,
)
    requires
        s.wf(),
        s.tool == Tool::Pen,
    ensures
        ({
            let drawn = dragged_along(s.begun(start), moves);
            &&& drawn.wf()
            &&& drawn.stroke_open()
            &&& drawn.snapshot is Some
            &&& drawn.undo == s.undo
            &&& drawn.redo == s.redo
        }),
    decreases moves.len(),
{
    if moves.len() > 0 {
        lemma_pen_drag_in_progress(s, start, moves.drop_last());
    }
}

/// Stepping back and at once forward again changes nothing: the visible
/// bitmap and both histories are as they were, for any history of two or
/// more checkpoints whose newest is the visible bitmap.
pub proof fn lemma_undo_then_redo(s: SessionView)
    requires
        s.wf(),
        s.undo.len() >= 2,
        s.checkpointed(),
    ensures
        s.undone().redone() == s,
{
    let back = s.undone();
    let again = back.redone();
    assert(again.undo =~= s.undo);
    assert(again.redo =~= s.redo);
}

/// Stepping forward and at once back again changes nothing, when there is
/// something to restore and the visible bitmap is the newest checkpoint.
pub proof fn lemma_redo_then_undo(s: SessionView)
    requires
        s.wf(),
        s.redo.len() >= 1,
        s.checkpointed(),
    ensures
        s.redone().undone() == s,
{
    let forth = s.redone();
    let again = forth.undone();
    assert(again.undo =~= s.undo);
    assert(again.redo =~= s.redo);
}

/// With a single checkpoint there is nothing to step back to: the history
/// and the visible bitmap stay as they are.
pub proof fn lemma_undo_keeps_origin(s: SessionView)
    requires
        s.undo.len() <= 1,
    ensures
        s.undone() == s,
{
}

/// Stepping back never empties the history: the oldest checkpoint stays.
pub proof fn lemma_undo_never_discards_origin(s: SessionView)
    requires
        s.undo.len() >= 1,
    ensures
        s.undone().undo.len() >= 1,
        s.undone().undo[0] == s.undo[0],
{
}

/// The capture that arrives last wins: whatever the session held, and
/// whichever capture arrived before, the session is afterwards exactly the
/// fresh one seeded by the last bitmap, with that bitmap as its only
/// checkpoint.
pub proof fn lemma_last_capture_wins(s: SessionView, earlier: BitmapView, last: BitmapView)
    requires
        s.wf(),
    ensures
        s.reset(earlier).reset(last) == s.reset(last),
        s.reset(last).wf(),
        s.reset(last).snapshot == Some(last),
        s.reset(last).undo == seq![last],
        s.reset(last).redo.len() == 0,
        s.reset(last).tool == Tool::NoTool,
{
}

/// The models of a sequence of bitmaps.
pub open spec fn views(bitmaps: Seq<Bitmap>) -> Seq<BitmapView> {
    bitmaps.map_values(|b: Bitmap| b@)
}

/// The model of a bitmap that may be missing.
pub open spec fn option_view(bitmap: Option<Bitmap>) -> Option<BitmapView> {
    match bitmap {
        Some(b) => Some(b@),
        None => None,
    }
}

/// Brings a pixel coordinate into the range that strokes can be drawn in.
fn clamp_to_drawable(v: i64) -> (res: i32)
    ensures
        res == clamp_coord(v as int),
{
    if v < -(COORD_LIMIT as i64) {
        -COORD_LIMIT
    } else if v > COORD_LIMIT as i64 {
        COORD_LIMIT
    } else {
        v as i32
    }
}

/// Brings a number into the range of `u32`.
fn saturate_to_u32(v: i128) -> (res: u32)
    ensures
        res == saturate_u32(v as int),
{
    if v < 0 {
        0
    } else if v > u32::MAX as i128 {
        u32::MAX
    } else {
        v as u32
    }
}

/// An annotation session.
pub struct Session {
    snapshot: Option<Bitmap>,
    snapshots_undo: VecDeque<Bitmap>,
    snapshots_redo: VecDeque<Bitmap>,
    tool: Tool,
    tooling: bool,
    pen_color: [u8; 3],
    pen_size: usize,
    last_pos: (i32, i32),
    current_pos: (i32, i32),
}

impl View for Session {
    type V = SessionView;

    closed spec fn view(&self) -> SessionView {
        SessionView {
            snapshot: option_view(self.snapshot),
            undo: views(self.snapshots_undo@),
            redo: views(self.snapshots_redo@),
            tool: self.tool,
            tooling: self.tooling,
            pen_color: self.pen_color,
            pen_size: self.pen_size,
            last_pos: self.last_pos,
            current_pos: self.current_pos,
        }
    }
}

impl Session {
    /// Every session keeps the invariants of its model at all times.
    #[verifier::type_invariant]
    pub open spec fn wf(&self) -> bool {
        self@.wf()
    }

    /// A session with nothing captured: no bitmap, no history, no tool, the
    /// thinnest pen in the default colour.
    pub fn new() -> (res: Self)
        ensures
            res.wf(),
            res@.snapshot is None,
            res@.undo.len() == 0,
            res@.redo.len() == 0,
            res@.tool == Tool::NoTool,
            !res@.tooling,
            res@.pen_size == MIN_PEN_SIZE,
            res@.pen_color@ == seq![243u8, 148u8, 133u8],
            res@.last_pos == (0i32, 0i32),
            res@.current_pos == (0i32, 0i32),
    {
        Session {
            snapshot: None,
            snapshots_undo: VecDeque::new(),
            snapshots_redo: VecDeque::new(),
            tool: Tool::NoTool,
            tooling: false,
            pen_color: [243, 148, 133],
            pen_size: 1,
            last_pos: (0, 0),
            current_pos: (0, 0),
        }
    }

    /// The selected tool.
    pub fn tool(&self) -> (res: Tool)
        ensures
            res == self@.tool,
            self.wf(),
    {
        proof {
            use_type_invariant(self);
        }
        self.tool
    }

    /// Whether a drag is in progress.
    pub fn is_dragging(&self) -> (res: bool)
        ensures
            res == self@.tooling,
    {
        self.tooling
    }

    /// The pen radius.
    pub fn pen_size(&self) -> (res: usize)
        ensures
            res == self@.pen_size,
    {
        self.pen_size
    }

    /// The pen colour.
    pub fn pen_color(&self) -> (res: [u8; 3])
        ensures
            res == self@.pen_color,
    {
        self.pen_color
    }

    /// The visible bitmap, once something has been captured.
    pub fn snapshot(&self) -> (res: Option<&Bitmap>)
        ensures
            res is Some <==> self@.snapshot is Some,
            res matches Some(b) ==> self@.snapshot == Some(b@),
            self.wf(),
    {
        proof {
            use_type_invariant(self);
        }
        self.snapshot.as_ref()
    }

    /// Number of checkpoints that `undo` can walk back through, the current
    /// one included.
    pub fn undo_len(&self) -> (res: usize)
        ensures
            res == self@.undo.len(),
            self.wf(),
    {
        proof {
            use_type_invariant(self);
        }
        self.snapshots_undo.len()
    }

    /// Number of reverted checkpoints that `redo` can restore.
    pub fn redo_len(&self) -> (res: usize)
        ensures
            res == self@.redo.len(),
            self.wf(),
    {
        proof {
            use_type_invariant(self);
        }
        self.snapshots_redo.len()
    }

    /// The crop selection to outline, in widget space: the corner where the
    /// drag began and the corner under the pointer. There is one while a drag
    /// is in progress under the crop tool.
    pub fn selection(&self) -> (res: Option<((i32, i32), (i32, i32))>)
        ensures
            res == (if self@.tooling && self@.tool == Tool::Crop {
                Some((self@.last_pos, self@.current_pos))
            } else {
                None
            }),
    {
        if self.tooling && self.tool == Tool::Crop {
            Some((self.last_pos, self.current_pos))
        } else {
            None
        }
    }

    /// Sets the pen radius, brought into the allowed range.
    pub fn set_pen_size(&mut self, size: usize)
        ensures
            final(self).wf(),
            final(self)@ == (SessionView { pen_size: clamp_pen_size(size), ..old(self)@ }),
    {
        proof {
            use_type_invariant(&*self);
        }
        self.pen_size = if size < MIN_PEN_SIZE {
            MIN_PEN_SIZE
        } else if size > MAX_PEN_SIZE {
            MAX_PEN_SIZE
        } else {
            size
        };
    }

    /// Sets the pen colour.
    pub fn set_pen_color(&mut self, color: [u8; 3])
        ensures
            final(self).wf(),
            final(self)@ == (SessionView { pen_color: color, ..old(self)@ }),
    {
        proof {
            use_type_invariant(&*self);
        }
        self.pen_color = color;
    }

    /// Pushes the visible bitmap as a checkpoint and empties the redo
    /// history.
    fn commit_checkpoint(&mut self)
        requires
            old(self)@.snapshot is Some,
        ensures
            final(self)@ == old(self)@.committed(),
    {
        let copy = match &self.snapshot {
            Some(b) => b.clone(),
            None => { return ; },
        };
        let parts = self.take_apart();
        let mut snapshots_undo = parts.snapshots_undo;
        snapshots_undo.push_back(copy);
        let snapshots_redo: VecDeque<Bitmap> = VecDeque::new();
        proof {
            assert(views(snapshots_undo@) =~= old(self)@.undo.push(copy@));
            assert(views(snapshots_redo@) =~= Seq::<BitmapView>::empty());
        }
        *self = Session {
            snapshot: parts.snapshot,
            snapshots_undo,
            snapshots_redo,
            tool: parts.tool,
            tooling: parts.tooling,
            pen_color: parts.pen_color,
            pen_size: parts.pen_size,
            last_pos: parts.last_pos,
            current_pos: parts.current_pos,
        };
    }

    /// Takes the session's parts out for an update that touches several of
    /// them at once, leaving an empty session behind until the updated parts
    /// are put back.
    fn take_apart(&mut self) -> (parts: Session)
        ensures
            parts@ == old(self)@,
            parts.wf(),
    {
        proof {
            use_type_invariant(&*self);
        }
        let mut parts = Session::new();
        std::mem::swap(self, &mut parts);
        parts
    }

    /// Selects a tool. Without a bitmap the request is ignored. A pen stroke
    /// in progress becomes a checkpoint when the pen is put down for another
    /// tool.
    pub fn set_tool(&mut self, tool: Tool)
        ensures
            final(self).wf(),
            final(self)@ == old(self)@.with_tool(tool),
    {
        proof {
            use_type_invariant(&*self);
        }
        if self.snapshot.is_none() {
            return ;
        }
        if self.tooling && self.tool == Tool::Pen && tool != Tool::Pen {
            self.commit_checkpoint();
        }
        self.tool = tool;
    }

    /// Starts over from a fresh capture: the bitmap becomes the visible one
    /// and the only checkpoint, nothing is left to redo, no tool is selected
    /// and no drag is in progress. Whatever the session held before is gone.
    pub fn reset_session(&mut self, new_bitmap: Bitmap)
        ensures
            final(self).wf(),
            final(self)@ == old(self)@.reset(new_bitmap@),
    {
        proof {
            use_type_invariant(&*self);
        }
        let visible = new_bitmap.clone();
        let mut snapshots_undo: VecDeque<Bitmap> = VecDeque::new();
        snapshots_undo.push_back(new_bitmap);
        let snapshots_redo: VecDeque<Bitmap> = VecDeque::new();
        proof {
            assert(views(snapshots_undo@) =~= seq![new_bitmap@]);
            assert(views(snapshots_redo@) =~= Seq::<BitmapView>::empty());
        }
        *self = Session {
            snapshot: Some(visible),
            snapshots_undo,
            snapshots_redo,
            tool: Tool::NoTool,
            tooling: false,
            pen_color: self.pen_color,
            pen_size: self.pen_size,
            last_pos: self.last_pos,
            current_pos: self.current_pos,
        };
    }

    /// Steps back one checkpoint: the newest checkpoint moves to the front of
    /// the redo history and the one before it becomes visible. With fewer
    /// than two checkpoints nothing happens.
    pub fn undo(&mut self)
        ensures
            final(self).wf(),
            final(self)@ == old(self)@.undone(),
    {
        proof {
            use_type_invariant(&*self);
        }
        if self.snapshots_undo.len() > 1 {
            let parts = self.take_apart();
            let mut snapshots_undo = parts.snapshots_undo;
            let mut snapshots_redo = parts.snapshots_redo;
            match snapshots_undo.pop_back() {
                Some(top) => {
                    snapshots_redo.push_front(top);
                },
                None => {},
            }
            let newest = snapshots_undo.len() - 1;
            let visible = snapshots_undo[newest].clone();
            proof {
                let before = old(self)@.undo;
                assert(views(snapshots_undo@) =~= before.drop_last());
                assert(views(snapshots_redo@) =~= seq![before.last()] + old(self)@.redo);
                assert(views(snapshots_undo@)[newest as int] == before[before.len() - 2]);
            }
            *self = Session {
                snapshot: Some(visible),
                snapshots_undo,
                snapshots_redo,
                tool: parts.tool,
                tooling: parts.tooling,
                pen_color: parts.pen_color,
                pen_size: parts.pen_size,
                last_pos: parts.last_pos,
                current_pos: parts.current_pos,
            };
        }
    }

    /// Steps forward again: the checkpoint at the front of the redo history
    /// moves back onto the undo history and becomes visible. With nothing to
    /// redo nothing happens.
    pub fn redo(&mut self)
        ensures
            final(self).wf(),
            final(self)@ == old(self)@.redone(),
    {
        proof {
            use_type_invariant(&*self);
        }
        if self.snapshots_redo.len() > 0 {
            let parts = self.take_apart();
            let mut snapshots_undo = parts.snapshots_undo;
            let mut snapshots_redo = parts.snapshots_redo;
            match snapshots_redo.pop_front() {
                Some(front) => {
                    snapshots_undo.push_back(front);
                },
                None => {},
            }
            let newest = snapshots_undo.len() - 1;
            let visible = snapshots_undo[newest].clone();
            proof {
                let reverted = old(self)@.redo;
                assert(views(snapshots_undo@) =~= old(self)@.undo.push(reverted[0]));
                assert(views(snapshots_redo@) =~= reverted.subrange(1, reverted.len() as int));
            }
            *self = Session {
                snapshot: Some(visible),
                snapshots_undo,
                snapshots_redo,
                tool: parts.tool,
                tooling: parts.tooling,
                pen_color: parts.pen_color,
                pen_size: parts.pen_size,
                last_pos: parts.last_pos,
                current_pos: parts.current_pos,
            };
        }
    }

    /// Begins a drag at `pointer`, a position relative to the displayed
    /// image's top-left corner. Ignored without a bitmap or a tool.
    pub fn begin_drag(&mut self, pointer: (i32, i32))
        ensures
            final(self).wf(),
            final(self)@ == old(self)@.begun(pointer),
    {
        proof {
            use_type_invariant(&*self);
        }
        if self.snapshot.is_none() || self.tool == Tool::NoTool {
            return ;
        }
        self.tooling = true;
        self.last_pos = pointer;
        self.current_pos = pointer;
    }

    /// Moves the drag to `pointer`; `displayed` is the size at which the
    /// image is shown, in the unit of the pointer position.
    ///
    /// Under the pen a stroke segment is drawn into the visible bitmap, from
    /// the pixel under the last position to the pixel under the new one.
    /// Under crop only the selection changes. The histories are not touched.
    /// Ignored when no drag is in progress, and under the pen when nothing
    /// is displayed.
    pub fn continue_drag(&mut self, pointer: (i32, i32), displayed: (u32, u32))
        ensures
            final(self).wf(),
            final(self)@ == old(self)@.continued(pointer, displayed),
    {
        proof {
            use_type_invariant(&*self);
        }
        if !self.tooling || self.snapshot.is_none() {
            return ;
        }
        match self.tool {
            Tool::NoTool => {},
            Tool::Crop => {
                self.current_pos = pointer;
            },
            Tool::Pen => {
                if displayed.0 == 0 || displayed.1 == 0 {
                    return ;
                }
                let parts = self.take_apart();
                let mut img = parts.snapshot.unwrap();
                let size = (img.width(), img.height());
                let from = get_real_image_pos(parts.last_pos, displayed, size);
                let to = get_real_image_pos(pointer, displayed, size);
                let color: [u8; 4] = [
                    parts.pen_color[0],
                    parts.pen_color[1],
                    parts.pen_color[2],
                    255,
                ];
                draw_line(
                    &mut img,
                    (clamp_to_drawable(from.0), clamp_to_drawable(from.1)),
                    (clamp_to_drawable(to.0), clamp_to_drawable(to.1)),
                    parts.pen_size as i32,
                    color,
                );
                proof {
                    assert(img@ == old(self)@.stroke_drawn(old(self)@.last_pos, pointer, displayed));
                }
                *self = Session {
                    snapshot: Some(img),
                    snapshots_undo: parts.snapshots_undo,
                    snapshots_redo: parts.snapshots_redo,
                    tool: parts.tool,
                    tooling: parts.tooling,
                    pen_color: parts.pen_color,
                    pen_size: parts.pen_size,
                    last_pos: pointer,
                    current_pos: pointer,
                };
            },
        }
    }

    /// Completes the drag.
    ///
    /// Under the pen the visible bitmap, stroke included, becomes a new
    /// checkpoint. Under crop the selection is cut out of the visible bitmap
    /// and the cut-out becomes the visible bitmap and a new checkpoint.
    /// Either way the redo history is emptied. Ignored when no drag is in
    /// progress.
    pub fn end_drag(&mut self, displayed: (u32, u32))
        ensures
            final(self).wf(),
            final(self)@ == old(self)@.ended(displayed),
    {
        proof {
            use_type_invariant(&*self);
        }
        if !self.tooling || self.snapshot.is_none() {
            return ;
        }
        match self.tool {
            Tool::NoTool => {
                self.tooling = false;
            },
            Tool::Pen => {
                self.commit_checkpoint();
                self.tooling = false;
            },
            Tool::Crop => {
                if displayed.0 != 0 && displayed.1 != 0 {
                    let cut = match &self.snapshot {
                        Some(img) => {
                            let size = (img.width(), img.height());
                            let a = get_real_image_pos(self.last_pos, displayed, size);
                            let b = get_real_image_pos(self.current_pos, displayed, size);
                            let left: i64 = if a.0 <= b.0 { a.0 } else { b.0 };
                            let top: i64 = if a.1 <= b.1 { a.1 } else { b.1 };
                            let width: i128 = if a.0 <= b.0 {
                                b.0 as i128 - a.0 as i128
                            } else {
                                a.0 as i128 - b.0 as i128
                            };
                            let height: i128 = if a.1 <= b.1 {
                                b.1 as i128 - a.1 as i128
                            } else {
                                a.1 as i128 - b.1 as i128
                            };
                            img.crop_imm(
                                saturate_to_u32(left as i128),
                                saturate_to_u32(top as i128),
                                saturate_to_u32(width),
                                saturate_to_u32(height),
                            )
                        },
                        None => { return ; },
                    };
                    let visible = cut.clone();
                    let parts = self.take_apart();
                    let mut snapshots_undo = parts.snapshots_undo;
                    snapshots_undo.push_back(cut);
                    let snapshots_redo: VecDeque<Bitmap> = VecDeque::new();
                    proof {
                        assert(views(snapshots_undo@) =~= old(self)@.undo.push(cut@));
                        assert(views(snapshots_redo@) =~= Seq::<BitmapView>::empty());
                    }
                    *self = Session {
                        snapshot: Some(visible),
                        snapshots_undo,
                        snapshots_redo,
                        tool: parts.tool,
                        tooling: false,
                        pen_color: parts.pen_color,
                        pen_size: parts.pen_size,
                        last_pos: parts.last_pos,
                        current_pos: parts.current_pos,
                    };
                } else {
                    self.tooling = false;
                }
            },
        }
    }

    /// Ends a drag that was not released: a pen stroke in progress becomes a
    /// checkpoint, a crop selection is dropped.
    pub fn cancel_drag(&mut self)
        ensures
            final(self).wf(),
            final(self)@ == old(self)@.cancelled(),
    {
        proof {
            use_type_invariant(&*self);
        }
        if self.tooling && self.tool == Tool::Pen && self.snapshot.is_some() {
            self.commit_checkpoint();
        }
        self.tooling = false;
    }

    /// Routes one pointer event to the drag operations: a dragged pointer
    /// begins a drag if none is in progress and then continues it, a release
    /// completes it, and an idle pointer ends whatever is in progress.
    ///
    /// While the pointer is dragged off the image the drag goes on from the
    /// position it had.
    pub fn update_editing(&mut self, event: PointerEvent, displayed: (u32, u32))
        ensures
            final(self).wf(),
            final(self)@ == old(self)@.updated(event, displayed),
    {
        match event {
            PointerEvent::Dragged(Some(p)) => {
                if !self.tooling {
                    self.begin_drag(p);
                }
                self.continue_drag(p, displayed);
            },
            PointerEvent::Dragged(None) => {
                if !self.tooling {
                    let p = self.last_pos;
                    self.begin_drag(p);
                    self.continue_drag(p, displayed);
                } else {
                    let p = self.current_pos;
                    self.continue_drag(p, displayed);
                }
            },
            PointerEvent::Released => {
                self.end_drag(displayed);
            },
            PointerEvent::Idle => {
                self.cancel_drag();
            },
        }
    }

    /// The current bitmap's dimensions and raw RGBA bytes, for saving.
    /// Fails when nothing has been captured.
    pub fn export(&self) -> (res: Result<(u32, u32, &Vec<u8>), SessionError>)
        ensures
            self@.snapshot is None ==> res == Err::<(u32, u32, &Vec<u8>), SessionError>(
                SessionError::NoImage,
            ),
            self@.snapshot matches Some(b) ==> (res matches Ok((w, h, bytes)) && w == b.width && h
                == b.height && bytes@ == b.data && b.wf()),
    {
        match &self.snapshot {
            Some(b) => Ok((b.width(), b.height(), b.as_bytes())),
            None => Err(SessionError::NoImage),
        }
    }

    /// The current bitmap's dimensions and raw RGBA bytes, for the clipboard.
    /// Fails when nothing has been captured.
    pub fn to_clipboard_payload(&self) -> (res: Result<(usize, usize, &Vec<u8>), SessionError>)
        ensures
            self@.snapshot is None ==> res == Err::<(usize, usize, &Vec<u8>), SessionError>(
                SessionError::NoImage,
            ),
            self@.snapshot matches Some(b) ==> (res matches Ok((w, h, bytes)) && w == b.width && h
                == b.height && bytes@ == b.data && b.wf()),
    {
        match &self.snapshot {
            Some(b) => Ok((b.width() as usize, b.height() as usize, b.as_bytes())),
            None => Err(SessionError::NoImage),
        }
    }
}

} // verus!
