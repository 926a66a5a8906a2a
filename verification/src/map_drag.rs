//! Drawing on the map: a bounding box or a cross-section line, drawn by
//! dragging from where a drag starts to where it last moved, or by
//! pressing a key at each end; the zoom window is set by keys too.
//!
//! Map points are a type parameter `P`: the map never looks inside them.

use vstd::prelude::*;
use crate::viewer::MarkState;

verus! {

/// What a drag on the map draws.
#[derive(Debug, Clone, Copy, PartialEq, Eq, Structural)]
pub enum MapInteractionMode {
    /// Dragging pans the map and draws nothing.
    Pan,
    DrawBBox,
    DrawCrossSection,
}

/// The drawing mode and the two ends of the drag in progress.
#[derive(Debug)]
pub struct MapDrag<P> {
    pub mode: MapInteractionMode,
    pub start: Option<P>,
    pub end: Option<P>,
}

/// What the map's pointer did in one frame.
#[derive(Debug)]
pub struct DragFrame<P> {
    /// A drag started in this frame.
    pub started: bool,
    /// The pointer is dragging in this frame.
    pub dragged: bool,
    /// A drag ended in this frame.
    pub stopped: bool,
    /// Where the pointer is on the map, when known.
    pub pointer: Option<P>,
}

/// What a finished drag drew, from its start to its end.
#[derive(Debug)]
pub enum DragResult<P> {
    Nothing,
    BoundingBox(P, P),
    CrossSection(P, P),
}

/// A drag with nothing to draw and no end set.
pub open spec fn spec_idle_drag<P>() -> MapDrag<P> {
    MapDrag { mode: MapInteractionMode::Pan, start: None, end: None }
}

/// One frame of dragging: where a drag starts its start is set, where it
/// moves its end follows, and where it stops what the mode draws is
/// finished, the mode goes back to `Pan` and both ends are forgotten.
/// In mode `Pan` nothing happens.
pub open spec fn spec_drag_step<P>(d: MapDrag<P>, f: DragFrame<P>) -> (MapDrag<P>, DragResult<P>) {
    if d.mode == MapInteractionMode::Pan {
        (d, DragResult::Nothing)
    } else {
        let s1 = if f.started && f.pointer is Some { f.pointer } else { d.start };
        let e1 = if f.dragged && f.pointer is Some { f.pointer } else { d.end };
        if f.stopped {
            let r = match (s1, e1) {
                (Some(a), Some(b)) => if d.mode == MapInteractionMode::DrawBBox {
                    DragResult::BoundingBox(a, b)
                } else {
                    DragResult::CrossSection(a, b)
                },
                _ => DragResult::Nothing,
            };
            let mode = if r is Nothing { d.mode } else { MapInteractionMode::Pan };
            (MapDrag { mode, start: None, end: None }, r)
        } else {
            (MapDrag { mode: d.mode, start: s1, end: e1 }, DragResult::Nothing)
        }
    }
}

impl<P: Copy> MapDrag<P> {
    /// A map with nothing to draw.
    pub fn new() -> (r: Self)
        ensures
            r == spec_idle_drag::<P>(),
    {
        MapDrag { mode: MapInteractionMode::Pan, start: None, end: None }
    }

    /// Starts drawing in `mode` with the next drag.
    pub fn begin(&mut self, mode: MapInteractionMode)
        ensures
            *final(self) == (MapDrag { mode, ..*old(self) }),
    {
        self.mode = mode;
    }

    /// Follows the pointer for one frame and says what a finished drag drew.
    pub fn step(&mut self, f: &DragFrame<P>) -> (r: DragResult<P>)
        ensures
            (*final(self), r) == spec_drag_step(*old(self), *f),
    {
        if self.mode == MapInteractionMode::Pan {
            return DragResult::Nothing;
        }
        if f.started {
            if let Some(p) = f.pointer {
                self.start = Some(p);
            }
        }
        if f.dragged {
            if let Some(p) = f.pointer {
                self.end = Some(p);
            }
        }
        if f.stopped {
            let r = match (self.start, self.end) {
                (Some(a), Some(b)) => if self.mode == MapInteractionMode::DrawBBox {
                    DragResult::BoundingBox(a, b)
                } else {
                    DragResult::CrossSection(a, b)
                },
                _ => DragResult::Nothing,
            };
            match r {
                DragResult::Nothing => {},
                _ => { self.mode = MapInteractionMode::Pan; },
            }
            self.start = None;
            self.end = None;
            r
        } else {
            DragResult::Nothing
        }
    }
}

/// In mode `Pan` the map ignores every drag.
pub proof fn law_idle_map_ignores_drags<P>(d: MapDrag<P>, f: DragFrame<P>)
    requires
        d.mode == MapInteractionMode::Pan,
    ensures
        spec_drag_step(d, f) == (d, DragResult::<P>::Nothing),
{
}

/// A drag that starts at `a`, moves to `b` and stops draws, in the mode it
/// was started in, the box or line from `a` to `b`; afterwards the map
/// draws nothing until told to, and no end is remembered.
pub proof fn law_drag_draws_from_start_to_end<P>(d: MapDrag<P>, a: P, b: P)
    requires
        d.mode != MapInteractionMode::Pan,
    ensures
        ({
            let f1 = DragFrame { started: true, dragged: true, stopped: false, pointer: Some(a) };
            let f2 = DragFrame { started: false, dragged: true, stopped: false, pointer: Some(b) };
            let f3 = DragFrame::<P> { started: false, dragged: false, stopped: true, pointer: None };
            let (d1, r1) = spec_drag_step(d, f1);
            let (d2, r2) = spec_drag_step(d1, f2);
            let (d3, r3) = spec_drag_step(d2, f3);
            &&& r1 is Nothing && r2 is Nothing
            &&& r3 == (if d.mode == MapInteractionMode::DrawBBox {
                DragResult::BoundingBox(a, b)
            } else {
                DragResult::CrossSection(a, b)
            })
            &&& d3 == spec_idle_drag::<P>()
        }),
{
}

/// A frame in which a drag stops leaves no end of a drag remembered.
pub proof fn law_stop_forgets_ends<P>(d: MapDrag<P>, f: DragFrame<P>)
    requires
        d.mode != MapInteractionMode::Pan,
        f.stopped,
    ensures
        spec_drag_step(d, f).0.start is None,
        spec_drag_step(d, f).0.end is None,
{
}

/// The keys the map listens to while the cursor is over it.
#[derive(Debug, Clone, Copy, PartialEq, Eq, Structural)]
pub enum MapKey {
    /// Zoom window; with Shift, back to the whole map.
    Z,
    /// Bounding box.
    X,
    /// Cross-section line; with Shift, remove it.
    C,
}

/// The first ends set by key for the zoom window, the bounding box and the
/// cross-section line.
#[derive(Debug)]
pub struct MapMarks<P> {
    pub zoom: MarkState<P>,
    pub bbox: MarkState<P>,
    pub cross: MarkState<P>,
}

/// What a key press on the map asks for.
#[derive(Debug)]
pub enum MapKeyResult<P> {
    Nothing,
    /// Zoom to the window with these two corners.
    ZoomTo(P, P),
    ResetZoom,
    /// Take the box with these two corners as the bounding box.
    BoundingBox(P, P),
    /// Take the line between these points as the cross-section.
    CrossSection(P, P),
    ClearCrossSection,
}

/// No end set by key.
pub open spec fn spec_no_marks<P>() -> MapMarks<P> {
    MapMarks { zoom: MarkState::Idle, bbox: MarkState::Idle, cross: MarkState::Idle }
}

/// A press of `key` (with Shift or not) with the cursor at `at`: the first
/// press of a two-point key sets its first end, the second finishes the
/// shape from there to `at`; Shift+Z and Shift+C undo.
pub open spec fn spec_map_key<P>(m: MapMarks<P>, key: MapKey, shift: bool, at: P) -> (MapMarks<P>, MapKeyResult<P>) {
    match key {
        MapKey::Z => if shift {
            (MapMarks { zoom: MarkState::Idle, ..m }, MapKeyResult::ResetZoom)
        } else {
            match m.zoom {
                MarkState::Idle => (MapMarks { zoom: MarkState::WaitingForEnd(at), ..m }, MapKeyResult::Nothing),
                MarkState::WaitingForEnd(a) => (MapMarks { zoom: MarkState::Idle, ..m }, MapKeyResult::ZoomTo(a, at)),
            }
        },
        MapKey::X => match m.bbox {
            MarkState::Idle => (MapMarks { bbox: MarkState::WaitingForEnd(at), ..m }, MapKeyResult::Nothing),
            MarkState::WaitingForEnd(a) => (MapMarks { bbox: MarkState::Idle, ..m }, MapKeyResult::BoundingBox(a, at)),
        },
        MapKey::C => if shift {
            (MapMarks { cross: MarkState::Idle, ..m }, MapKeyResult::ClearCrossSection)
        } else {
            match m.cross {
                MarkState::Idle => (MapMarks { cross: MarkState::WaitingForEnd(at), ..m }, MapKeyResult::Nothing),
                MarkState::WaitingForEnd(a) => (MapMarks { cross: MarkState::Idle, ..m }, MapKeyResult::CrossSection(a, at)),
            }
        },
    }
}

impl<P: Copy> MapMarks<P> {
    /// No end set by key.
    pub fn new() -> (r: Self)
        ensures
            r == spec_no_marks::<P>(),
    {
        MapMarks { zoom: MarkState::Idle, bbox: MarkState::Idle, cross: MarkState::Idle }
    }

    /// Reacts to a key pressed with the cursor over the map at `at`.
    pub fn press(&mut self, key: MapKey, shift: bool, at: P) -> (r: MapKeyResult<P>)
        ensures
            (*final(self), r) == spec_map_key(*old(self), key, shift, at),
    {
        match key {
            MapKey::Z => if shift {
                self.zoom = MarkState::Idle;
                MapKeyResult::ResetZoom
            } else {
                match self.zoom {
                    MarkState::Idle => {
                        self.zoom = MarkState::WaitingForEnd(at);
                        MapKeyResult::Nothing
                    },
                    MarkState::WaitingForEnd(a) => {
                        self.zoom = MarkState::Idle;
                        MapKeyResult::ZoomTo(a, at)
                    },
                }
            },
            MapKey::X => match self.bbox {
                MarkState::Idle => {
                    self.bbox = MarkState::WaitingForEnd(at);
                    MapKeyResult::Nothing
                },
                MarkState::WaitingForEnd(a) => {
                    self.bbox = MarkState::Idle;
                    MapKeyResult::BoundingBox(a, at)
                },
            },
            MapKey::C => if shift {
                self.cross = MarkState::Idle;
                MapKeyResult::ClearCrossSection
            } else {
                match self.cross {
                    MarkState::Idle => {
                        self.cross = MarkState::WaitingForEnd(at);
                        MapKeyResult::Nothing
                    },
                    MarkState::WaitingForEnd(a) => {
                        self.cross = MarkState::Idle;
                        MapKeyResult::CrossSection(a, at)
                    },
                }
            },
        }
    }
}

/// Two presses of the same key without Shift, the first with no end set,
/// draw the shape from the first cursor point to the second, and leave the
/// other keys' ends as they were.
pub proof fn law_two_key_presses_draw<P>(m: MapMarks<P>, key: MapKey, a: P, b: P)
    requires
        match key {
            MapKey::Z => m.zoom is Idle,
            MapKey::X => m.bbox is Idle,
            MapKey::C => m.cross is Idle,
        },
    ensures
        ({
            let (m1, r1) = spec_map_key(m, key, false, a);
            let (m2, r2) = spec_map_key(m1, key, false, b);
            &&& r1 is Nothing
            &&& r2 == (match key {
                MapKey::Z => MapKeyResult::ZoomTo(a, b),
                MapKey::X => MapKeyResult::BoundingBox(a, b),
                MapKey::C => MapKeyResult::CrossSection(a, b),
            })
            &&& m2 == m
        }),
{
}

} // verus!
