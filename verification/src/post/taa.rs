//! Temporal smoothing: two history textures, of which one is read and the other written in turn.
use vstd::prelude::*;


verus! {

/// The history. `valid` says whether the last frame was resolved into it.
#[derive(Clone, Copy, Debug, PartialEq, Eq, Structural)]
pub struct TaaHistory {
    /// Whether the two textures exist.
    pub allocated: bool,
    /// The texture that is written next.
    pub write_idx: u32,
    pub valid: bool,
    pub width: u32,
    pub height: u32,
}

/// What a frame brings.
#[derive(Clone, Copy, Debug, PartialEq, Eq, Structural)]
pub struct TaaFrame {
    /// Whether the pass and the settings exist.
    pub pipeline: bool,
    pub settings: bool,
    /// Whether the smoothing is switched on.
    pub taa: bool,
    /// Whether there is a depth pass, whether it ran, and whether its textures exist.
    pub prepass: bool,
    pub active: bool,
    pub views: bool,
    /// Whether the shaders are compiled.
    pub compiled: bool,
    /// Whether the view has a wide range of brightness.
    pub hdr: bool,
    pub width: u32,
    pub height: u32,
    /// Whether the camera of the previous frame is known.
    pub prev_camera: bool,
}

/// What is done in a frame that is resolved.
#[derive(Clone, Copy, Debug, PartialEq, Eq, Structural)]
pub struct TaaResolve {
    /// Whether the textures are made anew first.
    pub allocate: bool,
    pub read_idx: u32,
    pub write_idx: u32,
    /// Whether what is read is blended in.
    pub has_history: bool,
}

impl TaaHistory {
    /// The textures are numbered 0 and 1.
    pub open spec fn valid_index(self) -> bool {
        self.write_idx < 2
    }

    /// Nothing yet.
    pub fn new() -> (r: TaaHistory)
        ensures
            r == (TaaHistory { allocated: false, write_idx: 0, valid: false, width: 0, height: 0 }),
            r.valid_index(),
    {
        TaaHistory { allocated: false, write_idx: 0, valid: false, width: 0, height: 0 }
    }
}

impl TaaFrame {
    /// Whether a frame can be resolved.
    pub open spec fn ready(self) -> bool {
        self.pipeline && self.settings && self.taa && self.prepass && self.active && self.views
            && self.compiled && self.hdr && self.width > 0 && self.height > 0
    }
}

/// The history as a frame finds it: made anew where there is none of its size.
pub open spec fn sized(h: TaaHistory, f: TaaFrame) -> TaaHistory {
    if !h.allocated || h.width != f.width || h.height != f.height {
        TaaHistory { allocated: true, write_idx: 0, valid: false, width: f.width, height: f.height }
    } else {
        h
    }
}

/// What is done in a frame.
pub open spec fn resolve(h: TaaHistory, f: TaaFrame) -> Option<TaaResolve> {
    if f.ready() {
        let s = sized(h, f);
        Some(
            TaaResolve {
                allocate: !h.allocated || h.width != f.width || h.height != f.height,
                read_idx: (1 - s.write_idx) as u32,
                write_idx: s.write_idx,
                has_history: s.valid && f.prev_camera,
            },
        )
    } else {
        None
    }
}

/// The history after a frame. Every frame that is not resolved makes it invalid, so that a stale one
/// is never blended in after a gap.
pub open spec fn after(h: TaaHistory, f: TaaFrame) -> TaaHistory {
    if f.ready() {
        let s = sized(h, f);
        TaaHistory { write_idx: (1 - s.write_idx) as u32, valid: true, ..s }
    } else {
        TaaHistory { valid: false, ..h }
    }
}

impl TaaHistory {
    /// One frame.
    pub fn run(&mut self, f: &TaaFrame) -> (r: Option<TaaResolve>)
        requires
            old(self).valid_index(),
        ensures
            final(self).valid_index(),
            r == resolve(*old(self), *f),
            *final(self) == after(*old(self), *f),
    {
        if !(f.pipeline && f.settings && f.taa && f.prepass && f.active && f.views && f.compiled && f.hdr)
            || f.width == 0 || f.height == 0 {
            self.valid = false;
            return None;
        }
        let allocate = !self.allocated || self.width != f.width || self.height != f.height;
        if allocate {
            self.allocated = true;
            self.write_idx = 0;
            self.valid = false;
            self.width = f.width;
            self.height = f.height;
        }
        let has_history = self.valid && f.prev_camera;
        let write_idx: u32 = self.write_idx;
        let read_idx: u32 = 1 - write_idx;
        self.write_idx = read_idx;
        self.valid = true;
        Some(TaaResolve { allocate, read_idx, write_idx, has_history })
    }
}

/// The history is valid exactly after a frame that was resolved.
pub proof fn validity_mirrors_resolve(h: TaaHistory, f: TaaFrame)
    ensures
        after(h, f).valid == resolve(h, f) is Some,
{
}

/// After a frame that was skipped nothing is blended in.
pub proof fn no_stale_history(h: TaaHistory, skipped: TaaFrame, next: TaaFrame)
    requires
        resolve(h, skipped) is None,
    ensures
        resolve(after(h, skipped), next) matches Some(r) ==> !r.has_history,
{
}

/// A frame reads what the resolved frame before it wrote, and never what it writes itself.
pub proof fn history_is_read_in_turn(h: TaaHistory, a: TaaFrame, b: TaaFrame)
    requires
        h.valid_index(),
        resolve(h, a) is Some,
        resolve(after(h, a), b) is Some,
    ensures
        resolve(h, a)->0.read_idx != resolve(h, a)->0.write_idx,
        !resolve(after(h, a), b)->0.allocate ==> resolve(after(h, a), b)->0.read_idx == resolve(
            h,
            a,
        )->0.write_idx,
        resolve(after(h, a), b)->0.allocate ==> !resolve(after(h, a), b)->0.has_history,
{
}

} // verus!
