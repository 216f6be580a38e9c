//! When the drawing surface around the pane's framebuffer is built.
//!
//! The surface wraps the framebuffer that the toolkit manages. Every resize
//! replaces that framebuffer, so it drops the surface, and the next render
//! callback builds one for the new size.

use vstd::prelude::*;

verus! {

/// The framebuffer of a pane whose drawing context exists.
#[derive(Clone, Copy, Debug, PartialEq, Eq, Structural)]
pub struct SkiaState {
    /// The size of the framebuffer, in device pixels.
    pub fb_width: i32,
    pub fb_height: i32,
    /// Whether a surface wraps the framebuffer.
    pub has_surface: bool,
}

/// Whether a surface is built now: there is none, and the framebuffer has
/// pixels.
pub open spec fn builds(state: SkiaState) -> bool {
    !state.has_surface && state.fb_width > 0 && state.fb_height > 0
}

/// The state once a surface was built where one is due.
pub open spec fn ensured(state: SkiaState) -> SkiaState {
    SkiaState { has_surface: state.has_surface || builds(state), ..state }
}

/// The state after a resize: without a surface.
pub open spec fn resized(width: i32, height: i32) -> SkiaState {
    SkiaState { fb_width: width, fb_height: height, has_surface: false }
}

/// What is known of a framebuffer after a resize: nothing, until the drawing
/// context exists.
pub open spec fn after_resize(
    slot: Option<SkiaState>,
    width: i32,
    height: i32,
) -> Option<SkiaState> {
    match slot {
        Some(_) => Some(resized(width, height)),
        None => None,
    }
}

impl SkiaState {
    /// The state when the drawing context is created: the framebuffer's size is
    /// that of the widget, in device pixels, and there is no surface yet.
    pub fn new(width: i32, height: i32, scale_factor: i32) -> (state: Self)
        requires
            i32::MIN <= width * scale_factor <= i32::MAX,
            i32::MIN <= height * scale_factor <= i32::MAX,
        ensures
            state == resized((width * scale_factor) as i32, (height * scale_factor) as i32),
            state.fb_width == width * scale_factor,
            state.fb_height == height * scale_factor,
    {
        SkiaState {
            fb_width: width * scale_factor,
            fb_height: height * scale_factor,
            has_surface: false,
        }
    }

    /// Says whether the caller has to build a surface for the framebuffer now,
    /// and takes it as built.
    pub fn ensure_surface(&mut self) -> (build: bool)
        ensures
            build == builds(*old(self)),
            *final(self) == ensured(*old(self)),
    {
        if self.has_surface {
            return false;
        }
        if self.fb_width <= 0 || self.fb_height <= 0 {
            return false;
        }
        self.has_surface = true;
        true
    }
}

/// Takes note of a resize. Before the drawing context exists there is nothing to
/// note: its creation reads the size that holds then.
pub fn note_resize(slot: &mut Option<SkiaState>, width: i32, height: i32)
    ensures
        *final(slot) == match *old(slot) {
            Some(_) => Some(resized(width, height)),
            None => None,
        },
        *final(slot) == after_resize(*old(slot), width, height),
        *old(slot) is Some ==> *final(slot) is Some && (*final(slot))->0.fb_width == width
            && (*final(slot))->0.fb_height == height,
{
    match slot {
        Some(state) => {
            state.fb_width = width;
            state.fb_height = height;
            state.has_surface = false;
        },
        None => {},
    }
}

/// After a resize to a size with pixels the next render callback builds a
/// surface, whether there was one before or not; to a size without pixels, none
/// does, and there is none to draw on.
pub proof fn law_resize_rebuilds(width: i32, height: i32)
    ensures
        builds(resized(width, height)) <==> width > 0 && height > 0,
        ensured(resized(width, height)).has_surface <==> width > 0 && height > 0,
{
}

/// A surface is built once: until a resize no further render callback builds
/// one, and the state stays as it is.
pub proof fn law_builds_once(state: SkiaState)
    ensures
        !builds(ensured(state)),
        ensured(ensured(state)) == ensured(state),
        ensured(state).fb_width == state.fb_width,
        ensured(state).fb_height == state.fb_height,
{
}

/// The size that a resize brings is the size that is kept: each side is its own,
/// whichever is the longer, and nothing of the size before is left.
pub proof fn law_resize_sets_the_size(
    slot: Option<SkiaState>,
    width: i32,
    height: i32,
)
    ensures
        slot is None ==> after_resize(slot, width, height) is None,
        slot is Some ==> ({
            let after = after_resize(slot, width, height);
            &&& after is Some
            &&& after->0.fb_width == width
            &&& after->0.fb_height == height
            &&& !after->0.has_surface
        }),
        resized(width, height).fb_width == width,
        resized(width, height).fb_height == height,
        !resized(width, height).has_surface,
{
}

/// The last of several resizes decides.
pub proof fn law_last_resize_decides(
    slot: Option<SkiaState>,
    w1: i32,
    h1: i32,
    w2: i32,
    h2: i32,
)
    ensures
        after_resize(after_resize(slot, w1, h1), w2, h2) == after_resize(slot, w2, h2),
{
}

/// A surface is built exactly where there is none and both sides have pixels, and
/// building it does not touch the size: what is built has the size that was kept.
pub proof fn law_surface_has_the_kept_size(state: SkiaState)
    ensures
        builds(state) <==> !state.has_surface && state.fb_width > 0 && state.fb_height > 0,
        ensured(state).fb_width == state.fb_width,
        ensured(state).fb_height == state.fb_height,
        state.has_surface ==> ensured(state).has_surface,
        builds(state) ==> ensured(state).has_surface,
        !state.has_surface && !builds(state) ==> !ensured(state).has_surface,
{
}

} // verus!
