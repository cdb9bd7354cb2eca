use vstd::prelude::*;

verus! {

/// What acquiring the next surface texture reported.
#[derive(Clone, Copy, PartialEq, Eq, Structural, Debug)]
pub enum SurfaceStatus {
    /// A texture, matching the surface.
    Success,
    /// A texture, but the surface would be better reconfigured.
    Suboptimal,
    /// No texture in time.
    Timeout,
    /// The window is hidden.
    Occluded,
    /// Acquisition failed validation.
    Validation,
    /// The surface no longer matches its window.
    Outdated,
    /// The device behind the surface is gone.
    Lost,
}

/// What the renderer does with a surface status.
#[derive(Clone, Copy, PartialEq, Eq, Structural, Debug)]
pub enum SurfaceAction {
    /// Draw into the texture.
    Draw,
    /// Skip this frame.
    Skip,
    /// Configure the surface again and skip this frame.
    Reconfigure,
    /// Give up: the device is lost.
    Fail,
}

/// Frame-acquisition policy: draw whenever a texture came, even a suboptimal
/// one; skip quietly when none came; reconfigure an outdated surface; fail
/// only on a lost device.
pub open spec fn spec_surface_action(s: SurfaceStatus) -> SurfaceAction {
    match s {
        SurfaceStatus::Success | SurfaceStatus::Suboptimal => SurfaceAction::Draw,
        SurfaceStatus::Timeout | SurfaceStatus::Occluded | SurfaceStatus::Validation => SurfaceAction::Skip,
        SurfaceStatus::Outdated => SurfaceAction::Reconfigure,
        SurfaceStatus::Lost => SurfaceAction::Fail,
    }
}

/// The action for a surface status.
pub fn surface_action(s: SurfaceStatus) -> (r: SurfaceAction)
    ensures
        r == spec_surface_action(s),
{
    match s {
        SurfaceStatus::Success | SurfaceStatus::Suboptimal => SurfaceAction::Draw,
        SurfaceStatus::Timeout | SurfaceStatus::Occluded | SurfaceStatus::Validation => SurfaceAction::Skip,
        SurfaceStatus::Outdated => SurfaceAction::Reconfigure,
        SurfaceStatus::Lost => SurfaceAction::Fail,
    }
}

/// What a size request does to the surface.
#[derive(Clone, Copy, PartialEq, Eq, Structural, Debug)]
pub enum SizeAction {
    /// Nothing: the surface is configured at that size already.
    Keep,
    /// Mark the surface unconfigured: a zero-sized window cannot be drawn to.
    Unconfigure,
    /// Configure the surface at the given width and height.
    Configure(u32, u32),
}

/// Resizing: a zero width or height leaves the surface unconfigured, any
/// other size configures it at that size.
pub open spec fn spec_resize_action(width: u32, height: u32) -> SizeAction {
    if width == 0 || height == 0 {
        SizeAction::Unconfigure
    } else {
        SizeAction::Configure(width, height)
    }
}

/// Keeping the surface at the window's size: nothing happens when it is
/// configured at that size already; otherwise it is resized.
pub open spec fn spec_ensure_size_action(
    configured: bool,
    current_width: u32,
    current_height: u32,
    width: u32,
    height: u32,
) -> SizeAction {
    if configured && width == current_width && height == current_height {
        SizeAction::Keep
    } else {
        spec_resize_action(width, height)
    }
}

/// The action for resizing to `width` by `height`.
pub fn resize_action(width: u32, height: u32) -> (r: SizeAction)
    ensures
        r == spec_resize_action(width, height),
{
    if width == 0 || height == 0 {
        SizeAction::Unconfigure
    } else {
        SizeAction::Configure(width, height)
    }
}

/// The action for keeping a surface, configured or not at
/// `current_width` by `current_height`, at the window's `width` by `height`.
pub fn ensure_size_action(
    configured: bool,
    current_width: u32,
    current_height: u32,
    width: u32,
    height: u32,
) -> (r: SizeAction)
    ensures
        r == spec_ensure_size_action(configured, current_width, current_height, width, height),
{
    if configured && width == current_width && height == current_height {
        SizeAction::Keep
    } else {
        resize_action(width, height)
    }
}

/// The format to draw with, among the formats a surface offers in order,
/// where `srgb[i]` tells whether format `i` is an sRGB one: the first sRGB
/// format, or the first format when none is sRGB.
pub fn pick_format(srgb: &Vec<bool>) -> (r: usize)
    requires
        srgb@.len() > 0,
    ensures
        r < srgb@.len(),
        forall|j: int| 0 <= j < r ==> !#[trigger] srgb@[j],
        srgb@[r as int] || (r == 0 && forall|j: int| 0 <= j < srgb@.len() ==> !#[trigger] srgb@[j]),
{
    let mut i: usize = 0;
    while i < srgb.len()
        invariant
            i <= srgb@.len(),
            forall|j: int| 0 <= j < i ==> !#[trigger] srgb@[j],
        decreases srgb@.len() - i,
    {
        if srgb[i] {
            return i;
        }
        i += 1;
    }
    0
}

/// Every drawable size is configured exactly: a window with a non-zero
/// width and height gets a surface of that width and height, whatever its
/// shape, and only a zero width or height leaves the surface unconfigured.
pub proof fn law_resize_configures_every_drawable_size(width: u32, height: u32)
    ensures
        width > 0 && height > 0 ==> spec_resize_action(width, height) == SizeAction::Configure(width, height),
        width == 0 || height == 0 ==> spec_resize_action(width, height) == SizeAction::Unconfigure,
        spec_resize_action(width, height) != SizeAction::Keep,
{
}

/// Keeping the surface at the window's size does nothing only when the
/// surface is configured at that very size; an unconfigured surface or a
/// changed size is resized, which configures every drawable size.
pub proof fn law_ensure_size_acts_on_change(
    configured: bool,
    current_width: u32,
    current_height: u32,
    width: u32,
    height: u32,
)
    ensures
        configured && width == current_width && height == current_height ==> spec_ensure_size_action(
            configured,
            current_width,
            current_height,
            width,
            height,
        ) == SizeAction::Keep,
        !(configured && width == current_width && height == current_height) && width > 0 && height > 0
            ==> spec_ensure_size_action(configured, current_width, current_height, width, height)
            == SizeAction::Configure(width, height),
        !(configured && width == current_width && height == current_height) && (width == 0 || height == 0)
            ==> spec_ensure_size_action(configured, current_width, current_height, width, height)
            == SizeAction::Unconfigure,
{
}

/// Frames are drawn whenever a texture came, suboptimal or not; only an
/// outdated surface is reconfigured; only a lost device fails; every other
/// status skips the frame.
pub proof fn law_surface_action_by_status(s: SurfaceStatus)
    ensures
        (spec_surface_action(s) == SurfaceAction::Draw) == (s == SurfaceStatus::Success || s == SurfaceStatus::Suboptimal),
        (spec_surface_action(s) == SurfaceAction::Reconfigure) == (s == SurfaceStatus::Outdated),
        (spec_surface_action(s) == SurfaceAction::Fail) == (s == SurfaceStatus::Lost),
        (spec_surface_action(s) == SurfaceAction::Skip) == (s == SurfaceStatus::Timeout || s == SurfaceStatus::Occluded
            || s == SurfaceStatus::Validation),
{
}

/// After a size request is carried out, asking again for the same size
/// changes nothing: a configured surface is kept, and an unconfigurable size
/// stays unconfigured.
pub proof fn law_ensure_size_settles(
    configured: bool,
    current_width: u32,
    current_height: u32,
    width: u32,
    height: u32,
)
    ensures
        ({
            let first = spec_ensure_size_action(configured, current_width, current_height, width, height);
            let (c2, w2, h2) = match first {
                SizeAction::Keep => (configured, current_width, current_height),
                SizeAction::Unconfigure => (false, current_width, current_height),
                SizeAction::Configure(w, h) => (true, w, h),
            };
            let second = spec_ensure_size_action(c2, w2, h2, width, height);
            second == SizeAction::Keep || (second == SizeAction::Unconfigure && first == SizeAction::Unconfigure)
        }),
{
}

} // verus!
