use vstd::prelude::*;

verus! {

/// Window size in pixels with each side raised to at least one pixel, as
/// a surface cannot be zero pixels wide or high.
pub fn clamp_surface_size(width: u32, height: u32) -> (r: (u32, u32))
    ensures
        r.0 == (if width < 1 { 1 } else { width }),
        r.1 == (if height < 1 { 1 } else { height }),
{
    let w = if width < 1 { 1 } else { width };
    let h = if height < 1 { 1 } else { height };
    (w, h)
}

/// How the window surface is composited with what is behind it.
#[derive(Clone, Copy, Debug, PartialEq, Eq, Structural)]
pub enum AlphaMode {
    Auto,
    Opaque,
    PreMultiplied,
    PostMultiplied,
    Inherit,
}

/// A mode that lets the window show through where the image is transparent.
pub open spec fn is_blending(mode: AlphaMode) -> bool {
    mode == AlphaMode::PreMultiplied || mode == AlphaMode::PostMultiplied
}

/// The alpha mode to configure: for a transparent window, the last
/// blending mode that the surface supports; otherwise, or when it supports
/// none, `Auto`.
pub open spec fn spec_choose_alpha_mode(transparent: bool, supported: Seq<AlphaMode>) -> AlphaMode
    decreases supported.len(),
{
    if !transparent || supported.len() == 0 {
        AlphaMode::Auto
    } else if is_blending(supported.last()) {
        supported.last()
    } else {
        spec_choose_alpha_mode(transparent, supported.drop_last())
    }
}

/// For a transparent window the alpha mode is the blending mode that comes
/// last among the supported ones, and `Auto` when none blends; an opaque
/// window always gets `Auto`.
pub proof fn lemma_alpha_mode_is_last_blending(transparent: bool, supported: Seq<AlphaMode>)
    ensures
        !transparent ==> spec_choose_alpha_mode(transparent, supported) == AlphaMode::Auto,
        (forall|k: int|
            0 <= k < supported.len() ==> !(#[trigger] supported[k] == AlphaMode::PreMultiplied
                || supported[k] == AlphaMode::PostMultiplied)) ==> spec_choose_alpha_mode(
            transparent,
            supported,
        ) == AlphaMode::Auto,
        forall|j: int|
            transparent && 0 <= j < supported.len() && (#[trigger] supported[j]
                == AlphaMode::PreMultiplied || supported[j] == AlphaMode::PostMultiplied) && (forall|
                k: int,
            |
                j < k < supported.len() ==> !(#[trigger] supported[k] == AlphaMode::PreMultiplied
                    || supported[k] == AlphaMode::PostMultiplied)) ==> spec_choose_alpha_mode(
                transparent,
                supported,
            ) == supported[j],
    decreases supported.len(),
{
    if transparent && supported.len() > 0 {
        let rest = supported.drop_last();
        lemma_alpha_mode_is_last_blending(transparent, rest);
        let n = supported.len() - 1;
        assert forall|k: int| 0 <= k < rest.len() implies #[trigger] rest[k] == supported[k] by {}
        if !is_blending(supported.last()) {
            assert forall|j: int|
                0 <= j < supported.len() && (#[trigger] supported[j] == AlphaMode::PreMultiplied
                    || supported[j] == AlphaMode::PostMultiplied) && (forall|k: int|
                    j < k < supported.len() ==> !(#[trigger] supported[k]
                        == AlphaMode::PreMultiplied || supported[k] == AlphaMode::PostMultiplied))
                implies spec_choose_alpha_mode(transparent, supported) == supported[j] by {
                assert(j != n);
                assert(rest[j] == supported[j]);
                assert forall|k: int| j < k < rest.len() implies !(#[trigger] rest[k]
                    == AlphaMode::PreMultiplied || rest[k] == AlphaMode::PostMultiplied) by {
                    assert(rest[k] == supported[k]);
                }
            }
            if forall|k: int|
                0 <= k < supported.len() ==> !(#[trigger] supported[k] == AlphaMode::PreMultiplied
                    || supported[k] == AlphaMode::PostMultiplied) {
                assert forall|k: int| 0 <= k < rest.len() implies !(#[trigger] rest[k]
                    == AlphaMode::PreMultiplied || rest[k] == AlphaMode::PostMultiplied) by {
                    assert(rest[k] == supported[k]);
                }
            }
        } else {
            assert(supported[n] == supported.last());
        }
    }
}

/// Chooses the alpha mode for the surface among the supported ones.
pub fn choose_alpha_mode(transparent: bool, supported: &[AlphaMode]) -> (r: AlphaMode)
    ensures
        r == spec_choose_alpha_mode(transparent, supported@),
        !transparent ==> r == AlphaMode::Auto,
        (forall|k: int|
            0 <= k < supported@.len() ==> !(#[trigger] supported@[k] == AlphaMode::PreMultiplied
                || supported@[k] == AlphaMode::PostMultiplied)) ==> r == AlphaMode::Auto,
        forall|j: int|
            transparent && 0 <= j < supported@.len() && (#[trigger] supported@[j]
                == AlphaMode::PreMultiplied || supported@[j] == AlphaMode::PostMultiplied) && (forall|
                k: int,
            |
                j < k < supported@.len() ==> !(#[trigger] supported@[k] == AlphaMode::PreMultiplied
                    || supported@[k] == AlphaMode::PostMultiplied)) ==> r == supported@[j],
{
    let mut chosen = AlphaMode::Auto;
    if transparent {
        let mut i: usize = 0;
        while i < supported.len()
            invariant
                transparent,
                i <= supported@.len(),
                chosen == spec_choose_alpha_mode(transparent, supported@.subrange(0, i as int)),
            decreases supported@.len() - i,
        {
            let mode = supported[i];
            proof {
                let next = supported@.subrange(0, i + 1);
                assert(next.drop_last() =~= supported@.subrange(0, i as int));
                assert(next.last() == mode);
            }
            if mode == AlphaMode::PreMultiplied || mode == AlphaMode::PostMultiplied {
                chosen = mode;
            }
            i = i + 1;
        }
        assert(supported@.subrange(0, supported@.len() as int) =~= supported@);
    }
    proof {
        lemma_alpha_mode_is_last_blending(transparent, supported@);
    }
    chosen
}

/// What asking the surface for its next texture gave.
#[derive(Clone, Copy, Debug, PartialEq, Eq, Structural)]
pub enum SurfaceStatus {
    Success,
    Suboptimal,
    Timeout,
    Occluded,
    Outdated,
    Lost,
    Validation,
}

/// What to do with that answer.
#[derive(Clone, Copy, Debug, PartialEq, Eq, Structural)]
pub enum SurfaceAction {
    /// Draw into the texture and present it.
    Draw,
    /// Skip this frame.
    Skip,
    /// Drop the texture, if any, reconfigure the surface, skip this frame.
    Reconfigure,
    /// Create the surface anew, read its capabilities, reconfigure it, skip
    /// this frame.
    Recreate,
}

/// The action for each status; a validation failure, which is never
/// reported here, is given `Skip` only to make the function total.
pub open spec fn spec_surface_action(status: SurfaceStatus) -> SurfaceAction {
    match status {
        SurfaceStatus::Success => SurfaceAction::Draw,
        SurfaceStatus::Timeout | SurfaceStatus::Occluded => SurfaceAction::Skip,
        SurfaceStatus::Suboptimal | SurfaceStatus::Outdated => SurfaceAction::Reconfigure,
        SurfaceStatus::Lost => SurfaceAction::Recreate,
        SurfaceStatus::Validation => SurfaceAction::Skip,
    }
}

/// The action for a surface status. A validation failure cannot happen:
/// no error scope catches the surface's errors.
pub fn surface_action(status: SurfaceStatus) -> (r: SurfaceAction)
    requires
        status != SurfaceStatus::Validation,
    ensures
        r == spec_surface_action(status),
        r == SurfaceAction::Draw <==> status == SurfaceStatus::Success,
        r == SurfaceAction::Skip <==> (status == SurfaceStatus::Timeout || status
            == SurfaceStatus::Occluded),
        r == SurfaceAction::Reconfigure <==> (status == SurfaceStatus::Suboptimal || status
            == SurfaceStatus::Outdated),
        r == SurfaceAction::Recreate <==> status == SurfaceStatus::Lost,
{
    match status {
        SurfaceStatus::Success => SurfaceAction::Draw,
        SurfaceStatus::Timeout | SurfaceStatus::Occluded => SurfaceAction::Skip,
        SurfaceStatus::Suboptimal | SurfaceStatus::Outdated => SurfaceAction::Reconfigure,
        SurfaceStatus::Lost => SurfaceAction::Recreate,
        SurfaceStatus::Validation => {
            proof {
                assert(false);
            }
            SurfaceAction::Skip
        },
    }
}

/// Refresh rate assumed when the monitor's is unknown: 60 Hz.
pub const DEFAULT_REFRESH_MILLIHERTZ: u32 = 60_000;

/// The monitor's refresh rate in millihertz, or 60 Hz when it is unknown.
pub fn refresh_millihertz(reported: Option<u32>) -> (r: u32)
    ensures
        r == match reported {
            Some(rate) => rate,
            None => DEFAULT_REFRESH_MILLIHERTZ,
        },
{
    match reported {
        Some(rate) => rate,
        None => DEFAULT_REFRESH_MILLIHERTZ,
    }
}

} // verus!
