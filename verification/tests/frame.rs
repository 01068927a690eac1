use netrender::compositor_surfaces::Bounds;
use netrender::compositor_surfaces::Surface;
use netrender::external_texture::SourceAlpha;
use netrender::frame::boundaries_in_order;
use netrender::frame::clamp_boundary;
use netrender::frame::frame_steps;
use netrender::frame::handover_steps;
use netrender::frame::paint_steps;
use netrender::frame::tail_placement;
use netrender::frame::FrameStep;
use netrender::single::Single;

fn surface(key: u64) -> Surface {
    let bounds =
        Bounds { x0: Single::zero(), y0: Single::zero(), x1: Single::one(), y1: Single::one() };
    Surface { key, bounds }
}

#[test]
fn a_plain_frame_is_painted_and_handed_over() {
    assert_eq!(paint_steps(5, &vec![], &vec![]), [FrameStep::RenderMaster]);
    assert_eq!(handover_steps(&vec![], &vec![]), [FrameStep::Present, FrameStep::Commit]);
}

#[test]
fn surfaces_go_before_they_come() {
    assert_eq!(
        handover_steps(&vec![4, 2], &vec![surface(9)]),
        [
            FrameStep::DestroySurface(4),
            FrameStep::DestroySurface(2),
            FrameStep::DeclareSurface(surface(9)),
            FrameStep::Present,
            FrameStep::Commit,
        ]
    );
}

#[test]
fn topmost_textures_redraw_nothing() {
    assert_eq!(
        paint_steps(5, &vec![5, usize::MAX], &vec![false, false]),
        [
            FrameStep::RenderMaster,
            FrameStep::ComposeExternal(0),
            FrameStep::ComposeExternal(1),
        ]
    );
}

#[test]
fn interleaved_textures_share_one_scratch_image() {
    assert_eq!(
        paint_steps(5, &vec![1, 2, 3, 9], &vec![true, false, false, false]),
        [
            FrameStep::RenderMaster,
            FrameStep::ComposeExternal(0),
            FrameStep::ComposeExternal(1),
            FrameStep::CreateTailTarget,
            FrameStep::RenderTail(2),
            FrameStep::ComposeTail(2),
            FrameStep::ComposeExternal(2),
            FrameStep::RenderTail(3),
            FrameStep::ComposeTail(3),
            FrameStep::ComposeExternal(3),
        ]
    );
}

#[test]
fn boundaries_are_clamped_before_they_are_compared() {
    assert_eq!(clamp_boundary(3, 5), 3);
    assert_eq!(clamp_boundary(usize::MAX, 5), 5);
    assert!(boundaries_in_order(5, &vec![]));
    assert!(boundaries_in_order(5, &vec![0, 2, 2, 9, 7]));
    assert!(!boundaries_in_order(5, &vec![0, 3, 2]));
}

#[test]
fn a_whole_frame_is_painted_before_it_is_handed_over() {
    assert_eq!(
        frame_steps(5, &vec![5], &vec![true], &vec![4], &vec![surface(9)]),
        [
            FrameStep::RenderMaster,
            FrameStep::ComposeExternal(0),
            FrameStep::DestroySurface(4),
            FrameStep::DeclareSurface(surface(9)),
            FrameStep::Present,
            FrameStep::Commit,
        ]
    );
}

#[test]
fn a_tail_covers_the_whole_viewport() {
    let placement = tail_placement(1920, 16777217);
    let (zero, one) = (Single::zero(), Single::one());
    let corner = |side: f32| Single::from_bits(side.to_bits());
    assert_eq!(placement.dest_rect, [zero, zero, corner(1920.0), corner(16777216.0)]);
    assert_eq!(placement.uv, [zero, zero, one, one]);
    assert_eq!(placement.opacity, one);
    assert_eq!(placement.alpha, SourceAlpha::Straight);
    assert!(placement.draws(1920, 16777217));
}
