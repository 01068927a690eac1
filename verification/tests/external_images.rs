use netrender::external_images::retirement_actions;
use netrender::external_images::ExternalImageState;
use netrender::external_images::ExternalImages;
use netrender::external_images::ImageSize;
use netrender::external_images::StageAction;
use netrender::external_images::StageRun;
use netrender::pipeline::TextureUsage;

fn carry_out(images: &mut ExternalImages, mut run: StageRun, refreshed: bool) -> Vec<StageAction> {
    let mut actions = Vec::new();
    while run.action != StageAction::Done {
        actions.push(run.action);
        if run.action == StageAction::Record {
            images.record(&run);
        }
        run.advance(refreshed);
    }
    actions
}

#[test]
fn a_new_image_is_registered_and_drops_the_tiles() {
    let mut images = ExternalImages::default();
    let run = images.begin(17, [4, 4], 1).unwrap();
    assert!(run.new_identity);
    assert!(!run.replaces);
    assert_eq!(
        carry_out(&mut images, run, false),
        [
            StageAction::Sample,
            StageAction::Refresh,
            StageAction::Register,
            StageAction::InvalidateOverrides,
            StageAction::ClearTiles,
            StageAction::Record,
        ]
    );
    assert_eq!(
        images.map[&17],
        ExternalImageState { size: ImageSize { width: 4, height: 4 }, generation: 1 }
    );
}

#[test]
fn staging_the_same_content_again_does_nothing() {
    let mut images = ExternalImages::default();
    let run = images.begin(17, [4, 4], 1).unwrap();
    carry_out(&mut images, run, false);
    assert_eq!(images.begin(17, [4, 4], 1), None);
    assert!(images.begin(18, [4, 4], 1).is_some());
}

#[test]
fn new_content_at_the_same_size_keeps_the_tiles() {
    let mut images = ExternalImages::default();
    let run = images.begin(17, [4, 4], 1).unwrap();
    carry_out(&mut images, run, false);
    let run = images.begin(17, [4, 4], 2).unwrap();
    assert_eq!(
        carry_out(&mut images, run, true),
        [StageAction::Sample, StageAction::Refresh, StageAction::Record]
    );
    let run = images.begin(17, [4, 4], 3).unwrap();
    assert_eq!(
        carry_out(&mut images, run, false),
        [
            StageAction::Sample,
            StageAction::Refresh,
            StageAction::Register,
            StageAction::InvalidateOverrides,
            StageAction::Record,
        ]
    );
}

#[test]
fn a_resized_image_replaces_the_old_one() {
    let mut images = ExternalImages::default();
    let run = images.begin(17, [4, 4], 1).unwrap();
    carry_out(&mut images, run, false);
    let run = images.begin(17, [8, 4], 3).unwrap();
    assert!(run.replaces);
    assert_eq!(
        carry_out(&mut images, run, true),
        [
            StageAction::Sample,
            StageAction::Unregister,
            StageAction::Register,
            StageAction::InvalidateOverrides,
            StageAction::ClearTiles,
            StageAction::Record,
        ]
    );
    assert_eq!(images.map[&17].size, ImageSize { width: 8, height: 4 });
}

#[test]
fn an_image_the_atlas_knew_already_is_only_refreshed() {
    let mut images = ExternalImages::default();
    let run = images.begin(17, [4, 4], 1).unwrap();
    assert_eq!(
        carry_out(&mut images, run, true),
        [
            StageAction::Sample,
            StageAction::Refresh,
            StageAction::ClearTiles,
            StageAction::Record,
        ]
    );
}

#[test]
fn a_size_of_zero_counts_as_one() {
    let mut images = ExternalImages::default();
    let run = images.begin(17, [0, 5], 1).unwrap();
    assert_eq!(run.state.size, ImageSize { width: 1, height: 5 });
    carry_out(&mut images, run, false);
    assert_eq!(images.begin(17, [1, 5], 1), None);
}

#[test]
fn a_retired_image_is_staged_anew() {
    let mut images = ExternalImages::default();
    let run = images.begin(17, [4, 4], 1).unwrap();
    carry_out(&mut images, run, false);
    assert!(images.retire(17));
    assert!(!images.retire(17));
    assert!(images.begin(17, [4, 4], 1).unwrap().new_identity);
}

#[test]
fn a_finished_run_stays_finished() {
    let images = ExternalImages::default();
    let mut run = images.begin(17, [4, 4], 1).unwrap();
    for _ in 0..6 {
        run.advance(false);
    }
    assert_eq!(run.action, StageAction::Done);
    run.advance(true);
    assert_eq!(run.action, StageAction::Done);
}

#[test]
fn retiring_lists_what_goes_with_the_image() {
    assert_eq!(retirement_actions(false, true), []);
    assert_eq!(retirement_actions(true, false), [StageAction::ClearTiles]);
    assert_eq!(
        retirement_actions(true, true),
        [StageAction::Unregister, StageAction::InvalidateOverrides, StageAction::ClearTiles]
    );
}

#[test]
fn staging_images_can_be_copied_from() {
    let run = ExternalImages::default().begin(17, [0, 5], 1).unwrap();
    let image = run.staging_image();
    assert_eq!(image.size, ImageSize { width: 1, height: 5 });
    assert_eq!(image.format, "Rgba8Unorm");
    assert_eq!(image.usage, TextureUsage::intermediate());
    assert!(image.usage.copy_src);
}
