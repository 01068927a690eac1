use netrender::effect_graph::ImageLoad;
use netrender::effect_graph::ImageNode;
use netrender::effect_graph::RasterExecution;
use netrender::external_texture::ExternalTexturePlacement;
use netrender::opaque_tenant::opaque_tenant_graph;
use netrender::opaque_tenant::opaque_tenant_receipt;
use netrender::opaque_tenant::plan_dump;
use netrender::opaque_tenant::OpaqueTenantInput;
use netrender::opaque_tenant::OpaqueTenantMetadata;
use netrender::opaque_tenant::TenantImage;
use netrender::pipeline::VelloBackend;
use netrender::single::Single;

fn metadata() -> OpaqueTenantMetadata {
    OpaqueTenantMetadata::new(
        "a \"quoted\" tenant".to_string(),
        "path\\to\nit".to_string(),
        12,
        7,
        ExternalTexturePlacement::new([
            Single::zero(),
            Single::zero(),
            Single::one(),
            Single::one(),
        ]),
    )
}

#[test]
fn metadata_starts_without_a_count() {
    let plain = metadata();
    assert_eq!(plain.caller_reported_physical_submission_count, None);
    let counted = plain.with_reported_physical_submission_count(3);
    assert_eq!(counted.caller_reported_physical_submission_count, Some(3));
    assert_eq!(counted.tenant_name, "a \"quoted\" tenant");
    assert_eq!(counted.fallback_count, 12);
    let texture = 5u8;
    let input = OpaqueTenantInput::new(&texture, counted);
    assert_eq!(*input.texture, 5);
    assert_eq!(input.metadata.scene_op_boundary, 7);
}

#[test]
fn the_receipt_repeats_what_the_host_said() {
    let receipt = opaque_tenant_receipt(&metadata(), 9, "graph\n");
    assert_eq!(receipt.tenant_name, "a \"quoted\" tenant");
    assert_eq!(receipt.producer_path, "path\\to\nit");
    assert_eq!(receipt.fallback_count, 12);
    assert_eq!(receipt.scene_op_boundary, 7);
    assert_eq!(receipt.caller_reported_physical_submission_count, None);
    assert_eq!(receipt.logical_opaque_producer_boundaries, 1);
    assert_eq!(receipt.graph_encoder_batches, 1);
    assert_eq!(receipt.graph_submission_boundaries, 1);
    assert_eq!(
        receipt.logical_plan_dump,
        format!(
            "opaque_tenant tenant_name={:?} producer_path={:?} fallback_count={} scene_op_boundary={} caller_reported_physical_submission_count={:?}\n{}",
            "a \"quoted\" tenant", "path\\to\nit", 12, 7, None::<u64>, "graph\n"
        )
    );
}

#[test]
fn the_receipt_clamps_the_boundary() {
    let reported = metadata().with_reported_physical_submission_count(u64::MAX);
    let receipt = opaque_tenant_receipt(&reported, 4, "");
    assert_eq!(receipt.scene_op_boundary, 4);
    assert_eq!(
        receipt.logical_plan_dump,
        "opaque_tenant tenant_name=\"a \\\"quoted\\\" tenant\" producer_path=\"path\\\\to\\nit\" fallback_count=12 scene_op_boundary=4 caller_reported_physical_submission_count=Some(18446744073709551615)\n"
    );
}

#[test]
fn the_dump_is_one_line_and_the_graph() {
    assert_eq!(
        plan_dump("\"t\"", "\"p\"", 0, 10, Some(2), "rest"),
        "opaque_tenant tenant_name=\"t\" producer_path=\"p\" fallback_count=0 scene_op_boundary=10 caller_reported_physical_submission_count=Some(2)\nrest"
    );
}

#[test]
fn the_tenant_is_drawn_into_the_painted_master() {
    let texture = TenantImage { width: 8, height: 4, format: "Rgba8Unorm".to_string() };
    let master = TenantImage { width: 64, height: 32, format: "Bgra8Unorm".to_string() };
    let execution = RasterExecution {
        backend: VelloBackend::Classic,
        description: "classic, opaque".to_string(),
    };
    let graph = opaque_tenant_graph(&metadata(), texture, master, &execution);
    assert_eq!(graph.header, "classic, opaque");
    assert_eq!(graph.images[0].format, "Rgba8Unorm");
    assert_eq!(graph.images[1].format, "Bgra8Unorm");
    assert_eq!(graph.images.len(), 2);
    assert_eq!(graph.images[0].label, "a \"quoted\" tenant");
    assert_eq!((graph.images[0].width, graph.images[0].height), (8, 4));
    assert_eq!(graph.images[1].label, "netrender initialized master");
    assert_eq!((graph.images[1].width, graph.images[1].height), (64, 32));
    assert!(graph.images.iter().all(|image| image.imported));
    assert_eq!(graph.tasks.len(), 1);
    assert_eq!(graph.tasks[0].label, "opaque tenant composite");
    assert_eq!(graph.tasks[0].reads, [ImageNode { index: 0 }]);
    assert_eq!(graph.tasks[0].writes, ImageNode { index: 1 });
    assert_eq!(graph.tasks[0].load, ImageLoad::Load);
}
