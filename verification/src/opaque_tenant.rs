//! Tenants: producers whose texture takes part in a frame and whose own work
//! the renderer does not look into.
use crate::effect_graph::EffectGraph;
use crate::effect_graph::GraphModel;
use crate::effect_graph::GraphPass;
use crate::effect_graph::GraphTask;
use crate::effect_graph::ImageLoad;
use crate::effect_graph::ImageModel;
use crate::effect_graph::ImageNode;
use crate::effect_graph::PassModel;
use crate::effect_graph::RasterExecution;
use crate::effect_graph::TaskModel;
use crate::external_texture::ExternalTexturePlacement;
use crate::frame;
use crate::frame::clamp_boundary;
use crate::pipeline::VelloBackend;
use crate::text;
use crate::text::debug_text;
use crate::text::push_decimal;
use crate::text::push_optional_decimal;
use vstd::prelude::*;
use vstd::string::*;

verus! {

/// What the host says of one tenant in a frame. The renderer records it and
/// does not interpret it.
#[derive(Clone, Debug)]
#[non_exhaustive]
pub struct OpaqueTenantMetadata {
    pub tenant_name: String,
    pub producer_path: String,
    pub fallback_count: u64,
    /// The number of scene operations that paint before the tenant.
    pub scene_op_boundary: usize,
    pub placement: ExternalTexturePlacement,
    /// The tenant's physical submissions, where the host reports them.
    pub caller_reported_physical_submission_count: Option<u64>,
}

impl OpaqueTenantMetadata {
    /// Metadata without a count of submissions.
    pub fn new(
        tenant_name: String,
        producer_path: String,
        fallback_count: u64,
        scene_op_boundary: usize,
        placement: ExternalTexturePlacement,
    ) -> (r: OpaqueTenantMetadata)
        ensures
            r == (OpaqueTenantMetadata {
                tenant_name,
                producer_path,
                fallback_count,
                scene_op_boundary,
                placement,
                caller_reported_physical_submission_count: None,
            }),
    {
        OpaqueTenantMetadata {
            tenant_name,
            producer_path,
            fallback_count,
            scene_op_boundary,
            placement,
            caller_reported_physical_submission_count: None,
        }
    }

    /// Adds the count of submissions that the host reports.
    pub fn with_reported_physical_submission_count(self, count: u64) -> (r: OpaqueTenantMetadata)
        ensures
            r == (OpaqueTenantMetadata {
                caller_reported_physical_submission_count: Some(count),
                ..self
            }),
    {
        OpaqueTenantMetadata { caller_reported_physical_submission_count: Some(count), ..self }
    }
}

/// A tenant's texture, by the host's handle `T`, and what is said of it.
#[non_exhaustive]
pub struct OpaqueTenantInput<'a, T> {
    pub texture: &'a T,
    pub metadata: OpaqueTenantMetadata,
}

impl<'a, T> OpaqueTenantInput<'a, T> {
    /// Puts the two together.
    pub fn new(texture: &'a T, metadata: OpaqueTenantMetadata) -> (r: OpaqueTenantInput<'a, T>)
        ensures
            r.texture == texture,
            r.metadata == metadata,
    {
        OpaqueTenantInput { texture, metadata }
    }
}

/// What a tenant's part in a frame came to.
#[derive(Clone, Debug, PartialEq, Eq)]
#[non_exhaustive]
pub struct OpaqueTenantReceipt {
    pub tenant_name: String,
    pub producer_path: String,
    pub fallback_count: u64,
    pub scene_op_boundary: usize,
    pub caller_reported_physical_submission_count: Option<u64>,
    pub logical_opaque_producer_boundaries: usize,
    /// Encoders of the graph alone, without those of the rasterizer or of the
    /// tenant.
    pub graph_encoder_batches: usize,
    /// Submissions of the graph alone.
    pub graph_submission_boundaries: usize,
    pub logical_plan_dump: String,
}

/// The dump of a tenant's part in a frame: one line on the tenant, then the
/// dump of the graph. The two names come quoted.
pub open spec fn plan_dump_text(
    tenant_name: Seq<char>,
    producer_path: Seq<char>,
    fallback_count: u64,
    boundary: usize,
    reported: Option<u64>,
    graph_dump: Seq<char>,
) -> Seq<char> {
    "opaque_tenant tenant_name="@ + tenant_name + " producer_path="@ + producer_path
        + " fallback_count="@ + text::decimal(fallback_count as nat) + " scene_op_boundary="@
        + text::decimal(boundary as nat) + " caller_reported_physical_submission_count="@
        + text::optional_decimal(reported) + "\n"@ + graph_dump
}

/// Writes the dump of a tenant's part in a frame, from names that are quoted
/// already.
pub fn plan_dump(
    tenant_name: &str,
    producer_path: &str,
    fallback_count: u64,
    boundary: usize,
    reported: Option<u64>,
    graph_dump: &str,
) -> (r: String)
    ensures
        r@ == plan_dump_text(
            tenant_name@,
            producer_path@,
            fallback_count,
            boundary,
            reported,
            graph_dump@,
        ),
{
    let mut out: String = String::new();
    proof {
        assert(Seq::<char>::empty() + "opaque_tenant tenant_name="@
            == "opaque_tenant tenant_name="@);
    }
    out.append("opaque_tenant tenant_name=");
    out.append(tenant_name);
    out.append(" producer_path=");
    out.append(producer_path);
    out.append(" fallback_count=");
    push_decimal(&mut out, fallback_count);
    out.append(" scene_op_boundary=");
    push_decimal(&mut out, boundary as u64);
    out.append(" caller_reported_physical_submission_count=");
    push_optional_decimal(&mut out, reported);
    out.append("\n");
    out.append(graph_dump);
    out
}

/// Draws up the receipt of a tenant in a frame of a scene with `op_count`
/// operations.
pub fn opaque_tenant_receipt(
    metadata: &OpaqueTenantMetadata,
    op_count: usize,
    graph_dump: &str,
) -> (r: OpaqueTenantReceipt)
    ensures
        r.tenant_name@ == metadata.tenant_name@,
        r.producer_path@ == metadata.producer_path@,
        r.fallback_count == metadata.fallback_count,
        r.scene_op_boundary == frame::clamped(metadata.scene_op_boundary, op_count),
        r.caller_reported_physical_submission_count
            == metadata.caller_reported_physical_submission_count,
        r.logical_opaque_producer_boundaries == 1,
        r.graph_encoder_batches == 1,
        r.graph_submission_boundaries == 1,
        r.logical_plan_dump@ == plan_dump_text(
            text::debug_form(metadata.tenant_name@),
            text::debug_form(metadata.producer_path@),
            metadata.fallback_count,
            r.scene_op_boundary,
            metadata.caller_reported_physical_submission_count,
            graph_dump@,
        ),
{
    let boundary: usize = clamp_boundary(metadata.scene_op_boundary, op_count);
    let tenant_name: String = debug_text(metadata.tenant_name.as_str());
    let producer_path: String = debug_text(metadata.producer_path.as_str());
    OpaqueTenantReceipt {
        tenant_name: metadata.tenant_name.clone(),
        producer_path: metadata.producer_path.clone(),
        fallback_count: metadata.fallback_count,
        scene_op_boundary: boundary,
        caller_reported_physical_submission_count: metadata.caller_reported_physical_submission_count,
        logical_opaque_producer_boundaries: 1,
        graph_encoder_batches: 1,
        graph_submission_boundaries: 1,
        logical_plan_dump: plan_dump(
            tenant_name.as_str(),
            producer_path.as_str(),
            metadata.fallback_count,
            boundary,
            metadata.caller_reported_physical_submission_count,
            graph_dump,
        ),
    }
}

/// An image of a tenant's graph, before it is part of one.
#[derive(Debug, PartialEq)]
pub struct TenantImage {
    pub width: u32,
    pub height: u32,
    /// The device's name for how pixels are stored.
    pub format: String,
}

impl TenantImage {
    /// The image under its label, as it comes into the graph.
    pub open spec fn labelled(self, label: Seq<char>) -> ImageModel {
        ImageModel {
            label,
            width: self.width,
            height: self.height,
            format: self.format@,
            imported: true,
        }
    }
}

/// The graph of a tenant: its texture and the painted master come in, and one
/// pass draws the first into the second. It is headed by the description of who
/// painted the master.
pub open spec fn tenant_graph(
    tenant_name: Seq<char>,
    texture: TenantImage,
    master: TenantImage,
    header: Seq<char>,
) -> GraphModel {
    GraphModel::empty().with_image(texture.labelled(tenant_name)).with_image(
        master.labelled("netrender initialized master"@),
    ).with_task(
        TaskModel {
            label: "opaque tenant composite"@,
            reads: seq![0nat],
            writes: 1,
            load: ImageLoad::Load,
            pass: PassModel::ExternalTexture,
        },
    ).with_header(header)
}

/// Builds the graph of a tenant. Its first image is the tenant's texture, its
/// second the master, which the classic backend paints.
pub fn opaque_tenant_graph(
    metadata: &OpaqueTenantMetadata,
    texture: TenantImage,
    master: TenantImage,
    execution: &RasterExecution,
) -> (r: EffectGraph)
    requires
        execution.backend == VelloBackend::Classic,
    ensures
        r@ == tenant_graph(metadata.tenant_name@, texture, master, execution.description@),
{
    let mut graph: EffectGraph = EffectGraph::new();
    let first: ImageNode = graph.import_image(
        metadata.tenant_name.clone(),
        texture.width,
        texture.height,
        texture.format,
    );
    let second: ImageNode = graph.import_image(
        "netrender initialized master".to_owned(),
        master.width,
        master.height,
        master.format,
    );
    let mut reads: Vec<ImageNode> = Vec::new();
    reads.push(first);
    let task: GraphTask = GraphTask {
        label: "opaque tenant composite".to_owned(),
        reads,
        writes: second,
        load: ImageLoad::Load,
        pass: GraphPass::ExternalTexture,
    };
    proof {
        assert(task@.reads == seq![0nat]);
    }
    graph.add_task(task);
    graph.with_diagnostic_header(execution.description.clone())
}

} // verus!
