//! Graphs of image passes.
//!
//! A graph lists images and the passes that fill them. It is built here and
//! carried out by the host: imported images come from outside, and every other
//! image is filled by one pass that reads images filled before.
use crate::combined_effect::CombinedEffectDecomposition;
use crate::combined_effect::DecompositionModel;
use crate::pipeline;
use crate::pipeline::VelloBackend;
use crate::scene::SceneFilter;
use crate::single;
use crate::single::Single;
use crate::text;
use crate::text::push_decimal;
use vstd::prelude::*;
use vstd::string::*;

verus! {

/// An image of a graph, by its place in the graph's list.
#[derive(Clone, Copy, Debug, PartialEq, Eq, Structural)]
pub struct ImageNode {
    pub index: usize,
}

/// What a pass finds in the image that it writes.
#[derive(Clone, Copy, Debug, PartialEq, Eq, Structural)]
pub enum ImageLoad {
    /// Nothing: it is cleared.
    Clear,
    /// What was there before.
    Load,
}

/// One pass of a blur.
#[derive(Clone, Copy, Debug, PartialEq, Eq, Structural)]
pub enum BlurPass {
    /// Copies between two sizes.
    Resample,
    /// Blurs along rows, by `step_px` pixels of an image `dim` pixels wide.
    Horizontal { step_px: Single, dim: u32 },
    /// Blurs along columns, by `step_px` pixels of an image `dim` pixels high.
    Vertical { step_px: Single, dim: u32 },
}

/// The part of its two inputs that a join shows.
#[derive(Clone, Copy, Debug, PartialEq, Eq, Structural)]
pub enum JoinSource {
    /// All of them.
    Whole,
    /// The part that lies under the rectangle which is filled, in an image with
    /// sides of this many pixels.
    UnderDest(u32),
}

/// What a pass does.
#[derive(Clone, Copy, Debug, PartialEq)]
pub enum GraphPass {
    Blur(BlurPass),
    /// Applies the colour matrix of a filter.
    ColorMatrix(SceneFilter),
    /// Lays the second image over the first inside a rectangle.
    Join { dest: [Single; 4], source: JoinSource, opacity: Single },
    /// Draws an external texture into what is there.
    ExternalTexture,
}

/// An image of a graph.
#[derive(Debug, PartialEq)]
pub struct GraphImage {
    pub label: String,
    pub width: u32,
    pub height: u32,
    /// The device's name for how pixels are stored.
    pub format: String,
    /// Whether the image comes from outside the graph.
    pub imported: bool,
}

/// A pass of a graph.
#[derive(Debug, PartialEq)]
pub struct GraphTask {
    pub label: String,
    pub reads: Vec<ImageNode>,
    pub writes: ImageNode,
    pub load: ImageLoad,
    pub pass: GraphPass,
}

/// Images and the passes that fill them, in order.
#[derive(Debug, PartialEq)]
pub struct EffectGraph {
    /// A line for those who look into the graph, on who carries it out.
    pub header: String,
    pub images: Vec<GraphImage>,
    pub tasks: Vec<GraphTask>,
}

/// How a blur is carried out: at a size reduced by `level`, in `passes` rounds
/// of two passes with steps of `step_px` pixels.
#[derive(Clone, Copy, Debug, PartialEq, Eq, Structural)]
pub struct BlurKernel {
    pub level: u32,
    pub passes: u32,
    pub step_px: Single,
}

/// What a [`GraphImage`] stands for.
pub struct ImageModel {
    pub label: Seq<char>,
    pub width: u32,
    pub height: u32,
    pub format: Seq<char>,
    pub imported: bool,
}

/// What a [`GraphPass`] stands for.
pub enum PassModel {
    Blur(BlurPass),
    ColorMatrix(SceneFilter),
    Join { dest: Seq<Single>, source: JoinSource, opacity: Single },
    ExternalTexture,
}

/// What a [`GraphTask`] stands for.
pub struct TaskModel {
    pub label: Seq<char>,
    pub reads: Seq<nat>,
    pub writes: nat,
    pub load: ImageLoad,
    pub pass: PassModel,
}

/// What an [`EffectGraph`] stands for.
pub struct GraphModel {
    pub header: Seq<char>,
    pub images: Seq<ImageModel>,
    pub tasks: Seq<TaskModel>,
}

impl View for ImageNode {
    type V = nat;

    open spec fn view(&self) -> nat {
        self.index as nat
    }
}

impl View for GraphImage {
    type V = ImageModel;

    open spec fn view(&self) -> ImageModel {
        ImageModel {
            label: self.label@,
            width: self.width,
            height: self.height,
            format: self.format@,
            imported: self.imported,
        }
    }
}

impl View for GraphPass {
    type V = PassModel;

    open spec fn view(&self) -> PassModel {
        match *self {
            GraphPass::Blur(pass) => PassModel::Blur(pass),
            GraphPass::ColorMatrix(filter) => PassModel::ColorMatrix(filter),
            GraphPass::Join { dest, source, opacity } => PassModel::Join {
                dest: dest@,
                source,
                opacity,
            },
            GraphPass::ExternalTexture => PassModel::ExternalTexture,
        }
    }
}

impl View for GraphTask {
    type V = TaskModel;

    open spec fn view(&self) -> TaskModel {
        TaskModel {
            label: self.label@,
            reads: Seq::new(self.reads@.len(), |i: int| self.reads@[i]@),
            writes: self.writes@,
            load: self.load,
            pass: self.pass@,
        }
    }
}

impl View for EffectGraph {
    type V = GraphModel;

    open spec fn view(&self) -> GraphModel {
        GraphModel {
            header: self.header@,
            images: Seq::new(self.images@.len(), |i: int| self.images@[i]@),
            tasks: Seq::new(self.tasks@.len(), |i: int| self.tasks@[i]@),
        }
    }
}

impl GraphModel {
    /// A graph of nothing.
    pub open spec fn empty() -> GraphModel {
        GraphModel { header: Seq::empty(), images: Seq::empty(), tasks: Seq::empty() }
    }

    /// The graph with one image more.
    pub open spec fn with_image(self, image: ImageModel) -> GraphModel {
        GraphModel { images: self.images.push(image), ..self }
    }

    /// The graph with another header.
    pub open spec fn with_header(self, header: Seq<char>) -> GraphModel {
        GraphModel { header, ..self }
    }

    /// The graph with one pass more.
    pub open spec fn with_task(self, task: TaskModel) -> GraphModel {
        GraphModel { tasks: self.tasks.push(task), ..self }
    }

    /// The graph with a square image more and a pass that fills it from `input`.
    pub open spec fn with_stage(
        self,
        input: nat,
        dim: u32,
        label: Seq<char>,
        pass: PassModel,
    ) -> GraphModel {
        self.with_image(transient(label, dim)).with_task(
            TaskModel {
                label,
                reads: seq![input],
                writes: self.images.len(),
                load: ImageLoad::Clear,
                pass,
            },
        )
    }
}

/// A graph and the image that was reached in it.
pub type Reached = (GraphModel, nat);

/// One more pass, from the image that was reached to a new one.
pub open spec fn staged(from: Reached, dim: u32, label: Seq<char>, pass: PassModel) -> Reached {
    (from.0.with_stage(from.1, dim, label, pass), from.0.images.len())
}

/// The reduced size at which a blur is carried out.
pub open spec fn reduced(dim: u32, level: u32) -> u32 {
    if dim / level == 0 {
        1
    } else {
        (dim / level) as u32
    }
}

/// The first `rounds` rounds of a blur: a pass along rows and one along columns
/// each.
pub open spec fn blur_rounds(
    from: Reached,
    dim: u32,
    step_px: Single,
    branch: Seq<char>,
    rounds: nat,
) -> Reached
    decreases rounds,
{
    if rounds == 0 {
        from
    } else {
        let number = (rounds - 1) as nat;
        let before = blur_rounds(from, dim, step_px, branch, number);
        let across = staged(
            before,
            dim,
            branch + " horizontal "@ + text::decimal(number),
            PassModel::Blur(BlurPass::Horizontal { step_px, dim }),
        );
        staged(
            across,
            dim,
            branch + " vertical "@ + text::decimal(number),
            PassModel::Blur(BlurPass::Vertical { step_px, dim }),
        )
    }
}

/// A blur of a square image. A radius of zero or less changes nothing.
pub open spec fn blurred(
    from: Reached,
    dim: u32,
    radius: Single,
    kernel: BlurKernel,
    branch: Seq<char>,
) -> Reached {
    if radius.le(Single::zero()) {
        from
    } else {
        let small = reduced(dim, kernel.level);
        let down = if kernel.level > 1 {
            staged(from, small, branch + " downsample"@, PassModel::Blur(BlurPass::Resample))
        } else {
            from
        };
        let done = blur_rounds(down, small, kernel.step_px, branch, kernel.passes as nat);
        if kernel.level > 1 {
            staged(done, dim, branch + " upsample"@, PassModel::Blur(BlurPass::Resample))
        } else {
            done
        }
    }
}

/// The first `count` filters of a list, one after the other. The blurs among
/// them are carried out by the kernels at the same places.
pub open spec fn filtered(
    from: Reached,
    dim: u32,
    filters: Seq<SceneFilter>,
    kernels: Seq<BlurKernel>,
    count: nat,
) -> Reached
    decreases count,
{
    if count == 0 {
        from
    } else {
        let last = (count - 1) as nat;
        let before = filtered(from, dim, filters, kernels, last);
        match filters[last as int] {
            SceneFilter::Blur(radius) => blurred(
                before,
                dim,
                radius,
                kernels[last as int],
                "rg2c element blur "@ + text::decimal(last),
            ),
            filter => staged(
                before,
                dim,
                "rg2c element matrix "@ + text::decimal(last),
                PassModel::ColorMatrix(filter),
            ),
        }
    }
}

/// Who rasters the inputs of an effect.
#[derive(Debug, PartialEq)]
pub struct RasterExecution {
    pub backend: VelloBackend,
    /// How the host describes it.
    pub description: String,
}

/// A graph for a split scene, with the images that go in and the one that comes
/// out.
#[derive(Debug, PartialEq)]
pub struct CombinedEffectPlan {
    pub graph: EffectGraph,
    pub prefix_input: ImageNode,
    pub content_input: ImageNode,
    pub output: ImageNode,
}

/// What a [`CombinedEffectPlan`] stands for.
pub struct PlanModel {
    pub graph: GraphModel,
    pub prefix_input: nat,
    pub content_input: nat,
    pub output: nat,
}

impl View for CombinedEffectPlan {
    type V = PlanModel;

    open spec fn view(&self) -> PlanModel {
        PlanModel {
            graph: self.graph@,
            prefix_input: self.prefix_input@,
            content_input: self.content_input@,
            output: self.output@,
        }
    }
}

/// A square image of an effect that comes from outside.
pub open spec fn imported(label: Seq<char>, dim: u32) -> ImageModel {
    ImageModel { label, width: dim, height: dim, format: pipeline::effect_format(), imported: true }
}

/// A square image of an effect that a pass fills.
pub open spec fn transient(label: Seq<char>, dim: u32) -> ImageModel {
    ImageModel { label, width: dim, height: dim, format: pipeline::effect_format(), imported: false }
}

/// The two inputs of an effect: the rasters of the prefix and of the content.
pub open spec fn effect_inputs(dim: u32, backend: Seq<char>) -> GraphModel {
    GraphModel::empty().with_image(
        imported("rg2c "@ + backend + " prefix raster"@, dim),
    ).with_image(imported("rg2c "@ + backend + " content raster"@, dim))
}

/// The backdrop branch: the prefix, blurred.
pub open spec fn backdrop_branch(
    effect: DecompositionModel,
    backend: Seq<char>,
    kernel: BlurKernel,
) -> Reached {
    let dim = effect.prefix.viewport_width;
    blurred(
        (effect_inputs(dim, backend), 0),
        dim,
        effect.backdrop_radius,
        kernel,
        "rg2c backdrop blur"@,
    )
}

/// The content branch, after the backdrop branch: the content, filtered.
pub open spec fn content_branch(
    effect: DecompositionModel,
    backend: Seq<char>,
    kernel: BlurKernel,
    kernels: Seq<BlurKernel>,
) -> Reached {
    filtered(
        (backdrop_branch(effect, backend, kernel).0, 1),
        effect.prefix.viewport_width,
        effect.element_filters,
        kernels,
        effect.element_filters.len(),
    )
}

/// The graph that carries out a split scene: the backdrop is blurred and the
/// content filtered; the two are joined inside the layer's bounds; and the
/// result is laid over the prefix with the layer's opacity. The graph is headed
/// by the description of who rasters its inputs.
pub open spec fn effect_plan(
    effect: DecompositionModel,
    backend: Seq<char>,
    header: Seq<char>,
    kernel: BlurKernel,
    kernels: Seq<BlurKernel>,
) -> PlanModel {
    let dim = effect.prefix.viewport_width;
    let side = single::nearest(dim as int);
    let backdrop = backdrop_branch(effect, backend, kernel).1;
    let (graph, content) = content_branch(effect, backend, kernel, kernels);
    let group = graph.images.len();
    let output = group + 1;
    PlanModel {
        graph: graph.with_image(transient("rg2c joined layer"@, dim)).with_image(
            transient("rg2c final output"@, dim),
        ).with_task(
            TaskModel {
                label: "rg2c two-input layer join"@,
                reads: seq![backdrop, content],
                writes: group,
                load: ImageLoad::Clear,
                pass: PassModel::Join {
                    dest: effect.bounds,
                    source: JoinSource::UnderDest(dim),
                    opacity: Single::one(),
                },
            },
        ).with_task(
            TaskModel {
                label: "rg2c prefix and layer alpha composite"@,
                reads: seq![0nat, group],
                writes: output,
                load: ImageLoad::Clear,
                pass: PassModel::Join {
                    dest: seq![Single::zero(), Single::zero(), side, side],
                    source: JoinSource::Whole,
                    opacity: effect.alpha,
                },
            },
        ).with_header(header),
        prefix_input: 0,
        content_input: 1,
        output,
    }
}

impl EffectGraph {
    /// A graph of nothing.
    pub fn new() -> (r: EffectGraph)
        ensures
            r@ == GraphModel::empty(),
    {
        let r: EffectGraph = EffectGraph {
            header: String::new(),
            images: Vec::new(),
            tasks: Vec::new(),
        };
        proof {
            assert(r@.images == Seq::<ImageModel>::empty());
            assert(r@.tasks == Seq::<TaskModel>::empty());
        }
        r
    }

    /// Adds an image.
    pub fn add_image(&mut self, image: GraphImage) -> (r: ImageNode)
        ensures
            r@ == old(self)@.images.len(),
            final(self)@ == old(self)@.with_image(image@),
    {
        let node: ImageNode = ImageNode { index: self.images.len() };
        self.images.push(image);
        proof {
            assert(self@.images == old(self)@.images.push(image@));
        }
        node
    }

    /// Adds an image that comes from outside.
    pub fn import_image(
        &mut self,
        label: String,
        width: u32,
        height: u32,
        format: String,
    ) -> (r: ImageNode)
        ensures
            r@ == old(self)@.images.len(),
            final(self)@ == old(self)@.with_image(
                ImageModel { label: label@, width, height, format: format@, imported: true },
            ),
    {
        self.add_image(GraphImage { label, width, height, format, imported: true })
    }

    /// Heads the graph with a line for those who look into it.
    pub fn with_diagnostic_header(self, header: String) -> (r: EffectGraph)
        ensures
            r@ == self@.with_header(header@),
    {
        EffectGraph { header, images: self.images, tasks: self.tasks }
    }

    /// Adds a square image of an effect that a pass is to fill.
    pub fn transient_image(&mut self, label: String, dim: u32) -> (r: ImageNode)
        ensures
            r@ == old(self)@.images.len(),
            final(self)@ == old(self)@.with_image(transient(label@, dim)),
    {
        self.add_image(
            GraphImage {
                label,
                width: dim,
                height: dim,
                format: "Rgba8Unorm".to_owned(),
                imported: false,
            },
        )
    }

    /// Adds a pass.
    pub fn add_task(&mut self, task: GraphTask)
        ensures
            final(self)@ == old(self)@.with_task(task@),
    {
        self.tasks.push(task);
        proof {
            assert(self@.tasks == old(self)@.tasks.push(task@));
        }
    }

    fn add_stage(&mut self, input: ImageNode, dim: u32, label: String, pass: GraphPass) -> (r:
        ImageNode)
        ensures
            (final(self)@, r@) == staged((old(self)@, input@), dim, label@, pass@),
    {
        let output: ImageNode = self.transient_image(label.clone(), dim);
        let mut reads: Vec<ImageNode> = Vec::new();
        reads.push(input);
        let task: GraphTask = GraphTask {
            label,
            reads,
            writes: output,
            load: ImageLoad::Clear,
            pass,
        };
        proof {
            assert(task@.reads == seq![input@]);
        }
        self.add_task(task);
        output
    }

    /// Appends the passes of a blur and returns the blurred image.
    pub fn append_blur(
        &mut self,
        input: ImageNode,
        dim: u32,
        radius: Single,
        kernel: BlurKernel,
        branch: &str,
    ) -> (r: ImageNode)
        requires
            kernel.level > 0,
        ensures
            (final(self)@, r@) == blurred((old(self)@, input@), dim, radius, kernel, branch@),
    {
        if radius.at_most(Single::zero()) {
            return input;
        }
        let quotient: u32 = dim / kernel.level;
        let small: u32 = if quotient == 0 {
            1
        } else {
            quotient
        };
        let mut previous: ImageNode = input;
        if kernel.level > 1 {
            let label: String = concat(branch, " downsample");
            previous = self.add_stage(previous, small, label, GraphPass::Blur(BlurPass::Resample));
        }
        let ghost down = (self@, previous@);
        let step_px: Single = kernel.step_px;
        let mut round: u32 = 0;
        while round < kernel.passes
            invariant
                round <= kernel.passes,
                step_px == kernel.step_px,
                (self@, previous@) == blur_rounds(down, small, step_px, branch@, round as nat),
            decreases kernel.passes - round,
        {
            let across: ImageNode = self.add_stage(
                previous,
                small,
                numbered(branch, " horizontal ", round as u64),
                GraphPass::Blur(BlurPass::Horizontal { step_px, dim: small }),
            );
            previous =
            self.add_stage(
                across,
                small,
                numbered(branch, " vertical ", round as u64),
                GraphPass::Blur(BlurPass::Vertical { step_px, dim: small }),
            );
            round = round + 1;
        }
        if kernel.level > 1 {
            let label: String = concat(branch, " upsample");
            previous = self.add_stage(previous, dim, label, GraphPass::Blur(BlurPass::Resample));
        }
        previous
    }

    /// Appends the passes of a list of filters and returns the filtered image.
    pub fn append_filters(
        &mut self,
        input: ImageNode,
        dim: u32,
        filters: &Vec<SceneFilter>,
        kernels: &Vec<BlurKernel>,
    ) -> (r: ImageNode)
        requires
            kernels.len() == filters.len(),
            forall|i: int| 0 <= i < kernels.len() ==> (#[trigger] kernels@[i]).level > 0,
        ensures
            (final(self)@, r@) == filtered(
                (old(self)@, input@),
                dim,
                filters@,
                kernels@,
                filters@.len(),
            ),
    {
        let ghost from = (self@, input@);
        let mut previous: ImageNode = input;
        let mut index: usize = 0;
        while index < filters.len()
            invariant
                index <= filters.len(),
                kernels.len() == filters.len(),
                forall|i: int| 0 <= i < kernels.len() ==> (#[trigger] kernels@[i]).level > 0,
                (self@, previous@) == filtered(from, dim, filters@, kernels@, index as nat),
            decreases filters.len() - index,
        {
            match filters[index] {
                SceneFilter::Blur(radius) => {
                    let branch: String = numbered("", "rg2c element blur ", index as u64);
                    proof {
                        assert("".view() + "rg2c element blur "@ + text::decimal(index as nat)
                            == "rg2c element blur "@ + text::decimal(index as nat)) by {
                            reveal_strlit("");
                        }
                    }
                    previous =
                    self.append_blur(previous, dim, radius, kernels[index], branch.as_str());
                },
                filter => {
                    let label: String = numbered("", "rg2c element matrix ", index as u64);
                    proof {
                        assert("".view() + "rg2c element matrix "@ + text::decimal(index as nat)
                            == "rg2c element matrix "@ + text::decimal(index as nat)) by {
                            reveal_strlit("");
                        }
                    }
                    previous =
                    self.add_stage(previous, dim, label, GraphPass::ColorMatrix(filter));
                },
            }
            index = index + 1;
        }
        previous
    }
}

fn concat(a: &str, b: &str) -> (r: String)
    ensures
        r@ == a@ + b@,
{
    let mut out: String = String::new();
    out.append(a);
    out.append(b);
    out
}

fn numbered(a: &str, b: &str, n: u64) -> (r: String)
    ensures
        r@ == a@ + b@ + text::decimal(n as nat),
{
    let mut out: String = concat(a, b);
    push_decimal(&mut out, n);
    out
}

/// Builds the graph of a split scene.
///
/// `execution` says who rasters the two inputs. `kernel` carries out the blur
/// of the backdrop, and `kernels` the blurs among the layer's own filters, at
/// the same places.
pub fn build_combined_effect_plan(
    effect: &CombinedEffectDecomposition,
    execution: &RasterExecution,
    kernel: BlurKernel,
    kernels: &Vec<BlurKernel>,
) -> (r: CombinedEffectPlan)
    requires
        kernel.level > 0,
        kernels.len() == effect.element_filters.len(),
        forall|i: int| 0 <= i < kernels.len() ==> (#[trigger] kernels@[i]).level > 0,
    ensures
        r@ == effect_plan(
            effect@,
            execution.backend.label(),
            execution.description@,
            kernel,
            kernels@,
        ),
{
    let backend: VelloBackend = execution.backend;
    let dim: u32 = effect.prefix.viewport_width;
    let mut graph: EffectGraph = EffectGraph::new();
    let mut prefix_label: String = concat("rg2c ", backend.name());
    prefix_label.append(" prefix raster");
    let prefix_input: ImageNode = graph.import_image(
        prefix_label,
        dim,
        dim,
        "Rgba8Unorm".to_owned(),
    );
    let mut content_label: String = concat("rg2c ", backend.name());
    content_label.append(" content raster");
    let content_input: ImageNode = graph.import_image(
        content_label,
        dim,
        dim,
        "Rgba8Unorm".to_owned(),
    );
    proof {
        assert(graph@ == effect_inputs(dim, backend.label()));
    }
    let backdrop: ImageNode = graph.append_blur(
        prefix_input,
        dim,
        effect.backdrop_radius,
        kernel,
        "rg2c backdrop blur",
    );
    let content: ImageNode = graph.append_filters(
        content_input,
        dim,
        &effect.element_filters,
        kernels,
    );
    let ghost branches = (graph@, content@);
    let group: ImageNode = graph.transient_image("rg2c joined layer".to_owned(), dim);
    let output: ImageNode = graph.transient_image("rg2c final output".to_owned(), dim);
    let mut join_reads: Vec<ImageNode> = Vec::new();
    join_reads.push(backdrop);
    join_reads.push(content);
    let join: GraphTask = GraphTask {
        label: "rg2c two-input layer join".to_owned(),
        reads: join_reads,
        writes: group,
        load: ImageLoad::Clear,
        pass: GraphPass::Join {
            dest: effect.bounds,
            source: JoinSource::UnderDest(dim),
            opacity: Single::one(),
        },
    };
    let side: Single = Single::from_u32(dim);
    let whole: [Single; 4] = [Single::zero(), Single::zero(), side, side];
    let mut final_reads: Vec<ImageNode> = Vec::new();
    final_reads.push(prefix_input);
    final_reads.push(group);
    let composite: GraphTask = GraphTask {
        label: "rg2c prefix and layer alpha composite".to_owned(),
        reads: final_reads,
        writes: output,
        load: ImageLoad::Clear,
        pass: GraphPass::Join { dest: whole, source: JoinSource::Whole, opacity: effect.alpha },
    };
    proof {
        assert(branches == content_branch(effect@, backend.label(), kernel, kernels@));
        assert(join@.reads == seq![backdrop@, content@]);
        assert(composite@.reads == seq![0nat, group@]);
        assert(whole@ == seq![Single::zero(), Single::zero(), side, side]);
    }
    graph.add_task(join);
    graph.add_task(composite);
    let graph: EffectGraph = graph.with_diagnostic_header(execution.description.clone());
    CombinedEffectPlan { graph, prefix_input, content_input, output }
}

} // verus!
