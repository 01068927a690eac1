//! What holds of every graph that [`crate::effect_graph`] builds.
use crate::combined_effect::DecompositionModel;
use crate::effect_graph;
use crate::effect_graph::BlurKernel;
use crate::effect_graph::GraphModel;
use crate::effect_graph::ImageLoad;
use crate::effect_graph::PassModel;
use crate::effect_graph::PlanModel;
use crate::effect_graph::Reached;
use crate::effect_graph::TaskModel;
use crate::pipeline;
use crate::scene::SceneFilter;
use crate::single::Single;
use vstd::prelude::*;

verus! {

/// Whether a pass reads only images before `bound`.
pub open spec fn reads_below(task: TaskModel, bound: int) -> bool {
    forall|r: int| 0 <= r < task.reads.len() ==> #[trigger] task.reads[r] < bound
}

/// Whether a graph can be carried out pass by pass: its first `inputs` images
/// come from outside, each further image is cleared and filled by one pass of
/// its own, and each pass reads only images filled before.
pub open spec fn ordered(graph: GraphModel, inputs: nat) -> bool {
    &&& graph.images.len() == inputs + graph.tasks.len()
    &&& forall|i: int|
        0 <= i < graph.images.len() ==> ((#[trigger] graph.images[i]).imported <==> i < inputs)
    &&& forall|t: int|
        0 <= t < graph.tasks.len() ==> {
            &&& (#[trigger] graph.tasks[t]).writes == inputs + t
            &&& graph.tasks[t].load == ImageLoad::Clear
            &&& reads_below(graph.tasks[t], inputs + t)
        }
}

/// Whether some pass of a graph reads an image.
pub open spec fn used(graph: GraphModel, node: nat) -> bool {
    exists|t: int|
        0 <= t < graph.tasks.len() && (#[trigger] graph.tasks[t]).reads.contains(node)
}

/// The passes that a blur takes.
pub open spec fn blur_tasks(radius: Single, kernel: BlurKernel) -> nat {
    if radius.le(Single::zero()) {
        0
    } else if kernel.level > 1 {
        2 * kernel.passes as nat + 2
    } else {
        2 * kernel.passes as nat
    }
}

/// The passes that the first `count` filters of a list take.
pub open spec fn filter_tasks(filters: Seq<SceneFilter>, kernels: Seq<BlurKernel>, count: nat) -> nat
    decreases count,
{
    if count == 0 {
        0
    } else {
        let last = (count - 1) as nat;
        filter_tasks(filters, kernels, last) + (match filters[last as int] {
            SceneFilter::Blur(radius) => blur_tasks(radius, kernels[last as int]),
            _ => 1,
        })
    }
}

/// How one stretch of a branch relates to what was there: the graph only grew,
/// it stayed in order, and every image that was added is read on the way to the
/// one that was reached.
spec fn leads(from: Reached, to: Reached, inputs: nat) -> bool {
    &&& ordered(to.0, inputs)
    &&& to.1 < to.0.images.len()
    &&& from.0.tasks.len() <= to.0.tasks.len()
    &&& forall|t: int|
        0 <= t < from.0.tasks.len() ==> #[trigger] to.0.tasks[t] == from.0.tasks[t]
    &&& to.1 == from.1 || to.1 >= from.0.images.len()
    &&& to.1 != from.1 ==> used(to.0, from.1)
    &&& forall|n: nat|
        from.0.images.len() <= n < to.0.images.len() && n != to.1 ==> #[trigger] used(to.0, n)
}

proof fn lemma_used_stays(from: Reached, to: Reached, inputs: nat, node: nat)
    requires
        leads(from, to, inputs),
        used(from.0, node),
    ensures
        used(to.0, node),
{
    let t = choose|t: int|
        0 <= t < from.0.tasks.len() && (#[trigger] from.0.tasks[t]).reads.contains(node);
    assert(to.0.tasks[t] == from.0.tasks[t]);
}

proof fn lemma_stay(from: Reached, inputs: nat)
    requires
        ordered(from.0, inputs),
        from.1 < from.0.images.len(),
    ensures
        leads(from, from, inputs),
{
}

proof fn lemma_stage(from: Reached, inputs: nat, dim: u32, label: Seq<char>, pass: PassModel)
    requires
        ordered(from.0, inputs),
        from.1 < from.0.images.len(),
    ensures
        leads(from, effect_graph::staged(from, dim, label, pass), inputs),
        effect_graph::staged(from, dim, label, pass).0.tasks.len() == from.0.tasks.len() + 1,
{
    let to = effect_graph::staged(from, dim, label, pass);
    let last = from.0.tasks.len() as int;
    assert(to.0.tasks[last].reads[0] == from.1);
    assert(to.0.tasks[last].reads.contains(from.1));
    assert(used(to.0, from.1));
    assert forall|t: int| 0 <= t < last implies #[trigger] to.0.tasks[t] == from.0.tasks[t] by {}
    assert forall|t: int| 0 <= t < to.0.tasks.len() implies {
        &&& (#[trigger] to.0.tasks[t]).writes == inputs + t
        &&& to.0.tasks[t].load == ImageLoad::Clear
        &&& reads_below(to.0.tasks[t], inputs + t)
    } by {
        if t < last {
            assert(to.0.tasks[t] == from.0.tasks[t]);
        }
    }
    assert forall|i: int| 0 <= i < to.0.images.len() implies ((
    #[trigger] to.0.images[i]).imported <==> i < inputs) by {
        if i < from.0.images.len() {
            assert(to.0.images[i] == from.0.images[i]);
        }
    }
}

proof fn lemma_chain(a: Reached, b: Reached, c: Reached, inputs: nat)
    requires
        ordered(a.0, inputs),
        leads(a, b, inputs),
        leads(b, c, inputs),
    ensures
        leads(a, c, inputs),
{
    assert forall|t: int| 0 <= t < a.0.tasks.len() implies #[trigger] c.0.tasks[t]
        == a.0.tasks[t] by {
        assert(b.0.tasks[t] == a.0.tasks[t]);
    }
    if b.1 != a.1 {
        lemma_used_stays(b, c, inputs, a.1);
    }
    assert forall|n: nat| a.0.images.len() <= n < c.0.images.len() && n != c.1 implies #[trigger] used(
        c.0,
        n,
    ) by {
        if n < b.0.images.len() && n != b.1 {
            assert(used(b.0, n));
            lemma_used_stays(b, c, inputs, n);
        }
    }
}

proof fn lemma_rounds(
    from: Reached,
    inputs: nat,
    dim: u32,
    step_px: Single,
    branch: Seq<char>,
    rounds: nat,
)
    requires
        ordered(from.0, inputs),
        from.1 < from.0.images.len(),
    ensures
        leads(from, effect_graph::blur_rounds(from, dim, step_px, branch, rounds), inputs),
        effect_graph::blur_rounds(from, dim, step_px, branch, rounds).0.tasks.len()
            == from.0.tasks.len() + 2 * rounds,
    decreases rounds,
{
    if rounds == 0 {
        lemma_stay(from, inputs);
    } else {
        let number = (rounds - 1) as nat;
        lemma_rounds(from, inputs, dim, step_px, branch, number);
        let before = effect_graph::blur_rounds(from, dim, step_px, branch, number);
        let pass = PassModel::Blur(effect_graph::BlurPass::Horizontal { step_px, dim });
        let label = branch + " horizontal "@ + crate::text::decimal(number);
        lemma_stage(before, inputs, dim, label, pass);
        let across = effect_graph::staged(before, dim, label, pass);
        lemma_chain(from, before, across, inputs);
        let pass = PassModel::Blur(effect_graph::BlurPass::Vertical { step_px, dim });
        let label = branch + " vertical "@ + crate::text::decimal(number);
        lemma_stage(across, inputs, dim, label, pass);
        lemma_chain(from, across, effect_graph::staged(across, dim, label, pass), inputs);
    }
}

proof fn lemma_blur(
    from: Reached,
    inputs: nat,
    dim: u32,
    radius: Single,
    kernel: BlurKernel,
    branch: Seq<char>,
)
    requires
        ordered(from.0, inputs),
        from.1 < from.0.images.len(),
    ensures
        leads(from, effect_graph::blurred(from, dim, radius, kernel, branch), inputs),
        effect_graph::blurred(from, dim, radius, kernel, branch).0.tasks.len()
            == from.0.tasks.len() + blur_tasks(radius, kernel),
{
    lemma_stay(from, inputs);
    if !radius.le(Single::zero()) {
        let small = effect_graph::reduced(dim, kernel.level);
        let pass = PassModel::Blur(effect_graph::BlurPass::Resample);
        let rounds = kernel.passes as nat;
        if kernel.level > 1 {
            let label = branch + " downsample"@;
            lemma_stage(from, inputs, small, label, pass);
            let down = effect_graph::staged(from, small, label, pass);
            lemma_rounds(down, inputs, small, kernel.step_px, branch, rounds);
            let done = effect_graph::blur_rounds(down, small, kernel.step_px, branch, rounds);
            lemma_chain(from, down, done, inputs);
            let label = branch + " upsample"@;
            lemma_stage(done, inputs, dim, label, pass);
            lemma_chain(from, done, effect_graph::staged(done, dim, label, pass), inputs);
        } else {
            lemma_rounds(from, inputs, small, kernel.step_px, branch, rounds);
        }
    }
}

proof fn lemma_filters(
    from: Reached,
    inputs: nat,
    dim: u32,
    filters: Seq<SceneFilter>,
    kernels: Seq<BlurKernel>,
    count: nat,
)
    requires
        ordered(from.0, inputs),
        from.1 < from.0.images.len(),
    ensures
        leads(from, effect_graph::filtered(from, dim, filters, kernels, count), inputs),
        effect_graph::filtered(from, dim, filters, kernels, count).0.tasks.len()
            == from.0.tasks.len() + filter_tasks(filters, kernels, count),
    decreases count,
{
    if count == 0 {
        lemma_stay(from, inputs);
    } else {
        let last = (count - 1) as nat;
        lemma_filters(from, inputs, dim, filters, kernels, last);
        let before = effect_graph::filtered(from, dim, filters, kernels, last);
        let filter = filters[last as int];
        let number = crate::text::decimal(last);
        match filter {
            SceneFilter::Blur(radius) => {
                let kernel = kernels[last as int];
                let branch = "rg2c element blur "@ + number;
                lemma_blur(before, inputs, dim, radius, kernel, branch);
                lemma_chain(
                    from,
                    before,
                    effect_graph::blurred(before, dim, radius, kernel, branch),
                    inputs,
                );
            },
            _ => {
                let label = "rg2c element matrix "@ + number;
                let pass = PassModel::ColorMatrix(filter);
                lemma_stage(before, inputs, dim, label, pass);
                lemma_chain(from, before, effect_graph::staged(before, dim, label, pass), inputs);
            },
        }
    }
}

/// Whether `to` continues `from` by a chain of passes: each fills a new image,
/// the first from the image that was reached and each further one from the image
/// that the pass before filled. What was there stays as it was.
pub open spec fn chains(from: Reached, to: Reached) -> bool {
    let added = to.0.tasks.len() - from.0.tasks.len();
    &&& added >= 0
    &&& to.0.images.len() == from.0.images.len() + added
    &&& to.0.header == from.0.header
    &&& forall|i: int|
        0 <= i < from.0.images.len() ==> #[trigger] to.0.images[i] == from.0.images[i]
    &&& forall|t: int|
        0 <= t < from.0.tasks.len() ==> #[trigger] to.0.tasks[t] == from.0.tasks[t]
    &&& forall|k: int|
        0 <= k < added ==> {
            let task = #[trigger] to.0.tasks[from.0.tasks.len() + k];
            &&& task.reads == seq![link(from, k)]
            &&& task.writes == link(from, k + 1)
            &&& task.load == ImageLoad::Clear
        }
    &&& to.1 == link(from, added)
}

/// The image that is reached after `k` passes of a chain.
pub open spec fn link(from: Reached, k: int) -> nat {
    if k <= 0 {
        from.1
    } else {
        (from.0.images.len() + k - 1) as nat
    }
}

pub proof fn lemma_stage_chains(from: Reached, dim: u32, label: Seq<char>, pass: PassModel)
    ensures
        chains(from, effect_graph::staged(from, dim, label, pass)),
        effect_graph::staged(from, dim, label, pass).0.tasks.len() == from.0.tasks.len() + 1,
{
    let to = effect_graph::staged(from, dim, label, pass);
    assert(to.0.tasks[from.0.tasks.len() as int].reads == seq![link(from, 0)]);
}

pub proof fn lemma_chains_join(a: Reached, b: Reached, c: Reached)
    requires
        chains(a, b),
        chains(b, c),
    ensures
        chains(a, c),
{
    let (n, m) = (a.0.tasks.len(), b.0.tasks.len());
    assert forall|i: int| 0 <= i < a.0.images.len() implies #[trigger] c.0.images[i]
        == a.0.images[i] by {
        assert(b.0.images[i] == a.0.images[i]);
    }
    assert forall|t: int| 0 <= t < n implies #[trigger] c.0.tasks[t] == a.0.tasks[t] by {
        assert(b.0.tasks[t] == a.0.tasks[t]);
    }
    assert forall|k: int| 0 <= k < c.0.tasks.len() - n implies {
        let task = #[trigger] c.0.tasks[n + k];
        &&& task.reads == seq![link(a, k)]
        &&& task.writes == link(a, k + 1)
        &&& task.load == ImageLoad::Clear
    } by {
        if n + k < m {
            assert(c.0.tasks[n + k] == b.0.tasks[n + k]);
        } else {
            let j = n + k - m;
            assert(c.0.tasks[m + j].reads == seq![link(b, j)]);
            assert(link(b, j) == link(a, k));
            assert(link(b, j + 1) == link(a, k + 1));
        }
    }
}

pub proof fn lemma_rounds_chain(
    from: Reached,
    dim: u32,
    step_px: Single,
    branch: Seq<char>,
    rounds: nat,
)
    ensures
        chains(from, effect_graph::blur_rounds(from, dim, step_px, branch, rounds)),
        effect_graph::blur_rounds(from, dim, step_px, branch, rounds).0.tasks.len()
            == from.0.tasks.len() + 2 * rounds,
    decreases rounds,
{
    if rounds > 0 {
        let number = (rounds - 1) as nat;
        lemma_rounds_chain(from, dim, step_px, branch, number);
        let before = effect_graph::blur_rounds(from, dim, step_px, branch, number);
        let pass = PassModel::Blur(effect_graph::BlurPass::Horizontal { step_px, dim });
        let label = branch + " horizontal "@ + crate::text::decimal(number);
        lemma_stage_chains(before, dim, label, pass);
        let across = effect_graph::staged(before, dim, label, pass);
        lemma_chains_join(from, before, across);
        let pass = PassModel::Blur(effect_graph::BlurPass::Vertical { step_px, dim });
        let label = branch + " vertical "@ + crate::text::decimal(number);
        lemma_stage_chains(across, dim, label, pass);
        lemma_chains_join(from, across, effect_graph::staged(across, dim, label, pass));
    }
}

/// A blur is a chain of passes from the image that it blurs to the one that it
/// gives: two for each round, and two more where it works at a reduced size. A
/// radius of zero or less takes none.
pub proof fn law_blur_is_a_chain(
    from: Reached,
    dim: u32,
    radius: Single,
    kernel: BlurKernel,
    branch: Seq<char>,
)
    ensures
        chains(from, effect_graph::blurred(from, dim, radius, kernel, branch)),
        effect_graph::blurred(from, dim, radius, kernel, branch).0.tasks.len()
            == from.0.tasks.len() + blur_tasks(radius, kernel),
{
    if !radius.le(Single::zero()) {
        let small = effect_graph::reduced(dim, kernel.level);
        let pass = PassModel::Blur(effect_graph::BlurPass::Resample);
        let rounds = kernel.passes as nat;
        if kernel.level > 1 {
            let label = branch + " downsample"@;
            lemma_stage_chains(from, small, label, pass);
            let down = effect_graph::staged(from, small, label, pass);
            lemma_rounds_chain(down, small, kernel.step_px, branch, rounds);
            let done = effect_graph::blur_rounds(down, small, kernel.step_px, branch, rounds);
            lemma_chains_join(from, down, done);
            let label = branch + " upsample"@;
            lemma_stage_chains(done, dim, label, pass);
            lemma_chains_join(from, done, effect_graph::staged(done, dim, label, pass));
        } else {
            lemma_rounds_chain(from, small, kernel.step_px, branch, rounds);
        }
    }
}

/// A list of filters is a chain of passes: one for each colour filter, and those
/// of its blurs.
pub proof fn law_filters_are_a_chain(
    from: Reached,
    dim: u32,
    filters: Seq<SceneFilter>,
    kernels: Seq<BlurKernel>,
    count: nat,
)
    ensures
        chains(from, effect_graph::filtered(from, dim, filters, kernels, count)),
        effect_graph::filtered(from, dim, filters, kernels, count).0.tasks.len()
            == from.0.tasks.len() + filter_tasks(filters, kernels, count),
    decreases count,
{
    if count > 0 {
        let last = (count - 1) as nat;
        law_filters_are_a_chain(from, dim, filters, kernels, last);
        let before = effect_graph::filtered(from, dim, filters, kernels, last);
        let number = crate::text::decimal(last);
        match filters[last as int] {
            SceneFilter::Blur(radius) => {
                let branch = "rg2c element blur "@ + number;
                law_blur_is_a_chain(before, dim, radius, kernels[last as int], branch);
            },
            filter => {
                let label = "rg2c element matrix "@ + number;
                lemma_stage_chains(before, dim, label, PassModel::ColorMatrix(filter));
            },
        }
        lemma_chains_join(
            from,
            before,
            effect_graph::filtered(from, dim, filters, kernels, count),
        );
    }
}

proof fn lemma_branches(
    effect: DecompositionModel,
    backend: Seq<char>,
    kernel: BlurKernel,
    kernels: Seq<BlurKernel>,
)
    ensures
        ({
            let dim = effect.prefix.viewport_width;
            let start = effect_graph::effect_inputs(dim, backend);
            let backdrop = effect_graph::backdrop_branch(effect, backend, kernel);
            let content = effect_graph::content_branch(effect, backend, kernel, kernels);
            &&& start.images.len() == 2
            &&& start.tasks.len() == 0
            &&& leads((start, 0), backdrop, 2)
            &&& leads((backdrop.0, 1), content, 2)
            &&& content.0.tasks.len() == blur_tasks(effect.backdrop_radius, kernel) + filter_tasks(
                effect.element_filters,
                kernels,
                effect.element_filters.len(),
            )
        }),
{
    let dim = effect.prefix.viewport_width;
    let start = effect_graph::effect_inputs(dim, backend);
    assert(ordered(start, 2));
    lemma_blur(
        (start, 0),
        2,
        dim,
        effect.backdrop_radius,
        kernel,
        "rg2c backdrop blur"@,
    );
    let backdrop = effect_graph::backdrop_branch(effect, backend, kernel);
    assert(backdrop.0.images.len() >= 2);
    lemma_filters(
        (backdrop.0, 1),
        2,
        dim,
        effect.element_filters,
        kernels,
        effect.element_filters.len(),
    );
}

/// The graph of a split scene can be carried out pass by pass from its two
/// inputs, and takes as many passes as its blurs and filters ask for, and two.
pub proof fn law_plan_is_ordered(
    effect: DecompositionModel,
    backend: Seq<char>,
    header: Seq<char>,
    kernel: BlurKernel,
    kernels: Seq<BlurKernel>,
)
    ensures
        ({
            let plan = effect_graph::effect_plan(effect, backend, header, kernel, kernels);
            &&& ordered(plan.graph, 2)
            &&& plan.graph.tasks.len() == blur_tasks(effect.backdrop_radius, kernel)
                + filter_tasks(effect.element_filters, kernels, effect.element_filters.len()) + 2
            &&& plan.output + 1 == plan.graph.images.len()
        }),
{
    lemma_branches(effect, backend, kernel, kernels);
    let plan = effect_graph::effect_plan(effect, backend, header, kernel, kernels);
    let content = effect_graph::content_branch(effect, backend, kernel, kernels);
    let backdrop = effect_graph::backdrop_branch(effect, backend, kernel);
    let n = content.0.tasks.len() as int;
    assert forall|t: int| 0 <= t < plan.graph.tasks.len() implies {
        &&& (#[trigger] plan.graph.tasks[t]).writes == 2 + t
        &&& plan.graph.tasks[t].load == ImageLoad::Clear
        &&& reads_below(plan.graph.tasks[t], 2 + t)
    } by {
        if t < n {
            assert(plan.graph.tasks[t] == content.0.tasks[t]);
        } else {
            assert(backdrop.1 < backdrop.0.images.len() <= content.0.images.len());
        }
    }
    assert forall|i: int| 0 <= i < plan.graph.images.len() implies ((
    #[trigger] plan.graph.images[i]).imported <==> i < 2) by {
        if i < content.0.images.len() {
            assert(plan.graph.images[i] == content.0.images[i]);
        }
    }
}

/// Every image of the graph of a split scene is a square of the effects' format,
/// and its two inputs and its output are as large as the scene.
pub proof fn law_plan_images(
    effect: DecompositionModel,
    backend: Seq<char>,
    header: Seq<char>,
    kernel: BlurKernel,
    kernels: Seq<BlurKernel>,
    i: int,
)
    requires
        0 <= i < effect_graph::effect_plan(
            effect,
            backend,
            header,
            kernel,
            kernels,
        ).graph.images.len(),
    ensures
        ({
            let plan = effect_graph::effect_plan(effect, backend, header, kernel, kernels);
            let image = plan.graph.images[i];
            &&& image.format == pipeline::effect_format()
            &&& image.width == image.height
            &&& i == plan.prefix_input || i == plan.content_input || i == plan.output
                ==> image.width == effect.prefix.viewport_width
        }),
{
    let dim = effect.prefix.viewport_width;
    let start = effect_graph::effect_inputs(dim, backend);
    let backdrop = effect_graph::backdrop_branch(effect, backend, kernel);
    let content = effect_graph::content_branch(effect, backend, kernel, kernels);
    lemma_branches(effect, backend, kernel, kernels);
    assert(plain(start, dim));
    lemma_blur_plain((start, 0), dim, effect.backdrop_radius, kernel, "rg2c backdrop blur"@);
    lemma_filters_plain(
        (backdrop.0, 1),
        dim,
        effect.element_filters,
        kernels,
        effect.element_filters.len(),
    );
    let plan = effect_graph::effect_plan(effect, backend, header, kernel, kernels);
    if i < content.0.images.len() {
        assert(plan.graph.images[i] == content.0.images[i]);
    }
}

/// Whether all images of a graph are squares of the effects' format, and the
/// first two have sides of `dim` pixels.
spec fn plain(graph: GraphModel, dim: u32) -> bool {
    &&& graph.images.len() >= 2
    &&& forall|i: int|
        0 <= i < graph.images.len() ==> {
            &&& (#[trigger] graph.images[i]).format == pipeline::effect_format()
            &&& graph.images[i].width == graph.images[i].height
            &&& i < 2 ==> graph.images[i].width == dim
        }
}

proof fn lemma_stage_plain(from: Reached, dim: u32, side: u32, label: Seq<char>, pass: PassModel)
    requires
        plain(from.0, dim),
    ensures
        plain(effect_graph::staged(from, side, label, pass).0, dim),
{
    let to = effect_graph::staged(from, side, label, pass);
    assert forall|i: int| 0 <= i < to.0.images.len() implies {
        &&& (#[trigger] to.0.images[i]).format == pipeline::effect_format()
        &&& to.0.images[i].width == to.0.images[i].height
        &&& i < 2 ==> to.0.images[i].width == dim
    } by {
        if i < from.0.images.len() {
            assert(to.0.images[i] == from.0.images[i]);
        }
    }
}

proof fn lemma_rounds_plain(
    from: Reached,
    dim: u32,
    side: u32,
    step_px: Single,
    branch: Seq<char>,
    rounds: nat,
)
    requires
        plain(from.0, dim),
    ensures
        plain(effect_graph::blur_rounds(from, side, step_px, branch, rounds).0, dim),
    decreases rounds,
{
    if rounds > 0 {
        let number = (rounds - 1) as nat;
        lemma_rounds_plain(from, dim, side, step_px, branch, number);
        let before = effect_graph::blur_rounds(from, side, step_px, branch, number);
        let pass = PassModel::Blur(effect_graph::BlurPass::Horizontal { step_px, dim: side });
        let label = branch + " horizontal "@ + crate::text::decimal(number);
        lemma_stage_plain(before, dim, side, label, pass);
        let across = effect_graph::staged(before, side, label, pass);
        let pass = PassModel::Blur(effect_graph::BlurPass::Vertical { step_px, dim: side });
        let label = branch + " vertical "@ + crate::text::decimal(number);
        lemma_stage_plain(across, dim, side, label, pass);
    }
}

proof fn lemma_blur_plain(
    from: Reached,
    dim: u32,
    radius: Single,
    kernel: BlurKernel,
    branch: Seq<char>,
)
    requires
        plain(from.0, dim),
    ensures
        plain(effect_graph::blurred(from, dim, radius, kernel, branch).0, dim),
{
    if !radius.le(Single::zero()) {
        let small = effect_graph::reduced(dim, kernel.level);
        let pass = PassModel::Blur(effect_graph::BlurPass::Resample);
        let rounds = kernel.passes as nat;
        let down = if kernel.level > 1 {
            lemma_stage_plain(from, dim, small, branch + " downsample"@, pass);
            effect_graph::staged(from, small, branch + " downsample"@, pass)
        } else {
            from
        };
        lemma_rounds_plain(down, dim, small, kernel.step_px, branch, rounds);
        let done = effect_graph::blur_rounds(down, small, kernel.step_px, branch, rounds);
        lemma_stage_plain(done, dim, dim, branch + " upsample"@, pass);
    }
}

proof fn lemma_filters_plain(
    from: Reached,
    dim: u32,
    filters: Seq<SceneFilter>,
    kernels: Seq<BlurKernel>,
    count: nat,
)
    requires
        plain(from.0, dim),
    ensures
        plain(effect_graph::filtered(from, dim, filters, kernels, count).0, dim),
    decreases count,
{
    if count > 0 {
        let last = (count - 1) as nat;
        lemma_filters_plain(from, dim, filters, kernels, last);
        let before = effect_graph::filtered(from, dim, filters, kernels, last);
        let number = crate::text::decimal(last);
        match filters[last as int] {
            SceneFilter::Blur(radius) => lemma_blur_plain(
                before,
                dim,
                radius,
                kernels[last as int],
                "rg2c element blur "@ + number,
            ),
            filter => lemma_stage_plain(
                before,
                dim,
                dim,
                "rg2c element matrix "@ + number,
                PassModel::ColorMatrix(filter),
            ),
        }
    }
}

/// Nothing is computed in vain: every image of the graph of a split scene is
/// read by some pass, but for the output.
pub proof fn law_plan_wastes_nothing(
    effect: DecompositionModel,
    backend: Seq<char>,
    header: Seq<char>,
    kernel: BlurKernel,
    kernels: Seq<BlurKernel>,
    node: nat,
)
    requires
        ({
            let plan = effect_graph::effect_plan(effect, backend, header, kernel, kernels);
            node < plan.graph.images.len() && node != plan.output
        }),
    ensures
        used(effect_graph::effect_plan(effect, backend, header, kernel, kernels).graph, node),
{
    lemma_branches(effect, backend, kernel, kernels);
    law_plan_is_ordered(effect, backend, header, kernel, kernels);
    let plan = effect_graph::effect_plan(effect, backend, header, kernel, kernels);
    let start = effect_graph::effect_inputs(effect.prefix.viewport_width, backend);
    let backdrop = effect_graph::backdrop_branch(effect, backend, kernel);
    let content = effect_graph::content_branch(effect, backend, kernel, kernels);
    let n = content.0.tasks.len() as int;
    let join = plan.graph.tasks[n];
    let composite = plan.graph.tasks[n + 1];
    assert(join.reads[0] == backdrop.1 && join.reads[1] == content.1);
    assert(composite.reads[0] == 0 && composite.reads[1] == content.0.images.len());
    if node == backdrop.1 || node == content.1 {
        assert(join.reads.contains(node));
    } else if node == 0 || node == content.0.images.len() {
        assert(composite.reads.contains(node));
    } else {
        if node < backdrop.0.images.len() && node != 1 {
            assert(used(backdrop.0, node));
            lemma_used_stays((backdrop.0, 1), content, 2, node);
        }
        assert(used(content.0, node));
        let t = choose|t: int|
            0 <= t < content.0.tasks.len() && (#[trigger] content.0.tasks[t]).reads.contains(node);
        assert(plan.graph.tasks[t] == content.0.tasks[t]);
    }
}

/// The graph of a split scene ends in a fork and a join: the prefix feeds both
/// the backdrop branch and the last pass, and the last pass lays over it what
/// the pass before joined from the two branches.
pub proof fn law_plan_forks_and_joins(
    effect: DecompositionModel,
    backend: Seq<char>,
    header: Seq<char>,
    kernel: BlurKernel,
    kernels: Seq<BlurKernel>,
)
    ensures
        ({
            let plan: PlanModel = effect_graph::effect_plan(effect, backend, header, kernel, kernels);
            let join = plan.graph.tasks[plan.graph.tasks.len() - 2];
            let last = plan.graph.tasks.last();
            &&& last.writes == plan.output
            &&& last.reads == seq![plan.prefix_input, join.writes]
            &&& join.reads == seq![
                effect_graph::backdrop_branch(effect, backend, kernel).1,
                effect_graph::content_branch(effect, backend, kernel, kernels).1,
            ]
        }),
{
}

/// A backdrop that is not blurred is the prefix itself.
pub proof fn law_no_blur_is_no_pass(
    from: Reached,
    dim: u32,
    radius: Single,
    kernel: BlurKernel,
    branch: Seq<char>,
)
    requires
        radius.le(Single::zero()),
    ensures
        effect_graph::blurred(from, dim, radius, kernel, branch) == from,
{
}

} // verus!
