//! Which pass stands where in the graph of an effect, and what it does.
use crate::combined_effect::DecompositionModel;
use crate::effect_graph;
use crate::effect_graph::BlurKernel;
use crate::effect_graph::BlurPass;
use crate::effect_graph::GraphModel;
use crate::effect_graph::ImageLoad;
use crate::effect_graph::ImageModel;
use crate::effect_graph::JoinSource;
use crate::effect_graph::PassModel;
use crate::effect_graph::Reached;
use crate::effect_graph::TaskModel;
use crate::effect_graph_laws;
use crate::scene::SceneFilter;
use crate::single;
use crate::single::Single;
use crate::text;
use vstd::prelude::*;

verus! {

/// One pass of an effect: what it does, under which label, and the side of the
/// square image that it fills.
pub struct Stage {
    pub pass: PassModel,
    pub label: Seq<char>,
    pub side: u32,
}

/// Whether pass `t` of a graph clears and fills image `image`, and nothing else,
/// from image `input`, and nothing else, as `stage` says.
pub open spec fn carries(graph: GraphModel, t: int, input: nat, image: int, stage: Stage) -> bool {
    &&& 0 <= t < graph.tasks.len()
    &&& 0 <= image < graph.images.len()
    &&& graph.tasks[t] == (TaskModel {
        label: stage.label,
        reads: seq![input],
        writes: image as nat,
        load: ImageLoad::Clear,
        pass: stage.pass,
    })
    &&& graph.images[image] == (ImageModel {
        label: stage.label,
        width: stage.side,
        height: stage.side,
        format: "Rgba8Unorm"@,
        imported: false,
    })
}

/// How many passes a blur takes that is carried out at all.
pub open spec fn passes_of(kernel: BlurKernel) -> int {
    if kernel.level > 1 {
        2 * kernel.passes + 2
    } else {
        2 * kernel.passes
    }
}

/// Pass `k` of a blur of a square image with sides of `dim` pixels. A blur at a
/// reduced size begins by making the image smaller and ends by making it larger;
/// in between, rows and columns take turns, with the kernel's step.
pub open spec fn blur_stage(dim: u32, kernel: BlurKernel, branch: Seq<char>, k: int) -> Stage {
    let quotient = dim as int / kernel.level as int;
    let small = (if quotient == 0 {
        1
    } else {
        quotient
    }) as u32;
    let step_px = kernel.step_px;
    let j = if kernel.level > 1 {
        k - 1
    } else {
        k
    };
    if kernel.level > 1 && k == 0 {
        Stage {
            pass: PassModel::Blur(BlurPass::Resample),
            label: branch + " downsample"@,
            side: small,
        }
    } else if kernel.level > 1 && k == passes_of(kernel) - 1 {
        Stage {
            pass: PassModel::Blur(BlurPass::Resample),
            label: branch + " upsample"@,
            side: dim,
        }
    } else if j % 2 == 0 {
        Stage {
            pass: PassModel::Blur(BlurPass::Horizontal { step_px, dim: small }),
            label: branch + " horizontal "@ + text::decimal((j / 2) as nat),
            side: small,
        }
    } else {
        Stage {
            pass: PassModel::Blur(BlurPass::Vertical { step_px, dim: small }),
            label: branch + " vertical "@ + text::decimal((j / 2) as nat),
            side: small,
        }
    }
}

/// Whether a blur of this radius is carried out: it is above zero, or no number.
pub open spec fn blurs(radius: Single) -> bool {
    radius.nan() || radius.value() > 0
}

proof fn lemma_blurs(radius: Single)
    ensures
        radius.le(Single::zero()) <==> !blurs(radius),
{
    assert(Single::zero().value() == 0);
}

proof fn lemma_staged(from: Reached, dim: u32, label: Seq<char>, pass: PassModel)
    ensures
        carries(
            effect_graph::staged(from, dim, label, pass).0,
            from.0.tasks.len() as int,
            from.1,
            from.0.images.len() as int,
            (Stage { pass, label, side: dim }),
        ),
        effect_graph_laws::chains(from, effect_graph::staged(from, dim, label, pass)),
        effect_graph::staged(from, dim, label, pass).0.tasks.len() == from.0.tasks.len() + 1,
        effect_graph::staged(from, dim, label, pass).1 == from.0.images.len(),
{
    effect_graph_laws::lemma_stage_chains(from, dim, label, pass);
}

proof fn lemma_stays(a: Reached, b: Reached, t: int, input: nat, image: int, stage: Stage)
    requires
        effect_graph_laws::chains(a, b),
        carries(a.0, t, input, image, stage),
    ensures
        carries(b.0, t, input, image, stage),
{
    assert(b.0.tasks[t] == a.0.tasks[t]);
    assert(b.0.images[image] == a.0.images[image]);
}

proof fn lemma_round(
    from: Reached,
    side: u32,
    step_px: Single,
    branch: Seq<char>,
    rounds: nat,
    j: int,
)
    requires
        0 <= j < 2 * rounds,
    ensures
        carries(
            effect_graph::blur_rounds(from, side, step_px, branch, rounds).0,
            from.0.tasks.len() + j,
            effect_graph_laws::link(from, j),
            from.0.images.len() + j,
            (if j % 2 == 0 {
                Stage {
                    pass: PassModel::Blur(BlurPass::Horizontal { step_px, dim: side }),
                    label: branch + " horizontal "@ + text::decimal((j / 2) as nat),
                    side,
                }
            } else {
                Stage {
                    pass: PassModel::Blur(BlurPass::Vertical { step_px, dim: side }),
                    label: branch + " vertical "@ + text::decimal((j / 2) as nat),
                    side,
                }
            }),
        ),
    decreases rounds,
{
    let number = (rounds - 1) as nat;
    let before = effect_graph::blur_rounds(from, side, step_px, branch, number);
    effect_graph_laws::lemma_rounds_chain(from, side, step_px, branch, number);
    let across_pass = PassModel::Blur(BlurPass::Horizontal { step_px, dim: side });
    let across_label = branch + " horizontal "@ + text::decimal(number);
    let across = effect_graph::staged(before, side, across_label, across_pass);
    lemma_staged(before, side, across_label, across_pass);
    let down_pass = PassModel::Blur(BlurPass::Vertical { step_px, dim: side });
    let down_label = branch + " vertical "@ + text::decimal(number);
    let down = effect_graph::staged(across, side, down_label, down_pass);
    lemma_staged(across, side, down_label, down_pass);
    assert(down == effect_graph::blur_rounds(from, side, step_px, branch, rounds));
    let stage = if j % 2 == 0 {
        Stage {
            pass: across_pass,
            label: branch + " horizontal "@ + text::decimal((j / 2) as nat),
            side,
        }
    } else {
        Stage {
            pass: down_pass,
            label: branch + " vertical "@ + text::decimal((j / 2) as nat),
            side,
        }
    };
    let (t, input, image) = (
        from.0.tasks.len() + j,
        effect_graph_laws::link(from, j),
        from.0.images.len() + j,
    );
    if j < 2 * number {
        lemma_round(from, side, step_px, branch, number, j);
        lemma_stays(before, across, t, input, image, stage);
        lemma_stays(across, down, t, input, image, stage);
    } else if j == 2 * number {
        assert(j % 2 == 0 && j / 2 == number);
        lemma_stays(across, down, t, input, image, stage);
    } else {
        assert(j == 2 * number + 1);
        assert(j % 2 == 1 && j / 2 == number);
    }
}

/// Every pass of a blur, in full: a blur is carried out exactly if its radius is
/// above zero or no number; then it takes two passes a round, and two more at a
/// reduced size, and pass `k` is the one that [`blur_stage`] says, from the image
/// that the pass before filled.
pub proof fn law_each_pass_of_a_blur(
    from: Reached,
    dim: u32,
    radius: Single,
    kernel: BlurKernel,
    branch: Seq<char>,
    k: int,
)
    requires
        kernel.level > 0,
    ensures
        ({
            let to = effect_graph::blurred(from, dim, radius, kernel, branch);
            let (n, m) = (from.0.tasks.len() as int, from.0.images.len() as int);
            &&& !blurs(radius) ==> to == from
            &&& blurs(radius) ==> {
                &&& to.0.tasks.len() == n + passes_of(kernel)
                &&& to.0.images.len() == m + passes_of(kernel)
                &&& to.1 == if passes_of(kernel) == 0 {
                    from.1 as int
                } else {
                    m + passes_of(kernel) - 1
                }
                &&& 0 <= k < passes_of(kernel) ==> carries(
                    to.0,
                    n + k,
                    (if k == 0 {
                        from.1 as int
                    } else {
                        m + k - 1
                    }) as nat,
                    m + k,
                    blur_stage(dim, kernel, branch, k),
                )
            }
        }),
{
    lemma_blurs(radius);
    effect_graph_laws::law_blur_is_a_chain(from, dim, radius, kernel, branch);
    if blurs(radius) && 0 <= k < passes_of(kernel) {
        let small = effect_graph::reduced(dim, kernel.level);
        let resample = PassModel::Blur(BlurPass::Resample);
        let rounds = kernel.passes as nat;
        let (n, m) = (from.0.tasks.len() as int, from.0.images.len() as int);
        let stage = blur_stage(dim, kernel, branch, k);
        if kernel.level > 1 {
            let down = effect_graph::staged(from, small, branch + " downsample"@, resample);
            lemma_staged(from, small, branch + " downsample"@, resample);
            let done = effect_graph::blur_rounds(down, small, kernel.step_px, branch, rounds);
            effect_graph_laws::lemma_rounds_chain(down, small, kernel.step_px, branch, rounds);
            let up = effect_graph::staged(done, dim, branch + " upsample"@, resample);
            lemma_staged(done, dim, branch + " upsample"@, resample);
            assert(up == effect_graph::blurred(from, dim, radius, kernel, branch));
            if k == 0 {
                lemma_stays(down, done, n, from.1, m, stage);
                lemma_stays(done, up, n, from.1, m, stage);
            } else if k < passes_of(kernel) - 1 {
                lemma_round(down, small, kernel.step_px, branch, rounds, k - 1);
                let input = effect_graph_laws::link(down, k - 1);
                assert(input == m + k - 1);
                lemma_stays(done, up, n + k, input, m + k, stage);
            } else {
                assert(done.1 == m + k - 1);
            }
        } else {
            lemma_round(from, small, kernel.step_px, branch, rounds, k);
        }
    }
}

/// How many passes one filter takes.
pub open spec fn passes_of_filter(filter: SceneFilter, kernel: BlurKernel) -> int {
    match filter {
        SceneFilter::Blur(radius) => if blurs(radius) {
            passes_of(kernel)
        } else {
            0
        },
        _ => 1,
    }
}

/// How many passes the first `count` filters of a list take.
pub open spec fn passes_before(
    filters: Seq<SceneFilter>,
    kernels: Seq<BlurKernel>,
    count: int,
) -> int
    decreases count,
{
    if count <= 0 {
        0
    } else {
        passes_before(filters, kernels, count - 1) + passes_of_filter(
            filters[count - 1],
            kernels[count - 1],
        )
    }
}

proof fn lemma_passes_before(filters: Seq<SceneFilter>, kernels: Seq<BlurKernel>, count: nat)
    ensures
        passes_before(filters, kernels, count as int) == effect_graph_laws::filter_tasks(
            filters,
            kernels,
            count,
        ),
    decreases count,
{
    if count > 0 {
        let last = (count - 1) as nat;
        lemma_passes_before(filters, kernels, last);
        match filters[last as int] {
            SceneFilter::Blur(radius) => lemma_blurs(radius),
            _ => {},
        }
    }
}

proof fn lemma_filters_grow(
    from: Reached,
    dim: u32,
    filters: Seq<SceneFilter>,
    kernels: Seq<BlurKernel>,
    few: nat,
    many: nat,
)
    requires
        few <= many,
    ensures
        effect_graph_laws::chains(
            effect_graph::filtered(from, dim, filters, kernels, few),
            effect_graph::filtered(from, dim, filters, kernels, many),
        ),
    decreases many,
{
    let start = effect_graph::filtered(from, dim, filters, kernels, few);
    if few < many {
        let last = (many - 1) as nat;
        lemma_filters_grow(from, dim, filters, kernels, few, last);
        let before = effect_graph::filtered(from, dim, filters, kernels, last);
        let number = text::decimal(last);
        match filters[last as int] {
            SceneFilter::Blur(radius) => effect_graph_laws::law_blur_is_a_chain(
                before,
                dim,
                radius,
                kernels[last as int],
                "rg2c element blur "@ + number,
            ),
            filter => effect_graph_laws::lemma_stage_chains(
                before,
                dim,
                "rg2c element matrix "@ + number,
                PassModel::ColorMatrix(filter),
            ),
        }
        effect_graph_laws::lemma_chains_join(
            start,
            before,
            effect_graph::filtered(from, dim, filters, kernels, many),
        );
    }
}

/// Pass `j` of filter `k` of a list: a blur's pass, or the one pass that applies
/// the filter itself.
pub open spec fn filter_stage(
    dim: u32,
    filters: Seq<SceneFilter>,
    kernels: Seq<BlurKernel>,
    k: int,
    j: int,
) -> Stage {
    match filters[k] {
        SceneFilter::Blur(_) => blur_stage(
            dim,
            kernels[k],
            "rg2c element blur "@ + text::decimal(k as nat),
            j,
        ),
        _ => Stage {
            pass: PassModel::ColorMatrix(filters[k]),
            label: "rg2c element matrix "@ + text::decimal(k as nat),
            side: dim,
        },
    }
}

/// Every pass of a list of filters, in full: filter after filter in the list's
/// order, each with its own passes and its own kernel, and each pass from the
/// image that the pass before filled.
pub proof fn law_each_pass_of_the_filters(
    from: Reached,
    dim: u32,
    filters: Seq<SceneFilter>,
    kernels: Seq<BlurKernel>,
    k: int,
    j: int,
)
    requires
        kernels.len() == filters.len(),
        forall|i: int| 0 <= i < kernels.len() ==> (#[trigger] kernels[i]).level > 0,
    ensures
        ({
            let to = effect_graph::filtered(from, dim, filters, kernels, filters.len());
            let (n, m) = (from.0.tasks.len() as int, from.0.images.len() as int);
            let all = passes_before(filters, kernels, filters.len() as int);
            let at = passes_before(filters, kernels, k) + j;
            &&& to.0.tasks.len() == n + all
            &&& to.0.images.len() == m + all
            &&& to.1 == if all == 0 {
                from.1 as int
            } else {
                m + all - 1
            }
            &&& 0 <= k < filters.len() && 0 <= j < passes_of_filter(filters[k], kernels[k])
                ==> carries(
                to.0,
                n + at,
                (if at == 0 {
                    from.1 as int
                } else {
                    m + at - 1
                }) as nat,
                m + at,
                filter_stage(dim, filters, kernels, k, j),
            )
        }),
{
    let count = filters.len();
    let to = effect_graph::filtered(from, dim, filters, kernels, count);
    lemma_passes_before(filters, kernels, count);
    effect_graph_laws::law_filters_are_a_chain(from, dim, filters, kernels, count);
    if 0 <= k < filters.len() && 0 <= j < passes_of_filter(filters[k], kernels[k]) {
        let before = effect_graph::filtered(from, dim, filters, kernels, k as nat);
        let after = effect_graph::filtered(from, dim, filters, kernels, (k + 1) as nat);
        lemma_passes_before(filters, kernels, k as nat);
        effect_graph_laws::law_filters_are_a_chain(from, dim, filters, kernels, k as nat);
        lemma_filters_grow(from, dim, filters, kernels, (k + 1) as nat, count);
        let (n, m) = (from.0.tasks.len() as int, from.0.images.len() as int);
        let at = passes_before(filters, kernels, k) + j;
        let input = (if at == 0 {
            from.1 as int
        } else {
            m + at - 1
        }) as nat;
        let stage = filter_stage(dim, filters, kernels, k, j);
        match filters[k] {
            SceneFilter::Blur(radius) => {
                assert(kernels[k].level > 0);
                law_each_pass_of_a_blur(
                    before,
                    dim,
                    radius,
                    kernels[k],
                    "rg2c element blur "@ + text::decimal(k as nat),
                    j,
                );
            },
            filter => {
                lemma_staged(
                    before,
                    dim,
                    "rg2c element matrix "@ + text::decimal(k as nat),
                    PassModel::ColorMatrix(filter),
                );
            },
        }
        assert(carries(after.0, n + at, input, m + at, stage));
        lemma_stays(after, to, n + at, input, m + at, stage);
    }
}

/// The whole graph of an effect, in full. Its two inputs come first. The passes
/// of the backdrop's blur begin at the prefix, those of the layer's own filters
/// at the content. Then the two branches are joined, the filtered content over
/// the blurred backdrop, inside the layer's bounds; and that is laid over the
/// prefix with the layer's opacity.
pub proof fn law_each_pass_of_a_plan(
    effect: DecompositionModel,
    backend: Seq<char>,
    header: Seq<char>,
    kernel: BlurKernel,
    kernels: Seq<BlurKernel>,
    i: int,
    k: int,
    j: int,
)
    requires
        kernel.level > 0,
        kernels.len() == effect.element_filters.len(),
        forall|i: int| 0 <= i < kernels.len() ==> (#[trigger] kernels[i]).level > 0,
    ensures
        ({
            let plan = effect_graph::effect_plan(effect, backend, header, kernel, kernels);
            let graph = plan.graph;
            let dim = effect.prefix.viewport_width;
            let filters = effect.element_filters;
            let blur = if blurs(effect.backdrop_radius) {
                passes_of(kernel)
            } else {
                0
            };
            let all = passes_before(filters, kernels, filters.len() as int);
            let at = passes_before(filters, kernels, k) + j;
            let side = single::nearest(dim as int);
            let join = blur + all;
            &&& graph.header == header
            &&& plan.prefix_input == 0
            &&& plan.content_input == 1
            &&& plan.output == join + 3
            &&& graph.images.len() == join + 4
            &&& graph.tasks.len() == join + 2
            &&& graph.images[0] == (ImageModel {
                label: "rg2c "@ + backend + " prefix raster"@,
                width: dim,
                height: dim,
                format: "Rgba8Unorm"@,
                imported: true,
            })
            &&& graph.images[1] == (ImageModel {
                label: "rg2c "@ + backend + " content raster"@,
                width: dim,
                height: dim,
                format: "Rgba8Unorm"@,
                imported: true,
            })
            &&& 0 <= i < blur ==> carries(
                graph,
                i,
                (if i == 0 {
                    0
                } else {
                    i + 1
                }) as nat,
                i + 2,
                blur_stage(dim, kernel, "rg2c backdrop blur"@, i),
            )
            &&& 0 <= k < filters.len() && 0 <= j < passes_of_filter(filters[k], kernels[k])
                ==> carries(
                graph,
                blur + at,
                (if at == 0 {
                    1
                } else {
                    blur + at + 1
                }) as nat,
                blur + at + 2,
                filter_stage(dim, filters, kernels, k, j),
            )
            &&& graph.images[join + 2] == (ImageModel {
                label: "rg2c joined layer"@,
                width: dim,
                height: dim,
                format: "Rgba8Unorm"@,
                imported: false,
            })
            &&& graph.images[join + 3] == (ImageModel {
                label: "rg2c final output"@,
                width: dim,
                height: dim,
                format: "Rgba8Unorm"@,
                imported: false,
            })
            &&& graph.tasks[join] == (TaskModel {
                label: "rg2c two-input layer join"@,
                reads: seq![
                    (if blur == 0 {
                        0
                    } else {
                        blur + 1
                    }) as nat,
                    (if all == 0 {
                        1
                    } else {
                        join + 1
                    }) as nat,
                ],
                writes: (join + 2) as nat,
                load: ImageLoad::Clear,
                pass: PassModel::Join {
                    dest: effect.bounds,
                    source: JoinSource::UnderDest(dim),
                    opacity: Single::one(),
                },
            })
            &&& graph.tasks[join + 1] == (TaskModel {
                label: "rg2c prefix and layer alpha composite"@,
                reads: seq![0nat, (join + 2) as nat],
                writes: (join + 3) as nat,
                load: ImageLoad::Clear,
                pass: PassModel::Join {
                    dest: seq![Single::zero(), Single::zero(), side, side],
                    source: JoinSource::Whole,
                    opacity: effect.alpha,
                },
            })
        }),
{
    let plan = effect_graph::effect_plan(effect, backend, header, kernel, kernels);
    let graph = plan.graph;
    let dim = effect.prefix.viewport_width;
    let filters = effect.element_filters;
    let blur = if blurs(effect.backdrop_radius) {
        passes_of(kernel)
    } else {
        0
    };
    let all = passes_before(filters, kernels, filters.len() as int);
    let start = effect_graph::effect_inputs(dim, backend);
    let branch = "rg2c backdrop blur"@;
    let backdrop = effect_graph::backdrop_branch(effect, backend, kernel);
    let content = effect_graph::content_branch(effect, backend, kernel, kernels);
    law_each_pass_of_a_blur((start, 0), dim, effect.backdrop_radius, kernel, branch, i);
    law_each_pass_of_the_filters((backdrop.0, 1), dim, filters, kernels, k, j);
    effect_graph_laws::law_blur_is_a_chain(
        (start, 0),
        dim,
        effect.backdrop_radius,
        kernel,
        branch,
    );
    effect_graph_laws::law_filters_are_a_chain(
        (backdrop.0, 1),
        dim,
        filters,
        kernels,
        filters.len(),
    );
    assert(backdrop.0.tasks.len() == blur && backdrop.0.images.len() == 2 + blur);
    assert(content.0.tasks.len() == blur + all && content.0.images.len() == 2 + blur + all);
    assert forall|p: int| 0 <= p < content.0.images.len() implies #[trigger] graph.images[p]
        == content.0.images[p] by {}
    assert forall|p: int| 0 <= p < content.0.tasks.len() implies #[trigger] graph.tasks[p]
        == content.0.tasks[p] by {}
    assert(backdrop.0.images[0] == start.images[0] && backdrop.0.images[1] == start.images[1]);
    assert(content.0.images[0] == backdrop.0.images[0]);
    assert(content.0.images[1] == backdrop.0.images[1]);
    if 0 <= i < blur {
        lemma_stays(
            (backdrop.0, 1),
            content,
            i,
            (if i == 0 {
                0
            } else {
                i + 1
            }) as nat,
            i + 2,
            blur_stage(dim, kernel, branch, i),
        );
        assert(graph.tasks[i] == content.0.tasks[i]);
        assert(graph.images[i + 2] == content.0.images[i + 2]);
    }
    if 0 <= k < filters.len() && 0 <= j < passes_of_filter(filters[k], kernels[k]) {
        let at = passes_before(filters, kernels, k) + j;
        assert(graph.tasks[blur + at] == content.0.tasks[blur + at]);
        assert(graph.images[blur + at + 2] == content.0.images[blur + at + 2]);
    }
}

} // verus!
