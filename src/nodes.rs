use vstd::prelude::*;

verus! {

/// The stages of the 3D render sequence that the outline pass is ordered against.
#[derive(Clone, Copy, Debug, PartialEq, Eq, Structural)]
pub enum RenderStage {
    /// Tone mapping of the main pass.
    Tonemapping,
    /// The outline pass.
    Outline,
    /// The end of the main pass's post-processing.
    EndMainPassPostProcessing,
}

/// The order the outline pass takes in the render sequence: strictly after tone mapping and
/// strictly before the end of post-processing.
pub fn render_graph_edges() -> (r: Vec<RenderStage>)
    ensures
        r@ == seq![
            RenderStage::Tonemapping,
            RenderStage::Outline,
            RenderStage::EndMainPassPostProcessing,
        ],
{
    let r = vec![
        RenderStage::Tonemapping,
        RenderStage::Outline,
        RenderStage::EndMainPassPostProcessing,
    ];
    proof {
        assert(r@ =~= seq![
            RenderStage::Tonemapping,
            RenderStage::Outline,
            RenderStage::EndMainPassPostProcessing,
        ]);
    }
    r
}

} // verus!
