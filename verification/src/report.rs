//! What is reported about content that does not keep its exact form.

use vstd::prelude::*;

verus! {

/// How content is represented in the exported document.
#[derive(Debug, Copy, Clone, PartialEq, Eq, Structural)]
pub enum Representation {
    /// In the format's own terms.
    Native,
    /// In the format's own terms, with a difference.
    Approximate,
    /// As an image.
    Raster,
    /// Not at all.
    Drop,
}

/// Why a representation was chosen.
#[derive(Debug, Copy, Clone, PartialEq, Eq, Structural)]
pub enum DecisionReason {
    DanglingLinkTextFallback,
    DanglingReferenceTextFallback,
    DensePlacedCanvasRasterFallback,
    DenseVisualPageRasterFallback,
    EmptyBoxGeometryApproximation,
    InlineBlockFlowApproximation,
    InlinePositionedContentUnavailable,
    LayoutCallbackUnavailable,
    NativePageReference,
    PageFurnitureSampled,
    PageOverlayRasterFallback,
    PositionedContentFlowFallback,
    PositionedContentPlainTextFallback,
    SectionGeometryFallback,
    /// The heading numbers cannot be left to multilevel numbering.
    TypstOwnedHeadingNumber,
    UnsupportedContent,
}

/// What is lost.
#[derive(Debug, Copy, Clone, PartialEq, Eq, Structural)]
pub enum LossSet {
    Nothing,
    VisualOnly,
    PlainTextFallback,
    Raster,
    DynamicBehavior,
    PageFurnitureSampled,
    SectionGeometryOnly,
    Drop,
}

/// One reported choice.
#[derive(Debug, Copy, Clone, PartialEq, Eq, Structural)]
pub struct Decision {
    pub representation: Representation,
    pub reason: DecisionReason,
    pub losses: LossSet,
    pub affected_text_chars: usize,
}

} // verus!
