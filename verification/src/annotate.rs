//! Annotation configuration.
//!
//! Drawing itself — boxes, masks, poses, labels painted onto a picture — is
//! an external collaborator reached through [`crate::collab::Annotator`]; the
//! library only carries the configuration that the collaborator consumes and
//! decides per frame whether annotation is requested and what becomes of a
//! frame whose annotation failed.

use vstd::prelude::*;

verus! {

/// What the annotation collaborator is asked to draw.
#[derive(Debug, Clone, Copy)]
pub struct AnnotateConfigs {
    /// Whether to draw on a blank image instead of the source image.
    pub on_blank: bool,
    /// Whether to show boxes.
    pub show_box: bool,
    /// Whether to show class labels.
    pub show_label: bool,
    /// Whether to show confidence scores.
    pub show_conf: bool,
    /// How many classification results to show.
    pub top_k: Option<usize>,
}

impl Default for AnnotateConfigs {
    /// Everything but `on_blank` is drawn, and the five best classification
    /// results are shown.
    fn default() -> (r: Self)
        ensures
            !r.on_blank,
            r.show_box,
            r.show_label,
            r.show_conf,
            r.top_k == Option::Some(5usize),
    {
        AnnotateConfigs {
            on_blank: false,
            show_box: true,
            show_label: true,
            show_conf: true,
            top_k: Option::Some(5),
        }
    }
}

/// Whether `s` consists of ASCII characters alone; label drawing uses this
/// to pick a font.
pub fn is_ascii(s: &str) -> (r: bool)
    ensures
        r == vstd::string::is_ascii(s),
{
    s.is_ascii()
}

} // verus!
