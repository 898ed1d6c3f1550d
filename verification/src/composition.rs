//! Which content the canvas may combine: widget overlays on animated
//! backgrounds need a streaming device.
use vstd::prelude::*;

use crate::types::DisplayCapability;

verus! {

/// Whether the background is a still image or an animation.
#[derive(Debug, Clone, Copy, PartialEq, Eq, Structural)]
pub enum SourceKind {
    Static,
    Animated,
}

impl SourceKind {
    /// A source with more than one frame is animated.
    pub fn from_frame_count(frame_count: usize) -> (k: Self)
        ensures
            k == (if frame_count > 1 {
                SourceKind::Animated
            } else {
                SourceKind::Static
            }),
    {
        if frame_count > 1 {
            SourceKind::Animated
        } else {
            SourceKind::Static
        }
    }
}

/// Widgets are allowed unless a file-transfer device would have to show them
/// over an animated background (it cannot update fast enough).
pub open spec fn spec_widgets_allowed(capability: Option<DisplayCapability>, source: SourceKind) -> bool {
    !(capability == Some(DisplayCapability::FileTransfer) && source == SourceKind::Animated)
}

/// Whether widgets may be placed for this device capability and source.
pub fn widgets_allowed(capability: Option<DisplayCapability>, source: SourceKind) -> (b: bool)
    ensures
        b == spec_widgets_allowed(capability, source),
{
    !(matches!(capability, Some(DisplayCapability::FileTransfer)) && source == SourceKind::Animated)
}

/// What the canvas allows for the current device and background.
#[derive(Debug, Clone, Copy)]
pub struct CanvasPolicy {
    widgets_allowed: bool,
}

/// The message shown when widgets are blocked.
pub open spec fn widget_block_text() -> &'static str {
    "Widgets with animated backgrounds are not supported on this device."
}

impl CanvasPolicy {
    pub closed spec fn spec_widgets_allowed(self) -> bool {
        self.widgets_allowed
    }

    pub fn for_content(capability: Option<DisplayCapability>, source: SourceKind) -> (p: Self)
        ensures
            p.spec_widgets_allowed() == spec_widgets_allowed(capability, source),
    {
        CanvasPolicy { widgets_allowed: widgets_allowed(capability, source) }
    }

    pub fn widgets_allowed(self) -> (b: bool)
        ensures
            b == self.spec_widgets_allowed(),
    {
        self.widgets_allowed
    }

    /// The message to show when widgets are blocked, `None` when they are not.
    pub fn widget_block_message(self) -> (m: Option<&'static str>)
        ensures
            m == (if self.spec_widgets_allowed() {
                None
            } else {
                Some(widget_block_text())
            }),
    {
        if self.widgets_allowed {
            None
        } else {
            Some("Widgets with animated backgrounds are not supported on this device.")
        }
    }
}

} // verus!
