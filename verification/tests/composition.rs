use coolcooler::composition::{widgets_allowed, CanvasPolicy, SourceKind};
use coolcooler::types::DisplayCapability;

#[test]
fn widgets_blocked_on_file_transfer_with_animated_background() {
    assert!(!CanvasPolicy::for_content(
        Some(DisplayCapability::FileTransfer),
        SourceKind::Animated
    )
    .widgets_allowed());
}

#[test]
fn widgets_allowed_on_file_transfer_with_static_background() {
    assert!(CanvasPolicy::for_content(
        Some(DisplayCapability::FileTransfer),
        SourceKind::Static
    )
    .widgets_allowed());
}

#[test]
fn widgets_allowed_when_device_capability_is_unknown() {
    assert!(CanvasPolicy::for_content(None, SourceKind::Animated).widgets_allowed());
}

#[test]
fn widgets_allowed_on_streaming_with_animated_background() {
    assert!(CanvasPolicy::for_content(
        Some(DisplayCapability::Streaming),
        SourceKind::Animated
    )
    .widgets_allowed());
}

#[test]
fn blocked_policy_explains_itself() {
    let blocked = CanvasPolicy::for_content(Some(DisplayCapability::FileTransfer), SourceKind::Animated);
    assert_eq!(
        blocked.widget_block_message(),
        Some("Widgets with animated backgrounds are not supported on this device.")
    );
    let allowed = CanvasPolicy::for_content(Some(DisplayCapability::Streaming), SourceKind::Animated);
    assert_eq!(allowed.widget_block_message(), None);
}

#[test]
fn source_kind_follows_frame_count() {
    assert_eq!(SourceKind::from_frame_count(0), SourceKind::Static);
    assert_eq!(SourceKind::from_frame_count(1), SourceKind::Static);
    assert_eq!(SourceKind::from_frame_count(2), SourceKind::Animated);
    assert!(!widgets_allowed(Some(DisplayCapability::FileTransfer), SourceKind::from_frame_count(5)));
}
