use dvsynth::graph::ChannelIdentifier;
use dvsynth::node::{ChannelDirection, ChannelPassBy};
use dvsynth::style::InteractionStatus;
use dvsynth::util::{partial_max, partial_min};
use dvsynth::widgets::floating_panes::{PaneResizeDirection, PaneResizeDirections};
use dvsynth::widgets::margin::Spacing;
use dvsynth::widgets::node::{GraphValidationErrorAffectedElement, Highlight};

#[test]
fn spacing() {
    let s = Spacing::from_axes(1, 2);
    assert_eq!((s.left, s.right, s.up, s.down), (1, 1, 2, 2));
    assert!(Spacing::uniform(3) == Spacing { right: 3, up: 3, left: 3, down: 3 });
}

#[test]
fn resize_directions() {
    assert!(PaneResizeDirections::none().is_none());
    let d = PaneResizeDirections { x: PaneResizeDirection::Positive, y: PaneResizeDirection::Fixed };
    assert!(!d.is_none());
}

#[test]
fn interaction_defaults_to_idle() {
    assert_eq!(InteractionStatus::default(), InteractionStatus::Idle);
}

#[test]
fn partial_order_helpers() {
    assert_eq!(partial_min(3, 5), 3);
    assert_eq!(partial_max(3, 5), 5);
    assert_eq!(partial_min(5, 5), 5);
    assert_eq!(partial_min(f32::NAN, 1.0), 1.0);
    assert!(partial_max(f32::NAN, 1.0).is_nan());
}

#[test]
fn highlight_names_the_affected_element() {
    let channel = ChannelIdentifier {
        node_index: 2,
        channel_direction: ChannelDirection::In,
        channel_index: 0,
        pass_by: ChannelPassBy::Value,
    };
    match Highlight::Channel(channel).into_graph_validation_error_affected_element() {
        GraphValidationErrorAffectedElement::Channel(c) => assert_eq!(c, channel),
        _ => panic!("wrong element"),
    }
}
