use dvsynth::node::behaviour::{NodeCommand, NodeEvent};
use dvsynth::node::window::{
    Fullscreen, State, WindowChange, WindowMessage, WindowNodeBehaviour, WindowRequest, WindowSettings,
};

#[test]
fn default_window_settings() {
    let settings = WindowSettings::default();
    assert_eq!(settings.title, "DVSynth Output Window");
    assert_eq!(settings.inner_size, (800, 450));
    assert_eq!(settings.fullscreen, None);
    assert!(!settings.always_on_top && !settings.cursor_grab && settings.cursor_visible);
    assert!(settings.decorations && !settings.maximized && !settings.minimized);
    assert!(settings.resizable && settings.visible);
    let node = WindowNodeBehaviour::default();
    assert_eq!(node.width_string, "800");
    assert_eq!(node.height_string, "450");
    assert_eq!(node.name(), "Window");
}

#[test]
fn differences_are_listed_in_order() {
    let mut current = WindowSettings::default();
    let mut new = current.clone();
    assert!(current.apply_difference(&new).is_empty());
    new.title = "Output".to_string();
    new.inner_size = (0, 600);
    new.fullscreen = Some(Fullscreen::Borderless(None));
    new.visible = false;
    let changes = current.apply_difference(&new);
    assert_eq!(
        changes,
        vec![
            WindowChange::Title,
            WindowChange::InnerSize(1, 600),
            WindowChange::Fullscreen(Some(Fullscreen::Borderless(None))),
            WindowChange::Visible(false),
        ]
    );
    assert_eq!(current.title, "Output");
    assert_eq!(current.inner_size, (0, 600));
    assert_eq!(current.builder_size(), (1, 600));
}

#[test]
fn window_messages_change_the_settings() {
    let mut node = WindowNodeBehaviour::default();
    let commands = node.update(NodeEvent::Update);
    assert_eq!(commands.len(), 1);
    let NodeCommand::Configure(configuration) = &commands[0];
    assert!(configuration.input_channels_by_value.is_empty());
    assert!(node.update(NodeEvent::Message(WindowMessage::SetWidth("1024".to_string()))).is_empty());
    assert_eq!(node.settings.inner_size, (1024, 450));
    node.update(NodeEvent::Message(WindowMessage::SetHeight("+7".to_string())));
    assert_eq!(node.settings.inner_size, (1024, 7));
    node.update(NodeEvent::Message(WindowMessage::SetWidth("12a".to_string())));
    assert_eq!(node.settings.inner_size, (1024, 7));
    assert_eq!(node.width_string, "12a");
    node.update(NodeEvent::Message(WindowMessage::SetHeight("4294967296".to_string())));
    assert_eq!(node.settings.inner_size, (1024, 7));
    node.update(NodeEvent::Message(WindowMessage::SetHeight("".to_string())));
    assert_eq!(node.settings.inner_size, (1024, 7));
    node.update(NodeEvent::Message(WindowMessage::SetTitle("Stage".to_string())));
    node.update(NodeEvent::Message(WindowMessage::SetAlwaysOnTop(true)));
    node.update(NodeEvent::Message(WindowMessage::SetCursorGrab(true)));
    node.update(NodeEvent::Message(WindowMessage::SetCursorVisible(false)));
    node.update(NodeEvent::Message(WindowMessage::SetDecorations(false)));
    node.update(NodeEvent::Message(WindowMessage::SetMaximized(true)));
    node.update(NodeEvent::Message(WindowMessage::SetMinimized(true)));
    node.update(NodeEvent::Message(WindowMessage::SetResizable(false)));
    node.update(NodeEvent::Message(WindowMessage::SetVisible(false)));
    let s = &node.settings;
    assert_eq!(s.title, "Stage");
    assert!(s.always_on_top && s.cursor_grab && !s.cursor_visible && !s.decorations);
    assert!(s.maximized && s.minimized && !s.resizable && !s.visible);
}

#[test]
fn window_executor_runs() {
    let mut state = State::default();
    let mut settings = WindowSettings::default();
    settings.title = "Out".to_string();
    assert!(matches!(state.request_window(&settings), WindowRequest::Create(s) if s.title == "Out"));
    assert!(state.render(&settings).is_none());
    assert!(matches!(state.request_window(&settings), WindowRequest::Poll));
    state.window_received();
    assert!(matches!(state.request_window(&settings), WindowRequest::Ready));
    let frame = state.render(&settings).unwrap();
    assert_eq!(frame.changes, vec![WindowChange::Title]);
    assert_eq!(frame.swapchain_size, Some((800, 450)));
    let frame = state.render(&settings).unwrap();
    assert!(frame.changes.is_empty());
    assert_eq!(frame.swapchain_size, None);
    settings.inner_size = (640, 480);
    let frame = state.render(&settings).unwrap();
    assert_eq!(frame.changes, vec![WindowChange::InnerSize(640, 480)]);
    assert_eq!(frame.swapchain_size, Some((640, 480)));
}
