use smol_dfr::config::{WidgetConfig, WidgetEntry};
use smol_dfr::widgets::{
    interned_position,
    action_effects, all_key_actions, battery_handle_event, handle_key_action, icon_candidates,
    key_events, message_effects, time_format_str, Effect, FdRegistry, MainLoopAction, Message,
    WidgetAction,
};

fn keys_of(a: &MainLoopAction) -> Option<(Vec<u16>, bool)> {
    match a {
        MainLoopAction::SendKeys(k, d) => Some((k.clone(), *d)),
        _ => None,
    }
}

#[test]
fn key_actions_press_and_release() {
    let mut active = false;
    let r = handle_key_action(&mut active, &[30, 31], WidgetAction::Pressed);
    assert!(active);
    assert_eq!(r.len(), 1);
    assert_eq!(keys_of(&r[0]), Some((vec![30, 31], true)));
    let r = handle_key_action(&mut active, &[30, 31], WidgetAction::Released);
    assert!(!active);
    assert_eq!(keys_of(&r[0]), Some((vec![30, 31], false)));
    let r = handle_key_action(&mut active, &[], WidgetAction::Pressed);
    assert!(!active && r.is_empty());
}

#[test]
fn battery_press_shows_time() {
    let mut active = false;
    let r = battery_handle_event(&mut active, &[], WidgetAction::Pressed);
    assert!(active);
    assert_eq!(r.len(), 1);
    assert!(matches!(r[0], MainLoopAction::ShowBatteryTime));
    let r = battery_handle_event(&mut active, &[], WidgetAction::Released);
    assert!(active && r.is_empty());
    let r = battery_handle_event(&mut active, &[5], WidgetAction::Pressed);
    assert_eq!(r.len(), 2);
    assert_eq!(keys_of(&r[0]), Some((vec![5], true)));
}

#[test]
fn key_event_sequence() {
    assert_eq!(key_events(&[30, 48], 1), vec![(1, 30, 1), (1, 48, 1), (0, 0, 0)]);
    assert!(key_events(&[], 1).is_empty());
}

#[test]
fn messages_to_effects() {
    let e = message_effects(Message::VolumeDownRelease);
    assert_eq!(e.len(), 2);
    assert!(matches!(&e[0], Effect::Keys(k, false) if k == &vec![114]));
    assert!(matches!(e[1], Effect::Redraw));
    let e = message_effects(Message::VolumeUpPress);
    assert!(matches!(&e[0], Effect::Keys(k, true) if k == &vec![115]));
    assert!(matches!(message_effects(Message::WorkspaceUp(9))[0], Effect::FocusWorkspace(9)));
    assert!(matches!(message_effects(Message::WidgetPressed(3))[0], Effect::Widget(3, WidgetAction::Pressed)));
    let e = action_effects(MainLoopAction::ShowBatteryTime);
    assert!(matches!(e[0], Effect::ShowBatteryTime) && matches!(e[1], Effect::Redraw));
}

#[test]
fn registry_tokens_increase() {
    let mut r = FdRegistry::new(10);
    assert_eq!(r.peek(), 10);
    assert_eq!(r.next_token(), 10);
    assert_eq!(r.next_token(), 11);
    assert_eq!(r.peek(), 12);
}

#[test]
fn collects_all_keys() {
    let e = |k: Vec<u16>| WidgetEntry { action: k, width: None, color: None, widget: WidgetConfig::Spacer };
    let layers = [vec![e(vec![1, 2]), e(vec![])], vec![e(vec![3])]];
    assert_eq!(all_key_actions(&layers), vec![1, 2, 3]);
}

#[test]
fn time_formats() {
    assert_eq!(time_format_str("24hr"), "%H:%M    %a %-e %b");
    assert_eq!(time_format_str("12hr"), "%-l:%M %p    %a %-e %b");
    assert_eq!(time_format_str("%H:%M:%S"), "%H:%M:%S");
}

#[test]
fn icon_paths() {
    let (a, b) = icon_candidates("volume_up");
    assert_eq!(a, "/etc/smol-dfr/volume_up.svg");
    assert_eq!(b, "/usr/share/smol-dfr/volume_up.svg");
}

#[test]
fn interned_font_names_are_found_again() {
    let names = vec!["Sans", "Mono", "Sans"];
    assert_eq!(interned_position(&names, "Sans"), Some(0));
    assert_eq!(interned_position(&names, "Mono"), Some(1));
    assert_eq!(interned_position(&names, "Serif"), None);
    assert_eq!(interned_position(&vec![], "Sans"), None);
    assert_eq!(interned_position(&vec!["Sans Bold"], "Sans"), None);
}
