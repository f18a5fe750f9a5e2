use savvagent::guest_json::{event_to_json, JsonScalar};
use savvagent::plugin::{BoundAction, ChordPortable, Contributions, Effect, HookKind, HostEvent,
    KeyCodePortable, KeyEventPortable, KeyMods, Manifest, PluginId, PluginKind, ProviderId, Region,
    ScreenInstanceId, SlotSpec, StyledLine, StyledSpan, TextMods, ThemeColor, ThemeEntry,
    ThemePalette, Timestamp};

#[test]
fn stack_is_recursive() {
    let outer = Effect::Stack(vec![
        Effect::SetActiveTheme { slug: "dark".into(), persist: true },
        Effect::CloseScreen,
    ]);
    match outer {
        Effect::Stack(children) => assert_eq!(children.len(), 2),
        _ => panic!(),
    }
}

#[test]
fn bound_action_holds_an_effect() {
    let _ = BoundAction::EmitEffect(Effect::Quit);
    let _ = BoundAction::RunSlash { name: "theme".into(), args: vec![] };
}

#[test]
fn kind_matches_variant() {
    let e = HostEvent::Connect { provider_id: ProviderId("anthropic".into()) };
    assert_eq!(e.kind(), HookKind::Connect);

    let e = HostEvent::TurnStart { turn_id: 7 };
    assert_eq!(e.kind(), HookKind::TurnStart);
}

#[test]
fn host_starting_carries_no_payload() {
    let e = HostEvent::HostStarting;
    assert_eq!(e.kind(), HookKind::HostStarting);
}

#[test]
fn default_contributions_is_empty() {
    let c = Contributions::default();
    assert!(c.slash_commands.is_empty());
    assert!(c.screens.is_empty());
    assert!(c.themes.is_empty());
    assert!(c.providers.is_empty());
    assert!(c.hooks.is_empty());
    assert!(c.slots.is_empty());
    assert!(c.keybindings.is_empty());
}

#[test]
fn manifest_constructs() {
    let m = Manifest {
        id: PluginId("internal:home-tips".into()),
        name: "Home tips".into(),
        version: "0.9.0".into(),
        description: "Renders the tips line above the prompt".into(),
        kind: PluginKind::Core,
        contributions: Contributions {
            slots: vec![SlotSpec { slot_id: "home.tips".into(), priority: 100 }],
            ..Contributions::default()
        },
    };
    assert_eq!(m.kind, PluginKind::Core);
    assert_eq!(m.contributions.slots.len(), 1);
}

#[test]
fn styled_line_holds_owned_spans() {
    let line = StyledLine {
        spans: vec![StyledSpan {
            text: "hello".to_string(),
            fg: Some(ThemeColor::Green),
            bg: None,
            modifiers: TextMods { bold: true, ..Default::default() },
        }],
    };
    assert_eq!(line.spans.len(), 1);
    assert_eq!(line.spans[0].text, "hello");
}

#[test]
fn theme_color_supports_named_indexed_and_rgb() {
    let _named = ThemeColor::Red;
    let _idx = ThemeColor::Indexed(208);
    let _rgb = ThemeColor::Rgb { r: 255, g: 128, b: 64 };
}

#[test]
fn text_mods_default_is_all_false() {
    let m = TextMods::default();
    assert!(!m.bold);
    assert!(!m.italic);
    assert!(!m.underline);
    assert!(!m.reverse);
    assert!(!m.dim);
}

#[test]
fn ids_are_string_newtypes() {
    let p = PluginId("internal:themes".to_string());
    let q = ProviderId("anthropic".to_string());
    assert_eq!(p.0, "internal:themes");
    assert_eq!(q.0, "anthropic");
}

#[test]
fn region_fields_are_u16() {
    let r = Region { x: 0, y: 0, width: 80, height: 24 };
    let area: u32 = r.width as u32 * r.height as u32;
    assert_eq!(area, 1920);
}

#[test]
fn timestamp_is_i64_secs_plus_u32_nanos() {
    let t = Timestamp { secs: 1_700_000_000, nanos: 500_000_000 };
    assert_eq!(t.secs, 1_700_000_000);
    assert_eq!(t.nanos, 500_000_000);
}

#[test]
fn screen_instance_id_is_u32() {
    let s = ScreenInstanceId(42);
    assert_eq!(s.0, 42u32);
}

#[test]
fn key_event_portable_is_constructible() {
    let k = KeyEventPortable {
        code: KeyCodePortable::Char('a'),
        modifiers: KeyMods { ctrl: true, alt: false, shift: false, meta: false },
    };
    assert!(k.modifiers.ctrl);
    match k.code {
        KeyCodePortable::Char(c) => assert_eq!(c, 'a'),
        _ => panic!("unexpected variant"),
    }
}

#[test]
fn chord_portable_wraps_one_key() {
    let c = ChordPortable {
        key: KeyEventPortable {
            code: KeyCodePortable::Char('s'),
            modifiers: KeyMods { ctrl: true, ..Default::default() },
        },
    };
    match c.key.code {
        KeyCodePortable::Char(c) => assert_eq!(c, 's'),
        _ => panic!(),
    }
}

#[test]
fn theme_entry_is_constructible() {
    let entry = ThemeEntry {
        slug: "light".to_string(),
        label: "Light".to_string(),
        dark: false,
        palette: ThemePalette {
            bg: ThemeColor::White,
            fg: ThemeColor::Black,
            accent: ThemeColor::Blue,
            muted: ThemeColor::Gray,
        },
    };
    assert_eq!(entry.slug, "light");
    assert!(!entry.dark);
}

#[test]
fn styled_line_plain_is_one_unstyled_span() {
    let line = StyledLine::plain("hi");
    assert_eq!(line.spans.len(), 1);
    assert_eq!(line.spans[0].text, "hi");
    assert!(line.spans[0].fg.is_none());
    assert_eq!(line.spans[0].modifiers, TextMods::default());
}

#[test]
fn event_to_json_covers_every_variant() {
    let pid = ProviderId("anthropic".into());
    let cases = vec![
        HostEvent::HostStarting,
        HostEvent::Connect { provider_id: pid.clone() },
        HostEvent::Disconnect { provider_id: pid.clone(), reason: "bye".into() },
        HostEvent::TurnStart { turn_id: 1 },
        HostEvent::TurnEnd { turn_id: 2, success: true },
        HostEvent::ToolCallStart { call_id: "c".into(), tool: "read_file".into() },
        HostEvent::ToolCallEnd { call_id: "c".into(), success: false },
        HostEvent::PromptSubmitted { text: "hi".into() },
        HostEvent::TranscriptSaved { path: "/tmp/t.json".into() },
    ];
    for e in cases {
        let v = event_to_json(&e);
        assert!(v.iter().any(|(k, _)| k == "kind"), "every variant emits a `kind`");
    }
}

#[test]
fn event_to_json_exact_fields() {
    let v = event_to_json(&HostEvent::TurnEnd { turn_id: 2, success: true });
    assert_eq!(
        v,
        vec![
            ("kind".to_string(), JsonScalar::Str("turn-end".into())),
            ("turn_id".to_string(), JsonScalar::UInt(2)),
            ("success".to_string(), JsonScalar::Bool(true)),
        ]
    );
    let v = event_to_json(&HostEvent::Disconnect { provider_id: ProviderId("p".into()), reason: "r".into() });
    assert_eq!(v[1], ("provider_id".to_string(), JsonScalar::Str("p".into())));
    assert_eq!(v[2], ("reason".to_string(), JsonScalar::Str("r".into())));
}
