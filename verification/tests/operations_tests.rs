use liquid_glass::error::Error;
use liquid_glass::manager::EffectManager;
use liquid_glass::models::{
    GlassMaterialVariant, LiquidGlassConfig, PlatformCaps, SetterProbe, WindowProbe,
};
use liquid_glass::store::{NativeCommand, SetterStyle, WarningKind};

fn no_setters() -> SetterProbe {
    SetterProbe { private_setter: false, public_setter: false }
}

fn advanced_caps() -> PlatformCaps {
    PlatformCaps {
        has_native_toolkit: true,
        os_version_ok: true,
        advanced_class_available: true,
        variant_setter: SetterProbe { private_setter: true, public_setter: true },
        scrim_setter: SetterProbe { private_setter: true, public_setter: false },
        subdued_setter: SetterProbe { private_setter: false, public_setter: true },
    }
}

fn fallback_caps() -> PlatformCaps {
    PlatformCaps {
        has_native_toolkit: true,
        os_version_ok: false,
        advanced_class_available: false,
        variant_setter: no_setters(),
        scrim_setter: no_setters(),
        subdued_setter: no_setters(),
    }
}

fn no_toolkit_caps() -> PlatformCaps {
    PlatformCaps {
        has_native_toolkit: false,
        os_version_ok: false,
        advanced_class_available: false,
        variant_setter: no_setters(),
        scrim_setter: no_setters(),
        subdued_setter: no_setters(),
    }
}

fn plain_window() -> WindowProbe {
    WindowProbe { has_content_view: true, is_opaque: false, webview_draws_background: false }
}

fn config(enabled: bool, corner_radius: u64, tint: Option<&str>) -> LiquidGlassConfig {
    LiquidGlassConfig {
        enabled,
        corner_radius,
        tint_color: tint.map(|s| s.to_string()),
        variant: GlassMaterialVariant::Regular,
        opaque: false,
    }
}

#[test]
fn defaults_enable_with_regular_variant() {
    let c = LiquidGlassConfig::default();
    assert!(c.enabled);
    assert_eq!(c.corner_radius, 0);
    assert!(c.tint_color.is_none());
    assert_eq!(c.variant, GlassMaterialVariant::Regular);
    assert!(!c.opaque);
}

#[test]
fn supported_only_with_class_available() {
    assert!(liquid_glass::operations::is_glass_supported(&advanced_caps()));
    assert!(!liquid_glass::operations::is_glass_supported(&fallback_caps()));
    assert!(liquid_glass::handles::is_glass_supported(&advanced_caps()));
    assert!(!liquid_glass::handles::is_glass_supported(&fallback_caps()));
}

#[test]
fn create_registers_one_entry_and_creates_a_view() {
    let mut m = EffectManager::new();
    let caps = advanced_caps();
    let r = m.set_liquid_glass_effect(&caps, "main", Some(plain_window()), &config(true, 10, None));
    assert!(r.is_ok());
    assert!(m.registry().contains("main").unwrap());
    assert_eq!(m.registry().len(), 1);
    let cmds = m.drain_commands();
    assert!(matches!(cmds[0], NativeCommand::CreateView { advanced: true, .. }));
    assert!(cmds
        .iter()
        .any(|c| matches!(c, NativeCommand::AttachBehindContent { .. })));
}

#[test]
fn toggling_keeps_exactly_one_entry() {
    let mut m = EffectManager::new();
    let caps = advanced_caps();
    m.set_liquid_glass_effect(&caps, "main", Some(plain_window()), &config(true, 0, None))
        .unwrap();
    let (glass_before, _) = m.registry().get("main").unwrap().unwrap();
    m.set_liquid_glass_effect(&caps, "main", Some(plain_window()), &config(true, 24, None))
        .unwrap();
    assert_eq!(m.registry().len(), 1);
    let (glass_after, _) = m.registry().get("main").unwrap().unwrap();
    assert_eq!(glass_before.as_id(), glass_after.as_id());
    assert_eq!(m.view_state(glass_after).unwrap().radius, 24);
    let cmds = m.drain_commands();
    // the second call updated in place: exactly one view was ever created
    let creates = cmds
        .iter()
        .filter(|c| matches!(c, NativeCommand::CreateView { .. }))
        .count();
    assert_eq!(creates, 1);
}

#[test]
fn remove_on_absent_key_succeeds_with_no_side_effects() {
    let mut m = EffectManager::new();
    let caps = advanced_caps();
    let r = m.set_liquid_glass_effect(&caps, "main", None, &config(false, 0, None));
    assert!(r.is_ok());
    assert_eq!(m.registry().len(), 0);
    assert!(m.drain_commands().is_empty());
    // twice in a row is the same as once
    let r2 = m.set_liquid_glass_effect(&caps, "main", None, &config(false, 0, None));
    assert!(r2.is_ok());
    assert!(m.drain_commands().is_empty());
}

#[test]
fn disable_removes_the_entry_and_detaches_views() {
    let mut m = EffectManager::new();
    let caps = fallback_caps();
    m.set_liquid_glass_effect(
        &caps,
        "main",
        Some(plain_window()),
        &config(true, 4, Some("#00000040")),
    )
    .unwrap();
    let (glass, overlay) = m.registry().get("main").unwrap().unwrap();
    let overlay = overlay.unwrap();
    m.drain_commands();
    m.set_liquid_glass_effect(&caps, "main", None, &config(false, 0, None))
        .unwrap();
    assert!(!m.registry().contains("main").unwrap());
    let cmds = m.drain_commands();
    assert_eq!(
        cmds,
        vec![
            NativeCommand::RemoveFromSuperview { view: overlay },
            NativeCommand::RemoveFromSuperview { view: glass },
        ]
    );
}

#[test]
fn disable_then_enable_uses_a_fresh_handle() {
    let mut m = EffectManager::new();
    let caps = advanced_caps();
    m.set_liquid_glass_effect(&caps, "main", Some(plain_window()), &config(true, 0, None))
        .unwrap();
    let (old_glass, _) = m.registry().get("main").unwrap().unwrap();
    m.set_liquid_glass_effect(&caps, "main", None, &config(false, 0, None))
        .unwrap();
    m.set_liquid_glass_effect(&caps, "main", Some(plain_window()), &config(true, 0, None))
        .unwrap();
    let (new_glass, _) = m.registry().get("main").unwrap().unwrap();
    assert_ne!(old_glass.as_id(), new_glass.as_id());
}

#[test]
fn fallback_overlay_mirrors_the_corner_radius() {
    let mut m = EffectManager::new();
    let caps = fallback_caps();
    m.set_liquid_glass_effect(
        &caps,
        "main",
        Some(plain_window()),
        &config(true, 12, Some("#00000040")),
    )
    .unwrap();
    let (glass, overlay) = m.registry().get("main").unwrap().unwrap();
    let overlay = overlay.unwrap();
    assert_eq!(m.view_state(glass).unwrap().radius, 12);
    assert_eq!(m.view_state(overlay).unwrap().radius, 12);
    // an update with a new radius re-mirrors it onto the overlay
    m.set_liquid_glass_effect(
        &caps,
        "main",
        Some(plain_window()),
        &config(true, 30, Some("#00000040")),
    )
    .unwrap();
    let (glass, overlay) = m.registry().get("main").unwrap().unwrap();
    let overlay = overlay.unwrap();
    assert_eq!(m.view_state(glass).unwrap().radius, 30);
    assert_eq!(m.view_state(overlay).unwrap().radius, 30);
}

#[test]
fn advanced_backend_tints_natively_without_overlay() {
    let mut m = EffectManager::new();
    let caps = advanced_caps();
    m.set_liquid_glass_effect(
        &caps,
        "main",
        Some(plain_window()),
        &config(true, 0, Some("#FF000080")),
    )
    .unwrap();
    let (glass, overlay) = m.registry().get("main").unwrap().unwrap();
    assert!(overlay.is_none());
    let tint = m.view_state(glass).unwrap().tint.unwrap();
    assert_eq!((tint.r, tint.g, tint.b, tint.a), (255, 0, 0, 128));
    assert!(m
        .drain_commands()
        .iter()
        .any(|c| matches!(c, NativeCommand::SetNativeTint { .. })));
}

#[test]
fn unparseable_tint_clears_instead_of_failing() {
    let mut m = EffectManager::new();
    let caps = fallback_caps();
    let r = m.set_liquid_glass_effect(
        &caps,
        "main",
        Some(plain_window()),
        &config(true, 0, Some("not-a-color")),
    );
    assert!(r.is_ok());
    let (_, overlay) = m.registry().get("main").unwrap().unwrap();
    assert!(overlay.is_none());
}

#[test]
fn update_clearing_tint_discards_the_overlay() {
    let mut m = EffectManager::new();
    let caps = fallback_caps();
    m.set_liquid_glass_effect(
        &caps,
        "main",
        Some(plain_window()),
        &config(true, 0, Some("#00000040")),
    )
    .unwrap();
    let (_, overlay) = m.registry().get("main").unwrap().unwrap();
    let overlay = overlay.unwrap();
    m.drain_commands();
    m.set_liquid_glass_effect(&caps, "main", Some(plain_window()), &config(true, 0, None))
        .unwrap();
    let (_, overlay_now) = m.registry().get("main").unwrap().unwrap();
    assert!(overlay_now.is_none());
    assert!(m
        .drain_commands()
        .contains(&NativeCommand::RemoveFromSuperview { view: overlay }));
}

#[test]
fn missing_window_is_window_not_found() {
    let mut m = EffectManager::new();
    let caps = advanced_caps();
    let r = m.set_liquid_glass_effect(&caps, "side", None, &config(true, 0, None));
    assert!(matches!(r, Err(Error::WindowNotFound(l)) if l == "side"));
    assert_eq!(m.registry().len(), 0);
}

#[test]
fn missing_content_view_is_view_creation_failed() {
    let mut m = EffectManager::new();
    let caps = advanced_caps();
    let probe = WindowProbe {
        has_content_view: false,
        is_opaque: false,
        webview_draws_background: false,
    };
    let r = m.set_liquid_glass_effect(&caps, "main", Some(probe), &config(true, 0, None));
    assert!(matches!(r, Err(Error::ViewCreationFailed)));
}

#[test]
fn update_of_absent_entry_is_window_not_found() {
    let mut m = EffectManager::new();
    let caps = advanced_caps();
    let r = m.update_glass_effect(&caps, "main", &config(true, 0, None));
    assert!(matches!(r, Err(Error::WindowNotFound(l)) if l == "main"));
}

#[test]
fn opaque_window_and_webview_background_warn() {
    let mut m = EffectManager::new();
    let caps = advanced_caps();
    let probe = WindowProbe {
        has_content_view: true,
        is_opaque: true,
        webview_draws_background: true,
    };
    m.set_liquid_glass_effect(&caps, "main", Some(probe), &config(true, 0, None))
        .unwrap();
    let cmds = m.drain_commands();
    assert_eq!(cmds[0], NativeCommand::Warn { kind: WarningKind::OpaqueWindow });
    assert_eq!(
        cmds[1],
        NativeCommand::Warn { kind: WarningKind::WebviewDrawsBackground }
    );
}

#[test]
fn variant_probing_prefers_the_private_setter() {
    let mut m = EffectManager::new();
    let mut caps = advanced_caps();
    let mut cfg = config(true, 0, None);
    cfg.variant = GlassMaterialVariant::Sidebar;
    m.set_liquid_glass_effect(&caps, "a", Some(plain_window()), &cfg).unwrap();
    assert!(m.drain_commands().iter().any(|c| matches!(
        c,
        NativeCommand::SetViewProperty { style: SetterStyle::Private, value: 16, .. }
    )));
    // with only the public-style setter responding, that one is used
    caps.variant_setter = SetterProbe { private_setter: false, public_setter: true };
    m.set_liquid_glass_effect(&caps, "b", Some(plain_window()), &cfg).unwrap();
    assert!(m.drain_commands().iter().any(|c| matches!(
        c,
        NativeCommand::SetViewProperty { style: SetterStyle::Public, value: 16, .. }
    )));
    // with neither, the variant is silently skipped
    caps.variant_setter = no_setters();
    m.set_liquid_glass_effect(&caps, "c", Some(plain_window()), &cfg).unwrap();
    assert!(!m
        .drain_commands()
        .iter()
        .any(|c| matches!(c, NativeCommand::SetViewProperty { .. })));
}

#[test]
fn no_toolkit_means_silent_success() {
    let mut m = EffectManager::new();
    let caps = no_toolkit_caps();
    let r = m.set_liquid_glass_effect(
        &caps,
        "main",
        Some(plain_window()),
        &config(true, 8, Some("#FF0000")),
    );
    assert!(r.is_ok());
    assert_eq!(m.registry().len(), 0);
    assert!(m.drain_commands().is_empty());
}

#[test]
fn error_messages_are_nonempty_text() {
    for e in [
        Error::UnsupportedPlatform,
        Error::UnsupportedOSVersion,
        Error::WindowNotFound("main".to_string()),
        Error::ViewNotFound(3),
        Error::ViewCreationFailed,
        Error::InvalidColorFormat("zzz".to_string()),
        Error::RegistryLockFailed,
        Error::Host("boom".to_string()),
    ] {
        assert!(!e.message().is_empty());
    }
    assert_eq!(
        Error::WindowNotFound("main".to_string()).message(),
        "Window not found: main"
    );
}
