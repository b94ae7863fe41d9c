use liquid_glass::error::Error;
use liquid_glass::handles::{
    add_glass_effect, configure_glass, remove_glass_effect, set_scrim, set_subdued, set_variant,
    UNSUPPORTED_ID,
};
use liquid_glass::manager::EffectManager;
use liquid_glass::models::{
    GlassMaterialVariant, GlassOptions, PlatformCaps, SetterProbe, WindowProbe,
};
use liquid_glass::store::{NativeCommand, SetterStyle, ViewProperty};

fn no_setters() -> SetterProbe {
    SetterProbe { private_setter: false, public_setter: false }
}

fn advanced_caps() -> PlatformCaps {
    PlatformCaps {
        has_native_toolkit: true,
        os_version_ok: true,
        advanced_class_available: true,
        variant_setter: SetterProbe { private_setter: true, public_setter: true },
        scrim_setter: SetterProbe { private_setter: true, public_setter: false },
        subdued_setter: SetterProbe { private_setter: false, public_setter: true },
    }
}

fn fallback_caps() -> PlatformCaps {
    PlatformCaps {
        has_native_toolkit: true,
        os_version_ok: false,
        advanced_class_available: false,
        variant_setter: no_setters(),
        scrim_setter: no_setters(),
        subdued_setter: no_setters(),
    }
}

fn no_toolkit_caps() -> PlatformCaps {
    PlatformCaps {
        has_native_toolkit: false,
        os_version_ok: false,
        advanced_class_available: false,
        variant_setter: no_setters(),
        scrim_setter: no_setters(),
        subdued_setter: no_setters(),
    }
}

fn plain_window() -> WindowProbe {
    WindowProbe { has_content_view: true, is_opaque: false, webview_draws_background: false }
}

fn options(corner_radius: u64, tint: Option<&str>, opaque: bool) -> GlassOptions {
    GlassOptions { corner_radius, tint_color: tint.map(|s| s.to_string()), opaque }
}

#[test]
fn add_returns_sequential_ids() {
    let mut m = EffectManager::new();
    let caps = advanced_caps();
    let a = add_glass_effect(&mut m, &caps, "main", Some(plain_window()), &options(0, None, false))
        .unwrap();
    let b = add_glass_effect(&mut m, &caps, "main", Some(plain_window()), &options(0, None, false))
        .unwrap();
    assert_eq!(a, 1);
    assert_eq!(b, 2);
    assert_eq!(m.id_count(), 2);
}

#[test]
fn add_without_toolkit_returns_sentinel_and_does_nothing() {
    let mut m = EffectManager::new();
    let caps = no_toolkit_caps();
    let r = add_glass_effect(
        &mut m,
        &caps,
        "win",
        Some(plain_window()),
        &options(12, Some("#00000040"), false),
    );
    assert!(matches!(r, Ok(UNSUPPORTED_ID)));
    assert_eq!(m.id_count(), 0);
    assert!(m.drain_commands().is_empty());
}

#[test]
fn set_variant_for_unknown_id_is_view_not_found() {
    let mut m = EffectManager::new();
    let caps = advanced_caps();
    let r = set_variant(&mut m, &caps, 3, GlassMaterialVariant::Sidebar);
    assert!(matches!(r, Err(Error::ViewNotFound(3))));
}

#[test]
fn add_with_tint_on_fallback_builds_a_mirrored_overlay() {
    let mut m = EffectManager::new();
    let caps = fallback_caps();
    let id = add_glass_effect(
        &mut m,
        &caps,
        "main",
        Some(plain_window()),
        &options(12, Some("#00000040"), false),
    )
    .unwrap();
    assert_eq!(id, 1);
    let cmds = m.drain_commands();
    assert!(cmds
        .iter()
        .any(|c| matches!(c, NativeCommand::CreateOverlay { .. })));
    assert!(cmds
        .iter()
        .any(|c| matches!(c, NativeCommand::PaintOverlay { .. })));
}

#[test]
fn add_with_opaque_creates_a_backing_panel() {
    let mut m = EffectManager::new();
    let caps = advanced_caps();
    add_glass_effect(&mut m, &caps, "main", Some(plain_window()), &options(0, None, true))
        .unwrap();
    let cmds = m.drain_commands();
    assert!(cmds
        .iter()
        .any(|c| matches!(c, NativeCommand::CreateBackingView { .. })));
}

#[test]
fn add_missing_window_is_window_not_found() {
    let mut m = EffectManager::new();
    let caps = advanced_caps();
    let r = add_glass_effect(&mut m, &caps, "gone", None, &options(0, None, false));
    assert!(matches!(r, Err(Error::WindowNotFound(l)) if l == "gone"));
}

#[test]
fn configure_unknown_id_is_view_not_found() {
    let mut m = EffectManager::new();
    let caps = advanced_caps();
    let r = configure_glass(&mut m, &caps, 7, Some(10), None);
    assert!(matches!(r, Err(Error::ViewNotFound(7))));
}

#[test]
fn configure_radius_re_mirrors_a_kept_overlay() {
    let mut m = EffectManager::new();
    let caps = fallback_caps();
    let id = add_glass_effect(
        &mut m,
        &caps,
        "main",
        Some(plain_window()),
        &options(12, Some("#00000040"), false),
    )
    .unwrap();
    // change only the radius: the kept overlay must follow it
    configure_glass(&mut m, &caps, id, Some(20), None).unwrap();
    let cmds = m.drain_commands();
    let radius_sets = cmds
        .iter()
        .filter(|c| matches!(c, NativeCommand::SetCornerRadius { radius: 20, .. }))
        .count();
    assert_eq!(radius_sets, 2);
}

#[test]
fn configure_with_bad_tint_clears_the_overlay() {
    let mut m = EffectManager::new();
    let caps = fallback_caps();
    let id = add_glass_effect(
        &mut m,
        &caps,
        "main",
        Some(plain_window()),
        &options(0, Some("#00000040"), false),
    )
    .unwrap();
    m.drain_commands();
    configure_glass(&mut m, &caps, id, None, Some("junk".to_string())).unwrap();
    assert!(m
        .drain_commands()
        .iter()
        .any(|c| matches!(c, NativeCommand::RemoveFromSuperview { .. })));
}

#[test]
fn configure_without_toolkit_is_a_silent_noop() {
    let mut m = EffectManager::new();
    let caps = no_toolkit_caps();
    assert!(configure_glass(&mut m, &caps, 3, Some(5), None).is_ok());
    assert!(m.drain_commands().is_empty());
}

#[test]
fn remove_id_is_idempotent() {
    let mut m = EffectManager::new();
    let caps = advanced_caps();
    let id = add_glass_effect(&mut m, &caps, "main", Some(plain_window()), &options(0, None, false))
        .unwrap();
    m.drain_commands();
    assert!(remove_glass_effect(&mut m, &caps, id).is_ok());
    assert_eq!(m.id_count(), 0);
    assert!(!m.drain_commands().is_empty());
    // a second removal succeeds and has no side effects
    assert!(remove_glass_effect(&mut m, &caps, id).is_ok());
    assert!(m.drain_commands().is_empty());
}

#[test]
fn remove_unknown_id_succeeds() {
    let mut m = EffectManager::new();
    let caps = advanced_caps();
    assert!(remove_glass_effect(&mut m, &caps, 42).is_ok());
    assert!(m.drain_commands().is_empty());
}

#[test]
fn scrim_and_subdued_are_probed_like_the_variant() {
    let mut m = EffectManager::new();
    let caps = advanced_caps();
    let id = add_glass_effect(&mut m, &caps, "main", Some(plain_window()), &options(0, None, false))
        .unwrap();
    m.drain_commands();
    set_scrim(&mut m, &caps, id, true).unwrap();
    set_subdued(&mut m, &caps, id, false).unwrap();
    let cmds = m.drain_commands();
    assert!(cmds.iter().any(|c| matches!(
        c,
        NativeCommand::SetViewProperty {
            property: ViewProperty::Scrim,
            style: SetterStyle::Private,
            value: 1,
            ..
        }
    )));
    assert!(cmds.iter().any(|c| matches!(
        c,
        NativeCommand::SetViewProperty {
            property: ViewProperty::Subdued,
            style: SetterStyle::Public,
            value: 0,
            ..
        }
    )));
}

#[test]
fn cosmetic_toggles_are_inert_on_the_fallback() {
    let mut m = EffectManager::new();
    let caps = fallback_caps();
    let id = add_glass_effect(&mut m, &caps, "main", Some(plain_window()), &options(0, None, false))
        .unwrap();
    m.drain_commands();
    set_variant(&mut m, &caps, id, GlassMaterialVariant::Dock).unwrap();
    set_scrim(&mut m, &caps, id, true).unwrap();
    set_subdued(&mut m, &caps, id, true).unwrap();
    assert!(m.drain_commands().is_empty());
}

#[test]
fn variant_codes_follow_the_declaration_order() {
    assert_eq!(GlassMaterialVariant::Regular.as_code(), 0);
    assert_eq!(GlassMaterialVariant::Clear.as_code(), 1);
    assert_eq!(GlassMaterialVariant::Sidebar.as_code(), 16);
    assert_eq!(GlassMaterialVariant::CartouchePopover.as_code(), 23);
}
