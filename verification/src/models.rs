//! Configuration values accepted by the effect operations.

use vstd::prelude::*;

verus! {

/// Cosmetic style tags understood by the advanced effect view.
///
/// The tags are forwarded to the native view by dynamic property probing and
/// are inert on the fallback implementation.
#[derive(Clone, Copy, Debug, PartialEq, Eq, Structural)]
pub enum GlassMaterialVariant {
    Regular,
    Clear,
    Dock,
    AppIcons,
    Widgets,
    Text,
    Avplayer,
    Facetime,
    ControlCenter,
    NotificationCenter,
    Monogram,
    Bubbles,
    Identity,
    FocusBorder,
    FocusPlatter,
    Keyboard,
    Sidebar,
    AbuttedSidebar,
    Inspector,
    Control,
    Loupe,
    Slider,
    Camera,
    CartouchePopover,
}

/// The numeric code handed to the native setter for each variant.
pub open spec fn variant_code(v: GlassMaterialVariant) -> i64 {
    match v {
        GlassMaterialVariant::Regular => 0,
        GlassMaterialVariant::Clear => 1,
        GlassMaterialVariant::Dock => 2,
        GlassMaterialVariant::AppIcons => 3,
        GlassMaterialVariant::Widgets => 4,
        GlassMaterialVariant::Text => 5,
        GlassMaterialVariant::Avplayer => 6,
        GlassMaterialVariant::Facetime => 7,
        GlassMaterialVariant::ControlCenter => 8,
        GlassMaterialVariant::NotificationCenter => 9,
        GlassMaterialVariant::Monogram => 10,
        GlassMaterialVariant::Bubbles => 11,
        GlassMaterialVariant::Identity => 12,
        GlassMaterialVariant::FocusBorder => 13,
        GlassMaterialVariant::FocusPlatter => 14,
        GlassMaterialVariant::Keyboard => 15,
        GlassMaterialVariant::Sidebar => 16,
        GlassMaterialVariant::AbuttedSidebar => 17,
        GlassMaterialVariant::Inspector => 18,
        GlassMaterialVariant::Control => 19,
        GlassMaterialVariant::Loupe => 20,
        GlassMaterialVariant::Slider => 21,
        GlassMaterialVariant::Camera => 22,
        GlassMaterialVariant::CartouchePopover => 23,
    }
}

impl GlassMaterialVariant {
    /// The numeric code handed to the native setter.
    pub fn as_code(self) -> (c: i64)
        ensures
            c == variant_code(self),
    {
        match self {
            GlassMaterialVariant::Regular => 0,
            GlassMaterialVariant::Clear => 1,
            GlassMaterialVariant::Dock => 2,
            GlassMaterialVariant::AppIcons => 3,
            GlassMaterialVariant::Widgets => 4,
            GlassMaterialVariant::Text => 5,
            GlassMaterialVariant::Avplayer => 6,
            GlassMaterialVariant::Facetime => 7,
            GlassMaterialVariant::ControlCenter => 8,
            GlassMaterialVariant::NotificationCenter => 9,
            GlassMaterialVariant::Monogram => 10,
            GlassMaterialVariant::Bubbles => 11,
            GlassMaterialVariant::Identity => 12,
            GlassMaterialVariant::FocusBorder => 13,
            GlassMaterialVariant::FocusPlatter => 14,
            GlassMaterialVariant::Keyboard => 15,
            GlassMaterialVariant::Sidebar => 16,
            GlassMaterialVariant::AbuttedSidebar => 17,
            GlassMaterialVariant::Inspector => 18,
            GlassMaterialVariant::Control => 19,
            GlassMaterialVariant::Loupe => 20,
            GlassMaterialVariant::Slider => 21,
            GlassMaterialVariant::Camera => 22,
            GlassMaterialVariant::CartouchePopover => 23,
        }
    }
}

impl Default for GlassMaterialVariant {
    fn default() -> (v: Self)
        ensures
            v == GlassMaterialVariant::Regular,
    {
        GlassMaterialVariant::Regular
    }
}

/// Full configuration for the window-scoped effect.
///
/// `enabled == false` asks for the effect to be removed. The corner radius is
/// carried in whole pixels. A tint color is given as a hex string
/// (`#RRGGBB` or `#RRGGBBAA`); an absent or unparseable string clears the
/// tint.
#[derive(Clone, Debug)]
pub struct LiquidGlassConfig {
    pub enabled: bool,
    pub corner_radius: u64,
    pub tint_color: Option<String>,
    pub variant: GlassMaterialVariant,
    pub opaque: bool,
}

impl Default for LiquidGlassConfig {
    fn default() -> (c: Self)
        ensures
            c.enabled == true,
            c.corner_radius == 0,
            c.tint_color is None,
            c.variant == GlassMaterialVariant::Regular,
            c.opaque == false,
    {
        LiquidGlassConfig {
            enabled: true,
            corner_radius: 0,
            tint_color: None,
            variant: GlassMaterialVariant::Regular,
            opaque: false,
        }
    }
}

/// Options for a single effect view addressed by a generated id.
#[derive(Clone, Debug)]
pub struct GlassOptions {
    pub corner_radius: u64,
    pub tint_color: Option<String>,
    pub opaque: bool,
}

impl Default for GlassOptions {
    fn default() -> (o: Self)
        ensures
            o.corner_radius == 0,
            o.tint_color is None,
            o.opaque == false,
    {
        GlassOptions { corner_radius: 0, tint_color: None, opaque: false }
    }
}

/// Whether a setter for a dynamically probed property is present, for the
/// private-style and the public-style selector name.
#[derive(Clone, Copy, Debug, PartialEq, Eq, Structural)]
pub struct SetterProbe {
    pub private_setter: bool,
    pub public_setter: bool,
}

/// What the running platform offers, probed once by the host layer.
///
/// `has_native_toolkit` is false on platforms without any native effect
/// support; every operation then degrades to a no-op.
/// `advanced_class_available` reports whether the advanced effect view class
/// exists; `os_version_ok` whether the minimum OS version for it holds.
#[derive(Clone, Copy, Debug, PartialEq, Eq, Structural)]
pub struct PlatformCaps {
    pub has_native_toolkit: bool,
    pub os_version_ok: bool,
    pub advanced_class_available: bool,
    pub variant_setter: SetterProbe,
    pub scrim_setter: SetterProbe,
    pub subdued_setter: SetterProbe,
}

/// What the host layer learned about a window before an effect is created.
///
/// `has_content_view` reports whether the window exposes a root content view;
/// the two other fields only drive non-fatal warnings.
#[derive(Clone, Copy, Debug, PartialEq, Eq, Structural)]
pub struct WindowProbe {
    pub has_content_view: bool,
    pub is_opaque: bool,
    pub webview_draws_background: bool,
}

} // verus!
