//! The two native effect implementations, as a strategy chosen per call.
//!
//! The advanced implementation creates the advanced effect view and sets
//! tint and variant natively; the fallback creates the older translucency
//! view, emulates the tint with a painted overlay sub-view, and ignores the
//! variant. Both are expressed as decisions over the [`ViewStore`] model;
//! the resulting native calls stand in its command log.

use vstd::prelude::*;

use crate::color::RgbaColor;
use crate::error::{Error, Result};
use crate::models::{PlatformCaps, SetterProbe};
use crate::registry::ViewHandle;
use crate::store::{with_property, NativeCommand, SetterStyle, ViewProperty, ViewState, ViewStore};

verus! {

/// Which native implementation carries out an operation.
#[derive(Clone, Copy, Debug, PartialEq, Eq, Structural)]
pub enum GlassBackend {
    /// The advanced effect view, with native tint and variant support.
    Advanced,
    /// The older translucency view; tint is emulated, variant ignored.
    Fallback,
}

/// Selection rule: advanced exactly when the advanced class is available.
pub open spec fn backend_of(caps: PlatformCaps) -> GlassBackend {
    if caps.advanced_class_available {
        GlassBackend::Advanced
    } else {
        GlassBackend::Fallback
    }
}

/// Pick the implementation for the running platform; the choice is made per
/// call, never cached per entry.
pub fn get_backend(caps: &PlatformCaps) -> (b: GlassBackend)
    ensures
        b == backend_of(*caps),
{
    if caps.advanced_class_available {
        GlassBackend::Advanced
    } else {
        GlassBackend::Fallback
    }
}

/// Which selector style an ordered probe settles on: the private-style name
/// first, then the public-style name, else nothing.
pub open spec fn chosen_style(probe: SetterProbe) -> Option<SetterStyle> {
    if probe.private_setter {
        Some(SetterStyle::Private)
    } else if probe.public_setter {
        Some(SetterStyle::Public)
    } else {
        None
    }
}

/// Send an integer to one candidate setter if the view responds to it.
///
/// Reports whether the value was sent, so a caller can stop at the first
/// candidate that responded.
pub(crate) fn try_send_i64(
    store: &mut ViewStore,
    responds: bool,
    view: ViewHandle,
    property: ViewProperty,
    style: SetterStyle,
    value: i64,
) -> (sent: bool)
    requires
        old(store).wf(),
        old(store).live(view),
    ensures
        final(store).wf(),
        final(store).next() == old(store).next(),
        sent == responds,
        responds ==> final(store).views() == old(store).views().insert(
            view,
            with_property(old(store).views()[view], property, value),
        ) && final(store).log() == old(store).log().push(
            (NativeCommand::SetViewProperty { view, property, style, value }),
        ),
        !responds ==> final(store).views() == old(store).views() && final(store).log() == old(
            store,
        ).log(),
    decreases 0int,
{
    if responds {
        store.set_property(view, property, style, value);
        true
    } else {
        false
    }
}

/// Set a cosmetic property through an ordered list of candidate setters:
/// the private-style name is tried first, then the public-style one; when
/// neither is supported the call is a silent no-op, never an error.
pub(crate) fn set_view_property(
    store: &mut ViewStore,
    probe: SetterProbe,
    view: ViewHandle,
    property: ViewProperty,
    value: i64,
)
    requires
        old(store).wf(),
        old(store).live(view),
    ensures
        final(store).wf(),
        final(store).next() == old(store).next(),
        match chosen_style(probe) {
            Some(style) => final(store).views() == old(store).views().insert(
                view,
                with_property(old(store).views()[view], property, value),
            ) && final(store).log() == old(store).log().push(
                (NativeCommand::SetViewProperty { view, property, style, value }),
            ),
            None => final(store).views() == old(store).views() && final(store).log() == old(
                store,
            ).log(),
        },
{
    if try_send_i64(store, probe.private_setter, view, property, SetterStyle::Private, value) {
        return ;
    }
    let _ = try_send_i64(store, probe.public_setter, view, property, SetterStyle::Public, value);
}

/// Create the effect view for the selected implementation.
///
/// The advanced implementation needs its class: when the class is not
/// available the creation fails with `ViewCreationFailed` and nothing
/// changes. The fallback always succeeds.
pub fn create_view(
    backend: GlassBackend,
    store: &mut ViewStore,
    caps: &PlatformCaps,
) -> (r: Result<ViewHandle>)
    requires
        old(store).wf(),
        old(store).can_alloc(1),
    ensures
        final(store).wf(),
        match r {
            Ok(h) => {
                &&& h.raw_id() == old(store).next()
                &&& !old(store).views().contains_key(h)
                &&& final(store).next() == old(store).next() + 1
                &&& final(store).views() == old(store).views().insert(
                    h,
                    (ViewState {
                        kind: if backend is Advanced {
                            crate::store::ViewKind::Advanced
                        } else {
                            crate::store::ViewKind::Fallback
                        },
                        radius: 0,
                        tint: None,
                        fill: None,
                        variant: None,
                        scrim: None,
                        subdued: None,
                        parent: None,
                        attached: false,
                    }),
                )
                &&& final(store).log() == old(store).log().push(
                    (NativeCommand::CreateView { view: h, advanced: backend is Advanced }),
                )
            },
            Err(e) => {
                &&& e is ViewCreationFailed
                &&& backend is Advanced
                &&& !caps.advanced_class_available
                &&& final(store).next() == old(store).next()
                &&& final(store).views() == old(store).views()
                &&& final(store).log() == old(store).log()
            },
        },
        backend is Fallback ==> r is Ok,
        backend is Advanced && caps.advanced_class_available ==> r is Ok,
{
    match backend {
        GlassBackend::Advanced => {
            if !caps.advanced_class_available {
                return Err(Error::ViewCreationFailed);
            }
            Ok(store.create_effect_view(true))
        },
        GlassBackend::Fallback => Ok(store.create_effect_view(false)),
    }
}

/// Apply a tint color to an effect view.
///
/// The advanced implementation sets the tint natively and returns no
/// overlay. The fallback paints a borderless overlay sub-view — reusing
/// `existing_overlay` when one is given, creating a fresh one otherwise —
/// and mirrors the effect view's corner radius onto it.
pub fn apply_tint(
    backend: GlassBackend,
    store: &mut ViewStore,
    view: ViewHandle,
    color: RgbaColor,
    existing_overlay: Option<ViewHandle>,
) -> (overlay: Option<ViewHandle>)
    requires
        old(store).wf(),
        old(store).live(view),
        old(store).can_alloc(1),
        existing_overlay matches Some(o) ==> old(store).live(o) && o != view,
    ensures
        final(store).wf(),
        backend is Advanced ==> {
            &&& overlay is None
            &&& final(store).next() == old(store).next()
            &&& final(store).views() == old(store).views().insert(
                view,
                (ViewState { tint: Some(color), ..old(store).views()[view] }),
            )
            &&& final(store).log() == old(store).log().push(
                (NativeCommand::SetNativeTint { view, color }),
            )
        },
        backend is Fallback ==> {
            &&& overlay matches Some(o)
            &&& {
                let o = overlay->0;
                let radius = old(store).views()[view].radius;
                &&& o != view
                &&& final(store).live(view)
                &&& final(store).views()[view] == old(store).views()[view]
                &&& final(store).views()[o].fill == Some(color)
                &&& final(store).views()[o].radius == radius
                &&& match existing_overlay {
                    Some(e) => {
                        &&& o == e
                        &&& final(store).next() == old(store).next()
                        &&& final(store).views() == old(store).views().insert(
                            o,
                            (ViewState {
                                fill: Some(color),
                                radius,
                                ..old(store).views()[e]
                            }),
                        )
                        &&& final(store).log() == old(store).log().push(
                            (NativeCommand::PaintOverlay { overlay: o, color }),
                        ).push((NativeCommand::SetCornerRadius { view: o, radius }))
                    },
                    None => {
                        &&& o.raw_id() == old(store).next()
                        &&& !old(store).views().contains_key(o)
                        &&& final(store).next() == old(store).next() + 1
                        &&& final(store).views() == old(store).views().insert(
                            o,
                            (ViewState {
                                kind: crate::store::ViewKind::Overlay,
                                radius,
                                tint: None,
                                fill: Some(color),
                                variant: None,
                                scrim: None,
                                subdued: None,
                                parent: Some(view),
                                attached: true,
                            }),
                        )
                        &&& final(store).log() == old(store).log().push(
                            (NativeCommand::CreateOverlay { overlay: o, parent: view }),
                        ).push((NativeCommand::PaintOverlay { overlay: o, color })).push(
                            (NativeCommand::SetCornerRadius { view: o, radius }),
                        )
                    },
                }
            }
        },
{
    match backend {
        GlassBackend::Advanced => {
            store.set_native_tint(view, color);
            None
        },
        GlassBackend::Fallback => {
            let ghost s0 = *store;
            let o = match existing_overlay {
                Some(o) => o,
                None => store.create_overlay(view),
            };
            store.paint_fill(o, color);
            let parent_state = store.get_state(view);
            match parent_state {
                Some(ps) => {
                    store.set_radius(o, ps.radius);
                    proof {
                        let radius = s0.views()[view].radius;
                        match existing_overlay {
                            Some(e) => {
                                assert(store.views() =~= s0.views().insert(
                                    o,
                                    (ViewState {
                                        fill: Some(color),
                                        radius,
                                        ..s0.views()[e]
                                    }),
                                ));
                            },
                            None => {
                                assert(store.views() =~= s0.views().insert(
                                    o,
                                    (ViewState {
                                        kind: crate::store::ViewKind::Overlay,
                                        radius,
                                        tint: None,
                                        fill: Some(color),
                                        variant: None,
                                        scrim: None,
                                        subdued: None,
                                        parent: Some(view),
                                        attached: true,
                                    }),
                                ));
                            },
                        }
                    }
                },
                None => {
                    proof {
                        assert(false);
                    }
                },
            }
            Some(o)
        },
    }
}

/// Clear the tint of an effect view.
///
/// The advanced implementation clears the native tint (an overlay handed in
/// is left alone). The fallback detaches and discards the overlay sub-view
/// if one exists; without one there is nothing to do.
pub fn clear_tint(
    backend: GlassBackend,
    store: &mut ViewStore,
    view: ViewHandle,
    existing_overlay: Option<ViewHandle>,
)
    requires
        old(store).wf(),
        old(store).live(view),
        existing_overlay matches Some(o) ==> old(store).live(o) && o != view,
    ensures
        final(store).wf(),
        final(store).next() == old(store).next(),
        backend is Advanced ==> final(store).views() == old(store).views().insert(
            view,
            (ViewState { tint: None, ..old(store).views()[view] }),
        ) && final(store).log() == old(store).log().push((NativeCommand::ClearNativeTint { view })),
        backend is Fallback ==> match existing_overlay {
            Some(o) => final(store).views() == old(store).views().remove(o) && final(store).log()
                == old(store).log().push((NativeCommand::RemoveFromSuperview { view: o })),
            None => final(store).views() == old(store).views() && final(store).log() == old(
                store,
            ).log(),
        },
        backend is Fallback ==> final(store).live(view) && final(store).views()[view] == old(
            store,
        ).views()[view],
{
    match backend {
        GlassBackend::Advanced => {
            store.clear_native_tint(view);
        },
        GlassBackend::Fallback => {
            if let Some(o) = existing_overlay {
                store.remove_view(o);
            }
        },
    }
}

/// Set the cosmetic material variant.
///
/// The advanced implementation goes through the ordered setter probe; when
/// no candidate setter is supported this is a silent no-op. The fallback
/// ignores variants entirely.
pub fn set_variant(
    backend: GlassBackend,
    store: &mut ViewStore,
    caps: &PlatformCaps,
    view: ViewHandle,
    code: i64,
)
    requires
        old(store).wf(),
        old(store).live(view),
    ensures
        final(store).wf(),
        final(store).next() == old(store).next(),
        backend is Advanced ==> match chosen_style(caps.variant_setter) {
            Some(style) => final(store).views() == old(store).views().insert(
                view,
                with_property(old(store).views()[view], ViewProperty::Variant, code),
            ) && final(store).log() == old(store).log().push(
                (NativeCommand::SetViewProperty {
                    view,
                    property: ViewProperty::Variant,
                    style,
                    value: code,
                }),
            ),
            None => final(store).views() == old(store).views() && final(store).log() == old(
                store,
            ).log(),
        },
        backend is Fallback ==> final(store).views() == old(store).views() && final(store).log()
            == old(store).log(),
{
    match backend {
        GlassBackend::Advanced => {
            set_view_property(store, caps.variant_setter, view, ViewProperty::Variant, code);
        },
        GlassBackend::Fallback => {},
    }
}

} // verus!
