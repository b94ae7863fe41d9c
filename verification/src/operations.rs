//! Window-scoped effect operations: create, update, remove.
//!
//! One effect per window, addressed by the window's label. `enabled` in the
//! configuration decides between create-or-update and remove; removal of an
//! absent effect succeeds silently.

use vstd::prelude::*;

use crate::backend::{
    apply_tint, backend_of, chosen_style, clear_tint, create_view, get_backend, set_variant,
    GlassBackend,
};
use crate::color::{color_from_hex, spec_color_from_hex, RgbaColor};
use crate::error::{Error, Result};
use crate::manager::{
    entry_handles, entry_ok, lemma_fresh_not_owned, lemma_label_handles_not_outside,
    lemma_wf_reg_remove, lemma_wf_reg_update, EffectManager,
};
use crate::models::{variant_code, LiquidGlassConfig, PlatformCaps, WindowProbe};
use crate::registry::{GlassViewEntry, ViewHandle};
use crate::store::{NativeCommand, ViewKind, ViewProperty, ViewState, ViewStore, WarningKind};

verus! {

/// The tint a configuration asks for: a parseable hex string gives its
/// color; an absent or unparseable string means "no tint".
pub open spec fn effective_tint(config: LiquidGlassConfig) -> Option<RgbaColor> {
    match config.tint_color {
        Some(s) => spec_color_from_hex(s@),
        None => None,
    }
}

/// The native calls that applying (or clearing) a tint performs.
pub open spec fn tint_cmds(
    backend: GlassBackend,
    glass: ViewHandle,
    eff: Option<RgbaColor>,
    existing: Option<ViewHandle>,
    out: Option<ViewHandle>,
    radius: u64,
) -> Seq<NativeCommand> {
    match eff {
        Some(c) => match backend {
            GlassBackend::Advanced => seq![(NativeCommand::SetNativeTint { view: glass, color: c })],
            GlassBackend::Fallback => match existing {
                Some(e) => seq![
                    (NativeCommand::PaintOverlay { overlay: e, color: c }),
                    (NativeCommand::SetCornerRadius { view: e, radius }),
                ],
                None => match out {
                    Some(h) => seq![
                        (NativeCommand::CreateOverlay { overlay: h, parent: glass }),
                        (NativeCommand::PaintOverlay { overlay: h, color: c }),
                        (NativeCommand::SetCornerRadius { view: h, radius }),
                    ],
                    None => Seq::empty(),
                },
            },
        },
        None => match backend {
            GlassBackend::Advanced => seq![(NativeCommand::ClearNativeTint { view: glass })],
            GlassBackend::Fallback => match existing {
                Some(e) => seq![(NativeCommand::RemoveFromSuperview { view: e })],
                None => Seq::empty(),
            },
        },
    }
}

/// The native calls that setting the variant performs.
pub open spec fn variant_cmds(caps: PlatformCaps, glass: ViewHandle, code: i64) -> Seq<
    NativeCommand,
> {
    if backend_of(caps) is Advanced {
        match chosen_style(caps.variant_setter) {
            Some(style) => seq![
                (NativeCommand::SetViewProperty {
                    view: glass,
                    property: ViewProperty::Variant,
                    style,
                    value: code,
                }),
            ],
            None => Seq::empty(),
        }
    } else {
        Seq::empty()
    }
}

/// The native calls that applying a full configuration performs: corner
/// radius first, then tint, then variant.
pub open spec fn config_cmds(
    caps: PlatformCaps,
    config: LiquidGlassConfig,
    glass: ViewHandle,
    existing: Option<ViewHandle>,
    out: Option<ViewHandle>,
) -> Seq<NativeCommand> {
    seq![(NativeCommand::SetCornerRadius { view: glass, radius: config.corner_radius })]
        + tint_cmds(
        backend_of(caps),
        glass,
        effective_tint(config),
        existing,
        out,
        config.corner_radius,
    ) + variant_cmds(caps, glass, variant_code(config.variant))
}

/// The warnings reported before a creation, in order.
pub open spec fn warn_cmds(probe: WindowProbe) -> Seq<NativeCommand> {
    (if probe.is_opaque {
        seq![(NativeCommand::Warn { kind: WarningKind::OpaqueWindow })]
    } else {
        Seq::empty()
    }) + (if probe.webview_draws_background {
        seq![(NativeCommand::Warn { kind: WarningKind::WebviewDrawsBackground })]
    } else {
        Seq::empty()
    })
}

/// An effect view's state after a configuration was applied to it.
pub open spec fn glass_after_config(
    s0: ViewState,
    caps: PlatformCaps,
    config: LiquidGlassConfig,
) -> ViewState {
    let advanced = backend_of(caps) is Advanced;
    ViewState {
        radius: config.corner_radius,
        tint: if advanced {
            effective_tint(config)
        } else {
            s0.tint
        },
        variant: if advanced && chosen_style(caps.variant_setter) is Some {
            Some(variant_code(config.variant))
        } else {
            s0.variant
        },
        ..s0
    }
}

/// The state of a freshly painted tint overlay.
pub open spec fn overlay_view_state(glass: ViewHandle, color: RgbaColor, radius: u64) -> ViewState {
    ViewState {
        kind: ViewKind::Overlay,
        radius,
        tint: None,
        fill: Some(color),
        variant: None,
        scrim: None,
        subdued: None,
        parent: Some(glass),
        attached: true,
    }
}

/// The state of an effect view created and configured in one go, after it
/// was attached.
pub open spec fn created_glass_state(caps: PlatformCaps, config: LiquidGlassConfig) -> ViewState {
    let advanced = backend_of(caps) is Advanced;
    ViewState {
        kind: if advanced {
            ViewKind::Advanced
        } else {
            ViewKind::Fallback
        },
        radius: config.corner_radius,
        tint: if advanced {
            effective_tint(config)
        } else {
            None
        },
        fill: None,
        variant: if advanced && chosen_style(caps.variant_setter) is Some {
            Some(variant_code(config.variant))
        } else {
            None
        },
        scrim: None,
        subdued: None,
        parent: None,
        attached: true,
    }
}

/// Exactly what applying a configuration does to the view model: the
/// radius, tint and variant of the effect view, the overlay created, reused
/// or discarded, and the commands appended.
pub open(crate) spec fn apply_config_post(
    pre: ViewStore,
    post: ViewStore,
    caps: PlatformCaps,
    config: LiquidGlassConfig,
    glass: ViewHandle,
    existing: Option<ViewHandle>,
    ov: Option<ViewHandle>,
) -> bool {
    let eff = effective_tint(config);
    let advanced = backend_of(caps) is Advanced;
    let base = pre.views().insert(glass, glass_after_config(pre.views()[glass], caps, config));
    &&& post.log() == pre.log() + config_cmds(caps, config, glass, existing, ov)
    &&& if advanced {
        &&& ov is None
        &&& post.views() == base
        &&& post.next() == pre.next()
    } else {
        match eff {
            Some(c) => match existing {
                Some(e) => {
                    &&& ov == Some(e)
                    &&& post.views() == base.insert(
                        e,
                        (ViewState {
                            fill: Some(c),
                            radius: config.corner_radius,
                            ..pre.views()[e]
                        }),
                    )
                    &&& post.next() == pre.next()
                },
                None => {
                    &&& ov matches Some(h)
                    &&& ov->0.raw_id() == pre.next()
                    &&& !pre.views().contains_key(ov->0)
                    &&& post.views() == base.insert(
                        ov->0,
                        overlay_view_state(glass, c, config.corner_radius),
                    )
                    &&& post.next() == pre.next() + 1
                },
            },
            None => {
                &&& ov is None
                &&& post.next() == pre.next()
                &&& match existing {
                    Some(e) => post.views() == base.remove(e),
                    None => post.views() == base,
                }
            },
        }
    }
}

/// Apply a full configuration to an existing effect view: re-set the corner
/// radius, apply or clear the tint (an unparseable tint string clears), and
/// forward the variant. Returns the overlay now backing the tint, if any.
pub(crate) fn apply_glass_config(
    store: &mut ViewStore,
    caps: &PlatformCaps,
    glass: ViewHandle,
    config: &LiquidGlassConfig,
    existing_tint: Option<ViewHandle>,
) -> (ov: Option<ViewHandle>)
    requires
        old(store).wf(),
        old(store).live(glass),
        old(store).can_alloc(1),
        existing_tint matches Some(e) ==> old(store).live(e) && e != glass,
    ensures
        final(store).wf(),
        apply_config_post(*old(store), *final(store), *caps, *config, glass, existing_tint, ov),
{
    let ghost s0 = *store;
    store.set_radius(glass, config.corner_radius);
    let ghost s1 = *store;
    let backend = get_backend(caps);
    let parsed: Option<RgbaColor> = match &config.tint_color {
        Some(hex) => color_from_hex(hex.as_str()),
        None => None,
    };
    let ov = match parsed {
        Some(color) => apply_tint(backend, store, glass, color, existing_tint),
        None => {
            clear_tint(backend, store, glass, existing_tint);
            None
        },
    };
    let ghost s2 = *store;
    set_variant(backend, store, caps, glass, config.variant.as_code());
    proof {
        let eff = effective_tint(*config);
        let base = s0.views().insert(
            glass,
            glass_after_config(s0.views()[glass], *caps, *config),
        );
        if backend is Advanced {
            assert(store.views() =~= base);
        } else {
            assert(store.views() == s2.views());
            match eff {
                Some(c) => match existing_tint {
                    Some(e) => {
                        assert(store.views() =~= base.insert(
                            e,
                            (ViewState {
                                fill: Some(c),
                                radius: config.corner_radius,
                                ..s0.views()[e]
                            }),
                        ));
                    },
                    None => {
                        let h = ov->0;
                        assert(store.views() =~= base.insert(
                            h,
                            overlay_view_state(glass, c, config.corner_radius),
                        ));
                    },
                },
                None => match existing_tint {
                    Some(e) => {
                        assert(store.views() =~= base.remove(e));
                    },
                    None => {
                        assert(store.views() =~= base);
                    },
                },
            }
        }
        assert(store.log() =~= s0.log() + config_cmds(
            *caps,
            *config,
            glass,
            existing_tint,
            ov,
        ));
    }
    ov
}

/// Exactly what removing a window's effect does: pop the entry and detach
/// its overlay, then its effect view; with no entry, nothing at all.
pub open(crate) spec fn remove_effect_post(
    pre: EffectManager,
    post: EffectManager,
    label: Seq<char>,
) -> bool {
    if pre.reg_view().contains_key(label) {
        let e = pre.reg_view()[label];
        &&& post.reg_view() == pre.reg_view().remove(label)
        &&& post.ids_view() == pre.ids_view()
        &&& post.next_id() == pre.next_id()
        &&& post.next_handle() == pre.next_handle()
        &&& match e.tint_overlay {
            Some(o) => post.views() == pre.views().remove(o).remove(e.glass_view) && post.log()
                == pre.log() + seq![
                (NativeCommand::RemoveFromSuperview { view: o }),
                (NativeCommand::RemoveFromSuperview { view: e.glass_view }),
            ],
            None => post.views() == pre.views().remove(e.glass_view) && post.log() == pre.log()
                + seq![(NativeCommand::RemoveFromSuperview { view: e.glass_view })],
        }
    } else {
        EffectManager::unchanged(pre, post)
    }
}

/// Exactly what updating a window's existing effect does, and that an
/// absent entry is `WindowNotFound`.
pub open(crate) spec fn update_effect_post(
    pre: EffectManager,
    post: EffectManager,
    caps: PlatformCaps,
    label: Seq<char>,
    config: LiquidGlassConfig,
    r: Result<()>,
) -> bool {
    if pre.reg_view().contains_key(label) {
        let e = pre.reg_view()[label];
        &&& r is Ok
        &&& post.ids_view() == pre.ids_view()
        &&& post.next_id() == pre.next_id()
        &&& post.reg_view().contains_key(label)
        &&& post.reg_view()[label].glass_view == e.glass_view
        &&& post.reg_view() == pre.reg_view().insert(label, post.reg_view()[label])
        &&& apply_config_post(
            pre.store,
            post.store,
            caps,
            config,
            e.glass_view,
            e.tint_overlay,
            post.reg_view()[label].tint_overlay,
        )
    } else {
        &&& r matches Err(er) && er matches Error::WindowNotFound(s) && s@ == label
        &&& EffectManager::unchanged(pre, post)
    }
}

/// Exactly what creating a window's effect does: resolve the window, warn
/// about opacity, create and configure the effect view, attach it behind
/// all content, and register the handles.
pub open(crate) spec fn create_effect_post(
    pre: EffectManager,
    post: EffectManager,
    caps: PlatformCaps,
    label: Seq<char>,
    window: Option<WindowProbe>,
    config: LiquidGlassConfig,
    r: Result<()>,
) -> bool {
    match window {
        None => {
            &&& r matches Err(er) && er matches Error::WindowNotFound(s) && s@ == label
            &&& EffectManager::unchanged(pre, post)
        },
        Some(probe) => {
            if !probe.has_content_view {
                &&& r matches Err(er) && er is ViewCreationFailed
                &&& EffectManager::unchanged(pre, post)
            } else {
                let advanced = backend_of(caps) is Advanced;
                &&& r is Ok
                &&& post.ids_view() == pre.ids_view()
                &&& post.next_id() == pre.next_id()
                &&& post.reg_view().contains_key(label)
                &&& post.reg_view() == pre.reg_view().insert(label, post.reg_view()[label])
                &&& {
                    let e = post.reg_view()[label];
                    let g = e.glass_view;
                    &&& g.raw_id() == pre.next_handle()
                    &&& !pre.views().contains_key(g)
                    &&& (e.tint_overlay is Some <==> (!advanced && effective_tint(config) is Some))
                    &&& post.log() == pre.log() + warn_cmds(probe) + seq![
                        (NativeCommand::CreateView { view: g, advanced }),
                    ] + config_cmds(caps, config, g, None, e.tint_overlay) + seq![
                        (NativeCommand::AttachBehindContent { view: g }),
                    ]
                    &&& match e.tint_overlay {
                        None => {
                            &&& post.views() == pre.views().insert(
                                g,
                                created_glass_state(caps, config),
                            )
                            &&& post.next_handle() == pre.next_handle() + 1
                        },
                        Some(o) => {
                            &&& o.raw_id() == pre.next_handle() + 1
                            &&& effective_tint(config) matches Some(c)
                            &&& post.views() == pre.views().insert(
                                g,
                                created_glass_state(caps, config),
                            ).insert(
                                o,
                                overlay_view_state(
                                    g,
                                    effective_tint(config)->0,
                                    config.corner_radius,
                                ),
                            )
                            &&& post.next_handle() == pre.next_handle() + 2
                        },
                    }
                }
            }
        },
    }
}

/// Whether the advanced effect view class is available on this platform.
pub fn is_glass_supported(caps: &PlatformCaps) -> (r: bool)
    ensures
        r == caps.advanced_class_available,
{
    caps.advanced_class_available
}

impl EffectManager {
    /// Create a window's effect: resolve the window (else `WindowNotFound`),
    /// check its root view (else `ViewCreationFailed`), warn about settings
    /// that would hide the effect, create the effect view with the selected
    /// implementation, apply the full configuration, insert the view behind
    /// all content, and register the handles.
    #[verifier::rlimit(80)]
    pub fn create_glass_effect(
        &mut self,
        caps: &PlatformCaps,
        label: &str,
        window: Option<WindowProbe>,
        config: &LiquidGlassConfig,
    ) -> (r: Result<()>)
        requires
            old(self).wf(),
            old(self).headroom(2),
        ensures
            final(self).wf(),
            create_effect_post(*old(self), *final(self), *caps, label@, window, *config, r),
    {
        let probe = match window {
            Some(p) => p,
            None => {
                return Err(Error::WindowNotFound(label.to_owned()));
            },
        };
        if !probe.has_content_view {
            return Err(Error::ViewCreationFailed);
        }
        let ghost l0 = self.store.log();
        if probe.is_opaque {
            self.store.warn(WarningKind::OpaqueWindow);
        }
        if probe.webview_draws_background {
            self.store.warn(WarningKind::WebviewDrawsBackground);
        }
        proof {
            assert(self.store.log() =~= l0 + warn_cmds(probe));
        }
        let backend = get_backend(caps);
        let glass = match create_view(backend, &mut self.store, caps) {
            Ok(g) => g,
            Err(e) => {
                proof {
                    assert(false);
                }
                return Err(e);
            },
        };
        let ghost s1 = self.store;
        let ov = apply_glass_config(&mut self.store, caps, glass, config, None);
        self.store.mark_attached(glass);
        let insert_result = self.registry.insert(label.to_owned(), glass, ov);
        proof {
            let pre = *old(self);
            let ne = GlassViewEntry { glass_view: glass, tint_overlay: ov };
            let touched: Set<ViewHandle> = match ov {
                Some(o) => set![glass, o],
                None => set![glass],
            };
            match ov {
                Some(o) => {
                    assert(self.store.views() =~= pre.views().insert(
                        glass,
                        created_glass_state(*caps, *config),
                    ).insert(
                        o,
                        overlay_view_state(glass, effective_tint(*config)->0, config.corner_radius),
                    ));
                },
                None => {
                    assert(self.store.views() =~= pre.views().insert(
                        glass,
                        created_glass_state(*caps, *config),
                    ));
                },
            }
            assert(self.store.log() =~= pre.log() + warn_cmds(probe) + seq![
                (NativeCommand::CreateView { view: glass, advanced: backend is Advanced }),
            ] + config_cmds(*caps, *config, glass, None, ov) + seq![
                (NativeCommand::AttachBehindContent { view: glass }),
            ]);
            assert(entry_ok(ne, self.store.views()));
            assert forall|h: ViewHandle| #[trigger] touched.contains(h) implies !crate::manager::owned_outside_label(
                pre,
                label@,
                h,
            ) by {
                lemma_fresh_not_owned(pre, h);
            }
            assert forall|h: ViewHandle| #[trigger] entry_handles(ne).contains(h) implies !crate::manager::owned_outside_label(
                pre,
                label@,
                h,
            ) by {
                lemma_fresh_not_owned(pre, h);
            }
            lemma_wf_reg_update(pre, *self, label@, ne, touched);
        }
        Ok(())
    }

    /// Update a window's existing effect in place: re-apply the corner
    /// radius and tint against the already-created view, clear the tint if
    /// the new configuration carries none, and write back the possibly
    /// changed overlay handle. An absent entry is `WindowNotFound`.
    pub fn update_glass_effect(
        &mut self,
        caps: &PlatformCaps,
        label: &str,
        config: &LiquidGlassConfig,
    ) -> (r: Result<()>)
        requires
            old(self).wf(),
            old(self).headroom(1),
        ensures
            final(self).wf(),
            update_effect_post(*old(self), *final(self), *caps, label@, *config, r),
    {
        let got = match self.registry.get(label) {
            Ok(g) => g,
            Err(_) => {
                proof {
                    assert(false);
                }
                return Err(Error::RegistryLockFailed);
            },
        };
        let (glass, existing) = match got {
            Some(pair) => pair,
            None => {
                return Err(Error::WindowNotFound(label.to_owned()));
            },
        };
        proof {
            let pre = *old(self);
            let e = pre.reg_view()[label@];
            assert(entry_ok(e, pre.views()));
            match existing {
                Some(o) => {
                    assert(pre.views()[o].kind is Overlay);
                    assert(o != glass);
                },
                None => {},
            }
        }
        let ov = apply_glass_config(&mut self.store, caps, glass, config, existing);
        let update_result = self.registry.update_tint(label, ov);
        proof {
            let pre = *old(self);
            let e = pre.reg_view()[label@];
            let ne = GlassViewEntry { glass_view: glass, tint_overlay: ov };
            assert(self.reg_view()[label@] == ne);
            assert(self.reg_view() =~= pre.reg_view().insert(label@, ne));
            let touched: Set<ViewHandle> = match (existing, ov) {
                (Some(o), Some(o2)) => set![glass, o, o2],
                (Some(o), None) => set![glass, o],
                (None, Some(o2)) => set![glass, o2],
                (None, None) => set![glass],
            };
            assert forall|h: ViewHandle| #[trigger] touched.contains(h) implies !crate::manager::owned_outside_label(
                pre,
                label@,
                h,
            ) by {
                if h == glass {
                    lemma_label_handles_not_outside(pre, label@, h);
                } else if existing matches Some(o) && h == o {
                    lemma_label_handles_not_outside(pre, label@, h);
                } else {
                    assert(h.raw_id() >= pre.next_handle());
                    lemma_fresh_not_owned(pre, h);
                }
            }
            assert(entry_ok(ne, self.store.views()));
            assert forall|h: ViewHandle| #[trigger] entry_handles(ne).contains(h) implies !crate::manager::owned_outside_label(
                pre,
                label@,
                h,
            ) by {
                assert(touched.contains(h));
            }
            lemma_wf_reg_update(pre, *self, label@, ne, touched);
        }
        Ok(())
    }

    /// Remove a window's effect: pop the registry entry and, if one was
    /// there, detach the overlay first and then the effect view. Absence of
    /// an entry is not an error — removing an already-removed effect
    /// succeeds and does nothing.
    pub fn remove_glass_effect(&mut self, label: &str) -> (r: Result<()>)
        requires
            old(self).wf(),
        ensures
            final(self).wf(),
            remove_effect_post(*old(self), *final(self), label@),
            r is Ok,
    {
        let popped = match self.registry.remove(label) {
            Ok(p) => p,
            Err(_) => {
                proof {
                    assert(false);
                }
                return Err(Error::RegistryLockFailed);
            },
        };
        match popped {
            Some((glass, tint)) => {
                proof {
                    let pre = *old(self);
                    let e = pre.reg_view()[label@];
                    assert(entry_ok(e, pre.views()));
                    match tint {
                        Some(o) => {
                            assert(pre.views()[o].kind is Overlay);
                            assert(o != glass);
                        },
                        None => {},
                    }
                }
                if let Some(t) = tint {
                    self.store.remove_view(t);
                }
                self.store.remove_view(glass);
                proof {
                    let pre = *old(self);
                    let e = pre.reg_view()[label@];
                    let touched: Set<ViewHandle> = entry_handles(e);
                    assert forall|h: ViewHandle| #[trigger] touched.contains(h) implies !crate::manager::owned_outside_label(
                        pre,
                        label@,
                        h,
                    ) by {
                        lemma_label_handles_not_outside(pre, label@, h);
                    }
                    match e.tint_overlay {
                        Some(o) => {
                            assert(touched.contains(o));
                            assert(touched.contains(glass));
                        },
                        None => {
                            assert(touched.contains(glass));
                        },
                    }
                    lemma_wf_reg_remove(pre, *self, label@, touched);
                    assert(self.store.log() =~= pre.log() + (match e.tint_overlay {
                        Some(o) => seq![
                            (NativeCommand::RemoveFromSuperview { view: o }),
                            (NativeCommand::RemoveFromSuperview { view: glass }),
                        ],
                        None => seq![(NativeCommand::RemoveFromSuperview { view: glass })],
                    }));
                }
                Ok(())
            },
            None => {
                proof {
                    assert(old(self).reg_view() =~= self.reg_view());
                }
                Ok(())
            },
        }
    }

    /// Set, update or remove a window's effect, according to `enabled` and
    /// the current registry state. On a platform without native effect
    /// support this is a no-op returning success. The window probe is only
    /// consulted when a new effect view has to be created.
    ///
    /// The registry check, the native-work decisions and the registry
    /// insert all happen under this one exclusive borrow, so two
    /// overlapping enables for the same key cannot both take the create
    /// path and orphan a view; a host that shares the manager across
    /// threads serializes whole operations with one lock around it.
    pub fn set_liquid_glass_effect(
        &mut self,
        caps: &PlatformCaps,
        label: &str,
        window: Option<WindowProbe>,
        config: &LiquidGlassConfig,
    ) -> (r: Result<()>)
        requires
            old(self).wf(),
            old(self).headroom(2),
        ensures
            final(self).wf(),
            !caps.has_native_toolkit ==> EffectManager::unchanged(*old(self), *final(self)) && r
                is Ok,
            caps.has_native_toolkit && config.enabled && !old(self).reg_view().contains_key(label@)
                ==> create_effect_post(
                *old(self),
                *final(self),
                *caps,
                label@,
                window,
                *config,
                r,
            ),
            caps.has_native_toolkit && config.enabled && old(self).reg_view().contains_key(label@)
                ==> update_effect_post(*old(self), *final(self), *caps, label@, *config, r),
            caps.has_native_toolkit && !config.enabled ==> remove_effect_post(
                *old(self),
                *final(self),
                label@,
            ) && r is Ok,
    {
        if !caps.has_native_toolkit {
            return Ok(());
        }
        if config.enabled {
            let existing = match self.registry.contains(label) {
                Ok(b) => b,
                Err(_) => {
                    proof {
                        assert(false);
                    }
                    return Err(Error::RegistryLockFailed);
                },
            };
            if existing {
                self.update_glass_effect(caps, label, config)
            } else {
                self.create_glass_effect(caps, label, window, config)
            }
        } else {
            self.remove_glass_effect(label)
        }
    }
}

} // verus!
