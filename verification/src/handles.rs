//! Id-scoped effect operations: several independent effect views per
//! window, each addressed by a generated integer id.
//!
//! `add_glass_effect` returns the generated id, or the `-1` sentinel on a
//! platform without native effect support; the other operations are no-ops
//! returning success on such a platform, and report `ViewNotFound` for an
//! id that was never added (or was removed).

use vstd::prelude::*;

use crate::backend::{
    apply_tint, backend_of, chosen_style, clear_tint, create_view, get_backend, set_view_property,
    GlassBackend,
};
use crate::color::{color_from_hex, spec_color_from_hex, RgbaColor};
use crate::error::{Error, Result};
use crate::manager::{
    id_entry_handles, id_entry_ok, lemma_fresh_not_owned, lemma_id_handles_not_outside,
    lemma_wf_id_push, lemma_wf_id_remove, lemma_wf_id_update, EffectManager, IdEntry,
};
use crate::models::{variant_code, GlassMaterialVariant, GlassOptions, PlatformCaps, WindowProbe};
use crate::operations::{overlay_view_state, tint_cmds, warn_cmds};
use crate::registry::ViewHandle;
use crate::store::{with_property, NativeCommand, ViewKind, ViewProperty, ViewState, WarningKind};

verus! {

/// Sentinel id returned by `add_glass_effect` where no native effect
/// support exists.
pub const UNSUPPORTED_ID: i32 = -1;

/// The tint an options value asks for.
pub open spec fn options_tint(options: GlassOptions) -> Option<RgbaColor> {
    match options.tint_color {
        Some(s) => spec_color_from_hex(s@),
        None => None,
    }
}

/// The state of an effect view created from `options`, after attachment.
pub open spec fn added_glass_state(caps: PlatformCaps, options: GlassOptions) -> ViewState {
    let advanced = backend_of(caps) is Advanced;
    ViewState {
        kind: if advanced {
            ViewKind::Advanced
        } else {
            ViewKind::Fallback
        },
        radius: options.corner_radius,
        tint: if advanced {
            options_tint(options)
        } else {
            None
        },
        fill: None,
        variant: None,
        scrim: None,
        subdued: None,
        parent: None,
        attached: true,
    }
}

/// The state of a freshly attached opaque backing panel.
pub open spec fn backing_view_state() -> ViewState {
    ViewState {
        kind: ViewKind::Backing,
        radius: 0,
        tint: None,
        fill: None,
        variant: None,
        scrim: None,
        subdued: None,
        parent: None,
        attached: true,
    }
}

/// Exactly what building one id-scoped effect view does to the view
/// model: warnings, creation, corner radius, tint, attachment, and the
/// optional backing panel.
pub open(crate) spec fn build_post(
    pre: crate::store::ViewStore,
    post: crate::store::ViewStore,
    caps: PlatformCaps,
    probe: WindowProbe,
    options: GlassOptions,
    g: ViewHandle,
    ov: Option<ViewHandle>,
    backing: Option<ViewHandle>,
) -> bool {
    let advanced = backend_of(caps) is Advanced;
    &&& g.raw_id() == pre.next()
    &&& !pre.views().contains_key(g)
    &&& (ov is Some <==> (!advanced && options_tint(options) is Some))
    &&& (backing is Some <==> options.opaque)
    &&& (ov matches Some(o) ==> o.raw_id() == pre.next() + 1 && !pre.views().contains_key(o))
    &&& match (ov, backing) {
        (Some(o), Some(b)) => post.views() == pre.views().insert(
            g,
            added_glass_state(caps, options),
        ).insert(
            o,
            overlay_view_state(g, options_tint(options)->0, options.corner_radius),
        ).insert(b, backing_view_state()) && post.next() == pre.next() + 3 && b.raw_id()
            == pre.next() + 2,
        (Some(o), None) => post.views() == pre.views().insert(
            g,
            added_glass_state(caps, options),
        ).insert(
            o,
            overlay_view_state(g, options_tint(options)->0, options.corner_radius),
        ) && post.next() == pre.next() + 2,
        (None, Some(b)) => post.views() == pre.views().insert(
            g,
            added_glass_state(caps, options),
        ).insert(b, backing_view_state()) && post.next() == pre.next() + 2 && b.raw_id()
            == pre.next() + 1,
        (None, None) => post.views() == pre.views().insert(g, added_glass_state(caps, options))
            && post.next() == pre.next() + 1,
    }
    &&& post.log() == pre.log() + warn_cmds(probe) + seq![
        (NativeCommand::CreateView { view: g, advanced }),
        (NativeCommand::SetCornerRadius { view: g, radius: options.corner_radius }),
    ] + tint_cmds(
        backend_of(caps),
        g,
        options_tint(options),
        None,
        ov,
        options.corner_radius,
    ) + seq![(NativeCommand::AttachBehindContent { view: g })] + (match backing {
        Some(b) => seq![
            (NativeCommand::CreateBackingView { view: b }),
            (NativeCommand::AttachBehindContent { view: b }),
        ],
        None => Seq::empty(),
    })
}

/// Build one id-scoped effect view: warn about settings that hide the
/// effect, create the view, set its radius, paint or skip the tint,
/// attach it behind the window's content, and add the opaque backing
/// panel when asked for.
#[verifier::rlimit(100)]
#[verifier::spinoff_prover]
fn build_glass_view(
    store: &mut crate::store::ViewStore,
    caps: &PlatformCaps,
    probe: WindowProbe,
    options: &GlassOptions,
) -> (r: (ViewHandle, Option<ViewHandle>, Option<ViewHandle>))
    requires
        old(store).wf(),
        old(store).can_alloc(3),
    ensures
        final(store).wf(),
        build_post(*old(store), *final(store), *caps, probe, *options, r.0, r.1, r.2),
{
    let ghost pre = *store;
    let ghost l0 = store.log();
    if probe.is_opaque {
        store.warn(WarningKind::OpaqueWindow);
    }
    if probe.webview_draws_background {
        store.warn(WarningKind::WebviewDrawsBackground);
    }
    proof {
        assert(store.log() =~= l0 + warn_cmds(probe));
    }
    let backend = get_backend(caps);
    let glass = match create_view(backend, store, caps) {
        Ok(g) => g,
        Err(_) => {
            proof {
                assert(false);
            }
            ViewHandle(0)
        },
    };
    store.set_radius(glass, options.corner_radius);
    let parsed: Option<RgbaColor> = match &options.tint_color {
        Some(hex) => color_from_hex(hex.as_str()),
        None => None,
    };
    let ov = match parsed {
        Some(color) => apply_tint(backend, store, glass, color, None),
        None => {
            clear_tint(backend, store, glass, None);
            None
        },
    };
    store.mark_attached(glass);
    let ghost mid_views = store.views();
    let ghost mid_log = store.log();
    proof {
        match ov {
            Some(o) => {
                assert(mid_views =~= pre.views().insert(
                    glass,
                    added_glass_state(*caps, *options),
                ).insert(
                    o,
                    overlay_view_state(glass, options_tint(*options)->0, options.corner_radius),
                ));
            },
            None => {
                assert(mid_views =~= pre.views().insert(
                    glass,
                    added_glass_state(*caps, *options),
                ));
            },
        }
        assert(mid_log =~= pre.log() + warn_cmds(probe) + seq![
            (NativeCommand::CreateView { view: glass, advanced: backend is Advanced }),
            (NativeCommand::SetCornerRadius { view: glass, radius: options.corner_radius }),
        ] + tint_cmds(
            backend_of(*caps),
            glass,
            options_tint(*options),
            None,
            ov,
            options.corner_radius,
        ) + seq![(NativeCommand::AttachBehindContent { view: glass })]);
    }
    let backing = if options.opaque {
        let b = store.create_backing_view();
        store.mark_attached(b);
        Some(b)
    } else {
        None
    };
    proof {
        match backing {
            Some(b) => {
                assert(store.views() =~= mid_views.insert(b, backing_view_state()));
            },
            None => {
                assert(store.views() == mid_views);
            },
        }
        assert(store.log() =~= mid_log + (match backing {
            Some(b) => seq![
                (NativeCommand::CreateBackingView { view: b }),
                (NativeCommand::AttachBehindContent { view: b }),
            ],
            None => Seq::empty(),
        }));
    }
    (glass, ov, backing)
}

/// Exactly what adding an id-scoped effect does.
pub open(crate) spec fn add_effect_post(
    pre: EffectManager,
    post: EffectManager,
    caps: PlatformCaps,
    label: Seq<char>,
    window: Option<WindowProbe>,
    options: GlassOptions,
    r: Result<i32>,
) -> bool {
    if !caps.has_native_toolkit {
        &&& r == Ok::<i32, Error>(UNSUPPORTED_ID)
        &&& EffectManager::unchanged(pre, post)
    } else {
        match window {
            None => {
                &&& r matches Err(er) && er matches Error::WindowNotFound(s) && s@ == label
                &&& EffectManager::unchanged(pre, post)
            },
            Some(probe) => {
                if !probe.has_content_view {
                    &&& r matches Err(er) && er is ViewCreationFailed
                    &&& EffectManager::unchanged(pre, post)
                } else {
                    &&& r == Ok::<i32, Error>(pre.next_id())
                    &&& post.next_id() == pre.next_id() + 1
                    &&& post.reg_view() == pre.reg_view()
                    &&& post.ids_view().len() == pre.ids_view().len() + 1
                    &&& post.ids_view() == pre.ids_view().push(
                        (pre.next_id(), post.ids_view().last().1),
                    )
                    &&& {
                        let e = post.ids_view().last().1;
                        build_post(
                            pre.store,
                            post.store,
                            caps,
                            probe,
                            options,
                            e.glass,
                            e.tint_overlay,
                            e.backing,
                        )
                    }
                }
            },
        }
    }
}

impl EffectManager {
    fn id_index_of(&self, id: i32) -> (r: Option<usize>)
        ensures
            match r {
                Some(i) => i < self.ids_view().len() && self.ids_view()[i as int].0 == id,
                None => forall|j: int|
                    0 <= j < self.ids_view().len() ==> #[trigger] self.ids_view()[j].0 != id,
            },
            r is Some <==> self.has_id(id),
    {
        let mut i: usize = 0;
        while i < self.ids.len()
            invariant
                i <= self.ids@.len(),
                forall|j: int| 0 <= j < i ==> #[trigger] self.ids@[j].0 != id,
            decreases self.ids@.len() - i,
        {
            if self.ids[i].0 == id {
                return Some(i);
            }
            i = i + 1;
        }
        None
    }
}

/// Add an independent effect view to a window and return its generated
/// id. On a platform without native effect support nothing happens and
/// the `-1` sentinel is returned instead of an id.
#[verifier::rlimit(100)]
#[verifier::spinoff_prover]
pub fn add_glass_effect(
    manager: &mut EffectManager,
    caps: &PlatformCaps,
    label: &str,
    window: Option<WindowProbe>,
    options: &GlassOptions,
) -> (r: Result<i32>)
    requires
        old(manager).wf(),
        old(manager).headroom(3),
        old(manager).next_id() < i32::MAX,
    ensures
        final(manager).wf(),
        add_effect_post(*old(manager), *final(manager), *caps, label@, window, *options, r),
{
    if !caps.has_native_toolkit {
        return Ok(UNSUPPORTED_ID);
    }
    let probe = match window {
        Some(p) => p,
        None => {
            return Err(Error::WindowNotFound(label.to_owned()));
        },
    };
    if !probe.has_content_view {
        return Err(Error::ViewCreationFailed);
    }
    let (glass, ov, backing) = build_glass_view(&mut manager.store, caps, probe, options);
    let id = manager.next_id;
    manager.next_id = manager.next_id + 1;
    let entry = IdEntry { glass, tint_overlay: ov, backing };
    manager.ids.push((id, entry));
    proof {
        let pre = *old(manager);
        let touched: Set<ViewHandle> = {
            let s = set![glass];
            let s = match ov {
                Some(o) => s.insert(o),
                None => s,
            };
            match backing {
                Some(b) => s.insert(b),
                None => s,
            }
        };
        assert(id_entry_ok(entry, manager.store.views()));
        assert forall|h: ViewHandle| #[trigger] touched.contains(h) implies !crate::manager::owned_any(
            pre,
            h,
        ) by {
            lemma_fresh_not_owned(pre, h);
        }
        assert forall|h: ViewHandle| #[trigger] id_entry_handles(entry).contains(h) implies !crate::manager::owned_any(
            pre,
            h,
        ) by {
            assert(touched.contains(h));
        }
        lemma_wf_id_push(pre, *manager, id, entry, touched);
        assert(manager.ids_view().last().1 == entry);
    }
    Ok(id)
}

/// Exactly what removing an id-scoped effect does: detach the overlay,
/// the effect view and the backing panel of the entry, and drop it; with
/// an unknown id, or without native effect support, nothing at all.
pub open(crate) spec fn remove_id_post(
    pre: EffectManager,
    post: EffectManager,
    caps: PlatformCaps,
    id: i32,
) -> bool {
    if !caps.has_native_toolkit || !pre.has_id(id) {
        EffectManager::unchanged(pre, post)
    } else {
        let k = pre.id_index(id)->0;
        let e = pre.ids_view()[k].1;
        &&& post.ids_view() == pre.ids_view().remove(k)
        &&& post.reg_view() == pre.reg_view()
        &&& post.next_id() == pre.next_id()
        &&& post.next_handle() == pre.next_handle()
        &&& !post.views().contains_key(e.glass)
        &&& post.log() == pre.log() + (match e.tint_overlay {
            Some(o) => seq![(NativeCommand::RemoveFromSuperview { view: o })],
            None => Seq::empty(),
        }) + seq![(NativeCommand::RemoveFromSuperview { view: e.glass })] + (match e.backing {
            Some(b) => seq![(NativeCommand::RemoveFromSuperview { view: b })],
            None => Seq::empty(),
        })
    }
}

/// Remove the effect view with the given id: detach its overlay, its
/// effect view and its backing panel, and drop its entry. An id with no
/// entry succeeds silently, so removal is idempotent. A no-op returning
/// success without native effect support.
pub fn remove_glass_effect(manager: &mut EffectManager, caps: &PlatformCaps, id: i32) -> (r: Result<()>)
    requires
        old(manager).wf(),
    ensures
        final(manager).wf(),
        r is Ok,
        remove_id_post(*old(manager), *final(manager), *caps, id),
{
    if !caps.has_native_toolkit {
        return Ok(());
    }
    let found = manager.id_index_of(id);
    let k = match found {
        Some(k) => k,
        None => {
            return Ok(());
        },
    };
    let entry = manager.ids[k].1;
    proof {
        let pre = *old(manager);
        assert(id_entry_ok(entry, pre.views()));
        assert(pre.id_index(id) == Some(k as int)) by {
            let c = pre.id_index(id)->0;
            assert(pre.ids_view()[c].0 == id);
            if c != k as int {
                if c < k as int {
                    assert(pre.ids_view()[c].0 != pre.ids_view()[k as int].0);
                } else {
                    assert(pre.ids_view()[k as int].0 != pre.ids_view()[c].0);
                }
            }
        }
        match entry.tint_overlay {
            Some(o) => {
                assert(pre.views()[o].kind is Overlay);
                assert(o != entry.glass);
            },
            None => {},
        }
        match entry.backing {
            Some(b) => {
                assert(pre.views()[b].kind is Backing);
                assert(b != entry.glass);
                match entry.tint_overlay {
                    Some(o) => {
                        assert(b != o);
                    },
                    None => {},
                }
            },
            None => {},
        }
    }
    if let Some(o) = entry.tint_overlay {
        manager.store.remove_view(o);
    }
    manager.store.remove_view(entry.glass);
    if let Some(b) = entry.backing {
        manager.store.remove_view(b);
    }
    let _ = manager.ids.remove(k);
    proof {
        let pre = *old(manager);
        let touched: Set<ViewHandle> = id_entry_handles(entry);
        assert forall|h: ViewHandle| #[trigger] touched.contains(h) implies !crate::manager::owned_outside_id(
            pre,
            k as int,
            h,
        ) by {
            lemma_id_handles_not_outside(pre, k as int, h);
        }
        assert(touched.contains(entry.glass));
        match entry.tint_overlay {
            Some(o) => {
                assert(touched.contains(o));
            },
            None => {},
        }
        match entry.backing {
            Some(b) => {
                assert(touched.contains(b));
            },
            None => {},
        }
        lemma_wf_id_remove(pre, *manager, k as int, touched);
        assert(manager.store.log() =~= pre.log() + (match entry.tint_overlay {
            Some(o) => seq![(NativeCommand::RemoveFromSuperview { view: o })],
            None => Seq::empty(),
        }) + seq![(NativeCommand::RemoveFromSuperview { view: entry.glass })] + (match entry
            .backing {
            Some(b) => seq![(NativeCommand::RemoveFromSuperview { view: b })],
            None => Seq::empty(),
        }));
    }
    Ok(())
}


/// The setter probe that belongs to each dynamically probed property.
pub open spec fn prop_probe(caps: PlatformCaps, property: ViewProperty) -> crate::models::SetterProbe {
    match property {
        ViewProperty::Variant => caps.variant_setter,
        ViewProperty::Scrim => caps.scrim_setter,
        ViewProperty::Subdued => caps.subdued_setter,
    }
}

/// Exactly what a best-effort probed-property operation does: nothing
/// without native support; `ViewNotFound` for an unknown id; otherwise the
/// advanced implementation tries the ordered setter candidates (a silent
/// no-op if none responds) and the fallback ignores the property.
pub open(crate) spec fn set_property_post(
    pre: EffectManager,
    post: EffectManager,
    caps: PlatformCaps,
    id: i32,
    property: ViewProperty,
    value: i64,
    r: Result<()>,
) -> bool {
    if !caps.has_native_toolkit {
        &&& r is Ok
        &&& EffectManager::unchanged(pre, post)
    } else if !pre.has_id(id) {
        &&& r == Err::<(), Error>(Error::ViewNotFound(id))
        &&& EffectManager::unchanged(pre, post)
    } else {
        let k = pre.id_index(id)->0;
        let g = pre.ids_view()[k].1.glass;
        &&& r is Ok
        &&& post.reg_view() == pre.reg_view()
        &&& post.ids_view() == pre.ids_view()
        &&& post.next_id() == pre.next_id()
        &&& post.next_handle() == pre.next_handle()
        &&& if backend_of(caps) is Advanced {
            match chosen_style(prop_probe(caps, property)) {
                Some(style) => post.views() == pre.views().insert(
                    g,
                    with_property(pre.views()[g], property, value),
                ) && post.log() == pre.log().push(
                    (NativeCommand::SetViewProperty { view: g, property, style, value }),
                ),
                None => post.views() == pre.views() && post.log() == pre.log(),
            }
        } else {
            post.views() == pre.views() && post.log() == pre.log()
        }
    }
}

fn set_id_property(
    manager: &mut EffectManager,
    caps: &PlatformCaps,
    id: i32,
    property: ViewProperty,
    value: i64,
) -> (r: Result<()>)
    requires
        old(manager).wf(),
    ensures
        final(manager).wf(),
        set_property_post(*old(manager), *final(manager), *caps, id, property, value, r),
{
    if !caps.has_native_toolkit {
        return Ok(());
    }
    let found = manager.id_index_of(id);
    let k = match found {
        Some(k) => k,
        None => {
            return Err(Error::ViewNotFound(id));
        },
    };
    let entry = manager.ids[k].1;
    proof {
        let pre = *old(manager);
        assert(id_entry_ok(entry, pre.views()));
        assert(pre.id_index(id) == Some(k as int)) by {
            let c = pre.id_index(id)->0;
            assert(pre.ids_view()[c].0 == id);
            if c != k as int {
                if c < k as int {
                    assert(pre.ids_view()[c].0 != pre.ids_view()[k as int].0);
                } else {
                    assert(pre.ids_view()[k as int].0 != pre.ids_view()[c].0);
                }
            }
        }
    }
    let backend = get_backend(caps);
    match backend {
        GlassBackend::Advanced => {
            let probe = match property {
                ViewProperty::Variant => caps.variant_setter,
                ViewProperty::Scrim => caps.scrim_setter,
                ViewProperty::Subdued => caps.subdued_setter,
            };
            set_view_property(&mut manager.store, probe, entry.glass, property, value);
        },
        GlassBackend::Fallback => {},
    }
    proof {
        let pre = *old(manager);
        let ne = entry;
        let touched: Set<ViewHandle> = set![entry.glass];
        assert(manager.ids_view() =~= pre.ids_view().update(
            k as int,
            (pre.ids_view()[k as int].0, ne),
        ));
        assert forall|h: ViewHandle| #[trigger] touched.contains(h) implies !crate::manager::owned_outside_id(
            pre,
            k as int,
            h,
        ) by {
            assert(id_entry_handles(entry).contains(h));
            lemma_id_handles_not_outside(pre, k as int, h);
        }
        assert(id_entry_ok(ne, manager.store.views()));
        assert forall|h: ViewHandle| #[trigger] id_entry_handles(ne).contains(h) implies !crate::manager::owned_outside_id(
            pre,
            k as int,
            h,
        ) by {
            lemma_id_handles_not_outside(pre, k as int, h);
        }
        lemma_wf_id_update(pre, *manager, k as int, ne, touched);
    }
    Ok(())
}

/// Set the cosmetic material variant of the effect view with the given id.
/// Best-effort: silently inert on the fallback implementation and where no
/// variant setter responds.
pub fn set_variant(
    manager: &mut EffectManager,
    caps: &PlatformCaps,
    id: i32,
    variant: GlassMaterialVariant,
) -> (r: Result<()>)
    requires
        old(manager).wf(),
    ensures
        final(manager).wf(),
        set_property_post(
            *old(manager),
            *final(manager),
            *caps,
            id,
            ViewProperty::Variant,
            variant_code(variant),
            r,
        ),
{
    set_id_property(manager, caps, id, ViewProperty::Variant, variant.as_code())
}

/// Enable or disable the scrim overlay of the effect view with the given
/// id; the same best-effort probing as for the variant.
pub fn set_scrim(manager: &mut EffectManager, caps: &PlatformCaps, id: i32, enabled: bool) -> (r:
    Result<()>)
    requires
        old(manager).wf(),
    ensures
        final(manager).wf(),
        set_property_post(
            *old(manager),
            *final(manager),
            *caps,
            id,
            ViewProperty::Scrim,
            if enabled {
                1int as i64
            } else {
                0int as i64
            },
            r,
        ),
{
    set_id_property(manager, caps, id, ViewProperty::Scrim, if enabled { 1 } else { 0 })
}

/// Enable or disable the subdued state of the effect view with the given
/// id; the same best-effort probing as for the variant.
pub fn set_subdued(manager: &mut EffectManager, caps: &PlatformCaps, id: i32, enabled: bool) -> (r:
    Result<()>)
    requires
        old(manager).wf(),
    ensures
        final(manager).wf(),
        set_property_post(
            *old(manager),
            *final(manager),
            *caps,
            id,
            ViewProperty::Subdued,
            if enabled {
                1int as i64
            } else {
                0int as i64
            },
            r,
        ),
{
    set_id_property(manager, caps, id, ViewProperty::Subdued, if enabled { 1 } else { 0 })
}


/// Exactly what a partial reconfiguration does. A provided corner radius
/// is applied to the effect view (and mirrored onto a kept overlay); a
/// provided tint string is applied as a tint, an unparseable one clears
/// the tint; an omitted field is left alone.
pub open(crate) spec fn configure_post(
    pre: EffectManager,
    post: EffectManager,
    caps: PlatformCaps,
    id: i32,
    corner_radius: Option<u64>,
    tint_color: Option<String>,
    r: Result<()>,
) -> bool {
    if !caps.has_native_toolkit {
        &&& r is Ok
        &&& EffectManager::unchanged(pre, post)
    } else if !pre.has_id(id) {
        &&& r == Err::<(), Error>(Error::ViewNotFound(id))
        &&& EffectManager::unchanged(pre, post)
    } else {
        let k = pre.id_index(id)->0;
        let e = pre.ids_view()[k].1;
        let g = e.glass;
        let gs1 = match corner_radius {
            Some(rd) => ViewState { radius: rd, ..pre.views()[g] },
            None => pre.views()[g],
        };
        let rad_eff = gs1.radius;
        let v1 = match corner_radius {
            Some(rd) => pre.views().insert(g, gs1),
            None => pre.views(),
        };
        let l1 = pre.log() + (match corner_radius {
            Some(rd) => seq![(NativeCommand::SetCornerRadius { view: g, radius: rd })],
            None => Seq::empty(),
        });
        let nov = post.ids_view()[k].1.tint_overlay;
        &&& r is Ok
        &&& post.reg_view() == pre.reg_view()
        &&& post.next_id() == pre.next_id()
        &&& post.ids_view() == pre.ids_view().update(k, (id, post.ids_view()[k].1))
        &&& post.ids_view()[k].1.glass == g
        &&& post.ids_view()[k].1.backing == e.backing
        &&& match tint_color {
            None => {
                &&& nov == e.tint_overlay
                &&& post.next_handle() == pre.next_handle()
                &&& match (corner_radius, e.tint_overlay) {
                    (Some(rd), Some(o)) => post.views() == v1.insert(
                        o,
                        (ViewState { radius: rd, ..pre.views()[o] }),
                    ) && post.log() == l1 + seq![
                        (NativeCommand::SetCornerRadius { view: o, radius: rd }),
                    ],
                    _ => post.views() == v1 && post.log() == l1,
                }
            },
            Some(s) => {
                let eff = spec_color_from_hex(s@);
                &&& post.log() == l1 + tint_cmds(
                    backend_of(caps),
                    g,
                    eff,
                    e.tint_overlay,
                    nov,
                    rad_eff,
                )
                &&& if backend_of(caps) is Advanced {
                    &&& nov is None
                    &&& post.next_handle() == pre.next_handle()
                    &&& post.views() == v1.insert(g, (ViewState { tint: eff, ..gs1 }))
                } else {
                    match eff {
                        Some(c) => match e.tint_overlay {
                            Some(o) => {
                                &&& nov == Some(o)
                                &&& post.next_handle() == pre.next_handle()
                                &&& post.views() == v1.insert(
                                    o,
                                    (ViewState {
                                        fill: Some(c),
                                        radius: rad_eff,
                                        ..pre.views()[o]
                                    }),
                                )
                            },
                            None => {
                                &&& nov matches Some(h)
                                &&& nov->0.raw_id() == pre.next_handle()
                                &&& post.next_handle() == pre.next_handle() + 1
                                &&& post.views() == v1.insert(
                                    nov->0,
                                    overlay_view_state(g, c, rad_eff),
                                )
                            },
                        },
                        None => {
                            &&& nov is None
                            &&& post.next_handle() == pre.next_handle()
                            &&& match e.tint_overlay {
                                Some(o) => post.views() == v1.remove(o),
                                None => post.views() == v1,
                            }
                        },
                    }
                }
            },
        }
    }
}

/// Reconfigure the effect view with the given id in place: apply the
/// provided corner radius and tint, leave omitted fields alone. An
/// unparseable tint string clears the tint. A no-op returning success
/// without native effect support; `ViewNotFound` for an unknown id.
#[verifier::rlimit(100)]
#[verifier::spinoff_prover]
pub fn configure_glass(
    manager: &mut EffectManager,
    caps: &PlatformCaps,
    id: i32,
    corner_radius: Option<u64>,
    tint_color: Option<String>,
) -> (r: Result<()>)
    requires
        old(manager).wf(),
        old(manager).headroom(1),
    ensures
        final(manager).wf(),
        configure_post(*old(manager), *final(manager), *caps, id, corner_radius, tint_color, r),
{
    if !caps.has_native_toolkit {
        return Ok(());
    }
    let found = manager.id_index_of(id);
    let k = match found {
        Some(k) => k,
        None => {
            return Err(Error::ViewNotFound(id));
        },
    };
    let entry = manager.ids[k].1;
    proof {
        let pre = *old(manager);
        assert(id_entry_ok(entry, pre.views()));
        assert(pre.id_index(id) == Some(k as int)) by {
            let c = pre.id_index(id)->0;
            assert(pre.ids_view()[c].0 == id);
            if c != k as int {
                if c < k as int {
                    assert(pre.ids_view()[c].0 != pre.ids_view()[k as int].0);
                } else {
                    assert(pre.ids_view()[k as int].0 != pre.ids_view()[c].0);
                }
            }
        }
        match entry.tint_overlay {
            Some(o) => {
                assert(pre.views()[o].kind is Overlay);
                assert(o != entry.glass);
            },
            None => {},
        }
    }
    if let Some(rd) = corner_radius {
        manager.store.set_radius(entry.glass, rd);
    }
    let nov = match &tint_color {
        None => {
            if let Some(rd) = corner_radius {
                if let Some(o) = entry.tint_overlay {
                    manager.store.set_radius(o, rd);
                }
            }
            entry.tint_overlay
        },
        Some(s) => {
            let backend = get_backend(caps);
            match color_from_hex(s.as_str()) {
                Some(c) => apply_tint(
                    backend,
                    &mut manager.store,
                    entry.glass,
                    c,
                    entry.tint_overlay,
                ),
                None => {
                    clear_tint(backend, &mut manager.store, entry.glass, entry.tint_overlay);
                    None
                },
            }
        },
    };
    let ne = IdEntry { glass: entry.glass, tint_overlay: nov, backing: entry.backing };
    manager.ids[k].1 = ne;
    proof {
        let pre = *old(manager);
        let touched: Set<ViewHandle> = {
            let s = set![entry.glass];
            let s = match entry.tint_overlay {
                Some(o) => s.insert(o),
                None => s,
            };
            match nov {
                Some(o2) => s.insert(o2),
                None => s,
            }
        };
        assert(manager.ids_view() =~= pre.ids_view().update(
            k as int,
            (pre.ids_view()[k as int].0, ne),
        ));
        assert forall|h: ViewHandle| #[trigger] touched.contains(h) implies !crate::manager::owned_outside_id(
            pre,
            k as int,
            h,
        ) by {
            if h == entry.glass || entry.tint_overlay == Some(h) {
                assert(id_entry_handles(entry).contains(h));
                lemma_id_handles_not_outside(pre, k as int, h);
            } else {
                assert(h.raw_id() >= pre.next_handle());
                lemma_fresh_not_owned(pre, h);
            }
        }
        assert(id_entry_ok(ne, manager.store.views()));
        assert forall|h: ViewHandle| #[trigger] id_entry_handles(ne).contains(h) implies !crate::manager::owned_outside_id(
            pre,
            k as int,
            h,
        ) by {
            if ne.backing == Some(h) {
                assert(id_entry_handles(entry).contains(h));
                lemma_id_handles_not_outside(pre, k as int, h);
            } else {
                assert(h == ne.glass || ne.tint_overlay == Some(h));
                assert(touched.contains(h));
            }
        }
        lemma_wf_id_update(pre, *manager, k as int, ne, touched);
        let g = entry.glass;
        let rad_eff: u64 = match corner_radius {
            Some(rd) => rd,
            None => pre.views()[g].radius,
        };
        let l1 = pre.log() + (match corner_radius {
            Some(rd) => seq![(NativeCommand::SetCornerRadius { view: g, radius: rd })],
            None => Seq::empty(),
        });
        match tint_color {
            None => {
                match (corner_radius, entry.tint_overlay) {
                    (Some(rd), Some(o)) => {
                        assert(manager.store.log() =~= l1 + seq![
                            (NativeCommand::SetCornerRadius { view: o, radius: rd }),
                        ]);
                    },
                    _ => {
                        assert(manager.store.log() =~= l1);
                    },
                }
            },
            Some(s) => {
                assert(manager.store.log() =~= l1 + tint_cmds(
                    backend_of(*caps),
                    g,
                    spec_color_from_hex(s@),
                    entry.tint_overlay,
                    nov,
                    rad_eff,
                ));
            },
        }
    }
    Ok(())
}

/// Whether this platform fully supports the advanced effect: the minimum
/// OS version and the advanced view class must both be present.
pub fn is_glass_supported(caps: &PlatformCaps) -> (r: bool)
    ensures
        r == (caps.os_version_ok && caps.advanced_class_available),
{
    caps.os_version_ok && caps.advanced_class_available
}

} // verus!
