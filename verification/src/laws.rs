//! Laws of the lifecycle manager, stated over the operation transitions
//! and proved once and for all.

use vstd::prelude::*;

use crate::handles::remove_id_post;
use crate::manager::{entry_handles, lemma_owned_live, EffectManager};
use crate::models::{LiquidGlassConfig, PlatformCaps, WindowProbe};
use crate::operations::{create_effect_post, remove_effect_post, update_effect_post};

verus! {

/// Removing a window's effect when it has none changes nothing at all.
pub proof fn lemma_remove_absent_no_effect(m0: EffectManager, m1: EffectManager, label: Seq<char>)
    requires
        !m0.reg_view().contains_key(label),
        remove_effect_post(m0, m1, label),
    ensures
        EffectManager::unchanged(m0, m1),
{
}

/// Removing a window's effect twice in a row is the same as removing it
/// once: the second removal finds no entry and changes nothing.
pub proof fn lemma_remove_idempotent(
    m0: EffectManager,
    m1: EffectManager,
    m2: EffectManager,
    label: Seq<char>,
)
    requires
        remove_effect_post(m0, m1, label),
        remove_effect_post(m1, m2, label),
    ensures
        EffectManager::unchanged(m1, m2),
{
    if m0.reg_view().contains_key(label) {
        assert(!m1.reg_view().contains_key(label));
    }
}

/// Removing an id-scoped effect when its id has no entry changes nothing.
pub proof fn lemma_remove_id_absent_no_effect(
    m0: EffectManager,
    m1: EffectManager,
    caps: PlatformCaps,
    id: i32,
)
    requires
        !m0.has_id(id),
        remove_id_post(m0, m1, caps, id),
    ensures
        EffectManager::unchanged(m0, m1),
{
}

/// Removing an id-scoped effect twice in a row is the same as removing it
/// once.
pub proof fn lemma_remove_id_idempotent(
    m0: EffectManager,
    m1: EffectManager,
    m2: EffectManager,
    caps: PlatformCaps,
    id: i32,
)
    requires
        m0.wf(),
        remove_id_post(m0, m1, caps, id),
        remove_id_post(m1, m2, caps, id),
    ensures
        EffectManager::unchanged(m1, m2),
{
    if caps.has_native_toolkit && m0.has_id(id) {
        let k = m0.id_index(id)->0;
        assert(m0.ids_view()[k].0 == id);
        assert(!m1.has_id(id)) by {
            if m1.has_id(id) {
                let j = choose|j: int|
                    0 <= j < m1.ids_view().len() && #[trigger] m1.ids_view()[j].0 == id;
                let j0: int = if j < k {
                    j
                } else {
                    j + 1
                };
                assert(m0.ids_view()[j0].0 == id);
                if j0 < k {
                    assert(m0.ids_view()[j0].0 != m0.ids_view()[k].0);
                } else {
                    assert(m0.ids_view()[k].0 != m0.ids_view()[j0].0);
                }
            }
        }
    }
}

/// Enabling an effect on a key and then enabling again with another
/// configuration leaves exactly one registry entry for that key — the
/// second call updates the entry created by the first, it does not create
/// a second effect view for the key.
pub proof fn lemma_enable_twice_single_entry(
    m0: EffectManager,
    m1: EffectManager,
    m2: EffectManager,
    caps: PlatformCaps,
    label: Seq<char>,
    window: Option<WindowProbe>,
    c1: LiquidGlassConfig,
    c2: LiquidGlassConfig,
    r1: crate::error::Result<()>,
    r2: crate::error::Result<()>,
)
    requires
        !m0.reg_view().contains_key(label),
        create_effect_post(m0, m1, caps, label, window, c1, r1),
        r1 is Ok,
        update_effect_post(m1, m2, caps, label, c2, r2),
    ensures
        r2 is Ok,
        m2.reg_view().dom() =~= m0.reg_view().dom().insert(label),
        m2.reg_view()[label].glass_view == m1.reg_view()[label].glass_view,
{
    assert(m1.reg_view().contains_key(label));
    assert(m2.reg_view().dom() =~= m0.reg_view().dom().insert(label));
}

/// Disabling a key and then enabling it again creates a fresh entry whose
/// effect view handle differs from the removed one: a removed handle is
/// never reused.
pub proof fn lemma_reenable_fresh_handle(
    m0: EffectManager,
    m1: EffectManager,
    m2: EffectManager,
    caps: PlatformCaps,
    label: Seq<char>,
    window: Option<WindowProbe>,
    config: LiquidGlassConfig,
    r2: crate::error::Result<()>,
)
    requires
        m0.wf(),
        m0.reg_view().contains_key(label),
        remove_effect_post(m0, m1, label),
        create_effect_post(m1, m2, caps, label, window, config, r2),
        r2 is Ok,
    ensures
        m2.reg_view()[label].glass_view != m0.reg_view()[label].glass_view,
{
    let e0 = m0.reg_view()[label];
    assert(entry_handles(e0).contains(e0.glass_view));
    assert(crate::manager::owned_any(m0, e0.glass_view));
    lemma_owned_live(m0, e0.glass_view);
    assert(m1.next_handle() == m0.next_handle());
    assert(m2.reg_view()[label].glass_view.raw_id() == m1.next_handle());
}

/// Whenever a window's registered effect has a tint overlay, the overlay's
/// corner radius equals the effect view's most recently set corner radius.
pub proof fn lemma_overlay_mirrors_radius(m: EffectManager, label: Seq<char>)
    requires
        m.wf(),
        m.reg_view().contains_key(label),
        m.reg_view()[label].tint_overlay is Some,
    ensures
        ({
            let e = m.reg_view()[label];
            &&& m.views().contains_key(e.tint_overlay->0)
            &&& m.views().contains_key(e.glass_view)
            &&& m.views()[e.tint_overlay->0].radius == m.views()[e.glass_view].radius
        }),
{
    assert(crate::manager::entry_ok(m.reg_view()[label], m.views()));
}

/// The same mirroring holds for every id-scoped entry.
pub proof fn lemma_id_overlay_mirrors_radius(m: EffectManager, k: int)
    requires
        m.wf(),
        0 <= k < m.ids_view().len(),
        m.ids_view()[k].1.tint_overlay is Some,
    ensures
        ({
            let e = m.ids_view()[k].1;
            &&& m.views().contains_key(e.tint_overlay->0)
            &&& m.views().contains_key(e.glass)
            &&& m.views()[e.tint_overlay->0].radius == m.views()[e.glass].radius
        }),
{
    assert(crate::manager::id_entry_ok(m.ids_view()[k].1, m.views()));
}

} // verus!
