//! The operations orchestrator: one value owning the registry, the model of
//! the native views, and the generated-id table.
//!
//! Two addressing schemes share the manager, as the command surface offers
//! both: a window label addresses the window's singleton effect, and a
//! generated integer id addresses one of possibly several independent effect
//! views. The well-formedness invariant ties every registered handle to a
//! live view of the right kind, keeps the handle sets of distinct entries
//! disjoint, and pins the overlay's corner radius to its effect view's —
//! the fallback tint emulation always mirrors the radius.

use vstd::prelude::*;

use crate::registry::{GlassViewEntry, GlassViewRegistry, ViewHandle};
use crate::store::{NativeCommand, ViewKind, ViewState, ViewStore};

verus! {

/// Entry for one effect view addressed by generated id.
#[derive(Clone, Copy, Debug)]
pub struct IdEntry {
    pub glass: ViewHandle,
    /// Overlay sub-view of the fallback tint emulation, if one exists.
    pub tint_overlay: Option<ViewHandle>,
    /// Opaque backing panel behind the effect, if one was asked for.
    pub backing: Option<ViewHandle>,
}

/// The handles a window-scoped entry owns.
pub open spec fn entry_handles(e: GlassViewEntry) -> Set<ViewHandle> {
    match e.tint_overlay {
        Some(o) => set![e.glass_view, o],
        None => set![e.glass_view],
    }
}

/// The handles an id-scoped entry owns.
pub open spec fn id_entry_handles(e: IdEntry) -> Set<ViewHandle> {
    let s = set![e.glass];
    let s = match e.tint_overlay {
        Some(o) => s.insert(o),
        None => s,
    };
    match e.backing {
        Some(b) => s.insert(b),
        None => s,
    }
}

/// A window-scoped entry is sound with respect to the view model: its
/// effect view is live and attached, and an overlay, when present, is a
/// live overlay sub-view of that effect view whose corner radius equals
/// the effect view's current radius.
pub open spec fn entry_ok(e: GlassViewEntry, views: Map<ViewHandle, ViewState>) -> bool {
    &&& views.contains_key(e.glass_view)
    &&& (views[e.glass_view].kind is Advanced || views[e.glass_view].kind is Fallback)
    &&& views[e.glass_view].attached
    &&& match e.tint_overlay {
        Some(o) => {
            &&& views.contains_key(o)
            &&& views[o].kind is Overlay
            &&& views[o].parent == Some(e.glass_view)
            &&& views[o].attached
            &&& views[o].radius == views[e.glass_view].radius
        },
        None => true,
    }
}

/// An id-scoped entry is sound in the same way; its backing panel, when
/// present, is a live attached backing view.
pub open spec fn id_entry_ok(e: IdEntry, views: Map<ViewHandle, ViewState>) -> bool {
    &&& views.contains_key(e.glass)
    &&& (views[e.glass].kind is Advanced || views[e.glass].kind is Fallback)
    &&& views[e.glass].attached
    &&& match e.tint_overlay {
        Some(o) => {
            &&& views.contains_key(o)
            &&& views[o].kind is Overlay
            &&& views[o].parent == Some(e.glass)
            &&& views[o].attached
            &&& views[o].radius == views[e.glass].radius
        },
        None => true,
    }
    &&& match e.backing {
        Some(b) => {
            &&& views.contains_key(b)
            &&& views[b].kind is Backing
            &&& views[b].attached
        },
        None => true,
    }
}

/// No generated id occurs twice in the id table.
pub open spec fn ids_unique(s: Seq<(i32, IdEntry)>) -> bool {
    forall|i: int, j: int| 0 <= i < j < s.len() ==> s[i].0 != s[j].0
}

/// Whether `h` is owned by any entry at all.
pub open(crate) spec fn owned_any(pre: EffectManager, h: ViewHandle) -> bool {
    ||| exists|l: Seq<char>|
        #![trigger pre.reg_view()[l]]
        pre.reg_view().contains_key(l) && entry_handles(pre.reg_view()[l]).contains(h)
    ||| exists|i: int|
        0 <= i < pre.ids_view().len() && id_entry_handles(#[trigger] pre.ids_view()[i].1).contains(
            h,
        )
}

/// Whether `h` is owned by a window-scoped entry other than `label`, or by
/// any id-scoped entry.
pub open(crate) spec fn owned_outside_label(pre: EffectManager, label: Seq<char>, h: ViewHandle) -> bool {
    ||| exists|l2: Seq<char>|
        #![trigger pre.reg_view()[l2]]
        l2 != label && pre.reg_view().contains_key(l2) && entry_handles(
            pre.reg_view()[l2],
        ).contains(h)
    ||| exists|i: int|
        0 <= i < pre.ids_view().len() && id_entry_handles(#[trigger] pre.ids_view()[i].1).contains(
            h,
        )
}

/// Whether `h` is owned by an id-scoped entry other than the one at index
/// `at`, or by any window-scoped entry.
pub open(crate) spec fn owned_outside_id(pre: EffectManager, at: int, h: ViewHandle) -> bool {
    ||| exists|l: Seq<char>|
        #![trigger pre.reg_view()[l]]
        pre.reg_view().contains_key(l) && entry_handles(pre.reg_view()[l]).contains(h)
    ||| exists|i: int|
        i != at && 0 <= i < pre.ids_view().len() && id_entry_handles(
            #[trigger] pre.ids_view()[i].1,
        ).contains(h)
}

/// The lifecycle manager: registry, id table, and the view model with its
/// pending command log.
pub struct EffectManager {
    pub(crate) registry: GlassViewRegistry,
    pub(crate) ids: Vec<(i32, IdEntry)>,
    pub(crate) next_id: i32,
    pub(crate) store: ViewStore,
}

impl EffectManager {
    /// The window-scoped entries, as label to entry.
    pub open(crate) spec fn reg_view(&self) -> Map<Seq<char>, GlassViewEntry> {
        self.registry@
    }

    /// The id-scoped entries, in insertion order.
    pub open(crate) spec fn ids_view(&self) -> Seq<(i32, IdEntry)> {
        self.ids@
    }

    /// The modeled native views.
    pub open(crate) spec fn views(&self) -> Map<ViewHandle, ViewState> {
        self.store.views()
    }

    /// The next handle token to be allocated.
    pub open(crate) spec fn next_handle(&self) -> usize {
        self.store.next()
    }

    /// The generated id the next added effect view will get.
    pub open(crate) spec fn next_id(&self) -> i32 {
        self.next_id
    }

    /// The pending command log.
    pub open(crate) spec fn log(&self) -> Seq<NativeCommand> {
        self.store.log()
    }

    /// Room for `n` more handle allocations.
    pub open(crate) spec fn headroom(&self, n: usize) -> bool {
        self.store.can_alloc(n)
    }

    /// Whether a generated id has an entry, and which.
    pub open(crate) spec fn id_index(&self, id: i32) -> Option<int> {
        if exists|i: int| 0 <= i < self.ids@.len() && #[trigger] self.ids@[i].0 == id {
            Some(choose|i: int| 0 <= i < self.ids@.len() && #[trigger] self.ids@[i].0 == id)
        } else {
            None
        }
    }

    pub open(crate) spec fn has_id(&self, id: i32) -> bool {
        exists|i: int| 0 <= i < self.ids@.len() && #[trigger] self.ids@[i].0 == id
    }

    /// Well-formedness of the whole manager.
    pub open(crate) spec fn wf(&self) -> bool {
        let rv = self.registry@;
        let views = self.store.views();
        &&& self.registry.wf()
        &&& self.store.wf()
        &&& ids_unique(self.ids@)
        &&& 1 <= self.next_id
        &&& forall|i: int| 0 <= i < self.ids@.len() ==> 1 <= #[trigger] self.ids@[i].0 < self.next_id
        &&& forall|l: Seq<char>| #[trigger] rv.contains_key(l) ==> entry_ok(rv[l], views)
        &&& forall|i: int| 0 <= i < self.ids@.len() ==> id_entry_ok(#[trigger] self.ids@[i].1, views)
        &&& forall|l1: Seq<char>, l2: Seq<char>|
            #![trigger rv[l1], rv[l2]]
            l1 != l2 && rv.contains_key(l1) && rv.contains_key(l2) ==> entry_handles(
                rv[l1],
            ).disjoint(entry_handles(rv[l2]))
        &&& forall|i: int, j: int|
            0 <= i < j < self.ids@.len() ==> id_entry_handles(#[trigger] self.ids@[i].1).disjoint(
                id_entry_handles(#[trigger] self.ids@[j].1),
            )
        &&& forall|l: Seq<char>, i: int|
            #![trigger rv[l], self.ids@[i].1]
            rv.contains_key(l) && 0 <= i < self.ids@.len() ==> entry_handles(rv[l]).disjoint(
                id_entry_handles(self.ids@[i].1),
            )
    }

    /// Nothing observable differs between `pre` and `post`.
    pub open(crate) spec fn unchanged(pre: EffectManager, post: EffectManager) -> bool {
        &&& post.registry@ == pre.registry@
        &&& post.ids@ == pre.ids@
        &&& post.next_id == pre.next_id
        &&& post.store.views() == pre.store.views()
        &&& post.store.next() == pre.store.next()
        &&& post.store.log() == pre.store.log()
    }

    /// A fresh manager: nothing tracked, nothing pending, ids start at 1.
    pub fn new() -> (m: EffectManager)
        ensures
            m.wf(),
            m.reg_view() == Map::<Seq<char>, GlassViewEntry>::empty(),
            m.ids_view() == Seq::<(i32, IdEntry)>::empty(),
            m.views() == Map::<ViewHandle, ViewState>::empty(),
            m.next_id() == 1,
            m.log() == Seq::<NativeCommand>::empty(),
    {
        EffectManager {
            registry: GlassViewRegistry::default(),
            ids: Vec::new(),
            next_id: 1,
            store: ViewStore::new(),
        }
    }

    /// Read access to the registry, for callers and tests.
    pub fn registry(&self) -> (r: &GlassViewRegistry)
        ensures
            r@ == self.reg_view(),
            self.wf() ==> r.wf(),
    {
        &self.registry
    }

    /// The modeled state of one view, if it is live.
    pub fn view_state(&self, view: ViewHandle) -> (r: Option<ViewState>)
        requires
            self.wf(),
        ensures
            r == if self.views().contains_key(view) {
                Some(self.views()[view])
            } else {
                None::<ViewState>
            },
    {
        self.store.get_state(view)
    }

    /// Whether `n` more handle tokens can still be allocated; true for the
    /// whole practical life of a process.
    pub fn handles_available(&self, n: usize) -> (r: bool)
        ensures
            r == self.headroom(n),
    {
        self.store.handles_available(n)
    }

    /// How many generated ids currently have an entry.
    pub fn id_count(&self) -> (n: usize)
        ensures
            n == self.ids_view().len(),
    {
        self.ids.len()
    }

    /// Hand the pending native commands to the host layer, oldest first,
    /// and clear the log. Everything else is untouched.
    pub fn drain_commands(&mut self) -> (cmds: Vec<NativeCommand>)
        requires
            old(self).wf(),
        ensures
            final(self).wf(),
            cmds@ == old(self).log(),
            final(self).log() == Seq::<NativeCommand>::empty(),
            final(self).reg_view() == old(self).reg_view(),
            final(self).ids_view() == old(self).ids_view(),
            final(self).views() == old(self).views(),
            final(self).next_handle() == old(self).next_handle(),
            final(self).next_id() == old(self).next_id(),
    {
        self.store.drain()
    }
}

/// A handle owned by a sound window-scoped entry is a live view.
proof fn lemma_entry_ok_live(e: GlassViewEntry, views: Map<ViewHandle, ViewState>, h: ViewHandle)
    requires
        entry_ok(e, views),
        entry_handles(e).contains(h),
    ensures
        views.contains_key(h),
{
    match e.tint_overlay {
        Some(o) => {
            assert(h == e.glass_view || h == o);
        },
        None => {
            assert(h == e.glass_view);
        },
    }
}

/// A handle owned by a sound id-scoped entry is a live view.
proof fn lemma_id_entry_ok_live(e: IdEntry, views: Map<ViewHandle, ViewState>, h: ViewHandle)
    requires
        id_entry_ok(e, views),
        id_entry_handles(e).contains(h),
    ensures
        views.contains_key(h),
{
    let s0 = set![e.glass];
    let s1 = match e.tint_overlay {
        Some(o) => s0.insert(o),
        None => s0,
    };
    assert(h == e.glass || (e.tint_overlay matches Some(o) && h == o) || (e.backing matches Some(
        b,
    ) && h == b));
}

/// Soundness of an entry carries over to a view map that agrees on all the
/// entry's handles.
proof fn lemma_entry_ok_preserved(
    e: GlassViewEntry,
    v1: Map<ViewHandle, ViewState>,
    v2: Map<ViewHandle, ViewState>,
)
    requires
        entry_ok(e, v1),
        forall|h: ViewHandle|
            entry_handles(e).contains(h) ==> v2.contains_key(h) && v2[h] == v1[h],
    ensures
        entry_ok(e, v2),
{
    assert(entry_handles(e).contains(e.glass_view));
    match e.tint_overlay {
        Some(o) => {
            assert(entry_handles(e).contains(o));
        },
        None => {},
    }
}

/// The same, for id-scoped entries.
proof fn lemma_id_entry_ok_preserved(
    e: IdEntry,
    v1: Map<ViewHandle, ViewState>,
    v2: Map<ViewHandle, ViewState>,
)
    requires
        id_entry_ok(e, v1),
        forall|h: ViewHandle|
            id_entry_handles(e).contains(h) ==> v2.contains_key(h) && v2[h] == v1[h],
    ensures
        id_entry_ok(e, v2),
{
    assert(id_entry_handles(e).contains(e.glass));
    match e.tint_overlay {
        Some(o) => {
            assert(id_entry_handles(e).contains(o));
        },
        None => {},
    }
    match e.backing {
        Some(b) => {
            assert(id_entry_handles(e).contains(b));
        },
        None => {},
    }
}

/// Every owned handle is live, and below the allocation counter.
pub(crate) proof fn lemma_owned_live(pre: EffectManager, h: ViewHandle)
    requires
        pre.wf(),
        owned_any(pre, h),
    ensures
        pre.views().contains_key(h),
        h.raw_id() < pre.next_handle(),
{
    if exists|l: Seq<char>|
        #![trigger pre.reg_view()[l]]
        pre.reg_view().contains_key(l) && entry_handles(pre.reg_view()[l]).contains(h) {
        let l = choose|l: Seq<char>|
            #![trigger pre.reg_view()[l]]
            pre.reg_view().contains_key(l) && entry_handles(pre.reg_view()[l]).contains(h);
        lemma_entry_ok_live(pre.reg_view()[l], pre.views(), h);
    } else {
        let i = choose|i: int|
            0 <= i < pre.ids_view().len() && id_entry_handles(
                #[trigger] pre.ids_view()[i].1,
            ).contains(h);
        lemma_id_entry_ok_live(pre.ids_view()[i].1, pre.views(), h);
    }
    pre.store.lemma_live_bounded(h);
}

/// A handle at or above the allocation counter is owned by nothing.
pub(crate) proof fn lemma_fresh_not_owned(pre: EffectManager, h: ViewHandle)
    requires
        pre.wf(),
        h.raw_id() >= pre.next_handle(),
    ensures
        !owned_any(pre, h),
        forall|l: Seq<char>| !owned_outside_label(pre, l, h),
        forall|i: int| !owned_outside_id(pre, i, h),
{
    if owned_any(pre, h) {
        lemma_owned_live(pre, h);
    }
    assert forall|l: Seq<char>| !owned_outside_label(pre, l, h) by {
        if owned_outside_label(pre, l, h) {
            assert(owned_any(pre, h));
        }
    }
    assert forall|i: int| !owned_outside_id(pre, i, h) by {
        if owned_outside_id(pre, i, h) {
            assert(owned_any(pre, h));
        }
    }
}

/// The handles of the entry registered under `label` are owned by no other
/// entry.
pub(crate) proof fn lemma_label_handles_not_outside(pre: EffectManager, label: Seq<char>, h: ViewHandle)
    requires
        pre.wf(),
        pre.reg_view().contains_key(label),
        entry_handles(pre.reg_view()[label]).contains(h),
    ensures
        !owned_outside_label(pre, label, h),
{
    let rv = pre.reg_view();
    if exists|l2: Seq<char>|
        #![trigger rv[l2]]
        l2 != label && rv.contains_key(l2) && entry_handles(rv[l2]).contains(h) {
        let l2 = choose|l2: Seq<char>|
            #![trigger rv[l2]]
            l2 != label && rv.contains_key(l2) && entry_handles(rv[l2]).contains(h);
        assert(entry_handles(rv[label]).disjoint(entry_handles(rv[l2])));
        assert(false);
    }
    if exists|i: int|
        0 <= i < pre.ids_view().len() && id_entry_handles(#[trigger] pre.ids_view()[i].1).contains(
            h,
        ) {
        let i = choose|i: int|
            0 <= i < pre.ids_view().len() && id_entry_handles(
                #[trigger] pre.ids_view()[i].1,
            ).contains(h);
        assert(entry_handles(rv[label]).disjoint(id_entry_handles(pre.ids_view()[i].1)));
        assert(false);
    }
}

/// The handles of the id-scoped entry at index `at` are owned by no other
/// entry.
pub(crate) proof fn lemma_id_handles_not_outside(pre: EffectManager, at: int, h: ViewHandle)
    requires
        pre.wf(),
        0 <= at < pre.ids_view().len(),
        id_entry_handles(pre.ids_view()[at].1).contains(h),
    ensures
        !owned_outside_id(pre, at, h),
{
    let rv = pre.reg_view();
    if exists|l: Seq<char>|
        #![trigger rv[l]]
        rv.contains_key(l) && entry_handles(rv[l]).contains(h) {
        let l = choose|l: Seq<char>|
            #![trigger rv[l]]
            rv.contains_key(l) && entry_handles(rv[l]).contains(h);
        assert(entry_handles(rv[l]).disjoint(id_entry_handles(pre.ids_view()[at].1)));
        assert(false);
    }
    if exists|i: int|
        i != at && 0 <= i < pre.ids_view().len() && id_entry_handles(
            #[trigger] pre.ids_view()[i].1,
        ).contains(h) {
        let i = choose|i: int|
            i != at && 0 <= i < pre.ids_view().len() && id_entry_handles(
                #[trigger] pre.ids_view()[i].1,
            ).contains(h);
        if i < at {
            assert(id_entry_handles(pre.ids_view()[i].1).disjoint(
                id_entry_handles(pre.ids_view()[at].1),
            ));
        } else {
            assert(id_entry_handles(pre.ids_view()[at].1).disjoint(
                id_entry_handles(pre.ids_view()[i].1),
            ));
        }
        assert(false);
    }
}

/// Well-formedness after inserting or replacing the entry of one window
/// label, when only handles owned by nobody else were touched.
pub(crate) proof fn lemma_wf_reg_update(
    pre: EffectManager,
    post: EffectManager,
    label: Seq<char>,
    ne: GlassViewEntry,
    touched: Set<ViewHandle>,
)
    requires
        pre.wf(),
        post.registry.wf(),
        post.store.wf(),
        post.reg_view() == pre.reg_view().insert(label, ne),
        post.ids_view() == pre.ids_view(),
        post.next_id() == pre.next_id(),
        forall|h: ViewHandle|
            pre.views().contains_key(h) && !touched.contains(h) ==> post.views().contains_key(h)
                && post.views()[h] == pre.views()[h],
        forall|h: ViewHandle| #[trigger] touched.contains(h) ==> !owned_outside_label(pre, label, h),
        entry_ok(ne, post.views()),
        forall|h: ViewHandle|
            #[trigger] entry_handles(ne).contains(h) ==> !owned_outside_label(pre, label, h),
    ensures
        post.wf(),
{
    let rv = pre.reg_view();
    let pv = post.reg_view();
    assert forall|l2: Seq<char>| #[trigger] pv.contains_key(l2) implies entry_ok(pv[l2], post.views()) by {
        if l2 == label {
        } else {
            let e2 = rv[l2];
            assert(entry_ok(e2, pre.views()));
            assert forall|h: ViewHandle| entry_handles(e2).contains(h) implies post.views().contains_key(h)
                && post.views()[h] == pre.views()[h] by {
                assert(owned_outside_label(pre, label, h));
                lemma_entry_ok_live(e2, pre.views(), h);
                assert(!touched.contains(h));
            }
            lemma_entry_ok_preserved(e2, pre.views(), post.views());
        }
    }
    assert forall|i: int| 0 <= i < post.ids_view().len() implies id_entry_ok(
        #[trigger] post.ids_view()[i].1,
        post.views(),
    ) by {
        let e2 = pre.ids_view()[i].1;
        assert(id_entry_ok(e2, pre.views()));
        assert forall|h: ViewHandle| id_entry_handles(e2).contains(h) implies post.views().contains_key(
            h,
        ) && post.views()[h] == pre.views()[h] by {
            assert(owned_outside_label(pre, label, h));
            lemma_id_entry_ok_live(e2, pre.views(), h);
            assert(!touched.contains(h));
        }
        lemma_id_entry_ok_preserved(e2, pre.views(), post.views());
    }
    assert forall|l1: Seq<char>, l2: Seq<char>|
        #![trigger pv[l1], pv[l2]]
        l1 != l2 && pv.contains_key(l1) && pv.contains_key(l2) implies entry_handles(
        pv[l1],
    ).disjoint(entry_handles(pv[l2])) by {
        if l1 == label {
            assert forall|h: ViewHandle| entry_handles(ne).contains(h) implies !entry_handles(
                pv[l2],
            ).contains(h) by {
                assert(!owned_outside_label(pre, label, h));
                assert(pv[l2] == rv[l2]);
            }
        } else if l2 == label {
            assert forall|h: ViewHandle| entry_handles(pv[l1]).contains(h) implies !entry_handles(
                ne,
            ).contains(h) by {
                if entry_handles(ne).contains(h) {
                    assert(!owned_outside_label(pre, label, h));
                    assert(pv[l1] == rv[l1]);
                }
            }
        } else {
            assert(entry_handles(rv[l1]).disjoint(entry_handles(rv[l2])));
        }
    }
    assert forall|i: int, j: int| 0 <= i < j < post.ids_view().len() implies id_entry_handles(
        #[trigger] post.ids_view()[i].1,
    ).disjoint(id_entry_handles(#[trigger] post.ids_view()[j].1)) by {
        assert(id_entry_handles(pre.ids_view()[i].1).disjoint(
            id_entry_handles(pre.ids_view()[j].1),
        ));
    }
    assert forall|l: Seq<char>, i: int|
        #![trigger pv[l], post.ids_view()[i].1]
        pv.contains_key(l) && 0 <= i < post.ids_view().len() implies entry_handles(pv[l]).disjoint(
        id_entry_handles(post.ids_view()[i].1),
    ) by {
        if l == label {
            assert forall|h: ViewHandle| entry_handles(ne).contains(h) implies !id_entry_handles(
                post.ids_view()[i].1,
            ).contains(h) by {
                assert(!owned_outside_label(pre, label, h));
                assert(post.ids_view()[i].1 == pre.ids_view()[i].1);
            }
        } else {
            assert(entry_handles(rv[l]).disjoint(id_entry_handles(pre.ids_view()[i].1)));
        }
    }
}

/// Well-formedness after removing one window label's entry, when only
/// handles owned by nobody else were touched.
pub(crate) proof fn lemma_wf_reg_remove(
    pre: EffectManager,
    post: EffectManager,
    label: Seq<char>,
    touched: Set<ViewHandle>,
)
    requires
        pre.wf(),
        post.registry.wf(),
        post.store.wf(),
        post.reg_view() == pre.reg_view().remove(label),
        post.ids_view() == pre.ids_view(),
        post.next_id() == pre.next_id(),
        forall|h: ViewHandle|
            pre.views().contains_key(h) && !touched.contains(h) ==> post.views().contains_key(h)
                && post.views()[h] == pre.views()[h],
        forall|h: ViewHandle| #[trigger] touched.contains(h) ==> !owned_outside_label(pre, label, h),
    ensures
        post.wf(),
{
    let rv = pre.reg_view();
    let pv = post.reg_view();
    assert forall|l2: Seq<char>| #[trigger] pv.contains_key(l2) implies entry_ok(pv[l2], post.views()) by {
        let e2 = rv[l2];
        assert(entry_ok(e2, pre.views()));
        assert forall|h: ViewHandle| entry_handles(e2).contains(h) implies post.views().contains_key(h)
            && post.views()[h] == pre.views()[h] by {
            assert(owned_outside_label(pre, label, h));
            lemma_entry_ok_live(e2, pre.views(), h);
            assert(!touched.contains(h));
        }
        lemma_entry_ok_preserved(e2, pre.views(), post.views());
    }
    assert forall|i: int| 0 <= i < post.ids_view().len() implies id_entry_ok(
        #[trigger] post.ids_view()[i].1,
        post.views(),
    ) by {
        let e2 = pre.ids_view()[i].1;
        assert(id_entry_ok(e2, pre.views()));
        assert forall|h: ViewHandle| id_entry_handles(e2).contains(h) implies post.views().contains_key(
            h,
        ) && post.views()[h] == pre.views()[h] by {
            assert(owned_outside_label(pre, label, h));
            lemma_id_entry_ok_live(e2, pre.views(), h);
            assert(!touched.contains(h));
        }
        lemma_id_entry_ok_preserved(e2, pre.views(), post.views());
    }
    assert forall|l1: Seq<char>, l2: Seq<char>|
        #![trigger pv[l1], pv[l2]]
        l1 != l2 && pv.contains_key(l1) && pv.contains_key(l2) implies entry_handles(
        pv[l1],
    ).disjoint(entry_handles(pv[l2])) by {
        assert(entry_handles(rv[l1]).disjoint(entry_handles(rv[l2])));
    }
    assert forall|i: int, j: int| 0 <= i < j < post.ids_view().len() implies id_entry_handles(
        #[trigger] post.ids_view()[i].1,
    ).disjoint(id_entry_handles(#[trigger] post.ids_view()[j].1)) by {
        assert(id_entry_handles(pre.ids_view()[i].1).disjoint(
            id_entry_handles(pre.ids_view()[j].1),
        ));
    }
    assert forall|l: Seq<char>, i: int|
        #![trigger pv[l], post.ids_view()[i].1]
        pv.contains_key(l) && 0 <= i < post.ids_view().len() implies entry_handles(pv[l]).disjoint(
        id_entry_handles(post.ids_view()[i].1),
    ) by {
        assert(entry_handles(rv[l]).disjoint(id_entry_handles(pre.ids_view()[i].1)));
    }
}

/// Well-formedness after appending a fresh id-scoped entry, when only
/// handles owned by nobody were touched.
pub(crate) proof fn lemma_wf_id_push(
    pre: EffectManager,
    post: EffectManager,
    id: i32,
    ne: IdEntry,
    touched: Set<ViewHandle>,
)
    requires
        pre.wf(),
        post.registry.wf(),
        post.store.wf(),
        post.reg_view() == pre.reg_view(),
        post.ids_view() == pre.ids_view().push((id, ne)),
        pre.next_id() <= id < post.next_id(),
        forall|h: ViewHandle|
            pre.views().contains_key(h) && !touched.contains(h) ==> post.views().contains_key(h)
                && post.views()[h] == pre.views()[h],
        forall|h: ViewHandle| #[trigger] touched.contains(h) ==> !owned_any(pre, h),
        id_entry_ok(ne, post.views()),
        forall|h: ViewHandle| #[trigger] id_entry_handles(ne).contains(h) ==> !owned_any(pre, h),
    ensures
        post.wf(),
{
    let rv = pre.reg_view();
    let pv = post.reg_view();
    let n = pre.ids_view().len() as int;
    assert(forall|i: int| 0 <= i < n ==> #[trigger] post.ids_view()[i] == pre.ids_view()[i]);
    assert(post.ids_view()[n] == (id, ne));
    assert forall|i: int, j: int| 0 <= i < j < post.ids_view().len() implies post.ids_view()[i].0
        != post.ids_view()[j].0 by {
        if j == n {
            assert(pre.ids_view()[i].0 < pre.next_id());
        }
    }
    assert forall|l2: Seq<char>| #[trigger] pv.contains_key(l2) implies entry_ok(pv[l2], post.views()) by {
        let e2 = rv[l2];
        assert(entry_ok(e2, pre.views()));
        assert forall|h: ViewHandle| entry_handles(e2).contains(h) implies post.views().contains_key(h)
            && post.views()[h] == pre.views()[h] by {
            assert(owned_any(pre, h));
            lemma_entry_ok_live(e2, pre.views(), h);
            assert(!touched.contains(h));
        }
        lemma_entry_ok_preserved(e2, pre.views(), post.views());
    }
    assert forall|i: int| 0 <= i < post.ids_view().len() implies id_entry_ok(
        #[trigger] post.ids_view()[i].1,
        post.views(),
    ) by {
        if i < n {
            let e2 = pre.ids_view()[i].1;
            assert(id_entry_ok(e2, pre.views()));
            assert forall|h: ViewHandle| id_entry_handles(e2).contains(h) implies post.views().contains_key(
                h,
            ) && post.views()[h] == pre.views()[h] by {
                assert(owned_any(pre, h));
                lemma_id_entry_ok_live(e2, pre.views(), h);
                assert(!touched.contains(h));
            }
            lemma_id_entry_ok_preserved(e2, pre.views(), post.views());
        }
    }
    assert forall|l1: Seq<char>, l2: Seq<char>|
        #![trigger pv[l1], pv[l2]]
        l1 != l2 && pv.contains_key(l1) && pv.contains_key(l2) implies entry_handles(
        pv[l1],
    ).disjoint(entry_handles(pv[l2])) by {
        assert(entry_handles(rv[l1]).disjoint(entry_handles(rv[l2])));
    }
    assert forall|i: int, j: int| 0 <= i < j < post.ids_view().len() implies id_entry_handles(
        #[trigger] post.ids_view()[i].1,
    ).disjoint(id_entry_handles(#[trigger] post.ids_view()[j].1)) by {
        if j == n {
            assert forall|h: ViewHandle| id_entry_handles(pre.ids_view()[i].1).contains(h) implies
                !id_entry_handles(ne).contains(h) by {
                if id_entry_handles(ne).contains(h) {
                    assert(!owned_any(pre, h));
                    assert(owned_any(pre, h));
                }
            }
        } else {
            assert(id_entry_handles(pre.ids_view()[i].1).disjoint(
                id_entry_handles(pre.ids_view()[j].1),
            ));
        }
    }
    assert forall|l: Seq<char>, i: int|
        #![trigger pv[l], post.ids_view()[i].1]
        pv.contains_key(l) && 0 <= i < post.ids_view().len() implies entry_handles(pv[l]).disjoint(
        id_entry_handles(post.ids_view()[i].1),
    ) by {
        if i == n {
            assert forall|h: ViewHandle| entry_handles(rv[l]).contains(h) implies !id_entry_handles(
                ne,
            ).contains(h) by {
                if id_entry_handles(ne).contains(h) {
                    assert(!owned_any(pre, h));
                    assert(owned_any(pre, h));
                }
            }
        } else {
            assert(entry_handles(rv[l]).disjoint(id_entry_handles(pre.ids_view()[i].1)));
        }
    }
}

/// Well-formedness after replacing the id-scoped entry at one index, when
/// only handles owned by nobody else were touched.
pub(crate) proof fn lemma_wf_id_update(
    pre: EffectManager,
    post: EffectManager,
    at: int,
    ne: IdEntry,
    touched: Set<ViewHandle>,
)
    requires
        pre.wf(),
        post.registry.wf(),
        post.store.wf(),
        post.reg_view() == pre.reg_view(),
        0 <= at < pre.ids_view().len(),
        post.ids_view() == pre.ids_view().update(at, (pre.ids_view()[at].0, ne)),
        post.next_id() == pre.next_id(),
        forall|h: ViewHandle|
            pre.views().contains_key(h) && !touched.contains(h) ==> post.views().contains_key(h)
                && post.views()[h] == pre.views()[h],
        forall|h: ViewHandle| #[trigger] touched.contains(h) ==> !owned_outside_id(pre, at, h),
        id_entry_ok(ne, post.views()),
        forall|h: ViewHandle|
            #[trigger] id_entry_handles(ne).contains(h) ==> !owned_outside_id(pre, at, h),
    ensures
        post.wf(),
{
    let rv = pre.reg_view();
    let pv = post.reg_view();
    assert(forall|i: int|
        0 <= i < pre.ids_view().len() && i != at ==> #[trigger] post.ids_view()[i]
            == pre.ids_view()[i]);
    assert(post.ids_view()[at] == (pre.ids_view()[at].0, ne));
    assert forall|l2: Seq<char>| #[trigger] pv.contains_key(l2) implies entry_ok(pv[l2], post.views()) by {
        let e2 = rv[l2];
        assert(entry_ok(e2, pre.views()));
        assert forall|h: ViewHandle| entry_handles(e2).contains(h) implies post.views().contains_key(h)
            && post.views()[h] == pre.views()[h] by {
            assert(owned_outside_id(pre, at, h));
            lemma_entry_ok_live(e2, pre.views(), h);
            assert(!touched.contains(h));
        }
        lemma_entry_ok_preserved(e2, pre.views(), post.views());
    }
    assert forall|i: int| 0 <= i < post.ids_view().len() implies id_entry_ok(
        #[trigger] post.ids_view()[i].1,
        post.views(),
    ) by {
        if i != at {
            let e2 = pre.ids_view()[i].1;
            assert(id_entry_ok(e2, pre.views()));
            assert forall|h: ViewHandle| id_entry_handles(e2).contains(h) implies post.views().contains_key(
                h,
            ) && post.views()[h] == pre.views()[h] by {
                assert(owned_outside_id(pre, at, h));
                lemma_id_entry_ok_live(e2, pre.views(), h);
                assert(!touched.contains(h));
            }
            lemma_id_entry_ok_preserved(e2, pre.views(), post.views());
        }
    }
    assert forall|l1: Seq<char>, l2: Seq<char>|
        #![trigger pv[l1], pv[l2]]
        l1 != l2 && pv.contains_key(l1) && pv.contains_key(l2) implies entry_handles(
        pv[l1],
    ).disjoint(entry_handles(pv[l2])) by {
        assert(entry_handles(rv[l1]).disjoint(entry_handles(rv[l2])));
    }
    assert forall|i: int, j: int| 0 <= i < j < post.ids_view().len() implies id_entry_handles(
        #[trigger] post.ids_view()[i].1,
    ).disjoint(id_entry_handles(#[trigger] post.ids_view()[j].1)) by {
        if i == at {
            assert forall|h: ViewHandle| id_entry_handles(ne).contains(h) implies !id_entry_handles(
                post.ids_view()[j].1,
            ).contains(h) by {
                assert(!owned_outside_id(pre, at, h));
                assert(post.ids_view()[j].1 == pre.ids_view()[j].1);
            }
        } else if j == at {
            assert forall|h: ViewHandle| id_entry_handles(post.ids_view()[i].1).contains(h) implies
                !id_entry_handles(ne).contains(h) by {
                if id_entry_handles(ne).contains(h) {
                    assert(!owned_outside_id(pre, at, h));
                    assert(post.ids_view()[i].1 == pre.ids_view()[i].1);
                }
            }
        } else {
            assert(id_entry_handles(pre.ids_view()[i].1).disjoint(
                id_entry_handles(pre.ids_view()[j].1),
            ));
        }
    }
    assert forall|l: Seq<char>, i: int|
        #![trigger pv[l], post.ids_view()[i].1]
        pv.contains_key(l) && 0 <= i < post.ids_view().len() implies entry_handles(pv[l]).disjoint(
        id_entry_handles(post.ids_view()[i].1),
    ) by {
        if i == at {
            assert forall|h: ViewHandle| entry_handles(rv[l]).contains(h) implies !id_entry_handles(
                ne,
            ).contains(h) by {
                if id_entry_handles(ne).contains(h) {
                    assert(!owned_outside_id(pre, at, h));
                }
            }
        } else {
            assert(entry_handles(rv[l]).disjoint(id_entry_handles(pre.ids_view()[i].1)));
        }
    }
}

/// Well-formedness after removing the id-scoped entry at one index, when
/// only handles owned by nobody else were touched.
pub(crate) proof fn lemma_wf_id_remove(
    pre: EffectManager,
    post: EffectManager,
    at: int,
    touched: Set<ViewHandle>,
)
    requires
        pre.wf(),
        post.registry.wf(),
        post.store.wf(),
        post.reg_view() == pre.reg_view(),
        0 <= at < pre.ids_view().len(),
        post.ids_view() == pre.ids_view().remove(at),
        post.next_id() == pre.next_id(),
        forall|h: ViewHandle|
            pre.views().contains_key(h) && !touched.contains(h) ==> post.views().contains_key(h)
                && post.views()[h] == pre.views()[h],
        forall|h: ViewHandle| #[trigger] touched.contains(h) ==> !owned_outside_id(pre, at, h),
    ensures
        post.wf(),
{
    let rv = pre.reg_view();
    let pv = post.reg_view();
    let n = pre.ids_view().len() as int;
    assert(forall|i: int|
        0 <= i < at ==> #[trigger] post.ids_view()[i] == pre.ids_view()[i]);
    assert(forall|i: int|
        at <= i < n - 1 ==> #[trigger] post.ids_view()[i] == pre.ids_view()[i + 1]);
    assert forall|l2: Seq<char>| #[trigger] pv.contains_key(l2) implies entry_ok(pv[l2], post.views()) by {
        let e2 = rv[l2];
        assert(entry_ok(e2, pre.views()));
        assert forall|h: ViewHandle| entry_handles(e2).contains(h) implies post.views().contains_key(h)
            && post.views()[h] == pre.views()[h] by {
            assert(owned_outside_id(pre, at, h));
            lemma_entry_ok_live(e2, pre.views(), h);
            assert(!touched.contains(h));
        }
        lemma_entry_ok_preserved(e2, pre.views(), post.views());
    }
    assert forall|i: int| 0 <= i < post.ids_view().len() implies id_entry_ok(
        #[trigger] post.ids_view()[i].1,
        post.views(),
    ) by {
        let k: int = if i < at {
            i
        } else {
            i + 1
        };
        let e2 = pre.ids_view()[k].1;
        assert(id_entry_ok(e2, pre.views()));
        assert forall|h: ViewHandle| id_entry_handles(e2).contains(h) implies post.views().contains_key(
            h,
        ) && post.views()[h] == pre.views()[h] by {
            assert(owned_outside_id(pre, at, h));
            lemma_id_entry_ok_live(e2, pre.views(), h);
            assert(!touched.contains(h));
        }
        lemma_id_entry_ok_preserved(e2, pre.views(), post.views());
    }
    assert forall|i: int, j: int| 0 <= i < j < post.ids_view().len() implies post.ids_view()[i].0
        != post.ids_view()[j].0 by {
        let ki: int = if i < at {
            i
        } else {
            i + 1
        };
        let kj: int = if j < at {
            j
        } else {
            j + 1
        };
        assert(pre.ids_view()[ki].0 != pre.ids_view()[kj].0);
    }
    assert forall|l1: Seq<char>, l2: Seq<char>|
        #![trigger pv[l1], pv[l2]]
        l1 != l2 && pv.contains_key(l1) && pv.contains_key(l2) implies entry_handles(
        pv[l1],
    ).disjoint(entry_handles(pv[l2])) by {
        assert(entry_handles(rv[l1]).disjoint(entry_handles(rv[l2])));
    }
    assert forall|i: int, j: int| 0 <= i < j < post.ids_view().len() implies id_entry_handles(
        #[trigger] post.ids_view()[i].1,
    ).disjoint(id_entry_handles(#[trigger] post.ids_view()[j].1)) by {
        let ki: int = if i < at {
            i
        } else {
            i + 1
        };
        let kj: int = if j < at {
            j
        } else {
            j + 1
        };
        assert(id_entry_handles(pre.ids_view()[ki].1).disjoint(
            id_entry_handles(pre.ids_view()[kj].1),
        ));
    }
    assert forall|l: Seq<char>, i: int|
        #![trigger pv[l], post.ids_view()[i].1]
        pv.contains_key(l) && 0 <= i < post.ids_view().len() implies entry_handles(pv[l]).disjoint(
        id_entry_handles(post.ids_view()[i].1),
    ) by {
        let k: int = if i < at {
            i
        } else {
            i + 1
        };
        assert(entry_handles(rv[l]).disjoint(id_entry_handles(pre.ids_view()[k].1)));
    }
}

} // verus!
