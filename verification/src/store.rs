//! Model of the native views owned by the manager, with a command log.
//!
//! Verified code cannot mutate the native view tree, so the manager keeps
//! its own record of every view it created — kind, corner radius, tint,
//! painted fill, probed properties, attachment — and appends one
//! [`NativeCommand`] for each native mutation it decides on. The host layer
//! drains the log and replays it on the UI thread; the record here is the
//! intended state of the native objects after the replay.
//!
//! Handles are allocated from a monotone counter, so a handle is never
//! reused once its view is gone.

use vstd::prelude::*;

use crate::color::RgbaColor;
use crate::registry::ViewHandle;

verus! {

/// Which native class a tracked view was created from.
#[derive(Clone, Copy, Debug, PartialEq, Eq, Structural)]
pub enum ViewKind {
    /// The advanced effect view with native tint and variant support.
    Advanced,
    /// The fallback translucency view.
    Fallback,
    /// A plain sub-view used by the fallback path to emulate a tint.
    Overlay,
    /// An opaque panel placed behind an effect view.
    Backing,
}

/// The intended state of one native view.
#[derive(Clone, Copy, Debug)]
pub struct ViewState {
    pub kind: ViewKind,
    /// Corner radius of the view's backing layer, in whole pixels.
    pub radius: u64,
    /// Native tint color; only the advanced view supports one.
    pub tint: Option<RgbaColor>,
    /// Background fill painted on the layer; used for overlays.
    pub fill: Option<RgbaColor>,
    /// Value last handed to the dynamically probed variant setter.
    pub variant: Option<i64>,
    /// Value last handed to the dynamically probed scrim setter.
    pub scrim: Option<i64>,
    /// Value last handed to the dynamically probed subdued setter.
    pub subdued: Option<i64>,
    /// The view this one was added to as a sub-view, if any.
    pub parent: Option<ViewHandle>,
    /// Whether the view has been inserted into a window's hierarchy.
    pub attached: bool,
}

/// Which selector name style a probed setter call went through.
#[derive(Clone, Copy, Debug, PartialEq, Eq, Structural)]
pub enum SetterStyle {
    /// The private-style name, tried first.
    Private,
    /// The public-style name, tried second.
    Public,
}

/// The dynamically probed cosmetic properties.
#[derive(Clone, Copy, Debug, PartialEq, Eq, Structural)]
pub enum ViewProperty {
    Variant,
    Scrim,
    Subdued,
}

/// Non-fatal observations reported while creating an effect.
#[derive(Clone, Copy, Debug, PartialEq, Eq, Structural)]
pub enum WarningKind {
    /// The window is configured opaque, which hides the effect.
    OpaqueWindow,
    /// The hosted web content draws its own background.
    WebviewDrawsBackground,
}

/// One native mutation the host layer must replay, in log order.
///
/// Commands name views by handle only; the ones that touch a window (view
/// creation and insertion) target the window of the operation that emitted
/// them, so the host layer replays the drained log of one operation against
/// the window it invoked that operation for.
#[derive(Clone, Copy, Debug, PartialEq, Eq, Structural)]
pub enum NativeCommand {
    /// Log a warning; purely observability.
    Warn { kind: WarningKind },
    /// Create an effect view sized to the window's content view and bind it
    /// to `view`; `advanced` selects the native class.
    CreateView { view: ViewHandle, advanced: bool },
    /// Create a borderless sub-view filling `parent` and add it to `parent`.
    CreateOverlay { overlay: ViewHandle, parent: ViewHandle },
    /// Create an opaque panel sized to the window's content view.
    CreateBackingView { view: ViewHandle },
    /// Insert `view` into the window's hierarchy behind all content.
    AttachBehindContent { view: ViewHandle },
    /// Set the corner radius of the view's layer and clip to bounds.
    SetCornerRadius { view: ViewHandle, radius: u64 },
    /// Set the native tint color of an advanced effect view.
    SetNativeTint { view: ViewHandle, color: RgbaColor },
    /// Clear the native tint color of an advanced effect view.
    ClearNativeTint { view: ViewHandle },
    /// Paint the layer of an overlay with a background color.
    PaintOverlay { overlay: ViewHandle, color: RgbaColor },
    /// Call a dynamically probed setter with an integer value.
    SetViewProperty { view: ViewHandle, property: ViewProperty, style: SetterStyle, value: i64 },
    /// Detach a view from its superview.
    RemoveFromSuperview { view: ViewHandle },
}

/// `state` with one probed property replaced.
pub open spec fn with_property(state: ViewState, property: ViewProperty, value: i64) -> ViewState {
    match property {
        ViewProperty::Variant => ViewState { variant: Some(value), ..state },
        ViewProperty::Scrim => ViewState { scrim: Some(value), ..state },
        ViewProperty::Subdued => ViewState { subdued: Some(value), ..state },
    }
}

/// The record of live native views plus the pending command log.
pub struct ViewStore {
    views: Vec<(ViewHandle, ViewState)>,
    next_handle: usize,
    pending: Vec<NativeCommand>,
}

spec fn handles_unique(s: Seq<(ViewHandle, ViewState)>) -> bool {
    forall|i: int, j: int| 0 <= i < j < s.len() ==> s[i].0 != s[j].0
}

spec fn vmap_of(s: Seq<(ViewHandle, ViewState)>) -> Map<ViewHandle, ViewState>
    decreases s.len(),
{
    if s.len() == 0 {
        Map::empty()
    } else {
        vmap_of(s.drop_last()).insert(s.last().0, s.last().1)
    }
}

proof fn lemma_vmap_contains(s: Seq<(ViewHandle, ViewState)>, k: ViewHandle)
    ensures
        vmap_of(s).contains_key(k) <==> (exists|i: int| 0 <= i < s.len() && #[trigger] s[i].0 == k),
    decreases s.len(),
{
    if s.len() > 0 {
        let t = s.drop_last();
        lemma_vmap_contains(t, k);
        assert(forall|i: int| 0 <= i < t.len() ==> #[trigger] t[i] == s[i]);
        if vmap_of(s).contains_key(k) {
            if s.last().0 == k {
                assert(s[s.len() - 1].0 == k);
            } else {
                let i = choose|i: int| 0 <= i < t.len() && #[trigger] t[i].0 == k;
                assert(s[i].0 == k);
            }
        }
        if exists|i: int| 0 <= i < s.len() && #[trigger] s[i].0 == k {
            let i = choose|i: int| 0 <= i < s.len() && #[trigger] s[i].0 == k;
            if i == s.len() - 1 {
                assert(vmap_of(s).contains_key(k));
            } else {
                assert(t[i].0 == k);
                assert(vmap_of(t).contains_key(k));
            }
        }
    }
}

proof fn lemma_vmap_get(s: Seq<(ViewHandle, ViewState)>, i: int)
    requires
        handles_unique(s),
        0 <= i < s.len(),
    ensures
        vmap_of(s).contains_key(s[i].0),
        vmap_of(s)[s[i].0] == s[i].1,
    decreases s.len(),
{
    if i < s.len() - 1 {
        let t = s.drop_last();
        assert(forall|j: int| 0 <= j < t.len() ==> #[trigger] t[j] == s[j]);
        lemma_vmap_get(t, i);
        assert(s.last().0 != s[i].0);
    }
}

proof fn lemma_vmap_update(s: Seq<(ViewHandle, ViewState)>, i: int, e: ViewState)
    requires
        handles_unique(s),
        0 <= i < s.len(),
    ensures
        vmap_of(s.update(i, (s[i].0, e))) == vmap_of(s).insert(s[i].0, e),
    decreases s.len(),
{
    let u = s.update(i, (s[i].0, e));
    if i == s.len() - 1 {
        assert(u.drop_last() =~= s.drop_last());
        assert(vmap_of(u) =~= vmap_of(s).insert(s[i].0, e));
    } else {
        let t = s.drop_last();
        assert(forall|j: int| 0 <= j < t.len() ==> #[trigger] t[j] == s[j]);
        lemma_vmap_update(t, i, e);
        assert(u.drop_last() =~= t.update(i, (s[i].0, e)));
        assert(u.last() == s.last());
        assert(s.last().0 != s[i].0);
        assert(vmap_of(u) =~= vmap_of(s).insert(s[i].0, e));
    }
}

proof fn lemma_vmap_remove(s: Seq<(ViewHandle, ViewState)>, i: int)
    requires
        handles_unique(s),
        0 <= i < s.len(),
    ensures
        vmap_of(s.remove(i)) == vmap_of(s).remove(s[i].0),
    decreases s.len(),
{
    if i == s.len() - 1 {
        assert(s.remove(i) =~= s.drop_last());
        lemma_vmap_contains(s.drop_last(), s[i].0);
        assert(forall|j: int| 0 <= j < s.len() - 1 ==> #[trigger] s.drop_last()[j] == s[j]);
        assert(!vmap_of(s.drop_last()).contains_key(s[i].0));
        assert(vmap_of(s.remove(i)) =~= vmap_of(s).remove(s[i].0));
    } else {
        let t = s.drop_last();
        assert(forall|j: int| 0 <= j < t.len() ==> #[trigger] t[j] == s[j]);
        lemma_vmap_remove(t, i);
        assert(s.remove(i).drop_last() =~= t.remove(i));
        assert(s.remove(i).last() == s.last());
        assert(s.last().0 != s[i].0);
        assert(vmap_of(s.remove(i)) =~= vmap_of(s).remove(s[i].0));
    }
}

impl ViewStore {
    /// The tracked views, as a map from handle to intended state.
    pub closed spec fn views(&self) -> Map<ViewHandle, ViewState> {
        vmap_of(self.views@)
    }

    /// The next handle value the counter will hand out.
    pub closed spec fn next(&self) -> usize {
        self.next_handle
    }

    /// The pending command log.
    pub closed spec fn log(&self) -> Seq<NativeCommand> {
        self.pending@
    }

    /// Whether `view` is currently tracked.
    pub open spec fn live(&self, view: ViewHandle) -> bool {
        self.views().contains_key(view)
    }

    /// Well-formedness: handles are unique and all below the counter.
    pub closed spec fn wf(&self) -> bool {
        &&& handles_unique(self.views@)
        &&& forall|i: int|
            0 <= i < self.views@.len() ==> #[trigger] self.views@[i].0.raw_id() < self.next_handle
    }

    /// Room for `n` more handle allocations.
    pub open spec fn can_alloc(&self, n: usize) -> bool {
        self.next() + n <= usize::MAX
    }

    /// Whether `n` more handles can still be allocated.
    pub fn handles_available(&self, n: usize) -> (r: bool)
        ensures
            r == self.can_alloc(n),
    {
        n <= usize::MAX - self.next_handle
    }

    /// Every live handle is below the allocation counter.
    pub proof fn lemma_live_bounded(&self, view: ViewHandle)
        requires
            self.wf(),
            self.live(view),
        ensures
            view.raw_id() < self.next(),
    {
        lemma_vmap_contains(self.views@, view);
        let i = choose|i: int| 0 <= i < self.views@.len() && #[trigger] self.views@[i].0 == view;
        assert(self.views@[i].0.raw_id() < self.next_handle);
    }

    /// An empty store.
    pub fn new() -> (s: ViewStore)
        ensures
            s.wf(),
            s.views() == Map::<ViewHandle, ViewState>::empty(),
            s.next() == 0,
            s.log() == Seq::<NativeCommand>::empty(),
    {
        ViewStore { views: Vec::new(), next_handle: 0, pending: Vec::new() }
    }

    fn index_of(&self, view: ViewHandle) -> (r: Option<usize>)
        ensures
            match r {
                Some(i) => i < self.views@.len() && self.views@[i as int].0 == view,
                None => forall|j: int|
                    0 <= j < self.views@.len() ==> #[trigger] self.views@[j].0 != view,
            },
    {
        let mut i: usize = 0;
        while i < self.views.len()
            invariant
                i <= self.views@.len(),
                forall|j: int| 0 <= j < i ==> #[trigger] self.views@[j].0 != view,
            decreases self.views@.len() - i,
        {
            if self.views[i].0 == view {
                return Some(i);
            }
            i = i + 1;
        }
        None
    }

    /// The intended state recorded for a view, if it is tracked.
    pub fn get_state(&self, view: ViewHandle) -> (r: Option<ViewState>)
        requires
            self.wf(),
        ensures
            r == if self.views().contains_key(view) {
                Some(self.views()[view])
            } else {
                None::<ViewState>
            },
    {
        let found = self.index_of(view);
        proof {
            lemma_vmap_contains(self.views@, view);
        }
        match found {
            Some(i) => {
                proof {
                    lemma_vmap_get(self.views@, i as int);
                }
                Some(self.views[i].1)
            },
            None => None,
        }
    }

    fn new_view(&mut self, state: ViewState, cmd: NativeCommand) -> (h: ViewHandle)
        requires
            old(self).wf(),
            old(self).can_alloc(1),
        ensures
            final(self).wf(),
            h.raw_id() == old(self).next(),
            !old(self).views().contains_key(h),
            final(self).next() == old(self).next() + 1,
            final(self).views() == old(self).views().insert(h, state),
            final(self).log() == old(self).log().push(cmd),
    {
        let h = ViewHandle(self.next_handle);
        proof {
            lemma_vmap_contains(self.views@, h);
            if vmap_of(self.views@).contains_key(h) {
                let i = choose|i: int|
                    0 <= i < self.views@.len() && #[trigger] self.views@[i].0 == h;
                assert(self.views@[i].0.raw_id() < self.next_handle);
                assert(false);
            }
        }
        self.next_handle = self.next_handle + 1;
        self.views.push((h, state));
        self.pending.push(cmd);
        proof {
            assert(self.views@.drop_last() =~= old(self).views@);
            assert(vmap_of(self.views@) =~= old(self).views().insert(h, state));
        }
        h
    }

    fn set_state(&mut self, view: ViewHandle, state: ViewState, cmd: NativeCommand)
        requires
            old(self).wf(),
            old(self).live(view),
        ensures
            final(self).wf(),
            final(self).next() == old(self).next(),
            final(self).views() == old(self).views().insert(view, state),
            final(self).log() == old(self).log().push(cmd),
    {
        let found = self.index_of(view);
        proof {
            lemma_vmap_contains(self.views@, view);
        }
        match found {
            Some(i) => {
                proof {
                    lemma_vmap_update(self.views@, i as int, state);
                }
                self.views[i].1 = state;
                assert(self.views@ =~= old(self).views@.update(
                    i as int,
                    (old(self).views@[i as int].0, state),
                ));
                self.pending.push(cmd);
            },
            None => {
                proof {
                    assert(false);
                }
            },
        }
    }

    /// Create an effect view for a window; `advanced` picks the native class.
    pub fn create_effect_view(&mut self, advanced: bool) -> (h: ViewHandle)
        requires
            old(self).wf(),
            old(self).can_alloc(1),
        ensures
            final(self).wf(),
            h.raw_id() == old(self).next(),
            !old(self).views().contains_key(h),
            final(self).next() == old(self).next() + 1,
            final(self).views() == old(self).views().insert(
                h,
                (ViewState {
                    kind: if advanced {
                        ViewKind::Advanced
                    } else {
                        ViewKind::Fallback
                    },
                    radius: 0,
                    tint: None,
                    fill: None,
                    variant: None,
                    scrim: None,
                    subdued: None,
                    parent: None,
                    attached: false,
                }),
            ),
            final(self).log() == old(self).log().push(
                (NativeCommand::CreateView { view: h, advanced }),
            ),
    {
        let state = ViewState {
            kind: if advanced {
                ViewKind::Advanced
            } else {
                ViewKind::Fallback
            },
            radius: 0,
            tint: None,
            fill: None,
            variant: None,
            scrim: None,
            subdued: None,
            parent: None,
            attached: false,
        };
        let h = ViewHandle(self.next_handle);
        let cmd = NativeCommand::CreateView { view: h, advanced };
        self.new_view(state, cmd)
    }

    /// Create a tint overlay inside `parent`; it is attached on creation.
    pub fn create_overlay(&mut self, parent: ViewHandle) -> (h: ViewHandle)
        requires
            old(self).wf(),
            old(self).can_alloc(1),
            old(self).live(parent),
        ensures
            final(self).wf(),
            h.raw_id() == old(self).next(),
            !old(self).views().contains_key(h),
            h != parent,
            final(self).next() == old(self).next() + 1,
            final(self).views() == old(self).views().insert(
                h,
                (ViewState {
                    kind: ViewKind::Overlay,
                    radius: 0,
                    tint: None,
                    fill: None,
                    variant: None,
                    scrim: None,
                    subdued: None,
                    parent: Some(parent),
                    attached: true,
                }),
            ),
            final(self).log() == old(self).log().push(
                (NativeCommand::CreateOverlay { overlay: h, parent }),
            ),
    {
        proof {
            self.lemma_live_bounded(parent);
        }
        let state = ViewState {
            kind: ViewKind::Overlay,
            radius: 0,
            tint: None,
            fill: None,
            variant: None,
            scrim: None,
            subdued: None,
            parent: Some(parent),
            attached: true,
        };
        let h = ViewHandle(self.next_handle);
        let cmd = NativeCommand::CreateOverlay { overlay: h, parent };
        self.new_view(state, cmd)
    }

    /// Create an opaque backing panel sized to the window's content view.
    pub fn create_backing_view(&mut self) -> (h: ViewHandle)
        requires
            old(self).wf(),
            old(self).can_alloc(1),
        ensures
            final(self).wf(),
            h.raw_id() == old(self).next(),
            !old(self).views().contains_key(h),
            final(self).next() == old(self).next() + 1,
            final(self).views() == old(self).views().insert(
                h,
                (ViewState {
                    kind: ViewKind::Backing,
                    radius: 0,
                    tint: None,
                    fill: None,
                    variant: None,
                    scrim: None,
                    subdued: None,
                    parent: None,
                    attached: false,
                }),
            ),
            final(self).log() == old(self).log().push(
                (NativeCommand::CreateBackingView { view: h }),
            ),
    {
        let state = ViewState {
            kind: ViewKind::Backing,
            radius: 0,
            tint: None,
            fill: None,
            variant: None,
            scrim: None,
            subdued: None,
            parent: None,
            attached: false,
        };
        let h = ViewHandle(self.next_handle);
        let cmd = NativeCommand::CreateBackingView { view: h };
        self.new_view(state, cmd)
    }

    /// Record and order the corner radius of a view's layer.
    pub fn set_radius(&mut self, view: ViewHandle, radius: u64)
        requires
            old(self).wf(),
            old(self).live(view),
        ensures
            final(self).wf(),
            final(self).next() == old(self).next(),
            final(self).views() == old(self).views().insert(
                view,
                (ViewState { radius, ..old(self).views()[view] }),
            ),
            final(self).log() == old(self).log().push(
                (NativeCommand::SetCornerRadius { view, radius }),
            ),
    {
        let st = self.get_state(view);
        match st {
            Some(mut s) => {
                s.radius = radius;
                self.set_state(view, s, NativeCommand::SetCornerRadius { view, radius });
            },
            None => {
                proof {
                    assert(false);
                }
            },
        }
    }

    /// Record and order the native tint of an advanced effect view.
    pub fn set_native_tint(&mut self, view: ViewHandle, color: RgbaColor)
        requires
            old(self).wf(),
            old(self).live(view),
        ensures
            final(self).wf(),
            final(self).next() == old(self).next(),
            final(self).views() == old(self).views().insert(
                view,
                (ViewState { tint: Some(color), ..old(self).views()[view] }),
            ),
            final(self).log() == old(self).log().push(
                (NativeCommand::SetNativeTint { view, color }),
            ),
    {
        let st = self.get_state(view);
        match st {
            Some(mut s) => {
                s.tint = Some(color);
                self.set_state(view, s, NativeCommand::SetNativeTint { view, color });
            },
            None => {
                proof {
                    assert(false);
                }
            },
        }
    }

    /// Record and order clearing the native tint.
    pub fn clear_native_tint(&mut self, view: ViewHandle)
        requires
            old(self).wf(),
            old(self).live(view),
        ensures
            final(self).wf(),
            final(self).next() == old(self).next(),
            final(self).views() == old(self).views().insert(
                view,
                (ViewState { tint: None, ..old(self).views()[view] }),
            ),
            final(self).log() == old(self).log().push((NativeCommand::ClearNativeTint { view })),
    {
        let st = self.get_state(view);
        match st {
            Some(mut s) => {
                s.tint = None;
                self.set_state(view, s, NativeCommand::ClearNativeTint { view });
            },
            None => {
                proof {
                    assert(false);
                }
            },
        }
    }

    /// Record and order painting a view's layer with a background color.
    pub fn paint_fill(&mut self, view: ViewHandle, color: RgbaColor)
        requires
            old(self).wf(),
            old(self).live(view),
        ensures
            final(self).wf(),
            final(self).next() == old(self).next(),
            final(self).views() == old(self).views().insert(
                view,
                (ViewState { fill: Some(color), ..old(self).views()[view] }),
            ),
            final(self).log() == old(self).log().push(
                (NativeCommand::PaintOverlay { overlay: view, color }),
            ),
    {
        let st = self.get_state(view);
        match st {
            Some(mut s) => {
                s.fill = Some(color);
                self.set_state(view, s, NativeCommand::PaintOverlay { overlay: view, color });
            },
            None => {
                proof {
                    assert(false);
                }
            },
        }
    }

    /// Record and order one probed setter call.
    pub fn set_property(&mut self, view: ViewHandle, property: ViewProperty, style: SetterStyle, value: i64)
        requires
            old(self).wf(),
            old(self).live(view),
        ensures
            final(self).wf(),
            final(self).next() == old(self).next(),
            final(self).views() == old(self).views().insert(
                view,
                with_property(old(self).views()[view], property, value),
            ),
            final(self).log() == old(self).log().push(
                (NativeCommand::SetViewProperty { view, property, style, value }),
            ),
    {
        let st = self.get_state(view);
        match st {
            Some(mut s) => {
                match property {
                    ViewProperty::Variant => {
                        s.variant = Some(value);
                    },
                    ViewProperty::Scrim => {
                        s.scrim = Some(value);
                    },
                    ViewProperty::Subdued => {
                        s.subdued = Some(value);
                    },
                }
                self.set_state(
                    view,
                    s,
                    NativeCommand::SetViewProperty { view, property, style, value },
                );
            },
            None => {
                proof {
                    assert(false);
                }
            },
        }
    }

    /// Record and order inserting a view behind all of a window's content.
    pub fn mark_attached(&mut self, view: ViewHandle)
        requires
            old(self).wf(),
            old(self).live(view),
        ensures
            final(self).wf(),
            final(self).next() == old(self).next(),
            final(self).views() == old(self).views().insert(
                view,
                (ViewState { attached: true, ..old(self).views()[view] }),
            ),
            final(self).log() == old(self).log().push(
                (NativeCommand::AttachBehindContent { view }),
            ),
    {
        let st = self.get_state(view);
        match st {
            Some(mut s) => {
                s.attached = true;
                self.set_state(view, s, NativeCommand::AttachBehindContent { view });
            },
            None => {
                proof {
                    assert(false);
                }
            },
        }
    }

    /// Record and order detaching a view; it is no longer tracked after.
    pub fn remove_view(&mut self, view: ViewHandle)
        requires
            old(self).wf(),
            old(self).live(view),
        ensures
            final(self).wf(),
            final(self).next() == old(self).next(),
            final(self).views() == old(self).views().remove(view),
            final(self).log() == old(self).log().push(
                (NativeCommand::RemoveFromSuperview { view }),
            ),
    {
        let found = self.index_of(view);
        proof {
            lemma_vmap_contains(self.views@, view);
        }
        match found {
            Some(i) => {
                proof {
                    lemma_vmap_remove(self.views@, i as int);
                }
                let _ = self.views.remove(i);
                self.pending.push(NativeCommand::RemoveFromSuperview { view });
            },
            None => {
                proof {
                    assert(false);
                }
            },
        }
    }

    /// Record a non-fatal warning in the log.
    pub fn warn(&mut self, kind: WarningKind)
        requires
            old(self).wf(),
        ensures
            final(self).wf(),
            final(self).next() == old(self).next(),
            final(self).views() == old(self).views(),
            final(self).log() == old(self).log().push((NativeCommand::Warn { kind })),
    {
        self.pending.push(NativeCommand::Warn { kind });
    }

    /// Hand the pending commands to the host layer and clear the log.
    pub fn drain(&mut self) -> (cmds: Vec<NativeCommand>)
        requires
            old(self).wf(),
        ensures
            final(self).wf(),
            final(self).next() == old(self).next(),
            final(self).views() == old(self).views(),
            final(self).log() == Seq::<NativeCommand>::empty(),
            cmds@ == old(self).log(),
    {
        let mut out: Vec<NativeCommand> = Vec::new();
        core::mem::swap(&mut out, &mut self.pending);
        out
    }
}

} // verus!
