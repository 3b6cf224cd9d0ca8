//! The two widget layers: which one shows, and what the layer manager
//! concludes from what the widgets of each layer report.

use vstd::prelude::*;

verus! {

/// Whether any of `flags` is set.
pub open spec fn any_set(flags: Seq<bool>) -> bool {
    exists|i: int| 0 <= i < flags.len() && #[trigger] flags[i]
}

/// The first title that is there, else the empty text.
pub open spec fn first_title_spec(titles: Seq<Option<String>>) -> Seq<char>
    decreases titles.len(),
{
    if titles.len() == 0 {
        Seq::empty()
    } else {
        match titles[0] {
            Some(t) => t@,
            None => first_title_spec(titles.drop_first()),
        }
    }
}

/// Which of the two layers is shown: the primary one (0) or the media one
/// (1).
pub struct LayerSelection {
    active: usize,
}

impl LayerSelection {
    pub closed spec fn active_spec(&self) -> usize {
        self.active
    }

    /// The layer index is 0 or 1.
    pub open spec fn wf(&self) -> bool {
        self.active_spec() < 2
    }

    /// The primary layer shows.
    pub fn new() -> (s: Self)
        ensures
            s.wf(),
            s.active_spec() == 0,
    {
        LayerSelection { active: 0 }
    }

    pub fn active(&self) -> (a: usize)
        ensures
            a == self.active_spec(),
    {
        self.active
    }

    /// Follow the Fn key: held, the media layer shows; released, the primary
    /// one. Returns whether the shown layer changed.
    pub fn follow_fn_key(&mut self, pressed: bool) -> (changed: bool)
        ensures
            final(self).wf(),
            final(self).active_spec() == (if pressed {
                1usize
            } else {
                0usize
            }),
            changed == (old(self).active_spec() != final(self).active_spec()),
    {
        let layer: usize = if pressed {
            1
        } else {
            0
        };
        let changed = self.active != layer;
        self.active = layer;
        changed
    }

    /// Show layer `layer`.
    pub fn switch(&mut self, layer: usize)
        requires
            layer < 2,
        ensures
            final(self).wf(),
            final(self).active_spec() == layer,
    {
        self.active = layer;
    }

    /// After a configuration reload the primary layer shows again.
    pub fn reset(&mut self)
        ensures
            final(self).wf(),
            final(self).active_spec() == 0,
    {
        self.active = 0;
    }
}

/// Whether any of `flags` is set.
pub fn any_of(flags: &Vec<bool>) -> (r: bool)
    ensures
        r == any_set(flags@),
{
    let mut i: usize = 0;
    while i < flags.len()
        invariant
            0 <= i <= flags@.len(),
            forall|k: int| 0 <= k < i ==> !#[trigger] flags@[k],
        decreases flags@.len() - i,
    {
        if flags[i] {
            return true;
        }
        i = i + 1;
    }
    false
}

/// After every widget of both layers reported whether it changed, whether
/// the shown layer needs a redraw: only its own widgets count.
pub fn shown_layer_changed(active: usize, changed: &[Vec<bool>; 2]) -> (r: bool)
    requires
        active < 2,
    ensures
        r == any_set(changed[active as int]@),
{
    any_of(&changed[active])
}

/// Whether a widget on either layer is disconnected, given whether each one
/// is connected.
pub fn any_disconnected(connected: &[Vec<bool>; 2]) -> (r: bool)
    ensures
        r == (exists|l: int, i: int|
            0 <= l < 2 && 0 <= i < connected[l]@.len() && !#[trigger] connected[l]@[i]),
{
    let mut l: usize = 0;
    while l < 2
        invariant
            0 <= l <= 2,
            forall|m: int, i: int| 0 <= m < l && 0 <= i < connected[m]@.len() ==> #[trigger] connected[m]@[i],
        decreases 2 - l,
    {
        let layer = &connected[l];
        let mut i: usize = 0;
        while i < layer.len()
            invariant
                0 <= l < 2,
                *layer == connected[l as int],
                0 <= i <= layer@.len(),
                forall|m: int, k: int| 0 <= m < l && 0 <= k < connected[m]@.len() ==> #[trigger] connected[m]@[k],
                forall|k: int| 0 <= k < i ==> #[trigger] layer@[k],
            decreases layer@.len() - i,
        {
            if !layer[i] {
                assert(!connected[l as int]@[i as int]);
                return true;
            }
            i = i + 1;
        }
        l = l + 1;
    }
    false
}

/// The window title the shown layer offers: the first one a widget gives,
/// else the empty text.
pub fn first_title(titles: Vec<Option<String>>) -> (r: String)
    ensures
        r@ == first_title_spec(titles@),
{
    let mut i: usize = 0;
    assert(titles@.skip(0) =~= titles@);
    while i < titles.len()
        invariant
            0 <= i <= titles@.len(),
            first_title_spec(titles@) == first_title_spec(titles@.skip(i as int)),
        decreases titles@.len() - i,
    {
        assert(titles@.skip(i as int).drop_first() =~= titles@.skip(i + 1));
        if let Some(t) = &titles[i] {
            return t.clone();
        }
        i = i + 1;
    }
    String::new()
}

} // verus!
