//! The widget layers of the canvas: ordered widget instances with their
//! placement, the layer the user controls, and the labels of the layer list.
//!
//! The widget itself is a type parameter `W`: the layer model only places,
//! selects and orders widgets.
use vstd::prelude::*;

use crate::names::chars_equal;
use crate::text::{decimal, decimal_exec, str_chars, string_from_chars};
use crate::types::Resolution;
use crate::composition::CanvasPolicy;
use crate::widgets::{spec_by_type_id, WidgetDescriptor, WidgetSpec};

verus! {

/// Unique identifier of a widget instance on the canvas.
#[derive(Debug, Clone, Copy, PartialEq, Eq, Structural)]
pub struct WidgetId(pub usize);

/// Which layer the user is currently controlling.
#[derive(Debug, Clone, Copy, PartialEq, Eq, Structural)]
pub enum LayerSelection {
    Base,
    Widget(WidgetId),
}

/// A widget instance placed on the canvas.
#[derive(Debug)]
pub struct WidgetLayer<W> {
    pub id: WidgetId,
    pub type_id: &'static str,
    pub descriptor: WidgetDescriptor,
    pub widget: W,
    pub position: (i32, i32),
    pub size: (u32, u32),
    pub visible: bool,
    /// Layer opacity: 0 = fully transparent, 255 = fully opaque.
    pub opacity: u8,
}

/// `(resolution - size) / 2` on each axis, rounded toward zero.
pub open spec fn centered(extent: u32, size: u32) -> int {
    let d = (extent as i32) - (size as i32);
    if d >= 0 {
        d / 2
    } else {
        -((-d) / 2)
    }
}

/// The widget's size fits the `i32` arithmetic of placement.
pub open spec fn placement_fits(resolution: Resolution, size: (u32, u32)) -> bool {
    &&& i32::MIN <= (resolution.width as i32) - (size.0 as i32) <= i32::MAX
    &&& i32::MIN <= (resolution.height as i32) - (size.1 as i32) <= i32::MAX
}

/// The position that centers a widget of `size` on the LCD.
pub open spec fn default_position(resolution: Resolution, size: (u32, u32)) -> (int, int) {
    (centered(resolution.width, size.0), centered(resolution.height, size.1))
}

/// Center a widget of the given size on the LCD.
pub fn default_widget_position(resolution: Resolution, widget_size: (u32, u32)) -> (p: (i32, i32))
    requires
        placement_fits(resolution, widget_size),
    ensures
        p.0 == default_position(resolution, widget_size).0,
        p.1 == default_position(resolution, widget_size).1,
{
    (
        ((resolution.width as i32) - (widget_size.0 as i32)) / 2,
        ((resolution.height as i32) - (widget_size.1 as i32)) / 2,
    )
}

/// `x` kept within `[lo, hi]`.
pub open spec fn clamp_u32(x: u32, lo: u32, hi: u32) -> u32 {
    if x < lo {
        lo
    } else if x > hi {
        hi
    } else {
        x
    }
}

/// The larger of two numbers.
pub open spec fn max_u32(a: u32, b: u32) -> u32 {
    if a > b {
        a
    } else {
        b
    }
}

/// `x` kept within `[lo, hi]`.
pub open spec fn clamp_int(x: int, lo: int, hi: int) -> int {
    if x < lo {
        lo
    } else if x > hi {
        hi
    } else {
        x
    }
}

/// Moving `layer` by `delta` stays within `i32` and its bounds are ordered
/// (with `i32` casts of the sizes, as the moving code makes them).
pub open spec fn move_fits<W>(layer: WidgetLayer<W>, delta: (i32, i32), resolution: Resolution) -> bool {
    &&& i32::MIN <= layer.position.0 + delta.0 <= i32::MAX
    &&& i32::MIN <= layer.position.1 + delta.1 <= i32::MAX
    &&& (layer.size.0 as i32) > i32::MIN
    &&& (layer.size.1 as i32) > i32::MIN
    &&& -(layer.size.0 as i32) + 10 <= i32::MAX
    &&& -(layer.size.1 as i32) + 10 <= i32::MAX
    &&& -(layer.size.0 as i32) + 10 <= (resolution.width as i32) - 10
    &&& -(layer.size.1 as i32) + 10 <= (resolution.height as i32) - 10
}

/// Where `layer` lands when moved by `delta`: at least 10 pixels of it stay
/// on the LCD on each axis.
pub open spec fn moved_position<W>(layer: WidgetLayer<W>, delta: (i32, i32), resolution: Resolution) -> (i32, i32) {
    (
        clamp_int(layer.position.0 + delta.0, -(layer.size.0 as i32) + 10, (resolution.width as i32) - 10) as i32,
        clamp_int(layer.position.1 + delta.1, -(layer.size.1 as i32) + 10, (resolution.height as i32) - 10) as i32,
    )
}

/// How many of `layers` have the catalog name `name`.
pub open spec fn count_named<W>(layers: Seq<WidgetLayer<W>>, name: Seq<char>) -> nat
    decreases layers.len(),
{
    if layers.len() == 0 {
        0
    } else {
        count_named(layers.drop_last(), name) + if layers.last().descriptor.name@ == name {
            1nat
        } else {
            0nat
        }
    }
}

/// The label of layer `i` in the layer list: its catalog name, numbered
/// `#n` (counting layers of that name from the bottom) when several layers
/// share the name.
pub open spec fn layer_label<W>(layers: Seq<WidgetLayer<W>>, i: int) -> Seq<char> {
    let name = layers[i].descriptor.name@;
    if count_named(layers, name) > 1 {
        name + seq![' ', '#'] + decimal(count_named(layers.take(i + 1), name))
    } else {
        name
    }
}

/// How many of the first `upto` layers have the catalog name `name`.
fn count_named_exec<W>(layers: &Vec<WidgetLayer<W>>, upto: usize, name: &Vec<char>) -> (c: usize)
    requires
        upto <= layers@.len(),
    ensures
        c == count_named(layers@.take(upto as int), name@),
        c <= upto,
{
    let mut c: usize = 0;
    let mut k: usize = 0;
    assert(layers@.take(0) =~= Seq::<WidgetLayer<W>>::empty());
    while k < upto
        invariant
            k <= upto <= layers@.len(),
            c <= k,
            c == count_named(layers@.take(k as int), name@),
        decreases upto - k,
    {
        let other = str_chars(layers[k].descriptor.name);
        assert(layers@.take(k + 1).drop_last() =~= layers@.take(k as int));
        if chars_equal(&other, name) {
            c = c + 1;
        }
        k = k + 1;
    }
    c
}

/// A widget of a loaded preset: its type id, the widget built from its
/// saved configuration (`None` when that failed) and its placement.
pub struct RestoredWidget<W> {
    pub type_id: String,
    pub widget: Option<W>,
    pub position: (i32, i32),
    pub size: (u32, u32),
    pub opacity: u8,
}

/// The widget can be restored: its type is in the catalog and it was built.
pub open spec fn is_restorable<W>(r: RestoredWidget<W>) -> bool {
    &&& exists|i: int|
        0 <= i < crate::widgets::registry_len() && (#[trigger] crate::widgets::registry_type_id(
            i,
        ))@ == r.type_id@
    &&& r.widget is Some
}

/// The restorable widgets among `items`, in order.
pub open spec fn restorable<W>(items: Seq<RestoredWidget<W>>) -> Seq<RestoredWidget<W>>
    decreases items.len(),
{
    if items.len() == 0 {
        Seq::empty()
    } else {
        let before = restorable(items.drop_last());
        if is_restorable(items.last()) {
            before.push(items.last())
        } else {
            before
        }
    }
}

/// The canvas's widget layers, bottom to top, and the active layer.
pub struct WidgetLayers<W> {
    layers: Vec<WidgetLayer<W>>,
    active_layer: LayerSelection,
    next_id: usize,
}

impl<W> WidgetLayers<W> {
    pub closed spec fn spec_layers(&self) -> Seq<WidgetLayer<W>> {
        self.layers@
    }

    pub closed spec fn spec_active(&self) -> LayerSelection {
        self.active_layer
    }

    pub closed spec fn spec_next_id(&self) -> usize {
        self.next_id
    }

    /// Layer ids are distinct and below the next id to hand out.
    #[verifier::type_invariant]
    spec fn wf(self) -> bool {
        &&& forall|i: int| 0 <= i < self.layers@.len() ==> (#[trigger] self.layers@[i]).id.0 < self.next_id
        &&& forall|i: int, j: int|
            0 <= i < self.layers@.len() && 0 <= j < self.layers@.len() && i != j ==> self.layers@[i].id
                != self.layers@[j].id
    }

    /// No widgets; the background is active.
    pub fn new() -> (c: Self)
        ensures
            c.spec_layers().len() == 0,
            c.spec_active() == LayerSelection::Base,
            c.spec_next_id() == 0,
    {
        WidgetLayers { layers: Vec::new(), active_layer: LayerSelection::Base, next_id: 0 }
    }

    /// The layers, bottom to top. Whatever operations built them, their ids
    /// are distinct and below the next id to hand out.
    pub fn layers(&self) -> (l: &Vec<WidgetLayer<W>>)
        ensures
            l@ == self.spec_layers(),
            forall|i: int| 0 <= i < l@.len() ==> (#[trigger] l@[i]).id.0 < self.spec_next_id(),
            forall|i: int, j: int|
                0 <= i < l@.len() && 0 <= j < l@.len() && i != j ==> l@[i].id != l@[j].id,
    {
        proof {
            use_type_invariant(self);
        }
        &self.layers
    }

    pub fn has_widgets(&self) -> (b: bool)
        ensures
            b == (self.spec_layers().len() > 0),
    {
        self.layers.len() > 0
    }

    /// Whether some layer holds a widget of the given category.
    pub fn has_widgets_in_category(&self, category: &str) -> (b: bool)
        ensures
            b == exists|i: int|
                0 <= i < self.spec_layers().len() && (#[trigger] self.spec_layers()[i]).descriptor.category@
                    == category@,
    {
        let wanted = str_chars(category);
        let mut i: usize = 0;
        while i < self.layers.len()
            invariant
                wanted@ == category@,
                forall|k: int|
                    0 <= k < i ==> (#[trigger] self.layers@[k]).descriptor.category@ != category@,
            decreases self.layers@.len() - i,
        {
            let c = str_chars(self.layers[i].descriptor.category);
            if chars_equal(&c, &wanted) {
                assert(self.spec_layers()[i as int].descriptor.category@ == category@);
                return true;
            }
            i = i + 1;
        }
        false
    }

    pub fn active_layer(&self) -> (s: LayerSelection)
        ensures
            s == self.spec_active(),
    {
        self.active_layer
    }

    pub fn select_layer(&mut self, selection: LayerSelection)
        ensures
            final(self).spec_active() == selection,
            final(self).spec_layers() == old(self).spec_layers(),
            final(self).spec_next_id() == old(self).spec_next_id(),
    {
        proof {
            use_type_invariant(&*self);
        }
        self.active_layer = selection;
    }

    /// Position of the layer with the given id, if there is one.
    pub fn position_of(&self, id: WidgetId) -> (r: Option<usize>)
        ensures
            match r {
                Some(i) => i < self.spec_layers().len() && self.spec_layers()[i as int].id == id,
                None => forall|k: int|
                    0 <= k < self.spec_layers().len() ==> (#[trigger] self.spec_layers()[k]).id != id,
            },
    {
        let mut i: usize = 0;
        while i < self.layers.len()
            invariant
                forall|k: int| 0 <= k < i ==> (#[trigger] self.layers@[k]).id != id,
            decreases self.layers@.len() - i,
        {
            if self.layers[i].id == id {
                return Some(i);
            }
            i = i + 1;
        }
        None
    }

    /// Position of the active widget layer.
    pub closed spec fn active_index_spec(&self) -> Option<int> {
        match self.active_layer {
            LayerSelection::Base => None,
            LayerSelection::Widget(id) => if exists|k: int|
                0 <= k < self.layers@.len() && (#[trigger] self.layers@[k]).id == id {
                Some(choose|k: int| 0 <= k < self.layers@.len() && (#[trigger] self.layers@[k]).id == id)
            } else {
                None
            },
        }
    }

    proof fn lemma_active_index_unique(&self, i: int)
        requires
            self.wf(),
            0 <= i < self.layers@.len(),
            self.active_layer == LayerSelection::Widget(self.layers@[i].id),
        ensures
            self.active_index_spec() == Some(i),
    {
        let id = self.layers@[i].id;
        assert(0 <= i < self.layers@.len() && self.layers@[i].id == id);
        let c = choose|k: int| 0 <= k < self.layers@.len() && (#[trigger] self.layers@[k]).id == id;
        assert(c == i);
    }

    /// Position of the active widget layer, if a widget is active and present.
    pub fn active_index(&self) -> (r: Option<usize>)
        ensures
            r matches Some(i) ==> self.active_index_spec() == Some(i as int),
            r is None ==> self.active_index_spec() is None,
            match r {
                Some(i) => i < self.spec_layers().len() && self.spec_active() == LayerSelection::Widget(
                    self.spec_layers()[i as int].id,
                ),
                None => match self.spec_active() {
                    LayerSelection::Base => true,
                    LayerSelection::Widget(id) => forall|k: int|
                        0 <= k < self.spec_layers().len() ==> (#[trigger] self.spec_layers()[k]).id
                            != id,
                },
            },
    {
        let id = match self.active_layer {
            LayerSelection::Base => {
                return None;
            },
            LayerSelection::Widget(id) => id,
        };
        proof {
            use_type_invariant(&*self);
        }
        let mut i: usize = 0;
        while i < self.layers.len()
            invariant
                self.active_layer == LayerSelection::Widget(id),
                forall|k: int| 0 <= k < i ==> (#[trigger] self.layers@[k]).id != id,
            decreases self.layers@.len() - i,
        {
            if self.layers[i].id == id {
                proof {
                    use_type_invariant(&*self);
                    self.lemma_active_index_unique(i as int);
                }
                return Some(i);
            }
            i = i + 1;
        }
        None
    }

    /// The active widget layer, if a widget is active.
    pub fn active_widget_layer(&self) -> (l: Option<&WidgetLayer<W>>)
        ensures
            match l {
                Some(layer) => exists|i: int|
                    0 <= i < self.spec_layers().len() && *layer == #[trigger] self.spec_layers()[i]
                        && self.spec_active() == LayerSelection::Widget(layer.id),
                None => match self.spec_active() {
                    LayerSelection::Base => true,
                    LayerSelection::Widget(id) => forall|k: int|
                        0 <= k < self.spec_layers().len() ==> (#[trigger] self.spec_layers()[k]).id
                            != id,
                },
            },
    {
        match self.active_index() {
            Some(i) => Some(&self.layers[i]),
            None => None,
        }
    }

    fn take_layer(&mut self, i: usize) -> (layer: WidgetLayer<W>)
        requires
            i < old(self).spec_layers().len(),
        ensures
            layer == old(self).spec_layers()[i as int],
            final(self).spec_layers() == old(self).spec_layers().remove(i as int),
            final(self).spec_active() == old(self).spec_active(),
            final(self).spec_next_id() == old(self).spec_next_id(),
    {
        proof {
            use_type_invariant(&*self);
        }
        let mut layers: Vec<WidgetLayer<W>> = Vec::new();
        std::mem::swap(&mut layers, &mut self.layers);
        let layer = layers.remove(i);
        self.layers = layers;
        layer
    }

    fn put_layer(&mut self, i: usize, layer: WidgetLayer<W>)
        requires
            i <= old(self).spec_layers().len(),
            layer.id.0 < old(self).spec_next_id(),
            forall|k: int| 0 <= k < old(self).spec_layers().len() ==> (#[trigger] old(self).spec_layers()[k]).id != layer.id,
        ensures
            final(self).spec_layers() == old(self).spec_layers().insert(i as int, layer),
            final(self).spec_active() == old(self).spec_active(),
            final(self).spec_next_id() == old(self).spec_next_id(),
    {
        proof {
            use_type_invariant(&*self);
        }
        let mut layers: Vec<WidgetLayer<W>> = Vec::new();
        std::mem::swap(&mut layers, &mut self.layers);
        layers.insert(i, layer);
        self.layers = layers;
    }

    fn edit_at<F: FnOnce(W) -> W>(&mut self, i: usize, edit: F)
        requires
            i < old(self).spec_layers().len(),
            forall|w: W| call_requires(edit, (w,)),
        ensures
            ({
                let before = old(self).spec_layers()[i as int];
                let after = final(self).spec_layers()[i as int];
                &&& final(self).spec_layers() == old(self).spec_layers().update(
                    i as int,
                    WidgetLayer { widget: after.widget, ..before },
                )
                &&& call_ensures(edit, (before.widget,), after.widget)
            }),
            final(self).spec_active() == old(self).spec_active(),
            final(self).spec_next_id() == old(self).spec_next_id(),
    {
        proof {
            use_type_invariant(&*self);
        }
        let ghost before = self.spec_layers();
        let layer = self.take_layer(i);
        let WidgetLayer { id, type_id, descriptor, widget, position, size, visible, opacity } = layer;
        let widget = edit(widget);
        let updated = WidgetLayer { id, type_id, descriptor, widget, position, size, visible, opacity };
        assert forall|k: int| 0 <= k < self.spec_layers().len() implies (#[trigger] self.spec_layers()[k]).id != updated.id by {
            if k < i {
                assert(self.spec_layers()[k] == before[k]);
            } else {
                assert(self.spec_layers()[k] == before[k + 1]);
            }
        }
        self.put_layer(i, updated);
        assert(self.spec_layers() =~= before.update(i as int, updated));
    }

    /// Apply `edit` to the widget of the active layer, which keeps its place,
    /// size and opacity; false when no widget is active.
    pub fn edit_active_widget<F: FnOnce(W) -> W>(&mut self, edit: F) -> (changed: bool)
        requires
            forall|w: W| call_requires(edit, (w,)),
        ensures
            match old(self).active_index_spec() {
                Some(i) => {
                    let before = old(self).spec_layers()[i];
                    let after = final(self).spec_layers()[i];
                    &&& changed
                    &&& final(self).spec_layers() == old(self).spec_layers().update(
                        i,
                        WidgetLayer { widget: after.widget, ..before },
                    )
                    &&& call_ensures(edit, (before.widget,), after.widget)
                },
                None => !changed && final(self).spec_layers() == old(self).spec_layers(),
            },
            final(self).spec_active() == old(self).spec_active(),
            final(self).spec_next_id() == old(self).spec_next_id(),
    {
        match self.active_index() {
            None => false,
            Some(i) => {
                self.edit_at(i, edit);
                true
            },
        }
    }

    /// Apply `edit` to the widget of the layer with id `id`, which keeps its
    /// place, size and opacity; false when there is no such layer.
    pub fn edit_widget<F: FnOnce(W) -> W>(&mut self, id: WidgetId, edit: F) -> (changed: bool)
        requires
            forall|w: W| call_requires(edit, (w,)),
        ensures
            changed == exists|k: int|
                0 <= k < old(self).spec_layers().len() && (#[trigger] old(self).spec_layers()[k]).id
                    == id,
            forall|k: int|
                0 <= k < old(self).spec_layers().len() && (#[trigger] old(self).spec_layers()[k]).id
                    == id ==> {
                    let before = old(self).spec_layers()[k];
                    let after = final(self).spec_layers()[k];
                    &&& final(self).spec_layers() == old(self).spec_layers().update(
                        k,
                        WidgetLayer { widget: after.widget, ..before },
                    )
                    &&& call_ensures(edit, (before.widget,), after.widget)
                },
            !changed ==> final(self).spec_layers() == old(self).spec_layers(),
            final(self).spec_active() == old(self).spec_active(),
            final(self).spec_next_id() == old(self).spec_next_id(),
    {
        proof {
            use_type_invariant(&*self);
        }
        match self.position_of(id) {
            None => false,
            Some(i) => {
                self.edit_at(i, edit);
                true
            },
        }
    }

    /// Set the opacity of the active widget; false when no widget is active.
    pub fn set_active_widget_opacity(&mut self, opacity: u8) -> (changed: bool)
        ensures
            match old(self).active_index_spec() {
                Some(i) => changed && final(self).spec_layers() == old(self).spec_layers().update(
                    i,
                    WidgetLayer { opacity, ..old(self).spec_layers()[i] },
                ),
                None => !changed && final(self).spec_layers() == old(self).spec_layers(),
            },
            final(self).spec_active() == old(self).spec_active(),
            final(self).spec_next_id() == old(self).spec_next_id(),
    {
        match self.active_index() {
            None => false,
            Some(i) => {
                proof {
                    use_type_invariant(&*self);
                    self.lemma_active_index_unique(i as int);
                }
                let ghost before = self.spec_layers();
                let layer = self.take_layer(i);
                let updated = WidgetLayer { opacity, ..layer };
                assert forall|k: int| 0 <= k < self.spec_layers().len() implies (#[trigger] self.spec_layers()[k]).id != updated.id by {
                    if k < i {
                        assert(self.spec_layers()[k] == before[k]);
                    } else {
                        assert(self.spec_layers()[k] == before[k + 1]);
                    }
                }
                self.put_layer(i, updated);
                assert(self.spec_layers() =~= old(self).spec_layers().update(i as int, updated));
                true
            },
        }
    }


    fn place_layer(&mut self, i: usize, position: (i32, i32), size: (u32, u32))
        requires
            i < old(self).spec_layers().len(),
        ensures
            final(self).spec_layers() == old(self).spec_layers().update(
                i as int,
                WidgetLayer { position, size, ..old(self).spec_layers()[i as int] },
            ),
            final(self).spec_active() == old(self).spec_active(),
            final(self).spec_next_id() == old(self).spec_next_id(),
    {
        proof {
            use_type_invariant(&*self);
        }
        let ghost before = self.spec_layers();
        let layer = self.take_layer(i);
        let updated = WidgetLayer { position, size, ..layer };
        assert forall|k: int| 0 <= k < self.spec_layers().len() implies (#[trigger] self.spec_layers()[k]).id != updated.id by {
            if k < i {
                assert(self.spec_layers()[k] == before[k]);
            } else {
                assert(self.spec_layers()[k] == before[k + 1]);
            }
        }
        self.put_layer(i, updated);
        assert(self.spec_layers() =~= before.update(i as int, updated));
    }

    /// Resize the active widget to `new_size`, kept between 10 pixels and
    /// the LCD size (at least 10) on each axis; false when no widget is active.
    pub fn resize_active_widget(&mut self, new_size: (u32, u32), resolution: Resolution) -> (changed: bool)
        ensures
            match old(self).active_index_spec() {
                Some(i) => changed && final(self).spec_layers() == old(self).spec_layers().update(
                    i,
                    WidgetLayer { size: (clamp_u32(new_size.0, 10, max_u32(resolution.width, 10)), clamp_u32(new_size.1, 10, max_u32(resolution.height, 10))), ..old(self).spec_layers()[i] },
                ),
                None => !changed && final(self).spec_layers() == old(self).spec_layers(),
            },
            final(self).spec_active() == old(self).spec_active(),
            final(self).spec_next_id() == old(self).spec_next_id(),
    {
        match self.active_index() {
            None => false,
            Some(i) => {
                let max_w = if resolution.width > 10 { resolution.width } else { 10 };
                let max_h = if resolution.height > 10 { resolution.height } else { 10 };
                let w = if new_size.0 < 10 { 10 } else if new_size.0 > max_w { max_w } else { new_size.0 };
                let h = if new_size.1 < 10 { 10 } else if new_size.1 > max_h { max_h } else { new_size.1 };
                let position = self.layers[i].position;
                self.place_layer(i, position, (w, h));
                true
            },
        }
    }

    /// Move the active widget by `delta`, keeping at least 10 pixels of it on
    /// the LCD; false when no widget is active.
    pub fn move_active_widget(&mut self, delta: (i32, i32), resolution: Resolution) -> (changed: bool)
        requires
            old(self).active_index_spec() matches Some(i) ==> move_fits(old(self).spec_layers()[i], delta, resolution),
        ensures
            match old(self).active_index_spec() {
                Some(i) => changed && final(self).spec_layers() == old(self).spec_layers().update(
                    i,
                    WidgetLayer { position: moved_position(old(self).spec_layers()[i], delta, resolution), ..old(self).spec_layers()[i] },
                ),
                None => !changed && final(self).spec_layers() == old(self).spec_layers(),
            },
            final(self).spec_active() == old(self).spec_active(),
            final(self).spec_next_id() == old(self).spec_next_id(),
    {
        match self.active_index() {
            None => false,
            Some(i) => {
                let size = self.layers[i].size;
                let pos = self.layers[i].position;
                let x = pos.0 + delta.0;
                let y = pos.1 + delta.1;
                let min_visible: i32 = 10;
                let lcd_w = resolution.width as i32;
                let lcd_h = resolution.height as i32;
                let min_x = -(size.0 as i32) + min_visible;
                let max_x = lcd_w - min_visible;
                let min_y = -(size.1 as i32) + min_visible;
                let max_y = lcd_h - min_visible;
                let nx = if x < min_x { min_x } else if x > max_x { max_x } else { x };
                let ny = if y < min_y { min_y } else if y > max_y { max_y } else { y };
                self.place_layer(i, (nx, ny), size);
                true
            },
        }
    }

    /// Put the active widget back to its default size, centered; false when
    /// no widget is active or it is already there.
    pub fn reset_active_widget(&mut self, resolution: Resolution) -> (changed: bool)
        requires
            old(self).active_index_spec() matches Some(i) ==> placement_fits(resolution, old(self).spec_layers()[i].descriptor.default_size),
        ensures
            match old(self).active_index_spec() {
                Some(i) => {
                    let l = old(self).spec_layers()[i];
                    let d = l.descriptor.default_size;
                    let p = default_position(resolution, d);
                    if l.size == d && l.position.0 == p.0 && l.position.1 == p.1 {
                        !changed && final(self).spec_layers() == old(self).spec_layers()
                    } else {
                        changed && final(self).spec_layers() == old(self).spec_layers().update(
                            i,
                            WidgetLayer { position: (p.0 as i32, p.1 as i32), size: d, ..l },
                        )
                    }
                },
                None => !changed && final(self).spec_layers() == old(self).spec_layers(),
            },
            final(self).spec_active() == old(self).spec_active(),
            final(self).spec_next_id() == old(self).spec_next_id(),
    {
        match self.active_index() {
            None => false,
            Some(i) => {
                let default_size = self.layers[i].descriptor.default_size;
                let default_position = default_widget_position(resolution, default_size);
                let l = &self.layers[i];
                if l.size.0 == default_size.0 && l.size.1 == default_size.1 && l.position.0
                    == default_position.0 && l.position.1 == default_position.1 {
                    return false;
                }
                self.place_layer(i, default_position, default_size);
                true
            },
        }
    }

    /// Whether resetting the active widget would change it.
    pub fn active_widget_can_reset(&self, resolution: Resolution) -> (b: bool)
        requires
            self.active_index_spec() matches Some(i) ==> placement_fits(resolution, self.spec_layers()[i].descriptor.default_size),
        ensures
            b == match self.active_index_spec() {
                Some(i) => {
                    let l = self.spec_layers()[i];
                    let d = l.descriptor.default_size;
                    let p = default_position(resolution, d);
                    !(l.size == d && l.position.0 == p.0 && l.position.1 == p.1)
                },
                None => false,
            },
    {
        match self.active_index() {
            None => false,
            Some(i) => {
                let l = &self.layers[i];
                let default_size = l.descriptor.default_size;
                let p = default_widget_position(resolution, default_size);
                !(l.size.0 == default_size.0 && l.size.1 == default_size.1 && l.position.0 == p.0
                    && l.position.1 == p.1)
            },
        }
    }

    /// `W×H` of the active widget, empty when no widget is active.
    pub fn active_widget_size_label(&self) -> (label: String)
        ensures
            label@ == match self.active_index_spec() {
                Some(i) => decimal(self.spec_layers()[i].size.0 as nat) + seq!['×'] + decimal(self.spec_layers()[i].size.1 as nat),
                None => Seq::<char>::empty(),
            },
    {
        match self.active_index() {
            None => {
                let e: Vec<char> = Vec::new();
                string_from_chars(&e)
            },
            Some(i) => {
                let (w, h) = self.layers[i].size;
                let mut out = decimal_exec(w as u64);
                out.push('×');
                let hd = decimal_exec(h as u64);
                let ghost before = out@;
                let mut k: usize = 0;
                while k < hd.len()
                    invariant
                        k <= hd@.len(),
                        out@ == before + hd@.take(k as int),
                    decreases hd@.len() - k,
                {
                    out.push(hd[k]);
                    k = k + 1;
                    assert(out@ =~= before + hd@.take(k as int));
                }
                assert(hd@.take(hd@.len() as int) =~= hd@);
                string_from_chars(&out)
            },
        }
    }


    /// The entries of the layer dropdown: the background, then each widget
    /// layer with its label.
    pub fn layer_options(&self) -> (opts: Vec<(LayerSelection, String)>)
        ensures
            opts@.len() == self.spec_layers().len() + 1,
            opts@[0].0 == LayerSelection::Base,
            opts@[0].1@ == "Background"@,
            forall|i: int|
                0 <= i < self.spec_layers().len() ==> (#[trigger] opts@[i + 1]).0
                    == LayerSelection::Widget(self.spec_layers()[i].id) && opts@[i + 1].1@
                    == layer_label(self.spec_layers(), i),
    {
        let mut opts: Vec<(LayerSelection, String)> = Vec::new();
        opts.push((LayerSelection::Base, "Background".to_owned()));
        let n = self.layers.len();
        let mut i: usize = 0;
        while i < n
            invariant
                n == self.layers@.len(),
                i <= n,
                opts@.len() == i + 1,
                opts@[0].0 == LayerSelection::Base,
                opts@[0].1@ == "Background"@,
                forall|k: int|
                    0 <= k < i ==> (#[trigger] opts@[k + 1]).0 == LayerSelection::Widget(
                        self.layers@[k].id,
                    ) && opts@[k + 1].1@ == layer_label(self.layers@, k),
            decreases n - i,
        {
            let name = str_chars(self.layers[i].descriptor.name);
            let total = count_named_exec(&self.layers, n, &name);
            let seen = count_named_exec(&self.layers, i + 1, &name);
            assert(self.layers@.take(n as int) =~= self.layers@);
            let label = if total > 1 {
                let mut out = name;
                out.push(' ');
                out.push('#');
                let digits = decimal_exec(seen as u64);
                let ghost before = out@;
                let mut k: usize = 0;
                while k < digits.len()
                    invariant
                        k <= digits@.len(),
                        out@ == before + digits@.take(k as int),
                    decreases digits@.len() - k,
                {
                    out.push(digits[k]);
                    k = k + 1;
                    assert(out@ =~= before + digits@.take(k as int));
                }
                assert(digits@.take(digits@.len() as int) =~= digits@);
                string_from_chars(&out)
            } else {
                string_from_chars(&name)
            };
            opts.push((LayerSelection::Widget(self.layers[i].id), label));
            i = i + 1;
        }
        opts
    }

    /// Remove every widget and make the background active.
    pub fn clear_widgets(&mut self)
        ensures
            final(self).spec_layers().len() == 0,
            final(self).spec_active() == LayerSelection::Base,
            final(self).spec_next_id() == old(self).spec_next_id(),
    {
        self.layers = Vec::new();
        self.active_layer = LayerSelection::Base;
    }

    /// Add a widget on top with the given placement; returns its new id.
    pub fn add_configured_widget(
        &mut self,
        spec: &WidgetSpec,
        widget: W,
        position: (i32, i32),
        size: (u32, u32),
        opacity: u8,
    ) -> (id: WidgetId)
        requires
            old(self).spec_next_id() < usize::MAX,
        ensures
            id.0 == old(self).spec_next_id(),
            forall|i: int|
                0 <= i < old(self).spec_layers().len() ==> (#[trigger] old(self).spec_layers()[i]).id
                    != id,
            final(self).spec_next_id() == old(self).spec_next_id() + 1,
            final(self).spec_layers() == old(self).spec_layers().push(
                WidgetLayer {
                    id,
                    type_id: spec.type_id,
                    descriptor: spec.descriptor,
                    widget,
                    position,
                    size,
                    visible: true,
                    opacity,
                },
            ),
            final(self).spec_active() == old(self).spec_active(),
    {
        proof {
            use_type_invariant(&*self);
        }
        let id = WidgetId(self.next_id);
        let mut layers: Vec<WidgetLayer<W>> = Vec::new();
        std::mem::swap(&mut layers, &mut self.layers);
        layers.push(
            WidgetLayer {
                id,
                type_id: spec.type_id,
                descriptor: spec.descriptor,
                widget,
                position,
                size,
                visible: true,
                opacity,
            },
        );
        self.next_id = self.next_id + 1;
        self.layers = layers;
        id
    }

    /// Add a widget on top, at its default size, centered, fully opaque.
    pub fn add_widget(&mut self, spec: &WidgetSpec, widget: W, resolution: Resolution) -> (id:
        WidgetId)
        requires
            old(self).spec_next_id() < usize::MAX,
            placement_fits(resolution, spec.descriptor.default_size),
        ensures
            id.0 == old(self).spec_next_id(),
            forall|i: int|
                0 <= i < old(self).spec_layers().len() ==> (#[trigger] old(self).spec_layers()[i]).id
                    != id,
            final(self).spec_next_id() == old(self).spec_next_id() + 1,
            final(self).spec_layers().len() == old(self).spec_layers().len() + 1,
            final(self).spec_layers().drop_last() == old(self).spec_layers(),
            ({
                let l = final(self).spec_layers().last();
                &&& l.id == id
                &&& l.type_id == spec.type_id
                &&& l.descriptor == spec.descriptor
                &&& l.widget == widget
                &&& l.size == spec.descriptor.default_size
                &&& l.position.0 == default_position(resolution, spec.descriptor.default_size).0
                &&& l.position.1 == default_position(resolution, spec.descriptor.default_size).1
                &&& l.visible
                &&& l.opacity == 255
            }),
            final(self).spec_active() == old(self).spec_active(),
    {
        let size = spec.descriptor.default_size;
        let position = default_widget_position(resolution, size);
        let id = self.add_configured_widget(spec, widget, position, size, 255);
        assert(self.layers@.drop_last() =~= old(self).spec_layers());
        id
    }

    /// Remove the widget with the given id; the background becomes active if
    /// that widget was.
    pub fn remove_widget(&mut self, id: WidgetId)
        ensures
            final(self).spec_layers() == old(self).spec_layers().filter(
                |l: WidgetLayer<W>| l.id != id,
            ),
            final(self).spec_active() == (if old(self).spec_active() == LayerSelection::Widget(id) {
                LayerSelection::Base
            } else {
                old(self).spec_active()
            }),
            final(self).spec_next_id() == old(self).spec_next_id(),
    {
        proof {
            use_type_invariant(&*self);
        }
        let ghost before = self.layers@;
        match self.position_of(id) {
            Some(k) => {
                proof {
                    lemma_filter_unique_id(before, id, k as int);
                }
                let mut layers: Vec<WidgetLayer<W>> = Vec::new();
                std::mem::swap(&mut layers, &mut self.layers);
                let _removed = layers.remove(k);
                self.layers = layers;
            },
            None => {
                proof {
                    assert forall|k: int| 0 <= k < before.len() implies (#[trigger] before[k]).id != id by {
                        assert(self.spec_layers()[k].id != id);
                    }
                    lemma_filter_absent_id(before, id);
                }
            },
        }
        if self.active_layer == LayerSelection::Widget(id) {
            self.active_layer = LayerSelection::Base;
        }
    }

    /// Add a widget from the catalog and make it the active layer, when the
    /// canvas policy allows widgets; `None` (nothing changes) otherwise.
    pub fn add_widget_if_allowed(
        &mut self,
        policy: CanvasPolicy,
        spec: &WidgetSpec,
        widget: W,
        resolution: Resolution,
    ) -> (id: Option<WidgetId>)
        requires
            old(self).spec_next_id() < usize::MAX,
            placement_fits(resolution, spec.descriptor.default_size),
        ensures
            !policy.spec_widgets_allowed() ==> ({
                &&& id is None
                &&& final(self).spec_layers() == old(self).spec_layers()
                &&& final(self).spec_active() == old(self).spec_active()
                &&& final(self).spec_next_id() == old(self).spec_next_id()
            }),
            policy.spec_widgets_allowed() ==> ({
                &&& id == Some(WidgetId(old(self).spec_next_id()))
                &&& final(self).spec_active() == LayerSelection::Widget(
                    WidgetId(old(self).spec_next_id()),
                )
                &&& final(self).spec_layers().len() == old(self).spec_layers().len() + 1
                &&& final(self).spec_layers().drop_last() == old(self).spec_layers()
                &&& final(self).spec_layers().last().id == WidgetId(old(self).spec_next_id())
                &&& final(self).spec_layers().last().widget == widget
            }),
    {
        if !policy.widgets_allowed() {
            return None;
        }
        let id = self.add_widget(spec, widget, resolution);
        self.select_layer(LayerSelection::Widget(id));
        Some(id)
    }

    /// Drop all widgets when the policy no longer allows them (a new
    /// background that the device cannot combine with widgets); tells
    /// whether any were dropped.
    pub fn enforce_policy(&mut self, policy: CanvasPolicy) -> (cleared: bool)
        ensures
            cleared == (!policy.spec_widgets_allowed() && old(self).spec_layers().len() > 0),
            cleared ==> final(self).spec_layers().len() == 0 && final(self).spec_active()
                == LayerSelection::Base,
            !cleared ==> final(self).spec_layers() == old(self).spec_layers()
                && final(self).spec_active() == old(self).spec_active(),
            final(self).spec_next_id() == old(self).spec_next_id(),
    {
        if !policy.widgets_allowed() && self.has_widgets() {
            self.clear_widgets();
            true
        } else {
            false
        }
    }

    /// Replace the widgets with those of a loaded preset, in order. Each
    /// item names its widget type and carries the widget built from its
    /// saved configuration (`None` when that failed); items whose type is
    /// unknown or whose widget could not be built are skipped, and their
    /// number is returned.
    pub fn restore_widgets(&mut self, items: Vec<RestoredWidget<W>>) -> (skipped: usize)
        requires
            old(self).spec_next_id() + items@.len() < usize::MAX,
        ensures
            skipped == items@.len() - final(self).spec_layers().len(),
            final(self).spec_active() == LayerSelection::Base,
            final(self).spec_layers().map_values(|l: WidgetLayer<W>| l.type_id@)
                == restorable(items@).map_values(|r: RestoredWidget<W>| r.type_id@),
            forall|k: int|
                0 <= k < final(self).spec_layers().len() ==> {
                    let l = #[trigger] final(self).spec_layers()[k];
                    let r = restorable(items@)[k];
                    &&& r.widget == Some(l.widget)
                    &&& l.position == r.position
                    &&& l.size == r.size
                    &&& l.opacity == r.opacity
                    &&& l.visible
                },
    {
        self.clear_widgets();
        let ghost all = items@;
        let mut rest = items;
        let ghost mut done: int = 0;
        let mut skipped: usize = 0;
        proof {
            assert(rest@ =~= all.subrange(0, all.len() as int));
            assert(all.subrange(0, 0) =~= Seq::<RestoredWidget<W>>::empty());
            assert(self.spec_layers().map_values(|l: WidgetLayer<W>| l.type_id@) =~= Seq::<
                Seq<char>,
            >::empty());
        }
        while rest.len() > 0
            invariant
                0 <= done <= all.len(),
                rest@ == all.subrange(done, all.len() as int),
                self.spec_next_id() == old(self).spec_next_id() + done - skipped,
                old(self).spec_next_id() + all.len() < usize::MAX,
                skipped + self.spec_layers().len() == done,
                self.spec_active() == LayerSelection::Base,
                self.spec_layers().map_values(|l: WidgetLayer<W>| l.type_id@) == restorable(
                    all.subrange(0, done),
                ).map_values(|r: RestoredWidget<W>| r.type_id@),
                forall|k: int|
                    0 <= k < self.spec_layers().len() ==> {
                        let l = #[trigger] self.spec_layers()[k];
                        let r = restorable(all.subrange(0, done))[k];
                        &&& r.widget == Some(l.widget)
                        &&& l.position == r.position
                        &&& l.size == r.size
                        &&& l.opacity == r.opacity
                        &&& l.visible
                    },
            decreases rest.len(),
        {
            let item = rest.remove(0);
            let ghost gi = item;
            proof {
                assert(gi == all[done]);
                assert(all.subrange(0, done + 1).drop_last() =~= all.subrange(0, done));
                assert(all.subrange(0, done + 1).last() == gi);
                assert(rest@ =~= all.subrange(done + 1, all.len() as int));
            }
            let RestoredWidget { type_id, widget, position, size, opacity } = item;
            let spec = spec_by_type_id(type_id.as_str());
            match (spec, widget) {
                (Some(spec), Some(w)) => {
                    let ghost before = self.spec_layers();
                    let ghost w0 = w;
                    self.add_configured_widget(&spec, w, position, size, opacity);
                    proof {
                        assert(is_restorable(gi));
                        let rs = restorable(all.subrange(0, done + 1));
                        assert(rs == restorable(all.subrange(0, done)).push(gi));
                        assert(self.spec_layers().map_values(|l: WidgetLayer<W>| l.type_id@) =~= before.map_values(
                            |l: WidgetLayer<W>| l.type_id@,
                        ).push(spec.type_id@));
                        assert(rs.map_values(|r: RestoredWidget<W>| r.type_id@) =~= restorable(
                            all.subrange(0, done),
                        ).map_values(|r: RestoredWidget<W>| r.type_id@).push(gi.type_id@));
                    }
                },
                _ => {
                    proof {
                        assert(!is_restorable(gi));
                    }
                    skipped = skipped + 1;
                },
            }
            proof {
                done = done + 1;
            }
        }
        proof {
            assert(all.subrange(0, all.len() as int) =~= all);
        }
        skipped
    }
}

} // verus!

verus! {

proof fn lemma_filter_absent_id<W>(s: Seq<WidgetLayer<W>>, id: WidgetId)
    requires
        forall|k: int| 0 <= k < s.len() ==> (#[trigger] s[k]).id != id,
    ensures
        s.filter(|l: WidgetLayer<W>| l.id != id) == s,
    decreases s.len(),
{
    reveal(Seq::filter);
    if s.len() > 0 {
        lemma_filter_absent_id(s.drop_last(), id);
        assert(s.drop_last().push(s.last()) =~= s);
    }
}

proof fn lemma_filter_unique_id<W>(s: Seq<WidgetLayer<W>>, id: WidgetId, k: int)
    requires
        0 <= k < s.len(),
        s[k].id == id,
        forall|i: int, j: int| 0 <= i < s.len() && 0 <= j < s.len() && i != j ==> s[i].id != s[j].id,
    ensures
        s.filter(|l: WidgetLayer<W>| l.id != id) == s.remove(k),
    decreases s.len(),
{
    reveal(Seq::filter);
    if k == s.len() - 1 {
        lemma_filter_absent_id(s.drop_last(), id);
        assert(s.remove(k) =~= s.drop_last());
    } else {
        lemma_filter_unique_id(s.drop_last(), id, k);
        assert(s.remove(k) =~= s.drop_last().remove(k).push(s.last()));
    }
}

/// Removing a widget just added, under its fresh id, gives back the layers
/// as they were before.
pub proof fn lemma_remove_undoes_add<W>(layers: Seq<WidgetLayer<W>>, added: WidgetLayer<W>)
    requires
        forall|i: int| 0 <= i < layers.len() ==> (#[trigger] layers[i]).id != added.id,
    ensures
        layers.push(added).filter(|l: WidgetLayer<W>| l.id != added.id) == layers,
{
    reveal(Seq::filter);
    assert(layers.push(added).drop_last() =~= layers);
    lemma_filter_absent_id(layers, added.id);
}

} // verus!
