//! Widgets: something that can draw itself, together with a store of typed
//! attributes that the rest of the system attaches and reads.

use vstd::prelude::*;
use crate::extensions::mouse::OnClick;
use crate::extensions::velocity::Velocity;
use crate::render::{RenderScope, ScopeView};
use crate::style::{RawTransform, Transform, lemma_resolve_idempotent, resolve};

verus! {

/// Something that can draw itself into a render scope.
pub trait Element: Send {
    /// Whether rendering this element can turn the scope `before` into the
    /// scope `after`. Each element says here what it records; one that does
    /// not say may leave any scope.
    open spec fn renders(&self, before: ScopeView, after: ScopeView) -> bool {
        true
    }

    /// Records this element's drawing operations into `scope`, as `renders`
    /// says.
    fn render(&mut self, scope: &mut RenderScope)
        ensures
            old(self).renders(old(scope)@, final(scope)@),
    ;
}

/// The identity of an attribute type.
#[derive(Debug, Clone, Copy, PartialEq, Eq, Structural)]
pub enum ComponentKind {
    Transform,
    Velocity,
    OnClick,
}

/// An attribute value together with its type.
#[derive(Debug, Clone, Copy, PartialEq, Eq, Structural)]
pub enum Component {
    Transform(Transform),
    Velocity(Velocity),
    OnClick(OnClick),
}

/// The type identity of an attribute value.
pub open spec fn kind_of(value: Component) -> ComponentKind {
    match value {
        Component::Transform(_) => ComponentKind::Transform,
        Component::Velocity(_) => ComponentKind::Velocity,
        Component::OnClick(_) => ComponentKind::OnClick,
    }
}

impl Component {
    /// The type identity of this value.
    pub fn kind(&self) -> (k: ComponentKind)
        ensures
            k == kind_of(*self),
    {
        match self {
            Component::Transform(_) => ComponentKind::Transform,
            Component::Velocity(_) => ComponentKind::Velocity,
            Component::OnClick(_) => ComponentKind::OnClick,
        }
    }
}

/// A widget's attributes: at most one value per attribute type.
#[derive(Debug)]
pub struct ComponentStore {
    slots: Vec<Component>,
}

/// The first value of the given kind among `slots`, if there is one.
pub open spec fn first_of_kind(slots: Seq<Component>, kind: ComponentKind) -> Option<Component>
    decreases slots.len(),
{
    if slots.len() == 0 {
        None
    } else if kind_of(slots.first()) == kind {
        Some(slots.first())
    } else {
        first_of_kind(slots.drop_first(), kind)
    }
}

/// A lookup sees the first value of its kind, whatever stands before it.
proof fn lemma_first_of_kind_at(slots: Seq<Component>, kind: ComponentKind, at: int)
    requires
        0 <= at <= slots.len(),
        forall|i: int| 0 <= i < at ==> kind_of(#[trigger] slots[i]) != kind,
    ensures
        at < slots.len() && kind_of(slots[at]) == kind ==> first_of_kind(slots, kind) == Some(
            slots[at],
        ),
        at == slots.len() ==> first_of_kind(slots, kind).is_none(),
    decreases slots.len(),
{
    if slots.len() > 0 && at > 0 {
        lemma_first_of_kind_at(slots.drop_first(), kind, at - 1);
    }
}

/// Whether `after` is `before` with `value` written over the entry at `at`,
/// or appended where `at` is the length of `before`.
spec fn written_at(
    before: Seq<Component>,
    after: Seq<Component>,
    at: int,
    value: Component,
) -> bool {
    &&& 0 <= at <= before.len()
    &&& after == if at < before.len() {
        before.update(at, value)
    } else {
        before.push(value)
    }
}

/// Writing a value over the first entry of its kind, or appending it where
/// there is none, changes what lookups of that kind see and no other.
proof fn lemma_first_of_kind_after_write(
    before: Seq<Component>,
    after: Seq<Component>,
    at: int,
    value: Component,
    kind: ComponentKind,
)
    requires
        written_at(before, after, at, value),
        forall|i: int| 0 <= i < at ==> kind_of(#[trigger] before[i]) != kind_of(value),
        at < before.len() ==> kind_of(before[at]) == kind_of(value),
    ensures
        first_of_kind(after, kind) == if kind == kind_of(value) {
            Some(value)
        } else {
            first_of_kind(before, kind)
        },
    decreases before.len(),
{
    if kind == kind_of(value) {
        lemma_first_of_kind_at(after, kind, at);
    } else if before.len() == 0 {
        assert(first_of_kind(after.drop_first(), kind).is_none());
    } else if kind_of(before.first()) == kind {
        // The first entry answers the lookup before and after.
    } else if at == 0 {
        assert(after.drop_first() =~= before.drop_first());
    } else {
        let rest = before.drop_first();
        assert(written_at(rest, after.drop_first(), at - 1, value)) by {
            if at < before.len() {
                assert(after.drop_first() =~= rest.update(at - 1, value));
            } else {
                assert(after.drop_first() =~= rest.push(value));
            }
        }
        lemma_first_of_kind_after_write(rest, after.drop_first(), at - 1, value, kind);
    }
}

impl View for ComponentStore {
    type V = Map<ComponentKind, Component>;

    closed spec fn view(&self) -> Map<ComponentKind, Component> {
        Map::new(
            |k: ComponentKind| first_of_kind(self.slots@, k).is_some(),
            |k: ComponentKind| first_of_kind(self.slots@, k).unwrap(),
        )
    }
}

impl ComponentStore {
    /// A store with no attribute.
    pub fn new() -> (store: ComponentStore)
        ensures
            store@ == Map::<ComponentKind, Component>::empty(),
    {
        ComponentStore { slots: Vec::new() }
    }

    /// Associates `value` with its type, replacing any value of that type.
    /// Values of other types stay as they are.
    pub fn attach(&mut self, value: Component)
        ensures
            final(self)@ == old(self)@.insert(kind_of(value), value),
    {
        let kind = value.kind();
        let ghost before = self.slots@;
        let mut i: usize = 0;
        while i < self.slots.len()
            invariant
                i <= self.slots.len(),
                self.slots@ == before,
                forall|j: int| 0 <= j < i ==> kind_of(#[trigger] before[j]) != kind,
            ensures
                i < before.len() ==> kind_of(before[i as int]) == kind,
            decreases self.slots.len() - i,
        {
            if self.slots[i].kind() == kind {
                break ;
            }
            i += 1;
        }
        if i < self.slots.len() {
            self.slots[i] = value;
        } else {
            self.slots.push(value);
        }
        proof {
            let after = self.slots@;
            assert forall|k: ComponentKind| first_of_kind(after, k) == if k == kind {
                Some(value)
            } else {
                first_of_kind(before, k)
            } by {
                lemma_first_of_kind_after_write(before, after, i as int, value, k);
            }
        }
    }

    /// The value associated with the attribute type `kind`, if there is one.
    pub fn fetch(&self, kind: ComponentKind) -> (value: Option<Component>)
        ensures
            value == if self@.dom().contains(kind) {
                Some(self@[kind])
            } else {
                None
            },
            value matches Some(c) ==> kind_of(c) == kind,
    {
        let mut i: usize = 0;
        while i < self.slots.len()
            invariant
                i <= self.slots.len(),
                forall|j: int| 0 <= j < i ==> kind_of(#[trigger] self.slots@[j]) != kind,
            decreases self.slots.len() - i,
        {
            if self.slots[i].kind() == kind {
                proof {
                    lemma_first_of_kind_at(self.slots@, kind, i as int);
                }
                return Some(self.slots[i]);
            }
            i += 1;
        }
        proof {
            lemma_first_of_kind_at(self.slots@, kind, i as int);
        }
        None
    }
}

/// Under every attribute type a store holds a value of that type.
pub proof fn lemma_store_is_keyed_by_kind(store: ComponentStore, kind: ComponentKind)
    requires
        store@.dom().contains(kind),
    ensures
        kind_of(store@[kind]) == kind,
{
    lemma_found_has_kind(store.slots@, kind);
}

/// What a lookup finds has the kind that was looked up.
proof fn lemma_found_has_kind(slots: Seq<Component>, kind: ComponentKind)
    ensures
        first_of_kind(slots, kind) matches Some(c) ==> kind_of(c) == kind,
    decreases slots.len(),
{
    if slots.len() > 0 && kind_of(slots.first()) != kind {
        lemma_found_has_kind(slots.drop_first(), kind);
    }
}

/// A drawable together with its attributes.
pub struct Widget {
    pub drawable: Box<dyn Element>,
    pub components: ComponentStore,
}

/// The layout rule among the attributes, if one is attached.
pub open spec fn transform_in(components: Map<ComponentKind, Component>) -> Option<Transform> {
    if components.dom().contains(ComponentKind::Transform) {
        match components[ComponentKind::Transform] {
            Component::Transform(t) => Some(t),
            _ => None,
        }
    } else {
        None
    }
}

/// The velocity among the attributes, if one is attached.
pub open spec fn velocity_in(components: Map<ComponentKind, Component>) -> Option<Velocity> {
    if components.dom().contains(ComponentKind::Velocity) {
        match components[ComponentKind::Velocity] {
            Component::Velocity(v) => Some(v),
            _ => None,
        }
    } else {
        None
    }
}

/// The click action among the attributes, if one is attached.
pub open spec fn on_click_in(components: Map<ComponentKind, Component>) -> Option<OnClick> {
    if components.dom().contains(ComponentKind::OnClick) {
        match components[ComponentKind::OnClick] {
            Component::OnClick(c) => Some(c),
            _ => None,
        }
    } else {
        None
    }
}

/// The scope with its recorded operations and its measured size forgotten.
pub open spec fn emptied(s: ScopeView) -> ScopeView {
    ScopeView {
        ops: Seq::empty(),
        transform: RawTransform { x: s.transform.x, y: s.transform.y, width: 0, height: 0 },
        ..s
    }
}

/// The scope with the layout rule, if there is one, resolved against the
/// scope's parent size and the content size it holds.
pub open spec fn laid_out(s: ScopeView, rule: Option<Transform>) -> ScopeView {
    match rule {
        Some(r) => ScopeView {
            transform: resolve(r, s.parent_width, s.parent_height, s.transform),
            ..s
        },
        None => s,
    }
}

/// Whether the frame buffer and the parent size of `after` are those of
/// `before`.
pub open spec fn keeps_frame(before: ScopeView, after: ScopeView) -> bool {
    &&& after.frame == before.frame
    &&& after.parent_width == before.parent_width
    &&& after.parent_height == before.parent_height
}

/// Whether a scope's rectangle is what the layout rule, if there is one,
/// resolves to for the content the scope holds.
pub open spec fn settled(scope: ScopeView, rule: Option<Transform>) -> bool {
    laid_out(scope, rule) == scope
}

/// A scope that was laid out under a rule is settled under it.
pub proof fn lemma_laid_out_is_settled(s: ScopeView, rule: Option<Transform>)
    ensures
        settled(laid_out(s, rule), rule),
{
    if let Some(r) = rule {
        lemma_resolve_idempotent(r, s.parent_width, s.parent_height, s.transform);
    }
}

impl Widget {
    /// A widget that draws with `drawable` and has no attribute yet.
    pub fn new(drawable: Box<dyn Element>) -> (widget: Widget)
        ensures
            widget == (Widget { drawable, components: widget.components }),
            widget.components@ == Map::<ComponentKind, Component>::empty(),
    {
        Widget { drawable, components: ComponentStore::new() }
    }

    /// Attaches `value`, replacing any attribute of its type, and hands the
    /// widget back so that further attributes can be attached in a chain.
    pub fn component(&mut self, value: Component) -> (widget: &mut Widget)
        ensures
            widget.drawable == old(self).drawable,
            widget.components@ == old(self).components@.insert(kind_of(value), value),
            *final(self) == *final(widget),
    {
        self.components.attach(value);
        self
    }

    /// Attaches `value`, replacing any attribute of its type.
    pub fn set_component(&mut self, value: Component)
        ensures
            final(self).drawable == old(self).drawable,
            final(self).components@ == old(self).components@.insert(kind_of(value), value),
    {
        self.components.attach(value);
    }

    /// The attribute of type `kind`, if one is attached.
    pub fn get(&self, kind: ComponentKind) -> (value: Option<Component>)
        ensures
            value == if self.components@.dom().contains(kind) {
                Some(self.components@[kind])
            } else {
                None
            },
    {
        self.components.fetch(kind)
    }

    /// Whether rendering this widget can turn the scope `before` into the
    /// scope `after`: the scope is emptied and laid out under the widget's
    /// rule, so that fixed sizes are known to the drawable; the drawable
    /// renders into it; and the result is laid out again, so that positions
    /// follow the size of what was recorded.
    pub open spec fn rendered(&self, before: ScopeView, after: ScopeView) -> bool {
        let rule = transform_in(self.components@);
        exists|recorded: ScopeView|
            {
                &&& #[trigger] self.drawable.renders(laid_out(emptied(before), rule), recorded)
                &&& after == laid_out(recorded, rule)
            }
    }

    /// Records the widget into `scope`, as `rendered` says. The widget's
    /// attributes do not change.
    pub fn render(&mut self, scope: &mut RenderScope)
        ensures
            old(self).rendered(old(scope)@, final(scope)@),
            final(self).components@ == old(self).components@,
    {
        scope.clear();
        let rule = self.transform();
        if let Some(t) = rule {
            scope.set_transform(&t);
        }
        let ghost prepared = scope@;
        self.drawable.render(scope);
        if let Some(t) = rule {
            scope.set_transform(&t);
        }
        proof {
            assert(prepared == laid_out(emptied(old(scope)@), rule));
        }
    }

    /// The attached layout rule, if there is one.
    pub fn transform(&self) -> (rule: Option<Transform>)
        ensures
            rule == transform_in(self.components@),
    {
        match self.components.fetch(ComponentKind::Transform) {
            Some(Component::Transform(t)) => Some(t),
            _ => None,
        }
    }

    /// The attached velocity, if there is one.
    pub fn velocity(&self) -> (velocity: Option<Velocity>)
        ensures
            velocity == velocity_in(self.components@),
    {
        match self.components.fetch(ComponentKind::Velocity) {
            Some(Component::Velocity(v)) => Some(v),
            _ => None,
        }
    }

    /// The attached click action, if there is one.
    pub fn on_click(&self) -> (action: Option<OnClick>)
        ensures
            action == on_click_in(self.components@),
    {
        match self.components.fetch(ComponentKind::OnClick) {
            Some(Component::OnClick(c)) => Some(c),
            _ => None,
        }
    }
}

/// A widget whose drawable only records leaves the frame buffer and the
/// parent size alone.
pub proof fn lemma_widget_keeps_frame(widget: Widget, before: ScopeView, after: ScopeView)
    requires
        widget.rendered(before, after),
        forall|a: ScopeView, b: ScopeView| #[trigger]
            widget.drawable.renders(a, b) ==> keeps_frame(a, b),
    ensures
        keeps_frame(before, after),
{
}

} // verus!
