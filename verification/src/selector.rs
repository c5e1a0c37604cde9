//! The [`Selector`] trait: a computation that selects an action from the
//! computed scores of an entity.

use vstd::prelude::*;
use bevy_ecs::entity::Entity;
use bevy_ecs::world::World;
use crate::naming::NodeName;
use crate::component::{Actions, ComputedScores};
use crate::label::InternedActionLabel;

verus! {

/// What an action is selected from: the target, its computed scores and the
/// actions that can be selected.
pub struct Selection<'s> {
    /// The entity that is being selected for.
    pub target: Entity,
    /// The computed scores of the target.
    pub scores: &'s ComputedScores,
    /// The actions that can be selected.
    pub actions: &'s Actions,
}

/// World and [`Selection`] pair passed to a [`Selector`].
pub struct SelectionCtx<'w, 's> {
    /// The world state.
    pub world: &'w World,
    /// The data associated with the selection.
    pub selection: Selection<'s>,
}

/// A computation that selects an action based on computed scores. Selecting
/// only reads: for one selector, world, target, scores and actions the
/// outcome is always the same, and [`Selector::selected`] is its name.
pub trait Selector: Send + Sync + 'static {
    /// The action selected for `target` in `world`, if any.
    spec fn selected(
        &self,
        world: &World,
        target: Entity,
        scores: &ComputedScores,
        actions: &Actions,
    ) -> Option<InternedActionLabel>;

    /// The name of the selector.
    spec fn spec_name(&self) -> NodeName;

    /// Whether the selector is prepared for its first selection.
    spec fn is_initialized(&self) -> bool;

    /// Returns the name of the selector.
    fn name(&self) -> (name: String)
        ensures
            name@ == self.spec_name().text,
    ;

    /// Prepares the selector; called once before the first selection.
    /// A selector that wraps other nodes prepares those too.
    fn initialize(&mut self, world: &mut World)
        ensures
            final(self).is_initialized(),
            old(self).is_initialized() ==> forall|
                w: &World,
                target: Entity,
                scores: &ComputedScores,
                actions: &Actions,
            | #[trigger]
                final(self).selected(w, target, scores, actions) == old(self).selected(
                    w,
                    target,
                    scores,
                    actions,
                ),
    ;

    /// Selects an action for the given context. The selector must have been
    /// initialized.
    fn select(&self, ctx: SelectionCtx) -> (action: Option<InternedActionLabel>)
        requires
            self.is_initialized(),
        ensures
            action == self.selected(
                ctx.world,
                ctx.selection.target,
                ctx.selection.scores,
                ctx.selection.actions,
            ),
    ;
}

/// Types that can be converted into a [`Selector`].
pub trait IntoSelector<Marker>: Sized {
    /// The type of selector that this value is converted into.
    type Selector: Selector;

    /// Whether the value can be converted.
    spec fn convertible(&self) -> bool;

    /// Whether the value may be converted into the given selector.
    spec fn converts_to(self, made: Self::Selector) -> bool;

    /// Converts this value into a selector.
    fn into_selector(self) -> (selector: Self::Selector)
        requires
            self.convertible(),
        ensures
            self.converts_to(selector),
    ;
}

/// All selectors can be converted into themselves.
impl<S: Selector> IntoSelector<()> for S {
    type Selector = S;

    open spec fn convertible(&self) -> bool {
        true
    }

    open spec fn converts_to(self, made: S) -> bool {
        made == self
    }

    fn into_selector(self) -> (selector: S) {
        self
    }
}

/// Whether a function can be called on every world, target, scores and
/// actions, and has one outcome for each.
pub open spec fn selection_function<
    S: Fn(&World, Entity, &ComputedScores, &Actions) -> Option<InternedActionLabel>,
>(system: S) -> bool {
    &&& forall|world: &World, target: Entity, scores: &ComputedScores, actions: &Actions| #[trigger]
        system.requires((world, target, scores, actions))
    &&& forall|
        world: &World,
        target: Entity,
        scores: &ComputedScores,
        actions: &Actions,
        a: Option<InternedActionLabel>,
        b: Option<InternedActionLabel>,
    |
        #![auto]
        system.ensures((world, target, scores, actions), a) && system.ensures(
            (world, target, scores, actions),
            b,
        ) ==> a == b
}

/// A [`Selector`] that calls a function to select the action.
pub struct SystemSelector<
    S: Fn(&World, Entity, &ComputedScores, &Actions) -> Option<InternedActionLabel> + Send + Sync
        + 'static,
> {
    name: String,
    system: S,
}

impl<
    S: Fn(&World, Entity, &ComputedScores, &Actions) -> Option<InternedActionLabel> + Send + Sync
        + 'static,
> SystemSelector<S> {
    #[verifier::type_invariant]
    spec fn sound(self) -> bool {
        selection_function(self.system)
    }

    /// The function that the selector calls.
    pub closed spec fn system(self) -> S {
        self.system
    }

    /// The name that was given to the function.
    pub closed spec fn label(self) -> Seq<char> {
        self.name@
    }

    /// Makes a selector of a function that can be called on every world,
    /// target, scores and actions and has one outcome for each.
    pub fn new(system: S) -> (selector: Self)
        requires
            selection_function(system),
        ensures
            selector.system() == system,
            selector.label() == "system"@,
    {
        SystemSelector { name: "system".to_owned(), system }
    }

    /// Like [`Self::new`], with a name of its own.
    pub fn named(name: &str, system: S) -> (made: Self)
        requires
            selection_function(system),
        ensures
            made.system() == system,
            made.label() == name@,
    {
        SystemSelector { name: name.to_owned(), system }
    }
}

impl<
    S: Fn(&World, Entity, &ComputedScores, &Actions) -> Option<InternedActionLabel> + Send + Sync
        + 'static,
> Selector for SystemSelector<S> {
    closed spec fn selected(
        &self,
        world: &World,
        target: Entity,
        scores: &ComputedScores,
        actions: &Actions,
    ) -> Option<InternedActionLabel> {
        choose|action: Option<InternedActionLabel>|
            self.system.ensures((world, target, scores, actions), action)
    }

    open spec fn spec_name(&self) -> NodeName {
        NodeName { text: self.label() }
    }

    open spec fn is_initialized(&self) -> bool {
        true
    }

    fn name(&self) -> (name: String) {
        self.name.clone()
    }

    fn initialize(&mut self, world: &mut World) {
    }

    fn select(&self, ctx: SelectionCtx) -> (action: Option<InternedActionLabel>) {
        proof {
            use_type_invariant(self);
        }
        (self.system)(ctx.world, ctx.selection.target, ctx.selection.scores, ctx.selection.actions)
    }
}

/// Marks the conversion of a function into a selector.
pub struct SelectorSystemMarker;

impl<
    S: Fn(&World, Entity, &ComputedScores, &Actions) -> Option<InternedActionLabel> + Send + Sync
        + 'static,
> IntoSelector<SelectorSystemMarker> for S {
    type Selector = SystemSelector<S>;

    open spec fn convertible(&self) -> bool {
        selection_function(*self)
    }

    open spec fn converts_to(self, made: SystemSelector<S>) -> bool {
        made.system() == self
    }

    fn into_selector(self) -> (selector: SystemSelector<S>) {
        SystemSelector::new(self)
    }
}

} // verus!
