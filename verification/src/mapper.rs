//! The [`Mapper`] trait: a computation that turns one value into another of
//! the same type, for one target.

use vstd::prelude::*;
use bevy_ecs::entity::Entity;
use bevy_ecs::world::World;
use crate::naming::NodeName;

verus! {

/// What is mapped: the target and the value.
pub struct Mapping<T> {
    /// The entity being mapped.
    pub target: Entity,
    /// The value being mapped.
    pub value: T,
}

/// World and [`Mapping`] pair passed to a [`Mapper`].
pub struct MappingCtx<'a, T> {
    /// The world in which the value is mapped.
    pub world: &'a World,
    /// The mapping being performed.
    pub mapping: Mapping<T>,
}

/// A computation that views the target in the world and maps a value into a
/// new value. Mapping only reads: for one mapper, world, target and value the
/// outcome is always the same, and [`Mapper::mapped`] is its name.
pub trait Mapper<T>: Send + Sync + 'static {
    /// The value that `value` is mapped to for `target` in `world`.
    spec fn mapped(&self, world: &World, target: Entity, value: T) -> T;

    /// The name of the mapper.
    spec fn spec_name(&self) -> NodeName;

    /// Whether the mapper is prepared for its first mapping.
    spec fn is_initialized(&self) -> bool;

    /// Returns the name of the mapper.
    fn name(&self) -> (name: String)
        ensures
            name@ == self.spec_name().text,
    ;

    /// Prepares the mapper; called once before the first mapping.
    /// A mapper that wraps other nodes prepares those too.
    fn initialize(&mut self, world: &mut World)
        ensures
            final(self).is_initialized(),
            old(self).is_initialized() ==> forall|w: &World, target: Entity, value: T| #[trigger]
                final(self).mapped(w, target, value) == old(self).mapped(w, target, value),
    ;

    /// Maps the value of the given context. The mapper must have been
    /// initialized.
    fn map(&self, ctx: MappingCtx<T>) -> (value: T)
        requires
            self.is_initialized(),
        ensures
            value == self.mapped(ctx.world, ctx.mapping.target, ctx.mapping.value),
    ;
}

/// Types that can be converted into a [`Mapper`].
pub trait IntoMapper<T, Marker>: Sized {
    /// The type of mapper that this value is converted into.
    type Mapper: Mapper<T>;

    /// Whether the value can be converted.
    spec fn convertible(&self) -> bool;

    /// Whether the value may be converted into the given mapper.
    spec fn converts_to(self, made: Self::Mapper) -> bool;

    /// Converts this value into a mapper.
    fn into_mapper(self) -> (mapper: Self::Mapper)
        requires
            self.convertible(),
        ensures
            self.converts_to(mapper),
    ;
}

/// All mappers can be converted into themselves.
impl<T, M: Mapper<T>> IntoMapper<T, ()> for M {
    type Mapper = M;

    open spec fn convertible(&self) -> bool {
        true
    }

    open spec fn converts_to(self, made: M) -> bool {
        made == self
    }

    fn into_mapper(self) -> (mapper: M) {
        self
    }
}

/// Whether a function can be called on every world and mapping, and has one
/// outcome for each.
pub open spec fn mapping_function<T, S: Fn(&World, Mapping<T>) -> T>(system: S) -> bool {
    &&& forall|world: &World, mapping: Mapping<T>| #[trigger] system.requires((world, mapping))
    &&& forall|world: &World, mapping: Mapping<T>, a: T, b: T|
        #![auto]
        system.ensures((world, mapping), a) && system.ensures((world, mapping), b) ==> a == b
}

/// A [`Mapper`] that calls a function to map values.
#[verifier::reject_recursive_types(T)]
pub struct SystemMapper<
    T: Send + Sync + 'static,
    S: Fn(&World, Mapping<T>) -> T + Send + Sync + 'static,
> {
    name: String,
    system: S,
    value: core::marker::PhantomData<T>,
}

impl<
    T: Send + Sync + 'static,
    S: Fn(&World, Mapping<T>) -> T + Send + Sync + 'static,
> SystemMapper<T, S> {
    #[verifier::type_invariant]
    spec fn sound(self) -> bool {
        mapping_function::<T, S>(self.system)
    }

    /// The function that the mapper calls.
    pub closed spec fn system(self) -> S {
        self.system
    }

    /// The name that was given to the function.
    pub closed spec fn label(self) -> Seq<char> {
        self.name@
    }

    /// Makes a mapper of a function that can be called on every world and
    /// mapping and has one outcome for each.
    pub fn new(system: S) -> (mapper: Self)
        requires
            mapping_function::<T, S>(system),
        ensures
            mapper.system() == system,
            mapper.label() == "system"@,
    {
        SystemMapper { name: "system".to_owned(), system, value: core::marker::PhantomData }
    }

    /// Like [`Self::new`], with a name of its own.
    pub fn named(name: &str, system: S) -> (made: Self)
        requires
            mapping_function::<T, S>(system),
        ensures
            made.system() == system,
            made.label() == name@,
    {
        SystemMapper { name: name.to_owned(), system, value: core::marker::PhantomData }
    }
}

impl<
    T: Send + Sync + 'static,
    S: Fn(&World, Mapping<T>) -> T + Send + Sync + 'static,
> Mapper<T> for SystemMapper<T, S> {
    closed spec fn mapped(&self, world: &World, target: Entity, value: T) -> T {
        choose|out: T| self.system.ensures((world, Mapping { target, value }), out)
    }

    open spec fn spec_name(&self) -> NodeName {
        NodeName { text: self.label() }
    }

    open spec fn is_initialized(&self) -> bool {
        true
    }

    fn name(&self) -> (name: String) {
        self.name.clone()
    }

    fn initialize(&mut self, world: &mut World) {
    }

    fn map(&self, ctx: MappingCtx<T>) -> (value: T) {
        proof {
            use_type_invariant(self);
        }
        (self.system)(ctx.world, ctx.mapping)
    }
}

/// Marks the conversion of a function into a mapper.
pub struct MapperSystemMarker;

impl<T: Send + Sync + 'static, S: Fn(&World, Mapping<T>) -> T + Send + Sync + 'static> IntoMapper<
    T,
    MapperSystemMarker,
> for S {
    type Mapper = SystemMapper<T, S>;

    open spec fn convertible(&self) -> bool {
        mapping_function::<T, S>(*self)
    }

    open spec fn converts_to(self, made: SystemMapper<T, S>) -> bool {
        made.system() == self
    }

    fn into_mapper(self) -> (mapper: SystemMapper<T, S>) {
        SystemMapper::new(self)
    }
}

} // verus!
