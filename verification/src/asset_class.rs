//! The asset-class registry: the classes of non-fungible items, numbered in
//! the order in which they were registered.

use vstd::prelude::*;
use crate::account::AccountId;
use crate::currency::Balance;

verus! {

/// Identifier of an asset class.
pub type ClassId = u32;

/// What may be done with the items of a class; fixed when the class is created.
#[derive(Clone, Copy, Debug, PartialEq, Eq, Structural)]
pub struct ClassProperties {
    /// Items can be transferred.
    pub transferable: bool,
    /// Items can be burned.
    pub burnable: bool,
}

/// What this ledger keeps with a class.
#[derive(Clone, Copy, Debug, PartialEq, Eq, Structural)]
pub struct ClassData {
    /// The deposit locked for the class.
    pub deposit: Balance,
    /// The policy of the class.
    pub properties: ClassProperties,
}

/// What this ledger keeps with an item.
#[derive(Clone, Copy, Debug, PartialEq, Eq, Structural)]
pub struct TokenData {
    /// The deposit locked for the item.
    pub deposit: Balance,
}

/// A registered class.
#[derive(Clone, Debug, PartialEq, Eq)]
pub struct ClassInfo {
    /// An opaque identifier of the class's content.
    pub metadata: Vec<u8>,
    /// The account that owns the class.
    pub owner: AccountId,
    pub data: ClassData,
}

/// A registered class as mathematical values.
pub struct ClassInfoView {
    pub metadata: Seq<u8>,
    pub owner: Seq<u8>,
    pub data: ClassData,
}

impl View for ClassInfo {
    type V = ClassInfoView;

    open spec fn view(&self) -> ClassInfoView {
        ClassInfoView { metadata: self.metadata@, owner: self.owner@, data: self.data }
    }
}

/// The registry as mathematical values: the classes by id, and the id that
/// the next class will get.
pub struct RegistryView {
    pub classes: Map<ClassId, ClassInfoView>,
    pub next_class_id: nat,
}

impl RegistryView {
    /// A registry without classes whose first class will get the id `first`.
    pub open spec fn starting_at(first: ClassId) -> RegistryView {
        RegistryView { classes: Map::empty(), next_class_id: first as nat }
    }

    /// Whether the registry has an id left to give.
    pub open spec fn has_room(self) -> bool {
        self.next_class_id < ClassId::MAX
    }

    /// The registry after one more class has been registered.
    pub open spec fn create_class(
        self,
        owner: Seq<u8>,
        metadata: Seq<u8>,
        data: ClassData,
    ) -> RegistryView
        recommends
            self.has_room(),
    {
        RegistryView {
            classes: self.classes.insert(
                self.next_class_id as ClassId,
                ClassInfoView { metadata, owner, data },
            ),
            next_class_id: self.next_class_id + 1,
        }
    }
}

/// Why the registry turned a class down.
#[derive(Clone, Copy, Debug, PartialEq, Eq)]
pub enum Error {
    /// Every class id has been given out.
    NoAvailableClassId,
}

/// The classes on record.
pub struct ClassRegistry {
    first: ClassId,
    classes: Vec<ClassInfo>,
}

impl View for ClassRegistry {
    type V = RegistryView;

    closed spec fn view(&self) -> RegistryView {
        RegistryView {
            classes: Map::new(
                |id: ClassId| self.first <= id < self.first + self.classes.len(),
                |id: ClassId| self.classes[id - self.first]@,
            ),
            next_class_id: (self.first + self.classes.len()) as nat,
        }
    }
}

impl ClassRegistry {
    #[verifier::type_invariant]
    spec fn inv(self) -> bool {
        self.first + self.classes.len() <= ClassId::MAX
    }

    /// A registry without classes whose first class will get the id 0.
    pub fn new() -> (registry: ClassRegistry)
        ensures
            registry@ == RegistryView::starting_at(0),
    {
        ClassRegistry::starting_at(0)
    }

    /// A registry without classes whose first class will get the id `first`.
    pub fn starting_at(first: ClassId) -> (registry: ClassRegistry)
        ensures
            registry@ == RegistryView::starting_at(first),
    {
        let registry = ClassRegistry { first, classes: Vec::new() };
        assert(registry@.classes =~= Map::empty());
        registry
    }

    /// The id that the next class will get. Asking gives no id out.
    pub fn next_class_id(&self) -> (id: ClassId)
        ensures
            id == self@.next_class_id,
    {
        proof {
            use_type_invariant(self);
        }
        self.first + self.classes.len() as ClassId
    }

    /// The class registered under `id`, if there is one.
    pub fn class(&self, id: ClassId) -> (found: Option<&ClassInfo>)
        ensures
            found is Some <==> self@.classes.dom().contains(id),
            found matches Some(info) ==> info@ == self@.classes[id],
    {
        proof {
            use_type_invariant(self);
        }
        if id < self.first {
            return None;
        }
        let at = (id - self.first) as usize;
        if at < self.classes.len() {
            Some(&self.classes[at])
        } else {
            None
        }
    }

    /// Registers a class owned by `owner` under the next id, unless none is left.
    pub fn create_class(
        &mut self,
        owner: &AccountId,
        metadata: Vec<u8>,
        data: ClassData,
    ) -> (result: Result<ClassId, Error>)
        ensures
            result is Ok <==> old(self)@.has_room(),
            result matches Ok(id) ==> id == old(self)@.next_class_id,
            result is Ok ==> final(self)@ == old(self)@.create_class(owner@, metadata@, data),
            result matches Err(e) ==> e == Error::NoAvailableClassId && *final(self) == *old(self),
    {
        proof {
            use_type_invariant(&*self);
        }
        let id = self.next_class_id();
        if id == ClassId::MAX {
            return Err(Error::NoAvailableClassId);
        }
        let mut taken = ClassRegistry::new();
        std::mem::swap(self, &mut taken);
        let ClassRegistry { first, mut classes } = taken;
        classes.push(ClassInfo { metadata, owner: *owner, data });
        *self = ClassRegistry { first, classes };
        assert(self@.classes =~= old(self)@.create_class(owner@, metadata@, data).classes);
        Ok(id)
    }
}

} // verus!
