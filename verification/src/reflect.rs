use vstd::prelude::*;

verus! {

/// What a material load reads of a registered type: an identifier that no other
/// type has, the type's full path and its short, unqualified path, and what was
/// registered with it.
pub struct TypeDescriptor {
    pub id: u64,
    pub type_path: String,
    pub short_type_path: String,
    /// Values of the type are loaded as assets, from a path in the file.
    pub sub_asset: bool,
    /// Values of the type can be built from a partially read value.
    pub from_reflect: bool,
}

impl Clone for TypeDescriptor {
    fn clone(&self) -> (r: Self)
        ensures
            r == *self,
    {
        TypeDescriptor {
            id: self.id,
            type_path: self.type_path.clone(),
            short_type_path: self.short_type_path.clone(),
            sub_asset: self.sub_asset,
            from_reflect: self.from_reflect,
        }
    }
}

impl TypeDescriptor {
    /// Whether the type goes by `name`: its full path or its short path is `name`.
    pub open spec fn goes_by(self, name: Seq<char>) -> bool {
        self.type_path@ == name || self.short_type_path@ == name
    }
}

/// Whether a registration of `registrations` has the identifier `id`.
pub open spec fn has_id(registrations: Seq<TypeDescriptor>, id: u64) -> bool {
    exists|i: int| 0 <= i < registrations.len() && (#[trigger] registrations[i]).id == id
}

/// The position of a registration with the identifier `id`; meaningful when
/// `has_id` holds.
pub open spec fn slot_of_id(registrations: Seq<TypeDescriptor>, id: u64) -> int {
    choose|i: int| 0 <= i < registrations.len() && (#[trigger] registrations[i]).id == id
}

/// No two registrations share an identifier.
pub open spec fn unique_ids(registrations: Seq<TypeDescriptor>) -> bool {
    forall|i: int, j: int|
        0 <= i < j < registrations.len() ==> (#[trigger] registrations[i]).id != (
        #[trigger] registrations[j]).id
}

/// With unique identifiers, the slot of a registration's identifier is the
/// registration's own position.
pub proof fn lemma_slot_of_registration(registrations: Seq<TypeDescriptor>, i: int)
    requires
        unique_ids(registrations),
        0 <= i < registrations.len(),
    ensures
        has_id(registrations, registrations[i].id),
        slot_of_id(registrations, registrations[i].id) == i,
{
    let j = slot_of_id(registrations, registrations[i].id);
    if j < i {
        assert(registrations[j].id != registrations[i].id);
    } else if i < j {
        assert(registrations[i].id != registrations[j].id);
    }
}

/// The types known to a load, in the order in which they were registered.
pub struct TypeRegistry {
    registrations: Vec<TypeDescriptor>,
}

impl View for TypeRegistry {
    type V = Seq<TypeDescriptor>;

    closed spec fn view(&self) -> Seq<TypeDescriptor> {
        self.registrations@
    }
}

impl TypeRegistry {
    #[verifier::type_invariant]
    spec fn distinct(self) -> bool {
        unique_ids(self.registrations@)
    }

    /// A registry that knows no type.
    pub fn new() -> (registry: TypeRegistry)
        ensures
            registry@ == Seq::<TypeDescriptor>::empty(),
    {
        TypeRegistry { registrations: Vec::new() }
    }

    /// The number of registered types.
    pub fn len(&self) -> (n: usize)
        ensures
            n == self@.len(),
    {
        self.registrations.len()
    }

    /// The registration at position `index`, in the order of registration.
    pub fn at(&self, index: usize) -> (r: Option<&TypeDescriptor>)
        ensures
            r == if index < self@.len() {
                Some(&self@[index as int])
            } else {
                None
            },
    {
        if index < self.registrations.len() {
            Some(&self.registrations[index])
        } else {
            None
        }
    }

    /// Where the type with the identifier `id` is registered.
    fn position(&self, id: u64) -> (r: Option<usize>)
        ensures
            r is Some == has_id(self@, id),
            r matches Some(i) ==> i < self@.len() && self@[i as int].id == id && i
                == slot_of_id(self@, id),
    {
        proof {
            use_type_invariant(self);
        }
        let mut i: usize = 0;
        while i < self.registrations.len()
            invariant
                i <= self.registrations.len(),
                unique_ids(self.registrations@),
                forall|j: int| 0 <= j < i ==> (#[trigger] self.registrations@[j]).id != id,
            decreases self.registrations.len() - i,
        {
            if self.registrations[i].id == id {
                proof {
                    lemma_slot_of_registration(self.registrations@, i as int);
                }
                return Some(i);
            }
            i += 1;
        }
        None
    }

    /// The registration of the type with the identifier `id`, if it is registered.
    pub fn get(&self, id: u64) -> (r: Option<&TypeDescriptor>)
        ensures
            r == if has_id(self@, id) {
                Some(&self@[slot_of_id(self@, id)])
            } else {
                None
            },
            r matches Some(registration) ==> registration.id == id,
    {
        match self.position(id) {
            Some(i) => Some(&self.registrations[i]),
            None => None,
        }
    }

    /// Whether the type with the identifier `id` is registered.
    pub fn contains(&self, id: u64) -> (r: bool)
        ensures
            r == has_id(self@, id),
    {
        self.position(id).is_some()
    }

    /// Registers a type, unless a type with its identifier is registered
    /// already: then the registry stays as it is. Tells whether it was added.
    pub fn register(&mut self, registration: TypeDescriptor) -> (added: bool)
        ensures
            added == !has_id(old(self)@, registration.id),
            final(self)@ == if added {
                old(self)@.push(registration)
            } else {
                old(self)@
            },
    {
        proof {
            use_type_invariant(&*self);
        }
        if self.position(registration.id).is_some() {
            return false;
        }
        let mut registrations = Vec::new();
        std::mem::swap(&mut registrations, &mut self.registrations);
        registrations.push(registration);
        self.registrations = registrations;
        true
    }

    /// Marks the type with the identifier `id` as one whose values are loaded as
    /// assets from a path. Tells whether the type is registered; nothing changes
    /// where it is not.
    pub fn register_sub_asset(&mut self, id: u64) -> (found: bool)
        ensures
            found == has_id(old(self)@, id),
            final(self)@ == if found {
                old(self)@.update(
                    slot_of_id(old(self)@, id),
                    TypeDescriptor { sub_asset: true, ..old(self)@[slot_of_id(old(self)@, id)] },
                )
            } else {
                old(self)@
            },
    {
        proof {
            use_type_invariant(&*self);
        }
        match self.position(id) {
            Some(i) => {
                let mut registrations = Vec::new();
                std::mem::swap(&mut registrations, &mut self.registrations);
                let ghost before = registrations@;
                registrations[i].sub_asset = true;
                assert(registrations@ =~= before.update(
                    i as int,
                    TypeDescriptor { sub_asset: true, ..before[i as int] },
                ));
                self.registrations = registrations;
                true
            },
            None => false,
        }
    }
}

} // verus!
