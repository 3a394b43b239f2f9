use vstd::prelude::*;

verus! {

/// Why a material could not be loaded.
pub enum GenericMaterialLoadError {
    /// The bytes of a file could not be read, or the path of a file to read is
    /// no asset path; holds the message of the failure.
    Io(String),
    /// A file does not follow its format, or a value does not fit the type it
    /// is read as; holds the message of the failure.
    Deserialize(String),
    /// No registered type goes by the declared type name.
    MaterialTypeNotFound(String),
    /// More than one registered type goes by the declared type name; holds the
    /// name and the full path of every candidate.
    TooManyTypeCandidates(String, Vec<String>),
    /// A value read from the file could not be written into the material.
    Apply(String),
    /// A property of the file was never registered; holds its key.
    PropertyNotRegistered(String),
    /// The type registered for a property is unknown to the type registry;
    /// holds the property's key.
    PropertyTypeNotRegistered(String),
    /// The type registered for a property cannot be built from a partial
    /// value; holds the type's full path.
    NoFromReflect(String),
    /// A property's value was read but could not be made into an owned value
    /// of its type; holds the full path of the type that the value stands for.
    FullReflect { ty: Option<String> },
    /// A file inherits, directly or through its ancestors, from itself; holds
    /// the path that came up a second time.
    InheritanceCycle(String),
    /// A failure met while the named field was processed.
    InField(String, Box<GenericMaterialLoadError>),
    /// A failure met while the named super-material was resolved.
    InSuperMaterial(String, Box<GenericMaterialLoadError>),
}

/// The mathematical content of a [`GenericMaterialLoadError`].
pub enum LoadErrorModel {
    Io(Seq<char>),
    Deserialize(Seq<char>),
    MaterialTypeNotFound(Seq<char>),
    TooManyTypeCandidates(Seq<char>, Seq<Seq<char>>),
    Apply(Seq<char>),
    PropertyNotRegistered(Seq<char>),
    PropertyTypeNotRegistered(Seq<char>),
    NoFromReflect(Seq<char>),
    FullReflect { ty: Option<Seq<char>> },
    InheritanceCycle(Seq<char>),
    InField(Seq<char>, Box<LoadErrorModel>),
    InSuperMaterial(Seq<char>, Box<LoadErrorModel>),
}

/// The character sequences of a sequence of strings.
pub open spec fn texts(list: Seq<String>) -> Seq<Seq<char>> {
    Seq::new(list.len(), |i: int| list[i]@)
}

impl View for GenericMaterialLoadError {
    type V = LoadErrorModel;

    open spec fn view(&self) -> LoadErrorModel {
        self.model()
    }
}

impl GenericMaterialLoadError {
    /// The mathematical content of the error.
    pub open spec fn model(self) -> LoadErrorModel
        decreases self,
    {
        match self {
            GenericMaterialLoadError::Io(m) => LoadErrorModel::Io(m@),
            GenericMaterialLoadError::Deserialize(m) => LoadErrorModel::Deserialize(m@),
            GenericMaterialLoadError::MaterialTypeNotFound(n) => LoadErrorModel::MaterialTypeNotFound(
                n@,
            ),
            GenericMaterialLoadError::TooManyTypeCandidates(n, paths) => {
                LoadErrorModel::TooManyTypeCandidates(n@, texts(paths@))
            },
            GenericMaterialLoadError::Apply(m) => LoadErrorModel::Apply(m@),
            GenericMaterialLoadError::PropertyNotRegistered(k) => {
                LoadErrorModel::PropertyNotRegistered(k@)
            },
            GenericMaterialLoadError::PropertyTypeNotRegistered(k) => {
                LoadErrorModel::PropertyTypeNotRegistered(k@)
            },
            GenericMaterialLoadError::NoFromReflect(p) => LoadErrorModel::NoFromReflect(p@),
            GenericMaterialLoadError::FullReflect { ty } => LoadErrorModel::FullReflect {
                ty: match ty {
                    Some(t) => Some(t@),
                    None => None,
                },
            },
            GenericMaterialLoadError::InheritanceCycle(p) => LoadErrorModel::InheritanceCycle(p@),
            GenericMaterialLoadError::InField(f, inner) => LoadErrorModel::InField(
                f@,
                Box::new((*inner).model()),
            ),
            GenericMaterialLoadError::InSuperMaterial(p, inner) => LoadErrorModel::InSuperMaterial(
                p@,
                Box::new((*inner).model()),
            ),
        }
    }
}

impl GenericMaterialLoadError {
    /// The number of wrappers around the failure that started the chain.
    pub open spec fn depth(self) -> nat
        decreases self,
    {
        match self {
            GenericMaterialLoadError::InField(_, inner) => 1 + inner.depth(),
            GenericMaterialLoadError::InSuperMaterial(_, inner) => 1 + inner.depth(),
            _ => 0,
        }
    }

    /// The failure that started the chain, with every wrapper taken off.
    pub open spec fn cause(self) -> GenericMaterialLoadError
        decreases self,
    {
        match self {
            GenericMaterialLoadError::InField(_, inner) => inner.cause(),
            GenericMaterialLoadError::InSuperMaterial(_, inner) => inner.cause(),
            _ => self,
        }
    }

    /// The fields and super-materials that the failure was met in, from the
    /// outermost to the innermost.
    pub open spec fn trail(self) -> Seq<Seq<char>>
        decreases self,
    {
        match self {
            GenericMaterialLoadError::InField(field, inner) => seq![field@] + inner.trail(),
            GenericMaterialLoadError::InSuperMaterial(path, inner) => seq![path@] + inner.trail(),
            _ => Seq::empty(),
        }
    }

    /// The names of the fields and super-materials that the failure was met in,
    /// from the outermost to the innermost.
    pub fn context(&self) -> (r: Vec<String>)
        ensures
            texts(r@) == self.trail(),
    {
        let mut names: Vec<String> = Vec::new();
        let mut at = self;
        assert(texts(names@) + at.trail() =~= self.trail());
        loop
            invariant
                texts(names@) + at.trail() == self.trail(),
            decreases at.depth(),
        {
            let ghost before = texts(names@);
            match at {
                GenericMaterialLoadError::InField(name, inner) => {
                    names.push(name.clone());
                    assert(texts(names@) =~= before + seq![name@]);
                    assert(texts(names@) + inner.trail() =~= before + (seq![name@]
                        + inner.trail()));
                    at = &**inner;
                },
                GenericMaterialLoadError::InSuperMaterial(name, inner) => {
                    names.push(name.clone());
                    assert(texts(names@) =~= before + seq![name@]);
                    assert(texts(names@) + inner.trail() =~= before + (seq![name@]
                        + inner.trail()));
                    at = &**inner;
                },
                _ => {
                    assert(texts(names@) + Seq::<Seq<char>>::empty() =~= texts(names@));
                    return names;
                },
            }
        }
    }

    /// Wraps `self` as a failure met while the super-material at `path` was resolved.
    pub fn in_super_material(self, path: String) -> (r: GenericMaterialLoadError)
        ensures
            r == GenericMaterialLoadError::InSuperMaterial(path, Box::new(self)),
            r@ == LoadErrorModel::InSuperMaterial(path@, Box::new(self@)),
            r.cause() == self.cause(),
            r.depth() == self.depth() + 1,
    {
        GenericMaterialLoadError::InSuperMaterial(path, Box::new(self))
    }

    /// Wraps `self` as a failure met while the field `field` was processed.
    pub fn in_field(self, field: String) -> (r: GenericMaterialLoadError)
        ensures
            r == GenericMaterialLoadError::InField(field, Box::new(self)),
            r@ == LoadErrorModel::InField(field@, Box::new(self@)),
            r.cause() == self.cause(),
            r.depth() == self.depth() + 1,
    {
        GenericMaterialLoadError::InField(field, Box::new(self))
    }

    /// The failure that started the chain.
    pub fn root_cause(&self) -> (r: &GenericMaterialLoadError)
        ensures
            *r == self.cause(),
            r.depth() == 0,
        decreases self,
    {
        match self {
            GenericMaterialLoadError::InField(_, inner) => inner.root_cause(),
            GenericMaterialLoadError::InSuperMaterial(_, inner) => inner.root_cause(),
            _ => self,
        }
    }
}

} // verus!
