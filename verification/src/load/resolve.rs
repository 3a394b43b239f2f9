use vstd::prelude::*;
use crate::collections::{get_registration, held_registrations};
use crate::load::error::{texts, GenericMaterialLoadError, LoadErrorModel};
use crate::load::{GenericMaterialLoader, STANDARD_MATERIAL_TYPE_PATH};
use crate::reflect::TypeDescriptor;
use crate::text::str_eq;

verus! {

/// The type name that a file declares, or the standard one where it declares none.
pub open spec fn declared_type_name(declared: Option<Seq<char>>) -> Seq<char> {
    match declared {
        Some(name) => name,
        None => STANDARD_MATERIAL_TYPE_PATH@,
    }
}

/// Every candidate for the type called `name`: the type that the shorthand
/// `name` stands for, if there is such a shorthand, and then every registered
/// type whose full or short path is `name`, in the order of registration.
pub open spec fn type_candidates(
    shorthands: Map<Seq<char>, TypeDescriptor>,
    registrations: Seq<TypeDescriptor>,
    name: Seq<char>,
) -> Seq<TypeDescriptor> {
    let by_shorthand = if shorthands.dom().contains(name) {
        seq![shorthands[name]]
    } else {
        Seq::empty()
    };
    by_shorthand + registrations.filter(|r: TypeDescriptor| r.goes_by(name))
}

/// The full paths of a sequence of registrations.
pub open spec fn type_paths(registrations: Seq<TypeDescriptor>) -> Seq<Seq<char>> {
    Seq::new(registrations.len(), |i: int| registrations[i].type_path@)
}

/// The type called `name`: the one candidate where there is exactly one;
/// otherwise the failure, which names every candidate where there are several.
pub open spec fn type_resolution(
    shorthands: Map<Seq<char>, TypeDescriptor>,
    registrations: Seq<TypeDescriptor>,
    name: Seq<char>,
) -> Result<TypeDescriptor, LoadErrorModel> {
    let candidates = type_candidates(shorthands, registrations, name);
    if candidates.len() == 0 {
        Err(LoadErrorModel::MaterialTypeNotFound(name))
    } else if candidates.len() > 1 {
        Err(LoadErrorModel::TooManyTypeCandidates(name, type_paths(candidates)))
    } else {
        Ok(candidates[0])
    }
}

/// Of a sequence in which exactly one element has a property, the elements with
/// the property are that one.
proof fn lemma_filter_single<A>(s: Seq<A>, pred: spec_fn(A) -> bool, i: int)
    requires
        0 <= i < s.len(),
        pred(s[i]),
        forall|j: int| 0 <= j < s.len() && j != i ==> !pred(#[trigger] s[j]),
    ensures
        s.filter(pred) == seq![s[i]],
    decreases s.len(),
{
    reveal(Seq::filter);
    let rest = s.drop_last();
    if i == s.len() - 1 {
        lemma_filter_none(rest, pred);
        assert(rest.filter(pred).push(s.last()) =~= seq![s[i]]);
    } else {
        assert(rest[i] == s[i]);
        assert forall|j: int| 0 <= j < rest.len() && j != i implies !pred(#[trigger] rest[j]) by {
            assert(rest[j] == s[j]);
        }
        lemma_filter_single(rest, pred, i);
    }
}

/// Of a sequence in which no element has a property, none is kept.
proof fn lemma_filter_none<A>(s: Seq<A>, pred: spec_fn(A) -> bool)
    requires
        forall|j: int| 0 <= j < s.len() ==> !pred(#[trigger] s[j]),
    ensures
        s.filter(pred) == Seq::<A>::empty(),
    decreases s.len(),
{
    reveal(Seq::filter);
    if s.len() > 0 {
        let rest = s.drop_last();
        assert forall|j: int| 0 <= j < rest.len() implies !pred(#[trigger] rest[j]) by {
            assert(rest[j] == s[j]);
        }
        lemma_filter_none(rest, pred);
    } else {
        assert(s =~= Seq::<A>::empty());
    }
}

/// The elements of a sequence that have a property occur among those kept as
/// often as in the sequence, and no other element occurs among them.
proof fn lemma_filter_counts<A>(s: Seq<A>, pred: spec_fn(A) -> bool, x: A)
    ensures
        s.filter(pred).to_multiset().count(x) == if pred(x) {
            s.to_multiset().count(x)
        } else {
            0
        },
    decreases s.len(),
{
    if s.len() == 0 {
        reveal(Seq::filter);
        assert(s.filter(pred) =~= Seq::<A>::empty());
        vstd::seq_lib::to_multiset_contains(s, x);
        vstd::seq_lib::to_multiset_contains(s.filter(pred), x);
    } else {
        let rest = s.drop_last();
        let last = s.last();
        assert(s =~= rest.push(last));
        lemma_filter_counts(rest, pred, x);
        rest.lemma_filter_push(last, pred);
        vstd::seq_lib::to_multiset_build(rest, last);
        if pred(last) {
            vstd::seq_lib::to_multiset_build(rest.filter(pred), last);
        }
    }
}

/// Resolving a name does not depend on the order in which the types were
/// registered: with the same registrations in another order the same type is
/// found, or the resolution fails in the same way, naming the same candidates.
pub proof fn lemma_resolution_ignores_order(
    shorthands: Map<Seq<char>, TypeDescriptor>,
    first: Seq<TypeDescriptor>,
    second: Seq<TypeDescriptor>,
    name: Seq<char>,
)
    requires
        first.to_multiset() == second.to_multiset(),
    ensures
        match (
            type_resolution(shorthands, first, name),
            type_resolution(shorthands, second, name),
        ) {
            (Ok(a), Ok(b)) => a == b,
            (
                Err(LoadErrorModel::MaterialTypeNotFound(a)),
                Err(LoadErrorModel::MaterialTypeNotFound(b)),
            ) => a == b,
            (
                Err(LoadErrorModel::TooManyTypeCandidates(a, listed)),
                Err(LoadErrorModel::TooManyTypeCandidates(b, other)),
            ) => {
                &&& a == b
                &&& listed.len() == other.len()
                &&& forall|path: Seq<char>| listed.contains(path) == other.contains(path)
            },
            _ => false,
        },
{
    let goes = |r: TypeDescriptor| r.goes_by(name);
    let one = type_candidates(shorthands, first, name);
    let two = type_candidates(shorthands, second, name);
    let by_shorthand: Seq<TypeDescriptor> = if shorthands.dom().contains(name) {
        seq![shorthands[name]]
    } else {
        Seq::empty()
    };
    assert(one == by_shorthand + first.filter(goes));
    assert(two == by_shorthand + second.filter(goes));
    assert forall|x: TypeDescriptor| first.filter(goes).to_multiset().count(x) == second.filter(
        goes,
    ).to_multiset().count(x) by {
        lemma_filter_counts(first, goes, x);
        lemma_filter_counts(second, goes, x);
    }
    assert(first.filter(goes).to_multiset() =~= second.filter(goes).to_multiset());
    vstd::seq_lib::lemma_multiset_commutative(by_shorthand, first.filter(goes));
    vstd::seq_lib::lemma_multiset_commutative(by_shorthand, second.filter(goes));
    assert(one.to_multiset() =~= two.to_multiset());
    vstd::seq_lib::to_multiset_len(one);
    vstd::seq_lib::to_multiset_len(two);
    assert(one.len() == two.len());
    assert forall|x: TypeDescriptor| one.contains(x) == two.contains(x) by {
        vstd::seq_lib::to_multiset_contains(one, x);
        vstd::seq_lib::to_multiset_contains(two, x);
    }
    if one.len() == 1 {
        assert(one.contains(one[0]));
        assert(two.contains(one[0]));
        let j = choose|j: int| 0 <= j < two.len() && two[j] == one[0];
        assert(j == 0);
    }
    if one.len() > 1 {
        let listed = type_paths(one);
        let other = type_paths(two);
        assert forall|path: Seq<char>| listed.contains(path) == other.contains(path) by {
            if listed.contains(path) {
                let i = choose|i: int| 0 <= i < listed.len() && listed[i] == path;
                assert(one.contains(one[i]));
                assert(two.contains(one[i]));
                let j = choose|j: int| 0 <= j < two.len() && two[j] == one[i];
                assert(other[j] == path);
            }
            if other.contains(path) {
                let i = choose|i: int| 0 <= i < other.len() && other[i] == path;
                assert(two.contains(two[i]));
                assert(one.contains(two[i]));
                let j = choose|j: int| 0 <= j < one.len() && one[j] == two[i];
                assert(listed[j] == path);
            }
        }
    }
}

/// A name that is no shorthand and that exactly one registered type goes by
/// resolves to that type.
pub proof fn lemma_one_candidate_resolves(
    shorthands: Map<Seq<char>, TypeDescriptor>,
    registrations: Seq<TypeDescriptor>,
    name: Seq<char>,
    i: int,
)
    requires
        !shorthands.dom().contains(name),
        0 <= i < registrations.len(),
        registrations[i].goes_by(name),
        forall|j: int|
            0 <= j < registrations.len() && j != i ==> !(#[trigger] registrations[j]).goes_by(name),
    ensures
        type_resolution(shorthands, registrations, name) == Ok::<TypeDescriptor, LoadErrorModel>(
            registrations[i],
        ),
{
    lemma_filter_single(registrations, |r: TypeDescriptor| r.goes_by(name), i);
}

/// A name that is no shorthand and that no registered type goes by is not found.
pub proof fn lemma_no_candidate_fails(
    shorthands: Map<Seq<char>, TypeDescriptor>,
    registrations: Seq<TypeDescriptor>,
    name: Seq<char>,
)
    requires
        !shorthands.dom().contains(name),
        forall|j: int| 0 <= j < registrations.len() ==> !(#[trigger] registrations[j]).goes_by(name),
    ensures
        type_resolution(shorthands, registrations, name) == Err::<TypeDescriptor, LoadErrorModel>(
            LoadErrorModel::MaterialTypeNotFound(name),
        ),
{
    lemma_filter_none(registrations, |r: TypeDescriptor| r.goes_by(name));
}

/// A name that two registered types go by is ambiguous: the resolution fails
/// and lists the full paths of both.
pub proof fn lemma_two_candidates_are_ambiguous(
    shorthands: Map<Seq<char>, TypeDescriptor>,
    registrations: Seq<TypeDescriptor>,
    name: Seq<char>,
    i: int,
    j: int,
)
    requires
        0 <= i < j < registrations.len(),
        registrations[i].goes_by(name),
        registrations[j].goes_by(name),
        registrations[i] != registrations[j],
    ensures
        type_resolution(shorthands, registrations, name) matches Err(
            LoadErrorModel::TooManyTypeCandidates(n, paths),
        ) && n == name && paths.contains(registrations[i].type_path@) && paths.contains(
            registrations[j].type_path@,
        ),
{
    let goes = |r: TypeDescriptor| r.goes_by(name);
    let kept = registrations.filter(goes);
    registrations.lemma_filter_contains(goes, i);
    registrations.lemma_filter_contains(goes, j);
    let a = choose|a: int| 0 <= a < kept.len() && kept[a] == registrations[i];
    let b = choose|b: int| 0 <= b < kept.len() && kept[b] == registrations[j];
    assert(a != b);
    let candidates = type_candidates(shorthands, registrations, name);
    let shift = candidates.len() - kept.len();
    assert(candidates[a + shift] == registrations[i]);
    assert(candidates[b + shift] == registrations[j]);
    let paths = type_paths(candidates);
    assert(paths[a + shift] == registrations[i].type_path@);
    assert(paths[b + shift] == registrations[j].type_path@);
}

/// A shorthand counts as a candidate beside the registered types: a name that
/// is a shorthand and that a registered type goes by as well is ambiguous.
pub proof fn lemma_shorthand_and_type_are_ambiguous(
    shorthands: Map<Seq<char>, TypeDescriptor>,
    registrations: Seq<TypeDescriptor>,
    name: Seq<char>,
    i: int,
)
    requires
        shorthands.dom().contains(name),
        0 <= i < registrations.len(),
        registrations[i].goes_by(name),
    ensures
        type_resolution(shorthands, registrations, name) is Err,
        type_resolution(shorthands, registrations, name)->Err_0 is TooManyTypeCandidates,
{
    let goes = |r: TypeDescriptor| r.goes_by(name);
    registrations.lemma_filter_contains(goes, i);
}

/// A shorthand that no registered type goes by resolves to the type that it
/// stands for.
pub proof fn lemma_shorthand_resolves(
    shorthands: Map<Seq<char>, TypeDescriptor>,
    registrations: Seq<TypeDescriptor>,
    name: Seq<char>,
)
    requires
        shorthands.dom().contains(name),
        forall|j: int| 0 <= j < registrations.len() ==> !(#[trigger] registrations[j]).goes_by(name),
    ensures
        type_resolution(shorthands, registrations, name) == Ok::<TypeDescriptor, LoadErrorModel>(
            shorthands[name],
        ),
{
    lemma_filter_none(registrations, |r: TypeDescriptor| r.goes_by(name));
}

impl GenericMaterialLoader {
    /// The type that the loader resolves the declared name of a material's type to.
    pub open spec fn resolution_of(self, declared: Option<Seq<char>>) -> Result<
        TypeDescriptor,
        LoadErrorModel,
    > {
        type_resolution(held_registrations(self.shorthands.values), self.type_registry@, declared_type_name(declared))
    }

    /// Finds the one registered type that goes by `declared`, or by the name of
    /// the standard material where `declared` is `None`. Fails where no type
    /// goes by the name, and where more than one does.
    pub fn resolve_type<'a>(&'a self, declared: Option<&str>) -> (r: Result<
        &'a TypeDescriptor,
        GenericMaterialLoadError,
    >)
        ensures
            match r {
                Ok(registration) => type_resolution(
                    held_registrations(self.shorthands.values),
                    self.type_registry@,
                    declared_type_name(
                        match declared {
                            Some(n) => Some(n@),
                            None => None,
                        },
                    ),
                ) == Ok::<TypeDescriptor, LoadErrorModel>(*registration),
                Err(e) => type_resolution(
                    held_registrations(self.shorthands.values),
                    self.type_registry@,
                    declared_type_name(
                        match declared {
                            Some(n) => Some(n@),
                            None => None,
                        },
                    ),
                ) == Err::<TypeDescriptor, LoadErrorModel>(e@),
            },
    {
        let name: &str = match declared {
            Some(n) => n,
            None => STANDARD_MATERIAL_TYPE_PATH,
        };
        let ghost goes = |r: TypeDescriptor| r.goes_by(name@);
        let ghost all = self.type_registry@;
        let mut candidates: Vec<&'a TypeDescriptor> = Vec::new();
        match get_registration(&self.shorthands.values, name) {
            Some(registration) => {
                candidates.push(registration);
            },
            None => {},
        }
        let n = self.type_registry.len();
        let mut i: usize = 0;
        proof {
            assert(all.take(0) =~= Seq::<TypeDescriptor>::empty());
            reveal(Seq::filter);
            assert(all.take(0).filter(goes) =~= Seq::<TypeDescriptor>::empty());
        }
        while i < n
            invariant
                i <= n,
                n == all.len(),
                all == self.type_registry@,
                goes == (|r: TypeDescriptor| r.goes_by(name@)),
                candidates@.len() == type_candidates(
                    held_registrations(self.shorthands.values),
                    all.take(i as int),
                    name@,
                ).len(),
                forall|j: int|
                    0 <= j < candidates@.len() ==> *(#[trigger] candidates@[j]) == type_candidates(
                        held_registrations(self.shorthands.values),
                        all.take(i as int),
                        name@,
                    )[j],
            decreases n - i,
        {
            let registration = self.type_registry.at(i).unwrap();
            proof {
                assert(all.take(i + 1) =~= all.take(i as int).push(all[i as int]));
                all.take(i as int).lemma_filter_push(all[i as int], goes);
            }
            if str_eq(registration.type_path.as_str(), name) || str_eq(
                registration.short_type_path.as_str(),
                name,
            ) {
                candidates.push(registration);
            }
            i += 1;
        }
        assert(all.take(n as int) =~= all);
        let ghost found = type_candidates(held_registrations(self.shorthands.values), all, name@);
        if candidates.len() == 0 {
            Err(GenericMaterialLoadError::MaterialTypeNotFound(name.to_owned()))
        } else if candidates.len() > 1 {
            let mut paths: Vec<String> = Vec::new();
            let mut k: usize = 0;
            while k < candidates.len()
                invariant
                    k <= candidates.len(),
                    paths@.len() == k,
                    forall|j: int| 0 <= j < k ==> (#[trigger] paths@[j])@ == candidates@[j].type_path@,
                decreases candidates.len() - k,
            {
                paths.push(candidates[k].type_path.clone());
                k += 1;
            }
            assert(texts(paths@) =~= type_paths(found));
            Err(GenericMaterialLoadError::TooManyTypeCandidates(name.to_owned(), paths))
        } else {
            Ok(candidates[0])
        }
    }
}

} // verus!
