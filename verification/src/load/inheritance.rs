use vstd::prelude::*;
use vstd::string::StrSliceExecFns;
use bevy::platform::collections::HashMap;
use crate::collections::{get_value_mut, insert_value, into_values};
use crate::keyed::{entries_map, lemma_last_map, unique_keys};
use crate::load::asset::{relative_asset_path, relative_path};
use crate::load::error::{GenericMaterialLoadError, LoadErrorModel};
use crate::load::deserializer::MaterialDeserializer;
use crate::load::{values_model, GenericMaterialLoader, ParsedGenericMaterial, ParsedModel};
use crate::text::{contains_text, lists, str_eq};
use crate::value::{
    content_of, lemma_merge_one_more, merge_value, merged, merged_tables, GenericValue, ValueModel,
};

verus! {

/// The overlay of an optional value on another: where both are there they are
/// merged, otherwise the one that is there stays.
pub open spec fn overlaid_value(base: Option<ValueModel>, over: Option<ValueModel>) -> Option<
    ValueModel,
> {
    match (base, over) {
        (Some(b), Some(o)) => Some(merged(b, o)),
        (None, Some(o)) => Some(o),
        (b, None) => b,
    }
}

/// The overlay of optional properties on others: where both are there they are
/// united key by key, otherwise the ones that are there stay.
pub open spec fn overlaid_properties(
    base: Option<Map<Seq<char>, ValueModel>>,
    over: Option<Map<Seq<char>, ValueModel>>,
) -> Option<Map<Seq<char>, ValueModel>> {
    match (base, over) {
        (Some(b), Some(o)) => Some(merged_tables(b, o)),
        (None, Some(o)) => Some(o),
        (b, None) => b,
    }
}

/// A material laid over the resolved material that it inherits from. The
/// properties are united. A material that names its type replaces the type and
/// the whole body of what it inherits; one that names none has its body merged
/// into the inherited one. The reference to a further ancestor is that of
/// `base`.
pub open spec fn overlaid(base: ParsedModel, over: ParsedModel) -> ParsedModel {
    ParsedModel {
        inherits: base.inherits,
        ty: if over.ty is Some {
            over.ty
        } else {
            base.ty
        },
        material: if over.ty is Some {
            over.material
        } else {
            overlaid_value(base.material, over.material)
        },
        properties: overlaid_properties(base.properties, over.properties),
    }
}

/// The material that `start` resolves to, given the chain of its ancestors from
/// its parent upwards: its parent's resolved material with `start` laid over it.
pub open spec fn resolved(start: ParsedModel, ancestors: Seq<ParsedModel>) -> ParsedModel
    decreases ancestors.len(),
{
    if ancestors.len() == 0 {
        start
    } else {
        overlaid(resolved(ancestors[0], ancestors.skip(1)), start)
    }
}

/// The models of a sequence of parsed materials.
pub open spec fn models(materials: Seq<ParsedGenericMaterial>) -> Seq<ParsedModel> {
    Seq::new(materials.len(), |i: int| materials[i]@)
}

/// Unites the properties `source` with the properties `target` in place: a key
/// of `source` alone is added with its value, a value under a key of both is
/// merged into the value that `target` holds.
pub fn merge_properties(
    target: &mut HashMap<String, GenericValue>,
    source: HashMap<String, GenericValue>,
)
    ensures
        values_model(*final(target)) == merged_tables(
            values_model(*old(target)),
            values_model(source),
        ),
{
    let ghost before = values_model(*target);
    let mut rest = into_values(source);
    let ghost all = rest@;
    proof {
        assert(entries_map(all.skip(all.len() as int)).map_values(content_of()) =~= Map::<
            Seq<char>,
            ValueModel,
        >::empty());
        assert(merged_tables(before, Map::<Seq<char>, ValueModel>::empty()) =~= before);
    }
    while rest.len() > 0
        invariant
            rest@ == all.take(rest.len() as int),
            rest.len() <= all.len(),
            unique_keys(all),
            values_model(*target) == merged_tables(
                before,
                entries_map(all.skip(rest.len() as int)).map_values(content_of()),
            ),
        decreases rest.len(),
    {
        let ghost n = rest.len() as int;
        let ghost done = entries_map(all.skip(n)).map_values(content_of());
        let (key, sub_value) = rest.pop().unwrap();
        proof {
            assert(key == all[n - 1].0 && sub_value == all[n - 1].1);
            lemma_last_map(all, n - 1);
            assert(entries_map(all.skip(n - 1)).map_values(content_of()) =~= done.insert(
                key@,
                sub_value@,
            ));
            lemma_merge_one_more(before, done, key@, sub_value@);
        }
        match get_value_mut(target, key.as_str()) {
            Some(value) => {
                merge_value(value, sub_value);
            },
            None => {
                insert_value(target, key, sub_value);
            },
        }
        assert(rest@ =~= all.take(rest.len() as int));
        assert(values_model(*target) =~= merged_tables(before, done.insert(key@, sub_value@)));
    }
    proof {
        assert(all.skip(0) =~= all);
    }
}

/// Lays `sub_material` over `base` in place.
pub fn overlay(base: &mut ParsedGenericMaterial, sub_material: ParsedGenericMaterial)
    ensures
        final(base)@ == overlaid(old(base)@, sub_material@),
{
    let ParsedGenericMaterial { inherits: _, ty, material, properties } = sub_material;
    match properties {
        Some(sub_properties) => {
            match &mut base.properties {
                Some(base_properties) => {
                    merge_properties(base_properties, sub_properties);
                },
                None => {
                    base.properties = Some(sub_properties);
                },
            }
        },
        None => {},
    }
    if ty.is_some() {
        base.ty = ty;
        base.material = material;
    } else {
        match material {
            Some(sub_value) => {
                match &mut base.material {
                    Some(base_value) => {
                        merge_value(base_value, sub_value);
                    },
                    None => {
                        base.material = Some(sub_value);
                    },
                }
            },
            None => {},
        }
    }
}

/// Merges a material with the chain of materials that it inherits from into
/// one. `ancestors` holds the parent of `sub_material` first and the highest
/// super-material last. The highest super-material is taken as it is, and each
/// material below it is laid over the result in turn, `sub_material` last.
pub fn apply_inheritance(
    sub_material: ParsedGenericMaterial,
    ancestors: Vec<ParsedGenericMaterial>,
) -> (r: ParsedGenericMaterial)
    ensures
        r@ == resolved(sub_material@, models(ancestors@)),
{
    let ghost chain = models(ancestors@);
    let mut application_queue = ancestors;
    let mut final_material = match application_queue.pop() {
        Some(highest) => highest,
        None => {
            return sub_material;
        },
    };
    assert(chain.skip(chain.len() as int).len() == 0);
    while application_queue.len() > 0
        invariant
            chain == models(ancestors@),
            application_queue.len() < chain.len(),
            application_queue@ == ancestors@.take(application_queue.len() as int),
            final_material@ == resolved(
                chain[application_queue.len() as int],
                chain.skip(application_queue.len() + 1),
            ),
        decreases application_queue.len(),
    {
        let ghost n = application_queue.len() as int;
        let next = application_queue.pop().unwrap();
        proof {
            assert(next@ == chain[n - 1]);
            assert(chain.skip(n - 1).skip(1) =~= chain.skip(n));
            assert(chain.skip(n - 1)[0] == chain[n - 1]);
            assert(chain.skip(n)[0] == chain[n]);
            assert(chain.skip(n).skip(1) =~= chain.skip(n + 1));
        }
        overlay(&mut final_material, next);
        assert(application_queue@ =~= ancestors@.take(application_queue.len() as int));
    }
    proof {
        assert(chain.skip(0) =~= chain);
        assert(chain.skip(0).skip(1) =~= chain.skip(1));
    }
    overlay(&mut final_material, sub_material);
    final_material
}

/// In a chain of three, the highest super-material is taken first, the middle
/// one is laid over it, and the material that the load started from is laid over
/// both.
pub proof fn lemma_inheritance_order(a: ParsedModel, b: ParsedModel, c: ParsedModel)
    ensures
        resolved(a, seq![b, c]) == overlaid(overlaid(c, b), a),
{
    let chain = seq![b, c];
    assert(chain.skip(1) =~= seq![c]);
    assert(seq![c].skip(1) =~= Seq::<ParsedModel>::empty());
    assert(resolved(c, Seq::<ParsedModel>::empty()) == c);
    assert(resolved(b, seq![c]) == overlaid(resolved(c, seq![c].skip(1)), b));
}

/// A property that only the highest of three materials sets is found unchanged
/// in the resolved material.
pub proof fn lemma_ancestor_property_survives(
    a: ParsedModel,
    b: ParsedModel,
    c: ParsedModel,
    key: Seq<char>,
)
    requires
        c.properties is Some,
        c.properties->0.dom().contains(key),
        b.properties is Some ==> !b.properties->0.dom().contains(key),
        a.properties is Some ==> !a.properties->0.dom().contains(key),
    ensures
        resolved(a, seq![b, c]).properties is Some,
        resolved(a, seq![b, c]).properties->0.dom().contains(key),
        resolved(a, seq![b, c]).properties->0[key] == c.properties->0[key],
{
    lemma_inheritance_order(a, b, c);
}

/// A property that the lowest of three materials sets is merged over what the
/// materials above it give for that key, so that a value of it that is no table
/// is the resolved value; a key that none of the materials above sets holds its
/// value as it is.
pub proof fn lemma_descendant_property_wins(
    a: ParsedModel,
    b: ParsedModel,
    c: ParsedModel,
    key: Seq<char>,
)
    requires
        a.properties is Some,
        a.properties->0.dom().contains(key),
    ensures
        resolved(a, seq![b, c]).properties is Some,
        resolved(a, seq![b, c]).properties->0.dom().contains(key),
        ({
            let above = overlaid(c, b).properties;
            let mine = a.properties->0[key];
            let got = resolved(a, seq![b, c]).properties->0[key];
            if above is Some && above->0.dom().contains(key) {
                &&& got == merged(above->0[key], mine)
                &&& !(mine is Table) ==> got == mine
            } else {
                got == mine
            }
        }),
{
    lemma_inheritance_order(a, b, c);
}

/// A material that names its type keeps its own body, whatever it inherits:
/// the body of its ancestors is dropped, not merged.
pub proof fn lemma_type_switch_suppresses_merge(start: ParsedModel, ancestors: Seq<ParsedModel>)
    requires
        start.ty is Some,
    ensures
        resolved(start, ancestors).ty == start.ty,
        resolved(start, ancestors).material == start.material,
{
}

/// A material that names no type has its body merged into that of what it
/// inherits, and goes by the inherited type.
pub proof fn lemma_untyped_body_is_merged(start: ParsedModel, ancestors: Seq<ParsedModel>)
    requires
        start.ty is None,
        ancestors.len() > 0,
    ensures
        resolved(start, ancestors).ty == resolved(ancestors[0], ancestors.skip(1)).ty,
        resolved(start, ancestors).material == overlaid_value(
            resolved(ancestors[0], ancestors.skip(1)).material,
            start.material,
        ),
{
}

/// The resolved material refers to the ancestor that the highest material of
/// the chain refers to, and to none where that material refers to none.
pub proof fn lemma_resolved_inherits(start: ParsedModel, ancestors: Seq<ParsedModel>)
    ensures
        resolved(start, ancestors).inherits == if ancestors.len() == 0 {
            start.inherits
        } else {
            ancestors.last().inherits
        },
    decreases ancestors.len(),
{
    if ancestors.len() > 0 {
        let rest = ancestors.skip(1);
        lemma_resolved_inherits(ancestors[0], rest);
        if rest.len() > 0 {
            assert(rest.last() == ancestors.last());
        }
    }
}

/// Whether a material names a file to inherit from.
pub open spec fn declares_parent(material: ParsedModel) -> bool {
    material.inherits is Some && material.inherits->0.len() > 0
}

/// The materials read so far on the way up an inheritance chain: the material
/// that the load started from, with the asset path of its file, and its
/// ancestors from its parent upwards, each with the asset path it was read from.
pub struct InheritanceQueue {
    asset_path: String,
    sub_material: ParsedGenericMaterial,
    ancestors: Vec<ParsedGenericMaterial>,
    requested: Vec<String>,
}

impl GenericMaterialLoader {
    /// Starts the load of the material file at `asset_path` from its bytes: reads
    /// the material that the file holds and starts the way up its inheritance
    /// chain from it.
    pub fn start<D: MaterialDeserializer>(
        &self,
        deserializer: &D,
        asset_path: String,
        bytes: Vec<u8>,
    ) -> (r: Result<InheritanceQueue, GenericMaterialLoadError>)
        ensures
            match deserializer.decoded(self.prepared(asset_path@, bytes@)) {
                Ok(material) => {
                    &&& r matches Ok(queue)
                    &&& queue.origin() == asset_path@
                    &&& queue.start() == material
                    &&& queue.chain() == Seq::<ParsedModel>::empty()
                    &&& queue.paths() == Seq::<String>::empty()
                },
                Err(failure) => r matches Err(e) && e@ == failure,
            },
    {
        match self.read_material(deserializer, asset_path.as_str(), bytes) {
            Ok(material) => Ok(InheritanceQueue::new(asset_path, material)),
            Err(e) => Err(e),
        }
    }
}

impl InheritanceQueue {
    /// The asset path of the file that the load started from.
    pub closed spec fn origin(self) -> Seq<char> {
        self.asset_path@
    }

    /// The material that the load started from.
    pub closed spec fn start(self) -> ParsedModel {
        self.sub_material@
    }

    /// The ancestors read so far, the parent first.
    pub closed spec fn chain(self) -> Seq<ParsedModel> {
        models(self.ancestors@)
    }

    /// The asset paths that the ancestors were read from, in the same order.
    pub closed spec fn paths(self) -> Seq<String> {
        self.requested@
    }

    /// The material read last: the highest one so far.
    pub open spec fn highest(self) -> ParsedModel {
        if self.chain().len() == 0 {
            self.start()
        } else {
            self.chain().last()
        }
    }

    /// The asset path of the file that holds the highest material: the path that
    /// was read last, or that of the file that the load started from where
    /// nothing was read yet.
    pub open spec fn declaring_file(self) -> Seq<char> {
        if self.paths().len() == 0 {
            self.origin()
        } else {
            self.paths().last()@
        }
    }

    /// Whether the chain is whole: the highest material names no parent.
    pub open spec fn complete(self) -> bool {
        !declares_parent(self.highest())
    }

    /// Starts the way up from `sub_material`, read from the file at `asset_path`.
    pub fn new(asset_path: String, sub_material: ParsedGenericMaterial) -> (queue:
        InheritanceQueue)
        ensures
            queue.origin() == asset_path@,
            queue.start() == sub_material@,
            queue.chain() == Seq::<ParsedModel>::empty(),
            queue.paths() == Seq::<String>::empty(),
    {
        let queue = InheritanceQueue {
            asset_path,
            sub_material,
            ancestors: Vec::new(),
            requested: Vec::new(),
        };
        assert(queue.chain() =~= Seq::<ParsedModel>::empty());
        queue
    }

    /// The asset path of the file to read next, or `None` where the chain is
    /// whole: the parent that the highest material names, resolved against the
    /// folder of the file that holds that material. Fails with `Io` where the
    /// parent's path is no asset path, and with `InheritanceCycle` where it is
    /// the file that the load started from or one read before.
    pub fn next_request(&self) -> (r: Result<Option<String>, GenericMaterialLoadError>)
        ensures
            self.complete() ==> r == Ok::<Option<String>, GenericMaterialLoadError>(None),
            !self.complete() ==> match relative_path(
                self.declaring_file(),
                self.highest().inherits->0,
            ) {
                Err(message) => (r matches Err(e) && e@ == LoadErrorModel::Io(message)),
                Ok(path) => if path == self.origin() || lists(self.paths(), path) {
                    (r matches Err(e) && e@ == LoadErrorModel::InheritanceCycle(path))
                } else {
                    (r matches Ok(Some(p)) && p@ == path)
                },
            },
    {
        let top = if self.ancestors.len() == 0 {
            &self.sub_material
        } else {
            &self.ancestors[self.ancestors.len() - 1]
        };
        assert(top@ == self.highest());
        let declaring = if self.requested.len() == 0 {
            self.asset_path.as_str()
        } else {
            self.requested[self.requested.len() - 1].as_str()
        };
        match &top.inherits {
            None => Ok(None),
            Some(inherits) => {
                if inherits.as_str().unicode_len() == 0 {
                    return Ok(None);
                }
                match relative_asset_path(declaring, inherits.as_str()) {
                    Err(message) => Err(GenericMaterialLoadError::Io(message)),
                    Ok(path) => {
                        if str_eq(path.as_str(), self.asset_path.as_str()) || contains_text(
                            &self.requested,
                            path.as_str(),
                        ) {
                            Err(GenericMaterialLoadError::InheritanceCycle(path))
                        } else {
                            Ok(Some(path))
                        }
                    },
                }
            },
        }
    }

    /// Adds the material read from `path` as the parent of the highest one so far.
    pub fn push(&mut self, path: String, super_material: ParsedGenericMaterial)
        ensures
            final(self).origin() == old(self).origin(),
            final(self).start() == old(self).start(),
            final(self).chain() == old(self).chain().push(super_material@),
            final(self).paths() == old(self).paths().push(path),
            final(self).declaring_file() == path@,
    {
        self.ancestors.push(super_material);
        self.requested.push(path);
        assert(self.chain() =~= old(self).chain().push(super_material@));
    }

    /// The name that a failure to read the next ancestor goes by: the path that
    /// the highest material names as its parent, as it is written there, or
    /// `path` where it names none.
    pub open spec fn parent_name(self, path: Seq<char>) -> Seq<char> {
        if self.highest().inherits is Some {
            self.highest().inherits->0
        } else {
            path
        }
    }

    /// What handing over what was read at `path` does to the queue: the material
    /// that the bytes hold is added as the parent of the highest one so far; a
    /// failure to read the bytes, or to read a material from them, leaves the
    /// queue as it is and is reported as met in the super-material.
    pub open spec fn after_read<D: MaterialDeserializer>(
        self,
        loader: &GenericMaterialLoader,
        deserializer: &D,
        path: String,
        read: Result<Vec<u8>, String>,
        next: InheritanceQueue,
        r: Result<(), GenericMaterialLoadError>,
    ) -> bool {
        let outcome = match read {
            Err(message) => Err(LoadErrorModel::Io(message@)),
            Ok(bytes) => deserializer.decoded(loader.prepared(path@, bytes@)),
        };
        match outcome {
            Ok(material) => {
                &&& r is Ok
                &&& next.origin() == self.origin()
                &&& next.start() == self.start()
                &&& next.chain() == self.chain().push(material)
                &&& next.paths() == self.paths().push(path)
            },
            Err(failure) => {
                &&& r matches Err(e)
                &&& e@ == LoadErrorModel::InSuperMaterial(
                    self.parent_name(path@),
                    Box::new(failure),
                )
                &&& next == self
            },
        }
    }

    /// Hands over what the host read at `path`, the path that `next_request`
    /// asked for: the bytes of the file, or the message of the failure to read
    /// it. The text is rewritten with the name of the file at `path` itself.
    pub fn push_read<D: MaterialDeserializer>(
        &mut self,
        loader: &GenericMaterialLoader,
        deserializer: &D,
        path: String,
        read: Result<Vec<u8>, String>,
    ) -> (r: Result<(), GenericMaterialLoadError>)
        ensures
            old(self).after_read(loader, deserializer, path, read, *final(self), r),
    {
        let top = if self.ancestors.len() == 0 {
            &self.sub_material
        } else {
            &self.ancestors[self.ancestors.len() - 1]
        };
        assert(top@ == self.highest());
        let name = match &top.inherits {
            Some(inherits) => inherits.clone(),
            None => path.clone(),
        };
        let material = match read {
            Err(message) => Err(GenericMaterialLoadError::Io(message)),
            Ok(bytes) => loader.read_material(deserializer, path.as_str(), bytes),
        };
        match material {
            Ok(material) => {
                self.push(path, material);
                Ok(())
            },
            Err(e) => Err(e.in_super_material(name)),
        }
    }

    /// The number of ancestors read so far.
    pub fn len(&self) -> (n: usize)
        ensures
            n == self.chain().len(),
    {
        self.ancestors.len()
    }

    /// Merges the chain into one material, once it is whole: the resolved
    /// material, which refers to no further ancestor. A chain that is not whole
    /// yet is handed back as it is.
    pub fn finish(self) -> (r: Result<ParsedGenericMaterial, InheritanceQueue>)
        ensures
            self.complete() ==> (r matches Ok(material) && material@ == (ParsedModel {
                inherits: None,
                ..resolved(self.start(), self.chain())
            })),
            !self.complete() ==> (r matches Err(queue) && queue == self),
    {
        let top = if self.ancestors.len() == 0 {
            &self.sub_material
        } else {
            &self.ancestors[self.ancestors.len() - 1]
        };
        assert(top@ == self.highest());
        let whole = match &top.inherits {
            None => true,
            Some(inherits) => inherits.as_str().unicode_len() == 0,
        };
        if !whole {
            return Err(self);
        }
        let InheritanceQueue { asset_path: _, sub_material, ancestors, requested: _ } = self;
        let mut material = apply_inheritance(sub_material, ancestors);
        material.inherits = None;
        Ok(material)
    }
}

} // verus!
