use vstd::prelude::*;
use crate::load::error::{GenericMaterialLoadError, LoadErrorModel};
use crate::reflect::TypeDescriptor;
use crate::value::{GenericValue, ValueModel};

verus! {

/// What a processor works with: the asset path of the material file that is
/// being loaded.
pub struct MaterialProcessorContext {
    pub asset_path: String,
}

/// What a processor puts in the place of a value that it takes.
pub enum Substitute {
    /// The handle of the asset at this asset path, which the host loads.
    Asset(String),
}

/// What a processor, or a chain of processors, makes of a value: it declines,
/// it puts an asset in the value's place, or it fails.
pub enum ProcessorOutcome {
    Declined,
    Asset(Seq<char>),
    Failed(LoadErrorModel),
}

/// The outcome that a processor's result stands for.
pub open spec fn outcome_of(r: Result<Option<Substitute>, GenericMaterialLoadError>)
    -> ProcessorOutcome {
    match r {
        Ok(None) => ProcessorOutcome::Declined,
        Ok(Some(Substitute::Asset(path))) => ProcessorOutcome::Asset(path@),
        Err(e) => ProcessorOutcome::Failed(e@),
    }
}

/// The outcome of a processor that is offered a value after the chain of
/// processors below it: what the chain made of the value, unless it declined.
pub open spec fn after_child(child: ProcessorOutcome, own: ProcessorOutcome) -> ProcessorOutcome {
    match child {
        ProcessorOutcome::Declined => own,
        taken => taken,
    }
}

/// What a chain makes of a value, given what the chain below its last
/// processor makes of it and what that processor alone makes of it: a
/// processor with none below it ends the chain and is not asked; otherwise the
/// chain below goes first, and the processor is asked if that chain declines.
pub open spec fn chained(below: Option<ProcessorOutcome>, own: ProcessorOutcome)
    -> ProcessorOutcome {
    match below {
        None => ProcessorOutcome::Declined,
        Some(child) => after_child(child, own),
    }
}

/// A link in a chain of processors. Each value of a material file is offered to
/// the chain before it is read in the ordinary way: to the innermost processor
/// first and, as long as it is declined, to the next one outwards.
pub trait MaterialProcessor: Sized {
    /// What this processor alone makes of a value that is to be read as one of
    /// the type of `registration`. A processor that does not say declines.
    open spec fn own_outcome(
        &self,
        ctx: &MaterialProcessorContext,
        registration: &TypeDescriptor,
        value: ValueModel,
    ) -> ProcessorOutcome {
        ProcessorOutcome::Declined
    }

    /// What the chain of processors below this one makes of such a value, or
    /// `None` where there is no processor below it. A processor that does not
    /// say has none below it.
    open spec fn below_outcome(
        &self,
        ctx: &MaterialProcessorContext,
        registration: &TypeDescriptor,
        value: ValueModel,
    ) -> Option<ProcessorOutcome> {
        None
    }

    /// Offers a value to this processor alone.
    fn try_deserialize(
        &self,
        ctx: &MaterialProcessorContext,
        registration: &TypeDescriptor,
        value: &GenericValue,
    ) -> (r: Result<Option<Substitute>, GenericMaterialLoadError>)
        ensures
            outcome_of(r) == self.own_outcome(ctx, registration, value@),
    ;

    /// Offers a value to the chain that ends in this processor: to the
    /// processors below it first, and to this one if they decline. A processor
    /// with none below it ends the chain and declines.
    fn try_deserialize_recursive(
        &self,
        ctx: &MaterialProcessorContext,
        registration: &TypeDescriptor,
        value: &GenericValue,
    ) -> (r: Result<Option<Substitute>, GenericMaterialLoadError>)
        ensures
            outcome_of(r) == chained(
                self.below_outcome(ctx, registration, value@),
                self.own_outcome(ctx, registration, value@),
            ),
    ;
}

/// What the chain that ends in `processor` makes of a value that is to be read
/// as one of the type of `registration`.
pub open spec fn chain_outcome<P: MaterialProcessor>(
    processor: &P,
    ctx: &MaterialProcessorContext,
    registration: &TypeDescriptor,
    value: ValueModel,
) -> ProcessorOutcome {
    chained(
        processor.below_outcome(ctx, registration, value),
        processor.own_outcome(ctx, registration, value),
    )
}

/// The end of every chain: it has no processor below it and declines every value.
impl MaterialProcessor for () {
    fn try_deserialize(
        &self,
        ctx: &MaterialProcessorContext,
        registration: &TypeDescriptor,
        value: &GenericValue,
    ) -> (r: Result<Option<Substitute>, GenericMaterialLoadError>) {
        Ok(None)
    }

    fn try_deserialize_recursive(
        &self,
        ctx: &MaterialProcessorContext,
        registration: &TypeDescriptor,
        value: &GenericValue,
    ) -> (r: Result<Option<Substitute>, GenericMaterialLoadError>) {
        Ok(None)
    }
}

/// The chain as the host starts it for one load: the outermost processor and
/// what it works with.
pub struct MaterialDeserializerProcessor<P: MaterialProcessor> {
    pub ctx: MaterialProcessorContext,
    pub material_processor: P,
}

impl<P: MaterialProcessor> MaterialDeserializerProcessor<P> {
    /// Offers a value to the whole chain.
    pub fn try_deserialize(&self, registration: &TypeDescriptor, value: &GenericValue) -> (r: Result<
        Option<Substitute>,
        GenericMaterialLoadError,
    >)
        ensures
            outcome_of(r) == chain_outcome(&self.material_processor, &self.ctx, registration, value@),
    {
        self.material_processor.try_deserialize_recursive(&self.ctx, registration, value)
    }
}

/// The processor at the end of a chain declines every value, and so does the
/// chain that holds it alone.
pub proof fn lemma_end_of_chain_declines(
    ctx: &MaterialProcessorContext,
    registration: &TypeDescriptor,
    value: ValueModel,
)
    ensures
        chain_outcome(&(), ctx, registration, value) == ProcessorOutcome::Declined,
        ().own_outcome(ctx, registration, value) == ProcessorOutcome::Declined,
{
}

/// In every chain the processors below go first: what they take or fail on is
/// the outcome, whatever the last processor would do, and the last processor
/// is asked exactly when they decline.
pub proof fn lemma_inner_processor_goes_first<P: MaterialProcessor>(
    processor: &P,
    ctx: &MaterialProcessorContext,
    registration: &TypeDescriptor,
    value: ValueModel,
)
    requires
        processor.below_outcome(ctx, registration, value) is Some,
    ensures
        ({
            let below = processor.below_outcome(ctx, registration, value)->0;
            let own = processor.own_outcome(ctx, registration, value);
            let whole = chain_outcome(processor, ctx, registration, value);
            &&& below != ProcessorOutcome::Declined ==> whole == below
            &&& below == ProcessorOutcome::Declined ==> whole == own
        }),
{
}

} // verus!
