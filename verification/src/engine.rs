//! The engine: from OSC messages to the values of the mapped addresses.
use vstd::prelude::*;
use crate::float;
use crate::float::FloatBits;
use crate::mapping;
use crate::mapping::{Mapping, MappingModel};
use crate::model;
use crate::model::Duplicate;
use crate::osc;
use crate::osc::{MessageModel, OscMessage, OscNumber};
use crate::text;

verus! {

/// The address and the type of the value that was read last.
#[derive(Debug, PartialEq, Eq)]
pub struct SourceMeta {
    pub address: String,
    pub arg_type: String,
}

/// The model of `SourceMeta`.
#[verifier::ext_equal]
pub struct MetaModel {
    pub address: Seq<char>,
    pub arg_type: Seq<char>,
}

impl View for SourceMeta {
    type V = MetaModel;

    open spec fn view(&self) -> MetaModel {
        MetaModel {
            address: self.address@,
            arg_type: self.arg_type@,
        }
    }
}

impl Duplicate for SourceMeta {
    fn duplicate(&self) -> (r: Self) {
        SourceMeta {
            address: self.address.clone(),
            arg_type: self.arg_type.clone(),
        }
    }
}

impl Default for SourceMeta {
    fn default() -> (r: Self)
        ensures
            r@ == (MetaModel { address: Seq::empty(), arg_type: "f"@ }),
    {
        SourceMeta { address: String::new(), arg_type: "f".to_owned() }
    }
}

/// A value that a message brings for a mapping, before it is mapped.
#[derive(Debug, PartialEq, Eq)]
pub struct SampleRequest {
    pub mapping_index: usize,
    pub raw: OscNumber,
    pub source: SourceMeta,
}

/// The model of `SampleRequest`.
#[verifier::ext_equal]
pub struct RequestedSample {
    pub mapping_index: usize,
    pub raw: OscNumber,
    pub source: MetaModel,
}

impl View for SampleRequest {
    type V = RequestedSample;

    open spec fn view(&self) -> RequestedSample {
        RequestedSample {
            mapping_index: self.mapping_index,
            raw: self.raw,
            source: self.source@,
        }
    }
}

impl Duplicate for SampleRequest {
    fn duplicate(&self) -> (r: Self) {
        SampleRequest {
            mapping_index: self.mapping_index,
            raw: self.raw,
            source: self.source.duplicate(),
        }
    }
}

/// What a message is known by: its address and its first type tag, `f` where it has none.
pub open spec fn source_of(message: MessageModel) -> MetaModel {
    MetaModel {
        address: message.address,
        arg_type: match message.arg_type {
            Some(tag) => seq![tag],
            None => "f"@,
        },
    }
}

/// The values that a message brings, one for each mapping of its address.
pub open spec fn message_samples(message: MessageModel, mappings: Seq<MappingModel>) -> Seq<
    RequestedSample,
>
    decreases mappings.len(),
{
    if mappings.len() == 0 {
        Seq::empty()
    } else {
        let before = message_samples(message, mappings.drop_last());
        match osc::first_number(message.args) {
            Some(raw) => if mappings.last().address == message.address {
                before.push(
                    RequestedSample {
                        mapping_index: (mappings.len() - 1) as usize,
                        raw,
                        source: source_of(message),
                    },
                )
            } else {
                before
            },
            None => before,
        }
    }
}

/// The values that messages bring, in order.
pub open spec fn samples_of(messages: Seq<MessageModel>, mappings: Seq<MappingModel>) -> Seq<
    RequestedSample,
>
    decreases messages.len(),
{
    if messages.len() == 0 {
        Seq::empty()
    } else {
        samples_of(messages.drop_last(), mappings) + message_samples(messages.last(), mappings)
    }
}

/// The values of the addresses after the samples were recorded, each held between zero and one,
/// under the address of its mapping.
pub open spec fn recorded(
    inputs: Seq<(Seq<char>, FloatBits)>,
    mappings: Seq<MappingModel>,
    requests: Seq<RequestedSample>,
    samples: Seq<FloatBits>,
) -> Seq<(Seq<char>, FloatBits)>
    decreases requests.len(),
{
    if requests.len() == 0 {
        inputs
    } else {
        mapping::with_input(
            recorded(inputs, mappings, requests.drop_last(), samples),
            mappings[requests.last().mapping_index as int].address,
            float::clamped(
                samples[requests.len() - 1],
                float::number(0),
                float::number(float::ONE),
            ),
        )
    }
}

/// The engine's state.
#[derive(Debug, PartialEq, Eq)]
pub struct BridgeEngine {
    pub mappings: Vec<Mapping>,
    pub current_inputs: Vec<(String, FloatBits)>,
    pub target_intensity: FloatBits,
    pub last_source: SourceMeta,
}

/// The model of `BridgeEngine`.
#[verifier::ext_equal]
pub struct EngineModel {
    pub mappings: Seq<MappingModel>,
    pub current_inputs: Seq<(Seq<char>, FloatBits)>,
    pub target_intensity: FloatBits,
    pub last_source: MetaModel,
}

impl View for BridgeEngine {
    type V = EngineModel;

    open spec fn view(&self) -> EngineModel {
        EngineModel {
            mappings: model::views(self.mappings@),
            current_inputs: mapping::inputs_model(self.current_inputs@),
            target_intensity: self.target_intensity,
            last_source: self.last_source@,
        }
    }
}

/// The engine after the samples of its requests were recorded.
pub open spec fn engine_updated(
    engine: EngineModel,
    requests: Seq<RequestedSample>,
    samples: Seq<FloatBits>,
) -> EngineModel {
    EngineModel {
        current_inputs: recorded(engine.current_inputs, engine.mappings, requests, samples),
        last_source: if requests.len() > 0 {
            requests.last().source
        } else {
            engine.last_source
        },
        ..engine
    }
}

/// Each request names a mapping of the engine.
pub open spec fn requests_valid(requests: Seq<RequestedSample>, count: nat) -> bool {
    forall|i: int| 0 <= i < requests.len() ==> (#[trigger] requests[i]).mapping_index < count
}

proof fn lemma_message_samples_valid(message: MessageModel, mappings: Seq<MappingModel>, count: nat)
    requires
        mappings.len() <= count <= usize::MAX,
    ensures
        requests_valid(message_samples(message, mappings), count),
    decreases mappings.len(),
{
    if mappings.len() > 0 {
        lemma_message_samples_valid(message, mappings.drop_last(), count);
    }
}

impl BridgeEngine {
    /// An engine with the given mappings and no values.
    pub fn new(mappings: Vec<Mapping>) -> (r: Self)
        ensures
            r@ == (EngineModel {
                mappings: model::views(mappings@),
                current_inputs: Seq::empty(),
                target_intensity: float::number(0),
                last_source: MetaModel { address: Seq::empty(), arg_type: "f"@ },
            }),
    {
        let engine = BridgeEngine {
            mappings,
            current_inputs: Vec::new(),
            target_intensity: float::from_bits(0),
            last_source: SourceMeta::default(),
        };
        assert(engine@.current_inputs =~= Seq::empty());
        engine
    }

    /// The values that a message brings.
    fn message_requests(&self, message: &OscMessage) -> (r: Vec<SampleRequest>)
        ensures
            model::views(r@) == message_samples(message@, self@.mappings),
            requests_valid(model::views(r@), self.mappings@.len()),
    {
        let ghost all = model::views(self.mappings@);
        let raw = osc::extract_numeric_arg(&message.args);
        let mut out: Vec<SampleRequest> = Vec::new();
        let mut i: usize = 0;
        assert(all.take(0) =~= Seq::empty());
        assert(model::views(out@) =~= Seq::empty());
        while i < self.mappings.len()
            invariant
                i <= self.mappings@.len(),
                all == model::views(self.mappings@),
                raw == osc::first_number(message@.args),
                model::views(out@) == message_samples(message@, all.take(i as int)),
            decreases self.mappings@.len() - i,
        {
            assert(all.take(i + 1).drop_last() =~= all.take(i as int));
            assert(all.take(i + 1).last() == self.mappings@[i as int]@);
            if let Some(number) = raw {
                if text::same_text(
                    self.mappings[i].address.as_str(),
                    message.address.as_str(),
                ) {
                    let arg_type = match message.arg_type {
                        Some(tag) => {
                            let mut name = String::new();
                            name.push(tag);
                            assert(name@ =~= seq![tag]);
                            name
                        },
                        None => "f".to_owned(),
                    };
                    let request = SampleRequest {
                        mapping_index: i,
                        raw: number,
                        source: SourceMeta { address: message.address.clone(), arg_type },
                    };
                    proof {
                        model::lemma_views_push(out@, request);
                    }
                    out.push(request);
                }
            }
            i += 1;
        }
        assert(all.take(i as int) =~= all);
        proof {
            lemma_message_samples_valid(message@, all, self.mappings@.len());
        }
        out
    }

    /// The values that messages bring, in order.
    pub fn sample_requests(&self, messages: &Vec<OscMessage>) -> (r: Vec<SampleRequest>)
        ensures
            model::views(r@) == samples_of(osc::message_models(messages@), self@.mappings),
            requests_valid(model::views(r@), self.mappings@.len()),
    {
        let ghost all = osc::message_models(messages@);
        let mut out: Vec<SampleRequest> = Vec::new();
        let mut i: usize = 0;
        assert(all.take(0) =~= Seq::empty());
        assert(model::views(out@) =~= Seq::empty());
        while i < messages.len()
            invariant
                i <= messages@.len(),
                all == osc::message_models(messages@),
                model::views(out@) == samples_of(all.take(i as int), self@.mappings),
                requests_valid(model::views(out@), self.mappings@.len()),
            decreases messages@.len() - i,
        {
            assert(all.take(i + 1).drop_last() =~= all.take(i as int));
            assert(all.take(i + 1).last() == messages@[i as int]@);
            let ghost before = model::views(out@);
            let mut more = self.message_requests(&messages[i]);
            let ghost added = model::views(more@);
            out.append(&mut more);
            assert(model::views(out@) =~= before + added);
            i += 1;
        }
        assert(all.take(i as int) =~= all);
        out
    }

    /// Records the shaped values of the requests, held between zero and one. Returns whether there
    /// were any.
    pub fn record_samples(&mut self, requests: &Vec<SampleRequest>, samples: &Vec<FloatBits>) -> (r:
        bool)
        requires
            requests@.len() == samples@.len(),
            requests_valid(model::views(requests@), old(self).mappings@.len()),
        ensures
            final(self)@ == engine_updated(old(self)@, model::views(requests@), samples@),
            r == (requests@.len() > 0),
    {
        let ghost all = model::views(requests@);
        let ghost start = self@;
        let mut i: usize = 0;
        assert(all.take(0) =~= Seq::empty());
        while i < requests.len()
            invariant
                i <= requests@.len(),
                requests@.len() == samples@.len(),
                all == model::views(requests@),
                start == old(self)@,
                self.mappings == old(self).mappings,
                requests_valid(all, self.mappings@.len()),
                self@ == engine_updated(start, all.take(i as int), samples@),
            decreases requests@.len() - i,
        {
            assert(all.take(i + 1).drop_last() =~= all.take(i as int));
            assert(all.take(i + 1).last() == requests@[i as int]@);
            assert(all[i as int].mapping_index < self.mappings@.len());
            let index: usize = requests[i].mapping_index;
            let address = self.mappings[index].address.clone();
            assert(address@ == start.mappings[index as int].address);
            mapping::record_input(
                &mut self.current_inputs,
                address.as_str(),
                float::clamp01(samples[i]),
            );
            self.last_source = requests[i].source.duplicate();
            i += 1;
            assert(self@ =~= engine_updated(start, all.take(i as int), samples@));
        }
        assert(all.take(i as int) =~= all);
        requests.len() > 0
    }

    /// The terms of the weighted mean over the current values.
    pub fn terms(&self) -> (r: Vec<(FloatBits, FloatBits)>)
        ensures
            r@ == mapping::terms_of(self@.current_inputs, self@.mappings),
    {
        mapping::composite_terms(&self.current_inputs, &self.mappings)
    }

    /// Takes over the composite intensity, from the sum of the weights and the weighted mean.
    pub fn set_target(&mut self, total_weight: FloatBits, mean: FloatBits)
        ensures
            final(self)@ == (EngineModel {
                target_intensity: mapping::composite(total_weight, mean),
                ..old(self)@
            }),
    {
        self.target_intensity = mapping::composite_intensity(total_weight, mean);
    }
}

/// Every value lies between zero and one.
pub open spec fn inputs_in_unit(inputs: Seq<(Seq<char>, FloatBits)>) -> bool {
    forall|i: int| 0 <= i < inputs.len() ==> float::in_unit((#[trigger] inputs[i]).1)
}

proof fn lemma_recorded_in_unit(
    inputs: Seq<(Seq<char>, FloatBits)>,
    address: Seq<char>,
    value: FloatBits,
)
    requires
        inputs_in_unit(inputs),
        float::in_unit(value),
    ensures
        inputs_in_unit(mapping::with_input(inputs, address, value)),
    decreases inputs.len(),
{
    if inputs.len() > 0 && inputs[0].0 != address {
        let rest = inputs.drop_first();
        assert forall|i: int| 0 <= i < rest.len() implies float::in_unit(
            (#[trigger] rest[i]).1,
        ) by {
            assert(rest[i] == inputs[i + 1]);
        }
        lemma_recorded_in_unit(rest, address, value);
    } else if inputs.len() > 0 {
        let next = mapping::with_input(inputs, address, value);
        assert forall|i: int| 0 <= i < next.len() implies float::in_unit(
            (#[trigger] next[i]).1,
        ) by {
            if i > 0 {
                assert(next[i] == inputs[i]);
            }
        }
    }
}

/// The values of the addresses stay between zero and one, whatever the samples are: nothing that
/// is no number, and nothing infinite, gets past the engine.
pub proof fn law_inputs_in_unit(
    engine: EngineModel,
    requests: Seq<RequestedSample>,
    samples: Seq<FloatBits>,
)
    requires
        inputs_in_unit(engine.current_inputs),
    ensures
        inputs_in_unit(engine_updated(engine, requests, samples).current_inputs),
    decreases requests.len(),
{
    if requests.len() > 0 {
        law_inputs_in_unit(engine, requests.drop_last(), samples);
        let sample = samples[requests.len() - 1];
        float::law_clamp_bounds(sample, float::number(0), float::number(float::ONE));
        lemma_recorded_in_unit(
            recorded(engine.current_inputs, engine.mappings, requests.drop_last(), samples),
            engine.mappings[requests.last().mapping_index as int].address,
            float::clamped(sample, float::number(0), float::number(float::ONE)),
        );
    }
}

/// The engine after it took messages up: their values are recorded, and the composite intensity is
/// taken over where there were any.
pub open spec fn processed(
    engine: EngineModel,
    messages: Seq<MessageModel>,
    samples: Seq<FloatBits>,
    total_weight: FloatBits,
    mean: FloatBits,
) -> EngineModel {
    let requests = samples_of(messages, engine.mappings);
    let updated = engine_updated(engine, requests, samples);
    if requests.len() > 0 {
        EngineModel { target_intensity: mapping::composite(total_weight, mean), ..updated }
    } else {
        updated
    }
}

proof fn lemma_samples_split(
    first: Seq<MessageModel>,
    second: Seq<MessageModel>,
    mappings: Seq<MappingModel>,
)
    ensures
        samples_of(first + second, mappings) == samples_of(first, mappings) + samples_of(
            second,
            mappings,
        ),
    decreases second.len(),
{
    if second.len() == 0 {
        assert(first + second =~= first);
        assert(samples_of(first, mappings) + samples_of(second, mappings) =~= samples_of(
            first,
            mappings,
        ));
    } else {
        lemma_samples_split(first, second.drop_last(), mappings);
        assert((first + second).drop_last() =~= first + second.drop_last());
        assert((first + second).last() == second.last());
        assert(samples_of(first + second, mappings) =~= samples_of(first, mappings) + samples_of(
            second,
            mappings,
        ));
    }
}

proof fn lemma_recorded_samples(
    inputs: Seq<(Seq<char>, FloatBits)>,
    mappings: Seq<MappingModel>,
    requests: Seq<RequestedSample>,
    samples: Seq<FloatBits>,
    others: Seq<FloatBits>,
)
    requires
        requests.len() <= samples.len(),
        requests.len() <= others.len(),
        samples.take(requests.len() as int) == others.take(requests.len() as int),
    ensures
        recorded(inputs, mappings, requests, samples) == recorded(
            inputs,
            mappings,
            requests,
            others,
        ),
    decreases requests.len(),
{
    if requests.len() > 0 {
        let n = requests.len() as int;
        assert(samples.take(n)[n - 1] == others.take(n)[n - 1]);
        assert(samples.take(n - 1) =~= samples.take(n).take(n - 1));
        assert(others.take(n - 1) =~= others.take(n).take(n - 1));
        lemma_recorded_samples(inputs, mappings, requests.drop_last(), samples, others);
    }
}

proof fn lemma_recorded_split(
    inputs: Seq<(Seq<char>, FloatBits)>,
    mappings: Seq<MappingModel>,
    first: Seq<RequestedSample>,
    first_samples: Seq<FloatBits>,
    second: Seq<RequestedSample>,
    second_samples: Seq<FloatBits>,
)
    requires
        first.len() == first_samples.len(),
        second.len() <= second_samples.len(),
    ensures
        recorded(inputs, mappings, first + second, first_samples + second_samples) == recorded(
            recorded(inputs, mappings, first, first_samples),
            mappings,
            second,
            second_samples,
        ),
    decreases second.len(),
{
    let samples = first_samples + second_samples;
    if second.len() == 0 {
        assert(first + second =~= first);
        assert(samples.take(first.len() as int) =~= first_samples.take(first.len() as int));
        lemma_recorded_samples(inputs, mappings, first, samples, first_samples);
    } else {
        lemma_recorded_split(
            inputs,
            mappings,
            first,
            first_samples,
            second.drop_last(),
            second_samples,
        );
        assert((first + second).drop_last() =~= first + second.drop_last());
        assert((first + second).last() == second.last());
        assert(samples[(first + second).len() - 1] == second_samples[second.len() - 1]);
    }
}

/// Splitting a stream of messages changes nothing: taking the first messages up and then the
/// second leaves the values, the terms of the mean and the source that all of them together leave,
/// and the intensity too, which is that of the last messages that brought a value. There was a
/// value among them where there was one in either part.
pub proof fn law_packets_joined(
    engine: EngineModel,
    first: Seq<MessageModel>,
    first_samples: Seq<FloatBits>,
    first_weight: FloatBits,
    first_mean: FloatBits,
    second: Seq<MessageModel>,
    second_samples: Seq<FloatBits>,
    second_weight: FloatBits,
    second_mean: FloatBits,
)
    requires
        samples_of(first, engine.mappings).len() == first_samples.len(),
        samples_of(second, engine.mappings).len() == second_samples.len(),
    ensures
        samples_of(first + second, engine.mappings) == samples_of(first, engine.mappings)
            + samples_of(second, engine.mappings),
        samples_of(first + second, engine.mappings).len() > 0 <==> samples_of(
            first,
            engine.mappings,
        ).len() > 0 || samples_of(second, engine.mappings).len() > 0,
        ({
            let brought = samples_of(second, engine.mappings).len() > 0;
            let apart = processed(
                processed(engine, first, first_samples, first_weight, first_mean),
                second,
                second_samples,
                second_weight,
                second_mean,
            );
            let together = processed(
                engine,
                first + second,
                first_samples + second_samples,
                if brought {
                    second_weight
                } else {
                    first_weight
                },
                if brought {
                    second_mean
                } else {
                    first_mean
                },
            );
            &&& apart == together
            &&& mapping::terms_of(apart.current_inputs, apart.mappings) == mapping::terms_of(
                together.current_inputs,
                together.mappings,
            )
        }),
{
    lemma_samples_split(first, second, engine.mappings);
    lemma_recorded_split(
        engine.current_inputs,
        engine.mappings,
        samples_of(first, engine.mappings),
        first_samples,
        samples_of(second, engine.mappings),
        second_samples,
    );
}

} // verus!
