//! Input mappings: from the value of an OSC address to a share of the output intensity.
use vstd::prelude::*;
use crate::float;
use crate::float::FloatBits;
use crate::model;
use crate::model::Duplicate;
use crate::text;

verus! {

/// The response curve of a mapping.
#[derive(Debug, Clone, Copy, PartialEq, Eq, Structural, Hash)]
pub enum Curve {
    Linear,
    EaseOutQuad,
    EaseInQuad,
    EaseInOutQuad,
}

/// The curve with a given name; anything but the three named easings is linear.
pub open spec fn named_curve(name: Seq<char>) -> Curve {
    let s = text::trimmed(name);
    if s == "easeOutQuad"@ {
        Curve::EaseOutQuad
    } else if s == "easeInQuad"@ {
        Curve::EaseInQuad
    } else if s == "easeInOutQuad"@ {
        Curve::EaseInOutQuad
    } else {
        Curve::Linear
    }
}

/// The name of a curve.
pub open spec fn curve_text(curve: Curve) -> Seq<char> {
    match curve {
        Curve::Linear => "linear"@,
        Curve::EaseOutQuad => "easeOutQuad"@,
        Curve::EaseInQuad => "easeInQuad"@,
        Curve::EaseInOutQuad => "easeInOutQuad"@,
    }
}

impl Curve {
    /// The curve with a given name.
    pub fn from_name(value: &str) -> (r: Self)
        ensures
            r == named_curve(value@),
    {
        let name = text::trim(value);
        if text::same_text(name, "easeOutQuad") {
            Curve::EaseOutQuad
        } else if text::same_text(name, "easeInQuad") {
            Curve::EaseInQuad
        } else if text::same_text(name, "easeInOutQuad") {
            Curve::EaseInOutQuad
        } else {
            Curve::Linear
        }
    }

    /// The name of the curve.
    pub fn name(self) -> (r: &'static str)
        ensures
            r@ == curve_text(self),
    {
        match self {
            Curve::Linear => "linear",
            Curve::EaseOutQuad => "easeOutQuad",
            Curve::EaseInQuad => "easeInQuad",
            Curve::EaseInOutQuad => "easeInOutQuad",
        }
    }
}

proof fn lemma_trimmed_same(s: Seq<char>)
    requires
        s.len() > 0,
        !text::is_white(s[0]),
        !text::is_white(s.last()),
    ensures
        text::trimmed(s) == s,
{
}

/// A curve is found again by its name.
pub proof fn law_curve_name(curve: Curve)
    ensures
        named_curve(curve_text(curve)) == curve,
{
    reveal_strlit("linear");
    reveal_strlit("easeOutQuad");
    reveal_strlit("easeInQuad");
    reveal_strlit("easeInOutQuad");
    lemma_trimmed_same(curve_text(curve));
    assert("linear"@.len() == 6);
    assert("easeOutQuad"@.len() == 11);
    assert("easeInQuad"@.len() == 10);
    assert("easeInOutQuad"@.len() == 13);
}

/// The upper end of a mapping's input range: a number, or one above the lower end.
#[derive(Debug, Clone, Copy, PartialEq, Eq, Structural, Hash)]
pub enum UpperBound {
    Value(FloatBits),
    OneAboveMin,
}

/// A mapping of one OSC address.
#[derive(Debug, PartialEq, Eq)]
pub struct Mapping {
    pub address: String,
    pub weight: FloatBits,
    pub deadzone: FloatBits,
    pub invert: bool,
    pub curve: Curve,
    pub min: FloatBits,
    pub max: UpperBound,
}

/// The model of `Mapping`.
#[verifier::ext_equal]
pub struct MappingModel {
    pub address: Seq<char>,
    pub weight: FloatBits,
    pub deadzone: FloatBits,
    pub invert: bool,
    pub curve: Curve,
    pub min: FloatBits,
    pub max: UpperBound,
}

impl View for Mapping {
    type V = MappingModel;

    open spec fn view(&self) -> MappingModel {
        MappingModel {
            address: self.address@,
            weight: self.weight,
            deadzone: self.deadzone,
            invert: self.invert,
            curve: self.curve,
            min: self.min,
            max: self.max,
        }
    }
}

impl Duplicate for Mapping {
    fn duplicate(&self) -> (r: Self) {
        Mapping {
            address: self.address.clone(),
            weight: self.weight,
            deadzone: self.deadzone,
            invert: self.invert,
            curve: self.curve,
            min: self.min,
            max: self.max,
        }
    }
}

/// A number, or the default where it is not finite.
pub open spec fn finite_or(value: FloatBits, default: FloatBits) -> FloatBits {
    if value.finite() {
        value
    } else {
        default
    }
}

/// A number, or the default where it is not finite.
pub fn finite_or_default(value: FloatBits, default: FloatBits) -> (r: FloatBits)
    ensures
        r == finite_or(value, default),
{
    if value.is_finite() {
        value
    } else {
        default
    }
}

/// The upper end of the range from `min` to `max`: one above `min` where `max` is not above it.
pub open spec fn upper_bound(min: FloatBits, max: FloatBits) -> UpperBound {
    if max.at_most(min) {
        UpperBound::OneAboveMin
    } else {
        UpperBound::Value(max)
    }
}

/// The mapping made of the given parts, where the trimmed address starts with a slash. A lower end
/// that is no finite number is zero before the upper end is compared with it; an upper end that is
/// not at most the lower one stays what it is.
pub open spec fn mapping_of(
    address: Seq<char>,
    weight: FloatBits,
    deadzone: FloatBits,
    invert: bool,
    curve: Curve,
    min: FloatBits,
    max: FloatBits,
) -> Option<MappingModel> {
    if text::begins_with(text::trimmed(address), '/') {
        Some(
            MappingModel {
                address: text::trimmed(address),
                weight: finite_or(weight, float::number(float::ONE)),
                deadzone: float::clamped(deadzone, float::number(0), float::number(float::ONE)),
                invert,
                curve,
                min: finite_or(min, float::number(0)),
                max: upper_bound(finite_or(min, float::number(0)), max),
            },
        )
    } else {
        None
    }
}

/// The mapping with its numbers brought into range, where its trimmed address starts with a
/// slash. An upper end of one above the lower end stays what it is.
pub open spec fn normalized_mapping(mapping: MappingModel) -> Option<MappingModel> {
    match mapping.max {
        UpperBound::Value(max) => mapping_of(
            mapping.address,
            mapping.weight,
            mapping.deadzone,
            mapping.invert,
            mapping.curve,
            mapping.min,
            finite_or(max, float::number(float::ONE)),
        ),
        UpperBound::OneAboveMin => if text::begins_with(text::trimmed(mapping.address), '/') {
            Some(
                MappingModel {
                    address: text::trimmed(mapping.address),
                    weight: finite_or(mapping.weight, float::number(float::ONE)),
                    deadzone: float::clamped(
                        mapping.deadzone,
                        float::number(0),
                        float::number(float::ONE),
                    ),
                    min: finite_or(mapping.min, float::number(0)),
                    ..mapping
                },
            )
        } else {
            None
        },
    }
}

impl Mapping {
    /// Makes a mapping.
    pub fn new(
        address: &str,
        weight: FloatBits,
        deadzone: FloatBits,
        invert: bool,
        curve: Curve,
        min: FloatBits,
        max: FloatBits,
    ) -> (r: Option<Mapping>)
        ensures
            model::opt_view(r) == mapping_of(
                address@,
                weight,
                deadzone,
                invert,
                curve,
                min,
                max,
            ),
    {
        let address = text::trim(address);
        if !text::starts_with_char(address, '/') {
            return None;
        }
        let min = finite_or_default(min, float::from_bits(0));
        let upper = if max.less_or_equal(&min) {
            UpperBound::OneAboveMin
        } else {
            UpperBound::Value(max)
        };
        Some(
            Mapping {
                address: address.to_owned(),
                weight: finite_or_default(weight, float::from_bits(float::ONE)),
                deadzone: float::clamp01(deadzone),
                invert,
                curve,
                min,
                max: upper,
            },
        )
    }

    /// The mapping with its numbers brought into range.
    pub fn normalized(&self) -> (r: Option<Mapping>)
        ensures
            model::opt_view(r) == normalized_mapping(self@),
    {
        match self.max {
            UpperBound::Value(max) => Mapping::new(
                self.address.as_str(),
                self.weight,
                self.deadzone,
                self.invert,
                self.curve,
                self.min,
                finite_or_default(max, float::from_bits(float::ONE)),
            ),
            UpperBound::OneAboveMin => {
                let address = text::trim(self.address.as_str());
                if !text::starts_with_char(address, '/') {
                    return None;
                }
                Some(
                    Mapping {
                        address: address.to_owned(),
                        weight: finite_or_default(self.weight, float::from_bits(float::ONE)),
                        deadzone: float::clamp01(self.deadzone),
                        invert: self.invert,
                        curve: self.curve,
                        min: finite_or_default(self.min, float::from_bits(0)),
                        max: UpperBound::OneAboveMin,
                    },
                )
            },
        }
    }

    /// What enters the curve: the input's place in the range, or its reverse where the mapping
    /// inverts, and zero inside the dead zone. `reversed` is one minus `place`.
    pub fn gate(&self, place: FloatBits, reversed: FloatBits) -> (r: FloatBits)
        ensures
            r == gated(self@, place, reversed),
    {
        let value = if self.invert {
            reversed
        } else {
            place
        };
        if value.less_than(&self.deadzone) {
            float::from_bits(0)
        } else {
            value
        }
    }
}

/// What enters the curve of a mapping.
pub open spec fn gated(mapping: MappingModel, place: FloatBits, reversed: FloatBits) -> FloatBits {
    let value = if mapping.invert {
        reversed
    } else {
        place
    };
    if value.below(mapping.deadzone) {
        float::number(0)
    } else {
        value
    }
}

proof fn lemma_skip_white(s: Seq<char>)
    ensures
        text::skip_white(s).len() > 0 ==> !text::is_white(text::skip_white(s)[0]),
        text::skip_white(text::skip_white(s)) == text::skip_white(s),
    decreases s.len(),
{
    if s.len() > 0 && text::is_white(s[0]) {
        lemma_skip_white(s.drop_first());
    }
}

proof fn lemma_drop_white(s: Seq<char>)
    requires
        s.len() > 0 ==> !text::is_white(s[0]),
    ensures
        text::drop_white(s).len() > 0 ==> text::drop_white(s)[0] == s[0] && !text::is_white(
            text::drop_white(s).last(),
        ),
        s.len() > 0 ==> text::drop_white(s).len() > 0,
    decreases s.len(),
{
    if s.len() > 0 && text::is_white(s.last()) {
        assert(s.len() > 1);
        assert(s.drop_last()[0] == s[0]);
        lemma_drop_white(s.drop_last());
    }
}

/// Trimming a trimmed text changes nothing.
pub proof fn law_trim_again(s: Seq<char>)
    ensures
        text::trimmed(text::trimmed(s)) == text::trimmed(s),
{
    lemma_skip_white(s);
    lemma_drop_white(text::skip_white(s));
    let t = text::trimmed(s);
    if t.len() > 0 {
        lemma_trimmed_same(t);
    }
}

/// Every mapping that is made has a trimmed address that starts with a slash, a finite weight and
/// lower end and a dead zone from zero to one. Its upper end is above the lower, unless it was made
/// with one that is a NaN; where it was made with a finite one, normalizing it changes nothing.
pub proof fn law_made_mapping(
    address: Seq<char>,
    weight: FloatBits,
    deadzone: FloatBits,
    invert: bool,
    curve: Curve,
    min: FloatBits,
    max: FloatBits,
)
    requires
        mapping_of(address, weight, deadzone, invert, curve, min, max) is Some,
    ensures
        ({
            let m = mapping_of(address, weight, deadzone, invert, curve, min, max)->0;
            &&& text::begins_with(m.address, '/')
            &&& m.weight.finite()
            &&& m.min.finite()
            &&& float::number(0).at_most(m.deadzone)
            &&& m.deadzone.at_most(float::number(float::ONE))
            &&& m.max matches UpperBound::Value(upper) ==> upper == max && !upper.at_most(m.min)
            &&& m.max matches UpperBound::Value(upper) ==> max.nan() || m.min.below(upper)
            &&& max.finite() ==> normalized_mapping(m) == Some(m)
        }),
{
    law_trim_again(address);
    float::law_clamp_bounds(deadzone, float::number(0), float::number(float::ONE));
}

/// A normalized mapping has a trimmed address that starts with a slash, a finite weight and
/// lower end, a dead zone from zero to one and an upper end above the lower; normalizing it again
/// changes nothing.
pub proof fn law_normalized_mapping(mapping: MappingModel)
    requires
        normalized_mapping(mapping) is Some,
    ensures
        ({
            let m = normalized_mapping(mapping)->0;
            &&& text::begins_with(m.address, '/')
            &&& m.weight.finite()
            &&& m.min.finite()
            &&& float::number(0).at_most(m.deadzone)
            &&& m.deadzone.at_most(float::number(float::ONE))
            &&& m.max matches UpperBound::Value(max) ==> max.finite() && m.min.below(max)
            &&& normalized_mapping(m) == Some(m)
        }),
{
    law_trim_again(mapping.address);
    float::law_clamp_bounds(mapping.deadzone, float::number(0), float::number(float::ONE));
}

/// The current value of each address, one entry per address.
pub open spec fn input_of(inputs: Seq<(Seq<char>, FloatBits)>, address: Seq<char>) -> Option<
    FloatBits,
>
    decreases inputs.len(),
{
    if inputs.len() == 0 {
        None
    } else if inputs[0].0 == address {
        Some(inputs[0].1)
    } else {
        input_of(inputs.drop_first(), address)
    }
}

/// The addresses with one value replaced, or added behind the others.
pub open spec fn with_input(
    inputs: Seq<(Seq<char>, FloatBits)>,
    address: Seq<char>,
    value: FloatBits,
) -> Seq<(Seq<char>, FloatBits)>
    decreases inputs.len(),
{
    if inputs.len() == 0 {
        seq![(address, value)]
    } else if inputs[0].0 == address {
        seq![(address, value)] + inputs.drop_first()
    } else {
        seq![inputs[0]] + with_input(inputs.drop_first(), address, value)
    }
}

/// After a value was recorded, its address has it and every other address has what it had.
pub proof fn law_input_recorded(
    inputs: Seq<(Seq<char>, FloatBits)>,
    address: Seq<char>,
    value: FloatBits,
    other: Seq<char>,
)
    ensures
        input_of(with_input(inputs, address, value), other) == if other == address {
            Some(value)
        } else {
            input_of(inputs, other)
        },
    decreases inputs.len(),
{
    let next = with_input(inputs, address, value);
    if inputs.len() == 0 {
        assert(next.drop_first() =~= Seq::empty());
    } else if inputs[0].0 == address {
        assert(next.drop_first() =~= inputs.drop_first());
    } else {
        assert(next.drop_first() =~= with_input(inputs.drop_first(), address, value));
        law_input_recorded(inputs.drop_first(), address, value, other);
    }
}

/// The model of the current values.
pub open spec fn inputs_model(inputs: Seq<(String, FloatBits)>) -> Seq<(Seq<char>, FloatBits)> {
    Seq::new(inputs.len(), |i: int| (inputs[i].0@, inputs[i].1))
}

/// The current value of an address.
pub fn current_input(inputs: &Vec<(String, FloatBits)>, address: &str) -> (r: Option<FloatBits>)
    ensures
        r == input_of(inputs_model(inputs@), address@),
{
    let ghost all = inputs_model(inputs@);
    let mut i: usize = 0;
    assert(all.skip(0) =~= all);
    while i < inputs.len()
        invariant
            i <= inputs@.len(),
            all == inputs_model(inputs@),
            input_of(all, address@) == input_of(all.skip(i as int), address@),
        decreases inputs@.len() - i,
    {
        assert(all.skip(i as int)[0] == all[i as int]);
        assert(all.skip(i as int).drop_first() =~= all.skip(i + 1));
        if text::same_text(inputs[i].0.as_str(), address) {
            return Some(inputs[i].1);
        }
        i += 1;
    }
    None
}

/// Records the value of an address.
pub fn record_input(inputs: &mut Vec<(String, FloatBits)>, address: &str, value: FloatBits)
    ensures
        inputs_model(final(inputs)@) == with_input(inputs_model(old(inputs)@), address@, value),
{
    let ghost before = inputs@;
    let ghost all = inputs_model(inputs@);
    let mut i: usize = 0;
    assert(all.skip(0) =~= all);
    assert(all.take(0) + with_input(all, address@, value) =~= with_input(all, address@, value));
    while i < inputs.len()
        invariant
            i <= inputs@.len(),
            inputs@ == before,
            before == old(inputs)@,
            all == inputs_model(before),
            with_input(all, address@, value) == all.take(i as int) + with_input(
                all.skip(i as int),
                address@,
                value,
            ),
        decreases inputs@.len() - i,
    {
        assert(all.skip(i as int)[0] == all[i as int]);
        assert(all.skip(i as int).drop_first() =~= all.skip(i + 1));
        if text::same_text(inputs[i].0.as_str(), address) {
            let name = inputs[i].0.clone();
            inputs.set(i, (name, value));
            assert(inputs_model(inputs@) =~= with_input(all, address@, value));
            return;
        }
        assert(all.take(i as int) + (seq![all[i as int]] + with_input(
            all.skip(i + 1),
            address@,
            value,
        )) =~= all.take(i + 1) + with_input(all.skip(i + 1), address@, value));
        i += 1;
    }
    inputs.push((address.to_owned(), value));
    assert(inputs_model(inputs@) =~= with_input(all, address@, value));
}

/// The terms of the weighted mean over the mappings whose address has a value: the value and the
/// weight without its sign.
pub open spec fn terms_of(
    inputs: Seq<(Seq<char>, FloatBits)>,
    mappings: Seq<MappingModel>,
) -> Seq<(FloatBits, FloatBits)>
    decreases mappings.len(),
{
    if mappings.len() == 0 {
        Seq::empty()
    } else {
        let before = terms_of(inputs, mappings.drop_last());
        match input_of(inputs, mappings.last().address) {
            Some(sample) => before.push(
                (sample, float::number(mappings.last().weight.magnitude() as u64)),
            ),
            None => before,
        }
    }
}

/// What one mapping adds to the terms.
spec fn term_of(inputs: Seq<(Seq<char>, FloatBits)>, mapping: MappingModel) -> Seq<
    (FloatBits, FloatBits),
> {
    match input_of(inputs, mapping.address) {
        Some(sample) => seq![(sample, float::number(mapping.weight.magnitude() as u64))],
        None => Seq::empty(),
    }
}

proof fn lemma_terms_without(
    inputs: Seq<(Seq<char>, FloatBits)>,
    mappings: Seq<MappingModel>,
    k: int,
)
    requires
        0 <= k < mappings.len(),
    ensures
        terms_of(inputs, mappings).to_multiset() == terms_of(
            inputs,
            mappings.remove(k),
        ).to_multiset().add(term_of(inputs, mappings[k]).to_multiset()),
    decreases mappings.len(),
{
    broadcast use vstd::seq_lib::group_to_multiset_ensures;

    let shorter = mappings.drop_last();
    let last = mappings.last();
    let before = terms_of(inputs, shorter);
    assert(terms_of(inputs, mappings) =~= before + term_of(inputs, last));
    vstd::seq_lib::lemma_multiset_commutative(before, term_of(inputs, last));
    if k == mappings.len() - 1 {
        assert(mappings.remove(k) =~= shorter);
    } else {
        let less = mappings.remove(k);
        lemma_terms_without(inputs, shorter, k);
        assert(less.drop_last() =~= shorter.remove(k));
        assert(less.last() == last);
        assert(terms_of(inputs, less) =~= terms_of(inputs, shorter.remove(k)) + term_of(
            inputs,
            last,
        ));
        vstd::seq_lib::lemma_multiset_commutative(
            terms_of(inputs, shorter.remove(k)),
            term_of(inputs, last),
        );
        assert(shorter[k] == mappings[k]);
        assert(terms_of(inputs, mappings).to_multiset() =~= terms_of(
            inputs,
            less,
        ).to_multiset().add(term_of(inputs, mappings[k]).to_multiset()));
    }
}

/// The order of the mappings does not matter: the same mappings in another order give the same
/// terms of the weighted mean.
pub proof fn law_terms_any_order(
    inputs: Seq<(Seq<char>, FloatBits)>,
    mappings: Seq<MappingModel>,
    reordered: Seq<MappingModel>,
)
    requires
        mappings.to_multiset() == reordered.to_multiset(),
    ensures
        terms_of(inputs, mappings).to_multiset() == terms_of(inputs, reordered).to_multiset(),
    decreases mappings.len(),
{
    broadcast use vstd::seq_lib::group_to_multiset_ensures;

    assert(mappings.len() == mappings.to_multiset().len());
    assert(reordered.len() == reordered.to_multiset().len());
    if mappings.len() > 0 {
        let last = mappings.last();
        let n = mappings.len() - 1;
        assert(mappings.contains(last)) by {
            assert(mappings[n] == last);
        }
        assert(mappings.to_multiset().count(last) > 0);
        assert(reordered.contains(last));
        let k = choose|k: int| 0 <= k < reordered.len() && reordered[k] == last;
        assert(mappings.remove(n).to_multiset() =~= reordered.remove(k).to_multiset());
        law_terms_any_order(inputs, mappings.remove(n), reordered.remove(k));
        lemma_terms_without(inputs, mappings, n);
        lemma_terms_without(inputs, reordered, k);
    } else {
        assert(mappings =~= reordered);
    }
}

/// Collects the terms of the weighted mean.
pub fn composite_terms(inputs: &Vec<(String, FloatBits)>, mappings: &Vec<Mapping>) -> (r: Vec<
    (FloatBits, FloatBits),
>)
    ensures
        r@ == terms_of(inputs_model(inputs@), model::views(mappings@)),
{
    let ghost all = model::views(mappings@);
    let mut out: Vec<(FloatBits, FloatBits)> = Vec::new();
    let mut i: usize = 0;
    assert(all.take(0) =~= Seq::empty());
    while i < mappings.len()
        invariant
            i <= mappings@.len(),
            all == model::views(mappings@),
            out@ == terms_of(inputs_model(inputs@), all.take(i as int)),
        decreases mappings@.len() - i,
    {
        assert(all.take(i + 1).drop_last() =~= all.take(i as int));
        if let Some(sample) = current_input(inputs, mappings[i].address.as_str()) {
            out.push((sample, mappings[i].weight.abs()));
        }
        i += 1;
    }
    assert(all.take(i as int) =~= all);
    out
}

/// The composite intensity: nothing where the weights do not add up to more than zero, or else
/// the mean held between zero and one.
pub open spec fn composite(total_weight: FloatBits, mean: FloatBits) -> FloatBits {
    if total_weight.at_most(float::number(0)) {
        float::number(0)
    } else {
        float::clamped(mean, float::number(0), float::number(float::ONE))
    }
}

/// The composite intensity, from the sum of the weights and the weighted mean.
pub fn composite_intensity(total_weight: FloatBits, mean: FloatBits) -> (r: FloatBits)
    ensures
        r == composite(total_weight, mean),
{
    if total_weight.less_or_equal(&float::from_bits(0)) {
        float::from_bits(0)
    } else {
        float::clamp01(mean)
    }
}

/// The composite intensity lies between zero and one, whatever the mean is.
pub proof fn law_composite_range(total_weight: FloatBits, mean: FloatBits)
    ensures
        float::in_unit(composite(total_weight, mean)),
{
    float::law_clamp_bounds(mean, float::number(0), float::number(float::ONE));
}

} // verus!
