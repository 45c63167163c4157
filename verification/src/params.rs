//! The list of avatar parameters: which are shown, and how values that arrive are merged into it.
use vstd::prelude::*;
use vstd::string::*;
use crate::float;
use crate::float::FloatBits;
use crate::json;
use crate::json::{Json, JsonValue};
use crate::model::Duplicate;
use crate::runtime;
use crate::runtime::{ParamModel, RuntimeParamValue};
use crate::text;

verus! {

/// A parameter belongs to those that are shown.
pub open spec fn listed(key: Seq<char>) -> bool {
    key == "OGB"@ || "OGB/"@.is_prefix_of(key)
}

/// Whether a parameter belongs to those that are shown.
pub fn is_listed_osc_param_key(key: &str) -> (r: bool)
    ensures
        r == listed(key@),
{
    text::same_text(key, "OGB") || text::starts_with(key, "OGB/")
}

/// A parameter is shown: all of them, or those that belong to the listed ones.
pub open spec fn shown(key: Seq<char>, show_all: bool) -> bool {
    show_all || listed(key)
}

/// The entries that are shown.
pub open spec fn visible(entries: Seq<(Seq<char>, ParamModel)>, show_all: bool) -> Seq<
    (Seq<char>, ParamModel),
>
    decreases entries.len(),
{
    if entries.len() == 0 {
        Seq::empty()
    } else {
        let before = visible(entries.drop_last(), show_all);
        if shown(entries.last().0, show_all) {
            before.push(entries.last())
        } else {
            before
        }
    }
}

proof fn lemma_entries_push(
    entries: Seq<(String, RuntimeParamValue)>,
    entry: (String, RuntimeParamValue),
)
    ensures
        runtime::entries_model(entries.push(entry)) == runtime::entries_model(entries).push(
            (entry.0@, entry.1@),
        ),
{
    assert(runtime::entries_model(entries.push(entry)) =~= runtime::entries_model(entries).push(
        (entry.0@, entry.1@),
    ));
}

/// Keeps the entries that are shown.
pub fn visible_params(entries: &Vec<(String, RuntimeParamValue)>, show_all: bool) -> (r: Vec<
    (String, RuntimeParamValue),
>)
    ensures
        runtime::entries_model(r@) == visible(runtime::entries_model(entries@), show_all),
{
    let ghost all = runtime::entries_model(entries@);
    let mut out: Vec<(String, RuntimeParamValue)> = Vec::new();
    let mut i: usize = 0;
    assert(all.take(0) =~= Seq::empty());
    assert(runtime::entries_model(out@) =~= Seq::empty());
    while i < entries.len()
        invariant
            i <= entries@.len(),
            all == runtime::entries_model(entries@),
            runtime::entries_model(out@) == visible(all.take(i as int), show_all),
        decreases entries@.len() - i,
    {
        assert(all.take(i + 1).drop_last() =~= all.take(i as int));
        assert(all.take(i + 1).last() == (entries@[i as int].0@, entries@[i as int].1@));
        if show_all || is_listed_osc_param_key(entries[i].0.as_str()) {
            let entry = (entries[i].0.clone(), entries[i].1.duplicate());
            proof {
                lemma_entries_push(out@, entry);
            }
            out.push(entry);
        }
        i += 1;
    }
    assert(all.take(i as int) =~= all);
    out
}

/// Where a name first stands.
pub open spec fn first_place(entries: Seq<(Seq<char>, ParamModel)>, key: Seq<char>) -> Option<int>
    decreases entries.len(),
{
    if entries.len() == 0 {
        None
    } else {
        match first_place(entries.drop_last(), key) {
            Some(i) => Some(i),
            None => if entries.last().0 == key {
                Some(entries.len() - 1)
            } else {
                None
            },
        }
    }
}

/// The entries with one more value: a name that is there already has its value replaced or keeps
/// it.
pub open spec fn with_param(
    entries: Seq<(Seq<char>, ParamModel)>,
    entry: (Seq<char>, ParamModel),
    replace: bool,
) -> Seq<(Seq<char>, ParamModel)> {
    match first_place(entries, entry.0) {
        Some(i) => if replace {
            entries.update(i, entry)
        } else {
            entries
        },
        None => entries.push(entry),
    }
}

/// The entries with more values, one after the other.
pub open spec fn with_params(
    entries: Seq<(Seq<char>, ParamModel)>,
    more: Seq<(Seq<char>, ParamModel)>,
    replace: bool,
) -> Seq<(Seq<char>, ParamModel)>
    decreases more.len(),
{
    if more.len() == 0 {
        entries
    } else {
        with_param(with_params(entries, more.drop_last(), replace), more.last(), replace)
    }
}

fn add_param(
    entries: &mut Vec<(String, RuntimeParamValue)>,
    key: &str,
    value: RuntimeParamValue,
    replace: bool,
)
    ensures
        runtime::entries_model(final(entries)@) == with_param(
            runtime::entries_model(old(entries)@),
            (key@, value@),
            replace,
        ),
{
    let ghost all = runtime::entries_model(entries@);
    let mut found: Option<usize> = None;
    let mut i: usize = 0;
    assert(all.take(0) =~= Seq::empty());
    while i < entries.len()
        invariant
            i <= entries@.len(),
            entries@ == old(entries)@,
            all == runtime::entries_model(entries@),
            match found {
                Some(k) => first_place(all.take(i as int), key@) == Some(k as int) && k < i,
                None => first_place(all.take(i as int), key@) is None,
            },
        decreases entries@.len() - i,
    {
        assert(all.take(i + 1).drop_last() =~= all.take(i as int));
        assert(all.take(i + 1).last() == (entries@[i as int].0@, entries@[i as int].1@));
        if found.is_none() && text::same_text(entries[i].0.as_str(), key) {
            found = Some(i);
        }
        i += 1;
    }
    assert(all.take(i as int) =~= all);
    let entry = (key.to_owned(), value);
    match found {
        Some(k) => {
            if replace {
                entries.set(k, entry);
                assert(runtime::entries_model(entries@) =~= all.update(k as int, (key@, value@)));
            }
        },
        None => {
            proof {
                lemma_entries_push(entries@, entry);
            }
            entries.push(entry);
        },
    }
}

fn add_params(
    entries: &mut Vec<(String, RuntimeParamValue)>,
    more: &Vec<(String, RuntimeParamValue)>,
    replace: bool,
)
    ensures
        runtime::entries_model(final(entries)@) == with_params(
            runtime::entries_model(old(entries)@),
            runtime::entries_model(more@),
            replace,
        ),
{
    let ghost all = runtime::entries_model(more@);
    let mut i: usize = 0;
    assert(all.take(0) =~= Seq::empty());
    while i < more.len()
        invariant
            i <= more@.len(),
            all == runtime::entries_model(more@),
            runtime::entries_model(entries@) == with_params(
                runtime::entries_model(old(entries)@),
                all.take(i as int),
                replace,
            ),
        decreases more@.len() - i,
    {
        assert(all.take(i + 1).drop_last() =~= all.take(i as int));
        assert(all.take(i + 1).last() == (more@[i as int].0@, more@[i as int].1@));
        add_param(entries, more[i].0.as_str(), more[i].1.duplicate(), replace);
        i += 1;
    }
    assert(all.take(i as int) =~= all);
}

/// The entries of two lists together, in the order of their names. A name that stands in both has
/// its value from the second where `replace`, and else from the first.
pub open spec fn merged(
    current: Seq<(Seq<char>, ParamModel)>,
    fresh: Seq<(Seq<char>, ParamModel)>,
    replace: bool,
) -> Seq<(Seq<char>, ParamModel)> {
    runtime::sorted_entries(
        with_params(with_params(Seq::empty(), current, true), fresh, replace),
    )
}

fn sort_params(entries: &Vec<(String, RuntimeParamValue)>) -> (r: Vec<(String, RuntimeParamValue)>)
    ensures
        runtime::entries_model(r@) == runtime::sorted_entries(runtime::entries_model(entries@)),
{
    let ghost all = runtime::entries_model(entries@);
    let mut out: Vec<(String, RuntimeParamValue)> = Vec::new();
    let mut i: usize = 0;
    assert(all.take(0) =~= Seq::empty());
    assert(runtime::entries_model(out@) =~= Seq::empty());
    while i < entries.len()
        invariant
            i <= entries@.len(),
            all == runtime::entries_model(entries@),
            runtime::entries_model(out@) == runtime::sorted_entries(all.take(i as int)),
        decreases entries@.len() - i,
    {
        assert(all.take(i + 1).drop_last() =~= all.take(i as int));
        assert(all.take(i + 1).last() == (entries@[i as int].0@, entries@[i as int].1@));
        runtime::insert_sorted(&mut out, entries[i].0.clone(), entries[i].1.duplicate());
        i += 1;
    }
    assert(all.take(i as int) =~= all);
    out
}

/// Merges two lists.
pub fn merge_params(
    current: &Vec<(String, RuntimeParamValue)>,
    fresh: &Vec<(String, RuntimeParamValue)>,
    replace: bool,
) -> (r: Vec<(String, RuntimeParamValue)>)
    ensures
        runtime::entries_model(r@) == merged(
            runtime::entries_model(current@),
            runtime::entries_model(fresh@),
            replace,
        ),
{
    let mut out: Vec<(String, RuntimeParamValue)> = Vec::new();
    assert(runtime::entries_model(out@) =~= Seq::empty());
    add_params(&mut out, current, true);
    add_params(&mut out, fresh, replace);
    sort_params(&out)
}

/// The list after the values of the running bridge arrived.
pub open spec fn refreshed(
    current: Seq<(Seq<char>, ParamModel)>,
    runtime_values: Seq<(Seq<char>, ParamModel)>,
    show_all: bool,
) -> Seq<(Seq<char>, ParamModel)> {
    let fresh = visible(runtime_values, show_all);
    if fresh.len() == 0 {
        visible(current, show_all)
    } else {
        visible(merged(current, fresh, true), show_all)
    }
}

/// Takes up the values of the running bridge.
pub fn refresh_runtime_params(
    current: &Vec<(String, RuntimeParamValue)>,
    runtime_values: &Vec<(String, RuntimeParamValue)>,
    show_all: bool,
) -> (r: Vec<(String, RuntimeParamValue)>)
    ensures
        runtime::entries_model(r@) == refreshed(
            runtime::entries_model(current@),
            runtime::entries_model(runtime_values@),
            show_all,
        ),
{
    let fresh = visible_params(runtime_values, show_all);
    assert(runtime::entries_model(fresh@).len() == fresh@.len());
    if fresh.len() == 0 {
        return visible_params(current, show_all);
    }
    let all = merge_params(current, &fresh, true);
    visible_params(&all, show_all)
}

/// The value of a parameter that a document gives, where it is one.
pub open spec fn document_value(value: Json) -> Option<ParamModel> {
    match value {
        Json::Number(n) => if n.float.finite() {
            Some(ParamModel::Number(n.float))
        } else {
            None
        },
        Json::Bool(flag) => Some(ParamModel::Bool(flag)),
        Json::Text(s) => Some(ParamModel::Text(s)),
        _ => None,
    }
}

/// The model of a value that may not be there.
pub open spec fn value_model(value: Option<RuntimeParamValue>) -> Option<ParamModel> {
    match value {
        Some(v) => Some(v@),
        None => None,
    }
}

/// Reads the value of a parameter from a document.
pub fn json_value_to_runtime_param(value: &JsonValue) -> (r: Option<RuntimeParamValue>)
    ensures
        value_model(r) == document_value(value@),
{
    match value {
        JsonValue::Number(n) => if n.float.is_finite() {
            Some(RuntimeParamValue::Number(n.float))
        } else {
            None
        },
        JsonValue::Bool(flag) => Some(RuntimeParamValue::Bool(*flag)),
        JsonValue::Text(s) => Some(RuntimeParamValue::Text(s.clone())),
        _ => None,
    }
}

/// The parameters that a document gives, as far as they are shown.
pub open spec fn document_params(values: Seq<(Seq<char>, Json)>, show_all: bool) -> Seq<
    (Seq<char>, ParamModel),
>
    decreases values.len(),
{
    if values.len() == 0 {
        Seq::empty()
    } else {
        let before = document_params(values.drop_last(), show_all);
        let (key, value) = values.last();
        match document_value(value) {
            Some(found) => if shown(key, show_all) {
                before.push((key, found))
            } else {
                before
            },
            None => before,
        }
    }
}

fn read_document_params(values: &Vec<(String, JsonValue)>, show_all: bool) -> (r: Vec<
    (String, RuntimeParamValue),
>)
    ensures
        runtime::entries_model(r@) == document_params(json::entries_content(values@), show_all),
{
    let ghost all = json::entries_content(values@);
    let mut out: Vec<(String, RuntimeParamValue)> = Vec::new();
    let mut i: usize = 0;
    proof {
        json::lemma_entries_content(values@);
    }
    assert(all.take(0) =~= Seq::empty());
    assert(runtime::entries_model(out@) =~= Seq::empty());
    while i < values.len()
        invariant
            i <= values@.len(),
            all == json::entries_content(values@),
            all.len() == values@.len(),
            forall|k: int|
                0 <= k < values@.len() ==> #[trigger] all[k] == (values@[k].0@, values@[k].1@),
            runtime::entries_model(out@) == document_params(all.take(i as int), show_all),
        decreases values@.len() - i,
    {
        assert(all.take(i + 1).drop_last() =~= all.take(i as int));
        assert(all.take(i + 1).last() == all[i as int]);
        if show_all || is_listed_osc_param_key(values[i].0.as_str()) {
            if let Some(value) = json_value_to_runtime_param(&values[i].1) {
                let entry = (values[i].0.clone(), value);
                proof {
                    lemma_entries_push(out@, entry);
                }
                out.push(entry);
            }
        }
        i += 1;
    }
    assert(all.take(i as int) =~= all);
    out
}

/// The list after the values of a document arrived: nothing changes where it gives none and some
/// are known; what is known wins over it while the bridge runs.
pub open spec fn updated(
    current: Seq<(Seq<char>, ParamModel)>,
    values: Seq<(Seq<char>, Json)>,
    show_all: bool,
    running: bool,
) -> Option<Seq<(Seq<char>, ParamModel)>> {
    let fresh = runtime::sorted_entries(document_params(values, show_all));
    if fresh.len() == 0 && current.len() > 0 {
        None
    } else if running && current.len() > 0 {
        Some(visible(merged(current, fresh, false), show_all))
    } else {
        Some(visible(fresh, show_all))
    }
}

/// Takes up the values of a document; `None` where the list stays as it is.
pub fn take_oscquery_params(
    current: &Vec<(String, RuntimeParamValue)>,
    values: &Vec<(String, JsonValue)>,
    show_all: bool,
    running: bool,
) -> (r: Option<Vec<(String, RuntimeParamValue)>>)
    ensures
        match r {
            Some(list) => updated(
                runtime::entries_model(current@),
                json::entries_content(values@),
                show_all,
                running,
            ) == Some(runtime::entries_model(list@)),
            None => updated(
                runtime::entries_model(current@),
                json::entries_content(values@),
                show_all,
                running,
            ) is None,
        },
{
    let found = read_document_params(values, show_all);
    let fresh = sort_params(&found);
    assert(runtime::entries_model(fresh@).len() == fresh@.len());
    assert(runtime::entries_model(current@).len() == current@.len());
    if fresh.len() == 0 && current.len() > 0 {
        None
    } else if running && current.len() > 0 {
        let all = merge_params(current, &fresh, false);
        Some(visible_params(&all, show_all))
    } else {
        Some(visible_params(&fresh, show_all))
    }
}

/// The listed values of a document, written out.
pub open spec fn written_values(values: Seq<(Seq<char>, Json)>) -> Seq<(Seq<char>, ParamModel)>
    decreases values.len(),
{
    if values.len() == 0 {
        Seq::empty()
    } else {
        let before = written_values(values.drop_last());
        if listed(values.last().0) {
            before.push((values.last().0, ParamModel::Text(json::json_text(values.last().1))))
        } else {
            before
        }
    }
}

/// The listed values of a document, written out, in the order of their names.
pub fn bulk_values(values: &Vec<(String, JsonValue)>) -> (r: Vec<(String, RuntimeParamValue)>)
    ensures
        runtime::entries_model(r@) == runtime::sorted_entries(
            written_values(json::entries_content(values@)),
        ),
{
    let ghost all = json::entries_content(values@);
    let mut out: Vec<(String, RuntimeParamValue)> = Vec::new();
    let mut i: usize = 0;
    proof {
        json::lemma_entries_content(values@);
    }
    assert(all.take(0) =~= Seq::empty());
    assert(runtime::entries_model(out@) =~= Seq::empty());
    while i < values.len()
        invariant
            i <= values@.len(),
            all == json::entries_content(values@),
            all.len() == values@.len(),
            forall|k: int|
                0 <= k < values@.len() ==> #[trigger] all[k] == (values@[k].0@, values@[k].1@),
            runtime::entries_model(out@) == written_values(all.take(i as int)),
        decreases values@.len() - i,
    {
        assert(all.take(i + 1).drop_last() =~= all.take(i as int));
        assert(all.take(i + 1).last() == all[i as int]);
        if is_listed_osc_param_key(values[i].0.as_str()) {
            let entry = (
                values[i].0.clone(),
                RuntimeParamValue::Text(values[i].1.to_text()),
            );
            proof {
                lemma_entries_push(out@, entry);
            }
            out.push(entry);
        }
        i += 1;
    }
    assert(all.take(i as int) =~= all);
    sort_params(&out)
}

/// The number that a value stands for, given what an OSC number is in binary64.
pub open spec fn reading(value: ParamModel, widened: FloatBits) -> Option<FloatBits> {
    match value {
        ParamModel::Int(_) => Some(widened),
        ParamModel::Float(_) => Some(widened),
        ParamModel::Number(number) => Some(number),
        ParamModel::Bool(flag) => Some(
            if flag {
                float::number(float::ONE)
            } else {
                float::number(0)
            },
        ),
        ParamModel::Text(s) => match float::float_reading(s) {
            Some(bits) => Some(float::number(bits)),
            None => None,
        },
    }
}

/// The number that a value stands for, given what an OSC number is in binary64.
pub fn param_reading(value: &RuntimeParamValue, widened: FloatBits) -> (r: Option<FloatBits>)
    ensures
        r == reading(value@, widened),
{
    match value {
        RuntimeParamValue::Int(_) => Some(widened),
        RuntimeParamValue::Float(_) => Some(widened),
        RuntimeParamValue::Number(number) => Some(*number),
        RuntimeParamValue::Bool(flag) => Some(
            if *flag {
                float::from_bits(float::ONE)
            } else {
                float::from_bits(0)
            },
        ),
        RuntimeParamValue::Text(s) => match float::read_float(s.as_str()) {
            Some(bits) => Some(float::from_bits(bits)),
            None => None,
        },
    }
}

/// The names and numbers of parameters.
pub open spec fn numbers_model(items: Seq<(String, FloatBits)>) -> Seq<(Seq<char>, FloatBits)> {
    Seq::new(items.len(), |i: int| (items[i].0@, items[i].1))
}

/// What routes can take their values from: the intensity, and each parameter that stands for a
/// number, held between zero and one.
pub open spec fn sources(
    intensity: Option<FloatBits>,
    numbers: Seq<(Seq<char>, FloatBits)>,
) -> Seq<(Seq<char>, FloatBits)> {
    let base = match intensity {
        Some(level) => level,
        None => float::number(0),
    };
    Seq::new(
        numbers.len() + 1,
        |i: int|
            if i == 0 {
                ("intensity"@, float::unit_limited(base))
            } else {
                ("avatar:"@ + numbers[i - 1].0, float::unit_limited(numbers[i - 1].1))
            },
    )
}

/// What routes can take their values from.
pub fn build_intiface_source_values(
    intensity: Option<FloatBits>,
    numbers: &Vec<(String, FloatBits)>,
) -> (r: Vec<(String, FloatBits)>)
    ensures
        numbers_model(r@) == sources(intensity, numbers_model(numbers@)),
{
    let ghost wanted = sources(intensity, numbers_model(numbers@));
    let base = match intensity {
        Some(level) => level,
        None => float::from_bits(0),
    };
    let mut out: Vec<(String, FloatBits)> = Vec::new();
    out.push(("intensity".to_owned(), float::limit01(base)));
    let mut i: usize = 0;
    assert(numbers_model(out@) =~= wanted.take(1));
    while i < numbers.len()
        invariant
            i <= numbers@.len(),
            wanted == sources(intensity, numbers_model(numbers@)),
            numbers_model(out@) == wanted.take(i + 1),
        decreases numbers@.len() - i,
    {
        let ghost before = out@;
        let name = text::concat2("avatar:", numbers[i].0.as_str());
        out.push((name, float::limit01(numbers[i].1)));
        i += 1;
        assert(numbers_model(out@) =~= numbers_model(before).push(wanted[i as int]));
        assert(numbers_model(out@) =~= wanted.take(i + 1));
    }
    assert(wanted.take(i + 1) =~= wanted);
    out
}

/// What is hidden is not in the list, and what is in the list was in it before.
pub proof fn law_visible(entries: Seq<(Seq<char>, ParamModel)>, show_all: bool)
    ensures
        forall|i: int|
            0 <= i < visible(entries, show_all).len() ==> shown(
                (#[trigger] visible(entries, show_all)[i]).0,
                show_all,
            ) && entries.contains(visible(entries, show_all)[i]),
        show_all ==> visible(entries, show_all) == entries,
    decreases entries.len(),
{
    if entries.len() > 0 {
        let shorter = entries.drop_last();
        let before = visible(shorter, show_all);
        let out = visible(entries, show_all);
        law_visible(shorter, show_all);
        assert forall|i: int| 0 <= i < out.len() implies shown((#[trigger] out[i]).0, show_all)
            && entries.contains(out[i]) by {
            if i < before.len() {
                assert(out[i] == before[i]);
                let k = choose|k: int| 0 <= k < shorter.len() && shorter[k] == before[i];
                assert(entries[k] == out[i]);
            } else {
                assert(entries[entries.len() - 1] == out[i]);
            }
        }
        if show_all {
            assert(out =~= entries);
        }
    }
}

/// A list that was merged is in the order of its names.
pub proof fn law_merged_in_order(
    current: Seq<(Seq<char>, ParamModel)>,
    fresh: Seq<(Seq<char>, ParamModel)>,
    replace: bool,
)
    ensures
        runtime::in_order(merged(current, fresh, replace)),
{
    runtime::law_listing_in_order(
        with_params(with_params(Seq::empty(), current, true), fresh, replace),
    );
}

} // verus!
