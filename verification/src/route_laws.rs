//! Laws of the level that routes give to a feature of a device.
use vstd::prelude::*;
use crate::float;
use crate::float::FloatBits;
use crate::intiface;
use crate::intiface::{DeviceModel, FeatureModel, RouteInput, RouteModel};
use crate::mapping;

verus! {

/// The value that a route brings for a feature: that of its source, where the route is enabled
/// and meant for the feature.
pub open spec fn brought(
    device: DeviceModel,
    feature: FeatureModel,
    sources: Seq<(Seq<char>, FloatBits)>,
    route: RouteModel,
) -> Option<FloatBits> {
    if route.enabled && intiface::route_matches(route, device, feature) {
        mapping::input_of(sources, intiface::source_key(route.source))
    } else {
        None
    }
}

/// The level that a route makes of a value, held between its smallest and its largest output;
/// `scaled` is how a route scales a value.
pub open spec fn held_level(
    route: RouteModel,
    value: FloatBits,
    scaled: spec_fn(RouteModel, FloatBits) -> FloatBits,
) -> FloatBits {
    float::limited(
        scaled(route, value),
        intiface::limits_of(route).min_output,
        intiface::limits_of(route).max_output,
    )
}

/// The levels that routes make of their values.
pub open spec fn levels_of(
    inputs: Seq<RouteInput>,
    routes: Seq<RouteModel>,
    scaled: spec_fn(RouteModel, FloatBits) -> FloatBits,
) -> Seq<FloatBits> {
    Seq::new(
        inputs.len(),
        |i: int| held_level(routes[inputs[i].route_index as int], inputs[i].value, scaled),
    )
}

/// The level of a feature: the highest that a route brings.
pub open spec fn feature_level(
    device: DeviceModel,
    feature: FeatureModel,
    sources: Seq<(Seq<char>, FloatBits)>,
    routes: Seq<RouteModel>,
    scaled: spec_fn(RouteModel, FloatBits) -> FloatBits,
) -> Option<FloatBits> {
    intiface::highest_of(
        levels_of(
            intiface::route_inputs_of(device, feature, sources, routes),
            routes,
            scaled,
        ),
    )
}

/// The route brings the level.
pub open spec fn brings(
    device: DeviceModel,
    feature: FeatureModel,
    sources: Seq<(Seq<char>, FloatBits)>,
    route: RouteModel,
    scaled: spec_fn(RouteModel, FloatBits) -> FloatBits,
    level: FloatBits,
) -> bool {
    brought(device, feature, sources, route) matches Some(value) && held_level(route, value, scaled) == level
}

proof fn lemma_inputs(
    device: DeviceModel,
    feature: FeatureModel,
    sources: Seq<(Seq<char>, FloatBits)>,
    routes: Seq<RouteModel>,
)
    requires
        routes.len() <= usize::MAX,
    ensures
        ({
            let inputs = intiface::route_inputs_of(device, feature, sources, routes);
            &&& forall|i: int|
                0 <= i < inputs.len() ==> (#[trigger] inputs[i]).route_index < routes.len()
                    && brought(
                    device,
                    feature,
                    sources,
                    routes[inputs[i].route_index as int],
                ) == Some(inputs[i].value)
            &&& forall|k: int|
                0 <= k < routes.len() && brought(
                    device,
                    feature,
                    sources,
                    #[trigger] routes[k],
                ) is Some ==> exists|i: int|
                    0 <= i < inputs.len() && (#[trigger] inputs[i]).route_index == k
        }),
    decreases routes.len(),
{
    if routes.len() > 0 {
        let shorter = routes.drop_last();
        lemma_inputs(device, feature, sources, shorter);
        let before = intiface::route_inputs_of(device, feature, sources, shorter);
        let inputs = intiface::route_inputs_of(device, feature, sources, routes);
        assert forall|i: int| 0 <= i < inputs.len() implies (#[trigger] inputs[i]).route_index
            < routes.len() && brought(
            device,
            feature,
            sources,
            routes[inputs[i].route_index as int],
        ) == Some(inputs[i].value) by {
            if i < before.len() {
                assert(inputs[i] == before[i]);
                assert(shorter[before[i].route_index as int]
                    == routes[before[i].route_index as int]);
            }
        }
        assert forall|k: int|
            0 <= k < routes.len() && brought(
                device,
                feature,
                sources,
                #[trigger] routes[k],
            ) is Some implies exists|i: int|
            0 <= i < inputs.len() && (#[trigger] inputs[i]).route_index == k by {
            if k < shorter.len() {
                assert(shorter[k] == routes[k]);
                let i = choose|i: int|
                    0 <= i < before.len() && (#[trigger] before[i]).route_index == k;
                assert(inputs[i] == before[i]);
            } else {
                assert(inputs[inputs.len() - 1].route_index == k);
            }
        }
    }
}

proof fn lemma_levels(
    device: DeviceModel,
    feature: FeatureModel,
    sources: Seq<(Seq<char>, FloatBits)>,
    routes: Seq<RouteModel>,
    scaled: spec_fn(RouteModel, FloatBits) -> FloatBits,
)
    requires
        routes.len() <= usize::MAX,
    ensures
        ({
            let levels = levels_of(
                intiface::route_inputs_of(device, feature, sources, routes),
                routes,
                scaled,
            );
            &&& forall|i: int|
                0 <= i < levels.len() ==> exists|k: int|
                    0 <= k < routes.len() && brings(
                        device,
                        feature,
                        sources,
                        #[trigger] routes[k],
                        scaled,
                        #[trigger] levels[i],
                    )
            &&& forall|k: int|
                0 <= k < routes.len() && brought(
                    device,
                    feature,
                    sources,
                    #[trigger] routes[k],
                ) is Some ==> levels.contains(
                    held_level(routes[k], brought(device, feature, sources, routes[k])->0, scaled),
                )
        }),
{
    lemma_inputs(device, feature, sources, routes);
    let inputs = intiface::route_inputs_of(device, feature, sources, routes);
    let levels = levels_of(inputs, routes, scaled);
    assert forall|i: int| 0 <= i < levels.len() implies exists|k: int|
        0 <= k < routes.len() && brings(
            device,
            feature,
            sources,
            #[trigger] routes[k],
            scaled,
            #[trigger] levels[i],
        ) by {
        let k = inputs[i].route_index as int;
        assert(brings(device, feature, sources, routes[k], scaled, levels[i]));
    }
    assert forall|k: int|
        0 <= k < routes.len() && brought(
            device,
            feature,
            sources,
            #[trigger] routes[k],
        ) is Some implies levels.contains(
        held_level(routes[k], brought(device, feature, sources, routes[k])->0, scaled),
    ) by {
        let i = choose|i: int| 0 <= i < inputs.len() && (#[trigger] inputs[i]).route_index == k;
        assert(levels[i] == held_level(routes[k], inputs[i].value, scaled));
    }
}

/// The outputs of the routes and the values that they scale are numbers.
pub open spec fn all_numbers(
    routes: Seq<RouteModel>,
    scaled: spec_fn(RouteModel, FloatBits) -> FloatBits,
) -> bool {
    forall|k: int, value: FloatBits|
        0 <= k < routes.len() ==> !routes[k].min_output.nan() && !routes[k].max_output.nan()
            && !(#[trigger] scaled(routes[k], value)).nan()
}

/// A feature has a level exactly where an enabled route that is meant for it has a value. The
/// level lies between zero and one, is one that a route brings, and no route brings a higher one.
pub proof fn law_feature_level(
    device: DeviceModel,
    feature: FeatureModel,
    sources: Seq<(Seq<char>, FloatBits)>,
    routes: Seq<RouteModel>,
    scaled: spec_fn(RouteModel, FloatBits) -> FloatBits,
)
    requires
        routes.len() <= usize::MAX,
        all_numbers(routes, scaled),
    ensures
        feature_level(device, feature, sources, routes, scaled) is Some <==> exists|k: int|
            0 <= k < routes.len() && brought(device, feature, sources, #[trigger] routes[k]) is Some,
        feature_level(device, feature, sources, routes, scaled) matches Some(level)
            ==> float::in_unit(level) && (exists|k: int|
            0 <= k < routes.len() && brings(
                device,
                feature,
                sources,
                #[trigger] routes[k],
                scaled,
                level,
            )) && forall|k: int, other: FloatBits|
            0 <= k < routes.len() && #[trigger] brings(
                device,
                feature,
                sources,
                routes[k],
                scaled,
                other,
            ) ==> other.at_most(level),
{
    lemma_levels(device, feature, sources, routes, scaled);
    let levels = levels_of(
        intiface::route_inputs_of(device, feature, sources, routes),
        routes,
        scaled,
    );
    assert forall|i: int| 0 <= i < levels.len() implies !(#[trigger] levels[i]).nan()
        && float::in_unit(levels[i]) by {
        let k = choose|k: int|
            0 <= k < routes.len() && brings(
                device,
                feature,
                sources,
                #[trigger] routes[k],
                scaled,
                levels[i],
            );
        let value = brought(device, feature, sources, routes[k])->0;
        assert(!scaled(routes[k], value).nan());
        intiface::law_route_limits(routes[k]);
    }
    if levels.len() > 0 {
        intiface::law_highest(levels);
        let top = intiface::highest_of(levels)->0;
        let i = choose|i: int| 0 <= i < levels.len() && levels[i] == top;
        assert(levels[i] == top);
        let k = choose|k: int|
            0 <= k < routes.len() && brings(
                device,
                feature,
                sources,
                #[trigger] routes[k],
                scaled,
                levels[i],
            );
        assert(brought(device, feature, sources, routes[k]) is Some);
        assert forall|k: int, other: FloatBits|
            0 <= k < routes.len() && #[trigger] brings(
                device,
                feature,
                sources,
                routes[k],
                scaled,
                other,
            ) implies other.at_most(top) by {
            assert(levels.contains(other));
            let j = choose|j: int| 0 <= j < levels.len() && levels[j] == other;
            assert(levels[j].at_most(top));
        }
    } else {
        assert forall|k: int| 0 <= k < routes.len() implies brought(
            device,
            feature,
            sources,
            #[trigger] routes[k],
        ) is None by {
            if brought(device, feature, sources, routes[k]) is Some {
                assert(levels.contains(
                    held_level(routes[k], brought(device, feature, sources, routes[k])->0, scaled),
                ));
            }
        }
    }
}

/// Every enabled route of the first list is in the second.
pub open spec fn enabled_among(first: Seq<RouteModel>, second: Seq<RouteModel>) -> bool {
    forall|k: int|
        0 <= k < first.len() && (#[trigger] first[k]).enabled ==> second.contains(first[k])
}

/// Disabled routes and the order of the routes do not count: two lists with the same enabled
/// routes give a feature the same level, as a number.
pub proof fn law_order_and_disabled_routes(
    device: DeviceModel,
    feature: FeatureModel,
    sources: Seq<(Seq<char>, FloatBits)>,
    first: Seq<RouteModel>,
    second: Seq<RouteModel>,
    scaled: spec_fn(RouteModel, FloatBits) -> FloatBits,
)
    requires
        first.len() <= usize::MAX,
        second.len() <= usize::MAX,
        all_numbers(first, scaled),
        all_numbers(second, scaled),
        enabled_among(first, second),
        enabled_among(second, first),
    ensures
        match (
            feature_level(device, feature, sources, first, scaled),
            feature_level(device, feature, sources, second, scaled),
        ) {
            (Some(a), Some(b)) => a.at_most(b) && b.at_most(a),
            (None, None) => true,
            _ => false,
        },
{
    lemma_level_carried(device, feature, sources, first, second, scaled);
    lemma_level_carried(device, feature, sources, second, first, scaled);
}

proof fn lemma_level_carried(
    device: DeviceModel,
    feature: FeatureModel,
    sources: Seq<(Seq<char>, FloatBits)>,
    first: Seq<RouteModel>,
    second: Seq<RouteModel>,
    scaled: spec_fn(RouteModel, FloatBits) -> FloatBits,
)
    requires
        first.len() <= usize::MAX,
        second.len() <= usize::MAX,
        all_numbers(first, scaled),
        all_numbers(second, scaled),
        enabled_among(first, second),
    ensures
        feature_level(device, feature, sources, first, scaled) matches Some(a) ==> feature_level(
            device,
            feature,
            sources,
            second,
            scaled,
        ) matches Some(b) && a.at_most(b),
{
    law_feature_level(device, feature, sources, first, scaled);
    law_feature_level(device, feature, sources, second, scaled);
    if let Some(a) = feature_level(device, feature, sources, first, scaled) {
        let k = choose|k: int|
            0 <= k < first.len() && brings(
                device,
                feature,
                sources,
                #[trigger] first[k],
                scaled,
                a,
            );
        assert(first[k].enabled);
        assert(second.contains(first[k]));
        let m = choose|m: int| 0 <= m < second.len() && second[m] == first[k];
        assert(brought(device, feature, sources, second[m]) is Some);
        assert(brings(device, feature, sources, second[m], scaled, a));
    }
}

} // verus!
