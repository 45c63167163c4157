//! Laws of devices: which routes reach which features, what is read from a device server, and
//! what is sent to it.
use vstd::prelude::*;
use vstd::utf8::*;
use crate::float;
use crate::float::FloatBits;
use crate::intiface;
use crate::intiface::{
    CommandModel, DeviceModel, FeatureModel, IntifaceConfigModel, ProbeModel, RouteModel, RoutedModel,
    SocketMessage, SourceKindModel, StepModel,
};
use crate::json;
use crate::json::Json;
use crate::mapping;
use crate::payload::PayloadModel;
use crate::relay_laws::{member_count, says};
use crate::route_laws;
use crate::text;

verus! {

/// The text stands in the name, large and small letters alike.
pub open spec fn named_by(name: Seq<char>, wanted: Seq<char>) -> bool {
    exists|i: int|
        0 <= i <= name.len() - wanted.len() && text::lower_text(
            #[trigger] name.subrange(i, i + wanted.len()),
        ) == text::lower_text(wanted)
}

/// A feature's kind of actuator, or nothing where it names none.
pub open spec fn kind_of(feature: FeatureModel) -> Seq<char> {
    match feature.actuator_type {
        Some(name) => name,
        None => Seq::empty(),
    }
}

proof fn lemma_named_by(name: Seq<char>, wanted: Seq<char>)
    ensures
        text::contains_text(text::lower_text(name), text::lower_text(wanted)) <==> named_by(
            name,
            wanted,
        ),
{
    let low = text::lower_text(name);
    let pattern = text::lower_text(wanted);
    assert forall|i: int| 0 <= i <= name.len() - wanted.len() implies low.subrange(
        i,
        i + pattern.len(),
    ) == text::lower_text(#[trigger] name.subrange(i, i + wanted.len())) by {
        assert(low.subrange(i, i + pattern.len()) =~= text::lower_text(
            name.subrange(i, i + wanted.len()),
        ));
    }
    if text::contains_text(low, pattern) {
        let i = choose|i: int| text::occurs_at(low, pattern, i);
        assert(text::lower_text(name.subrange(i, i + wanted.len())) == pattern);
    }
    if named_by(name, wanted) {
        let i = choose|i: int|
            0 <= i <= name.len() - wanted.len() && text::lower_text(
                #[trigger] name.subrange(i, i + wanted.len()),
            ) == text::lower_text(wanted);
        assert(text::occurs_at(low, pattern, i));
    }
}

/// A route whose device text is given never brings a value for a feature of a device whose name
/// does not hold that text, whatever the actuator type; and one whose actuator type is given never
/// brings a value for a feature of another type, whatever the device's name. An enabled route that
/// passes both brings what its source holds.
pub proof fn law_route_filters(
    route: RouteModel,
    device: DeviceModel,
    feature: FeatureModel,
    sources: Seq<(Seq<char>, FloatBits)>,
)
    ensures
        text::trimmed(route.target_device_contains).len() > 0 && !named_by(
            device.name,
            text::trimmed(route.target_device_contains),
        ) ==> !intiface::route_matches(route, device, feature) && route_laws::brought(
            device,
            feature,
            sources,
            route,
        ) is None,
        text::trimmed(route.target_actuator_type).len() > 0 && text::lower_text(kind_of(feature))
            != text::lower_text(text::trimmed(route.target_actuator_type))
            ==> !intiface::route_matches(route, device, feature) && route_laws::brought(
            device,
            feature,
            sources,
            route,
        ) is None,
        !route.enabled ==> route_laws::brought(device, feature, sources, route) is None,
        (text::trimmed(route.target_device_contains).len() == 0 || named_by(
            device.name,
            text::trimmed(route.target_device_contains),
        )) && (text::trimmed(route.target_actuator_type).len() == 0 || text::lower_text(
            kind_of(feature),
        ) == text::lower_text(text::trimmed(route.target_actuator_type)))
            ==> intiface::route_matches(route, device, feature) && (route.enabled
            ==> route_laws::brought(device, feature, sources, route) == mapping::input_of(
            sources,
            intiface::source_key(route.source),
        )),
{
    lemma_named_by(device.name, text::trimmed(route.target_device_contains));
}

/// Every value that reaches a feature was brought by the route it names, from that route's own
/// source, past both of its filters; every route that brings a value is among them, once, in the
/// order of the routes.
pub proof fn law_inputs_of_feature(
    device: DeviceModel,
    feature: FeatureModel,
    sources: Seq<(Seq<char>, FloatBits)>,
    routes: Seq<RouteModel>,
    k: int,
)
    requires
        0 <= k < routes.len() <= usize::MAX,
    ensures
        forall|i: int|
            0 <= i < intiface::route_inputs_of(device, feature, sources, routes).len() ==> {
                let input = #[trigger] intiface::route_inputs_of(
                    device,
                    feature,
                    sources,
                    routes,
                )[i];
                let route = routes[input.route_index as int];
                &&& input.route_index < routes.len()
                &&& route.enabled
                &&& text::trimmed(route.target_device_contains).len() == 0 || named_by(
                    device.name,
                    text::trimmed(route.target_device_contains),
                )
                &&& text::trimmed(route.target_actuator_type).len() == 0 || text::lower_text(
                    kind_of(feature),
                ) == text::lower_text(text::trimmed(route.target_actuator_type))
                &&& mapping::input_of(sources, intiface::source_key(route.source)) == Some(
                    input.value,
                )
            },
        route_laws::brought(device, feature, sources, routes[k]) is Some <==> exists|i: int|
            0 <= i < intiface::route_inputs_of(device, feature, sources, routes).len() && (
            #[trigger] intiface::route_inputs_of(device, feature, sources, routes)[i]).route_index
                == k,
        forall|i: int, j: int|
            0 <= i < j < intiface::route_inputs_of(device, feature, sources, routes).len() ==> (
            #[trigger] intiface::route_inputs_of(device, feature, sources, routes)[i]).route_index
                < (#[trigger] intiface::route_inputs_of(
                device,
                feature,
                sources,
                routes,
            )[j]).route_index,
{
    lemma_inputs_in_order(device, feature, sources, routes);
    let inputs = intiface::route_inputs_of(device, feature, sources, routes);
    assert forall|i: int| 0 <= i < inputs.len() implies {
        let input = #[trigger] inputs[i];
        let route = routes[input.route_index as int];
        &&& input.route_index < routes.len()
        &&& route.enabled
        &&& text::trimmed(route.target_device_contains).len() == 0 || named_by(
            device.name,
            text::trimmed(route.target_device_contains),
        )
        &&& text::trimmed(route.target_actuator_type).len() == 0 || text::lower_text(
            kind_of(feature),
        ) == text::lower_text(text::trimmed(route.target_actuator_type))
        &&& mapping::input_of(sources, intiface::source_key(route.source)) == Some(input.value)
    } by {
        let route = routes[inputs[i].route_index as int];
        law_route_filters(route, device, feature, sources);
    }
    if route_laws::brought(device, feature, sources, routes[k]) is Some {
        let i = choose|i: int| 0 <= i < inputs.len() && (#[trigger] inputs[i]).route_index == k;
        assert(inputs[i].route_index == k);
    }
}

proof fn lemma_inputs_in_order(
    device: DeviceModel,
    feature: FeatureModel,
    sources: Seq<(Seq<char>, FloatBits)>,
    routes: Seq<RouteModel>,
)
    requires
        routes.len() <= usize::MAX,
    ensures
        ({
            let inputs = intiface::route_inputs_of(device, feature, sources, routes);
            &&& forall|i: int|
                0 <= i < inputs.len() ==> (#[trigger] inputs[i]).route_index < routes.len()
                    && route_laws::brought(
                    device,
                    feature,
                    sources,
                    routes[inputs[i].route_index as int],
                ) == Some(inputs[i].value)
            &&& forall|k: int|
                0 <= k < routes.len() && route_laws::brought(
                    device,
                    feature,
                    sources,
                    #[trigger] routes[k],
                ) is Some ==> exists|i: int|
                    0 <= i < inputs.len() && (#[trigger] inputs[i]).route_index == k
            &&& forall|i: int, j: int|
                0 <= i < j < inputs.len() ==> (#[trigger] inputs[i]).route_index < (
                #[trigger] inputs[j]).route_index
        }),
    decreases routes.len(),
{
    if routes.len() > 0 {
        let shorter = routes.drop_last();
        lemma_inputs_in_order(device, feature, sources, shorter);
        let before = intiface::route_inputs_of(device, feature, sources, shorter);
        let inputs = intiface::route_inputs_of(device, feature, sources, routes);
        assert forall|i: int| 0 <= i < before.len() implies #[trigger] inputs[i] == before[i]
            && shorter[before[i].route_index as int] == routes[before[i].route_index as int] by {}
        assert forall|k: int|
            0 <= k < routes.len() && route_laws::brought(
                device,
                feature,
                sources,
                #[trigger] routes[k],
            ) is Some implies exists|i: int|
            0 <= i < inputs.len() && (#[trigger] inputs[i]).route_index == k by {
            if k < shorter.len() {
                assert(shorter[k] == routes[k]);
                let i = choose|i: int|
                    0 <= i < before.len() && (#[trigger] before[i]).route_index == k;
                assert(inputs[i] == before[i]);
            } else {
                assert(inputs[inputs.len() - 1].route_index == k);
            }
        }
    }
}

/// A route reads the output's level, or the parameter that it names, blanks aside: the values that
/// are offered stand under just these names.
pub proof fn law_route_source(
    intensity: Option<FloatBits>,
    numbers: Seq<(Seq<char>, FloatBits)>,
    name: Seq<char>,
)
    ensures
        crate::params::sources(intensity, numbers)[0].0 == intiface::source_key(
            SourceKindModel::Intensity,
        ),
        forall|i: int|
            0 <= i < numbers.len() && (#[trigger] numbers[i]).0 == text::trimmed(name)
                ==> crate::params::sources(intensity, numbers)[i + 1].0 == intiface::source_key(
                SourceKindModel::AvatarParam(name),
            ),
        intiface::source_key(SourceKindModel::AvatarParam(name)) != intiface::source_key(
            SourceKindModel::Intensity,
        ),
{
    reveal_strlit("intensity");
    reveal_strlit("avatar:");
    assert(intiface::source_key(SourceKindModel::AvatarParam(name))[0] == 'a');
    assert(intiface::source_key(SourceKindModel::Intensity)[0] == 'i');
}

/// The values that are offered to routes are those of the output and of the parameters, in order
/// and each brought into the unit range.
pub proof fn law_offered_values(intensity: FloatBits, numbers: Seq<(Seq<char>, FloatBits)>, i: int)
    requires
        0 <= i < numbers.len(),
    ensures
        crate::params::sources(Some(intensity), numbers).len() == numbers.len() + 1,
        float::in_unit(intensity) ==> crate::params::sources(Some(intensity), numbers)[0].1
            == intensity,
        float::in_unit(numbers[i].1) ==> crate::params::sources(Some(intensity), numbers)[i + 1].1
            == numbers[i].1,
        !numbers[i].1.nan() ==> float::in_unit(
            crate::params::sources(Some(intensity), numbers)[i + 1].1,
        ),
        crate::params::sources(None, numbers)[0].1 == float::number(0),
{
}

/// What a route asks for is kept where it is in range: its idle level, its smallest and largest
/// output, and its scale.
pub proof fn law_limits_kept(route: RouteModel)
    ensures
        float::in_unit(route.idle) ==> intiface::limits_of(route).idle == route.idle,
        float::in_unit(route.min_output) ==> intiface::limits_of(route).min_output
            == route.min_output,
        float::in_unit(route.min_output) && float::in_unit(route.max_output)
            && route.min_output.at_most(route.max_output) ==> intiface::limits_of(route).max_output
            == route.max_output,
        float::in_unit(route.min_output) && float::in_unit(route.max_output)
            && route.max_output.below(route.min_output) ==> intiface::limits_of(route).max_output
            == route.min_output,
        float::number(0).at_most(route.scale) ==> intiface::limits_of(route).scale == route.scale,
        route.scale.below(float::number(0)) ==> intiface::limits_of(route).scale
            == float::number(0),
{
}

/// A level between the limits is held as it is, one below at the lower limit and one above at the
/// upper.
pub proof fn law_level_held(level: FloatBits, min: FloatBits, max: FloatBits)
    requires
        min.at_most(max),
    ensures
        min.at_most(level) && level.at_most(max) ==> float::limited(level, min, max) == level,
        level.below(min) ==> float::limited(level, min, max) == min,
        max.below(level) ==> float::limited(level, min, max) == max,
{
}

/// Only scalar features that a route reaches are driven, each once, with its own device, index and
/// kind of actuator, in the order of the device's features.
pub proof fn law_routed_features(
    device: DeviceModel,
    features: Seq<FeatureModel>,
    feature: FeatureModel,
    sources: Seq<(Seq<char>, FloatBits)>,
    routes: Seq<RouteModel>,
)
    ensures
        intiface::routed_features(device, Seq::empty(), sources, routes).len() == 0,
        ({
            let before = intiface::routed_features(device, features, sources, routes);
            let after = intiface::routed_features(device, features.push(feature), sources, routes);
            let inputs = intiface::route_inputs_of(device, feature, sources, routes);
            &&& before.is_prefix_of(after)
            &&& after.len() == before.len() + 1 <==> feature.command_type == "ScalarCmd"@
                && inputs.len() > 0
            &&& after.len() <= before.len() + 1
            &&& after.len() == before.len() + 1 ==> {
                &&& after.last().device_index == device.device_index
                &&& after.last().scalar_index == feature.index
                &&& (feature.actuator_type matches Some(kind) ==> after.last().actuator_type == kind)
                &&& feature.actuator_type is None ==> after.last().actuator_type == "Vibrate"@
                &&& after.last().inputs == inputs
            }
        }),
{
    assert(features.push(feature).drop_last() =~= features);
}

/// Devices are driven one after the other, each for itself.
pub proof fn law_routed_devices(
    devices: Seq<DeviceModel>,
    device: DeviceModel,
    sources: Seq<(Seq<char>, FloatBits)>,
    routes: Seq<RouteModel>,
)
    ensures
        intiface::routed(Seq::empty(), sources, routes).len() == 0,
        intiface::routed(devices.push(device), sources, routes) == intiface::routed(
            devices,
            sources,
            routes,
        ) + intiface::routed_features(device, device.features, sources, routes),
{
    assert(devices.push(device).drop_last() =~= devices);
}

/// A level is sent at once the first time, when it has moved by the smallest step, and when the
/// last one is as old as a heartbeat; and at no other time.
pub proof fn law_level_due(
    delta: FloatBits,
    now_ms: i64,
    last_sent_at_ms: i64,
    min_delta: FloatBits,
    heartbeat_ms: u64,
)
    requires
        heartbeat_ms <= i64::MAX,
        float::number(0).at_most(min_delta),
    ensures
        last_sent_at_ms == 0 ==> intiface::level_due(
            delta,
            now_ms,
            last_sent_at_ms,
            min_delta,
            heartbeat_ms,
        ),
        min_delta.at_most(delta) ==> intiface::level_due(
            delta,
            now_ms,
            last_sent_at_ms,
            min_delta,
            heartbeat_ms,
        ),
        now_ms >= last_sent_at_ms + heartbeat_ms ==> intiface::level_due(
            delta,
            now_ms,
            last_sent_at_ms,
            min_delta,
            heartbeat_ms,
        ),
        last_sent_at_ms != 0 && delta.below(min_delta) && now_ms < last_sent_at_ms + heartbeat_ms
            ==> !intiface::level_due(delta, now_ms, last_sent_at_ms, min_delta, heartbeat_ms),
{
}

/// The only message of a packet.
pub open spec fn only_message(packet: PayloadModel, kind: Seq<char>, body: PayloadModel) -> bool {
    packet matches PayloadModel::List(items) && items.len() == 1 && member_count(items[0]) == 1
        && says(items[0], kind, body)
}

/// A packet is one message of the given kind, with its number among its members and every member
/// that it was given.
pub proof fn law_packet(kind: Seq<char>, id: u32, members: Seq<(Seq<char>, PayloadModel)>, i: int)
    requires
        0 <= i < members.len(),
    ensures
        ({
            let packet = intiface::packet_model(kind, id, members);
            &&& packet is List && packet->List_0.len() == 1 && member_count(packet->List_0[0]) == 1
            &&& packet->List_0[0] is Members && packet->List_0[0]->Members_0[0].0 == kind
            &&& ({
                let body = packet->List_0[0]->Members_0[0].1;
                &&& says(body, "Id"@, PayloadModel::Unsigned(id as u64))
                &&& says(body, members[i].0, members[i].1)
                &&& member_count(body) == members.len() + 1
            })
        }),
{
    let all = members.push(("Id"@, PayloadModel::Unsigned(id as u64)));
    assert(all[members.len() as int] == ("Id"@, PayloadModel::Unsigned(id as u64)));
    assert(all[i] == members[i]);
}

/// A command is a scalar message for its device, with its index, its kind of actuator and a level
/// in the unit range: its own where that is in range.
pub proof fn law_command_packet(id: u32, command: CommandModel)
    ensures
        exists|body: PayloadModel, scalars: Seq<PayloadModel>, level: FloatBits|
            {
                &&& #[trigger] only_message(
                    intiface::scalar_model(id, command),
                    "ScalarCmd"@,
                    body,
                )
                &&& says(body, "Id"@, PayloadModel::Unsigned(id as u64))
                &&& says(
                    body,
                    "DeviceIndex"@,
                    PayloadModel::Unsigned(command.device_index as u64),
                )
                &&& #[trigger] says(body, "Scalars"@, PayloadModel::List(scalars))
                &&& member_count(body) == 3
                &&& scalars.len() == 1
                &&& member_count(scalars[0]) == 3
                &&& says(
                    scalars[0],
                    "Index"@,
                    PayloadModel::Unsigned(command.scalar_index as u64),
                )
                &&& says(scalars[0], "ActuatorType"@, PayloadModel::Text(command.actuator_type))
                &&& #[trigger] says(scalars[0], "Scalar"@, PayloadModel::Float(level))
                &&& float::in_unit(command.level) ==> level == command.level
                &&& !command.level.nan() ==> float::in_unit(level)
            },
{
    let level = float::unit_limited(command.level);
    let inner = seq![
        ("Index"@, PayloadModel::Unsigned(command.scalar_index as u64)),
        ("Scalar"@, PayloadModel::Float(level)),
        ("ActuatorType"@, PayloadModel::Text(command.actuator_type)),
    ];
    let scalars = seq![PayloadModel::Members(inner)];
    let outer = seq![
        ("DeviceIndex"@, PayloadModel::Unsigned(command.device_index as u64)),
        ("Scalars"@, PayloadModel::List(scalars)),
    ].push(("Id"@, PayloadModel::Unsigned(id as u64)));
    let body = PayloadModel::Members(outer);
    assert(outer[0] == ("DeviceIndex"@, PayloadModel::Unsigned(command.device_index as u64)));
    assert(outer[1] == ("Scalars"@, PayloadModel::List(scalars)));
    assert(outer[2] == ("Id"@, PayloadModel::Unsigned(id as u64)));
    assert(inner[0] == ("Index"@, PayloadModel::Unsigned(command.scalar_index as u64)));
    assert(inner[1] == ("Scalar"@, PayloadModel::Float(level)));
    assert(inner[2] == ("ActuatorType"@, PayloadModel::Text(command.actuator_type)));
    let named = seq![("ScalarCmd"@, body)];
    assert(named[0] == ("ScalarCmd"@, body));
    assert(only_message(intiface::scalar_model(id, command), "ScalarCmd"@, body));
    assert(says(body, "Scalars"@, PayloadModel::List(scalars)));
    assert(says(scalars[0], "Scalar"@, PayloadModel::Float(level)));
}

/// Levels are sent after the greeting, one command each in the given order, under numbers that are
/// all different, waiting for no more than eight messages each time; without a command nothing is
/// sent.
pub proof fn law_level_conversation(client_name: Seq<char>, commands: Seq<CommandModel>)
    requires
        commands.len() <= u32::MAX - 2,
    ensures
        ({
            let talk = intiface::level_exchanges(client_name, commands);
            &&& commands.len() == 0 ==> talk.len() == 0
            &&& commands.len() > 0 ==> talk.len() == commands.len() + 1 && talk[0].packet
                == intiface::hello_model(client_name) && talk[0].reply == "ServerInfo"@
            &&& forall|i: int|
                0 <= i < commands.len() ==> (#[trigger] talk[i + 1]).packet
                    == intiface::scalar_model((i + 2) as u32, commands[i]) && talk[i + 1].reply
                    == "Ok"@
            &&& forall|i: int| 0 <= i < talk.len() ==> (#[trigger] talk[i]).max_reads == 8
        }),
{
}

/// The address of a device server names its scheme, its host and its port.
pub proof fn law_server_url(config: IntifaceConfigModel)
    ensures
        ({
            let url = intiface::server_url(config);
            let rest = "://"@ + config.host + ":"@ + text::decimal_text(config.port as nat) + "/"@;
            &&& config.secure ==> url == "wss"@ + rest
            &&& !config.secure ==> url == "ws"@ + rest
        }),
{
    let url = intiface::server_url(config);
    let rest = "://"@ + config.host + ":"@ + text::decimal_text(config.port as nat) + "/"@;
    if config.secure {
        assert(url =~= "wss"@ + rest);
    } else {
        assert(url =~= "ws"@ + rest);
    }
}

/// A packet is read as the members of all its objects, one after the other, and refused where it
/// is no list or holds something that is no object.
pub proof fn law_packet_read(entries: Seq<Json>, members: Seq<(Seq<char>, Json)>, packet: Json)
    ensures
        intiface::packet_entries(packet) is Ok <==> (packet matches Json::Array(items) && forall|
            i: int,
        |
            0 <= i < items.len() ==> (#[trigger] items[i]) is Object),
        intiface::packet_members(Seq::empty()) == Some(Seq::<(Seq<char>, Json)>::empty()),
        intiface::packet_members(entries.push(Json::Object(members))) == (
        match intiface::packet_members(entries) {
            Some(before) => Some(before + members),
            None => None,
        }),
{
    assert(entries.push(Json::Object(members)).drop_last() =~= entries);
    if let Json::Array(items) = packet {
        lemma_all_objects(items);
    }
}

proof fn lemma_all_objects(items: Seq<Json>)
    ensures
        intiface::packet_members(items) is Some <==> forall|i: int|
            0 <= i < items.len() ==> (#[trigger] items[i]) is Object,
    decreases items.len(),
{
    if items.len() > 0 {
        let shorter = items.drop_last();
        lemma_all_objects(shorter);
        assert forall|i: int| 0 <= i < shorter.len() implies shorter[i] == #[trigger] items[i] by {}
        assert(items[items.len() - 1] == items.last());
        if forall|i: int| 0 <= i < items.len() ==> (#[trigger] items[i]) is Object {
            assert forall|i: int| 0 <= i < shorter.len() implies (#[trigger] shorter[i]) is Object by {
                assert(shorter[i] == items[i]);
            }
        }
        if intiface::packet_members(items) is Some {
            assert forall|i: int| 0 <= i < items.len() implies (#[trigger] items[i]) is Object by {
                if i < shorter.len() {
                    assert(shorter[i] is Object);
                }
            }
        }
    }
}

/// A reader goes on until the expected message comes, and fails on what it cannot read.
pub proof fn law_reading_goes_on(
    entries: Result<Seq<(Seq<char>, Json)>, Seq<char>>,
    expected: Seq<char>,
)
    ensures
        match intiface::entries_step(entries, expected) {
            StepModel::Found(value) => entries matches Ok(list) && list.contains((expected, value)),
            StepModel::Continue => entries matches Ok(list) && forall|i: int|
                0 <= i < list.len() ==> (#[trigger] list[i]).0 != expected,
            StepModel::Failed(message) => entries == Err::<Seq<(Seq<char>, Json)>, Seq<char>>(
                message,
            ),
            StepModel::AnswerPing => false,
        },
{
    if let Ok(list) = entries {
        law_member_found(list, expected);
    }
}

/// A member that is found stands in the list under that name, and none is missed.
pub proof fn law_member_found(list: Seq<(Seq<char>, Json)>, name: Seq<char>)
    ensures
        match json::lookup(list, name) {
            Some(value) => list.contains((name, value)),
            None => forall|i: int| 0 <= i < list.len() ==> (#[trigger] list[i]).0 != name,
        },
    decreases list.len(),
{
    if list.len() > 0 {
        let rest = list.drop_first();
        if list[0].0 == name {
            assert(list[0] == (name, list[0].1));
        } else {
            law_member_found(rest, name);
            match json::lookup(rest, name) {
                Some(value) => {
                    let i = choose|i: int| 0 <= i < rest.len() && rest[i] == (name, value);
                    assert(list[i + 1] == (name, value));
                },
                None => {
                    assert forall|i: int| 0 <= i < list.len() implies (#[trigger] list[i]).0
                        != name by {
                        if i > 0 {
                            assert(list[i] == rest[i - 1]);
                        }
                    }
                },
            }
        }
    }
}

/// A device that is read has the number and the name that it reports, and its features in the
/// order scalar, linear, rotating, each numbered from zero within its kind; only a scalar one has
/// a kind of actuator.
pub proof fn law_device_read(item: Json)
    ensures
        ({
            let device = intiface::device_from(item);
            let scalars = json::as_array(json::field2(item, "DeviceMessages"@, "ScalarCmd"@));
            let linears = json::as_array(json::field2(item, "DeviceMessages"@, "LinearCmd"@));
            let rotators = json::as_array(json::field2(item, "DeviceMessages"@, "RotateCmd"@));
            let first = match scalars {
                Some(items) => items.len(),
                None => 0,
            };
            let second = first + match linears {
                Some(items) => items.len(),
                None => 0,
            };
            &&& (json::as_text(json::field(item, "DeviceName"@)) matches Some(name) ==> device.name
                == name)
            &&& (json::as_unsigned(json::field(item, "DeviceIndex"@)) matches Some(n) ==> (n
                <= u32::MAX ==> device.device_index == n))
            &&& device.features.len() == second + match rotators {
                Some(items) => items.len(),
                None => 0,
            }
            &&& forall|i: int|
                0 <= i < device.features.len() ==> {
                    let feature = #[trigger] device.features[i];
                    &&& i < first ==> feature.command_type == "ScalarCmd"@ && feature.index
                        == i as u32 && feature.actuator_type == json::as_text(
                        json::field(scalars->0[i], "ActuatorType"@),
                    )
                    &&& first <= i < second ==> feature.command_type == "LinearCmd"@
                        && feature.index == (i - first) as u32 && feature.actuator_type is None
                    &&& second <= i ==> feature.command_type == "RotateCmd"@ && feature.index == (i
                        - second) as u32 && feature.actuator_type is None
                }
        }),
{
}

/// The devices are read one by one, in order.
pub proof fn law_devices_read(body: Json, i: int)
    ensures
        match json::as_array(json::field(body, "Devices"@)) {
            Some(items) => intiface::devices_from(body).len() == items.len() && (0 <= i < items.len()
                ==> intiface::devices_from(body)[i] == intiface::device_from(items[i])),
            None => intiface::devices_from(body).len() == 0,
        },
{
}

/// A probe that was answered shows the server and its devices; one that was not shows why, and
/// nothing else.
pub proof fn law_probe(now_ms: i64, outcome: Result<(Seq<char>, Seq<DeviceModel>), Seq<char>>)
    ensures
        ({
            let probe = intiface::probed(now_ms, outcome);
            &&& probe.checked_at_ms == now_ms
            &&& probe.connected <==> outcome is Ok
            &&& (outcome matches Ok((name, devices)) ==> probe.server_name == name && probe.devices
                == devices && probe.last_error is None)
            &&& (outcome matches Err(why) ==> probe.devices.len() == 0 && probe.last_error == Some(
                why,
            ))
        }),
{
}

/// A message of the server is read where it is text, or bytes that are text; a ping is answered, a
/// close ends the wait, and anything else is passed over.
pub proof fn law_socket_message(message: SocketMessage, expected: Seq<char>)
    ensures
        match message {
            SocketMessage::Text(s) => intiface::message_step(message, expected)
                == intiface::entries_step(intiface::text_entries(s@), expected),
            SocketMessage::Binary(bytes) => if valid_utf8(bytes@) {
                intiface::message_step(message, expected) == intiface::entries_step(
                    intiface::text_entries(decode_utf8(bytes@)),
                    expected,
                )
            } else {
                intiface::message_step(message, expected) is Continue
            },
            SocketMessage::Ping => intiface::message_step(message, expected) is AnswerPing,
            SocketMessage::Close => intiface::message_step(message, expected) is Failed,
            SocketMessage::Other => intiface::message_step(message, expected) is Continue,
        },
{
}

/// A text from the server is read as a packet, or refused with the parser's reason.
pub proof fn law_text_entries(s: Seq<char>)
    ensures
        match json::parsed_json(s) {
            Ok(packet) => intiface::text_entries(s) == intiface::packet_entries(packet),
            Err(message) => intiface::text_entries(s) == Err::<Seq<(Seq<char>, Json)>, Seq<char>>(
                message,
            ),
        },
{
}

/// A server is called by the name that it gives.
pub proof fn law_server_name(info: Json)
    ensures
        match json::as_text(json::field(info, "ServerName"@)) {
            Some(name) => intiface::server_name_of(info) == name,
            None => intiface::server_name_of(info) == "Intiface"@,
        },
{
}

/// A probe greets the server and then asks for its devices, under different numbers, and waits for
/// no more than a few messages each time.
pub proof fn law_probe_conversation(client_name: Seq<char>)
    ensures
        ({
            let talk = intiface::probe_exchanges(client_name);
            &&& talk.len() == 2
            &&& talk[0].packet == intiface::hello_model(client_name) && talk[0].reply
                == "ServerInfo"@
            &&& talk[1].packet == intiface::packet_model("RequestDeviceList"@, 2, Seq::empty())
                && talk[1].reply == "DeviceList"@
            &&& talk[0].max_reads == 12 && talk[1].max_reads == 16
        }),
{
}

/// The greeting names the client and the version that it speaks.
pub proof fn law_greeting(client_name: Seq<char>)
    ensures
        exists|body: PayloadModel|
            {
                &&& #[trigger] only_message(
                    intiface::hello_model(client_name),
                    "RequestServerInfo"@,
                    body,
                )
                &&& says(body, "ClientName"@, PayloadModel::Text(client_name))
                &&& says(body, "MessageVersion"@, PayloadModel::Unsigned(3))
                &&& says(body, "Id"@, PayloadModel::Unsigned(1))
                &&& member_count(body) == 3
            },
{
    let outer = seq![
        ("ClientName"@, PayloadModel::Text(client_name)),
        ("MessageVersion"@, PayloadModel::Unsigned(3)),
    ].push(("Id"@, PayloadModel::Unsigned(1u32 as u64)));
    let body = PayloadModel::Members(outer);
    assert(outer[0] == ("ClientName"@, PayloadModel::Text(client_name)));
    assert(outer[1] == ("MessageVersion"@, PayloadModel::Unsigned(3)));
    assert(outer[2] == ("Id"@, PayloadModel::Unsigned(1)));
    let named = seq![("RequestServerInfo"@, body)];
    assert(named[0] == ("RequestServerInfo"@, body));
    assert(only_message(intiface::hello_model(client_name), "RequestServerInfo"@, body));
}

/// The sources keep their names and their order; their values are brought into the unit range.
pub proof fn law_limited_sources(values: Seq<(Seq<char>, FloatBits)>, i: int)
    requires
        0 <= i < values.len(),
    ensures
        intiface::limited_sources(values).len() == values.len(),
        intiface::limited_sources(values)[i].0 == values[i].0,
        float::in_unit(values[i].1) ==> intiface::limited_sources(values)[i].1 == values[i].1,
        values[i].1.below(float::number(0)) ==> intiface::limited_sources(values)[i].1
            == float::number(0),
        float::number(float::ONE).below(values[i].1) ==> intiface::limited_sources(values)[i].1
            == float::number(float::ONE),
{
}

/// A feature is commanded the highest of its levels, and not at all where it has none; the command
/// is for that feature.
pub proof fn law_commanded(feature: RoutedModel, levels: Seq<FloatBits>)
    requires
        forall|i: int| 0 <= i < levels.len() ==> !(#[trigger] levels[i]).nan(),
    ensures
        match intiface::commanded(feature, levels) {
            Some(command) => {
                &&& command.device_index == feature.device_index
                &&& command.scalar_index == feature.scalar_index
                &&& command.actuator_type == feature.actuator_type
                &&& levels.contains(command.level)
                &&& forall|i: int|
                    0 <= i < levels.len() ==> (#[trigger] levels[i]).at_most(command.level)
            },
            None => levels.len() == 0,
        },
{
    if levels.len() > 0 {
        intiface::law_highest(levels);
    }
}

/// The server is probed again three seconds after the last probe, and not before.
pub proof fn law_probes_apart(last_ms: i64, now_ms: i64, later_ms: i64)
    ensures
        intiface::probe_wanted(last_ms, now_ms).1 <==> now_ms >= last_ms + 3000,
        intiface::probe_wanted(last_ms, now_ms).1 ==> intiface::probe_wanted(last_ms, now_ms).0
            == now_ms && (later_ms < now_ms + 3000 ==> !intiface::probe_wanted(now_ms, later_ms).1),
        !intiface::probe_wanted(last_ms, now_ms).1 ==> intiface::probe_wanted(last_ms, now_ms).0
            == last_ms,
{
}

/// The devices of a server that answers replace those that were known; a server that does not
/// answer takes none away.
pub proof fn law_devices_after(known: Seq<DeviceModel>, probe: ProbeModel)
    ensures
        probe.connected ==> intiface::devices_after(known, probe) == probe.devices,
        !probe.connected ==> intiface::devices_after(known, probe) == known,
{
}

} // verus!
