//! Intiface: the packets that are exchanged with the device server, and the routing of intensities
//! to devices.
use vstd::prelude::*;
use vstd::string::*;
use vstd::utf8::*;
use crate::config;
use crate::float;
use crate::float::FloatBits;
use crate::json;
use crate::json::{Json, JsonValue};
use crate::mapping;
use crate::model;
use crate::model::Duplicate;
use crate::payload;
use crate::payload::{Payload, PayloadModel};
use crate::smoothing;
use crate::text;

verus! {

/// Where the device server listens.
#[derive(Debug, PartialEq, Eq)]
pub struct IntifaceConfig {
    pub host: String,
    pub port: u16,
    pub secure: bool,
}

/// The model of `IntifaceConfig`.
#[verifier::ext_equal]
pub struct IntifaceConfigModel {
    pub host: Seq<char>,
    pub port: u16,
    pub secure: bool,
}

impl View for IntifaceConfig {
    type V = IntifaceConfigModel;

    open spec fn view(&self) -> IntifaceConfigModel {
        IntifaceConfigModel {
            host: self.host@,
            port: self.port,
            secure: self.secure,
        }
    }
}

impl Duplicate for IntifaceConfig {
    fn duplicate(&self) -> (r: Self) {
        IntifaceConfig {
            host: self.host.clone(),
            port: self.port,
            secure: self.secure,
        }
    }
}

/// The server that is used where none is given.
pub open spec fn default_server() -> IntifaceConfigModel {
    IntifaceConfigModel { host: "127.0.0.1"@, port: 12345, secure: false }
}

impl Default for IntifaceConfig {
    fn default() -> (r: Self)
        ensures
            r@ == default_server(),
    {
        IntifaceConfig { host: "127.0.0.1".to_owned(), port: 12345, secure: false }
    }
}

/// A feature of a device.
#[derive(Debug, PartialEq, Eq)]
pub struct IntifaceFeature {
    pub command_type: String,
    pub index: u32,
    pub actuator_type: Option<String>,
}

/// The model of `IntifaceFeature`.
#[verifier::ext_equal]
pub struct FeatureModel {
    pub command_type: Seq<char>,
    pub index: u32,
    pub actuator_type: Option<Seq<char>>,
}

impl View for IntifaceFeature {
    type V = FeatureModel;

    open spec fn view(&self) -> FeatureModel {
        FeatureModel {
            command_type: self.command_type@,
            index: self.index,
            actuator_type: model::opt_text(self.actuator_type),
        }
    }
}

impl Duplicate for IntifaceFeature {
    fn duplicate(&self) -> (r: Self) {
        IntifaceFeature {
            command_type: self.command_type.clone(),
            index: self.index,
            actuator_type: model::copy_opt_text(&self.actuator_type),
        }
    }
}

/// A device.
#[derive(Debug, PartialEq, Eq)]
pub struct IntifaceDevice {
    pub device_index: u32,
    pub name: String,
    pub features: Vec<IntifaceFeature>,
}

/// The model of `IntifaceDevice`.
#[verifier::ext_equal]
pub struct DeviceModel {
    pub device_index: u32,
    pub name: Seq<char>,
    pub features: Seq<FeatureModel>,
}

impl View for IntifaceDevice {
    type V = DeviceModel;

    open spec fn view(&self) -> DeviceModel {
        DeviceModel {
            device_index: self.device_index,
            name: self.name@,
            features: model::views(self.features@),
        }
    }
}

impl Duplicate for IntifaceDevice {
    fn duplicate(&self) -> (r: Self) {
        IntifaceDevice {
            device_index: self.device_index,
            name: self.name.clone(),
            features: model::copy_all(&self.features),
        }
    }
}

/// What a probe of the server found.
#[derive(Debug, PartialEq, Eq)]
pub struct IntifaceSnapshot {
    pub checked_at_ms: i64,
    pub connected: bool,
    pub server_name: String,
    pub devices: Vec<IntifaceDevice>,
    pub last_error: Option<String>,
}

/// The model of `IntifaceSnapshot`.
#[verifier::ext_equal]
pub struct ProbeModel {
    pub checked_at_ms: i64,
    pub connected: bool,
    pub server_name: Seq<char>,
    pub devices: Seq<DeviceModel>,
    pub last_error: Option<Seq<char>>,
}

impl View for IntifaceSnapshot {
    type V = ProbeModel;

    open spec fn view(&self) -> ProbeModel {
        ProbeModel {
            checked_at_ms: self.checked_at_ms,
            connected: self.connected,
            server_name: self.server_name@,
            devices: model::views(self.devices@),
            last_error: model::opt_text(self.last_error),
        }
    }
}

impl Duplicate for IntifaceSnapshot {
    fn duplicate(&self) -> (r: Self) {
        IntifaceSnapshot {
            checked_at_ms: self.checked_at_ms,
            connected: self.connected,
            server_name: self.server_name.clone(),
            devices: model::copy_all(&self.devices),
            last_error: model::copy_opt_text(&self.last_error),
        }
    }
}

impl Default for IntifaceSnapshot {
    fn default() -> (r: Self)
        ensures
            r@ == (ProbeModel {
                checked_at_ms: 0,
                connected: false,
                server_name: Seq::empty(),
                devices: Seq::empty(),
                last_error: None,
            }),
    {
        let r = IntifaceSnapshot {
            checked_at_ms: 0,
            connected: false,
            server_name: String::new(),
            devices: Vec::new(),
            last_error: None,
        };
        assert(r@.devices =~= Seq::empty());
        r
    }
}

/// A level for one feature of a device.
#[derive(Debug, PartialEq, Eq)]
pub struct IntifaceScalarCommand {
    pub device_index: u32,
    pub scalar_index: u32,
    pub actuator_type: String,
    pub level: FloatBits,
}

/// The model of `IntifaceScalarCommand`.
#[verifier::ext_equal]
pub struct CommandModel {
    pub device_index: u32,
    pub scalar_index: u32,
    pub actuator_type: Seq<char>,
    pub level: FloatBits,
}

impl View for IntifaceScalarCommand {
    type V = CommandModel;

    open spec fn view(&self) -> CommandModel {
        CommandModel {
            device_index: self.device_index,
            scalar_index: self.scalar_index,
            actuator_type: self.actuator_type@,
            level: self.level,
        }
    }
}

impl Duplicate for IntifaceScalarCommand {
    fn duplicate(&self) -> (r: Self) {
        IntifaceScalarCommand {
            device_index: self.device_index,
            scalar_index: self.scalar_index,
            actuator_type: self.actuator_type.clone(),
            level: self.level,
        }
    }
}

/// Where a route takes its value from.
#[derive(Debug, PartialEq, Eq)]
pub enum IntifaceSourceKind {
    Intensity,
    AvatarParam(String),
}

/// The model of `IntifaceSourceKind`.
pub enum SourceKindModel {
    Intensity,
    AvatarParam(Seq<char>),
}

impl View for IntifaceSourceKind {
    type V = SourceKindModel;

    open spec fn view(&self) -> SourceKindModel {
        match *self {
            IntifaceSourceKind::Intensity => SourceKindModel::Intensity,
            IntifaceSourceKind::AvatarParam(name) => SourceKindModel::AvatarParam(name@),
        }
    }
}

impl Duplicate for IntifaceSourceKind {
    fn duplicate(&self) -> (r: Self) {
        match self {
            IntifaceSourceKind::Intensity => IntifaceSourceKind::Intensity,
            IntifaceSourceKind::AvatarParam(name) => IntifaceSourceKind::AvatarParam(name.clone()),
        }
    }
}

/// A rule that routes a value to features of devices.
#[derive(Debug, PartialEq, Eq)]
pub struct IntifaceRouteRule {
    pub enabled: bool,
    pub label: String,
    pub target_device_contains: String,
    pub target_actuator_type: String,
    pub source: IntifaceSourceKind,
    pub scale: FloatBits,
    pub idle: FloatBits,
    pub min_output: FloatBits,
    pub max_output: FloatBits,
    pub invert: bool,
}

/// The model of `IntifaceRouteRule`.
#[verifier::ext_equal]
pub struct RouteModel {
    pub enabled: bool,
    pub label: Seq<char>,
    pub target_device_contains: Seq<char>,
    pub target_actuator_type: Seq<char>,
    pub source: SourceKindModel,
    pub scale: FloatBits,
    pub idle: FloatBits,
    pub min_output: FloatBits,
    pub max_output: FloatBits,
    pub invert: bool,
}

impl View for IntifaceRouteRule {
    type V = RouteModel;

    open spec fn view(&self) -> RouteModel {
        RouteModel {
            enabled: self.enabled,
            label: self.label@,
            target_device_contains: self.target_device_contains@,
            target_actuator_type: self.target_actuator_type@,
            source: self.source@,
            scale: self.scale,
            idle: self.idle,
            min_output: self.min_output,
            max_output: self.max_output,
            invert: self.invert,
        }
    }
}

impl Duplicate for IntifaceRouteRule {
    fn duplicate(&self) -> (r: Self) {
        IntifaceRouteRule {
            enabled: self.enabled,
            label: self.label.clone(),
            target_device_contains: self.target_device_contains.clone(),
            target_actuator_type: self.target_actuator_type.clone(),
            source: self.source.duplicate(),
            scale: self.scale,
            idle: self.idle,
            min_output: self.min_output,
            max_output: self.max_output,
            invert: self.invert,
        }
    }
}

/// The route that is used where none is given: the intensity to everything.
pub open spec fn default_route() -> RouteModel {
    RouteModel {
        enabled: true,
        label: "All Scalar <- intensity"@,
        target_device_contains: Seq::empty(),
        target_actuator_type: Seq::empty(),
        source: SourceKindModel::Intensity,
        scale: float::number(float::ONE),
        idle: float::number(0),
        min_output: float::number(0),
        max_output: float::number(float::ONE),
        invert: false,
    }
}

impl Default for IntifaceRouteRule {
    fn default() -> (r: Self)
        ensures
            r@ == default_route(),
    {
        let route = IntifaceRouteRule {
            enabled: true,
            label: "All Scalar <- intensity".to_owned(),
            target_device_contains: String::new(),
            target_actuator_type: String::new(),
            source: IntifaceSourceKind::Intensity,
            scale: float::from_bits(float::ONE),
            idle: float::from_bits(0),
            min_output: float::from_bits(0),
            max_output: float::from_bits(float::ONE),
            invert: false,
        };
        assert(route@ =~= default_route());
        route
    }
}

/// How levels are sent to the device server.
#[derive(Debug, PartialEq, Eq)]
pub struct IntifaceBridgeConfig {
    pub intiface: IntifaceConfig,
    pub emit_hz: FloatBits,
    pub min_delta: FloatBits,
    pub heartbeat_ms: u64,
    pub routes: Vec<IntifaceRouteRule>,
}

/// The model of `IntifaceBridgeConfig`.
#[verifier::ext_equal]
pub struct BridgeConfigModel {
    pub intiface: IntifaceConfigModel,
    pub emit_hz: FloatBits,
    pub min_delta: FloatBits,
    pub heartbeat_ms: u64,
    pub routes: Seq<RouteModel>,
}

impl View for IntifaceBridgeConfig {
    type V = BridgeConfigModel;

    open spec fn view(&self) -> BridgeConfigModel {
        BridgeConfigModel {
            intiface: self.intiface@,
            emit_hz: self.emit_hz,
            min_delta: self.min_delta,
            heartbeat_ms: self.heartbeat_ms,
            routes: model::views(self.routes@),
        }
    }
}

impl Duplicate for IntifaceBridgeConfig {
    fn duplicate(&self) -> (r: Self) {
        IntifaceBridgeConfig {
            intiface: self.intiface.duplicate(),
            emit_hz: self.emit_hz,
            min_delta: self.min_delta,
            heartbeat_ms: self.heartbeat_ms,
            routes: model::copy_all(&self.routes),
        }
    }
}

impl Default for IntifaceBridgeConfig {
    fn default() -> (r: Self)
        ensures
            r@ == (BridgeConfigModel {
                intiface: default_server(),
                emit_hz: float::number(0x4020_0000_0000_0000),
                min_delta: float::number(0x3F94_7AE1_47AE_147B),
                heartbeat_ms: 1200,
                routes: seq![default_route()],
            }),
    {
        let mut routes: Vec<IntifaceRouteRule> = Vec::new();
        routes.push(IntifaceRouteRule::default());
        assert(model::views(routes@) =~= seq![default_route()]);
        IntifaceBridgeConfig {
            intiface: IntifaceConfig::default(),
            emit_hz: float::from_bits(0x4020_0000_0000_0000),
            min_delta: float::from_bits(0x3F94_7AE1_47AE_147B),
            heartbeat_ms: 1200,
            routes,
        }
    }
}

/// What the bridge to the device server reports.
#[derive(Debug, PartialEq, Eq)]
pub struct IntifaceBridgeSnapshot {
    pub running: bool,
    pub connected: bool,
    pub server_name: String,
    pub device_count: usize,
    pub route_count: usize,
    pub commands_sent: u64,
    pub last_level: FloatBits,
    pub last_sent_at_ms: i64,
    pub last_error: String,
    pub checked_at_ms: i64,
}

/// The model of `IntifaceBridgeSnapshot`.
#[verifier::ext_equal]
pub struct BridgeSnapshotModel {
    pub running: bool,
    pub connected: bool,
    pub server_name: Seq<char>,
    pub device_count: usize,
    pub route_count: usize,
    pub commands_sent: u64,
    pub last_level: FloatBits,
    pub last_sent_at_ms: i64,
    pub last_error: Seq<char>,
    pub checked_at_ms: i64,
}

impl View for IntifaceBridgeSnapshot {
    type V = BridgeSnapshotModel;

    open spec fn view(&self) -> BridgeSnapshotModel {
        BridgeSnapshotModel {
            running: self.running,
            connected: self.connected,
            server_name: self.server_name@,
            device_count: self.device_count,
            route_count: self.route_count,
            commands_sent: self.commands_sent,
            last_level: self.last_level,
            last_sent_at_ms: self.last_sent_at_ms,
            last_error: self.last_error@,
            checked_at_ms: self.checked_at_ms,
        }
    }
}

impl Duplicate for IntifaceBridgeSnapshot {
    fn duplicate(&self) -> (r: Self) {
        IntifaceBridgeSnapshot {
            running: self.running,
            connected: self.connected,
            server_name: self.server_name.clone(),
            device_count: self.device_count,
            route_count: self.route_count,
            commands_sent: self.commands_sent,
            last_level: self.last_level,
            last_sent_at_ms: self.last_sent_at_ms,
            last_error: self.last_error.clone(),
            checked_at_ms: self.checked_at_ms,
        }
    }
}

/// What is reported before anything happened.
pub open spec fn blank_bridge() -> BridgeSnapshotModel {
    BridgeSnapshotModel {
        running: false,
        connected: false,
        server_name: Seq::empty(),
        device_count: 0,
        route_count: 0,
        commands_sent: 0,
        last_level: float::number(0),
        last_sent_at_ms: 0,
        last_error: Seq::empty(),
        checked_at_ms: 0,
    }
}

impl Default for IntifaceBridgeSnapshot {
    fn default() -> (r: Self)
        ensures
            r@ == blank_bridge(),
    {
        let snapshot = IntifaceBridgeSnapshot {
            running: false,
            connected: false,
            server_name: String::new(),
            device_count: 0,
            route_count: 0,
            commands_sent: 0,
            last_level: float::from_bits(0),
            last_sent_at_ms: 0,
            last_error: String::new(),
            checked_at_ms: 0,
        };
        assert(snapshot@ =~= blank_bridge());
        snapshot
    }
}

/// A packet: one message with its type, its number and its members.
pub open spec fn packet_model(
    message_type: Seq<char>,
    id: u32,
    members: Seq<(Seq<char>, PayloadModel)>,
) -> PayloadModel {
    PayloadModel::List(
        seq![
            PayloadModel::Members(
                seq![
                    (
                        message_type,
                        PayloadModel::Members(
                            members.push(("Id"@, PayloadModel::Unsigned(id as u64))),
                        ),
                    ),
                ],
            ),
        ],
    )
}

/// Makes a packet.
pub fn buttplug_packet(message_type: &str, id: u32, members: Vec<(String, Payload)>) -> (r: Payload)
    ensures
        r@ == packet_model(message_type@, id, payload::members_model(members@)),
{
    let mut body = members;
    payload::push_member(&mut body, "Id", Payload::Unsigned(id as u64));
    let ghost inner = payload::members_model(body@);
    let mut outer: Vec<(String, Payload)> = Vec::new();
    payload::push_member(&mut outer, message_type, Payload::Members(body));
    let ghost middle = payload::members_model(outer@);
    let mut list: Vec<Payload> = Vec::new();
    payload::push_value(&mut list, Payload::Members(outer));
    proof {
        assert(middle =~= seq![(message_type@, PayloadModel::Members(inner))]);
        assert(payload::list_model(list@) =~= seq![PayloadModel::Members(middle)]);
    }
    Payload::List(list)
}

/// The packet that opens a conversation.
pub open spec fn hello_model(client_name: Seq<char>) -> PayloadModel {
    packet_model(
        "RequestServerInfo"@,
        1,
        seq![
            ("ClientName"@, PayloadModel::Text(client_name)),
            ("MessageVersion"@, PayloadModel::Unsigned(3)),
        ],
    )
}

/// The packet that sets a level, held between zero and one.
pub open spec fn scalar_model(id: u32, command: CommandModel) -> PayloadModel {
    packet_model(
        "ScalarCmd"@,
        id,
        seq![
            ("DeviceIndex"@, PayloadModel::Unsigned(command.device_index as u64)),
            (
                "Scalars"@,
                PayloadModel::List(
                    seq![
                        PayloadModel::Members(
                            seq![
                                ("Index"@, PayloadModel::Unsigned(command.scalar_index as u64)),
                                ("Scalar"@, PayloadModel::Float(float::unit_limited(command.level))),
                                ("ActuatorType"@, PayloadModel::Text(command.actuator_type)),
                            ],
                        ),
                    ],
                ),
            ),
        ],
    )
}

/// Makes the packet that sets a level.
pub fn scalar_packet(id: u32, command: &IntifaceScalarCommand) -> (r: Payload)
    ensures
        r@ == scalar_model(id, command@),
{
    let mut scalar: Vec<(String, Payload)> = Vec::new();
    payload::push_member(&mut scalar, "Index", Payload::Unsigned(command.scalar_index as u64));
    payload::push_member(&mut scalar, "Scalar", Payload::Float(float::limit01(command.level)));
    payload::push_member(
        &mut scalar,
        "ActuatorType",
        payload::text_value(command.actuator_type.as_str()),
    );
    let ghost one = payload::members_model(scalar@);
    let mut scalars: Vec<Payload> = Vec::new();
    payload::push_value(&mut scalars, Payload::Members(scalar));
    let ghost list = payload::list_model(scalars@);
    let mut members: Vec<(String, Payload)> = Vec::new();
    payload::push_member(
        &mut members,
        "DeviceIndex",
        Payload::Unsigned(command.device_index as u64),
    );
    payload::push_member(&mut members, "Scalars", Payload::List(scalars));
    proof {
        let c = command@;
        assert(one =~= seq![
            ("Index"@, PayloadModel::Unsigned(c.scalar_index as u64)),
            ("Scalar"@, PayloadModel::Float(float::unit_limited(c.level))),
            ("ActuatorType"@, PayloadModel::Text(c.actuator_type)),
        ]);
        assert(list =~= seq![PayloadModel::Members(one)]);
        assert(payload::members_model(members@) =~= seq![
            ("DeviceIndex"@, PayloadModel::Unsigned(c.device_index as u64)),
            ("Scalars"@, PayloadModel::List(list)),
        ]);
    }
    buttplug_packet("ScalarCmd", id, members)
}

/// Makes the packet that asks for the devices.
pub fn device_list_packet() -> (r: Payload)
    ensures
        r@ == packet_model("RequestDeviceList"@, 2, Seq::empty()),
{
    let members: Vec<(String, Payload)> = Vec::new();
    assert(payload::members_model(members@) =~= Seq::empty());
    buttplug_packet("RequestDeviceList", 2, members)
}

/// The URL of the server.
pub open spec fn server_url(config: IntifaceConfigModel) -> Seq<char> {
    (if config.secure {
        "wss"@
    } else {
        "ws"@
    }) + "://"@ + config.host + ":"@ + text::decimal_text(config.port as nat) + "/"@
}

/// A packet that is sent, and the type of the message that is waited for in return.
#[derive(Debug, PartialEq, Eq)]
pub struct Exchange {
    pub packet: Payload,
    pub reply: String,
    /// How many messages are read before the wait is given up.
    pub max_reads: usize,
}

/// The model of `Exchange`.
pub struct ExchangeModel {
    pub packet: PayloadModel,
    pub reply: Seq<char>,
    pub max_reads: usize,
}

impl View for Exchange {
    type V = ExchangeModel;

    open spec fn view(&self) -> ExchangeModel {
        ExchangeModel { packet: self.packet@, reply: self.reply@, max_reads: self.max_reads }
    }
}

/// The conversation of a probe: the server names itself and lists its devices.
pub open spec fn probe_exchanges(client_name: Seq<char>) -> Seq<ExchangeModel> {
    seq![
        ExchangeModel { packet: hello_model(client_name), reply: "ServerInfo"@, max_reads: 12 },
        ExchangeModel {
            packet: packet_model("RequestDeviceList"@, 2, Seq::empty()),
            reply: "DeviceList"@,
            max_reads: 16,
        },
    ]
}

/// The conversation that sets levels: after the greeting each command is numbered, from two on,
/// and confirmed before the next. Nothing is said where there is no command.
pub open spec fn level_exchanges(client_name: Seq<char>, commands: Seq<CommandModel>) -> Seq<
    ExchangeModel,
> {
    if commands.len() == 0 {
        Seq::empty()
    } else {
        Seq::new(
            (commands.len() + 1) as nat,
            |i: int|
                if i == 0 {
                    ExchangeModel {
                        packet: hello_model(client_name),
                        reply: "ServerInfo"@,
                        max_reads: 8,
                    }
                } else {
                    ExchangeModel {
                        packet: scalar_model((i + 1) as u32, commands[i - 1]),
                        reply: "Ok"@,
                        max_reads: 8,
                    }
                },
        )
    }
}

/// A client of the device server.
#[derive(Debug, PartialEq, Eq)]
pub struct IntifaceClient {
    pub config: IntifaceConfig,
    pub client_name: String,
}

impl IntifaceClient {
    /// A client under the name of the application.
    pub fn new(config: IntifaceConfig) -> (r: Self)
        ensures
            r.config == config,
            r.client_name@ == "Vibealong"@,
    {
        IntifaceClient { config, client_name: "Vibealong".to_owned() }
    }

    /// The URL of the server.
    pub fn url(&self) -> (r: String)
        ensures
            r@ == server_url(self.config@),
    {
        let scheme = if self.config.secure {
            "wss"
        } else {
            "ws"
        };
        let port = text::decimal(self.config.port as u64);
        let mut out = text::concat3(scheme, "://", self.config.host.as_str());
        out.append(":");
        out.append(port.as_str());
        out.append("/");
        out
    }

    /// The URL that is connected to, or why there is none.
    pub fn connect_url(&self) -> (r: Result<String, String>)
        ensures
            match config::url_parts(server_url(self.config@)) {
                Ok(url) => r matches Ok(found) && found@ == url.text,
                Err(message) => r matches Err(found) && found@ == message,
            },
    {
        match config::parse_url(self.url().as_str()) {
            Ok(url) => Ok(url.text),
            Err(message) => Err(message),
        }
    }

    /// The packet that opens a conversation.
    pub fn hello_packet(&self) -> (r: Payload)
        ensures
            r@ == hello_model(self.client_name@),
    {
        let mut members: Vec<(String, Payload)> = Vec::new();
        payload::push_member(
            &mut members,
            "ClientName",
            payload::text_value(self.client_name.as_str()),
        );
        payload::push_member(&mut members, "MessageVersion", Payload::Unsigned(3));
        assert(payload::members_model(members@) =~= seq![
            ("ClientName"@, PayloadModel::Text(self.client_name@)),
            ("MessageVersion"@, PayloadModel::Unsigned(3)),
        ]);
        buttplug_packet("RequestServerInfo", 1, members)
    }

    /// The conversation of a probe.
    pub fn probe_conversation(&self) -> (r: Vec<Exchange>)
        ensures
            model::views(r@) == probe_exchanges(self.client_name@),
    {
        let mut out: Vec<Exchange> = Vec::new();
        out.push(
            Exchange {
                packet: self.hello_packet(),
                reply: "ServerInfo".to_owned(),
                max_reads: 12,
            },
        );
        out.push(
            Exchange {
                packet: device_list_packet(),
                reply: "DeviceList".to_owned(),
                max_reads: 16,
            },
        );
        assert(model::views(out@) =~= probe_exchanges(self.client_name@));
        out
    }

    /// The conversation that sets levels. A conversation has room for as many commands as there
    /// are numbers for them.
    pub fn set_scalar_levels(&self, commands: &Vec<IntifaceScalarCommand>) -> (r: Vec<Exchange>)
        requires
            commands@.len() <= u32::MAX - 2,
        ensures
            model::views(r@) == level_exchanges(self.client_name@, model::views(commands@)),
    {
        let ghost all = level_exchanges(self.client_name@, model::views(commands@));
        let mut out: Vec<Exchange> = Vec::new();
        if commands.len() == 0 {
            assert(model::views(out@) =~= all);
            return out;
        }
        out.push(
            Exchange {
                packet: self.hello_packet(),
                reply: "ServerInfo".to_owned(),
                max_reads: 8,
            },
        );
        assert(model::views(out@) =~= all.take(1));
        let mut i: usize = 0;
        while i < commands.len()
            invariant
                0 < commands@.len() <= u32::MAX - 2,
                i <= commands@.len(),
                all == level_exchanges(self.client_name@, model::views(commands@)),
                model::views(out@) == all.take(i + 1),
            decreases commands@.len() - i,
        {
            let ghost before = out@;
            out.push(
                Exchange {
                    packet: scalar_packet((i + 2) as u32, &commands[i]),
                    reply: "Ok".to_owned(),
                    max_reads: 8,
                },
            );
            proof {
                model::lemma_views_push(before, out@[out@.len() - 1]);
                assert(out@ =~= before.push(out@[out@.len() - 1]));
                assert(all.take(i + 2) =~= all.take(i + 1).push(all[i + 1]));
            }
            i += 1;
        }
        assert(all.take(i + 1) =~= all);
        out
    }

    /// The conversation that sets one level.
    pub fn set_scalar_level(
        &self,
        device_index: u32,
        scalar_index: u32,
        actuator_type: &str,
        level: FloatBits,
    ) -> (r: Vec<Exchange>)
        ensures
            model::views(r@) == level_exchanges(
                self.client_name@,
                seq![
                    CommandModel {
                        device_index,
                        scalar_index,
                        actuator_type: actuator_type@,
                        level,
                    },
                ],
            ),
    {
        let mut commands: Vec<IntifaceScalarCommand> = Vec::new();
        commands.push(
            IntifaceScalarCommand {
                device_index,
                scalar_index,
                actuator_type: actuator_type.to_owned(),
                level,
            },
        );
        assert(model::views(commands@) =~= seq![
            CommandModel { device_index, scalar_index, actuator_type: actuator_type@, level },
        ]);
        self.set_scalar_levels(&commands)
    }

    /// What a probe found: the server's name and its devices, or why there is no connection.
    pub fn probe_snapshot(
        &self,
        now_ms: i64,
        outcome: Result<(String, Vec<IntifaceDevice>), String>,
    ) -> (r: IntifaceSnapshot)
        ensures
            r@ == probed(
                now_ms,
                match outcome {
                    Ok((name, devices)) => Ok((name@, model::views(devices@))),
                    Err(message) => Err(message@),
                },
            ),
    {
        match outcome {
            Ok((server_name, devices)) => IntifaceSnapshot {
                checked_at_ms: now_ms,
                connected: true,
                server_name,
                devices,
                last_error: None,
            },
            Err(message) => {
                let probe = IntifaceSnapshot {
                    checked_at_ms: now_ms,
                    connected: false,
                    server_name: String::new(),
                    devices: Vec::new(),
                    last_error: Some(message),
                };
                assert(probe@.server_name =~= Seq::empty());
                assert(probe@.devices =~= Seq::empty());
                probe
            },
        }
    }
}

/// What a probe found.
pub open spec fn probed(
    now_ms: i64,
    outcome: Result<(Seq<char>, Seq<DeviceModel>), Seq<char>>,
) -> ProbeModel {
    match outcome {
        Ok((server_name, devices)) => ProbeModel {
            checked_at_ms: now_ms,
            connected: true,
            server_name,
            devices,
            last_error: None,
        },
        Err(message) => ProbeModel {
            checked_at_ms: now_ms,
            connected: false,
            server_name: Seq::empty(),
            devices: Seq::empty(),
            last_error: Some(message),
        },
    }
}

/// The members of all entries, one entry after the other; nothing where an entry is no object.
pub open spec fn packet_members(entries: Seq<Json>) -> Option<Seq<(Seq<char>, Json)>>
    decreases entries.len(),
{
    if entries.len() == 0 {
        Some(Seq::empty())
    } else {
        match (packet_members(entries.drop_last()), entries.last()) {
            (Some(before), Json::Object(members)) => Some(before + members),
            _ => None,
        }
    }
}

/// The messages of a packet, each with its type.
pub open spec fn packet_entries(packet: Json) -> Result<Seq<(Seq<char>, Json)>, Seq<char>> {
    match packet {
        Json::Array(entries) => match packet_members(entries) {
            Some(members) => Ok(members),
            None => Err("Buttplug packet entries must be JSON objects"@),
        },
        _ => Err("Buttplug packet must be a JSON array"@),
    }
}

proof fn lemma_members_fail(entries: Seq<Json>, n: int)
    requires
        0 <= n <= entries.len(),
        packet_members(entries.take(n)) is None,
    ensures
        packet_members(entries) is None,
    decreases entries.len(),
{
    if n < entries.len() {
        assert(entries.drop_last().take(n) =~= entries.take(n));
        lemma_members_fail(entries.drop_last(), n);
    } else {
        assert(entries.take(n) =~= entries);
    }
}

/// The outcome of reading a packet.
pub open spec fn packet_outcome(result: Result<Vec<(String, JsonValue)>, String>) -> Result<
    Seq<(Seq<char>, Json)>,
    Seq<char>,
> {
    match result {
        Ok(entries) => Ok(json::entries_content(entries@)),
        Err(message) => Err(message@),
    }
}

/// Reads the messages of a packet.
pub fn read_packet(packet: &JsonValue) -> (r: Result<Vec<(String, JsonValue)>, String>)
    ensures
        packet_outcome(r) == packet_entries(packet@),
{
    let entries = match packet {
        JsonValue::Array(entries) => entries,
        _ => {
            return Err("Buttplug packet must be a JSON array".to_owned());
        },
    };
    let ghost all = json::items_content(entries@);
    let mut out: Vec<(String, JsonValue)> = Vec::new();
    let mut i: usize = 0;
    assert(all.take(0) =~= Seq::empty());
    while i < entries.len()
        invariant
            i <= entries@.len(),
            packet@ == Json::Array(all),
            all == json::items_content(entries@),
            packet_members(all.take(i as int)) == Some(json::entries_content(out@)),
        decreases entries@.len() - i,
    {
        proof {
            json::lemma_items_content(entries@);
            assert(all.take(i + 1).drop_last() =~= all.take(i as int));
            assert(all.take(i + 1).last() == all[i as int]);
        }
        match &entries[i] {
            JsonValue::Object(members) => {
                let ghost before = json::entries_content(out@);
                let ghost added = json::entries_content(members@);
                let mut k: usize = 0;
                assert(before + added.take(0) =~= before);
                while k < members.len()
                    invariant
                        k <= members@.len(),
                        added == json::entries_content(members@),
                        json::entries_content(out@) == before + added.take(k as int),
                    decreases members@.len() - k,
                {
                    proof {
                        json::lemma_entries_content(members@);
                        assert((before + added.take(k as int)).push(added[k as int]) =~= before
                            + added.take(k + 1));
                    }
                    json::push_entry(&mut out, members[k].0.as_str(), members[k].1.copy());
                    k += 1;
                }
                proof {
                    json::lemma_entries_content(members@);
                    assert(added.take(k as int) =~= added);
                }
            },
            _ => {
                proof {
                    lemma_members_fail(all, i + 1);
                }
                return Err("Buttplug packet entries must be JSON objects".to_owned());
            },
        }
        i += 1;
    }
    proof {
        json::lemma_items_content(entries@);
        assert(all.take(i as int) =~= all);
    }
    Ok(out)
}

/// The messages that a text holds.
pub open spec fn text_entries(s: Seq<char>) -> Result<Seq<(Seq<char>, Json)>, Seq<char>> {
    match json::parsed_json(s) {
        Ok(packet) => packet_entries(packet),
        Err(message) => Err(message),
    }
}

/// Reads the messages that a text holds.
pub fn parse_buttplug_packet(s: &str) -> (r: Result<Vec<(String, JsonValue)>, String>)
    ensures
        packet_outcome(r) == text_entries(s@),
{
    match json::parse(s) {
        Ok(packet) => read_packet(&packet),
        Err(message) => Err(message),
    }
}

/// What arrives on the socket.
#[derive(Debug, PartialEq, Eq)]
pub enum SocketMessage {
    Text(String),
    Binary(Vec<u8>),
    Ping,
    Close,
    Other,
}

/// What follows from a message.
#[derive(Debug, PartialEq, Eq)]
pub enum ReadStep {
    Found(JsonValue),
    Failed(String),
    AnswerPing,
    Continue,
}

/// The model of `ReadStep`.
pub enum StepModel {
    Found(Json),
    Failed(Seq<char>),
    AnswerPing,
    Continue,
}

impl View for ReadStep {
    type V = StepModel;

    open spec fn view(&self) -> StepModel {
        match *self {
            ReadStep::Found(value) => StepModel::Found(value@),
            ReadStep::Failed(message) => StepModel::Failed(message@),
            ReadStep::AnswerPing => StepModel::AnswerPing,
            ReadStep::Continue => StepModel::Continue,
        }
    }
}

/// What follows from messages: the first of the wanted type is found.
pub open spec fn entries_step(
    entries: Result<Seq<(Seq<char>, Json)>, Seq<char>>,
    expected: Seq<char>,
) -> StepModel {
    match entries {
        Err(message) => StepModel::Failed(message),
        Ok(list) => match json::lookup(list, expected) {
            Some(value) => StepModel::Found(value),
            None => StepModel::Continue,
        },
    }
}

/// What follows from a message on the socket.
pub open spec fn message_step(message: SocketMessage, expected: Seq<char>) -> StepModel {
    match message {
        SocketMessage::Text(s) => entries_step(text_entries(s@), expected),
        SocketMessage::Binary(bytes) => if valid_utf8(bytes@) {
            entries_step(text_entries(decode_utf8(bytes@)), expected)
        } else {
            StepModel::Continue
        },
        SocketMessage::Ping => StepModel::AnswerPing,
        SocketMessage::Close => StepModel::Failed("Intiface closed the websocket"@),
        SocketMessage::Other => StepModel::Continue,
    }
}

/// `String::from_utf8`: the text that the bytes encode, where they are UTF-8.
#[verifier::external_body]
fn decode_strict(bytes: Vec<u8>) -> (r: Option<String>)
    ensures
        match r {
            Some(s) => valid_utf8(bytes@) && s@ == decode_utf8(bytes@),
            None => !valid_utf8(bytes@),
        },
{
    String::from_utf8(bytes).ok()
}

/// Waits for a message of one type, for so many messages.
#[derive(Debug, PartialEq, Eq)]
pub struct PacketReader {
    pub expected: String,
    pub reads_left: usize,
}

fn find_entry(entries: &Vec<(String, JsonValue)>, expected: &str) -> (r: Option<JsonValue>)
    ensures
        model::opt_view(r) == json::lookup(json::entries_content(entries@), expected@),
{
    let ghost all = json::entries_content(entries@);
    let mut i: usize = 0;
    assert(all.skip(0) =~= all);
    while i < entries.len()
        invariant
            i <= entries@.len(),
            all == json::entries_content(entries@),
            json::lookup(all, expected@) == json::lookup(all.skip(i as int), expected@),
        decreases entries@.len() - i,
    {
        proof {
            json::lemma_entries_content(entries@);
            assert(all.skip(i as int)[0] == all[i as int]);
            assert(all.skip(i as int).drop_first() =~= all.skip(i + 1));
        }
        if text::same_text(entries[i].0.as_str(), expected) {
            return Some(entries[i].1.copy());
        }
        i += 1;
    }
    proof {
        json::lemma_entries_content(entries@);
        assert(all.skip(i as int) =~= Seq::empty());
    }
    None
}

impl PacketReader {
    /// Waits for a message of a type.
    pub fn new(expected: &str, max_reads: usize) -> (r: Self)
        ensures
            r.expected@ == expected@,
            r.reads_left == max_reads,
    {
        PacketReader { expected: expected.to_owned(), reads_left: max_reads }
    }

    /// The error once no message is left to wait for.
    pub fn timed_out(&self) -> (r: Option<String>)
        ensures
            model::opt_text(r) == (if self.reads_left == 0 {
                Some("Timed out waiting for Buttplug message type "@ + self.expected@)
            } else {
                None
            }),
    {
        if self.reads_left == 0 {
            Some(
                text::concat2(
                    "Timed out waiting for Buttplug message type ",
                    self.expected.as_str(),
                ),
            )
        } else {
            None
        }
    }

    fn read_text(&self, s: &str) -> (r: ReadStep)
        ensures
            r@ == entries_step(text_entries(s@), self.expected@),
    {
        match parse_buttplug_packet(s) {
            Ok(entries) => match find_entry(&entries, self.expected.as_str()) {
                Some(value) => ReadStep::Found(value),
                None => ReadStep::Continue,
            },
            Err(message) => ReadStep::Failed(message),
        }
    }

    /// Takes a message.
    pub fn next(&mut self, message: SocketMessage) -> (r: ReadStep)
        requires
            old(self).reads_left > 0,
        ensures
            r@ == message_step(message, old(self).expected@),
            final(self).expected == old(self).expected,
            final(self).reads_left == old(self).reads_left - 1,
    {
        self.reads_left = self.reads_left - 1;
        match message {
            SocketMessage::Text(s) => self.read_text(s.as_str()),
            SocketMessage::Binary(bytes) => match decode_strict(bytes) {
                Some(s) => self.read_text(s.as_str()),
                None => ReadStep::Continue,
            },
            SocketMessage::Ping => ReadStep::AnswerPing,
            SocketMessage::Close => ReadStep::Failed("Intiface closed the websocket".to_owned()),
            SocketMessage::Other => ReadStep::Continue,
        }
    }
}

/// The name of the server.
pub open spec fn server_name_of(info: Json) -> Seq<char> {
    match json::as_text(json::field(info, "ServerName"@)) {
        Some(name) => name,
        None => "Intiface"@,
    }
}

/// Reads the name of the server.
pub fn read_server_name(info: &JsonValue) -> (r: String)
    ensures
        r@ == server_name_of(info@),
{
    match json::text_of(info.get("ServerName")) {
        Some(name) => name.to_owned(),
        None => "Intiface".to_owned(),
    }
}

/// The features that a list of one command type announces. Only the scalar ones have an actuator
/// type.
pub open spec fn listed_features(value: Option<Json>, command_type: Seq<char>, typed: bool) -> Seq<
    FeatureModel,
> {
    match json::as_array(value) {
        Some(items) => Seq::new(
            items.len(),
            |i: int|
                FeatureModel {
                    command_type,
                    index: i as u32,
                    actuator_type: if typed {
                        json::as_text(json::field(items[i], "ActuatorType"@))
                    } else {
                        None
                    },
                },
        ),
        None => Seq::empty(),
    }
}

/// The device that an entry of the list describes.
pub open spec fn device_from(item: Json) -> DeviceModel {
    DeviceModel {
        device_index: match json::as_unsigned(json::field(item, "DeviceIndex"@)) {
            Some(n) => if n <= u32::MAX {
                n as u32
            } else {
                0
            },
            None => 0,
        },
        name: match json::as_text(json::field(item, "DeviceName"@)) {
            Some(name) => name,
            None => "Unknown Device"@,
        },
        features: listed_features(
            json::field2(item, "DeviceMessages"@, "ScalarCmd"@),
            "ScalarCmd"@,
            true,
        ) + listed_features(
            json::field2(item, "DeviceMessages"@, "LinearCmd"@),
            "LinearCmd"@,
            false,
        ) + listed_features(
            json::field2(item, "DeviceMessages"@, "RotateCmd"@),
            "RotateCmd"@,
            false,
        ),
    }
}

/// The devices of a list.
pub open spec fn devices_from(body: Json) -> Seq<DeviceModel> {
    match json::as_array(json::field(body, "Devices"@)) {
        Some(items) => Seq::new(items.len(), |i: int| device_from(items[i])),
        None => Seq::empty(),
    }
}

fn read_features(
    features: &mut Vec<IntifaceFeature>,
    value: Option<&JsonValue>,
    command_type: &str,
    typed: bool,
)
    ensures
        model::views(final(features)@) == model::views(old(features)@) + listed_features(
            json::model(value),
            command_type@,
            typed,
        ),
{
    let ghost before = model::views(features@);
    let ghost added = listed_features(json::model(value), command_type@, typed);
    assert(before + Seq::<FeatureModel>::empty() =~= before);
    if let Some(items) = json::array_of(value) {
        let mut i: usize = 0;
        proof {
            json::lemma_items_content(items@);
            assert(before + added.take(0) =~= before);
        }
        while i < items.len()
            invariant
                i <= items@.len(),
                json::as_array(json::model(value)) == Some(json::items_content(items@)),
                added == listed_features(json::model(value), command_type@, typed),
                added.len() == items@.len(),
                model::views(features@) == before + added.take(i as int),
            decreases items@.len() - i,
        {
            proof {
                json::lemma_items_content(items@);
            }
            let actuator_type = if typed {
                match json::text_of(items[i].get("ActuatorType")) {
                    Some(name) => Some(name.to_owned()),
                    None => None,
                }
            } else {
                None
            };
            let feature = IntifaceFeature {
                command_type: command_type.to_owned(),
                index: i as u32,
                actuator_type,
            };
            proof {
                model::lemma_views_push(features@, feature);
                assert(feature@ == added[i as int]);
                assert((before + added.take(i as int)).push(added[i as int]) =~= before
                    + added.take(i + 1));
            }
            features.push(feature);
            i += 1;
        }
        assert(added.take(i as int) =~= added);
    }
}

fn read_device(item: &JsonValue) -> (r: IntifaceDevice)
    ensures
        r@ == device_from(item@),
{
    let device_index: u32 = match json::unsigned_of(item.get("DeviceIndex")) {
        Some(n) => {
            if n <= 0xFFFF_FFFF {
                n as u32
            } else {
                0
            }
        },
        None => 0,
    };
    let name = match json::text_of(item.get("DeviceName")) {
        Some(name) => name.to_owned(),
        None => "Unknown Device".to_owned(),
    };
    let mut features: Vec<IntifaceFeature> = Vec::new();
    assert(model::views(features@) =~= Seq::empty());
    read_features(
        &mut features,
        json::get2(item, "DeviceMessages", "ScalarCmd"),
        "ScalarCmd",
        true,
    );
    read_features(
        &mut features,
        json::get2(item, "DeviceMessages", "LinearCmd"),
        "LinearCmd",
        false,
    );
    read_features(
        &mut features,
        json::get2(item, "DeviceMessages", "RotateCmd"),
        "RotateCmd",
        false,
    );
    assert(model::views(features@) =~= device_from(item@).features);
    IntifaceDevice { device_index, name, features }
}

/// Reads the devices of a list.
pub fn parse_device_list(body: &JsonValue) -> (r: Vec<IntifaceDevice>)
    ensures
        model::views(r@) == devices_from(body@),
{
    let mut out: Vec<IntifaceDevice> = Vec::new();
    assert(model::views(out@) =~= Seq::empty());
    if let Some(items) = json::array_of(body.get("Devices")) {
        let ghost wanted = devices_from(body@);
        let mut i: usize = 0;
        proof {
            json::lemma_items_content(items@);
            assert(wanted.take(0) =~= Seq::empty());
        }
        while i < items.len()
            invariant
                i <= items@.len(),
                json::as_array(json::field(body@, "Devices"@)) == Some(
                    json::items_content(items@),
                ),
                wanted == devices_from(body@),
                wanted.len() == items@.len(),
                model::views(out@) == wanted.take(i as int),
            decreases items@.len() - i,
        {
            proof {
                json::lemma_items_content(items@);
            }
            let device = read_device(&items[i]);
            proof {
                model::lemma_views_push(out@, device);
                assert(device@ == wanted[i as int]);
                assert(wanted.take(i as int).push(wanted[i as int]) =~= wanted.take(i + 1));
            }
            out.push(device);
            i += 1;
        }
        assert(wanted.take(i as int) =~= wanted);
    }
    out
}

/// The route is meant for a feature: its device's name holds the wanted text and its actuator
/// type is the wanted one, where they are given. Case does not count.
pub open spec fn route_matches(route: RouteModel, device: DeviceModel, feature: FeatureModel) -> bool {
    let device_text = text::trimmed(route.target_device_contains);
    let actuator = text::trimmed(route.target_actuator_type);
    let actual = match feature.actuator_type {
        Some(name) => name,
        None => Seq::empty(),
    };
    &&& device_text.len() == 0 || text::contains_text(
        text::lower_text(device.name),
        text::lower_text(device_text),
    )
    &&& actuator.len() == 0 || text::lower_text(actual) == text::lower_text(actuator)
}

/// Whether a route is meant for a feature.
pub fn rule_matches_feature(
    route: &IntifaceRouteRule,
    device: &IntifaceDevice,
    feature: &IntifaceFeature,
) -> (r: bool)
    ensures
        r == route_matches(route@, device@, feature@),
{
    let device_text = text::trim(route.target_device_contains.as_str());
    if device_text.unicode_len() > 0 {
        let name = text::lowercase(device.name.as_str());
        let expected = text::lowercase(device_text);
        if !text::contains(name.as_str(), expected.as_str()) {
            return false;
        }
    }
    let actuator = text::trim(route.target_actuator_type.as_str());
    if actuator.unicode_len() > 0 {
        let actual = match &feature.actuator_type {
            Some(name) => name.clone(),
            None => String::new(),
        };
        assert(actual@ =~= (match feature@.actuator_type {
            Some(name) => name,
            None => Seq::empty(),
        }));
        if !text::same_text_ignore_case(actual.as_str(), actuator) {
            return false;
        }
    }
    true
}

/// The name under which a route's value is kept.
pub open spec fn source_key(source: SourceKindModel) -> Seq<char> {
    match source {
        SourceKindModel::Intensity => "intensity"@,
        SourceKindModel::AvatarParam(name) => "avatar:"@ + text::trimmed(name),
    }
}

/// The value of a route, if there is one.
pub fn resolve_route_source(
    route: &IntifaceRouteRule,
    source_values: &Vec<(String, FloatBits)>,
) -> (r: Option<FloatBits>)
    ensures
        r == mapping::input_of(
            mapping::inputs_model(source_values@),
            source_key(route@.source),
        ),
{
    match &route.source {
        IntifaceSourceKind::Intensity => mapping::current_input(source_values, "intensity"),
        IntifaceSourceKind::AvatarParam(name) => {
            let key = text::concat2("avatar:", text::trim(name.as_str()));
            mapping::current_input(source_values, key.as_str())
        },
    }
}

/// A value that a route brings for a feature.
#[derive(Debug, Clone, Copy, PartialEq, Eq, Structural)]
pub struct RouteInput {
    pub route_index: usize,
    pub value: FloatBits,
}

/// The values that the enabled routes bring for a feature, in the order of the routes.
pub open spec fn route_inputs_of(
    device: DeviceModel,
    feature: FeatureModel,
    sources: Seq<(Seq<char>, FloatBits)>,
    routes: Seq<RouteModel>,
) -> Seq<RouteInput>
    decreases routes.len(),
{
    if routes.len() == 0 {
        Seq::empty()
    } else {
        let before = route_inputs_of(device, feature, sources, routes.drop_last());
        let route = routes.last();
        match mapping::input_of(sources, source_key(route.source)) {
            Some(value) => if route.enabled && route_matches(route, device, feature) {
                before.push(RouteInput { route_index: (routes.len() - 1) as usize, value })
            } else {
                before
            },
            None => before,
        }
    }
}

/// Collects the values that the routes bring for a feature.
pub fn route_inputs(
    device: &IntifaceDevice,
    feature: &IntifaceFeature,
    sources: &Vec<(String, FloatBits)>,
    routes: &Vec<IntifaceRouteRule>,
) -> (r: Vec<RouteInput>)
    ensures
        r@ == route_inputs_of(
            device@,
            feature@,
            mapping::inputs_model(sources@),
            model::views(routes@),
        ),
{
    let ghost all = model::views(routes@);
    let mut out: Vec<RouteInput> = Vec::new();
    let mut i: usize = 0;
    assert(all.take(0) =~= Seq::empty());
    while i < routes.len()
        invariant
            i <= routes@.len(),
            all == model::views(routes@),
            out@ == route_inputs_of(
                device@,
                feature@,
                mapping::inputs_model(sources@),
                all.take(i as int),
            ),
        decreases routes@.len() - i,
    {
        assert(all.take(i + 1).drop_last() =~= all.take(i as int));
        assert(all.take(i + 1).last() == routes@[i as int]@);
        if routes[i].enabled && rule_matches_feature(&routes[i], device, feature) {
            if let Some(value) = resolve_route_source(&routes[i], sources) {
                out.push(RouteInput { route_index: i, value });
            }
        }
        i += 1;
    }
    assert(all.take(i as int) =~= all);
    out
}

/// The numbers that a route maps a value with.
#[derive(Debug, Clone, Copy, PartialEq, Eq, Structural)]
pub struct RouteLimits {
    pub scale: FloatBits,
    pub idle: FloatBits,
    pub min_output: FloatBits,
    pub max_output: FloatBits,
}

/// The numbers of a route within their limits: the scale is not negative, the others lie between
/// zero and one, and the largest output is not below the smallest.
pub open spec fn limits_of(route: RouteModel) -> RouteLimits {
    let min_output = float::unit_limited(route.min_output);
    RouteLimits {
        scale: smoothing::larger(route.scale, float::number(0)),
        idle: float::unit_limited(route.idle),
        min_output,
        max_output: smoothing::larger(float::unit_limited(route.max_output), min_output),
    }
}

/// The numbers of a route within their limits.
pub fn route_limits(route: &IntifaceRouteRule) -> (r: RouteLimits)
    ensures
        r == limits_of(route@),
{
    let min_output = float::limit01(route.min_output);
    RouteLimits {
        scale: smoothing::max(route.scale, float::from_bits(0)),
        idle: float::limit01(route.idle),
        min_output,
        max_output: smoothing::max(float::limit01(route.max_output), min_output),
    }
}

impl RouteLimits {
    /// Holds a level between the smallest and the largest output.
    pub fn hold(&self, level: FloatBits) -> (r: FloatBits)
        requires
            self.min_output.at_most(self.max_output),
        ensures
            r == float::limited(level, self.min_output, self.max_output),
    {
        float::limit(level, self.min_output, self.max_output)
    }
}

/// The limits of a route whose outputs are numbers are in order and lie between zero and one.
pub proof fn law_route_limits(route: RouteModel)
    requires
        !route.min_output.nan(),
        !route.max_output.nan(),
    ensures
        limits_of(route).min_output.at_most(limits_of(route).max_output),
        float::number(0).at_most(limits_of(route).min_output),
        limits_of(route).max_output.at_most(float::number(float::ONE)),
        float::number(0).at_most(limits_of(route).scale),
{
}

/// The highest of several levels; nothing where there are none.
pub open spec fn highest_of(levels: Seq<FloatBits>) -> Option<FloatBits>
    decreases levels.len(),
{
    if levels.len() == 0 {
        None
    } else {
        match highest_of(levels.drop_last()) {
            Some(before) => Some(smoothing::larger(before, levels.last())),
            None => Some(levels.last()),
        }
    }
}

/// The highest of several levels.
pub fn highest(levels: &Vec<FloatBits>) -> (r: Option<FloatBits>)
    ensures
        r == highest_of(levels@),
{
    let mut out: Option<FloatBits> = None;
    let mut i: usize = 0;
    assert(levels@.take(0) =~= Seq::empty());
    while i < levels.len()
        invariant
            i <= levels@.len(),
            out == highest_of(levels@.take(i as int)),
        decreases levels@.len() - i,
    {
        assert(levels@.take(i + 1).drop_last() =~= levels@.take(i as int));
        out = match out {
            Some(before) => Some(smoothing::max(before, levels[i])),
            None => Some(levels[i]),
        };
        i += 1;
    }
    assert(levels@.take(i as int) =~= levels@);
    out
}

/// The highest level is one of the levels and none is above it.
pub proof fn law_highest(levels: Seq<FloatBits>)
    requires
        levels.len() > 0,
        forall|i: int| 0 <= i < levels.len() ==> !(#[trigger] levels[i]).nan(),
    ensures
        highest_of(levels) is Some,
        levels.contains(highest_of(levels)->0),
        forall|i: int|
            0 <= i < levels.len() ==> (#[trigger] levels[i]).at_most(highest_of(levels)->0),
    decreases levels.len(),
{
    if levels.len() == 1 {
        assert(levels.drop_last() =~= Seq::empty());
        assert(highest_of(levels.drop_last()) is None);
        assert(levels[0] == highest_of(levels)->0);
    } else {
        let shorter = levels.drop_last();
        assert forall|i: int| 0 <= i < shorter.len() implies !(#[trigger] shorter[i]).nan() by {
            assert(shorter[i] == levels[i]);
        }
        law_highest(shorter);
        let before = highest_of(shorter)->0;
        let k = choose|k: int| 0 <= k < shorter.len() && shorter[k] == before;
        assert(levels[k] == before);
        assert(levels[levels.len() - 1] == levels.last());
        assert forall|i: int| 0 <= i < levels.len() implies (#[trigger] levels[i]).at_most(
            highest_of(levels)->0,
        ) by {
            if i < shorter.len() {
                assert(shorter[i] == levels[i]);
            }
        }
    }
}

/// A scalar feature that routes bring values for.
#[derive(Debug, PartialEq, Eq)]
pub struct RoutedFeature {
    pub device_index: u32,
    pub scalar_index: u32,
    pub actuator_type: String,
    pub inputs: Vec<RouteInput>,
}

/// The model of `RoutedFeature`.
#[verifier::ext_equal]
pub struct RoutedModel {
    pub device_index: u32,
    pub scalar_index: u32,
    pub actuator_type: Seq<char>,
    pub inputs: Seq<RouteInput>,
}

impl View for RoutedFeature {
    type V = RoutedModel;

    open spec fn view(&self) -> RoutedModel {
        RoutedModel {
            device_index: self.device_index,
            scalar_index: self.scalar_index,
            actuator_type: self.actuator_type@,
            inputs: self.inputs@,
        }
    }
}

impl Duplicate for RoutedFeature {
    fn duplicate(&self) -> (r: Self) {
        RoutedFeature {
            device_index: self.device_index,
            scalar_index: self.scalar_index,
            actuator_type: self.actuator_type.clone(),
            inputs: model::copy_plain(&self.inputs),
        }
    }
}

/// The scalar features of a device that routes bring values for.
pub open spec fn routed_features(
    device: DeviceModel,
    features: Seq<FeatureModel>,
    sources: Seq<(Seq<char>, FloatBits)>,
    routes: Seq<RouteModel>,
) -> Seq<RoutedModel>
    decreases features.len(),
{
    if features.len() == 0 {
        Seq::empty()
    } else {
        let before = routed_features(device, features.drop_last(), sources, routes);
        let feature = features.last();
        let inputs = route_inputs_of(device, feature, sources, routes);
        if feature.command_type == "ScalarCmd"@ && inputs.len() > 0 {
            before.push(
                RoutedModel {
                    device_index: device.device_index,
                    scalar_index: feature.index,
                    actuator_type: match feature.actuator_type {
                        Some(name) => name,
                        None => "Vibrate"@,
                    },
                    inputs,
                },
            )
        } else {
            before
        }
    }
}

/// The scalar features of all devices that routes bring values for.
pub open spec fn routed(
    devices: Seq<DeviceModel>,
    sources: Seq<(Seq<char>, FloatBits)>,
    routes: Seq<RouteModel>,
) -> Seq<RoutedModel>
    decreases devices.len(),
{
    if devices.len() == 0 {
        Seq::empty()
    } else {
        routed(devices.drop_last(), sources, routes) + routed_features(
            devices.last(),
            devices.last().features,
            sources,
            routes,
        )
    }
}

fn route_device(
    device: &IntifaceDevice,
    sources: &Vec<(String, FloatBits)>,
    routes: &Vec<IntifaceRouteRule>,
) -> (r: Vec<RoutedFeature>)
    ensures
        model::views(r@) == routed_features(
            device@,
            device@.features,
            mapping::inputs_model(sources@),
            model::views(routes@),
        ),
{
    let ghost all = model::views(device.features@);
    let mut out: Vec<RoutedFeature> = Vec::new();
    let mut i: usize = 0;
    assert(all.take(0) =~= Seq::empty());
    assert(model::views(out@) =~= Seq::empty());
    while i < device.features.len()
        invariant
            i <= device.features@.len(),
            all == model::views(device.features@),
            model::views(out@) == routed_features(
                device@,
                all.take(i as int),
                mapping::inputs_model(sources@),
                model::views(routes@),
            ),
        decreases device.features@.len() - i,
    {
        assert(all.take(i + 1).drop_last() =~= all.take(i as int));
        assert(all.take(i + 1).last() == device.features@[i as int]@);
        let feature = &device.features[i];
        if text::same_text(feature.command_type.as_str(), "ScalarCmd") {
            let inputs = route_inputs(device, feature, sources, routes);
            if inputs.len() > 0 {
                let actuator_type = match &feature.actuator_type {
                    Some(name) => name.clone(),
                    None => "Vibrate".to_owned(),
                };
                let item = RoutedFeature {
                    device_index: device.device_index,
                    scalar_index: feature.index,
                    actuator_type,
                    inputs,
                };
                proof {
                    model::lemma_views_push(out@, item);
                }
                out.push(item);
            }
        }
        i += 1;
    }
    assert(all.take(i as int) =~= all);
    out
}

/// Finds the scalar features of all devices that routes bring values for.
pub fn route_devices(
    devices: &Vec<IntifaceDevice>,
    sources: &Vec<(String, FloatBits)>,
    routes: &Vec<IntifaceRouteRule>,
) -> (r: Vec<RoutedFeature>)
    ensures
        model::views(r@) == routed(
            model::views(devices@),
            mapping::inputs_model(sources@),
            model::views(routes@),
        ),
{
    let ghost all = model::views(devices@);
    let mut out: Vec<RoutedFeature> = Vec::new();
    let mut i: usize = 0;
    assert(all.take(0) =~= Seq::empty());
    assert(model::views(out@) =~= Seq::empty());
    while i < devices.len()
        invariant
            i <= devices@.len(),
            all == model::views(devices@),
            model::views(out@) == routed(
                all.take(i as int),
                mapping::inputs_model(sources@),
                model::views(routes@),
            ),
        decreases devices@.len() - i,
    {
        assert(all.take(i + 1).drop_last() =~= all.take(i as int));
        assert(all.take(i + 1).last() == devices@[i as int]@);
        let ghost before = model::views(out@);
        let mut more = route_device(&devices[i], sources, routes);
        let ghost added = model::views(more@);
        out.append(&mut more);
        assert(model::views(out@) =~= before + added);
        i += 1;
    }
    assert(all.take(i as int) =~= all);
    out
}

/// The command that gives a routed feature the highest of some levels.
pub open spec fn commanded(feature: RoutedModel, levels: Seq<FloatBits>) -> Option<CommandModel> {
    match highest_of(levels) {
        Some(level) => Some(
            CommandModel {
                device_index: feature.device_index,
                scalar_index: feature.scalar_index,
                actuator_type: feature.actuator_type,
                level,
            },
        ),
        None => None,
    }
}

/// The command for a routed feature, from the levels that its values are mapped to.
pub fn command_for(feature: &RoutedFeature, levels: &Vec<FloatBits>) -> (r: Option<
    IntifaceScalarCommand,
>)
    ensures
        model::opt_view(r) == commanded(feature@, levels@),
        model::opt_view(r) == (match highest_of(levels@) {
            Some(level) => Some(
                CommandModel {
                    device_index: feature@.device_index,
                    scalar_index: feature@.scalar_index,
                    actuator_type: feature@.actuator_type,
                    level,
                },
            ),
            None => None,
        }),
{
    match highest(levels) {
        Some(level) => Some(
            IntifaceScalarCommand {
                device_index: feature.device_index,
                scalar_index: feature.scalar_index,
                actuator_type: feature.actuator_type.clone(),
                level,
            },
        ),
        None => None,
    }
}

/// The values with each held between zero and one.
pub open spec fn limited_sources(values: Seq<(Seq<char>, FloatBits)>) -> Seq<
    (Seq<char>, FloatBits),
> {
    Seq::new(values.len(), |i: int| (values[i].0, float::unit_limited(values[i].1)))
}

/// Holds each value between zero and one.
pub fn limit_sources(values: &Vec<(String, FloatBits)>) -> (r: Vec<(String, FloatBits)>)
    ensures
        mapping::inputs_model(r@) == limited_sources(mapping::inputs_model(values@)),
{
    let ghost wanted = limited_sources(mapping::inputs_model(values@));
    let mut out: Vec<(String, FloatBits)> = Vec::new();
    let mut i: usize = 0;
    while i < values.len()
        invariant
            i <= values@.len(),
            wanted == limited_sources(mapping::inputs_model(values@)),
            mapping::inputs_model(out@) == wanted.take(i as int),
        decreases values@.len() - i,
    {
        let ghost before = mapping::inputs_model(out@);
        out.push((values[i].0.clone(), float::limit01(values[i].1)));
        i += 1;
        assert(mapping::inputs_model(out@) =~= before.push(wanted[i - 1]));
        assert(mapping::inputs_model(out@) =~= wanted.take(i as int));
    }
    assert(wanted.take(i as int) =~= wanted);
    out
}

/// A level is due: it moved by at least the smallest change, none was sent yet, or the last one
/// is a heartbeat ago.
pub open spec fn level_due(
    delta: FloatBits,
    now_ms: i64,
    last_sent_at_ms: i64,
    min_delta: FloatBits,
    heartbeat_ms: u64,
) -> bool {
    ||| smoothing::larger(min_delta, float::number(0)).at_most(delta)
    ||| last_sent_at_ms == 0
    ||| now_ms - last_sent_at_ms >= heartbeat_ms as i64
}

/// Whether a level is due. `delta` is how far it moved since one was sent.
pub fn should_emit_level(
    delta: FloatBits,
    now_ms: i64,
    last_sent_at_ms: i64,
    min_delta: FloatBits,
    heartbeat_ms: u64,
) -> (r: bool)
    ensures
        r == level_due(delta, now_ms, last_sent_at_ms, min_delta, heartbeat_ms),
{
    let smallest = smoothing::max(min_delta, float::from_bits(0));
    if smallest.less_or_equal(&delta) || last_sent_at_ms == 0 {
        return true;
    }
    let since: i128 = now_ms as i128 - last_sent_at_ms as i128;
    since >= (heartbeat_ms as i64) as i128
}

/// When the server was last probed, and whether it is probed now.
pub open spec fn probe_wanted(last_probe_at_ms: i64, now_ms: i64) -> (i64, bool) {
    if now_ms - last_probe_at_ms >= 3000 {
        (now_ms, true)
    } else {
        (last_probe_at_ms, false)
    }
}

/// The devices that are known after a probe.
pub open spec fn devices_after(known: Seq<DeviceModel>, probe: ProbeModel) -> Seq<DeviceModel> {
    if probe.connected {
        probe.devices
    } else {
        known
    }
}

/// The state of the loop that sends levels.
#[derive(Debug, PartialEq, Eq)]
pub struct IntifaceLoop {
    pub last_probe_at_ms: i64,
    pub last_sent_at_ms: i64,
    pub last_sent_level: FloatBits,
    pub devices: Vec<IntifaceDevice>,
}

impl IntifaceLoop {
    /// A loop that starts.
    pub fn new() -> (r: Self)
        ensures
            r.last_probe_at_ms == 0,
            r.last_sent_at_ms == 0,
            r.last_sent_level == float::number(0),
            r.devices@.len() == 0,
    {
        IntifaceLoop {
            last_probe_at_ms: 0,
            last_sent_at_ms: 0,
            last_sent_level: float::from_bits(0),
            devices: Vec::new(),
        }
    }

    /// Whether the server is probed now: every three seconds.
    pub fn probe_due(&mut self, now_ms: i64) -> (r: bool)
        ensures
            (final(self).last_probe_at_ms, r) == probe_wanted(old(self).last_probe_at_ms, now_ms),
            r == (now_ms - old(self).last_probe_at_ms >= 3000),
            final(self).last_probe_at_ms == (if r {
                now_ms
            } else {
                old(self).last_probe_at_ms
            }),
            final(self).last_sent_at_ms == old(self).last_sent_at_ms,
            final(self).last_sent_level == old(self).last_sent_level,
            final(self).devices == old(self).devices,
    {
        let since: i128 = now_ms as i128 - self.last_probe_at_ms as i128;
        if since >= 3000 {
            self.last_probe_at_ms = now_ms;
            true
        } else {
            false
        }
    }

    /// Takes over a probe. The devices of a server that does not answer are kept.
    pub fn on_probe(
        &mut self,
        probe: IntifaceSnapshot,
        snapshot: &mut IntifaceBridgeSnapshot,
        now_ms: i64,
        route_count: usize,
    )
        ensures
            final(snapshot)@ == (BridgeSnapshotModel {
                checked_at_ms: now_ms,
                connected: probe.connected,
                server_name: probe@.server_name,
                device_count: probe@.devices.len() as usize,
                route_count,
                last_error: match probe@.last_error {
                    Some(message) => message,
                    None => Seq::empty(),
                },
                ..old(snapshot)@
            }),
            final(self).devices == (if probe.connected {
                probe.devices
            } else {
                old(self).devices
            }),
            model::views(final(self).devices@) == devices_after(
                model::views(old(self).devices@),
                probe@,
            ),
            final(self).last_probe_at_ms == old(self).last_probe_at_ms,
            final(self).last_sent_at_ms == old(self).last_sent_at_ms,
            final(self).last_sent_level == old(self).last_sent_level,
    {
        snapshot.checked_at_ms = now_ms;
        snapshot.connected = probe.connected;
        snapshot.server_name = probe.server_name.clone();
        snapshot.device_count = probe.devices.len();
        snapshot.route_count = route_count;
        snapshot.last_error = match &probe.last_error {
            Some(message) => message.clone(),
            None => String::new(),
        };
        assert(snapshot@.last_error =~= (match probe@.last_error {
            Some(message) => message,
            None => Seq::empty(),
        }));
        if probe.connected {
            self.devices = probe.devices;
        }
    }

    /// Whether levels are sent now: one is due and there are devices.
    pub fn emission_due(&self, delta: FloatBits, now_ms: i64, config: &IntifaceBridgeConfig) -> (r:
        bool)
        ensures
            r == (level_due(
                delta,
                now_ms,
                self.last_sent_at_ms,
                config@.min_delta,
                config@.heartbeat_ms,
            ) && self.devices@.len() > 0),
    {
        should_emit_level(
            delta,
            now_ms,
            self.last_sent_at_ms,
            config.min_delta,
            config.heartbeat_ms,
        ) && self.devices.len() > 0
    }

    /// Notes that levels were sent.
    pub fn on_sent(
        &mut self,
        snapshot: &mut IntifaceBridgeSnapshot,
        commands: u64,
        target: FloatBits,
        now_ms: i64,
    )
        ensures
            final(snapshot)@ == (BridgeSnapshotModel {
                commands_sent: old(snapshot).commands_sent.wrapping_add(commands),
                last_level: target,
                last_sent_at_ms: now_ms,
                last_error: Seq::empty(),
                ..old(snapshot)@
            }),
            final(self).last_sent_level == target,
            final(self).last_sent_at_ms == now_ms,
            final(self).last_probe_at_ms == old(self).last_probe_at_ms,
            final(self).devices == old(self).devices,
    {
        self.last_sent_level = target;
        self.last_sent_at_ms = now_ms;
        snapshot.commands_sent = snapshot.commands_sent.wrapping_add(commands);
        snapshot.last_level = target;
        snapshot.last_sent_at_ms = now_ms;
        snapshot.last_error = String::new();
        assert(snapshot@.last_error =~= Seq::empty());
    }
}

impl IntifaceBridgeSnapshot {
    /// What is reported at the start.
    pub fn started(now_ms: i64) -> (r: Self)
        ensures
            r@ == (BridgeSnapshotModel { running: true, checked_at_ms: now_ms, ..blank_bridge() }),
    {
        let mut snapshot = IntifaceBridgeSnapshot::default();
        snapshot.running = true;
        snapshot.checked_at_ms = now_ms;
        snapshot
    }

    /// Notes that levels were not sent.
    pub fn note_failed(&mut self, message: &str)
        ensures
            final(self)@ == (BridgeSnapshotModel {
                last_error: message@,
                connected: false,
                ..old(self)@
            }),
    {
        self.last_error = message.to_owned();
        self.connected = false;
    }

    /// Notes that the loop has stopped.
    pub fn note_stopped(&mut self)
        ensures
            final(self)@ == (BridgeSnapshotModel { running: false, ..old(self)@ }),
    {
        self.running = false;
    }
}

} // verus!
