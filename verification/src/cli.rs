//! The command line: profiles made from arguments, and the lines that are printed of them.
use vstd::prelude::*;
use vstd::string::*;
use crate::config::{ForwardTarget, ForwardTargetModel, InAppConfig, InAppModel, OscListen, OscListenModel};
use crate::float;
use crate::forms;
use crate::mapping;
use crate::mapping::{Curve, Mapping, MappingModel};
use crate::model;
use crate::store::{LoadedModel, LoadedProfile, ProfileSummary, SummaryModel};
use crate::text;

verus! {

/// What is wrong with the arguments.
#[derive(Debug, PartialEq, Eq)]
pub enum ArgumentError {
    /// A rule is broken.
    Message(String),
    /// A text is no port: the error of the standard parser says why.
    Port(String),
}

/// The model of `ArgumentError`.
pub enum FaultModel {
    Message(Seq<char>),
    Port(Seq<char>),
}

impl View for ArgumentError {
    type V = FaultModel;

    open spec fn view(&self) -> FaultModel {
        match *self {
            ArgumentError::Message(message) => FaultModel::Message(message@),
            ArgumentError::Port(raw) => FaultModel::Port(raw@),
        }
    }
}

/// The forward target that an argument writes, or what is wrong with it.
pub open spec fn target_argument(raw: Seq<char>) -> Result<ForwardTargetModel, FaultModel> {
    match forms::target_parts(text::pieces(raw, seq![':'])) {
        None => Err(
            FaultModel::Message("Invalid forward target '"@ + raw + "', expected host:port"@),
        ),
        Some((host, digits)) => match text::unsigned_value(digits, 65_535) {
            None => Err(FaultModel::Port(digits)),
            Some(port) => if port == 0 {
                Err(
                    FaultModel::Message(
                        "Invalid forward target '"@ + raw + "', port must be > 0"@,
                    ),
                )
            } else {
                Ok(ForwardTargetModel { host, port: port as u16 })
            },
        },
    }
}

/// Reads a forward target.
pub fn parse_forward_target(raw: &str) -> (r: Result<ForwardTarget, ArgumentError>)
    ensures
        match r {
            Ok(target) => target_argument(raw@) == Ok::<ForwardTargetModel, FaultModel>(target@),
            Err(error) => target_argument(raw@) == Err::<ForwardTargetModel, FaultModel>(error@),
        },
{
    match forms::split_target(raw) {
        None => Err(
            ArgumentError::Message(
                text::concat3("Invalid forward target '", raw, "', expected host:port"),
            ),
        ),
        Some((host, digits)) => match text::parse_unsigned(digits.as_str(), 65_535) {
            None => Err(ArgumentError::Port(digits)),
            Some(port) => if port == 0 {
                Err(
                    ArgumentError::Message(
                        text::concat3("Invalid forward target '", raw, "', port must be > 0"),
                    ),
                )
            } else {
                Ok(ForwardTarget { host, port: port as u16 })
            },
        },
    }
}

/// The mapping that is made of an address alone.
pub open spec fn address_mapping(address: Seq<char>) -> Option<MappingModel> {
    mapping::mapping_of(
        address,
        float::number(float::ONE),
        float::number(forms::DEFAULT_DEADZONE),
        false,
        Curve::Linear,
        float::number(0),
        float::number(float::ONE),
    )
}

fn map_address(address: &str) -> (r: Option<Mapping>)
    ensures
        model::opt_view(r) == address_mapping(address@),
{
    Mapping::new(
        address,
        float::from_bits(float::ONE),
        float::from_bits(forms::DEFAULT_DEADZONE),
        false,
        Curve::Linear,
        float::from_bits(0),
        float::from_bits(float::ONE),
    )
}

/// The mappings that are made of addresses. What is no address is left out.
pub open spec fn address_mappings(addresses: Seq<Seq<char>>) -> Seq<MappingModel>
    decreases addresses.len(),
{
    if addresses.len() == 0 {
        Seq::empty()
    } else {
        let before = address_mappings(addresses.drop_last());
        match address_mapping(addresses.last()) {
            Some(made) => before.push(made),
            None => before,
        }
    }
}

/// The address that is mapped where none is given.
pub const DEFAULT_ADDRESS: &'static str = "/avatar/parameters/SPS_Contact";

/// The addresses that are mapped.
pub open spec fn mapped_addresses(addresses: Seq<Seq<char>>) -> Seq<Seq<char>> {
    if addresses.len() == 0 {
        seq![DEFAULT_ADDRESS@]
    } else {
        addresses
    }
}

fn map_addresses(addresses: &Vec<String>) -> (r: Vec<Mapping>)
    ensures
        model::views(r@) == address_mappings(text::texts(addresses@)),
{
    let ghost all = text::texts(addresses@);
    let mut out: Vec<Mapping> = Vec::new();
    let mut i: usize = 0;
    assert(all.take(0) =~= Seq::empty());
    assert(model::views(out@) =~= Seq::empty());
    while i < addresses.len()
        invariant
            i <= addresses@.len(),
            all == text::texts(addresses@),
            model::views(out@) == address_mappings(all.take(i as int)),
        decreases addresses@.len() - i,
    {
        assert(all.take(i + 1).drop_last() =~= all.take(i as int));
        assert(all.take(i + 1).last() == addresses@[i as int]@);
        if let Some(made) = map_address(addresses[i].as_str()) {
            proof {
                model::lemma_views_push(out@, made);
            }
            out.push(made);
        }
        i += 1;
    }
    assert(all.take(i as int) =~= all);
    out
}

/// The mappings that are used where no address is given.
pub fn default_mappings() -> (r: Vec<Mapping>)
    ensures
        model::views(r@) == address_mappings(seq![DEFAULT_ADDRESS@]),
{
    let addresses: Vec<String> = vec![DEFAULT_ADDRESS.to_owned()];
    assert(text::texts(addresses@) =~= seq![DEFAULT_ADDRESS@]);
    map_addresses(&addresses)
}

/// The forward targets that arguments write, or what is wrong with the first that is wrong.
pub open spec fn target_arguments(raws: Seq<Seq<char>>) -> Result<
    Seq<ForwardTargetModel>,
    FaultModel,
>
    decreases raws.len(),
{
    if raws.len() == 0 {
        Ok(Seq::empty())
    } else {
        match target_arguments(raws.drop_last()) {
            Err(fault) => Err(fault),
            Ok(before) => match target_argument(raws.last()) {
                Err(fault) => Err(fault),
                Ok(target) => Ok(before.push(target)),
            },
        }
    }
}

proof fn lemma_targets_fail(raws: Seq<Seq<char>>, n: int)
    requires
        0 <= n <= raws.len(),
        target_arguments(raws.take(n)) is Err,
    ensures
        target_arguments(raws) == target_arguments(raws.take(n)),
    decreases raws.len(),
{
    if n < raws.len() {
        assert(raws.drop_last().take(n) =~= raws.take(n));
        lemma_targets_fail(raws.drop_last(), n);
    } else {
        assert(raws.take(n) =~= raws);
    }
}

fn read_targets(raws: &Vec<String>) -> (r: Result<Vec<ForwardTarget>, ArgumentError>)
    ensures
        match r {
            Ok(list) => target_arguments(text::texts(raws@)) == Ok::<
                Seq<ForwardTargetModel>,
                FaultModel,
            >(model::views(list@)),
            Err(error) => target_arguments(text::texts(raws@)) == Err::<
                Seq<ForwardTargetModel>,
                FaultModel,
            >(error@),
        },
{
    let ghost all = text::texts(raws@);
    let mut out: Vec<ForwardTarget> = Vec::new();
    let mut i: usize = 0;
    assert(all.take(0) =~= Seq::empty());
    assert(model::views(out@) =~= Seq::empty());
    while i < raws.len()
        invariant
            i <= raws@.len(),
            all == text::texts(raws@),
            target_arguments(all.take(i as int)) == Ok::<Seq<ForwardTargetModel>, FaultModel>(
                model::views(out@),
            ),
        decreases raws@.len() - i,
    {
        assert(all.take(i + 1).drop_last() =~= all.take(i as int));
        assert(all.take(i + 1).last() == raws@[i as int]@);
        match parse_forward_target(raws[i].as_str()) {
            Err(error) => {
                proof {
                    lemma_targets_fail(all, i + 1);
                }
                return Err(error);
            },
            Ok(target) => {
                proof {
                    model::lemma_views_push(out@, target);
                }
                out.push(target);
            },
        }
        i += 1;
    }
    assert(all.take(i as int) =~= all);
    Ok(out)
}

/// The arguments that a profile is made of.
#[derive(Debug, PartialEq, Eq)]
pub struct ProfileArguments {
    pub website_base_url: String,
    pub creator_username: String,
    pub allow_insecure_http: bool,
    pub osc_host: String,
    pub osc_port: u16,
    pub allow_network_osc: bool,
    pub osc_allowed_senders: Vec<String>,
    pub input_addresses: Vec<String>,
    pub forward_targets: Vec<String>,
}

/// The configuration that arguments write, or the first thing that is wrong with them.
pub open spec fn argument_config(a: ProfileArguments) -> Result<InAppModel, FaultModel> {
    let mappings = address_mappings(mapped_addresses(text::texts(a.input_addresses@)));
    if mappings.len() == 0 {
        Err(FaultModel::Message("No valid input mappings were provided"@))
    } else {
        match target_arguments(text::texts(a.forward_targets@)) {
            Err(fault) => Err(fault),
            Ok(targets) => match forms::sender_texts(
                text::texts(a.osc_allowed_senders@),
                "Invalid --allowed-sender at position "@,
                ": '"@,
            ) {
                Err(message) => Err(FaultModel::Message(message)),
                Ok(senders) => if !a.allow_network_osc && senders.len() > 0 {
                    Err(
                        FaultModel::Message(
                            "--allowed-sender requires --allow-network-osc (loopback mode ignores external senders)"@,
                        ),
                    )
                } else {
                    Ok(
                        forms::configuration(
                            a.website_base_url@,
                            a.creator_username@,
                            a.allow_insecure_http,
                            OscListenModel { host: a.osc_host@, port: a.osc_port },
                            a.allow_network_osc,
                            senders,
                            targets,
                            mappings,
                        ),
                    )
                },
            },
        }
    }
}

/// Makes the configuration that arguments write.
pub fn build_profile_config(arguments: ProfileArguments) -> (r: Result<InAppConfig, ArgumentError>)
    ensures
        match r {
            Ok(config) => argument_config(arguments) == Ok::<InAppModel, FaultModel>(config@),
            Err(error) => argument_config(arguments) == Err::<InAppModel, FaultModel>(error@),
        },
{
    let mappings = if arguments.input_addresses.len() == 0 {
        default_mappings()
    } else {
        map_addresses(&arguments.input_addresses)
    };
    assert(model::views(mappings@) == address_mappings(
        mapped_addresses(text::texts(arguments.input_addresses@)),
    ));
    assert(model::views(mappings@).len() == mappings@.len());
    if mappings.len() == 0 {
        return Err(
            ArgumentError::Message("No valid input mappings were provided".to_owned()),
        );
    }
    let targets = match read_targets(&arguments.forward_targets) {
        Ok(list) => list,
        Err(error) => {
            return Err(error);
        },
    };
    let senders = match forms::read_senders(
        &arguments.osc_allowed_senders,
        "Invalid --allowed-sender at position ",
        ": '",
    ) {
        Ok(list) => list,
        Err(message) => {
            return Err(ArgumentError::Message(message));
        },
    };
    assert(text::texts(senders@).len() == senders@.len());
    if !arguments.allow_network_osc && senders.len() > 0 {
        return Err(
            ArgumentError::Message(
                "--allowed-sender requires --allow-network-osc (loopback mode ignores external senders)".to_owned(),
            ),
        );
    }
    Ok(
        forms::new_configuration(
            arguments.website_base_url,
            arguments.creator_username,
            arguments.allow_insecure_http,
            OscListen { host: arguments.osc_host, port: arguments.osc_port },
            arguments.allow_network_osc,
            senders,
            targets,
            mappings,
        ),
    )
}

/// Whether a credential is there, as it is printed.
pub open spec fn credential_text(present: bool) -> Seq<char> {
    if present {
        "set"@
    } else {
        "missing"@
    }
}

fn credential(present: bool) -> (r: &'static str)
    ensures
        r@ == credential_text(present),
{
    if present {
        "set"
    } else {
        "missing"
    }
}

/// The line that lists a profile.
pub open spec fn summary_line(summary: SummaryModel) -> Seq<char> {
    summary.id + " | "@ + summary.name + " | creator="@ + summary.creator_username
        + " | credential="@ + credential_text(summary.has_stream_key) + " | updated="@
        + text::signed_text(summary.updated_at_ms as int)
}

/// Writes the line that lists a profile.
pub fn list_line(summary: &ProfileSummary) -> (r: String)
    ensures
        r@ == summary_line(summary@),
{
    let mut out = text::concat3(summary.id.as_str(), " | ", summary.name.as_str());
    out.append(" | creator=");
    out.append(summary.creator_username.as_str());
    out.append(" | credential=");
    out.append(credential(summary.has_stream_key));
    out.append(" | updated=");
    let updated = text::signed_decimal(summary.updated_at_ms);
    out.append(updated.as_str());
    out
}

/// The lines that show a profile.
pub open spec fn profile_lines(loaded: LoadedModel) -> Seq<Seq<char>> {
    let config = loaded.profile.config;
    seq![
        "id="@ + loaded.profile.id,
        "name="@ + loaded.profile.name,
        "creator="@ + config.creator_username,
        "website="@ + config.website_base_url,
        "osc="@ + config.osc_listen.host + ":"@ + text::decimal_text(config.osc_listen.port as nat),
        "allowNetworkOsc="@ + text::flag_text(config.allow_network_osc),
        "allowedSenders="@ + text::decimal_text(config.osc_allowed_senders.len()),
        "mappings="@ + text::decimal_text(config.mappings.len()),
        "forwardTargets="@ + text::decimal_text(config.forward_targets.len()),
        "credential="@ + credential_text(loaded.stream_key is Some),
    ]
}

fn count_line(label: &str, count: usize) -> (r: String)
    ensures
        r@ == label@ + text::decimal_text(count as nat),
{
    let digits = text::decimal(count as u64);
    text::concat2(label, digits.as_str())
}

/// Writes the lines that show a profile.
pub fn show_lines(loaded: &LoadedProfile) -> (r: Vec<String>)
    ensures
        text::texts(r@) == profile_lines(loaded@),
{
    let config = &loaded.profile.config;
    let port = text::decimal(config.osc_listen.port as u64);
    let mut osc = text::concat3("osc=", config.osc_listen.host.as_str(), ":");
    osc.append(port.as_str());
    let lines: Vec<String> = vec![
        text::concat2("id=", loaded.profile.id.as_str()),
        text::concat2("name=", loaded.profile.name.as_str()),
        text::concat2("creator=", config.creator_username.as_str()),
        text::concat2("website=", config.website_base_url.as_str()),
        osc,
        text::concat2("allowNetworkOsc=", text::flag(config.allow_network_osc)),
        count_line("allowedSenders=", config.osc_allowed_senders.len()),
        count_line("mappings=", config.mappings.len()),
        count_line("forwardTargets=", config.forward_targets.len()),
        text::concat2("credential=", credential(loaded.stream_key.is_some())),
    ];
    assert(text::texts(lines@) =~= profile_lines(loaded@));
    lines
}

/// The line that is printed while a bridge runs, with its levels written out.
pub fn status_line(
    running: bool,
    seq: u64,
    intensity: &str,
    target: &str,
    relay_connected: bool,
    last_error: &str,
) -> (r: String)
    ensures
        r@ == "running="@ + text::flag_text(running) + " seq="@ + text::decimal_text(seq as nat)
            + " intensity="@ + intensity@ + " target="@ + target@ + " relayConnected="@ + text::flag_text(
            relay_connected,
        ) + " lastError="@ + (if last_error@.len() == 0 {
            "-"@
        } else {
            last_error@
        }),
{
    let number = text::decimal(seq);
    let mut out = text::concat3("running=", text::flag(running), " seq=");
    out.append(number.as_str());
    out.append(" intensity=");
    out.append(intensity);
    out.append(" target=");
    out.append(target);
    out.append(" relayConnected=");
    out.append(text::flag(relay_connected));
    out.append(" lastError=");
    if last_error.unicode_len() == 0 {
        out.append("-");
    } else {
        out.append(last_error);
    }
    out
}

} // verus!
