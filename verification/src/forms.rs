//! The forms of the desktop window, and what is read from them.
use vstd::prelude::*;
use vstd::string::*;
use crate::config::{
    DebugConfig,
    DiscoveryConfig,
    DiscoveryModel,
    ForwardTarget,
    ForwardTargetModel,
    InAppConfig,
    InAppModel,
    OscListen,
    OscListenModel,
    RelayPaths,
    RelayPathsModel,
};
use crate::float;
use crate::float::FloatBits;
use crate::intiface::{
    IntifaceConfig,
    IntifaceConfigModel,
    IntifaceRouteRule,
    IntifaceSourceKind,
    RouteModel,
    SourceKindModel,
};
use crate::ip;
use crate::ip_text;
use crate::mapping;
use crate::mapping::{Curve, Mapping, MappingModel};
use crate::model;
use crate::model::Duplicate;
use crate::runtime;
use crate::smoothing;
use crate::smoothing::OutputTuning;
use crate::store::{AppProfile, ProfileModel};
use crate::text;

verus! {

/// The deadzone of a mapping that says nothing of it: 0.02.
pub const DEFAULT_DEADZONE: u64 = 0x3F94_7AE1_47AE_147B;

/// The website that a form starts with.
pub const DEFAULT_WEBSITE: &'static str = "https://vrlewds.com";

/// A mapping as it is entered.
#[derive(Debug, PartialEq, Eq)]
pub struct MappingRowForm {
    pub address: String,
    pub weight: String,
    pub deadzone: String,
    pub invert: bool,
    pub curve: Curve,
    pub min: String,
    pub max: String,
}

/// The model of `MappingRowForm`.
#[verifier::ext_equal]
pub struct RowModel {
    pub address: Seq<char>,
    pub weight: Seq<char>,
    pub deadzone: Seq<char>,
    pub invert: bool,
    pub curve: Curve,
    pub min: Seq<char>,
    pub max: Seq<char>,
}

impl View for MappingRowForm {
    type V = RowModel;

    open spec fn view(&self) -> RowModel {
        RowModel {
            address: self.address@,
            weight: self.weight@,
            deadzone: self.deadzone@,
            invert: self.invert,
            curve: self.curve,
            min: self.min@,
            max: self.max@,
        }
    }
}

impl Duplicate for MappingRowForm {
    fn duplicate(&self) -> (r: Self) {
        MappingRowForm {
            address: self.address.clone(),
            weight: self.weight.clone(),
            deadzone: self.deadzone.clone(),
            invert: self.invert,
            curve: self.curve,
            min: self.min.clone(),
            max: self.max.clone(),
        }
    }
}

/// A row that says nothing but an address.
pub open spec fn blank_row(address: Seq<char>) -> RowModel {
    RowModel {
        address,
        weight: "1.0"@,
        deadzone: "0.02"@,
        invert: false,
        curve: Curve::Linear,
        min: "0.0"@,
        max: "1.0"@,
    }
}

/// The rows without one of them, or a blank row where it was the only one.
pub open spec fn rows_without(rows: Seq<RowModel>, index: int) -> Seq<RowModel> {
    let rest = rows.remove(index);
    if rest.len() == 0 {
        seq![blank_row(Seq::empty())]
    } else {
        rest
    }
}

impl MappingRowForm {
    /// A row that says nothing but an address.
    pub fn with_address(address: &str) -> (r: Self)
        ensures
            r@ == blank_row(address@),
    {
        MappingRowForm {
            address: address.to_owned(),
            weight: "1.0".to_owned(),
            deadzone: "0.02".to_owned(),
            invert: false,
            curve: Curve::Linear,
            min: "0.0".to_owned(),
            max: "1.0".to_owned(),
        }
    }
}

impl Default for MappingRowForm {
    fn default() -> (r: Self)
        ensures
            r@ == blank_row(Seq::empty()),
    {
        let row = MappingRowForm::with_address("");
        proof {
            reveal_strlit("");
            assert(""@ =~= Seq::<char>::empty());
        }
        row
    }
}

/// A profile as it is entered.
#[derive(Debug, PartialEq, Eq)]
pub struct ProfileForm {
    pub name: String,
    pub creator_username: String,
    pub stream_key: String,
    pub website_base_url: String,
    pub allow_insecure_http: bool,
    pub osc_host: String,
    pub osc_port: String,
    pub allow_network_osc: bool,
    pub osc_allowed_senders: String,
    pub mappings: Vec<MappingRowForm>,
    pub forward_targets: String,
}

/// The model of `ProfileForm`.
#[verifier::ext_equal]
pub struct FormModel {
    pub name: Seq<char>,
    pub creator_username: Seq<char>,
    pub stream_key: Seq<char>,
    pub website_base_url: Seq<char>,
    pub allow_insecure_http: bool,
    pub osc_host: Seq<char>,
    pub osc_port: Seq<char>,
    pub allow_network_osc: bool,
    pub osc_allowed_senders: Seq<char>,
    pub mappings: Seq<RowModel>,
    pub forward_targets: Seq<char>,
}

impl View for ProfileForm {
    type V = FormModel;

    open spec fn view(&self) -> FormModel {
        FormModel {
            name: self.name@,
            creator_username: self.creator_username@,
            stream_key: self.stream_key@,
            website_base_url: self.website_base_url@,
            allow_insecure_http: self.allow_insecure_http,
            osc_host: self.osc_host@,
            osc_port: self.osc_port@,
            allow_network_osc: self.allow_network_osc,
            osc_allowed_senders: self.osc_allowed_senders@,
            mappings: model::views(self.mappings@),
            forward_targets: self.forward_targets@,
        }
    }
}

impl Duplicate for ProfileForm {
    fn duplicate(&self) -> (r: Self) {
        ProfileForm {
            name: self.name.clone(),
            creator_username: self.creator_username.clone(),
            stream_key: self.stream_key.clone(),
            website_base_url: self.website_base_url.clone(),
            allow_insecure_http: self.allow_insecure_http,
            osc_host: self.osc_host.clone(),
            osc_port: self.osc_port.clone(),
            allow_network_osc: self.allow_network_osc,
            osc_allowed_senders: self.osc_allowed_senders.clone(),
            mappings: model::copy_all(&self.mappings),
            forward_targets: self.forward_targets.clone(),
        }
    }
}

/// What a form starts with.
pub open spec fn blank_form() -> FormModel {
    FormModel {
        name: "Default"@,
        creator_username: Seq::empty(),
        stream_key: Seq::empty(),
        website_base_url: DEFAULT_WEBSITE@,
        allow_insecure_http: false,
        osc_host: "127.0.0.1"@,
        osc_port: "9001"@,
        allow_network_osc: false,
        osc_allowed_senders: Seq::empty(),
        mappings: Seq::empty(),
        forward_targets: "127.0.0.1:9000"@,
    }
}

impl Default for ProfileForm {
    fn default() -> (r: Self)
        ensures
            r@ == blank_form(),
    {
        let form = ProfileForm {
            name: "Default".to_owned(),
            creator_username: String::new(),
            stream_key: String::new(),
            website_base_url: DEFAULT_WEBSITE.to_owned(),
            allow_insecure_http: false,
            osc_host: "127.0.0.1".to_owned(),
            osc_port: "9001".to_owned(),
            allow_network_osc: false,
            osc_allowed_senders: String::new(),
            mappings: Vec::new(),
            forward_targets: "127.0.0.1:9000".to_owned(),
        };
        assert(form@ =~= blank_form());
        form
    }
}

/// The parts of a forward target: a host, and a port where one is written.
pub open spec fn target_parts(parts: Seq<Seq<char>>) -> Option<(Seq<char>, Seq<char>)> {
    let host = text::trimmed(parts[0]);
    if parts.len() == 2 && host.len() > 0 && text::trimmed(parts[1]).len() > 0 {
        Some((host, text::trimmed(parts[1])))
    } else {
        None
    }
}

/// Reads the parts of a forward target.
pub fn split_target(line: &str) -> (r: Option<(String, String)>)
    ensures
        match r {
            Some((host, port)) => target_parts(text::pieces(line@, seq![':'])) == Some(
                (host@, port@),
            ),
            None => target_parts(text::pieces(line@, seq![':'])) is None,
        },
{
    let separators = vec![':'];
    assert(separators@ =~= seq![':']);
    let parts = text::split(line, &separators);
    let ghost all = text::pieces(line@, seq![':']);
    assert(text::texts(parts@) == all);
    proof {
        text::lemma_pieces_nonempty(line@, seq![':']);
    }
    if parts.len() != 2 {
        return None;
    }
    assert(all[0] == parts@[0]@ && all[1] == parts@[1]@);
    let host = text::trim(parts[0].as_str());
    let port = text::trim(parts[1].as_str());
    if host.unicode_len() == 0 || port.unicode_len() == 0 {
        return None;
    }
    Some((host.to_owned(), port.to_owned()))
}

/// The forward target that a line writes, or what is wrong with it.
pub open spec fn target_of(line: Seq<char>) -> Result<ForwardTargetModel, Seq<char>> {
    let body = text::trimmed(line);
    if body.len() == 0 {
        Err("empty line"@)
    } else {
        match target_parts(text::pieces(body, seq![':'])) {
            None => Err("Invalid forward target '"@ + body + "', expected host:port"@),
            Some((host, digits)) => match text::unsigned_value(digits, 65_535) {
                Some(port) => if port == 0 {
                    Err("Invalid port in forward target '"@ + body + "'"@)
                } else {
                    Ok(ForwardTargetModel { host, port: port as u16 })
                },
                None => Err("Invalid port in forward target '"@ + body + "'"@),
            },
        }
    }
}

/// An outcome, with the characters of its message.
pub open spec fn outcome<T: View>(result: Result<T, String>) -> Result<T::V, Seq<char>> {
    match result {
        Ok(value) => Ok(value@),
        Err(message) => Err(message@),
    }
}

/// Reads a forward target.
pub fn parse_forward_target(line: &str) -> (r: Result<ForwardTarget, String>)
    ensures
        outcome(r) == target_of(line@),
{
    let body = text::trim(line);
    if body.unicode_len() == 0 {
        return Err("empty line".to_owned());
    }
    match split_target(body) {
        None => Err(text::concat3("Invalid forward target '", body, "', expected host:port")),
        Some((host, digits)) => match text::parse_unsigned(digits.as_str(), 65_535) {
            Some(port) => if port == 0 {
                Err(text::concat3("Invalid port in forward target '", body, "'"))
            } else {
                Ok(ForwardTarget { host, port: port as u16 })
            },
            None => Err(text::concat3("Invalid port in forward target '", body, "'")),
        },
    }
}

/// The forward targets that lines write, or what is wrong with the first that is wrong. Empty
/// lines are passed over.
pub open spec fn targets_of(lines: Seq<Seq<char>>) -> Result<Seq<ForwardTargetModel>, Seq<char>>
    decreases lines.len(),
{
    if lines.len() == 0 {
        Ok(Seq::empty())
    } else {
        match targets_of(lines.drop_last()) {
            Err(message) => Err(message),
            Ok(before) => if text::trimmed(lines.last()).len() == 0 {
                Ok(before)
            } else {
                match target_of(text::trimmed(lines.last())) {
                    Err(message) => Err(message),
                    Ok(target) => Ok(before.push(target)),
                }
            },
        }
    }
}

proof fn lemma_targets_fail(lines: Seq<Seq<char>>, n: int)
    requires
        0 <= n <= lines.len(),
        targets_of(lines.take(n)) is Err,
    ensures
        targets_of(lines) == targets_of(lines.take(n)),
    decreases lines.len(),
{
    if n < lines.len() {
        assert(lines.drop_last().take(n) =~= lines.take(n));
        lemma_targets_fail(lines.drop_last(), n);
    } else {
        assert(lines.take(n) =~= lines);
    }
}

/// An outcome that is a list.
pub open spec fn list_outcome<T: View>(result: Result<Vec<T>, String>) -> Result<
    Seq<T::V>,
    Seq<char>,
> {
    match result {
        Ok(list) => Ok(model::views(list@)),
        Err(message) => Err(message@),
    }
}

fn read_targets(raw: &str) -> (r: Result<Vec<ForwardTarget>, String>)
    ensures
        list_outcome(r) == targets_of(text::text_lines(raw@)),
{
    let lines = text::lines(raw);
    let ghost all = text::texts(lines@);
    let mut out: Vec<ForwardTarget> = Vec::new();
    let mut i: usize = 0;
    assert(all.take(0) =~= Seq::empty());
    assert(model::views(out@) =~= Seq::empty());
    while i < lines.len()
        invariant
            i <= lines@.len(),
            all == text::texts(lines@),
            all == text::text_lines(raw@),
            targets_of(all.take(i as int)) == Ok::<Seq<ForwardTargetModel>, Seq<char>>(
                model::views(out@),
            ),
        decreases lines@.len() - i,
    {
        assert(all.take(i + 1).drop_last() =~= all.take(i as int));
        assert(all.take(i + 1).last() == lines@[i as int]@);
        let line = text::trim(lines[i].as_str());
        if line.unicode_len() > 0 {
            match parse_forward_target(line) {
                Err(message) => {
                    proof {
                        lemma_targets_fail(all, i + 1);
                    }
                    return Err(message);
                },
                Ok(target) => {
                    proof {
                        model::lemma_views_push(out@, target);
                    }
                    out.push(target);
                },
            }
        }
        i += 1;
    }
    assert(all.take(i as int) =~= all);
    Ok(out)
}

/// The addresses that items write, in their canonical texts, each once, or what is wrong with the
/// first that is wrong: the message names its place, counted from one, and the item.
pub open spec fn sender_texts(
    items: Seq<Seq<char>>,
    before_place: Seq<char>,
    after_place: Seq<char>,
) -> Result<Seq<Seq<char>>, Seq<char>>
    decreases items.len(),
{
    if items.len() == 0 {
        Ok(Seq::empty())
    } else {
        match sender_texts(items.drop_last(), before_place, after_place) {
            Err(message) => Err(message),
            Ok(before) => {
                let item = text::trimmed(items.last());
                if item.len() == 0 {
                    Ok(before)
                } else {
                    match ip::ip_address(item) {
                        None => Err(
                            before_place + text::decimal_text(items.len()) + after_place + item
                                + "'"@,
                        ),
                        Some(address) => if before.contains(ip_text::ip_text(address)) {
                            Ok(before)
                        } else {
                            Ok(before.push(ip_text::ip_text(address)))
                        },
                    }
                }
            },
        }
    }
}

proof fn lemma_sender_texts_fail(
    items: Seq<Seq<char>>,
    before_place: Seq<char>,
    after_place: Seq<char>,
    n: int,
)
    requires
        0 <= n <= items.len(),
        sender_texts(items.take(n), before_place, after_place) is Err,
    ensures
        sender_texts(items, before_place, after_place) == sender_texts(
            items.take(n),
            before_place,
            after_place,
        ),
    decreases items.len(),
{
    if n < items.len() {
        assert(items.drop_last().take(n) =~= items.take(n));
        lemma_sender_texts_fail(items.drop_last(), before_place, after_place, n);
    } else {
        assert(items.take(n) =~= items);
    }
}

fn lists_text(list: &Vec<String>, item: &str) -> (r: bool)
    ensures
        r == text::texts(list@).contains(item@),
{
    let mut i: usize = 0;
    while i < list.len()
        invariant
            i <= list@.len(),
            forall|j: int| 0 <= j < i ==> list@[j]@ != item@,
        decreases list@.len() - i,
    {
        if text::same_text(list[i].as_str(), item) {
            assert(text::texts(list@)[i as int] == item@);
            return true;
        }
        i += 1;
    }
    assert forall|j: int| 0 <= j < text::texts(list@).len() implies text::texts(list@)[j]
        != item@ by {
        assert(text::texts(list@)[j] == list@[j]@);
    }
    false
}

/// The outcome of reading texts.
pub open spec fn texts_outcome(result: Result<Vec<String>, String>) -> Result<
    Seq<Seq<char>>,
    Seq<char>,
> {
    match result {
        Ok(list) => Ok(text::texts(list@)),
        Err(message) => Err(message@),
    }
}

/// Reads the addresses that items write.
pub fn read_senders(items: &Vec<String>, before_place: &str, after_place: &str) -> (r: Result<
    Vec<String>,
    String,
>)
    ensures
        texts_outcome(r) == sender_texts(text::texts(items@), before_place@, after_place@),
{
    let ghost all = text::texts(items@);
    let mut out: Vec<String> = Vec::new();
    let mut i: usize = 0;
    assert(all.take(0) =~= Seq::empty());
    assert(text::texts(out@) =~= Seq::empty());
    while i < items.len()
        invariant
            i <= items@.len(),
            all == text::texts(items@),
            sender_texts(all.take(i as int), before_place@, after_place@) == Ok::<
                Seq<Seq<char>>,
                Seq<char>,
            >(text::texts(out@)),
        decreases items@.len() - i,
    {
        assert(all.take(i + 1).drop_last() =~= all.take(i as int));
        assert(all.take(i + 1).last() == items@[i as int]@);
        let item = text::trim(items[i].as_str());
        if item.unicode_len() > 0 {
            match ip::parse_ip(item) {
                None => {
                    proof {
                        lemma_sender_texts_fail(all, before_place@, after_place@, i + 1);
                    }
                    let place = text::decimal(i as u64 + 1);
                    let mut message = text::concat3(before_place, place.as_str(), after_place);
                    message.append(item);
                    message.append("'");
                    return Err(message);
                },
                Some(address) => {
                    let canonical = ip_text::format_ip(address);
                    if !lists_text(&out, canonical.as_str()) {
                        proof {
                            text::lemma_texts_push(out@, canonical);
                        }
                        out.push(canonical);
                    }
                },
            }
        }
        i += 1;
    }
    assert(all.take(i as int) =~= all);
    Ok(out)
}

/// No address is listed twice.
pub proof fn law_sender_texts_distinct(
    items: Seq<Seq<char>>,
    before_place: Seq<char>,
    after_place: Seq<char>,
)
    ensures
        sender_texts(items, before_place, after_place) matches Ok(list) ==> list.no_duplicates(),
    decreases items.len(),
{
    if items.len() > 0 {
        law_sender_texts_distinct(items.drop_last(), before_place, after_place);
    }
}

/// The senders that lines write.
pub open spec fn allowed_senders(raw: Seq<char>) -> Result<Seq<Seq<char>>, Seq<char>> {
    sender_texts(
        text::text_lines(raw),
        "Allowed sender line "@,
        " is invalid IP address: '"@,
    )
}

/// Reads the senders that lines write.
pub fn parse_osc_allowed_senders(raw: &str) -> (r: Result<Vec<String>, String>)
    ensures
        texts_outcome(r) == allowed_senders(raw@),
{
    let lines = text::lines(raw);
    read_senders(&lines, "Allowed sender line ", " is invalid IP address: '")
}

/// The number that an entry of a row writes, or the default where it is empty, or what is wrong
/// with it. Rows are counted from one.
pub open spec fn entry_number(
    raw: Seq<char>,
    default: FloatBits,
    field: Seq<char>,
    row: nat,
) -> Result<FloatBits, Seq<char>> {
    if text::trimmed(raw).len() == 0 {
        Ok(default)
    } else {
        match float::float_reading(text::trimmed(raw)) {
            Some(bits) => Ok(float::number(bits)),
            None => Err(
                "Mapping "@ + text::decimal_text(row) + ": "@ + field + " must be a valid number"@,
            ),
        }
    }
}

/// What the reading of an entry comes to, given the number that its text denotes.
pub fn checked_entry(
    raw: &str,
    reading: Option<u64>,
    default: FloatBits,
    field: &str,
    row: usize,
) -> (r: Result<FloatBits, String>)
    ensures
        match r {
            Ok(number) => number == (if text::trimmed(raw@).len() == 0 {
                default
            } else {
                float::number(reading->0)
            }) && (text::trimmed(raw@).len() == 0 || reading is Some),
            Err(message) => text::trimmed(raw@).len() > 0 && reading is None && message@
                == "Mapping "@ + text::decimal_text(row as nat) + ": "@ + field@
                + " must be a valid number"@,
        },
{
    if text::trim(raw).unicode_len() == 0 {
        return Ok(default);
    }
    match reading {
        Some(bits) => Ok(float::from_bits(bits)),
        None => {
            let place = text::decimal(row as u64);
            let mut message = text::concat3("Mapping ", place.as_str(), ": ");
            message.append(field);
            message.append(" must be a valid number");
            Err(message)
        },
    }
}

/// The outcome of reading a number.
pub open spec fn number_outcome(result: Result<FloatBits, String>) -> Result<
    FloatBits,
    Seq<char>,
> {
    match result {
        Ok(number) => Ok(number),
        Err(message) => Err(message@),
    }
}

fn read_entry(raw: &str, default: FloatBits, field: &str, row: usize) -> (r: Result<
    FloatBits,
    String,
>)
    ensures
        number_outcome(r) == entry_number(raw@, default, field@, row as nat),
{
    let reading = float::read_float(text::trim(raw));
    checked_entry(raw, reading, default, field, row)
}

/// The mapping that a row writes: none where its address is empty, or what is wrong with it.
pub open spec fn row_mapping(row: RowModel, place: nat) -> Result<Option<MappingModel>, Seq<char>> {
    let address = text::trimmed(row.address);
    if address.len() == 0 {
        Ok(None)
    } else if !text::begins_with(address, '/') {
        Err("Mapping "@ + text::decimal_text(place) + ": address must start with '/'"@)
    } else {
        match entry_number(row.weight, float::number(float::ONE), "weight"@, place) {
            Err(message) => Err(message),
            Ok(weight) => match entry_number(
                row.deadzone,
                float::number(DEFAULT_DEADZONE),
                "deadzone"@,
                place,
            ) {
                Err(message) => Err(message),
                Ok(deadzone) => match entry_number(row.min, float::number(0), "min"@, place) {
                    Err(message) => Err(message),
                    Ok(min) => match entry_number(
                        row.max,
                        float::number(float::ONE),
                        "max"@,
                        place,
                    ) {
                        Err(message) => Err(message),
                        Ok(max) => match mapping::mapping_of(
                            address,
                            weight,
                            deadzone,
                            row.invert,
                            row.curve,
                            min,
                            max,
                        ) {
                            Some(made) => Ok(Some(made)),
                            None => Err(
                                "Mapping "@ + text::decimal_text(place) + ": invalid values"@,
                            ),
                        },
                    },
                },
            },
        }
    }
}

/// The outcome of reading a row.
pub open spec fn row_outcome(result: Result<Option<Mapping>, String>) -> Result<
    Option<MappingModel>,
    Seq<char>,
> {
    match result {
        Ok(made) => Ok(model::opt_view(made)),
        Err(message) => Err(message@),
    }
}

fn place_message(place: usize, what: &str) -> (r: String)
    ensures
        r@ == "Mapping "@ + text::decimal_text(place as nat) + what@,
{
    let digits = text::decimal(place as u64);
    text::concat3("Mapping ", digits.as_str(), what)
}

fn read_row(row: &MappingRowForm, place: usize) -> (r: Result<Option<Mapping>, String>)
    ensures
        row_outcome(r) == row_mapping(row@, place as nat),
{
    let address = text::trim(row.address.as_str());
    if address.unicode_len() == 0 {
        return Ok(None);
    }
    if !text::starts_with_char(address, '/') {
        return Err(place_message(place, ": address must start with '/'"));
    }
    let weight = match read_entry(
        row.weight.as_str(),
        float::from_bits(float::ONE),
        "weight",
        place,
    ) {
        Ok(number) => number,
        Err(message) => {
            return Err(message);
        },
    };
    let deadzone = match read_entry(
        row.deadzone.as_str(),
        float::from_bits(DEFAULT_DEADZONE),
        "deadzone",
        place,
    ) {
        Ok(number) => number,
        Err(message) => {
            return Err(message);
        },
    };
    let min = match read_entry(row.min.as_str(), float::from_bits(0), "min", place) {
        Ok(number) => number,
        Err(message) => {
            return Err(message);
        },
    };
    let max = match read_entry(row.max.as_str(), float::from_bits(float::ONE), "max", place) {
        Ok(number) => number,
        Err(message) => {
            return Err(message);
        },
    };
    match Mapping::new(address, weight, deadzone, row.invert, row.curve, min, max) {
        Some(made) => Ok(Some(made)),
        None => Err(place_message(place, ": invalid values")),
    }
}

/// The mappings that rows write, or what is wrong with the first that is wrong.
pub open spec fn row_mappings(rows: Seq<RowModel>) -> Result<Seq<MappingModel>, Seq<char>>
    decreases rows.len(),
{
    if rows.len() == 0 {
        Ok(Seq::empty())
    } else {
        match row_mappings(rows.drop_last()) {
            Err(message) => Err(message),
            Ok(before) => match row_mapping(rows.last(), rows.len()) {
                Err(message) => Err(message),
                Ok(Some(made)) => Ok(before.push(made)),
                Ok(None) => Ok(before),
            },
        }
    }
}

proof fn lemma_rows_fail(rows: Seq<RowModel>, n: int)
    requires
        0 <= n <= rows.len(),
        row_mappings(rows.take(n)) is Err,
    ensures
        row_mappings(rows) == row_mappings(rows.take(n)),
    decreases rows.len(),
{
    if n < rows.len() {
        assert(rows.drop_last().take(n) =~= rows.take(n));
        lemma_rows_fail(rows.drop_last(), n);
    } else {
        assert(rows.take(n) =~= rows);
    }
}

fn read_rows(rows: &Vec<MappingRowForm>) -> (r: Result<Vec<Mapping>, String>)
    ensures
        list_outcome(r) == row_mappings(model::views(rows@)),
{
    let ghost all = model::views(rows@);
    let mut out: Vec<Mapping> = Vec::new();
    let mut i: usize = 0;
    assert(all.take(0) =~= Seq::empty());
    assert(model::views(out@) =~= Seq::empty());
    while i < rows.len()
        invariant
            i <= rows@.len(),
            all == model::views(rows@),
            row_mappings(all.take(i as int)) == Ok::<Seq<MappingModel>, Seq<char>>(
                model::views(out@),
            ),
        decreases rows@.len() - i,
    {
        assert(all.take(i + 1).drop_last() =~= all.take(i as int));
        assert(all.take(i + 1).last() == rows@[i as int]@);
        assert(all.take(i + 1).len() == i + 1);
        match read_row(&rows[i], i + 1) {
            Err(message) => {
                proof {
                    lemma_rows_fail(all, i + 1);
                }
                return Err(message);
            },
            Ok(Some(made)) => {
                proof {
                    model::lemma_views_push(out@, made);
                }
                out.push(made);
            },
            Ok(None) => {},
        }
        i += 1;
    }
    assert(all.take(i as int) =~= all);
    Ok(out)
}

/// The text without its line ends.
pub open spec fn on_one_line(s: Seq<char>) -> Seq<char>
    decreases s.len(),
{
    if s.len() == 0 {
        Seq::empty()
    } else if s.last() == '\r' || s.last() == '\n' {
        on_one_line(s.drop_last())
    } else {
        on_one_line(s.drop_last()).push(s.last())
    }
}

/// The credential that was entered: on one line, without white space round it.
pub fn normalized_stream_key_input(entered: &str) -> (r: String)
    ensures
        r@ == text::trimmed(on_one_line(entered@)),
{
    let chars = text::chars_of(entered);
    let mut out = String::new();
    let mut i: usize = 0;
    assert(entered@.take(0) =~= Seq::empty());
    assert(out@ =~= Seq::empty());
    while i < chars.len()
        invariant
            i <= chars@.len(),
            chars@ == entered@,
            out@ == on_one_line(entered@.take(i as int)),
        decreases chars@.len() - i,
    {
        assert(entered@.take(i + 1).drop_last() =~= entered@.take(i as int));
        assert(entered@.take(i + 1).last() == entered@[i as int]);
        let c = chars[i];
        if c != '\r' && c != '\n' {
            out.push(c);
        }
        i += 1;
    }
    assert(entered@.take(i as int) =~= entered@);
    text::trim(out.as_str()).to_owned()
}

/// What is known of the credential that is kept for the profile in the form.
#[derive(Debug, PartialEq, Eq)]
pub enum KeptCredential {
    /// No profile is selected.
    NoProfile,
    /// The profile is not there.
    Missing,
    /// The profile could not be read.
    Failed(String),
    /// The profile was read, with its credential.
    Loaded(Option<String>),
}

/// The credential to save: the one that was entered, or else the one that is kept.
pub open spec fn credential_of(entered: Seq<char>, kept: KeptCredential) -> Result<
    Seq<char>,
    Seq<char>,
> {
    let input = text::trimmed(on_one_line(entered));
    if input.len() > 0 {
        Ok(input)
    } else {
        match kept {
            KeptCredential::NoProfile => Err("Stream key is required"@),
            KeptCredential::Missing => Err(
                "Selected profile could not be loaded. Refresh and try again."@,
            ),
            KeptCredential::Failed(message) => Err(
                "Failed to load existing credential: "@ + message@,
            ),
            KeptCredential::Loaded(None) => Err(
                "Stream key is required for this profile. Enter a key and verify the 'chars entered' indicator is greater than 0."@,
            ),
            KeptCredential::Loaded(Some(key)) => Ok(key@),
        }
    }
}

/// The outcome of looking for a credential.
pub open spec fn text_outcome(result: Result<String, String>) -> Result<Seq<char>, Seq<char>> {
    match result {
        Ok(found) => Ok(found@),
        Err(message) => Err(message@),
    }
}

/// The credential to save.
pub fn resolve_credential(entered: &str, kept: KeptCredential) -> (r: Result<String, String>)
    ensures
        text_outcome(r) == credential_of(entered@, kept),
{
    let input = normalized_stream_key_input(entered);
    if input.as_str().unicode_len() > 0 {
        return Ok(input);
    }
    match kept {
        KeptCredential::NoProfile => Err("Stream key is required".to_owned()),
        KeptCredential::Missing => Err(
            "Selected profile could not be loaded. Refresh and try again.".to_owned(),
        ),
        KeptCredential::Failed(message) => Err(
            text::concat2("Failed to load existing credential: ", message.as_str()),
        ),
        KeptCredential::Loaded(None) => Err(
            "Stream key is required for this profile. Enter a key and verify the 'chars entered' indicator is greater than 0.".to_owned(),
        ),
        KeptCredential::Loaded(Some(key)) => Ok(key),
    }
}

/// The configuration that a new profile has beyond what is entered for it.
pub open spec fn configuration(
    website_base_url: Seq<char>,
    creator_username: Seq<char>,
    allow_insecure_http: bool,
    osc_listen: OscListenModel,
    allow_network_osc: bool,
    osc_allowed_senders: Seq<Seq<char>>,
    forward_targets: Seq<ForwardTargetModel>,
    mappings: Seq<MappingModel>,
) -> InAppModel {
    InAppModel {
        website_base_url,
        creator_username,
        allow_insecure_http,
        osc_listen,
        allow_network_osc,
        osc_allowed_senders,
        relay: RelayPathsModel {
            session_path: "/api/sps/session"@,
            ingest_path: "/api/sps/ingest"@,
        },
        debug: DebugConfig {
            log_osc: false,
            log_unmapped_only: false,
            log_configured_only: false,
            log_relay: false,
        },
        discovery: DiscoveryModel {
            enabled: true,
            file_path: "data/osc-discovered.txt"@,
            include_arg_types: false,
        },
        forward_targets,
        mappings,
        output: smoothing::default_tuning(),
    }
}

/// Makes the configuration of a new profile.
pub fn new_configuration(
    website_base_url: String,
    creator_username: String,
    allow_insecure_http: bool,
    osc_listen: OscListen,
    allow_network_osc: bool,
    osc_allowed_senders: Vec<String>,
    forward_targets: Vec<ForwardTarget>,
    mappings: Vec<Mapping>,
) -> (r: InAppConfig)
    ensures
        r@ == configuration(
            website_base_url@,
            creator_username@,
            allow_insecure_http,
            osc_listen@,
            allow_network_osc,
            text::texts(osc_allowed_senders@),
            model::views(forward_targets@),
            model::views(mappings@),
        ),
{
    InAppConfig {
        website_base_url,
        creator_username,
        allow_insecure_http,
        osc_listen,
        allow_network_osc,
        osc_allowed_senders,
        relay: RelayPaths {
            session_path: "/api/sps/session".to_owned(),
            ingest_path: "/api/sps/ingest".to_owned(),
        },
        debug: DebugConfig {
            log_osc: false,
            log_unmapped_only: false,
            log_configured_only: false,
            log_relay: false,
        },
        discovery: DiscoveryConfig {
            enabled: true,
            file_path: "data/osc-discovered.txt".to_owned(),
            include_arg_types: false,
        },
        forward_targets,
        mappings,
        output: OutputTuning::default(),
    }
}

/// The port that an entry writes, or which of the two messages it is refused with.
pub open spec fn port_entry(raw: Seq<char>, no_number: Seq<char>, zero: Seq<char>) -> Result<
    u16,
    Seq<char>,
> {
    match text::unsigned_value(text::trimmed(raw), 65_535) {
        None => Err(no_number),
        Some(port) => if port == 0 {
            Err(zero)
        } else {
            Ok(port as u16)
        },
    }
}

fn read_port(raw: &str, no_number: &str, zero: &str) -> (r: Result<u16, String>)
    ensures
        match r {
            Ok(port) => port_entry(raw@, no_number@, zero@) == Ok::<u16, Seq<char>>(port),
            Err(message) => port_entry(raw@, no_number@, zero@) == Err::<u16, Seq<char>>(message@),
        },
{
    match text::parse_unsigned(text::trim(raw), 65_535) {
        None => Err(no_number.to_owned()),
        Some(port) => if port == 0 {
            Err(zero.to_owned())
        } else {
            Ok(port as u16)
        },
    }
}

/// The profile and the credential that a form writes, or the first thing that is wrong with it.
pub open spec fn form_profile(
    form: FormModel,
    selected: Option<Seq<char>>,
    kept: KeptCredential,
) -> Result<(ProfileModel, Seq<char>), Seq<char>> {
    let name = text::trimmed(form.name);
    let creator = text::trimmed(form.creator_username);
    if name.len() == 0 {
        Err("Profile name is required"@)
    } else if creator.len() == 0 {
        Err("Creator username is required"@)
    } else {
        match port_entry(
            form.osc_port,
            "OSC port must be a valid integer"@,
            "OSC port must be > 0"@,
        ) {
            Err(message) => Err(message),
            Ok(port) => match row_mappings(form.mappings) {
                Err(message) => Err(message),
                Ok(mappings) => match targets_of(text::text_lines(form.forward_targets)) {
                    Err(message) => Err(message),
                    Ok(targets) => match allowed_senders(form.osc_allowed_senders) {
                        Err(message) => Err(message),
                        Ok(senders) => match credential_of(form.stream_key, kept) {
                            Err(message) => Err(message),
                            Ok(key) => Ok(
                                (
                                    ProfileModel {
                                        id: match selected {
                                            Some(id) => id,
                                            None => "default"@,
                                        },
                                        name,
                                        config: configuration(
                                            text::trimmed(form.website_base_url),
                                            creator,
                                            form.allow_insecure_http,
                                            OscListenModel {
                                                host: text::trimmed(form.osc_host),
                                                port,
                                            },
                                            form.allow_network_osc,
                                            senders,
                                            targets,
                                            mappings,
                                        ),
                                    },
                                    key,
                                ),
                            ),
                        },
                    },
                },
            },
        }
    }
}

/// The outcome of reading a form.
pub open spec fn form_outcome(result: Result<(AppProfile, String), String>) -> Result<
    (ProfileModel, Seq<char>),
    Seq<char>,
> {
    match result {
        Ok((profile, key)) => Ok((profile@, key@)),
        Err(message) => Err(message@),
    }
}

/// Reads a form.
pub fn build_profile_from_form(
    form: &ProfileForm,
    selected: &Option<String>,
    kept: KeptCredential,
) -> (r: Result<(AppProfile, String), String>)
    ensures
        form_outcome(r) == form_profile(form@, model::opt_text(*selected), kept),
{
    let name = text::trim(form.name.as_str());
    if name.unicode_len() == 0 {
        return Err("Profile name is required".to_owned());
    }
    let creator = text::trim(form.creator_username.as_str());
    if creator.unicode_len() == 0 {
        return Err("Creator username is required".to_owned());
    }
    let port: u16 = match read_port(
        form.osc_port.as_str(),
        "OSC port must be a valid integer",
        "OSC port must be > 0",
    ) {
        Ok(port) => port,
        Err(message) => {
            return Err(message);
        },
    };
    let mappings = match read_rows(&form.mappings) {
        Ok(list) => list,
        Err(message) => {
            return Err(message);
        },
    };
    let targets = match read_targets(form.forward_targets.as_str()) {
        Ok(list) => list,
        Err(message) => {
            return Err(message);
        },
    };
    let senders = match parse_osc_allowed_senders(form.osc_allowed_senders.as_str()) {
        Ok(list) => list,
        Err(message) => {
            return Err(message);
        },
    };
    let key = match resolve_credential(form.stream_key.as_str(), kept) {
        Ok(key) => key,
        Err(message) => {
            return Err(message);
        },
    };
    let id = match selected {
        Some(id) => id.clone(),
        None => "default".to_owned(),
    };
    let config = new_configuration(
        text::trim(form.website_base_url.as_str()).to_owned(),
        creator.to_owned(),
        form.allow_insecure_http,
        OscListen { host: text::trim(form.osc_host.as_str()).to_owned(), port },
        form.allow_network_osc,
        senders,
        targets,
        mappings,
    );
    Ok((AppProfile { id, name: name.to_owned(), config }, key))
}

/// The address that a parameter is mapped at.
pub open spec fn parameter_address(key: Seq<char>) -> Seq<char> {
    if text::begins_with(key, '/') {
        key
    } else {
        runtime::param_prefix() + key
    }
}

/// The address that a parameter is mapped at.
pub fn mapping_address_for_param_key(key: &str) -> (r: String)
    ensures
        r@ == parameter_address(key@),
{
    if text::starts_with_char(key, '/') {
        key.to_owned()
    } else {
        text::concat2("/avatar/parameters/", key)
    }
}

/// A row maps an address.
pub open spec fn row_at(row: RowModel, address: Seq<char>) -> bool {
    text::trimmed(row.address) == address
}

/// Some row maps a parameter.
pub open spec fn maps_parameter(rows: Seq<RowModel>, key: Seq<char>) -> bool {
    exists|i: int| 0 <= i < rows.len() && row_at(#[trigger] rows[i], parameter_address(key))
}

/// The rows that do not map an address.
pub open spec fn rows_elsewhere(rows: Seq<RowModel>, address: Seq<char>) -> Seq<RowModel>
    decreases rows.len(),
{
    if rows.len() == 0 {
        Seq::empty()
    } else {
        let before = rows_elsewhere(rows.drop_last(), address);
        if row_at(rows.last(), address) {
            before
        } else {
            before.push(rows.last())
        }
    }
}

/// The rows after a parameter was mapped: a row at its end, unless one maps it already.
pub open spec fn rows_with(rows: Seq<RowModel>, key: Seq<char>) -> Seq<RowModel> {
    if maps_parameter(rows, key) {
        rows
    } else {
        rows.push(blank_row(parameter_address(key)))
    }
}

impl ProfileForm {
    /// Whether some row maps a parameter.
    pub fn has_mapping_for_param_key(&self, key: &str) -> (r: bool)
        ensures
            r == maps_parameter(self@.mappings, key@),
    {
        let address = mapping_address_for_param_key(key);
        let mut i: usize = 0;
        while i < self.mappings.len()
            invariant
                i <= self.mappings@.len(),
                address@ == parameter_address(key@),
                forall|j: int| 0 <= j < i ==> !row_at(#[trigger] self@.mappings[j], address@),
            decreases self.mappings@.len() - i,
        {
            assert(self@.mappings[i as int] == self.mappings@[i as int]@);
            if text::same_text(text::trim(self.mappings[i].address.as_str()), address.as_str()) {
                assert(row_at(self@.mappings[i as int], parameter_address(key@)));
                return true;
            }
            i += 1;
        }
        false
    }

    /// Adds a row for a parameter, unless one maps it already. Tells whether it did.
    pub fn add_default_mapping_for_param_key(&mut self, key: &str) -> (r: bool)
        ensures
            r == !maps_parameter(old(self)@.mappings, key@),
            final(self)@ == (FormModel {
                mappings: rows_with(old(self)@.mappings, key@),
                ..old(self)@
            }),
    {
        if self.has_mapping_for_param_key(key) {
            assert(self@ =~= (FormModel {
                mappings: rows_with(old(self)@.mappings, key@),
                ..old(self)@
            }));
            return false;
        }
        let address = mapping_address_for_param_key(key);
        let row = MappingRowForm::with_address(address.as_str());
        proof {
            model::lemma_views_push(self.mappings@, row);
        }
        self.mappings.push(row);
        assert(self@ =~= (FormModel {
            mappings: rows_with(old(self)@.mappings, key@),
            ..old(self)@
        }));
        true
    }

    /// Removes the rows that map a parameter, and tells how many there were.
    pub fn remove_mappings_for_param_key(&mut self, key: &str) -> (r: usize)
        ensures
            final(self)@ == (FormModel {
                mappings: rows_elsewhere(old(self)@.mappings, parameter_address(key@)),
                ..old(self)@
            }),
            r == old(self)@.mappings.len() - final(self)@.mappings.len(),
    {
        let address = mapping_address_for_param_key(key);
        let ghost all = self@.mappings;
        let mut kept: Vec<MappingRowForm> = Vec::new();
        let mut removed: usize = 0;
        let mut i: usize = 0;
        assert(all.take(0) =~= Seq::empty());
        assert(model::views(kept@) =~= Seq::empty());
        while i < self.mappings.len()
            invariant
                i <= self.mappings@.len(),
                *self == *old(self),
                all == model::views(self.mappings@),
                address@ == parameter_address(key@),
                model::views(kept@) == rows_elsewhere(all.take(i as int), address@),
                removed + kept@.len() == i,
            decreases self.mappings@.len() - i,
        {
            assert(all.take(i + 1).drop_last() =~= all.take(i as int));
            assert(all.take(i + 1).last() == self.mappings@[i as int]@);
            if text::same_text(text::trim(self.mappings[i].address.as_str()), address.as_str()) {
                removed += 1;
            } else {
                let row = self.mappings[i].duplicate();
                proof {
                    model::lemma_views_push(kept@, row);
                }
                kept.push(row);
            }
            i += 1;
        }
        assert(all.take(i as int) =~= all);
        self.mappings = kept;
        assert(self@ =~= (FormModel {
            mappings: rows_elsewhere(old(self)@.mappings, parameter_address(key@)),
            ..old(self)@
        }));
        removed
    }

    /// Removes a row of the list on the page of profiles, which always shows one.
    pub fn drop_row(&mut self, index: usize)
        requires
            index < old(self).mappings@.len(),
        ensures
            final(self)@ == (FormModel {
                mappings: rows_without(old(self)@.mappings, index as int),
                ..old(self)@
            }),
    {
        let ghost rest = self@.mappings.remove(index as int);
        let _ = self.mappings.remove(index);
        assert(model::views(self.mappings@) =~= rest);
        if self.mappings.len() == 0 {
            self.mappings.push(MappingRowForm::default());
            assert(model::views(self.mappings@) =~= seq![blank_row(Seq::empty())]);
        }
        assert(self@ =~= (FormModel {
            mappings: rows_without(old(self)@.mappings, index as int),
            ..old(self)@
        }));
    }
}

/// What was removed is no longer mapped, and nothing else is lost.
pub proof fn law_removed_mapping(rows: Seq<RowModel>, key: Seq<char>)
    ensures
        !maps_parameter(rows_elsewhere(rows, parameter_address(key)), key),
        forall|i: int|
            0 <= i < rows.len() && !row_at(#[trigger] rows[i], parameter_address(key))
                ==> rows_elsewhere(rows, parameter_address(key)).contains(rows[i]),
    decreases rows.len(),
{
    if rows.len() > 0 {
        let address = parameter_address(key);
        let shorter = rows.drop_last();
        law_removed_mapping(shorter, key);
        let before = rows_elsewhere(shorter, address);
        let kept = rows_elsewhere(rows, address);
        assert forall|i: int| 0 <= i < kept.len() implies !row_at(#[trigger] kept[i], address) by {
            if i < before.len() {
                assert(kept[i] == before[i]);
            }
        }
        assert forall|i: int|
            0 <= i < rows.len() && !row_at(#[trigger] rows[i], address) implies kept.contains(
            rows[i],
        ) by {
            if i < shorter.len() {
                assert(shorter[i] == rows[i]);
                let k = choose|k: int| 0 <= k < before.len() && before[k] == rows[i];
                assert(kept[k] == rows[i]);
            } else {
                assert(kept[before.len() as int] == rows[i]);
            }
        }
    }
}

/// What was added is mapped, and adding it again changes nothing.
pub proof fn law_added_mapping(rows: Seq<RowModel>, key: Seq<char>)
    requires
        text::trimmed(parameter_address(key)) == parameter_address(key),
    ensures
        maps_parameter(rows_with(rows, key), key),
        rows_with(rows_with(rows, key), key) == rows_with(rows, key),
{
    if !maps_parameter(rows, key) {
        let more = rows_with(rows, key);
        assert(row_at(more[rows.len() as int], parameter_address(key)));
    }
}

/// The device server as it is entered.
#[derive(Debug, PartialEq, Eq)]
pub struct IntifaceForm {
    pub host: String,
    pub port: String,
    pub secure: bool,
}

/// The model of `IntifaceForm`.
#[verifier::ext_equal]
pub struct IntifaceFormModel {
    pub host: Seq<char>,
    pub port: Seq<char>,
    pub secure: bool,
}

impl View for IntifaceForm {
    type V = IntifaceFormModel;

    open spec fn view(&self) -> IntifaceFormModel {
        IntifaceFormModel {
            host: self.host@,
            port: self.port@,
            secure: self.secure,
        }
    }
}

impl Duplicate for IntifaceForm {
    fn duplicate(&self) -> (r: Self) {
        IntifaceForm {
            host: self.host.clone(),
            port: self.port.clone(),
            secure: self.secure,
        }
    }
}

impl Default for IntifaceForm {
    fn default() -> (r: Self)
        ensures
            r@ == (IntifaceFormModel { host: "127.0.0.1"@, port: "12345"@, secure: false }),
    {
        IntifaceForm { host: "127.0.0.1".to_owned(), port: "12345".to_owned(), secure: false }
    }
}

/// The device server that a form writes, or what is wrong with it.
pub open spec fn form_server(form: IntifaceFormModel) -> Result<IntifaceConfigModel, Seq<char>> {
    let host = text::trimmed(form.host);
    if host.len() == 0 {
        Err("Intiface host is required"@)
    } else {
        match port_entry(
            form.port,
            "Intiface port must be a valid integer"@,
            "Intiface port must be > 0"@,
        ) {
            Err(message) => Err(message),
            Ok(port) => Ok(IntifaceConfigModel { host, port, secure: form.secure }),
        }
    }
}

/// Reads the device server from a form.
pub fn parse_intiface_config(form: &IntifaceForm) -> (r: Result<IntifaceConfig, String>)
    ensures
        outcome(r) == form_server(form@),
{
    let host = text::trim(form.host.as_str());
    if host.unicode_len() == 0 {
        return Err("Intiface host is required".to_owned());
    }
    match read_port(
        form.port.as_str(),
        "Intiface port must be a valid integer",
        "Intiface port must be > 0",
    ) {
        Err(message) => Err(message),
        Ok(port) => Ok(IntifaceConfig { host: host.to_owned(), port, secure: form.secure }),
    }
}

/// What a route takes its values from.
#[derive(Debug, Clone, Copy, PartialEq, Eq, Structural)]
pub enum IntifaceSourceMode {
    Intensity,
    AvatarParam,
}

/// A route as it is entered.
#[derive(Debug, PartialEq, Eq)]
pub struct IntifaceRouteForm {
    pub enabled: bool,
    pub label: String,
    pub target_device_contains: String,
    pub target_actuator_type: String,
    pub source_mode: IntifaceSourceMode,
    pub source_param: String,
    pub scale: FloatBits,
    pub idle: FloatBits,
    pub min_output: FloatBits,
    pub max_output: FloatBits,
    pub invert: bool,
}

/// The model of `IntifaceRouteForm`.
#[verifier::ext_equal]
pub struct RouteFormModel {
    pub enabled: bool,
    pub label: Seq<char>,
    pub target_device_contains: Seq<char>,
    pub target_actuator_type: Seq<char>,
    pub source_mode: IntifaceSourceMode,
    pub source_param: Seq<char>,
    pub scale: FloatBits,
    pub idle: FloatBits,
    pub min_output: FloatBits,
    pub max_output: FloatBits,
    pub invert: bool,
}

impl View for IntifaceRouteForm {
    type V = RouteFormModel;

    open spec fn view(&self) -> RouteFormModel {
        RouteFormModel {
            enabled: self.enabled,
            label: self.label@,
            target_device_contains: self.target_device_contains@,
            target_actuator_type: self.target_actuator_type@,
            source_mode: self.source_mode,
            source_param: self.source_param@,
            scale: self.scale,
            idle: self.idle,
            min_output: self.min_output,
            max_output: self.max_output,
            invert: self.invert,
        }
    }
}

impl Duplicate for IntifaceRouteForm {
    fn duplicate(&self) -> (r: Self) {
        IntifaceRouteForm {
            enabled: self.enabled,
            label: self.label.clone(),
            target_device_contains: self.target_device_contains.clone(),
            target_actuator_type: self.target_actuator_type.clone(),
            source_mode: self.source_mode,
            source_param: self.source_param.clone(),
            scale: self.scale,
            idle: self.idle,
            min_output: self.min_output,
            max_output: self.max_output,
            invert: self.invert,
        }
    }
}

/// The route that a form starts with.
pub open spec fn blank_route() -> RouteFormModel {
    RouteFormModel {
        enabled: true,
        label: "All Scalar <- Intensity"@,
        target_device_contains: Seq::empty(),
        target_actuator_type: Seq::empty(),
        source_mode: IntifaceSourceMode::Intensity,
        source_param: "SPS_Contact"@,
        scale: float::number(float::ONE),
        idle: float::number(0),
        min_output: float::number(0),
        max_output: float::number(float::ONE),
        invert: false,
    }
}

impl Default for IntifaceRouteForm {
    fn default() -> (r: Self)
        ensures
            r@ == blank_route(),
    {
        let route = IntifaceRouteForm {
            enabled: true,
            label: "All Scalar <- Intensity".to_owned(),
            target_device_contains: String::new(),
            target_actuator_type: String::new(),
            source_mode: IntifaceSourceMode::Intensity,
            source_param: "SPS_Contact".to_owned(),
            scale: float::from_bits(float::ONE),
            idle: float::from_bits(0),
            min_output: float::from_bits(0),
            max_output: float::from_bits(float::ONE),
            invert: false,
        };
        assert(route@ =~= blank_route());
        route
    }
}

/// The rule that an entered route stands for.
pub open spec fn form_rule(route: RouteFormModel) -> RouteModel {
    RouteModel {
        enabled: route.enabled,
        label: route.label,
        target_device_contains: route.target_device_contains,
        target_actuator_type: route.target_actuator_type,
        source: match route.source_mode {
            IntifaceSourceMode::Intensity => SourceKindModel::Intensity,
            IntifaceSourceMode::AvatarParam => SourceKindModel::AvatarParam(route.source_param),
        },
        scale: route.scale,
        idle: route.idle,
        min_output: route.min_output,
        max_output: route.max_output,
        invert: route.invert,
    }
}

/// The rules that entered routes stand for.
pub fn build_intiface_route_rules(routes: &Vec<IntifaceRouteForm>) -> (r: Vec<IntifaceRouteRule>)
    ensures
        r@.len() == routes@.len(),
        forall|i: int| 0 <= i < routes@.len() ==> (#[trigger] r@[i])@ == form_rule(routes@[i]@),
{
    let mut out: Vec<IntifaceRouteRule> = Vec::new();
    let mut i: usize = 0;
    while i < routes.len()
        invariant
            i <= routes@.len(),
            out@.len() == i,
            forall|j: int| 0 <= j < i ==> (#[trigger] out@[j])@ == form_rule(routes@[j]@),
        decreases routes@.len() - i,
    {
        let route = &routes[i];
        let source = match route.source_mode {
            IntifaceSourceMode::Intensity => IntifaceSourceKind::Intensity,
            IntifaceSourceMode::AvatarParam => IntifaceSourceKind::AvatarParam(
                route.source_param.clone(),
            ),
        };
        out.push(
            IntifaceRouteRule {
                enabled: route.enabled,
                label: route.label.clone(),
                target_device_contains: route.target_device_contains.clone(),
                target_actuator_type: route.target_actuator_type.clone(),
                source,
                scale: route.scale,
                idle: route.idle,
                min_output: route.min_output,
                max_output: route.max_output,
                invert: route.invert,
            },
        );
        i += 1;
    }
    out
}

/// The lines that targets are entered as.
pub open spec fn target_lines(targets: Seq<ForwardTargetModel>) -> Seq<Seq<char>> {
    Seq::new(
        targets.len(),
        |i: int| targets[i].host + ":"@ + text::decimal_text(targets[i].port as nat),
    )
}

fn write_targets(targets: &Vec<ForwardTarget>) -> (r: String)
    ensures
        r@ == text::joined(target_lines(model::views(targets@)), "\n"@),
{
    let ghost wanted = target_lines(model::views(targets@));
    let mut out: Vec<String> = Vec::new();
    let mut i: usize = 0;
    assert(text::texts(out@) =~= wanted.take(0));
    while i < targets.len()
        invariant
            i <= targets@.len(),
            wanted == target_lines(model::views(targets@)),
            text::texts(out@) == wanted.take(i as int),
        decreases targets@.len() - i,
    {
        let digits = text::decimal(targets[i].port as u64);
        let line = text::concat3(targets[i].host.as_str(), ":", digits.as_str());
        proof {
            text::lemma_texts_push(out@, line);
        }
        out.push(line);
        i += 1;
        assert(text::texts(out@) =~= wanted.take(i as int));
    }
    assert(wanted.take(i as int) =~= wanted);
    text::join(&out, "\n")
}

/// The form that shows a profile, with the rows that show its mappings. The credential is not
/// shown.
pub open spec fn shown_profile(profile: ProfileModel, rows: Seq<RowModel>) -> FormModel {
    FormModel {
        name: profile.name,
        creator_username: profile.config.creator_username,
        stream_key: Seq::empty(),
        website_base_url: profile.config.website_base_url,
        allow_insecure_http: profile.config.allow_insecure_http,
        osc_host: profile.config.osc_listen.host,
        osc_port: text::decimal_text(profile.config.osc_listen.port as nat),
        allow_network_osc: profile.config.allow_network_osc,
        osc_allowed_senders: text::joined(profile.config.osc_allowed_senders, "\n"@),
        mappings: rows,
        forward_targets: text::joined(target_lines(profile.config.forward_targets), "\n"@),
    }
}

/// Shows a profile in a form.
pub fn load_profile_into_form(profile: &AppProfile, rows: Vec<MappingRowForm>) -> (r: ProfileForm)
    ensures
        r@ == shown_profile(profile@, model::views(rows@)),
{
    let form = ProfileForm {
        name: profile.name.clone(),
        creator_username: profile.config.creator_username.clone(),
        stream_key: String::new(),
        website_base_url: profile.config.website_base_url.clone(),
        allow_insecure_http: profile.config.allow_insecure_http,
        osc_host: profile.config.osc_listen.host.clone(),
        osc_port: text::decimal(profile.config.osc_listen.port as u64),
        allow_network_osc: profile.config.allow_network_osc,
        osc_allowed_senders: text::join(&profile.config.osc_allowed_senders, "\n"),
        mappings: rows,
        forward_targets: write_targets(&profile.config.forward_targets),
    };
    assert(form@ =~= shown_profile(profile@, model::views(rows@)));
    form
}

} // verus!
