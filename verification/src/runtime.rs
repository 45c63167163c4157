//! What the bridge keeps while it runs: its log, the avatar parameters that it saw, and how long it
//! leaves the relay alone after an error.
use vstd::prelude::*;
use vstd::string::*;
use vstd::utf8::*;
use crate::config::{NormalizedConfig, NormalizedModel};
use crate::float::FloatBits;
use crate::mapping::{Mapping, MappingModel};
use crate::model;
use crate::model::Duplicate;
use crate::osc;
use crate::osc::{ArgModel, MessageModel, OscArg, OscMessage};
use crate::relay::{ErrorModel, RelayError};
use crate::text;

verus! {

/// How many log lines are kept.
pub const LOG_HISTORY_LIMIT: usize = 1000;

/// How many avatar parameters are kept.
pub const AVATAR_PARAM_HISTORY_LIMIT: usize = 4096;

/// How many discovery entries are kept.
pub const DISCOVERY_ENTRY_MAX: usize = 5000;

/// How long a discovery entry may be, in bytes.
pub const DISCOVERY_ENTRY_MAX_LEN: usize = 256;

pub const RELAY_RETRY_BASE_MS: i64 = 1200;
pub const RELAY_RETRY_MAX_MS: i64 = 45_000;
pub const RELAY_AUTH_RETRY_BASE_MS: i64 = 4_000;
pub const RELAY_AUTH_RETRY_MAX_MS: i64 = 120_000;
pub const RELAY_THROTTLE_RETRY_BASE_MS: i64 = 8_000;
pub const RELAY_THROTTLE_RETRY_MAX_MS: i64 = 180_000;

/// A line of the log.
#[derive(Debug, PartialEq, Eq)]
pub struct RuntimeLogLine {
    pub ts_ms: i64,
    pub level: String,
    pub message: String,
}

/// The model of `RuntimeLogLine`.
#[verifier::ext_equal]
pub struct LogLineModel {
    pub ts_ms: i64,
    pub level: Seq<char>,
    pub message: Seq<char>,
}

impl View for RuntimeLogLine {
    type V = LogLineModel;

    open spec fn view(&self) -> LogLineModel {
        LogLineModel {
            ts_ms: self.ts_ms,
            level: self.level@,
            message: self.message@,
        }
    }
}

impl Duplicate for RuntimeLogLine {
    fn duplicate(&self) -> (r: Self) {
        RuntimeLogLine {
            ts_ms: self.ts_ms,
            level: self.level.clone(),
            message: self.message.clone(),
        }
    }
}

/// The last items of a list, `n` at most.
pub open spec fn last_items<T>(items: Seq<T>, n: int) -> Seq<T> {
    if items.len() > n {
        items.skip(items.len() - n)
    } else {
        items
    }
}

/// The log: its last lines, oldest first.
#[derive(Debug, PartialEq, Eq)]
pub struct LogHistory {
    lines: Vec<RuntimeLogLine>,
}

impl View for LogHistory {
    type V = Seq<LogLineModel>;

    closed spec fn view(&self) -> Seq<LogLineModel> {
        model::views(self.lines@)
    }
}

impl LogHistory {
    #[verifier::type_invariant]
    spec fn bounded(&self) -> bool {
        self.lines@.len() <= LOG_HISTORY_LIMIT
    }

    /// An empty log.
    pub fn new() -> (r: Self)
        ensures
            r@ == Seq::<LogLineModel>::empty(),
    {
        let log = LogHistory { lines: Vec::new() };
        assert(log@ =~= Seq::empty());
        log
    }

    /// Adds a line, and drops the oldest where there are too many.
    pub fn push(&mut self, ts_ms: i64, level: &str, message: &str)
        ensures
            final(self)@ == last_items(
                old(self)@.push(LogLineModel { ts_ms, level: level@, message: message@ }),
                LOG_HISTORY_LIMIT as int,
            ),
            final(self)@.len() <= LOG_HISTORY_LIMIT,
    {
        proof {
            use_type_invariant(&*self);
        }
        let line = RuntimeLogLine {
            ts_ms,
            level: level.to_owned(),
            message: message.to_owned(),
        };
        let mut lines: Vec<RuntimeLogLine> = Vec::new();
        std::mem::swap(&mut lines, &mut self.lines);
        proof {
            model::lemma_views_push(lines@, line);
        }
        lines.push(line);
        let ghost all = model::views(lines@);
        if lines.len() > LOG_HISTORY_LIMIT {
            lines.remove(0);
            assert(model::views(lines@) =~= all.skip(1));
        }
        self.lines = lines;
    }

    /// The last lines, `max_lines` at most, oldest first.
    pub fn recent_logs(&self, max_lines: usize) -> (r: Vec<RuntimeLogLine>)
        ensures
            model::views(r@) == last_items(self@, max_lines as int),
    {
        let len: usize = self.lines.len();
        let start: usize = if len > max_lines {
            len - max_lines
        } else {
            0
        };
        let ghost wanted = last_items(self@, max_lines as int);
        assert(self@.skip(0) =~= self@);
        assert(wanted == self@.skip(start as int));
        let mut out: Vec<RuntimeLogLine> = Vec::new();
        let mut i: usize = start;
        assert(model::views(out@) =~= wanted.take(0));
        while i < len
            invariant
                start <= i <= len,
                len == self.lines@.len(),
                self@ == model::views(self.lines@),
                wanted == self@.skip(start as int),
                model::views(out@) == wanted.take(i - start),
            decreases len - i,
        {
            let line = self.lines[i].duplicate();
            proof {
                model::lemma_views_push(out@, line);
            }
            out.push(line);
            i += 1;
            assert(model::views(out@) =~= wanted.take(i - start));
        }
        assert(wanted.take(i - start) =~= wanted);
        out
    }
}

/// The delay that doubles with each attempt: `base` for the first, never below it and never
/// above `max` unless `base` is.
pub open spec fn backoff(base: int, max: int, attempts: nat) -> int {
    let doublings = if attempts == 0 {
        0
    } else if attempts > 11 {
        10
    } else {
        (attempts - 1) as nat
    };
    let delay = base * vstd::arithmetic::power2::pow2(doublings as nat);
    let capped = if delay < max {
        delay
    } else {
        max
    };
    if capped > base {
        capped
    } else {
        base
    }
}

/// Computes the delay before the next attempt.
pub fn exponential_backoff_ms(base_ms: i64, max_ms: i64, attempts: u32) -> (r: i64)
    ensures
        r == backoff(base_ms as int, max_ms as int, attempts as nat),
{
    let capped: u32 = if attempts == 0 {
        0
    } else if attempts > 11 {
        10
    } else {
        attempts - 1
    };
    let mut factor: i128 = 1;
    let mut k: u32 = 0;
    proof {
        vstd::arithmetic::power2::lemma2_to64();
    }
    while k < capped
        invariant
            k <= capped <= 10,
            factor == vstd::arithmetic::power2::pow2(k as nat),
            1 <= factor <= 1024,
        decreases capped - k,
    {
        proof {
            vstd::arithmetic::power2::lemma_pow2_unfold((k + 1) as nat);
            vstd::arithmetic::power2::lemma2_to64();
            if k + 1 < 10 {
                vstd::arithmetic::power2::lemma_pow2_strictly_increases((k + 1) as nat, 10);
            }
        }
        factor = factor * 2;
        k += 1;
    }
    if base_ms < 0 {
        assert(base_ms * factor <= base_ms) by (nonlinear_arith)
            requires
                base_ms < 0,
                1 <= factor,
        ;
        return base_ms;
    }
    assert(0 <= base_ms * factor <= 0x7FFF_FFFF_FFFF_FFFF * 1024) by (nonlinear_arith)
        requires
            0 <= base_ms <= 0x7FFF_FFFF_FFFF_FFFF,
            1 <= factor <= 1024,
    ;
    let delay: i128 = base_ms as i128 * factor;
    let capped_delay: i64 = if delay < max_ms as i128 {
        delay as i64
    } else {
        max_ms
    };
    if capped_delay > base_ms {
        capped_delay
    } else {
        base_ms
    }
}

/// The delay after an error, by how often it was tried in a row.
pub open spec fn retry_delay(error: ErrorModel, attempts: nat) -> int {
    match error {
        ErrorModel::Throttled => backoff(
            RELAY_THROTTLE_RETRY_BASE_MS as int,
            RELAY_THROTTLE_RETRY_MAX_MS as int,
            attempts,
        ),
        ErrorModel::RelayTokenRejected => backoff(
            RELAY_AUTH_RETRY_BASE_MS as int,
            RELAY_AUTH_RETRY_MAX_MS as int,
            attempts,
        ),
        ErrorModel::SessionAuthFailed(_) => backoff(
            RELAY_AUTH_RETRY_BASE_MS as int,
            RELAY_AUTH_RETRY_MAX_MS as int,
            attempts,
        ),
        ErrorModel::StreamOfflineOrRotated => backoff(
            RELAY_AUTH_RETRY_BASE_MS as int,
            RELAY_AUTH_RETRY_MAX_MS as int,
            attempts,
        ),
        ErrorModel::TimestampRejectedResynced => 500,
        ErrorModel::Transport(_) => backoff(
            RELAY_RETRY_BASE_MS as int,
            RELAY_RETRY_MAX_MS as int,
            attempts,
        ),
        ErrorModel::InvalidResponse(_) => backoff(
            RELAY_RETRY_BASE_MS as int,
            RELAY_RETRY_MAX_MS as int,
            attempts,
        ),
        ErrorModel::IngestFailed(_) => backoff(
            RELAY_RETRY_BASE_MS as int,
            RELAY_RETRY_MAX_MS as int,
            attempts,
        ),
    }
}

/// Computes the delay after an error.
pub fn retry_backoff_ms_for_error(error: &RelayError, attempts: u32) -> (r: i64)
    ensures
        r == retry_delay(error@, attempts as nat),
        500 <= r <= 180_000,
{
    proof {
        law_backoff_range(1200, 45_000, attempts as nat);
        law_backoff_range(4_000, 120_000, attempts as nat);
        law_backoff_range(8_000, 180_000, attempts as nat);
    }
    match error {
        RelayError::Throttled => exponential_backoff_ms(
            RELAY_THROTTLE_RETRY_BASE_MS,
            RELAY_THROTTLE_RETRY_MAX_MS,
            attempts,
        ),
        RelayError::RelayTokenRejected => exponential_backoff_ms(
            RELAY_AUTH_RETRY_BASE_MS,
            RELAY_AUTH_RETRY_MAX_MS,
            attempts,
        ),
        RelayError::SessionAuthFailed(_) => exponential_backoff_ms(
            RELAY_AUTH_RETRY_BASE_MS,
            RELAY_AUTH_RETRY_MAX_MS,
            attempts,
        ),
        RelayError::StreamOfflineOrRotated => exponential_backoff_ms(
            RELAY_AUTH_RETRY_BASE_MS,
            RELAY_AUTH_RETRY_MAX_MS,
            attempts,
        ),
        RelayError::TimestampRejectedResynced => 500,
        RelayError::Transport(_) => exponential_backoff_ms(
            RELAY_RETRY_BASE_MS,
            RELAY_RETRY_MAX_MS,
            attempts,
        ),
        RelayError::InvalidResponse(_) => exponential_backoff_ms(
            RELAY_RETRY_BASE_MS,
            RELAY_RETRY_MAX_MS,
            attempts,
        ),
        RelayError::IngestFailed(_) => exponential_backoff_ms(
            RELAY_RETRY_BASE_MS,
            RELAY_RETRY_MAX_MS,
            attempts,
        ),
    }
}

/// A delay lies between its base and its cap.
pub proof fn law_backoff_range(base: int, max: int, attempts: nat)
    requires
        0 <= base <= max,
    ensures
        base <= backoff(base, max, attempts) <= max,
{
}

/// A later attempt never waits for less time.
pub proof fn law_backoff_grows(base: int, max: int, earlier: nat, later: nat)
    requires
        0 <= base <= max,
        earlier <= later,
    ensures
        backoff(base, max, earlier) <= backoff(base, max, later),
{
    let a = if earlier == 0 {
        0
    } else if earlier > 11 {
        10
    } else {
        (earlier - 1) as nat
    };
    let b = if later == 0 {
        0
    } else if later > 11 {
        10
    } else {
        (later - 1) as nat
    };
    let x = vstd::arithmetic::power2::pow2(a as nat);
    let y = vstd::arithmetic::power2::pow2(b as nat);
    if a < b {
        vstd::arithmetic::power2::lemma_pow2_strictly_increases(a as nat, b as nat);
    }
    assert(base * x <= base * y) by (nonlinear_arith)
        requires
            0 <= base,
            x <= y,
    ;
}

/// How a message relates to the mappings.
#[derive(Debug, Clone, Copy, PartialEq, Eq, Structural)]
pub enum MappingState {
    Mapped,
    AddressMatchNonNumeric,
    Unmapped,
}

/// Whether a mapping has the address.
pub open spec fn address_mapped(mappings: Seq<MappingModel>, address: Seq<char>) -> bool {
    exists|i: int| 0 <= i < mappings.len() && (#[trigger] mappings[i]).address == address
}

/// How a message relates to the mappings: mapped where one has its address and it carries a
/// number.
pub open spec fn mapping_state(message: MessageModel, mappings: Seq<MappingModel>) -> MappingState {
    if !address_mapped(mappings, message.address) {
        MappingState::Unmapped
    } else if osc::first_number(message.args) is Some {
        MappingState::Mapped
    } else {
        MappingState::AddressMatchNonNumeric
    }
}

/// The name of a mapping state.
pub open spec fn state_name(state: MappingState) -> Seq<char> {
    match state {
        MappingState::Mapped => "mapped"@,
        MappingState::AddressMatchNonNumeric => "address-match-non-numeric"@,
        MappingState::Unmapped => "unmapped"@,
    }
}

impl MappingState {
    /// The name of the state.
    pub fn name(self) -> (r: &'static str)
        ensures
            r@ == state_name(self),
    {
        match self {
            MappingState::Mapped => "mapped",
            MappingState::AddressMatchNonNumeric => "address-match-non-numeric",
            MappingState::Unmapped => "unmapped",
        }
    }
}

/// Tells how a message relates to the mappings.
pub fn classify_message_mapping(message: &OscMessage, mappings: &Vec<Mapping>) -> (r: MappingState)
    ensures
        r == mapping_state(message@, model::views(mappings@)),
{
    let ghost all = model::views(mappings@);
    let mut matched = false;
    let mut i: usize = 0;
    while i < mappings.len()
        invariant
            i <= mappings@.len(),
            all == model::views(mappings@),
            matched == (exists|j: int|
                0 <= j < i && (#[trigger] all[j]).address == message@.address),
        decreases mappings@.len() - i,
    {
        if text::same_text(mappings[i].address.as_str(), message.address.as_str()) {
            assert(all[i as int].address == message@.address);
            matched = true;
        }
        i += 1;
    }
    if !matched {
        MappingState::Unmapped
    } else if osc::extract_numeric_arg(&message.args).is_some() {
        MappingState::Mapped
    } else {
        MappingState::AddressMatchNonNumeric
    }
}

/// Whether a message is written to the log.
pub open spec fn osc_logged(config: NormalizedModel, state: MappingState) -> bool {
    &&& config.debug.log_osc
    &&& config.debug.log_unmapped_only ==> state == MappingState::Unmapped
    &&& config.debug.log_configured_only ==> state != MappingState::Unmapped
}

/// Whether a message is written to the log.
pub fn should_log_osc(config: &NormalizedConfig, state: MappingState) -> (r: bool)
    ensures
        r == osc_logged(config@, state),
{
    config.debug.log_osc && !(config.debug.log_unmapped_only && state != MappingState::Unmapped)
        && !(config.debug.log_configured_only && state == MappingState::Unmapped)
}

/// The log line of a message, with the texts of its arguments.
pub open spec fn osc_line(message: MessageModel, state: MappingState, args: Seq<Seq<char>>) -> Seq<
    char,
> {
    let tags = if message.arg_types.len() == 0 {
        "-"@
    } else {
        message.arg_types
    };
    let values = if args.len() == 0 {
        "no-args"@
    } else {
        text::joined(args, ", "@)
    };
    state_name(state) + " "@ + message.address + " ["@ + tags + "] -> "@ + values
}

/// Writes the log line of a message. `args` are the texts of its arguments.
pub fn osc_log_line(message: &OscMessage, state: MappingState, args: &Vec<String>) -> (r: String)
    ensures
        r@ == osc_line(message@, state, text::texts(args@)),
{
    let values = if args.len() == 0 {
        "no-args".to_owned()
    } else {
        text::join(args, ", ")
    };
    let mut out = text::concat3(state.name(), " ", message.address.as_str());
    out.append(" [");
    if message.arg_types.as_str().unicode_len() == 0 {
        out.append("-");
    } else {
        out.append(message.arg_types.as_str());
    }
    out.append("] -> ");
    out.append(values.as_str());
    out
}

/// The value of an avatar parameter. Numbers are kept as they arrived: an OSC integer, an OSC
/// float, or a number out of a document.
#[derive(Debug, PartialEq, Eq)]
pub enum RuntimeParamValue {
    Int(i32),
    Float(u32),
    Number(FloatBits),
    Bool(bool),
    Text(String),
}

/// The model of `RuntimeParamValue`.
pub enum ParamModel {
    Int(i32),
    Float(u32),
    Number(FloatBits),
    Bool(bool),
    Text(Seq<char>),
}

impl View for RuntimeParamValue {
    type V = ParamModel;

    open spec fn view(&self) -> ParamModel {
        match *self {
            RuntimeParamValue::Int(n) => ParamModel::Int(n),
            RuntimeParamValue::Float(bits) => ParamModel::Float(bits),
            RuntimeParamValue::Number(number) => ParamModel::Number(number),
            RuntimeParamValue::Bool(flag) => ParamModel::Bool(flag),
            RuntimeParamValue::Text(s) => ParamModel::Text(s@),
        }
    }
}

impl Duplicate for RuntimeParamValue {
    fn duplicate(&self) -> (r: Self) {
        match self {
            RuntimeParamValue::Int(n) => RuntimeParamValue::Int(*n),
            RuntimeParamValue::Float(bits) => RuntimeParamValue::Float(*bits),
            RuntimeParamValue::Number(number) => RuntimeParamValue::Number(*number),
            RuntimeParamValue::Bool(flag) => RuntimeParamValue::Bool(*flag),
            RuntimeParamValue::Text(s) => RuntimeParamValue::Text(s.clone()),
        }
    }
}

/// What is shown of a value, given how its number is written where it is one.
pub open spec fn shown_value(value: ParamModel, number: Seq<char>) -> Seq<char> {
    match value {
        ParamModel::Int(_) => number,
        ParamModel::Float(_) => number,
        ParamModel::Number(_) => number,
        ParamModel::Bool(flag) => text::flag_text(flag),
        ParamModel::Text(s) => s,
    }
}

impl RuntimeParamValue {
    /// What is shown of the value, given how its number is written where it is one.
    pub fn display_string(&self, number: &str) -> (r: String)
        ensures
            r@ == shown_value(self@, number@),
    {
        match self {
            RuntimeParamValue::Int(_) => number.to_owned(),
            RuntimeParamValue::Float(_) => number.to_owned(),
            RuntimeParamValue::Number(_) => number.to_owned(),
            RuntimeParamValue::Bool(flag) => text::flag(*flag).to_owned(),
            RuntimeParamValue::Text(s) => s.clone(),
        }
    }
}

/// The value of a parameter that a message's arguments give: its first argument, unless that is a
/// float that is not finite.
pub open spec fn param_value(args: Seq<ArgModel>) -> Option<ParamModel> {
    if args.len() == 0 {
        None
    } else {
        match args[0] {
            ArgModel::Int(n) => Some(ParamModel::Int(n)),
            ArgModel::Float(bits) => if osc::single_finite(bits) {
                Some(ParamModel::Float(bits))
            } else {
                None
            },
            ArgModel::Bool(flag) => Some(ParamModel::Bool(flag)),
            ArgModel::Str(s) => Some(ParamModel::Text(s)),
        }
    }
}

/// Reads the value of a parameter from a message's arguments.
pub fn first_arg_to_runtime_value(args: &Vec<OscArg>) -> (r: Option<RuntimeParamValue>)
    ensures
        model::opt_view(r) == param_value(osc::arg_models(args@)),
{
    if args.len() == 0 {
        return None;
    }
    assert(osc::arg_models(args@)[0] == args@[0]@);
    match &args[0] {
        OscArg::Int(n) => Some(RuntimeParamValue::Int(*n)),
        OscArg::Float(bits) => {
            if *bits % 0x8000_0000 < 0x7F80_0000 {
                Some(RuntimeParamValue::Float(*bits))
            } else {
                None
            }
        },
        OscArg::Bool(flag) => Some(RuntimeParamValue::Bool(*flag)),
        OscArg::Str(s) => Some(RuntimeParamValue::Text(s.clone())),
    }
}

/// The prefix of the addresses of avatar parameters.
pub open spec fn param_prefix() -> Seq<char> {
    "/avatar/parameters/"@
}

/// The name under which an address is kept: what follows the prefix, or the whole address.
pub open spec fn param_key(address: Seq<char>) -> Seq<char> {
    if param_prefix().is_prefix_of(address) {
        address.skip(param_prefix().len() as int)
    } else {
        address
    }
}

/// The name under which an address is kept.
pub fn param_key_from_address(address: &str) -> (r: String)
    ensures
        r@ == param_key(address@),
{
    let prefix = "/avatar/parameters/";
    if text::starts_with(address, prefix) {
        let len: usize = prefix.unicode_len();
        text::skip_chars(address, len).to_owned()
    } else {
        address.to_owned()
    }
}

/// The entries of a cache.
pub open spec fn entries_model(entries: Seq<(String, RuntimeParamValue)>) -> Seq<
    (Seq<char>, ParamModel),
> {
    Seq::new(entries.len(), |i: int| (entries[i].0@, entries[i].1@))
}

/// No name is kept twice.
pub open spec fn distinct_keys(entries: Seq<(Seq<char>, ParamModel)>) -> bool {
    forall|i: int, j: int|
        0 <= i < j < entries.len() ==> (#[trigger] entries[i]).0 != (#[trigger] entries[j]).0
}

/// The last known values of the avatar parameters.
#[derive(Debug, PartialEq, Eq)]
pub struct ParamCache {
    entries: Vec<(String, RuntimeParamValue)>,
}

impl ParamCache {
    /// What is kept, in the order in which the names were first seen.
    pub closed spec fn entries(&self) -> Seq<(Seq<char>, ParamModel)> {
        entries_model(self.entries@)
    }

    #[verifier::type_invariant]
    spec fn well_formed(&self) -> bool {
        self.entries@.len() <= AVATAR_PARAM_HISTORY_LIMIT && distinct_keys(
            entries_model(self.entries@),
        )
    }

    /// An empty cache.
    pub fn new() -> (r: Self)
        ensures
            r.entries() == Seq::<(Seq<char>, ParamModel)>::empty(),
    {
        let cache = ParamCache { entries: Vec::new() };
        assert(cache.entries() =~= Seq::empty());
        cache
    }

    /// Keeps a value under a name. Where the cache is full and the name is new, the name that was
    /// first seen longest ago makes room.
    pub fn insert(&mut self, key: String, value: RuntimeParamValue)
        ensures
            final(self).entries() == cache_inserted(old(self).entries(), key@, value@),
            distinct_keys(final(self).entries()),
            final(self).entries().len() <= AVATAR_PARAM_HISTORY_LIMIT,
    {
        proof {
            use_type_invariant(&*self);
        }
        let mut entries: Vec<(String, RuntimeParamValue)> = Vec::new();
        std::mem::swap(&mut entries, &mut self.entries);
        let ghost before = entries_model(entries@);
        let mut i: usize = 0;
        while i < entries.len() && !text::same_text(entries[i].0.as_str(), key.as_str())
            invariant
                i <= entries@.len(),
                before == entries_model(entries@),
                forall|j: int| 0 <= j < i ==> (#[trigger] before[j]).0 != key@,
            decreases entries@.len() - i,
        {
            assert(before[i as int].0 == entries@[i as int].0@);
            i += 1;
        }
        if i < entries.len() {
            assert(before[i as int].0 == key@);
            entries.set(i, (key, value));
            proof {
                lemma_key_index(before, key@, i as int);
                assert(entries_model(entries@) =~= before.update(i as int, (key@, value@)));
            }
        } else {
            if entries.len() >= AVATAR_PARAM_HISTORY_LIMIT {
                entries.remove(0);
                assert(entries_model(entries@) =~= before.skip(1));
            }
            let ghost kept = entries_model(entries@);
            entries.push((key, value));
            assert(entries_model(entries@) =~= kept.push((key@, value@)));
        }
        self.entries = entries;
    }

    /// Keeps what a message says of a parameter, if it says anything.
    pub fn update(&mut self, message: &OscMessage)
        ensures
            final(self).entries() == (match param_value(message@.args) {
                Some(value) => cache_inserted(
                    old(self).entries(),
                    param_key(message@.address),
                    value,
                ),
                None => old(self).entries(),
            }),
    {
        if let Some(value) = first_arg_to_runtime_value(&message.args) {
            let key = param_key_from_address(message.address.as_str());
            self.insert(key, value);
        }
    }

    /// What is kept, in the order of the names.
    pub fn avatar_params(&self) -> (r: Vec<(String, RuntimeParamValue)>)
        ensures
            entries_model(r@) == sorted_entries(self.entries()),
    {
        let ghost all = self.entries();
        let mut out: Vec<(String, RuntimeParamValue)> = Vec::new();
        let mut i: usize = 0;
        assert(all.take(0) =~= Seq::empty());
        assert(entries_model(out@) =~= Seq::empty());
        while i < self.entries.len()
            invariant
                i <= self.entries@.len(),
                all == self.entries(),
                entries_model(out@) == sorted_entries(all.take(i as int)),
            decreases self.entries@.len() - i,
        {
            assert(all.take(i + 1).drop_last() =~= all.take(i as int));
            assert(all.take(i + 1).last() == (
                self.entries@[i as int].0@,
                self.entries@[i as int].1@,
            ));
            insert_sorted(
                &mut out,
                self.entries[i].0.clone(),
                self.entries[i].1.duplicate(),
            );
            i += 1;
        }
        assert(all.take(i as int) =~= all);
        out
    }
}

proof fn lemma_key_index(entries: Seq<(Seq<char>, ParamModel)>, key: Seq<char>, i: int)
    requires
        distinct_keys(entries),
        0 <= i < entries.len(),
        entries[i].0 == key,
    ensures
        key_index(entries, key) == i,
{
    let k = key_index(entries, key);
    assert(0 <= k < entries.len() && entries[k].0 == key);
    if k < i {
        assert(entries[k].0 != entries[i].0);
    } else if i < k {
        assert(entries[i].0 != entries[k].0);
    }
}

/// A name is kept.
pub open spec fn has_key(entries: Seq<(Seq<char>, ParamModel)>, key: Seq<char>) -> bool {
    exists|i: int| 0 <= i < entries.len() && (#[trigger] entries[i]).0 == key
}

/// Where a name is kept.
pub open spec fn key_index(entries: Seq<(Seq<char>, ParamModel)>, key: Seq<char>) -> int {
    choose|i: int| 0 <= i < entries.len() && (#[trigger] entries[i]).0 == key
}

/// The entries after a value was kept under a name.
pub open spec fn cache_inserted(
    entries: Seq<(Seq<char>, ParamModel)>,
    key: Seq<char>,
    value: ParamModel,
) -> Seq<(Seq<char>, ParamModel)> {
    if has_key(entries, key) {
        entries.update(key_index(entries, key), (key, value))
    } else if entries.len() >= AVATAR_PARAM_HISTORY_LIMIT {
        entries.skip(1).push((key, value))
    } else {
        entries.push((key, value))
    }
}

/// An entry put in its place among entries in order.
pub open spec fn placed(
    entries: Seq<(Seq<char>, ParamModel)>,
    entry: (Seq<char>, ParamModel),
) -> Seq<(Seq<char>, ParamModel)>
    decreases entries.len(),
{
    if entries.len() == 0 || !text::text_before(entry.0, entries.last().0) {
        entries.push(entry)
    } else {
        placed(entries.drop_last(), entry).push(entries.last())
    }
}

/// The entries in the order of their names.
pub open spec fn sorted_entries(entries: Seq<(Seq<char>, ParamModel)>) -> Seq<
    (Seq<char>, ParamModel),
>
    decreases entries.len(),
{
    if entries.len() == 0 {
        Seq::empty()
    } else {
        placed(sorted_entries(entries.drop_last()), entries.last())
    }
}

pub(crate) fn insert_sorted(
    entries: &mut Vec<(String, RuntimeParamValue)>,
    key: String,
    value: RuntimeParamValue,
)
    ensures
        entries_model(final(entries)@) == placed(entries_model(old(entries)@), (key@, value@)),
{
    let ghost all = entries_model(entries@);
    let ghost entry = (key@, value@);
    let mut i: usize = entries.len();
    assert(all.take(i as int) =~= all);
    assert(all.skip(i as int) =~= Seq::empty());
    assert(placed(all, entry) + Seq::<(Seq<char>, ParamModel)>::empty() =~= placed(all, entry));
    while i > 0 && text::comes_before(key.as_str(), entries[i - 1].0.as_str())
        invariant
            i <= entries@.len(),
            entries@ == old(entries)@,
            all == entries_model(entries@),
            entry == (key@, value@),
            placed(all, entry) == placed(all.take(i as int), entry) + all.skip(i as int),
        decreases i,
    {
        proof {
            let shorter = all.take(i as int);
            assert(shorter.drop_last() =~= all.take(i - 1));
            assert(shorter.last() == all[i - 1]);
            assert(placed(all.take(i - 1), entry).push(all[i - 1]) + all.skip(i as int) =~= placed(
                all.take(i - 1),
                entry,
            ) + all.skip(i - 1));
        }
        i -= 1;
    }
    entries.insert(i, (key, value));
    proof {
        if i > 0 {
            assert(all.take(i as int).last() == all[i - 1]);
        }
        assert(placed(all.take(i as int), entry) == all.take(i as int).push(entry));
        assert(entries_model(entries@) =~= all.take(i as int).push(entry) + all.skip(i as int));
    }
}

proof fn lemma_before_transitive(a: Seq<char>, b: Seq<char>, c: Seq<char>)
    requires
        !text::text_before(b, a),
        !text::text_before(c, b),
    ensures
        !text::text_before(c, a),
    decreases a.len(),
{
    if a.len() > 0 && b.len() > 0 && c.len() > 0 && a[0] == b[0] && b[0] == c[0] {
        lemma_before_transitive(a.drop_first(), b.drop_first(), c.drop_first());
    }
}

/// The names are in order.
pub open spec fn in_order(entries: Seq<(Seq<char>, ParamModel)>) -> bool {
    forall|i: int, j: int|
        0 <= i < j < entries.len() ==> !text::text_before(
            (#[trigger] entries[j]).0,
            (#[trigger] entries[i]).0,
        )
}

proof fn lemma_placed(entries: Seq<(Seq<char>, ParamModel)>, entry: (Seq<char>, ParamModel))
    requires
        in_order(entries),
    ensures
        in_order(placed(entries, entry)),
        placed(entries, entry).to_multiset() == entries.to_multiset().insert(entry),
        forall|k: int|
            0 <= k < placed(entries, entry).len() ==> (#[trigger] placed(entries, entry)[k])
                == entry || exists|m: int|
                0 <= m < entries.len() && placed(entries, entry)[k] == #[trigger] entries[m],
    decreases entries.len(),
{
    broadcast use vstd::seq_lib::group_to_multiset_ensures;

    let out = placed(entries, entry);
    if entries.len() == 0 {
        assert(out =~= seq![entry]);
        assert(out[0] == entry);
    } else if !text::text_before(entry.0, entries.last().0) {
        assert forall|i: int, j: int| 0 <= i < j < out.len() implies !text::text_before(
            (#[trigger] out[j]).0,
            (#[trigger] out[i]).0,
        ) by {
            if j == entries.len() {
                if i < entries.len() - 1 {
                    assert(!text::text_before(entries[entries.len() - 1].0, entries[i].0));
                    lemma_before_transitive(entries[i].0, entries.last().0, entry.0);
                }
            } else {
                assert(out[i] == entries[i] && out[j] == entries[j]);
            }
        }
        assert forall|k: int| 0 <= k < out.len() implies (#[trigger] out[k]) == entry || exists|m: int|
            0 <= m < entries.len() && out[k] == #[trigger] entries[m] by {
            if k < entries.len() {
                assert(out[k] == entries[k]);
            }
        }
    } else {
        let shorter = entries.drop_last();
        let last = entries.last();
        assert(in_order(shorter)) by {
            assert forall|i: int, j: int| 0 <= i < j < shorter.len() implies !text::text_before(
                (#[trigger] shorter[j]).0,
                (#[trigger] shorter[i]).0,
            ) by {
                assert(shorter[i] == entries[i] && shorter[j] == entries[j]);
            }
        }
        lemma_placed(shorter, entry);
        let front = placed(shorter, entry);
        text::law_text_order(entry.0, last.0);
        assert forall|i: int, j: int| 0 <= i < j < out.len() implies !text::text_before(
            (#[trigger] out[j]).0,
            (#[trigger] out[i]).0,
        ) by {
            if j == front.len() {
                assert(out[j] == last);
                assert(out[i] == front[i]);
                if front[i] != entry {
                    let m = choose|m: int|
                        0 <= m < shorter.len() && front[i] == #[trigger] shorter[m];
                    assert(shorter[m] == entries[m]);
                    assert(!text::text_before(entries[entries.len() - 1].0, entries[m].0));
                }
            } else {
                assert(out[i] == front[i] && out[j] == front[j]);
            }
        }
        assert forall|k: int| 0 <= k < out.len() implies (#[trigger] out[k]) == entry || exists|m: int|
            0 <= m < entries.len() && out[k] == #[trigger] entries[m] by {
            if k < front.len() {
                assert(out[k] == front[k]);
                if front[k] != entry {
                    let m = choose|m: int|
                        0 <= m < shorter.len() && front[k] == #[trigger] shorter[m];
                    assert(out[k] == entries[m]);
                }
            } else {
                assert(out[k] == entries[entries.len() - 1]);
            }
        }
        assert(shorter.push(last) =~= entries);
        assert(front.push(last).to_multiset() =~= entries.to_multiset().insert(entry));
    }
}

/// Listing the parameters orders them by name and neither adds nor drops any.
pub proof fn law_listing_in_order(entries: Seq<(Seq<char>, ParamModel)>)
    ensures
        in_order(sorted_entries(entries)),
        sorted_entries(entries).to_multiset() == entries.to_multiset(),
    decreases entries.len(),
{
    broadcast use vstd::seq_lib::group_to_multiset_ensures;

    if entries.len() > 0 {
        law_listing_in_order(entries.drop_last());
        lemma_placed(sorted_entries(entries.drop_last()), entries.last());
        assert(entries.drop_last().push(entries.last()) =~= entries);
    } else {
        assert(entries =~= Seq::empty());
    }
}

/// After a value was kept under a name, the name has it; every other name that is still kept has
/// what it had; and unless the cache was full nothing is lost.
pub proof fn law_cache_reads_back(
    entries: Seq<(Seq<char>, ParamModel)>,
    key: Seq<char>,
    value: ParamModel,
    other: Seq<char>,
)
    requires
        distinct_keys(entries),
        other != key,
    ensures
        ({
            let after = cache_inserted(entries, key, value);
            &&& distinct_keys(after)
            &&& has_key(after, key) && after[key_index(after, key)].1 == value
            &&& has_key(after, other) ==> has_key(entries, other) && after[key_index(
                after,
                other,
            )].1 == entries[key_index(entries, other)].1
            &&& has_key(entries, other) && entries.len() < AVATAR_PARAM_HISTORY_LIMIT ==> has_key(
                after,
                other,
            )
        }),
{
    let after = cache_inserted(entries, key, value);
    if has_key(entries, key) {
        let i = key_index(entries, key);
        assert(after[i] == (key, value));
        assert forall|a: int, b: int| 0 <= a < b < after.len() implies (#[trigger] after[a]).0 != (
        #[trigger] after[b]).0 by {
            assert(entries[a].0 != entries[b].0);
        }
        lemma_key_index(after, key, i);
        if has_key(after, other) {
            let k = key_index(after, other);
            assert(after[k] == entries[k]);
            lemma_key_index(entries, other, k);
        }
        if has_key(entries, other) {
            let k = key_index(entries, other);
            assert(after[k] == entries[k]);
        }
    } else {
        let shift: int = if entries.len() >= AVATAR_PARAM_HISTORY_LIMIT {
            1
        } else {
            0
        };
        let last = after.len() - 1;
        assert(after[last] == (key, value));
        assert forall|k: int| 0 <= k < last implies #[trigger] after[k] == entries[k + shift] by {}
        assert forall|a: int, b: int| 0 <= a < b < after.len() implies (#[trigger] after[a]).0 != (
        #[trigger] after[b]).0 by {
            assert(after[a] == entries[a + shift]);
            if b < last {
                assert(entries[a + shift].0 != entries[b + shift].0);
            } else {
                assert(entries[a + shift].0 != key);
            }
        }
        lemma_key_index(after, key, last);
        if has_key(after, other) {
            let k = key_index(after, other);
            assert(k < last);
            assert(after[k] == entries[k + shift]);
            lemma_key_index(entries, other, k + shift);
        }
        if has_key(entries, other) && shift == 0 {
            let k = key_index(entries, other);
            assert(after[k] == entries[k]);
        }
    }
}

} // verus!
