//! The decisions of the bridge loop: who may send, what is written down, when an event is sent and
//! what follows from its outcome.
use vstd::prelude::*;
use vstd::string::*;
use vstd::utf8::*;
use crate::config::{DiscoveryModel, NormalizedConfig, NormalizedModel};
use crate::engine::{BridgeEngine, EngineModel};
use crate::float;
use crate::float::FloatBits;
use crate::ip;
use crate::ip::IpAddress;
use crate::model;
use crate::model::Duplicate;
use crate::osc::{MessageModel, OscMessage};
use crate::relay;
use crate::relay::{ErrorModel, EventModel, RelayError, RelayEvent, RelaySource, SourceModel};
use crate::runtime;
use crate::runtime::{MappingState, DISCOVERY_ENTRY_MAX, DISCOVERY_ENTRY_MAX_LEN};
use crate::smoothing;
use crate::smoothing::{OutputTuning, SmootherState};
use crate::text;

verus! {

/// A sender is heard: it is this machine or the network is allowed, and it is on the list or
/// there is none.
pub open spec fn sender_allowed(config: NormalizedModel, sender: IpAddress) -> bool {
    &&& config.allow_network_osc || ip::loopback(sender)
    &&& config.osc_allowed_senders.len() == 0 || config.osc_allowed_senders.contains(sender)
}

fn listed(list: &Vec<IpAddress>, address: IpAddress) -> (r: bool)
    ensures
        r == list@.contains(address),
{
    let mut i: usize = 0;
    while i < list.len()
        invariant
            i <= list@.len(),
            forall|j: int| 0 <= j < i ==> list@[j] != address,
        decreases list@.len() - i,
    {
        if list[i] == address {
            assert(list@[i as int] == address);
            return true;
        }
        i += 1;
    }
    false
}

/// Whether a sender is heard.
pub fn is_sender_allowed(config: &NormalizedConfig, sender: IpAddress) -> (r: bool)
    ensures
        r == sender_allowed(config@, sender),
{
    if !config.allow_network_osc && !ip::is_loopback(sender) {
        return false;
    }
    config.osc_allowed_senders.len() == 0 || listed(&config.osc_allowed_senders, sender)
}

/// What happens to a packet on arrival.
#[derive(Debug, Clone, Copy, PartialEq, Eq, Structural)]
pub enum Admission {
    /// It is read.
    Accept,
    /// It is passed over, and its sender is mentioned in the log for the first time.
    IgnoreAndLog,
    /// It is passed over.
    Ignore,
}

/// What happens to a packet of a sender, where `mentioned` are the senders that the log mentions.
pub open spec fn admission(
    config: NormalizedModel,
    mentioned: Seq<IpAddress>,
    sender: IpAddress,
) -> Admission {
    if sender_allowed(config, sender) {
        Admission::Accept
    } else if mentioned.contains(sender) {
        Admission::Ignore
    } else {
        Admission::IgnoreAndLog
    }
}

/// The senders that the log has mentioned once a packet was looked at.
pub open spec fn mentioned_after(
    config: NormalizedModel,
    mentioned: Seq<IpAddress>,
    sender: IpAddress,
) -> Seq<IpAddress> {
    if admission(config, mentioned, sender) == Admission::IgnoreAndLog {
        mentioned.push(sender)
    } else {
        mentioned
    }
}

/// The discovery entry of a message: its trimmed address, where that starts with a slash, with
/// its type tags where they are asked for.
pub open spec fn discovery_entry(message: MessageModel, include_arg_types: bool) -> Option<
    Seq<char>,
> {
    let address = text::trimmed(message.address);
    let tags = text::trimmed(message.arg_types);
    if !text::begins_with(address, '/') {
        None
    } else if !include_arg_types {
        Some(address)
    } else {
        Some(
            address + "\t["@ + (if tags.len() == 0 {
                "-"@
            } else {
                tags
            }) + "]"@,
        )
    }
}

/// Makes the discovery entry of a message.
pub fn discovery_entry_for(message: &OscMessage, include_arg_types: bool) -> (r: Option<String>)
    ensures
        model::opt_text(r) == discovery_entry(message@, include_arg_types),
{
    let address = text::trim(message.address.as_str());
    if !text::starts_with_char(address, '/') {
        return None;
    }
    if !include_arg_types {
        return Some(address.to_owned());
    }
    let tags = text::trim(message.arg_types.as_str());
    let mut entry = text::concat2(address, "\t[");
    if tags.unicode_len() == 0 {
        entry.append("-");
    } else {
        entry.append(tags);
    }
    entry.append("]");
    Some(entry)
}

/// An entry is short enough to be kept.
pub open spec fn entry_fits(entry: Seq<char>) -> bool {
    encode_utf8(entry).len() <= DISCOVERY_ENTRY_MAX_LEN
}

/// The lines of a discovery file that hold entries, trimmed.
pub open spec fn entry_lines(lines: Seq<Seq<char>>) -> Seq<Seq<char>>
    decreases lines.len(),
{
    if lines.len() == 0 {
        Seq::empty()
    } else {
        let before = entry_lines(lines.drop_last());
        let line = text::trimmed(lines.last());
        if line.len() > 0 && line[0] != '#' && entry_fits(line) {
            before.push(line)
        } else {
            before
        }
    }
}

/// The texts of a list, each once, in the order in which they first occur.
pub open spec fn without_repeats(items: Seq<Seq<char>>) -> Seq<Seq<char>>
    decreases items.len(),
{
    if items.len() == 0 {
        Seq::empty()
    } else {
        let before = without_repeats(items.drop_last());
        if before.contains(items.last()) {
            before
        } else {
            before.push(items.last())
        }
    }
}

/// The first items of a list, `n` at most.
pub open spec fn first_items<T>(items: Seq<T>, n: int) -> Seq<T> {
    if items.len() > n {
        items.take(n)
    } else {
        items
    }
}

/// The entries of a discovery file.
pub open spec fn file_entries(raw: Seq<char>) -> Seq<Seq<char>> {
    without_repeats(
        first_items(entry_lines(text::pieces(raw, seq!['\n'])), DISCOVERY_ENTRY_MAX as int),
    )
}

/// An entry is kept that is new, short enough and not one too many.
pub open spec fn entry_kept(entries: Seq<Seq<char>>, entry: Seq<char>) -> bool {
    !entries.contains(entry) && entries.len() < DISCOVERY_ENTRY_MAX && entry_fits(entry)
}

/// The entries after one was considered.
pub open spec fn considered(entries: Seq<Seq<char>>, entry: Seq<char>) -> Seq<Seq<char>> {
    if entry_kept(entries, entry) {
        entries.push(entry)
    } else {
        entries
    }
}

/// The entries after a message was observed: where discovery is on, what it discovers is
/// considered.
pub open spec fn observed_entries(
    entries: Seq<Seq<char>>,
    discovery: DiscoveryModel,
    message: MessageModel,
) -> Seq<Seq<char>> {
    match discovery_entry(message, discovery.include_arg_types) {
        Some(entry) => if discovery.enabled {
            considered(entries, entry)
        } else {
            entries
        },
        None => entries,
    }
}

/// What is kept among the discovery entries obeys their limits.
pub open spec fn entries_valid(entries: Seq<Seq<char>>) -> bool {
    &&& entries.len() <= DISCOVERY_ENTRY_MAX
    &&& entries.no_duplicates()
    &&& forall|i: int| 0 <= i < entries.len() ==> entry_fits(#[trigger] entries[i])
}

/// The entries that were written to the discovery file.
#[derive(Debug, PartialEq, Eq)]
pub struct DiscoveryEntries {
    entries: Vec<String>,
}

fn position_of(items: &Vec<String>, wanted: &str) -> (r: Option<usize>)
    ensures
        match r {
            Some(i) => i < items@.len() && text::texts(items@)[i as int] == wanted@,
            None => !text::texts(items@).contains(wanted@),
        },
{
    let ghost all = text::texts(items@);
    let mut i: usize = 0;
    while i < items.len()
        invariant
            i <= items@.len(),
            all == text::texts(items@),
            forall|j: int| 0 <= j < i ==> #[trigger] all[j] != wanted@,
        decreases items@.len() - i,
    {
        assert(all[i as int] == items@[i as int]@);
        if text::same_text(items[i].as_str(), wanted) {
            return Some(i);
        }
        i += 1;
    }
    None
}

impl DiscoveryEntries {
    /// The entries, in the order in which they were first seen.
    pub closed spec fn entries(&self) -> Seq<Seq<char>> {
        text::texts(self.entries@)
    }

    #[verifier::type_invariant]
    spec fn well_formed(&self) -> bool {
        entries_valid(text::texts(self.entries@))
    }

    /// No entries.
    pub fn new() -> (r: Self)
        ensures
            r.entries() == Seq::<Seq<char>>::empty(),
    {
        let entries: Vec<String> = Vec::new();
        assert(text::texts(entries@) =~= Seq::empty());
        DiscoveryEntries { entries }
    }

    /// Reads the entries of a discovery file.
    pub fn load(raw: &str) -> (r: Self)
        ensures
            r.entries() == file_entries(raw@),
    {
        let separators = vec!['\n'];
        assert(separators@ =~= seq!['\n']);
        let lines = text::split(raw, &separators);
        let ghost all = text::texts(lines@);
        let ghost whole = entry_lines(all);
        let mut out: Vec<String> = Vec::new();
        let mut taken: usize = 0;
        let mut i: usize = 0;
        assert(all.take(0) =~= Seq::empty());
        assert(text::texts(out@) =~= Seq::empty());
        assert(whole.take(0) =~= Seq::empty());
        while i < lines.len() && taken < DISCOVERY_ENTRY_MAX
            invariant
                i <= lines@.len(),
                all == text::texts(lines@),
                taken <= DISCOVERY_ENTRY_MAX,
                whole == entry_lines(all),
                entry_lines(all.take(i as int)).len() == taken,
                text::texts(out@) == without_repeats(entry_lines(all.take(i as int))),
                out@.len() <= taken,
                entries_valid(text::texts(out@)),
            decreases lines@.len() - i,
        {
            assert(all.take(i + 1).drop_last() =~= all.take(i as int));
            assert(all.take(i + 1).last() == lines@[i as int]@);
            let line = text::trim(lines[i].as_str());
            if line.unicode_len() > 0 && line.get_char(0) != '#' && text::byte_len(line)
                <= DISCOVERY_ENTRY_MAX_LEN {
                let ghost before = entry_lines(all.take(i as int));
                let ghost now = entry_lines(all.take(i + 1));
                assert(now.drop_last() =~= before);
                taken += 1;
                if position_of(&out, line).is_none() {
                    let entry = line.to_owned();
                    proof {
                        text::lemma_texts_push(out@, entry);
                    }
                    out.push(entry);
                }
            }
            i += 1;
        }
        proof {
            lemma_entry_lines_prefix(all, i as int);
            if i == lines@.len() {
                assert(all.take(i as int) =~= all);
            } else {
                assert(first_items(whole, DISCOVERY_ENTRY_MAX as int) =~= entry_lines(
                    all.take(i as int),
                ));
            }
        }
        DiscoveryEntries { entries: out }
    }

    /// How many entries there are.
    pub fn count(&self) -> (r: usize)
        ensures
            r == self.entries().len(),
    {
        self.entries.len()
    }

    /// Keeps an entry that is new, short enough and not one too many. Returns whether it was
    /// kept.
    pub fn consider(&mut self, entry: &str) -> (r: bool)
        ensures
            r == entry_kept(old(self).entries(), entry@),
            final(self).entries() == considered(old(self).entries(), entry@),
    {
        proof {
            use_type_invariant(&*self);
        }
        if position_of(&self.entries, entry).is_some() || self.entries.len()
            >= DISCOVERY_ENTRY_MAX || text::byte_len(entry) > DISCOVERY_ENTRY_MAX_LEN {
            return false;
        }
        let mut entries: Vec<String> = Vec::new();
        std::mem::swap(&mut entries, &mut self.entries);
        let kept = entry.to_owned();
        proof {
            text::lemma_texts_push(entries@, kept);
        }
        entries.push(kept);
        self.entries = entries;
        true
    }
}

proof fn lemma_entry_lines_prefix(lines: Seq<Seq<char>>, n: int)
    requires
        0 <= n <= lines.len(),
    ensures
        entry_lines(lines.take(n)).len() <= entry_lines(lines).len(),
        entry_lines(lines.take(n)) == entry_lines(lines).take(
            entry_lines(lines.take(n)).len() as int,
        ),
    decreases lines.len(),
{
    let part = entry_lines(lines.take(n));
    let whole = entry_lines(lines);
    if n < lines.len() {
        assert(lines.drop_last().take(n) =~= lines.take(n));
        lemma_entry_lines_prefix(lines.drop_last(), n);
        let shorter = entry_lines(lines.drop_last());
        assert(whole.take(part.len() as int) =~= shorter.take(part.len() as int));
    } else {
        assert(lines.take(n) =~= lines);
        assert(part.take(part.len() as int) =~= part);
    }
}

proof fn lemma_entry_lines_fit(lines: Seq<Seq<char>>)
    ensures
        forall|i: int|
            0 <= i < entry_lines(lines).len() ==> entry_fits(#[trigger] entry_lines(lines)[i]),
    decreases lines.len(),
{
    if lines.len() > 0 {
        let before = entry_lines(lines.drop_last());
        lemma_entry_lines_fit(lines.drop_last());
        assert forall|i: int| 0 <= i < entry_lines(lines).len() implies entry_fits(
            #[trigger] entry_lines(lines)[i],
        ) by {
            if i < before.len() {
                assert(entry_lines(lines)[i] == before[i]);
            }
        }
    }
}

proof fn lemma_without_repeats(items: Seq<Seq<char>>)
    requires
        forall|i: int| 0 <= i < items.len() ==> entry_fits(#[trigger] items[i]),
    ensures
        without_repeats(items).len() <= items.len(),
        without_repeats(items).no_duplicates(),
        forall|i: int|
            0 <= i < without_repeats(items).len() ==> entry_fits(
                #[trigger] without_repeats(items)[i],
            ),
    decreases items.len(),
{
    if items.len() > 0 {
        lemma_without_repeats(items.drop_last());
    }
}

/// The entries of a discovery file are at most so many, each once and none too long, whatever the
/// file holds; and considering an entry, whichever it is, keeps to that.
pub proof fn law_entries_stay_valid(raw: Seq<char>, entries: Seq<Seq<char>>, entry: Seq<char>)
    ensures
        entries_valid(file_entries(raw)),
        entries_valid(entries) ==> entries_valid(considered(entries, entry)),
{
    let lines = entry_lines(text::pieces(raw, seq!['\n']));
    lemma_entry_lines_fit(text::pieces(raw, seq!['\n']));
    lemma_without_repeats(first_items(lines, DISCOVERY_ENTRY_MAX as int));
}

/// What the runtime reports.
#[derive(Debug, PartialEq, Eq)]
pub struct RuntimeSnapshot {
    pub running: bool,
    pub started_at_ms: i64,
    pub last_tick_ms: i64,
    pub seq: u64,
    pub target_intensity: FloatBits,
    pub current_intensity: FloatBits,
    pub peak_intensity: FloatBits,
    pub last_sent_at_ms: i64,
    pub relay_connected: bool,
    pub auto_disengaged: bool,
    pub last_error: String,
    pub last_source_address: String,
    pub last_source_arg_type: String,
    pub osc_packets_received: u64,
    pub osc_messages_received: u64,
    pub mapped_messages_received: u64,
    pub unmapped_messages_received: u64,
    pub discovery_entries_written: u64,
    pub last_osc_from: String,
}

/// The model of `RuntimeSnapshot`.
#[verifier::ext_equal]
pub struct SnapshotModel {
    pub running: bool,
    pub started_at_ms: i64,
    pub last_tick_ms: i64,
    pub seq: u64,
    pub target_intensity: FloatBits,
    pub current_intensity: FloatBits,
    pub peak_intensity: FloatBits,
    pub last_sent_at_ms: i64,
    pub relay_connected: bool,
    pub auto_disengaged: bool,
    pub last_error: Seq<char>,
    pub last_source_address: Seq<char>,
    pub last_source_arg_type: Seq<char>,
    pub osc_packets_received: u64,
    pub osc_messages_received: u64,
    pub mapped_messages_received: u64,
    pub unmapped_messages_received: u64,
    pub discovery_entries_written: u64,
    pub last_osc_from: Seq<char>,
}

impl View for RuntimeSnapshot {
    type V = SnapshotModel;

    open spec fn view(&self) -> SnapshotModel {
        SnapshotModel {
            running: self.running,
            started_at_ms: self.started_at_ms,
            last_tick_ms: self.last_tick_ms,
            seq: self.seq,
            target_intensity: self.target_intensity,
            current_intensity: self.current_intensity,
            peak_intensity: self.peak_intensity,
            last_sent_at_ms: self.last_sent_at_ms,
            relay_connected: self.relay_connected,
            auto_disengaged: self.auto_disengaged,
            last_error: self.last_error@,
            last_source_address: self.last_source_address@,
            last_source_arg_type: self.last_source_arg_type@,
            osc_packets_received: self.osc_packets_received,
            osc_messages_received: self.osc_messages_received,
            mapped_messages_received: self.mapped_messages_received,
            unmapped_messages_received: self.unmapped_messages_received,
            discovery_entries_written: self.discovery_entries_written,
            last_osc_from: self.last_osc_from@,
        }
    }
}

impl Duplicate for RuntimeSnapshot {
    fn duplicate(&self) -> (r: Self) {
        RuntimeSnapshot {
            running: self.running,
            started_at_ms: self.started_at_ms,
            last_tick_ms: self.last_tick_ms,
            seq: self.seq,
            target_intensity: self.target_intensity,
            current_intensity: self.current_intensity,
            peak_intensity: self.peak_intensity,
            last_sent_at_ms: self.last_sent_at_ms,
            relay_connected: self.relay_connected,
            auto_disengaged: self.auto_disengaged,
            last_error: self.last_error.clone(),
            last_source_address: self.last_source_address.clone(),
            last_source_arg_type: self.last_source_arg_type.clone(),
            osc_packets_received: self.osc_packets_received,
            osc_messages_received: self.osc_messages_received,
            mapped_messages_received: self.mapped_messages_received,
            unmapped_messages_received: self.unmapped_messages_received,
            discovery_entries_written: self.discovery_entries_written,
            last_osc_from: self.last_osc_from.clone(),
        }
    }
}

/// What is reported before anything happened.
pub open spec fn blank_snapshot() -> SnapshotModel {
    SnapshotModel {
        running: false,
        started_at_ms: 0,
        last_tick_ms: 0,
        seq: 0,
        target_intensity: float::number(0),
        current_intensity: float::number(0),
        peak_intensity: float::number(0),
        last_sent_at_ms: 0,
        relay_connected: false,
        auto_disengaged: false,
        last_error: Seq::empty(),
        last_source_address: Seq::empty(),
        last_source_arg_type: "f"@,
        osc_packets_received: 0,
        osc_messages_received: 0,
        mapped_messages_received: 0,
        unmapped_messages_received: 0,
        discovery_entries_written: 0,
        last_osc_from: Seq::empty(),
    }
}

impl Default for RuntimeSnapshot {
    fn default() -> (r: Self)
        ensures
            r@ == blank_snapshot(),
    {
        RuntimeSnapshot {
            running: false,
            started_at_ms: 0,
            last_tick_ms: 0,
            seq: 0,
            target_intensity: float::from_bits(0),
            current_intensity: float::from_bits(0),
            peak_intensity: float::from_bits(0),
            last_sent_at_ms: 0,
            relay_connected: false,
            auto_disengaged: false,
            last_error: String::new(),
            last_source_address: String::new(),
            last_source_arg_type: "f".to_owned(),
            osc_packets_received: 0,
            osc_messages_received: 0,
            mapped_messages_received: 0,
            unmapped_messages_received: 0,
            discovery_entries_written: 0,
            last_osc_from: String::new(),
        }
    }
}

impl RuntimeSnapshot {
    /// What is reported at the start.
    pub fn started(now_ms: i64) -> (r: Self)
        ensures
            r@ == (SnapshotModel {
                running: true,
                started_at_ms: now_ms,
                last_tick_ms: now_ms,
                ..blank_snapshot()
            }),
    {
        let mut snapshot = RuntimeSnapshot::default();
        snapshot.running = true;
        snapshot.started_at_ms = now_ms;
        snapshot.last_tick_ms = now_ms;
        snapshot
    }

    /// Counts a packet.
    pub fn note_packet(&mut self, mapped: u64, unmapped: u64, messages: u64, from: &str)
        ensures
            final(self)@ == (SnapshotModel {
                osc_packets_received: old(self).osc_packets_received.wrapping_add(1),
                osc_messages_received: old(self).osc_messages_received.wrapping_add(messages),
                mapped_messages_received: old(self).mapped_messages_received.wrapping_add(mapped),
                unmapped_messages_received: old(self).unmapped_messages_received.wrapping_add(
                    unmapped,
                ),
                last_osc_from: from@,
                ..old(self)@
            }),
    {
        self.osc_packets_received = self.osc_packets_received.wrapping_add(1);
        self.osc_messages_received = self.osc_messages_received.wrapping_add(messages);
        self.mapped_messages_received = self.mapped_messages_received.wrapping_add(mapped);
        self.unmapped_messages_received = self.unmapped_messages_received.wrapping_add(unmapped);
        self.last_osc_from = from.to_owned();
    }

    /// Counts an entry that was written to the discovery file.
    pub fn note_discovery(&mut self)
        ensures
            final(self)@ == (SnapshotModel {
                discovery_entries_written: old(self).discovery_entries_written.wrapping_add(1),
                ..old(self)@
            }),
    {
        self.discovery_entries_written = self.discovery_entries_written.wrapping_add(1);
    }

    /// Notes an error of the socket.
    pub fn set_error(&mut self, message: &str)
        ensures
            final(self)@ == (SnapshotModel { last_error: message@, ..old(self)@ }),
    {
        self.last_error = message.to_owned();
    }

    /// Notes that the relay is not connected, and why.
    pub fn note_disconnected(&mut self, message: &str)
        ensures
            final(self)@ == (SnapshotModel {
                relay_connected: false,
                auto_disengaged: false,
                last_error: message@,
                ..old(self)@
            }),
    {
        self.relay_connected = false;
        self.auto_disengaged = false;
        self.last_error = message.to_owned();
    }

    /// Notes that the bridge has disengaged by itself, and why.
    pub fn note_disengaged(&mut self, message: &str)
        ensures
            final(self)@ == (SnapshotModel {
                relay_connected: false,
                auto_disengaged: true,
                last_error: message@,
                ..old(self)@
            }),
    {
        self.relay_connected = false;
        self.auto_disengaged = true;
        self.last_error = message.to_owned();
    }

    /// Notes that an event was sent.
    pub fn note_sent(&mut self, now_ms: i64)
        ensures
            final(self)@ == (SnapshotModel {
                relay_connected: true,
                auto_disengaged: false,
                last_error: Seq::empty(),
                last_sent_at_ms: now_ms,
                ..old(self)@
            }),
    {
        self.last_error = String::new();
        self.relay_connected = true;
        self.auto_disengaged = false;
        self.last_sent_at_ms = now_ms;
        assert(self@.last_error =~= Seq::empty());
    }

    /// Notes that the runtime has stopped.
    pub fn note_stopped(&mut self)
        ensures
            final(self)@ == (SnapshotModel { running: false, ..old(self)@ }),
    {
        self.running = false;
    }
}

/// The counters and times of the bridge loop.
#[derive(Debug, Clone, Copy, PartialEq, Eq, Structural)]
pub struct LoopClock {
    pub seq: u64,
    pub last_tick_ms: i64,
    pub last_ack_log_at_ms: i64,
    pub retry_after_ms: i64,
    pub backoff_attempts: u32,
    pub last_reconnect_log_at_ms: i64,
}

/// How many failures in a row disengage the bridge.
pub const DISENGAGE_FAILURES: u32 = 10;

/// So many events in a row were not sent that no more are.
pub open spec fn disengaged(clock: LoopClock) -> bool {
    clock.backoff_attempts >= DISENGAGE_FAILURES
}

/// The clock of a loop that starts.
pub open spec fn started_clock(now_ms: i64) -> LoopClock {
    LoopClock {
        seq: 0,
        last_tick_ms: now_ms,
        last_ack_log_at_ms: 0,
        retry_after_ms: 0,
        backoff_attempts: 0,
        last_reconnect_log_at_ms: 0,
    }
}

/// What a tick leads to.
#[derive(Debug, PartialEq, Eq)]
pub enum TickAction {
    /// The relay is left alone for so long; the log mentions it where `log` is set.
    Backoff { remaining_ms: u64, log: bool },
    /// The event is sent.
    Emit(RelayEvent),
    /// Nothing is due.
    Idle,
    /// Too many events in a row were not sent: the relay is left alone until the next start.
    Disengaged,
}

/// The model of `TickAction`.
pub enum ActionModel {
    Backoff { remaining_ms: int, log: bool },
    Emit(EventModel),
    Idle,
    Disengaged,
}

impl View for TickAction {
    type V = ActionModel;

    open spec fn view(&self) -> ActionModel {
        match *self {
            TickAction::Backoff { remaining_ms, log } => ActionModel::Backoff {
                remaining_ms: remaining_ms as int,
                log,
            },
            TickAction::Emit(event) => ActionModel::Emit(event@),
            TickAction::Idle => ActionModel::Idle,
            TickAction::Disengaged => ActionModel::Disengaged,
        }
    }
}

/// The event that a tick sends. A source without a type is a float.
pub open spec fn tick_event(
    engine: EngineModel,
    smoother: SmootherState,
    seq: u64,
    ts: i64,
) -> EventModel {
    EventModel {
        seq,
        ts,
        intensity: smoother.current_intensity,
        peak: smoother.peak_intensity,
        raw: engine.target_intensity,
        source: SourceModel {
            address: engine.last_source.address,
            arg_type: if text::trimmed(engine.last_source.arg_type).len() == 0 {
                "f"@
            } else {
                engine.last_source.arg_type
            },
        },
    }
}

/// What a tick leads to, and the clock after it. Nothing is sent once the bridge has disengaged,
/// nor while the relay is left alone; an event takes the next number.
pub open spec fn decided(
    engine: EngineModel,
    smoother: SmootherState,
    clock: LoopClock,
    tuning: OutputTuning,
    delta: FloatBits,
    now_ms: i64,
    ts: i64,
) -> (LoopClock, ActionModel) {
    if disengaged(clock) {
        (clock, ActionModel::Disengaged)
    } else if now_ms < clock.retry_after_ms {
        let log = now_ms - clock.last_reconnect_log_at_ms >= 5000;
        (
            LoopClock {
                last_reconnect_log_at_ms: if log {
                    now_ms
                } else {
                    clock.last_reconnect_log_at_ms
                },
                ..clock
            },
            ActionModel::Backoff { remaining_ms: clock.retry_after_ms - now_ms, log },
        )
    } else if smoothing::emission_due(smoother, delta, now_ms as u64, tuning) {
        let seq = (clock.seq + 1) as u64;
        (LoopClock { seq, ..clock }, ActionModel::Emit(tick_event(engine, smoother, seq, ts)))
    } else {
        (clock, ActionModel::Idle)
    }
}

/// The clock after an event was sent, and whether the log mentions it.
pub open spec fn sent_clock(clock: LoopClock, log_relay: bool, now_ms: i64) -> (LoopClock, bool) {
    let log = log_relay && now_ms - clock.last_ack_log_at_ms >= 1000;
    (
        LoopClock {
            retry_after_ms: 0,
            backoff_attempts: 0,
            last_ack_log_at_ms: if log {
                now_ms
            } else {
                clock.last_ack_log_at_ms
            },
            ..clock
        },
        log,
    )
}

/// The attempts after one more.
pub open spec fn next_attempt(attempts: u32) -> u32 {
    if attempts == u32::MAX {
        attempts
    } else {
        (attempts + 1) as u32
    }
}

/// The clock after an event was not sent, and the delay before the next attempt.
pub open spec fn failed_clock(clock: LoopClock, error: ErrorModel, now_ms: i64) -> (LoopClock, int) {
    let attempts = next_attempt(clock.backoff_attempts);
    let delay = runtime::retry_delay(error, attempts as nat);
    (
        LoopClock {
            backoff_attempts: attempts,
            retry_after_ms: (now_ms + delay) as i64,
            ..clock
        },
        delay,
    )
}

/// What the loop makes of a message.
#[derive(Debug, PartialEq, Eq)]
pub struct Observation {
    pub state: MappingState,
    pub log: bool,
    pub discovered: Option<String>,
}

/// The state of the bridge loop.
#[derive(Debug, PartialEq, Eq)]
pub struct BridgeLoop {
    pub config: NormalizedConfig,
    pub engine: BridgeEngine,
    pub smoother: SmootherState,
    pub clock: LoopClock,
    pub mentioned: Vec<IpAddress>,
    pub discovery: DiscoveryEntries,
}

impl BridgeLoop {
    /// A loop that starts.
    pub fn new(config: NormalizedConfig, discovery: DiscoveryEntries, now_ms: i64) -> (r: Self)
        ensures
            r.config == config,
            r.engine@ == (EngineModel {
                mappings: config@.mappings,
                current_inputs: Seq::empty(),
                target_intensity: float::number(0),
                last_source: crate::engine::MetaModel {
                    address: Seq::empty(),
                    arg_type: "f"@,
                },
            }),
            r.smoother == smoothing::resting(),
            r.clock == started_clock(now_ms),
            r.mentioned@.len() == 0,
            r.discovery == discovery,
    {
        let mappings = model::copy_all(&config.mappings);
        BridgeLoop {
            config,
            engine: BridgeEngine::new(mappings),
            smoother: SmootherState::default(),
            clock: LoopClock {
                seq: 0,
                last_tick_ms: now_ms,
                last_ack_log_at_ms: 0,
                retry_after_ms: 0,
                backoff_attempts: 0,
                last_reconnect_log_at_ms: 0,
            },
            mentioned: Vec::new(),
            discovery,
        }
    }

    /// Decides whether a packet is read.
    pub fn admission_of(&mut self, sender: IpAddress) -> (r: Admission)
        ensures
            r == admission(old(self).config@, old(self).mentioned@, sender),
            final(self).mentioned@ == mentioned_after(
                old(self).config@,
                old(self).mentioned@,
                sender,
            ),
            final(self).mentioned@ == (if r == Admission::IgnoreAndLog {
                old(self).mentioned@.push(sender)
            } else {
                old(self).mentioned@
            }),
            final(self).config == old(self).config,
            final(self).engine == old(self).engine,
            final(self).smoother == old(self).smoother,
            final(self).clock == old(self).clock,
            final(self).discovery == old(self).discovery,
    {
        if is_sender_allowed(&self.config, sender) {
            return Admission::Accept;
        }
        if listed(&self.mentioned, sender) {
            return Admission::Ignore;
        }
        self.mentioned.push(sender);
        Admission::IgnoreAndLog
    }

    /// Classifies a message, and takes its address down where discovery is on and it is new.
    pub fn observe(&mut self, message: &OscMessage) -> (r: Observation)
        ensures
            r.state == runtime::mapping_state(message@, old(self).config@.mappings),
            r.log == runtime::osc_logged(old(self).config@, r.state),
            model::opt_text(r.discovered) == (match discovery_entry(
                message@,
                old(self).config@.discovery.include_arg_types,
            ) {
                Some(entry) => if old(self).config@.discovery.enabled && !old(
                    self,
                ).discovery.entries().contains(entry) && old(self).discovery.entries().len()
                    < DISCOVERY_ENTRY_MAX && entry_fits(entry) {
                    Some(entry)
                } else {
                    None
                },
                None => None,
            }),
            final(self).discovery.entries() == (match r.discovered {
                Some(entry) => old(self).discovery.entries().push(entry@),
                None => old(self).discovery.entries(),
            }),
            final(self).discovery.entries() == observed_entries(
                old(self).discovery.entries(),
                old(self).config@.discovery,
                message@,
            ),
            final(self).config == old(self).config,
            final(self).engine == old(self).engine,
            final(self).smoother == old(self).smoother,
            final(self).clock == old(self).clock,
            final(self).mentioned == old(self).mentioned,
    {
        let state = runtime::classify_message_mapping(message, &self.config.mappings);
        let log = runtime::should_log_osc(&self.config, state);
        let mut discovered: Option<String> = None;
        if self.config.discovery.enabled {
            if let Some(entry) = discovery_entry_for(
                message,
                self.config.discovery.include_arg_types,
            ) {
                if self.discovery.consider(entry.as_str()) {
                    discovered = Some(entry);
                }
            }
        }
        Observation { state, log, discovered }
    }

    /// Aims the output at the engine's intensity. Returns the time that the step covers, in
    /// milliseconds, and its time constant.
    pub fn begin_step(&mut self, now_ms: i64) -> (r: (u64, FloatBits))
        requires
            now_ms >= 0,
            old(self).clock.last_tick_ms >= 0,
        ensures
            final(self).smoother == smoothing::aimed(
                old(self).smoother,
                old(self).engine@.target_intensity,
            ),
            final(self).smoother == (SmootherState {
                target_intensity: old(self).engine@.target_intensity,
                ..old(self).smoother
            }),
            r.0 == smoothing::step_time(now_ms as u64, old(self).clock.last_tick_ms as u64),
            r.1 == smoothing::step_constant(final(self).smoother, old(self).config@.output),
            final(self).clock == (LoopClock { last_tick_ms: now_ms, ..old(self).clock }),
            final(self).config == old(self).config,
            final(self).engine == old(self).engine,
            final(self).mentioned == old(self).mentioned,
            final(self).discovery == old(self).discovery,
    {
        self.smoother.target_intensity = self.engine.target_intensity;
        let dt: u64 = SmootherState::step_ms(now_ms as u64, self.clock.last_tick_ms as u64);
        let tau = self.smoother.time_constant(&self.config.output);
        self.clock.last_tick_ms = now_ms;
        (dt, tau)
    }

    /// Whether the bridge has disengaged by itself.
    pub fn is_disengaged(&self) -> (r: bool)
        ensures
            r == disengaged(self.clock),
    {
        self.clock.backoff_attempts >= DISENGAGE_FAILURES
    }

    /// Decides what a tick leads to. `delta` is how far the output moved since it was last sent,
    /// and `ts` the service's time.
    pub fn decide(&mut self, delta: FloatBits, now_ms: i64, ts: i64) -> (r: TickAction)
        requires
            now_ms >= 0,
            old(self).clock.seq < u64::MAX,
        ensures
            (final(self).clock, r@) == decided(
                old(self).engine@,
                old(self).smoother,
                old(self).clock,
                old(self).config@.output,
                delta,
                now_ms,
                ts,
            ),
            final(self).config == old(self).config,
            final(self).engine == old(self).engine,
            final(self).smoother == old(self).smoother,
            final(self).mentioned == old(self).mentioned,
            final(self).discovery == old(self).discovery,
    {
        if self.is_disengaged() {
            return TickAction::Disengaged;
        }
        if now_ms < self.clock.retry_after_ms {
            let remaining: i128 = self.clock.retry_after_ms as i128 - now_ms as i128;
            let since: i128 = now_ms as i128 - self.clock.last_reconnect_log_at_ms as i128;
            let log = since >= 5000;
            if log {
                self.clock.last_reconnect_log_at_ms = now_ms;
            }
            return TickAction::Backoff { remaining_ms: remaining as u64, log };
        }
        if !self.smoother.should_emit(delta, now_ms as u64, &self.config.output) {
            return TickAction::Idle;
        }
        self.clock.seq = self.clock.seq + 1;
        let given = self.engine.last_source.arg_type.as_str();
        let arg_type = if text::trim(given).unicode_len() == 0 {
            "f".to_owned()
        } else {
            given.to_owned()
        };
        TickAction::Emit(
            RelayEvent {
                seq: self.clock.seq,
                ts,
                intensity: self.smoother.current_intensity,
                peak: self.smoother.peak_intensity,
                raw: self.engine.target_intensity,
                source: RelaySource {
                    address: self.engine.last_source.address.clone(),
                    arg_type,
                },
            },
        )
    }

    /// Notes that an event was sent. Returns whether the log mentions it.
    pub fn on_sent(&mut self, now_ms: i64) -> (r: bool)
        requires
            now_ms >= 0,
        ensures
            (final(self).clock, r) == sent_clock(
                old(self).clock,
                old(self).config@.debug.log_relay,
                now_ms,
            ),
            final(self).smoother == smoothing::sent_at(old(self).smoother, now_ms as u64),
            final(self).smoother == (SmootherState {
                last_sent_intensity: old(self).smoother.current_intensity,
                last_sent_at_ms: now_ms as u64,
                ..old(self).smoother
            }),
            final(self).config == old(self).config,
            final(self).engine == old(self).engine,
            final(self).mentioned == old(self).mentioned,
            final(self).discovery == old(self).discovery,
    {
        self.clock.retry_after_ms = 0;
        self.clock.backoff_attempts = 0;
        self.smoother.mark_emitted(now_ms as u64);
        let since: i128 = now_ms as i128 - self.clock.last_ack_log_at_ms as i128;
        let log = self.config.debug.log_relay && since >= 1000;
        if log {
            self.clock.last_ack_log_at_ms = now_ms;
        }
        log
    }

    /// Notes that an event was not sent. Returns the delay before the next attempt, in
    /// milliseconds.
    pub fn on_failed(&mut self, error: &RelayError, now_ms: i64) -> (r: i64)
        requires
            0 <= now_ms <= i64::MAX - 180_000,
        ensures
            final(self).clock == failed_clock(old(self).clock, error@, now_ms).0,
            r == failed_clock(old(self).clock, error@, now_ms).1,
            500 <= r <= 180_000,
            final(self).config == old(self).config,
            final(self).engine == old(self).engine,
            final(self).smoother == old(self).smoother,
            final(self).mentioned == old(self).mentioned,
            final(self).discovery == old(self).discovery,
    {
        let attempts: u32 = if self.clock.backoff_attempts == u32::MAX {
            u32::MAX
        } else {
            self.clock.backoff_attempts + 1
        };
        let delay: i64 = runtime::retry_backoff_ms_for_error(error, attempts);
        self.clock.backoff_attempts = attempts;
        self.clock.retry_after_ms = now_ms + delay;
        delay
    }

    /// Reports the state of the loop.
    pub fn report(&self, snapshot: &mut RuntimeSnapshot, now_ms: i64)
        ensures
            final(snapshot)@ == (SnapshotModel {
                running: true,
                last_tick_ms: now_ms,
                seq: self.clock.seq,
                target_intensity: self.engine@.target_intensity,
                current_intensity: self.smoother.current_intensity,
                peak_intensity: self.smoother.peak_intensity,
                auto_disengaged: disengaged(self.clock),
                last_source_address: self.engine@.last_source.address,
                last_source_arg_type: self.engine@.last_source.arg_type,
                ..old(snapshot)@
            }),
    {
        snapshot.running = true;
        snapshot.last_tick_ms = now_ms;
        snapshot.seq = self.clock.seq;
        snapshot.target_intensity = self.engine.target_intensity;
        snapshot.current_intensity = self.smoother.current_intensity;
        snapshot.peak_intensity = self.smoother.peak_intensity;
        snapshot.auto_disengaged = self.is_disengaged();
        snapshot.last_source_address = self.engine.last_source.address.clone();
        snapshot.last_source_arg_type = self.engine.last_source.arg_type.clone();
    }
}

/// The line that the log starts with.
pub open spec fn started_line(config: NormalizedModel) -> Seq<char> {
    "Bridge runtime started (OSC "@ + config.osc_listen.host + ":"@ + text::decimal_text(
        config.osc_listen.port as nat,
    ) + ", mappings="@ + text::decimal_text(config.mappings.len()) + ", forwardTargets="@
        + text::decimal_text(config.forward_targets.len()) + ")"@
}

/// Writes the line that the log starts with.
pub fn started_message(config: &NormalizedConfig) -> (r: String)
    ensures
        r@ == started_line(config@),
{
    let mut out = text::concat3(
        "Bridge runtime started (OSC ",
        config.osc_listen.host.as_str(),
        ":",
    );
    let port = text::decimal(config.osc_listen.port as u64);
    out.append(port.as_str());
    out.append(", mappings=");
    let mappings = text::decimal(config.mappings.len() as u64);
    out.append(mappings.as_str());
    out.append(", forwardTargets=");
    let targets = text::decimal(config.forward_targets.len() as u64);
    out.append(targets.as_str());
    out.append(")");
    out
}

/// What is reported of an error, with the delay before the next attempt in seconds.
pub fn failure_message(error: &RelayError, seconds: &str) -> (r: String)
    ensures
        r@ == relay::error_text(error@) + " (retry in "@ + seconds@ + "s)"@,
{
    let message = error.message();
    let mut out = text::concat3(message.as_str(), " (retry in ", seconds);
    out.append("s)");
    out
}

/// What is reported of the error on which the bridge disengaged.
pub fn auto_disengaged_message(error: &RelayError) -> (r: String)
    ensures
        r@ == relay::error_text(error@) + " (auto-disengaged after "@ + text::decimal_text(
            DISENGAGE_FAILURES as nat,
        ) + " failures in a row)"@,
{
    let message = error.message();
    let count = text::decimal(DISENGAGE_FAILURES as u64);
    let mut out = text::concat3(message.as_str(), " (auto-disengaged after ", count.as_str());
    out.append(" failures in a row)");
    out
}

/// What is reported while the relay is left alone.
pub fn backoff_message(seconds: &str) -> (r: String)
    ensures
        r@ == "Relay reconnect backoff active (retry in "@ + seconds@ + "s)"@,
{
    text::concat3("Relay reconnect backoff active (retry in ", seconds, "s)")
}

/// Events are numbered one after the other: a tick either sends nothing and keeps the number, or
/// sends the event with the next number.
pub proof fn law_events_numbered(
    engine: EngineModel,
    smoother: SmootherState,
    clock: LoopClock,
    tuning: OutputTuning,
    delta: FloatBits,
    now_ms: i64,
    ts: i64,
)
    requires
        clock.seq < u64::MAX,
    ensures
        match decided(engine, smoother, clock, tuning, delta, now_ms, ts) {
            (after, ActionModel::Emit(event)) => event.seq == clock.seq + 1 && after.seq
                == event.seq,
            (after, _) => after.seq == clock.seq,
        },
{
}

/// The levels of an event lie between zero and one, as those of the engine and of the output do.
pub proof fn law_event_levels(
    engine: EngineModel,
    smoother: SmootherState,
    clock: LoopClock,
    tuning: OutputTuning,
    delta: FloatBits,
    now_ms: i64,
    ts: i64,
)
    requires
        float::in_unit(engine.target_intensity),
        float::in_unit(smoother.current_intensity),
        float::in_unit(smoother.peak_intensity),
    ensures
        decided(engine, smoother, clock, tuning, delta, now_ms, ts).1 matches ActionModel::Emit(
            event,
        ) ==> float::in_unit(event.intensity) && float::in_unit(event.peak) && float::in_unit(
            event.raw,
        ),
{
}

/// After an event was not sent, none is sent before the delay is over, and the log speaks of the
/// delay unless the bridge has disengaged; once one is sent the delay starts from its base again.
pub proof fn law_backoff_respected(
    engine: EngineModel,
    smoother: SmootherState,
    clock: LoopClock,
    tuning: OutputTuning,
    delta: FloatBits,
    error: ErrorModel,
    failed_ms: i64,
    now_ms: i64,
    ts: i64,
    log_relay: bool,
)
    requires
        0 <= failed_ms <= i64::MAX - 180_000,
        now_ms < failed_ms + failed_clock(clock, error, failed_ms).1,
    ensures
        decided(
            engine,
            smoother,
            failed_clock(clock, error, failed_ms).0,
            tuning,
            delta,
            now_ms,
            ts,
        ).1 is Backoff || disengaged(failed_clock(clock, error, failed_ms).0),
        !(decided(
            engine,
            smoother,
            failed_clock(clock, error, failed_ms).0,
            tuning,
            delta,
            now_ms,
            ts,
        ).1 is Emit),
        failed_clock(sent_clock(clock, log_relay, now_ms).0, error, failed_ms).1
            == runtime::retry_delay(error, 1),
{
    let attempts = next_attempt(clock.backoff_attempts) as nat;
    runtime::law_backoff_range(1200, 45_000, attempts);
    runtime::law_backoff_range(4_000, 120_000, attempts);
    runtime::law_backoff_range(8_000, 180_000, attempts);
}

/// A sender that is not allowed is never heard, and a sender outside this machine is heard only
/// where the network is allowed.
pub proof fn law_sender_policy(config: NormalizedModel, mentioned: Seq<IpAddress>, sender: IpAddress)
    ensures
        admission(config, mentioned, sender) == Admission::Accept ==> sender_allowed(
            config,
            sender,
        ),
        !config.allow_network_osc && !ip::loopback(sender) ==> admission(config, mentioned, sender)
            != Admission::Accept,
        config.osc_allowed_senders.len() > 0 && !config.osc_allowed_senders.contains(sender)
            ==> admission(config, mentioned, sender) != Admission::Accept,
{
}

/// The stream key does not stand in the line that the log starts with.
pub proof fn law_key_not_logged(config: NormalizedModel, stream_key: Seq<char>)
    ensures
        started_line(NormalizedModel { stream_key, ..config }) == started_line(config),
{
}

} // verus!
