//! Profiles: how they are kept, in a document or in rows of a database, and the secrets beside them.
use vstd::prelude::*;
use vstd::string::*;
use crate::config;
use crate::config::{
    ConfigError,
    InAppConfig,
    InAppModel,
    NormalizedConfig,
    NormalizedModel,
    PathPlace,
    PathPlaceModel,
};
use crate::ip::IpAddress;
use crate::ip_text;
use crate::model;
use crate::model::Duplicate;
use crate::text;

verus! {

/// A profile.
#[derive(Debug, PartialEq, Eq)]
pub struct AppProfile {
    pub id: String,
    pub name: String,
    pub config: InAppConfig,
}

/// The model of `AppProfile`.
#[verifier::ext_equal]
pub struct ProfileModel {
    pub id: Seq<char>,
    pub name: Seq<char>,
    pub config: InAppModel,
}

impl View for AppProfile {
    type V = ProfileModel;

    open spec fn view(&self) -> ProfileModel {
        ProfileModel {
            id: self.id@,
            name: self.name@,
            config: self.config@,
        }
    }
}

impl Duplicate for AppProfile {
    fn duplicate(&self) -> (r: Self) {
        AppProfile {
            id: self.id.clone(),
            name: self.name.clone(),
            config: self.config.duplicate(),
        }
    }
}

/// A profile with its stream key.
#[derive(Debug, PartialEq, Eq)]
pub struct LoadedProfile {
    pub profile: AppProfile,
    pub stream_key: Option<String>,
}

/// The model of `LoadedProfile`.
#[verifier::ext_equal]
pub struct LoadedModel {
    pub profile: ProfileModel,
    pub stream_key: Option<Seq<char>>,
}

impl View for LoadedProfile {
    type V = LoadedModel;

    open spec fn view(&self) -> LoadedModel {
        LoadedModel {
            profile: self.profile@,
            stream_key: model::opt_text(self.stream_key),
        }
    }
}

impl Duplicate for LoadedProfile {
    fn duplicate(&self) -> (r: Self) {
        LoadedProfile {
            profile: self.profile.duplicate(),
            stream_key: model::copy_opt_text(&self.stream_key),
        }
    }
}

/// What a list of profiles shows of one.
#[derive(Debug, PartialEq, Eq)]
pub struct ProfileSummary {
    pub id: String,
    pub name: String,
    pub creator_username: String,
    pub updated_at_ms: i64,
    pub has_stream_key: bool,
}

/// The model of `ProfileSummary`.
#[verifier::ext_equal]
pub struct SummaryModel {
    pub id: Seq<char>,
    pub name: Seq<char>,
    pub creator_username: Seq<char>,
    pub updated_at_ms: i64,
    pub has_stream_key: bool,
}

impl View for ProfileSummary {
    type V = SummaryModel;

    open spec fn view(&self) -> SummaryModel {
        SummaryModel {
            id: self.id@,
            name: self.name@,
            creator_username: self.creator_username@,
            updated_at_ms: self.updated_at_ms,
            has_stream_key: self.has_stream_key,
        }
    }
}

impl Duplicate for ProfileSummary {
    fn duplicate(&self) -> (r: Self) {
        ProfileSummary {
            id: self.id.clone(),
            name: self.name.clone(),
            creator_username: self.creator_username.clone(),
            updated_at_ms: self.updated_at_ms,
            has_stream_key: self.has_stream_key,
        }
    }
}

/// What keeps the stream keys of profiles.
pub trait SecretStore {
    /// Keeps the stream key of a profile.
    fn set_stream_key(&mut self, profile_id: &str, stream_key: &str) -> (r: Result<(), String>);

    /// The stream key of a profile.
    fn get_stream_key(&mut self, profile_id: &str) -> (r: Result<Option<String>, String>);

    /// Forgets the stream key of a profile.
    fn delete_stream_key(&mut self, profile_id: &str) -> (r: Result<(), String>);
}

/// What the entries hold under each name: the last one counts.
pub open spec fn entries_map(entries: Seq<(Seq<char>, Seq<char>)>) -> Map<Seq<char>, Seq<char>>
    decreases entries.len(),
{
    if entries.len() == 0 {
        Map::empty()
    } else {
        entries_map(entries.drop_last()).insert(entries.last().0, entries.last().1)
    }
}

/// The entries without those of a name.
pub open spec fn entries_without(
    entries: Seq<(Seq<char>, Seq<char>)>,
    name: Seq<char>,
) -> Seq<(Seq<char>, Seq<char>)>
    decreases entries.len(),
{
    if entries.len() == 0 {
        Seq::empty()
    } else {
        let before = entries_without(entries.drop_last(), name);
        if entries.last().0 == name {
            before
        } else {
            before.push(entries.last())
        }
    }
}

proof fn lemma_entries_without(entries: Seq<(Seq<char>, Seq<char>)>, name: Seq<char>)
    ensures
        entries_map(entries_without(entries, name)) == entries_map(entries).remove(name),
    decreases entries.len(),
{
    if entries.len() == 0 {
        assert(entries_map(entries).remove(name) =~= Map::empty());
    } else {
        let shorter = entries.drop_last();
        let last = entries.last();
        lemma_entries_without(shorter, name);
        let before = entries_without(shorter, name);
        if last.0 == name {
            assert(entries_map(entries).remove(name) =~= entries_map(shorter).remove(name));
        } else {
            assert(before.push(last).drop_last() =~= before);
            assert(entries_map(entries).remove(name) =~= entries_map(shorter).remove(name).insert(
                last.0,
                last.1,
            ));
        }
    }
}

/// Stream keys that are kept while the program runs.
#[derive(Debug, PartialEq, Eq)]
pub struct InMemorySecretStore {
    entries: Vec<(String, String)>,
}

impl Default for InMemorySecretStore {
    fn default() -> (r: Self)
        ensures
            r.keys() == Map::<Seq<char>, Seq<char>>::empty(),
    {
        let entries: Vec<(String, String)> = Vec::new();
        assert(model::pairs(entries@) =~= Seq::empty());
        InMemorySecretStore { entries }
    }
}

impl InMemorySecretStore {
    /// The stream keys, by profile.
    pub closed spec fn keys(&self) -> Map<Seq<char>, Seq<char>> {
        entries_map(model::pairs(self.entries@))
    }

    fn remove(&mut self, profile_id: &str)
        ensures
            final(self).keys() == old(self).keys().remove(profile_id@),
    {
        let ghost all = model::pairs(self.entries@);
        let mut kept: Vec<(String, String)> = Vec::new();
        let mut i: usize = 0;
        assert(all.take(0) =~= Seq::empty());
        assert(model::pairs(kept@) =~= Seq::empty());
        while i < self.entries.len()
            invariant
                i <= self.entries@.len(),
                *self == *old(self),
                all == model::pairs(self.entries@),
                model::pairs(kept@) == entries_without(all.take(i as int), profile_id@),
            decreases self.entries@.len() - i,
        {
            assert(all.take(i + 1).drop_last() =~= all.take(i as int));
            assert(all.take(i + 1).last() == all[i as int]);
            if !text::same_text(self.entries[i].0.as_str(), profile_id) {
                let ghost before = model::pairs(kept@);
                kept.push((self.entries[i].0.clone(), self.entries[i].1.clone()));
                assert(model::pairs(kept@) =~= before.push(all[i as int]));
            }
            i += 1;
        }
        assert(all.take(i as int) =~= all);
        proof {
            lemma_entries_without(all, profile_id@);
        }
        self.entries = kept;
    }
}

impl SecretStore for InMemorySecretStore {
    fn set_stream_key(&mut self, profile_id: &str, stream_key: &str) -> (r: Result<(), String>)
        ensures
            r is Ok,
            final(self).keys() == old(self).keys().insert(profile_id@, stream_key@),
    {
        self.remove(profile_id);
        let ghost before = model::pairs(self.entries@);
        self.entries.push((profile_id.to_owned(), stream_key.to_owned()));
        proof {
            assert(model::pairs(self.entries@) =~= before.push((profile_id@, stream_key@)));
            assert(model::pairs(self.entries@).drop_last() =~= before);
            assert(self.keys() =~= old(self).keys().insert(profile_id@, stream_key@));
        }
        Ok(())
    }

    fn get_stream_key(&mut self, profile_id: &str) -> (r: Result<Option<String>, String>)
        ensures
            *final(self) == *old(self),
            r matches Ok(found) && model::opt_text(found) == (if old(self).keys().contains_key(
                profile_id@,
            ) {
                Some(old(self).keys()[profile_id@])
            } else {
                None
            }),
    {
        let ghost all = model::pairs(self.entries@);
        let mut i: usize = self.entries.len();
        assert(all.take(i as int) =~= all);
        while i > 0
            invariant
                i <= self.entries@.len(),
                *self == *old(self),
                all == model::pairs(self.entries@),
                entries_map(all).contains_key(profile_id@) == entries_map(
                    all.take(i as int),
                ).contains_key(profile_id@),
                entries_map(all).contains_key(profile_id@) ==> entries_map(all)[profile_id@]
                    == entries_map(all.take(i as int))[profile_id@],
            decreases i,
        {
            assert(all.take(i as int).drop_last() =~= all.take(i - 1));
            assert(all.take(i as int).last() == all[i - 1]);
            if text::same_text(self.entries[i - 1].0.as_str(), profile_id) {
                return Ok(Some(self.entries[i - 1].1.clone()));
            }
            i -= 1;
        }
        assert(all.take(0) =~= Seq::empty());
        Ok(None)
    }

    fn delete_stream_key(&mut self, profile_id: &str) -> (r: Result<(), String>)
        ensures
            r is Ok,
            final(self).keys() == old(self).keys().remove(profile_id@),
    {
        self.remove(profile_id);
        Ok(())
    }
}

/// A place in the system's keyring.
#[derive(Debug, PartialEq, Eq)]
pub struct KeyringPlace {
    pub service: String,
    pub account: String,
}

/// The model of `KeyringPlace`.
#[verifier::ext_equal]
pub struct PlaceModel {
    pub service: Seq<char>,
    pub account: Seq<char>,
}

impl View for KeyringPlace {
    type V = PlaceModel;

    open spec fn view(&self) -> PlaceModel {
        PlaceModel { service: self.service@, account: self.account@ }
    }
}

/// The account of a profile's stream key.
pub open spec fn account_of(profile_id: Seq<char>) -> Seq<char> {
    "profile_"@ + text::trimmed(profile_id) + "_stream_key"@
}

/// The accounts in which a profile's stream key may be found: the present one first, then those
/// of earlier releases.
pub open spec fn accounts_of(profile_id: Seq<char>) -> Seq<Seq<char>> {
    let id = text::trimmed(profile_id);
    seq![
        account_of(profile_id),
        "profile:"@ + id + ":stream_key"@,
        "profile-"@ + id + "-stream_key"@,
        id,
    ]
}

/// The places of a service in which a profile's stream key may be found.
pub open spec fn service_places(service: Seq<char>, profile_id: Seq<char>) -> Seq<PlaceModel> {
    Seq::new(4, |i: int| PlaceModel { service, account: accounts_of(profile_id)[i] })
}

/// The places of several services.
pub open spec fn places_of(services: Seq<Seq<char>>, profile_id: Seq<char>) -> Seq<PlaceModel>
    decreases services.len(),
{
    if services.len() == 0 {
        Seq::empty()
    } else {
        places_of(services.drop_last(), profile_id) + service_places(services.last(), profile_id)
    }
}

/// Stream keys in the system's keyring, under a service name and those of earlier releases.
#[derive(Debug, PartialEq, Eq)]
pub struct KeyringSecretStore {
    service_name: String,
    legacy_service_names: Vec<String>,
}

impl KeyringSecretStore {
    /// The service name.
    pub closed spec fn service(&self) -> Seq<char> {
        self.service_name@
    }

    /// The service names of earlier releases.
    pub closed spec fn legacy_services(&self) -> Seq<Seq<char>> {
        text::texts(self.legacy_service_names@)
    }

    /// Stream keys under a service name.
    pub fn new(service_name: &str) -> (r: Self)
        ensures
            r.service() == service_name@,
            r.legacy_services() == Seq::<Seq<char>>::empty(),
    {
        let store = KeyringSecretStore {
            service_name: service_name.to_owned(),
            legacy_service_names: Vec::new(),
        };
        assert(store.legacy_services() =~= Seq::empty());
        store
    }

    /// The same with the service names of earlier releases.
    pub fn with_legacy_service_names(self, legacy_service_names: Vec<String>) -> (r: Self)
        ensures
            r.service() == self.service(),
            r.legacy_services() == text::texts(legacy_service_names@),
    {
        KeyringSecretStore { service_name: self.service_name, legacy_service_names }
    }

    /// The place in which a profile's stream key is kept.
    pub fn primary_place(&self, profile_id: &str) -> (r: KeyringPlace)
        ensures
            r@ == (PlaceModel { service: self.service(), account: account_of(profile_id@) }),
    {
        KeyringPlace {
            service: self.service_name.clone(),
            account: text::concat3("profile_", text::trim(profile_id), "_stream_key"),
        }
    }

    fn push_places(places: &mut Vec<KeyringPlace>, service: &str, profile_id: &str)
        ensures
            model::views(final(places)@) == model::views(old(places)@) + service_places(
                service@,
                profile_id@,
            ),
    {
        let ghost before = model::views(places@);
        let id = text::trim(profile_id);
        places.push(
            KeyringPlace {
                service: service.to_owned(),
                account: text::concat3("profile_", id, "_stream_key"),
            },
        );
        places.push(
            KeyringPlace {
                service: service.to_owned(),
                account: text::concat3("profile:", id, ":stream_key"),
            },
        );
        places.push(
            KeyringPlace {
                service: service.to_owned(),
                account: text::concat3("profile-", id, "-stream_key"),
            },
        );
        places.push(KeyringPlace { service: service.to_owned(), account: id.to_owned() });
        proof {
            let added = service_places(service@, profile_id@);
            let n = before.len() as int;
            assert(model::views(places@)[n] == added[0]);
            assert(model::views(places@)[n + 1] == added[1]);
            assert(model::views(places@)[n + 2] == added[2]);
            assert(model::views(places@)[n + 3] == added[3]);
            assert(model::views(places@) =~= before + added);
        }
    }

    /// The places in which a profile's stream key is looked for, and from which it is deleted, in
    /// order.
    pub fn places(&self, profile_id: &str) -> (r: Vec<KeyringPlace>)
        ensures
            model::views(r@) == places_of(
                seq![self.service()] + self.legacy_services(),
                profile_id@,
            ),
    {
        let ghost services = seq![self.service()] + self.legacy_services();
        let mut out: Vec<KeyringPlace> = Vec::new();
        assert(model::views(out@) =~= Seq::empty());
        KeyringSecretStore::push_places(&mut out, self.service_name.as_str(), profile_id);
        let mut i: usize = 0;
        proof {
            let one = services.take(1);
            assert(one.drop_last() =~= Seq::empty());
            assert(places_of(one.drop_last(), profile_id@) =~= Seq::empty());
            assert(model::views(out@) =~= places_of(one, profile_id@));
        }
        while i < self.legacy_service_names.len()
            invariant
                i <= self.legacy_service_names@.len(),
                services == seq![self.service()] + self.legacy_services(),
                model::views(out@) == places_of(services.take(i + 1), profile_id@),
            decreases self.legacy_service_names@.len() - i,
        {
            proof {
                assert(services.take(i + 2).drop_last() =~= services.take(i + 1));
                assert(services.take(i + 2).last() == self.legacy_service_names@[i as int]@);
            }
            KeyringSecretStore::push_places(
                &mut out,
                self.legacy_service_names[i].as_str(),
                profile_id,
            );
            i += 1;
        }
        assert(services.take(i + 1) =~= services);
        out
    }
}

/// What reading a place of the keyring gave.
#[derive(Debug, PartialEq, Eq)]
pub enum KeyringRead {
    Found(String),
    Missing,
    Failed(String),
}

/// What follows from reading a place of the keyring.
#[derive(Debug, PartialEq, Eq)]
pub enum LookupStep {
    /// The next place is read.
    Next,
    /// The key is found; it is copied to the primary place where `migrate` is set.
    Found { stream_key: String, migrate: bool },
    /// There is no key.
    Absent,
    /// The search ends with an error.
    Failed(String),
}

/// What follows from what a place held.
pub open spec fn searched(read: KeyringRead, index: usize, places: usize) -> LookupStep {
    match read {
        KeyringRead::Found(stream_key) => LookupStep::Found { stream_key, migrate: index > 0 },
        KeyringRead::Missing => if index + 1 < places {
            LookupStep::Next
        } else {
            LookupStep::Absent
        },
        KeyringRead::Failed(message) => LookupStep::Failed(message),
    }
}

/// What follows from reading a place: a key that was not in the first place is copied there.
pub fn keyring_step(read: KeyringRead, index: usize, places: usize) -> (r: LookupStep)
    requires
        index < places,
    ensures
        r == searched(read, index, places),
        match read {
            KeyringRead::Found(key) => r == (LookupStep::Found {
                stream_key: key,
                migrate: index > 0,
            }),
            KeyringRead::Missing => r == (if index + 1 < places {
                LookupStep::Next
            } else {
                LookupStep::Absent
            }),
            KeyringRead::Failed(message) => r == LookupStep::Failed(message),
        },
{
    match read {
        KeyringRead::Found(stream_key) => LookupStep::Found { stream_key, migrate: index > 0 },
        KeyringRead::Missing => {
            if index + 1 < places {
                LookupStep::Next
            } else {
                LookupStep::Absent
            }
        },
        KeyringRead::Failed(message) => LookupStep::Failed(message),
    }
}

/// What can go wrong with a store.
#[derive(Debug, PartialEq, Eq)]
pub enum StoreError {
    Sqlite(String),
    Io(String),
    Json(String),
    Validation(ConfigError),
    Secret(String),
    Time(String),
}

/// The text of an error.
pub open spec fn store_error_text(error: StoreError) -> Seq<char> {
    match error {
        StoreError::Sqlite(message) => "SQLite error: "@ + message@,
        StoreError::Io(message) => "I/O error: "@ + message@,
        StoreError::Json(message) => "JSON error: "@ + message@,
        StoreError::Validation(inner) => "Validation error: "@ + inner.message@,
        StoreError::Secret(message) => "Secret storage error: "@ + message@,
        StoreError::Time(message) => "Time error: "@ + message@,
    }
}

impl StoreError {
    /// The text of the error.
    pub fn message(&self) -> (r: String)
        ensures
            r@ == store_error_text(*self),
    {
        match self {
            StoreError::Sqlite(message) => text::concat2("SQLite error: ", message.as_str()),
            StoreError::Io(message) => text::concat2("I/O error: ", message.as_str()),
            StoreError::Json(message) => text::concat2("JSON error: ", message.as_str()),
            StoreError::Validation(inner) => text::concat2(
                "Validation error: ",
                inner.message.as_str(),
            ),
            StoreError::Secret(message) => text::concat2(
                "Secret storage error: ",
                message.as_str(),
            ),
            StoreError::Time(message) => text::concat2("Time error: ", message.as_str()),
        }
    }
}

/// What keeps profiles.
pub trait ProfileStore {
    fn upsert_profile(&mut self, profile: &AppProfile, stream_key: &str) -> (r: Result<
        String,
        StoreError,
    >);

    fn list_profiles(&mut self) -> (r: Result<Vec<ProfileSummary>, StoreError>);

    fn load_profile(&mut self, profile_id: &str) -> (r: Result<Option<LoadedProfile>, StoreError>);

    fn last_selected_profile_id(&mut self) -> (r: Result<Option<String>, StoreError>);

    fn set_last_selected_profile_id(&mut self, profile_id: Option<&str>) -> (r: Result<
        (),
        StoreError,
    >);

    fn close_to_background_preference(&mut self) -> (r: Result<Option<bool>, StoreError>);

    fn set_close_to_background_preference(&mut self, enabled: bool) -> (r: Result<(), StoreError>);

    fn set_stream_key(&mut self, profile_id: &str, stream_key: &str) -> (r: Result<(), StoreError>);

    fn clear_stream_key(&mut self, profile_id: &str) -> (r: Result<(), StoreError>);

    fn delete_profile(&mut self, profile_id: &str) -> (r: Result<(), StoreError>);
}

/// Whether a stream key may be kept: it has to hold something.
pub fn check_stream_key(stream_key: &str) -> (r: Result<(), ConfigError>)
    ensures
        r is Ok <==> text::trimmed(stream_key@).len() > 0,
        r matches Err(error) ==> error.message@ == "config.streamKey is required"@,
{
    if text::trim(stream_key).unicode_len() == 0 {
        Err(ConfigError { message: "config.streamKey is required".to_owned() })
    } else {
        Ok(())
    }
}

/// A lower-case hexadecimal digit.
pub open spec fn hex_char(c: char) -> bool {
    '0' <= c <= '9' || 'a' <= c <= 'f'
}

/// A random id: hexadecimal digits in five groups, with the version and the variant of an id that
/// was made at random.
pub open spec fn random_id(id: Seq<char>) -> bool {
    &&& id.len() == 36
    &&& forall|i: int|
        0 <= i < 36 ==> if i == 8 || i == 13 || i == 18 || i == 23 {
            #[trigger] id[i] == '-'
        } else {
            hex_char(id[i])
        }
    &&& id[14] == '4'
    &&& id[19] == '8' || id[19] == '9' || id[19] == 'a' || id[19] == 'b'
}

/// `uuid::Uuid::new_v4`, in its usual form: thirty-six characters, hyphens among lower-case
/// hexadecimal digits, with the version and variant of a random id. The other digits are left to
/// chance.
#[verifier::external_body]
pub(crate) fn fresh_id() -> (r: String)
    ensures
        random_id(r@),
{
    uuid::Uuid::new_v4().to_string()
}

/// The id that a profile is kept under: its own, trimmed, or a new one where it has none.
pub open spec fn kept_id(id: Seq<char>, fresh: Seq<char>) -> Seq<char> {
    config::nonempty_or(text::trimmed(id), fresh)
}

/// The id that a profile is kept under, where `fresh` is a new one.
pub fn profile_id_or(id: &str, fresh: &str) -> (r: String)
    ensures
        r@ == kept_id(id@, fresh@),
{
    config::nonempty_or_default(text::trim(id), fresh)
}

/// The id that a profile is kept under.
pub fn assign_profile_id(id: &str) -> (r: String)
    ensures
        text::trimmed(id@).len() > 0 ==> r@ == text::trimmed(id@),
        text::trimmed(id@).len() == 0 ==> random_id(r@),
        r@.len() > 0,
{
    if text::trim(id).unicode_len() == 0 {
        let fresh = fresh_id();
        profile_id_or(id, fresh.as_str())
    } else {
        profile_id_or(id, "")
    }
}

/// The texts of addresses.
pub open spec fn address_texts(list: Seq<IpAddress>) -> Seq<Seq<char>> {
    Seq::new(list.len(), |i: int| ip_text::ip_text(list[i]))
}

fn write_addresses(list: &Vec<IpAddress>) -> (r: Vec<String>)
    ensures
        text::texts(r@) == address_texts(list@),
{
    let ghost wanted = address_texts(list@);
    let mut out: Vec<String> = Vec::new();
    let mut i: usize = 0;
    assert(text::texts(out@) =~= wanted.take(0));
    while i < list.len()
        invariant
            i <= list@.len(),
            wanted == address_texts(list@),
            text::texts(out@) == wanted.take(i as int),
        decreases list@.len() - i,
    {
        let item = ip_text::format_ip(list[i]);
        proof {
            text::lemma_texts_push(out@, item);
        }
        out.push(item);
        i += 1;
        assert(text::texts(out@) =~= wanted.take(i as int));
    }
    assert(wanted.take(i as int) =~= wanted);
    out
}

/// The configuration that a profile keeps, from its normalized form.
pub open spec fn stored_config(n: NormalizedModel, allow_insecure_http: bool) -> InAppModel {
    InAppModel {
        website_base_url: n.base_url.text,
        creator_username: n.creator_username,
        allow_insecure_http,
        osc_listen: n.osc_listen,
        allow_network_osc: n.allow_network_osc,
        osc_allowed_senders: address_texts(n.osc_allowed_senders),
        relay: n.relay,
        debug: n.debug,
        discovery: n.discovery,
        forward_targets: n.forward_targets,
        mappings: n.mappings,
        output: n.output,
    }
}

/// The configuration that a profile keeps.
pub fn config_to_store(normalized: &NormalizedConfig, allow_insecure_http: bool) -> (r: InAppConfig)
    ensures
        r@ == stored_config(normalized@, allow_insecure_http),
{
    InAppConfig {
        website_base_url: normalized.base_url.text.clone(),
        creator_username: normalized.creator_username.clone(),
        allow_insecure_http,
        osc_listen: normalized.osc_listen.duplicate(),
        allow_network_osc: normalized.allow_network_osc,
        osc_allowed_senders: write_addresses(&normalized.osc_allowed_senders),
        relay: normalized.relay.duplicate(),
        debug: normalized.debug,
        discovery: normalized.discovery.duplicate(),
        forward_targets: model::copy_all(&normalized.forward_targets),
        mappings: model::copy_all(&normalized.mappings),
        output: normalized.output,
    }
}

/// The profile that is kept under an id, or the rule that it breaks.
pub open spec fn sanitized_profile(
    profile: ProfileModel,
    stream_key: Seq<char>,
    id: Seq<char>,
    place: PathPlaceModel,
) -> Result<ProfileModel, Seq<char>> {
    match config::normalized_in_app(profile.config, stream_key, place) {
        Err(message) => Err(message),
        Ok(n) => Ok(
            ProfileModel {
                id,
                name: text::trimmed(profile.name),
                config: stored_config(n, profile.config.allow_insecure_http),
            },
        ),
    }
}

/// Makes the profile that is kept under an id. `place` is what the system makes of its discovery
/// path.
pub fn build_sanitized_profile(
    profile: &AppProfile,
    stream_key: &str,
    id: &str,
    place: &PathPlace,
) -> (r: Result<AppProfile, ConfigError>)
    ensures
        config::outcome(r) == sanitized_profile(profile@, stream_key@, id@, place@),
{
    match config::normalize_in_app_config(&profile.config, stream_key, place) {
        Err(error) => Err(error),
        Ok(normalized) => Ok(
            AppProfile {
                id: id.to_owned(),
                name: text::trim(profile.name.as_str()).to_owned(),
                config: config_to_store(&normalized, profile.config.allow_insecure_http),
            },
        ),
    }
}

/// What is kept of a profile does not depend on its stream key: any two keys that are accepted
/// leave the same profile.
pub proof fn law_stream_key_not_stored(
    profile: ProfileModel,
    first: Seq<char>,
    second: Seq<char>,
    id: Seq<char>,
    place: PathPlaceModel,
)
    requires
        text::trimmed(first).len() > 0,
        text::trimmed(second).len() > 0,
    ensures
        sanitized_profile(profile, first, id, place) == sanitized_profile(
            profile,
            second,
            id,
            place,
        ),
{
}

/// A profile in a document.
#[derive(Debug, PartialEq, Eq)]
pub struct ProfileRecord {
    pub id: String,
    pub name: String,
    pub config: InAppConfig,
    pub created_at_ms: i64,
    pub updated_at_ms: i64,
}

/// The model of `ProfileRecord`.
#[verifier::ext_equal]
pub struct RecordModel {
    pub id: Seq<char>,
    pub name: Seq<char>,
    pub config: InAppModel,
    pub created_at_ms: i64,
    pub updated_at_ms: i64,
}

impl View for ProfileRecord {
    type V = RecordModel;

    open spec fn view(&self) -> RecordModel {
        RecordModel {
            id: self.id@,
            name: self.name@,
            config: self.config@,
            created_at_ms: self.created_at_ms,
            updated_at_ms: self.updated_at_ms,
        }
    }
}

impl Duplicate for ProfileRecord {
    fn duplicate(&self) -> (r: Self) {
        ProfileRecord {
            id: self.id.clone(),
            name: self.name.clone(),
            config: self.config.duplicate(),
            created_at_ms: self.created_at_ms,
            updated_at_ms: self.updated_at_ms,
        }
    }
}

/// The profiles and settings that are kept in one file.
#[derive(Debug, PartialEq, Eq)]
pub struct ProfileDocument {
    pub version: u32,
    pub last_selected_profile_id: Option<String>,
    pub close_to_background: Option<bool>,
    pub profiles: Vec<ProfileRecord>,
}

/// The model of `ProfileDocument`.
#[verifier::ext_equal]
pub struct DocumentModel {
    pub version: u32,
    pub last_selected_profile_id: Option<Seq<char>>,
    pub close_to_background: Option<bool>,
    pub profiles: Seq<RecordModel>,
}

impl View for ProfileDocument {
    type V = DocumentModel;

    open spec fn view(&self) -> DocumentModel {
        DocumentModel {
            version: self.version,
            last_selected_profile_id: model::opt_text(self.last_selected_profile_id),
            close_to_background: self.close_to_background,
            profiles: model::views(self.profiles@),
        }
    }
}

impl Duplicate for ProfileDocument {
    fn duplicate(&self) -> (r: Self) {
        ProfileDocument {
            version: self.version,
            last_selected_profile_id: model::copy_opt_text(&self.last_selected_profile_id),
            close_to_background: self.close_to_background,
            profiles: model::copy_all(&self.profiles),
        }
    }
}

impl Default for ProfileDocument {
    fn default() -> (r: Self)
        ensures
            r@ == (DocumentModel {
                version: 1,
                last_selected_profile_id: None,
                close_to_background: None,
                profiles: Seq::empty(),
            }),
    {
        let document = ProfileDocument {
            version: 1,
            last_selected_profile_id: None,
            close_to_background: None,
            profiles: Vec::new(),
        };
        assert(document@.profiles =~= Seq::empty());
        document
    }
}

/// The records after a profile was written: the first record of its id takes its name and its
/// configuration, or a new record is added.
pub open spec fn records_upserted(
    records: Seq<RecordModel>,
    profile: ProfileModel,
    now_ms: i64,
) -> Seq<RecordModel>
    decreases records.len(),
{
    if records.len() == 0 {
        seq![
            RecordModel {
                id: profile.id,
                name: profile.name,
                config: profile.config,
                created_at_ms: now_ms,
                updated_at_ms: now_ms,
            },
        ]
    } else if records[0].id == profile.id {
        seq![
            RecordModel {
                name: profile.name,
                config: profile.config,
                updated_at_ms: now_ms,
                ..records[0]
            },
        ] + records.drop_first()
    } else {
        seq![records[0]] + records_upserted(records.drop_first(), profile, now_ms)
    }
}

/// The first record of an id.
pub open spec fn record_of(records: Seq<RecordModel>, id: Seq<char>) -> Option<RecordModel>
    decreases records.len(),
{
    if records.len() == 0 {
        None
    } else if records[0].id == id {
        Some(records[0])
    } else {
        record_of(records.drop_first(), id)
    }
}

/// The records without those of an id.
pub open spec fn records_without(records: Seq<RecordModel>, id: Seq<char>) -> Seq<RecordModel>
    decreases records.len(),
{
    if records.len() == 0 {
        Seq::empty()
    } else {
        let before = records_without(records.drop_last(), id);
        if records.last().id == id {
            before
        } else {
            before.push(records.last())
        }
    }
}

/// The profile in a record.
pub open spec fn record_profile(record: RecordModel) -> ProfileModel {
    ProfileModel { id: record.id, name: record.name, config: record.config }
}

/// A record put in its place among records of which the latest come first.
pub open spec fn record_placed(records: Seq<RecordModel>, record: RecordModel) -> Seq<RecordModel>
    decreases records.len(),
{
    if records.len() == 0 || record.updated_at_ms <= records.last().updated_at_ms {
        records.push(record)
    } else {
        record_placed(records.drop_last(), record).push(records.last())
    }
}

/// The records with the latest first; those of one time stay in their order.
pub open spec fn latest_first(records: Seq<RecordModel>) -> Seq<RecordModel>
    decreases records.len(),
{
    if records.len() == 0 {
        Seq::empty()
    } else {
        record_placed(latest_first(records.drop_last()), records.last())
    }
}

/// What a list shows of a record.
pub open spec fn record_summary(record: RecordModel, has_stream_key: bool) -> SummaryModel {
    SummaryModel {
        id: record.id,
        name: record.name,
        creator_username: record.config.creator_username,
        updated_at_ms: record.updated_at_ms,
        has_stream_key,
    }
}

fn place_record(records: &mut Vec<ProfileRecord>, record: ProfileRecord)
    ensures
        model::views(final(records)@) == record_placed(model::views(old(records)@), record@),
{
    let ghost all = model::views(records@);
    let mut i: usize = records.len();
    assert(all.take(i as int) =~= all);
    assert(all.skip(i as int) =~= Seq::empty());
    assert(record_placed(all, record@) + Seq::<RecordModel>::empty() =~= record_placed(
        all,
        record@,
    ));
    while i > 0 && record.updated_at_ms > records[i - 1].updated_at_ms
        invariant
            i <= records@.len(),
            records@ == old(records)@,
            all == model::views(records@),
            record_placed(all, record@) == record_placed(all.take(i as int), record@) + all.skip(
                i as int,
            ),
        decreases i,
    {
        proof {
            let shorter = all.take(i as int);
            assert(shorter.drop_last() =~= all.take(i - 1));
            assert(shorter.last() == all[i - 1]);
            assert(record_placed(all.take(i - 1), record@).push(all[i - 1]) + all.skip(i as int)
                =~= record_placed(all.take(i - 1), record@) + all.skip(i - 1));
        }
        i -= 1;
    }
    records.insert(i, record);
    proof {
        if i > 0 {
            assert(all.take(i as int).last() == all[i - 1]);
        }
        assert(record_placed(all.take(i as int), record@) == all.take(i as int).push(record@));
        assert(model::views(records@) =~= all.take(i as int).push(record@) + all.skip(i as int));
    }
}

impl ProfileRecord {
    /// What a list shows of the record.
    pub fn summary(&self, has_stream_key: bool) -> (r: ProfileSummary)
        ensures
            r@ == record_summary(self@, has_stream_key),
    {
        ProfileSummary {
            id: self.id.clone(),
            name: self.name.clone(),
            creator_username: self.config.creator_username.clone(),
            updated_at_ms: self.updated_at_ms,
            has_stream_key,
        }
    }
}

impl ProfileDocument {
    /// Gives a document without a version the present one.
    pub fn repair(&mut self)
        ensures
            final(self)@ == (DocumentModel {
                version: if old(self).version == 0 {
                    1
                } else {
                    old(self).version
                },
                ..old(self)@
            }),
    {
        if self.version == 0 {
            self.version = 1;
        }
    }

    /// Writes a profile.
    pub fn upsert(&mut self, profile: &AppProfile, now_ms: i64)
        ensures
            final(self)@ == (DocumentModel {
                profiles: records_upserted(old(self)@.profiles, profile@, now_ms),
                ..old(self)@
            }),
    {
        let ghost all = model::views(self.profiles@);
        let ghost wanted = records_upserted(all, profile@, now_ms);
        let mut i: usize = 0;
        assert(all.skip(0) =~= all);
        assert(all.take(0) + wanted =~= wanted);
        while i < self.profiles.len()
            invariant
                i <= self.profiles@.len(),
                *self == *old(self),
                all == model::views(self.profiles@),
                wanted == records_upserted(all, profile@, now_ms),
                wanted == all.take(i as int) + records_upserted(
                    all.skip(i as int),
                    profile@,
                    now_ms,
                ),
            decreases self.profiles@.len() - i,
        {
            assert(all.skip(i as int)[0] == all[i as int]);
            assert(all.skip(i as int).drop_first() =~= all.skip(i + 1));
            if text::same_text(self.profiles[i].id.as_str(), profile.id.as_str()) {
                let record = ProfileRecord {
                    id: self.profiles[i].id.clone(),
                    name: profile.name.clone(),
                    config: profile.config.duplicate(),
                    created_at_ms: self.profiles[i].created_at_ms,
                    updated_at_ms: now_ms,
                };
                self.profiles.set(i, record);
                assert(model::views(self.profiles@) =~= wanted);
                return;
            }
            assert(all.take(i as int) + (seq![all[i as int]] + records_upserted(
                all.skip(i + 1),
                profile@,
                now_ms,
            )) =~= all.take(i + 1) + records_upserted(all.skip(i + 1), profile@, now_ms));
            i += 1;
        }
        let record = ProfileRecord {
            id: profile.id.clone(),
            name: profile.name.clone(),
            config: profile.config.duplicate(),
            created_at_ms: now_ms,
            updated_at_ms: now_ms,
        };
        self.profiles.push(record);
        assert(model::views(self.profiles@) =~= wanted);
    }

    /// The profile of an id.
    pub fn load(&self, profile_id: &str) -> (r: Option<AppProfile>)
        ensures
            model::opt_view(r) == (match record_of(self@.profiles, profile_id@) {
                Some(record) => Some(record_profile(record)),
                None => None,
            }),
    {
        let ghost all = model::views(self.profiles@);
        let mut i: usize = 0;
        assert(all.skip(0) =~= all);
        while i < self.profiles.len()
            invariant
                i <= self.profiles@.len(),
                all == model::views(self.profiles@),
                record_of(all, profile_id@) == record_of(all.skip(i as int), profile_id@),
            decreases self.profiles@.len() - i,
        {
            assert(all.skip(i as int)[0] == all[i as int]);
            assert(all.skip(i as int).drop_first() =~= all.skip(i + 1));
            if text::same_text(self.profiles[i].id.as_str(), profile_id) {
                return Some(
                    AppProfile {
                        id: self.profiles[i].id.clone(),
                        name: self.profiles[i].name.clone(),
                        config: self.profiles[i].config.duplicate(),
                    },
                );
            }
            i += 1;
        }
        None
    }

    /// The records, the latest first.
    pub fn listing(&self) -> (r: Vec<ProfileRecord>)
        ensures
            model::views(r@) == latest_first(self@.profiles),
    {
        let ghost all = model::views(self.profiles@);
        let mut out: Vec<ProfileRecord> = Vec::new();
        let mut i: usize = 0;
        assert(all.take(0) =~= Seq::empty());
        assert(model::views(out@) =~= Seq::empty());
        while i < self.profiles.len()
            invariant
                i <= self.profiles@.len(),
                all == model::views(self.profiles@),
                model::views(out@) == latest_first(all.take(i as int)),
            decreases self.profiles@.len() - i,
        {
            assert(all.take(i + 1).drop_last() =~= all.take(i as int));
            assert(all.take(i + 1).last() == self.profiles@[i as int]@);
            place_record(&mut out, self.profiles[i].duplicate());
            i += 1;
        }
        assert(all.take(i as int) =~= all);
        out
    }

    /// Remembers the profile that was selected last; a blank id is none.
    pub fn set_last_selected(&mut self, profile_id: Option<&str>)
        ensures
            final(self)@ == (DocumentModel {
                last_selected_profile_id: selected_id(
                    match profile_id {
                        Some(id) => Some(id@),
                        None => None,
                    },
                ),
                ..old(self)@
            }),
    {
        self.last_selected_profile_id = match profile_id {
            Some(id) => {
                let trimmed = text::trim(id);
                if trimmed.unicode_len() == 0 {
                    None
                } else {
                    Some(trimmed.to_owned())
                }
            },
            None => None,
        };
    }

    /// Remembers whether closing the window leaves the program running.
    pub fn set_close_to_background(&mut self, enabled: bool)
        ensures
            final(self)@ == (DocumentModel { close_to_background: Some(enabled), ..old(self)@ }),
    {
        self.close_to_background = Some(enabled);
    }

    /// Deletes a profile, and forgets that it was selected last.
    pub fn delete(&mut self, profile_id: &str)
        ensures
            final(self)@ == document_without(old(self)@, profile_id@),
    {
        let ghost all = model::views(self.profiles@);
        let mut kept: Vec<ProfileRecord> = Vec::new();
        let mut i: usize = 0;
        assert(all.take(0) =~= Seq::empty());
        assert(model::views(kept@) =~= Seq::empty());
        while i < self.profiles.len()
            invariant
                i <= self.profiles@.len(),
                *self == *old(self),
                all == model::views(self.profiles@),
                model::views(kept@) == records_without(all.take(i as int), profile_id@),
            decreases self.profiles@.len() - i,
        {
            assert(all.take(i + 1).drop_last() =~= all.take(i as int));
            assert(all.take(i + 1).last() == self.profiles@[i as int]@);
            if !text::same_text(self.profiles[i].id.as_str(), profile_id) {
                let record = self.profiles[i].duplicate();
                proof {
                    model::lemma_views_push(kept@, record);
                }
                kept.push(record);
            }
            i += 1;
        }
        assert(all.take(i as int) =~= all);
        self.profiles = kept;
        let selected = match &self.last_selected_profile_id {
            Some(id) => text::same_text(id.as_str(), profile_id),
            None => false,
        };
        if selected {
            self.last_selected_profile_id = None;
        }
    }
}

/// The id that is remembered as selected: trimmed, none where it is blank.
pub open spec fn selected_id(profile_id: Option<Seq<char>>) -> Option<Seq<char>> {
    match profile_id {
        Some(id) => if text::trimmed(id).len() == 0 {
            None
        } else {
            Some(text::trimmed(id))
        },
        None => None,
    }
}

/// The id that is remembered as selected.
pub fn selected_profile_id(profile_id: Option<&str>) -> (r: Option<String>)
    ensures
        model::opt_text(r) == selected_id(
            match profile_id {
                Some(id) => Some(id@),
                None => None,
            },
        ),
{
    match profile_id {
        Some(id) => {
            let trimmed = text::trim(id);
            if trimmed.unicode_len() == 0 {
                None
            } else {
                Some(trimmed.to_owned())
            }
        },
        None => None,
    }
}

/// The document without a profile.
pub open spec fn document_without(document: DocumentModel, id: Seq<char>) -> DocumentModel {
    DocumentModel {
        profiles: records_without(document.profiles, id),
        last_selected_profile_id: if document.last_selected_profile_id == Some(id) {
            None
        } else {
            document.last_selected_profile_id
        },
        ..document
    }
}

/// A profile that was written is read back as it was written, and every other profile is as it
/// was before.
pub proof fn law_read_back(
    records: Seq<RecordModel>,
    profile: ProfileModel,
    now_ms: i64,
    other: Seq<char>,
)
    ensures
        ({
            let after = records_upserted(records, profile, now_ms);
            &&& record_of(after, profile.id) matches Some(record) && record_profile(record)
                == profile && record.updated_at_ms == now_ms && record.created_at_ms == (
            match record_of(records, profile.id) {
                Some(before) => before.created_at_ms,
                None => now_ms,
            })
            &&& other != profile.id ==> record_of(after, other) == record_of(records, other)
        }),
    decreases records.len(),
{
    let after = records_upserted(records, profile, now_ms);
    if records.len() == 0 {
        assert(after.drop_first() =~= Seq::empty());
        assert(record_of(after.drop_first(), other) is None);
    } else if records[0].id == profile.id {
        assert(after.drop_first() =~= records.drop_first());
    } else {
        law_read_back(records.drop_first(), profile, now_ms, other);
        assert(after.drop_first() =~= records_upserted(records.drop_first(), profile, now_ms));
    }
}

proof fn lemma_record_of_push(records: Seq<RecordModel>, record: RecordModel, id: Seq<char>)
    ensures
        record_of(records.push(record), id) == (match record_of(records, id) {
            Some(found) => Some(found),
            None => if record.id == id {
                Some(record)
            } else {
                None
            },
        }),
    decreases records.len(),
{
    if records.len() == 0 {
        assert(records.push(record).drop_first() =~= Seq::empty());
        assert(record_of(records.push(record).drop_first(), id) is None);
    } else {
        assert(records.push(record).drop_first() =~= records.drop_first().push(record));
        lemma_record_of_push(records.drop_first(), record, id);
    }
}

/// A profile that was deleted is gone and no longer selected, while the selection of another stays,
/// and every other profile is as it was before.
pub proof fn law_deleted(document: DocumentModel, id: Seq<char>, other: Seq<char>)
    ensures
        record_of(document_without(document, id).profiles, id) is None,
        document_without(document, id).last_selected_profile_id == (
        if document.last_selected_profile_id == Some(id) {
            None
        } else {
            document.last_selected_profile_id
        }),
        other != id ==> record_of(document_without(document, id).profiles, other) == record_of(
            document.profiles,
            other,
        ),
    decreases document.profiles.len(),
{
    let records = document.profiles;
    if records.len() > 0 {
        let shorter = DocumentModel { profiles: records.drop_last(), ..document };
        law_deleted(shorter, id, other);
        let before = records_without(records.drop_last(), id);
        assert(records.drop_last().push(records.last()) =~= records);
        lemma_record_of_push(records.drop_last(), records.last(), other);
        lemma_record_of_push(before, records.last(), other);
        lemma_record_of_push(before, records.last(), id);
    }
}

/// The latest come first.
pub open spec fn ordered_records(records: Seq<RecordModel>) -> bool {
    forall|i: int, j: int|
        0 <= i < j < records.len() ==> (#[trigger] records[j]).updated_at_ms <= (
        #[trigger] records[i]).updated_at_ms
}

proof fn lemma_record_placed(records: Seq<RecordModel>, record: RecordModel)
    requires
        ordered_records(records),
    ensures
        ordered_records(record_placed(records, record)),
        record_placed(records, record).to_multiset() == records.to_multiset().insert(record),
        forall|k: int|
            0 <= k < record_placed(records, record).len() ==> (#[trigger] record_placed(
                records,
                record,
            )[k]).updated_at_ms >= (if records.len() > 0 && records.last().updated_at_ms
                < record.updated_at_ms {
                records.last().updated_at_ms
            } else {
                record.updated_at_ms
            }),
    decreases records.len(),
{
    broadcast use vstd::seq_lib::group_to_multiset_ensures;

    let out = record_placed(records, record);
    if records.len() == 0 {
        assert(out =~= seq![record]);
    } else if record.updated_at_ms <= records.last().updated_at_ms {
        assert forall|i: int, j: int| 0 <= i < j < out.len() implies (
        #[trigger] out[j]).updated_at_ms <= (#[trigger] out[i]).updated_at_ms by {
            if j == records.len() {
                if i < records.len() - 1 {
                    assert(records[records.len() - 1].updated_at_ms <= records[i].updated_at_ms);
                }
            }
        }
        assert forall|k: int| 0 <= k < out.len() implies (#[trigger] out[k]).updated_at_ms
            >= record.updated_at_ms by {
            if k < records.len() - 1 {
                assert(records[records.len() - 1].updated_at_ms <= records[k].updated_at_ms);
            }
        }
    } else {
        let shorter = records.drop_last();
        let last = records.last();
        assert(ordered_records(shorter)) by {
            assert forall|i: int, j: int| 0 <= i < j < shorter.len() implies (
            #[trigger] shorter[j]).updated_at_ms <= (#[trigger] shorter[i]).updated_at_ms by {
                assert(records[j].updated_at_ms <= records[i].updated_at_ms);
            }
        }
        lemma_record_placed(shorter, record);
        let front = record_placed(shorter, record);
        if shorter.len() > 0 {
            assert(records[records.len() - 1].updated_at_ms <= records[records.len()
                - 2].updated_at_ms);
        }
        assert forall|i: int, j: int| 0 <= i < j < out.len() implies (
        #[trigger] out[j]).updated_at_ms <= (#[trigger] out[i]).updated_at_ms by {
            if j == front.len() {
                assert(out[j] == last);
                assert(out[i] == front[i]);
            } else {
                assert(out[i] == front[i] && out[j] == front[j]);
            }
        }
        assert forall|k: int| 0 <= k < out.len() implies (#[trigger] out[k]).updated_at_ms
            >= last.updated_at_ms by {
            if k < front.len() {
                assert(out[k] == front[k]);
            }
        }
        assert(shorter.push(last) =~= records);
        assert(front.push(last).to_multiset() =~= records.to_multiset().insert(record));
    }
}

/// Listing the profiles puts the latest first and neither adds nor drops any.
pub proof fn law_listing(records: Seq<RecordModel>)
    ensures
        ordered_records(latest_first(records)),
        latest_first(records).to_multiset() == records.to_multiset(),
    decreases records.len(),
{
    broadcast use vstd::seq_lib::group_to_multiset_ensures;

    if records.len() > 0 {
        law_listing(records.drop_last());
        lemma_record_placed(latest_first(records.drop_last()), records.last());
        assert(records.drop_last().push(records.last()) =~= records);
    } else {
        assert(records =~= Seq::empty());
    }
}

proof fn lemma_absent_everywhere(records: Seq<RecordModel>, id: Seq<char>)
    ensures
        forall|i: int|
            0 <= i < records_without(records, id).len() ==> (#[trigger] records_without(
                records,
                id,
            )[i]).id != id,
    decreases records.len(),
{
    if records.len() > 0 {
        lemma_absent_everywhere(records.drop_last(), id);
        let before = records_without(records.drop_last(), id);
        let after = records_without(records, id);
        assert forall|i: int| 0 <= i < after.len() implies (#[trigger] after[i]).id != id by {
            if i < before.len() {
                assert(after[i] == before[i]);
            }
        }
    }
}

/// A profile that was deleted is not listed any more.
pub proof fn law_deleted_not_listed(document: DocumentModel, id: Seq<char>)
    ensures
        ({
            let listed = latest_first(document_without(document, id).profiles);
            forall|i: int| 0 <= i < listed.len() ==> (#[trigger] listed[i]).id != id
        }),
{
    broadcast use vstd::seq_lib::group_to_multiset_ensures;

    let kept = document_without(document, id).profiles;
    let listed = latest_first(kept);
    lemma_absent_everywhere(document.profiles, id);
    law_listing(kept);
    assert forall|i: int| 0 <= i < listed.len() implies (#[trigger] listed[i]).id != id by {
        assert(listed.contains(listed[i]));
        assert(listed.to_multiset().count(listed[i]) > 0);
        assert(kept.contains(listed[i]));
        let k = choose|k: int| 0 <= k < kept.len() && kept[k] == listed[i];
        assert(kept[k].id != id);
    }
}

} // verus!
