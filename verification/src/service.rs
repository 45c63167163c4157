//! The service: which profile runs, and what stops one from starting.
use vstd::prelude::*;
use vstd::string::*;
use crate::config;
use crate::config::{
    ConfigError, ForwardTarget, NormalizedConfig, NormalizedModel, PathPlace, PathPlaceModel,
};
use crate::model;
use crate::model::Duplicate;
use crate::relay;
use crate::relay::{ClientConfigModel, HttpTransport, RelayClient, RelayClientConfig};
use crate::store;
use crate::store::{LoadedProfile, StoreError};
use crate::text;

verus! {

/// What can go wrong with the service.
#[derive(Debug, PartialEq, Eq)]
pub enum ServiceError {
    Store(StoreError),
    Config(ConfigError),
    MissingProfile(String),
    MissingStreamKey(String),
    Runtime(String),
    RelayFactory(String),
    MutexPoisoned(String),
}

/// The text of an error.
pub open spec fn service_error_text(error: ServiceError) -> Seq<char> {
    match error {
        ServiceError::Store(inner) => store::store_error_text(inner),
        ServiceError::Config(inner) => inner.message@,
        ServiceError::MissingProfile(profile_id) => "Profile not found: "@ + profile_id@,
        ServiceError::MissingStreamKey(profile_id) => "Profile is missing stream key: "@
            + profile_id@,
        ServiceError::Runtime(message) => "Runtime error: "@ + message@,
        ServiceError::RelayFactory(message) => "Relay factory error: "@ + message@,
        ServiceError::MutexPoisoned(name) => "Mutex poisoned: "@ + name@,
    }
}

impl ServiceError {
    /// The text of the error.
    pub fn message(&self) -> (r: String)
        ensures
            r@ == service_error_text(*self),
    {
        match self {
            ServiceError::Store(inner) => inner.message(),
            ServiceError::Config(inner) => inner.message.clone(),
            ServiceError::MissingProfile(profile_id) => text::concat2(
                "Profile not found: ",
                profile_id.as_str(),
            ),
            ServiceError::MissingStreamKey(profile_id) => text::concat2(
                "Profile is missing stream key: ",
                profile_id.as_str(),
            ),
            ServiceError::Runtime(message) => text::concat2("Runtime error: ", message.as_str()),
            ServiceError::RelayFactory(message) => text::concat2(
                "Relay factory error: ",
                message.as_str(),
            ),
            ServiceError::MutexPoisoned(name) => text::concat2("Mutex poisoned: ", name.as_str()),
        }
    }
}

/// What a start comes to, given what the store returned for the profile: the configuration to run
/// with, or the error that is reported.
pub open spec fn start_outcome(
    profile_id: Seq<char>,
    loaded: Result<Option<LoadedProfile>, StoreError>,
    place: PathPlaceModel,
    outcome: Result<NormalizedConfig, ServiceError>,
) -> bool {
    match loaded {
        Err(error) => outcome == Err::<NormalizedConfig, ServiceError>(ServiceError::Store(error)),
        Ok(None) => outcome matches Err(ServiceError::MissingProfile(id)) && id@ == profile_id,
        Ok(Some(found)) => match found@.stream_key {
            None => outcome matches Err(ServiceError::MissingStreamKey(id)) && id@ == profile_id,
            Some(key) => match config::normalized_in_app(found@.profile.config, key, place) {
                Err(message) => outcome matches Err(ServiceError::Config(inner)) && inner.message@
                    == message,
                Ok(normalized) => outcome matches Ok(config) && config@ == normalized,
            },
        },
    }
}

/// Decides on a start from what the store returned for the profile. `place` is what the system
/// makes of the profile's discovery path, and counts only where there is a profile.
pub fn prepare_start(
    profile_id: &str,
    loaded: Result<Option<LoadedProfile>, StoreError>,
    place: &PathPlace,
) -> (r: Result<NormalizedConfig, ServiceError>)
    ensures
        start_outcome(profile_id@, loaded, place@, r),
{
    let found = match loaded {
        Err(error) => {
            return Err(ServiceError::Store(error));
        },
        Ok(None) => {
            return Err(ServiceError::MissingProfile(profile_id.to_owned()));
        },
        Ok(Some(found)) => found,
    };
    match &found.stream_key {
        None => Err(ServiceError::MissingStreamKey(profile_id.to_owned())),
        Some(key) => match config::normalize_in_app_config(
            &found.profile.config,
            key.as_str(),
            place,
        ) {
            Err(error) => Err(ServiceError::Config(error)),
            Ok(normalized) => Ok(normalized),
        },
    }
}

/// What runs, with the profile that it runs for.
pub struct RuntimeSlot<H> {
    pub profile_id: String,
    pub handle: H,
}

/// What runs once a profile was deleted, and what is to be stopped.
pub open spec fn without_deleted<H>(running: Option<(Seq<char>, H)>, profile_id: Seq<char>) -> (
    Option<(Seq<char>, H)>,
    Option<H>,
) {
    match running {
        Some((id, handle)) => if id == profile_id {
            (None, Some(handle))
        } else {
            (running, None)
        },
        None => (None, None),
    }
}

/// The place of what runs: at most one profile runs at a time.
pub struct ActiveRuntime<H> {
    slot: Option<RuntimeSlot<H>>,
}

impl<H> ActiveRuntime<H> {
    /// The profile that runs, and what runs for it.
    pub closed spec fn running(&self) -> Option<(Seq<char>, H)> {
        match self.slot {
            Some(slot) => Some((slot.profile_id@, slot.handle)),
            None => None,
        }
    }

    /// Nothing runs.
    pub fn new() -> (r: Self)
        ensures
            r.running() is None,
    {
        ActiveRuntime { slot: None }
    }

    /// Takes up what was started for a profile, and hands back what ran before, to be stopped.
    pub fn replace(&mut self, profile_id: &str, handle: H) -> (r: Option<H>)
        ensures
            final(self).running() == Some((profile_id@, handle)),
            r == (match old(self).running() {
                Some((_, before)) => Some(before),
                None => None,
            }),
    {
        let before = self.slot.take();
        self.slot = Some(RuntimeSlot { profile_id: profile_id.to_owned(), handle });
        match before {
            Some(slot) => Some(slot.handle),
            None => None,
        }
    }

    /// Hands back what runs, to be stopped.
    pub fn take(&mut self) -> (r: Option<H>)
        ensures
            final(self).running() is None,
            r == (match old(self).running() {
                Some((_, handle)) => Some(handle),
                None => None,
            }),
    {
        match self.slot.take() {
            Some(slot) => Some(slot.handle),
            None => None,
        }
    }

    /// Hands back what runs if it runs for a profile that was deleted.
    pub fn on_deleted(&mut self, profile_id: &str) -> (r: Option<H>)
        ensures
            (final(self).running(), r) == without_deleted(old(self).running(), profile_id@),
            match old(self).running() {
                Some((id, handle)) => if id == profile_id@ {
                    r == Some(handle) && final(self).running() is None
                } else {
                    r is None && final(self).running() == old(self).running()
                },
                None => r is None && final(self).running() is None,
            },
    {
        let same = match &self.slot {
            Some(slot) => text::same_text(slot.profile_id.as_str(), profile_id),
            None => false,
        };
        if same {
            self.take()
        } else {
            None
        }
    }

    /// What runs.
    pub fn handle(&self) -> (r: Option<&H>)
        ensures
            match self.running() {
                Some((_, handle)) => r matches Some(found) && *found == handle,
                None => r is None,
            },
    {
        match &self.slot {
            Some(slot) => Some(&slot.handle),
            None => None,
        }
    }

    /// The profile that runs.
    pub fn active_profile_id(&self) -> (r: Option<String>)
        ensures
            model::opt_text(r) == (match self.running() {
                Some((id, _)) => Some(id),
                None => None,
            }),
    {
        match &self.slot {
            Some(slot) => Some(slot.profile_id.clone()),
            None => None,
        }
    }
}

/// What the relay is told of a configuration.
pub open spec fn relay_config(config: NormalizedModel) -> ClientConfigModel {
    ClientConfigModel {
        base_url: config.base_url,
        creator_username: config.creator_username,
        stream_key: config.stream_key,
        session_path: config.relay.session_path,
        ingest_path: config.relay.ingest_path,
    }
}

/// Makes the clients of the relay.
#[derive(Debug, Clone, Copy)]
pub struct DefaultRelayPublisherFactory;

impl DefaultRelayPublisherFactory {
    /// The client for a configuration, with what carries its requests.
    pub fn build<T: HttpTransport>(&self, config: &NormalizedConfig, transport: T) -> (r:
        RelayClient<T>)
        ensures
            r.client().config == relay_config(config@),
            r.client().state == relay::no_session(),
            r.sent() == transport.sent(),
            r.received() == transport.received(),
    {
        RelayClient::new(
            RelayClientConfig {
                base_url: config.base_url.duplicate(),
                creator_username: config.creator_username.clone(),
                stream_key: config.stream_key.clone(),
                session_path: config.relay.session_path.clone(),
                ingest_path: config.relay.ingest_path.clone(),
            },
            transport,
        )
    }
}

/// A host and a port, as a socket address is written.
pub open spec fn socket_text(host: Seq<char>, port: u16) -> Seq<char> {
    host + ":"@ + text::decimal_text(port as nat)
}

/// Writes a host and a port.
pub fn socket_address(host: &str, port: u16) -> (r: String)
    ensures
        r@ == socket_text(host@, port),
{
    let digits = text::decimal(port as u64);
    text::concat3(host, ":", digits.as_str())
}

/// What a bridge listens to and forwards to.
pub struct BridgeRuntime;

impl BridgeRuntime {
    /// The address at which OSC messages arrive.
    pub fn listen_address(config: &NormalizedConfig) -> (r: String)
        ensures
            r@ == socket_text(config@.osc_listen.host, config@.osc_listen.port),
    {
        socket_address(config.osc_listen.host.as_str(), config.osc_listen.port)
    }

    /// The address of a forward target.
    pub fn forward_address(target: &ForwardTarget) -> (r: String)
        ensures
            r@ == socket_text(target@.host, target@.port),
    {
        socket_address(target.host.as_str(), target.port)
    }
}

} // verus!
