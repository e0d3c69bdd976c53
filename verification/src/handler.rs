//! The handler of Lambda requests and the Rocket client behind it.
use std::sync::Arc;
use vstd::prelude::*;

use crate::config::{BasePathBehaviour, Config};
use crate::outside::parses_as_origin;
use crate::request;
use crate::request::LambdaRequest;
use crate::uri;

verus! {

/// A Lambda handler that answers the requests of API Gateway and of load
/// balancers by a Rocket instance.
///
/// `L` is the lock that guards the [`LazyClient`] of the instance.
pub struct RocketHandler<L> {
    pub lazy_client: Arc<L>,
    pub config: Arc<Config>,
}

impl<L> RocketHandler<L> {
    /// Returns a handler with the given client and configuration.
    pub fn new(lazy_client: L, config: Config) -> (handler: RocketHandler<L>)
        ensures
            *handler.lazy_client == lazy_client,
            *handler.config == config,
    {
        RocketHandler { lazy_client: Arc::new(lazy_client), config: Arc::new(config) }
    }

    /// Returns the handles with which one request is answered. They are to the
    /// same client and configuration for all the requests.
    pub fn handles(&self) -> (handles: (Arc<L>, Arc<Config>))
        ensures
            handles.0 == self.lazy_client,
            handles.1 == self.config,
    {
        (Arc::clone(&self.lazy_client), Arc::clone(&self.config))
    }
}

/// The client of a Rocket instance, which is made for the first request.
///
/// `R` is the instance before it is launched, `C` the client of the launched
/// instance.
pub enum LazyClient<R, C> {
    /// No client was made yet. The instance is missing from the moment at which
    /// it was taken for the first request until the client is ready.
    Uninitialized(Option<R>),
    /// The client, for all further requests.
    Ready(Arc<C>),
}

/// How to come by the client for a request.
pub enum ClientStep<R, C> {
    /// By using this client.
    Use(Arc<C>),
    /// By launching this instance.
    Launch(R),
    /// By mounting the routes of this instance at this path once more, and then
    /// launching it.
    Remount(R, String),
}

/// Why there is no way to come by a client.
#[derive(Clone, Copy, Debug, PartialEq, Eq, Structural)]
pub enum ClientFault {
    /// The instance was taken, but no client was made of it.
    Taken,
    /// The base path is not the path of a URI.
    InvalidBasePath,
}

/// Whether the routes of an instance are mounted once more at a base path.
pub open spec fn is_remounted(config: Config, base_path: Seq<char>) -> bool {
    config.base_path_behaviour == BasePathBehaviour::RemountAndInclude && base_path.len() > 0
}

impl<R, C> LazyClient<R, C> {
    /// What is left when the instance, if there is one, was taken.
    pub open spec fn taken(self) -> LazyClient<R, C> {
        match self {
            LazyClient::Ready(client) => LazyClient::Ready(client),
            LazyClient::Uninitialized(_) => LazyClient::Uninitialized(None),
        }
    }

    /// Why there is no way to come by a client for a request, if there is none.
    pub open spec fn fault(self, config: Config, base_path: Seq<char>) -> Option<ClientFault> {
        match self {
            LazyClient::Ready(_) => None,
            LazyClient::Uninitialized(None) => Some(ClientFault::Taken),
            LazyClient::Uninitialized(Some(_)) => if is_remounted(config, base_path)
                && !uri::is_origin(base_path) {
                Some(ClientFault::InvalidBasePath)
            } else {
                None
            },
        }
    }

    /// Whether `step` is how to come by the client for a request.
    pub open spec fn is_step(
        self,
        config: Config,
        base_path: Seq<char>,
        step: ClientStep<R, C>,
    ) -> bool {
        match self {
            LazyClient::Ready(client) => step == ClientStep::<R, C>::Use(client),
            LazyClient::Uninitialized(None) => false,
            LazyClient::Uninitialized(Some(rocket)) => if is_remounted(config, base_path) {
                step matches ClientStep::Remount(same, path) && same == rocket && path@
                    == base_path
            } else {
                step == ClientStep::<R, C>::Launch(rocket)
            },
        }
    }

    /// Whether a request has the instance launched.
    pub open spec fn launches(self, config: Config, base_path: Seq<char>) -> bool {
        self is Uninitialized && self.fault(config, base_path) is None
    }

    /// What is left after a request: the client that was made for it, if the
    /// instance was launched and a client was made.
    pub open spec fn after_request(self, request: ClientRequest<C>) -> LazyClient<R, C> {
        if self.launches(request.config, request.base_path) {
            match request.made {
                Some(client) => LazyClient::Ready(client),
                None => self.taken(),
            }
        } else {
            self.taken()
        }
    }

    /// The client by which a request is answered.
    pub open spec fn client_of(self, request: ClientRequest<C>) -> Option<Arc<C>> {
        match self {
            LazyClient::Ready(client) => Some(client),
            LazyClient::Uninitialized(_) => if self.launches(request.config, request.base_path) {
                request.made
            } else {
                None
            },
        }
    }
}

/// What matters of a request for the client that it is answered by.
pub struct ClientRequest<C> {
    pub config: Config,
    pub base_path: Seq<char>,
    /// The client that launching the instance for this request would make, or
    /// nothing where the launch fails.
    pub made: Option<Arc<C>>,
}

/// Returns how to come by the client for a request with the given base path,
/// and takes the instance that it is made of.
pub fn get_client_from_lazy<R, C>(
    lazy_client: &mut LazyClient<R, C>,
    config: &Config,
    base_path: &str,
) -> (step: ClientStep<R, C>)
    requires
        old(lazy_client).fault(*config, base_path@) is None,
    ensures
        *final(lazy_client) == old(lazy_client).taken(),
        old(lazy_client).is_step(*config, base_path@, step),
        step !is Use <==> old(lazy_client).launches(*config, base_path@),
        step matches ClientStep::Use(client) ==> *old(lazy_client) == LazyClient::<R, C>::Ready(
            client,
        ) && *final(lazy_client) == *old(lazy_client),
        step matches ClientStep::Launch(rocket) ==> {
            &&& *old(lazy_client) == LazyClient::<R, C>::Uninitialized(Some(rocket))
            &&& *final(lazy_client) == LazyClient::<R, C>::Uninitialized(None)
            &&& config.base_path_behaviour != BasePathBehaviour::RemountAndInclude
                || base_path@.len() == 0
        },
        step matches ClientStep::Remount(rocket, path) ==> {
            &&& *old(lazy_client) == LazyClient::<R, C>::Uninitialized(Some(rocket))
            &&& *final(lazy_client) == LazyClient::<R, C>::Uninitialized(None)
            &&& config.base_path_behaviour == BasePathBehaviour::RemountAndInclude
            &&& base_path@.len() > 0
            &&& path@ == base_path@
        },
{
    match lazy_client {
        LazyClient::Ready(client) => ClientStep::Use(Arc::clone(client)),
        LazyClient::Uninitialized(rocket) => {
            let rocket = rocket.take().unwrap();
            if config.base_path_behaviour == BasePathBehaviour::RemountAndInclude
                && !base_path.is_empty() {
                ClientStep::Remount(rocket, base_path.to_owned())
            } else {
                ClientStep::Launch(rocket)
            }
        },
    }
}

/// Returns how to come by the client for a request with the given base path, or
/// why there is no way. Takes the instance, whether or not there is a way.
pub fn try_get_client_from_lazy<R, C>(
    lazy_client: &mut LazyClient<R, C>,
    config: &Config,
    base_path: &str,
) -> (result: Result<ClientStep<R, C>, ClientFault>)
    ensures
        *final(lazy_client) == old(lazy_client).taken(),
        match old(lazy_client).fault(*config, base_path@) {
            Some(fault) => result == Err::<ClientStep<R, C>, ClientFault>(fault),
            None => result matches Ok(step) && old(lazy_client).is_step(
                *config,
                base_path@,
                step,
            ),
        },
        *old(lazy_client) is Ready ==> result is Ok && *final(lazy_client) == *old(lazy_client),
        *old(lazy_client) is Uninitialized ==> *final(lazy_client) == LazyClient::<
            R,
            C,
        >::Uninitialized(None),
        result == Err::<ClientStep<R, C>, ClientFault>(ClientFault::Taken) <==> *old(lazy_client)
            == LazyClient::<R, C>::Uninitialized(None),
        result == Err::<ClientStep<R, C>, ClientFault>(ClientFault::InvalidBasePath) <==> {
            &&& *old(lazy_client) matches LazyClient::Uninitialized(Some(_))
            &&& config.base_path_behaviour == BasePathBehaviour::RemountAndInclude
            &&& base_path@.len() > 0
            &&& !uri::is_origin(base_path@)
        },
        result matches Ok(ClientStep::Use(client)) ==> *old(lazy_client) == LazyClient::<
            R,
            C,
        >::Ready(client),
        result matches Ok(ClientStep::Launch(rocket)) ==> {
            &&& *old(lazy_client) == LazyClient::<R, C>::Uninitialized(Some(rocket))
            &&& config.base_path_behaviour != BasePathBehaviour::RemountAndInclude
                || base_path@.len() == 0
        },
        result matches Ok(ClientStep::Remount(rocket, path)) ==> {
            &&& *old(lazy_client) == LazyClient::<R, C>::Uninitialized(Some(rocket))
            &&& config.base_path_behaviour == BasePathBehaviour::RemountAndInclude
            &&& base_path@.len() > 0
            &&& path@ == base_path@
        },
{
    let (uninitialized, missing) = match &*lazy_client {
        LazyClient::Ready(_) => (false, false),
        LazyClient::Uninitialized(rocket) => (true, rocket.is_none()),
    };
    if missing {
        return Err(ClientFault::Taken);
    }
    if uninitialized && config.base_path_behaviour == BasePathBehaviour::RemountAndInclude
        && !base_path.is_empty() && !parses_as_origin(base_path) {
        *lazy_client = LazyClient::Uninitialized(None);
        return Err(ClientFault::InvalidBasePath);
    }
    Ok(get_client_from_lazy(lazy_client, config, base_path))
}

/// Keeps a client that was made for all further requests, and returns it for
/// this one.
pub fn set_client<R, C>(lazy_client: &mut LazyClient<R, C>, client: C) -> (shared: Arc<C>)
    ensures
        *shared == client,
        *final(lazy_client) == LazyClient::<R, C>::Ready(shared),
{
    let client = Arc::new(client);
    let shared = Arc::clone(&client);
    *lazy_client = LazyClient::Ready(client);
    shared
}

/// Whether `states` are the states of a client between `requests`.
pub open spec fn is_history<R, C>(
    states: Seq<LazyClient<R, C>>,
    requests: Seq<ClientRequest<C>>,
) -> bool {
    &&& states.len() == requests.len()
    &&& forall|i: int|
        0 < i < states.len() ==> #[trigger] states[i] == states[i - 1].after_request(
            requests[i - 1],
        )
}

proof fn lemma_ready_stays<R, C>(
    states: Seq<LazyClient<R, C>>,
    requests: Seq<ClientRequest<C>>,
    i: int,
    j: int,
)
    requires
        is_history(states, requests),
        0 <= i <= j < states.len(),
    ensures
        states[i] is Ready ==> states[j] == states[i],
        states[i] == LazyClient::<R, C>::Uninitialized(None) ==> states[j] == states[i],
    decreases j - i,
{
    if i < j {
        lemma_ready_stays(states, requests, i, j - 1);
        assert(states[j] == states[j - 1].after_request(requests[j - 1]));
    }
}

/// All requests are answered by one client: once one was, each later one is
/// answered by the same client.
pub proof fn law_one_client_answers<R, C>(
    states: Seq<LazyClient<R, C>>,
    requests: Seq<ClientRequest<C>>,
    i: int,
    j: int,
)
    requires
        is_history(states, requests),
        0 <= i < j < states.len(),
        states[i].client_of(requests[i]) is Some,
    ensures
        states[j].client_of(requests[j]) == states[i].client_of(requests[i]),
{
    assert(states[i + 1] == states[i].after_request(requests[i]));
    lemma_ready_stays(states, requests, i + 1, j);
}

/// The instance is launched at most once.
pub proof fn law_launched_at_most_once<R, C>(
    states: Seq<LazyClient<R, C>>,
    requests: Seq<ClientRequest<C>>,
    i: int,
    j: int,
)
    requires
        is_history(states, requests),
        0 <= i < j < states.len(),
        states[i].launches(requests[i].config, requests[i].base_path),
    ensures
        !states[j].launches(requests[j].config, requests[j].base_path),
{
    assert(states[i + 1] == states[i].after_request(requests[i]));
    lemma_ready_stays(states, requests, i + 1, j);
}

/// A ready client is used as it is. Otherwise the very instance that is there is
/// launched; first its routes are mounted once more where the configuration says
/// so and there is a base path, and then at the base path character for
/// character.
pub proof fn law_step_is_by_state_and_base_path<R, C>(
    lazy_client: LazyClient<R, C>,
    config: Config,
    base_path: Seq<char>,
    step: ClientStep<R, C>,
)
    requires
        lazy_client.is_step(config, base_path, step),
    ensures
        step matches ClientStep::Use(client) ==> lazy_client == LazyClient::<R, C>::Ready(client),
        step matches ClientStep::Launch(rocket) ==> {
            &&& lazy_client == LazyClient::<R, C>::Uninitialized(Some(rocket))
            &&& config.base_path_behaviour != BasePathBehaviour::RemountAndInclude
                || base_path.len() == 0
        },
        step matches ClientStep::Remount(rocket, path) ==> {
            &&& lazy_client == LazyClient::<R, C>::Uninitialized(Some(rocket))
            &&& config.base_path_behaviour == BasePathBehaviour::RemountAndInclude
            &&& base_path.len() > 0
            &&& path@ == base_path
        },
{
}

/// There is no way to come by a client where the instance was taken, and where
/// it would have to be mounted at a base path that is not the path of a URI;
/// otherwise there is one.
pub proof fn law_faults_are_by_state_and_base_path<R, C>(
    lazy_client: LazyClient<R, C>,
    config: Config,
    base_path: Seq<char>,
)
    ensures
        lazy_client.fault(config, base_path) == Some(ClientFault::Taken) <==> lazy_client
            == LazyClient::<R, C>::Uninitialized(None),
        lazy_client.fault(config, base_path) == Some(ClientFault::InvalidBasePath) <==> {
            &&& lazy_client matches LazyClient::Uninitialized(Some(_))
            &&& config.base_path_behaviour == BasePathBehaviour::RemountAndInclude
            &&& base_path.len() > 0
            &&& !uri::is_origin(base_path)
        },
        lazy_client is Ready ==> lazy_client.taken() == lazy_client,
        lazy_client is Uninitialized ==> lazy_client.taken() == LazyClient::<
            R,
            C,
        >::Uninitialized(None),
{
}

/// The path at which the routes are mounted once more is where the URI starts
/// that the same request is handed on with.
///
/// `behind` is what the full path of the request has behind its base path.
pub proof fn law_remounted_routes_meet_the_request<R, C>(
    lazy_client: LazyClient<R, C>,
    config: Config,
    base_path: Seq<char>,
    step: ClientStep<R, C>,
    req: LambdaRequest,
    behind: Seq<char>,
    uri: Seq<char>,
)
    requires
        lazy_client.is_step(config, base_path, step),
        req.full_path@ == base_path + behind,
        request::is_request_uri(config, req, uri),
    ensures
        step matches ClientStep::Remount(_, path) ==> {
            &&& req.full_path@ == path@ + behind
            &&& uri.len() >= path@.len() + behind.len()
            &&& uri.take((path@.len() + behind.len()) as int) == path@ + behind
        },
{
    if config.base_path_behaviour == BasePathBehaviour::RemountAndInclude {
        let path = req.full_path@;
        request::law_uri_holds_the_query(config, req, uri, path, uri.skip(path.len() as int));
        assert(uri.take(path.len() as int) =~= path);
    }
}

/// After a request for which the instance was launched, the client that was made
/// of it answers all further requests; where none was made, no request is
/// answered any more. A ready client answers every request itself and stays.
pub proof fn law_made_client_is_kept<R, C>(
    lazy_client: LazyClient<R, C>,
    request: ClientRequest<C>,
)
    ensures
        lazy_client matches LazyClient::Ready(client) ==> lazy_client.client_of(request) == Some(
            client,
        ) && lazy_client.after_request(request) == lazy_client,
        lazy_client == LazyClient::<R, C>::Uninitialized(None) ==> lazy_client.client_of(
            request,
        ) is None && lazy_client.after_request(request) == lazy_client,
        lazy_client matches LazyClient::Uninitialized(Some(_)) ==> {
            let refused = request.config.base_path_behaviour == BasePathBehaviour::RemountAndInclude
                && request.base_path.len() > 0 && !uri::is_origin(request.base_path);
            &&& lazy_client.client_of(request) == if refused {
                None
            } else {
                request.made
            }
            &&& lazy_client.after_request(request) == match lazy_client.client_of(request) {
                Some(client) => LazyClient::<R, C>::Ready(client),
                None => LazyClient::<R, C>::Uninitialized(None),
            }
        },
{
}

} // verus!
