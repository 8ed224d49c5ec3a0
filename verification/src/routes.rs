use vstd::prelude::*;

use crate::balancer::{rotate, RoundRobinLoadBalancer};

verus! {

/// The prefix that a request path may carry and that is not forwarded.
pub const REQWEST_PREFIX: &'static str = "/using-reqwest";

/// The longest base URL, path or query, in characters, that the URL
/// builder is given. The `url` crate keeps offsets into its serialization as
/// `u32` and panics past `u32::MAX` bytes. A character takes at most 4 bytes
/// of UTF-8, and percent-encoding turns a byte into at most 3, so three
/// parts of this size serialize to at most 3 * 3 * 4 * 16 MiB = 576 MiB plus
/// a few separators, well below 4 GiB; actix-web refuses request heads past
/// 128 KiB long before that.
pub const URL_PART_LIMIT: usize = 16777216;

/// The path that is forwarded for a request path: without `REQWEST_PREFIX`
/// where it starts with it, unchanged otherwise.
pub open spec fn upstream_path(path: Seq<char>) -> Seq<char> {
    let prefix = "/using-reqwest"@;
    if prefix.len() <= path.len() && path.subrange(0, prefix.len() as int) == prefix {
        path.skip(prefix.len() as int)
    } else {
        path
    }
}

/// What the `url` crate makes of `base` after setting its path to `path`
/// and its query to `query`: the serialized URL, or nothing when `base` does
/// not parse.
pub uninterp spec fn rebased_url(base: Seq<char>, path: Seq<char>, query: Option<Seq<char>>) -> Option<Seq<char>>;

/// The view of an optional string.
pub open spec fn opt_view(s: Option<&str>) -> Option<Seq<char>> {
    match s {
        Some(t) => Some(t@),
        None => None,
    }
}

/// `url::Url::parse(base)`, then `set_path(path)` and `set_query(query)` on
/// the result, which is serialized back. The result is `rebased_url` of the
/// arguments; nothing more is claimed of it.
#[verifier::external_body]
fn rebase_url(base: &str, path: &str, query: Option<&str>) -> (url: Option<String>)
    requires
        base@.len() <= URL_PART_LIMIT,
        path@.len() <= URL_PART_LIMIT,
        query matches Some(q) ==> q@.len() <= URL_PART_LIMIT,
    ensures
        url matches Some(u) ==> rebased_url(base@, path@, opt_view(query)) == Some(u@),
        url is None ==> rebased_url(base@, path@, opt_view(query)) is None,
{
    let mut url = url::Url::parse(base).ok()?;
    url.set_path(path);
    url.set_query(query);
    Some(url.into())
}

/// The request path without `REQWEST_PREFIX`, if it starts with it.
pub fn forward_path(path: &str) -> (forwarded: &str)
    ensures
        forwarded@ == upstream_path(path@),
        (14 <= path@.len() && path@.take(14) == seq![
            '/',
            'u',
            's',
            'i',
            'n',
            'g',
            '-',
            'r',
            'e',
            'q',
            'w',
            'e',
            's',
            't',
        ]) ==> forwarded@ == path@.skip(14),
        !(14 <= path@.len() && path@.take(14) == seq![
            '/',
            'u',
            's',
            'i',
            'n',
            'g',
            '-',
            'r',
            'e',
            'q',
            'w',
            'e',
            's',
            't',
        ]) ==> forwarded@ == path@,
{
    let forwarded = strip_reqwest_prefix(path);
    proof {
        let prefix = seq!['/', 'u', 's', 'i', 'n', 'g', '-', 'r', 'e', 'q', 'w', 'e', 's', 't'];
        if 14 <= path@.len() && path@.take(14) == prefix {
            assert(path@ =~= prefix + path@.skip(14));
            lemma_prefixed_path_forwards_rest(path@.skip(14));
        } else {
            lemma_unprefixed_path_forwards_unchanged(path@);
        }
    }
    forwarded
}

/// `path` without `REQWEST_PREFIX`, if it starts with it.
fn strip_reqwest_prefix(path: &str) -> (forwarded: &str)
    ensures
        forwarded@ == upstream_path(path@),
{
    let prefix = REQWEST_PREFIX;
    proof {
        reveal_strlit("/using-reqwest");
    }
    assert(prefix@ == "/using-reqwest"@);
    let n = path.unicode_len();
    let m = prefix.unicode_len();
    if n < m {
        return path;
    }
    let mut k: usize = 0;
    while k < m
        invariant
            prefix@ == "/using-reqwest"@,
            m == prefix@.len(),
            n == path@.len(),
            m <= n,
            k <= m,
            forall|j: int| 0 <= j < k ==> path@[j] == prefix@[j],
        decreases m - k,
    {
        if path.get_char(k) != prefix.get_char(k) {
            assert(path@.subrange(0, m as int)[k as int] != prefix@[k as int]);
            return path;
        }
        k = k + 1;
    }
    assert(path@.subrange(0, m as int) =~= prefix@);
    path.substring_char(m, n)
}

/// The URL that a request for `path` and `query` goes to on the backend at
/// `base`; nothing when `base` is not a URL.
pub fn upstream_url(base: &str, path: &str, query: Option<&str>) -> (url: Option<String>)
    requires
        base@.len() <= URL_PART_LIMIT,
        path@.len() <= URL_PART_LIMIT,
        query matches Some(q) ==> q@.len() <= URL_PART_LIMIT,
    ensures
        url matches Some(u) ==> rebased_url(base@, upstream_path(path@), opt_view(query)) == Some(
            u@,
        ),
        url is None ==> rebased_url(base@, upstream_path(path@), opt_view(query)) is None,
{
    let forwarded = forward_path(path);
    rebase_url(base, forwarded, query)
}

/// The two users routes: one answers from the cache when it can and fills
/// it from the backend otherwise; the other always asks the backend.
#[derive(Debug, PartialEq, Eq)]
pub enum Route {
    CacheFirst,
    Direct,
}

/// What looking up the cached users found.
#[derive(Debug, PartialEq, Eq)]
pub enum CacheLookup {
    /// No cache connection could be had.
    Unavailable,
    /// The cache could not be read.
    Failed,
    /// The cache holds no users.
    Missing,
    /// The cached users, as JSON text.
    Found(String),
}

/// What storing the users in the cache came to.
#[derive(Debug, PartialEq, Eq)]
pub enum StoreOutcome {
    /// No cache connection could be had; nothing was stored.
    Unavailable,
    /// The cache refused the write.
    Failed,
    /// The users were stored.
    Stored,
}

/// A response to the client.
#[derive(Debug, PartialEq, Eq)]
pub enum Reply {
    /// Status 200, `application/json`, with this text.
    JsonText(String),
    /// Status 200, `application/json`, with these bytes.
    JsonBytes(Vec<u8>),
    /// Status 500 with this message.
    ServerError(String),
    /// Status 401 with this message.
    Unauthorized(String),
}

/// A state in which the request cannot be served at all.
#[derive(Debug, PartialEq, Eq)]
pub enum Fault {
    /// The backend's base URL does not parse.
    BadBackendUrl,
}

/// What the caller is to do next.
#[derive(Debug, PartialEq, Eq)]
pub enum Action {
    /// Look up the cached users.
    ReadCache,
    /// Send the request, with its method, body and Authorization header,
    /// to this URL.
    Forward(String),
    /// Read the backend's response body.
    ReadBody,
    /// Parse these bytes as a list of users and serialize the list again.
    Reencode(Vec<u8>),
    /// Store this JSON text as the cached users.
    StoreCache(String),
    /// Send this response; the flow is over.
    Respond(Reply),
    /// Give up on the request; the flow is over.
    Abort(Fault),
}

/// What the caller reports back after doing an action.
#[derive(Debug, PartialEq, Eq)]
pub enum Event {
    CacheRead(CacheLookup),
    Forwarded(Result<(), String>),
    BodyRead(Result<Vec<u8>, String>),
    Reencoded(Result<String, String>),
    CacheStored(StoreOutcome),
}

/// Where a users flow stands.
#[derive(Debug, PartialEq, Eq)]
pub enum Phase {
    /// Waiting for the cache lookup.
    AwaitCache,
    /// Waiting for the backend to take the request.
    AwaitForward,
    /// Waiting for the backend's response body.
    AwaitBody,
    /// Waiting for the re-serialized users of this body.
    AwaitReencode(Vec<u8>),
    /// Waiting for the cache write; this is the backend's body.
    AwaitStore(Vec<u8>),
    /// A response was given or the request was given up.
    Finished,
}

/// The event that each phase waits for.
pub open spec fn expects(phase: Phase, event: Event) -> bool {
    match phase {
        Phase::AwaitCache => event is CacheRead,
        Phase::AwaitForward => event is Forwarded,
        Phase::AwaitBody => event is BodyRead,
        Phase::AwaitReencode(_) => event is Reencoded,
        Phase::AwaitStore(_) => event is CacheStored,
        Phase::Finished => false,
    }
}

/// An upper bound on the events that a flow in `phase` still waits for.
pub open spec fn rank(phase: Phase) -> nat {
    match phase {
        Phase::AwaitCache => 5,
        Phase::AwaitForward => 4,
        Phase::AwaitBody => 3,
        Phase::AwaitReencode(_) => 2,
        Phase::AwaitStore(_) => 1,
        Phase::Finished => 0,
    }
}

/// Whether an action ends the flow.
pub open spec fn is_final(action: Action) -> bool {
    action is Respond || action is Abort
}

/// Backends that a users flow can be sent to: at least one, none longer
/// than `URL_PART_LIMIT`.
pub open spec fn backends_fit(backends: Seq<Seq<char>>) -> bool {
    &&& backends.len() > 0
    &&& forall|i: int| 0 <= i < backends.len() ==> (#[trigger] backends[i]).len() <= URL_PART_LIMIT
}

/// A request path and query short enough to build a backend URL from.
pub open spec fn target_fits(path: Seq<char>, query: Option<Seq<char>>) -> bool {
    &&& path.len() <= URL_PART_LIMIT
    &&& query matches Some(q) ==> q.len() <= URL_PART_LIMIT
}

/// Whether `event` moves a flow in `phase` on to the backend: a cache
/// lookup that found nothing to serve.
pub open spec fn goes_upstream(phase: Phase, event: Event) -> bool {
    phase is AwaitCache && !(event matches Event::CacheRead(CacheLookup::Found(_)))
}

/// Whether `balancer` can serve users flows: it has a backend, and none of
/// its base URLs is longer than `URL_PART_LIMIT`.
pub fn backends_within_limits(balancer: &RoundRobinLoadBalancer) -> (fits: bool)
    ensures
        fits == backends_fit(balancer.backends()),
        fits == (balancer.backends().len() >= 1 && forall|i: int|
            0 <= i < balancer.backends().len() ==> (#[trigger] balancer.backends()[i]).len()
                <= URL_PART_LIMIT),
{
    let n = balancer.len();
    if n == 0 {
        return false;
    }
    let mut i: usize = 0;
    while i < n
        invariant
            n == balancer.backends().len(),
            i <= n,
            forall|k: int| 0 <= k < i ==> (#[trigger] balancer.backends()[k]).len() <= URL_PART_LIMIT,
        decreases n - i,
    {
        if balancer.url_at(i).as_str().unicode_len() > URL_PART_LIMIT {
            return false;
        }
        i = i + 1;
    }
    true
}

/// The backends that the users routes forward to, in turn.
pub fn gateway_backends() -> (urls: Vec<String>)
    ensures
        urls@.map_values(|u: String| u@) == seq![
            "http://localhost:10001"@,
            "http://localhost:10002"@,
        ],
        backends_fit(urls@.map_values(|u: String| u@)),
{
    proof {
        reveal_strlit("http://localhost:10001");
        reveal_strlit("http://localhost:10002");
    }
    let mut urls: Vec<String> = Vec::new();
    urls.push("http://localhost:10001".to_owned());
    urls.push("http://localhost:10002".to_owned());
    assert(urls@.map_values(|u: String| u@) =~= seq![
        "http://localhost:10001"@,
        "http://localhost:10002"@,
    ]);
    urls
}

/// Whether `part` is short enough to go into a backend URL.
pub fn fits_url_part(part: &str) -> (fits: bool)
    ensures
        fits == (part@.len() <= URL_PART_LIMIT),
{
    part.unicode_len() <= URL_PART_LIMIT
}

/// Law: a users flow waits for at most five events and is over exactly when
/// it waits for none. (`start` leaves the flow in some phase, and every
/// `step` lowers its rank.)
pub proof fn lemma_flow_ends(phase: Phase)
    ensures
        rank(phase) <= 5,
        rank(phase) == 0 <==> phase is Finished,
        phase is Finished <==> forall|e: Event| !#[trigger] expects(phase, e),
{
    if !(phase is Finished) {
        let witness = match phase {
            Phase::AwaitCache => Event::CacheRead(CacheLookup::Missing),
            Phase::AwaitForward => Event::Forwarded(Ok(())),
            Phase::AwaitBody => Event::BodyRead(Err(vstd::pervasive::arbitrary())),
            Phase::AwaitReencode(_) => Event::Reencoded(Err(vstd::pervasive::arbitrary())),
            Phase::AwaitStore(_) => Event::CacheStored(StoreOutcome::Stored),
            Phase::Finished => Event::CacheStored(StoreOutcome::Stored),
        };
        assert(expects(phase, witness));
    }
}

/// The message of the 401 response for a request without credentials.
pub open spec fn missing_authorization_text() -> Seq<char> {
    "Authorization header is missing"@
}

/// The message of the 500 response when the cache refuses the users.
pub open spec fn cache_failure_text() -> Seq<char> {
    "Internal Server Error"@
}

/// How a flow continues once the backend URL for it is known (`target`,
/// nothing when the base URL did not parse). A request without credentials
/// reaches this point only on the direct route.
pub open spec fn dispatched(
    route: Route,
    target: Option<Seq<char>>,
    authorized: bool,
    phase: Phase,
    action: Action,
) -> bool {
    match target {
        None => phase is Finished && action == Action::Abort(Fault::BadBackendUrl),
        Some(t) => if authorized {
            phase is AwaitForward && (action matches Action::Forward(u) && u@ == t)
        } else {
            &&& phase is Finished
            &&& action matches Action::Respond(Reply::Unauthorized(m)) && m@
                == missing_authorization_text()
        },
    }
}

/// A flow that goes to the backend: the balancer hands out the next base
/// URL, and the flow continues as `dispatched` says for the URL built on it.
pub open spec fn went_upstream(
    route: Route,
    path: Seq<char>,
    query: Option<Seq<char>>,
    authorized: bool,
    before: RoundRobinLoadBalancer,
    after: RoundRobinLoadBalancer,
    phase: Phase,
    action: Action,
) -> bool {
    let base = before.backends()[before.position() as int];
    &&& after.backends() == before.backends()
    &&& after.position() == rotate(before.position(), before.backends().len())
    &&& dispatched(route, rebased_url(base, upstream_path(path), query), authorized, phase, action)
}

/// The decision once the backend URL is known: forward the request, or
/// answer at once when there is no URL or no credentials to pass on. The
/// cache-filling route is left out without credentials: it panics there.
pub fn dispatch_upstream(route: &Route, target: Option<String>, authorized: bool) -> (next: (
    Phase,
    Action,
))
    requires
        *route is CacheFirst ==> authorized,
    ensures
        dispatched(
            *route,
            match target {
                Some(t) => Some(t@),
                None => None,
            },
            authorized,
            next.0,
            next.1,
        ),
{
    match target {
        None => (Phase::Finished, Action::Abort(Fault::BadBackendUrl)),
        Some(url) => {
            if authorized {
                (Phase::AwaitForward, Action::Forward(url))
            } else {
                let message = "Authorization header is missing".to_owned();
                (Phase::Finished, Action::Respond(Reply::Unauthorized(message)))
            }
        },
    }
}

/// One request on a users route, from the cache lookup (on the cache-first
/// route) through the backend round trip to the response.
pub struct UsersFlow {
    route: Route,
    path: String,
    query: Option<String>,
    authorized: bool,
    phase: Phase,
}

impl UsersFlow {
    #[verifier::type_invariant]
    spec fn consistent(self) -> bool {
        self.route is Direct ==> !(self.phase is AwaitCache || self.phase is AwaitStore)
    }

    /// The route that the request came in on.
    pub closed spec fn route(&self) -> Route {
        self.route
    }

    /// The request path.
    pub closed spec fn path(&self) -> Seq<char> {
        self.path@
    }

    /// The request's query string, if any.
    pub closed spec fn query(&self) -> Option<Seq<char>> {
        match self.query {
            Some(q) => Some(q@),
            None => None,
        }
    }

    /// Whether the request carries an Authorization header.
    pub closed spec fn authorized(&self) -> bool {
        self.authorized
    }

    /// Where the flow stands.
    pub closed spec fn phase(&self) -> Phase {
        self.phase
    }

    /// Whether the flow is over.
    pub fn is_finished(&self) -> (done: bool)
        ensures
            done == self.phase() is Finished,
    {
        match self.phase {
            Phase::Finished => true,
            _ => false,
        }
    }

    /// Starts a flow for a request on `route` with `path` and `query`;
    /// `authorized` tells whether it carries an Authorization header.
    pub fn start(
        route: Route,
        path: String,
        query: Option<String>,
        authorized: bool,
        balancer: &mut RoundRobinLoadBalancer,
    ) -> (started: (UsersFlow, Action))
        requires
            route is Direct ==> {
                &&& target_fits(
                    path@,
                    match query {
                        Some(q) => Some(q@),
                        None => None,
                    },
                )
                &&& backends_fit(old(balancer).backends())
            },
        ensures
            started.0.route() == route,
            started.0.path() == path@,
            started.0.query() == (match query {
                Some(q) => Some(q@),
                None => None,
            }),
            started.0.authorized() == authorized,
            started.0.phase() is Finished <==> is_final(started.1),
            route is CacheFirst ==> {
                &&& started.0.phase() is AwaitCache
                &&& started.1 is ReadCache
                &&& *final(balancer) == *old(balancer)
            },
            route is Direct ==> went_upstream(
                route,
                path@,
                started.0.query(),
                authorized,
                *old(balancer),
                *final(balancer),
                started.0.phase(),
                started.1,
            ),
    {
        let phase = match route {
            Route::CacheFirst => Phase::AwaitCache,
            Route::Direct => Phase::AwaitForward,
        };
        let mut flow = UsersFlow { route, path, query, authorized, phase };
        match flow.route {
            Route::CacheFirst => (flow, Action::ReadCache),
            Route::Direct => {
                let action = flow.go_upstream(balancer);
                (flow, action)
            },
        }
    }

    /// Takes the next base URL from the balancer and builds the backend
    /// request on it.
    fn go_upstream(&mut self, balancer: &mut RoundRobinLoadBalancer) -> (action: Action)
        requires
            target_fits(old(self).path(), old(self).query()),
            backends_fit(old(balancer).backends()),
            old(self).route() is CacheFirst ==> old(self).authorized(),
        ensures
            final(self).route() == old(self).route(),
            final(self).path() == old(self).path(),
            final(self).query() == old(self).query(),
            final(self).authorized() == old(self).authorized(),
            went_upstream(
                old(self).route(),
                old(self).path(),
                old(self).query(),
                old(self).authorized(),
                *old(balancer),
                *final(balancer),
                final(self).phase(),
                action,
            ),
    {
        proof {
            use_type_invariant(&*self);
        }
        let base = balancer.get_next_url();
        let target = match &self.query {
            Some(q) => upstream_url(base.as_str(), self.path.as_str(), Some(q.as_str())),
            None => upstream_url(base.as_str(), self.path.as_str(), None),
        };
        let (phase, action) = dispatch_upstream(&self.route, target, self.authorized);
        self.phase = phase;
        action
    }

    /// Moves the flow on by the outcome of the last action.
    pub fn step(&mut self, event: Event, balancer: &mut RoundRobinLoadBalancer) -> (action: Action)
        requires
            expects(old(self).phase(), event),
            goes_upstream(old(self).phase(), event) ==> {
                &&& target_fits(old(self).path(), old(self).query())
                &&& backends_fit(old(balancer).backends())
                &&& old(self).authorized()
            },
        ensures
            final(self).route() == old(self).route(),
            final(self).path() == old(self).path(),
            final(self).query() == old(self).query(),
            final(self).authorized() == old(self).authorized(),
            final(self).phase() is Finished <==> is_final(action),
            rank(final(self).phase()) < rank(old(self).phase()),
            old(self).route() is Direct ==> !(action is ReadCache || action is StoreCache),
            !(old(self).phase() is AwaitCache && !(event matches Event::CacheRead(
                CacheLookup::Found(_),
            ))) ==> *final(balancer) == *old(balancer),
            match (old(self).phase(), event) {
                (Phase::AwaitCache, Event::CacheRead(CacheLookup::Found(users))) => {
                    &&& final(self).phase() is Finished
                    &&& action matches Action::Respond(Reply::JsonText(t)) && t@ == users@
                },
                (Phase::AwaitCache, Event::CacheRead(_)) => went_upstream(
                    old(self).route(),
                    old(self).path(),
                    old(self).query(),
                    old(self).authorized(),
                    *old(balancer),
                    *final(balancer),
                    final(self).phase(),
                    action,
                ),
                (Phase::AwaitForward, Event::Forwarded(Err(m))) => action matches Action::Respond(
                    Reply::ServerError(t),
                ) && t@ == m@,
                (Phase::AwaitForward, Event::Forwarded(Ok(()))) => {
                    &&& final(self).phase() is AwaitBody
                    &&& action is ReadBody
                },
                (Phase::AwaitBody, Event::BodyRead(Err(m))) => action matches Action::Respond(
                    Reply::ServerError(t),
                ) && t@ == m@,
                (Phase::AwaitBody, Event::BodyRead(Ok(body))) => {
                    &&& final(self).phase() matches Phase::AwaitReencode(b) && b@ == body@
                    &&& action matches Action::Reencode(b) && b@ == body@
                },
                (Phase::AwaitReencode(_), Event::Reencoded(Err(m))) => action matches Action::Respond(
                    Reply::ServerError(t),
                ) && t@ == m@,
                (Phase::AwaitReencode(body), Event::Reencoded(Ok(users))) => match old(self).route() {
                    Route::CacheFirst => {
                        &&& final(self).phase() matches Phase::AwaitStore(b) && b@ == body@
                        &&& action matches Action::StoreCache(j) && j@ == users@
                    },
                    Route::Direct => action matches Action::Respond(Reply::JsonText(t)) && t@
                        == users@,
                },
                (Phase::AwaitStore(_), Event::CacheStored(StoreOutcome::Failed)) => action matches Action::Respond(
                    Reply::ServerError(t),
                ) && t@ == cache_failure_text(),
                (Phase::AwaitStore(body), Event::CacheStored(_)) => action matches Action::Respond(
                    Reply::JsonBytes(b),
                ) && b@ == body@,
                _ => false,
            },
    {
        proof {
            use_type_invariant(&*self);
        }
        let mut phase = Phase::Finished;
        std::mem::swap(&mut phase, &mut self.phase);
        match (phase, event) {
            (Phase::AwaitCache, Event::CacheRead(CacheLookup::Found(users))) => {
                Action::Respond(Reply::JsonText(users))
            },
            (Phase::AwaitCache, _) => self.go_upstream(balancer),
            (Phase::AwaitForward, Event::Forwarded(Err(message))) => {
                Action::Respond(Reply::ServerError(message))
            },
            (Phase::AwaitForward, _) => {
                self.phase = Phase::AwaitBody;
                Action::ReadBody
            },
            (Phase::AwaitBody, Event::BodyRead(Ok(body))) => {
                let copy = body.clone();
                self.phase = Phase::AwaitReencode(body);
                Action::Reencode(copy)
            },
            (Phase::AwaitBody, Event::BodyRead(Err(message))) => {
                Action::Respond(Reply::ServerError(message))
            },
            (Phase::AwaitReencode(body), Event::Reencoded(Ok(users))) => {
                match self.route {
                    Route::CacheFirst => {
                        self.phase = Phase::AwaitStore(body);
                        Action::StoreCache(users)
                    },
                    Route::Direct => Action::Respond(Reply::JsonText(users)),
                }
            },
            (Phase::AwaitReencode(_), Event::Reencoded(Err(message))) => {
                Action::Respond(Reply::ServerError(message))
            },
            (Phase::AwaitStore(_), Event::CacheStored(StoreOutcome::Failed)) => {
                Action::Respond(Reply::ServerError("Internal Server Error".to_owned()))
            },
            (Phase::AwaitStore(body), _) => Action::Respond(Reply::JsonBytes(body)),
            _ => {
                // `expects` rules out every other pairing.
                proof {
                    assert(false);
                }
                Action::ReadBody
            },
        }
    }
}

/// Law: a request path `/using-reqwest` followed by any rest is forwarded
/// as exactly that rest, trailing slashes and all.
pub proof fn lemma_prefixed_path_forwards_rest(rest: Seq<char>)
    ensures
        upstream_path(seq!['/', 'u', 's', 'i', 'n', 'g', '-', 'r', 'e', 'q', 'w', 'e', 's', 't']
            + rest) == rest,
{
    reveal_strlit("/using-reqwest");
    let prefix = seq!['/', 'u', 's', 'i', 'n', 'g', '-', 'r', 'e', 'q', 'w', 'e', 's', 't'];
    assert("/using-reqwest"@ =~= prefix);
    assert((prefix + rest).subrange(0, 14) =~= prefix);
    assert((prefix + rest).skip(14) =~= rest);
}

/// Law: a request path that does not start with `/using-reqwest` is
/// forwarded unchanged.
pub proof fn lemma_unprefixed_path_forwards_unchanged(path: Seq<char>)
    requires
        !(14 <= path.len() && path.take(14) == seq![
            '/',
            'u',
            's',
            'i',
            'n',
            'g',
            '-',
            'r',
            'e',
            'q',
            'w',
            'e',
            's',
            't',
        ]),
    ensures
        upstream_path(path) == path,
{
    reveal_strlit("/using-reqwest");
    let prefix = seq!['/', 'u', 's', 'i', 'n', 'g', '-', 'r', 'e', 'q', 'w', 'e', 's', 't'];
    assert("/using-reqwest"@ =~= prefix);
    if 14 <= path.len() {
        assert(path.subrange(0, 14) =~= path.take(14));
    }
}

/// Law: any non-empty list of backends whose base URLs are within
/// `URL_PART_LIMIT`, a single backend included, can serve users flows; and
/// only non-empty lists can.
pub proof fn lemma_backends_fit_exactly(backends: Seq<Seq<char>>)
    ensures
        (backends.len() >= 1 && forall|i: int|
            0 <= i < backends.len() ==> (#[trigger] backends[i]).len() <= URL_PART_LIMIT)
            ==> backends_fit(backends),
        backends_fit(backends) ==> backends.len() >= 1 && forall|i: int|
            0 <= i < backends.len() ==> (#[trigger] backends[i]).len() <= URL_PART_LIMIT,
{
}

} // verus!
