//! How the client reaches a recognizer: the endpoint, whether the connection
//! can be used, and the outcome of enrolling the user's voice.

use crate::config::option_view;
use crate::text::{chars_of, concat, owned, push_chars, push_debug_quoted, debug_quoted};
use vstd::prelude::*;

verus! {

/// A resolved ASR connection.
pub struct Endpoint {
    pub url: String,
    pub headers: Vec<(String, String)>,
    /// A protocol-level API key, when the selected server expects one.
    pub api_key: Option<String>,
}

/// `headers` as `{:?}` shows them with every value hidden, from index `k` on,
/// each entry preceded by a separator but the first.
pub open spec fn redacted_headers_from(names: Seq<Seq<char>>, k: nat) -> Seq<char>
    decreases names.len() - k,
{
    if k >= names.len() {
        Seq::empty()
    } else {
        (if k == 0 {
            Seq::<char>::empty()
        } else {
            ", "@
        }) + "("@ + debug_quoted(names[k as int]) + ", \"***\")"@ + redacted_headers_from(
            names,
            k + 1,
        )
    }
}

/// The endpoint as `{:?}` shows it: the URL, each header by its name with
/// its value hidden, and whether an API key is set, hidden too.
pub open spec fn endpoint_debug(url: Seq<char>, header_names: Seq<Seq<char>>, has_key: bool) -> Seq<
    char,
> {
    "Endpoint { url: "@ + debug_quoted(url) + ", headers: ["@ + redacted_headers_from(
        header_names,
        0,
    ) + "], api_key: "@ + (if has_key {
        "Some(\"***\")"@
    } else {
        "None"@
    }) + " }"@
}

impl Endpoint {
    /// The names of the headers, in order.
    pub open spec fn header_names(&self) -> Seq<Seq<char>> {
        self.headers@.map_values(|h: (String, String)| h.0@)
    }

    /// The endpoint for logs: header values and the API key never appear.
    pub fn redacted_debug(&self) -> (r: String)
        ensures
            r@ == endpoint_debug(self.url@, self.header_names(), self.api_key is Some),
    {
        let mut r = owned("Endpoint { url: ");
        push_debug_quoted(&mut r, chars_of(self.url.as_str()).as_slice());
        push_chars(&mut r, chars_of(", headers: [").as_slice());
        let ghost names = self.header_names();
        let ghost base = r@;
        let mut i: usize = 0;
        while i < self.headers.len()
            invariant
                0 <= i <= names.len(),
                names == self.header_names(),
                names.len() == self.headers@.len(),
                r@ + redacted_headers_from(names, i as nat) == base + redacted_headers_from(names, 0),
            decreases self.headers.len() - i,
        {
            let ghost before = r@;
            if i > 0 {
                push_chars(&mut r, chars_of(", ").as_slice());
            }
            push_chars(&mut r, chars_of("(").as_slice());
            push_debug_quoted(&mut r, chars_of(self.headers[i].0.as_str()).as_slice());
            push_chars(&mut r, chars_of(", \"***\")").as_slice());
            proof {
                assert(names[i as int] == self.headers@[i as int].0@);
                let piece = (if i == 0 {
                    Seq::<char>::empty()
                } else {
                    ", "@
                }) + "("@ + debug_quoted(names[i as int]) + ", \"***\")"@;
                assert(r@ =~= before + piece);
                assert(redacted_headers_from(names, i as nat) == piece + redacted_headers_from(
                    names,
                    (i + 1) as nat,
                ));
                assert(r@ + redacted_headers_from(names, (i + 1) as nat) =~= before
                    + redacted_headers_from(names, i as nat));
            }
            i = i + 1;
        }
        assert(redacted_headers_from(names, i as nat) =~= Seq::<char>::empty());
        push_chars(&mut r, chars_of("], api_key: ").as_slice());
        match &self.api_key {
            Some(_) => push_chars(&mut r, chars_of("Some(\"***\")").as_slice()),
            None => push_chars(&mut r, chars_of("None").as_slice()),
        }
        push_chars(&mut r, chars_of(" }").as_slice());
        r
    }
}

/// A connection for a self-hosted server, with the token (if any) sent as
/// `Authorization: Bearer`. The token is also kept as the API key so that
/// connection errors can hide it; with the header set, callers leave it out
/// of the protocol settings.
pub fn endpoint_with_auth_token(url: String, auth_token: Option<String>) -> (r: Endpoint)
    ensures
        r.url@ == url@,
        option_view(r.api_key) == option_view(auth_token),
        match auth_token {
            Some(t) => r.headers@.len() == 1 && r.headers@[0].0@ == "Authorization"@
                && r.headers@[0].1@ == "Bearer "@ + t@,
            None => r.headers@.len() == 0,
        },
{
    let mut headers: Vec<(String, String)> = Vec::new();
    match &auth_token {
        Some(token) => {
            headers.push((owned("Authorization"), concat("Bearer ", token.as_str())));
        },
        None => {},
    }
    Endpoint { url, headers, api_key: auth_token }
}

/// The auth token sent to a self-hosted server: the `OTOA_ASR_AUTH_TOKEN`
/// environment value, else the one a `.env` file in the working directory
/// or above it gives; an empty value counts as none.
pub open spec fn spec_auth_token(environment: Option<Seq<char>>, dotenv: Option<Seq<char>>) -> Option<
    Seq<char>,
> {
    match environment {
        Some(e) if e.len() > 0 => Some(e),
        _ => match dotenv {
            Some(d) if d.len() > 0 => Some(d),
            _ => None,
        },
    }
}

/// Picks the auth token (see `spec_auth_token`) from the environment's
/// value and the `.env` file's value.
pub fn resolve_auth_token(environment: Option<String>, dotenv: Option<String>) -> (r: Option<String>)
    ensures
        option_view(r) == spec_auth_token(option_view(environment), option_view(dotenv)),
{
    match environment {
        Some(e) => {
            if chars_of(e.as_str()).len() > 0 {
                return Some(e);
            }
        },
        None => {},
    }
    match dotenv {
        Some(d) => {
            if chars_of(d.as_str()).len() > 0 {
                Some(d)
            } else {
                None
            }
        },
        None => None,
    }
}

/// The address of the bundled server started with its defaults.
pub const DEFAULT_SERVER_URL: &'static str = "ws://127.0.0.1:8770/asr/v1";

/// Connects straight to a self-hosted Otoa ASR Protocol server. The settings
/// come with every connection, so this type holds nothing.
#[derive(Debug, Default)]
pub struct SelfHostedProvider;

impl SelfHostedProvider {
    /// The endpoint for the resolved server URL (or the bundled server's
    /// address when none is set) and the auth token, if one is configured.
    pub fn endpoint_for(&self, server_url: Option<String>, auth_token: Option<String>) -> (r:
        Endpoint)
        ensures
            r.url@ == match server_url {
                Some(u) => u@,
                None => DEFAULT_SERVER_URL@,
            },
            option_view(r.api_key) == option_view(auth_token),
            match auth_token {
                Some(t) => r.headers@.len() == 1 && r.headers@[0].0@ == "Authorization"@
                    && r.headers@[0].1@ == "Bearer "@ + t@,
                None => r.headers@.len() == 0,
            },
    {
        let url = match server_url {
            Some(u) => u,
            None => owned(DEFAULT_SERVER_URL),
        };
        endpoint_with_auth_token(url, auth_token)
    }

    /// The endpoint for the resolved server URL (or the bundled server's
    /// address), with the auth token picked from the environment's value and
    /// the `.env` file's value (see `spec_auth_token`).
    pub fn endpoint(
        &self,
        server_url: Option<String>,
        environment_token: Option<String>,
        dotenv_token: Option<String>,
    ) -> (r: Endpoint)
        ensures
            r.url@ == match server_url {
                Some(u) => u@,
                None => DEFAULT_SERVER_URL@,
            },
            option_view(r.api_key) == spec_auth_token(option_view(environment_token), option_view(dotenv_token)),
            match spec_auth_token(option_view(environment_token), option_view(dotenv_token)) {
                Some(t) => r.headers@.len() == 1 && r.headers@[0].0@ == "Authorization"@
                    && r.headers@[0].1@ == "Bearer "@ + t,
                None => r.headers@.len() == 0,
            },
    {
        let token = resolve_auth_token(environment_token, dotenv_token);
        self.endpoint_for(server_url, token)
    }
}

#[derive(Debug, Clone, PartialEq, Eq)]
pub enum Readiness {
    Ready,
    NeedsSetup { message: String },
    NeedsLogin { message: String },
}

#[derive(Debug, Clone, Copy, PartialEq, Eq, Structural)]
pub enum PrepareAction {
    Login,
}

/// What asked for an enrollment. Providers may use it for diagnostics; the
/// outcome is handled the same way either way.
#[derive(Debug, Clone, Copy, PartialEq, Eq, Structural)]
pub enum EnrollReason {
    BeforeConnection,
    Warmup,
}

/// The outcome of enrolling the reference voice. A remote failure can be
/// recovered on the gateway's side and is no reason to drop speech; missing
/// enrollment or login waits for the user.
#[derive(Debug, Clone, PartialEq, Eq)]
pub enum EnrollOutcome {
    Ready,
    RetryableRemote(String),
    NeedsUserAction(String),
}

#[derive(Debug, Clone, PartialEq, Eq)]
pub struct Account {
    pub email: Option<String>,
}

/// The outcome of the default enrollment: nothing to do when enrollment is
/// not possible (`None`), else the warm-up's result, a failure of which is a
/// retryable remote failure carrying its message.
pub fn enrollment_outcome(warmup: Option<Result<(), String>>) -> (r: EnrollOutcome)
    ensures
        match warmup {
            None => r is Ready,
            Some(Ok(())) => r is Ready,
            Some(Err(m)) => r matches EnrollOutcome::RetryableRemote(s) && s@ == m@,
        },
{
    match warmup {
        None => EnrollOutcome::Ready,
        Some(Ok(())) => EnrollOutcome::Ready,
        Some(Err(message)) => EnrollOutcome::RetryableRemote(message),
    }
}

/// The provider's judgement comes first; only when it says ready does a
/// failure of the bundled server turn into a setup need.
pub fn combine_readiness(provider_readiness: Readiness, bundled_server_failure: Option<&str>) -> (r:
    Readiness)
    ensures
        match (provider_readiness, bundled_server_failure) {
            (Readiness::Ready, Some(m)) => r matches Readiness::NeedsSetup { message } && message@
                == m@,
            (p, _) => r == p,
        },
{
    match (provider_readiness, bundled_server_failure) {
        (Readiness::Ready, Some(message)) => Readiness::NeedsSetup { message: owned(message) },
        (readiness, _) => readiness,
    }
}

} // verus!
