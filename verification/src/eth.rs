//! The Ethereum JSON-RPC client handle.
use vstd::prelude::*;
use ethers::providers::{Http, Provider};

verus! {

#[verifier::external_type_specification]
#[verifier::external_body]
#[verifier::reject_recursive_types(P)]
pub struct ExProvider<P>(Provider<P>);

#[verifier::external_type_specification]
#[verifier::external_body]
pub struct ExHttp(Http);

/// The URL that `url::Url::parse` makes of `url`, in its serialized form
/// (`Url::as_str`), or `None` when `url` does not parse.
pub uninterp spec fn parsed_url(url: Seq<char>) -> Option<Seq<char>>;

/// The endpoint an HTTP provider sends its requests to, in serialized form:
/// `Provider::<Http>::url(p).as_str()`.
pub uninterp spec fn provider_endpoint(p: Provider<Http>) -> Seq<char>;

/// `Provider::<Http>::try_from(url)`, which parses `url` with
/// `url::Url::parse` and builds an HTTP JSON-RPC provider whose endpoint is
/// that parsed URL (`Provider::new(Http::new(Url::parse(url)?))`). The
/// contract claims that a provider comes back exactly when the URL parses
/// (named `parsed_url`), and that its endpoint (named `provider_endpoint`)
/// is the parsed URL; nothing is said of the reqwest client built inside it.
#[verifier::external_body]
fn http_provider(url: &str) -> (r: Option<Provider<Http>>)
    ensures
        r is Some <==> parsed_url(url@) is Some,
        r is Some ==> provider_endpoint(r.unwrap()) == parsed_url(url@).unwrap(),
{
    Provider::<Http>::try_from(url).ok()
}

/// Access to an Ethereum JSON-RPC endpoint.
pub struct Ethereum {}

impl Ethereum {
    /// The HTTP provider for `url`, which must be a valid URL; it sends its
    /// requests to the parsed `url`.
    pub fn client(url: &str) -> (p: Provider<Http>)
        requires
            parsed_url(url@) is Some,
        ensures
            provider_endpoint(p) == parsed_url(url@).unwrap(),
    {
        let p = http_provider(url);
        p.unwrap()
    }

    /// The HTTP provider for `url`, or `None` when `url` does not parse.
    pub fn try_client(url: &str) -> (p: Option<Provider<Http>>)
        ensures
            p is Some <==> parsed_url(url@) is Some,
            p is Some ==> provider_endpoint(p.unwrap()) == parsed_url(url@).unwrap(),
    {
        match http_provider(url) {
            Some(_) => Some(Ethereum::client(url)),
            None => None,
        }
    }
}

} // verus!
