use vstd::prelude::*;
use vstd::string::*;

verus! {

/// The port LocalStack listens on when none is given.
pub const DEFAULT_EDGE_PORT: &'static str = "4566";

/// `http::Uri`, declared so that it can pass through verified code.
#[verifier::external_type_specification]
#[verifier::external_body]
pub struct ExUri(http::Uri);

/// `http::uri::InvalidUri`, declared so that it can pass through verified code.
#[verifier::external_type_specification]
#[verifier::external_body]
pub struct ExInvalidUri(http::uri::InvalidUri);

/// The URI that `http::Uri`'s `FromStr` makes of `text`, or `None` when it refuses `text`.
pub uninterp spec fn parsed_uri(text: Seq<char>) -> Option<http::Uri>;

/// `<http::Uri as FromStr>::from_str`: parses `text` as a URI. It succeeds
/// exactly when [parsed_uri] of `text` is some, and gives that URI.
#[verifier::external_body]
fn parse_uri(text: &str) -> (r: Result<http::Uri, http::uri::InvalidUri>)
    ensures
        r is Ok <==> parsed_uri(text@) is Some,
        r is Ok ==> r->Ok_0 == parsed_uri(text@)->0,
{
    text.parse::<http::Uri>()
}

/// The text `http://<host>:<port>` of a LocalStack endpoint.
pub open spec fn spec_endpoint_text(host: Seq<char>, port: Seq<char>) -> Seq<char> {
    seq!['h', 't', 't', 'p', ':', '/', '/'] + host + seq![':'] + port
}

/// Why no LocalStack endpoint could be formed.
#[derive(Debug)]
pub enum LocalstackError {
    /// The endpoint text is not a valid URI; holds the text and the parse error.
    InvalidUri(String, http::uri::InvalidUri),
}

impl LocalstackError {
    /// The error's message, which names the endpoint text.
    pub fn message(&self) -> (r: String)
        ensures
            r@ == "Failed to parse LocalStack URI: "@ + self->InvalidUri_0@,
    {
        match self {
            LocalstackError::InvalidUri(text, _) => {
                let mut r = String::from_str("Failed to parse LocalStack URI: ");
                r.append(text.as_str());
                r
            },
        }
    }
}

/// The endpoint text for `host`, on `port` or else [DEFAULT_EDGE_PORT].
pub fn endpoint_text(host: &str, port: Option<&str>) -> (r: String)
    ensures
        r@ == spec_endpoint_text(
            host@,
            match port {
                Some(p) => p@,
                None => DEFAULT_EDGE_PORT@,
            },
        ),
{
    let mut r = String::from_str("http://");
    r.append(host);
    r.append(":");
    match port {
        Some(p) => r.append(p),
        None => r.append(DEFAULT_EDGE_PORT),
    }
    proof {
        reveal_strlit("http://");
        reveal_strlit(":");
        assert(r@ =~= spec_endpoint_text(
            host@,
            match port {
                Some(p) => p@,
                None => DEFAULT_EDGE_PORT@,
            },
        ));
    }
    r
}

/// The endpoint that the parse of `text` gives: the URI, or an error naming `text`.
pub fn endpoint_from_parse(text: String, parsed: Result<http::Uri, http::uri::InvalidUri>) -> (r: Result<
    Option<http::Uri>,
    LocalstackError,
>)
    ensures
        parsed is Ok ==> r is Ok && r->Ok_0 == Some(parsed->Ok_0),
        parsed is Err ==> r is Err && r->Err_0->InvalidUri_0@ == text@,
{
    match parsed {
        Ok(uri) => Ok(Some(uri)),
        Err(e) => Err(LocalstackError::InvalidUri(text, e)),
    }
}

/// The LocalStack endpoint that the settings `LOCALSTACK_HOSTNAME` (`host`)
/// and `EDGE_PORT` (`port`) give: none without a host; otherwise the URI
/// `http://<host>:<port>`, the port defaulting to [DEFAULT_EDGE_PORT], or an
/// error when that text is not a valid URI.
pub fn localstack_endpoint(host: Option<String>, port: Option<String>) -> (r: Result<
    Option<http::Uri>,
    LocalstackError,
>)
    ensures
        host is None ==> r is Ok && r->Ok_0 is None,
        host is Some ==> ({
            let text = spec_endpoint_text(
                host->0@,
                match port {
                    Some(p) => p@,
                    None => DEFAULT_EDGE_PORT@,
                },
            );
            &&& parsed_uri(text) is Some ==> r is Ok && r->Ok_0 == Some(parsed_uri(text)->0)
            &&& parsed_uri(text) is None ==> r is Err && r->Err_0->InvalidUri_0@ == text
        }),
{
    match host {
        None => Ok(None),
        Some(h) => {
            let text = match &port {
                Some(p) => endpoint_text(h.as_str(), Some(p.as_str())),
                None => endpoint_text(h.as_str(), None),
            };
            let parsed = parse_uri(text.as_str());
            endpoint_from_parse(text, parsed)
        },
    }
}

} // verus!
