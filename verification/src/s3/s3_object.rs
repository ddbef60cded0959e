use vstd::prelude::*;
use vstd::string::*;

verus! {

/// `s` with every leading `/` removed.
pub open spec fn trim_leading_slashes(s: Seq<char>) -> Seq<char>
    decreases s.len(),
{
    if s.len() > 0 && s[0] == '/' {
        trim_leading_slashes(s.drop_first())
    } else {
        s
    }
}

/// A bucket and key pair naming an object in S3.
#[derive(Debug, PartialEq, Eq, Clone)]
pub struct S3Object {
    /// The bucket the object is in.
    pub bucket: String,
    /// The key of the object in its bucket.
    pub key: String,
}

/// Number of leading `/` characters of `s`.
fn leading_slash_count(s: &str) -> (n: usize)
    ensures
        n <= s@.len(),
        trim_leading_slashes(s@) == s@.skip(n as int),
{
    let len = s.unicode_len();
    let mut n: usize = 0;
    assert(s@.skip(0) =~= s@);
    while n < len && s.get_char(n) == '/'
        invariant
            len == s@.len(),
            n <= len,
            trim_leading_slashes(s@) == trim_leading_slashes(s@.skip(n as int)),
        decreases len - n,
    {
        assert(s@.skip(n as int).drop_first() =~= s@.skip(n + 1));
        n = n + 1;
    }
    assert(n < len ==> s@.skip(n as int)[0] == s@[n as int]);
    n
}

impl S3Object {
    /// Creates an `S3Object`; every leading `/` is trimmed from the key.
    /// Neither the bucket nor the key is otherwise checked.
    pub fn new(bucket: &str, key: &str) -> (obj: S3Object)
        ensures
            obj.bucket@ == bucket@,
            obj.key@ == trim_leading_slashes(key@),
    {
        let n = leading_slash_count(key);
        let len = key.unicode_len();
        let trimmed = key.substring_char(n, len);
        proof {
            assert(key@.subrange(n as int, len as int) =~= key@.skip(n as int));
        }
        S3Object { bucket: String::from_str(bucket), key: String::from_str(trimmed) }
    }
}

/// `url::Url`, declared so that it can pass through verified code.
#[verifier::external_type_specification]
#[verifier::external_body]
pub struct ExUrl(url::Url);

/// `url::ParseError`, declared so that it can pass through verified code.
#[verifier::external_type_specification]
#[verifier::external_body]
pub struct ExUrlParseError(url::ParseError);

/// The parts of a URL that an [S3Object] is read from.
#[derive(Debug, PartialEq, Eq, Clone)]
pub struct UrlParts {
    /// The scheme, lower-cased, without the `:`.
    pub scheme: String,
    /// The host, if the URL has one.
    pub host: Option<String>,
    /// The path, as the `url` crate gives it.
    pub path: String,
}

/// The parts of a URL by their characters.
pub struct UrlPartsView {
    pub scheme: Seq<char>,
    pub host: Option<Seq<char>>,
    pub path: Seq<char>,
}

impl View for UrlParts {
    type V = UrlPartsView;

    open spec fn view(&self) -> UrlPartsView {
        UrlPartsView {
            scheme: self.scheme@,
            host: match self.host {
                Some(h) => Some(h@),
                None => None,
            },
            path: self.path@,
        }
    }
}

/// The URL that `url::Url::parse` makes of `text`, or `None` when it refuses `text`.
pub uninterp spec fn parsed_url(text: Seq<char>) -> Option<url::Url>;

/// The scheme that `url::Url::scheme` gives of `url`.
pub uninterp spec fn url_scheme(url: url::Url) -> Seq<char>;

/// The host that `url::Url::host_str` gives of `url`, if any.
pub uninterp spec fn url_host(url: url::Url) -> Option<Seq<char>>;

/// The path that `url::Url::path` gives of `url`.
pub uninterp spec fn url_path(url: url::Url) -> Seq<char>;

/// The scheme, host and path of `url`.
pub open spec fn url_view(url: url::Url) -> UrlPartsView {
    UrlPartsView { scheme: url_scheme(url), host: url_host(url), path: url_path(url) }
}

/// `url::Url::scheme`, `url::Url::host_str` and `url::Url::path`: the parts
/// of `url` as strings, which are [url_scheme], [url_host] and [url_path] of `url`.
#[verifier::external_body]
fn url_parts(url: &url::Url) -> (r: UrlParts)
    ensures
        r.scheme@ == url_scheme(*url),
        r.host matches Some(h) ==> url_host(*url) == Some(h@),
        r.host is None ==> url_host(*url) is None,
        r.path@ == url_path(*url),
{
    UrlParts {
        scheme: url.scheme().to_string(),
        host: url.host_str().map(String::from),
        path: url.path().to_string(),
    }
}

/// `url::Url::parse`: parses `text` as a URL. It succeeds exactly when
/// [parsed_url] of `text` is some, and gives that URL.
#[verifier::external_body]
fn parse_url(text: &str) -> (r: Result<url::Url, url::ParseError>)
    ensures
        r is Ok <==> parsed_url(text@) is Some,
        r is Ok ==> r->Ok_0 == parsed_url(text@)->0,
{
    url::Url::parse(text)
}

/// Why a URL does not name an S3 object.
#[derive(Debug, PartialEq, Eq)]
pub enum S3ObjectError {
    /// The scheme is not `s3`.
    NotS3Scheme,
    /// The URL has no host.
    MissingHost,
    /// The URL's path is empty.
    MissingPath,
    /// The text is not a URL.
    InvalidUrl(url::ParseError),
}

/// The bucket and key that the parts of a URL name: the scheme must be
/// `s3`, the host is the bucket, and the path, which must not be empty, gives
/// the key with its leading `/` trimmed.
pub open spec fn spec_from_url_parts(parts: UrlPartsView) -> Result<(Seq<char>, Seq<char>), S3ObjectError> {
    if parts.scheme != seq!['s', '3'] {
        Err(S3ObjectError::NotS3Scheme)
    } else if parts.host is None {
        Err(S3ObjectError::MissingHost)
    } else if parts.path.len() == 0 {
        Err(S3ObjectError::MissingPath)
    } else {
        Ok((parts.host->0, trim_leading_slashes(parts.path)))
    }
}

/// `r` is what [spec_from_url_parts] decides for `parts`: the same error,
/// or an object with that bucket and key.
pub open spec fn reads_parts(r: Result<S3Object, S3ObjectError>, parts: UrlPartsView) -> bool {
    match (r, spec_from_url_parts(parts)) {
        (Ok(obj), Ok((bucket, key))) => obj.bucket@ == bucket && obj.key@ == key,
        (Err(e), Err(f)) => e == f,
        _ => false,
    }
}

/// The text `s3://<bucket>/<key>`.
pub open spec fn spec_s3_url(bucket: Seq<char>, key: Seq<char>) -> Seq<char> {
    seq!['s', '3', ':', '/', '/'] + bucket + seq!['/'] + key
}

/// Whether `s` is the text `s3`.
fn is_s3(s: &str) -> (r: bool)
    ensures
        r == (s@ == seq!['s', '3']),
{
    let len = s.unicode_len();
    if len != 2 {
        return false;
    }
    let r = s.get_char(0) == 's' && s.get_char(1) == '3';
    assert(r ==> s@ =~= seq!['s', '3']);
    r
}

impl S3Object {
    /// The object that the parts of a URL name; see [spec_from_url_parts].
    pub fn from_url_parts(parts: &UrlParts) -> (r: Result<S3Object, S3ObjectError>)
        ensures
            reads_parts(r, parts@),
    {
        if !is_s3(parts.scheme.as_str()) {
            return Err(S3ObjectError::NotS3Scheme);
        }
        let bucket = match &parts.host {
            Some(h) => h,
            None => {
                return Err(S3ObjectError::MissingHost);
            },
        };
        if parts.path.as_str().is_empty() {
            return Err(S3ObjectError::MissingPath);
        }
        Ok(S3Object::new(bucket.as_str(), parts.path.as_str()))
    }

    /// The object that a `url::Url` names, read from its scheme, host and
    /// path (see [spec_from_url_parts]): the scheme must be `s3`, the host is
    /// the bucket, and the path, which must not be empty, gives the key
    /// without its leading `/`.
    pub fn from_url(url: &url::Url) -> (r: Result<S3Object, S3ObjectError>)
        ensures
            reads_parts(r, url_view(*url)),
            r is Ok ==> !starts_with_slash(r->Ok_0.key@),
    {
        let parts = url_parts(url);
        let r = S3Object::from_url_parts(&parts);
        proof {
            assert(parts@ == url_view(*url));
            match spec_from_url_parts(parts@) {
                Ok((b, k)) => {
                    lemma_trimmed_has_no_leading_slash(parts@.path);
                },
                Err(_) => {},
            }
        }
        r
    }

    /// The object that the URL `text` names: `text` must parse as a URL,
    /// and that URL must name an object (see [S3Object::from_url]).
    pub fn parse(text: &str) -> (r: Result<S3Object, S3ObjectError>)
        ensures
            match parsed_url(text@) {
                None => r is Err && r->Err_0 is InvalidUrl,
                Some(url) => reads_parts(r, url_view(url)),
            },
    {
        match parse_url(text) {
            Ok(url) => S3Object::from_url(&url),
            Err(e) => Err(S3ObjectError::InvalidUrl(e)),
        }
    }

    /// The URL text `s3://<bucket>/<key>` of the object.
    pub fn url_string(&self) -> (r: String)
        ensures
            r@ == spec_s3_url(self.bucket@, self.key@),
    {
        let mut r = String::from_str("s3://");
        r.append(self.bucket.as_str());
        r.append("/");
        r.append(self.key.as_str());
        proof {
            reveal_strlit("s3://");
            reveal_strlit("/");
            assert(r@ =~= spec_s3_url(self.bucket@, self.key@));
        }
        r
    }

    /// The object's URL, `s3://<bucket>/<key>` parsed by the `url` crate; it
    /// fails when the bucket or key make that text an invalid URL.
    pub fn to_url(&self) -> (r: Result<url::Url, url::ParseError>)
        ensures
            r is Ok <==> parsed_url(spec_s3_url(self.bucket@, self.key@)) is Some,
            r is Ok ==> r->Ok_0 == parsed_url(spec_s3_url(self.bucket@, self.key@))->0,
    {
        let text = self.url_string();
        parse_url(text.as_str())
    }
}

/// `s` starts with `/`.
pub open spec fn starts_with_slash(s: Seq<char>) -> bool {
    s.len() > 0 && s[0] == '/'
}

/// A key with its leading slashes trimmed starts with no slash.
pub proof fn lemma_trimmed_has_no_leading_slash(s: Seq<char>)
    ensures
        !starts_with_slash(trim_leading_slashes(s)),
    decreases s.len(),
{
    if s.len() > 0 && s[0] == '/' {
        lemma_trimmed_has_no_leading_slash(s.drop_first());
    }
}

/// `n` slashes.
pub open spec fn slashes(n: nat) -> Seq<char> {
    Seq::new(n, |i: int| '/')
}

/// Trimming removes leading slashes only: `s` is some slashes followed by
/// what trimming leaves.
proof fn lemma_trim_shape(s: Seq<char>) -> (n: nat)
    ensures
        n <= s.len(),
        s == slashes(n) + trim_leading_slashes(s),
    decreases s.len(),
{
    if s.len() > 0 && s[0] == '/' {
        let m = lemma_trim_shape(s.drop_first());
        let t = trim_leading_slashes(s);
        assert(t == trim_leading_slashes(s.drop_first()));
        assert(slashes(m + 1) =~= seq!['/'] + slashes(m));
        assert(s =~= seq!['/'] + s.drop_first());
        assert(seq!['/'] + (slashes(m) + t) =~= (seq!['/'] + slashes(m)) + t);
        assert(s =~= slashes(m + 1) + t);
        m + 1
    } else {
        assert(s =~= slashes(0) + s);
        0
    }
}

/// What URL parts name: a scheme other than exactly `s3` is refused with
/// `NotS3Scheme`; then a URL without a host with `MissingHost`; then an
/// empty path with `MissingPath`; otherwise the bucket is the host and the
/// key is the path with its leading slashes, and only those, removed.
pub proof fn lemma_url_parts_rules(parts: UrlPartsView)
    ensures
        parts.scheme != seq!['s', '3'] ==> spec_from_url_parts(parts) == Err::<(Seq<char>, Seq<char>), _>(
            S3ObjectError::NotS3Scheme,
        ),
        parts.scheme == seq!['s', '3'] && parts.host is None ==> spec_from_url_parts(parts) == Err::<
            (Seq<char>, Seq<char>),
            _,
        >(S3ObjectError::MissingHost),
        parts.scheme == seq!['s', '3'] && parts.host is Some && parts.path.len() == 0 ==> spec_from_url_parts(
            parts,
        ) == Err::<(Seq<char>, Seq<char>), _>(S3ObjectError::MissingPath),
        parts.scheme == seq!['s', '3'] && parts.host is Some && parts.path.len() > 0 ==> {
            &&& spec_from_url_parts(parts) is Ok
            &&& spec_from_url_parts(parts)->Ok_0.0 == parts.host->0
            &&& !(spec_from_url_parts(parts)->Ok_0.1.len() > 0 && spec_from_url_parts(parts)->Ok_0.1[0] == '/')
            &&& exists|n: nat|
                n <= parts.path.len() && parts.path == #[trigger] slashes(n) + spec_from_url_parts(parts)->Ok_0.1
        },
{
    let n = lemma_trim_shape(parts.path);
    lemma_trimmed_has_no_leading_slash(parts.path);
}

/// The text `s3://<bucket>/<key>` holds the bucket and the key verbatim: the
/// five characters `s3://`, the bucket, one `/`, and then the key to the end.
pub proof fn lemma_s3_url_layout(bucket: Seq<char>, key: Seq<char>)
    ensures
        spec_s3_url(bucket, key).len() == 6 + bucket.len() + key.len(),
        spec_s3_url(bucket, key).subrange(0, 5) == seq!['s', '3', ':', '/', '/'],
        spec_s3_url(bucket, key).subrange(5, 5 + bucket.len() as int) == bucket,
        spec_s3_url(bucket, key)[5 + bucket.len() as int] == '/',
        spec_s3_url(bucket, key).subrange(6 + bucket.len() as int, 6 + bucket.len() + key.len() as int) == key,
{
    let u = spec_s3_url(bucket, key);
    assert(u.subrange(0, 5) =~= seq!['s', '3', ':', '/', '/']);
    assert(u.subrange(5, 5 + bucket.len() as int) =~= bucket);
    assert(u.subrange(6 + bucket.len() as int, 6 + bucket.len() + key.len() as int) =~= key);
}

/// Writing an object's bucket and key as the URL `s3://<bucket>/<key>` (as
/// [S3Object::to_url] does) and reading the object back from that URL (as
/// [S3Object::from_url] does) gives the same bucket and key, whenever the
/// URL parser accepts that text and reads from it the scheme `s3`, the host
/// `bucket` and the path `/<key>`, and the key does not start with `/`.
pub proof fn lemma_url_round_trip(bucket: Seq<char>, key: Seq<char>)
    requires
        !starts_with_slash(key),
        parsed_url(spec_s3_url(bucket, key)) is Some,
        url_view(parsed_url(spec_s3_url(bucket, key))->0) == (UrlPartsView {
            scheme: seq!['s', '3'],
            host: Some(bucket),
            path: seq!['/'] + key,
        }),
    ensures
        spec_from_url_parts(url_view(parsed_url(spec_s3_url(bucket, key))->0)) == Ok::<
            _,
            S3ObjectError,
        >((bucket, key)),
{
    let path = seq!['/'] + key;
    assert(path.drop_first() =~= key);
    assert(trim_leading_slashes(path) == trim_leading_slashes(key));
    assert(trim_leading_slashes(key) == key);
}

impl std::str::FromStr for S3Object {
    type Err = S3ObjectError;

    /// Parses the URL `text` as [S3Object::parse] does.
    fn from_str(text: &str) -> (r: Result<S3Object, S3ObjectError>)
        ensures
            match parsed_url(text@) {
                None => r is Err && r->Err_0 is InvalidUrl,
                Some(url) => reads_parts(r, url_view(url)),
            },
    {
        S3Object::parse(text)
    }
}

} // verus!
