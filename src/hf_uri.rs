use crate::error::HfError;
use vstd::prelude::*;

verus! {

/// The service that hosts the repositories.
pub const BASE_HF_URL: &'static str = "https://huggingface.co";

/// The base URL as text.
pub open spec fn base_url() -> Seq<char> {
    BASE_HF_URL@
}

/// The metadata endpoint of repository `name`.
pub open spec fn repository_url(name: Seq<char>) -> Seq<char> {
    base_url() + "/api/models/"@ + name
}

/// The download address of file `path` of repository `name`.
pub open spec fn file_url(name: Seq<char>, path: Seq<char>) -> Seq<char> {
    base_url() + "/"@ + name + "/raw/main/"@ + path
}

/// A parsed identifier: the repository, its metadata endpoint and the
/// optional filter on its files.
#[derive(Debug)]
pub struct Repository {
    pub name: String,
    pub url: String,
    pub filter: Option<String>,
}

/// What a `Repository` holds, as text.
pub ghost struct RepositoryModel {
    pub name: Seq<char>,
    pub url: Seq<char>,
    pub filter: Option<Seq<char>>,
}

impl View for Repository {
    type V = RepositoryModel;

    open spec fn view(&self) -> RepositoryModel {
        RepositoryModel {
            name: self.name@,
            url: self.url@,
            filter: match self.filter {
                Some(f) => Some(f@),
                None => None,
            },
        }
    }
}

/// The outcome of a parse, as text.
pub open spec fn result_model(r: Result<Repository, HfError>) -> Result<RepositoryModel, HfError> {
    match r {
        Ok(repo) => Ok(repo@),
        Err(e) => Err(e),
    }
}

/// There is a `//` at position `i` of `s`.
pub open spec fn double_slash_at(s: Seq<char>, i: int) -> bool {
    0 <= i && i + 1 < s.len() && s[i] == '/' && s[i + 1] == '/'
}

/// The position of the first `//` in `s` at or after `from`.
pub open spec fn first_double_slash(s: Seq<char>, from: int) -> Option<int>
    decreases s.len() - from,
{
    if from < 0 || from + 1 >= s.len() {
        None
    } else if double_slash_at(s, from) {
        Some(from)
    } else {
        first_double_slash(s, from + 1)
    }
}

/// The repository named by the part of an identifier that follows the
/// scheme: all of it, or what stands before its first `//`, whose remainder
/// is then the filter. A filter is never empty: with nothing after the
/// first `//` there is none.
pub open spec fn model_of_rest(rest: Seq<char>) -> RepositoryModel {
    match first_double_slash(rest, 0) {
        Some(i) => RepositoryModel {
            name: rest.subrange(0, i),
            url: repository_url(rest.subrange(0, i)),
            filter: if i + 2 < rest.len() {
                Some(rest.subrange(i + 2, rest.len() as int))
            } else {
                None
            },
        },
        None => RepositoryModel { name: rest, url: repository_url(rest), filter: None },
    }
}

/// The outcome of reading an identifier whose scheme is `scheme` and whose
/// text from the host on is `rest`.
pub open spec fn repository_of(scheme: Seq<char>, rest: Seq<char>) -> Result<RepositoryModel, HfError> {
    if scheme != "hf"@ {
        Err(HfError::InvalidScheme)
    } else {
        Ok(model_of_rest(rest))
    }
}

/// Whether the URI parser accepts `s`.
pub uninterp spec fn url_accepts(s: Seq<char>) -> bool;

/// The scheme the URI parser reads from `s`.
pub uninterp spec fn url_scheme_of(s: Seq<char>) -> Seq<char>;

/// The text of the parsed URI `s` from its host on.
pub uninterp spec fn url_from_host(s: Seq<char>) -> Seq<char>;

/// The outcome of `parse` on identifier `s`.
pub open spec fn parse_spec(s: Seq<char>) -> Result<RepositoryModel, HfError> {
    if !url_accepts(s) {
        Err(HfError::MalformedIdentifier)
    } else {
        repository_of(url_scheme_of(s), url_from_host(s))
    }
}

/// The error type of `url::Url::parse`, which `split_uri` returns.
#[verifier::external_type_specification]
#[verifier::external_body]
pub struct ExParseError(url::ParseError);

/// Relies on `url::Url::parse` to accept or reject `s`, then on `Url::scheme`
/// for its scheme and on indexing the `Url` by `Position::BeforeHost..` for
/// its serialization from the host on.
#[verifier::external_body]
fn split_uri(s: &str) -> (r: Result<(String, String), url::ParseError>)
    ensures
        r is Ok <==> url_accepts(s@),
        r matches Ok(p) ==> p.0@ == url_scheme_of(s@) && p.1@ == url_from_host(s@),
{
    let parsed = url::Url::parse(s)?;
    Ok((parsed.scheme().to_string(), parsed[url::Position::BeforeHost..].to_string()))
}

/// Reads a repository reference `hf://owner/repo[//filter]`.
pub fn parse(hf_uri: &str) -> (r: Result<Repository, HfError>)
    ensures
        result_model(r) == parse_spec(hf_uri@),
{
    match split_uri(hf_uri) {
        Ok((scheme, rest)) => repository_from_parts(scheme.as_str(), rest.as_str()),
        Err(_) => Err(HfError::MalformedIdentifier),
    }
}

/// Builds the repository reference from an identifier's scheme and its text
/// from the host on.
pub fn repository_from_parts(scheme: &str, rest: &str) -> (r: Result<Repository, HfError>)
    ensures
        result_model(r) == repository_of(scheme@, rest@),
{
    proof {
        reveal_strlit("hf");
    }
    let hf = str_equals(scheme, "hf");
    if !hf {
        return Err(HfError::InvalidScheme);
    }
    let n = rest.unicode_len();
    let mut i: usize = 0;
    while i < n
        invariant
            scheme@ == "hf"@,
            n == rest@.len(),
            i <= n,
            first_double_slash(rest@, 0) == first_double_slash(rest@, i as int),
        decreases n - i,
    {
        if i + 1 < n && rest.get_char(i) == '/' && rest.get_char(i + 1) == '/' {
            assert(double_slash_at(rest@, i as int));
            assert(first_double_slash(rest@, i as int) == Some(i as int));
            let name = rest.substring_char(0, i);
            let filter = rest.substring_char(i + 2, n);
            let repo = Repository {
                name: String::from_str(name),
                url: UrlCreater::create_remote_repository_url(name),
                filter: if i + 2 < n {
                    Some(String::from_str(filter))
                } else {
                    None
                },
            };
            return Ok(repo);
        }
        i = i + 1;
    }
    assert(rest@.subrange(0, n as int) =~= rest@);
    Ok(Repository {
        name: String::from_str(rest),
        url: UrlCreater::create_remote_repository_url(rest),
        filter: None,
    })
}

/// Whether two texts are equal.
fn str_equals(a: &str, b: &str) -> (r: bool)
    ensures
        r == (a@ == b@),
{
    let n = a.unicode_len();
    if n != b.unicode_len() {
        return false;
    }
    let mut j: usize = 0;
    while j < n
        invariant
            n == a@.len(),
            n == b@.len(),
            j <= n,
            forall|k: int| 0 <= k < j ==> a@[k] == b@[k],
        decreases n - j,
    {
        if a.get_char(j) != b.get_char(j) {
            return false;
        }
        j = j + 1;
    }
    assert(a@ =~= b@);
    true
}

/// `s` holds no `/`: a single path segment.
pub open spec fn is_segment(s: Seq<char>) -> bool {
    forall|k: int| 0 <= k < s.len() ==> s[k] != '/'
}

/// The search for `//` from `from` on finds `p` when `p` is the first `//`
/// at or after `from`.
proof fn lemma_first_double_slash_finds(s: Seq<char>, from: int, p: Option<int>)
    requires
        0 <= from,
        match p {
            Some(q) => from <= q && double_slash_at(s, q),
            None => true,
        },
        forall|i: int| from <= i && (p is None || i < p->0) ==> !double_slash_at(s, i),
    ensures
        first_double_slash(s, from) == p,
    decreases s.len() - from,
{
    if from + 1 >= s.len() {
        if let Some(q) = p {
            assert(double_slash_at(s, q));
        }
    } else if double_slash_at(s, from) {
        if let Some(q) = p {
            assert(q == from);
        }
    } else {
        if let Some(q) = p {
            assert(q != from);
        }
        lemma_first_double_slash_finds(s, from + 1, p);
    }
}

/// An identifier `hf://owner/repo`, with owner and repository single
/// segments, names the repository `owner/repo`, whose metadata endpoint is
/// `https://huggingface.co/api/models/owner/repo`, and carries no filter.
pub proof fn lemma_parse_without_filter(owner: Seq<char>, repo: Seq<char>)
    requires
        is_segment(owner),
        is_segment(repo),
    ensures
        repository_of("hf"@, owner + seq!['/'] + repo) == Ok::<RepositoryModel, HfError>(
            RepositoryModel {
                name: owner + seq!['/'] + repo,
                url: "https://huggingface.co/api/models/"@ + owner + seq!['/'] + repo,
                filter: None,
            },
        ),
{
    let rest = owner + seq!['/'] + repo;
    assert forall|i: int| 0 <= i implies !double_slash_at(rest, i) by {
        if double_slash_at(rest, i) {
            if i < owner.len() {
                assert(rest[i] == owner[i]);
            } else if i == owner.len() {
                assert(rest[i + 1] == repo[0]);
            } else {
                assert(rest[i] == repo[i - owner.len() - 1]);
            }
        }
    }
    lemma_first_double_slash_finds(rest, 0, None);
    reveal_strlit("https://huggingface.co");
    reveal_strlit("/api/models/");
    reveal_strlit("https://huggingface.co/api/models/");
    assert(repository_url(rest) =~= "https://huggingface.co/api/models/"@ + owner + seq!['/'] + repo);
}

/// An identifier `hf://owner/repo//filter`, with owner and repository single
/// segments and the repository not empty, names the repository `owner/repo`
/// and carries everything after the first `//` as its filter, or no filter
/// when nothing follows.
pub proof fn lemma_parse_with_filter(owner: Seq<char>, repo: Seq<char>, filter: Seq<char>)
    requires
        is_segment(owner),
        is_segment(repo),
        repo.len() > 0,
    ensures
        repository_of("hf"@, owner + seq!['/'] + repo + seq!['/', '/'] + filter) == Ok::<RepositoryModel, HfError>(
            RepositoryModel {
                name: owner + seq!['/'] + repo,
                url: repository_url(owner + seq!['/'] + repo),
                filter: if filter.len() > 0 {
                    Some(filter)
                } else {
                    None
                },
            },
        ),
{
    let name = owner + seq!['/'] + repo;
    let rest = name + seq!['/', '/'] + filter;
    let p = name.len() as int;
    assert(rest[p] == '/' && rest[p + 1] == '/');
    assert forall|i: int| 0 <= i && i < p implies !double_slash_at(rest, i) by {
        if double_slash_at(rest, i) {
            if i < owner.len() {
                assert(rest[i] == owner[i]);
            } else if i == owner.len() {
                assert(rest[i + 1] == repo[0]);
            } else {
                assert(rest[i] == repo[i - owner.len() - 1]);
            }
        }
    }
    lemma_first_double_slash_finds(rest, 0, Some(p));
    assert(rest.subrange(0, p) =~= name);
    assert(rest.subrange(p + 2, rest.len() as int) =~= filter);
}

/// Every repository reference that is read has its metadata endpoint
/// derived from its name alone, and a filter, where present, that is not empty.
pub proof fn lemma_repository_invariant(scheme: Seq<char>, rest: Seq<char>)
    ensures
        repository_of(scheme, rest) is Ok ==> ({
            let m = repository_of(scheme, rest)->Ok_0;
            &&& m.url == repository_url(m.name)
            &&& m.filter is Some ==> m.filter->Some_0.len() > 0
        }),
{
    lemma_first_double_slash_in_range(rest, 0);
}

/// The search for `//` only finds positions at or after its start.
proof fn lemma_first_double_slash_in_range(s: Seq<char>, from: int)
    ensures
        first_double_slash(s, from) matches Some(i) ==> from <= i && double_slash_at(s, i),
    decreases s.len() - from,
{
    if from >= 0 && from + 1 < s.len() && !double_slash_at(s, from) {
        lemma_first_double_slash_in_range(s, from + 1);
    }
}

/// Any identifier whose scheme is not `hf` is refused as such.
pub proof fn lemma_other_scheme_refused(scheme: Seq<char>, rest: Seq<char>)
    requires
        scheme != "hf"@,
    ensures
        repository_of(scheme, rest) == Err::<RepositoryModel, HfError>(HfError::InvalidScheme),
{
}

/// Builds the service's addresses for a repository and its files.
pub struct UrlCreater {}

impl UrlCreater {
    /// The metadata endpoint of a repository.
    pub fn create_remote_repository_url(repository: &str) -> (r: String)
        ensures
            r@ == repository_url(repository@),
    {
        let mut url = String::from_str(BASE_HF_URL);
        url.append("/api/models/");
        url.append(repository);
        url
    }

    /// The address from which one file of a repository is downloaded.
    pub fn create_remote_file_url(repository: &str, file_path: &str) -> (r: String)
        ensures
            r@ == file_url(repository@, file_path@),
    {
        let mut url = String::from_str(BASE_HF_URL);
        url.append("/");
        url.append(repository);
        url.append("/raw/main/");
        url.append(file_path);
        url
    }
}

} // verus!
