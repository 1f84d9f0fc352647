use vstd::prelude::*;
use crate::error::Error;

verus! {

/// What a metadata document holds under one key.
pub enum JsonField {
    /// The key is absent, or its value is `null`.
    Missing,
    /// The value is a JSON string.
    Text(String),
    /// The value is a number, a boolean, an array or an object.
    Other,
}

/// What `serde_json` finds under `key` in the document `text`; `None` when
/// `text` is not JSON.
pub uninterp spec fn json_member_of(text: Seq<char>, key: Seq<char>) -> Option<JsonField>;

/// Relies on `serde_json::from_str` and on indexing a `serde_json::Value` by a
/// key (which yields `null` for an absent key or a value that is no object):
/// the member depends on the text and the key alone.
#[verifier::external_body]
fn json_member(text: &str, key: &str) -> (r: Option<JsonField>)
    ensures
        r == json_member_of(text@, key@),
{
    serde_json::from_str::<serde_json::Value>(text).ok().map(|v| match &v[key] {
        serde_json::Value::Null => JsonField::Missing,
        serde_json::Value::String(s) => JsonField::Text(s.clone()),
        serde_json::Value::Bool(_) => JsonField::Other,
        serde_json::Value::Number(_) => JsonField::Other,
        serde_json::Value::Array(_) => JsonField::Other,
        serde_json::Value::Object(_) => JsonField::Other,
    })
}

/// The members of a metadata document that describe a release.
pub struct ReleaseFields {
    pub version: JsonField,
    pub name: JsonField,
    pub pub_date: JsonField,
    pub url: JsonField,
    pub notes: JsonField,
    pub signature: JsonField,
}

/// A release announced by a metadata endpoint.
#[derive(Debug)]
pub struct RemoteRelease {
    /// Semantic version, without leading `v`.
    pub version: String,
    /// Publication date as announced, or `N/A`.
    pub date: String,
    /// Where the archive for this platform is.
    pub download_url: String,
    /// Release notes.
    pub body: Option<String>,
    /// Base64 detached signature of the archive.
    pub signature: Option<String>,
    /// Whether this release is newer than the running version.
    pub should_update: bool,
}

pub open spec fn opt_view(o: Option<String>) -> Option<Seq<char>> {
    match o {
        Some(s) => Some(s@),
        None => None,
    }
}

pub open spec fn text_of(f: JsonField) -> Option<Seq<char>> {
    match f {
        JsonField::Text(s) => Some(s@),
        _ => None,
    }
}

/// The fields read from a document, when it is JSON.
pub open spec fn fields_of(text: Seq<char>) -> Option<ReleaseFields> {
    if json_member_of(text, "version"@) is Some && json_member_of(text, "name"@) is Some
        && json_member_of(text, "pub_date"@) is Some && json_member_of(text, "url"@) is Some
        && json_member_of(text, "notes"@) is Some && json_member_of(text, "signature"@) is Some {
        Some(
            ReleaseFields {
                version: json_member_of(text, "version"@)->0,
                name: json_member_of(text, "name"@)->0,
                pub_date: json_member_of(text, "pub_date"@)->0,
                url: json_member_of(text, "url"@)->0,
                notes: json_member_of(text, "notes"@)->0,
                signature: json_member_of(text, "signature"@)->0,
            },
        )
    } else {
        None
    }
}

/// The announced version: `version`, or `name` where `version` is missing.
pub open spec fn version_text(f: ReleaseFields) -> Option<Seq<char>> {
    match f.version {
        JsonField::Text(s) => Some(s@),
        JsonField::Missing => text_of(f.name),
        JsonField::Other => None,
    }
}

/// The publication date, `N/A` where it is missing.
pub open spec fn date_text(f: ReleaseFields) -> Option<Seq<char>> {
    match f.pub_date {
        JsonField::Text(s) => Some(s@),
        JsonField::Missing => Some("N/A"@),
        JsonField::Other => None,
    }
}

/// The signature, if any; `None` where the member is not a string.
pub open spec fn signature_text(f: ReleaseFields) -> Option<Option<Seq<char>>> {
    match f.signature {
        JsonField::Text(s) => Some(Some(s@)),
        JsonField::Missing => Some(None),
        JsonField::Other => None,
    }
}

/// The document describes a usable release.
pub open spec fn release_valid(f: ReleaseFields) -> bool {
    &&& version_text(f) is Some
    &&& date_text(f) is Some
    &&& text_of(f.url) is Some
    &&& signature_text(f) is Some
}

/// `s` without its leading `v` characters.
pub open spec fn trim_v(s: Seq<char>) -> Seq<char>
    decreases s.len(),
{
    if s.len() > 0 && s[0] == 'v' {
        trim_v(s.drop_first())
    } else {
        s
    }
}

/// `rel` is the release that the fields `f` describe.
pub open spec fn describes(rel: RemoteRelease, f: ReleaseFields) -> bool {
    &&& rel.version@ == trim_v(version_text(f)->0)
    &&& rel.date@ == date_text(f)->0
    &&& rel.download_url@ == text_of(f.url)->0
    &&& opt_view(rel.body) == text_of(f.notes)
    &&& opt_view(rel.signature) == signature_text(f)->0
    &&& !rel.should_update
}

/// The outcome of reading a document's text as release metadata.
pub open spec fn release_from_text(text: Seq<char>, r: Result<RemoteRelease, Error>) -> bool {
    match fields_of(text) {
        None => r matches Err(Error::Release(_)),
        Some(f) => {
            &&& r is Ok <==> release_valid(f)
            &&& r matches Ok(rel) ==> describes(rel, f)
            &&& r is Err ==> r matches Err(Error::Release(_))
        },
    }
}

/// Drops the leading `v` characters of a version.
pub fn trim_leading_v(s: &str) -> (r: String)
    ensures
        r@ == trim_v(s@),
{
    let n = s.unicode_len();
    let mut i: usize = 0;
    proof {
        assert(s@.subrange(0, n as int) =~= s@);
    }
    while i < n && s.get_char(i) == 'v'
        invariant
            n == s@.len(),
            i <= n,
            trim_v(s@) == trim_v(s@.subrange(i as int, n as int)),
        decreases n - i,
    {
        proof {
            assert(s@.subrange(i as int, n as int).drop_first() =~= s@.subrange(i + 1, n as int));
        }
        i = i + 1;
    }
    s.substring_char(i, n).to_owned()
}

fn clone_text(f: &JsonField) -> (r: Option<String>)
    ensures
        opt_view(r) == text_of(*f),
{
    match f {
        JsonField::Text(s) => Some(s.clone()),
        _ => None,
    }
}

fn missing_member() -> (e: Error)
    ensures
        e is Release,
{
    Error::Release("release missing `name` or `version`".to_owned())
}

impl RemoteRelease {
    /// Builds a release from the members of a metadata document: `version`
    /// (or `name` where it is missing) and `url` must be strings, `pub_date`
    /// and `signature` strings where present, and `notes` is kept where it is one.
    pub fn from_fields(f: &ReleaseFields) -> (r: Result<RemoteRelease, Error>)
        ensures
            r is Ok <==> release_valid(*f),
            r matches Ok(rel) ==> describes(rel, *f),
            r is Err ==> r matches Err(Error::Release(_)),
    {
        let name = match &f.version {
            JsonField::Text(s) => s.clone(),
            JsonField::Missing => match &f.name {
                JsonField::Text(s) => s.clone(),
                _ => {
                    return Err(missing_member());
                },
            },
            JsonField::Other => {
                return Err(Error::Release("release `version` is not a string".to_owned()));
            },
        };
        let date = match &f.pub_date {
            JsonField::Text(s) => s.clone(),
            JsonField::Missing => "N/A".to_owned(),
            JsonField::Other => {
                return Err(Error::Release("release `pub_date` is not a string".to_owned()));
            },
        };
        let url = match &f.url {
            JsonField::Text(s) => s.clone(),
            _ => {
                return Err(Error::Release("release missing `name` or `url`".to_owned()));
            },
        };
        let signature = match &f.signature {
            JsonField::Text(s) => Some(s.clone()),
            JsonField::Missing => None,
            JsonField::Other => {
                return Err(Error::Release("release `signature` is not a string".to_owned()));
            },
        };
        let body = clone_text(&f.notes);
        Ok(
            RemoteRelease {
                version: trim_leading_v(name.as_str()),
                date,
                download_url: url,
                body,
                signature,
                should_update: false,
            },
        )
    }

    /// Reads a metadata document and checks that it describes a release.
    pub fn from_release(text: &str) -> (r: Result<RemoteRelease, Error>)
        ensures
            release_from_text(text@, r),
    {
        let fields = match read_fields(text) {
            Some(f) => f,
            None => {
                return Err(Error::Release("release metadata is not JSON".to_owned()));
            },
        };
        RemoteRelease::from_fields(&fields)
    }
}

/// The release members of a document, or `None` when it is not JSON.
pub fn read_fields(text: &str) -> (r: Option<ReleaseFields>)
    ensures
        r == fields_of(text@),
{
    let version = json_member(text, "version");
    let name = json_member(text, "name");
    let pub_date = json_member(text, "pub_date");
    let url = json_member(text, "url");
    let notes = json_member(text, "notes");
    let signature = json_member(text, "signature");
    match (version, name, pub_date, url, notes, signature) {
        (Some(version), Some(name), Some(pub_date), Some(url), Some(notes), Some(signature)) => {
            Some(ReleaseFields { version, name, pub_date, url, notes, signature })
        },
        _ => None,
    }
}

} // verus!
