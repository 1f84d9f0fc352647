use vstd::prelude::*;
use crate::download::{archive_file_name, detect_archive_in_url};
use crate::error::{message_of, Error};
use crate::release::{fields_of, release_from_text, release_valid, RemoteRelease};
use crate::text::{contains, contains_exec, replace_all, replace_exec, same_text};
use crate::version::{is_older, should_update};

verus! {

/// Settings of an update check, gathered before the check starts.
#[derive(Debug)]
pub struct UpdateBuilder {
    /// Version of the running application.
    pub current_version: String,
    /// Metadata endpoints, tried in order.
    pub urls: Vec<String>,
    /// Platform to update for; the detected one when unset.
    pub target: Option<String>,
    /// Components of the executable's path; the running executable when unset.
    pub executable_path: Option<Vec<String>>,
}

/// Starts an update configuration.
pub fn builder() -> (r: UpdateBuilder)
    ensures
        r.current_version@ == "0.1.0"@,
        r.urls@.len() == 0,
        r.target is None,
        r.executable_path is None,
{
    UpdateBuilder::new()
}

impl UpdateBuilder {
    /// No endpoints, the detected platform and executable, and version 0.1.0.
    pub fn new() -> (r: UpdateBuilder)
        ensures
            r.current_version@ == "0.1.0"@,
            r.urls@.len() == 0,
            r.target is None,
            r.executable_path is None,
    {
        UpdateBuilder {
            current_version: "0.1.0".to_owned(),
            urls: Vec::new(),
            target: None,
            executable_path: None,
        }
    }

    /// Adds one endpoint after those already set.
    pub fn url(self, url: String) -> (r: UpdateBuilder)
        ensures
            r.urls@ == self.urls@.push(url),
            r.current_version == self.current_version,
            r.target == self.target,
            r.executable_path == self.executable_path,
    {
        let mut b = self;
        b.urls.push(url);
        b
    }

    /// Replaces the endpoints by `urls`.
    pub fn urls(self, urls: &[String]) -> (r: UpdateBuilder)
        ensures
            r.urls@ == urls@,
            r.current_version == self.current_version,
            r.target == self.target,
            r.executable_path == self.executable_path,
    {
        let mut formatted: Vec<String> = Vec::new();
        let mut i: usize = 0;
        while i < urls.len()
            invariant
                i <= urls@.len(),
                formatted@ == urls@.subrange(0, i as int),
            decreases urls@.len() - i,
        {
            formatted.push(urls[i].clone());
            proof {
                assert(formatted@ =~= urls@.subrange(0, i + 1));
            }
            i = i + 1;
        }
        proof {
            assert(urls@.subrange(0, urls@.len() as int) =~= urls@);
        }
        let mut b = self;
        b.urls = formatted;
        b
    }

    /// Sets the version of the running application.
    pub fn current_version(self, ver: &str) -> (r: UpdateBuilder)
        ensures
            r.current_version@ == ver@,
            r.urls == self.urls,
            r.target == self.target,
            r.executable_path == self.executable_path,
    {
        let mut b = self;
        b.current_version = ver.to_owned();
        b
    }

    /// Sets the platform (`win32`, `win64`, `darwin`, `linux`, `freebsd`).
    pub fn target(self, target: &str) -> (r: UpdateBuilder)
        ensures
            r.target matches Some(t) && t@ == target@,
            r.current_version == self.current_version,
            r.urls == self.urls,
            r.executable_path == self.executable_path,
    {
        let mut b = self;
        b.target = Some(target.to_owned());
        b
    }

    /// Sets the executable, given as the components of its path.
    pub fn executable_path(self, executable_path: Vec<String>) -> (r: UpdateBuilder)
        ensures
            r.executable_path == Some(executable_path),
            r.current_version == self.current_version,
            r.urls == self.urls,
            r.target == self.target,
    {
        let mut b = self;
        b.executable_path = Some(executable_path);
        b
    }

    pub open spec fn target_for(&self, detected: Seq<char>) -> Seq<char> {
        match self.target {
            Some(t) => t@,
            None => detected,
        }
    }

    /// The platform to update for, given the detected one.
    pub fn effective_target(&self, detected: &str) -> (r: String)
        ensures
            r@ == self.target_for(detected@),
    {
        match &self.target {
            Some(t) => t.clone(),
            None => detected.to_owned(),
        }
    }

    /// The endpoints with `{{current_version}}` and `{{target}}` filled in, in
    /// the order they are to be tried; a configuration without endpoints is an error.
    pub fn endpoints(&self, detected_target: &str) -> (r: Result<Vec<String>, Error>)
        ensures
            self.urls@.len() == 0 <==> r matches Err(Error::Config(_)),
            r is Err ==> r matches Err(Error::Config(_)),
            r matches Ok(v) ==> v@.len() == self.urls@.len() && forall|i: int|
                0 <= i < v@.len() ==> #[trigger] v@[i]@ == templated(
                    self.urls@[i]@,
                    self.current_version@,
                    self.target_for(detected_target@),
                ),
    {
        if self.urls.len() == 0 {
            return Err(Error::Config("`url` required".to_owned()));
        }
        let target = self.effective_target(detected_target);
        let mut out: Vec<String> = Vec::new();
        let mut i: usize = 0;
        while i < self.urls.len()
            invariant
                i <= self.urls@.len(),
                target@ == self.target_for(detected_target@),
                out@.len() == i,
                forall|k: int|
                    0 <= k < i ==> #[trigger] out@[k]@ == templated(
                        self.urls@[k]@,
                        self.current_version@,
                        target@,
                    ),
            decreases self.urls@.len() - i,
        {
            out.push(fill_template(self.urls[i].as_str(), self.current_version.as_str(), target.as_str()));
            i = i + 1;
        }
        Ok(out)
    }

    /// Completes the check once the endpoints have been tried: the release
    /// found, whether it is newer than the running version, and the directory
    /// to install into.
    pub fn build(self, detected_target: &str, running_executable: Vec<String>, resolution: Resolution)
        -> (r: Result<Update, Error>)
        ensures
            self.urls@.len() == 0 <==> r matches Err(Error::Config(_)),
            self.urls@.len() > 0 && resolution.release is None ==> (r matches Err(Error::Network(m))
                && m@ == network_message(resolution.last_error)),
            self.urls@.len() > 0 && resolution.release is Some && extract_dir(
                self.executable_for(running_executable)@,
                self.target_for(detected_target@),
            ) is None ==> r matches Err(Error::Install(_)),
            r is Ok <==> self.urls@.len() > 0 && extract_dir(
                self.executable_for(running_executable)@,
                self.target_for(detected_target@),
            ) is Some && resolution.release is Some,
            r matches Ok(u) ==> {
                let rel = resolution.release->0;
                &&& u.version == rel.version
                &&& u.date == rel.date
                &&& u.body == rel.body
                &&& u.download_url == rel.download_url
                &&& u.signature == rel.signature
                &&& u.should_update == is_older(self.current_version@, rel.version@)
                &&& u.target@ == self.target_for(detected_target@)
                &&& u.current_version == self.current_version
                &&& Some(u.extract_path@) == extract_dir(
                    self.executable_for(running_executable)@,
                    self.target_for(detected_target@),
                )
            },
    {
        if self.urls.len() == 0 {
            return Err(Error::Config("`url` required".to_owned()));
        }
        let release = match resolution.finish() {
            Ok(rel) => rel,
            Err(e) => {
                return Err(e);
            },
        };
        let target = self.effective_target(detected_target);
        let executable = match self.executable_path {
            Some(p) => p,
            None => running_executable,
        };
        let extract_path = match extract_path_from_executable(&executable, target.as_str()) {
            Some(p) => p,
            None => {
                return Err(
                    Error::Install("cannot determine the install directory from the executable path".to_owned()),
                );
            },
        };
        let newer = should_update(self.current_version.as_str(), release.version.as_str());
        Ok(
            Update {
                body: release.body,
                should_update: newer,
                version: release.version,
                date: release.date,
                current_version: self.current_version,
                target,
                extract_path,
                download_url: release.download_url,
                signature: release.signature,
            },
        )
    }

    pub open spec fn executable_for(self, running: Vec<String>) -> Vec<String> {
        match self.executable_path {
            Some(p) => p,
            None => running,
        }
    }
}

/// A metadata URL with its placeholders replaced.
pub open spec fn templated(url: Seq<char>, current_version: Seq<char>, target: Seq<char>) -> Seq<
    char,
> {
    replace_all(
        replace_all(url, "{{current_version}}"@, current_version),
        "{{target}}"@,
        target,
    )
}

/// Replaces `{{current_version}}` and then `{{target}}` in a metadata URL.
pub fn fill_template(url: &str, current_version: &str, target: &str) -> (r: String)
    ensures
        r@ == templated(url@, current_version@, target@),
{
    proof {
        reveal_strlit("{{current_version}}");
        reveal_strlit("{{target}}");
    }
    let with_version = replace_exec(url, "{{current_version}}", current_version);
    replace_exec(with_version.as_str(), "{{target}}", target)
}

/// What came back from one metadata endpoint.
pub enum FetchOutcome {
    /// The request failed in transport (no connection, timeout).
    Unreachable(String),
    /// The endpoint answered with a status other than success.
    Status(u16),
    /// The endpoint answered with success and this body.
    Body(String),
}

/// The metadata document `text` describes a usable release.
pub open spec fn text_release_ok(text: Seq<char>) -> bool {
    fields_of(text) matches Some(f) && release_valid(f)
}

/// Where the search through the metadata endpoints stands.
pub struct Resolution {
    /// The release found; once set, no further endpoint is tried.
    pub release: Option<RemoteRelease>,
    /// The last failure recorded.
    pub last_error: Option<Error>,
}

impl Resolution {
    /// No endpoint tried yet.
    pub fn new() -> (r: Resolution)
        ensures
            r.release is None,
            r.last_error is None,
    {
        Resolution { release: None, last_error: None }
    }

    /// Whether a release has been found, so that no further endpoint is tried.
    pub fn is_done(&self) -> (r: bool)
        ensures
            r == self.release is Some,
    {
        self.release.is_some()
    }

    /// `next` is what `record` makes of `prev` on `outcome`: a transport
    /// failure or an unusable document is recorded and the search goes on, a
    /// failing status is passed over, and a usable document ends the search.
    pub open spec fn recorded(prev: Resolution, outcome: FetchOutcome, next: Resolution) -> bool {
        match outcome {
            FetchOutcome::Unreachable(_) => next.release is None && next.last_error matches Some(
                Error::Network(_),
            ),
            FetchOutcome::Status(_) => next == prev,
            FetchOutcome::Body(t) => if text_release_ok(t@) {
                &&& next.release matches Some(rel) && release_from_text(t@, Ok(rel))
                &&& next.last_error is None
            } else {
                next.release is None && next.last_error matches Some(Error::Release(_))
            },
        }
    }

    /// Takes in the outcome of the next endpoint.
    pub fn record(&mut self, outcome: FetchOutcome)
        requires
            old(self).release is None,
        ensures
            Self::recorded(*old(self), outcome, *final(self)),
    {
        match outcome {
            FetchOutcome::Unreachable(e) => {
                self.last_error = Some(Error::Network(e));
            },
            FetchOutcome::Status(_) => {},
            FetchOutcome::Body(t) => {
                let parsed = RemoteRelease::from_release(t.as_str());
                match parsed {
                    Ok(rel) => {
                        self.release = Some(rel);
                        self.last_error = None;
                    },
                    Err(e) => {
                        self.last_error = Some(e);
                    },
                }
            },
        }
    }

    /// The release found, or else a network error whose message carries the
    /// last failure recorded.
    pub fn finish(self) -> (r: Result<RemoteRelease, Error>)
        ensures
            self.release matches Some(rel) ==> r == Ok::<RemoteRelease, Error>(rel),
            self.release is None ==> (r matches Err(Error::Network(m)) && m@ == network_message(
                self.last_error,
            )),
    {
        match self.release {
            Some(rel) => Ok(rel),
            None => {
                let mut msg = "unable to get release metadata from any endpoint".to_owned();
                match &self.last_error {
                    Some(e) => {
                        msg.append(": ");
                        msg.append(e.message().as_str());
                    },
                    None => {},
                }
                Err(Error::Network(msg))
            },
        }
    }
}

/// The message of the network error that ends a search in which no endpoint
/// served a release: a fixed text, followed by the last failure's message.
pub open spec fn network_message(last: Option<Error>) -> Seq<char> {
    match last {
        Some(e) => "unable to get release metadata from any endpoint"@ + ": "@ + message_of(e),
        None => "unable to get release metadata from any endpoint"@,
    }
}

/// When an endpoint cannot be reached and the next one serves a usable
/// document, the search ends with the release of that document and no error.
pub proof fn lemma_fallback(s0: Resolution, s1: Resolution, s2: Resolution, e: String, t: String)
    requires
        s0.release is None,
        s0.last_error is None,
        Resolution::recorded(s0, FetchOutcome::Unreachable(e), s1),
        Resolution::recorded(s1, FetchOutcome::Body(t), s2),
        text_release_ok(t@),
    ensures
        s2.release matches Some(rel) && release_from_text(t@, Ok(rel)),
        s2.last_error is None,
{
}

/// An available release and what is needed to install it.
#[derive(Debug)]
pub struct Update {
    pub body: Option<String>,
    pub should_update: bool,
    pub version: String,
    pub date: String,
    pub current_version: String,
    pub target: String,
    /// Components of the directory that receives the new files.
    pub extract_path: Vec<String>,
    pub download_url: String,
    pub signature: Option<String>,
}

impl Update {
    /// The file name under which the archive is saved.
    pub fn archive_name(&self) -> (r: String)
        ensures
            r@ == archive_file_name(self.download_url@, self.target@),
    {
        detect_archive_in_url(self.download_url.as_str(), self.target.as_str())
    }

    /// The signature to check before installing: none when no public key is
    /// given; a security error when a key is given but the release is unsigned.
    pub fn signature_to_check(&self, pub_key: &Option<String>) -> (r: Result<Option<String>, Error>)
        ensures
            pub_key is None ==> r matches Ok(None),
            pub_key is Some && self.signature is None ==> r matches Err(Error::Security(_)),
            pub_key is Some && self.signature is Some ==> r == Ok::<Option<String>, Error>(
                self.signature,
            ),
    {
        match pub_key {
            None => Ok(None),
            Some(_) => match &self.signature {
                Some(s) => Ok(Some(s.clone())),
                None => Err(
                    Error::Security("signature not available but public key provided".to_owned()),
                ),
            },
        }
    }
}

/// The platform name for an operating system (`std::env::consts::OS`) and
/// pointer width in bits.
pub open spec fn target_name(os: Seq<char>, pointer_width: u32) -> Seq<char> {
    if os == "linux"@ {
        "linux"@
    } else if os == "macos"@ {
        "darwin"@
    } else if os == "windows"@ {
        if pointer_width == 32 {
            "win32"@
        } else {
            "win64"@
        }
    } else if os == "freebsd"@ {
        "freebsd"@
    } else {
        "unknown"@
    }
}

/// Returns the target platform for an operating system and pointer width.
pub fn get_target(os: &str, pointer_width: u32) -> (r: &'static str)
    ensures
        r@ == target_name(os@, pointer_width),
{
    if same_text(os, "linux") {
        "linux"
    } else if same_text(os, "macos") {
        "darwin"
    } else if same_text(os, "windows") {
        if pointer_width == 32 {
            "win32"
        } else {
            "win64"
        }
    } else if same_text(os, "freebsd") {
        "freebsd"
    } else {
        "unknown"
    }
}

/// Some directory among `dirs` is an application bundle.
pub open spec fn in_app_bundle(dirs: Seq<String>) -> bool {
    exists|i: int| 0 <= i < dirs.len() && contains(#[trigger] dirs[i]@, ".app"@)
}

/// The directory to install into, from the executable's path components: the
/// executable's directory, or on `darwin` inside an application bundle the
/// bundle itself (two levels up).
pub open spec fn extract_dir(exe: Seq<String>, target: Seq<char>) -> Option<Seq<String>> {
    if exe.len() == 0 {
        None
    } else if target == "darwin"@ && in_app_bundle(exe.drop_last()) {
        if exe.len() >= 3 {
            Some(exe.subrange(0, exe.len() - 3))
        } else {
            None
        }
    } else {
        Some(exe.drop_last())
    }
}

fn prefix_of(v: &Vec<String>, n: usize) -> (r: Vec<String>)
    requires
        n <= v@.len(),
    ensures
        r@ == v@.subrange(0, n as int),
{
    let mut out: Vec<String> = Vec::new();
    let mut i: usize = 0;
    while i < n
        invariant
            n <= v@.len(),
            i <= n,
            out@ == v@.subrange(0, i as int),
        decreases n - i,
    {
        out.push(v[i].clone());
        proof {
            assert(out@ =~= v@.subrange(0, i + 1));
        }
        i = i + 1;
    }
    out
}

/// The directory that receives the new files, given the executable's path
/// components; `None` when the path has too few components.
pub fn extract_path_from_executable(executable_path: &Vec<String>, target: &str) -> (r: Option<
    Vec<String>,
>)
    ensures
        match extract_dir(executable_path@, target@) {
            Some(d) => r matches Some(v) && v@ == d,
            None => r is None,
        },
{
    let n = executable_path.len();
    if n == 0 {
        return None;
    }
    if same_text(target, "darwin") {
        let mut found = false;
        let mut i: usize = 0;
        while i < n - 1
            invariant
                n == executable_path@.len(),
                n >= 1,
                i <= n - 1,
                found == exists|k: int|
                    0 <= k < i && contains(#[trigger] executable_path@[k]@, ".app"@),
            decreases n - 1 - i,
        {
            if contains_exec(executable_path[i].as_str(), ".app") {
                found = true;
            }
            i = i + 1;
        }
        proof {
            let parent = executable_path@.drop_last();
            if found {
                let k = choose|k: int|
                    0 <= k < i && contains(#[trigger] executable_path@[k]@, ".app"@);
                assert(parent[k] == executable_path@[k]);
            } else {
                assert forall|k: int| 0 <= k < parent.len() implies !contains(
                    #[trigger] parent[k]@,
                    ".app"@,
                ) by {
                    assert(parent[k] == executable_path@[k]);
                }
            }
        }
        if found {
            if n < 3 {
                return None;
            }
            return Some(prefix_of(executable_path, n - 3));
        }
    }
    Some(prefix_of(executable_path, n - 1))
}

} // verus!
