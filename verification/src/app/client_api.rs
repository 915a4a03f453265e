//! What the LiquidBounce API answers, and which of its hosts the launcher talks to.

use vstd::prelude::*;
use crate::error::LauncherError;
use crate::minecraft::java::JavaDistribution;
use crate::utils::maven::{artifact_path_spec, get_maven_artifact_path};
use crate::utils::text::{push_str, starts_with, starts_with_spec};

verus! {

/// The API's hosts, in the order the launcher tries them. The last is reached without TLS,
/// which the user is asked to confirm.
pub open spec fn launcher_api(i: int) -> Seq<char> {
    if i == 0 {
        "https://api.liquidbounce.net"@
    } else if i == 1 {
        "https://api.ccbluex.net"@
    } else {
        "http://nossl.api.liquidbounce.net"@
    }
}

/// Whether a host is reached over TLS.
pub open spec fn is_secure_spec(host: Seq<char>) -> bool {
    starts_with_spec(host, "https://"@)
}

/// A host of the LiquidBounce API.
pub struct Client {
    url: String,
    /// A host reached without TLS is shown with a warning.
    is_secure: bool,
}

impl Client {
    /// A client for `host`; it is secure when the host is reached over TLS.
    pub fn new(host: &str) -> (r: Self)
        ensures
            r.url_spec() == host@,
            r.is_secure_spec() == is_secure_spec(host@),
    {
        let secure = starts_with(host, "https://");
        let mut url = String::new();
        push_str(&mut url, host);
        Client { url, is_secure: secure }
    }

    pub closed spec fn url_spec(&self) -> Seq<char> {
        self.url@
    }

    pub closed spec fn is_secure_spec(&self) -> bool {
        self.is_secure
    }

    /// Whether the host is reached over TLS.
    pub fn is_secure(&self) -> (r: bool)
        ensures
            r == self.is_secure_spec(),
    {
        self.is_secure
    }

    /// The host.
    pub fn url(&self) -> (r: &String)
        ensures
            r@ == self.url_spec(),
    {
        &self.url
    }

    /// Where an endpoint of an API version is served by this host.
    pub fn endpoint_url(&self, api_version: &str, endpoint: &str) -> (r: String)
        ensures
            r@ == self.url_spec() + "/"@ + api_version@ + "/"@ + endpoint@,
    {
        let mut r = self.url.clone();
        push_str(&mut r, "/");
        push_str(&mut r, api_version);
        push_str(&mut r, "/");
        push_str(&mut r, endpoint);
        r
    }
}

/// The endpoint that lists the builds of a branch, or only its releases.
pub fn builds_endpoint(branch: &str, release: bool) -> (r: String)
    ensures
        r@ == "version/builds/"@ + branch@ + if release { "/release"@ } else { Seq::<char>::empty() },
{
    let mut r = String::new();
    push_str(&mut r, "version/builds/");
    push_str(&mut r, branch);
    if release {
        push_str(&mut r, "/release");
    }
    r
}

/// The host of the API at position `i` of the order the launcher tries them in.
pub fn launcher_api_host(i: usize) -> (r: &'static str)
    requires
        i < 3,
    ensures
        r@ == launcher_api(i as int),
{
    if i == 0 {
        "https://api.liquidbounce.net"
    } else if i == 1 {
        "https://api.ccbluex.net"
    } else {
        "http://nossl.api.liquidbounce.net"
    }
}

/// What trying a host of the API came to.
pub enum EndpointOutcome {
    /// It answered with success.
    Reached,
    /// No connection; the error as the launcher writes it.
    Unreachable(String),
    /// It answered with another status, as the launcher writes it.
    Refused(String),
}

/// The search for a host of the API that answers: the hosts are tried in order, and what went
/// wrong with each is written down for the user.
pub struct Lookup {
    next: usize,
    technical_information: String,
}

impl Lookup {
    pub closed spec fn next_spec(&self) -> nat {
        self.next as nat
    }

    pub closed spec fn information_spec(&self) -> Seq<char> {
        self.technical_information@
    }

    /// Nothing tried yet.
    pub fn new() -> (r: Self)
        ensures
            r.next_spec() == 0,
            r.information_spec() == Seq::<char>::empty(),
    {
        Lookup { next: 0, technical_information: String::new() }
    }

    /// The host to try next, the report of the hosts before it separated by a line break; none
    /// once all were tried.
    pub fn next_endpoint(&mut self) -> (r: Option<&'static str>)
        requires
            old(self).next_spec() <= 3,
        ensures
            old(self).next_spec() == 3 ==> r is None && *final(self) == *old(self),
            old(self).next_spec() < 3 ==> ({
                &&& r matches Some(host) && host@ == launcher_api(old(self).next_spec() as int)
                &&& final(self).next_spec() == old(self).next_spec()
                &&& final(self).information_spec() == if old(self).information_spec().len() > 0 {
                    old(self).information_spec().push('\n')
                } else {
                    old(self).information_spec()
                }
            }),
    {
        if self.next >= 3 {
            return None;
        }
        if self.technical_information.unicode_len() > 0 {
            crate::utils::text::push_char(&mut self.technical_information, '\n');
        }
        Some(launcher_api_host(self.next))
    }

    /// Records what trying the current host came to: a client for it when it answered, else
    /// the reason written down and the next host up.
    pub fn record(&mut self, outcome: EndpointOutcome) -> (r: Option<Client>)
        requires
            old(self).next_spec() < 3,
        ensures
            match outcome {
                EndpointOutcome::Reached => r matches Some(client) && client.url_spec() == launcher_api(
                    old(self).next_spec() as int,
                ) && client.is_secure_spec() == is_secure_spec(launcher_api(old(self).next_spec() as int))
                    && *final(self) == *old(self),
                EndpointOutcome::Unreachable(error) => r is None && final(self).next_spec()
                    == old(self).next_spec() + 1 && final(self).information_spec()
                    == old(self).information_spec() + "Failed to connect to API endpoint '"@
                    + launcher_api(old(self).next_spec() as int) + "': "@ + error@ + "\n"@,
                EndpointOutcome::Refused(status) => r is None && final(self).next_spec()
                    == old(self).next_spec() + 1 && final(self).information_spec()
                    == old(self).information_spec() + "API endpoint '"@ + launcher_api(
                    old(self).next_spec() as int,
                ) + "' returned status code: "@ + status@ + "\n"@,
            },
    {
        let host = launcher_api_host(self.next);
        match outcome {
            EndpointOutcome::Reached => Some(Client::new(host)),
            EndpointOutcome::Unreachable(error) => {
                push_str(&mut self.technical_information, "Failed to connect to API endpoint '");
                push_str(&mut self.technical_information, host);
                push_str(&mut self.technical_information, "': ");
                push_str(&mut self.technical_information, error.as_str());
                push_str(&mut self.technical_information, "\n");
                self.next = self.next + 1;
                None
            },
            EndpointOutcome::Refused(status) => {
                push_str(&mut self.technical_information, "API endpoint '");
                push_str(&mut self.technical_information, host);
                push_str(&mut self.technical_information, "' returned status code: ");
                push_str(&mut self.technical_information, status.as_str());
                push_str(&mut self.technical_information, "\n");
                self.next = self.next + 1;
                None
            },
        }
    }

    /// What went wrong with every host, once none answered.
    pub fn technical_information(self) -> (r: String)
        ensures
            r@ == self.information_spec(),
    {
        self.technical_information
    }
}

/// A page of what an endpoint lists.
pub struct PaginatedResponse<T> {
    pub items: Vec<T>,
    pub pagination: Pagination,
}

pub struct Pagination {
    pub current: u32,
    pub pages: u32,
    pub items: u32,
}

/// A post of the LiquidBounce blog.
pub struct BlogPost {
    pub post_id: u32,
    pub post_uid: String,
    pub author: String,
    pub title: String,
    pub description: String,
    /// Seconds since the epoch, as the API writes the time without a zone.
    pub date: i64,
    pub banner_text: String,
    pub banner_image_url: String,
}

pub struct Branches {
    pub default_branch: String,
    pub branches: Vec<String>,
}

pub struct Changelog {
    pub build: Build,
    pub changelog: String,
}

/// A build of LiquidBounce.
pub struct Build {
    pub build_id: u32,
    pub commit_id: String,
    pub branch: String,
    pub subsystem: String,
    pub lb_version: String,
    pub mc_version: String,
    pub release: bool,
    /// The commit's time, in seconds since the epoch.
    pub date: i64,
    pub message: String,
    pub url: String,
    pub jre_distribution: JavaDistribution,
    pub jre_version: u32,
    pub subsystem_specific_data: SubsystemSpecificData,
}

/// What a build needs of its mod loader. Only Fabric has any.
pub struct SubsystemSpecificData {
    pub fabric_api_version: String,
    pub fabric_loader_version: String,
    pub kotlin_version: String,
    pub kotlin_mod_version: String,
}

/// What a build launches with.
pub struct LaunchManifest {
    pub build: Build,
    pub subsystem: LoaderSubsystem,
    pub mods: Vec<LoaderMod>,
    /// Maven repositories by name, in the order of their names.
    pub repositories: Vec<(String, String)>,
}

/// A mod a build loads.
pub struct LoaderMod {
    pub required: bool,
    pub enabled: bool,
    pub name: String,
    pub source: ModSource,
}

/// Where a mod's jar comes from.
pub enum ModSource {
    /// A download behind an advertisement.
    SkipAd { artifact_name: String, url: String, extract: bool },
    /// A Maven repository of the launch manifest.
    Repository { repository: String, artifact: String },
    /// A file of the mods directory.
    Local { file_name: String },
}

impl ModSource {
    /// The file the mod is kept in, relative to the mods cache.
    pub fn get_path(&self) -> (r: Result<String, LauncherError>)
        ensures
            match self {
                ModSource::SkipAd { artifact_name, .. } => r matches Ok(path) && path@
                    == artifact_name@ + ".jar"@,
                ModSource::Repository { artifact, .. } => match artifact_path_spec(artifact@) {
                    Some(path) => r matches Ok(p) && p@ == path,
                    None => r matches Err(LauncherError::InvalidVersionProfile(message))
                        && message@ == "Invalid artifact name: "@ + artifact@,
                },
                ModSource::Local { file_name } => r matches Ok(path) && path@ == file_name@,
            },
    {
        match self {
            ModSource::SkipAd { artifact_name, .. } => {
                let mut path = artifact_name.clone();
                push_str(&mut path, ".jar");
                Ok(path)
            },
            ModSource::Repository { artifact, .. } => get_maven_artifact_path(artifact),
            ModSource::Local { file_name } => Ok(file_name.clone()),
        }
    }
}

/// The mod loader a build runs on, with its manifest and mods directory.
pub enum LoaderSubsystem {
    Fabric { manifest: String, mod_directory: String },
    Forge { manifest: String, mod_directory: String },
}

/// Where a download behind an advertisement really is.
pub struct SkipFileResolve {
    pub error: bool,
    pub msg: String,
    pub target_pid: Option<String>,
    pub download_url: Option<String>,
    pub direct_url: Option<String>,
}

/// The account a client login belongs to.
pub struct UserInformation {
    pub user_id: String,
    pub premium: bool,
}

} // verus!
