//! Per-origin storage for `buckets site`: the host a URL names, and where
//! that host's browsing storage lives: a persistent directory keyed by
//! host under the cache, or a fresh temporary one for incognito use. The
//! sandbox's mount namespace is what enforces the isolation; creating and
//! removing the directories is the caller's.
use vstd::prelude::*;

use crate::config::Config;
use crate::gui::{display_binds, display_env, display_env_spec, DisplayFiles};
use crate::keyed::KeyedMap;
use crate::paths::{join, join_path};
use crate::sandbox::{SandboxProfile, SandboxProfileV};
use crate::text::{push_str, string_of};

verus! {

broadcast use vstd::string::group_string_axioms;

#[verifier::external_type_specification]
#[verifier::external_body]
pub struct ExUrlParseError(url::ParseError);

/// What `url::Url::parse` makes of a text, as far as its host goes: `None`
/// when it refuses the text, else the parsed URL's `host_str()`.
pub uninterp spec fn url_host(text: Seq<char>) -> Option<Option<Seq<char>>>;

/// Wraps `url::Url::parse`, keeping the parsed URL's `host_str()`.
#[verifier::external_body]
fn parse_url_host(text: &str) -> (r: Result<Option<String>, url::ParseError>)
    ensures
        match r {
            Ok(Some(h)) => url_host(text@) == Some(Some(h@)),
            Ok(None) => url_host(text@) == Some(None::<Seq<char>>),
            Err(_) => url_host(text@) is None,
        },
{
    match url::Url::parse(text) {
        Ok(u) => Ok(u.host_str().map(|h| h.to_string())),
        Err(e) => Err(e),
    }
}

/// Why a site cannot be opened.
#[derive(Debug)]
pub enum SiteError {
    /// The URL does not parse.
    InvalidUrl(url::ParseError),
    /// The URL has no host.
    NoHost,
}

impl SiteError {
    /// The message shown for this error about `url`.
    pub fn message(&self, url: &str) -> (r: String)
        ensures
            match self {
                SiteError::InvalidUrl(_) => r@ == "Invalid URL: "@ + url@,
                SiteError::NoHost => r@ == "No host in URL: "@ + url@,
            },
    {
        let mut out: Vec<char> = Vec::new();
        match self {
            SiteError::InvalidUrl(_) => push_str(&mut out, "Invalid URL: "),
            SiteError::NoHost => push_str(&mut out, "No host in URL: "),
        }
        push_str(&mut out, url);
        string_of(&out)
    }
}

/// The host of `url` (IPv6 addresses in brackets), which keys its storage.
pub fn site_host(url: &str) -> (r: Result<String, SiteError>)
    ensures
        match r {
            Ok(h) => url_host(url@) == Some(Some(h@)),
            Err(SiteError::NoHost) => url_host(url@) == Some(None::<Seq<char>>),
            Err(SiteError::InvalidUrl(_)) => url_host(url@) is None,
        },
{
    match parse_url_host(url) {
        Ok(Some(h)) => Ok(h),
        Ok(None) => Err(SiteError::NoHost),
        Err(e) => Err(SiteError::InvalidUrl(e)),
    }
}

/// The persistent storage of `host`: `<cache>/sites/<host>`, which
/// survives across runs.
pub fn persistent_storage_dir(config: &Config, host: &str) -> (r: String)
    ensures
        r@ == join(join(config.cache_dir@, "sites"@), host@),
{
    let sites = join_path(config.cache_dir.as_str(), "sites");
    join_path(sites.as_str(), host)
}

/// The name prefix of an incognito storage directory for `host`.
pub fn incognito_prefix(host: &str) -> (r: String)
    ensures
        r@ == "buckets-site-"@ + host@ + seq!['-'],
{
    let mut out: Vec<char> = Vec::new();
    push_str(&mut out, "buckets-site-");
    push_str(&mut out, host);
    out.push('-');
    string_of(&out)
}

/// A resolved per-origin storage location.
#[derive(Debug)]
pub struct SiteTarget {
    pub host: String,
    pub storage_dir: String,
    /// Whether `storage_dir` is a temporary directory to remove when done.
    pub is_temp: bool,
}

/// Where a site's storage goes: a persistent directory to create, or a
/// temporary one with this name prefix.
#[derive(Debug)]
pub enum StoragePlan {
    Persistent(String),
    Temporary { prefix: String },
}

/// The storage plan for `host`: a temporary directory when `incognito`,
/// else its persistent directory.
pub fn storage_plan(config: &Config, host: &str, incognito: bool) -> (r: StoragePlan)
    ensures
        incognito ==> (r matches StoragePlan::Temporary { prefix } && prefix@ == "buckets-site-"@
            + host@ + seq!['-']),
        !incognito ==> (r matches StoragePlan::Persistent(d) && d@ == join(
            join(config.cache_dir@, "sites"@),
            host@,
        )),
{
    if incognito {
        StoragePlan::Temporary { prefix: incognito_prefix(host) }
    } else {
        StoragePlan::Persistent(persistent_storage_dir(config, host))
    }
}

impl SiteTarget {
    pub fn new(host: String, storage_dir: String, is_temp: bool) -> (r: SiteTarget)
        ensures
            r.host == host,
            r.storage_dir == storage_dir,
            r.is_temp == is_temp,
    {
        SiteTarget { host, storage_dir, is_temp }
    }
}

// ── Launching the browser ────────────────────────────────────────────

pub open spec fn strings_view(v: Seq<String>) -> Seq<Seq<char>> {
    v.map_values(|s: String| s@)
}

pub open spec fn default_browser_spec(gui: bool) -> Seq<char> {
    if gui {
        "super-surfer"@
    } else {
        "surfer"@
    }
}

/// The browser a site bucket looks for on `PATH` when none is named: the
/// graphical `super-surfer` for `--gui`, else the text `surfer`.
pub fn default_browser(gui: bool) -> (r: String)
    ensures
        r@ == default_browser_spec(gui),
{
    if gui {
        String::from_str("super-surfer")
    } else {
        String::from_str("surfer")
    }
}

/// The message for a default browser that is not on `PATH`, with how to
/// build it.
pub fn browser_missing_message(gui: bool) -> (r: String)
    ensures
        r@ == "'"@ + default_browser_spec(gui) + "' not found on PATH. Build it first: "@ + if gui {
            "cargo build --release -p super-surfer --features bliss (in surfer-browser)"@
        } else {
            "cargo build --release -p surfer --features cli (in surfer-browser)"@
        },
{
    let mut out: Vec<char> = Vec::new();
    push_str(&mut out, "'");
    let name = default_browser(gui);
    push_str(&mut out, name.as_str());
    push_str(&mut out, "' not found on PATH. Build it first: ");
    if gui {
        push_str(&mut out, "cargo build --release -p super-surfer --features bliss (in surfer-browser)");
    } else {
        push_str(&mut out, "cargo build --release -p surfer --features cli (in surfer-browser)");
    }
    string_of(&out)
}

/// What a site bucket runs: the browser's arguments, its environment, and
/// its sandbox.
pub struct SiteLaunch {
    pub args: Vec<String>,
    pub env: KeyedMap<String>,
    pub profile: SandboxProfile,
}

/// How the browser opens `url`: the URL, then `extra` arguments; storage
/// in `storage_dir` (writable, and its working directory), the browser's
/// own directory read-only, and with `display` (for `--gui`) its
/// `DISPLAY`/`XAUTHORITY` and its socket and Xauthority file read-only.
/// The network is shared unless `no_network`.
pub fn site_launch(
    url: &str,
    extra: &Vec<String>,
    storage_dir: &str,
    browser_dir: &str,
    display: Option<&DisplayFiles>,
    no_network: bool,
) -> (r: SiteLaunch)
    ensures
        strings_view(r.args@) == seq![url@] + strings_view(extra@),
        r.env.wf(),
        r.env@ == match display {
            Some(d) => display_env_spec(seq![], d.display@, d.xauthority@),
            None => seq![],
        },
        r.profile@ == (SandboxProfileV {
            project_dir: Some(storage_dir@),
            extra_ro_binds: match display {
                Some(d) => seq![browser_dir@, d.socket@, d.xauthority@],
                None => seq![browser_dir@],
            },
            allow_network: !no_network,
        }),
{
    let mut args: Vec<String> = Vec::new();
    args.push(String::from_str(url));
    let mut i: usize = 0;
    while i < extra.len()
        invariant
            i <= extra.len(),
            strings_view(args@) == seq![url@] + strings_view(extra@).take(i as int),
        decreases extra.len() - i,
    {
        let ghost prev = strings_view(args@);
        args.push(extra[i].clone());
        proof {
            assert(strings_view(args@) =~= prev.push(extra@[i as int]@));
            assert(strings_view(extra@).take(i + 1) =~= strings_view(extra@).take(i as int).push(
                extra@[i as int]@,
            ));
        }
        i += 1;
    }
    proof {
        assert(strings_view(extra@).take(extra.len() as int) =~= strings_view(extra@));
    }
    let empty: KeyedMap<String> = KeyedMap::new();
    let mut base: Vec<String> = Vec::new();
    base.push(String::from_str(browser_dir));
    let (env, binds) = match display {
        Some(d) => (display_env(&empty, d), display_binds(&base, d)),
        None => (empty, base),
    };
    let profile = SandboxProfile {
        project_dir: Some(String::from_str(storage_dir)),
        extra_ro_binds: binds,
        allow_network: !no_network,
    };
    proof {
        assert(crate::sandbox::strings_view(binds@) =~= crate::gui::strings_view(binds@));
        assert(strings_view(base@) =~= seq![browser_dir@]);
        assert(crate::sandbox::strings_view(binds@) =~= match display {
            Some(d) => seq![browser_dir@, d.socket@, d.xauthority@],
            None => seq![browser_dir@],
        });
    }
    SiteLaunch { args, env, profile }
}

} // verus!
