//! The configuration file: named OAuth profiles and the default one.
//!
//! A profile name is looked up by its first occurrence; `insert_profile`
//! keeps names distinct, so there is at most one.
use vstd::prelude::*;

use crate::text::{self, owned, push_str, trim, dec_string};

verus! {

/// The OAuth client credentials of one tenant.
#[derive(Debug)]
pub struct OauthConfig {
    pub createdate: String,
    pub client_id: String,
    pub client_secret: String,
    pub token_url: String,
    pub url: String,
}

pub type OauthView = (Seq<char>, Seq<char>, Seq<char>, Seq<char>, Seq<char>);

pub open spec fn oauth_view(o: OauthConfig) -> OauthView {
    (o.createdate@, o.client_id@, o.client_secret@, o.token_url@, o.url@)
}

/// One named profile.
#[derive(Debug)]
pub struct Profile {
    pub name: String,
    pub oauth: OauthConfig,
}

/// The whole configuration: the default profile's name and the profiles.
#[derive(Debug)]
pub struct ConfigFile {
    pub default_profile: String,
    pub profiles: Vec<Profile>,
}

pub type ProfilesView = Seq<(Seq<char>, OauthView)>;

pub open spec fn profiles_view(v: Seq<Profile>) -> ProfilesView {
    v.map_values(|p: Profile| (p.name@, oauth_view(p.oauth)))
}

/// The index of the first profile named `name`.
pub open spec fn index_of(ps: ProfilesView, name: Seq<char>, k: int) -> Option<int>
    decreases ps.len() - k,
{
    if k < 0 || k >= ps.len() {
        None
    } else if ps[k].0 == name {
        Some(k)
    } else {
        index_of(ps, name, k + 1)
    }
}

/// The profile named `name`, if any.
pub open spec fn lookup(ps: ProfilesView, name: Seq<char>) -> Option<OauthView> {
    match index_of(ps, name, 0) {
        Some(k) => Some(ps[k].1),
        None => None,
    }
}

/// No name occurs twice.
pub open spec fn names_distinct(ps: ProfilesView) -> bool {
    forall|i: int, j: int| 0 <= i < j < ps.len() ==> ps[i].0 != ps[j].0
}

/// The profiles after `insert_profile(name, oauth)`: the first profile of
/// that name gets the new credentials, or the profile is appended.
pub open spec fn inserted(ps: ProfilesView, name: Seq<char>, o: OauthView) -> ProfilesView {
    match index_of(ps, name, 0) {
        Some(k) => ps.update(k, (name, o)),
        None => ps.push((name, o)),
    }
}

pub proof fn lemma_index_of(ps: ProfilesView, name: Seq<char>, k: int)
    requires
        0 <= k,
    ensures
        match index_of(ps, name, k) {
            Some(j) => k <= j < ps.len() && ps[j].0 == name && forall|m: int|
                k <= m < j ==> ps[m].0 != name,
            None => forall|m: int| k <= m < ps.len() ==> ps[m].0 != name,
        },
    decreases ps.len() - k,
{
    if k < ps.len() && ps[k].0 != name {
        lemma_index_of(ps, name, k + 1);
    }
}

pub proof fn lemma_index_of_is(ps: ProfilesView, name: Seq<char>, j: int, k: int)
    requires
        0 <= k <= j < ps.len(),
        ps[j].0 == name,
        forall|m: int| 0 <= m < j ==> ps[m].0 != name,
    ensures
        index_of(ps, name, k) == Some(j),
    decreases j - k,
{
    if k < j {
        lemma_index_of_is(ps, name, j, k + 1);
    }
}

pub proof fn lemma_index_of_none(ps: ProfilesView, name: Seq<char>, k: int)
    requires
        0 <= k,
        forall|m: int| 0 <= m < ps.len() ==> ps[m].0 != name,
    ensures
        index_of(ps, name, k) is None,
    decreases ps.len() - k,
{
    if k < ps.len() {
        lemma_index_of_none(ps, name, k + 1);
    }
}

/// Errors about profiles and the configuration file.
#[derive(Debug)]
pub enum ConfigError {
    /// No profile of this name.
    ProfileNotFound(String),
    /// `config set-default` with an unknown name.
    NoSuchProfile(String),
    /// A new profile lacks one of the OAuth fields.
    MissingFields,
    /// The file at this path is in neither known format.
    InvalidFormat(String),
}

impl ConfigError {
    /// The message shown for the error.
    pub fn message(&self) -> (r: String)
        ensures
            r@ == match self {
                ConfigError::ProfileNotFound(n) => "profile '"@ + n@
                    + "' not found. Use 'btpis config set "@ + n@
                    + " <file>' to add it, or run 'btpis config list' to see available profiles."@,
                ConfigError::NoSuchProfile(n) => "profile '"@ + n@
                    + "' does not exist. Use 'btpis config set "@ + n@ + " <file>' first."@,
                ConfigError::MissingFields => "config is missing required OAuth fields"@,
                ConfigError::InvalidFormat(p) => "invalid config format. Remove "@ + p@
                    + " and run 'btpis config set <profile> <file>'."@,
            },
    {
        match self {
            ConfigError::ProfileNotFound(n) => {
                let mut m = owned("profile '");
                push_str(&mut m, n.as_str());
                push_str(&mut m, "' not found. Use 'btpis config set ");
                push_str(&mut m, n.as_str());
                push_str(
                    &mut m,
                    " <file>' to add it, or run 'btpis config list' to see available profiles.",
                );
                m
            },
            ConfigError::NoSuchProfile(n) => {
                let mut m = owned("profile '");
                push_str(&mut m, n.as_str());
                push_str(&mut m, "' does not exist. Use 'btpis config set ");
                push_str(&mut m, n.as_str());
                push_str(&mut m, " <file>' first.");
                m
            },
            ConfigError::MissingFields => owned("config is missing required OAuth fields"),
            ConfigError::InvalidFormat(p) => {
                let mut m = owned("invalid config format. Remove ");
                push_str(&mut m, p.as_str());
                push_str(&mut m, " and run 'btpis config set <profile> <file>'.");
                m
            },
        }
    }
}

/// The name of the profile that a fresh configuration makes the default.
pub fn default_profile_name() -> (r: String)
    ensures
        r@ == "default"@,
{
    owned("default")
}

impl ConfigFile {
    pub open spec fn view_profiles(&self) -> ProfilesView {
        profiles_view(self.profiles@)
    }

    /// Well-formed: no profile name occurs twice.
    pub open spec fn wf(&self) -> bool {
        names_distinct(self.view_profiles())
    }

    /// An empty configuration whose default profile is `default_profile`.
    pub fn with_default(default_profile: &str) -> (r: ConfigFile)
        ensures
            r.default_profile@ == default_profile@,
            r.view_profiles() == Seq::<(Seq<char>, OauthView)>::empty(),
            r.wf(),
    {
        let r = ConfigFile { default_profile: owned(default_profile), profiles: Vec::new() };
        assert(r.view_profiles() =~= Seq::<(Seq<char>, OauthView)>::empty());
        r
    }

    fn find(&self, name: &str) -> (r: Option<usize>)
        ensures
            match r {
                Some(k) => index_of(self.view_profiles(), name@, 0) == Some(k as int) && k
                    < self.profiles.len(),
                None => index_of(self.view_profiles(), name@, 0) is None,
            },
    {
        let ghost ps = self.view_profiles();
        let key = owned(name);
        let mut k: usize = 0;
        while k < self.profiles.len()
            invariant
                k <= self.profiles.len(),
                ps == self.view_profiles(),
                key@ == name@,
                index_of(ps, name@, 0) == index_of(ps, name@, k as int),
            decreases self.profiles.len() - k,
        {
            if self.profiles[k].name == key {
                return Some(k);
            }
            k += 1;
        }
        None
    }

    /// The profile named `name`.
    pub fn get_profile(&self, name: &str) -> (r: Result<&OauthConfig, ConfigError>)
        ensures
            match r {
                Ok(o) => lookup(self.view_profiles(), name@) == Some(oauth_view(*o)),
                Err(e) => lookup(self.view_profiles(), name@) is None && (e matches ConfigError::ProfileNotFound(n)
                    && n@ == name@),
            },
    {
        match self.find(name) {
            Some(k) => Ok(&self.profiles[k].oauth),
            None => Err(ConfigError::ProfileNotFound(owned(name))),
        }
    }

    /// Whether a profile named `name` exists.
    pub fn has_profile(&self, name: &str) -> (b: bool)
        ensures
            b == (lookup(self.view_profiles(), name@) is Some),
    {
        self.find(name).is_some()
    }

    /// Adds the profile `name`, or gives an existing one new credentials.
    pub fn insert_profile(&mut self, name: &str, oauth: OauthConfig)
        ensures
            final(self).view_profiles() == inserted(old(self).view_profiles(), name@, oauth_view(oauth)),
            final(self).default_profile == old(self).default_profile,
            old(self).wf() ==> final(self).wf(),
    {
        let ghost ps = self.view_profiles();
        let ghost o = oauth_view(oauth);
        proof {
            if names_distinct(ps) {
                insert_keeps_names_distinct(ps, name@, o);
            }
        }
        match self.find(name) {
            Some(k) => {
                let p = Profile { name: owned(name), oauth };
                self.profiles.set(k, p);
                assert(self.view_profiles() =~= ps.update(k as int, (name@, o)));
            },
            None => {
                let p = Profile { name: owned(name), oauth };
                self.profiles.push(p);
                assert(self.view_profiles() =~= ps.push((name@, o)));
            },
        }
    }

    /// Makes `profile` the default; it must exist.
    pub fn set_default(&mut self, profile: &str) -> (r: Result<(), ConfigError>)
        ensures
            final(self).view_profiles() == old(self).view_profiles(),
            match r {
                Ok(()) => lookup(old(self).view_profiles(), profile@) is Some
                    && final(self).default_profile@ == profile@,
                Err(e) => lookup(old(self).view_profiles(), profile@) is None
                    && final(self).default_profile == old(self).default_profile
                    && (e matches ConfigError::NoSuchProfile(n) && n@ == profile@),
            },
    {
        if !self.has_profile(profile) {
            return Err(ConfigError::NoSuchProfile(owned(profile)));
        }
        self.default_profile = owned(profile);
        Ok(())
    }

    /// How many profiles there are.
    pub fn profile_count(&self) -> (n: usize)
        ensures
            n == self.view_profiles().len(),
    {
        self.profiles.len()
    }
}

// ── laws of the profile store ──────────────────────────────────────────────
/// A profile reads back as it was saved, and saving one profile leaves every
/// other profile as it was.
pub proof fn saved_profile_reads_back(ps: ProfilesView, name: Seq<char>, o: OauthView, other: Seq<char>)
    ensures
        lookup(inserted(ps, name, o), name) == Some(o),
        other != name ==> lookup(inserted(ps, name, o), other) == lookup(ps, other),
{
    let ins = inserted(ps, name, o);
    lemma_index_of(ps, name, 0);
    lemma_index_of(ins, name, 0);
    lemma_index_of(ps, other, 0);
    lemma_index_of(ins, other, 0);
    match index_of(ps, name, 0) {
        Some(k) => {
            lemma_index_of_is(ins, name, k, 0);
        },
        None => {
            lemma_index_of_is(ins, name, ps.len() as int, 0);
        },
    }
    if other != name {
        match index_of(ps, other, 0) {
            Some(j) => {
                lemma_index_of_is(ins, other, j, 0);
            },
            None => {
                lemma_index_of_none(ins, other, 0);
            },
        }
    }
}

/// Saving a profile keeps the names distinct and adds at most one profile.
pub proof fn insert_keeps_names_distinct(ps: ProfilesView, name: Seq<char>, o: OauthView)
    requires
        names_distinct(ps),
    ensures
        names_distinct(inserted(ps, name, o)),
        inserted(ps, name, o).len() == ps.len() + (if lookup(ps, name) is Some {
            0int
        } else {
            1int
        }),
{
    lemma_index_of(ps, name, 0);
}

/// The profile to use: the one named on the command line, else the one in
/// `BTPIS_PROFILE`, else the configured default.
pub fn resolve_profile(cli_profile: Option<&str>, env_profile: Option<&str>, config: &ConfigFile) -> (r: String)
    ensures
        r@ == match cli_profile {
            Some(p) => p@,
            None => match env_profile {
                Some(e) => e@,
                None => config.default_profile@,
            },
        },
{
    match cli_profile {
        Some(p) => owned(p),
        None => match env_profile {
            Some(e) => owned(e),
            None => config.default_profile.clone(),
        },
    }
}

/// The configuration that a file in the old single-profile format becomes:
/// its credentials as the profile `default`, which is the default.
pub fn migrate_old_config(oauth: OauthConfig) -> (r: ConfigFile)
    ensures
        r.default_profile@ == "default"@,
        r.view_profiles() == seq![("default"@, oauth_view(oauth))],
        r.wf(),
{
    let mut profiles: Vec<Profile> = Vec::new();
    profiles.push(Profile { name: default_profile_name(), oauth });
    let r = ConfigFile { default_profile: default_profile_name(), profiles };
    assert(r.view_profiles() =~= seq![("default"@, oauth_view(oauth))]);
    r
}

/// Which configuration `load_config` settles on, given the file read in the
/// current format (if it parsed) and in the old one (if it parsed): the
/// current one when it has a profile, else the migrated old one (flagged, so
/// that it is written back), else an error naming `path`.
pub fn select_loaded_config(path: &str, current: Option<ConfigFile>, old: Option<OauthConfig>) -> (r:
    Result<(ConfigFile, bool), ConfigError>)
    ensures
        match r {
            Ok((c, migrated)) => match current {
                Some(cur) if cur.view_profiles().len() > 0 => !migrated && c == cur,
                _ => migrated && (old matches Some(o) && c.default_profile@ == "default"@
                    && c.view_profiles() == seq![("default"@, oauth_view(o))]),
            },
            Err(e) => !(current matches Some(cur) && cur.view_profiles().len() > 0) && old is None
                && (e matches ConfigError::InvalidFormat(p) && p@ == path@),
        },
{
    if let Some(cur) = current {
        if cur.profiles.len() > 0 {
            return Ok((cur, false));
        }
    }
    match old {
        Some(o) => Ok((migrate_old_config(o), true)),
        None => Err(ConfigError::InvalidFormat(owned(path))),
    }
}

/// `config set` refuses credentials whose client id, secret, token URL or
/// URL is blank.
pub fn validate_oauth(oauth: &OauthConfig) -> (r: Result<(), ConfigError>)
    ensures
        r is Ok <== (text::trim_spec(oauth.client_id@).len() > 0 && text::trim_spec(oauth.client_secret@).len() > 0
            && text::trim_spec(oauth.token_url@).len() > 0 && text::trim_spec(oauth.url@).len() > 0),
        r is Ok ==> (text::trim_spec(oauth.client_id@).len() > 0 && text::trim_spec(oauth.client_secret@).len() > 0
            && text::trim_spec(oauth.token_url@).len() > 0 && text::trim_spec(oauth.url@).len() > 0),
        r matches Err(e) ==> e matches ConfigError::MissingFields,
{
    if trim(oauth.client_id.as_str()).as_str().is_empty() || trim(oauth.client_secret.as_str()).as_str().is_empty()
        || trim(oauth.token_url.as_str()).as_str().is_empty() || trim(oauth.url.as_str()).as_str().is_empty() {
        return Err(ConfigError::MissingFields);
    }
    Ok(())
}

/// The lines that `config list` prints.
pub open spec fn profile_lines(ps: ProfilesView, default: Seq<char>, n: int) -> Seq<Seq<char>>
    decreases n,
{
    if n <= 0 {
        seq![text::dec(ps.len()) + " profile(s) configured:\n"@]
    } else {
        let p = ps[n - 1];
        profile_lines(ps, default, n - 1) + seq![
            "  "@ + p.0 + (if p.0 == default {
                " (default)"@
            } else {
                Seq::empty()
            }),
            "    URL: "@ + p.1.4,
            "    Client ID: "@ + p.1.1,
            Seq::empty(),
        ]
    }
}

/// The lines that `config list` prints: a count, then per profile its name
/// (marked when it is the default), URL and client id, and a blank line.
pub fn profile_listing(config: &ConfigFile) -> (r: Vec<String>)
    ensures
        text::strings_view(r@) == profile_lines(
            config.view_profiles(),
            config.default_profile@,
            config.profiles@.len() as int,
        ),
{
    let ghost ps = config.view_profiles();
    let mut out: Vec<String> = Vec::new();
    let mut head = dec_string(config.profiles.len() as u64);
    push_str(&mut head, " profile(s) configured:\n");
    proof {
        text::lemma_strings_view_push(out@, head);
    }
    out.push(head);
    let mut k: usize = 0;
    while k < config.profiles.len()
        invariant
            k <= config.profiles.len(),
            ps == config.view_profiles(),
            text::strings_view(out@) == profile_lines(ps, config.default_profile@, k as int),
        decreases config.profiles.len() - k,
    {
        let p = &config.profiles[k];
        let mut l1 = owned("  ");
        push_str(&mut l1, p.name.as_str());
        if p.name == config.default_profile {
            push_str(&mut l1, " (default)");
        }
        let mut l2 = owned("    URL: ");
        push_str(&mut l2, p.oauth.url.as_str());
        let mut l3 = owned("    Client ID: ");
        push_str(&mut l3, p.oauth.client_id.as_str());
        let l4 = String::new();
        proof {
            text::lemma_strings_view_push(out@, l1);
        }
        out.push(l1);
        proof {
            text::lemma_strings_view_push(out@, l2);
        }
        out.push(l2);
        proof {
            text::lemma_strings_view_push(out@, l3);
        }
        out.push(l3);
        proof {
            text::lemma_strings_view_push(out@, l4);
        }
        out.push(l4);
        assert(text::strings_view(out@) =~= profile_lines(ps, config.default_profile@, k + 1));
        k += 1;
    }
    out
}

} // verus!
