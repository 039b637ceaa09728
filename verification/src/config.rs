//! Configuration: schedule profiles and which one is active.
use vstd::prelude::*;
use vstd::string::StringExecFns;
use crate::text::chars_of;
use crate::html::{opt_str_view, opt_view};
use crate::groups::{lemma_text_lt_asymmetric, lemma_text_lt_irreflexive, lemma_text_lt_total,
    lemma_text_lt_transitive, same_text, text_less, text_lt};

verus! {

/// A schedule that can be shown: its name, its KronoX address, the group
/// filter it starts with and an optional description.
#[derive(Debug, Clone)]
pub struct Profile {
    pub name: String,
    pub url: String,
    pub group_filter: String,
    pub description: Option<String>,
}

pub struct ProfileView {
    pub name: Seq<char>,
    pub url: Seq<char>,
    pub group_filter: Seq<char>,
    pub description: Option<Seq<char>>,
}

impl View for Profile {
    type V = ProfileView;

    open spec fn view(&self) -> ProfileView {
        ProfileView {
            name: self.name@,
            url: self.url@,
            group_filter: self.group_filter@,
            description: opt_view(self.description),
        }
    }
}

fn clone_opt_string(o: &Option<String>) -> (r: Option<String>)
    ensures
        opt_view(r) == opt_view(*o),
{
    match o {
        Some(s) => Some(s.clone()),
        None => None,
    }
}

impl Profile {
    /// A copy of the profile.
    pub fn duplicate(&self) -> (p: Profile)
        ensures
            p@ == self@,
    {
        Profile {
            name: self.name.clone(),
            url: self.url.clone(),
            group_filter: self.group_filter.clone(),
            description: clone_opt_string(&self.description),
        }
    }
}

pub open spec fn keys_sorted(es: Seq<(Seq<char>, ProfileView)>) -> bool {
    forall|i: int, j: int| 0 <= i < j < es.len() ==> text_lt(#[trigger] es[i].0, #[trigger] es[j].0)
}

/// The first entry at or after `i` with key `k`.
pub open spec fn key_index(es: Seq<(Seq<char>, ProfileView)>, k: Seq<char>, i: int) -> Option<int>
    decreases es.len() - i,
{
    if i < 0 || i >= es.len() {
        None
    } else if es[i].0 == k {
        Some(i)
    } else {
        key_index(es, k, i + 1)
    }
}

/// The profile stored under `k`.
pub open spec fn lookup(es: Seq<(Seq<char>, ProfileView)>, k: Seq<char>) -> Option<ProfileView> {
    match key_index(es, k, 0) {
        Some(i) => Some(es[i].1),
        None => None,
    }
}

proof fn lemma_key_index_found(es: Seq<(Seq<char>, ProfileView)>, k: Seq<char>, i: int)
    requires
        0 <= i,
    ensures
        key_index(es, k, i) matches Some(j) ==> i <= j < es.len() && es[j].0 == k && forall|m: int|
            i <= m < j ==> es[m].0 != k,
        key_index(es, k, i) is None ==> forall|m: int| i <= m < es.len() ==> es[m].0 != k,
    decreases es.len() - i,
{
    if i < es.len() && es[i].0 != k {
        lemma_key_index_found(es, k, i + 1);
    }
}

/// Profiles by key, in increasing key order as `BTreeMap<String, Profile>`
/// keeps them.
#[derive(Debug, Clone)]
pub struct ProfileMap {
    entries: Vec<(String, Profile)>,
}

impl View for ProfileMap {
    type V = Seq<(Seq<char>, ProfileView)>;

    closed spec fn view(&self) -> Seq<(Seq<char>, ProfileView)> {
        self.entries@.map_values(|e: (String, Profile)| (e.0@, e.1@))
    }
}

impl ProfileMap {
    /// Keys are distinct and in increasing order.
    pub closed spec fn wf(&self) -> bool {
        keys_sorted(self@)
    }

    /// A well-formed map holds its keys in strictly increasing order, each
    /// once.
    pub proof fn lemma_keys_sorted(&self)
        requires
            self.wf(),
        ensures
            keys_sorted(self@),
    {
    }

    /// The empty map.
    pub fn new() -> (m: ProfileMap)
        ensures
            m.wf(),
            m@ == Seq::<(Seq<char>, ProfileView)>::empty(),
    {
        let m = ProfileMap { entries: Vec::new() };
        assert(m@ =~= Seq::<(Seq<char>, ProfileView)>::empty());
        m
    }

    /// The number of profiles.
    pub fn len(&self) -> (n: usize)
        ensures
            n == self@.len(),
    {
        self.entries.len()
    }

    /// The key and profile at position `i` in key order.
    pub fn entry(&self, i: usize) -> (r: (&str, &Profile))
        requires
            i < self@.len(),
        ensures
            r.0@ == self@[i as int].0,
            r.1@ == self@[i as int].1,
    {
        let e = &self.entries[i];
        (e.0.as_str(), &e.1)
    }

    /// The keys in increasing order.
    pub fn keys(&self) -> (ks: Vec<String>)
        ensures
            ks@.len() == self@.len(),
            forall|i: int| 0 <= i < ks@.len() ==> #[trigger] ks@[i]@ == self@[i].0,
    {
        let mut ks: Vec<String> = Vec::new();
        let mut i: usize = 0;
        while i < self.entries.len()
            invariant
                i <= self@.len(),
                self@ == self.entries@.map_values(|e: (String, Profile)| (e.0@, e.1@)),
                ks@.len() == i,
                forall|k: int| 0 <= k < i ==> #[trigger] ks@[k]@ == self@[k].0,
            decreases self@.len() - i,
        {
            ks.push(self.entries[i].0.clone());
            i = i + 1;
        }
        ks
    }

    /// The position of the first key not below `k`.
    fn position(&self, k: &[char]) -> (p: usize)
        requires
            self.wf(),
        ensures
            p <= self@.len(),
            forall|i: int| 0 <= i < p ==> text_lt(#[trigger] self@[i].0, k@),
            p < self@.len() ==> !text_lt(self@[p as int].0, k@),
    {
        let mut p: usize = 0;
        while p < self.entries.len()
            invariant
                p <= self@.len(),
                self@ == self.entries@.map_values(|e: (String, Profile)| (e.0@, e.1@)),
                forall|i: int| 0 <= i < p ==> text_lt(#[trigger] self@[i].0, k@),
            decreases self@.len() - p,
        {
            let c = chars_of(self.entries[p].0.as_str());
            if !text_less(c.as_slice(), k) {
                return p;
            }
            p = p + 1;
        }
        p
    }

    /// The profile stored under `key`.
    pub fn get(&self, key: &str) -> (r: Option<&Profile>)
        requires
            self.wf(),
        ensures
            match r {
                Some(p) => lookup(self@, key@) == Some(p@),
                None => lookup(self@, key@) is None,
            },
    {
        let kc = chars_of(key);
        let p = self.position(kc.as_slice());
        proof {
            lemma_key_index_found(self@, key@, 0);
        }
        if p < self.entries.len() {
            let pc = chars_of(self.entries[p].0.as_str());
            if same_text(pc.as_slice(), kc.as_slice()) {
                proof {
                    assert forall|m: int| 0 <= m < p implies self@[m].0 != key@ by {
                        if self@[m].0 == key@ {
                            lemma_text_lt_irreflexive(key@);
                        }
                    }
                    match key_index(self@, key@, 0) {
                        Some(j) => {
                            if j > p {
                            } else if j < p {
                                assert(self@[j].0 != key@);
                            }
                        },
                        None => {},
                    }
                }
                return Some(&self.entries[p].1);
            }
        }
        proof {
            assert forall|m: int| 0 <= m < self@.len() implies self@[m].0 != key@ by {
                if m < p {
                    if self@[m].0 == key@ {
                        lemma_text_lt_irreflexive(key@);
                    }
                } else if m > p {
                    assert(text_lt(self@[p as int].0, self@[m].0));
                    lemma_text_lt_total(self@[p as int].0, key@);
                    if self@[m].0 == key@ {
                        lemma_text_lt_asymmetric(self@[p as int].0, key@);
                    }
                }
            }
            if key_index(self@, key@, 0) is Some {
                let j = key_index(self@, key@, 0)->0;
                assert(self@[j].0 == key@);
            }
        }
        None
    }

    /// Stores `profile` under `key`, replacing any profile stored there.
    pub fn insert(&mut self, key: String, profile: Profile)
        requires
            old(self).wf(),
        ensures
            final(self).wf(),
            lookup(final(self)@, key@) == Some(profile@),
            forall|k: Seq<char>| k != key@ ==> lookup(final(self)@, k) == lookup(old(self)@, k),
    {
        let ghost old_v = self@;
        let ghost kv = key@;
        let ghost pv = profile@;
        let kc = chars_of(key.as_str());
        let p = self.position(kc.as_slice());
        let found = if p < self.entries.len() {
            let pc = chars_of(self.entries[p].0.as_str());
            same_text(pc.as_slice(), kc.as_slice())
        } else {
            false
        };
        proof {
            assert forall|m: int| 0 <= m < p implies old_v[m].0 != kv by {
                if old_v[m].0 == kv {
                    lemma_text_lt_irreflexive(kv);
                }
            }
            if p < old_v.len() {
                lemma_text_lt_total(old_v[p as int].0, kv);
            }
            assert forall|m: int| p < m < old_v.len() implies text_lt(kv, #[trigger] old_v[m].0) by {
                assert(text_lt(old_v[p as int].0, old_v[m].0));
                if old_v[p as int].0 != kv {
                    lemma_text_lt_transitive(kv, old_v[p as int].0, old_v[m].0);
                }
            }
            assert forall|m: int| p < m < old_v.len() implies old_v[m].0 != kv by {
                if old_v[m].0 == kv {
                    lemma_text_lt_irreflexive(kv);
                }
            }
        }
        if found {
            self.entries.set(p, (key, profile));
        } else {
            self.entries.insert(p, (key, profile));
        }
        let ghost nv = self@;
        proof {
            if found {
                assert(nv =~= old_v.update(p as int, (kv, pv)));
            } else {
                assert(nv =~= old_v.insert(p as int, (kv, pv)));
            }
            assert forall|i: int, j: int| 0 <= i < j < nv.len() implies text_lt(
                #[trigger] nv[i].0,
                #[trigger] nv[j].0,
            ) by {
                if found {
                    if i == p {
                        assert(text_lt(kv, old_v[j].0));
                    } else if j == p {
                        assert(text_lt(old_v[i].0, kv));
                    } else {
                        assert(text_lt(old_v[i].0, old_v[j].0));
                    }
                } else {
                    if j < p {
                        assert(text_lt(old_v[i].0, old_v[j].0));
                    } else if j == p {
                        assert(text_lt(old_v[i].0, kv));
                    } else if i == p {
                        if j - 1 > p {
                            assert(text_lt(kv, old_v[j - 1].0));
                        } else {
                            assert(text_lt(kv, old_v[p as int].0));
                        }
                    } else if i < p {
                        assert(text_lt(old_v[i].0, kv));
                        if j - 1 > p {
                            assert(text_lt(kv, old_v[j - 1].0));
                        } else {
                            assert(text_lt(kv, old_v[p as int].0));
                        }
                        lemma_text_lt_transitive(old_v[i].0, kv, old_v[j - 1].0);
                    } else {
                        assert(text_lt(old_v[i - 1].0, old_v[j - 1].0));
                    }
                }
            }
            lemma_key_index_found(nv, kv, 0);
            assert(nv[p as int].0 == kv);
            assert forall|m: int| 0 <= m < p implies nv[m].0 != kv by {
                assert(nv[m] == old_v[m]);
            }
            assert forall|k: Seq<char>| k != kv implies lookup(nv, k) == lookup(old_v, k) by {
                lemma_key_index_found(nv, k, 0);
                lemma_key_index_found(old_v, k, 0);
                let a = key_index(nv, k, 0);
                let b = key_index(old_v, k, 0);
                if found {
                    if a is Some {
                        let ja = a->0;
                        assert(old_v[ja].0 == k);
                    }
                    if b is Some {
                        let jb = b->0;
                        assert(nv[jb].0 == k);
                    }
                    if a is Some && b is Some {
                        let ja = a->0;
                        let jb = b->0;
                        if ja < jb {
                            assert(old_v[ja].0 == k);
                        } else if jb < ja {
                            assert(nv[jb].0 == k);
                        }
                    }
                } else {
                    if a is Some {
                        let ja = a->0;
                        if ja < p {
                            assert(old_v[ja].0 == k);
                        } else {
                            assert(ja != p);
                            assert(old_v[ja - 1].0 == k);
                        }
                    }
                    if b is Some {
                        let jb = b->0;
                        if jb < p {
                            assert(nv[jb].0 == k);
                        } else {
                            assert(nv[jb + 1].0 == k);
                        }
                    }
                    if a is Some && b is Some {
                        let ja = a->0;
                        let jb = b->0;
                        if ja < p {
                            if jb < ja {
                                assert(nv[jb].0 == k);
                            } else if jb > ja {
                                assert(old_v[ja].0 == k);
                            }
                        } else {
                            if jb < ja - 1 {
                                if jb < p {
                                    assert(nv[jb].0 == k);
                                } else {
                                    assert(nv[jb + 1].0 == k);
                                }
                            } else if jb > ja - 1 {
                                assert(old_v[ja - 1].0 == k);
                            }
                        }
                    }
                }
            }
        }
    }
}

/// The settings: the profile shown by default, how long a cached schedule is
/// trusted (in minutes), the colour theme and the profiles.
#[derive(Debug, Clone)]
pub struct AppConfig {
    pub default_profile: String,
    pub cache_ttl_minutes: u64,
    pub theme: String,
    pub profiles: ProfileMap,
}

pub struct AppConfigView {
    pub default_profile: Seq<char>,
    pub cache_ttl_minutes: u64,
    pub theme: Seq<char>,
    pub profiles: Seq<(Seq<char>, ProfileView)>,
}

impl View for AppConfig {
    type V = AppConfigView;

    open spec fn view(&self) -> AppConfigView {
        AppConfigView {
            default_profile: self.default_profile@,
            cache_ttl_minutes: self.cache_ttl_minutes,
            theme: self.theme@,
            profiles: self.profiles@,
        }
    }
}

/// "tekniskt_basar".
pub fn default_profile_name() -> (s: String)
    ensures
        s@ == "tekniskt_basar"@,
{
    String::from_str("tekniskt_basar")
}

/// 180 minutes.
pub fn default_cache_ttl() -> (t: u64)
    ensures
        t == 180,
{
    180
}

/// "modern".
pub fn default_theme() -> (s: String)
    ensures
        s@ == "modern"@,
{
    String::from_str("modern")
}

/// "alla": every group.
pub fn default_all_filter() -> (s: String)
    ensures
        s@ == "alla"@,
{
    String::from_str("alla")
}

/// The profile chosen at start: the named one where it exists, else the
/// default profile where it exists, else the first profile in key order.
pub open spec fn active_profile(
    es: Seq<(Seq<char>, ProfileView)>,
    default_key: Seq<char>,
    override_name: Option<Seq<char>>,
) -> Option<(Seq<char>, ProfileView)> {
    if override_name is Some && lookup(es, override_name->0) is Some {
        Some((override_name->0, lookup(es, override_name->0)->0))
    } else if lookup(es, default_key) is Some {
        Some((default_key, lookup(es, default_key)->0))
    } else if es.len() > 0 {
        Some(es[0])
    } else {
        None
    }
}

impl Default for AppConfig {
    /// The two profiles of Högskolan i Borås that a new configuration has.
    fn default() -> (c: AppConfig)
        ensures
            c.profiles.wf(),
            c.default_profile@ == "tekniskt_basar"@,
            c.cache_ttl_minutes == 180,
            c.theme@ == "modern"@,
            lookup(c.profiles@, "tekniskt_basar"@) == Some(ProfileView {
                name: "Tekniskt Basår (KBAST26h)"@,
                url: "https://schema.hb.se/setup/jsp/Schema.jsp?startDatum=2026-08-31&intervallTyp=a&intervallAntal=1&sprak=SV&sokMedAND=true&forklaringar=true&resurser=p.KBAST26h"@,
                group_filter: "alla"@,
                description: Some("Högskolan i Borås - Tekniskt basår HT26/VT27"@),
            }),
            lookup(c.profiles@, "dataing"@) == Some(ProfileView {
                name: "Högskoleingenjör Datateknik (TGITI26h)"@,
                url: "https://schema.hb.se/setup/jsp/Schema.jsp?startDatum=2026-08-31&intervallTyp=a&intervallAntal=1&sprak=SV&sokMedAND=true&forklaringar=true&resurser=p.TGITI26h"@,
                group_filter: "alla"@,
                description: Some("Högskolan i Borås - Datateknik HT26/VT27"@),
            }),
            forall|k: Seq<char>|
                k != "tekniskt_basar"@ && k != "dataing"@ ==> lookup(c.profiles@, k) is None,
    {
        proof {
            reveal_strlit("tekniskt_basar");
            reveal_strlit("dataing");
        }
        let mut profiles = ProfileMap::new();
        profiles.insert(
            String::from_str("tekniskt_basar"),
            Profile {
                name: String::from_str("Tekniskt Basår (KBAST26h)"),
                url: String::from_str("https://schema.hb.se/setup/jsp/Schema.jsp?startDatum=2026-08-31&intervallTyp=a&intervallAntal=1&sprak=SV&sokMedAND=true&forklaringar=true&resurser=p.KBAST26h"),
                group_filter: String::from_str("alla"),
                description: Some(String::from_str("Högskolan i Borås - Tekniskt basår HT26/VT27")),
            },
        );
        profiles.insert(
            String::from_str("dataing"),
            Profile {
                name: String::from_str("Högskoleingenjör Datateknik (TGITI26h)"),
                url: String::from_str("https://schema.hb.se/setup/jsp/Schema.jsp?startDatum=2026-08-31&intervallTyp=a&intervallAntal=1&sprak=SV&sokMedAND=true&forklaringar=true&resurser=p.TGITI26h"),
                group_filter: String::from_str("alla"),
                description: Some(String::from_str("Högskolan i Borås - Datateknik HT26/VT27")),
            },
        );
        assert("tekniskt_basar"@.len() != "dataing"@.len());
        assert("tekniskt_basar"@ != "dataing"@);
        AppConfig {
            default_profile: String::from_str("tekniskt_basar"),
            cache_ttl_minutes: 180,
            theme: String::from_str("modern"),
            profiles: profiles,
        }
    }

}

impl AppConfig {
    pub open spec fn wf(&self) -> bool {
        self.profiles.wf()
    }

    /// The key and profile to show: `override_name` where it names a profile,
    /// else the default profile where it exists, else the first profile.
    pub fn get_active_profile<'a>(&'a self, override_name: Option<&'a str>) -> (r: Option<
        (&'a str, &'a Profile),
    >)
        requires
            self.wf(),
        ensures
            match r {
                Some((k, p)) => active_profile(
                    self.profiles@,
                    self.default_profile@,
                    opt_str_view(override_name),
                ) == Some((k@, p@)),
                None => active_profile(
                    self.profiles@,
                    self.default_profile@,
                    opt_str_view(override_name),
                ) is None,
            },
    {
        if let Some(name) = override_name {
            if let Some(p) = self.profiles.get(name) {
                return Some((name, p));
            }
        }
        if let Some(p) = self.profiles.get(self.default_profile.as_str()) {
            return Some((self.default_profile.as_str(), p));
        }
        if self.profiles.len() > 0 {
            let (k, p) = self.profiles.entry(0);
            return Some((k, p));
        }
        None
    }
}

/// Where the configuration comes from.
#[derive(Debug, Clone, Copy, PartialEq, Eq, Structural)]
pub enum ConfigSource {
    /// Read the file named on the command line.
    ReadGiven,
    /// Write the default configuration to the file named on the command line.
    CreateGiven,
    /// Read `config.toml` in the working directory.
    ReadLocal,
    /// Read `config.toml` in the user's configuration directory.
    ReadUser,
    /// Write the default configuration to the user's configuration directory.
    CreateUser,
}

/// A file named on the command line is read where it exists and created with
/// the default configuration where it does not; otherwise `./config.toml` is
/// read where it exists, else the user's configuration file, which is created
/// where it is missing.
pub open spec fn config_source_of(given: Option<bool>, local_exists: bool, user_exists: bool) -> ConfigSource {
    match given {
        Some(exists) => if exists {
            ConfigSource::ReadGiven
        } else {
            ConfigSource::CreateGiven
        },
        None => if local_exists {
            ConfigSource::ReadLocal
        } else if user_exists {
            ConfigSource::ReadUser
        } else {
            ConfigSource::CreateUser
        },
    }
}

/// Where the configuration comes from (see `config_source_of`): `given` is
/// whether the file named on the command line exists, `None` where none was
/// named; the other two say whether `./config.toml` and the user's
/// configuration file exist.
pub fn config_source(given: Option<bool>, local_exists: bool, user_exists: bool) -> (r: ConfigSource)
    ensures
        r == config_source_of(given, local_exists, user_exists),
{
    match given {
        Some(exists) => if exists {
            ConfigSource::ReadGiven
        } else {
            ConfigSource::CreateGiven
        },
        None => if local_exists {
            ConfigSource::ReadLocal
        } else if user_exists {
            ConfigSource::ReadUser
        } else {
            ConfigSource::CreateUser
        },
    }
}

} // verus!
