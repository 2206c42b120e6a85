use vstd::prelude::*;

use crate::config::env_view;
use crate::text::{has_prefix, same_text, starts_with};

verus! {

/// The server's own settings.
pub struct AppConfig {
    pub public_url: String,
    pub listen_addr: String,
    pub db_url: String,
    pub app_id: String,
    pub app_fingerprints: Vec<String>,
}

/// The value of the last pair with key `key`, if any.
pub open spec fn lookup_var(env: Seq<(Seq<char>, Seq<char>)>, key: Seq<char>) -> Option<Seq<char>>
    decreases env.len(),
{
    if env.len() == 0 {
        None
    } else if env.last().0 == key {
        Some(env.last().1)
    } else {
        lookup_var(env.drop_last(), key)
    }
}

/// The value of `key`, or `default` where it is not set.
pub open spec fn var_or(env: Seq<(Seq<char>, Seq<char>)>, key: Seq<char>, default: Seq<char>) -> Seq<char> {
    match lookup_var(env, key) {
        Some(v) => v,
        None => default,
    }
}

/// The values of the keys that start with `FLASHMIND_APP_FINGERPRINT`, in order.
pub open spec fn fingerprints_of(env: Seq<(Seq<char>, Seq<char>)>) -> Seq<Seq<char>>
    decreases env.len(),
{
    if env.len() == 0 {
        Seq::empty()
    } else {
        let before = fingerprints_of(env.drop_last());
        if starts_with(env.last().0, "FLASHMIND_APP_FINGERPRINT"@) {
            before.push(env.last().1)
        } else {
            before
        }
    }
}

/// The texts of a list of strings.
pub open spec fn texts(v: Seq<String>) -> Seq<Seq<char>> {
    v.map_values(|s: String| s@)
}

fn find_var(env: &Vec<(String, String)>, key: &str) -> (r: Option<String>)
    ensures
        match r {
            Some(v) => lookup_var(env_view(env@), key@) == Some(v@),
            None => lookup_var(env_view(env@), key@) is None,
        },
{
    let ghost ev = env_view(env@);
    let mut found: Option<String> = None;
    let mut i: usize = 0;
    while i < env.len()
        invariant
            i <= env@.len(),
            ev == env_view(env@),
            match found {
                Some(v) => lookup_var(ev.take(i as int), key@) == Some(v@),
                None => lookup_var(ev.take(i as int), key@) is None,
            },
        decreases env@.len() - i,
    {
        assert(ev.take(i as int + 1).drop_last() =~= ev.take(i as int));
        assert(ev.take(i as int + 1).last() == (env@[i as int].0@, env@[i as int].1@));
        if same_text(env[i].0.as_str(), key) {
            found = Some(env[i].1.clone());
        }
        i = i + 1;
    }
    assert(ev.take(env@.len() as int) =~= ev);
    found
}

fn var_or_default(env: &Vec<(String, String)>, key: &str, default: &str) -> (r: String)
    ensures
        r@ == var_or(env_view(env@), key@, default@),
{
    match find_var(env, key) {
        Some(v) => v,
        None => default.to_string(),
    }
}

fn collect_fingerprints(env: &Vec<(String, String)>) -> (r: Vec<String>)
    ensures
        texts(r@) == fingerprints_of(env_view(env@)),
{
    let ghost ev = env_view(env@);
    let mut out: Vec<String> = Vec::new();
    let mut i: usize = 0;
    while i < env.len()
        invariant
            i <= env@.len(),
            ev == env_view(env@),
            texts(out@) == fingerprints_of(ev.take(i as int)),
        decreases env@.len() - i,
    {
        assert(ev.take(i as int + 1).drop_last() =~= ev.take(i as int));
        assert(ev.take(i as int + 1).last() == (env@[i as int].0@, env@[i as int].1@));
        if has_prefix(env[i].0.as_str(), "FLASHMIND_APP_FINGERPRINT") {
            let ghost before = out@;
            out.push(env[i].1.clone());
            assert(texts(out@) =~= texts(before).push(env@[i as int].1@));
        }
        i = i + 1;
    }
    assert(ev.take(env@.len() as int) =~= ev);
    out
}

impl AppConfig {
    /// The settings that environment pairs give: the public URL, listen
    /// address and app id fall back to their defaults; the database URL has
    /// none, so without it there are no settings (`None`); the fingerprints
    /// are the values of the keys that start with `FLASHMIND_APP_FINGERPRINT`.
    pub fn from_vars(env: &Vec<(String, String)>) -> (r: Option<AppConfig>)
        ensures
            r is None <==> lookup_var(env_view(env@), "FLASHMIND_DB_URL"@) is None,
            r matches Some(c) ==> {
                &&& Some(c.db_url@) == lookup_var(env_view(env@), "FLASHMIND_DB_URL"@)
                &&& c.public_url@ == var_or(
                    env_view(env@),
                    "FLASHMIND_PUBLIC_URL"@,
                    "http://localhost:3000"@,
                )
                &&& c.listen_addr@ == var_or(
                    env_view(env@),
                    "FLASHMIND_LISTEN_ADDR"@,
                    "[::]:3000"@,
                )
                &&& c.app_id@ == var_or(
                    env_view(env@),
                    "FLASHMIND_APP_ID"@,
                    "io.github.m00nwtchr.flashmind"@,
                )
                &&& texts(c.app_fingerprints@) == fingerprints_of(env_view(env@))
            },
    {
        let db_url = match find_var(env, "FLASHMIND_DB_URL") {
            Some(v) => v,
            None => return None,
        };
        Some(
            AppConfig {
                public_url: var_or_default(env, "FLASHMIND_PUBLIC_URL", "http://localhost:3000"),
                listen_addr: var_or_default(env, "FLASHMIND_LISTEN_ADDR", "[::]:3000"),
                db_url,
                app_id: var_or_default(env, "FLASHMIND_APP_ID", "io.github.m00nwtchr.flashmind"),
                app_fingerprints: collect_fingerprints(env),
            },
        )
    }
}

impl Default for AppConfig {
    fn default() -> (r: AppConfig)
        ensures
            r.public_url@ == "http://localhost:3000"@,
            r.listen_addr@ == "[::]:3000"@,
            r.db_url@ == "sqlite::memory:"@,
            r.app_id@ == "io.github.m00nwtchr.flashmind"@,
            r.app_fingerprints@.len() == 0,
    {
        AppConfig {
            public_url: "http://localhost:3000".to_string(),
            listen_addr: "[::]:3000".to_string(),
            db_url: "sqlite::memory:".to_string(),
            app_id: "io.github.m00nwtchr.flashmind".to_string(),
            app_fingerprints: Vec::new(),
        }
    }
}

} // verus!
