use vstd::prelude::*;

use crate::text::{ends_with, has_suffix};

verus! {

/// The setting that an environment key carries for its provider.
#[derive(Clone, Copy, Debug, PartialEq, Eq, Structural)]
pub enum ProviderField {
    ClientId,
    ClientSecret,
    IssuerUrl,
    Name,
    IconUrl,
}

/// The key suffix that marks each provider setting.
pub open spec fn field_suffix(f: ProviderField) -> Seq<char> {
    match f {
        ProviderField::ClientId => "_OIDC_CLIENT_ID"@,
        ProviderField::ClientSecret => "_OIDC_CLIENT_SECRET"@,
        ProviderField::IssuerUrl => "_OIDC_ISSUER_URL"@,
        ProviderField::Name => "_OIDC_NAME"@,
        ProviderField::IconUrl => "_OIDC_ICON_URL"@,
    }
}

/// The first field, in declaration order, whose suffix ends `key`.
pub open spec fn key_field(key: Seq<char>) -> Option<ProviderField> {
    if ends_with(key, field_suffix(ProviderField::ClientId)) {
        Some(ProviderField::ClientId)
    } else if ends_with(key, field_suffix(ProviderField::ClientSecret)) {
        Some(ProviderField::ClientSecret)
    } else if ends_with(key, field_suffix(ProviderField::IssuerUrl)) {
        Some(ProviderField::IssuerUrl)
    } else if ends_with(key, field_suffix(ProviderField::Name)) {
        Some(ProviderField::Name)
    } else if ends_with(key, field_suffix(ProviderField::IconUrl)) {
        Some(ProviderField::IconUrl)
    } else {
        None
    }
}

/// A provider key split into the text before its suffix and the field it sets.
pub open spec fn split_key(key: Seq<char>) -> Option<(Seq<char>, ProviderField)> {
    match key_field(key) {
        Some(f) => Some((key.subrange(0, key.len() - field_suffix(f).len()), f)),
        None => None,
    }
}

/// What `str::to_lowercase` makes of a text.
pub uninterp spec fn lower_of(s: Seq<char>) -> Seq<char>;

/// Relies on `str::to_lowercase`: its result depends on the characters alone.
#[verifier::external_body]
fn lowercase(s: &str) -> (r: String)
    ensures
        r@ == lower_of(s@),
{
    s.to_lowercase()
}

/// The provider id and field that an environment key names, if it names one.
pub open spec fn key_target(key: Seq<char>) -> Option<(Seq<char>, ProviderField)> {
    match split_key(key) {
        Some((prefix, f)) => Some((lower_of(prefix), f)),
        None => None,
    }
}

fn suffix_text(f: ProviderField) -> (r: &'static str)
    ensures
        r@ == field_suffix(f),
{
    match f {
        ProviderField::ClientId => "_OIDC_CLIENT_ID",
        ProviderField::ClientSecret => "_OIDC_CLIENT_SECRET",
        ProviderField::IssuerUrl => "_OIDC_ISSUER_URL",
        ProviderField::Name => "_OIDC_NAME",
        ProviderField::IconUrl => "_OIDC_ICON_URL",
    }
}

/// The field that `key` sets, by its suffix.
pub fn field_of_key(key: &str) -> (r: Option<ProviderField>)
    ensures
        r == key_field(key@),
{
    if has_suffix(key, "_OIDC_CLIENT_ID") {
        Some(ProviderField::ClientId)
    } else if has_suffix(key, "_OIDC_CLIENT_SECRET") {
        Some(ProviderField::ClientSecret)
    } else if has_suffix(key, "_OIDC_ISSUER_URL") {
        Some(ProviderField::IssuerUrl)
    } else if has_suffix(key, "_OIDC_NAME") {
        Some(ProviderField::Name)
    } else if has_suffix(key, "_OIDC_ICON_URL") {
        Some(ProviderField::IconUrl)
    } else {
        None
    }
}

/// Splits a provider key into the text before its suffix (case kept) and its field.
pub fn split_provider_key(key: &str) -> (r: Option<(String, ProviderField)>)
    ensures
        r matches Some((p, f)) ==> split_key(key@) == Some((p@, f)),
        r is None <==> split_key(key@) is None,
{
    match field_of_key(key) {
        Some(f) => {
            let suffix = suffix_text(f);
            let end: usize = key.unicode_len() - suffix.unicode_len();
            let prefix = key.substring_char(0, end);
            Some((prefix.to_string(), f))
        },
        None => None,
    }
}

/// The provider id that an environment key belongs to: the text before its
/// suffix, lower-cased.
pub fn extract_provider_name(key: &str) -> (r: Option<String>)
    ensures
        r matches Some(id) ==> key_target(key@) matches Some((p, _)) && id@ == p,
        r is None <==> key_target(key@) is None,
{
    match split_provider_key(key) {
        Some((prefix, _)) => Some(lowercase(prefix.as_str())),
        None => None,
    }
}

/// The settings gathered for one provider; an empty text stands for a
/// setting that was not given.
pub struct ProviderConfig {
    pub id: String,
    pub client_id: String,
    pub client_secret: String,
    pub issuer_url: String,
    pub name: String,
    pub icon_url: String,
}

/// The texts of a [`ProviderConfig`].
pub ghost struct ConfigModel {
    pub id: Seq<char>,
    pub client_id: Seq<char>,
    pub client_secret: Seq<char>,
    pub issuer_url: Seq<char>,
    pub name: Seq<char>,
    pub icon_url: Seq<char>,
}

impl View for ProviderConfig {
    type V = ConfigModel;

    open spec fn view(&self) -> ConfigModel {
        ConfigModel {
            id: self.id@,
            client_id: self.client_id@,
            client_secret: self.client_secret@,
            issuer_url: self.issuer_url@,
            name: self.name@,
            icon_url: self.icon_url@,
        }
    }
}

/// A provider with no setting given yet.
pub open spec fn blank_config(id: Seq<char>) -> ConfigModel {
    ConfigModel {
        id,
        client_id: Seq::empty(),
        client_secret: Seq::empty(),
        issuer_url: Seq::empty(),
        name: Seq::empty(),
        icon_url: Seq::empty(),
    }
}

/// `c` with field `f` set to `v`.
pub open spec fn set_field(c: ConfigModel, f: ProviderField, v: Seq<char>) -> ConfigModel {
    match f {
        ProviderField::ClientId => ConfigModel { client_id: v, ..c },
        ProviderField::ClientSecret => ConfigModel { client_secret: v, ..c },
        ProviderField::IssuerUrl => ConfigModel { issuer_url: v, ..c },
        ProviderField::Name => ConfigModel { name: v, ..c },
        ProviderField::IconUrl => ConfigModel { icon_url: v, ..c },
    }
}

/// The value of field `f` in `c`.
pub open spec fn get_field(c: ConfigModel, f: ProviderField) -> Seq<char> {
    match f {
        ProviderField::ClientId => c.client_id,
        ProviderField::ClientSecret => c.client_secret,
        ProviderField::IssuerUrl => c.issuer_url,
        ProviderField::Name => c.name,
        ProviderField::IconUrl => c.icon_url,
    }
}

/// The texts of environment pairs.
pub open spec fn env_view(env: Seq<(String, String)>) -> Seq<(Seq<char>, Seq<char>)> {
    env.map_values(|e: (String, String)| (e.0@, e.1@))
}

/// The providers that environment pairs describe, read in order: each key
/// that names a provider setting sets it, a later pair over an earlier one.
pub open spec fn configs_of(env: Seq<(Seq<char>, Seq<char>)>) -> Map<Seq<char>, ConfigModel>
    decreases env.len(),
{
    if env.len() == 0 {
        Map::empty()
    } else {
        let before = configs_of(env.drop_last());
        let (key, value) = env.last();
        match key_target(key) {
            Some((id, f)) => {
                let old_config = if before.contains_key(id) {
                    before[id]
                } else {
                    blank_config(id)
                };
                before.insert(id, set_field(old_config, f, value))
            },
            None => before,
        }
    }
}

/// The provider ids of `configs` are pairwise distinct.
pub open spec fn distinct_ids(configs: Seq<ProviderConfig>) -> bool {
    forall|i: int, j: int|
        0 <= i < configs.len() && 0 <= j < configs.len() && i != j ==> configs[i].id@
            != configs[j].id@
}

/// `configs` holds exactly the providers of `m`, one entry each.
pub open spec fn lists_configs(configs: Seq<ProviderConfig>, m: Map<Seq<char>, ConfigModel>) -> bool {
    &&& distinct_ids(configs)
    &&& forall|i: int|
        0 <= i < configs.len() ==> m.contains_key(configs[i].id@) && m[configs[i].id@]
            == configs[i]@
    &&& forall|id: Seq<char>| m.contains_key(id) ==> exists|i: int| 0 <= i < configs.len() && configs[i].id@ == id
}

fn position_of(configs: &Vec<ProviderConfig>, id: &String) -> (r: Option<usize>)
    ensures
        r matches Some(j) ==> j < configs@.len() && configs@[j as int].id@ == id@,
        r is None ==> forall|j: int| 0 <= j < configs@.len() ==> configs@[j].id@ != id@,
{
    let mut j: usize = 0;
    while j < configs.len()
        invariant
            j <= configs@.len(),
            forall|k: int| 0 <= k < j ==> configs@[k].id@ != id@,
        decreases configs@.len() - j,
    {
        if configs[j].id == *id {
            return Some(j);
        }
        j = j + 1;
    }
    None
}

fn with_field(c: ProviderConfig, f: ProviderField, v: String) -> (r: ProviderConfig)
    ensures
        r@ == set_field(c@, f, v@),
{
    let ProviderConfig { id, client_id, client_secret, issuer_url, name, icon_url } = c;
    match f {
        ProviderField::ClientId => ProviderConfig { id, client_id: v, client_secret, issuer_url, name, icon_url },
        ProviderField::ClientSecret => ProviderConfig { id, client_id, client_secret: v, issuer_url, name, icon_url },
        ProviderField::IssuerUrl => ProviderConfig { id, client_id, client_secret, issuer_url: v, name, icon_url },
        ProviderField::Name => ProviderConfig { id, client_id, client_secret, issuer_url, name: v, icon_url },
        ProviderField::IconUrl => ProviderConfig { id, client_id, client_secret, issuer_url, name, icon_url: v },
    }
}

fn take_config(configs: &mut Vec<ProviderConfig>, j: usize) -> (r: ProviderConfig)
    requires
        j < old(configs)@.len(),
    ensures
        r == old(configs)@[j as int],
        final(configs)@.len() == old(configs)@.len(),
        forall|k: int| 0 <= k < old(configs)@.len() && k != j ==> final(configs)@[k] == old(configs)@[k],
        final(configs)@[j as int]@ == blank_config(Seq::empty()),
{
    let blank = ProviderConfig {
        id: String::new(),
        client_id: String::new(),
        client_secret: String::new(),
        issuer_url: String::new(),
        name: String::new(),
        icon_url: String::new(),
    };
    let mut r = blank;
    configs.set_and_swap(j, &mut r);
    r
}

/// Groups environment pairs by provider: each key that names a provider
/// setting sets it on the provider its prefix names, lower-cased.
pub fn collect_provider_configs(env: &Vec<(String, String)>) -> (r: Vec<ProviderConfig>)
    ensures
        lists_configs(r@, configs_of(env_view(env@))),
{
    let ghost ev = env_view(env@);
    let mut out: Vec<ProviderConfig> = Vec::new();
    let mut i: usize = 0;
    while i < env.len()
        invariant
            i <= env@.len(),
            ev == env_view(env@),
            lists_configs(out@, configs_of(ev.take(i as int))),
        decreases env@.len() - i,
    {
        let ghost prev = configs_of(ev.take(i as int));
        assert(ev.take(i as int + 1).drop_last() =~= ev.take(i as int));
        assert(ev.take(i as int + 1).last() == (env@[i as int].0@, env@[i as int].1@));
        let key = &env[i].0;
        match extract_provider_name(key.as_str()) {
            Some(id) => {
                let f = field_of_key(key.as_str()).unwrap();
                let value = env[i].1.clone();
                let ghost next = configs_of(ev.take(i as int + 1));
                let ghost before_out = out@;
                match position_of(&out, &id) {
                    Some(j) => {
                        let c = take_config(&mut out, j);
                        let c2 = with_field(c, f, value);
                        out.set(j, c2);
                        assert forall|id2: Seq<char>| next.contains_key(id2) implies exists|k: int|
                            0 <= k < out@.len() && out@[k].id@ == id2 by {
                            if id2 != id@ {
                                assert(prev.contains_key(id2));
                                let k = choose|k: int| 0 <= k < before_out.len() && #[trigger] before_out[k].id@ == id2;
                                assert(0 <= k < out@.len() && out@[k].id@ == id2);
                            } else {
                                assert(out@[j as int].id@ == id2);
                            }
                        }
                    },
                    None => {
                        let blank = ProviderConfig {
                            id: id.clone(),
                            client_id: String::new(),
                            client_secret: String::new(),
                            issuer_url: String::new(),
                            name: String::new(),
                            icon_url: String::new(),
                        };
                        assert(!prev.contains_key(id@));
                        let c2 = with_field(blank, f, value);
                        out.push(c2);
                        assert forall|id2: Seq<char>| next.contains_key(id2) implies exists|k: int|
                            0 <= k < out@.len() && out@[k].id@ == id2 by {
                            if id2 != id@ {
                                assert(prev.contains_key(id2));
                                let k = choose|k: int| 0 <= k < before_out.len() && #[trigger] before_out[k].id@ == id2;
                                assert(0 <= k < out@.len() && out@[k].id@ == id2);
                            } else {
                                assert(out@[out@.len() - 1].id@ == id2);
                            }
                        }
                    },
                }
            },
            None => {},
        }
        i = i + 1;
    }
    assert(ev.take(env@.len() as int) =~= ev);
    out
}

/// The provider id that an environment key names, if any.
pub open spec fn key_provider(key: Seq<char>) -> Option<Seq<char>> {
    match key_target(key) {
        Some((id, _)) => Some(id),
        None => None,
    }
}

/// A provider appears exactly when some key names it, and under its own id.
pub proof fn lemma_provider_present(env: Seq<(Seq<char>, Seq<char>)>, id: Seq<char>)
    ensures
        configs_of(env).contains_key(id) <==> exists|j: int|
            0 <= j < env.len() && #[trigger] key_provider(env[j].0) == Some(id),
        configs_of(env).contains_key(id) ==> configs_of(env)[id].id == id,
    decreases env.len(),
{
    if env.len() > 0 {
        let init = env.drop_last();
        lemma_provider_present(init, id);
        let n = env.len() - 1;
        assert(env.last() == env[n]);
        let before = configs_of(init);
        match key_target(env[n].0) {
            Some((k, f)) => {
                assert(key_provider(env[n].0) == Some(k));
                if k == id {
                    assert(configs_of(env).contains_key(id));
                } else {
                    assert(configs_of(env).contains_key(id) == before.contains_key(id));
                }
            },
            None => {
                assert(configs_of(env) == before);
            },
        }
        if exists|j: int|
            0 <= j < init.len() && #[trigger] key_provider(init[j].0) == Some(id) {
            let j = choose|j: int|
                0 <= j < init.len() && #[trigger] key_provider(init[j].0) == Some(id);
            assert(init[j] == env[j]);
        }
        if exists|j: int|
            0 <= j < env.len() && #[trigger] key_provider(env[j].0) == Some(id) {
            let j = choose|j: int|
                0 <= j < env.len() && #[trigger] key_provider(env[j].0) == Some(id);
            if j < n {
                assert(init[j] == env[j]);
            }
        }
    }
}

/// When exactly one entry sets field `f` of provider `id`, that field holds
/// its value, wherever the entry stands among the others.
pub proof fn lemma_field_from_sole_entry(
    env: Seq<(Seq<char>, Seq<char>)>,
    id: Seq<char>,
    f: ProviderField,
    j: int,
)
    requires
        0 <= j < env.len(),
        key_target(env[j].0) == Some((id, f)),
        forall|k: int| 0 <= k < env.len() && k != j ==> key_target(#[trigger] env[k].0) != Some((id, f)),
    ensures
        configs_of(env).contains_key(id),
        get_field(configs_of(env)[id], f) == env[j].1,
    decreases env.len(),
{
    let n = env.len() - 1;
    assert(env.last() == env[n]);
    if j < n {
        let init = env.drop_last();
        assert(init[j] == env[j]);
        assert forall|k: int| 0 <= k < init.len() && k != j implies key_target(#[trigger] init[k].0) != Some((id, f)) by {
            assert(init[k] == env[k]);
        }
        lemma_field_from_sole_entry(init, id, f, j);
        assert(key_target(env[n].0) != Some((id, f)));
    }
}

/// When no entry sets field `f` of provider `id`, that field stays empty.
pub proof fn lemma_field_without_entry(env: Seq<(Seq<char>, Seq<char>)>, id: Seq<char>, f: ProviderField)
    requires
        forall|k: int| 0 <= k < env.len() ==> key_target(#[trigger] env[k].0) != Some((id, f)),
    ensures
        configs_of(env).contains_key(id) ==> get_field(configs_of(env)[id], f).len() == 0,
    decreases env.len(),
{
    if env.len() > 0 {
        let init = env.drop_last();
        let n = env.len() - 1;
        assert(env.last() == env[n]);
        assert forall|k: int| 0 <= k < init.len() implies key_target(#[trigger] init[k].0) != Some((id, f)) by {
            assert(init[k] == env[k]);
        }
        lemma_field_without_entry(init, id, f);
        assert(key_target(env[n].0) != Some((id, f)));
    }
}

} // verus!
