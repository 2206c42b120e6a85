use vstd::prelude::*;

use crate::config::{ConfigModel, ProviderConfig};
use crate::text::same_text;
use openidconnect::{IssuerUrl, RedirectUrl};

verus! {

#[verifier::external_type_specification]
#[verifier::external_body]
pub struct ExIssuerUrl(IssuerUrl);

#[verifier::external_type_specification]
#[verifier::external_body]
pub struct ExRedirectUrl(RedirectUrl);

/// Whether `openidconnect::IssuerUrl::new` accepts a text.
pub uninterp spec fn issuer_url_accepted(s: Seq<char>) -> bool;

/// Whether `openidconnect::RedirectUrl::new` accepts a text.
pub uninterp spec fn redirect_url_accepted(s: Seq<char>) -> bool;

/// Relies on `openidconnect::IssuerUrl::new`: it parses the text as a URL and
/// succeeds or fails by the text alone.
#[verifier::external_body]
fn parse_issuer_url(s: String) -> (r: Option<IssuerUrl>)
    ensures
        r.is_some() == issuer_url_accepted(s@),
{
    IssuerUrl::new(s).ok()
}

/// Relies on `openidconnect::RedirectUrl::new`: it parses the text as a URL and
/// succeeds or fails by the text alone.
#[verifier::external_body]
fn parse_redirect_url(s: String) -> (r: Option<RedirectUrl>)
    ensures
        r.is_some() == redirect_url_accepted(s@),
{
    RedirectUrl::new(s).ok()
}

/// The texts of an optional text.
pub open spec fn opt_view(o: Option<String>) -> Option<Seq<char>> {
    match o {
        Some(s) => Some(s@),
        None => None,
    }
}

/// An empty text stands for a setting that was not given.
pub open spec fn given(s: Seq<char>) -> Option<Seq<char>> {
    if s.len() == 0 {
        None
    } else {
        Some(s)
    }
}

/// Client id, client secret and issuer URL are all given.
pub open spec fn is_complete(c: ConfigModel) -> bool {
    c.client_id.len() > 0 && c.client_secret.len() > 0 && c.issuer_url.len() > 0
}

/// The address the provider sends the browser back to: `{base}/{id}`.
pub open spec fn redirect_uri(base: Seq<char>, id: Seq<char>) -> Seq<char> {
    base + seq!['/'] + id
}

/// A provider goes to discovery when its settings are complete and both its
/// issuer URL and its redirect address parse.
#[verifier::opaque]
pub open spec fn qualifies(c: ConfigModel, base: Seq<char>) -> bool {
    is_complete(c) && issuer_url_accepted(c.issuer_url) && redirect_url_accepted(
        redirect_uri(base, c.id),
    )
}

/// What discovery needs for one provider.
pub struct DiscoveryTarget {
    pub id: String,
    pub client_id: String,
    pub client_secret: String,
    pub issuer_url: String,
    pub issuer: IssuerUrl,
    pub redirect_uri: String,
    pub redirect: RedirectUrl,
    pub name: Option<String>,
    pub icon_url: Option<String>,
}

/// `t` is the discovery target made from `c`.
#[verifier::opaque]
pub open spec fn target_of(t: DiscoveryTarget, c: ConfigModel, base: Seq<char>) -> bool {
    &&& t.id@ == c.id
    &&& t.client_id@ == c.client_id
    &&& t.client_secret@ == c.client_secret
    &&& t.issuer_url@ == c.issuer_url
    &&& t.redirect_uri@ == redirect_uri(base, c.id)
    &&& opt_view(t.name) == given(c.name)
    &&& opt_view(t.icon_url) == given(c.icon_url)
}

/// The settings of those `configs` that qualify, in order.
pub open spec fn qualifying(configs: Seq<ProviderConfig>, base: Seq<char>) -> Seq<ConfigModel>
    decreases configs.len(),
{
    if configs.len() == 0 {
        Seq::empty()
    } else {
        let before = qualifying(configs.drop_last(), base);
        if qualifies(configs.last()@, base) {
            before.push(configs.last()@)
        } else {
            before
        }
    }
}

/// `targets` are made, in order, from those of `configs` that qualify.
pub open spec fn targets_for(
    targets: Seq<DiscoveryTarget>,
    configs: Seq<ProviderConfig>,
    base: Seq<char>,
) -> bool {
    let q = qualifying(configs, base);
    &&& targets.len() == q.len()
    &&& forall|i: int| 0 <= i < targets.len() ==> #[trigger] target_of(targets[i], q[i], base)
}

/// Each qualifying setting qualifies and is the setting of one of `configs`.
pub proof fn lemma_qualifying_sources(configs: Seq<ProviderConfig>, base: Seq<char>)
    ensures
        forall|i: int|
            #![trigger qualifying(configs, base)[i]]
            0 <= i < qualifying(configs, base).len() ==> qualifies(qualifying(configs, base)[i], base) && exists|m: int|
                0 <= m < configs.len() && #[trigger] configs[m]@ == qualifying(configs, base)[i],
    decreases configs.len(),
{
    if configs.len() > 0 {
        let init = configs.drop_last();
        lemma_qualifying_sources(init, base);
        let n = configs.len() - 1;
        assert forall|i: int| #![trigger qualifying(configs, base)[i]] 0 <= i < qualifying(configs, base).len() implies
            qualifies(qualifying(configs, base)[i], base) && exists|m: int|
            0 <= m < configs.len() && #[trigger] configs[m]@ == qualifying(configs, base)[i] by {
            if i < qualifying(init, base).len() {
                assert(qualifying(configs, base)[i] == qualifying(init, base)[i]);
                let m = choose|m: int|
                    0 <= m < init.len() && #[trigger] init[m]@ == qualifying(init, base)[i];
                assert(configs[m] == init[m]);
            } else {
                assert(configs.last() == configs[n]);
                assert(configs[n]@ == qualifying(configs, base)[i]);
            }
        }
    }
}

/// Each config that qualifies is among the qualifying settings, and distinct
/// provider ids stay distinct.
pub proof fn lemma_qualifying_members(configs: Seq<ProviderConfig>, base: Seq<char>)
    ensures
        forall|m: int|
            0 <= m < configs.len() && qualifies(#[trigger] configs[m]@, base) ==> exists|i: int|
                0 <= i < qualifying(configs, base).len() && qualifying(configs, base)[i]
                    == configs[m]@,
        crate::config::distinct_ids(configs) ==> forall|i: int, j: int|
            0 <= i < qualifying(configs, base).len() && 0 <= j < qualifying(configs, base).len()
                && i != j ==> (#[trigger] qualifying(configs, base)[i]).id
                != (#[trigger] qualifying(configs, base)[j]).id,
    decreases configs.len(),
{
    if configs.len() > 0 {
        let init = configs.drop_last();
        lemma_qualifying_members(init, base);
        lemma_qualifying_sources(init, base);
        let q0 = qualifying(init, base);
        let q = qualifying(configs, base);
        let n = configs.len() - 1;
        assert(configs.last() == configs[n]);
        assert forall|m: int| 0 <= m < configs.len() && qualifies(#[trigger] configs[m]@, base) implies exists|i: int|
            0 <= i < q.len() && q[i] == configs[m]@ by {
            if m < n {
                assert(init[m] == configs[m]);
                assert(qualifies(init[m]@, base));
                let i = choose|i: int| 0 <= i < q0.len() && q0[i] == init[m]@;
                assert(q[i] == q0[i]);
            } else {
                assert(q[q.len() - 1] == configs[m]@);
            }
        }
        if crate::config::distinct_ids(configs) {
            assert(crate::config::distinct_ids(init)) by {
                assert forall|a: int, b: int| 0 <= a < init.len() && 0 <= b < init.len() && a != b implies init[a].id@ != init[b].id@ by {
                    assert(init[a] == configs[a] && init[b] == configs[b]);
                }
            }
            assert forall|i: int, j: int|
                0 <= i < q.len() && 0 <= j < q.len() && i != j implies (#[trigger] q[i]).id != (#[trigger] q[j]).id by {
                if i < q0.len() && j < q0.len() {
                    assert(q[i] == q0[i] && q[j] == q0[j]);
                } else if i < q0.len() {
                    assert(q[i] == q0[i]);
                    let m = choose|m: int| 0 <= m < init.len() && #[trigger] init[m]@ == q0[i];
                    assert(configs[m] == init[m]);
                    assert(q[j] == configs[n]@);
                } else if j < q0.len() {
                    assert(q[j] == q0[j]);
                    let m = choose|m: int| 0 <= m < init.len() && #[trigger] init[m]@ == q0[j];
                    assert(configs[m] == init[m]);
                    assert(q[i] == configs[n]@);
                }
            }
        }
    }
}

/// The provider ids of `targets` are pairwise distinct.
pub open spec fn distinct_target_ids(targets: Seq<DiscoveryTarget>) -> bool {
    forall|i: int, j: int|
        0 <= i < targets.len() && 0 <= j < targets.len() && i != j ==> targets[i].id@
            != targets[j].id@
}

fn given_text(s: &String) -> (r: Option<String>)
    ensures
        opt_view(r) == given(s@),
{
    if s.unicode_len() == 0 {
        None
    } else {
        Some(s.clone())
    }
}

/// The redirect address for provider `id` under `base`: `{base}/{id}`.
pub fn redirect_uri_for(base: &str, id: &str) -> (r: String)
    ensures
        r@ == redirect_uri(base@, id@),
{
    let mut s = base.to_string();
    s.append("/");
    s.append(id);
    proof {
        reveal_strlit("/");
    }
    s
}

fn target_for(c: &ProviderConfig, base: &str) -> (r: Option<DiscoveryTarget>)
    ensures
        r is Some <==> qualifies(c@, base@),
        r matches Some(t) ==> target_of(t, c@, base@),
{
    reveal(target_of);
    reveal(qualifies);
    let complete = c.client_id.unicode_len() > 0 && c.client_secret.unicode_len() > 0
        && c.issuer_url.unicode_len() > 0;
    if !complete {
        return None;
    }
    let redirect_text = redirect_uri_for(base, c.id.as_str());
    let issuer = parse_issuer_url(c.issuer_url.clone());
    let redirect = parse_redirect_url(redirect_text.clone());
    match (issuer, redirect) {
        (Some(issuer), Some(redirect)) => Some(
            DiscoveryTarget {
                id: c.id.clone(),
                client_id: c.client_id.clone(),
                client_secret: c.client_secret.clone(),
                issuer_url: c.issuer_url.clone(),
                issuer,
                redirect_uri: redirect_text,
                redirect,
                name: given_text(&c.name),
                icon_url: given_text(&c.icon_url),
            },
        ),
        _ => None,
    }
}

/// Picks the providers whose settings are complete and whose issuer URL and
/// redirect address `{base}/{id}` parse, and prepares their discovery.
pub fn discovery_targets(configs: &Vec<ProviderConfig>, base: &str) -> (r: Vec<DiscoveryTarget>)
    requires
        crate::config::distinct_ids(configs@),
    ensures
        targets_for(r@, configs@, base@),
        distinct_target_ids(r@),
{
    let mut out: Vec<DiscoveryTarget> = Vec::new();
    let mut k: usize = 0;
    while k < configs.len()
        invariant
            k <= configs@.len(),
            targets_for(out@, configs@.take(k as int), base@),
        decreases configs@.len() - k,
    {
        let ghost before = out@;
        assert(configs@.take(k as int + 1).drop_last() =~= configs@.take(k as int));
        assert(configs@.take(k as int + 1).last() == configs@[k as int]);
        match target_for(&configs[k], base) {
            Some(t) => {
                out.push(t);
                proof {
                    let q = qualifying(configs@.take(k as int + 1), base@);
                    assert forall|i: int| 0 <= i < out@.len() implies #[trigger] target_of(out@[i], q[i], base@) by {
                        if i < before.len() {
                            assert(out@[i] == before[i]);
                        }
                    }
                }
            },
            None => {},
        }
        k = k + 1;
    }
    assert(configs@.take(configs@.len() as int) =~= configs@);
    proof {
        lemma_qualifying_members(configs@, base@);
        reveal(target_of);
        let q = qualifying(configs@, base@);
        assert forall|i: int, j: int|
            0 <= i < out@.len() && 0 <= j < out@.len() && i != j implies out@[i].id@ != out@[j].id@ by {
            assert(target_of(out@[i], q[i], base@));
            assert(target_of(out@[j], q[j], base@));
        }
    }
    out
}

/// A provider whose discovery succeeded, with the client handle configured for it.
pub struct OIDCProvider<C> {
    pub id: String,
    pub name: Option<String>,
    pub client_id: String,
    pub issuer_url: String,
    pub icon_url: Option<String>,
    pub client: C,
}

/// The public description of a provider: never its secret nor its client handle.
pub struct ProviderDescriptor {
    pub id: String,
    pub name: Option<String>,
    pub client_id: String,
    pub issuer_url: String,
    pub icon_url: Option<String>,
}

/// `p` carries the public settings of `t`.
pub open spec fn resolved_from<C>(p: OIDCProvider<C>, t: DiscoveryTarget) -> bool {
    &&& p.id@ == t.id@
    &&& opt_view(p.name) == opt_view(t.name)
    &&& p.client_id@ == t.client_id@
    &&& p.issuer_url@ == t.issuer_url@
    &&& opt_view(p.icon_url) == opt_view(t.icon_url)
}

/// `p` was made from one of `targets`, with the client that its discovery gave.
pub open spec fn discovered_from<C>(
    p: OIDCProvider<C>,
    targets: Seq<DiscoveryTarget>,
    outcomes: Seq<Option<C>>,
) -> bool {
    exists|i: int|
        0 <= i < targets.len() && outcomes[i] == Some(p.client) && #[trigger] resolved_from(
            p,
            targets[i],
        )
}

/// Discovery of some target with id `id` succeeded.
pub open spec fn published<C>(
    targets: Seq<DiscoveryTarget>,
    outcomes: Seq<Option<C>>,
    id: Seq<char>,
) -> bool {
    exists|i: int| 0 <= i < targets.len() && #[trigger] targets[i].id@ == id && outcomes[i] is Some
}

/// `d` describes `p`.
pub open spec fn describes<C>(d: ProviderDescriptor, p: OIDCProvider<C>) -> bool {
    &&& d.id@ == p.id@
    &&& opt_view(d.name) == opt_view(p.name)
    &&& d.client_id@ == p.client_id@
    &&& d.issuer_url@ == p.issuer_url@
    &&& opt_view(d.icon_url) == opt_view(p.icon_url)
}

/// The providers that discovery resolved, by id. Built once, never changed.
pub struct OIDCProviders<C> {
    pub providers: Vec<OIDCProvider<C>>,
}

pub(crate) fn copy_text(o: &Option<String>) -> (r: Option<String>)
    ensures
        opt_view(r) == opt_view(*o),
{
    match o {
        Some(s) => Some(s.clone()),
        None => None,
    }
}

impl<C> OIDCProviders<C> {
    /// Some provider of the registry has id `id`.
    pub open spec fn has(&self, id: Seq<char>) -> bool {
        exists|j: int| 0 <= j < self.providers@.len() && #[trigger] self.providers@[j].id@ == id
    }

    /// No two providers share an id.
    pub open spec fn wf(&self) -> bool {
        forall|a: int, b: int|
            0 <= a < self.providers@.len() && 0 <= b < self.providers@.len() && a != b
                ==> self.providers@[a].id@ != self.providers@[b].id@
    }

    /// The registry of the providers whose discovery succeeded: `outcomes[i]`
    /// is the client that discovery of `targets[i]` gave, or `None` where it
    /// failed. One failure leaves every other provider in.
    pub fn assemble(targets: &Vec<DiscoveryTarget>, outcomes: Vec<Option<C>>) -> (r: Self)
        requires
            targets@.len() == outcomes@.len(),
            distinct_target_ids(targets@),
        ensures
            r.wf(),
            forall|i: int|
                0 <= i < targets@.len() ==> (outcomes@[i] is Some <==> r.has(
                    #[trigger] targets@[i].id@,
                )),
            forall|id: Seq<char>| r.has(id) <==> published(targets@, outcomes@, id),
            forall|j: int|
                0 <= j < r.providers@.len() ==> discovered_from(
                    #[trigger] r.providers@[j],
                    targets@,
                    outcomes@,
                ),
    {
        let ghost orig = outcomes@;
        let ghost n = orig.len() as int;
        let ghost mut src: Seq<int> = Seq::empty();
        let mut pending = outcomes;
        let mut providers: Vec<OIDCProvider<C>> = Vec::new();
        while pending.len() > 0
            invariant
                n == orig.len(),
                n == targets@.len(),
                distinct_target_ids(targets@),
                pending@.len() <= n,
                pending@ == orig.take(pending@.len() as int),
                providers@.len() == src.len(),
                forall|j: int|
                    #![trigger src[j]]
                    0 <= j < src.len() ==> pending@.len() <= src[j] < n && orig[src[j]] == Some(
                        providers@[j].client,
                    ) && resolved_from(providers@[j], targets@[src[j]]),
                forall|a: int, b: int| 0 <= a < b < src.len() ==> src[a] > src[b],
                forall|i: int|
                    #![trigger orig[i]]
                    pending@.len() <= i < n && orig[i] is Some ==> exists|j: int|
                        0 <= j < src.len() && src[j] == i,
            decreases pending@.len(),
        {
            let i: usize = pending.len() - 1;
            let o = pending.pop().unwrap();
            assert(o == orig[i as int]);
            assert(pending@ =~= orig.take(i as int));
            match o {
                Some(client) => {
                    let t = &targets[i];
                    let p = OIDCProvider {
                        id: t.id.clone(),
                        name: copy_text(&t.name),
                        client_id: t.client_id.clone(),
                        issuer_url: t.issuer_url.clone(),
                        icon_url: copy_text(&t.icon_url),
                        client,
                    };
                    providers.push(p);
                    proof {
                        let old_src = src;
                        src = src.push(i as int);
                        assert forall|k: int| #![trigger orig[k]] i <= k < n && orig[k] is Some implies exists|j: int|
                            0 <= j < src.len() && src[j] == k by {
                            if k == i {
                                assert(src[src.len() - 1] == k);
                            } else {
                                let j = choose|j: int| 0 <= j < old_src.len() && old_src[j] == k;
                                assert(src[j] == k);
                            }
                        }
                    }
                },
                None => {},
            }
        }
        let r = OIDCProviders { providers };
        proof {
            assert forall|a: int, b: int|
                0 <= a < r.providers@.len() && 0 <= b < r.providers@.len() && a != b
                    implies r.providers@[a].id@ != r.providers@[b].id@ by {
                assert(src[a] != src[b]);
                assert(resolved_from(r.providers@[a], targets@[src[a]]));
                assert(resolved_from(r.providers@[b], targets@[src[b]]));
            }
            assert forall|i: int| 0 <= i < targets@.len() implies (orig[i] is Some <==> r.has(
                #[trigger] targets@[i].id@,
            )) by {
                if orig[i] is Some {
                    let j = choose|j: int| 0 <= j < src.len() && src[j] == i;
                    assert(resolved_from(r.providers@[j], targets@[src[j]]));
                    assert(r.providers@[j].id@ == targets@[i].id@);
                }
                if r.has(targets@[i].id@) {
                    let j = choose|j: int| 0 <= j < r.providers@.len() && #[trigger] r.providers@[j].id@ == targets@[i].id@;
                    assert(resolved_from(r.providers@[j], targets@[src[j]]));
                    assert(src[j] == i);
                }
            }
            assert forall|j: int| 0 <= j < r.providers@.len() implies discovered_from(
                #[trigger] r.providers@[j],
                targets@,
                outcomes@,
            ) by {
                let i = src[j];
                assert(0 <= i < targets@.len());
                assert(orig[i] == Some(r.providers@[j].client));
                assert(resolved_from(r.providers@[j], targets@[i]));
            }
            assert forall|id: Seq<char>| r.has(id) <==> published(targets@, outcomes@, id) by {
                if r.has(id) {
                    let j = choose|j: int| 0 <= j < r.providers@.len() && #[trigger] r.providers@[j].id@ == id;
                    let i = src[j];
                    assert(resolved_from(r.providers@[j], targets@[i]));
                    assert(targets@[i].id@ == id && outcomes@[i] is Some);
                }
                if published(targets@, outcomes@, id) {
                    let i = choose|i: int| 0 <= i < targets@.len() && #[trigger] targets@[i].id@ == id && outcomes@[i] is Some;
                    let j = choose|j: int| 0 <= j < src.len() && src[j] == i;
                    assert(resolved_from(r.providers@[j], targets@[src[j]]));
                    assert(r.providers@[j].id@ == id);
                }
            }
        }
        r
    }

    /// The provider with id `id`, if the registry has one.
    pub fn lookup(&self, id: &str) -> (r: Option<&OIDCProvider<C>>)
        ensures
            r is Some <==> self.has(id@),
            r matches Some(p) ==> p.id@ == id@ && exists|j: int|
                0 <= j < self.providers@.len() && self.providers@[j] == *p,
    {
        let mut j: usize = 0;
        while j < self.providers.len()
            invariant
                j <= self.providers@.len(),
                forall|k: int| 0 <= k < j ==> self.providers@[k].id@ != id@,
            decreases self.providers@.len() - j,
        {
            if same_text(self.providers[j].id.as_str(), id) {
                return Some(&self.providers[j]);
            }
            j = j + 1;
        }
        None
    }

    /// The public description of every provider, in registry order.
    pub fn descriptors(&self) -> (r: Vec<ProviderDescriptor>)
        ensures
            r@.len() == self.providers@.len(),
            forall|j: int| 0 <= j < r@.len() ==> #[trigger] describes(r@[j], self.providers@[j]),
    {
        let mut out: Vec<ProviderDescriptor> = Vec::new();
        let mut j: usize = 0;
        while j < self.providers.len()
            invariant
                j <= self.providers@.len(),
                out@.len() == j,
                forall|k: int| 0 <= k < j ==> #[trigger] describes(out@[k], self.providers@[k]),
            decreases self.providers@.len() - j,
        {
            let p = &self.providers[j];
            out.push(
                ProviderDescriptor {
                    id: p.id.clone(),
                    name: copy_text(&p.name),
                    client_id: p.client_id.clone(),
                    issuer_url: p.issuer_url.clone(),
                    icon_url: copy_text(&p.icon_url),
                },
            );
            j = j + 1;
        }
        out
    }
}

/// A provider whose discovery succeeded is published whatever became of
/// the discovery of any other provider.
pub proof fn lemma_discovery_independent<C>(
    targets: Seq<DiscoveryTarget>,
    outcomes: Seq<Option<C>>,
    failed: int,
    ok: int,
)
    requires
        distinct_target_ids(targets),
        outcomes.len() == targets.len(),
        0 <= failed < targets.len(),
        0 <= ok < targets.len(),
        outcomes[failed] is None,
        outcomes[ok] is Some,
    ensures
        published(targets, outcomes, targets[ok].id@),
        !published(targets, outcomes, targets[failed].id@),
{
    assert(0 <= ok < targets.len() && targets[ok].id@ == targets[ok].id@ && outcomes[ok] is Some);
    if published(targets, outcomes, targets[failed].id@) {
        let i = choose|i: int|
            0 <= i < targets.len() && #[trigger] targets[i].id@ == targets[failed].id@ && outcomes[i] is Some;
        assert(i == failed);
    }
}

/// A provider is published exactly when its settings qualify (client id,
/// secret and issuer URL given and non-empty, both URLs parse) and the
/// discovery made for it succeeded.
pub proof fn lemma_published_iff<C>(
    env: Seq<(Seq<char>, Seq<char>)>,
    configs: Seq<ProviderConfig>,
    base: Seq<char>,
    targets: Seq<DiscoveryTarget>,
    outcomes: Seq<Option<C>>,
    id: Seq<char>,
)
    requires
        crate::config::lists_configs(configs, crate::config::configs_of(env)),
        targets_for(targets, configs, base),
        distinct_target_ids(targets),
        outcomes.len() == targets.len(),
    ensures
        published(targets, outcomes, id) ==> crate::config::configs_of(env).contains_key(id)
            && qualifies(crate::config::configs_of(env)[id], base),
        crate::config::configs_of(env).contains_key(id) && qualifies(
            crate::config::configs_of(env)[id],
            base,
        ) ==> exists|i: int|
            0 <= i < targets.len() && #[trigger] targets[i].id@ == id && (published(
                targets,
                outcomes,
                id,
            ) <==> outcomes[i] is Some),
{
    let m = crate::config::configs_of(env);
    let q = qualifying(configs, base);
    lemma_qualifying_sources(configs, base);
    lemma_qualifying_members(configs, base);
    if published(targets, outcomes, id) {
        let i = choose|i: int| 0 <= i < targets.len() && #[trigger] targets[i].id@ == id && outcomes[i] is Some;
        assert(target_of(targets[i], q[i], base));
        reveal(target_of);
        assert(qualifies(q[i], base));
        let k = choose|k: int| 0 <= k < configs.len() && #[trigger] configs[k]@ == q[i];
        assert(configs[k].id@ == id);
        assert(m.contains_key(configs[k].id@) && m[configs[k].id@] == configs[k]@);
    }
    if m.contains_key(id) && qualifies(m[id], base) {
        let k = choose|k: int| 0 <= k < configs.len() && configs[k].id@ == id;
        assert(m[configs[k].id@] == configs[k]@);
        assert(qualifies(configs[k]@, base));
        let i = choose|i: int| 0 <= i < q.len() && q[i] == configs[k]@;
        assert(target_of(targets[i], q[i], base));
        reveal(target_of);
        assert(targets[i].id@ == id);
        if published(targets, outcomes, id) {
            let i2 = choose|i2: int| 0 <= i2 < targets.len() && #[trigger] targets[i2].id@ == id && outcomes[i2] is Some;
            assert(i2 == i);
        }
    }
}

} // verus!
