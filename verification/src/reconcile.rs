//! Secret reconciliation: walks every environment-variable container of a
//! manifest, collects the vault-sourced keys and the template-derived
//! secrets, detects conflicting dual-sourcing, fetches the store's value
//! for every vault key, and fills the manifest's secrets map and secret
//! files. The gathering and applying steps are pure and carry exact
//! contracts; the store calls stand between them.
use vstd::prelude::*;

use crate::config::VaultConfig;
use crate::envvars::{in_vault_marker, vault_keys_of, EnvVars};
use crate::ext::{base64_check, base64_decodable};
use crate::manifest::Manifest;
use crate::strutil::{
    clone_pairs, contains_str, find_value, has_key, key_value, lemma_pairs_view_push,
    lemma_strs_view_push, lemma_take_one_more, pairs_view, strs_view,
};
use crate::structs::{CronJob, Sidecar, Worker};
use crate::vault::{
    list_path_view, mocked_secret_view, read_path_view, request_url_view, Mode, Vault, VaultError,
};

verus! {

/// What can go wrong while reconciling secrets.
#[derive(Clone, Debug)]
pub enum SecretError {
    /// A key bound by two template outputs to different values.
    TemplateConflict(String),
    /// A key both vault-sourced and template-derived, with the store's
    /// value disagreeing with the template's.
    SourceConflict(String),
    /// A secret file whose resolved value is not base64.
    NotBase64(String),
    /// A declared vault-sourced key absent from the store's listing.
    MissingSecret(String),
    /// A declared secret file absent from the store's listing.
    MissingSecretFile(String),
    /// The store could not be read.
    Store(VaultError),
}

impl SecretError {
    /// The reason text of this error.
    pub open spec fn reason_view(self) -> Seq<char> {
        match self {
            SecretError::TemplateConflict(k) => "secret "@ + k@
                + " can not be used in multiple templates with different values"@,
            SecretError::SourceConflict(k) => "secret "@ + k@
                + " can not be both templated and fetched from vault"@,
            SecretError::NotBase64(k) => "secret "@ + k@ + " is not base64 encoded"@,
            SecretError::MissingSecret(k) => "secret "@ + k@ + " not found in vault listing"@,
            SecretError::MissingSecretFile(k) => "secret file "@ + k@
                + " not found in vault listing"@,
            SecretError::Store(e) => e.reason_view(),
        }
    }

    /// The full message for a service: its name, a separator, the reason.
    pub fn describe(&self, svc: &String) -> (r: String)
        ensures
            r@ == svc@ + ": "@ + self.reason_view(),
    {
        let reason: String = match self {
            SecretError::TemplateConflict(k) => String::from_str("secret ").concat(
                k.as_str(),
            ).concat(" can not be used in multiple templates with different values"),
            SecretError::SourceConflict(k) => String::from_str("secret ").concat(
                k.as_str(),
            ).concat(" can not be both templated and fetched from vault"),
            SecretError::NotBase64(k) => String::from_str("secret ").concat(k.as_str()).concat(
                " is not base64 encoded",
            ),
            SecretError::MissingSecret(k) => String::from_str("secret ").concat(
                k.as_str(),
            ).concat(" not found in vault listing"),
            SecretError::MissingSecretFile(k) => String::from_str("secret file ").concat(
                k.as_str(),
            ).concat(" not found in vault listing"),
            SecretError::Store(e) => e.describe(),
        };
        svc.clone().concat(": ").concat(reason.as_str())
    }
}

/// The env-var views of every container of a manifest, in the fixed
/// order: main, sidecars, workers, cron jobs. Each entry is the pair of
/// the plain view and the templated view.
pub open spec fn env_views(m: Manifest) -> Seq<
    (Seq<(Seq<char>, Seq<char>)>, Seq<(Seq<char>, Seq<char>)>),
> {
    seq![(m.env.plain_view(), m.env.templated_view())] + m.sidecars@.map_values(
        |s: Sidecar| (s.env.plain_view(), s.env.templated_view()),
    ) + m.workers@.map_values(|w: Worker| (w.env.plain_view(), w.env.templated_view()))
        + m.cronJobs@.map_values(|c: CronJob| (c.env.plain_view(), c.env.templated_view()))
}

/// The vault-sourced keys of every container, concatenated in order.
pub open spec fn cat_vault_keys(
    cs: Seq<(Seq<(Seq<char>, Seq<char>)>, Seq<(Seq<char>, Seq<char>)>)>,
) -> Seq<Seq<char>>
    decreases cs.len(),
{
    if cs.len() == 0 {
        Seq::empty()
    } else {
        cat_vault_keys(cs.drop_last()) + vault_keys_of(cs.last().0)
    }
}

/// The template outputs of every container, concatenated in order.
pub open spec fn cat_templates(
    cs: Seq<(Seq<(Seq<char>, Seq<char>)>, Seq<(Seq<char>, Seq<char>)>)>,
) -> Seq<(Seq<char>, Seq<char>)>
    decreases cs.len(),
{
    if cs.len() == 0 {
        Seq::empty()
    } else {
        cat_templates(cs.drop_last()) + cs.last().1
    }
}

/// A key list with later repetitions removed, first occurrences kept in
/// order.
pub open spec fn dedup_keys(s: Seq<Seq<char>>) -> Seq<Seq<char>>
    decreases s.len(),
{
    if s.len() == 0 {
        Seq::empty()
    } else {
        let rest = dedup_keys(s.drop_last());
        if rest.contains(s.last()) {
            rest
        } else {
            rest.push(s.last())
        }
    }
}

/// An association list with later bindings of an already-bound key
/// removed, first bindings kept in order.
pub open spec fn dedup_pairs(s: Seq<(Seq<char>, Seq<char>)>) -> Seq<(Seq<char>, Seq<char>)>
    decreases s.len(),
{
    if s.len() == 0 {
        Seq::empty()
    } else {
        let rest = dedup_pairs(s.drop_last());
        if has_key(rest, s.last().0) {
            rest
        } else {
            rest.push(s.last())
        }
    }
}

/// A later template binding of a key to a different value than the key's
/// first binding. Two bindings of one key agree everywhere exactly when
/// this is false.
pub open spec fn template_conflict(pairs: Seq<(Seq<char>, Seq<char>)>) -> bool
    decreases pairs.len(),
{
    if pairs.len() == 0 {
        false
    } else {
        template_conflict(pairs.drop_last()) || {
            let m = dedup_pairs(pairs.drop_last());
            has_key(m, pairs.last().0) && key_value(m, pairs.last().0) != pairs.last().1
        }
    }
}

/// Deduplication keeps exactly the keys of the list, each bound to the
/// value of its first occurrence.
pub proof fn lemma_dedup_pairs_lookup(s: Seq<(Seq<char>, Seq<char>)>, k: Seq<char>)
    ensures
        has_key(dedup_pairs(s), k) <==> has_key(s, k),
        has_key(s, k) ==> key_value(dedup_pairs(s), k) == key_value(s, k),
    decreases s.len(),
{
    if s.len() == 0 {
        assert(!has_key(s, k));
        assert(!has_key(dedup_pairs(s), k));
    } else {
        let dl = s.drop_last();
        let dd = dedup_pairs(dl);
        let p = s.last();
        lemma_dedup_pairs_lookup(dl, k);
        assert(s =~= dl.push(p));
        assert(has_key(s, k) <==> (has_key(dl, k) || p.0 == k)) by {
            if has_key(s, k) {
                let w = choose|i: int| 0 <= i < s.len() && s[i].0 == k;
                if w < dl.len() {
                    assert(dl[w] == s[w]);
                    assert(has_key(dl, k));
                }
            }
            if has_key(dl, k) {
                let w = choose|i: int| 0 <= i < dl.len() && dl[i].0 == k;
                assert(s[w] == dl[w]);
                assert(has_key(s, k));
            }
            if p.0 == k {
                assert(s[s.len() - 1].0 == k);
                assert(has_key(s, k));
            }
        }
        if has_key(dd, p.0) {
            assert(dedup_pairs(s) == dd);
            lemma_dedup_pairs_lookup(dl, p.0);
            assert(has_key(dl, p.0));
            if has_key(s, k) {
                assert(has_key(dl, k));
                crate::strutil::lemma_key_value_push(dl, p, k);
            }
        } else {
            assert(dedup_pairs(s) == dd.push(p));
            if has_key(s, k) {
                if has_key(dl, k) {
                    assert(has_key(dd, k));
                    crate::strutil::lemma_key_value_push(dd, p, k);
                    crate::strutil::lemma_key_value_push(dl, p, k);
                } else {
                    assert(p.0 == k);
                    assert(forall|i: int| 0 <= i < dl.len() ==> (#[trigger] dl[i]).0 != k);
                    assert(forall|i: int|
                        0 <= i < dd.len() ==> (#[trigger] dd.push(p)[i]) == dd[i]);
                    assert(forall|i: int| 0 <= i < dd.len() ==> (#[trigger] dd[i]).0 != k);
                    assert(dd.push(p)[dd.len() as int] == p);
                    crate::strutil::lemma_key_value_at(dd.push(p), k, dd.len() as int);
                    assert(forall|i: int| 0 <= i < s.len() - 1 ==> (#[trigger] s[i]).0 != k);
                    assert(s[s.len() - 1] == p);
                    crate::strutil::lemma_key_value_at(s, k, s.len() - 1);
                }
            } else {
                assert(p.0 != k);
                assert(!has_key(dd, k));
                assert(forall|i: int|
                    0 <= i < dd.push(p).len() ==> (#[trigger] dd.push(p)[i]).0 != k);
                assert(!has_key(dd.push(p), k));
            }
        }
    }
}

/// The dual-sourcing agreement law: the template outputs hold no
/// conflict exactly when every binding carries the value its key was
/// first bound to — so two bindings of one key always disagree somewhere
/// exactly when some binding strays from the first, and bindings that
/// all agree never fail.
pub proof fn lemma_no_conflict_iff_first_binding(pairs: Seq<(Seq<char>, Seq<char>)>)
    ensures
        !template_conflict(pairs) <==> (forall|j: int|
            0 <= j < pairs.len() ==> (#[trigger] pairs[j]).1 == key_value(pairs, pairs[j].0)),
    decreases pairs.len(),
{
    if pairs.len() == 0 {
    } else {
        let dl = pairs.drop_last();
        let dd = dedup_pairs(dl);
        let p = pairs.last();
        lemma_no_conflict_iff_first_binding(dl);
        assert(pairs =~= dl.push(p));
        if !template_conflict(pairs) {
            assert forall|j: int| 0 <= j < pairs.len() implies (#[trigger] pairs[j]).1
                == key_value(pairs, pairs[j].0) by {
                if j < dl.len() {
                    assert(pairs[j] == dl[j]);
                    assert(has_key(dl, dl[j].0));
                    crate::strutil::lemma_key_value_push(dl, p, dl[j].0);
                } else {
                    assert(pairs[j] == p);
                    lemma_dedup_pairs_lookup(dl, p.0);
                    if has_key(dd, p.0) {
                        assert(key_value(dd, p.0) == p.1);
                        assert(has_key(dl, p.0));
                        crate::strutil::lemma_key_value_push(dl, p, p.0);
                    } else {
                        assert(!has_key(dl, p.0));
                        assert(forall|i: int|
                            0 <= i < pairs.len() - 1 ==> (#[trigger] pairs[i]).0 != p.0);
                        crate::strutil::lemma_key_value_at(pairs, p.0, pairs.len() - 1);
                    }
                }
            }
        } else {
            if template_conflict(dl) {
                let j = choose|j: int|
                    0 <= j < dl.len() && (#[trigger] dl[j]).1 != key_value(dl, dl[j].0);
                assert(pairs[j] == dl[j]);
                assert(has_key(dl, dl[j].0));
                crate::strutil::lemma_key_value_push(dl, p, dl[j].0);
                assert(pairs[j].1 != key_value(pairs, pairs[j].0));
            } else {
                assert(has_key(dd, p.0) && key_value(dd, p.0) != p.1);
                lemma_dedup_pairs_lookup(dl, p.0);
                assert(has_key(dl, p.0));
                crate::strutil::lemma_key_value_push(dl, p, p.0);
                assert(pairs[pairs.len() - 1].1 != key_value(
                    pairs,
                    pairs[pairs.len() - 1].0,
                ));
            }
        }
    }
}

/// A conflict in a prefix is a conflict in the whole list.
pub proof fn lemma_template_conflict_prefix(pairs: Seq<(Seq<char>, Seq<char>)>, k: int)
    requires
        0 <= k <= pairs.len(),
        template_conflict(pairs.take(k)),
    ensures
        template_conflict(pairs),
    decreases pairs.len(),
{
    if k == pairs.len() {
        assert(pairs.take(k) =~= pairs);
    } else {
        assert(pairs.take(k) =~= pairs.drop_last().take(k));
        lemma_template_conflict_prefix(pairs.drop_last(), k);
    }
}

/// A key both among the fetched store values and bound by a template,
/// with the two values disagreeing.
pub open spec fn source_conflict(
    fetched: Seq<(Seq<char>, Seq<char>)>,
    tmap: Seq<(Seq<char>, Seq<char>)>,
) -> bool {
    exists|j: int|
        0 <= j < tmap.len() && has_key(fetched, (#[trigger] tmap[j]).0) && key_value(
            fetched,
            tmap[j].0,
        ) != tmap[j].1
}

/// The union of two association lists, the left one winning on shared
/// keys; the right one's new keys follow in their own order.
pub open spec fn union_keep_left(
    left: Seq<(Seq<char>, Seq<char>)>,
    right: Seq<(Seq<char>, Seq<char>)>,
) -> Seq<(Seq<char>, Seq<char>)>
    decreases right.len(),
{
    if right.len() == 0 {
        left
    } else {
        let rest = union_keep_left(left, right.drop_last());
        if has_key(left, right.last().0) {
            rest
        } else {
            rest.push(right.last())
        }
    }
}

/// The store path of one key under a service folder.
pub open spec fn store_key(pth: Seq<char>, k: Seq<char>) -> Seq<char> {
    pth + "/"@ + k
}

/// Every key of a list bound to one constant value.
pub open spec fn const_pairs(keys: Seq<Seq<char>>, v: Seq<char>) -> Seq<(Seq<char>, Seq<char>)> {
    keys.map_values(|k: Seq<char>| (k, v))
}

/// The deduplicated vault-sourced keys of a whole manifest.
pub open spec fn manifest_vault_keys(m: Manifest) -> Seq<Seq<char>> {
    dedup_keys(cat_vault_keys(env_views(m)))
}

/// The template map of a whole manifest: first bindings win.
pub open spec fn manifest_template_map(m: Manifest) -> Seq<(Seq<char>, Seq<char>)> {
    dedup_pairs(cat_templates(env_views(m)))
}

/// Whether the manifest's template outputs conflict.
pub open spec fn manifest_template_conflict(m: Manifest) -> bool {
    template_conflict(cat_templates(env_views(m)))
}

/// The secrets map reconciliation builds from a store: the store's value
/// for every vault-sourced key, then the template map's remaining keys.
pub open spec fn secrets_model(
    m: Manifest,
    store: Map<Seq<char>, Seq<char>>,
    pth: Seq<char>,
) -> Seq<(Seq<char>, Seq<char>)> {
    union_keep_left(
        manifest_vault_keys(m).map_values(|k: Seq<char>| (k, store[store_key(pth, k)])),
        manifest_template_map(m),
    )
}

/// Secret files after reconciliation against a store: sentinel values
/// replaced by the store's value for the file's key.
pub open spec fn files_model(
    files: Seq<(Seq<char>, Seq<char>)>,
    store: Map<Seq<char>, Seq<char>>,
    pth: Seq<char>,
) -> Seq<(Seq<char>, Seq<char>)> {
    files.map_values(
        |p: (Seq<char>, Seq<char>)|
            if p.1 == in_vault_marker() {
                (p.0, store[store_key(pth, p.0)])
            } else {
                p
            },
    )
}

/// The store a mocked handle simulates: the fixed value at every key.
pub open spec fn mocked_store() -> Map<Seq<char>, Seq<char>> {
    Map::total(|k: Seq<char>| mocked_secret_view())
}

/// A store-level reconciliation failure names the read of one declared
/// key — a vault-sourced env key or a sentinel file key — by its path or
/// its full URL, a status error's status lying outside the 2xx range.
pub open spec fn store_error_names_key(
    m: Manifest,
    client: Vault,
    vc: VaultConfig,
    e: VaultError,
) -> bool {
    exists|k: Seq<char>|
        #![trigger store_key(m.vault_path_view(vc), k)]
        (manifest_vault_keys(m).contains(k) || vault_keys_of(pairs_view(m.secretFiles@)).contains(
            k,
        )) && (match e {
            VaultError::InvalidSecretForm(p) => p@ == read_path_view(
                store_key(m.vault_path_view(vc), k),
            ),
            VaultError::Url(u) => u@ == request_url_view(
                client.addr@,
                read_path_view(store_key(m.vault_path_view(vc), k)),
            ),
            VaultError::UnexpectedHttpStatus(s, u) => !(200 <= s < 300) && u@
                == request_url_view(
                client.addr@,
                read_path_view(store_key(m.vault_path_view(vc), k)),
            ),
            _ => false,
        })
}

impl Manifest {
    /// The template outputs of every container, concatenated in the fixed
    /// container order.
    pub fn gather_templates(&self) -> (r: Vec<(String, String)>)
        ensures
            pairs_view(r@) == cat_templates(env_views(*self)),
    {
        let envs = self.get_env_vars();
        proof {
            self.lemma_env_views_agree(envs@);
        }
        let mut out: Vec<(String, String)> = Vec::new();
        let mut i: usize = 0;
        while i < envs.len()
            invariant
                i <= envs.len(),
                envs@.len() == env_views(*self).len(),
                forall|ii: int|
                    0 <= ii < envs@.len() ==> env_views(*self)[ii] == ((
                    #[trigger] envs@[ii]).plain_view(), envs@[ii].templated_view()),
                pairs_view(out@) =~= cat_templates(env_views(*self).take(i as int)),
            decreases envs.len() - i,
        {
            let ts = envs[i].template_secrets();
            let mut j: usize = 0;
            while j < ts.len()
                invariant
                    i < envs.len(),
                    j <= ts.len(),
                    envs@.len() == env_views(*self).len(),
                    pairs_view(ts@) == envs@[i as int].templated_view(),
                    envs@[i as int].templated_view() == env_views(*self)[i as int].1,
                    pairs_view(out@) =~= cat_templates(env_views(*self).take(i as int))
                        + envs@[i as int].templated_view().take(j as int),
                decreases ts.len() - j,
            {
                let p = (ts[j].0.clone(), ts[j].1.clone());
                assert(p.0 == ts@[j as int].0 && p.1 == ts@[j as int].1);
                let ghost prev = out@;
                out.push(p);
                proof {
                    lemma_pairs_view_push(prev, p);
                    assert(pairs_view(ts@)[j as int] == (ts@[j as int].0@, ts@[j as int].1@));
                    assert(pairs_view(out@) =~= cat_templates(env_views(*self).take(i as int))
                        + envs@[i as int].templated_view().take(j + 1));
                }
                j += 1;
            }
            proof {
                lemma_take_one_more(env_views(*self), i as int);
                assert(envs@[i as int].templated_view().take(
                    envs@[i as int].templated_view().len() as int,
                ) =~= envs@[i as int].templated_view());
                assert(env_views(*self).take(i + 1).drop_last() =~= env_views(*self).take(
                    i as int,
                ));
                assert(pairs_view(out@) =~= cat_templates(env_views(*self).take(i + 1)));
            }
            i += 1;
        }
        assert(env_views(*self).take(env_views(*self).len() as int) =~= env_views(*self));
        out
    }

    /// The vault-sourced keys of every container, concatenated in the
    /// fixed container order, repetitions included.
    pub fn gather_vault_keys(&self) -> (r: Vec<String>)
        ensures
            strs_view(r@) == cat_vault_keys(env_views(*self)),
    {
        let envs = self.get_env_vars();
        proof {
            self.lemma_env_views_agree(envs@);
        }
        let mut out: Vec<String> = Vec::new();
        let mut i: usize = 0;
        while i < envs.len()
            invariant
                i <= envs.len(),
                envs@.len() == env_views(*self).len(),
                forall|ii: int|
                    0 <= ii < envs@.len() ==> env_views(*self)[ii] == ((
                    #[trigger] envs@[ii]).plain_view(), envs@[ii].templated_view()),
                strs_view(out@) =~= cat_vault_keys(env_views(*self).take(i as int)),
            decreases envs.len() - i,
        {
            let ks = envs[i].vault_secrets();
            let ghost kv = vault_keys_of(envs@[i as int].plain_view());
            let mut j: usize = 0;
            while j < ks.len()
                invariant
                    i < envs.len(),
                    j <= ks.len(),
                    envs@.len() == env_views(*self).len(),
                    strs_view(ks@) == kv,
                    kv == vault_keys_of(env_views(*self)[i as int].0),
                    strs_view(out@) =~= cat_vault_keys(env_views(*self).take(i as int)) + kv.take(
                        j as int,
                    ),
                decreases ks.len() - j,
            {
                let ghost prev = out@;
                out.push(ks[j].clone());
                proof {
                    lemma_strs_view_push(prev, ks@[j as int]);
                    assert(strs_view(ks@)[j as int] == ks@[j as int]@);
                    assert(strs_view(out@) =~= cat_vault_keys(env_views(*self).take(i as int))
                        + kv.take(j + 1));
                }
                j += 1;
            }
            proof {
                lemma_take_one_more(env_views(*self), i as int);
                assert(kv.take(kv.len() as int) =~= kv);
                assert(env_views(*self).take(i + 1).drop_last() =~= env_views(*self).take(
                    i as int,
                ));
                assert(strs_view(out@) =~= cat_vault_keys(env_views(*self).take(i + 1)));
            }
            i += 1;
        }
        assert(env_views(*self).take(env_views(*self).len() as int) =~= env_views(*self));
        out
    }

    /// The views handed out by `get_env_vars` agree index by index with
    /// `env_views`.
    proof fn lemma_env_views_agree(self, envs: Seq<EnvVars>)
        requires
            envs.len() == 1 + self.sidecars@.len() + self.workers@.len() + self.cronJobs@.len(),
            envs[0].plain_view() == self.env.plain_view(),
            envs[0].templated_view() == self.env.templated_view(),
            forall|i: int|
                0 <= i < self.sidecars@.len() ==> (#[trigger] envs[1 + i]).plain_view()
                    == self.sidecars@[i].env.plain_view() && envs[1 + i].templated_view()
                    == self.sidecars@[i].env.templated_view(),
            forall|i: int|
                0 <= i < self.workers@.len() ==> (#[trigger] envs[1 + self.sidecars@.len()
                    + i]).plain_view() == self.workers@[i].env.plain_view() && envs[1
                    + self.sidecars@.len() + i].templated_view()
                    == self.workers@[i].env.templated_view(),
            forall|i: int|
                0 <= i < self.cronJobs@.len() ==> (#[trigger] envs[1 + self.sidecars@.len()
                    + self.workers@.len() + i]).plain_view()
                    == self.cronJobs@[i].env.plain_view() && envs[1 + self.sidecars@.len()
                    + self.workers@.len() + i].templated_view()
                    == self.cronJobs@[i].env.templated_view(),
        ensures
            envs.len() == env_views(self).len(),
            forall|i: int|
                0 <= i < envs.len() ==> env_views(self)[i] == ((#[trigger] envs[i]).plain_view(),
                envs[i].templated_view()),
    {
        let ns = self.sidecars@.len() as int;
        let nw = self.workers@.len() as int;
        let nc = self.cronJobs@.len() as int;
        assert(env_views(self).len() == 1 + ns + nw + nc);
        assert forall|i: int| 0 <= i < envs.len() implies env_views(self)[i] == ((
        #[trigger] envs[i]).plain_view(), envs[i].templated_view()) by {
            if i == 0 {
                assert(env_views(self)[0] == (self.env.plain_view(), self.env.templated_view()));
            } else if i < 1 + ns {
                let k = i - 1;
                assert(envs[1 + k].plain_view() == self.sidecars@[k].env.plain_view() && envs[1
                    + k].templated_view() == self.sidecars@[k].env.templated_view());
                assert(env_views(self)[i] == (self.sidecars@[k].env.plain_view(),
                self.sidecars@[k].env.templated_view()));
            } else if i < 1 + ns + nw {
                let k = i - 1 - ns;
                assert(envs[1 + ns + k].plain_view() == self.workers@[k].env.plain_view() && envs[
                    1 + ns + k].templated_view() == self.workers@[k].env.templated_view());
                assert(env_views(self)[i] == (self.workers@[k].env.plain_view(),
                self.workers@[k].env.templated_view()));
            } else {
                let k = i - 1 - ns - nw;
                assert(envs[1 + ns + nw + k].plain_view() == self.cronJobs@[k].env.plain_view()
                    && envs[1 + ns + nw + k].templated_view()
                    == self.cronJobs@[k].env.templated_view());
                assert(env_views(self)[i] == (self.cronJobs@[k].env.plain_view(),
                self.cronJobs@[k].env.templated_view()));
            }
        }
    }
}

/// Removes later repetitions from a key list, keeping first occurrences
/// in order.
pub fn dedup_key_list(keys: &Vec<String>) -> (r: Vec<String>)
    ensures
        strs_view(r@) == dedup_keys(strs_view(keys@)),
{
    let ghost all = strs_view(keys@);
    let mut out: Vec<String> = Vec::new();
    let mut i: usize = 0;
    while i < keys.len()
        invariant
            i <= keys.len(),
            all == strs_view(keys@),
            strs_view(out@) =~= dedup_keys(all.take(i as int)),
        decreases keys.len() - i,
    {
        proof {
            lemma_take_one_more(all, i as int);
            assert(all[i as int] == keys@[i as int]@);
            assert(all.take(i + 1).drop_last() =~= all.take(i as int));
            assert(all.take(i + 1).last() == all[i as int]);
        }
        if !contains_str(&out, &keys[i]) {
            let ghost prev = out@;
            out.push(keys[i].clone());
            proof {
                lemma_strs_view_push(prev, keys@[i as int]);
            }
        }
        i += 1;
    }
    assert(all.take(keys.len() as int) =~= all);
    out
}

/// A deduplicated key list holds each key once.
pub proof fn lemma_dedup_keys_distinct(s: Seq<Seq<char>>)
    ensures
        forall|i: int, j: int|
            0 <= i < j < dedup_keys(s).len() ==> dedup_keys(s)[i] != dedup_keys(s)[j],
    decreases s.len(),
{
    if s.len() > 0 {
        lemma_dedup_keys_distinct(s.drop_last());
        let rest = dedup_keys(s.drop_last());
        if !rest.contains(s.last()) {
            assert(dedup_keys(s) == rest.push(s.last()));
            assert forall|i: int, j: int| 0 <= i < j < dedup_keys(s).len() implies dedup_keys(
                s,
            )[i] != dedup_keys(s)[j] by {
                if j < rest.len() {
                    assert(dedup_keys(s)[i] == rest[i] && dedup_keys(s)[j] == rest[j]);
                } else {
                    assert(dedup_keys(s)[j] == s.last());
                    assert(dedup_keys(s)[i] == rest[i]);
                    if rest[i] == s.last() {
                        assert(rest.contains(s.last()));
                    }
                }
            }
        }
    }
}

/// A deduplicated association list binds each key once.
pub proof fn lemma_dedup_pairs_unique_keys(s: Seq<(Seq<char>, Seq<char>)>)
    ensures
        crate::strutil::unique_keys(dedup_pairs(s)),
    decreases s.len(),
{
    if s.len() > 0 {
        lemma_dedup_pairs_unique_keys(s.drop_last());
        let rest = dedup_pairs(s.drop_last());
        if !has_key(rest, s.last().0) {
            assert(dedup_pairs(s) == rest.push(s.last()));
            assert forall|i: int, j: int| 0 <= i < j < dedup_pairs(s).len() implies (
            #[trigger] dedup_pairs(s)[i]).0 != (#[trigger] dedup_pairs(s)[j]).0 by {
                if j < rest.len() {
                    assert(dedup_pairs(s)[i] == rest[i] && dedup_pairs(s)[j] == rest[j]);
                } else {
                    assert(dedup_pairs(s)[j] == s.last());
                    assert(dedup_pairs(s)[i] == rest[i]);
                    if rest[i].0 == s.last().0 {
                        assert(has_key(rest, s.last().0));
                    }
                }
            }
        }
    }
}

/// A union of two uniquely-keyed lists is uniquely keyed, and every
/// entry's key comes from one of the two sides.
pub proof fn lemma_union_keys_unique(
    left: Seq<(Seq<char>, Seq<char>)>,
    right: Seq<(Seq<char>, Seq<char>)>,
)
    requires
        crate::strutil::unique_keys(left),
        crate::strutil::unique_keys(right),
    ensures
        crate::strutil::unique_keys(union_keep_left(left, right)),
        forall|t: int|
            0 <= t < union_keep_left(left, right).len() ==> has_key(
                left,
                (#[trigger] union_keep_left(left, right)[t]).0,
            ) || has_key(right, union_keep_left(left, right)[t].0),
    decreases right.len(),
{
    let u = union_keep_left(left, right);
    if right.len() == 0 {
        assert(u == left);
        assert forall|t: int| 0 <= t < u.len() implies has_key(left, (#[trigger] u[t]).0)
            || has_key(right, u[t].0) by {
            assert(left[t].0 == u[t].0);
            assert(has_key(left, u[t].0));
        }
    } else {
        let rd = right.drop_last();
        let p = right.last();
        assert forall|i: int, j: int| 0 <= i < j < rd.len() implies (#[trigger] rd[i]).0 != (
        #[trigger] rd[j]).0 by {
            assert(rd[i] == right[i] && rd[j] == right[j]);
        }
        lemma_union_keys_unique(left, rd);
        let ur = union_keep_left(left, rd);
        if has_key(left, p.0) {
            assert(u == ur);
            assert forall|t: int| 0 <= t < u.len() implies has_key(left, (#[trigger] u[t]).0)
                || has_key(right, u[t].0) by {
                if has_key(rd, u[t].0) {
                    let w = choose|w: int| 0 <= w < rd.len() && rd[w].0 == u[t].0;
                    assert(right[w] == rd[w]);
                    assert(has_key(right, u[t].0));
                }
            }
        } else {
            assert(u == ur.push(p));
            assert forall|i: int, j: int| 0 <= i < j < u.len() implies (#[trigger] u[i]).0 != (
            #[trigger] u[j]).0 by {
                if j < ur.len() {
                    assert(u[i] == ur[i] && u[j] == ur[j]);
                } else {
                    assert(u[j] == p);
                    assert(u[i] == ur[i]);
                    if ur[i].0 == p.0 {
                        if has_key(left, ur[i].0) {
                        } else {
                            assert(has_key(rd, ur[i].0));
                            let w = choose|w: int| 0 <= w < rd.len() && rd[w].0 == ur[i].0;
                            assert(right[w] == rd[w]);
                            assert(right[w].0 == right[right.len() - 1].0);
                        }
                    }
                }
            }
            assert forall|t: int| 0 <= t < u.len() implies has_key(left, (#[trigger] u[t]).0)
                || has_key(right, u[t].0) by {
                if t < ur.len() {
                    assert(u[t] == ur[t]);
                    if has_key(rd, u[t].0) {
                        let w = choose|w: int| 0 <= w < rd.len() && rd[w].0 == u[t].0;
                        assert(right[w] == rd[w]);
                        assert(has_key(right, u[t].0));
                    }
                } else {
                    assert(u[t] == p);
                    assert(right[right.len() - 1] == p);
                    assert(has_key(right, p.0));
                }
            }
        }
    }
}

/// Secret files with sentinel values replaced by the fetched values,
/// looked up by key; a file whose key was not fetched keeps the sentinel.
pub open spec fn files_apply(
    files: Seq<(Seq<char>, Seq<char>)>,
    fetched: Seq<(Seq<char>, Seq<char>)>,
) -> Seq<(Seq<char>, Seq<char>)> {
    files.map_values(
        |p: (Seq<char>, Seq<char>)|
            if p.1 == in_vault_marker() && has_key(fetched, p.0) {
                (p.0, key_value(fetched, p.0))
            } else {
                p
            },
    )
}

/// A sentinel-valued entry's key is among the vault keys of its list.
pub proof fn lemma_vault_keys_contains(s: Seq<(Seq<char>, Seq<char>)>, i: int)
    requires
        0 <= i < s.len(),
        s[i].1 == in_vault_marker(),
    ensures
        vault_keys_of(s).contains(s[i].0),
    decreases s.len(),
{
    if i == s.len() - 1 {
        assert(vault_keys_of(s) == vault_keys_of(s.drop_last()).push(s[i].0));
        assert(vault_keys_of(s)[vault_keys_of(s).len() - 1] == s[i].0);
    } else {
        lemma_vault_keys_contains(s.drop_last(), i);
        let rest = vault_keys_of(s.drop_last());
        let w = choose|j: int| 0 <= j < rest.len() && rest[j] == s.drop_last()[i].0;
        if s.last().1 == in_vault_marker() {
            assert(vault_keys_of(s)[w] == s[i].0);
        } else {
            assert(vault_keys_of(s)[w] == s[i].0);
        }
    }
}

/// Looking a key up in a constant-valued list finds that constant.
pub proof fn lemma_const_pairs_lookup(keys: Seq<Seq<char>>, v: Seq<char>, k: Seq<char>)
    requires
        keys.contains(k),
    ensures
        has_key(const_pairs(keys, v), k),
        key_value(const_pairs(keys, v), k) == v,
    decreases keys.len(),
{
    let cp = const_pairs(keys, v);
    let w = choose|j: int| 0 <= j < keys.len() && keys[j] == k;
    assert(cp[w] == (k, v));
    assert(has_key(cp, k));
    if keys[0] == k {
        assert(cp[0] == (k, v));
        assert(key_value(cp, k) == v);
    } else {
        assert(cp[0].0 != k);
        assert(cp.drop_first() =~= const_pairs(keys.drop_first(), v));
        assert(keys.drop_first()[w - 1] == k);
        assert(keys.drop_first().contains(k));
        lemma_const_pairs_lookup(keys.drop_first(), v, k);
        assert(key_value(cp, k) == key_value(cp.drop_first(), k));
    }
}

/// Builds the template map from the concatenated template outputs: first
/// bindings win, and a later binding of a key to a different value is a
/// conflict naming that key.
#[verifier::rlimit(100)]
pub fn build_template_map(pairs: &Vec<(String, String)>) -> (r: Result<
    Vec<(String, String)>,
    SecretError,
>)
    ensures
        template_conflict(pairs_view(pairs@)) <==> r is Err,
        r matches Err(e) ==> (e matches SecretError::TemplateConflict(k) && (exists|j: int|
            0 <= j < pairs_view(pairs@).len() && (#[trigger] pairs_view(pairs@)[j]).0 == k@
                && pairs_view(pairs@)[j].1 != key_value(pairs_view(pairs@), k@))),
        r matches Ok(m) ==> pairs_view(m@) == dedup_pairs(pairs_view(pairs@)),
{
    let ghost all = pairs_view(pairs@);
    let mut out: Vec<(String, String)> = Vec::new();
    let mut i: usize = 0;
    while i < pairs.len()
        invariant
            i <= pairs.len(),
            all == pairs_view(pairs@),
            pairs_view(out@) =~= dedup_pairs(all.take(i as int)),
            !template_conflict(all.take(i as int)),
        decreases pairs.len() - i,
    {
        proof {
            lemma_take_one_more(all, i as int);
            assert(all[i as int] == (pairs@[i as int].0@, pairs@[i as int].1@));
            assert(all.take(i + 1).drop_last() =~= all.take(i as int));
            assert(all.take(i + 1).last() == all[i as int]);
        }
        match find_value(&out, &pairs[i].0) {
            Some(w) => {
                if !(w == pairs[i].1) {
                    proof {
                        assert(has_key(dedup_pairs(all.take(i as int)), all[i as int].0)
                            && key_value(dedup_pairs(all.take(i as int)), all[i as int].0)
                            != all[i as int].1);
                        assert(template_conflict(all.take(i + 1)));
                        lemma_template_conflict_prefix(all, i + 1);
                        lemma_dedup_pairs_lookup(all.take(i as int), all[i as int].0);
                        crate::strutil::lemma_key_value_prefix(all, all[i as int].0, i as int);
                        assert(all[i as int].1 != key_value(all, all[i as int].0));
                    }
                    return Err(SecretError::TemplateConflict(pairs[i].0.clone()));
                }
                assert(!template_conflict(all.take(i + 1)));
            },
            None => {
                let p = (pairs[i].0.clone(), pairs[i].1.clone());
                assert(p.0 == pairs@[i as int].0 && p.1 == pairs@[i as int].1);
                let ghost prev = out@;
                out.push(p);
                proof {
                    lemma_pairs_view_push(prev, p);
                    assert(!template_conflict(all.take(i + 1)));
                }
            },
        }
        i += 1;
    }
    proof {
        assert(all.take(pairs.len() as int) =~= all);
        assert(!template_conflict(all));
    }
    Ok(out)
}

impl Manifest {
    /// The secret-file keys whose value is the vault sentinel, in order.
    pub fn vault_file_keys(&self) -> (r: Vec<String>)
        ensures
            strs_view(r@) == vault_keys_of(pairs_view(self.secretFiles@)),
    {
        let ghost all = pairs_view(self.secretFiles@);
        let mut out: Vec<String> = Vec::new();
        let mut i: usize = 0;
        while i < self.secretFiles.len()
            invariant
                i <= self.secretFiles.len(),
                all == pairs_view(self.secretFiles@),
                strs_view(out@) == vault_keys_of(all.take(i as int)),
            decreases self.secretFiles.len() - i,
        {
            proof {
                assert(all.take(i + 1).drop_last() =~= all.take(i as int));
                assert(all.take(i + 1).last() == all[i as int]);
                assert(all[i as int] == (self.secretFiles@[i as int].0@,
                self.secretFiles@[i as int].1@));
            }
            if crate::strutil::str_is(&self.secretFiles[i].1, "IN_VAULT") {
                let ghost prev = out@;
                out.push(self.secretFiles[i].0.clone());
                proof {
                    lemma_strs_view_push(prev, self.secretFiles@[i as int].0);
                    assert(strs_view(out@) =~= vault_keys_of(all.take(i + 1)));
                }
            } else {
                assert(strs_view(out@) =~= vault_keys_of(all.take(i + 1)));
            }
            i += 1;
        }
        assert(all.take(self.secretFiles.len() as int) =~= all);
        out
    }

    /// Fills the secrets map from the fetched store values and the
    /// template map: the store's values first, then the templates' new
    /// keys. A key in both with disagreeing values is a conflict naming
    /// that key; with agreeing values the one value is kept.
    pub fn apply_fetched(
        &mut self,
        fetched: &Vec<(String, String)>,
        tmap: &Vec<(String, String)>,
    ) -> (r: Result<(), SecretError>)
        ensures
            *final(self) == (Manifest { secrets: final(self).secrets, ..*old(self) }),
            source_conflict(pairs_view(fetched@), pairs_view(tmap@)) <==> r is Err,
            r is Err ==> *final(self) == *old(self),
            r matches Err(e) ==> (e matches SecretError::SourceConflict(k) && (exists|j: int|
                0 <= j < pairs_view(tmap@).len() && (#[trigger] pairs_view(tmap@)[j]).0 == k@
                    && has_key(pairs_view(fetched@), k@) && key_value(pairs_view(fetched@), k@)
                    != pairs_view(tmap@)[j].1)),
            r is Ok ==> pairs_view(final(self).secrets@) == union_keep_left(
                pairs_view(fetched@),
                pairs_view(tmap@),
            ),
    {
        let ghost fv = pairs_view(fetched@);
        let ghost tv = pairs_view(tmap@);
        let mut i: usize = 0;
        while i < tmap.len()
            invariant
                i <= tmap.len(),
                *self == *old(self),
                fv == pairs_view(fetched@),
                tv == pairs_view(tmap@),
                forall|j: int|
                    0 <= j < i ==> !(has_key(fv, (#[trigger] tv[j]).0) && key_value(fv, tv[j].0)
                        != tv[j].1),
            decreases tmap.len() - i,
        {
            proof {
                assert(tv[i as int] == (tmap@[i as int].0@, tmap@[i as int].1@));
            }
            match find_value(fetched, &tmap[i].0) {
                Some(w) => {
                    if !(w == tmap[i].1) {
                        proof {
                            assert(has_key(fv, tv[i as int].0) && key_value(fv, tv[i as int].0)
                                != tv[i as int].1);
                            assert(source_conflict(fv, tv));
                        }
                        return Err(SecretError::SourceConflict(tmap[i].0.clone()));
                    }
                },
                None => {},
            }
            i += 1;
        }
        assert(!source_conflict(fv, tv));
        let mut out = clone_pairs(fetched);
        let mut i: usize = 0;
        while i < tmap.len()
            invariant
                i <= tmap.len(),
                fv == pairs_view(fetched@),
                tv == pairs_view(tmap@),
                pairs_view(out@) =~= union_keep_left(fv, tv.take(i as int)),
            decreases tmap.len() - i,
        {
            proof {
                assert(tv.take(i + 1).drop_last() =~= tv.take(i as int));
                assert(tv.take(i + 1).last() == tv[i as int]);
                assert(tv[i as int] == (tmap@[i as int].0@, tmap@[i as int].1@));
            }
            match find_value(fetched, &tmap[i].0) {
                Some(_) => {
                    assert(pairs_view(out@) =~= union_keep_left(fv, tv.take(i + 1)));
                },
                None => {
                    let p = (tmap[i].0.clone(), tmap[i].1.clone());
                    assert(p.0 == tmap@[i as int].0 && p.1 == tmap@[i as int].1);
                    let ghost prev = out@;
                    out.push(p);
                    proof {
                        lemma_pairs_view_push(prev, p);
                        assert(pairs_view(out@) =~= union_keep_left(fv, tv.take(i + 1)));
                    }
                },
            }
            i += 1;
        }
        assert(tv.take(tmap.len() as int) =~= tv);
        self.secrets = out;
        Ok(())
    }

    /// Replaces sentinel secret-file values by the fetched store values
    /// and checks that every resulting value is base64; a file whose
    /// resolved value is not is an error naming it. The files are left in
    /// their resolved state either way.
    pub fn apply_file_values(&mut self, fetched: &Vec<(String, String)>) -> (r: Result<
        (),
        SecretError,
    >)
        ensures
            *final(self) == (Manifest { secretFiles: final(self).secretFiles, ..*old(self) }),
            pairs_view(final(self).secretFiles@) == files_apply(
                pairs_view(old(self).secretFiles@),
                pairs_view(fetched@),
            ),
            (r is Ok <==> forall|i: int|
                0 <= i < old(self).secretFiles@.len() ==> base64_decodable(
                    (#[trigger] files_apply(
                        pairs_view(old(self).secretFiles@),
                        pairs_view(fetched@),
                    )[i]).1,
                )),
            (r is Ok <==> forall|i: int|
                0 <= i < final(self).secretFiles@.len() ==> base64_decodable(
                    (#[trigger] pairs_view(final(self).secretFiles@)[i]).1,
                )),
            r matches Err(e) ==> (e matches SecretError::NotBase64(k) && has_key(
                pairs_view(old(self).secretFiles@),
                k@,
            )),
    {
        let ghost fv = pairs_view(fetched@);
        let ghost oldfiles = pairs_view(self.secretFiles@);
        let ghost goal = files_apply(oldfiles, fv);
        let mut newfiles: Vec<(String, String)> = Vec::new();
        let mut i: usize = 0;
        while i < self.secretFiles.len()
            invariant
                i <= self.secretFiles.len(),
                fv == pairs_view(fetched@),
                oldfiles == pairs_view(self.secretFiles@),
                goal == files_apply(oldfiles, fv),
                pairs_view(newfiles@) =~= goal.take(i as int),
            decreases self.secretFiles.len() - i,
        {
            proof {
                assert(oldfiles[i as int] == (self.secretFiles@[i as int].0@,
                self.secretFiles@[i as int].1@));
                assert(goal[i as int] == (if oldfiles[i as int].1 == in_vault_marker()
                    && has_key(fv, oldfiles[i as int].0) {
                    (oldfiles[i as int].0, key_value(fv, oldfiles[i as int].0))
                } else {
                    oldfiles[i as int]
                }));
            }
            let ghost prev = newfiles@;
            if crate::strutil::str_is(&self.secretFiles[i].1, "IN_VAULT") {
                match find_value(fetched, &self.secretFiles[i].0) {
                    Some(v) => {
                        let p = (self.secretFiles[i].0.clone(), v);
                        newfiles.push(p);
                        proof {
                            lemma_pairs_view_push(prev, p);
                            assert(pairs_view(newfiles@) =~= goal.take(i + 1));
                        }
                    },
                    None => {
                        let p = (self.secretFiles[i].0.clone(), self.secretFiles[i].1.clone());
                        assert(p.0 == self.secretFiles@[i as int].0 && p.1
                            == self.secretFiles@[i as int].1);
                        newfiles.push(p);
                        proof {
                            lemma_pairs_view_push(prev, p);
                            assert(pairs_view(newfiles@) =~= goal.take(i + 1));
                        }
                    },
                }
            } else {
                let p = (self.secretFiles[i].0.clone(), self.secretFiles[i].1.clone());
                assert(p.0 == self.secretFiles@[i as int].0 && p.1
                    == self.secretFiles@[i as int].1);
                newfiles.push(p);
                proof {
                    lemma_pairs_view_push(prev, p);
                    assert(pairs_view(newfiles@) =~= goal.take(i + 1));
                }
            }
            i += 1;
        }
        assert(goal.take(old(self).secretFiles@.len() as int) =~= goal);
        self.secretFiles = newfiles;
        assert(pairs_view(final(self).secretFiles@) =~= goal);
        let mut j: usize = 0;
        while j < self.secretFiles.len()
            invariant
                j <= self.secretFiles.len(),
                *self == (Manifest { secretFiles: self.secretFiles, ..*old(self) }),
                pairs_view(self.secretFiles@) == goal,
                goal == files_apply(pairs_view(old(self).secretFiles@), pairs_view(fetched@)),
                goal.len() == old(self).secretFiles@.len(),
                forall|jj: int| 0 <= jj < j ==> base64_decodable((#[trigger] goal[jj]).1),
            decreases self.secretFiles.len() - j,
        {
            proof {
                assert(goal[j as int] == (self.secretFiles@[j as int].0@,
                self.secretFiles@[j as int].1@));
            }
            if !base64_check(&self.secretFiles[j].1) {
                proof {
                    assert(!base64_decodable(goal[j as int].1));
                    assert(goal[j as int].0 == pairs_view(old(self).secretFiles@)[j as int].0);
                    assert(has_key(
                        pairs_view(old(self).secretFiles@),
                        self.secretFiles@[j as int].0@,
                    ));
                }
                return Err(SecretError::NotBase64(self.secretFiles[j].0.clone()));
            }
            j += 1;
        }
        Ok(())
    }
}

/// What reconciliation yields against the mocked store: the conflicts
/// and base64 failures are decided against the constant value, and on
/// success the secrets map and the files are exactly the model's.
pub open spec fn mocked_outcome(
    m: Manifest,
    m2: Manifest,
    vc: VaultConfig,
    r: Result<(), SecretError>,
) -> bool {
    let pth = m.vault_path_view(vc);
    let fetched = const_pairs(manifest_vault_keys(m), mocked_secret_view());
    let ffiles = files_apply(
        pairs_view(m.secretFiles@),
        const_pairs(vault_keys_of(pairs_view(m.secretFiles@)), mocked_secret_view()),
    );
    &&& (!manifest_template_conflict(m) ==> ((r is Ok) <==> (!source_conflict(
        fetched,
        manifest_template_map(m),
    ) && (forall|i: int|
        0 <= i < ffiles.len() ==> base64_decodable((#[trigger] ffiles[i]).1)))))
    &&& (r is Ok ==> pairs_view(m2.secrets@) == secrets_model(m, mocked_store(), pth))
    &&& (r is Ok ==> pairs_view(m2.secretFiles@) == files_model(
        pairs_view(m.secretFiles@),
        mocked_store(),
        pth,
    ))
}

impl Manifest {
    /// Populate the secrets map and the secret files with values from
    /// the store: collect the vault-sourced keys and the template map
    /// across every container, fetch each key once under this service's
    /// folder, and apply the results.
    ///
    /// The template-conflict outcome is exact in every mode. In mocked
    /// mode the whole result is pinned against the constant store; of a
    /// live store's values nothing more can be promised.
    pub fn secrets(&mut self, client: &Vault, vc: &VaultConfig) -> (r: Result<(), SecretError>)
        ensures
            *final(self) == (Manifest {
                secrets: final(self).secrets,
                secretFiles: final(self).secretFiles,
                ..*old(self)
            }),
            manifest_template_conflict(*old(self)) <==> (r matches Err(
                SecretError::TemplateConflict(_),
            )),
            r matches Err(SecretError::TemplateConflict(k)) ==> (*final(self) == *old(self) && (
            exists|j: int|
                0 <= j < cat_templates(env_views(*old(self))).len() && (#[trigger] cat_templates(
                    env_views(*old(self)),
                )[j]).0 == k@ && cat_templates(env_views(*old(self)))[j].1 != key_value(
                    cat_templates(env_views(*old(self))),
                    k@,
                ))),
            r matches Err(SecretError::SourceConflict(k)) ==> (*final(self) == *old(self)
                && has_key(manifest_template_map(*old(self)), k@) && manifest_vault_keys(
                *old(self),
            ).contains(k@)),
            r is Ok ==> (exists|fetched: Seq<(Seq<char>, Seq<char>)>|
                #![trigger union_keep_left(fetched, manifest_template_map(*old(self)))]
                fetched.len() == manifest_vault_keys(*old(self)).len() && (forall|j: int|
                    0 <= j < fetched.len() ==> (#[trigger] fetched[j]).0 == manifest_vault_keys(
                        *old(self),
                    )[j]) && pairs_view(final(self).secrets@) == union_keep_left(
                    fetched,
                    manifest_template_map(*old(self)),
                )),
            r is Ok ==> (exists|ffetched: Seq<(Seq<char>, Seq<char>)>|
                #![trigger files_apply(pairs_view(old(self).secretFiles@), ffetched)]
                ffetched.len() == vault_keys_of(pairs_view(old(self).secretFiles@)).len() && (
                forall|j: int|
                    0 <= j < ffetched.len() ==> (#[trigger] ffetched[j]).0 == vault_keys_of(
                        pairs_view(old(self).secretFiles@),
                    )[j]) && pairs_view(final(self).secretFiles@) == files_apply(
                    pairs_view(old(self).secretFiles@),
                    ffetched,
                )),
            r is Ok ==> crate::strutil::unique_keys(pairs_view(final(self).secrets@)),
            r is Ok ==> (forall|i: int|
                0 <= i < final(self).secretFiles@.len() ==> base64_decodable(
                    (#[trigger] pairs_view(final(self).secretFiles@)[i]).1,
                )),
            r matches Err(SecretError::NotBase64(k)) ==> has_key(
                pairs_view(old(self).secretFiles@),
                k@,
            ),
            r matches Err(SecretError::Store(e)) ==> store_error_names_key(
                *old(self),
                *client,
                *vc,
                e,
            ),
            r matches Err(e) ==> !(e matches SecretError::MissingSecret(_) || e
                matches SecretError::MissingSecretFile(_)),
            (!manifest_template_conflict(*old(self)) && manifest_vault_keys(*old(self)).len()
                == 0 && vault_keys_of(pairs_view(old(self).secretFiles@)).len() == 0 && (forall|
                i: int,
            |
                0 <= i < old(self).secretFiles@.len() ==> base64_decodable(
                    (#[trigger] pairs_view(old(self).secretFiles@)[i]).1,
                ))) ==> r is Ok,
    {
        let ghost m0 = *self;
        let pth = self.get_vault_path(vc);
        let templates = self.gather_templates();
        let tmap = match build_template_map(&templates) {
            Ok(m) => m,
            Err(e) => {
                return Err(e);
            },
        };
        let raw_keys = self.gather_vault_keys();
        let vkeys = dedup_key_list(&raw_keys);
        let ghost vkv = strs_view(vkeys@);
        assert(vkv == manifest_vault_keys(m0));
        let mut fetched: Vec<(String, String)> = Vec::new();
        let mut i: usize = 0;
        while i < vkeys.len()
            invariant
                i <= vkeys.len(),
                *self == m0,
                m0 == *old(self),
                !manifest_template_conflict(m0),
                vkv == strs_view(vkeys@),
                vkv == manifest_vault_keys(m0),
                pth@ == m0.vault_path_view(*vc),
                pairs_view(fetched@).len() == i,
                forall|j: int|
                    0 <= j < i ==> (#[trigger] pairs_view(fetched@)[j]).0 == vkv[j],
                client.mode == Mode::Mocked ==> pairs_view(fetched@) =~= const_pairs(
                    vkv.take(i as int),
                    mocked_secret_view(),
                ),
            decreases vkeys.len() - i,
        {
            let vkey = pth.clone().concat("/").concat(vkeys[i].as_str());
            match client.read(&vkey) {
                Ok(v) => {
                    let p = (vkeys[i].clone(), v);
                    let ghost prev = fetched@;
                    fetched.push(p);
                    proof {
                        lemma_pairs_view_push(prev, p);
                        assert(vkv[i as int] == vkeys@[i as int]@);
                        if client.mode == Mode::Mocked {
                            assert(pairs_view(fetched@) =~= const_pairs(
                                vkv.take(i + 1),
                                mocked_secret_view(),
                            ));
                        }
                    }
                },
                Err(e) => {
                    proof {
                        assert(vkv[i as int] == vkeys@[i as int]@);
                        assert(manifest_vault_keys(m0).contains(vkv[i as int]));
                        assert(store_key(m0.vault_path_view(*vc), vkv[i as int]) == vkey@);
                        assert(store_error_names_key(m0, *client, *vc, e));
                    }
                    return Err(SecretError::Store(e));
                },
            }
            i += 1;
        }
        proof {
            if client.mode == Mode::Mocked {
                assert(vkv.take(vkeys@.len() as int) =~= vkv);
            }
        }
        proof {
            assert forall|kk: Seq<char>| has_key(pairs_view(fetched@), kk) implies vkv.contains(
                kk,
            ) by {
                let jj = choose|jj: int|
                    0 <= jj < pairs_view(fetched@).len() && pairs_view(fetched@)[jj].0 == kk;
                assert(pairs_view(fetched@)[jj].0 == vkv[jj]);
            }
        }
        match self.apply_fetched(&fetched, &tmap) {
            Ok(_) => {},
            Err(e) => {
                proof {
                    if manifest_vault_keys(m0).len() == 0 {
                        assert forall|j: int| 0 <= j < pairs_view(tmap@).len() implies !has_key(
                            pairs_view(fetched@),
                            (#[trigger] pairs_view(tmap@)[j]).0,
                        ) by {
                            if has_key(pairs_view(fetched@), pairs_view(tmap@)[j].0) {
                                let w = choose|w: int|
                                    0 <= w < pairs_view(fetched@).len() && pairs_view(
                                        fetched@,
                                    )[w].0 == pairs_view(tmap@)[j].0;
                            }
                        }
                        assert(!source_conflict(pairs_view(fetched@), pairs_view(tmap@)));
                    }
                }
                return Err(e);
            },
        }
        let fkeys = self.vault_file_keys();
        let ghost fkv = strs_view(fkeys@);
        assert(fkv == vault_keys_of(pairs_view(m0.secretFiles@)));
        let mut ffetched: Vec<(String, String)> = Vec::new();
        let mut i: usize = 0;
        while i < fkeys.len()
            invariant
                i <= fkeys.len(),
                *self == (Manifest { secrets: self.secrets, ..m0 }),
                m0 == *old(self),
                !manifest_template_conflict(m0),
                fkv == strs_view(fkeys@),
                fkv == vault_keys_of(pairs_view(m0.secretFiles@)),
                pth@ == m0.vault_path_view(*vc),
                pairs_view(ffetched@).len() == i,
                forall|j: int|
                    0 <= j < i ==> (#[trigger] pairs_view(ffetched@)[j]).0 == fkv[j],
                client.mode == Mode::Mocked ==> pairs_view(ffetched@) =~= const_pairs(
                    fkv.take(i as int),
                    mocked_secret_view(),
                ),
            decreases fkeys.len() - i,
        {
            let vkey = pth.clone().concat("/").concat(fkeys[i].as_str());
            match client.read(&vkey) {
                Ok(v) => {
                    let p = (fkeys[i].clone(), v);
                    let ghost prev = ffetched@;
                    ffetched.push(p);
                    proof {
                        lemma_pairs_view_push(prev, p);
                        assert(fkv[i as int] == fkeys@[i as int]@);
                        if client.mode == Mode::Mocked {
                            assert(pairs_view(ffetched@) =~= const_pairs(
                                fkv.take(i + 1),
                                mocked_secret_view(),
                            ));
                        }
                    }
                },
                Err(e) => {
                    proof {
                        assert(fkv[i as int] == fkeys@[i as int]@);
                        assert(vault_keys_of(pairs_view(m0.secretFiles@)).contains(
                            fkv[i as int],
                        ));
                        assert(store_key(m0.vault_path_view(*vc), fkv[i as int]) == vkey@);
                        assert(store_error_names_key(m0, *client, *vc, e));
                    }
                    return Err(SecretError::Store(e));
                },
            }
            i += 1;
        }
        proof {
            if client.mode == Mode::Mocked {
                assert(fkv.take(fkeys@.len() as int) =~= fkv);
            }
        }
        let ghost files_before = pairs_view(self.secretFiles@);
        proof {
            assert(files_before == pairs_view(m0.secretFiles@));
        }
        let rfiles = self.apply_file_values(&ffetched);
        proof {
            if client.mode == Mode::Mocked {
                lemma_mocked_models(m0, *vc);
            }
            let fv = pairs_view(fetched@);
            let ffv = pairs_view(ffetched@);
            assert(union_keep_left(fv, manifest_template_map(m0)) == pairs_view(
                self.secrets@,
            ));
            assert(files_apply(pairs_view(m0.secretFiles@), ffv) == pairs_view(
                self.secretFiles@,
            ));
            lemma_dedup_keys_distinct(cat_vault_keys(env_views(m0)));
            lemma_dedup_pairs_unique_keys(cat_templates(env_views(m0)));
            assert forall|a: int, b: int| 0 <= a < b < fv.len() implies (#[trigger] fv[a]).0 != (
            #[trigger] fv[b]).0 by {
                assert(fv[a].0 == vkv[a] && fv[b].0 == vkv[b]);
            }
            lemma_union_keys_unique(fv, pairs_view(tmap@));
            if !manifest_template_conflict(m0) && manifest_vault_keys(m0).len() == 0
                && vault_keys_of(pairs_view(m0.secretFiles@)).len() == 0 && (forall|ii: int|
                0 <= ii < m0.secretFiles@.len() ==> base64_decodable(
                    (#[trigger] pairs_view(m0.secretFiles@)[ii]).1,
                )) {
                assert(ffv.len() == 0);
                assert(pairs_view(m0.secretFiles@).len() == m0.secretFiles@.len());
                assert(files_apply(pairs_view(m0.secretFiles@), ffv).len() == pairs_view(
                    m0.secretFiles@,
                ).len());
                assert(pairs_view(self.secretFiles@).len() == self.secretFiles@.len());
                assert forall|ii: int|
                    0 <= ii < self.secretFiles@.len() implies base64_decodable(
                    (#[trigger] pairs_view(self.secretFiles@)[ii]).1,
                ) by {
                    assert(pairs_view(self.secretFiles@)[ii] == files_apply(
                        pairs_view(m0.secretFiles@),
                        ffv,
                    )[ii]);
                    if has_key(ffv, pairs_view(m0.secretFiles@)[ii].0) {
                        let w = choose|w: int|
                            0 <= w < ffv.len() && ffv[w].0 == pairs_view(
                                m0.secretFiles@,
                            )[ii].0;
                    }
                    assert(files_apply(pairs_view(m0.secretFiles@), ffv)[ii] == pairs_view(
                        m0.secretFiles@,
                    )[ii]);
                }
                assert(rfiles is Ok);
            }
        }
        match rfiles {
            Ok(_) => Ok(()),
            Err(e) => Err(e),
        }
    }
}

/// Against the constant store, the fetched constant pairs yield exactly
/// the model's secrets map, and applying them to the files yields
/// exactly the model's files.
pub proof fn lemma_mocked_models(m: Manifest, vc: VaultConfig)
    ensures
        union_keep_left(
            const_pairs(manifest_vault_keys(m), mocked_secret_view()),
            manifest_template_map(m),
        ) == secrets_model(m, mocked_store(), m.vault_path_view(vc)),
        files_apply(
            pairs_view(m.secretFiles@),
            const_pairs(vault_keys_of(pairs_view(m.secretFiles@)), mocked_secret_view()),
        ) == files_model(pairs_view(m.secretFiles@), mocked_store(), m.vault_path_view(vc)),
{
    let pth = m.vault_path_view(vc);
    let vk = manifest_vault_keys(m);
    assert(const_pairs(vk, mocked_secret_view()) =~~= vk.map_values(
        |k: Seq<char>| (k, mocked_store()[store_key(pth, k)]),
    )) by {
        assert forall|i: int| 0 <= i < vk.len() implies (#[trigger] const_pairs(
            vk,
            mocked_secret_view(),
        )[i]) == vk.map_values(|k: Seq<char>| (k, mocked_store()[store_key(pth, k)]))[i] by {
            assert(mocked_store()[store_key(pth, vk[i])] == mocked_secret_view());
        }
    }
    let files = pairs_view(m.secretFiles@);
    let fk = vault_keys_of(files);
    let ffetched = const_pairs(fk, mocked_secret_view());
    assert(files_apply(files, ffetched) =~~= files_model(files, mocked_store(), pth)) by {
        assert forall|i: int| 0 <= i < files.len() implies (#[trigger] files_apply(
            files,
            ffetched,
        )[i]) == files_model(files, mocked_store(), pth)[i] by {
            if files[i].1 == in_vault_marker() {
                lemma_vault_keys_contains(files, i);
                lemma_const_pairs_lookup(fk, mocked_secret_view(), files[i].0);
                assert(mocked_store()[store_key(pth, files[i].0)] == mocked_secret_view());
            }
        }
    }
}

/// The first declared name absent from a store listing, the env keys
/// checked before the file keys; success means every name is present.
pub fn cross_reference(keys: &Vec<String>, files: &Vec<String>, found: &Vec<String>) -> (r:
    Result<(), SecretError>)
    ensures
        (r is Ok <==> ((forall|i: int|
            0 <= i < keys@.len() ==> strs_view(found@).contains(
                #[trigger] strs_view(keys@)[i],
            )) && (forall|i: int|
            0 <= i < files@.len() ==> strs_view(found@).contains(
                #[trigger] strs_view(files@)[i],
            )))),
        r matches Err(e) ==> (e matches SecretError::MissingSecret(k) && strs_view(
            keys@,
        ).contains(k@) && !strs_view(found@).contains(k@)) || (e
            matches SecretError::MissingSecretFile(k) && strs_view(files@).contains(k@)
            && !strs_view(found@).contains(k@)),
{
    let mut i: usize = 0;
    while i < keys.len()
        invariant
            i <= keys.len(),
            forall|j: int| 0 <= j < i ==> strs_view(found@).contains(#[trigger] strs_view(keys@)[j]),
        decreases keys.len() - i,
    {
        assert(strs_view(keys@)[i as int] == keys@[i as int]@);
        if !contains_str(found, &keys[i]) {
            return Err(SecretError::MissingSecret(keys[i].clone()));
        }
        i += 1;
    }
    let mut i: usize = 0;
    while i < files.len()
        invariant
            i <= files.len(),
            forall|j: int|
                0 <= j < i ==> strs_view(found@).contains(#[trigger] strs_view(files@)[j]),
            forall|j: int|
                0 <= j < keys@.len() ==> strs_view(found@).contains(#[trigger] strs_view(keys@)[j]),
        decreases files.len() - i,
    {
        assert(strs_view(files@)[i as int] == files@[i as int]@);
        if !contains_str(found, &files[i]) {
            return Err(SecretError::MissingSecretFile(files[i].clone()));
        }
        i += 1;
    }
    Ok(())
}

impl Manifest {
    /// Checks, without fetching any value, that every vault-sourced key
    /// of every container and every sentinel secret file is present in
    /// the store's listing of this service's folder. With nothing
    /// declared the store is not consulted at all; the comparison against
    /// a given listing is `cross_reference`, which is exact.
    pub fn verify_secrets_exist(&self, client: &Vault, vc: &VaultConfig) -> (r: Result<
        (),
        SecretError,
    >)
        ensures
            manifest_vault_keys(*self).len() == 0 && vault_keys_of(
                pairs_view(self.secretFiles@),
            ).len() == 0 ==> r is Ok,
            r matches Err(SecretError::MissingSecret(k)) ==> manifest_vault_keys(
                *self,
            ).contains(k@),
            r matches Err(SecretError::MissingSecretFile(k)) ==> vault_keys_of(
                pairs_view(self.secretFiles@),
            ).contains(k@),
            r matches Err(SecretError::Store(e)) ==> match e {
                VaultError::ListMissingKeys(u) => u@ == request_url_view(
                    client.addr@,
                    list_path_view(self.vault_path_view(*vc)),
                ),
                VaultError::Url(u) => u@ == request_url_view(
                    client.addr@,
                    list_path_view(self.vault_path_view(*vc)),
                ),
                VaultError::UnexpectedHttpStatus(s, u) => !(200 <= s < 300) && u@
                    == request_url_view(client.addr@, list_path_view(self.vault_path_view(*vc))),
                _ => false,
            },
            r matches Err(e) ==> !(e matches SecretError::TemplateConflict(_) || e
                matches SecretError::SourceConflict(_) || e matches SecretError::NotBase64(_)),
    {
        let raw_keys = self.gather_vault_keys();
        let keys = dedup_key_list(&raw_keys);
        let files = self.vault_file_keys();
        if keys.len() == 0 && files.len() == 0 {
            return Ok(());
        }
        let pth = self.get_vault_path(vc);
        let found = match client.list(&pth) {
            Ok(v) => v,
            Err(e) => {
                return Err(SecretError::Store(e));
            },
        };
        cross_reference(&keys, &files, &found)
    }
}

/// Secret reconciliation is idempotent: a manifest that one resolution
/// has already filled resolves, against an unchanged store, to the very
/// same secrets map, and its secret files do not move again.
pub proof fn lemma_reconcile_idempotent(
    m: Manifest,
    m2: Manifest,
    store: Map<Seq<char>, Seq<char>>,
    pth: Seq<char>,
)
    requires
        m2 == (Manifest { secrets: m2.secrets, secretFiles: m2.secretFiles, ..m }),
        pairs_view(m2.secretFiles@) == files_model(pairs_view(m.secretFiles@), store, pth),
    ensures
        secrets_model(m2, store, pth) == secrets_model(m, store, pth),
        files_model(pairs_view(m2.secretFiles@), store, pth) == pairs_view(m2.secretFiles@),
{
    assert(env_views(m2) == env_views(m));
    let f1 = files_model(pairs_view(m.secretFiles@), store, pth);
    assert(files_model(f1, store, pth) =~~= f1) by {
        assert forall|i: int| 0 <= i < f1.len() implies (#[trigger] files_model(
            f1,
            store,
            pth,
        )[i]) == f1[i] by {
            let p = pairs_view(m.secretFiles@)[i];
            if p.1 == in_vault_marker() {
                assert(f1[i] == (p.0, store[store_key(pth, p.0)]));
            } else {
                assert(f1[i] == p);
            }
        }
    }
}

} // verus!
