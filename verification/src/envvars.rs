//! Environment variables of one container, partitioned at the type level
//! into plain declarations and resolved template outputs, with the
//! vault-sourcing sentinel made explicit.
use vstd::prelude::*;

use crate::strutil::{pairs_view, pairs_keys_unique, str_is, unique_keys, valid_env_key,
    env_key_ok};

verus! {

/// The sentinel value that marks a declared variable as vault-sourced.
pub open spec fn in_vault_marker() -> Seq<char> {
    "IN_VAULT"@
}

/// The vault-sourced keys of an association list: the keys, in order,
/// whose value is the sentinel.
pub open spec fn vault_keys_of(s: Seq<(Seq<char>, Seq<char>)>) -> Seq<Seq<char>>
    decreases s.len(),
{
    if s.len() == 0 {
        Seq::empty()
    } else {
        let rest = vault_keys_of(s.drop_last());
        if s.last().1 == in_vault_marker() {
            rest.push(s.last().0)
        } else {
            rest
        }
    }
}

/// Environment variables to inject into one container.
///
/// A value equal to the sentinel is fetched from the secret store during
/// reconciliation; everything in `templated` was produced by the template
/// step and is stored as a secret as well.
#[derive(Debug)]
pub struct EnvVars {
    /// Declared variables, in declaration order, keys unique.
    pub plain: Vec<(String, String)>,
    /// Template outputs marked as secrets, in declaration order.
    pub templated: Vec<(String, String)>,
}

impl Clone for EnvVars {
    /// Cloning preserves both views.
    fn clone(&self) -> (r: Self)
        ensures
            r.plain_view() == self.plain_view(),
            r.templated_view() == self.templated_view(),
    {
        EnvVars {
            plain: crate::strutil::clone_pairs(&self.plain),
            templated: crate::strutil::clone_pairs(&self.templated),
        }
    }
}

impl EnvVars {
    /// An empty set of variables.
    pub fn empty() -> (r: EnvVars)
        ensures
            r.plain@.len() == 0,
            r.templated@.len() == 0,
    {
        EnvVars { plain: Vec::new(), templated: Vec::new() }
    }

    /// The views of the declared variables.
    pub open spec fn plain_view(self) -> Seq<(Seq<char>, Seq<char>)> {
        pairs_view(self.plain@)
    }

    /// The views of the template outputs.
    pub open spec fn templated_view(self) -> Seq<(Seq<char>, Seq<char>)> {
        pairs_view(self.templated@)
    }

    /// The vault-sourced keys, in declaration order.
    pub open spec fn vault_keys_view(self) -> Seq<Seq<char>> {
        vault_keys_of(self.plain_view())
    }

    /// Environment variables are well-formed when every key, declared or
    /// templated, follows the variable-name rule, and no declared key is
    /// bound twice. (Template outputs may repeat a key: reconciliation
    /// checks that repeated bindings agree.)
    pub open spec fn valid(self) -> bool {
        &&& forall|i: int|
            0 <= i < self.plain_view().len() ==> valid_env_key(#[trigger] self.plain_view()[i].0)
        &&& unique_keys(self.plain_view())
        &&& forall|i: int|
            0 <= i < self.templated_view().len() ==> valid_env_key(
                #[trigger] self.templated_view()[i].0,
            )
    }

    /// Decides `valid`.
    pub fn verify(&self) -> (r: bool)
        ensures
            r == self.valid(),
    {
        if !pairs_keys_unique(&self.plain) {
            return false;
        }
        let mut i: usize = 0;
        while i < self.plain.len()
            invariant
                i <= self.plain.len(),
                forall|j: int| 0 <= j < i ==> valid_env_key(#[trigger] self.plain_view()[j].0),
            decreases self.plain.len() - i,
        {
            assert(self.plain_view()[i as int].0 == self.plain@[i as int].0@);
            if !env_key_ok(&self.plain[i].0) {
                return false;
            }
            i += 1;
        }
        let mut i: usize = 0;
        while i < self.templated.len()
            invariant
                i <= self.templated.len(),
                forall|j: int| 0 <= j < i ==> valid_env_key(#[trigger] self.templated_view()[j].0),
            decreases self.templated.len() - i,
        {
            assert(self.templated_view()[i as int].0 == self.templated@[i as int].0@);
            if !env_key_ok(&self.templated[i].0) {
                return false;
            }
            i += 1;
        }
        true
    }

    /// The keys this container wants fetched from the secret store: the
    /// declared variables whose value is the sentinel, in order.
    pub fn vault_secrets(&self) -> (r: Vec<String>)
        ensures
            crate::strutil::strs_view(r@) == self.vault_keys_view(),
    {
        let mut out: Vec<String> = Vec::new();
        let mut i: usize = 0;
        while i < self.plain.len()
            invariant
                i <= self.plain.len(),
                crate::strutil::strs_view(out@) == vault_keys_of(self.plain_view().take(i as int)),
            decreases self.plain.len() - i,
        {
            assert(self.plain_view().take(i + 1).drop_last() =~= self.plain_view().take(i as int));
            assert(self.plain_view().take(i + 1).last() == self.plain_view()[i as int]);
            assert(self.plain_view()[i as int].1 == self.plain@[i as int].1@);
            if str_is(&self.plain[i].1, "IN_VAULT") {
                out.push(self.plain[i].0.clone());
                assert(crate::strutil::strs_view(out@) =~= vault_keys_of(
                    self.plain_view().take(i + 1),
                ));
            } else {
                assert(crate::strutil::strs_view(out@) =~= vault_keys_of(
                    self.plain_view().take(i + 1),
                ));
            }
            i += 1;
        }
        assert(self.plain_view().take(self.plain.len() as int) =~= self.plain_view());
        out
    }

    /// The template-derived secrets of this container, in order.
    pub fn template_secrets(&self) -> (r: Vec<(String, String)>)
        ensures
            pairs_view(r@) == self.templated_view(),
    {
        let mut out: Vec<(String, String)> = Vec::new();
        let mut i: usize = 0;
        while i < self.templated.len()
            invariant
                i <= self.templated.len(),
                pairs_view(out@) =~= self.templated_view().take(i as int),
            decreases self.templated.len() - i,
        {
            let p = (self.templated[i].0.clone(), self.templated[i].1.clone());
            assert(p.0 == self.templated@[i as int].0);
            assert(p.1 == self.templated@[i as int].1);
            let ghost prev = out@;
            out.push(p);
            proof {
                assert(pairs_view(prev).len() == prev.len());
                assert(prev.len() == i);
                assert(out@ == prev.push(p));
                assert(out@.len() == i + 1);
                assert forall|j: int| 0 <= j < i + 1 implies pairs_view(out@)[j]
                    == self.templated_view().take(i + 1)[j] by {
                    if j < i {
                        assert(out@[j] == prev[j]);
                        assert(pairs_view(prev)[j] == self.templated_view().take(i as int)[j]);
                    } else {
                        assert(out@[j] == p);
                    }
                }
                assert(pairs_view(out@) =~= self.templated_view().take(i + 1));
            }
            i += 1;
        }
        assert(self.templated_view().take(self.templated.len() as int) =~= self.templated_view());
        out
    }
}

} // verus!
