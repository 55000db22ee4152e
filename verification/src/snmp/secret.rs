//! Client-side secret references for SNMP credentials.

use vstd::prelude::*;
use crate::text::{clone_opt, clone_strs, ostr, strs};

verus! {

/// Where a secret value is loaded from at apply time: exactly one source.
#[derive(Clone, Debug, PartialEq, Eq)]
pub enum SecretRef {
    FromFile(FromFileRef),
    FromEnv(FromEnvRef),
    FromKeyring(FromKeyringRef),
}

/// The mathematical model of [`SecretRef`].
pub enum SecretRefModel {
    FromFile(FromFileRefModel),
    FromEnv(FromEnvRefModel),
    FromKeyring(FromKeyringRefModel),
}

impl View for SecretRef {
    type V = SecretRefModel;

    open spec fn view(&self) -> SecretRefModel {
        match self {
            SecretRef::FromFile(r) => SecretRefModel::FromFile(r@),
            SecretRef::FromEnv(r) => SecretRefModel::FromEnv(r@),
            SecretRef::FromKeyring(r) => SecretRefModel::FromKeyring(r@),
        }
    }
}

impl SecretRef {
    /// A copy with the same model.
    pub fn duplicate(&self) -> (r: Self)
        ensures
            r@ == self@,
    {
        match self {
            SecretRef::FromFile(r) => SecretRef::FromFile(r.duplicate()),
            SecretRef::FromEnv(r) => SecretRef::FromEnv(r.duplicate()),
            SecretRef::FromKeyring(r) => SecretRef::FromKeyring(r.duplicate()),
        }
    }
}

/// Read the secret from a local file.
#[derive(Clone, Debug, PartialEq, Eq)]
pub struct FromFileRef {
    pub from_file: String,
}

/// The mathematical model of [`FromFileRef`].
pub struct FromFileRefModel {
    pub from_file: Seq<char>,
}

impl View for FromFileRef {
    type V = FromFileRefModel;

    open spec fn view(&self) -> FromFileRefModel {
        FromFileRefModel {
            from_file: self.from_file@,
        }
    }
}

impl FromFileRef {
    /// A copy with the same model.
    pub fn duplicate(&self) -> (r: Self)
        ensures
            r@ == self@,
    {
        FromFileRef {
            from_file: self.from_file.clone(),
        }
    }

    /// Copies of every element, in order.
    pub fn duplicate_all(v: &Vec<Self>) -> (r: Vec<Self>)
        ensures
            r@.map_values(|x: Self| x@) == v@.map_values(|x: Self| x@),
            r.len() == v.len(),
    {
        let mut r: Vec<Self> = Vec::new();
        let mut i: usize = 0;
        while i < v.len()
            invariant
                i <= v.len(),
                r.len() == i,
                forall|j: int| 0 <= j < i ==> #[trigger] r@[j]@ == v@[j]@,
            decreases v.len() - i,
        {
            r.push(v[i].duplicate());
            i = i + 1;
        }
        assert(r@.map_values(|x: Self| x@) =~= v@.map_values(|x: Self| x@));
        r
    }
}

/// Read the secret from an environment variable.
#[derive(Clone, Debug, PartialEq, Eq)]
pub struct FromEnvRef {
    pub from_env: String,
}

/// The mathematical model of [`FromEnvRef`].
pub struct FromEnvRefModel {
    pub from_env: Seq<char>,
}

impl View for FromEnvRef {
    type V = FromEnvRefModel;

    open spec fn view(&self) -> FromEnvRefModel {
        FromEnvRefModel {
            from_env: self.from_env@,
        }
    }
}

impl FromEnvRef {
    /// A copy with the same model.
    pub fn duplicate(&self) -> (r: Self)
        ensures
            r@ == self@,
    {
        FromEnvRef {
            from_env: self.from_env.clone(),
        }
    }

    /// Copies of every element, in order.
    pub fn duplicate_all(v: &Vec<Self>) -> (r: Vec<Self>)
        ensures
            r@.map_values(|x: Self| x@) == v@.map_values(|x: Self| x@),
            r.len() == v.len(),
    {
        let mut r: Vec<Self> = Vec::new();
        let mut i: usize = 0;
        while i < v.len()
            invariant
                i <= v.len(),
                r.len() == i,
                forall|j: int| 0 <= j < i ==> #[trigger] r@[j]@ == v@[j]@,
            decreases v.len() - i,
        {
            r.push(v[i].duplicate());
            i = i + 1;
        }
        assert(r@.map_values(|x: Self| x@) =~= v@.map_values(|x: Self| x@));
        r
    }
}

/// Read the secret from the OS keyring.
#[derive(Clone, Debug, PartialEq, Eq)]
pub struct FromKeyringRef {
    pub from_keyring: KeyringRef,
}

/// The mathematical model of [`FromKeyringRef`].
pub struct FromKeyringRefModel {
    pub from_keyring: KeyringRefModel,
}

impl View for FromKeyringRef {
    type V = FromKeyringRefModel;

    open spec fn view(&self) -> FromKeyringRefModel {
        FromKeyringRefModel {
            from_keyring: self.from_keyring@,
        }
    }
}

impl FromKeyringRef {
    /// A copy with the same model.
    pub fn duplicate(&self) -> (r: Self)
        ensures
            r@ == self@,
    {
        FromKeyringRef {
            from_keyring: self.from_keyring.duplicate(),
        }
    }

    /// Copies of every element, in order.
    pub fn duplicate_all(v: &Vec<Self>) -> (r: Vec<Self>)
        ensures
            r@.map_values(|x: Self| x@) == v@.map_values(|x: Self| x@),
            r.len() == v.len(),
    {
        let mut r: Vec<Self> = Vec::new();
        let mut i: usize = 0;
        while i < v.len()
            invariant
                i <= v.len(),
                r.len() == i,
                forall|j: int| 0 <= j < i ==> #[trigger] r@[j]@ == v@[j]@,
            decreases v.len() - i,
        {
            r.push(v[i].duplicate());
            i = i + 1;
        }
        assert(r@.map_values(|x: Self| x@) =~= v@.map_values(|x: Self| x@));
        r
    }
}

/// Service + account identifying a keyring entry.
#[derive(Clone, Debug, PartialEq, Eq)]
pub struct KeyringRef {
    pub service: String,
    pub account: String,
}

/// The mathematical model of [`KeyringRef`].
pub struct KeyringRefModel {
    pub service: Seq<char>,
    pub account: Seq<char>,
}

impl View for KeyringRef {
    type V = KeyringRefModel;

    open spec fn view(&self) -> KeyringRefModel {
        KeyringRefModel {
            service: self.service@,
            account: self.account@,
        }
    }
}

impl KeyringRef {
    /// A copy with the same model.
    pub fn duplicate(&self) -> (r: Self)
        ensures
            r@ == self@,
    {
        KeyringRef {
            service: self.service.clone(),
            account: self.account.clone(),
        }
    }

    /// Copies of every element, in order.
    pub fn duplicate_all(v: &Vec<Self>) -> (r: Vec<Self>)
        ensures
            r@.map_values(|x: Self| x@) == v@.map_values(|x: Self| x@),
            r.len() == v.len(),
    {
        let mut r: Vec<Self> = Vec::new();
        let mut i: usize = 0;
        while i < v.len()
            invariant
                i <= v.len(),
                r.len() == i,
                forall|j: int| 0 <= j < i ==> #[trigger] r@[j]@ == v@[j]@,
            decreases v.len() - i,
        {
            r.push(v[i].duplicate());
            i = i + 1;
        }
        assert(r@.map_values(|x: Self| x@) =~= v@.map_values(|x: Self| x@));
        r
    }
}

} // verus!
