//! The metadata of a repository, as the client reads it.
//!
//! The types hold what the update workflow decides on. Reading them out of
//! a file's bytes is the work of a [`Schema`].

use crate::signature::{
    find_key, lookup_key, threshold_met, verify_threshold, Key, KeyEntry, KeyView, Signature,
};
use crate::text::str_equal;
use crate::time::UtcTime;
use vstd::prelude::*;
use vstd::string::*;

verus! {

broadcast use vstd::std_specs::vec::group_vec_axioms;

/// The four top-level roles of a repository.
#[derive(Debug, Clone, Copy, PartialEq, Eq, Hash, Structural)]
pub enum RoleType {
    /// The root role names the keys of every top-level role.
    Root,
    /// The snapshot role lists the version of every targets file.
    Snapshot,
    /// The targets role lists the targets and delegates part of them.
    Targets,
    /// The timestamp role names the current snapshot.
    Timestamp,
}

/// What the four kinds of metadata have in common: a kind, a version and
/// an instant at which they expire.
pub trait Role {
    /// The role that signs this kind of metadata.
    spec fn role_type_spec() -> RoleType;

    /// The version of the metadata.
    spec fn version_spec(&self) -> u64;

    /// The instant at which the metadata expires.
    spec fn expires_spec(&self) -> UtcTime;

    /// The role that signs this kind of metadata.
    fn role_type() -> (r: RoleType)
        ensures
            r == Self::role_type_spec(),
    ;

    /// The version of the metadata.
    fn version(&self) -> (v: u64)
        ensures
            v == self.version_spec(),
    ;

    /// The instant at which the metadata expires.
    fn expires(&self) -> (t: UtcTime)
        ensures
            t == self.expires_spec(),
    ;
}

/// Metadata together with the signatures on it.
#[derive(Debug, Clone, PartialEq, Eq)]
pub struct Signed<T> {
    /// The metadata.
    pub signed: T,
    /// The signatures that came with it.
    pub signatures: Vec<Signature>,
    /// The bytes that the signatures are over: the canonical form of the
    /// metadata.
    pub message: Vec<u8>,
}

/// The key ids that may sign for a role, and how many of them must.
///
/// A role that a file does not name is written as a role without key ids,
/// which nothing can be signed for.
#[derive(Debug, Clone, PartialEq, Eq)]
pub struct RoleKeys {
    /// The ids of the role's keys.
    pub keyids: Vec<Vec<u8>>,
    /// The number of different keys that must have signed.
    pub threshold: u64,
}

/// Root metadata: the keys that all other metadata is checked against.
#[derive(Debug, Clone, PartialEq, Eq)]
pub struct Root {
    /// The version of this root.
    pub version: u64,
    /// The instant at which this root expires.
    pub expires: UtcTime,
    /// Whether the repository names its files by version and digest.
    pub consistent_snapshot: bool,
    /// All keys that this root knows, each under its id.
    pub keys: Vec<KeyEntry>,
    /// The keys of the root role.
    pub root: RoleKeys,
    /// The keys of the snapshot role.
    pub snapshot: RoleKeys,
    /// The keys of the targets role.
    pub targets: RoleKeys,
    /// The keys of the timestamp role.
    pub timestamp: RoleKeys,
}

/// What the timestamp says of a metadata file.
#[derive(Debug, Clone, PartialEq, Eq)]
pub struct TimestampMeta {
    /// The file's length in bytes.
    pub length: u64,
    /// The file's SHA-256 digest.
    pub sha256: Vec<u8>,
    /// The version of the metadata in the file.
    pub version: u64,
}

/// Timestamp metadata: which snapshot is the current one.
#[derive(Debug, Clone, PartialEq, Eq)]
pub struct Timestamp {
    /// The version of this timestamp.
    pub version: u64,
    /// The instant at which this timestamp expires.
    pub expires: UtcTime,
    /// The files that the timestamp describes, by name: `snapshot.json`.
    pub meta: Vec<(String, TimestampMeta)>,
}

/// What the snapshot says of a metadata file.
#[derive(Debug, Clone, PartialEq, Eq)]
pub struct SnapshotMeta {
    /// The file's length in bytes, where the snapshot gives it.
    pub length: Option<u64>,
    /// The file's SHA-256 digest, where the snapshot gives it.
    pub sha256: Option<Vec<u8>>,
    /// The version of the metadata in the file.
    pub version: u64,
}

/// Snapshot metadata: the version of every targets file.
#[derive(Debug, Clone, PartialEq, Eq)]
pub struct Snapshot {
    /// The version of this snapshot.
    pub version: u64,
    /// The instant at which this snapshot expires.
    pub expires: UtcTime,
    /// The files that the snapshot describes, by name: `targets.json` and
    /// one file for each delegated role.
    pub meta: Vec<(String, SnapshotMeta)>,
}

/// What targets metadata says of a target.
#[derive(Debug, Clone, PartialEq, Eq)]
pub struct Target {
    /// The target's length in bytes.
    pub length: u64,
    /// The target's SHA-256 digest.
    pub sha256: Vec<u8>,
}

/// Targets metadata: the targets of a role, and the roles that it
/// delegates to.
#[derive(Debug, PartialEq, Eq)]
pub struct Targets {
    /// The version of this targets metadata.
    pub version: u64,
    /// The instant at which this targets metadata expires.
    pub expires: UtcTime,
    /// The targets of this role, by name.
    pub targets: Vec<(String, Target)>,
    /// The roles that this role delegates to.
    pub delegations: Option<Delegations>,
}

/// The roles that a targets role delegates to, and their keys.
#[derive(Debug, PartialEq, Eq)]
pub struct Delegations {
    /// The keys of the delegated roles, each under its id.
    pub keys: Vec<KeyEntry>,
    /// The delegated roles, in the order in which they are to be searched.
    pub roles: Vec<DelegatedRole>,
}

/// A role that a targets role delegates to.
#[derive(Debug, PartialEq, Eq)]
pub struct DelegatedRole {
    /// The role's name.
    pub name: String,
    /// The ids of the role's keys.
    pub keyids: Vec<Vec<u8>>,
    /// The number of different keys that must have signed.
    pub threshold: u64,
    /// The patterns of the target paths that the role is trusted for.
    pub paths: Vec<String>,
    /// Whether the search for a target ends with this role.
    pub terminating: bool,
    /// The role's own targets metadata, once it is loaded and checked.
    pub targets: Option<Signed<Targets>>,
}

/// Reads metadata out of bytes, and knows the rules of path patterns.
///
/// The client takes care of where the bytes come from, how many they are
/// and what digest they have, of versions, expiration and signatures. What
/// a file's bytes mean is this collaborator's business. The client relies
/// on nothing but the values that come back.
pub trait Schema {
    /// Reads root metadata. `None` means that the bytes hold none.
    fn parse_root(&self, bytes: &[u8]) -> Option<Signed<Root>>;

    /// Reads timestamp metadata. `None` means that the bytes hold none.
    fn parse_timestamp(&self, bytes: &[u8]) -> Option<Signed<Timestamp>>;

    /// Reads snapshot metadata. `None` means that the bytes hold none.
    fn parse_snapshot(&self, bytes: &[u8]) -> Option<Signed<Snapshot>>;

    /// Reads targets metadata. `None` means that the bytes hold none.
    fn parse_targets(&self, bytes: &[u8]) -> Option<Signed<Targets>>;

    /// Whether the path patterns of the delegated roles are well-formed.
    fn verify_paths(&self, delegations: &Delegations) -> bool;
}

/// The value that a list holds under a name: that of the first entry of
/// that name.
pub open spec fn first_named<T>(entries: Seq<(String, T)>, name: Seq<char>) -> Option<T>
    decreases entries.len(),
{
    if entries.len() == 0 {
        None
    } else if entries[0].0@ == name {
        Some(entries[0].1)
    } else {
        first_named(entries.drop_first(), name)
    }
}

/// Finds the value that a list holds under a name.
pub fn find_named<'a, T>(entries: &'a Vec<(String, T)>, name: &str) -> (r: Option<&'a T>)
    ensures
        match r {
            Some(value) => first_named(entries@, name@) == Some(*value),
            None => first_named(entries@, name@) is None,
        },
{
    let mut i: usize = 0;
    assert(entries@.skip(0) =~= entries@);
    while i < entries.len()
        invariant
            i <= entries.len(),
            first_named(entries@, name@) == first_named(entries@.skip(i as int), name@),
        decreases entries.len() - i,
    {
        assert(entries@.skip(i as int).drop_first() =~= entries@.skip(i + 1));
        if str_equal(entries[i].0.as_str(), name) {
            return Some(&entries[i].1);
        }
        i = i + 1;
    }
    None
}

/// The keys that a list of key ids stands for, in the order of the ids. An
/// id that `keys` does not hold stands for none.
pub open spec fn keys_of(keys: Seq<KeyEntry>, keyids: Seq<Vec<u8>>) -> Seq<KeyView>
    decreases keyids.len(),
{
    if keyids.len() == 0 {
        Seq::empty()
    } else {
        let before = keys_of(keys, keyids.drop_last());
        match find_key(keys, keyids.last()@) {
            Some(key) => before.push(key@),
            None => before,
        }
    }
}

impl Root {
    /// The key ids and the threshold of a top-level role.
    pub open spec fn role_keys_spec(&self, role: RoleType) -> RoleKeys {
        match role {
            RoleType::Root => self.root,
            RoleType::Snapshot => self.snapshot,
            RoleType::Targets => self.targets,
            RoleType::Timestamp => self.timestamp,
        }
    }

    /// The keys that may sign for a top-level role.
    pub open spec fn keys_spec(&self, role: RoleType) -> Seq<KeyView> {
        keys_of(self.keys@, self.role_keys_spec(role).keyids@)
    }

    /// Whether a message is signed as this root asks of `role`: by a
    /// threshold of the role's keys.
    pub open spec fn verifies(
        &self,
        role: RoleType,
        signatures: Seq<Signature>,
        message: Seq<u8>,
    ) -> bool {
        threshold_met(
            self.keys@,
            self.role_keys_spec(role).keyids@,
            self.role_keys_spec(role).threshold,
            signatures,
            message,
        )
    }

    /// The key ids and the threshold of a top-level role.
    pub fn role_keys(&self, role: RoleType) -> (r: &RoleKeys)
        ensures
            *r == self.role_keys_spec(role),
    {
        match role {
            RoleType::Root => &self.root,
            RoleType::Snapshot => &self.snapshot,
            RoleType::Targets => &self.targets,
            RoleType::Timestamp => &self.timestamp,
        }
    }

    /// The keys that may sign for a top-level role, in the order of the
    /// role's key ids.
    pub fn keys(&self, role: RoleType) -> (r: Vec<&Key>)
        ensures
            r@.len() == self.keys_spec(role).len(),
            forall|i: int| 0 <= i < r@.len() ==> (#[trigger] r@[i])@ == self.keys_spec(role)[i],
    {
        let keyids = &self.role_keys(role).keyids;
        let mut found: Vec<&Key> = Vec::new();
        let mut i: usize = 0;
        while i < keyids.len()
            invariant
                i <= keyids.len(),
                found@.len() == keys_of(self.keys@, keyids@.take(i as int)).len(),
                forall|k: int|
                    0 <= k < found@.len() ==> (#[trigger] found@[k])@ == keys_of(
                        self.keys@,
                        keyids@.take(i as int),
                    )[k],
            decreases keyids.len() - i,
        {
            assert(keyids@.take(i + 1).drop_last() =~= keyids@.take(i as int));
            match lookup_key(&self.keys, &keyids[i]) {
                Some(key) => {
                    found.push(key);
                },
                None => {},
            }
            i = i + 1;
        }
        assert(keyids@.take(i as int) =~= keyids@);
        found
    }

    /// Checks the signatures on metadata against the keys that this root
    /// names for the metadata's role.
    pub fn verify_role<T: Role>(&self, role: &Signed<T>) -> (ok: bool)
        ensures
            ok == self.verifies(T::role_type_spec(), role.signatures@, role.message@),
    {
        let role_keys = self.role_keys(T::role_type());
        verify_threshold(
            &self.keys,
            &role_keys.keyids,
            role_keys.threshold,
            &role.signatures,
            role.message.as_slice(),
        )
    }
}

/// Whether two lists hold the same keys in the same order.
pub fn same_keys(a: &Vec<&Key>, b: &Vec<&Key>) -> (r: bool)
    ensures
        r == (a@.len() == b@.len() && forall|i: int|
            0 <= i < a@.len() ==> (#[trigger] a@[i])@ == b@[i]@),
{
    if a.len() != b.len() {
        return false;
    }
    let mut i: usize = 0;
    while i < a.len()
        invariant
            i <= a.len(),
            a.len() == b.len(),
            forall|k: int| 0 <= k < i ==> (#[trigger] a@[k])@ == b@[k]@,
        decreases a.len() - i,
    {
        let same = a[i].scheme == b[i].scheme && crate::text::bytes_equal(
            &a[i].public,
            &b[i].public,
        );
        if !same {
            assert(a@[i as int]@ != b@[i as int]@);
            return false;
        }
        i = i + 1;
    }
    true
}

/// Whether the keys of a role differ between two roots.
pub fn keys_rotated(before: &Root, after: &Root, role: RoleType) -> (r: bool)
    ensures
        r == (before.keys_spec(role) != after.keys_spec(role)),
{
    let a = before.keys(role);
    let b = after.keys(role);
    let same = same_keys(&a, &b);
    proof {
        let x = before.keys_spec(role);
        let y = after.keys_spec(role);
        if same {
            assert forall|i: int| 0 <= i < x.len() implies x[i] == y[i] by {
                assert(a@[i]@ == x[i]);
                assert(b@[i]@ == y[i]);
            }
            assert(x =~= y);
        } else if x == y {
            assert forall|i: int| 0 <= i < a@.len() implies (#[trigger] a@[i])@ == b@[i]@ by {
                assert(a@[i]@ == x[i]);
                assert(b@[i]@ == y[i]);
            }
        }
    }
    !same
}

impl Role for Root {
    open spec fn role_type_spec() -> RoleType {
        RoleType::Root
    }

    open spec fn version_spec(&self) -> u64 {
        self.version
    }

    open spec fn expires_spec(&self) -> UtcTime {
        self.expires
    }

    fn role_type() -> (r: RoleType) {
        RoleType::Root
    }

    fn version(&self) -> (v: u64) {
        self.version
    }

    fn expires(&self) -> (t: UtcTime) {
        self.expires
    }
}

impl Role for Timestamp {
    open spec fn role_type_spec() -> RoleType {
        RoleType::Timestamp
    }

    open spec fn version_spec(&self) -> u64 {
        self.version
    }

    open spec fn expires_spec(&self) -> UtcTime {
        self.expires
    }

    fn role_type() -> (r: RoleType) {
        RoleType::Timestamp
    }

    fn version(&self) -> (v: u64) {
        self.version
    }

    fn expires(&self) -> (t: UtcTime) {
        self.expires
    }
}

impl Role for Snapshot {
    open spec fn role_type_spec() -> RoleType {
        RoleType::Snapshot
    }

    open spec fn version_spec(&self) -> u64 {
        self.version
    }

    open spec fn expires_spec(&self) -> UtcTime {
        self.expires
    }

    fn role_type() -> (r: RoleType) {
        RoleType::Snapshot
    }

    fn version(&self) -> (v: u64) {
        self.version
    }

    fn expires(&self) -> (t: UtcTime) {
        self.expires
    }
}

impl Role for Targets {
    open spec fn role_type_spec() -> RoleType {
        RoleType::Targets
    }

    open spec fn version_spec(&self) -> u64 {
        self.version
    }

    open spec fn expires_spec(&self) -> UtcTime {
        self.expires
    }

    fn role_type() -> (r: RoleType) {
        RoleType::Targets
    }

    fn version(&self) -> (v: u64) {
        self.version
    }

    fn expires(&self) -> (t: UtcTime) {
        self.expires
    }
}

/// The place of the first delegated role of a given name, looking from
/// place `from` on.
pub open spec fn role_index(roles: Seq<DelegatedRole>, name: Seq<char>, from: int) -> Option<int>
    decreases roles.len() - from,
{
    if from < 0 || from >= roles.len() {
        None
    } else if roles[from].name@ == name {
        Some(from)
    } else {
        role_index(roles, name, from + 1)
    }
}

/// The place of a role of a given name depends on the names alone.
pub proof fn lemma_role_index_by_names(
    a: Seq<DelegatedRole>,
    b: Seq<DelegatedRole>,
    name: Seq<char>,
    from: int,
)
    requires
        a.len() == b.len(),
        forall|i: int| 0 <= i < a.len() ==> (#[trigger] a[i]).name@ == b[i].name@,
    ensures
        role_index(a, name, from) == role_index(b, name, from),
        role_index(a, name, from) matches Some(k) ==> from <= k < a.len() && a[k].name@ == name,
    decreases a.len() - from,
{
    if 0 <= from < a.len() {
        assert(a[from].name@ == b[from].name@);
        if a[from].name@ != name {
            lemma_role_index_by_names(a, b, name, from + 1);
        }
    }
}

impl Delegations {
    /// Whether a message is signed as these delegations ask of the role
    /// `name`: there is such a role, and a threshold of the keys of the
    /// first role of that name has signed.
    pub open spec fn verifies(
        &self,
        name: Seq<char>,
        signatures: Seq<Signature>,
        message: Seq<u8>,
    ) -> bool {
        role_index(self.roles@, name, 0) matches Some(k) && threshold_met(
            self.keys@,
            self.roles@[k].keyids@,
            self.roles@[k].threshold,
            signatures,
            message,
        )
    }

    /// The delegated role of a given name: the first of that name.
    pub fn role<'a>(&'a self, name: &str) -> (r: Option<&'a DelegatedRole>)
        ensures
            match r {
                Some(role) => role_index(self.roles@, name@, 0) matches Some(k) && self.roles@[k]
                    == *role,
                None => role_index(self.roles@, name@, 0) is None,
            },
    {
        let mut i: usize = 0;
        while i < self.roles.len()
            invariant
                i <= self.roles.len(),
                role_index(self.roles@, name@, 0) == role_index(self.roles@, name@, i as int),
            decreases self.roles.len() - i,
        {
            if str_equal(self.roles[i].name.as_str(), name) {
                return Some(&self.roles[i]);
            }
            i = i + 1;
        }
        None
    }

    /// Checks the signatures on the targets metadata of the delegated role
    /// `name` against the keys that these delegations name for it.
    pub fn verify_role(&self, role: &Signed<Targets>, name: &str) -> (ok: bool)
        ensures
            ok == self.verifies(name@, role.signatures@, role.message@),
    {
        match self.role(name) {
            Some(delegated) => verify_threshold(
                &self.keys,
                &delegated.keyids,
                delegated.threshold,
                &role.signatures,
                role.message.as_slice(),
            ),
            None => false,
        }
    }
}

/// Whether every delegated role has its targets metadata, signed as the
/// delegating role asks of it, and the same holds of the roles that it
/// delegates to in turn.
pub open spec fn delegations_verified(delegations: Delegations) -> bool
    decreases delegations,
{
    roles_verified(delegations, 0)
}

/// Whether the delegated roles from place `i` on have their targets
/// metadata, signed as the delegating role asks, and the same holds below
/// them.
pub open spec fn roles_verified(parent: Delegations, i: int) -> bool
    decreases parent.roles@, parent.roles@.len() - i,
{
    if 0 <= i < parent.roles@.len() {
        &&& parent.roles@[i].targets matches Some(signed)
        &&& parent.verifies(parent.roles@[i].name@, signed.signatures@, signed.message@)
        &&& (signed.signed.delegations matches Some(below) ==> delegations_verified(below))
        &&& roles_verified(parent, i + 1)
    } else {
        true
    }
}

/// The target of a given name that targets metadata and the roles below it
/// hold: the role's own target of that name, or else what the first of its
/// delegated roles, and the roles below that one, hold.
pub open spec fn target_in(targets: Targets, name: Seq<char>) -> Option<Target>
    decreases targets,
{
    match first_named(targets.targets@, name) {
        Some(target) => Some(target),
        None => match targets.delegations {
            Some(delegations) => target_in_roles(delegations.roles@, name, 0),
            None => None,
        },
    }
}

/// What the delegated roles from place `i` on hold under a target name.
pub open spec fn target_in_roles(roles: Seq<DelegatedRole>, name: Seq<char>, i: int) -> Option<
    Target,
>
    decreases roles, roles.len() - i,
{
    if 0 <= i < roles.len() {
        let here = match roles[i].targets {
            Some(signed) => target_in(signed.signed, name),
            None => None,
        };
        if here is Some {
            here
        } else {
            target_in_roles(roles, name, i + 1)
        }
    } else {
        None
    }
}

/// The delegated role of a given name below targets metadata: the first of
/// that name when each role is looked at before the roles below it.
pub open spec fn role_in(targets: Targets, name: Seq<char>) -> Option<DelegatedRole>
    decreases targets,
{
    match targets.delegations {
        Some(delegations) => role_in_roles(delegations.roles@, name, 0),
        None => None,
    }
}

/// The delegated role of a given name among the roles from place `i` on
/// and the roles below them.
pub open spec fn role_in_roles(roles: Seq<DelegatedRole>, name: Seq<char>, i: int) -> Option<
    DelegatedRole,
>
    decreases roles, roles.len() - i,
{
    if 0 <= i < roles.len() {
        if roles[i].name@ == name {
            Some(roles[i])
        } else {
            let below = match roles[i].targets {
                Some(signed) => role_in(signed.signed, name),
                None => None,
            };
            if below is Some {
                below
            } else {
                role_in_roles(roles, name, i + 1)
            }
        }
    } else {
        None
    }
}

/// All targets that targets metadata and the roles below it hold: the
/// role's own targets first, then those of each delegated role in turn.
pub open spec fn all_targets_in(targets: Targets) -> Seq<(String, Target)>
    decreases targets,
{
    match targets.delegations {
        Some(delegations) => targets.targets@ + all_targets_in_roles(delegations.roles@, 0),
        None => targets.targets@,
    }
}

/// All targets that the delegated roles from place `i` on hold.
pub open spec fn all_targets_in_roles(roles: Seq<DelegatedRole>, i: int) -> Seq<(String, Target)>
    decreases roles, roles.len() - i,
{
    if 0 <= i < roles.len() {
        let here = match roles[i].targets {
            Some(signed) => all_targets_in(signed.signed),
            None => Seq::empty(),
        };
        here + all_targets_in_roles(roles, i + 1)
    } else {
        Seq::empty()
    }
}

impl Targets {
    /// Finds a target by name, in this role first and then in the roles
    /// that it delegates to, each before the next.
    pub fn find_target<'a>(&'a self, name: &str) -> (r: Option<&'a Target>)
        ensures
            match r {
                Some(target) => target_in(*self, name@) == Some(*target),
                None => target_in(*self, name@) is None,
            },
        decreases self,
    {
        match find_named(&self.targets, name) {
            Some(target) => Some(target),
            None => match &self.delegations {
                Some(delegations) => {
                    let roles = &delegations.roles;
                    let mut i: usize = 0;
                    while i < roles.len()
                        invariant
                            i <= roles.len(),
                            self.delegations == Some(*delegations),
                            roles == &delegations.roles,
                            first_named(self.targets@, name@) is None,
                            target_in_roles(roles@, name@, 0) == target_in_roles(
                                roles@,
                                name@,
                                i as int,
                            ),
                        decreases roles.len() - i,
                    {
                        match &roles[i].targets {
                            Some(signed) => {
                                match signed.signed.find_target(name) {
                                    Some(target) => {
                                        return Some(target);
                                    },
                                    None => {},
                                }
                            },
                            None => {},
                        }
                        i = i + 1;
                    }
                    None
                },
                None => None,
            },
        }
    }

    /// Finds a delegated role by name among the roles below this one. Each
    /// role is looked at before the roles below it.
    pub fn delegated_role<'a>(&'a self, name: &str) -> (r: Option<&'a DelegatedRole>)
        ensures
            match r {
                Some(role) => role_in(*self, name@) == Some(*role),
                None => role_in(*self, name@) is None,
            },
        decreases self,
    {
        match &self.delegations {
            Some(delegations) => {
                let roles = &delegations.roles;
                let mut i: usize = 0;
                while i < roles.len()
                    invariant
                        i <= roles.len(),
                        self.delegations == Some(*delegations),
                        roles == &delegations.roles,
                        role_in_roles(roles@, name@, 0) == role_in_roles(roles@, name@, i as int),
                    decreases roles.len() - i,
                {
                    if str_equal(roles[i].name.as_str(), name) {
                        return Some(&roles[i]);
                    }
                    match &roles[i].targets {
                        Some(signed) => {
                            match signed.signed.delegated_role(name) {
                                Some(role) => {
                                    return Some(role);
                                },
                                None => {},
                            }
                        },
                        None => {},
                    }
                    i = i + 1;
                }
                None
            },
            None => None,
        }
    }

    /// Lists the targets of this role and of the roles below it: the
    /// role's own targets first, then those of each delegated role in turn.
    pub fn targets_iter<'a>(&'a self) -> (r: Vec<&'a (String, Target)>)
        ensures
            pointed(r@) == all_targets_in(*self),
    {
        let mut list: Vec<&'a (String, Target)> = Vec::new();
        self.collect_targets(&mut list);
        list
    }

    /// Appends the targets of this role and of the roles below it to a
    /// list.
    fn collect_targets<'a>(&'a self, list: &mut Vec<&'a (String, Target)>)
        ensures
            pointed(final(list)@) == pointed(old(list)@) + all_targets_in(*self),
        decreases self,
    {
        let ghost start = pointed(list@);
        let mut k: usize = 0;
        while k < self.targets.len()
            invariant
                k <= self.targets.len(),
                pointed(list@) == start + self.targets@.take(k as int),
            decreases self.targets.len() - k,
        {
            let ghost before = list@;
            list.push(&self.targets[k]);
            assert(pointed(list@) =~= pointed(before).push(self.targets@[k as int]));
            k = k + 1;
        }
        match &self.delegations {
            Some(delegations) => {
                let roles = &delegations.roles;
                let ghost all = all_targets_in_roles(roles@, 0);
                let mut i: usize = 0;
                while i < roles.len()
                    invariant
                        i <= roles.len(),
                        self.delegations == Some(*delegations),
                        roles == &delegations.roles,
                        all == all_targets_in_roles(roles@, 0),
                        pointed(list@) + all_targets_in_roles(roles@, i as int) == start
                            + self.targets@ + all,
                    decreases roles.len() - i,
                {
                    let ghost rest = all_targets_in_roles(roles@, i + 1);
                    match &roles[i].targets {
                        Some(signed) => {
                            assert(self.delegations->0 == *delegations);
                            signed.signed.collect_targets(list);
                        },
                        None => {
                            assert(Seq::<(String, Target)>::empty() + rest =~= rest);
                        },
                    }
                    i = i + 1;
                }
            },
            None => {},
        }
    }
}

/// The values that a list of references points to.
pub open spec fn pointed<T>(list: Seq<&T>) -> Seq<T> {
    Seq::new(list.len(), |i: int| *list[i])
}

} // verus!
