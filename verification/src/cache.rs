//! Copies of a repository's files, kept for loading the repository again
//! without its server.

use crate::datastore::{
    Datastore, LATEST_KNOWN_TIME_FILE, SNAPSHOT_FILE, TARGETS_FILE, TIMESTAMP_FILE,
};
use crate::digest::sha256;
use crate::error::{outcome, Error, ErrorView};
use crate::request::{open, root_request};
use crate::names::{
    metadata_file_name, metadata_path, role_file_name, role_path, root_file_name, root_path,
    target_file_name, target_path,
};
use crate::load::{delegations_stored, keeps_files, roles_stored};
use crate::location::url_joined;
use crate::repository::Repository;
use crate::schema::{all_targets_in, pointed, target_in, DelegatedRole, Targets};
use crate::transport::Transport;
use vstd::prelude::*;
use vstd::string::*;

verus! {

/// The texts of a list of strings.
pub open spec fn texts(list: Seq<String>) -> Seq<Seq<char>> {
    Seq::new(list.len(), |i: int| list[i]@)
}

/// The names of the metadata files of the delegated roles below targets
/// metadata, each role before the roles below it. A role without targets
/// metadata has no file.
pub open spec fn role_files_in(targets: Targets, consistent_snapshot: bool) -> Seq<Seq<char>>
    decreases targets,
{
    match targets.delegations {
        Some(delegations) => role_files_in_roles(delegations.roles@, consistent_snapshot, 0),
        None => Seq::empty(),
    }
}

/// The names of the metadata files of the delegated roles from place `i`
/// on and of the roles below them.
pub open spec fn role_files_in_roles(
    roles: Seq<DelegatedRole>,
    consistent_snapshot: bool,
    i: int,
) -> Seq<Seq<char>>
    decreases roles, roles.len() - i,
{
    if 0 <= i < roles.len() {
        let rest = role_files_in_roles(roles, consistent_snapshot, i + 1);
        match roles[i].targets {
            Some(signed) => seq![
                metadata_file_name(
                    consistent_snapshot,
                    signed.signed.version as nat,
                    role_file_name(roles[i].name@),
                ),
            ] + role_files_in(signed.signed, consistent_snapshot) + rest,
            None => rest,
        }
    } else {
        Seq::empty()
    }
}

/// The file of a delegated role that has its targets metadata, and every
/// file of the roles below it, are among the files of the roles from any
/// earlier place on.
pub proof fn lemma_role_files_hold(
    roles: Seq<DelegatedRole>,
    consistent_snapshot: bool,
    i: int,
    j: int,
)
    requires
        0 <= i <= j < roles.len(),
        roles[j].targets is Some,
    ensures
        role_files_in_roles(roles, consistent_snapshot, i).contains(
            metadata_file_name(
                consistent_snapshot,
                roles[j].targets->0.signed.version as nat,
                role_file_name(roles[j].name@),
            ),
        ),
        forall|file: Seq<char>|
            role_files_in(roles[j].targets->0.signed, consistent_snapshot).contains(file)
                ==> #[trigger] role_files_in_roles(roles, consistent_snapshot, i).contains(file),
    decreases j - i,
{
    let all = role_files_in_roles(roles, consistent_snapshot, i);
    let rest = role_files_in_roles(roles, consistent_snapshot, i + 1);
    let head: Seq<Seq<char>> = match roles[i].targets {
        Some(signed) => seq![
            metadata_file_name(
                consistent_snapshot,
                signed.signed.version as nat,
                role_file_name(roles[i].name@),
            ),
        ] + role_files_in(signed.signed, consistent_snapshot),
        None => Seq::empty(),
    };
    assert(all =~= head + rest);
    if i == j {
        let below = role_files_in(roles[j].targets->0.signed, consistent_snapshot);
        assert(all[0] == head[0]);
        assert forall|file: Seq<char>| below.contains(file) implies all.contains(file) by {
            let k = choose|k: int| 0 <= k < below.len() && below[k] == file;
            assert(all[k + 1] == file);
        }
    } else {
        lemma_role_files_hold(roles, consistent_snapshot, i + 1, j);
        assert forall|file: Seq<char>| rest.contains(file) implies all.contains(file) by {
            let k = choose|k: int| 0 <= k < rest.len() && rest[k] == file;
            assert(all[head.len() + k] == file);
        }
    }
}

/// Whether a text begins with a decimal digit.
pub open spec fn begins_with_digit(text: Seq<char>) -> bool {
    text.len() > 0 && '0' <= text[0] <= '9'
}

/// A number in decimal begins with a digit.
pub proof fn lemma_decimal_begins_with_digit(n: nat)
    ensures
        begins_with_digit(crate::text::decimal(n)),
    decreases n,
{
    if n >= 10 {
        lemma_decimal_begins_with_digit(n / 10);
    }
}

/// In a repository with consistent snapshots the name of every metadata
/// file of a delegated role begins with a digit, that of its version.
pub proof fn lemma_versioned_role_files(targets: Targets, k: int)
    requires
        0 <= k < role_files_in(targets, true).len(),
    ensures
        begins_with_digit(role_files_in(targets, true)[k]),
    decreases targets,
{
    match targets.delegations {
        Some(delegations) => {
            lemma_versioned_role_files_from(delegations.roles@, 0, k);
        },
        None => {},
    }
}

proof fn lemma_versioned_role_files_from(roles: Seq<DelegatedRole>, i: int, k: int)
    requires
        0 <= i,
        0 <= k < role_files_in_roles(roles, true, i).len(),
    ensures
        begins_with_digit(role_files_in_roles(roles, true, i)[k]),
    decreases roles, roles.len() - i,
{
    if i < roles.len() {
        let all = role_files_in_roles(roles, true, i);
        let rest = role_files_in_roles(roles, true, i + 1);
        match roles[i].targets {
            Some(signed) => {
                let own = metadata_file_name(
                    true,
                    signed.signed.version as nat,
                    role_file_name(roles[i].name@),
                );
                let below = role_files_in(signed.signed, true);
                assert(all == seq![own] + below + rest);
                if k < 1 {
                    lemma_decimal_begins_with_digit(signed.signed.version as nat);
                    let number = crate::text::decimal(signed.signed.version as nat);
                    assert(own[0] == number[0]);
                    assert(all[k] == own);
                } else if k < 1 + below.len() {
                    lemma_versioned_role_files(signed.signed, k - 1);
                    assert(all[k] == below[k - 1]);
                } else {
                    lemma_versioned_role_files_from(roles, i + 1, k - 1 - below.len());
                    assert(all[k] == rest[k - 1 - below.len()]);
                }
            },
            None => {
                lemma_versioned_role_files_from(roles, i + 1, k);
            },
        }
    }
}

/// In a repository with consistent snapshots no metadata file of a
/// delegated role goes by the name of the timestamp, the snapshot, the
/// top-level targets metadata or the clock record in the datastore.
pub proof fn lemma_versioned_role_files_stand_apart(targets: Targets)
    ensures
        !role_files_in(targets, true).contains(TIMESTAMP_FILE@),
        !role_files_in(targets, true).contains(SNAPSHOT_FILE@),
        !role_files_in(targets, true).contains(TARGETS_FILE@),
        !role_files_in(targets, true).contains(LATEST_KNOWN_TIME_FILE@),
{
    reveal_strlit("timestamp.json");
    reveal_strlit("snapshot.json");
    reveal_strlit("targets.json");
    reveal_strlit("latest_known_time.json");
    let files = role_files_in(targets, true);
    assert forall|k: int| 0 <= k < files.len() implies begins_with_digit(#[trigger] files[k]) by {
        lemma_versioned_role_files(targets, k);
    }
    assert(!begins_with_digit(TIMESTAMP_FILE@));
    assert(!begins_with_digit(SNAPSHOT_FILE@));
    assert(!begins_with_digit(TARGETS_FILE@));
    assert(!begins_with_digit(LATEST_KNOWN_TIME_FILE@));
}

/// Appends the names of the metadata files of the delegated roles below
/// targets metadata to a list.
fn collect_role_files(targets: &Targets, consistent_snapshot: bool, list: &mut Vec<String>)
    ensures
        texts(final(list)@) == texts(old(list)@) + role_files_in(*targets, consistent_snapshot),
    decreases targets,
{
    let ghost start = texts(list@);
    match &targets.delegations {
        Some(delegations) => {
            let roles = &delegations.roles;
            let ghost all = role_files_in_roles(roles@, consistent_snapshot, 0);
            let mut i: usize = 0;
            while i < roles.len()
                invariant
                    i <= roles.len(),
                    targets.delegations == Some(*delegations),
                    roles == &delegations.roles,
                    all == role_files_in_roles(roles@, consistent_snapshot, 0),
                    texts(list@) + role_files_in_roles(roles@, consistent_snapshot, i as int)
                        == start + all,
                decreases roles.len() - i,
            {
                match &roles[i].targets {
                    Some(signed) => {
                        let file = role_path(roles[i].name.as_str());
                        let path = metadata_path(
                            consistent_snapshot,
                            signed.signed.version,
                            file.as_str(),
                        );
                        list.push(path);
                        assert(targets.delegations->0 == *delegations);
                        collect_role_files(&signed.signed, consistent_snapshot, list);
                    },
                    None => {},
                }
                i = i + 1;
            }
        },
        None => {
            assert(start + Seq::<Seq<char>>::empty() =~= start);
        },
    }
}

/// A store that holds the files of the delegated roles holds every file
/// that `role_files_in` names.
pub proof fn lemma_role_files_stored(
    targets: Targets,
    consistent_snapshot: bool,
    store: Map<Seq<char>, Seq<u8>>,
)
    requires
        targets.delegations matches Some(delegations) ==> delegations_stored(
            delegations,
            consistent_snapshot,
            store,
        ),
    ensures
        forall|k: int|
            0 <= k < role_files_in(targets, consistent_snapshot).len() ==> store.contains_key(
                #[trigger] role_files_in(targets, consistent_snapshot)[k],
            ),
    decreases targets,
{
    match targets.delegations {
        Some(delegations) => {
            lemma_role_files_stored_from(delegations, consistent_snapshot, store, 0);
            assert(role_files_in(targets, consistent_snapshot) == role_files_in_roles(
                delegations.roles@,
                consistent_snapshot,
                0,
            ));
        },
        None => {},
    }
}

proof fn lemma_role_files_stored_from(
    parent: crate::schema::Delegations,
    consistent_snapshot: bool,
    store: Map<Seq<char>, Seq<u8>>,
    i: int,
)
    requires
        0 <= i,
        roles_stored(parent, consistent_snapshot, store, i),
    ensures
        forall|k: int|
            0 <= k < role_files_in_roles(parent.roles@, consistent_snapshot, i).len()
                ==> store.contains_key(
                #[trigger] role_files_in_roles(parent.roles@, consistent_snapshot, i)[k],
            ),
    decreases parent.roles@, parent.roles@.len() - i,
{
    if i < parent.roles@.len() {
        lemma_role_files_stored_from(parent, consistent_snapshot, store, i + 1);
        let rest = role_files_in_roles(parent.roles@, consistent_snapshot, i + 1);
        let signed = parent.roles@[i].targets->0;
        lemma_role_files_stored(signed.signed, consistent_snapshot, store);
        let own = seq![
            metadata_file_name(
                consistent_snapshot,
                signed.signed.version as nat,
                role_file_name(parent.roles@[i].name@),
            ),
        ];
        let below = role_files_in(signed.signed, consistent_snapshot);
        let all = role_files_in_roles(parent.roles@, consistent_snapshot, i);
        assert(all == own + below + rest);
        assert forall|k: int| 0 <= k < all.len() implies store.contains_key(#[trigger] all[k]) by {
            if k < 1 {
                assert(all[k] == own[k]);
            } else if k < 1 + below.len() {
                assert(all[k] == below[k - 1]);
            } else {
                assert(all[k] == rest[k - 1 - below.len()]);
            }
        }
    }
}

/// The names of the three top-level metadata files that a cache holds are
/// three different names, whatever the versions.
pub proof fn lemma_metadata_names_differ(
    consistent_snapshot: bool,
    snapshot_version: nat,
    targets_version: nat,
)
    ensures
        metadata_file_name(consistent_snapshot, snapshot_version, SNAPSHOT_FILE@)
            != metadata_file_name(consistent_snapshot, targets_version, TARGETS_FILE@),
        metadata_file_name(consistent_snapshot, snapshot_version, SNAPSHOT_FILE@)
            != TIMESTAMP_FILE@,
        metadata_file_name(consistent_snapshot, targets_version, TARGETS_FILE@) != TIMESTAMP_FILE@,
{
    reveal_strlit("timestamp.json");
    reveal_strlit("snapshot.json");
    reveal_strlit("targets.json");
    let s = metadata_file_name(consistent_snapshot, snapshot_version, SNAPSHOT_FILE@);
    let t = metadata_file_name(consistent_snapshot, targets_version, TARGETS_FILE@);
    let m = TIMESTAMP_FILE@;
    assert(s.len() >= 13 && s[s.len() - 6] == 't') by {
        if consistent_snapshot {
            let prefix = crate::text::decimal(snapshot_version) + "."@;
            assert(s =~= prefix + SNAPSHOT_FILE@);
            assert(s[prefix.len() as int + 7] == SNAPSHOT_FILE@[7]);
        }
    }
    assert(t.len() >= 12 && t[t.len() - 6] == 's') by {
        if consistent_snapshot {
            let prefix = crate::text::decimal(targets_version) + "."@;
            assert(t =~= prefix + TARGETS_FILE@);
            assert(t[prefix.len() as int + 6] == TARGETS_FILE@[6]);
        }
    }
}

impl<T: Transport> Repository<T> {
    /// The name under which the repository serves its snapshot.
    pub open spec fn snapshot_file(&self) -> Seq<char> {
        metadata_file_name(
            self.consistent_snapshot_spec(),
            self.snapshot_spec().signed.version as nat,
            SNAPSHOT_FILE@,
        )
    }

    /// The name under which the repository serves its top-level targets
    /// metadata.
    pub open spec fn targets_file(&self) -> Seq<char> {
        metadata_file_name(
            self.consistent_snapshot_spec(),
            self.targets_spec().signed.version as nat,
            TARGETS_FILE@,
        )
    }

    /// The names under which the repository serves the metadata of its
    /// delegated roles.
    pub open spec fn role_files(&self) -> Seq<Seq<char>> {
        role_files_in(self.targets_spec().signed, self.consistent_snapshot_spec())
    }

    /// The name under which the repository serves a target, if it lists
    /// the target.
    pub open spec fn target_file(&self, name: Seq<char>) -> Option<Seq<char>> {
        match target_in(self.targets_spec().signed, name) {
            Some(target) => Some(
                target_file_name(self.consistent_snapshot_spec(), target.sha256@, name),
            ),
            None => None,
        }
    }

    /// Whether `bytes` may be the content of the target `name`: the
    /// repository lists the target, and the bytes have its digest and at
    /// most its length.
    pub open spec fn is_target(&self, name: Seq<char>, bytes: Seq<u8>) -> bool {
        target_in(self.targets_spec().signed, name) matches Some(target) && sha256(bytes)
            == target.sha256@ && bytes.len() <= target.length
    }

    /// The names of all targets that the repository lists, in the order of
    /// `all_targets`.
    pub open spec fn listed_names(&self) -> Seq<Seq<char>> {
        Seq::new(
            all_targets_in(self.targets_spec().signed).len(),
            |i: int| all_targets_in(self.targets_spec().signed)[i].0@,
        )
    }

    /// The names of the targets that a copy is to hold: those that are
    /// named, or else all that the repository lists.
    pub open spec fn wanted(&self, targets_subset: Option<&Vec<String>>) -> Seq<Seq<char>> {
        match targets_subset {
            Some(names) => texts(names@),
            None => self.listed_names(),
        }
    }

    /// Whether `file` is the name of a root metadata file of a version
    /// from the first to `newest`.
    pub open spec fn is_root_file(file: Seq<char>, newest: u64) -> bool {
        exists|version: nat| 1 <= version <= newest && #[trigger] root_file_name(version) == file
    }

    /// Whether every file of `after` that is no root metadata file of a
    /// version from the first to `newest` is a file of `before`, with the
    /// content that it had there.
    pub open spec fn only_roots_written(
        before: Map<Seq<char>, Seq<u8>>,
        after: Map<Seq<char>, Seq<u8>>,
        newest: u64,
    ) -> bool {
        forall|file: Seq<char>|
            !Self::is_root_file(file, newest) ==> (#[trigger] after.contains_key(file)
                ==> before.contains_key(file) && after[file] == before[file])
    }

    /// Whether the first of the targets `names` is one that the repository
    /// does not list.
    pub open spec fn first_unlisted(&self, names: Seq<Seq<char>>) -> bool {
        names.len() > 0 && self.target_file(names[0]) is None
    }

    /// Whether `file` with the content `bytes` is a copy of one of the
    /// targets `names`.
    pub open spec fn copy_of_one(
        &self,
        names: Seq<Seq<char>>,
        file: Seq<char>,
        bytes: Seq<u8>,
    ) -> bool {
        exists|i: int|
            0 <= i < names.len() && self.target_file(#[trigger] names[i]) == Some(file)
                && self.is_target(names[i], bytes)
    }

    /// Whether `after` is `before` with nothing but copies of the targets
    /// `names` written to it: no file is gone, and every file either is as
    /// it was before or is a copy of one of the targets.
    pub open spec fn only_copies(
        &self,
        names: Seq<Seq<char>>,
        before: Map<Seq<char>, Seq<u8>>,
        after: Map<Seq<char>, Seq<u8>>,
    ) -> bool {
        &&& keeps_files(before, after)
        &&& forall|file: Seq<char>| #[trigger]
            after.contains_key(file) ==> (before.contains_key(file) && after[file] == before[file])
                || self.copy_of_one(names, file, after[file])
    }

    /// What a copy of targets leaves in `after`, given what was in
    /// `before`: every one of the targets `names` has a file, and nothing
    /// but copies of these targets was written.
    pub open spec fn targets_copied(
        &self,
        names: Seq<Seq<char>>,
        before: Map<Seq<char>, Seq<u8>>,
        after: Map<Seq<char>, Seq<u8>>,
    ) -> bool {
        &&& forall|i: int|
            0 <= i < names.len() ==> (self.target_file(#[trigger] names[i]) matches Some(file)
                && after.contains_key(file))
        &&& self.only_copies(names, before, after)
    }

    /// What a copy of targets that failed with `e` leaves in `after`: the
    /// targets before place `i` are copied, and the target at place `i`
    /// could not be. The failure is `CacheTargetMissing` if and only if
    /// the repository does not list that target.
    pub open spec fn stopped_at(
        &self,
        names: Seq<Seq<char>>,
        i: int,
        before: Map<Seq<char>, Seq<u8>>,
        after: Map<Seq<char>, Seq<u8>>,
        e: Error,
    ) -> bool {
        &&& 0 <= i < names.len()
        &&& self.targets_copied(names.take(i), before, after)
        &&& e is CacheTargetMissing <==> self.target_file(names[i]) is None
        &&& e is CacheTargetMissing ==> e@ == (ErrorView::CacheTargetMissing {
            target_name: names[i],
        })
    }

    /// What was written as a copy of one of the first targets of a list
    /// is a copy of one of the targets of the list.
    pub proof fn lemma_copy_of_one_of_more(
        &self,
        names: Seq<Seq<char>>,
        i: int,
        file: Seq<char>,
        bytes: Seq<u8>,
    )
        requires
            0 <= i <= names.len(),
            self.copy_of_one(names.take(i), file, bytes),
        ensures
            self.copy_of_one(names, file, bytes),
    {
        let first = names.take(i);
        let w = choose|w: int|
            0 <= w < first.len() && self.target_file(#[trigger] first[w]) == Some(file)
                && self.is_target(first[w], bytes);
        assert(names[w] == first[w]);
    }

    /// Where nothing but copies of the first targets of a list was
    /// written, nothing but copies of targets of the list was written.
    pub proof fn lemma_only_copies_of_more(
        &self,
        names: Seq<Seq<char>>,
        i: int,
        before: Map<Seq<char>, Seq<u8>>,
        after: Map<Seq<char>, Seq<u8>>,
    )
        requires
            0 <= i <= names.len(),
            self.only_copies(names.take(i), before, after),
        ensures
            self.only_copies(names, before, after),
    {
        assert forall|file: Seq<char>| #[trigger] after.contains_key(file) implies (
        before.contains_key(file) && after[file] == before[file]) || self.copy_of_one(
            names,
            file,
            after[file],
        ) by {
            if !(before.contains_key(file) && after[file] == before[file]) {
                self.lemma_copy_of_one_of_more(names, i, file, after[file]);
            }
        }
    }

    /// What a copy of the metadata leaves in `after`: the timestamp, the
    /// snapshot and the top-level targets metadata as the datastore holds
    /// them, each under the name by which the repository serves it; a
    /// file for every delegated role; and, if they are asked for, a file
    /// for every root from the first to the trusted one.
    pub open spec fn metadata_copied(
        &self,
        after: Map<Seq<char>, Seq<u8>>,
        root_chain: bool,
    ) -> bool {
        &&& after.contains_key(TIMESTAMP_FILE@)
        &&& after[TIMESTAMP_FILE@] == self.files()[TIMESTAMP_FILE@]
        &&& after.contains_key(self.snapshot_file())
        &&& after[self.snapshot_file()] == self.files()[SNAPSHOT_FILE@]
        &&& after.contains_key(self.targets_file())
        &&& after[self.targets_file()] == self.files()[TARGETS_FILE@]
        &&& forall|i: int|
            0 <= i < self.role_files().len() ==> after.contains_key(#[trigger] self.role_files()[i])
        &&& root_chain ==> forall|version: nat|
            1 <= version <= self.root_spec().signed.version ==> after.contains_key(
                #[trigger] root_file_name(version),
            )
    }

    /// Copies one file of the datastore into `outdir`, under a name of its
    /// own there.
    fn cache_file(&self, stored: &str, name: &str, outdir: &mut Datastore)
        requires
            self.files().contains_key(stored@),
        ensures
            final(outdir)@ == old(outdir)@.insert(name@, self.files()[stored@]),
    {
        match self.datastore().get(stored) {
            Some(bytes) => {
                outdir.create(name, bytes);
            },
            None => {},
        }
    }

    /// Fetches the root metadata files from the trusted version down to
    /// the first into `outdir`, each under its name below the metadata
    /// base and cut off at the limit for a root file. The first file that
    /// cannot be fetched ends the copy with its failure; the files of the
    /// versions above it are written then. No other file is touched.
    fn cache_root_chain(&self, outdir: &mut Datastore) -> (r: Result<(), Error>)
        ensures
            r is Ok ==> forall|version: nat|
                1 <= version <= self.root_spec().signed.version ==> final(outdir)@.contains_key(
                    #[trigger] root_file_name(version),
                ) && final(outdir)@[root_file_name(version)].len()
                    <= self.limits_spec().max_root_size,
            r matches Err(e) ==> e is JoinUrl || e is Transport || e is MaxSizeExceeded,
            forall|file: Seq<char>| #[trigger]
                old(outdir)@.contains_key(file) ==> final(outdir)@.contains_key(file),
            Self::only_roots_written(
                old(outdir)@,
                final(outdir)@,
                self.root_spec().signed.version,
            ),
            self.root_spec().signed.version == 0 ==> r is Ok && final(outdir)@ == old(outdir)@,
            self.root_spec().signed.version > 0 && url_joined(
                self.metadata_base_spec(),
                root_file_name(self.root_spec().signed.version as nat),
            ) is None ==> final(outdir)@ == old(outdir)@ && outcome(r) == Err::<(), ErrorView>(
                ErrorView::JoinUrl {
                    path: root_file_name(self.root_spec().signed.version as nat),
                    url: self.metadata_base_spec(),
                },
            ),
    {
        let newest = self.root().signed.version;
        let mut version = newest;
        let limits = self.limits_used();
        while version > 0
            invariant
                version <= newest,
                newest == self.root_spec().signed.version,
                limits == self.limits_spec(),
                version == newest ==> outdir@ == old(outdir)@,
                version < newest ==> url_joined(
                    self.metadata_base_spec(),
                    root_file_name(newest as nat),
                ) is Some,
                forall|v: nat|
                    version < v <= newest ==> outdir@.contains_key(#[trigger] root_file_name(v))
                        && outdir@[root_file_name(v)].len() <= limits.max_root_size,
                forall|file: Seq<char>| #[trigger]
                    old(outdir)@.contains_key(file) ==> outdir@.contains_key(file),
                Self::only_roots_written(old(outdir)@, outdir@, newest),
            decreases version,
        {
            let path = root_path(version as u128);
            let request = match root_request(
                self.metadata_base(),
                version as u128,
                limits.max_root_size,
            ) {
                Ok(request) => request,
                Err(e) => {
                    return Err(e);
                },
            };
            let reader = match open(self.transport_used(), &request) {
                Ok(reader) => reader,
                Err(e) => {
                    return Err(e);
                },
            };
            let bytes = match reader.read_all() {
                Ok(bytes) => bytes,
                Err(e) => {
                    return Err(e);
                },
            };
            let ghost before = outdir@;
            outdir.create(path.as_str(), bytes);
            proof {
                assert(Self::is_root_file(path@, newest)) by {
                    assert(root_file_name(version as nat) == path@);
                }
                assert forall|v: nat| version - 1 < v <= newest implies outdir@.contains_key(
                    #[trigger] root_file_name(v),
                ) && outdir@[root_file_name(v)].len() <= limits.max_root_size by {
                    if root_file_name(v) != path@ {
                        assert(before.contains_key(root_file_name(v)));
                    }
                }
            }
            version = version - 1;
        }
        Ok(())
    }

    /// Copies the metadata that the repository holds into `outdir`: the
    /// timestamp, the snapshot, the top-level targets metadata and that of
    /// every delegated role, each as the datastore holds it and under the
    /// name by which the repository serves it. With `cache_root_chain`,
    /// the root metadata files from the first version to the trusted one
    /// are fetched as well; only that can fail.
    pub fn cache_metadata(&self, outdir: &mut Datastore, cache_root_chain: bool) -> (r: Result<
        (),
        Error,
    >)
        requires
            self.wf(),
        ensures
            r is Ok ==> self.metadata_copied(final(outdir)@, cache_root_chain),
            !cache_root_chain || self.root_spec().signed.version == 0 ==> r is Ok,
            r matches Err(e) ==> e is JoinUrl || e is Transport || e is MaxSizeExceeded,
            forall|file: Seq<char>| #[trigger]
                old(outdir)@.contains_key(file) ==> final(outdir)@.contains_key(file),
    {
        let consistent_snapshot = self.consistent_snapshot();
        let mut role_files: Vec<String> = Vec::new();
        collect_role_files(&self.targets().signed, consistent_snapshot, &mut role_files);
        proof {
            lemma_role_files_stored(
                self.targets_spec().signed,
                self.consistent_snapshot_spec(),
                self.files(),
            );
        }
        let mut i: usize = 0;
        while i < role_files.len()
            invariant
                i <= role_files.len(),
                texts(role_files@) == self.role_files(),
                forall|k: int|
                    0 <= k < self.role_files().len() ==> self.files().contains_key(
                        #[trigger] self.role_files()[k],
                    ),
                forall|k: int|
                    0 <= k < i ==> outdir@.contains_key(#[trigger] self.role_files()[k]),
                forall|file: Seq<char>| #[trigger]
                    old(outdir)@.contains_key(file) ==> outdir@.contains_key(file),
            decreases role_files.len() - i,
        {
            assert(texts(role_files@)[i as int] == role_files@[i as int]@);
            self.cache_file(role_files[i].as_str(), role_files[i].as_str(), outdir);
            i = i + 1;
        }
        if cache_root_chain {
            match self.cache_root_chain(outdir) {
                Ok(()) => {},
                Err(e) => {
                    return Err(e);
                },
            }
        }
        let snapshot_path = metadata_path(
            consistent_snapshot,
            self.snapshot().signed.version,
            SNAPSHOT_FILE,
        );
        self.cache_file(SNAPSHOT_FILE, snapshot_path.as_str(), outdir);
        let targets_path = metadata_path(
            consistent_snapshot,
            self.targets().signed.version,
            TARGETS_FILE,
        );
        self.cache_file(TARGETS_FILE, targets_path.as_str(), outdir);
        self.cache_file(TIMESTAMP_FILE, TIMESTAMP_FILE, outdir);
        proof {
            lemma_metadata_names_differ(
                consistent_snapshot,
                self.snapshot_spec().signed.version as nat,
                self.targets_spec().signed.version as nat,
            );
        }
        Ok(())
    }

    /// Reads one target to its end and writes it into `outdir`, under the
    /// name by which the repository serves it. A target that the
    /// repository does not list is refused before anything is read. If the
    /// copy fails, `outdir` stays as it was.
    fn cache_target(&mut self, outdir: &mut Datastore, name: &str) -> (r: Result<(), Error>)
        ensures
            old(self).same_metadata(final(self)),
            old(self).wf() ==> final(self).wf(),
            keeps_files(old(self).files(), final(self).files()),
            match r {
                Ok(()) => {
                    &&& old(self).clock_consulted(final(self), false)
                    &&& old(self).target_file(name@) matches Some(file)
                    &&& final(outdir)@.contains_key(file)
                    &&& old(self).is_target(name@, final(outdir)@[file])
                    &&& final(outdir)@.remove(file) == old(outdir)@.remove(file)
                },
                Err(e) => {
                    &&& final(outdir)@ == old(outdir)@
                    &&& e is CacheTargetMissing <==> old(self).target_file(name@) is None
                    &&& e is CacheTargetMissing ==> e@ == (ErrorView::CacheTargetMissing {
                        target_name: name@,
                    }) && final(self).files() == old(self).files()
                },
            },
            old(self).target_file(name@) is None ==> r is Err,
    {
        let path = match self.targets().signed.find_target(name) {
            Some(target) => target_path(self.consistent_snapshot(), target.sha256.as_slice(), name),
            None => {
                return Err(Error::CacheTargetMissing { target_name: String::from_str(name) });
            },
        };
        let reader = match self.read_target(name) {
            Ok(Some(reader)) => reader,
            Ok(None) => {
                return Err(Error::CacheTargetMissing { target_name: String::from_str(name) });
            },
            Err(e) => {
                return Err(e);
            },
        };
        let bytes = match reader.read_all() {
            Ok(bytes) => bytes,
            Err(e) => {
                return Err(e);
            },
        };
        outdir.create(path.as_str(), bytes);
        Ok(())
    }

    /// Copies the repository for loading it again without its server: the
    /// targets into `targets_outdir` and the metadata into
    /// `metadata_outdir`.
    ///
    /// With `targets_subset`, the targets of these names are copied, and
    /// else all targets that the repository lists. Each target is read
    /// through `read_target`, so that only bytes with the listed length
    /// and digest are kept, and is written under the name by which the
    /// repository serves it. The first target that cannot be copied ends
    /// the copy with its failure, before any metadata is written. The
    /// metadata is copied as `cache_metadata` copies it.
    pub fn cache(
        &mut self,
        metadata_outdir: &mut Datastore,
        targets_outdir: &mut Datastore,
        targets_subset: Option<&Vec<String>>,
        cache_root_chain: bool,
    ) -> (r: Result<(), Error>)
        requires
            old(self).wf(),
        ensures
            old(self).same_metadata(final(self)),
            final(self).wf(),
            keeps_files(old(self).files(), final(self).files()),
            keeps_files(old(metadata_outdir)@, final(metadata_outdir)@),
            old(self).only_copies(
                old(self).wanted(targets_subset),
                old(targets_outdir)@,
                final(targets_outdir)@,
            ),
            match r {
                Ok(()) => {
                    &&& final(self).metadata_copied(final(metadata_outdir)@, cache_root_chain)
                    &&& old(self).targets_copied(
                        old(self).wanted(targets_subset),
                        old(targets_outdir)@,
                        final(targets_outdir)@,
                    )
                },
                Err(e) => {
                    ||| {
                        &&& final(metadata_outdir)@ == old(metadata_outdir)@
                        &&& exists|i: int| #[trigger]
                            old(self).stopped_at(
                                old(self).wanted(targets_subset),
                                i,
                                old(targets_outdir)@,
                                final(targets_outdir)@,
                                e,
                            )
                    }
                    ||| {
                        &&& cache_root_chain
                        &&& e is JoinUrl || e is Transport || e is MaxSizeExceeded
                        &&& old(self).targets_copied(
                            old(self).wanted(targets_subset),
                            old(targets_outdir)@,
                            final(targets_outdir)@,
                        )
                    }
                },
            },
            old(self).wanted(targets_subset).len() == 0 ==> {
                &&& final(targets_outdir)@ == old(targets_outdir)@
                &&& !cache_root_chain || old(self).root_spec().signed.version == 0 ==> r is Ok
            },
            old(self).first_unlisted(old(self).wanted(targets_subset)) ==> {
                &&& final(metadata_outdir)@ == old(metadata_outdir)@
                &&& final(targets_outdir)@ == old(targets_outdir)@
                &&& outcome(r) == Err::<(), ErrorView>(
                    ErrorView::CacheTargetMissing {
                        target_name: old(self).wanted(targets_subset)[0],
                    },
                )
            },
    {
        let all: Vec<String>;
        let names: &Vec<String> = match targets_subset {
            Some(names) => names,
            None => {
                all = self.all_target_names();
                &all
            },
        };
        match self.cache_targets(targets_outdir, names) {
            Ok(()) => {},
            Err(e) => {
                return Err(e);
            },
        }
        self.cache_metadata(metadata_outdir, cache_root_chain)
    }

    /// The names of all targets that the repository lists, in the order of
    /// `all_targets`.
    fn all_target_names(&self) -> (names: Vec<String>)
        ensures
            texts(names@) == self.listed_names(),
    {
        let listed = self.all_targets();
        let ghost all = all_targets_in(self.targets_spec().signed);
        let mut names: Vec<String> = Vec::new();
        let mut i: usize = 0;
        while i < listed.len()
            invariant
                i <= listed.len(),
                pointed(listed@) == all,
                names@.len() == i,
                forall|k: int| 0 <= k < i ==> (#[trigger] names@[k])@ == all[k].0@,
            decreases listed.len() - i,
        {
            names.push(listed[i].0.clone());
            i = i + 1;
        }
        assert(texts(names@) =~= self.listed_names());
        names
    }

    /// Copies the targets of the given names into `outdir`, one after the
    /// other. The first target that cannot be copied ends the copy with
    /// its failure; the targets before it are copied then.
    fn cache_targets(&mut self, outdir: &mut Datastore, names: &Vec<String>) -> (r: Result<
        (),
        Error,
    >)
        ensures
            old(self).same_metadata(final(self)),
            old(self).wf() ==> final(self).wf(),
            keeps_files(old(self).files(), final(self).files()),
            old(self).only_copies(texts(names@), old(outdir)@, final(outdir)@),
            match r {
                Ok(()) => old(self).targets_copied(texts(names@), old(outdir)@, final(outdir)@),
                Err(e) => exists|i: int| #[trigger]
                    old(self).stopped_at(texts(names@), i, old(outdir)@, final(outdir)@, e),
            },
            names@.len() == 0 ==> r is Ok && final(outdir)@ == old(outdir)@ && final(self).files()
                == old(self).files(),
            old(self).first_unlisted(texts(names@)) ==> {
                &&& final(outdir)@ == old(outdir)@
                &&& outcome(r) == Err::<(), ErrorView>(
                    ErrorView::CacheTargetMissing { target_name: texts(names@)[0] },
                )
            },
    {
        let ghost start = outdir@;
        let ghost me = *self;
        let ghost wanted = texts(names@);
        let mut i: usize = 0;
        assert(wanted.take(0) =~= Seq::<Seq<char>>::empty());
        while i < names.len()
            invariant
                i <= names.len(),
                me.same_metadata(&*self),
                me == *old(self),
                me.wf() ==> self.wf(),
                keeps_files(me.files(), self.files()),
                start == old(outdir)@,
                wanted == texts(names@),
                i == 0 ==> outdir@ == start && self.files() == me.files(),
                i > 0 ==> me.target_file(wanted[0]) is Some,
                me.targets_copied(wanted.take(i as int), start, outdir@),
            decreases names.len() - i,
        {
            let ghost before = outdir@;
            let ghost done = wanted.take(i as int);
            let ghost next = wanted.take(i + 1);
            assert(wanted[i as int] == names@[i as int]@);
            match self.cache_target(outdir, names[i].as_str()) {
                Ok(()) => {},
                Err(e) => {
                    proof {
                        assert(me.stopped_at(wanted, i as int, start, outdir@, e));
                        me.lemma_only_copies_of_more(wanted, i as int, start, outdir@);
                    }
                    return Err(e);
                },
            }
            proof {
                let added = me.target_file(wanted[i as int])->0;
                assert(next[i as int] == wanted[i as int]);
                assert forall|k: int| 0 <= k < next.len() implies (me.target_file(
                    #[trigger] next[k],
                ) matches Some(file) && outdir@.contains_key(file)) by {
                    if k < i {
                        assert(next[k] == done[k]);
                        let file = me.target_file(done[k])->0;
                        assert(before.contains_key(file));
                        if file != added {
                            assert(outdir@.remove(added).contains_key(file));
                        }
                    }
                }
                assert forall|file: Seq<char>| #[trigger]
                    start.contains_key(file) implies outdir@.contains_key(file) by {
                    assert(before.contains_key(file));
                    if file != added {
                        assert(before.remove(added).contains_key(file));
                        assert(outdir@.remove(added).contains_key(file));
                    }
                }
                assert forall|file: Seq<char>| #[trigger] outdir@.contains_key(file) implies (
                start.contains_key(file) && outdir@[file] == start[file]) || me.copy_of_one(
                    next,
                    file,
                    outdir@[file],
                ) by {
                    if file == added {
                        assert(me.target_file(#[trigger] next[i as int]) == Some(file)
                            && me.is_target(next[i as int], outdir@[file]));
                    } else {
                        assert(outdir@.remove(added).contains_key(file));
                        assert(before.remove(added)[file] == before[file]);
                        assert(outdir@.remove(added)[file] == outdir@[file]);
                        assert(before.contains_key(file));
                        if !(start.contains_key(file) && before[file] == start[file]) {
                            let w = choose|w: int|
                                0 <= w < done.len() && me.target_file(#[trigger] done[w]) == Some(
                                    file,
                                ) && me.is_target(done[w], before[file]);
                            assert(next[w] == done[w]);
                            assert(me.target_file(#[trigger] next[w]) == Some(file)
                                && me.is_target(next[w], outdir@[file]));
                        }
                    }
                }
                assert(next[0] == wanted[0]);
            }
            i = i + 1;
        }
        assert(wanted.take(i as int) =~= wanted);
        Ok(())
    }
}

} // verus!
