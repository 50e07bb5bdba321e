//! A repository whose metadata is loaded and checked, and the settings to
//! load one with.

use crate::checks::{earliest_expiration, is_earliest, keys_changed, self_signed, signed_by};
use crate::clock::{check_expiration_ahead, recorded_ahead, recorded_not_ahead};
use crate::datastore::{
    lemma_file_names_differ, Datastore, SNAPSHOT_FILE, TARGETS_FILE, TIMESTAMP_FILE,
};
use crate::digest::MAX_DIGEST_INPUT;
use crate::enforcement::ExpirationEnforcement;
use crate::error::{Error, ErrorView};
use crate::fetch::BoundedReader;
use crate::limits::{default_limits, Limits};
use crate::load::{
    after_root_walk, clock_failure, delegations_listed, delegations_stored, digest_limit,
    keeps_files, lemma_only_clock_touched_elsewhere, lemma_only_wrote_elsewhere,
    lemma_stored_stays, load_root, load_snapshot, load_targets, load_timestamp,
    MAX_DELEGATION_DEPTH,
};
use crate::names::target_file_name;
use crate::location::{normalized, parse_url, url_joined, Url};
use crate::request::{
    open, request_for, target_request, FetchRequestView, MAX_ROOT_SIZE_SPECIFIER,
    MAX_TARGETS_SIZE_SPECIFIER, MAX_TIMESTAMP_SIZE_SPECIFIER,
};
use crate::schema::{
    all_targets_in, delegations_verified, first_named, pointed, role_in, target_in,
    DelegatedRole, RoleType, Root, Schema, Signed, Snapshot, Target, Targets, Timestamp,
};
use crate::time::UtcTime;
use crate::transport::Transport;
use vstd::prelude::*;

verus! {

/// The settings to load a repository with.
///
/// `new` takes what every load needs. The other settings have defaults and
/// can be set one by one before `load` is called.
pub struct RepositoryLoader<T: Transport, S: Schema> {
    root: Vec<u8>,
    metadata_base_url: Url,
    targets_base_url: Url,
    transport: T,
    schema: S,
    limits: Option<Limits>,
    datastore: Option<Datastore>,
    expiration_enforcement: Option<ExpirationEnforcement>,
}

/// The settings of a loader as mathematical values.
pub struct LoaderView {
    /// The bytes of the trusted root.
    pub root: Seq<u8>,
    /// The URL below which the metadata is found.
    pub metadata_base_url: Seq<char>,
    /// The URL below which the targets are found.
    pub targets_base_url: Seq<char>,
    /// The limits, where they are set.
    pub limits: Option<Limits>,
    /// The files of the datastore, where one is set.
    pub datastore: Option<Map<Seq<char>, Seq<u8>>>,
    /// Whether expirations are enforced, where that is set.
    pub expiration_enforcement: Option<ExpirationEnforcement>,
}

impl LoaderView {
    /// The limits that a load with these settings uses.
    pub open spec fn limits_used(self) -> Limits {
        match self.limits {
            Some(limits) => limits,
            None => default_limits(),
        }
    }

    /// Whether a load with these settings enforces expirations.
    pub open spec fn enforcement_used(self) -> ExpirationEnforcement {
        match self.expiration_enforcement {
            Some(enforcement) => enforcement,
            None => ExpirationEnforcement::Safe,
        }
    }

    /// The files that a load with these settings starts from.
    pub open spec fn files_used(self) -> Map<Seq<char>, Seq<u8>> {
        match self.datastore {
            Some(files) => files,
            None => Map::empty(),
        }
    }
}

impl<T: Transport, S: Schema> View for RepositoryLoader<T, S> {
    type V = LoaderView;

    closed spec fn view(&self) -> LoaderView {
        LoaderView {
            root: self.root@,
            metadata_base_url: self.metadata_base_url@,
            targets_base_url: self.targets_base_url@,
            limits: self.limits,
            datastore: match self.datastore {
                Some(datastore) => Some(datastore@),
                None => None,
            },
            expiration_enforcement: self.expiration_enforcement,
        }
    }
}

impl<T: Transport, S: Schema> RepositoryLoader<T, S> {
    /// The transport that a load with these settings opens files with.
    pub closed spec fn transport_spec(&self) -> T {
        self.transport
    }

    /// The schema that a load with these settings reads metadata with.
    pub closed spec fn schema_spec(&self) -> S {
        self.schema
    }

    /// The settings for a load.
    ///
    /// `root` holds the bytes of the trusted root metadata file, which
    /// must reach the client by a way of its own. It need not be the
    /// newest root: the load follows the repository's roots from this one
    /// on. `metadata_base_url` and `targets_base_url` are the URLs below
    /// which the metadata and the targets are found. `transport` opens the
    /// files, and `schema` reads metadata out of their bytes.
    pub fn new(
        root: Vec<u8>,
        metadata_base_url: Url,
        targets_base_url: Url,
        transport: T,
        schema: S,
    ) -> (loader: Self)
        ensures
            loader@ == (LoaderView {
                root: root@,
                metadata_base_url: metadata_base_url@,
                targets_base_url: targets_base_url@,
                limits: None,
                datastore: None,
                expiration_enforcement: None,
            }),
            loader.transport_spec() == transport,
            loader.schema_spec() == schema,
    {
        RepositoryLoader {
            root,
            metadata_base_url,
            targets_base_url,
            transport,
            schema,
            limits: None,
            datastore: None,
            expiration_enforcement: None,
        }
    }

    /// Loads the repository's metadata and checks it.
    pub fn load(self) -> (r: Result<Repository<T>, LoadError>)
        ensures
            load_outcome(self@, r),
            r matches Ok(repository) ==> repository.transport_spec() == self.transport_spec(),
    {
        Repository::load(self)
    }

    /// Sets the transport.
    pub fn transport<U: Transport>(self, transport: U) -> (loader: RepositoryLoader<U, S>)
        ensures
            loader@ == self@,
            loader.transport_spec() == transport,
            loader.schema_spec() == self.schema_spec(),
    {
        RepositoryLoader {
            root: self.root,
            metadata_base_url: self.metadata_base_url,
            targets_base_url: self.targets_base_url,
            transport,
            schema: self.schema,
            limits: self.limits,
            datastore: self.datastore,
            expiration_enforcement: self.expiration_enforcement,
        }
    }

    /// Sets the limits.
    pub fn limits(self, limits: Limits) -> (loader: Self)
        ensures
            loader@ == (LoaderView { limits: Some(limits), ..self@ }),
            loader.transport_spec() == self.transport_spec(),
            loader.schema_spec() == self.schema_spec(),
    {
        let mut loader = self;
        loader.limits = Some(limits);
        loader
    }

    /// Sets the datastore: the files that earlier loads have left, which
    /// keep the repository from going back in time. Where none is set, the
    /// load starts from an empty one.
    pub fn datastore(self, datastore: Datastore) -> (loader: Self)
        ensures
            loader@ == (LoaderView { datastore: Some(datastore@), ..self@ }),
            loader.transport_spec() == self.transport_spec(),
            loader.schema_spec() == self.schema_spec(),
    {
        let mut loader = self;
        loader.datastore = Some(datastore);
        loader
    }

    /// Sets whether expirations are enforced.
    ///
    /// Expiration dates bound the time for which old metadata can be
    /// replayed. With `Unsafe` that bound is given up.
    pub fn expiration_enforcement(self, exp: ExpirationEnforcement) -> (loader: Self)
        ensures
            loader@ == (LoaderView { expiration_enforcement: Some(exp), ..self@ }),
            loader.transport_spec() == self.transport_spec(),
            loader.schema_spec() == self.schema_spec(),
    {
        let mut loader = self;
        loader.expiration_enforcement = Some(exp);
        loader
    }
}

/// A load that failed: why it failed, and the datastore as the load left
/// it.
#[derive(Debug)]
pub struct LoadError {
    /// Why the load failed.
    pub error: Error,
    /// The datastore as the load left it. What it holds was checked.
    pub datastore: Datastore,
}

/// A repository whose metadata is loaded and checked.
pub struct Repository<T: Transport> {
    transport: T,
    consistent_snapshot: bool,
    datastore: Datastore,
    earliest_expiration: UtcTime,
    earliest_expiration_role: RoleType,
    root: Signed<Root>,
    snapshot: Signed<Snapshot>,
    timestamp: Signed<Timestamp>,
    targets: Signed<Targets>,
    limits: Limits,
    metadata_base_url: Url,
    targets_base_url: Url,
    expiration_enforcement: ExpirationEnforcement,
}

/// Whether `e` is a failure that a load with the given settings can end
/// in, and `store` the datastore that is handed back with it. A base URL
/// that cannot be made fit is the failure, the metadata base before the
/// targets base, and nothing was written then. Else no failure names a
/// URL that cannot be parsed, a root that cannot be read or is not signed
/// by its own keys leaves the datastore as it was, an address that cannot
/// be made is one below the metadata base, an overrun names the limit that
/// was overrun, and the clock fails only where expirations are enforced.
pub open spec fn load_failure(
    e: ErrorView,
    store: Map<Seq<char>, Seq<u8>>,
    settings: LoaderView,
) -> bool {
    match normalized(settings.metadata_base_url) {
        None => e == (ErrorView::ParseUrl { url: settings.metadata_base_url.push('/') })
            && store == settings.files_used(),
        Some(metadata_base) => match normalized(settings.targets_base_url) {
            None => e == (ErrorView::ParseUrl { url: settings.targets_base_url.push('/') })
                && store == settings.files_used(),
            Some(targets_base) => match e {
                ErrorView::ParseUrl { .. } => false,
                ErrorView::CacheTargetMissing { .. } => false,
                ErrorView::ParseTrustedMetadata => store == settings.files_used(),
                ErrorView::VerifyTrustedMetadata => store == settings.files_used(),
                ErrorView::MaxUpdatesExceeded { max_root_updates } => max_root_updates
                    == settings.limits_used().max_root_updates && store == settings.files_used(),
                ErrorView::JoinUrl { path, url } => url == metadata_base && url_joined(
                    metadata_base,
                    path,
                ) is None,
                ErrorView::MaxSizeExceeded { max_size, specifier } => {
                    ||| specifier == MAX_ROOT_SIZE_SPECIFIER@ && max_size
                        == settings.limits_used().max_root_size
                    ||| specifier == MAX_TIMESTAMP_SIZE_SPECIFIER@ && max_size
                        == settings.limits_used().max_timestamp_size
                    ||| specifier == MAX_TARGETS_SIZE_SPECIFIER@ && (max_size
                        == settings.limits_used().max_targets_size || max_size == digest_limit(
                        settings.limits_used().max_targets_size,
                    ))
                    ||| specifier == TIMESTAMP_FILE@
                    ||| specifier == SNAPSHOT_FILE@
                },
                ErrorView::ExpiredMetadata { .. } => settings.enforcement_used().enforced(),
                ErrorView::SystemTimeSteppedBackward { .. } => {
                    settings.enforcement_used().enforced()
                },
                ErrorView::DatastoreSerialize { .. } => settings.enforcement_used().enforced(),
                ErrorView::OlderMetadata { role, current_version, new_version } => {
                    &&& new_version < current_version
                    &&& role == RoleType::Timestamp ==> settings.files_used().contains_key(
                        TIMESTAMP_FILE@,
                    )
                    &&& role == RoleType::Snapshot ==> settings.files_used().contains_key(
                        SNAPSHOT_FILE@,
                    )
                    &&& role == RoleType::Targets ==> settings.files_used().contains_key(
                        SNAPSHOT_FILE@,
                    ) || settings.files_used().contains_key(TARGETS_FILE@)
                },
                ErrorView::VersionMismatch { role, fetched, expected } => fetched != expected && (
                role == RoleType::Snapshot || role == RoleType::Targets),
                ErrorView::MetaMissing { file, role } => {
                    ||| role == RoleType::Timestamp && (file == SNAPSHOT_FILE@ || file
                        == TARGETS_FILE@)
                    ||| role == RoleType::Snapshot && settings.files_used().contains_key(
                        SNAPSHOT_FILE@,
                    )
                },
                ErrorView::MaxDelegationDepthExceeded { max_depth } => max_depth
                    == MAX_DELEGATION_DEPTH,
                _ => true,
            },
        },
    }
}

/// What a load promises of its result, given the loader's settings.
pub open spec fn load_outcome<T: Transport>(
    settings: LoaderView,
    r: Result<Repository<T>, LoadError>,
) -> bool {
    match r {
        Ok(repository) => {
            &&& repository.wf()
            &&& repository.limits_spec() == settings.limits_used()
            &&& repository.enforcement_spec() == settings.enforcement_used()
            &&& normalized(settings.metadata_base_url) == Some(repository.metadata_base_spec())
            &&& normalized(settings.targets_base_url) == Some(repository.targets_base_spec())
        },
        Err(failure) => load_failure(failure.error@, failure.datastore@, settings),
    }
}

impl<T: Transport> Repository<T> {
    /// The root metadata.
    pub closed spec fn root_spec(&self) -> Signed<Root> {
        self.root
    }

    /// The timestamp metadata.
    pub closed spec fn timestamp_spec(&self) -> Signed<Timestamp> {
        self.timestamp
    }

    /// The snapshot metadata.
    pub closed spec fn snapshot_spec(&self) -> Signed<Snapshot> {
        self.snapshot
    }

    /// The targets metadata, with that of the delegated roles.
    pub closed spec fn targets_spec(&self) -> Signed<Targets> {
        self.targets
    }

    /// The instant at which the first of the four top-level roles expires.
    pub closed spec fn earliest_expiration_spec(&self) -> UtcTime {
        self.earliest_expiration
    }

    /// The role that expires first.
    pub closed spec fn earliest_expiration_role_spec(&self) -> RoleType {
        self.earliest_expiration_role
    }

    /// Whether the repository names its files by version and digest.
    pub closed spec fn consistent_snapshot_spec(&self) -> bool {
        self.consistent_snapshot
    }

    /// The limits that the repository was loaded with.
    pub closed spec fn limits_spec(&self) -> Limits {
        self.limits
    }

    /// Whether the repository enforces expirations.
    pub closed spec fn enforcement_spec(&self) -> ExpirationEnforcement {
        self.expiration_enforcement
    }

    /// The transport that the repository opens files with.
    pub closed spec fn transport_spec(&self) -> T {
        self.transport
    }

    /// The files of the repository's datastore.
    pub closed spec fn files(&self) -> Map<Seq<char>, Seq<u8>> {
        self.datastore@
    }

    /// The URL below which the metadata is found.
    pub closed spec fn metadata_base_spec(&self) -> Seq<char> {
        self.metadata_base_url@
    }

    /// The URL below which the targets are found.
    pub closed spec fn targets_base_spec(&self) -> Seq<char> {
        self.targets_base_url@
    }

    /// Whether the snapshot has the version that the timestamp lists for
    /// it, and the targets metadata the version that the snapshot lists
    /// for it.
    pub open spec fn versions_agree(&self) -> bool {
        &&& first_named(self.timestamp_spec().signed.meta@, SNAPSHOT_FILE@) is Some
        &&& first_named(self.timestamp_spec().signed.meta@, SNAPSHOT_FILE@)->0.version
            == self.snapshot_spec().signed.version
        &&& first_named(self.snapshot_spec().signed.meta@, TARGETS_FILE@) is Some
        &&& first_named(self.snapshot_spec().signed.meta@, TARGETS_FILE@)->0.version
            == self.targets_spec().signed.version
    }

    /// Whether the repository is as a load leaves it: the root is signed
    /// by its own keys, the timestamp, the snapshot and the targets are
    /// signed as the root asks and have the versions that are listed for
    /// them, every delegated role is signed as the role above it asks, the
    /// datastore holds a file for each of them but the root, and the
    /// earliest expiration is that of the four top-level roles.
    pub open spec fn wf(&self) -> bool {
        &&& self_signed(self.root_spec())
        &&& signed_by(self.root_spec(), RoleType::Timestamp, self.timestamp_spec())
        &&& signed_by(self.root_spec(), RoleType::Snapshot, self.snapshot_spec())
        &&& signed_by(self.root_spec(), RoleType::Targets, self.targets_spec())
        &&& self.targets_spec().signed.delegations matches Some(delegations)
            ==> delegations_verified(delegations) && delegations_listed(
            delegations,
            self.snapshot_spec().signed.meta@,
        )
        &&& self.versions_agree()
        &&& self.consistent_snapshot_spec() == self.root_spec().signed.consistent_snapshot
        &&& self.files().contains_key(TIMESTAMP_FILE@)
        &&& self.files().contains_key(SNAPSHOT_FILE@)
        &&& self.files().contains_key(TARGETS_FILE@)
        &&& self.targets_spec().signed.delegations matches Some(delegations)
            ==> delegations_stored(delegations, self.consistent_snapshot_spec(), self.files())
        &&& is_earliest(
            self.earliest_expiration_spec(),
            self.earliest_expiration_role_spec(),
            self.root_spec().signed.expires,
            self.timestamp_spec().signed.expires,
            self.snapshot_spec().signed.expires,
            self.targets_spec().signed.expires,
        )
    }

    /// Whether two repositories differ in nothing but their datastores.
    pub open spec fn same_metadata(&self, other: &Self) -> bool {
        &&& self.root_spec() == other.root_spec()
        &&& self.timestamp_spec() == other.timestamp_spec()
        &&& self.snapshot_spec() == other.snapshot_spec()
        &&& self.targets_spec() == other.targets_spec()
        &&& self.earliest_expiration_spec() == other.earliest_expiration_spec()
        &&& self.earliest_expiration_role_spec() == other.earliest_expiration_role_spec()
        &&& self.consistent_snapshot_spec() == other.consistent_snapshot_spec()
        &&& self.limits_spec() == other.limits_spec()
        &&& self.enforcement_spec() == other.enforcement_spec()
        &&& self.metadata_base_spec() == other.metadata_base_spec()
        &&& self.targets_base_spec() == other.targets_base_spec()
        &&& self.transport_spec() == other.transport_spec()
    }

    /// Loads and checks the metadata of a repository: the root, the
    /// timestamp, the snapshot and the targets, in this order, each
    /// checked against what was loaded before it.
    fn load<S: Schema>(loader: RepositoryLoader<T, S>) -> (r: Result<Self, LoadError>)
        ensures
            load_outcome(loader@, r),
            r matches Ok(repository) ==> repository.transport_spec() == loader.transport_spec(),
    {
        let RepositoryLoader {
            root,
            metadata_base_url,
            targets_base_url,
            transport,
            schema,
            limits,
            datastore,
            expiration_enforcement,
        } = loader;
        let mut datastore = match datastore {
            Some(datastore) => datastore,
            None => Datastore::new(),
        };
        let limits = match limits {
            Some(limits) => limits,
            None => Limits::default(),
        };
        let expiration_enforcement = match expiration_enforcement {
            Some(enforcement) => enforcement,
            None => ExpirationEnforcement::default(),
        };
        let metadata_base_url = match parse_url(metadata_base_url) {
            Ok(url) => url,
            Err(error) => {
                return Err(LoadError { error, datastore });
            },
        };
        let targets_base_url = match parse_url(targets_base_url) {
            Ok(url) => url,
            Err(error) => {
                return Err(LoadError { error, datastore });
            },
        };
        let trusted = match schema.parse_root(root.as_slice()) {
            Some(trusted) => trusted,
            None => {
                return Err(LoadError { error: Error::ParseTrustedMetadata, datastore });
            },
        };
        let ghost trusted_then = trusted;
        let ghost given = datastore@;
        let root = match load_root(
            &transport,
            &schema,
            trusted,
            &mut datastore,
            limits.max_root_size,
            limits.max_root_updates,
            &metadata_base_url,
            expiration_enforcement,
        ) {
            Ok(root) => root,
            Err(error) => {
                return Err(LoadError { error, datastore });
            },
        };
        let ghost walked = datastore@;
        proof {
            lemma_file_names_differ();
            let rotated = keys_changed(trusted_then.signed, root.signed);
            let kept = after_root_walk(given, rotated);
            let enforcement = expiration_enforcement;
            lemma_only_clock_touched_elsewhere(kept, walked, enforcement, TIMESTAMP_FILE@);
            lemma_only_clock_touched_elsewhere(kept, walked, enforcement, SNAPSHOT_FILE@);
            lemma_only_clock_touched_elsewhere(kept, walked, enforcement, TARGETS_FILE@);
        }
        let timestamp = match load_timestamp(
            &transport,
            &schema,
            &root,
            &mut datastore,
            limits.max_timestamp_size,
            &metadata_base_url,
            expiration_enforcement,
        ) {
            Ok(timestamp) => timestamp,
            Err(error) => {
                return Err(LoadError { error, datastore });
            },
        };
        let ghost stamped = datastore@;
        proof {
            lemma_only_wrote_elsewhere(
                walked,
                stamped,
                TIMESTAMP_FILE@,
                expiration_enforcement,
                SNAPSHOT_FILE@,
            );
            lemma_only_wrote_elsewhere(
                walked,
                stamped,
                TIMESTAMP_FILE@,
                expiration_enforcement,
                TARGETS_FILE@,
            );
        }
        let snapshot = match load_snapshot(
            &transport,
            &schema,
            &root,
            &timestamp,
            &mut datastore,
            &metadata_base_url,
            expiration_enforcement,
        ) {
            Ok(snapshot) => snapshot,
            Err(error) => {
                return Err(LoadError { error, datastore });
            },
        };
        proof {
            lemma_only_wrote_elsewhere(
                stamped,
                datastore@,
                SNAPSHOT_FILE@,
                expiration_enforcement,
                TARGETS_FILE@,
            );
        }
        let targets = match load_targets(
            &transport,
            &schema,
            &root,
            &snapshot,
            &mut datastore,
            limits.max_targets_size,
            &metadata_base_url,
            expiration_enforcement,
        ) {
            Ok(targets) => targets,
            Err(error) => {
                return Err(LoadError { error, datastore });
            },
        };
        let (earliest_expiration, earliest_expiration_role) = earliest_expiration(
            root.signed.expires,
            timestamp.signed.expires,
            snapshot.signed.expires,
            targets.signed.expires,
        );
        Ok(
            Repository {
                transport,
                consistent_snapshot: root.signed.consistent_snapshot,
                datastore,
                earliest_expiration,
                earliest_expiration_role,
                root,
                snapshot,
                timestamp,
                targets,
                limits,
                metadata_base_url,
                targets_base_url,
                expiration_enforcement,
            },
        )
    }

    /// The targets metadata, with that of the delegated roles.
    pub fn targets(&self) -> (r: &Signed<Targets>)
        ensures
            *r == self.targets_spec(),
    {
        &self.targets
    }

    /// The root metadata.
    pub fn root(&self) -> (r: &Signed<Root>)
        ensures
            *r == self.root_spec(),
    {
        &self.root
    }

    /// The snapshot metadata.
    pub fn snapshot(&self) -> (r: &Signed<Snapshot>)
        ensures
            *r == self.snapshot_spec(),
    {
        &self.snapshot
    }

    /// The timestamp metadata.
    pub fn timestamp(&self) -> (r: &Signed<Timestamp>)
        ensures
            *r == self.timestamp_spec(),
    {
        &self.timestamp
    }

    /// Whether the repository names its files by version and digest.
    pub fn consistent_snapshot(&self) -> (r: bool)
        ensures
            r == self.consistent_snapshot_spec(),
    {
        self.consistent_snapshot
    }

    /// The limits that the repository was loaded with.
    pub fn limits_used(&self) -> (r: Limits)
        ensures
            r == self.limits_spec(),
    {
        self.limits
    }

    /// The URL below which the metadata is found.
    pub fn metadata_base(&self) -> (r: &Url)
        ensures
            r@ == self.metadata_base_spec(),
    {
        &self.metadata_base_url
    }

    /// The URL below which the targets are found.
    pub fn targets_base(&self) -> (r: &Url)
        ensures
            r@ == self.targets_base_spec(),
    {
        &self.targets_base_url
    }

    /// The transport that the repository opens files with: the one that
    /// the loader held when the repository was loaded.
    pub fn transport_used(&self) -> (r: &T)
        ensures
            *r == self.transport_spec(),
    {
        &self.transport
    }

    /// The datastore, as the load and the reads so far have left it.
    pub fn datastore(&self) -> (r: &Datastore)
        ensures
            r@ == self.files(),
    {
        &self.datastore
    }

    /// The instant at which the first of the four top-level roles expires,
    /// and that role.
    pub fn earliest_expiration(&self) -> (r: (UtcTime, RoleType))
        ensures
            r.0 == self.earliest_expiration_spec(),
            r.1 == self.earliest_expiration_role_spec(),
    {
        (self.earliest_expiration, self.earliest_expiration_role)
    }

    /// All targets of the repository: those of the top-level targets role
    /// first, then those of each delegated role in turn.
    pub fn all_targets(&self) -> (r: Vec<&(String, Target)>)
        ensures
            pointed(r@) == all_targets_in(self.targets_spec().signed),
    {
        self.targets.signed.targets_iter()
    }

    /// Whether a read is judged by the clock: where expirations are
    /// enforced, the clock is read and put on record, and the read goes on
    /// only if the earliest expiration is still ahead. Where they are not
    /// enforced, the clock is not read and the datastore stays as it is.
    pub open spec fn clock_consulted(&self, after: &Self, expired: bool) -> bool {
        if self.enforcement_spec().enforced() {
            if expired {
                recorded_not_ahead(self.files(), after.files(), self.earliest_expiration_spec())
            } else {
                recorded_ahead(self.files(), after.files(), self.earliest_expiration_spec())
            }
        } else {
            !expired && after.files() == self.files()
        }
    }

    /// The request for the target `name`, or the failure to make its
    /// address: `None` where no role lists the target.
    pub open spec fn target_request_spec(&self, name: Seq<char>) -> Option<
        Result<FetchRequestView, ErrorView>,
    > {
        match target_in(self.targets_spec().signed, name) {
            Some(target) => Some(
                request_for(
                    self.targets_base_spec(),
                    target_file_name(self.consistent_snapshot_spec(), target.sha256@, name),
                    target.length,
                    TARGETS_FILE@,
                    Some(target.sha256@),
                ),
            ),
            None => None,
        }
    }

    /// Opens a target for reading.
    ///
    /// Where expirations are enforced, the clock is read first, and the
    /// read fails unless the earliest expiration of the repository's
    /// metadata is still ahead. The target is looked for in the targets
    /// metadata and then in that of the delegated roles, each role before
    /// the next. If no role lists it, `Ok(None)` is returned. Else the
    /// target is opened below the targets base URL, under its name, or, in
    /// a repository with consistent snapshots, under its name with its
    /// digest before it.
    ///
    /// The reader hands out at most as many bytes as the metadata lists
    /// for the target, and reports the end of the target only if all bytes
    /// together have the digest that the metadata lists. It hands bytes
    /// out before it can check the digest: if a read fails, what was read
    /// before must not be used.
    pub fn read_target(&mut self, name: &str) -> (r: Result<
        Option<BoundedReader<T::Stream>>,
        Error,
    >)
        ensures
            old(self).same_metadata(final(self)),
            old(self).wf() ==> final(self).wf(),
            keeps_files(old(self).files(), final(self).files()),
            match r {
                Ok(Some(reader)) => {
                    &&& old(self).clock_consulted(final(self), false)
                    &&& target_in(old(self).targets_spec().signed, name@) matches Some(target)
                    &&& reader.wf()
                    &&& reader.delivered() == Seq::<u8>::empty()
                    &&& !reader.finished()
                    &&& reader.expected() == Some(target.sha256@)
                    &&& reader.limit() == if target.length <= MAX_DIGEST_INPUT {
                        target.length
                    } else {
                        MAX_DIGEST_INPUT
                    }
                },
                Ok(None) => {
                    &&& old(self).clock_consulted(final(self), false)
                    &&& target_in(old(self).targets_spec().signed, name@) is None
                },
                Err(e) => match e {
                    Error::ExpiredMetadata { role } => {
                        &&& role == old(self).earliest_expiration_role_spec()
                        &&& old(self).clock_consulted(final(self), true)
                    },
                    Error::SystemTimeSteppedBackward { .. } | Error::DatastoreSerialize { .. } => {
                        &&& old(self).enforcement_spec().enforced()
                        &&& final(self).files() == old(self).files()
                    },
                    Error::JoinUrl { .. } => {
                        &&& old(self).clock_consulted(final(self), false)
                        &&& old(self).target_request_spec(name@) matches Some(Err(failure))
                        &&& e@ == failure
                    },
                    Error::Transport { .. } => {
                        &&& old(self).clock_consulted(final(self), false)
                        &&& old(self).target_request_spec(name@) matches Some(Ok(request))
                    },
                    _ => false,
                },
            },
            old(self).target_request_spec(name@) matches Some(Err(failure)) ==> (r matches Err(e)
                && (e@ == failure || (clock_failure(e)
                && old(self).enforcement_spec().enforced()))),
    {
        let ghost files_before = self.datastore@;
        if self.expiration_enforcement == ExpirationEnforcement::Safe {
            let checked = check_expiration_ahead(
                &mut self.datastore,
                self.earliest_expiration,
                self.earliest_expiration_role,
            );
            proof {
                if self.targets.signed.delegations is Some && old(self).wf() {
                    lemma_stored_stays(
                        self.targets.signed.delegations->0,
                        self.consistent_snapshot,
                        files_before,
                        self.datastore@,
                    );
                }
            }
            match checked {
                Ok(()) => {},
                Err(e) => {
                    return Err(e);
                },
            }
        }
        match self.targets.signed.find_target(name) {
            Some(target) => {
                let request = match target_request(
                    &self.targets_base_url,
                    self.consistent_snapshot,
                    target,
                    name,
                ) {
                    Ok(request) => request,
                    Err(e) => {
                        return Err(e);
                    },
                };
                match open(&self.transport, &request) {
                    Ok(reader) => Ok(Some(reader)),
                    Err(e) => Err(e),
                }
            },
            None => Ok(None),
        }
    }

    /// The delegated role of a given name, if the repository has one. Each
    /// role is looked at before the roles below it.
    pub fn delegated_role(&self, name: &str) -> (r: Option<&DelegatedRole>)
        ensures
            match r {
                Some(role) => role_in(self.targets_spec().signed, name@) == Some(*role),
                None => role_in(self.targets_spec().signed, name@) is None,
            },
    {
        self.targets.signed.delegated_role(name)
    }
}

} // verus!
