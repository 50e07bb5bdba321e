//! The clock, and the record that keeps it from being set back.

use crate::datastore::{Datastore, LATEST_KNOWN_TIME_FILE};
use crate::error::Error;
use crate::schema::{Role, RoleType};
use crate::time::{decode_time, decoded_time, encode_time, encoded_time, utc_now, UtcTime};
use vstd::prelude::*;

verus! {

/// The clock reading that a datastore has on record, where its record can
/// be read.
pub open spec fn stored_time(store: Map<Seq<char>, Seq<u8>>) -> Option<UtcTime> {
    if store.contains_key(LATEST_KNOWN_TIME_FILE@) {
        match decoded_time(store[LATEST_KNOWN_TIME_FILE@]) {
            Some(parts) => Some(UtcTime { secs: parts.0, nanos: parts.1 }),
            None => None,
        }
    } else {
        None
    }
}

/// Whether the clock reads earlier than the reading on record.
pub open spec fn stepped_backward(store: Map<Seq<char>, Seq<u8>>, now: UtcTime) -> bool {
    stored_time(store) matches Some(latest) && now.spec_before(latest)
}

/// Whether `after` is `before` with the reading `now` put on record, which
/// asks that `now` is not earlier than the reading that `before` had on
/// record.
pub open spec fn time_recorded(
    before: Map<Seq<char>, Seq<u8>>,
    after: Map<Seq<char>, Seq<u8>>,
    now: UtcTime,
) -> bool {
    &&& !stepped_backward(before, now)
    &&& encoded_time(now.secs, now.nanos) matches Some(bytes) && after == before.insert(
        LATEST_KNOWN_TIME_FILE@,
        bytes,
    )
}

/// Whether `after` is `before` with a clock reading put on record at which
/// `expires` had not passed.
pub open spec fn recorded_in_time(
    before: Map<Seq<char>, Seq<u8>>,
    after: Map<Seq<char>, Seq<u8>>,
    expires: UtcTime,
) -> bool {
    exists|now: UtcTime| #[trigger]
        time_recorded(before, after, now) && now.spec_at_or_before(expires)
}

/// Whether `after` is `before` with a clock reading put on record at which
/// `expires` had passed.
pub open spec fn recorded_too_late(
    before: Map<Seq<char>, Seq<u8>>,
    after: Map<Seq<char>, Seq<u8>>,
    expires: UtcTime,
) -> bool {
    exists|now: UtcTime| #[trigger]
        time_recorded(before, after, now) && !now.spec_at_or_before(expires)
}

/// Whether a store's record of the clock was written from a reading at
/// which `expires` had not passed.
pub open spec fn fresh(store: Map<Seq<char>, Seq<u8>>, expires: UtcTime) -> bool {
    exists|now: UtcTime|
        store.contains_key(LATEST_KNOWN_TIME_FILE@) && #[trigger] encoded_time(
            now.secs,
            now.nanos,
        ) == Some(store[LATEST_KNOWN_TIME_FILE@]) && now.spec_at_or_before(expires)
}

/// Holds a clock reading against the datastore's record and puts it on
/// record. A reading that is earlier than the one on record is refused. A
/// record that cannot be read counts as no record.
pub fn record_time(datastore: &mut Datastore, now: UtcTime) -> (r: Result<UtcTime, Error>)
    ensures
        match r {
            Ok(time) => time == now && time_recorded(old(datastore)@, final(datastore)@, now),
            Err(e) => {
                &&& final(datastore)@ == old(datastore)@
                &&& if stepped_backward(old(datastore)@, now) {
                    e == Error::SystemTimeSteppedBackward {
                        sys_time: now,
                        latest_known_time: stored_time(old(datastore)@).unwrap(),
                    }
                } else {
                    encoded_time(now.secs, now.nanos) is None && e == Error::DatastoreSerialize {
                        file: LATEST_KNOWN_TIME_FILE,
                    }
                }
            },
        },
{
    match datastore.get(LATEST_KNOWN_TIME_FILE) {
        Some(bytes) => match decode_time(bytes.as_slice()) {
            Some(latest_known_time) => {
                if now.before(latest_known_time) {
                    return Err(
                        Error::SystemTimeSteppedBackward { sys_time: now, latest_known_time },
                    );
                }
            },
            None => {},
        },
        None => {},
    }
    match encode_time(now) {
        Some(bytes) => {
            datastore.create(LATEST_KNOWN_TIME_FILE, bytes);
            Ok(now)
        },
        None => Err(Error::DatastoreSerialize { file: LATEST_KNOWN_TIME_FILE }),
    }
}

/// Reads the clock, makes sure that it has not stepped backward since it
/// was last read, and puts the reading on record.
pub fn system_time(datastore: &mut Datastore) -> (r: Result<UtcTime, Error>)
    ensures
        match r {
            Ok(now) => time_recorded(old(datastore)@, final(datastore)@, now),
            Err(e) => {
                &&& final(datastore)@ == old(datastore)@
                &&& e is SystemTimeSteppedBackward || e is DatastoreSerialize
            },
        },
{
    record_time(datastore, utc_now())
}

/// Whether metadata that expires at `expires` may still be loaded at
/// `now`: up to and at the instant of expiration. Past it, the failure
/// names `role`.
pub fn check_not_expired(now: UtcTime, expires: UtcTime, role: RoleType) -> (r: Result<
    (),
    Error,
>)
    ensures
        r == if now.spec_at_or_before(expires) {
            Ok::<(), Error>(())
        } else {
            Err(Error::ExpiredMetadata { role })
        },
{
    if now.at_or_before(expires) {
        Ok(())
    } else {
        Err(Error::ExpiredMetadata { role })
    }
}

/// Whether a target may still be read at `now` from a repository whose
/// earliest expiration is `expires`: only before that instant. At it and
/// past it, the failure names `role`.
pub fn check_before_expiration(now: UtcTime, expires: UtcTime, role: RoleType) -> (r: Result<
    (),
    Error,
>)
    ensures
        r == if now.spec_before(expires) {
            Ok::<(), Error>(())
        } else {
            Err(Error::ExpiredMetadata { role })
        },
{
    if now.before(expires) {
        Ok(())
    } else {
        Err(Error::ExpiredMetadata { role })
    }
}

/// Reads the clock and makes sure that metadata has not expired.
pub fn check_expired<T: Role>(datastore: &mut Datastore, role: &T) -> (r: Result<(), Error>)
    ensures
        match r {
            Ok(()) => recorded_in_time(old(datastore)@, final(datastore)@, role.expires_spec()),
            Err(e) => match e {
                Error::ExpiredMetadata { role: kind } => kind == T::role_type_spec()
                    && recorded_too_late(old(datastore)@, final(datastore)@, role.expires_spec()),
                Error::SystemTimeSteppedBackward { .. } | Error::DatastoreSerialize { .. } => {
                    final(datastore)@ == old(datastore)@
                },
                _ => false,
            },
        },
{
    let now = match system_time(datastore) {
        Ok(now) => now,
        Err(e) => {
            return Err(e);
        },
    };
    check_not_expired(now, role.expires(), T::role_type())
}

/// Whether `after` is `before` with a clock reading put on record that is
/// earlier than `expires`.
pub open spec fn recorded_ahead(
    before: Map<Seq<char>, Seq<u8>>,
    after: Map<Seq<char>, Seq<u8>>,
    expires: UtcTime,
) -> bool {
    exists|now: UtcTime| #[trigger] time_recorded(before, after, now) && now.spec_before(expires)
}

/// Whether `after` is `before` with a clock reading put on record that is
/// not earlier than `expires`.
pub open spec fn recorded_not_ahead(
    before: Map<Seq<char>, Seq<u8>>,
    after: Map<Seq<char>, Seq<u8>>,
    expires: UtcTime,
) -> bool {
    exists|now: UtcTime| #[trigger] time_recorded(before, after, now) && !now.spec_before(expires)
}

/// Reads the clock and makes sure that the earliest expiration of a
/// repository is still ahead. `role` is the role that expires first.
pub fn check_expiration_ahead(datastore: &mut Datastore, expires: UtcTime, role: RoleType) -> (r:
    Result<(), Error>)
    ensures
        match r {
            Ok(()) => recorded_ahead(old(datastore)@, final(datastore)@, expires),
            Err(e) => match e {
                Error::ExpiredMetadata { role: named } => named == role && recorded_not_ahead(
                    old(datastore)@,
                    final(datastore)@,
                    expires,
                ),
                Error::SystemTimeSteppedBackward { .. } | Error::DatastoreSerialize { .. } => {
                    final(datastore)@ == old(datastore)@
                },
                _ => false,
            },
        },
{
    let now = match system_time(datastore) {
        Ok(now) => now,
        Err(e) => {
            return Err(e);
        },
    };
    check_before_expiration(now, expires, role)
}

/// The clock is held against the record exactly: a reading is refused if
/// and only if the record can be read and is later than the reading.
pub proof fn lemma_backward_step_is_refused(
    before: Map<Seq<char>, Seq<u8>>,
    after: Map<Seq<char>, Seq<u8>>,
    now: UtcTime,
    latest: UtcTime,
)
    requires
        stored_time(before) == Some(latest),
    ensures
        time_recorded(before, after, now) ==> latest.spec_at_or_before(now),
        now.spec_before(latest) ==> stepped_backward(before, now),
{
}

/// The reading on record never goes back: of two readings that are put on
/// record one after the other, the second is not earlier than the first,
/// wherever the record of the first reads back as that reading.
pub proof fn lemma_record_never_goes_back(
    first: Map<Seq<char>, Seq<u8>>,
    second: Map<Seq<char>, Seq<u8>>,
    third: Map<Seq<char>, Seq<u8>>,
    earlier: UtcTime,
    later: UtcTime,
)
    requires
        time_recorded(first, second, earlier),
        stored_time(second) == Some(earlier),
        time_recorded(second, third, later),
    ensures
        earlier.spec_at_or_before(later),
{
}

} // verus!
