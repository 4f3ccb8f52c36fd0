use crate::errors::BookingError;
use crate::instant::{rfc3339_utc_millis, UtcInstant};
use crate::models::booking_model::{BooKingRequest, Booking, FullBooking, FullBookingView};
use crate::models::dog_model::Dog;
use crate::models::owner_model::Owner;
use crate::oid::{hex_value, is_object_id_hex, RecordId};
use vstd::pervasive::VecAdditionalExecFns;
use vstd::prelude::*;

verus! {

/// A booking survives the time filter at `as_of`: not cancelled, and starting
/// at or after `as_of` (inclusive lower bound; a booking already under way is
/// excluded once its start has passed).
pub open spec fn booking_selected(b: Booking, as_of: UtcInstant) -> bool {
    !b.cancelled && b.start_time.millis >= as_of.millis
}

/// The first owner record carrying the identifier, if any.
pub open spec fn resolve_owner(os: Seq<Owner>, id: RecordId) -> Option<Owner>
    decreases os.len(),
{
    if os.len() == 0 {
        None
    } else if os[0]._id == id {
        Some(os[0])
    } else {
        resolve_owner(os.drop_first(), id)
    }
}

/// All dog records whose owner reference equals `owner_id`, in store order.
pub open spec fn dogs_of(ds: Seq<Dog>, owner_id: RecordId) -> Seq<Dog>
    decreases ds.len(),
{
    if ds.len() == 0 {
        Seq::empty()
    } else {
        let rest = dogs_of(ds.drop_last(), owner_id);
        if ds.last().owner == owner_id {
            rest.push(ds.last())
        } else {
            rest
        }
    }
}

/// One composed output row: the booking's own fields, its resolved owner and
/// that owner's dogs.
pub open spec fn composed_view(b: Booking, o: Owner, dogs: Seq<Dog>) -> FullBookingView {
    FullBookingView {
        _id: b._id,
        owner: o,
        start_time: b.start_time,
        duration_in_minutes: b.duration_in_minutes,
        cancelled: b.cancelled,
        dogs,
    }
}

/// The whole query: one row per stored booking that survives the time filter
/// and whose owner resolves, in store order; a booking whose owner reference
/// matches no owner record contributes no row.
pub open spec fn full_bookings(
    bs: Seq<Booking>,
    os: Seq<Owner>,
    ds: Seq<Dog>,
    as_of: UtcInstant,
) -> Seq<FullBookingView>
    decreases bs.len(),
{
    if bs.len() == 0 {
        Seq::empty()
    } else {
        let rest = full_bookings(bs.drop_last(), os, ds, as_of);
        let b = bs.last();
        if booking_selected(b, as_of) && resolve_owner(os, b.owner) is Some {
            rest.push(
                composed_view(
                    b,
                    resolve_owner(os, b.owner).unwrap(),
                    dogs_of(ds, resolve_owner(os, b.owner).unwrap()._id),
                ),
            )
        } else {
            rest
        }
    }
}

/// The views of a vector of composed rows, element by element.
pub open spec fn views_of(v: Seq<FullBooking>) -> Seq<FullBookingView> {
    Seq::new(v.len(), |i: int| v[i]@)
}

proof fn lemma_resolve_owner_at(os: Seq<Owner>, id: RecordId, i: int)
    requires
        0 <= i < os.len(),
        os[i]._id == id,
        forall|j: int| 0 <= j < i ==> (#[trigger] os[j])._id != id,
    ensures
        resolve_owner(os, id) == Some(os[i]),
    decreases i,
{
    if i > 0 {
        assert(forall|j: int|
            0 <= j < i - 1 ==> (#[trigger] os.drop_first()[j])._id == os[j + 1]._id);
        lemma_resolve_owner_at(os.drop_first(), id, i - 1);
    }
}

proof fn lemma_resolve_owner_none(os: Seq<Owner>, id: RecordId)
    requires
        forall|j: int| 0 <= j < os.len() ==> (#[trigger] os[j])._id != id,
    ensures
        resolve_owner(os, id) is None,
    decreases os.len(),
{
    if os.len() > 0 {
        assert(forall|j: int|
            0 <= j < os.len() - 1 ==> (#[trigger] os.drop_first()[j])._id == os[j + 1]._id);
        lemma_resolve_owner_none(os.drop_first(), id);
    }
}

/// The booking with its `cancelled` flag set; nothing else changes.
pub open spec fn mark_cancelled(b: Booking) -> Booking {
    Booking { cancelled: true, ..b }
}

/// Some stored booking carries the identifier.
pub open spec fn has_booking(bs: Seq<Booking>, id: RecordId) -> bool {
    exists|i: int| 0 <= i < bs.len() && bs[i]._id == id
}

/// The store after cancelling `id`: the first booking carrying `id`, if any,
/// has its `cancelled` flag set; every other record is unchanged.
pub open spec fn cancel_first(bs: Seq<Booking>, id: RecordId) -> Seq<Booking>
    decreases bs.len(),
{
    if bs.len() == 0 {
        bs
    } else if bs[0]._id == id {
        seq![mark_cancelled(bs[0])] + bs.drop_first()
    } else {
        seq![bs[0]] + cancel_first(bs.drop_first(), id)
    }
}

proof fn lemma_cancel_first_is_update(bs: Seq<Booking>, id: RecordId, i: int)
    requires
        0 <= i < bs.len(),
        bs[i]._id == id,
        forall|j: int| 0 <= j < i ==> bs[j]._id != id,
    ensures
        cancel_first(bs, id) == bs.update(i, mark_cancelled(bs[i])),
    decreases i,
{
    if i == 0 {
        assert(seq![mark_cancelled(bs[0])] + bs.drop_first() =~= bs.update(
            0,
            mark_cancelled(bs[0]),
        ));
    } else {
        lemma_cancel_first_is_update(bs.drop_first(), id, i - 1);
        assert(seq![bs[0]] + bs.drop_first().update(i - 1, mark_cancelled(bs[i])) =~= bs.update(
            i,
            mark_cancelled(bs[i]),
        ));
    }
}

/// Cancellation is idempotent and terminal: cancelling the same identifier a
/// second time changes nothing, and after a cancel the first booking carrying
/// the identifier, when there is one, sits in the `Cancelled` state.
pub proof fn lemma_cancel_idempotent(bs: Seq<Booking>, id: RecordId)
    ensures
        cancel_first(cancel_first(bs, id), id) == cancel_first(bs, id),
        has_booking(bs, id) ==> exists|i: int|
            0 <= i < cancel_first(bs, id).len() && (#[trigger] cancel_first(bs, id)[i])._id == id
                && cancel_first(bs, id)[i].cancelled,
    decreases bs.len(),
{
    if bs.len() > 0 {
        let out = cancel_first(bs, id);
        if bs[0]._id == id {
            assert(out == seq![mark_cancelled(bs[0])] + bs.drop_first());
            assert(out[0] == mark_cancelled(bs[0]));
            assert(out[0]._id == id && out[0].cancelled);
            assert(cancel_first(out, id) == seq![mark_cancelled(out[0])] + out.drop_first());
            assert(mark_cancelled(out[0]) == out[0]);
            assert(seq![out[0]] + out.drop_first() =~= out);
        } else {
            lemma_cancel_idempotent(bs.drop_first(), id);
            assert(out == seq![bs[0]] + cancel_first(bs.drop_first(), id));
            assert(out[0] == bs[0]);
            assert(out.drop_first() =~= cancel_first(bs.drop_first(), id));
            assert(cancel_first(out, id) == seq![out[0]] + cancel_first(out.drop_first(), id));
            assert(cancel_first(out, id) =~= out);
            if has_booking(bs, id) {
                let w = choose|w: int| 0 <= w < bs.len() && bs[w]._id == id;
                assert(w > 0);
                assert(bs.drop_first()[w - 1]._id == id);
                assert(has_booking(bs.drop_first(), id));
                let v = choose|v: int|
                    0 <= v < cancel_first(bs.drop_first(), id).len() && (#[trigger] cancel_first(
                        bs.drop_first(),
                        id,
                    )[v])._id == id && cancel_first(bs.drop_first(), id)[v].cancelled;
                assert(out[v + 1] == cancel_first(bs.drop_first(), id)[v]);
            }
        }
    }
}

/// Cancellation is monotonic and narrow: record count and every field but one
/// `cancelled` flag are kept, and a flag once set is never cleared.
pub proof fn lemma_cancel_preserves(bs: Seq<Booking>, id: RecordId)
    ensures
        cancel_first(bs, id).len() == bs.len(),
        forall|i: int|
            0 <= i < bs.len() ==> (#[trigger] cancel_first(bs, id)[i] == bs[i] || cancel_first(
                bs,
                id,
            )[i] == mark_cancelled(bs[i])),
        forall|i: int|
            0 <= i < bs.len() && bs[i].cancelled ==> (#[trigger] cancel_first(
                bs,
                id,
            )[i]).cancelled,
    decreases bs.len(),
{
    if bs.len() > 0 {
        if bs[0]._id == id {
        } else {
            lemma_cancel_preserves(bs.drop_first(), id);
            assert(forall|i: int|
                1 <= i < bs.len() ==> #[trigger] cancel_first(bs, id)[i] == cancel_first(
                    bs.drop_first(),
                    id,
                )[i - 1] && bs[i] == bs.drop_first()[i - 1]);
        }
    }
}

/// The in-memory store behind the booking core: three collections, one per
/// record kind, handed to the engines by explicit injection.
pub struct Database {
    booking: Vec<Booking>,
    dog: Vec<Dog>,
    owner: Vec<Owner>,
}

impl Database {
    pub closed spec fn bookings(&self) -> Seq<Booking> {
        self.booking@
    }

    pub closed spec fn dogs(&self) -> Seq<Dog> {
        self.dog@
    }

    pub closed spec fn owners(&self) -> Seq<Owner> {
        self.owner@
    }

    /// A fresh, empty store.
    pub fn init() -> (db: Database)
        ensures
            db.bookings() == Seq::<Booking>::empty(),
            db.dogs() == Seq::<Dog>::empty(),
            db.owners() == Seq::<Owner>::empty(),
    {
        Database { booking: Vec::new(), dog: Vec::new(), owner: Vec::new() }
    }

    /// Stores an owner record as given and reports its identifier.
    pub fn create_owner(&mut self, owner: Owner) -> (r: Result<RecordId, BookingError>)
        ensures
            final(self).owners() == old(self).owners().push(owner),
            final(self).bookings() == old(self).bookings(),
            final(self).dogs() == old(self).dogs(),
            r == Ok::<RecordId, BookingError>(owner._id),
    {
        let id = owner._id;
        self.owner.push(owner);
        Ok(id)
    }

    /// Stores a dog record as given and reports its identifier.
    pub fn create_dog(&mut self, dog: Dog) -> (r: Result<RecordId, BookingError>)
        ensures
            final(self).dogs() == old(self).dogs().push(dog),
            final(self).bookings() == old(self).bookings(),
            final(self).owners() == old(self).owners(),
            r == Ok::<RecordId, BookingError>(dog._id),
    {
        let id = dog._id;
        self.dog.push(dog);
        Ok(id)
    }

    /// Appends a booking record as given and reports its identifier.
    pub fn create_booking(&mut self, booking: Booking) -> (r: Result<RecordId, BookingError>)
        ensures
            final(self).bookings() == old(self).bookings().push(booking),
            final(self).dogs() == old(self).dogs(),
            final(self).owners() == old(self).owners(),
            r == Ok::<RecordId, BookingError>(booking._id),
    {
        let id = booking._id;
        self.booking.push(booking);
        Ok(id)
    }

    /// The Lifecycle Engine's create operation: normalizes the request and
    /// persists the new `Active` booking, or reports why the input is
    /// rejected, leaving the store untouched.
    pub fn create(&mut self, request: BooKingRequest) -> (r: Result<Booking, BookingError>)
        ensures
            r is Ok <==> is_object_id_hex(request.owner@) && rfc3339_utc_millis(
                request.start_time@,
            ) is Some,
            match r {
                Ok(b) => {
                    &&& final(self).bookings() == old(self).bookings().push(b)
                    &&& b.owner.value == hex_value(request.owner@)
                    &&& rfc3339_utc_millis(request.start_time@) == Some(b.start_time.millis)
                    &&& b.duration_in_minutes == request.duration_in_minutes
                    &&& b.cancelled == false
                },
                Err(BookingError::InvalidReference) => {
                    &&& !is_object_id_hex(request.owner@)
                    &&& *final(self) == *old(self)
                },
                Err(BookingError::InvalidTimestamp(_)) => {
                    &&& is_object_id_hex(request.owner@)
                    &&& rfc3339_utc_millis(request.start_time@) is None
                    &&& *final(self) == *old(self)
                },
                Err(_) => false,
            },
            final(self).dogs() == old(self).dogs(),
            final(self).owners() == old(self).owners(),
    {
        let booking = match Booking::try_from(request) {
            Ok(b) => b,
            Err(e) => {
                return Err(e);
            },
        };
        match self.create_booking(booking) {
            Ok(_) => Ok(booking),
            Err(e) => Err(e),
        }
    }

    /// The Lifecycle Engine's cancel operation: parses the identifier, finds
    /// the first booking carrying it and sets its `cancelled` flag. An
    /// identifier that does not parse, or matches no record, reports
    /// `NotFound` and changes nothing. Re-cancelling an already cancelled
    /// booking succeeds silently and leaves the store as it is.
    pub fn cancel_booking(&mut self, booking_id: &str) -> (r: Result<(), BookingError>)
        ensures
            r is Ok <==> is_object_id_hex(booking_id@) && has_booking(
                old(self).bookings(),
                (RecordId { value: hex_value(booking_id@) as u128 }),
            ),
            match r {
                Ok(_) => final(self).bookings() == cancel_first(
                    old(self).bookings(),
                    (RecordId { value: hex_value(booking_id@) as u128 }),
                ),
                Err(BookingError::NotFound) => *final(self) == *old(self),
                Err(_) => false,
            },
            final(self).dogs() == old(self).dogs(),
            final(self).owners() == old(self).owners(),
    {
        let id = match RecordId::parse_str(booking_id) {
            Some(id) => id,
            None => {
                return Err(BookingError::NotFound);
            },
        };
        proof {
            crate::oid::lemma_hex_value_fits(booking_id@);
            assert(id == (RecordId { value: hex_value(booking_id@) as u128 }));
        }
        let n = self.booking.len();
        let mut i: usize = 0;
        while i < n
            invariant
                n == self.booking.len(),
                *self == *old(self),
                0 <= i <= n,
                is_object_id_hex(booking_id@),
                id == (RecordId { value: hex_value(booking_id@) as u128 }),
                forall|j: int| 0 <= j < i ==> (#[trigger] self.booking@[j])._id != id,
            decreases n - i,
        {
            if self.booking[i]._id == id {
                let mut b = self.booking[i];
                b.cancelled = true;
                self.booking.set(i, b);
                proof {
                    assert(b == mark_cancelled(old(self).bookings()[i as int]));
                    lemma_cancel_first_is_update(old(self).bookings(), id, i as int);
                }
                return Ok(());
            }
            i = i + 1;
        }
        Err(BookingError::NotFound)
    }

    /// The first stored owner record carrying the identifier, if any.
    fn find_owner(&self, id: RecordId) -> (r: Option<&Owner>)
        ensures
            match r {
                Some(o) => resolve_owner(self.owners(), id) == Some(*o),
                None => resolve_owner(self.owners(), id) is None,
            },
    {
        let n = self.owner.len();
        let mut i: usize = 0;
        while i < n
            invariant
                n == self.owner.len(),
                0 <= i <= n,
                forall|j: int| 0 <= j < i ==> (#[trigger] self.owner@[j])._id != id,
            decreases n - i,
        {
            if self.owner[i]._id == id {
                proof {
                    lemma_resolve_owner_at(self.owner@, id, i as int);
                }
                return Some(&self.owner[i]);
            }
            i = i + 1;
        }
        proof {
            lemma_resolve_owner_none(self.owner@, id);
        }
        None
    }

    /// All stored dog records whose owner reference equals `id`, in store
    /// order; an empty vector, never an error, when none match.
    fn dogs_for_owner(&self, id: RecordId) -> (v: Vec<Dog>)
        ensures
            v@ == dogs_of(self.dogs(), id),
    {
        let mut v: Vec<Dog> = Vec::new();
        let n = self.dog.len();
        let mut i: usize = 0;
        while i < n
            invariant
                n == self.dog.len(),
                0 <= i <= n,
                v@ == dogs_of(self.dog@.take(i as int), id),
            decreases n - i,
        {
            if self.dog[i].owner == id {
                let d = self.dog[i].clone();
                v.push(d);
            }
            proof {
                let t = self.dog@.take(i + 1);
                assert(t.drop_last() =~= self.dog@.take(i as int));
                assert(t.last() == self.dog@[i as int]);
            }
            i = i + 1;
        }
        proof {
            assert(self.dog@.take(n as int) =~= self.dog@);
        }
        v
    }

    /// The Active-Bookings Query Engine: one composed row per stored booking
    /// that is not cancelled and starts at or after `as_of`, joined with its
    /// resolved owner and that owner's dogs, in store order. A booking whose
    /// owner reference resolves to no owner record is silently dropped; an
    /// owner with no dogs yields a row with an empty dog set. The in-memory
    /// aggregation itself cannot fail, so the result is always `Ok`.
    pub fn get_bookings(&self, as_of: UtcInstant) -> (r: Result<Vec<FullBooking>, BookingError>)
        ensures
            match r {
                Ok(v) => views_of(v@) == full_bookings(
                    self.bookings(),
                    self.owners(),
                    self.dogs(),
                    as_of,
                ),
                Err(_) => false,
            },
    {
        let mut out: Vec<FullBooking> = Vec::new();
        let n = self.booking.len();
        let mut i: usize = 0;
        while i < n
            invariant
                n == self.booking.len(),
                0 <= i <= n,
                views_of(out@) == full_bookings(
                    self.booking@.take(i as int),
                    self.owner@,
                    self.dog@,
                    as_of,
                ),
            decreases n - i,
        {
            let b = self.booking[i];
            if !b.cancelled && b.start_time.millis >= as_of.millis {
                match self.find_owner(b.owner) {
                    Some(o) => {
                        let dogs = self.dogs_for_owner(o._id);
                        let fb = FullBooking {
                            _id: b._id,
                            owner: o.clone(),
                            start_time: b.start_time,
                            duration_in_minutes: b.duration_in_minutes,
                            cancelled: b.cancelled,
                            dogs,
                        };
                        out.push(fb);
                    },
                    None => {},
                }
            }
            proof {
                let t = self.booking@.take(i + 1);
                assert(t.drop_last() =~= self.booking@.take(i as int));
                assert(t.last() == self.booking@[i as int]);
                assert(views_of(out@) =~= full_bookings(t, self.owner@, self.dog@, as_of));
            }
            i = i + 1;
        }
        proof {
            assert(self.booking@.take(n as int) =~= self.booking@);
        }
        Ok(out)
    }
}

/// A booking that survives the time filter and whose owner resolves is
/// present in the composed output, joined with that owner and the owner's
/// dogs — whether or not the owner has any dogs.
pub proof fn lemma_selected_booking_included(
    bs: Seq<Booking>,
    os: Seq<Owner>,
    ds: Seq<Dog>,
    as_of: UtcInstant,
    i: int,
)
    requires
        0 <= i < bs.len(),
        booking_selected(bs[i], as_of),
        resolve_owner(os, bs[i].owner) is Some,
    ensures
        full_bookings(bs, os, ds, as_of).contains(
            composed_view(
                bs[i],
                resolve_owner(os, bs[i].owner).unwrap(),
                dogs_of(ds, resolve_owner(os, bs[i].owner).unwrap()._id),
            ),
        ),
    decreases bs.len(),
{
    let out = full_bookings(bs, os, ds, as_of);
    let rest = full_bookings(bs.drop_last(), os, ds, as_of);
    let x = composed_view(
        bs[i],
        resolve_owner(os, bs[i].owner).unwrap(),
        dogs_of(ds, resolve_owner(os, bs[i].owner).unwrap()._id),
    );
    if i == bs.len() - 1 {
        assert(bs.last() == bs[i]);
        assert(out == rest.push(x));
        assert(out[out.len() - 1] == x);
    } else {
        assert(bs.drop_last()[i] == bs[i]);
        lemma_selected_booking_included(bs.drop_last(), os, ds, as_of, i);
        let j = choose|j: int| 0 <= j < rest.len() && rest[j] == x;
        assert(out[j] == x);
    }
}

/// The lower bound of the time filter is inclusive: a booking whose
/// `start_time` equals `as_of` exactly is included in the output.
pub proof fn lemma_boundary_start_included(
    bs: Seq<Booking>,
    os: Seq<Owner>,
    ds: Seq<Dog>,
    as_of: UtcInstant,
    i: int,
)
    requires
        0 <= i < bs.len(),
        !bs[i].cancelled,
        bs[i].start_time.millis == as_of.millis,
        resolve_owner(os, bs[i].owner) is Some,
    ensures
        full_bookings(bs, os, ds, as_of).contains(
            composed_view(
                bs[i],
                resolve_owner(os, bs[i].owner).unwrap(),
                dogs_of(ds, resolve_owner(os, bs[i].owner).unwrap()._id),
            ),
        ),
{
    lemma_selected_booking_included(bs, os, ds, as_of, i);
}

/// An owner with no dogs still yields a row: the booking appears in the
/// output with an empty dog set rather than being omitted.
pub proof fn lemma_zero_dogs_included(
    bs: Seq<Booking>,
    os: Seq<Owner>,
    ds: Seq<Dog>,
    as_of: UtcInstant,
    i: int,
)
    requires
        0 <= i < bs.len(),
        booking_selected(bs[i], as_of),
        resolve_owner(os, bs[i].owner) is Some,
        dogs_of(ds, resolve_owner(os, bs[i].owner).unwrap()._id) == Seq::<Dog>::empty(),
    ensures
        exists|j: int|
            0 <= j < full_bookings(bs, os, ds, as_of).len() && (#[trigger] full_bookings(
                bs,
                os,
                ds,
                as_of,
            )[j])._id == bs[i]._id && full_bookings(bs, os, ds, as_of)[j].dogs.len() == 0,
{
    lemma_selected_booking_included(bs, os, ds, as_of, i);
    let out = full_bookings(bs, os, ds, as_of);
    let x = composed_view(
        bs[i],
        resolve_owner(os, bs[i].owner).unwrap(),
        dogs_of(ds, resolve_owner(os, bs[i].owner).unwrap()._id),
    );
    let j = choose|j: int| 0 <= j < out.len() && out[j] == x;
    assert(out[j]._id == bs[i]._id && out[j].dogs.len() == 0);
}

/// A booking starting strictly before `as_of` contributes no row: every row
/// of the output starts at or after `as_of`.
pub proof fn lemma_past_booking_excluded(
    bs: Seq<Booking>,
    os: Seq<Owner>,
    ds: Seq<Dog>,
    as_of: UtcInstant,
)
    ensures
        forall|j: int|
            0 <= j < full_bookings(bs, os, ds, as_of).len() ==> (#[trigger] full_bookings(
                bs,
                os,
                ds,
                as_of,
            )[j]).start_time.millis >= as_of.millis,
    decreases bs.len(),
{
    if bs.len() > 0 {
        lemma_past_booking_excluded(bs.drop_last(), os, ds, as_of);
        let out = full_bookings(bs, os, ds, as_of);
        let rest = full_bookings(bs.drop_last(), os, ds, as_of);
        assert forall|j: int| 0 <= j < out.len() implies (#[trigger] out[j]).start_time.millis
            >= as_of.millis by {
            if j < rest.len() {
                assert(out[j] == rest[j]);
            } else {
                assert(booking_selected(bs.last(), as_of));
            }
        }
    }
}

/// A cancelled booking is never present in the output, whatever its
/// `start_time`: every row shows `cancelled == false`.
pub proof fn lemma_cancelled_booking_excluded(
    bs: Seq<Booking>,
    os: Seq<Owner>,
    ds: Seq<Dog>,
    as_of: UtcInstant,
)
    ensures
        forall|j: int|
            0 <= j < full_bookings(bs, os, ds, as_of).len() ==> !(#[trigger] full_bookings(
                bs,
                os,
                ds,
                as_of,
            )[j]).cancelled,
    decreases bs.len(),
{
    if bs.len() > 0 {
        lemma_cancelled_booking_excluded(bs.drop_last(), os, ds, as_of);
        let out = full_bookings(bs, os, ds, as_of);
        let rest = full_bookings(bs.drop_last(), os, ds, as_of);
        assert forall|j: int| 0 <= j < out.len() implies !(#[trigger] out[j]).cancelled by {
            if j < rest.len() {
                assert(out[j] == rest[j]);
            } else {
                assert(booking_selected(bs.last(), as_of));
            }
        }
    }
}

/// A booking whose owner reference matches no owner record is silently
/// absent, not an error: removing it from the store leaves the composed
/// output exactly as it was.
pub proof fn lemma_unresolved_owner_booking_dropped(
    bs: Seq<Booking>,
    os: Seq<Owner>,
    ds: Seq<Dog>,
    as_of: UtcInstant,
    i: int,
)
    requires
        0 <= i < bs.len(),
        resolve_owner(os, bs[i].owner) is None,
    ensures
        full_bookings(bs.remove(i), os, ds, as_of) == full_bookings(bs, os, ds, as_of),
    decreases bs.len(),
{
    if i == bs.len() - 1 {
        assert(bs.remove(i) =~= bs.drop_last());
    } else {
        let c = bs.remove(i);
        assert(c.drop_last() =~= bs.drop_last().remove(i));
        assert(c.last() == bs.last());
        assert(bs.drop_last()[i] == bs[i]);
        lemma_unresolved_owner_booking_dropped(bs.drop_last(), os, ds, as_of, i);
    }
}

} // verus!
