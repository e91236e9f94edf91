//! The directory of connected peers: who is there, how to reach each one,
//! and which public value each one has published.

use crate::peer::PeerId;
use vstd::prelude::*;

verus! {

/// What the relay knows of one connected peer. `H` is the handle of the
/// peer's outbound channel: the directory keeps it and never looks inside.
#[derive(Debug, PartialEq, Eq)]
pub struct PeerRecord<H> {
    pub id: PeerId,
    pub outbound: H,
    pub public_value: Option<u16>,
}

/// No identifier occurs in two records.
pub open spec fn unique_ids<H>(records: Seq<PeerRecord<H>>) -> bool {
    forall|i: int, j: int| 0 <= i < j < records.len() ==> records[i].id != records[j].id
}

/// Some record carries `id`.
pub open spec fn has_peer<H>(records: Seq<PeerRecord<H>>, id: PeerId) -> bool {
    exists|i: int| 0 <= i < records.len() && (#[trigger] records[i]).id == id
}

/// The first record at or after position `from` whose identifier is `id`
/// (with `same`) or is not `id` (without).
pub open spec fn first_from<H>(
    records: Seq<PeerRecord<H>>,
    id: PeerId,
    same: bool,
    from: int,
) -> Option<PeerRecord<H>>
    decreases records.len() - from,
{
    if from < 0 || from >= records.len() {
        None
    } else if (records[from].id == id) == same {
        Some(records[from])
    } else {
        first_from(records, id, same, from + 1)
    }
}

/// The record of `id`, if it is registered.
pub open spec fn record_of<H>(records: Seq<PeerRecord<H>>, id: PeerId) -> Option<PeerRecord<H>> {
    first_from(records, id, true, 0)
}

/// The first record, in order of registration, of a peer other than `id`.
pub open spec fn first_other<H>(records: Seq<PeerRecord<H>>, id: PeerId) -> Option<
    PeerRecord<H>,
> {
    first_from(records, id, false, 0)
}

/// The test that keeps every record but those of `id`.
pub open spec fn is_other<H>(id: PeerId) -> spec_fn(PeerRecord<H>) -> bool {
    |record: PeerRecord<H>| record.id != id
}

/// The records of all peers other than `id`, in order of registration.
pub open spec fn without<H>(records: Seq<PeerRecord<H>>, id: PeerId) -> Seq<PeerRecord<H>> {
    records.filter(is_other(id))
}

/// The directory after `id` has joined it: one more record at the end, with
/// no public value yet.
pub open spec fn registered<H>(records: Seq<PeerRecord<H>>, id: PeerId, outbound: H) -> Seq<
    PeerRecord<H>,
> {
    records.push(PeerRecord { id, outbound, public_value: None })
}

/// A record after `id` has published `value`: changed if it is the record
/// of `id`, as it was if not.
pub open spec fn keyed<H>(record: PeerRecord<H>, id: PeerId, value: u16) -> PeerRecord<H> {
    if record.id == id {
        PeerRecord { id: record.id, outbound: record.outbound, public_value: Some(value) }
    } else {
        record
    }
}

/// The directory after `id` has published `value`.
pub open spec fn with_public_value<H>(records: Seq<PeerRecord<H>>, id: PeerId, value: u16) -> Seq<
    PeerRecord<H>,
> {
    Seq::new(records.len(), |at: int| keyed(records[at], id, value))
}

/// The records that a sequence of references points to.
pub open spec fn pointed<H>(refs: Seq<&PeerRecord<H>>) -> Seq<PeerRecord<H>> {
    Seq::new(refs.len(), |at: int| *refs[at])
}

/// Filtering one record more either appends it or changes nothing.
pub proof fn lemma_filter_next<H>(records: Seq<PeerRecord<H>>, id: PeerId, upto: int)
    requires
        0 <= upto < records.len(),
    ensures
        without(records.take(upto + 1), id) == if records[upto].id != id {
            without(records.take(upto), id).push(records[upto])
        } else {
            without(records.take(upto), id)
        },
{
    reveal(Seq::filter);
    assert(records.take(upto + 1).drop_last() =~= records.take(upto));
}

/// `first_from` finds nothing exactly where every record from `from` on
/// fails its test, and what it finds passes the test and is in the
/// directory.
pub proof fn lemma_first_from<H>(records: Seq<PeerRecord<H>>, id: PeerId, same: bool, from: int)
    requires
        0 <= from,
    ensures
        first_from(records, id, same, from) is None <==> forall|at: int|
            from <= at < records.len() ==> ((#[trigger] records[at]).id == id) != same,
        first_from(records, id, same, from) matches Some(found) ==> (found.id == id) == same
            && exists|at: int| from <= at < records.len() && #[trigger] records[at] == found,
    decreases records.len() - from,
{
    if from < records.len() {
        if (records[from].id == id) == same {
            assert(records[from] == first_from(records, id, same, from)->0);
        } else {
            lemma_first_from(records, id, same, from + 1);
            assert forall|at: int| from <= at < records.len() && first_from(
                records,
                id,
                same,
                from,
            ) is None implies ((#[trigger] records[at]).id == id) != same by {
                if at > from {
                }
            }
        }
    }
}

/// What is kept when the records of `id` are taken out is in the
/// directory and is not of `id`, and every other record is kept.
proof fn lemma_without_members<H>(records: Seq<PeerRecord<H>>, id: PeerId)
    ensures
        forall|at: int|
            0 <= at < without(records, id).len() ==> (#[trigger] without(records, id)[at]).id != id
                && records.contains(without(records, id)[at]),
        forall|at: int|
            0 <= at < records.len() && (#[trigger] records[at]).id != id ==> without(
                records,
                id,
            ).contains(records[at]),
        without(records, id).len() <= records.len(),
    decreases records.len(),
{
    reveal(Seq::filter);
    let kept = without(records, id);
    if records.len() > 0 {
        let head = records.drop_last();
        let last = records.last();
        let kept_head = without(head, id);
        lemma_without_members(head, id);
        assert forall|at: int| 0 <= at < kept.len() implies (#[trigger] kept[at]).id != id
            && records.contains(kept[at]) by {
            if at < kept_head.len() {
                let found = kept_head[at];
                assert(head.contains(found));
                let k = choose|k: int| 0 <= k < head.len() && head[k] == found;
                assert(records[k] == found);
            } else {
                assert(records[records.len() - 1] == kept[at]);
            }
        }
        assert forall|at: int| 0 <= at < records.len() && (#[trigger] records[at]).id
            != id implies kept.contains(records[at]) by {
            if at < head.len() {
                assert(head[at].id != id);
                assert(kept_head.contains(head[at]));
                let k = choose|k: int| 0 <= k < kept_head.len() && kept_head[k] == head[at];
                assert(kept[k] == records[at]);
            } else {
                assert(kept[kept.len() - 1] == records[at]);
            }
        }
    }
}

/// Taking out the records of `id` leaves no identifier twice where none
/// was twice before, and changes nothing where `id` was not registered.
proof fn lemma_without_unique<H>(records: Seq<PeerRecord<H>>, id: PeerId)
    ensures
        unique_ids(records) ==> unique_ids(without(records, id)),
        !has_peer(records, id) ==> without(records, id) == records,
    decreases records.len(),
{
    reveal(Seq::filter);
    let kept = without(records, id);
    if records.len() > 0 {
        let head = records.drop_last();
        let last = records.last();
        let kept_head = without(head, id);
        lemma_without_unique(head, id);
        lemma_without_members(head, id);
        if unique_ids(records) {
            assert(unique_ids(head)) by {
                assert forall|i: int, j: int| 0 <= i < j < head.len() implies head[i].id
                    != head[j].id by {
                    assert(records[i].id != records[j].id);
                }
            }
            assert forall|i: int, j: int| 0 <= i < j < kept.len() implies kept[i].id
                != kept[j].id by {
                if j < kept_head.len() {
                    assert(kept_head[i].id != kept_head[j].id);
                } else {
                    let found = kept_head[i];
                    assert(head.contains(found));
                    let k = choose|k: int| 0 <= k < head.len() && head[k] == found;
                    assert(records[k].id != records[records.len() - 1].id);
                }
            }
        }
        if !has_peer(records, id) {
            assert(!has_peer(head, id)) by {
                if has_peer(head, id) {
                    let k = choose|k: int| 0 <= k < head.len() && (#[trigger] head[k]).id == id;
                    assert(records[k].id == id);
                }
            }
            assert(records[records.len() - 1].id != id);
            assert(kept =~= records);
        }
    }
}

/// What is left when the records of `id` are taken out: records of the
/// directory, none of them of `id`, every other record among them, and no
/// identifier twice if none was twice before.
pub proof fn lemma_without<H>(records: Seq<PeerRecord<H>>, id: PeerId)
    ensures
        !has_peer(without(records, id), id),
        forall|other: PeerId|
            other != id ==> (#[trigger] has_peer(without(records, id), other) <==> has_peer(
                records,
                other,
            )),
        forall|at: int|
            0 <= at < without(records, id).len() ==> records.contains(
                #[trigger] without(records, id)[at],
            ),
        without(records, id).len() <= records.len(),
        !has_peer(records, id) ==> without(records, id) == records,
        unique_ids(records) ==> unique_ids(without(records, id)),
{
    let kept = without(records, id);
    lemma_without_members(records, id);
    lemma_without_unique(records, id);
    if has_peer(kept, id) {
        let k = choose|k: int| 0 <= k < kept.len() && (#[trigger] kept[k]).id == id;
        assert(kept[k].id != id);
    }
    assert forall|other: PeerId| other != id implies (#[trigger] has_peer(kept, other)
        <==> has_peer(records, other)) by {
        if has_peer(kept, other) {
            let k = choose|k: int| 0 <= k < kept.len() && (#[trigger] kept[k]).id == other;
            let found = kept[k];
            assert(records.contains(found));
            let j = choose|j: int| 0 <= j < records.len() && records[j] == found;
            assert(records[j].id == other);
        }
        if has_peer(records, other) {
            let j = choose|j: int| 0 <= j < records.len() && (#[trigger] records[j]).id == other;
            let found = records[j];
            assert(kept.contains(found));
            let k = choose|k: int| 0 <= k < kept.len() && kept[k] == found;
            assert(kept[k].id == other);
        }
    }
}

/// A peer that joins and leaves again leaves the directory as it was, and
/// nobody who then looks for another peer finds it.
pub proof fn lemma_register_then_unregister<H>(
    records: Seq<PeerRecord<H>>,
    id: PeerId,
    outbound: H,
    seeker: PeerId,
)
    requires
        !has_peer(records, id),
    ensures
        without(registered(records, id, outbound), id) == records,
        !has_peer(without(registered(records, id, outbound), id), id),
        first_other(without(registered(records, id, outbound), id), seeker) matches Some(found)
            ==> found.id != id,
{
    reveal(Seq::filter);
    let joined = registered(records, id, outbound);
    assert(joined.drop_last() =~= records);
    lemma_without(records, id);
    lemma_without(joined, id);
    lemma_first_from(without(joined, id), seeker, false, 0);
}

/// The directory after the peers `ids` have joined it one after the other,
/// each with its handle.
pub open spec fn registered_all<H>(
    records: Seq<PeerRecord<H>>,
    ids: Seq<PeerId>,
    handles: Seq<H>,
) -> Seq<PeerRecord<H>>
    decreases ids.len(),
{
    if ids.len() == 0 {
        records
    } else {
        registered(
            registered_all(records, ids.drop_last(), handles.drop_last()),
            ids.last(),
            handles.last(),
        )
    }
}

/// Peers with distinct identifiers that join a directory which holds none
/// of them, in whatever order their registrations are served, are all in
/// it afterwards, each once, beside those who were there: none is lost and
/// none is entered twice. Each registration finds its identifier free, as
/// `register` asks.
pub proof fn lemma_register_all<H>(records: Seq<PeerRecord<H>>, ids: Seq<PeerId>, handles: Seq<H>)
    requires
        ids.len() == handles.len(),
        unique_ids(records),
        forall|i: int, j: int| 0 <= i < j < ids.len() ==> ids[i] != ids[j],
        forall|i: int| 0 <= i < ids.len() ==> !has_peer(records, #[trigger] ids[i]),
    ensures
        registered_all(records, ids, handles).len() == records.len() + ids.len(),
        unique_ids(registered_all(records, ids, handles)),
        forall|id: PeerId| #[trigger]
            has_peer(registered_all(records, ids, handles), id) <==> has_peer(records, id)
                || ids.contains(id),
        forall|i: int|
            0 <= i < ids.len() ==> !has_peer(
                registered_all(records, ids.take(i), handles.take(i)),
                #[trigger] ids[i],
            ),
    decreases ids.len(),
{
    let after = registered_all(records, ids, handles);
    if ids.len() == 0 {
    } else {
        let head_ids = ids.drop_last();
        let head_handles = handles.drop_last();
        let before = registered_all(records, head_ids, head_handles);
        let n = ids.len() - 1;
        let newcomer = ids[n];
        lemma_register_all(records, head_ids, head_handles);
        assert(after == before.push(
            PeerRecord { id: newcomer, outbound: handles.last(), public_value: None },
        ));
        assert(!has_peer(before, newcomer)) by {
            assert(!has_peer(records, ids[n]));
            if head_ids.contains(newcomer) {
                let k = choose|k: int| 0 <= k < head_ids.len() && head_ids[k] == newcomer;
                assert(ids[k] != ids[n]);
            }
        }
        assert forall|i: int, j: int| 0 <= i < j < after.len() implies after[i].id
            != after[j].id by {
            if j == before.len() {
                assert(before[i].id != newcomer);
            } else {
                assert(before[i].id != before[j].id);
            }
        }
        assert forall|id: PeerId| #[trigger]
            has_peer(after, id) <==> has_peer(records, id) || ids.contains(id) by {
            assert(has_peer(before, id) <==> has_peer(records, id) || head_ids.contains(id));
            if head_ids.contains(id) {
                let m = choose|m: int| 0 <= m < head_ids.len() && head_ids[m] == id;
                assert(ids[m] == id);
            }
            if ids.contains(id) {
                let m = choose|m: int| 0 <= m < ids.len() && ids[m] == id;
                if m < n {
                    assert(head_ids[m] == id);
                }
            }
            if has_peer(after, id) {
                let k = choose|k: int| 0 <= k < after.len() && (#[trigger] after[k]).id == id;
                if k < before.len() {
                    assert(before[k].id == id);
                } else {
                    assert(ids[n] == id);
                }
            }
            if has_peer(before, id) {
                let k = choose|k: int| 0 <= k < before.len() && (#[trigger] before[k]).id == id;
                assert(after[k].id == id);
            }
            if id == newcomer {
                assert(after[after.len() - 1].id == id);
                assert(ids[n] == id);
            }
        }
        assert forall|i: int| 0 <= i < ids.len() implies !has_peer(
            registered_all(records, ids.take(i), handles.take(i)),
            #[trigger] ids[i],
        ) by {
            if i < n {
                assert(head_ids.take(i) =~= ids.take(i));
                assert(head_handles.take(i) =~= handles.take(i));
                assert(head_ids[i] == ids[i]);
            } else {
                assert(ids.take(i) =~= head_ids);
                assert(handles.take(i) =~= head_handles);
            }
        }
    }
}

/// Publishing a value changes who is registered for nobody, and sets the
/// value of the publisher's record alone.
pub proof fn lemma_with_public_value<H>(
    records: Seq<PeerRecord<H>>,
    id: PeerId,
    value: u16,
    other: PeerId,
)
    ensures
        has_peer(with_public_value(records, id, value), other) <==> has_peer(records, other),
        unique_ids(records) ==> unique_ids(with_public_value(records, id, value)),
        record_of(with_public_value(records, id, value), other) == match record_of(records, other) {
            Some(record) => Some(keyed(record, id, value)),
            None => None,
        },
{
    let after = with_public_value(records, id, value);
    if has_peer(records, other) {
        let k = choose|k: int| 0 <= k < records.len() && (#[trigger] records[k]).id == other;
        assert(after[k].id == other);
    }
    if has_peer(after, other) {
        let k = choose|k: int| 0 <= k < after.len() && (#[trigger] after[k]).id == other;
        assert(records[k].id == other);
    }
    if unique_ids(records) {
        assert forall|i: int, j: int| 0 <= i < j < after.len() implies after[i].id
            != after[j].id by {
            assert(records[i].id != records[j].id);
        }
    }
    lemma_keyed_first_from(records, id, value, other, 0);
}

/// Looking a peer up after a value was published finds the record that
/// was found before, with the value set where it is the publisher's.
proof fn lemma_keyed_first_from<H>(
    records: Seq<PeerRecord<H>>,
    id: PeerId,
    value: u16,
    other: PeerId,
    from: int,
)
    requires
        0 <= from,
    ensures
        first_from(with_public_value(records, id, value), other, true, from) == match first_from(
            records,
            other,
            true,
            from,
        ) {
            Some(record) => Some(keyed(record, id, value)),
            None => None,
        },
    decreases records.len() - from,
{
    if from < records.len() {
        if records[from].id != other {
            lemma_keyed_first_from(records, id, value, other, from + 1);
        }
    }
}

/// The directory. Its records stand in order of registration, and no
/// identifier occurs twice among them.
pub struct PeerRegistry<H> {
    records: Vec<PeerRecord<H>>,
}

impl<H> PeerRegistry<H> {
    /// The records, in order of registration.
    pub closed spec fn view(&self) -> Seq<PeerRecord<H>> {
        self.records@
    }

    #[verifier::type_invariant]
    spec fn well_formed(self) -> bool {
        unique_ids(self.records@)
    }

    /// A directory with nobody in it.
    pub fn new() -> (registry: Self)
        ensures
            registry@ == Seq::<PeerRecord<H>>::empty(),
    {
        PeerRegistry { records: Vec::new() }
    }

    /// How many peers are registered.
    pub fn len(&self) -> (count: usize)
        ensures
            count == self@.len(),
            unique_ids(self@),
    {
        proof {
            use_type_invariant(&*self);
        }
        self.records.len()
    }

    /// The first record from the start whose identifier is `id` (with
    /// `same`) or is not `id` (without).
    fn first(&self, id: PeerId, same: bool) -> (found: Option<&PeerRecord<H>>)
        ensures
            match found {
                Some(record) => first_from(self@, id, same, 0) == Some(*record),
                None => first_from(self@, id, same, 0) is None,
            },
    {
        let mut at: usize = 0;
        while at < self.records.len()
            invariant
                at <= self.records.len(),
                first_from(self.records@, id, same, 0) == first_from(
                    self.records@,
                    id,
                    same,
                    at as int,
                ),
            decreases self.records.len() - at,
        {
            if (self.records[at].id == id) == same {
                return Some(&self.records[at]);
            }
            at += 1;
        }
        None
    }

    /// Whether `id` is registered.
    pub fn contains(&self, id: PeerId) -> (present: bool)
        ensures
            present == has_peer(self@, id),
    {
        let found = self.first(id, true);
        proof {
            lemma_first_from(self@, id, true, 0);
        }
        found.is_some()
    }

    /// The record of `id`, if it is registered.
    pub fn find(&self, id: PeerId) -> (found: Option<&PeerRecord<H>>)
        ensures
            match found {
                Some(record) => record_of(self@, id) == Some(*record),
                None => record_of(self@, id) is None,
            },
            found is Some <==> has_peer(self@, id),
            found matches Some(record) ==> record.id == id,
    {
        proof {
            lemma_first_from(self@, id, true, 0);
        }
        self.first(id, true)
    }

    /// A peer other than `id`: the first such record in order of
    /// registration, or `None` when `id` is alone or nobody is there.
    pub fn find_other(&self, id: PeerId) -> (found: Option<&PeerRecord<H>>)
        ensures
            match found {
                Some(record) => first_other(self@, id) == Some(*record),
                None => first_other(self@, id) is None,
            },
            found matches Some(record) ==> record.id != id && has_peer(self@, record.id),
            found is None <==> forall|at: int|
                0 <= at < self@.len() ==> (#[trigger] self@[at]).id == id,
    {
        proof {
            lemma_first_from(self@, id, false, 0);
        }
        self.first(id, false)
    }

    /// Every record of a peer other than `id`, in order of registration.
    pub fn others(&self, id: PeerId) -> (found: Vec<&PeerRecord<H>>)
        ensures
            pointed(found@) == without(self@, id),
    {
        let mut found: Vec<&PeerRecord<H>> = Vec::new();
        let mut at: usize = 0;
        assert(self.records@.take(0) =~= Seq::<PeerRecord<H>>::empty());
        assert(without(Seq::<PeerRecord<H>>::empty(), id) =~= Seq::<PeerRecord<H>>::empty()) by {
            reveal(Seq::filter);
        }
        while at < self.records.len()
            invariant
                at <= self.records.len(),
                pointed(found@) =~= without(self.records@.take(at as int), id),
            decreases self.records.len() - at,
        {
            proof {
                lemma_filter_next(self.records@, id, at as int);
            }
            if self.records[at].id != id {
                found.push(&self.records[at]);
            }
            at += 1;
        }
        assert(self.records@.take(at as int) =~= self.records@);
        found
    }

    /// Enters a peer that has just connected, with no public value yet.
    ///
    /// Identifiers are handed out by the relay itself, so one that is
    /// already present is a defect of the caller: the precondition leaves
    /// it out.
    pub fn register(&mut self, id: PeerId, outbound: H)
        requires
            !has_peer(old(self)@, id),
        ensures
            final(self)@ == registered(old(self)@, id, outbound),
            unique_ids(final(self)@),
    {
        proof {
            use_type_invariant(&*self);
        }
        let mut records: Vec<PeerRecord<H>> = Vec::new();
        std::mem::swap(&mut records, &mut self.records);
        let ghost before = records@;
        records.push(PeerRecord { id, outbound, public_value: None });
        assert(unique_ids(records@)) by {
            assert forall|i: int, j: int| 0 <= i < j < records@.len() implies records@[i].id
                != records@[j].id by {
                if j == before.len() {
                    assert(before[i].id != id);
                }
            }
        }
        self.records = records;
    }

    /// Enters a peer unless its identifier is taken, and says whether it
    /// did. A refused handle is dropped.
    pub fn try_register(&mut self, id: PeerId, outbound: H) -> (entered: bool)
        ensures
            entered == !has_peer(old(self)@, id),
            entered ==> final(self)@ == registered(old(self)@, id, outbound),
            !entered ==> final(self)@ == old(self)@,
            unique_ids(final(self)@),
    {
        proof {
            use_type_invariant(&*self);
        }
        if self.contains(id) {
            false
        } else {
            self.register(id, outbound);
            true
        }
    }

    /// Removes the record of `id` if there is one; does nothing if there is
    /// none, so that a connection may be closed twice.
    pub fn unregister(&mut self, id: PeerId)
        ensures
            final(self)@ == without(old(self)@, id),
            !has_peer(final(self)@, id),
            unique_ids(final(self)@),
    {
        proof {
            use_type_invariant(&*self);
        }
        let mut records: Vec<PeerRecord<H>> = Vec::new();
        std::mem::swap(&mut records, &mut self.records);
        let ghost before = records@;
        let ghost mut seen: int = 0;
        let mut at: usize = 0;
        assert(before.take(0) =~= Seq::<PeerRecord<H>>::empty());
        assert(without(Seq::<PeerRecord<H>>::empty(), id) =~= Seq::<PeerRecord<H>>::empty()) by {
            reveal(Seq::filter);
        }
        assert(before.skip(0) =~= before);
        while at < records.len()
            invariant
                0 <= seen <= before.len(),
                at <= records.len(),
                at == without(before.take(seen), id).len(),
                records@ =~= without(before.take(seen), id) + before.skip(seen),
                unique_ids(records@),
                forall|k: int| 0 <= k < at ==> (#[trigger] records@[k]).id != id,
            decreases before.len() - seen,
        {
            proof {
                assert(seen < before.len());
                lemma_filter_next(before, id, seen);
                assert(records@[at as int] == before.skip(seen)[0]);
            }
            let ghost current = records@;
            if records[at].id == id {
                let _ = records.remove(at);
                proof {
                    assert(records@ =~= without(before.take(seen + 1), id) + before.skip(seen + 1));
                    assert forall|i: int, j: int| 0 <= i < j < records@.len() implies records@[i].id
                        != records@[j].id by {
                        let i0 = if i < at { i } else { i + 1 };
                        let j0 = if j < at { j } else { j + 1 };
                        assert(current[i0].id != current[j0].id);
                    }
                    seen = seen + 1;
                }
            } else {
                proof {
                    assert(records@ =~= without(before.take(seen + 1), id) + before.skip(seen + 1));
                    seen = seen + 1;
                }
                at += 1;
            }
        }
        proof {
            assert(seen == before.len());
            assert(before.take(seen) =~= before);
            assert(records@ =~= without(before, id));
            assert(!has_peer(records@, id));
        }
        self.records = records;
    }

    /// Records the public value that `id` has published. A peer that has
    /// gone in the meantime is passed over in silence.
    pub fn set_public_value(&mut self, id: PeerId, value: u16)
        ensures
            final(self)@ == with_public_value(old(self)@, id, value),
            unique_ids(final(self)@),
    {
        proof {
            use_type_invariant(&*self);
        }
        let mut records: Vec<PeerRecord<H>> = Vec::new();
        std::mem::swap(&mut records, &mut self.records);
        let ghost before = records@;
        let mut at: usize = 0;
        while at < records.len()
            invariant
                at <= records.len(),
                records@.len() == before.len(),
                forall|k: int| 0 <= k < at ==> #[trigger] records@[k] == keyed(before[k], id, value),
                forall|k: int| at <= k < before.len() ==> #[trigger] records@[k] == before[k],
            decreases records.len() - at,
        {
            if records[at].id == id {
                records[at].public_value = Some(value);
            }
            at += 1;
        }
        proof {
            assert(records@ =~= with_public_value(before, id, value));
            assert forall|i: int, j: int| 0 <= i < j < records@.len() implies records@[i].id
                != records@[j].id by {
                assert(before[i].id != before[j].id);
            }
        }
        self.records = records;
    }
}

} // verus!
