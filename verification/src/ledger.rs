//! The collection of records, each stored under the address derived from its
//! owner's identity and a namespace tag.
//!
//! Address derivation is a pure function of the identity and the tag alone,
//! never of mutable state, so both execution contexts independently agree on
//! which record an operation speaks of, and records of distinct tags (schema
//! generations) are disjoint.

use vstd::prelude::*;

use crate::errors::ChatError;
use crate::identity::Identity;
use crate::message::{ChatMessageView, MessageSent};
use crate::room::{
    delegate_step, fresh_room, notification_view, send_step, undelegate_step, ChatRoom,
    ChatRoomView, ServiceResponse,
};

verus! {

/// What one addressed record looks like in specifications.
#[verifier::ext_equal]
pub ghost struct LedgerEntryView {
    pub identity: Seq<u8>,
    pub namespace_tag: Seq<u8>,
    pub room: ChatRoomView,
}

/// One record together with the identity and namespace tag its address is
/// derived from.
struct LedgerEntry {
    identity: Identity,
    namespace_tag: Vec<u8>,
    room: ChatRoom,
}

impl View for LedgerEntry {
    type V = LedgerEntryView;

    closed spec fn view(&self) -> LedgerEntryView {
        LedgerEntryView {
            identity: self.identity@,
            namespace_tag: self.namespace_tag@,
            room: self.room@,
        }
    }
}

/// Whether the entry's address is derived from this identity and tag.
pub open spec fn entry_at(e: LedgerEntryView, id: Seq<u8>, tag: Seq<u8>) -> bool {
    e.identity == id && e.namespace_tag == tag
}

/// The record stored under the address derived from `id` and `tag`, if any:
/// the first entry whose identity and namespace tag both match.
pub open spec fn lookup(entries: Seq<LedgerEntryView>, id: Seq<u8>, tag: Seq<u8>) -> Option<
    ChatRoomView,
>
    decreases entries.len(),
{
    if entries.len() == 0 {
        None
    } else if entry_at(entries[0], id, tag) {
        Some(entries[0].room)
    } else {
        lookup(entries.drop_first(), id, tag)
    }
}

/// `lookup` returns the entry at `k` when nothing before `k` matches.
proof fn lemma_lookup_first_match(entries: Seq<LedgerEntryView>, id: Seq<u8>, tag: Seq<u8>, k: int)
    requires
        0 <= k < entries.len(),
        entry_at(entries[k], id, tag),
        forall|j: int| 0 <= j < k ==> !entry_at(entries[j], id, tag),
    ensures
        lookup(entries, id, tag) == Some(entries[k].room),
    decreases k,
{
    if k > 0 {
        lemma_lookup_first_match(entries.drop_first(), id, tag, k - 1);
    }
}

/// `lookup` misses exactly when no entry matches.
proof fn lemma_lookup_none_iff(entries: Seq<LedgerEntryView>, id: Seq<u8>, tag: Seq<u8>)
    ensures
        lookup(entries, id, tag) is None <==> (forall|j: int|
            0 <= j < entries.len() ==> !entry_at(entries[j], id, tag)),
    decreases entries.len(),
{
    if entries.len() > 0 {
        let rest = entries.drop_first();
        lemma_lookup_none_iff(rest, id, tag);
        if lookup(entries, id, tag) is None {
            assert forall|j: int| 0 <= j < entries.len() implies !entry_at(
                entries[j],
                id,
                tag,
            ) by {
                if j > 0 {
                    assert(rest[j - 1] == entries[j]);
                }
            }
        } else {
            if !entry_at(entries[0], id, tag) {
                let j = choose|j: int| 0 <= j < rest.len() && entry_at(rest[j], id, tag);
                assert(entries[j + 1] == rest[j]);
            }
        }
    }
}

/// Replacing the entry at `i` by one with the same identity and tag changes
/// `lookup` at that address alone, provided no earlier entry shadows it.
proof fn lemma_lookup_update(
    entries: Seq<LedgerEntryView>,
    i: int,
    e2: LedgerEntryView,
    id: Seq<u8>,
    tag: Seq<u8>,
)
    requires
        0 <= i < entries.len(),
        e2.identity == entries[i].identity,
        e2.namespace_tag == entries[i].namespace_tag,
        forall|j: int|
            0 <= j < i ==> !entry_at(
                entries[j],
                entries[i].identity,
                entries[i].namespace_tag,
            ),
    ensures
        lookup(entries.update(i, e2), id, tag) == if entry_at(entries[i], id, tag) {
            Some(e2.room)
        } else {
            lookup(entries, id, tag)
        },
    decreases entries.len(),
{
    if i == 0 {
        if !entry_at(entries[0], id, tag) {
            assert(entries.update(0, e2).drop_first() =~= entries.drop_first());
        }
    } else {
        assert(entries.update(i, e2).drop_first() =~= entries.drop_first().update(i - 1, e2));
        lemma_lookup_update(entries.drop_first(), i - 1, e2, id, tag);
    }
}

/// Appending an entry whose address was vacant changes `lookup` at that
/// address alone.
proof fn lemma_lookup_push(
    entries: Seq<LedgerEntryView>,
    e: LedgerEntryView,
    id: Seq<u8>,
    tag: Seq<u8>,
)
    requires
        lookup(entries, e.identity, e.namespace_tag) is None,
    ensures
        lookup(entries.push(e), id, tag) == if entry_at(e, id, tag) {
            Some(e.room)
        } else {
            lookup(entries, id, tag)
        },
    decreases entries.len(),
{
    if entries.len() == 0 {
        assert(entries.push(e)[0] == e);
        if !entry_at(e, id, tag) {
            assert(entries.push(e).drop_first() =~= Seq::<LedgerEntryView>::empty());
        }
    } else {
        assert(entries.push(e)[0] == entries[0]);
        assert(entries.push(e).drop_first() =~= entries.drop_first().push(e));
        lemma_lookup_push(entries.drop_first(), e, id, tag);
    }
}

/// Replacing one entry's room, keeping its address, turns the map view into
/// an insert at that address and preserves the collection's invariants.
proof fn lemma_ledger_update(prel: Ledger, postl: Ledger, i: int)
    requires
        prel.wf(),
        0 <= i < prel.entries_seq().len(),
        postl.entries_seq() == prel.entries_seq().update(i, postl.entries_seq()[i]),
        postl.entries_seq()[i].identity == prel.entries_seq()[i].identity,
        postl.entries_seq()[i].namespace_tag == prel.entries_seq()[i].namespace_tag,
        postl.entries_seq()[i].room.wf(),
        forall|j: int|
            0 <= j < i ==> !entry_at(
                #[trigger] prel.entries_seq()[j],
                prel.entries_seq()[i].identity,
                prel.entries_seq()[i].namespace_tag,
            ),
    ensures
        postl.wf(),
        postl@ == prel@.insert(
            (prel.entries_seq()[i].identity, prel.entries_seq()[i].namespace_tag),
            postl.entries_seq()[i].room,
        ),
{
    let pre = prel.entries_seq();
    let post = postl.entries_seq();
    let e2 = post[i];
    let k = (pre[i].identity, pre[i].namespace_tag);
    assert forall|k2: (Seq<u8>, Seq<u8>)|
        #![auto]
        lookup(post, k2.0, k2.1) == (if k2 == k {
            Some(e2.room)
        } else {
            lookup(pre, k2.0, k2.1)
        }) by {
        lemma_lookup_update(pre, i, e2, k2.0, k2.1);
        if k2.0 == k.0 && k2.1 == k.1 {
            assert(k2 =~= k);
        }
    }
    assert(postl@ =~= prel@.insert(k, e2.room));
    assert forall|i2: int, j2: int|
        #![trigger post[i2], post[j2]]
        0 <= i2 < j2 < post.len() implies !entry_at(
        post[j2],
        post[i2].identity,
        post[i2].namespace_tag,
    ) by {
        assert(post[i2].identity == pre[i2].identity && post[i2].namespace_tag
            == pre[i2].namespace_tag);
        assert(post[j2].identity == pre[j2].identity && post[j2].namespace_tag
            == pre[j2].namespace_tag);
        assert(!entry_at(pre[j2], pre[i2].identity, pre[i2].namespace_tag));
    }
    assert forall|i2: int| 0 <= i2 < post.len() implies (#[trigger] post[i2]).room.wf() by {
        if i2 != i {
            assert(post[i2] == pre[i2]);
        }
    }
}

/// True exactly when the two byte strings are equal.
fn bytes_eq(a: &[u8], b: &[u8]) -> (r: bool)
    ensures
        r == (a@ == b@),
{
    if a.len() != b.len() {
        return false;
    }
    let mut i: usize = 0;
    while i < a.len()
        invariant
            0 <= i <= a@.len(),
            a@.len() == b@.len(),
            forall|j: int| 0 <= j < i ==> a@[j] == b@[j],
        decreases a@.len() - i,
    {
        if a[i] != b[i] {
            return false;
        }
        i += 1;
    }
    assert(a@ =~= b@);
    true
}

/// All records, seen as a map from (identity, namespace tag) — the pair the
/// address is derived from — to the room stored under that address.
pub struct Ledger {
    entries: Vec<LedgerEntry>,
}

impl View for Ledger {
    type V = Map<(Seq<u8>, Seq<u8>), ChatRoomView>;

    closed spec fn view(&self) -> Map<(Seq<u8>, Seq<u8>), ChatRoomView> {
        Map::new(
            |k: (Seq<u8>, Seq<u8>)| lookup(self.entries_seq(), k.0, k.1) is Some,
            |k: (Seq<u8>, Seq<u8>)| lookup(self.entries_seq(), k.0, k.1)->0,
        )
    }
}

impl Ledger {
    /// The stored entries as specification values, oldest first.
    pub closed spec fn entries_seq(&self) -> Seq<LedgerEntryView> {
        self.entries@.map(|i: int, e: LedgerEntry| e@)
    }

    /// The invariants of the whole collection: no two entries share an
    /// address, and every room maintains its own invariants.
    pub closed spec fn wf(&self) -> bool {
        &&& forall|i: int, j: int|
            #![trigger self.entries_seq()[i], self.entries_seq()[j]]
            0 <= i < j < self.entries_seq().len() ==> !entry_at(
                self.entries_seq()[j],
                self.entries_seq()[i].identity,
                self.entries_seq()[i].namespace_tag,
            )
        &&& forall|i: int|
            0 <= i < self.entries_seq().len() ==> (#[trigger] self.entries_seq()[i]).room.wf()
    }

    /// An empty ledger.
    pub fn new() -> (r: Self)
        ensures
            r.wf(),
            r@ == Map::<(Seq<u8>, Seq<u8>), ChatRoomView>::empty(),
    {
        let r = Ledger { entries: Vec::new() };
        proof {
            assert(r.entries_seq() =~= Seq::<LedgerEntryView>::empty());
            assert(r@ =~= Map::<(Seq<u8>, Seq<u8>), ChatRoomView>::empty());
        }
        r
    }

    /// The index of the entry at the address derived from `identity` and
    /// `namespace_tag`, if one exists.
    fn find(&self, identity: &Identity, namespace_tag: &Vec<u8>) -> (r: Option<usize>)
        ensures
            (match r {
                Some(i) => {
                    &&& 0 <= i < self.entries_seq().len()
                    &&& entry_at(self.entries_seq()[i as int], identity@, namespace_tag@)
                    &&& forall|j: int|
                        0 <= j < i ==> !entry_at(
                            #[trigger] self.entries_seq()[j],
                            identity@,
                            namespace_tag@,
                        )
                    &&& lookup(self.entries_seq(), identity@, namespace_tag@) == Some(
                        self.entries_seq()[i as int].room,
                    )
                },
                None => lookup(self.entries_seq(), identity@, namespace_tag@) is None,
            }),
    {
        let n = self.entries.len();
        let mut i: usize = 0;
        while i < n
            invariant
                n == self.entries@.len(),
                0 <= i <= n,
                forall|j: int|
                    0 <= j < i ==> !entry_at(
                        #[trigger] self.entries_seq()[j],
                        identity@,
                        namespace_tag@,
                    ),
            decreases n - i,
        {
            let e = &self.entries[i];
            proof {
                assert(self.entries_seq()[i as int] == e@);
            }
            let same_id = e.identity.same_as(identity);
            let same_tag = bytes_eq(e.namespace_tag.as_slice(), namespace_tag.as_slice());
            if same_id && same_tag {
                proof {
                    lemma_lookup_first_match(
                        self.entries_seq(),
                        identity@,
                        namespace_tag@,
                        i as int,
                    );
                }
                return Some(i);
            }
            i += 1;
        }
        proof {
            lemma_lookup_none_iff(self.entries_seq(), identity@, namespace_tag@);
        }
        None
    }

    /// Read access to the room at the address derived from `identity` and
    /// `namespace_tag`.
    pub fn room(&self, identity: &Identity, namespace_tag: &Vec<u8>) -> (r: Option<&ChatRoom>)
        ensures
            (match r {
                Some(room) => self@.contains_key((identity@, namespace_tag@)) && room@ == self@[(
                    identity@,
                    namespace_tag@,
                )],
                None => !self@.contains_key((identity@, namespace_tag@)),
            }),
    {
        match self.find(identity, namespace_tag) {
            Some(i) => Some(&self.entries[i].room),
            None => None,
        }
    }

    /// Creates the record at the address derived from `identity` and
    /// `namespace_tag`: counter zero, empty history, authority with the base
    /// context. Fails with `AlreadyInitialized`, changing nothing, if the
    /// address already holds a record. Records of distinct tags are disjoint,
    /// so a namespace bump never collides with an existing record.
    pub fn initialize(&mut self, identity: &Identity, namespace_tag: Vec<u8>) -> (r: Result<
        (),
        ChatError,
    >)
        requires
            old(self).wf(),
        ensures
            final(self).wf(),
            old(self)@.contains_key((identity@, namespace_tag@)) ==> r == Err::<(), ChatError>(
                ChatError::AlreadyInitialized,
            ) && final(self)@ == old(self)@,
            !old(self)@.contains_key((identity@, namespace_tag@)) ==> r == Ok::<(), ChatError>(())
                && final(self)@ == old(self)@.insert((identity@, namespace_tag@), fresh_room()),
    {
        let ghost pre = self.entries_seq();
        let ghost k = (identity@, namespace_tag@);
        match self.find(identity, &namespace_tag) {
            Some(_) => Err(ChatError::AlreadyInitialized),
            None => {
                let entry = LedgerEntry {
                    identity: *identity,
                    namespace_tag,
                    room: ChatRoom::new(),
                };
                let ghost ev = entry@;
                self.entries.push(entry);
                proof {
                    assert(self.entries_seq() =~= pre.push(ev));
                    assert forall|k2: (Seq<u8>, Seq<u8>)|
                        #![auto]
                        lookup(self.entries_seq(), k2.0, k2.1) == (if k2 == k {
                            Some(fresh_room())
                        } else {
                            lookup(pre, k2.0, k2.1)
                        }) by {
                        lemma_lookup_push(pre, ev, k2.0, k2.1);
                        if k2.0 == k.0 && k2.1 == k.1 {
                            assert(k2 =~= k);
                        }
                        if k2 == k {
                            assert(entry_at(ev, k2.0, k2.1));
                        }
                    }
                    assert(self@ =~= old(self)@.insert(k, fresh_room()));
                    lemma_lookup_none_iff(pre, identity@, namespace_tag@);
                    assert forall|i: int, j: int|
                        #![trigger self.entries_seq()[i], self.entries_seq()[j]]
                        0 <= i < j < self.entries_seq().len() implies !entry_at(
                        self.entries_seq()[j],
                        self.entries_seq()[i].identity,
                        self.entries_seq()[i].namespace_tag,
                    ) by {
                        if j < pre.len() {
                            assert(self.entries_seq()[i] == pre[i]);
                            assert(self.entries_seq()[j] == pre[j]);
                        } else {
                            assert(self.entries_seq()[j] == ev);
                            assert(self.entries_seq()[i] == pre[i]);
                        }
                    }
                }
                Ok(())
            },
        }
    }

    /// Appends a message to the room at the address derived from `identity`
    /// and `namespace_tag` and returns the notification for listeners.
    /// Fails with `AddressMismatch` when no record exists there, and with
    /// `WrongContext` while the room is delegated; a failed send mutates
    /// nothing, and no send ever touches any other record.
    pub fn send_message(
        &mut self,
        identity: &Identity,
        sender: &Identity,
        namespace_tag: &Vec<u8>,
        content: String,
        now: i64,
    ) -> (r: Result<MessageSent, ChatError>)
        requires
            old(self).wf(),
            old(self)@.contains_key((identity@, namespace_tag@)) ==> old(self)@[(
                identity@,
                namespace_tag@,
            )].message_count < u64::MAX,
        ensures
            final(self).wf(),
            !old(self)@.contains_key((identity@, namespace_tag@)) ==> r == Err::<
                MessageSent,
                ChatError,
            >(ChatError::AddressMismatch) && final(self)@ == old(self)@,
            old(self)@.contains_key((identity@, namespace_tag@)) ==> ({
                let step = send_step(
                    old(self)@[(identity@, namespace_tag@)],
                    ChatMessageView { sender: sender@, content: content@, timestamp: now as int },
                );
                &&& final(self)@ == old(self)@.insert((identity@, namespace_tag@), step.0)
                &&& notification_view(r) == step.1
            }),
            r is Err ==> final(self)@ == old(self)@,
    {
        let ghost pre = self.entries_seq();
        let ghost k = (identity@, namespace_tag@);
        match self.find(identity, namespace_tag) {
            None => Err(ChatError::AddressMismatch),
            Some(i) => {
                proof {
                    assert(old(self)@[k] == pre[i as int].room);
                    assert(pre[i as int].room.wf());
                }
                let mut entry = self.entries.remove(i);
                let r = entry.room.send(sender, content, now);
                let ghost e2 = entry@;
                self.entries.insert(i, entry);
                proof {
                    assert(self.entries_seq() =~= pre.update(i as int, e2));
                    lemma_ledger_update(*old(self), *self, i as int);
                    if r is Err {
                        assert(old(self)@.insert(k, e2.room) =~= old(self)@);
                    }
                }
                r
            },
        }
    }

    /// Hands the record's mutation authority to the delegated context, after
    /// checking that `executing_party` is the identity owning the record.
    /// `response` is the external delegation service's answer to the
    /// acceptance request for the derived address. Fails with `Unauthorized`
    /// on a foreign signer, `AddressMismatch` when no record exists, and
    /// `DelegationRejected` when the record is already delegated or the
    /// service rejected; every failure leaves the ledger exactly as it was.
    pub fn delegate_chat(
        &mut self,
        identity: &Identity,
        executing_party: &Identity,
        namespace_tag: &Vec<u8>,
        response: ServiceResponse,
    ) -> (r: Result<(), ChatError>)
        requires
            old(self).wf(),
        ensures
            final(self).wf(),
            executing_party@ != identity@ ==> r == Err::<(), ChatError>(ChatError::Unauthorized),
            executing_party@ == identity@ && !old(self)@.contains_key((identity@, namespace_tag@))
                ==> r == Err::<(), ChatError>(ChatError::AddressMismatch),
            executing_party@ == identity@ && old(self)@.contains_key((identity@, namespace_tag@))
                ==> ({
                let step = delegate_step(old(self)@[(identity@, namespace_tag@)], response);
                &&& final(self)@ == old(self)@.insert((identity@, namespace_tag@), step.0)
                &&& r == step.1
            }),
            r is Err ==> final(self)@ == old(self)@,
            r is Ok ==> final(self)@ == old(self)@.insert(
                (identity@, namespace_tag@),
                delegate_step(old(self)@[(identity@, namespace_tag@)], response).0,
            ),
    {
        if !executing_party.same_as(identity) {
            return Err(ChatError::Unauthorized);
        }
        let ghost pre = self.entries_seq();
        let ghost k = (identity@, namespace_tag@);
        match self.find(identity, namespace_tag) {
            None => Err(ChatError::AddressMismatch),
            Some(i) => {
                proof {
                    assert(old(self)@[k] == pre[i as int].room);
                    assert(pre[i as int].room.wf());
                }
                let mut entry = self.entries.remove(i);
                let r = entry.room.delegate(response);
                let ghost e2 = entry@;
                self.entries.insert(i, entry);
                proof {
                    assert(self.entries_seq() =~= pre.update(i as int, e2));
                    lemma_ledger_update(*old(self), *self, i as int);
                    if r is Err {
                        assert(old(self)@.insert(k, e2.room) =~= old(self)@);
                    }
                }
                r
            },
        }
    }

    /// Returns the record's mutation authority to the base context, after the
    /// same authorization check as `delegate_chat`. `response` is the
    /// external delegation service's answer to the revocation request. Fails
    /// with `Unauthorized` on a foreign signer, `AddressMismatch` when no
    /// record exists, and `UndelegationRejected` when the record is not
    /// delegated or the service rejected; every failure leaves the ledger
    /// exactly as it was, never in a middle state.
    pub fn undelegate_chat(
        &mut self,
        identity: &Identity,
        executing_party: &Identity,
        namespace_tag: &Vec<u8>,
        response: ServiceResponse,
    ) -> (r: Result<(), ChatError>)
        requires
            old(self).wf(),
        ensures
            final(self).wf(),
            executing_party@ != identity@ ==> r == Err::<(), ChatError>(ChatError::Unauthorized),
            executing_party@ == identity@ && !old(self)@.contains_key((identity@, namespace_tag@))
                ==> r == Err::<(), ChatError>(ChatError::AddressMismatch),
            executing_party@ == identity@ && old(self)@.contains_key((identity@, namespace_tag@))
                ==> ({
                let step = undelegate_step(old(self)@[(identity@, namespace_tag@)], response);
                &&& final(self)@ == old(self)@.insert((identity@, namespace_tag@), step.0)
                &&& r == step.1
            }),
            r is Err ==> final(self)@ == old(self)@,
            r is Ok ==> final(self)@ == old(self)@.insert(
                (identity@, namespace_tag@),
                undelegate_step(old(self)@[(identity@, namespace_tag@)], response).0,
            ),
    {
        if !executing_party.same_as(identity) {
            return Err(ChatError::Unauthorized);
        }
        let ghost pre = self.entries_seq();
        let ghost k = (identity@, namespace_tag@);
        match self.find(identity, namespace_tag) {
            None => Err(ChatError::AddressMismatch),
            Some(i) => {
                proof {
                    assert(old(self)@[k] == pre[i as int].room);
                    assert(pre[i as int].room.wf());
                }
                let mut entry = self.entries.remove(i);
                let r = entry.room.undelegate(response);
                let ghost e2 = entry@;
                self.entries.insert(i, entry);
                proof {
                    assert(self.entries_seq() =~= pre.update(i as int, e2));
                    lemma_ledger_update(*old(self), *self, i as int);
                    if r is Err {
                        assert(old(self)@.insert(k, e2.room) =~= old(self)@);
                    }
                }
                r
            },
        }
    }
}

} // verus!
