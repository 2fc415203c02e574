//! A persistent map with a mirror in memory.

use crate::tree::{all_read, tree_entries, tree_get, tree_insert, tree_read_all, tree_remove, ReadEntry};
use std::collections::HashMap;
use std::marker::PhantomData;
use vstd::bytes::{spec_u64_from_le_bytes, spec_u64_to_le_bytes, u64_from_le_bytes, u64_to_le_bytes};
use vstd::prelude::*;

verus! {

broadcast use vstd::std_specs::hash::group_hash_axioms;

/// `rand::random::<u64>`: some 64-bit number; nothing is known of it.
#[verifier::external_body]
fn random_u64() -> (r: u64) {
    rand::random::<u64>()
}

/// A key of the map: a value that stands for one 64-bit number, and every
/// number for one key.
pub trait Key: Copy {
    spec fn to_id(self) -> u64;

    spec fn of_id(id: u64) -> Self;

    /// The number of a key names the key, and the key of a number has that
    /// number.
    proof fn lemma_bijection(self, id: u64)
        ensures
            Self::of_id(self.to_id()) == self,
            Self::of_id(id).to_id() == id,
    ;

    fn id(self) -> (r: u64)
        ensures
            r == self.to_id(),
    ;

    fn from_id(id: u64) -> (r: Self)
        ensures
            r == Self::of_id(id),
    ;
}

/// A value of the map: something that is written as bytes and read back. A
/// type says of its own writing and reading what it can stand for; of a type
/// that says nothing, nothing is taken for granted.
pub trait Stored: Sized {
    /// Whether writing this value may give `bytes`.
    open spec fn encodes(&self, bytes: Seq<u8>) -> bool {
        true
    }

    /// Whether reading `bytes` may give `value`; `None` for bytes that cannot
    /// be read.
    open spec fn decodes(bytes: Seq<u8>, value: Option<Self>) -> bool {
        true
    }

    fn encode(&self) -> (bytes: Vec<u8>)
        ensures
            self.encodes(bytes@),
    ;

    fn decode(bytes: &[u8]) -> (value: Option<Self>)
        ensures
            Self::decodes(bytes@, value),
    ;
}

impl Key for u64 {
    open spec fn to_id(self) -> u64 {
        self
    }

    open spec fn of_id(id: u64) -> u64 {
        id
    }

    proof fn lemma_bijection(self, id: u64) {
    }

    fn id(self) -> (r: u64) {
        self
    }

    fn from_id(id: u64) -> (r: u64) {
        id
    }
}

impl Stored for u64 {
    open spec fn encodes(&self, bytes: Seq<u8>) -> bool {
        bytes == spec_u64_to_le_bytes(*self)
    }

    open spec fn decodes(bytes: Seq<u8>, value: Option<u64>) -> bool {
        value == if bytes.len() == 8 {
            Some(spec_u64_from_le_bytes(bytes))
        } else {
            None
        }
    }

    fn encode(&self) -> (bytes: Vec<u8>) {
        u64_to_le_bytes(*self)
    }

    fn decode(bytes: &[u8]) -> (value: Option<u64>) {
        if bytes.len() == 8 {
            Some(u64_from_le_bytes(bytes))
        } else {
            None
        }
    }
}

/// Whether the writing and reading of `V` are exact: what was written is read
/// back as it was, and the same bytes are always read as the same value.
pub open spec fn codec_exact<V: Stored>() -> bool {
    &&& forall|v: V, bytes: Seq<u8>| #[trigger] v.encodes(bytes) ==> V::decodes(bytes, Some(v))
    &&& forall|bytes: Seq<u8>, a: Option<V>, b: Option<V>|
        #[trigger] V::decodes(bytes, a) && #[trigger] V::decodes(bytes, b) ==> a == b
}

/// Numbers are written and read exactly.
pub proof fn lemma_u64_codec_exact()
    ensures
        codec_exact::<u64>(),
{
    vstd::bytes::lemma_auto_spec_u64_to_from_le_bytes();
}

/// The bytes of the key of an entry: the number, lowest byte first.
pub open spec fn key_bytes(id: u64) -> Seq<u8> {
    spec_u64_to_le_bytes(id)
}

/// Different numbers have different keys, and every key has 8 bytes.
pub proof fn lemma_key_bytes(a: u64, b: u64)
    ensures
        key_bytes(a).len() == 8,
        spec_u64_from_le_bytes(key_bytes(a)) == a,
        key_bytes(a) == key_bytes(b) ==> a == b,
{
    vstd::bytes::lemma_auto_spec_u64_to_from_le_bytes();
}

/// Why the map could not do what was asked.
#[derive(Debug)]
pub enum CacheError {
    /// The persisted tree failed.
    Storage(sled::Error),
}

/// Whether `bytes` stand for `value`: they were written from it, or it was
/// read from them.
pub open spec fn stands_for<V: Stored>(value: V, bytes: Seq<u8>) -> bool {
    value.encodes(bytes) || V::decodes(bytes, Some(value))
}

/// Whether every entry in memory stands in the tree, under its key and as
/// bytes that stand for its value.
pub open spec fn in_sync<V: Stored>(mirror: Map<u64, V>, persisted: Map<Seq<u8>, Seq<u8>>) -> bool {
    forall|id: u64| #[trigger]
        mirror.contains_key(id) ==> persisted.contains_key(key_bytes(id)) && stands_for(
            mirror[id],
            persisted[key_bytes(id)],
        )
}

/// Whether memory has an entry for every entry of the tree that has a key of
/// 8 bytes and a value that can be read.
pub open spec fn complete<V: Stored>(mirror: Map<u64, V>, persisted: Map<Seq<u8>, Seq<u8>>) -> bool {
    forall|id: u64| #[trigger]
        persisted.contains_key(key_bytes(id)) ==> mirror.contains_key(id) || V::decodes(
            persisted[key_bytes(id)],
            None,
        )
}

/// Whether `after` is `before` with bytes of `value` under the key of `id`.
pub open spec fn wrote<V: Stored>(
    before: Map<Seq<u8>, Seq<u8>>,
    after: Map<Seq<u8>, Seq<u8>>,
    id: u64,
    value: V,
) -> bool {
    &&& after.contains_key(key_bytes(id))
    &&& value.encodes(after[key_bytes(id)])
    &&& after == before.insert(key_bytes(id), after[key_bytes(id)])
}

/// Whether `after` is `before` with every entry of `done` written from
/// memory: each of them stands in the tree as bytes of its value, and the
/// other keys are as they were.
pub open spec fn flushed<V: Stored>(
    before: Map<Seq<u8>, Seq<u8>>,
    after: Map<Seq<u8>, Seq<u8>>,
    mirror: Map<u64, V>,
    done: Set<u64>,
) -> bool {
    &&& forall|id: u64| #[trigger]
        done.contains(id) ==> after.contains_key(key_bytes(id)) && mirror[id].encodes(
            after[key_bytes(id)],
        )
    &&& forall|k: Seq<u8>|
        !(k.len() == 8 && done.contains(spec_u64_from_le_bytes(k))) ==> (#[trigger] after.contains_key(k)
            == before.contains_key(k) && after[k] == before[k])
    &&& forall|k: Seq<u8>| before.contains_key(k) ==> #[trigger] after.contains_key(k)
}

/// Writing an entry to the tree and to memory keeps the two together.
pub proof fn lemma_write_keeps<V: Stored>(
    mirror: Map<u64, V>,
    before: Map<Seq<u8>, Seq<u8>>,
    after: Map<Seq<u8>, Seq<u8>>,
    id: u64,
    value: V,
)
    requires
        wrote(before, after, id, value),
    ensures
        in_sync(mirror, before) ==> in_sync(mirror.insert(id, value), after),
        complete(mirror, before) ==> complete(mirror.insert(id, value), after),
{
    vstd::bytes::lemma_auto_spec_u64_to_from_le_bytes();
    assert forall|other: u64| other != id implies key_bytes(other) != key_bytes(id) by {
        lemma_key_bytes(other, id);
    }
    if in_sync(mirror, before) {
        assert forall|x: u64| #[trigger] mirror.insert(id, value).contains_key(x) implies after.contains_key(
            key_bytes(x),
        ) && stands_for(mirror.insert(id, value)[x], after[key_bytes(x)]) by {
            if x != id {
                assert(mirror.contains_key(x));
            }
        }
    }
    if complete(mirror, before) {
        assert forall|x: u64| #[trigger] after.contains_key(key_bytes(x)) implies mirror.insert(
            id,
            value,
        ).contains_key(x) || V::decodes(after[key_bytes(x)], None) by {
            if x != id {
                assert(before.contains_key(key_bytes(x)));
            }
        }
    }
}

/// Taking an entry out of the tree and out of memory keeps the two together.
pub proof fn lemma_remove_keeps<V: Stored>(
    mirror: Map<u64, V>,
    persisted: Map<Seq<u8>, Seq<u8>>,
    id: u64,
)
    ensures
        in_sync(mirror, persisted) ==> in_sync(mirror.remove(id), persisted.remove(key_bytes(id))),
        complete(mirror, persisted) ==> complete(
            mirror.remove(id),
            persisted.remove(key_bytes(id)),
        ),
{
    vstd::bytes::lemma_auto_spec_u64_to_from_le_bytes();
    let rest = persisted.remove(key_bytes(id));
    assert forall|other: u64| other != id implies key_bytes(other) != key_bytes(id) by {
        lemma_key_bytes(other, id);
    }
    if in_sync(mirror, persisted) {
        assert forall|x: u64| #[trigger] mirror.remove(id).contains_key(x) implies rest.contains_key(
            key_bytes(x),
        ) && stands_for(mirror.remove(id)[x], rest[key_bytes(x)]) by {
            assert(mirror.contains_key(x));
        }
    }
    if complete(mirror, persisted) {
        assert forall|x: u64| #[trigger] rest.contains_key(key_bytes(x)) implies mirror.remove(
            id,
        ).contains_key(x) || V::decodes(rest[key_bytes(x)], None) by {
            assert(persisted.contains_key(key_bytes(x)));
        }
    }
}

/// Writing every entry of memory leaves memory and tree together; and memory
/// still has every entry of the tree, where it had before.
pub proof fn lemma_flushed_all<V: Stored>(
    mirror: Map<u64, V>,
    before: Map<Seq<u8>, Seq<u8>>,
    after: Map<Seq<u8>, Seq<u8>>,
)
    requires
        flushed(before, after, mirror, mirror.dom()),
    ensures
        in_sync(mirror, after),
        complete(mirror, before) ==> complete(mirror, after),
{
    vstd::bytes::lemma_auto_spec_u64_to_from_le_bytes();
    assert forall|id: u64| #[trigger] mirror.contains_key(id) implies after.contains_key(
        key_bytes(id),
    ) && stands_for(mirror[id], after[key_bytes(id)]) by {
        assert(mirror.dom().contains(id));
    }
    if complete(mirror, before) {
        assert forall|id: u64| #[trigger] after.contains_key(key_bytes(id)) implies mirror.contains_key(
            id,
        ) || V::decodes(after[key_bytes(id)], None) by {
            if !mirror.contains_key(id) {
                assert(!mirror.dom().contains(spec_u64_from_le_bytes(key_bytes(id))));
                assert(before.contains_key(key_bytes(id)));
            }
        }
    }
}

/// Opening a tree gives back the map that was in memory: where writing and
/// reading are exact, two maps that both hold every readable entry of one
/// tree, as it stands there, are the same map.
pub proof fn lemma_reopen_gives_mirror<V: Stored>(
    mirror: Map<u64, V>,
    reopened: Map<u64, V>,
    persisted: Map<Seq<u8>, Seq<u8>>,
)
    requires
        codec_exact::<V>(),
        in_sync(mirror, persisted),
        complete(mirror, persisted),
        in_sync(reopened, persisted),
        complete(reopened, persisted),
    ensures
        reopened == mirror,
{
    assert forall|id: u64| mirror.contains_key(id) implies reopened.contains_key(id) && reopened[id]
        == mirror[id] by {
        lemma_same_value(mirror, reopened, persisted, id);
    }
    assert forall|id: u64| reopened.contains_key(id) implies mirror.contains_key(id) by {
        lemma_same_value(reopened, mirror, persisted, id);
    }
    assert(reopened =~= mirror);
}

proof fn lemma_same_value<V: Stored>(
    a: Map<u64, V>,
    b: Map<u64, V>,
    persisted: Map<Seq<u8>, Seq<u8>>,
    id: u64,
)
    requires
        codec_exact::<V>(),
        in_sync(a, persisted),
        in_sync(b, persisted),
        complete(b, persisted),
        a.contains_key(id),
    ensures
        b.contains_key(id),
        b[id] == a[id],
{
    let bytes = persisted[key_bytes(id)];
    assert(stands_for(a[id], bytes));
    assert(V::decodes(bytes, Some(a[id])));
    assert(persisted.contains_key(key_bytes(id)));
    if !b.contains_key(id) {
        assert(V::decodes(bytes, None));
        assert(Some(a[id]) == None::<V>);
    }
    assert(stands_for(b[id], bytes));
    assert(V::decodes(bytes, Some(b[id])));
    assert(Some(a[id]) == Some(b[id]));
}

/// What a call of the tree comes to: its value where it succeeded, and the
/// failure of the tree where it did not.
pub fn storage_outcome<T>(outcome: Result<T, sled::Error>) -> (r: Result<T, CacheError>)
    ensures
        match outcome {
            Ok(v) => r == Ok::<T, CacheError>(v),
            Err(e) => r == Err::<T, CacheError>(CacheError::Storage(e)),
        },
{
    match outcome {
        Ok(v) => Ok(v),
        Err(e) => Err(CacheError::Storage(e)),
    }
}

/// Whether a number is free, given what the tree found under its key: free
/// where it found nothing, taken where it found a value, and the failure of
/// the tree where it failed.
pub fn availability(found: Result<Option<Vec<u8>>, sled::Error>) -> (r: Result<bool, CacheError>)
    ensures
        match found {
            Ok(Some(_)) => r == Ok::<bool, CacheError>(false),
            Ok(None) => r == Ok::<bool, CacheError>(true),
            Err(e) => r == Err::<bool, CacheError>(CacheError::Storage(e)),
        },
{
    match found {
        Ok(Some(_)) => Ok(false),
        Ok(None) => Ok(true),
        Err(e) => Err(CacheError::Storage(e)),
    }
}

/// How an insertion ended.
#[derive(Debug)]
pub enum Inserted<K, V> {
    /// The value stands under this key.
    At(K),
    /// No free number was drawn; the value comes back.
    NoFreeId(V),
}

/// A value that was put into the map is found under its key.
pub proof fn lemma_insert_then_get<V>(mirror: Map<u64, V>, id: u64, value: V)
    ensures
        mirror.insert(id, value).contains_key(id),
        mirror.insert(id, value)[id] == value,
{
}

/// Whether `states` are the states of a tree before and after insertions
/// under the numbers `ids`, each of them free when it was taken, with no key
/// leaving the tree in between.
pub open spec fn insertions(states: Seq<Map<Seq<u8>, Seq<u8>>>, ids: Seq<u64>) -> bool {
    &&& states.len() == ids.len() + 1
    &&& forall|i: int|
        0 <= i < ids.len() ==> !(#[trigger] states[i]).contains_key(key_bytes(ids[i])) && states[i
            + 1].contains_key(key_bytes(ids[i])) && states[i].dom().subset_of(states[i + 1].dom())
}

proof fn lemma_key_stays(states: Seq<Map<Seq<u8>, Seq<u8>>>, ids: Seq<u64>, i: int, j: int)
    requires
        insertions(states, ids),
        0 <= i < j <= ids.len(),
    ensures
        states[j].contains_key(key_bytes(ids[i])),
    decreases j - i,
{
    if j > i + 1 {
        lemma_key_stays(states, ids, i, j - 1);
        assert(states[j - 1].dom().subset_of(states[j].dom()));
    } else {
        assert(!states[i].contains_key(key_bytes(ids[i])));
    }
}

/// Insertions one after the other take as many different numbers as there
/// are insertions.
pub proof fn lemma_sequential_ids_distinct(states: Seq<Map<Seq<u8>, Seq<u8>>>, ids: Seq<u64>)
    requires
        insertions(states, ids),
    ensures
        forall|i: int, j: int| 0 <= i < j < ids.len() ==> ids[i] != ids[j],
{
    assert forall|i: int, j: int| 0 <= i < j < ids.len() implies ids[i] != ids[j] by {
        lemma_key_stays(states, ids, i, j);
        assert(!states[j].contains_key(key_bytes(ids[j])));
    }
}

/// What opening a tree left out.
#[derive(Debug, Clone, Copy, PartialEq, Eq, Structural)]
pub struct LoadReport {
    /// Entries that the tree could not hand out.
    pub unreadable: usize,
    /// Entries with a key that is not 8 bytes long, or with a value that
    /// could not be read.
    pub dropped: usize,
}

/// The number of entries that the tree could not hand out.
pub open spec fn count_unreadable(read: Seq<ReadEntry>) -> nat
    decreases read.len(),
{
    if read.len() == 0 {
        0
    } else {
        count_unreadable(read.drop_last()) + if read.last() is Err {
            1nat
        } else {
            0nat
        }
    }
}

/// Whether an entry that was read is left out: its key is not 8 bytes long,
/// or reading its value gave nothing.
pub open spec fn is_dropped<V>(entry: ReadEntry, decoded: Option<V>) -> bool {
    entry matches Ok(kv) && (kv.0@.len() != 8 || decoded is None)
}

/// The number of entries that were left out, where `decoded` holds for each
/// entry what reading its value gave.
pub open spec fn count_dropped<V>(read: Seq<ReadEntry>, decoded: Seq<Option<V>>) -> nat
    decreases read.len(),
{
    if read.len() == 0 || decoded.len() != read.len() {
        0
    } else {
        count_dropped(read.drop_last(), decoded.drop_last()) + if is_dropped(
            read.last(),
            decoded.last(),
        ) {
            1nat
        } else {
            0nat
        }
    }
}

/// The map that the entries give, taken in order: each entry with a key of 8
/// bytes and a value that was read stands under the number of its key, a
/// later entry in place of an earlier one of the same key.
pub open spec fn loaded<V>(read: Seq<ReadEntry>, decoded: Seq<Option<V>>) -> Map<u64, V>
    decreases read.len(),
{
    if read.len() == 0 || decoded.len() != read.len() {
        Map::empty()
    } else {
        let before = loaded(read.drop_last(), decoded.drop_last());
        match (read.last(), decoded.last()) {
            (Ok(kv), Some(v)) => if kv.0@.len() == 8 {
                before.insert(spec_u64_from_le_bytes(kv.0@), v)
            } else {
                before
            },
            _ => before,
        }
    }
}

/// Whether `decoded` holds, for each entry with a key of 8 bytes, something
/// that reading its value may give.
pub open spec fn decodings<V: Stored>(read: Seq<ReadEntry>, decoded: Seq<Option<V>>) -> bool {
    &&& decoded.len() == read.len()
    &&& forall|j: int|
        0 <= j < read.len() ==> (#[trigger] read[j] matches Ok(kv) ==> kv.0@.len() == 8
            ==> V::decodes(kv.1@, decoded[j]))
}

/// Whether `map` and `report` are what the entries give, with `decoded` for
/// what reading their values gave.
pub open spec fn load_result<V: Stored>(
    read: Seq<ReadEntry>,
    decoded: Seq<Option<V>>,
    map: Map<u64, V>,
    report: LoadReport,
) -> bool {
    &&& decodings(read, decoded)
    &&& map == loaded(read, decoded)
    &&& report.unreadable == count_unreadable(read)
    &&& report.dropped == count_dropped(read, decoded)
}

/// An entry of the loaded map was read from an entry with its key.
pub proof fn lemma_loaded_from<V>(read: Seq<ReadEntry>, decoded: Seq<Option<V>>, id: u64)
    requires
        decoded.len() == read.len(),
        loaded(read, decoded).contains_key(id),
    ensures
        exists|j: int|
            0 <= j < read.len() && (#[trigger] read[j] matches Ok(kv) && kv.0@ == key_bytes(id)
                && decoded[j] == Some(loaded(read, decoded)[id])),
    decreases read.len(),
{
    vstd::bytes::lemma_auto_spec_u64_to_from_le_bytes();
    if read.len() > 0 {
        let n = read.len() - 1;
        let before = loaded(read.drop_last(), decoded.drop_last());
        let here = read.last() matches Ok(kv) && kv.0@.len() == 8 && decoded.last() is Some
            && spec_u64_from_le_bytes(kv.0@) == id;
        if here {
            assert(read[n] matches Ok(kv) && kv.0@ == key_bytes(id) && decoded[n] == Some(
                loaded(read, decoded)[id],
            ));
        } else {
            assert(before.contains_key(id));
            assert(before[id] == loaded(read, decoded)[id]);
            lemma_loaded_from(read.drop_last(), decoded.drop_last(), id);
            let j = choose|j: int|
                0 <= j < n && (#[trigger] read.drop_last()[j] matches Ok(kv) && kv.0@ == key_bytes(
                    id,
                ) && decoded.drop_last()[j] == Some(before[id]));
            assert(read[j] == read.drop_last()[j] && decoded[j] == decoded.drop_last()[j]);
        }
    }
}

/// An entry with a key of 8 bytes is in the loaded map, unless reading its
/// value gave nothing.
pub proof fn lemma_loaded_has<V>(read: Seq<ReadEntry>, decoded: Seq<Option<V>>, j: int)
    requires
        decoded.len() == read.len(),
        0 <= j < read.len(),
        read[j] matches Ok(kv) && kv.0@.len() == 8,
    ensures
        loaded(read, decoded).contains_key(spec_u64_from_le_bytes(read[j]->Ok_0.0@)) || decoded[j]
            is None,
    decreases read.len(),
{
    if j < read.len() - 1 {
        assert(read.drop_last()[j] == read[j] && decoded.drop_last()[j] == decoded[j]);
        lemma_loaded_has(read.drop_last(), decoded.drop_last(), j);
    }
}

/// Where no entry was unreadable, every entry was read.
pub proof fn lemma_none_unreadable(read: Seq<ReadEntry>)
    requires
        count_unreadable(read) == 0,
    ensures
        all_read(read),
    decreases read.len(),
{
    if read.len() > 0 {
        lemma_none_unreadable(read.drop_last());
        assert forall|i: int| 0 <= i < read.len() implies (#[trigger] read[i]) is Ok by {
            if i < read.len() - 1 {
                assert(read[i] == read.drop_last()[i]);
            }
        }
    }
}

/// Makes the map in memory of the entries that were read from a tree, and
/// counts what is left out.
pub fn load<V: Stored>(read: &Vec<ReadEntry>) -> (r: (HashMap<u64, V>, LoadReport))
    ensures
        exists|decoded: Seq<Option<V>>| load_result(read@, decoded, r.0@, r.1),
{
    let mut cache: HashMap<u64, V> = HashMap::new();
    let mut unreadable: usize = 0;
    let mut dropped: usize = 0;
    let ghost mut decoded: Seq<Option<V>> = Seq::empty();
    let mut i: usize = 0;
    assert(read@.take(0) =~= Seq::<ReadEntry>::empty());
    while i < read.len()
        invariant
            i <= read.len(),
            unreadable <= i,
            dropped <= i,
            load_result(
                read@.take(i as int),
                decoded,
                cache@,
                LoadReport { unreadable, dropped },
            ),
        decreases read.len() - i,
    {
        let ghost before = read@.take(i as int);
        let ghost now = read@.take(i + 1);
        let ghost old_decoded = decoded;
        proof {
            assert(now.drop_last() == before);
            assert(now.last() == read@[i as int]);
        }
        match &read[i] {
            Ok(kv) => {
                if kv.0.len() == 8 {
                    let id = u64_from_le_bytes(kv.0.as_slice());
                    let value = V::decode(kv.1.as_slice());
                    proof {
                        decoded = decoded.push(value);
                    }
                    match value {
                        Some(v) => {
                            cache.insert(id, v);
                        },
                        None => {
                            dropped = dropped + 1;
                        },
                    }
                } else {
                    proof {
                        decoded = decoded.push(None);
                    }
                    dropped = dropped + 1;
                }
            },
            Err(_) => {
                proof {
                    decoded = decoded.push(None);
                }
                unreadable = unreadable + 1;
            },
        }
        proof {
            assert(decoded.drop_last() == old_decoded);
            assert forall|j: int| 0 <= j < now.len() implies (#[trigger] now[j] matches Ok(kv)
                ==> kv.0@.len() == 8 ==> V::decodes(kv.1@, decoded[j])) by {
                if j < i {
                    assert(now[j] == before[j]);
                    assert(decoded[j] == old_decoded[j]);
                }
            }
        }
        i += 1;
    }
    assert(read@.take(read.len() as int) == read@);
    let r = (cache, LoadReport { unreadable, dropped });
    assert(load_result(read@, decoded, r.0@, r.1));
    r
}

/// A persistent map from `K` to `V` with a mirror in memory.
pub struct TypedTree<K: Key, V: Stored> {
    _tys: PhantomData<(K, V)>,
    cache: HashMap<u64, V>,
    tree: sled::Tree,
}

impl<K: Key, V: Stored> TypedTree<K, V> {
    /// The entries in memory, each under the number of its key.
    pub closed spec fn mirror(&self) -> Map<u64, V> {
        self.cache@
    }

    /// The entries of the tree.
    pub closed spec fn persisted(&self) -> Map<Seq<u8>, Seq<u8>> {
        tree_entries(self.tree)
    }

    /// Every entry in memory stands in the tree as it is.
    pub open spec fn synced(&self) -> bool {
        in_sync(self.mirror(), self.persisted())
    }

    /// Memory holds what opening the tree would give, no more and no less.
    pub open spec fn exact(&self) -> bool {
        in_sync(self.mirror(), self.persisted()) && complete(self.mirror(), self.persisted())
    }

    /// Opens a tree: reads the entries, until the tree fails to hand one out,
    /// and makes the map in memory of them as `load` does.
    pub fn new(tree: sled::Tree) -> (r: (TypedTree<K, V>, LoadReport))
        ensures
            r.0.persisted() == tree_entries(tree),
            r.0.synced(),
            r.1.unreadable == 0 ==> r.0.exact(),
    {
        let read = tree_read_all(&tree);
        let (cache, report) = load::<V>(&read);
        let ghost entries = tree_entries(tree);
        let t = TypedTree { _tys: PhantomData, cache, tree };
        proof {
            vstd::bytes::lemma_auto_spec_u64_to_from_le_bytes();
            let decoded = choose|decoded: Seq<Option<V>>|
                load_result(read@, decoded, cache@, report);
            assert(t.mirror() == cache@);
            assert(t.persisted() == entries);
            assert forall|id: u64| #[trigger] t.mirror().contains_key(id) implies entries.contains_key(
                key_bytes(id),
            ) && stands_for(t.mirror()[id], entries[key_bytes(id)]) by {
                lemma_loaded_from(read@, decoded, id);
                let j = choose|j: int|
                    0 <= j < read.len() && (#[trigger] read[j] matches Ok(kv) && kv.0@ == key_bytes(
                        id,
                    ) && decoded[j] == Some(loaded(read@, decoded)[id]));
                assert(read[j] is Ok);
            }
            if report.unreadable == 0 {
                lemma_none_unreadable(read@);
                assert forall|id: u64| #[trigger] entries.contains_key(key_bytes(id)) implies t.mirror().contains_key(
                    id,
                ) || V::decodes(entries[key_bytes(id)], None) by {
                    let k = key_bytes(id);
                    let j = choose|j: int|
                        0 <= j < read.len() && (#[trigger] read[j] matches Ok(kv) && kv.0@ == k);
                    assert(read[j] is Ok);
                    lemma_loaded_has(read@, decoded, j);
                }
            }
        }
        (t, report)
    }

    /// The value under a key, where memory has one.
    pub fn get(&self, id: K) -> (r: Option<&V>)
        ensures
            match r {
                Some(v) => self.mirror().contains_key(id.to_id()) && *v == self.mirror()[id.to_id()],
                None => !self.mirror().contains_key(id.to_id()),
            },
    {
        self.cache.get(&id.id())
    }

    /// Writes one entry to the tree; memory stays as it is.
    fn write(&mut self, id: u64, value: &V) -> (r: Result<(), CacheError>)
        ensures
            final(self).mirror() == old(self).mirror(),
            r is Ok ==> wrote(old(self).persisted(), final(self).persisted(), id, *value),
    {
        let key = u64_to_le_bytes(id);
        storage_outcome(tree_insert(&mut self.tree, key.as_slice(), value.encode()))
    }

    /// Writes the entry of a key from memory to the tree. A key without an
    /// entry in memory changes nothing and cannot fail.
    pub fn flush(&mut self, id: K) -> (r: Result<(), CacheError>)
        ensures
            final(self).mirror() == old(self).mirror(),
            r is Ok ==> if old(self).mirror().contains_key(id.to_id()) {
                wrote(
                    old(self).persisted(),
                    final(self).persisted(),
                    id.to_id(),
                    old(self).mirror()[id.to_id()],
                )
            } else {
                final(self).persisted() == old(self).persisted()
            },
            !old(self).mirror().contains_key(id.to_id()) ==> r is Ok,
            r is Ok && old(self).synced() ==> final(self).synced(),
            r is Ok && old(self).exact() ==> final(self).exact(),
    {
        let k = id.id();
        let key = u64_to_le_bytes(k);
        match self.cache.get(&k) {
            Some(v) => {
                match tree_insert(&mut self.tree, key.as_slice(), v.encode()) {
                    Ok(_) => {
                        proof {
                            lemma_write_keeps(
                                old(self).mirror(),
                                old(self).persisted(),
                                self.persisted(),
                                k,
                                *v,
                            );
                            assert(old(self).mirror().insert(k, *v) =~= self.mirror());
                        }
                        Ok(())
                    },
                    Err(e) => Err(CacheError::Storage(e)),
                }
            },
            None => Ok(()),
        }
    }

    /// Writes every entry of memory to the tree. With nothing in memory
    /// nothing is written, and nothing can fail.
    pub fn flush_all(&mut self) -> (r: Result<(), CacheError>)
        ensures
            final(self).mirror() == old(self).mirror(),
            (forall|id: u64| !old(self).mirror().contains_key(id)) ==> r is Ok && final(self).persisted() == old(self).persisted(),
            r is Ok ==> flushed(
                old(self).persisted(),
                final(self).persisted(),
                old(self).mirror(),
                old(self).mirror().dom(),
            ),
            r is Ok ==> final(self).synced(),
            r is Ok && old(self).exact() ==> final(self).exact(),
    {
        let ghost m = self.cache@;
        let ghost first = tree_entries(self.tree);
        let ghost done = Set::<u64>::empty();
        proof {
            vstd::bytes::lemma_auto_spec_u64_to_from_le_bytes();
        }
        for entry in it: self.cache.iter()
            invariant
                self.cache@ == m,
                m == old(self).cache@,
                first == tree_entries(old(self).tree),
                flushed(first, tree_entries(self.tree), m, done),
                forall|id: u64| done.contains(id) ==> m.contains_key(id),
                forall|j: int| 0 <= j < it.index() ==> done.contains(*(#[trigger] it.seq()[j]).0),
                forall|j: int|
                    0 <= j < it.seq().len() ==> m.contains_key(*(#[trigger] it.seq()[j]).0) && m[*it.seq()[j].0]
                        == *it.seq()[j].1,
                forall|id: u64|
                    m.contains_key(id) && !done.contains(id) ==> exists|j: int|
                        it.index() <= j < it.seq().len() && *(#[trigger] it.seq()[j]).0 == id,
        {
            let (k, v) = entry;
            let key = u64_to_le_bytes(*k);
            let ghost before = tree_entries(self.tree);
            assert(m.contains_key(*k));
            match tree_insert(&mut self.tree, key.as_slice(), v.encode()) {
                Ok(_) => {},
                Err(e) => { return Err(CacheError::Storage(e)); },
            }
            proof {
                vstd::bytes::lemma_auto_spec_u64_to_from_le_bytes();
                let after = tree_entries(self.tree);
                let previous = done;
                done = done.insert(*k);
                assert forall|id: u64| #[trigger] done.contains(id) implies after.contains_key(
                    key_bytes(id),
                ) && m[id].encodes(after[key_bytes(id)]) by {
                    if id != *k {
                        lemma_key_bytes(id, *k);
                        assert(previous.contains(id));
                    }
                }
                assert forall|id: u64| m.contains_key(id) && !done.contains(id) implies exists|
                    j: int,
                |
                    it.index() + 1 <= j < it.seq().len() && *(#[trigger] it.seq()[j]).0 == id by {
                    let j = choose|j: int|
                        it.index() <= j < it.seq().len() && *(#[trigger] it.seq()[j]).0 == id;
                    assert(j != it.index());
                }
            }
        }
        proof {
            assert(done =~= m.dom());
            lemma_flushed_all(m, first, self.persisted());
            if forall|id: u64| !m.contains_key(id) {
                assert(self.persisted() =~= first);
            }
        }
        Ok(())
    }

    /// Whether a number is free: the tree has no entry under its key.
    pub fn is_available(&self, candidate: u64) -> (r: Result<bool, CacheError>)
        ensures
            r matches Ok(free) ==> free == !self.persisted().contains_key(key_bytes(candidate)),
    {
        let key = u64_to_le_bytes(candidate);
        availability(tree_get(&self.tree, key.as_slice()))
    }

    /// Looks for a free number: draws random numbers, `attempts` of them at
    /// most, and returns the first that the tree has no entry for. It gives
    /// up only after every number that it drew was found in the tree.
    pub fn available_id(&self, attempts: usize) -> (r: Result<Option<u64>, CacheError>)
        ensures
            r matches Ok(Some(id)) ==> attempts > 0 && !self.persisted().contains_key(
                key_bytes(id),
            ),
            r matches Ok(None) ==> attempts == 0 || exists|taken: u64|
                self.persisted().contains_key(#[trigger] key_bytes(taken)),
            attempts == 0 ==> r matches Ok(None),
    {
        let mut left = attempts;
        while left > 0
            invariant
                left <= attempts,
                left < attempts ==> exists|taken: u64|
                    self.persisted().contains_key(#[trigger] key_bytes(taken)),
            decreases left,
        {
            let candidate = random_u64();
            match self.is_available(candidate) {
                Ok(free) => {
                    if free {
                        return Ok(Some(candidate));
                    }
                    assert(self.persisted().contains_key(key_bytes(candidate)));
                },
                Err(e) => { return Err(e); },
            }
            left = left - 1;
        }
        Ok(None)
    }

    /// Puts a value under a number that the caller chose: first into the
    /// tree, then into memory. Where the tree fails, memory stays as it is.
    pub fn insert_at(&mut self, id: u64, value: V) -> (r: Result<K, CacheError>)
        ensures
            match r {
                Ok(k) => k == K::of_id(id) && final(self).mirror() == old(self).mirror().insert(
                    id,
                    value,
                ) && wrote(old(self).persisted(), final(self).persisted(), id, value),
                Err(_) => final(self).mirror() == old(self).mirror(),
            },
            r is Ok && old(self).synced() ==> final(self).synced(),
            r is Ok && old(self).exact() ==> final(self).exact(),
    {
        match self.write(id, &value) {
            Ok(_) => {
                proof {
                    lemma_write_keeps(
                        old(self).mirror(),
                        old(self).persisted(),
                        self.persisted(),
                        id,
                        value,
                    );
                }
                self.cache.insert(id, value);
                Ok(K::from_id(id))
            },
            Err(e) => Err(e),
        }
    }

    /// Puts a value under a fresh number: looks for a free number as
    /// `available_id` does, then writes as `insert_at` does. Where no free
    /// number was drawn the value comes back and nothing has changed; with no
    /// attempt allowed that is what happens.
    pub fn insert(&mut self, value: V, attempts: usize) -> (r: Result<Inserted<K, V>, CacheError>)
        ensures
            match r {
                Ok(Inserted::At(k)) => !old(self).persisted().contains_key(key_bytes(k.to_id()))
                    && final(self).mirror() == old(self).mirror().insert(k.to_id(), value) && wrote(
                    old(self).persisted(),
                    final(self).persisted(),
                    k.to_id(),
                    value,
                ),
                Ok(Inserted::NoFreeId(v)) => v == value && final(self).mirror() == old(self).mirror()
                    && final(self).persisted() == old(self).persisted() && (attempts == 0
                    || exists|taken: u64|
                    old(self).persisted().contains_key(#[trigger] key_bytes(taken))),
                Err(_) => final(self).mirror() == old(self).mirror(),
            },
            attempts == 0 ==> r matches Ok(Inserted::NoFreeId(_)),
            r matches Ok(Inserted::At(_)) ==> attempts > 0,
            r is Ok && old(self).synced() ==> final(self).synced(),
            r is Ok && old(self).exact() ==> final(self).exact(),
    {
        let id = match self.available_id(attempts) {
            Ok(Some(id)) => id,
            Ok(None) => { return Ok(Inserted::NoFreeId(value)); },
            Err(e) => { return Err(e); },
        };
        proof {
            K::of_id(id).lemma_bijection(id);
        }
        match self.insert_at(id, value) {
            Ok(k) => Ok(Inserted::At(k)),
            Err(e) => Err(e),
        }
    }

    /// The entries of memory, in no particular order.
    pub fn enumerate(&self) -> (r: Vec<(K, &V)>)
        ensures
            r.len() == self.mirror().dom().len(),
            forall|i: int|
                0 <= i < r.len() ==> self.mirror().contains_key((#[trigger] r[i]).0.to_id())
                    && *r[i].1 == self.mirror()[r[i].0.to_id()],
            forall|id: u64| #[trigger]
                self.mirror().contains_key(id) ==> exists|i: int|
                    0 <= i < r.len() && (#[trigger] r[i]).0.to_id() == id,
    {
        let mut out: Vec<(K, &V)> = Vec::new();
        let ghost m = self.cache@;
        for entry in it: self.cache.iter()
            invariant
                self.cache@ == m,
                it.seq().len() == m.dom().len(),
                out.len() == it.index(),
                forall|j: int|
                    0 <= j < it.seq().len() ==> m.contains_key(*(#[trigger] it.seq()[j]).0) && m[*it.seq()[j].0]
                        == *it.seq()[j].1,
                forall|j: int|
                    0 <= j < out.len() ==> (#[trigger] out[j]).0.to_id() == *it.seq()[j].0 && *out[j].1
                        == *it.seq()[j].1,
                forall|id: u64| #[trigger]
                    m.contains_key(id) ==> (exists|i: int|
                        0 <= i < out.len() && (#[trigger] out[i]).0.to_id() == id) || (exists|
                        j: int,
                    |
                        it.index() <= j < it.seq().len() && *(#[trigger] it.seq()[j]).0 == id),
        {
            let (k, v) = entry;
            let ghost before = out@;
            proof {
                K::of_id(*k).lemma_bijection(*k);
            }
            out.push((K::from_id(*k), v));
            proof {
                assert forall|id: u64| #[trigger] m.contains_key(id) implies (exists|i: int|
                    0 <= i < out.len() && (#[trigger] out[i]).0.to_id() == id) || (exists|j: int|
                    it.index() + 1 <= j < it.seq().len() && *(#[trigger] it.seq()[j]).0 == id) by {
                    if exists|i: int| 0 <= i < before.len() && (#[trigger] before[i]).0.to_id() == id {
                        let i = choose|i: int|
                            0 <= i < before.len() && (#[trigger] before[i]).0.to_id() == id;
                        assert(out[i] == before[i]);
                    } else {
                        let j = choose|j: int|
                            it.index() <= j < it.seq().len() && *(#[trigger] it.seq()[j]).0 == id;
                        if j == it.index() {
                            assert(out[it.index()].0.to_id() == id);
                        }
                    }
                }
            }
        }
        out
    }

    /// Changes the value under a key with `f`, which takes the value and
    /// gives the new value and a result, and writes the new value to the tree
    /// at once. A key without an entry in memory changes nothing and `f` is
    /// not called. Where the tree fails, memory holds the new value.
    pub fn update_with<R, F: FnOnce(V) -> (V, R)>(&mut self, key: K, f: F) -> (r: Result<
        Option<R>,
        CacheError,
    >)
        requires
            old(self).mirror().contains_key(key.to_id()) ==> f.requires(
                (old(self).mirror()[key.to_id()],),
            ),
        ensures
            match r {
                Ok(Some(out)) => old(self).mirror().contains_key(key.to_id()) && f.ensures(
                    (old(self).mirror()[key.to_id()],),
                    (final(self).mirror()[key.to_id()], out),
                ) && wrote(
                    old(self).persisted(),
                    final(self).persisted(),
                    key.to_id(),
                    final(self).mirror()[key.to_id()],
                ),
                Ok(None) => !old(self).mirror().contains_key(key.to_id()) && final(self).mirror()
                    == old(self).mirror() && final(self).persisted() == old(self).persisted(),
                Err(_) => old(self).mirror().contains_key(key.to_id()) && exists|out: R|
                    f.ensures(
                        (old(self).mirror()[key.to_id()],),
                        (final(self).mirror()[key.to_id()], out),
                    ),
            },
            final(self).mirror().dom() == old(self).mirror().dom(),
            forall|other: u64|
                other != key.to_id() && old(self).mirror().contains_key(other) ==> final(self).mirror()[other] == old(self).mirror()[other],
            r is Ok && old(self).synced() ==> final(self).synced(),
            r is Ok && old(self).exact() ==> final(self).exact(),
    {
        let k = key.id();
        let value = match self.cache.remove(&k) {
            Some(v) => v,
            None => {
                assert(self.mirror() =~= old(self).mirror());
                return Ok(None);
            },
        };
        let (changed, out) = f(value);
        let bytes = changed.encode();
        self.cache.insert(k, changed);
        assert(self.mirror() =~= old(self).mirror().insert(k, changed));
        assert(self.mirror().dom() =~= old(self).mirror().dom());
        let key_vec = u64_to_le_bytes(k);
        match tree_insert(&mut self.tree, key_vec.as_slice(), bytes) {
            Ok(_) => {
                proof {
                    lemma_write_keeps(
                        old(self).mirror(),
                        old(self).persisted(),
                        self.persisted(),
                        k,
                        changed,
                    );
                }
                Ok(Some(out))
            },
            Err(e) => {
                assert(f.ensures((old(self).mirror()[k],), (self.mirror()[k], out)));
                Err(CacheError::Storage(e))
            },
        }
    }

    /// Writes every entry of memory to the tree and hands the tree back. With
    /// nothing in memory the tree comes back as it is, and nothing can fail.
    pub fn close(self) -> (r: Result<sled::Tree, CacheError>)
        ensures
            (forall|id: u64| !self.mirror().contains_key(id)) ==> (r matches Ok(tree)
                && tree_entries(tree) == self.persisted()),
            r matches Ok(tree) ==> flushed(
                self.persisted(),
                tree_entries(tree),
                self.mirror(),
                self.mirror().dom(),
            ) && in_sync(self.mirror(), tree_entries(tree)) && (self.exact() ==> complete(
                self.mirror(),
                tree_entries(tree),
            )),
    {
        let mut this = self;
        match this.flush_all() {
            Ok(_) => Ok(this.tree),
            Err(e) => Err(e),
        }
    }

    /// Writes every entry of memory to the tree, closes the map and opens the
    /// tree again. Where writing and reading are exact, memory held what the
    /// tree held, and every entry could be read back, the new map holds what
    /// the old one held, key for key and value for value.
    pub fn reopen(self) -> (r: Result<(TypedTree<K, V>, LoadReport), CacheError>)
        ensures
            r matches Ok(again) ==> again.0.synced() && (again.1.unreadable == 0
                ==> again.0.exact()) && (codec_exact::<V>() && self.exact() && again.1.unreadable
                == 0 ==> again.0.mirror() == self.mirror()),
            (forall|id: u64| !self.mirror().contains_key(id)) ==> r is Ok,
    {
        let ghost before = self.mirror();
        let ghost held = self.exact();
        match self.close() {
            Ok(tree) => {
                let ghost entries = tree_entries(tree);
                let again = TypedTree::new(tree);
                proof {
                    if codec_exact::<V>() && held && again.1.unreadable == 0 {
                        lemma_reopen_gives_mirror(before, again.0.mirror(), entries);
                    }
                }
                Ok(again)
            },
            Err(e) => Err(e),
        }
    }

    /// Takes the entry of a key out of the tree and out of memory, and
    /// returns its value. A key without an entry in memory changes nothing
    /// and cannot fail. Where the tree fails, memory stays as it is.
    pub fn drop(&mut self, id: K) -> (r: Result<Option<V>, CacheError>)
        ensures
            match r {
                Ok(Some(v)) => old(self).mirror().contains_key(id.to_id()) && v == old(self).mirror()[id.to_id()] && final(self).mirror() == old(self).mirror().remove(
                    id.to_id(),
                ) && final(self).persisted() == old(self).persisted().remove(key_bytes(id.to_id())),
                Ok(None) => !old(self).mirror().contains_key(id.to_id()) && final(self).mirror()
                    == old(self).mirror() && final(self).persisted() == old(self).persisted(),
                Err(_) => old(self).mirror().contains_key(id.to_id()) && final(self).mirror()
                    == old(self).mirror(),
            },
            r is Ok && old(self).synced() ==> final(self).synced(),
            r is Ok && old(self).exact() ==> final(self).exact(),
    {
        let k = id.id();
        if !self.cache.contains_key(&k) {
            return Ok(None);
        }
        proof {
            lemma_remove_keeps(self.mirror(), self.persisted(), k);
        }
        let key = u64_to_le_bytes(k);
        match storage_outcome(tree_remove(&mut self.tree, key.as_slice())) {
            Ok(_) => Ok(self.cache.remove(&k)),
            Err(e) => Err(e),
        }
    }
}

} // verus!
