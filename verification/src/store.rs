//! The server's key-value map and its reconstruction from the append-only file.

use vstd::prelude::*;
use vstd::hash_map::StringHashMap;

use crate::parse::{aof_operation_spec, parse_redis_operation};
use crate::request::{RedisRequest, RequestType, RequestView};
use crate::words::words_view;

verus! {

/// The map from keys to values that the server holds.
pub struct KvStore {
    map: StringHashMap<String>,
}

impl View for KvStore {
    type V = Map<Seq<char>, Seq<char>>;

    closed spec fn view(&self) -> Map<Seq<char>, Seq<char>> {
        self.map@.map_values(|v: String| v@)
    }
}

/// A request that the store can apply: a `SET` names a key and carries a
/// value, a `DEL` names its keys.
pub open spec fn replayable(r: RequestView) -> bool {
    &&& r.request_type == RequestType::SetValue ==> {
        &&& r.key is Some
        &&& r.key->0.len() >= 1
        &&& r.value is Some
    }
    &&& r.request_type == RequestType::Del ==> r.key is Some
}

/// The map after applying request `r` to `m`: a `SET` maps its first key to
/// its value, a `DEL` removes each of its keys, and every other request leaves
/// the map as it is.
pub open spec fn apply_spec(m: Map<Seq<char>, Seq<char>>, r: RequestView) -> Map<
    Seq<char>,
    Seq<char>,
> {
    match r.request_type {
        RequestType::SetValue => m.insert(r.key->0[0], r.value->0),
        RequestType::Del => m.remove_keys(r.key->0.to_set()),
        _ => m,
    }
}

/// The map after replaying the append-only-file lines `lines`, in order, on `m`.
pub open spec fn replay_spec(m: Map<Seq<char>, Seq<char>>, lines: Seq<Seq<char>>) -> Map<
    Seq<char>,
    Seq<char>,
>
    decreases lines.len(),
{
    if lines.len() == 0 {
        m
    } else {
        apply_spec(replay_spec(m, lines.drop_last()), aof_operation_spec(lines.last()))
    }
}

/// Every line of the append-only file reads as a request the store can apply.
pub proof fn lemma_aof_operation_replayable(line: Seq<char>)
    ensures
        replayable(aof_operation_spec(line)),
{
}

impl KvStore {
    /// An empty store.
    pub fn new() -> (s: KvStore)
        ensures
            s@ == Map::<Seq<char>, Seq<char>>::empty(),
    {
        let s = KvStore { map: StringHashMap::new() };
        assert(s@ =~= Map::<Seq<char>, Seq<char>>::empty());
        s
    }

    /// The value stored under `key`, if any.
    pub fn get(&self, key: &str) -> (value: Option<String>)
        ensures
            match value {
                Some(v) => self@.contains_key(key@) && v@ == self@[key@],
                None => !self@.contains_key(key@),
            },
    {
        match self.map.get(key) {
            Some(v) => Some(v.clone()),
            None => None,
        }
    }

    /// Applies one request to the store: a `SET` stores its value under its
    /// first key, a `DEL` removes its keys one after another, and any other
    /// request changes nothing.
    pub fn apply(&mut self, req: &RedisRequest)
        requires
            replayable(req@),
        ensures
            final(self)@ == apply_spec(old(self)@, req@),
            req.request_type != RequestType::SetValue && req.request_type != RequestType::Del
                ==> final(self)@ == old(self)@,
    {
        match req.request_type {
            RequestType::SetValue => {
                match (&req.key, &req.value) {
                    (Some(keys), Some(v)) => {
                        let k = keys[0].clone();
                        let ghost before = self.map@;
                        self.map.insert(k, v.clone());
                        assert(self@ =~= old(self)@.insert(req@.key->0[0], req@.value->0)) by {
                            assert(self.map@ == before.insert(k@, *v));
                        }
                    },
                    _ => {},
                }
            },
            RequestType::Del => {
                match &req.key {
                    Some(keys) => {
                        let ghost ks = words_view(keys@);
                        let mut i: usize = 0;
                        assert(old(self)@.remove_keys(ks.take(0).to_set()) =~= old(self)@);
                        while i < keys.len()
                            invariant
                                i <= keys.len(),
                                ks == words_view(keys@),
                                self@ == old(self)@.remove_keys(ks.take(i as int).to_set()),
                            decreases keys.len() - i,
                        {
                            let ghost before = self@;
                            let ghost before_map = self.map@;
                            self.map.remove(keys[i].as_str());
                            proof {
                                let k = ks[i as int];
                                assert(ks.take(i + 1) =~= ks.take(i as int).push(k));
                                ks.take(i as int).lemma_push_to_set_commute(k);
                                assert(self.map@ == before_map.remove(k));
                                assert(self@ =~= before.remove(k));
                                assert(self@ =~= old(self)@.remove_keys(ks.take(i + 1).to_set()));
                            }
                            i = i + 1;
                        }
                        assert(ks.take(keys.len() as int) =~= ks);
                    },
                    None => {},
                }
            },
            _ => {},
        }
    }
}

/// Replays the lines of an append-only file, in order, on `store`: each line
/// is read as an operation and applied.
pub fn rebuild_data_from_aof(store: &mut KvStore, lines: &Vec<String>)
    ensures
        final(store)@ == replay_spec(old(store)@, words_view(lines@)),
{
    let ghost ls = words_view(lines@);
    let mut i: usize = 0;
    assert(ls.take(0) =~= Seq::<Seq<char>>::empty());
    while i < lines.len()
        invariant
            i <= lines.len(),
            ls == words_view(lines@),
            store@ == replay_spec(old(store)@, ls.take(i as int)),
        decreases lines.len() - i,
    {
        let req = parse_redis_operation(&lines[i]);
        proof {
            lemma_aof_operation_replayable(lines@[i as int]@);
            assert(ls.take(i + 1).drop_last() =~= ls.take(i as int));
        }
        store.apply(&req);
        i = i + 1;
    }
    assert(ls.take(lines.len() as int) =~= ls);
}

} // verus!
