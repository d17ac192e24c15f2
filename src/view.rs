//! Views: the listing of one store keyed by message id.

use vstd::prelude::*;
use crate::envelope::Envelope;

verus! {

/// The listing as a map from message id to envelope. Where two envelopes
/// share a message id, the later one in the listing is kept.
pub open spec fn view_of(envs: Seq<Envelope>) -> Map<Seq<char>, Envelope>
    decreases envs.len(),
{
    if envs.len() == 0 {
        Map::empty()
    } else {
        view_of(envs.drop_last()).insert(envs.last().message_id@, envs.last())
    }
}

/// The message ids of a listing.
pub open spec fn keys_of(envs: Seq<Envelope>) -> Set<Seq<char>> {
    envs.map_values(|e: Envelope| e.message_id@).to_set()
}

/// The view holds exactly the message ids of the listing.
pub proof fn lemma_view_dom(envs: Seq<Envelope>)
    ensures
        view_of(envs).dom() == keys_of(envs),
    decreases envs.len(),
{
    if envs.len() > 0 {
        lemma_view_dom(envs.drop_last());
        let ids = envs.map_values(|e: Envelope| e.message_id@);
        let prev = envs.drop_last().map_values(|e: Envelope| e.message_id@);
        assert(ids =~= prev.push(envs.last().message_id@));
        assert forall|k: Seq<char>| keys_of(envs).contains(k) <==> view_of(envs).dom().contains(k) by {
            if ids.contains(k) {
                let i = choose|i: int| 0 <= i < ids.len() && ids[i] == k;
                if i < prev.len() {
                    assert(prev[i] == k);
                }
            }
            if prev.contains(k) {
                let i = choose|i: int| 0 <= i < prev.len() && prev[i] == k;
                assert(ids[i] == k);
            }
            if k == envs.last().message_id@ {
                assert(ids[ids.len() - 1] == k);
            }
        }
        assert(view_of(envs).dom() =~= keys_of(envs));
    } else {
        assert(keys_of(envs) =~= Set::<Seq<char>>::empty());
        assert(view_of(envs).dom() =~= Set::<Seq<char>>::empty());
    }
}

/// Envelopes after position `i` that carry another id leave the view at
/// `k` as the prefix up to `i` has it.
proof fn lemma_view_prefix(envs: Seq<Envelope>, i: int, k: Seq<char>)
    requires
        0 <= i <= envs.len(),
        forall|j: int| i <= j < envs.len() ==> (#[trigger] envs[j]).message_id@ != k,
    ensures
        view_of(envs).contains_key(k) == view_of(envs.take(i)).contains_key(k),
        view_of(envs).contains_key(k) ==> view_of(envs)[k] == view_of(envs.take(i))[k],
    decreases envs.len() - i,
{
    if i < envs.len() {
        let t = envs.take(i + 1);
        assert(t.drop_last() =~= envs.take(i));
        assert(t.last() == envs[i]);
        lemma_view_prefix(envs, i + 1, k);
    } else {
        assert(envs.take(i) =~= envs);
    }
}

/// The envelope that the view of `envs` holds at `key`, if any.
pub fn find_in_view<'a>(envs: &'a Vec<Envelope>, key: &String) -> (r: Option<&'a Envelope>)
    ensures
        r is Some == view_of(envs@).contains_key(key@),
        r is Some ==> *r->0 == view_of(envs@)[key@],
{
    let mut i: usize = envs.len();
    while i > 0
        invariant
            i <= envs.len(),
            forall|j: int| i <= j < envs.len() ==> (#[trigger] envs@[j]).message_id@ != key@,
        decreases i,
    {
        if envs[i - 1].message_id == *key {
            proof {
                lemma_view_prefix(envs@, i as int, key@);
                let t = envs@.take(i as int);
                assert(t.drop_last() =~= envs@.take(i - 1));
                assert(t.last() == envs@[i - 1]);
            }
            return Some(&envs[i - 1]);
        }
        i = i - 1;
    }
    proof {
        lemma_view_prefix(envs@, 0, key@);
        assert(envs@.take(0) =~= Seq::<Envelope>::empty());
    }
    None
}

/// Whether `key` is among `keys`.
pub fn contains_key(keys: &Vec<String>, key: &String) -> (r: bool)
    ensures
        r == keys@.map_values(|s: String| s@).contains(key@),
{
    let ghost ks = keys@.map_values(|s: String| s@);
    let mut i: usize = 0;
    while i < keys.len()
        invariant
            i <= keys.len(),
            ks == keys@.map_values(|s: String| s@),
            forall|j: int| 0 <= j < i ==> ks[j] != key@,
        decreases keys.len() - i,
    {
        if keys[i] == *key {
            assert(ks[i as int] == key@);
            return true;
        }
        i = i + 1;
    }
    false
}

/// Adds to `keys` the message ids of `envs` that it lacks.
pub fn add_keys(keys: &mut Vec<String>, envs: &Vec<Envelope>)
    requires
        old(keys)@.map_values(|s: String| s@).no_duplicates(),
    ensures
        final(keys)@.map_values(|s: String| s@).no_duplicates(),
        final(keys)@.map_values(|s: String| s@).to_set() == old(keys)@.map_values(|s: String| s@).to_set().union(
            keys_of(envs@),
        ),
{
    let ghost start = keys@.map_values(|s: String| s@).to_set();
    let mut i: usize = 0;
    while i < envs.len()
        invariant
            i <= envs.len(),
            keys@.map_values(|s: String| s@).no_duplicates(),
            keys@.map_values(|s: String| s@).to_set() == start.union(
                keys_of(envs@.take(i as int)),
            ),
        decreases envs.len() - i,
    {
        let ghost before = keys@.map_values(|s: String| s@);
        let ghost prev_ids = envs@.take(i as int).map_values(|e: Envelope| e.message_id@);
        let ghost next_ids = envs@.take(i + 1).map_values(|e: Envelope| e.message_id@);
        proof {
            assert(next_ids =~= prev_ids.push(envs@[i as int].message_id@));
            assert(next_ids.to_set() =~= prev_ids.to_set().insert(envs@[i as int].message_id@)) by {
                assert forall|k: Seq<char>| next_ids.contains(k) <==> prev_ids.contains(k) || k == envs@[i as int].message_id@ by {
                    if next_ids.contains(k) {
                        let j = choose|j: int| 0 <= j < next_ids.len() && next_ids[j] == k;
                        if j < prev_ids.len() {
                            assert(prev_ids[j] == k);
                        }
                    }
                    if prev_ids.contains(k) {
                        let j = choose|j: int| 0 <= j < prev_ids.len() && prev_ids[j] == k;
                        assert(next_ids[j] == k);
                    }
                    if k == envs@[i as int].message_id@ {
                        assert(next_ids[i as int] == k);
                    }
                }
            }
        }
        let key = &envs[i].message_id;
        if !contains_key(keys, key) {
            keys.push(key.clone());
            proof {
                let after = keys@.map_values(|s: String| s@);
                assert(after =~= before.push(key@));
                assert(after.to_set() =~= before.to_set().insert(key@)) by {
                    assert forall|k: Seq<char>| after.contains(k) <==> before.contains(k) || k == key@ by {
                        if after.contains(k) {
                            let j = choose|j: int| 0 <= j < after.len() && after[j] == k;
                            if j < before.len() {
                                assert(before[j] == k);
                            }
                        }
                        if before.contains(k) {
                            let j = choose|j: int| 0 <= j < before.len() && before[j] == k;
                            assert(after[j] == k);
                        }
                        if k == key@ {
                            assert(after[before.len() as int] == k);
                        }
                    }
                }
            }
        } else {
            proof {
                assert(before.to_set().contains(key@));
                assert(before.to_set() =~= before.to_set().insert(key@));
            }
        }
        i = i + 1;
    }
    proof {
        assert(envs@.take(envs.len() as int) =~= envs@);
    }
}

/// The strings of a list, as a set.
pub open spec fn string_set(v: Seq<String>) -> Set<Seq<char>> {
    v.map_values(|s: String| s@).to_set()
}

proof fn lemma_string_set_push(v: Seq<String>, x: String)
    ensures
        string_set(v.push(x)) == string_set(v).insert(x@),
{
    let a = v.push(x).map_values(|s: String| s@);
    let b = v.map_values(|s: String| s@);
    assert(a =~= b.push(x@));
    assert forall|k: Seq<char>| a.contains(k) <==> b.contains(k) || k == x@ by {
        if a.contains(k) {
            let j = choose|j: int| 0 <= j < a.len() && a[j] == k;
            if j < b.len() {
                assert(b[j] == k);
            }
        }
        if b.contains(k) {
            let j = choose|j: int| 0 <= j < b.len() && b[j] == k;
            assert(a[j] == k);
        }
        if k == x@ {
            assert(a[b.len() as int] == k);
        }
    }
    assert(string_set(v.push(x)) =~= string_set(v).insert(x@));
}

/// Adds to `keys` the strings of `names` that it lacks.
pub fn add_names(keys: &mut Vec<String>, names: &Vec<String>)
    requires
        old(keys)@.map_values(|s: String| s@).no_duplicates(),
    ensures
        final(keys)@.map_values(|s: String| s@).no_duplicates(),
        string_set(final(keys)@) == string_set(old(keys)@).union(string_set(names@)),
{
    let ghost start = string_set(keys@);
    let mut i: usize = 0;
    while i < names.len()
        invariant
            i <= names.len(),
            keys@.map_values(|s: String| s@).no_duplicates(),
            string_set(keys@) == start.union(string_set(names@.take(i as int))),
        decreases names.len() - i,
    {
        proof {
            assert(names@.take(i + 1) =~= names@.take(i as int).push(names@[i as int]));
            lemma_string_set_push(names@.take(i as int), names@[i as int]);
        }
        let name = &names[i];
        if !contains_key(keys, name) {
            let ghost before = keys@;
            keys.push(name.clone());
            proof {
                lemma_string_set_push(before, *name);
                assert(keys@.map_values(|s: String| s@) =~= before.map_values(|s: String| s@).push(name@));
            }
        } else {
            proof {
                assert(string_set(keys@).contains(name@));
                assert(string_set(keys@) =~= string_set(keys@).insert(name@));
            }
        }
        i = i + 1;
    }
    proof {
        assert(names@.take(names.len() as int) =~= names@);
    }
}

} // verus!
