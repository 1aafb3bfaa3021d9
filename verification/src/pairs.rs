//! Small maps kept as lists: entries stay in the order in which their keys
//! first came, and a key occurs once.

use vstd::prelude::*;

verus! {

/// The value of the first entry with the given key.
pub open spec fn lookup<W>(entries: Seq<(Seq<char>, W)>, key: Seq<char>) -> Option<W>
    decreases entries.len(),
{
    if entries.len() == 0 {
        None
    } else if entries[0].0 == key {
        Some(entries[0].1)
    } else {
        lookup(entries.skip(1), key)
    }
}

/// The list with `key` bound to `value`: the first entry with that key gets
/// the new value where it stands; without one, a new entry goes to the end.
pub open spec fn put<W>(entries: Seq<(Seq<char>, W)>, key: Seq<char>, value: W) -> Seq<
    (Seq<char>, W),
>
    decreases entries.len(),
{
    if entries.len() == 0 {
        seq![(key, value)]
    } else if entries[0].0 == key {
        seq![(key, value)] + entries.skip(1)
    } else {
        seq![entries[0]] + put(entries.skip(1), key, value)
    }
}

/// No key occurs twice.
pub open spec fn distinct_keys<W>(entries: Seq<(Seq<char>, W)>) -> bool {
    forall|i: int, j: int|
        0 <= i < j < entries.len() ==> (#[trigger] entries[i]).0 != (#[trigger] entries[j]).0
}

/// The map that a run of bindings builds, later bindings overwriting
/// earlier ones of the same key.
pub open spec fn collected<W>(bindings: Seq<(Seq<char>, W)>) -> Seq<(Seq<char>, W)>
    decreases bindings.len(),
{
    if bindings.len() == 0 {
        Seq::empty()
    } else {
        put(collected(bindings.drop_last()), bindings.last().0, bindings.last().1)
    }
}

pub proof fn lemma_lookup_at<W>(entries: Seq<(Seq<char>, W)>, key: Seq<char>, i: int)
    requires
        0 <= i < entries.len(),
        entries[i].0 == key,
        forall|j: int| 0 <= j < i ==> (#[trigger] entries[j]).0 != key,
    ensures
        lookup(entries, key) == Some(entries[i].1),
        put(entries, key, entries[i].1) =~= entries,
        forall|v: W| #[trigger] put(entries, key, v) =~= entries.update(i, (key, v)),
    decreases i,
{
    if i > 0 {
        let rest = entries.skip(1);
        assert(rest[i - 1] == entries[i]);
        assert forall|j: int| 0 <= j < i - 1 implies (#[trigger] rest[j]).0 != key by {
            assert(rest[j] == entries[j + 1]);
        }
        lemma_lookup_at(rest, key, i - 1);
        assert forall|v: W| #[trigger] put(entries, key, v) =~= entries.update(i, (key, v)) by {
            assert(put(rest, key, v) =~= rest.update(i - 1, (key, v)));
        }
    } else {
        assert(entries[0] == (key, entries[0].1));
    }
}

pub proof fn lemma_lookup_none<W>(entries: Seq<(Seq<char>, W)>, key: Seq<char>)
    requires
        forall|j: int| 0 <= j < entries.len() ==> (#[trigger] entries[j]).0 != key,
    ensures
        lookup(entries, key) is None,
        forall|v: W| #[trigger] put(entries, key, v) =~= entries.push((key, v)),
    decreases entries.len(),
{
    if entries.len() > 0 {
        let rest = entries.skip(1);
        assert forall|j: int| 0 <= j < rest.len() implies (#[trigger] rest[j]).0 != key by {
            assert(rest[j] == entries[j + 1]);
        }
        lemma_lookup_none(rest, key);
        assert(entries[0].0 != key);
        assert forall|v: W| #[trigger] put(entries, key, v) =~= entries.push((key, v)) by {
            assert(put(rest, key, v) =~= rest.push((key, v)));
        }
    }
}

/// Binding a key keeps the keys distinct.
pub proof fn lemma_put_keeps_distinct<W>(entries: Seq<(Seq<char>, W)>, key: Seq<char>, value: W)
    requires
        distinct_keys(entries),
    ensures
        distinct_keys(put(entries, key, value)),
        lookup(put(entries, key, value), key) == Some(value),
{
    if exists|i: int| 0 <= i < entries.len() && (#[trigger] entries[i]).0 == key {
        let i = choose|i: int| 0 <= i < entries.len() && (#[trigger] entries[i]).0 == key;
        assert forall|j: int| 0 <= j < i implies (#[trigger] entries[j]).0 != key by {}
        lemma_lookup_at(entries, key, i);
        let after = entries.update(i, (key, value));
        assert(put(entries, key, value) =~= after);
        assert forall|j: int| 0 <= j < i implies (#[trigger] after[j]).0 != key by {
            assert(after[j] == entries[j]);
        }
        lemma_lookup_at(after, key, i);
        assert forall|a: int, b: int| 0 <= a < b < after.len() implies (#[trigger] after[a]).0 != (
        #[trigger] after[b]).0 by {
            assert(after[a].0 == entries[a].0);
            assert(after[b].0 == entries[b].0);
        }
    } else {
        lemma_lookup_none(entries, key);
        let after = entries.push((key, value));
        assert(put(entries, key, value) =~= after);
        assert forall|j: int| 0 <= j < entries.len() implies (#[trigger] after[j]).0 != key by {
            assert(after[j] == entries[j]);
        }
        lemma_lookup_at(after, key, entries.len() as int);
    }
}

/// The map that a run of bindings builds holds every key once.
pub proof fn lemma_collected_keys_are_distinct<W>(bindings: Seq<(Seq<char>, W)>)
    ensures
        distinct_keys(collected(bindings)),
    decreases bindings.len(),
{
    if bindings.len() > 0 {
        lemma_collected_keys_are_distinct(bindings.drop_last());
        lemma_put_keeps_distinct(
            collected(bindings.drop_last()),
            bindings.last().0,
            bindings.last().1,
        );
    }
}

/// Where the first entry with the given key stands.
pub fn find_key<V>(entries: &Vec<(String, V)>, key: &str) -> (r: Option<usize>)
    ensures
        match r {
            Some(i) => i < entries.len() && entries@[i as int].0@ == key@ && forall|j: int|
                0 <= j < i ==> (#[trigger] entries@[j]).0@ != key@,
            None => forall|j: int| 0 <= j < entries.len() ==> (#[trigger] entries@[j]).0@ != key@,
        },
{
    let wanted = key.to_owned();
    let mut i: usize = 0;
    while i < entries.len()
        invariant
            i <= entries.len(),
            wanted@ == key@,
            forall|j: int| 0 <= j < i ==> (#[trigger] entries@[j]).0@ != key@,
        decreases entries.len() - i,
    {
        if entries[i].0 == wanted {
            return Some(i);
        }
        i += 1;
    }
    None
}

/// The value bound to a key.
pub fn get<'a, V: DeepView>(entries: &'a Vec<(String, V)>, key: &str) -> (r: Option<&'a V>)
    ensures
        r.deep_view() == lookup(entries.deep_view(), key@),
{
    let ghost views = entries.deep_view();
    match find_key(entries, key) {
        Some(i) => {
            proof {
                assert(views[i as int] == entries@[i as int].deep_view());
                assert forall|j: int| 0 <= j < i implies (#[trigger] views[j]).0 != key@ by {
                    assert(views[j] == entries@[j].deep_view());
                }
                lemma_lookup_at(views, key@, i as int);
            }
            Some(&entries[i].1)
        },
        None => {
            proof {
                assert forall|j: int| 0 <= j < views.len() implies (#[trigger] views[j]).0 != key@ by {
                    assert(views[j] == entries@[j].deep_view());
                }
                lemma_lookup_none(views, key@);
            }
            None
        },
    }
}

/// Binds a key to a value.
pub fn insert<V: DeepView>(entries: &mut Vec<(String, V)>, key: String, value: V)
    ensures
        final(entries).deep_view() == put(old(entries).deep_view(), key@, value.deep_view()),
{
    let ghost views = entries.deep_view();
    let ghost k = key@;
    let ghost w = value.deep_view();
    match find_key(entries, key.as_str()) {
        Some(i) => {
            proof {
                assert(views[i as int] == entries@[i as int].deep_view());
                assert forall|j: int| 0 <= j < i implies (#[trigger] views[j]).0 != k by {
                    assert(views[j] == entries@[j].deep_view());
                }
                lemma_lookup_at(views, k, i as int);
                assert(put(views, k, w) =~= views.update(i as int, (k, w)));
            }
            entries.set(i, (key, value));
            assert(entries.deep_view() =~= views.update(i as int, (k, w)));
        },
        None => {
            proof {
                assert forall|j: int| 0 <= j < views.len() implies (#[trigger] views[j]).0 != k by {
                    assert(views[j] == entries@[j].deep_view());
                }
                lemma_lookup_none(views, k);
                assert(put(views, k, w) =~= views.push((k, w)));
            }
            entries.push((key, value));
            assert(entries.deep_view() =~= views.push((k, w)));
        },
    }
}

/// A copy of a list of text pairs.
pub fn clone_text_pairs(entries: &Vec<(String, String)>) -> (r: Vec<(String, String)>)
    ensures
        r.deep_view() == entries.deep_view(),
{
    let mut out: Vec<(String, String)> = Vec::new();
    let mut i: usize = 0;
    while i < entries.len()
        invariant
            i <= entries.len(),
            out@.len() == i,
            forall|j: int| 0 <= j < i ==> (#[trigger] out@[j]).deep_view() == entries@[j].deep_view(),
        decreases entries.len() - i,
    {
        out.push((entries[i].0.clone(), entries[i].1.clone()));
        i += 1;
    }
    assert(out.deep_view() =~= entries.deep_view());
    out
}

} // verus!
