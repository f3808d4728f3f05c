//! Environments as mathematical maps from identifiers to what they are bound
//! to, and the one operation that both the kind checker and the evaluator
//! need: binding a list of entries in order.

use vstd::prelude::*;

verus! {

/// `env` after the entries have been bound one after the other. An entry
/// shadows whatever `env` or an earlier entry bound to the same identifier.
pub open spec fn bind_all<V>(env: Map<Seq<char>, V>, entries: Seq<(Seq<char>, V)>) -> Map<
    Seq<char>,
    V,
>
    decreases entries.len(),
{
    if entries.len() == 0 {
        env
    } else {
        bind_all(env, entries.drop_last()).insert(entries.last().0, entries.last().1)
    }
}

/// Binding one more entry after the others is an insertion into what the
/// others gave.
pub proof fn lemma_bind_all_push<V>(
    env: Map<Seq<char>, V>,
    entries: Seq<(Seq<char>, V)>,
    entry: (Seq<char>, V),
)
    ensures
        bind_all(env, entries.push(entry)) == bind_all(env, entries).insert(entry.0, entry.1),
{
    assert(entries.push(entry).drop_last() =~= entries);
}

/// Binding two lists one after the other is binding their concatenation.
pub proof fn lemma_bind_all_concat<V>(
    env: Map<Seq<char>, V>,
    first: Seq<(Seq<char>, V)>,
    second: Seq<(Seq<char>, V)>,
)
    ensures
        bind_all(env, first + second) == bind_all(bind_all(env, first), second),
    decreases second.len(),
{
    if second.len() > 0 {
        lemma_bind_all_concat(env, first, second.drop_last());
        assert((first + second).drop_last() =~= first + second.drop_last());
    }
}

/// The last entry for an identifier wins: entries behind position `upto`
/// that bind other identifiers do not change what `id` is bound to.
pub proof fn lemma_bind_all_skip<V>(
    env: Map<Seq<char>, V>,
    entries: Seq<(Seq<char>, V)>,
    id: Seq<char>,
    upto: int,
)
    requires
        0 <= upto <= entries.len(),
        forall|j: int| upto <= j < entries.len() ==> entries[j].0 != id,
    ensures
        bind_all(env, entries).contains_key(id) == bind_all(env, entries.take(upto)).contains_key(
            id,
        ),
        bind_all(env, entries).contains_key(id) ==> bind_all(env, entries)[id] == bind_all(
            env,
            entries.take(upto),
        )[id],
    decreases entries.len() - upto,
{
    if upto == entries.len() {
        assert(entries.take(upto) =~= entries);
    } else {
        lemma_bind_all_skip(env, entries.drop_last(), id, upto);
        assert(entries.drop_last().take(upto) =~= entries.take(upto));
    }
}

/// What an identifier is bound to after `bind_all`: the value of the last
/// entry that names it, and where no entry does, what `env` bound it to.
pub proof fn lemma_bind_all_lookup<V>(
    env: Map<Seq<char>, V>,
    entries: Seq<(Seq<char>, V)>,
    id: Seq<char>,
)
    ensures
        (forall|j: int| 0 <= j < entries.len() ==> entries[j].0 != id) ==> {
            &&& bind_all(env, entries).contains_key(id) == env.contains_key(id)
            &&& env.contains_key(id) ==> bind_all(env, entries)[id] == env[id]
        },
        forall|k: int|
            0 <= k < entries.len() && entries[k].0 == id && (forall|j: int|
                k < j < entries.len() ==> entries[j].0 != id) ==> {
                &&& bind_all(env, entries).contains_key(id)
                &&& bind_all(env, entries)[id] == entries[k].1
            },
{
    if forall|j: int| 0 <= j < entries.len() ==> entries[j].0 != id {
        lemma_bind_all_skip(env, entries, id, 0);
    }
    assert forall|k: int|
        0 <= k < entries.len() && entries[k].0 == id && (forall|j: int|
            k < j < entries.len() ==> entries[j].0 != id) implies {
        &&& bind_all(env, entries).contains_key(id)
        &&& bind_all(env, entries)[id] == entries[k].1
    } by {
        lemma_bind_all_skip(env, entries, id, k + 1);
    }
}

/// An identifier is bound after `bind_all` exactly if `env` binds it or an
/// entry names it.
pub proof fn lemma_bind_all_contains<V>(
    env: Map<Seq<char>, V>,
    entries: Seq<(Seq<char>, V)>,
    id: Seq<char>,
)
    ensures
        bind_all(env, entries).contains_key(id) <==> env.contains_key(id) || exists|i: int|
            0 <= i < entries.len() && (#[trigger] entries[i]).0 == id,
    decreases entries.len(),
{
    if entries.len() > 0 {
        lemma_bind_all_contains(env, entries.drop_last(), id);
        if exists|i: int| 0 <= i < entries.len() - 1 && (#[trigger] entries.drop_last()[i]).0 == id {
            let i = choose|i: int|
                0 <= i < entries.len() - 1 && (#[trigger] entries.drop_last()[i]).0 == id;
            assert(entries[i].0 == id);
        }
        if exists|i: int| 0 <= i < entries.len() && (#[trigger] entries[i]).0 == id {
            let i = choose|i: int| 0 <= i < entries.len() && (#[trigger] entries[i]).0 == id;
            if i < entries.len() - 1 {
                assert(entries.drop_last()[i].0 == id);
            }
        }
    }
}

/// Two environments that bind an identifier alike still do so after the same
/// entries have been bound in both, and they do so in any case where an
/// entry names the identifier.
pub proof fn lemma_bind_all_agree<V>(
    first: Map<Seq<char>, V>,
    second: Map<Seq<char>, V>,
    entries: Seq<(Seq<char>, V)>,
    id: Seq<char>,
)
    requires
        (exists|i: int| 0 <= i < entries.len() && (#[trigger] entries[i]).0 == id) || {
            &&& first.contains_key(id) == second.contains_key(id)
            &&& first.contains_key(id) ==> first[id] == second[id]
        },
    ensures
        bind_all(first, entries).contains_key(id) == bind_all(second, entries).contains_key(id),
        bind_all(first, entries).contains_key(id) ==> bind_all(first, entries)[id] == bind_all(
            second,
            entries,
        )[id],
    decreases entries.len(),
{
    if entries.len() > 0 && entries.last().0 != id {
        if exists|i: int| 0 <= i < entries.len() && (#[trigger] entries[i]).0 == id {
            let i = choose|i: int| 0 <= i < entries.len() && (#[trigger] entries[i]).0 == id;
            assert(entries.drop_last()[i].0 == id);
        }
        lemma_bind_all_agree(first, second, entries.drop_last(), id);
    }
}

} // verus!
