//! Header fields held as a list of name/value pairs whose names are
//! distinct, viewed as a finite map from name to value.

use vstd::prelude::*;

verus! {

/// A header list in its abstract form: name/value pairs.
pub type HeaderSeq = Seq<(Seq<char>, Seq<char>)>;

/// No name occurs twice.
pub open spec fn names_distinct(s: HeaderSeq) -> bool {
    forall|i: int, j: int| 0 <= i < j < s.len() ==> #[trigger] s[i].0 != #[trigger] s[j].0
}

/// The value stored under `name`, if any.
pub open spec fn lookup(s: HeaderSeq, name: Seq<char>) -> Option<Seq<char>>
    decreases s.len(),
{
    if s.len() == 0 {
        None
    } else if s.last().0 == name {
        Some(s.last().1)
    } else {
        lookup(s.drop_last(), name)
    }
}

/// Whether some pair has this name.
pub open spec fn has_name(s: HeaderSeq, name: Seq<char>) -> bool {
    lookup(s, name) is Some
}

/// The pairs of `s` whose name is not `name`, in their order.
pub open spec fn without_name(s: HeaderSeq, name: Seq<char>) -> HeaderSeq
    decreases s.len(),
{
    if s.len() == 0 {
        s
    } else if s.last().0 == name {
        without_name(s.drop_last(), name)
    } else {
        without_name(s.drop_last(), name).push(s.last())
    }
}

/// `s` with `name` bound to `value`: any earlier pair of that name leaves
/// and the new pair comes last.
pub open spec fn put(s: HeaderSeq, name: Seq<char>, value: Seq<char>) -> HeaderSeq {
    without_name(s, name).push((name, value))
}

/// Every name of `without_name(s, name)` is a name of `s` other than `name`.
pub proof fn lemma_without_name_names(s: HeaderSeq, name: Seq<char>)
    ensures
        forall|i: int|
            0 <= i < without_name(s, name).len() ==> #[trigger] without_name(s, name)[i].0
                != name && exists|j: int| 0 <= j < s.len() && s[j] == without_name(s, name)[i],
        without_name(s, name).len() <= s.len(),
    decreases s.len(),
{
    if s.len() > 0 {
        lemma_without_name_names(s.drop_last(), name);
        let r = without_name(s.drop_last(), name);
        assert forall|i: int| 0 <= i < without_name(s, name).len() implies #[trigger] without_name(
            s,
            name,
        )[i].0 != name && exists|j: int| 0 <= j < s.len() && s[j] == without_name(s, name)[i] by {
            if i < r.len() {
                let j = choose|j: int| 0 <= j < s.drop_last().len() && s.drop_last()[j] == r[i];
                assert(s[j] == without_name(s, name)[i]);
            } else {
                assert(s[s.len() - 1] == without_name(s, name)[i]);
            }
        }
    }
}

/// Dropping a name keeps the names distinct.
pub proof fn lemma_without_name_distinct(s: HeaderSeq, name: Seq<char>)
    requires
        names_distinct(s),
    ensures
        names_distinct(without_name(s, name)),
    decreases s.len(),
{
    if s.len() > 0 {
        let d = s.drop_last();
        assert(names_distinct(d));
        lemma_without_name_distinct(d, name);
        lemma_without_name_names(d, name);
        let r = without_name(d, name);
        if s.last().0 != name {
            assert forall|i: int, j: int|
                0 <= i < j < without_name(s, name).len() implies #[trigger] without_name(s, name)[i].0
                != #[trigger] without_name(s, name)[j].0 by {
                if j == r.len() {
                    assert(r[i].0 != name);
                    let k = choose|k: int| 0 <= k < d.len() && d[k] == r[i];
                    assert(s[k] == d[k]);
                    assert(s[s.len() - 1] == s.last());
                }
            }
        }
    }
}

/// Binding a name keeps the names distinct.
pub proof fn lemma_put_distinct(s: HeaderSeq, name: Seq<char>, value: Seq<char>)
    requires
        names_distinct(s),
    ensures
        names_distinct(put(s, name, value)),
{
    lemma_without_name_distinct(s, name);
    lemma_without_name_names(s, name);
    let r = without_name(s, name);
    assert forall|i: int, j: int|
        0 <= i < j < put(s, name, value).len() implies #[trigger] put(s, name, value)[i].0
        != #[trigger] put(s, name, value)[j].0 by {
        if j == r.len() {
            assert(r[i].0 != name);
        } else {
            assert(r[i].0 != r[j].0);
        }
    }
}

/// Looking a name up after dropping it finds nothing; other names are
/// looked up as before.
pub proof fn lemma_lookup_without_name(s: HeaderSeq, name: Seq<char>, other: Seq<char>)
    ensures
        lookup(without_name(s, name), other) == if other == name {
            None
        } else {
            lookup(s, other)
        },
    decreases s.len(),
{
    if s.len() > 0 {
        lemma_lookup_without_name(s.drop_last(), name, other);
        if s.last().0 != name {
            assert(without_name(s, name).drop_last() == without_name(s.drop_last(), name));
        }
    }
}

/// Looking a name up after binding it gives the new value; other names are
/// looked up as before.
pub proof fn lemma_lookup_put(s: HeaderSeq, name: Seq<char>, value: Seq<char>, other: Seq<char>)
    ensures
        lookup(put(s, name, value), other) == if other == name {
            Some(value)
        } else {
            lookup(s, other)
        },
{
    lemma_lookup_without_name(s, name, other);
    assert(put(s, name, value).drop_last() == without_name(s, name));
}

/// Dropping a name that no pair has changes nothing.
pub proof fn lemma_without_absent_name(s: HeaderSeq, name: Seq<char>)
    requires
        !has_name(s, name),
    ensures
        without_name(s, name) == s,
    decreases s.len(),
{
    if s.len() > 0 {
        lemma_without_absent_name(s.drop_last(), name);
        assert(s.drop_last().push(s.last()) == s);
    }
}

/// Dropping a name twice is dropping it once.
pub proof fn lemma_without_name_twice(s: HeaderSeq, name: Seq<char>)
    ensures
        without_name(without_name(s, name), name) == without_name(s, name),
{
    lemma_lookup_without_name(s, name, name);
    lemma_without_absent_name(without_name(s, name), name);
}

/// Dropping a name undoes binding it: the pairs are those of dropping it
/// from the list before, and, when the name was absent, the list before.
pub proof fn lemma_without_undoes_put(s: HeaderSeq, name: Seq<char>, value: Seq<char>)
    ensures
        without_name(put(s, name, value), name) == without_name(s, name),
        !has_name(s, name) ==> without_name(put(s, name, value), name) == s,
{
    assert(put(s, name, value).drop_last() == without_name(s, name));
    lemma_without_name_twice(s, name);
    if !has_name(s, name) {
        lemma_without_absent_name(s, name);
    }
}

/// A name that some pair has is the name of a pair at some position.
pub proof fn lemma_lookup_position(s: HeaderSeq, name: Seq<char>)
    ensures
        has_name(s, name) ==> exists|j: int| 0 <= j < s.len() && (#[trigger] s[j]).0 == name,
    decreases s.len(),
{
    if s.len() > 0 {
        lemma_lookup_position(s.drop_last(), name);
        if s.last().0 != name && has_name(s, name) {
            let j = choose|j: int| 0 <= j < s.drop_last().len() && (#[trigger] s.drop_last()[j]).0
                == name;
            assert(s[j] == s.drop_last()[j]);
        } else if s.last().0 == name {
            assert(s[s.len() - 1].0 == name);
        }
    }
}

/// With distinct names, dropping a name removes one pair when the name is
/// present and none when it is absent.
pub proof fn lemma_without_name_len(s: HeaderSeq, name: Seq<char>)
    requires
        names_distinct(s),
    ensures
        without_name(s, name).len() == s.len() - if has_name(s, name) {
            1int
        } else {
            0int
        },
    decreases s.len(),
{
    if s.len() > 0 {
        let d = s.drop_last();
        assert(names_distinct(d));
        lemma_without_name_len(d, name);
        if s.last().0 == name {
            lemma_lookup_position(d, name);
            if has_name(d, name) {
                let j = choose|j: int| 0 <= j < d.len() && (#[trigger] d[j]).0 == name;
                assert(s[j] == d[j]);
                assert(s[j].0 == s[s.len() - 1].0);
            }
            lemma_without_absent_name(d, name);
        }
    }
}

/// With distinct names, binding a name keeps the number of pairs when the
/// name is present and adds one pair when it is absent.
pub proof fn lemma_put_len(s: HeaderSeq, name: Seq<char>, value: Seq<char>)
    requires
        names_distinct(s),
    ensures
        put(s, name, value).len() == s.len() + if has_name(s, name) {
            0int
        } else {
            1int
        },
{
    lemma_without_name_len(s, name);
}

/// Removes every pair named `name` from `entries`, keeping the order of the
/// others.
pub fn remove_name(entries: &mut Vec<(String, String)>, name: &String)
    ensures
        final(entries).deep_view() == without_name(old(entries).deep_view(), name@),
{
    let ghost s = old(entries).deep_view();
    let mut kept: Vec<(String, String)> = Vec::new();
    let mut i: usize = 0;
    while i < entries.len()
        invariant
            i <= entries.len(),
            s == entries.deep_view(),
            kept.deep_view() == without_name(s.take(i as int), name@),
        decreases entries.len() - i,
    {
        assert(s.take(i + 1).drop_last() == s.take(i as int));
        assert(s.take(i + 1).last() == s[i as int]);
        let same = entries[i].0 == *name;
        if !same {
            let pair = (entries[i].0.clone(), entries[i].1.clone());
            let ghost before = kept.deep_view();
            kept.push(pair);
            assert(kept.deep_view() =~= before.push(s[i as int]));
        }
        i = i + 1;
    }
    assert(s.take(s.len() as int) == s);
    *entries = kept;
}

/// Binds `name` to `value` in `entries`: the pair comes last, and any
/// earlier pair of that name leaves.
pub fn put_name(entries: &mut Vec<(String, String)>, name: String, value: String)
    ensures
        final(entries).deep_view() == put(old(entries).deep_view(), name@, value@),
{
    remove_name(entries, &name);
    let ghost before = entries.deep_view();
    let ghost pair = (name@, value@);
    entries.push((name, value));
    assert(entries.deep_view() =~= before.push(pair));
}

} // verus!
