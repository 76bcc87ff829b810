//! Ordered sets of names, kept as strictly ascending vectors of strings.
//!
//! Names are ordered as `str` orders them: lexicographically by character,
//! which for UTF-8 text is the same as byte-wise order.
use vstd::prelude::*;
use crate::text::{chars_of, str_eq};

verus! {

/// Lexicographic "less than" on character sequences.
pub open spec fn name_lt(a: Seq<char>, b: Seq<char>) -> bool
    decreases a.len(),
{
    if a.len() == 0 {
        b.len() > 0
    } else if b.len() == 0 {
        false
    } else if (a[0] as int) < (b[0] as int) {
        true
    } else if (a[0] as int) > (b[0] as int) {
        false
    } else {
        name_lt(a.drop_first(), b.drop_first())
    }
}

pub proof fn lemma_name_lt_irreflexive(a: Seq<char>)
    ensures
        !name_lt(a, a),
    decreases a.len(),
{
    if a.len() > 0 {
        lemma_name_lt_irreflexive(a.drop_first());
    }
}

pub proof fn lemma_name_lt_transitive(a: Seq<char>, b: Seq<char>, c: Seq<char>)
    requires
        name_lt(a, b),
        name_lt(b, c),
    ensures
        name_lt(a, c),
    decreases a.len(),
{
    if a.len() > 0 && b.len() > 0 && c.len() > 0 {
        if a[0] == b[0] && b[0] == c[0] {
            lemma_name_lt_transitive(a.drop_first(), b.drop_first(), c.drop_first());
        }
    }
}

pub proof fn lemma_name_lt_total(a: Seq<char>, b: Seq<char>)
    requires
        a != b,
    ensures
        name_lt(a, b) || name_lt(b, a),
    decreases a.len(),
{
    if a.len() > 0 && b.len() > 0 {
        if a[0] == b[0] {
            if a.drop_first() == b.drop_first() {
                assert(a == seq![a[0]] + a.drop_first());
                assert(b == seq![b[0]] + b.drop_first());
            }
            lemma_name_lt_total(a.drop_first(), b.drop_first());
        } else {
            assert((a[0] as int) != (b[0] as int));
        }
    } else if a.len() == 0 && b.len() == 0 {
        assert(a =~= b);
    }
}

/// The names held by a vector of strings.
pub open spec fn names_of(v: Seq<String>) -> Seq<Seq<char>> {
    v.map_values(|s: String| s@)
}

/// Strictly ascending, hence free of repeats.
pub open spec fn strictly_ascending(s: Seq<Seq<char>>) -> bool {
    forall|i: int, j: int| 0 <= i < j < s.len() ==> name_lt(s[i], s[j])
}

/// The set of names in a sequence.
pub open spec fn name_set(s: Seq<Seq<char>>) -> Set<Seq<char>> {
    s.to_set()
}

/// Whether `a` orders before `b`.
pub fn name_less(a: &str, b: &str) -> (r: bool)
    ensures
        r == name_lt(a@, b@),
{
    let va = chars_of(a);
    let vb = chars_of(b);
    let mut i: usize = 0;
    proof {
        assert(a@.skip(0) =~= a@);
        assert(b@.skip(0) =~= b@);
    }
    while i < va.len() && i < vb.len()
        invariant
            va@ == a@,
            vb@ == b@,
            i <= va.len(),
            i <= vb.len(),
            name_lt(a@, b@) == name_lt(a@.skip(i as int), b@.skip(i as int)),
        decreases va.len() - i,
    {
        let ca = va[i];
        let cb = vb[i];
        proof {
            assert(a@.skip(i as int)[0] == ca);
            assert(b@.skip(i as int)[0] == cb);
            assert(a@.skip(i as int).drop_first() == a@.skip(i + 1));
            assert(b@.skip(i as int).drop_first() == b@.skip(i + 1));
        }
        if ca < cb {
            return true;
        }
        if ca > cb {
            return false;
        }
        i = i + 1;
    }
    proof {
        assert(a@.skip(i as int).len() == a@.len() - i);
        assert(b@.skip(i as int).len() == b@.len() - i);
    }
    i == va.len() && i < vb.len()
}

/// Whether the name `s` occurs in `v`.
pub fn contains_name(v: &Vec<String>, s: &str) -> (r: bool)
    ensures
        r == names_of(v@).contains(s@),
{
    let mut i: usize = 0;
    while i < v.len()
        invariant
            i <= v.len(),
            forall|j: int| 0 <= j < i ==> v@[j]@ != s@,
        decreases v.len() - i,
    {
        if str_eq(v[i].as_str(), s) {
            proof {
                assert(names_of(v@)[i as int] == s@);
            }
            return true;
        }
        i = i + 1;
    }
    proof {
        if names_of(v@).contains(s@) {
            let k = choose|k: int| 0 <= k < names_of(v@).len() && names_of(v@)[k] == s@;
            assert(v@[k]@ == s@);
        }
    }
    false
}

/// Adds `s` to the ascending set `v`; nothing changes when it is already there.
pub fn insert_name(v: &mut Vec<String>, s: String)
    requires
        strictly_ascending(names_of(old(v)@)),
    ensures
        strictly_ascending(names_of(final(v)@)),
        name_set(names_of(final(v)@)) == name_set(names_of(old(v)@)).insert(s@),
{
    let ghost old_names = names_of(v@);
    let mut i: usize = 0;
    while i < v.len()
        invariant
            v@ == old(v)@,
            old_names == names_of(v@),
            strictly_ascending(old_names),
            i <= v.len(),
            forall|j: int| 0 <= j < i ==> name_lt(old_names[j], s@),
        ensures
            i <= v.len(),
            forall|j: int| 0 <= j < i ==> name_lt(old_names[j], s@),
            i < v.len() ==> !name_lt(old_names[i as int], s@),
        decreases v.len() - i,
    {
        if !name_less(v[i].as_str(), s.as_str()) {
            break;
        }
        i = i + 1;
    }
    if i < v.len() && str_eq(v[i].as_str(), s.as_str()) {
        proof {
            assert(name_set(old_names).contains(s@)) by {
                assert(old_names[i as int] == s@);
            }
            assert(name_set(old_names).insert(s@) =~= name_set(old_names));
        }
        return;
    }
    proof {
        if i < v.len() {
            assert(!name_lt(old_names[i as int], s@));
            assert(old_names[i as int] != s@);
            lemma_name_lt_total(old_names[i as int], s@);
        }
    }
    let ghost ins = i;
    v.insert(i, s);
    proof {
        let nn = names_of(v@);
        assert(nn =~= old_names.insert(ins as int, s@));
        assert forall|a: int, b: int| 0 <= a < b < nn.len() implies name_lt(nn[a], nn[b]) by {
            if b < ins {
            } else if b == ins {
            } else if a < ins {
                assert(nn[b] == old_names[b - 1]);
                assert(name_lt(old_names[a], s@));
                assert(name_lt(s@, old_names[ins as int]));
                if b - 1 > ins {
                    lemma_name_lt_transitive(s@, old_names[ins as int], old_names[b - 1]);
                }
                lemma_name_lt_transitive(old_names[a], s@, old_names[b - 1]);
            } else if a == ins {
                assert(nn[b] == old_names[b - 1]);
                if b - 1 > ins {
                    lemma_name_lt_transitive(s@, old_names[ins as int], old_names[b - 1]);
                }
            } else {
                assert(nn[a] == old_names[a - 1]);
                assert(nn[b] == old_names[b - 1]);
            }
        }
        assert(name_set(nn) =~= name_set(old_names).insert(s@)) by {
            assert forall|x: Seq<char>| name_set(nn).contains(x) implies name_set(old_names).insert(s@).contains(x) by {
                let k = choose|k: int| 0 <= k < nn.len() && nn[k] == x;
                if k < ins {
                    assert(old_names[k] == x);
                } else if k > ins {
                    assert(old_names[k - 1] == x);
                }
            }
            assert forall|x: Seq<char>| name_set(old_names).insert(s@).contains(x) implies name_set(nn).contains(x) by {
                if x == s@ {
                    assert(nn[ins as int] == x);
                } else {
                    let k = choose|k: int| 0 <= k < old_names.len() && old_names[k] == x;
                    if k < ins {
                        assert(nn[k] == x);
                    } else {
                        assert(nn[k + 1] == x);
                    }
                }
            }
        }
    }
}

} // verus!
