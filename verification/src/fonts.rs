//! The computation behind the font-listing command: the host enumerates the
//! system's font family names (with repetitions, in no particular order), and
//! this module turns them into a duplicate-free list sorted in code-point
//! order, the list handed back to the UI layer.

use vstd::prelude::*;
use vstd::string::StrSliceExecFns;

verus! {

/// Code-point lexicographic order on character sequences: the order in which
/// the font family list is returned.
pub open spec fn lex_le(a: Seq<char>, b: Seq<char>) -> bool
    decreases a.len(),
{
    if a.len() == 0 {
        true
    } else if b.len() == 0 {
        false
    } else if a[0] == b[0] {
        lex_le(a.skip(1), b.skip(1))
    } else {
        (a[0] as u32) < (b[0] as u32)
    }
}

/// Strict version of `lex_le`.
pub open spec fn lex_lt(a: Seq<char>, b: Seq<char>) -> bool {
    lex_le(a, b) && a != b
}

/// The views of a sequence of strings.
pub open spec fn views(v: Seq<String>) -> Seq<Seq<char>> {
    v.map_values(|s: String| s@)
}

/// Every pair of entries is in order.
pub open spec fn sorted(v: Seq<Seq<char>>) -> bool {
    forall|i: int, j: int| 0 <= i < j < v.len() ==> lex_le(v[i], v[j])
}

/// Every pair of entries is in strict order; in particular no entry repeats.
pub open spec fn strictly_sorted(v: Seq<Seq<char>>) -> bool {
    forall|i: int, j: int| 0 <= i < j < v.len() ==> lex_lt(v[i], v[j])
}

/// Distinct characters have distinct code points.
proof fn lemma_char_code_points_distinct(x: char, y: char)
    requires
        x != y,
    ensures
        x as u32 != y as u32,
{
}

pub proof fn lemma_lex_le_reflexive(a: Seq<char>)
    ensures
        lex_le(a, a),
    decreases a.len(),
{
    if a.len() > 0 {
        lemma_lex_le_reflexive(a.skip(1));
    }
}

pub proof fn lemma_lex_le_total(a: Seq<char>, b: Seq<char>)
    ensures
        lex_le(a, b) || lex_le(b, a),
    decreases a.len(),
{
    if a.len() > 0 && b.len() > 0 {
        if a[0] == b[0] {
            lemma_lex_le_total(a.skip(1), b.skip(1));
        } else {
            lemma_char_code_points_distinct(a[0], b[0]);
            if (a[0] as u32) < (b[0] as u32) {
                assert(lex_le(a, b));
            } else {
                assert(lex_le(b, a));
            }
        }
    }
}

pub proof fn lemma_lex_le_antisymmetric(a: Seq<char>, b: Seq<char>)
    requires
        lex_le(a, b),
        lex_le(b, a),
    ensures
        a == b,
    decreases a.len(),
{
    if a.len() == 0 {
        assert(b.len() == 0);
        assert(a =~= b);
    } else {
        assert(a[0] == b[0]);
        lemma_lex_le_antisymmetric(a.skip(1), b.skip(1));
        assert forall|k: int| 0 <= k < a.len() implies a[k] == b[k] by {
            if k > 0 {
                assert(a.skip(1)[k - 1] == b.skip(1)[k - 1]);
            }
        }
        assert(a =~= b);
    }
}

pub proof fn lemma_lex_le_transitive(a: Seq<char>, b: Seq<char>, c: Seq<char>)
    requires
        lex_le(a, b),
        lex_le(b, c),
    ensures
        lex_le(a, c),
    decreases a.len(),
{
    if a.len() > 0 {
        if a[0] == b[0] && b[0] == c[0] {
            lemma_lex_le_transitive(a.skip(1), b.skip(1), c.skip(1));
        }
    }
}

/// A strict step followed by a non-strict one is still strict.
pub proof fn lemma_lex_lt_le_transitive(a: Seq<char>, b: Seq<char>, c: Seq<char>)
    requires
        lex_lt(a, b),
        lex_le(b, c),
    ensures
        lex_lt(a, c),
{
    lemma_lex_le_transitive(a, b, c);
    if a == c {
        lemma_lex_le_antisymmetric(a, b);
    }
}

/// Entries that agree on their first `i` characters compare as their tails do.
pub proof fn lemma_lex_le_common_prefix(a: Seq<char>, b: Seq<char>, i: int)
    requires
        0 <= i <= a.len(),
        i <= b.len(),
        forall|k: int| 0 <= k < i ==> a[k] == b[k],
    ensures
        lex_le(a, b) <==> lex_le(a.skip(i), b.skip(i)),
    decreases i,
{
    if i == 0 {
        assert(a.skip(0) =~= a);
        assert(b.skip(0) =~= b);
    } else {
        assert(a[0] == b[0]);
        assert forall|k: int| 0 <= k < i - 1 implies a.skip(1)[k] == b.skip(1)[k] by {
            assert(a[k + 1] == b[k + 1]);
        }
        lemma_lex_le_common_prefix(a.skip(1), b.skip(1), i - 1);
        assert(a.skip(1).skip(i - 1) =~= a.skip(i));
        assert(b.skip(1).skip(i - 1) =~= b.skip(i));
    }
}

/// Decides the code-point order `lex_le` on two strings.
pub fn str_lex_le(a: &str, b: &str) -> (r: bool)
    ensures
        r == lex_le(a@, b@),
{
    let an: usize = a.unicode_len();
    let bn: usize = b.unicode_len();
    let mut i: usize = 0;
    while i < an && i < bn
        invariant
            i <= an,
            i <= bn,
            an == a@.len(),
            bn == b@.len(),
            forall|k: int| 0 <= k < i ==> a@[k] == b@[k],
        decreases an - i,
    {
        let ca = a.get_char(i);
        let cb = b.get_char(i);
        if ca != cb {
            proof {
                lemma_lex_le_common_prefix(a@, b@, i as int);
                assert(a@.skip(i as int)[0] == a@[i as int]);
                assert(b@.skip(i as int)[0] == b@[i as int]);
                lemma_char_code_points_distinct(ca, cb);
            }
            return (ca as u32) < (cb as u32);
        }
        i += 1;
    }
    proof {
        lemma_lex_le_common_prefix(a@, b@, i as int);
        if i < an {
            assert(b@.skip(i as int).len() == 0);
            assert(a@.skip(i as int).len() > 0);
        }
    }
    an <= bn
}

/// The position at which `s` belongs in `r`: the first entry not strictly
/// below `s`, or the length of `r` when every entry is below it.
fn insert_pos(r: &Vec<String>, s: &String) -> (pos: usize)
    ensures
        pos <= r@.len(),
        forall|k: int| 0 <= k < pos ==> lex_lt(views(r@)[k], s@),
        pos < r@.len() ==> lex_le(s@, views(r@)[pos as int]),
{
    let n: usize = r.len();
    let mut pos: usize = 0;
    while pos < n
        invariant
            pos <= n,
            n == r@.len(),
            forall|k: int| 0 <= k < pos ==> lex_lt(views(r@)[k], s@),
        decreases n - pos,
    {
        if str_lex_le(s.as_str(), r[pos].as_str()) {
            return pos;
        }
        proof {
            lemma_lex_le_total(s@, r@[pos as int]@);
            if r@[pos as int]@ == s@ {
                lemma_lex_le_reflexive(s@);
            }
            assert(views(r@)[pos as int] == r@[pos as int]@);
        }
        pos += 1;
    }
    pos
}

/// Inserts the name `s` into the strictly sorted list `r`, keeping the list
/// strictly sorted; a name already present is left alone.
fn insert_unique(r: &mut Vec<String>, s: &String)
    requires
        strictly_sorted(views(old(r)@)),
    ensures
        strictly_sorted(views(final(r)@)),
        views(final(r)@).to_set() == views(old(r)@).to_set().insert(s@),
{
    let pos: usize = insert_pos(r, s);
    if pos < r.len() {
        if str_lex_le(r[pos].as_str(), s.as_str()) {
            proof {
                lemma_lex_le_antisymmetric(s@, r@[pos as int]@);
                assert(views(r@)[pos as int] == s@);
                assert(views(r@).contains(s@));
                assert(views(r@).to_set() =~= views(r@).to_set().insert(s@));
            }
            return ;
        }
    }
    let ghost old_views = views(r@);
    let ghost p: int = pos as int;
    proof {
        // `s` is strictly between the entries before and at `pos`.
        if pos < r@.len() {
            lemma_lex_le_reflexive(r@[p]@);
            assert(lex_lt(s@, old_views[p]));
        }
        old(r)@.insert_ensures(p, *s);
    }
    r.insert(pos, s.clone());
    proof {
        let new_views = views(r@);
        assert forall|k: int| 0 <= k < new_views.len() implies #[trigger] new_views[k] == (if k < p {
            old_views[k]
        } else if k == p {
            s@
        } else {
            old_views[k - 1]
        }) by {
            assert(new_views[k] == r@[k]@);
        }
        assert forall|i: int, j: int| 0 <= i < j < new_views.len() implies lex_lt(
            new_views[i],
            new_views[j],
        ) by {
            if j < p {
                assert(lex_lt(old_views[i], old_views[j]));
            } else if j == p {
                assert(lex_lt(old_views[i], s@));
            } else if i < p {
                if i == j - 1 {
                    assert(lex_lt(old_views[i], new_views[j]));
                } else {
                    assert(lex_lt(old_views[i], old_views[j - 1]));
                }
            } else if i == p {
                if p < j - 1 {
                    assert(lex_lt(old_views[p], old_views[j - 1]));
                    lemma_lex_lt_le_transitive(s@, old_views[p], old_views[j - 1]);
                }
            } else {
                assert(lex_lt(old_views[i - 1], old_views[j - 1]));
            }
        }
        assert forall|x: Seq<char>| new_views.contains(x) implies (old_views.contains(x) || x
            == s@) by {
            let k: int = choose|k: int| 0 <= k < new_views.len() && new_views[k] == x;
            if k < p {
                assert(old_views[k] == x);
            } else if k > p {
                assert(old_views[k - 1] == x);
            }
        }
        assert forall|x: Seq<char>| (old_views.contains(x) || x == s@) implies new_views.contains(
            x,
        ) by {
            if x == s@ {
                assert(new_views[p] == x);
            } else {
                let k: int = choose|k: int| 0 <= k < old_views.len() && old_views[k] == x;
                if k < p {
                    assert(new_views[k] == x);
                } else {
                    assert(new_views[k + 1] == x);
                }
            }
        }
        assert(new_views.to_set() =~= old_views.to_set().insert(s@));
    }
}

/// A strictly sorted list is sorted and holds no entry twice.
pub proof fn lemma_strictly_sorted_no_duplicates(v: Seq<Seq<char>>)
    requires
        strictly_sorted(v),
    ensures
        sorted(v),
        v.no_duplicates(),
{
    assert forall|i: int, j: int| 0 <= i < j < v.len() implies lex_le(v[i], v[j]) by {
        assert(lex_lt(v[i], v[j]));
    }
    assert forall|i: int, j: int|
        0 <= i < v.len() && 0 <= j < v.len() && i != j implies v[i] != v[j] by {
        if i < j {
            assert(lex_lt(v[i], v[j]));
        } else {
            assert(lex_lt(v[j], v[i]));
        }
    }
}

/// The computation behind the font-listing command: given the family names
/// the host enumerated, returns them sorted in code-point order with
/// duplicates removed.
pub fn get_system_fonts(families: &Vec<String>) -> (r: Vec<String>)
    ensures
        sorted(views(r@)),
        views(r@).no_duplicates(),
        strictly_sorted(views(r@)),
        views(r@).to_set() == views(families@).to_set(),
{
    let mut r: Vec<String> = Vec::new();
    proof {
        assert(views(r@) =~= Seq::<Seq<char>>::empty());
        assert(views(families@.take(0)) =~= Seq::<Seq<char>>::empty());
        assert(views(r@).to_set() =~= views(families@.take(0)).to_set());
    }
    let n: usize = families.len();
    let mut i: usize = 0;
    while i < n
        invariant
            i <= n,
            n == families@.len(),
            strictly_sorted(views(r@)),
            views(r@).to_set() == views(families@.take(i as int)).to_set(),
        decreases n - i,
    {
        insert_unique(&mut r, &families[i]);
        proof {
            let t = families@.take(i as int);
            assert(families@.take(i as int + 1) =~= t.push(families@[i as int]));
            assert(views(t.push(families@[i as int])) =~= views(t).push(families@[i as int]@));
            assert(views(t).push(families@[i as int]@) =~= views(t) + seq![
                families@[i as int]@,
            ]);
            Seq::lemma_to_set_insert_commutes(views(t), families@[i as int]@);
            assert(views(r@).to_set() =~= views(families@.take(i as int + 1)).to_set());
        }
        i += 1;
    }
    proof {
        assert(families@.take(n as int) =~= families@);
        lemma_strictly_sorted_no_duplicates(views(r@));
    }
    r
}

} // verus!
