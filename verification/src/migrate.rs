//! Migration file selection and ordering.
//!
//! A migration run takes the entries of the configured directory, keeps
//! exactly the files with the `sql` extension, and executes them in
//! ascending lexicographic order of their names. That sort is the only
//! ordering guarantee: files must be named so lexicographic order matches
//! the intended execution order.

use vstd::prelude::*;
use vstd::relations::{sorted_by, total_ordering};
use vstd::seq_lib::group_to_multiset_ensures;
use vstd::seq_lib::lemma_sorted_unique;

verus! {

broadcast use group_to_multiset_ensures;

/// Lexicographic order on character sequences: the empty sequence first,
/// then by the first differing character's code point.
pub open spec fn lex_le(a: Seq<char>, b: Seq<char>) -> bool
    decreases a.len(),
{
    if a.len() == 0 {
        true
    } else if b.len() == 0 {
        false
    } else if (a[0] as int) < (b[0] as int) {
        true
    } else if (b[0] as int) < (a[0] as int) {
        false
    } else {
        lex_le(a.skip(1), b.skip(1))
    }
}

/// `lex_le` as a binary relation value, for the ordering lemmas.
pub open spec fn lex_leq() -> spec_fn(Seq<char>, Seq<char>) -> bool {
    |a: Seq<char>, b: Seq<char>| lex_le(a, b)
}

/// Whether a file name carries the `sql` extension: it ends in `.sql`, and
/// the dot is not its first character (a bare `.sql` has no extension, it is
/// a hidden file).
pub open spec fn is_sql_file(name: Seq<char>) -> bool {
    &&& name.len() >= 5
    &&& name[name.len() - 4] == '.'
    &&& name[name.len() - 3] == 's'
    &&& name[name.len() - 2] == 'q'
    &&& name[name.len() - 1] == 'l'
}

/// `is_sql_file` as a predicate value, for `Seq::filter`.
pub open spec fn sql_filter() -> spec_fn(Seq<char>) -> bool {
    |s: Seq<char>| is_sql_file(s)
}

/// The character sequences of a sequence of strings.
pub open spec fn views_of(v: Seq<String>) -> Seq<Seq<char>> {
    v.map_values(|s: String| s@)
}

/// Ascending lexicographic order over a vector of names.
pub open spec fn sorted_names(v: Seq<String>) -> bool {
    forall|i: int, j: int| 0 <= i < j < v.len() ==> lex_le(#[trigger] v[i]@, #[trigger] v[j]@)
}

pub proof fn lemma_lex_refl(a: Seq<char>)
    ensures
        lex_le(a, a),
    decreases a.len(),
{
    if a.len() > 0 {
        lemma_lex_refl(a.skip(1));
    }
}

pub proof fn lemma_lex_total(a: Seq<char>, b: Seq<char>)
    ensures
        lex_le(a, b) || lex_le(b, a),
    decreases a.len(),
{
    if a.len() > 0 && b.len() > 0 && a[0] == b[0] {
        lemma_lex_total(a.skip(1), b.skip(1));
    }
}

pub proof fn lemma_lex_antisym(a: Seq<char>, b: Seq<char>)
    requires
        lex_le(a, b),
        lex_le(b, a),
    ensures
        a == b,
    decreases a.len(),
{
    if a.len() == 0 {
        assert(b.len() == 0);
        assert(a =~= b);
    } else {
        assert(b.len() > 0);
        assert(a[0] == b[0]);
        lemma_lex_antisym(a.skip(1), b.skip(1));
        assert(a.skip(1) == b.skip(1));
        assert(a.len() == b.len());
        assert forall|i: int| 0 <= i < a.len() implies a[i] == b[i] by {
            if i >= 1 {
                assert(a.skip(1)[i - 1] == a[i]);
                assert(b.skip(1)[i - 1] == b[i]);
            }
        }
        assert(a =~= b);
    }
}

pub proof fn lemma_lex_trans(a: Seq<char>, b: Seq<char>, c: Seq<char>)
    requires
        lex_le(a, b),
        lex_le(b, c),
    ensures
        lex_le(a, c),
    decreases a.len(),
{
    if a.len() > 0 && b.len() > 0 && c.len() > 0 {
        if a[0] == b[0] && b[0] == c[0] {
            lemma_lex_trans(a.skip(1), b.skip(1), c.skip(1));
        }
    }
}

/// `lex_le` is a total order.
pub proof fn lemma_lex_total_ordering()
    ensures
        total_ordering(lex_leq()),
{
    let leq = lex_leq();
    assert forall|x: Seq<char>| #[trigger] leq(x, x) by {
        lemma_lex_refl(x);
    }
    assert forall|x: Seq<char>, y: Seq<char>| #[trigger] leq(x, y) && #[trigger] leq(y, x)
        implies x == y by {
        lemma_lex_antisym(x, y);
    }
    assert forall|x: Seq<char>, y: Seq<char>, z: Seq<char>|
        #[trigger] leq(x, y) && #[trigger] leq(y, z) implies leq(x, z) by {
        lemma_lex_trans(x, y, z);
    }
    assert forall|x: Seq<char>, y: Seq<char>| !(#[trigger] leq(x, y)) implies leq(y, x) by {
        lemma_lex_total(x, y);
    }
}

/// Compare two names in lexicographic order.
fn str_lex_le(a: &str, b: &str) -> (r: bool)
    ensures
        r == lex_le(a@, b@),
{
    let an = a.unicode_len();
    let bn = b.unicode_len();
    proof {
        assert(a@.skip(0) =~= a@);
        assert(b@.skip(0) =~= b@);
    }
    let mut i: usize = 0;
    while i < an
        invariant
            0 <= i <= an,
            i <= bn,
            an == a@.len(),
            bn == b@.len(),
            lex_le(a@, b@) == lex_le(a@.skip(i as int), b@.skip(i as int)),
        decreases an - i,
    {
        proof {
            assert(a@.skip(i as int)[0] == a@[i as int]);
        }
        if i >= bn {
            proof {
                assert(b@.skip(i as int) =~= Seq::<char>::empty());
            }
            return false;
        }
        let ca = a.get_char(i);
        let cb = b.get_char(i);
        proof {
            assert(b@.skip(i as int)[0] == b@[i as int]);
        }
        if (ca as u32) < (cb as u32) {
            return true;
        }
        if (cb as u32) < (ca as u32) {
            return false;
        }
        proof {
            assert(a@.skip(i as int).skip(1) =~= a@.skip(i as int + 1));
            assert(b@.skip(i as int).skip(1) =~= b@.skip(i as int + 1));
        }
        i += 1;
    }
    proof {
        assert(a@.skip(an as int) =~= Seq::<char>::empty());
    }
    true
}

/// Does this name carry the `sql` extension?
fn is_sql_name(name: &str) -> (b: bool)
    ensures
        b == is_sql_file(name@),
{
    let n = name.unicode_len();
    if n < 5 {
        return false;
    }
    name.get_char(n - 4) == '.' && name.get_char(n - 3) == 's' && name.get_char(n - 2) == 'q'
        && name.get_char(n - 1) == 'l'
}

/// The first position of `out` whose entry is at or after `x` in
/// lexicographic order; `out.len()` if there is none.
fn insert_pos(out: &Vec<String>, x: &str) -> (j: usize)
    ensures
        j <= out@.len(),
        forall|k: int| 0 <= k < j ==> !lex_le(x@, #[trigger] out@[k]@),
        j < out@.len() ==> lex_le(x@, out@[j as int]@),
{
    let mut j: usize = 0;
    while j < out.len()
        invariant
            0 <= j <= out@.len(),
            forall|k: int| 0 <= k < j ==> !lex_le(x@, #[trigger] out@[k]@),
        decreases out@.len() - j,
    {
        if str_lex_le(x, out[j].as_str()) {
            return j;
        }
        j += 1;
    }
    j
}

/// Keep exactly the `sql` files among the directory entries and put them in
/// ascending lexicographic order — the order in which a migration run
/// executes them.
pub fn order_migrations(names: Vec<String>) -> (r: Vec<String>)
    ensures
        sorted_names(r@),
        views_of(r@).to_multiset() == views_of(names@).filter(sql_filter()).to_multiset(),
{
    let f = Ghost(sql_filter());
    let mut kept: Vec<String> = Vec::new();
    let mut i: usize = 0;
    while i < names.len()
        invariant
            0 <= i <= names@.len(),
            views_of(kept@) == views_of(names@.take(i as int)).filter(f@),
            f@ == sql_filter(),
        decreases names@.len() - i,
    {
        let ghost vs_i = views_of(names@.take(i as int));
        let ghost vs_i1 = views_of(names@.take(i as int + 1));
        let ghost x = names@[i as int]@;
        proof {
            assert(vs_i1 =~= vs_i + seq![x]);
            Seq::filter_distributes_over_add(vs_i, seq![x], f@);
            reveal_with_fuel(Seq::filter, 3);
            assert(seq![x].drop_last() =~= Seq::<Seq<char>>::empty());
            if f@(x) {
                assert(seq![x].filter(f@) =~= seq![x]);
            } else {
                assert(seq![x].filter(f@) =~= Seq::<Seq<char>>::empty());
            }
        }
        let keep = is_sql_name(names[i].as_str());
        if keep {
            kept.push(names[i].clone());
            proof {
                assert(views_of(kept@) =~= vs_i.filter(f@) + seq![x]);
                assert(views_of(kept@) =~= vs_i1.filter(f@));
            }
        } else {
            proof {
                assert(views_of(kept@) =~= vs_i1.filter(f@));
            }
        }
        i += 1;
    }
    proof {
        assert(names@.take(names@.len() as int) =~= names@);
    }
    let mut out: Vec<String> = Vec::new();
    let mut k: usize = 0;
    while k < kept.len()
        invariant
            0 <= k <= kept@.len(),
            sorted_names(out@),
            views_of(out@).to_multiset() == views_of(kept@.take(k as int)).to_multiset(),
        decreases kept@.len() - k,
    {
        let ghost old_out = out@;
        let x = kept[k].clone();
        let j = insert_pos(&out, x.as_str());
        out.insert(j, x);
        proof {
            assert(out@ =~= old_out.insert(j as int, x));
            assert(sorted_names(out@)) by {
                assert forall|p: int, q: int| 0 <= p < q < out@.len()
                    implies lex_le(out@[p]@, out@[q]@) by {
                    if q == j {
                        lemma_lex_total(x@, old_out[p]@);
                    } else if p == j {
                        lemma_lex_trans_from_pos(old_out, x@, j as int, q - 1);
                    } else {
                        let p0: int = if p < j { p } else { p - 1 };
                        let q0: int = if q < j { q } else { q - 1 };
                        assert(out@[p]@ == old_out[p0]@);
                        assert(out@[q]@ == old_out[q0]@);
                        assert(0 <= p0 < q0 < old_out.len());
                        assert(lex_le(old_out[p0]@, old_out[q0]@));
                    }
                }
            }
            assert(out@.remove(j as int) =~= old_out);
            assert(out@.to_multiset().remove(out@[j as int]) =~= old_out.to_multiset());
            lemma_views_multiset_insert(old_out, out@, j as int, x);
            assert(kept@.take(k as int + 1) =~= kept@.take(k as int).push(kept@[k as int]));
            assert(views_of(kept@.take(k as int + 1)) =~= views_of(kept@.take(k as int)).push(
                kept@[k as int]@,
            ));
        }
        k += 1;
    }
    proof {
        assert(kept@.take(kept@.len() as int) =~= kept@);
    }
    out
}

/// In a sorted vector, an element at or after position `j` is at or after
/// `x` whenever `x` precedes the entry at `j`.
proof fn lemma_lex_trans_from_pos(old_out: Seq<String>, x: Seq<char>, j: int, q: int)
    requires
        sorted_names(old_out),
        0 <= j <= q < old_out.len(),
        lex_le(x, old_out[j]@),
    ensures
        lex_le(x, old_out[q]@),
{
    if j < q {
        lemma_lex_trans(x, old_out[j]@, old_out[q]@);
    }
}

/// Inserting one string inserts exactly its characters into the multiset of
/// name views.
proof fn lemma_views_multiset_insert(old_out: Seq<String>, new_out: Seq<String>, j: int, x: String)
    requires
        0 <= j <= old_out.len(),
        new_out == old_out.insert(j, x),
    ensures
        views_of(new_out).to_multiset() =~= views_of(old_out).to_multiset().insert(x@),
{
    let vn = views_of(new_out);
    let vo = views_of(old_out);
    assert(vn.remove(j) =~= vo);
    assert(vn.remove(j).to_multiset() =~= vn.to_multiset().remove(vn[j]));
    assert(vn[j] == x@);
    assert(vn.contains(x@)) by {
        assert(vn[j] == x@);
    }
    assert(vn.to_multiset().count(x@) > 0);
    assert(vn.to_multiset() =~= vo.to_multiset().insert(x@)) by {
        assert forall|z: Seq<char>|
            vn.to_multiset().count(z) == vo.to_multiset().insert(x@).count(z) by {
            if z == x@ {
                assert(vo.to_multiset().count(z) == vn.to_multiset().remove(x@).count(z));
            } else {
                assert(vo.to_multiset().count(z) == vn.to_multiset().remove(x@).count(z));
            }
        }
    }
}

/// Law: the execution order of a migration run is deterministic. Any two
/// listings of the same files, however the directory happened to hand them
/// out, are ordered into the same sequence: a sorted sequence is determined
/// by its multiset of names.
pub proof fn lemma_migration_order_deterministic(a: Seq<String>, b: Seq<String>)
    requires
        sorted_names(a),
        sorted_names(b),
        views_of(a).to_multiset() == views_of(b).to_multiset(),
    ensures
        views_of(a) == views_of(b),
{
    let leq = lex_leq();
    lemma_lex_total_ordering();
    assert(sorted_by(views_of(a), leq)) by {
        assert(forall|i: int, j: int|
            0 <= i < j < a.len() ==> lex_le(#[trigger] views_of(a)[i], #[trigger] views_of(a)[j]));
    }
    assert(sorted_by(views_of(b), leq)) by {
        assert(forall|i: int, j: int|
            0 <= i < j < b.len() ==> lex_le(#[trigger] views_of(b)[i], #[trigger] views_of(b)[j]));
    }
    lemma_sorted_unique(views_of(a), views_of(b), leq);
}

/// Locating the migrations directory starts from the nearest ancestor
/// directory that holds the project marker file. Given, innermost first,
/// whether each ancestor holds the marker, pick the first that does;
/// `None` is the distinct configuration error "marker not found".
pub fn first_marked(has_marker: Vec<bool>) -> (r: Option<usize>)
    ensures
        match r {
            Some(i) => {
                &&& 0 <= i < has_marker@.len()
                &&& has_marker@[i as int]
                &&& forall|j: int| 0 <= j < i ==> !has_marker@[j]
            },
            None => forall|j: int| 0 <= j < has_marker@.len() ==> !has_marker@[j],
        },
{
    let mut i: usize = 0;
    while i < has_marker.len()
        invariant
            0 <= i <= has_marker@.len(),
            forall|j: int| 0 <= j < i ==> !has_marker@[j],
        decreases has_marker@.len() - i,
    {
        if has_marker[i] {
            return Some(i);
        }
        i += 1;
    }
    None
}

} // verus!
