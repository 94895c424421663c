//! The version namer: given the catalog of existing databases and a test
//! identifier, compute the next unused disposable database name for that
//! identifier.
//!
//! A disposable database is named `test_db_{identifier}_{version}`; the
//! chosen version is one more than the largest version currently present
//! among databases carrying that identifier's prefix, or 1 if none is.

use vstd::prelude::*;
use crate::Database;

verus! {

pub open spec fn is_digit(c: char) -> bool {
    '0' as int <= c as int && c as int <= '9' as int
}

pub open spec fn digit_val(c: char) -> int {
    c as int - '0' as int
}

pub open spec fn digit_char(d: int) -> char {
    if d == 0 {
        '0'
    } else if d == 1 {
        '1'
    } else if d == 2 {
        '2'
    } else if d == 3 {
        '3'
    } else if d == 4 {
        '4'
    } else if d == 5 {
        '5'
    } else if d == 6 {
        '6'
    } else if d == 7 {
        '7'
    } else if d == 8 {
        '8'
    } else {
        '9'
    }
}

pub open spec fn all_digits(s: Seq<char>) -> bool {
    forall|i: int| 0 <= i < s.len() ==> is_digit(#[trigger] s[i])
}

/// The number denoted by a sequence of decimal digits, most significant first.
pub open spec fn val_of(s: Seq<char>) -> int
    decreases s.len(),
{
    if s.len() == 0 {
        0
    } else {
        val_of(s.drop_last()) * 10 + digit_val(s.last())
    }
}

/// The decimal rendering of a non-negative number, most significant digit first.
pub open spec fn decimal_digits(n: int) -> Seq<char>
    decreases n,
{
    if n < 10 {
        seq![digit_char(n)]
    } else {
        decimal_digits(n / 10).push(digit_char(n % 10))
    }
}

/// The digits of a version suffix: everything after an optional leading '+'.
pub open spec fn digits_part(s: Seq<char>) -> Seq<char> {
    if s.len() > 0 && s[0] == '+' {
        s.skip(1)
    } else {
        s
    }
}

/// Whether a suffix is accepted as a version: an optional leading '+', then
/// at least one decimal digit, denoting a value that fits in a `u64`.
/// Any other suffix belongs to an unrelated or malformed entry and is
/// silently ignored by the namer.
pub open spec fn parses_as_version(s: Seq<char>) -> bool {
    &&& digits_part(s).len() > 0
    &&& all_digits(digits_part(s))
    &&& val_of(digits_part(s)) <= u64::MAX as int
}

pub open spec fn version_value(s: Seq<char>) -> int {
    val_of(digits_part(s))
}

/// The prefix that every disposable database of one test identifier carries.
pub open spec fn db_prefix(t: Seq<char>) -> Seq<char> {
    "test_db_"@ + t + "_"@
}

/// Whether an existing database name counts toward the version computation
/// for identifier `t`.
pub open spec fn is_candidate(name: Seq<char>, t: Seq<char>) -> bool {
    let p = db_prefix(t);
    &&& name.len() >= p.len()
    &&& name.take(p.len() as int) == p
    &&& parses_as_version(name.skip(p.len() as int))
}

pub open spec fn candidate_version(name: Seq<char>, t: Seq<char>) -> int {
    version_value(name.skip(db_prefix(t).len() as int))
}

/// The largest version among the candidates for `t`, or 0 if there is none.
pub open spec fn max_version(dbs: Seq<Database>, t: Seq<char>) -> int
    decreases dbs.len(),
{
    if dbs.len() == 0 {
        0
    } else {
        let rest = max_version(dbs.drop_last(), t);
        let last = dbs.last();
        if is_candidate(last.name@, t) && candidate_version(last.name@, t) > rest {
            candidate_version(last.name@, t)
        } else {
            rest
        }
    }
}

/// The name the namer must choose: the identifier's prefix followed by one
/// more than the largest existing version.
pub open spec fn next_name_spec(dbs: Seq<Database>, t: Seq<char>) -> Seq<char> {
    db_prefix(t) + decimal_digits(max_version(dbs, t) + 1)
}

/// Build `test_db_{test_name}_`.
pub fn make_db_prefix(test_name: &str) -> (r: String)
    ensures
        r@ == db_prefix(test_name@),
{
    let mut s = String::from_str("test_db_");
    s.append(test_name);
    s.append("_");
    s
}

fn digit_string(d: u64) -> (r: String)
    requires
        d < 10,
    ensures
        r@ == seq![digit_char(d as int)],
{
    let s: &str = if d == 0 {
        "0"
    } else if d == 1 {
        "1"
    } else if d == 2 {
        "2"
    } else if d == 3 {
        "3"
    } else if d == 4 {
        "4"
    } else if d == 5 {
        "5"
    } else if d == 6 {
        "6"
    } else if d == 7 {
        "7"
    } else if d == 8 {
        "8"
    } else {
        "9"
    };
    proof {
        reveal_strlit("0");
        reveal_strlit("1");
        reveal_strlit("2");
        reveal_strlit("3");
        reveal_strlit("4");
        reveal_strlit("5");
        reveal_strlit("6");
        reveal_strlit("7");
        reveal_strlit("8");
        reveal_strlit("9");
        assert(s@ =~= seq![digit_char(d as int)]);
    }
    String::from_str(s)
}

/// Render a version number in decimal, most significant digit first.
pub fn format_version(n: u64) -> (r: String)
    ensures
        r@ == decimal_digits(n as int),
    decreases n,
{
    if n < 10 {
        digit_string(n)
    } else {
        let mut s = format_version(n / 10);
        let d = digit_string(n % 10);
        s.append(d.as_str());
        proof {
            assert(s@ =~= decimal_digits((n / 10) as int).push(digit_char((n % 10) as int)));
        }
        s
    }
}

proof fn lemma_val_of_nonneg(s: Seq<char>)
    requires
        all_digits(s),
    ensures
        val_of(s) >= 0,
    decreases s.len(),
{
    if s.len() > 0 {
        assert(all_digits(s.drop_last())) by {
            assert(forall|i: int|
                0 <= i < s.drop_last().len() ==> #[trigger] s.drop_last()[i] == s[i]);
        }
        lemma_val_of_nonneg(s.drop_last());
    }
}

/// Appending digits to a digit string never lowers its value.
proof fn lemma_val_of_take_le(s: Seq<char>, j: int)
    requires
        all_digits(s),
        0 <= j <= s.len(),
    ensures
        val_of(s.take(j)) <= val_of(s),
    decreases s.len() - j,
{
    if j == s.len() {
        assert(s.take(j) =~= s);
    } else {
        lemma_val_of_take_le(s, j + 1);
        assert(s.take(j + 1).drop_last() =~= s.take(j));
        assert(s.take(j + 1).last() == s[j]);
        assert(all_digits(s.take(j))) by {
            assert(forall|i: int| 0 <= i < j ==> #[trigger] s.take(j)[i] == s[i]);
        }
        lemma_val_of_nonneg(s.take(j));
        assert(val_of(s.take(j + 1)) == val_of(s.take(j)) * 10 + digit_val(s[j]));
        assert(val_of(s.take(j)) * 10 >= val_of(s.take(j))) by (nonlinear_arith)
            requires
                val_of(s.take(j)) >= 0,
        ;
    }
}

/// Does `name` start with `prefix`, character for character?
fn starts_with_chars(name: &str, prefix: &str) -> (b: bool)
    ensures
        b == (name@.len() >= prefix@.len() && name@.take(prefix@.len() as int) == prefix@),
{
    let n = name.unicode_len();
    let p = prefix.unicode_len();
    if n < p {
        return false;
    }
    let mut i: usize = 0;
    while i < p
        invariant
            0 <= i <= p,
            p <= n,
            n == name@.len(),
            p == prefix@.len(),
            forall|j: int| 0 <= j < i ==> name@[j] == prefix@[j],
        decreases p - i,
    {
        if name.get_char(i) != prefix.get_char(i) {
            proof {
                if name@.take(p as int) == prefix@ {
                    assert(name@.take(p as int)[i as int] == prefix@[i as int]);
                    assert(name@.take(p as int)[i as int] == name@[i as int]);
                }
            }
            return false;
        }
        i += 1;
    }
    proof {
        assert(name@.take(p as int) =~= prefix@);
    }
    true
}

/// Parse the version suffix of `name` beginning at character `start`:
/// an optional '+', then decimal digits whose value fits in a `u64`.
/// Returns `None` exactly when the suffix is not of that form.
fn parse_version(name: &str, start: usize) -> (r: Option<u64>)
    requires
        start <= name@.len(),
    ensures
        match r {
            Some(v) => parses_as_version(name@.skip(start as int)) && v as int == version_value(
                name@.skip(start as int),
            ),
            None => !parses_as_version(name@.skip(start as int)),
        },
{
    let ghost suffix: Seq<char> = name@.skip(start as int);
    let n = name.unicode_len();
    let mut d0: usize = start;
    if d0 < n && name.get_char(d0) == '+' {
        d0 = d0 + 1;
    }
    let ghost body: Seq<char> = name@.skip(d0 as int);
    proof {
        if start < n && name@[start as int] == '+' {
            assert(suffix[0] == name@[start as int]);
            assert(suffix.skip(1) =~= name@.skip(start as int + 1));
        }
        assert(body =~= digits_part(suffix));
    }
    if d0 == n {
        return None;
    }
    let mut acc: u64 = 0;
    let mut j: usize = d0;
    while j < n
        invariant
            d0 <= j <= n,
            n == name@.len(),
            body == name@.skip(d0 as int),
            body == digits_part(suffix),
            suffix == name@.skip(start as int),
            all_digits(name@.subrange(d0 as int, j as int)),
            acc as int == val_of(name@.subrange(d0 as int, j as int)),
        decreases n - j,
    {
        let c = name.get_char(j);
        let cu = c as u32;
        if cu < '0' as u32 || cu > '9' as u32 {
            proof {
                assert(body[j - d0] == name@[j as int]);
                assert(!is_digit(body[j - d0]));
            }
            return None;
        }
        let d = (cu - '0' as u32) as u64;
        proof {
            assert(name@.subrange(d0 as int, j as int + 1).drop_last() =~= name@.subrange(
                d0 as int,
                j as int,
            ));
            assert(name@.subrange(d0 as int, j as int + 1).last() == name@[j as int]);
        }
        if acc > (u64::MAX - d) / 10 {
            proof {
                let partial = name@.subrange(d0 as int, j as int + 1);
                assert(acc as int * 10 + d as int > u64::MAX as int) by (nonlinear_arith)
                    requires
                        acc as int > (u64::MAX as int - d as int) / 10,
                        0 <= (d as int) && (d as int) < 10,
                ;
                assert(val_of(partial) > u64::MAX as int);
                if all_digits(body) {
                    assert(partial =~= body.take(j - d0 + 1));
                    lemma_val_of_take_le(body, j - d0 + 1);
                }
            }
            return None;
        }
        proof {
            assert(acc as int * 10 + d as int <= u64::MAX as int) by (nonlinear_arith)
                requires
                    acc as int <= (u64::MAX as int - d as int) / 10,
                    0 <= (d as int) && (d as int) < 10,
                    0 <= acc as int,
            ;
        }
        acc = acc * 10 + d;
        j += 1;
    }
    proof {
        assert(name@.subrange(d0 as int, n as int) =~= body);
    }
    Some(acc)
}

/// The next unused disposable database name for `test_name`: the prefix
/// `test_db_{test_name}_` followed by one more than the largest version
/// among the existing databases that carry this prefix, or 1 if none does.
pub fn next_db_version(tests_dbs: &[Database], test_name: &str) -> (r: String)
    requires
        max_version(tests_dbs@, test_name@) + 1 <= u64::MAX as int,
    ensures
        r@ == next_name_spec(tests_dbs@, test_name@),
{
    let prefix = make_db_prefix(test_name);
    let plen = prefix.as_str().unicode_len();
    let n = tests_dbs.len();
    let mut best: u64 = 0;
    let mut i: usize = 0;
    while i < n
        invariant
            0 <= i <= n,
            n == tests_dbs@.len(),
            prefix@ == db_prefix(test_name@),
            plen == prefix@.len(),
            max_version(tests_dbs@, test_name@) + 1 <= u64::MAX as int,
            best as int == max_version(tests_dbs@.take(i as int), test_name@),
            best as int <= u64::MAX as int - 1,
        decreases n - i,
    {
        proof {
            lemma_max_version_take_le(tests_dbs@, test_name@, i as int + 1);
            assert(tests_dbs@.take(i as int + 1).drop_last() =~= tests_dbs@.take(i as int));
            assert(tests_dbs@.take(i as int + 1).last() == tests_dbs@[i as int]);
        }
        let name = tests_dbs[i].name.as_str();
        if starts_with_chars(name, prefix.as_str()) {
            if let Some(v) = parse_version(name, plen) {
                if v > best {
                    best = v;
                }
            }
        }
        i += 1;
    }
    proof {
        assert(tests_dbs@.take(n as int) =~= tests_dbs@);
    }
    let ver = format_version(best + 1);
    let mut out = prefix;
    out.append(ver.as_str());
    out
}

/// The largest candidate version over a listing prefix never exceeds the
/// largest over the whole listing.
proof fn lemma_max_version_take_le(dbs: Seq<Database>, t: Seq<char>, i: int)
    requires
        0 <= i <= dbs.len(),
    ensures
        max_version(dbs.take(i), t) <= max_version(dbs, t),
    decreases dbs.len() - i,
{
    if i == dbs.len() {
        assert(dbs.take(i) =~= dbs);
    } else {
        lemma_max_version_take_le(dbs, t, i + 1);
        assert(dbs.take(i + 1).drop_last() =~= dbs.take(i));
        assert(dbs.take(i + 1).last() == dbs[i]);
    }
}

/// The maximum is an upper bound on every candidate's version, and never
/// negative.
pub proof fn lemma_max_version_bounds(dbs: Seq<Database>, t: Seq<char>)
    ensures
        max_version(dbs, t) >= 0,
        forall|i: int|
            0 <= i < dbs.len() && is_candidate(#[trigger] dbs[i].name@, t)
                ==> candidate_version(dbs[i].name@, t) <= max_version(dbs, t),
    decreases dbs.len(),
{
    if dbs.len() > 0 {
        lemma_max_version_bounds(dbs.drop_last(), t);
        let rest = max_version(dbs.drop_last(), t);
        assert(max_version(dbs, t) >= rest);
        assert forall|i: int|
            0 <= i < dbs.len() && is_candidate(#[trigger] dbs[i].name@, t)
                implies candidate_version(dbs[i].name@, t) <= max_version(dbs, t) by {
            if i < dbs.len() - 1 {
                assert(dbs.drop_last()[i] == dbs[i]);
            } else {
                assert(dbs[i] == dbs.last());
            }
        }
    }
}

proof fn lemma_decimal_digits_wf(n: int)
    requires
        0 <= n,
    ensures
        decimal_digits(n).len() >= 1,
        all_digits(decimal_digits(n)),
        decimal_digits(n)[0] != '+',
        val_of(decimal_digits(n)) == n,
    decreases n,
{
    if n < 10 {
        let s1 = seq![digit_char(n)];
        assert(decimal_digits(n) == s1);
        assert(is_digit(digit_char(n)));
        assert(digit_val(digit_char(n)) == n);
        assert(s1.drop_last() =~= Seq::<char>::empty());
        assert(val_of(s1.drop_last()) == 0);
        assert(s1.last() == digit_char(n));
        assert(val_of(s1) == digit_val(digit_char(n)));
    } else {
        lemma_decimal_digits_wf(n / 10);
        let d = decimal_digits(n / 10);
        let c = digit_char(n % 10);
        assert(decimal_digits(n) == d.push(c));
        assert(d.push(c).drop_last() =~= d);
        assert(d.push(c).last() == c);
        assert(is_digit(c));
        assert(digit_val(c) == n % 10);
        assert(forall|i: int|
            0 <= i < d.len() ==> #[trigger] d.push(c)[i] == d[i]);
        assert(val_of(decimal_digits(n)) == n / 10 * 10 + n % 10);
        assert(n / 10 * 10 + n % 10 == n);
    }
}

/// Law: the namer is monotone and collision-free. The chosen name carries
/// the identifier's own prefix, its version is exactly one more than the
/// largest existing version (so 1 when none exists), it is strictly greater
/// than the version of every existing candidate, and the chosen name differs
/// from every name already in the catalog.
pub proof fn lemma_naming_monotonicity(dbs: Seq<Database>, t: Seq<char>)
    requires
        max_version(dbs, t) + 1 <= u64::MAX as int,
    ensures
        is_candidate(next_name_spec(dbs, t), t),
        candidate_version(next_name_spec(dbs, t), t) == max_version(dbs, t) + 1,
        forall|i: int|
            0 <= i < dbs.len() && is_candidate(#[trigger] dbs[i].name@, t)
                ==> candidate_version(dbs[i].name@, t) < max_version(dbs, t) + 1,
        forall|i: int| 0 <= i < dbs.len() ==> (#[trigger] dbs[i].name@) != next_name_spec(dbs, t),
{
    lemma_max_version_bounds(dbs, t);
    let p = db_prefix(t);
    let v = max_version(dbs, t) + 1;
    let d = decimal_digits(v);
    lemma_decimal_digits_wf(v);
    let next = next_name_spec(dbs, t);
    assert(next.take(p.len() as int) =~= p);
    assert(next.skip(p.len() as int) =~= d);
    assert(digits_part(d) == d);
    assert(is_candidate(next, t));
    assert(candidate_version(next, t) == v);
    assert forall|i: int| 0 <= i < dbs.len() implies (#[trigger] dbs[i].name@) != next by {
        if dbs[i].name@ == next {
            assert(is_candidate(dbs[i].name@, t));
            assert(candidate_version(dbs[i].name@, t) == v);
        }
    }
}

/// Law: entries that are no candidate for identifier `t` — names of other
/// test identifiers, or unrelated names altogether — never influence the
/// name computed for `t`, wherever they stand in the listing.
pub proof fn lemma_prefix_isolation(dbs: Seq<Database>, other: Database, i: int, t: Seq<char>)
    requires
        0 <= i <= dbs.len(),
        !is_candidate(other.name@, t),
    ensures
        max_version(dbs.insert(i, other), t) == max_version(dbs, t),
        next_name_spec(dbs.insert(i, other), t) == next_name_spec(dbs, t),
    decreases dbs.len(),
{
    let s = dbs.insert(i, other);
    if i == dbs.len() {
        assert(s.drop_last() =~= dbs);
        assert(s.last() == other);
    } else {
        lemma_prefix_isolation(dbs.drop_last(), other, i, t);
        assert(s.drop_last() =~= dbs.drop_last().insert(i, other));
        assert(s.last() == dbs.last());
    }
}

/// Law: a name that carries the identifier's prefix but whose suffix is not
/// numeric — `test_db_{t}_abc`, say — is silently ignored by the namer: it
/// changes nothing about the computed name.
pub proof fn lemma_malformed_suffix_ignored(dbs: Seq<Database>, other: Database, i: int, t: Seq<char>)
    requires
        0 <= i <= dbs.len(),
        !parses_as_version(other.name@.skip(db_prefix(t).len() as int)),
    ensures
        max_version(dbs.insert(i, other), t) == max_version(dbs, t),
        next_name_spec(dbs.insert(i, other), t) == next_name_spec(dbs, t),
{
    lemma_prefix_isolation(dbs, other, i, t);
}

/// Law: a database that belongs to a different test identifier — one named
/// `test_db_{t2}_{v}` with `t2 != t` — is never a candidate for `t`, so by
/// `lemma_prefix_isolation` it never influences the version computed for
/// `t`. The separating underscore sees to it, whether one identifier
/// extends the other or not.
pub proof fn lemma_other_identifier_is_no_candidate(t: Seq<char>, t2: Seq<char>, v: int)
    requires
        t != t2,
        0 <= v,
    ensures
        !is_candidate(db_prefix(t2) + decimal_digits(v), t),
{
    reveal_strlit("test_db_");
    reveal_strlit("_");
    let head = "test_db_"@;
    let us = "_"@;
    let p = db_prefix(t);
    let p2 = db_prefix(t2);
    let d = decimal_digits(v);
    let name = p2 + d;
    lemma_decimal_digits_wf(v);
    assert(head.len() == 8);
    assert(us.len() == 1);
    assert(us[0] == '_');
    assert(p.len() == t.len() + 9);
    assert(p2.len() == t2.len() + 9);
    assert(!is_digit('_'));
    if is_candidate(name, t) {
        let suffix = name.skip(p.len() as int);
        assert(forall|i: int| 0 <= i < p.len() ==> name[i] == #[trigger] p[i]) by {
            assert(forall|i: int|
                0 <= i < p.len() ==> #[trigger] name.take(p.len() as int)[i] == name[i]);
        }
        if t.len() == t2.len() {
            assert(t =~= t2) by {
                assert forall|i: int| 0 <= i < t.len() implies t[i] == t2[i] by {
                    assert(p[8 + i] == t[i]);
                    assert(p2[8 + i] == t2[i]);
                    assert(name[8 + i] == p2[8 + i]);
                }
            }
        } else if t.len() < t2.len() {
            let j = p2.len() - 1;
            assert(p2[j as int] == us[0]);
            assert(name[j as int] == '_');
            assert(j >= p.len());
            let k = j - p.len();
            assert(suffix[k as int] == '_');
            assert(!parses_as_version(suffix)) by {
                let body = digits_part(suffix);
                if suffix.len() > 0 && suffix[0] == '+' {
                    assert(k >= 1);
                    assert(body[k - 1] == '_');
                } else {
                    assert(body[k as int] == '_');
                }
            }
        } else {
            let j = p.len() - 1;
            assert(p[j as int] == us[0]);
            assert(name[j as int] == '_');
            assert(j >= p2.len());
            assert(name[j as int] == d[j - p2.len()]);
            assert(is_digit(d[j - p2.len()]));
        }
    }
}

/// Law: a database that belongs to a different test identifier, wherever
/// it stands in the listing, leaves both the version and the name computed
/// for `t` unchanged.
pub proof fn lemma_other_identifier_isolated(
    dbs: Seq<Database>,
    other: Database,
    i: int,
    t: Seq<char>,
    t2: Seq<char>,
    v: int,
)
    requires
        0 <= i <= dbs.len(),
        t != t2,
        0 <= v,
        other.name@ == db_prefix(t2) + decimal_digits(v),
    ensures
        max_version(dbs.insert(i, other), t) == max_version(dbs, t),
        next_name_spec(dbs.insert(i, other), t) == next_name_spec(dbs, t),
{
    lemma_other_identifier_is_no_candidate(t, t2, v);
    lemma_prefix_isolation(dbs, other, i, t);
}

} // verus!
