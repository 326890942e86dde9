use vstd::prelude::*;

use crate::text::chars_of;
use crate::text::ascii_lower_all;
use crate::transfers::{is_report_file_name, is_report_name, law_report_types, path_extension};

verus! {

// ---------------------------------------------------------------------------
// Which files of the report folder make up the master report, and in what
// order: the report files, sorted by name.
// ---------------------------------------------------------------------------

/// `a` sorts before `b`: the first differing character is smaller, or `a` is a
/// proper prefix of `b`. (This is the order of file names as paths compare them:
/// UTF-8 byte order is code point order.)
pub open spec fn name_lt(a: Seq<char>, b: Seq<char>) -> bool
    decreases a.len(),
{
    if a.len() == 0 {
        b.len() > 0
    } else if b.len() == 0 {
        false
    } else if a[0] != b[0] {
        a[0] < b[0]
    } else {
        name_lt(a.drop_first(), b.drop_first())
    }
}

/// Inserting `x` into a sorted list, after every name it does not sort before.
pub open spec fn insert_by_name(s: Seq<Seq<char>>, x: Seq<char>) -> Seq<Seq<char>>
    decreases s.len(),
{
    if s.len() == 0 {
        seq![x]
    } else if name_lt(x, s[0]) {
        seq![x] + s
    } else {
        seq![s[0]] + insert_by_name(s.drop_first(), x)
    }
}

/// The names sorted (stably) by `name_lt`.
pub open spec fn sort_by_name(s: Seq<Seq<char>>) -> Seq<Seq<char>>
    decreases s.len(),
{
    if s.len() == 0 {
        Seq::empty()
    } else {
        insert_by_name(sort_by_name(s.drop_last()), s.last())
    }
}

/// The report files among the names, in their order.
pub open spec fn report_names(s: Seq<Seq<char>>) -> Seq<Seq<char>>
    decreases s.len(),
{
    if s.len() == 0 {
        Seq::empty()
    } else if is_report_name(s.last()) {
        report_names(s.drop_last()).push(s.last())
    } else {
        report_names(s.drop_last())
    }
}

/// The files that the master report is made of, in report order.
pub open spec fn selected_reports(names: Seq<Seq<char>>) -> Seq<Seq<char>> {
    report_names(sort_by_name(names))
}

fn name_less(a: &Vec<char>, b: &Vec<char>) -> (r: bool)
    ensures
        r == name_lt(a@, b@),
{
    let mut i: usize = 0;
    assert(a@.skip(0) =~= a@);
    assert(b@.skip(0) =~= b@);
    loop
        invariant
            i <= a@.len(),
            i <= b@.len(),
            name_lt(a@.skip(i as int), b@.skip(i as int)) == name_lt(a@, b@),
        decreases a@.len() - i,
    {
        if i == a.len() {
            return i < b.len();
        }
        if i == b.len() {
            return false;
        }
        assert(a@.skip(i as int)[0] == a@[i as int]);
        assert(b@.skip(i as int)[0] == b@[i as int]);
        if a[i] != b[i] {
            return a[i] < b[i];
        }
        assert(a@.skip(i as int).drop_first() =~= a@.skip(i + 1));
        assert(b@.skip(i as int).drop_first() =~= b@.skip(i + 1));
        i = i + 1;
    }
}

proof fn lemma_insert_at(s: Seq<Seq<char>>, x: Seq<char>, p: int)
    requires
        0 <= p <= s.len(),
        forall|j: int| 0 <= j < p ==> !name_lt(x, s[j]),
        p < s.len() ==> name_lt(x, s[p]),
    ensures
        insert_by_name(s, x) == s.insert(p, x),
    decreases p,
{
    if s.len() == 0 {
        assert(s.insert(p, x) =~= seq![x]);
    } else if p == 0 {
        assert(s.insert(0, x) =~= seq![x] + s);
    } else {
        let t = s.drop_first();
        assert forall|j: int| 0 <= j < p - 1 implies !name_lt(x, t[j]) by {
            assert(t[j] == s[j + 1]);
        }
        if p - 1 < t.len() {
            assert(t[p - 1] == s[p]);
        }
        lemma_insert_at(t, x, p - 1);
        assert(seq![s[0]] + t.insert(p - 1, x) =~= s.insert(p, x));
    }
}

/// The names of the files that the master report is made of: the report files
/// (by extension), sorted by name, equal names kept in their given order.
pub fn select_report_files(names: Vec<String>) -> (r: Vec<String>)
    ensures
        r@.map_values(|s: String| s@) == selected_reports(names@.map_values(|s: String| s@)),
{
    let ghost views = names@.map_values(|s: String| s@);
    let mut sorted: Vec<String> = Vec::new();
    let mut keys: Vec<Vec<char>> = Vec::new();
    let n = names.len();
    let rest = names;
    let mut i: usize = 0;
    while i < n
        invariant
            n == views.len(),
            i <= n,
            rest@.len() == n,
            rest@.map_values(|s: String| s@) == views,
            sorted@.len() == keys@.len(),
            forall|j: int| 0 <= j < keys@.len() ==> #[trigger] keys@[j]@ == sorted@[j]@,
            sorted@.map_values(|s: String| s@) == sort_by_name(views.take(i as int)),
        decreases n - i,
    {
        let x = rest[i].clone();
        let xk = chars_of(x.as_str());
        let m = sorted.len();
        let mut p: usize = 0;
        let ghost cur = sorted@.map_values(|s: String| s@);
        while p < m && !name_less(&xk, &keys[p])
            invariant
                p <= m,
                m == sorted@.len(),
                m == keys@.len(),
                cur == sorted@.map_values(|s: String| s@),
                forall|j: int| 0 <= j < keys@.len() ==> #[trigger] keys@[j]@ == sorted@[j]@,
                forall|j: int| 0 <= j < p ==> !name_lt(xk@, cur[j]),
            decreases m - p,
        {
            assert(cur[p as int] == keys@[p as int]@);
            p = p + 1;
        }
        if p < m {
            assert(cur[p as int] == keys@[p as int]@);
        }
        proof {
            lemma_insert_at(cur, xk@, p as int);
        }
        let ghost xv = xk@;
        let ghost old_keys = keys@;
        let ghost old_sorted = sorted@;
        sorted.insert(p, x);
        keys.insert(p, xk);
        assert(sorted@.map_values(|s: String| s@) =~= cur.insert(p as int, xv));
        assert forall|j: int| 0 <= j < keys@.len() implies #[trigger] keys@[j]@ == sorted@[j]@ by {
            if j < p {
                assert(keys@[j] == old_keys[j]);
                assert(sorted@[j] == old_sorted[j]);
                assert(old_keys[j]@ == old_sorted[j]@);
            } else if j > p {
                assert(keys@[j] == old_keys[j - 1]);
                assert(sorted@[j] == old_sorted[j - 1]);
                assert(old_keys[j - 1]@ == old_sorted[j - 1]@);
            }
        }
        assert(views.take(i + 1).drop_last() =~= views.take(i as int));
        assert(views.take(i + 1).last() == xv);
        i = i + 1;
    }
    assert(views.take(n as int) =~= views);
    let ghost all = sort_by_name(views);
    let mut r: Vec<String> = Vec::new();
    let k = sorted.len();
    for j in 0..k
        invariant
            k == sorted@.len(),
            sorted@.map_values(|s: String| s@) == all,
            r@.map_values(|s: String| s@) == report_names(all.take(j as int)),
    {
        assert(all.take(j + 1).drop_last() =~= all.take(j as int));
        assert(all.take(j + 1).last() == sorted@[j as int]@);
        let ghost before = r@.map_values(|s: String| s@);
        if is_report_file_name(sorted[j].as_str()) {
            r.push(sorted[j].clone());
            assert(r@.map_values(|s: String| s@) =~= before.push(sorted@[j as int]@));
        }
    }
    assert(all.take(k as int) =~= all);
    r
}

// ---------------------------------------------------------------------------
// Laws of the selection.
// ---------------------------------------------------------------------------

/// The names are in report order: no name sorts before one that comes earlier.
pub open spec fn sorted_by_name(s: Seq<Seq<char>>) -> bool {
    forall|i: int, j: int| 0 <= i < j < s.len() ==> !name_lt(s[j], s[i])
}

pub proof fn lemma_name_lt_irreflexive(a: Seq<char>)
    ensures
        !name_lt(a, a),
    decreases a.len(),
{
    if a.len() > 0 {
        lemma_name_lt_irreflexive(a.drop_first());
    }
}

pub proof fn lemma_name_lt_transitive(a: Seq<char>, b: Seq<char>, c: Seq<char>)
    requires
        name_lt(a, b),
        name_lt(b, c),
    ensures
        name_lt(a, c),
    decreases a.len(),
{
    if a.len() > 0 && b.len() > 0 && c.len() > 0 && a[0] == b[0] && b[0] == c[0] {
        lemma_name_lt_transitive(a.drop_first(), b.drop_first(), c.drop_first());
    }
}

pub proof fn lemma_name_lt_total(a: Seq<char>, b: Seq<char>)
    ensures
        name_lt(a, b) || name_lt(b, a) || a == b,
    decreases a.len(),
{
    if a.len() == 0 && b.len() == 0 {
        assert(a =~= b);
    } else if a.len() > 0 && b.len() > 0 && a[0] == b[0] {
        lemma_name_lt_total(a.drop_first(), b.drop_first());
        if a.drop_first() == b.drop_first() {
            assert(a =~= seq![a[0]] + a.drop_first());
            assert(b =~= seq![b[0]] + b.drop_first());
        }
    }
}

proof fn lemma_insert_exists(s: Seq<Seq<char>>, x: Seq<char>) -> (p: int)
    ensures
        0 <= p <= s.len(),
        insert_by_name(s, x) == s.insert(p, x),
    decreases s.len(),
{
    if s.len() == 0 {
        assert(s.insert(0, x) =~= seq![x]);
        0
    } else if name_lt(x, s[0]) {
        assert(s.insert(0, x) =~= seq![x] + s);
        0
    } else {
        let t = s.drop_first();
        let q = lemma_insert_exists(t, x);
        assert(seq![s[0]] + t.insert(q, x) =~= s.insert(q + 1, x));
        q + 1
    }
}

proof fn lemma_insert_sorted(s: Seq<Seq<char>>, x: Seq<char>)
    requires
        sorted_by_name(s),
    ensures
        sorted_by_name(insert_by_name(s, x)),
    decreases s.len(),
{
    if s.len() == 0 {
    } else if name_lt(x, s[0]) {
        let r = seq![x] + s;
        assert forall|i: int, j: int| 0 <= i < j < r.len() implies !name_lt(r[j], r[i]) by {
            if i == 0 {
                if name_lt(r[j], x) {
                    if j == 1 {
                        lemma_name_lt_transitive(s[0], x, s[0]);
                        lemma_name_lt_irreflexive(s[0]);
                    } else {
                        lemma_name_lt_transitive(s[j - 1], x, s[0]);
                    }
                }
            } else {
                assert(r[j] == s[j - 1] && r[i] == s[i - 1]);
            }
        }
    } else {
        let t = s.drop_first();
        assert(sorted_by_name(t)) by {
            assert forall|i: int, j: int| 0 <= i < j < t.len() implies !name_lt(t[j], t[i]) by {
                assert(t[j] == s[j + 1] && t[i] == s[i + 1]);
            }
        }
        lemma_insert_sorted(t, x);
        let q = lemma_insert_exists(t, x);
        let rt = insert_by_name(t, x);
        let r = seq![s[0]] + rt;
        assert forall|i: int, j: int| 0 <= i < j < r.len() implies !name_lt(r[j], r[i]) by {
            if i == 0 {
                let k = j - 1;
                assert(r[j] == rt[k]);
                assert(rt == t.insert(q, x));
                if k < q {
                    assert(rt[k] == t[k]);
                    assert(t[k] == s[k + 1]);
                } else if k > q {
                    assert(rt[k] == t[k - 1]);
                    assert(t[k - 1] == s[k]);
                }
            } else {
                assert(r[j] == rt[j - 1] && r[i] == rt[i - 1]);
            }
        }
    }
}

/// Sorting keeps every name, as often as it occurs, and puts them in report
/// order.
pub proof fn law_sort_is_sorted_permutation(s: Seq<Seq<char>>)
    ensures
        sorted_by_name(sort_by_name(s)),
        sort_by_name(s).to_multiset() == s.to_multiset(),
    decreases s.len(),
{
    broadcast use vstd::seq_lib::to_multiset_build, vstd::seq_lib::to_multiset_insert;

    if s.len() == 0 {
        assert(s =~= Seq::<Seq<char>>::empty());
    } else {
        let s1 = s.drop_last();
        law_sort_is_sorted_permutation(s1);
        lemma_insert_sorted(sort_by_name(s1), s.last());
        let p = lemma_insert_exists(sort_by_name(s1), s.last());
        assert(s1.push(s.last()) =~= s);
        assert(sort_by_name(s) == sort_by_name(s1).insert(p, s.last()));
        assert(sort_by_name(s1).insert(p, s.last()).to_multiset() == sort_by_name(
            s1,
        ).to_multiset().insert(s.last()));
        assert(s1.push(s.last()).to_multiset() == s1.to_multiset().insert(s.last()));
    }
}

proof fn lemma_report_names_members(s: Seq<Seq<char>>, x: Seq<char>)
    ensures
        report_names(s).contains(x) ==> s.contains(x) && is_report_name(x),
    decreases s.len(),
{
    if s.len() > 0 {
        lemma_report_names_members(s.drop_last(), x);
        if report_names(s).contains(x) {
            let r = report_names(s.drop_last());
            if is_report_name(s.last()) && x == s.last() {
                assert(s[s.len() - 1] == x);
            } else {
                if is_report_name(s.last()) {
                    let k = choose|k: int| 0 <= k < r.push(s.last()).len() && r.push(s.last())[k] == x;
                    assert(r[k] == x);
                }
                let k = choose|k: int| 0 <= k < s.drop_last().len() && s.drop_last()[k] == x;
                assert(s[k] == x);
            }
        }
    }
}

proof fn lemma_report_names_sorted(s: Seq<Seq<char>>)
    requires
        sorted_by_name(s),
    ensures
        sorted_by_name(report_names(s)),
    decreases s.len(),
{
    if s.len() > 0 {
        let s1 = s.drop_last();
        assert(sorted_by_name(s1)) by {
            assert forall|i: int, j: int| 0 <= i < j < s1.len() implies !name_lt(s1[j], s1[i]) by {
                assert(s1[j] == s[j] && s1[i] == s[i]);
            }
        }
        lemma_report_names_sorted(s1);
        if is_report_name(s.last()) {
            let r = report_names(s1);
            let rr = r.push(s.last());
            assert forall|i: int, j: int| 0 <= i < j < rr.len() implies !name_lt(rr[j], rr[i]) by {
                if j == rr.len() - 1 {
                    assert(r.contains(rr[i]));
                    lemma_report_names_members(s1, rr[i]);
                    let k = choose|k: int| 0 <= k < s1.len() && s1[k] == rr[i];
                    assert(s[k] == rr[i]);
                    assert(s[s.len() - 1] == rr[j]);
                } else {
                    assert(rr[j] == r[j] && rr[i] == r[i]);
                }
            }
        }
    }
}

proof fn lemma_report_names_counts(s: Seq<Seq<char>>, x: Seq<char>)
    ensures
        report_names(s).to_multiset().count(x) == if is_report_name(x) {
            s.to_multiset().count(x)
        } else {
            0
        },
    decreases s.len(),
{
    broadcast use vstd::seq_lib::to_multiset_build;
    broadcast use vstd::multiset::group_multiset_axioms;

    if s.len() == 0 {
        assert(s =~= Seq::<Seq<char>>::empty());
        assert(report_names(s) =~= Seq::<Seq<char>>::empty());
        s.to_multiset_ensures();
        assert(!s.contains(x));
    } else {
        let s1 = s.drop_last();
        lemma_report_names_counts(s1, x);
        assert(s1.push(s.last()) =~= s);
        assert(s1.push(s.last()).to_multiset() == s1.to_multiset().insert(s.last()));
        let r1 = report_names(s1);
        if is_report_name(s.last()) {
            assert(r1.push(s.last()).to_multiset() == r1.to_multiset().insert(s.last()));
        }
    }
}

/// The master report is made of every report file in the folder, each once,
/// in report order, and of nothing else.
pub proof fn law_selection_complete_and_ordered(names: Seq<Seq<char>>)
    ensures
        sorted_by_name(selected_reports(names)),
        forall|x: Seq<char>|
            #[trigger] selected_reports(names).to_multiset().count(x) == if is_report_name(x) {
                names.to_multiset().count(x)
            } else {
                0
            },
{
    law_sort_is_sorted_permutation(names);
    lemma_report_names_sorted(sort_by_name(names));
    assert forall|x: Seq<char>|
        #[trigger] selected_reports(names).to_multiset().count(x) == if is_report_name(x) {
            names.to_multiset().count(x)
        } else {
            0
        } by {
        lemma_report_names_counts(sort_by_name(names), x);
    }
}

/// The master report is made of exactly the files whose extension, ASCII-lower-
/// cased, is txt, xls, xlsx, csv, html or htm, each as often as it is listed,
/// sorted by name: a file of any other type (a `.docx`, a `.pdf`) never is.
pub proof fn law_selection_by_type(names: Seq<Seq<char>>)
    ensures
        sorted_by_name(selected_reports(names)),
        forall|x: Seq<char>|
            #[trigger] selected_reports(names).to_multiset().count(x) == if match path_extension(
                x,
            ) {
                Some(e) => {
                    let l = ascii_lower_all(e);
                    ||| l == "txt"@
                    ||| l == "xls"@
                    ||| l == "xlsx"@
                    ||| l == "csv"@
                    ||| l == "html"@
                    ||| l == "htm"@
                },
                None => false,
            } {
                names.to_multiset().count(x)
            } else {
                0
            },
{
    law_selection_complete_and_ordered(names);
    assert forall|x: Seq<char>| #[trigger]
        selected_reports(names).to_multiset().count(x) == if match path_extension(x) {
            Some(e) => {
                let l = ascii_lower_all(e);
                ||| l == "txt"@
                ||| l == "xls"@
                ||| l == "xlsx"@
                ||| l == "csv"@
                ||| l == "html"@
                ||| l == "htm"@
            },
            None => false,
        } {
            names.to_multiset().count(x)
        } else {
            0
        } by {
        law_report_types(x);
    }
}

proof fn lemma_name_lt_by_chars(a: Seq<char>, b: Seq<char>)
    requires
        name_lt(a, b) || a == b,
    ensures
        a.is_prefix_of(b) || exists|k: int|
            0 <= k < a.len() && k < b.len() && a.take(k) == b.take(k) && #[trigger] a[k] < b[k],
    decreases a.len(),
{
    if a == b || a.len() == 0 {
        assert(b.subrange(0, a.len() as int) =~= a);
    } else if a[0] != b[0] {
        assert(a.take(0) =~= b.take(0));
        assert(a[0] < b[0]);
    } else {
        let a1 = a.drop_first();
        let b1 = b.drop_first();
        lemma_name_lt_by_chars(a1, b1);
        if a1.is_prefix_of(b1) {
            assert forall|t: int| 0 <= t < a.len() implies b.subrange(0, a.len() as int)[t]
                == a[t] by {
                if t > 0 {
                    assert(b1.subrange(0, a1.len() as int)[t - 1] == a1[t - 1]);
                }
            }
            assert(b.subrange(0, a.len() as int) =~= a);
        } else {
            let k1 = choose|k: int|
                0 <= k < a1.len() && k < b1.len() && a1.take(k) == b1.take(k) && #[trigger] a1[k]
                    < b1[k];
            assert(a.take(k1 + 1) =~= seq![a[0]] + a1.take(k1));
            assert(b.take(k1 + 1) =~= seq![b[0]] + b1.take(k1));
            assert(a[k1 + 1] == a1[k1] && b[k1 + 1] == b1[k1]);
        }
    }
}

/// The files of the master report come in the order of their names, compared
/// character by character: of two files, the earlier one's name is a prefix of
/// the later one's, or, at the first place where the names differ, the earlier
/// one has the smaller character.
pub proof fn law_selection_in_name_order(names: Seq<Seq<char>>)
    ensures
        forall|i: int, j: int|
            #![trigger selected_reports(names)[i], selected_reports(names)[j]]
            0 <= i < j < selected_reports(names).len() ==> {
                let a = selected_reports(names)[i];
                let b = selected_reports(names)[j];
                a.is_prefix_of(b) || exists|k: int|
                    0 <= k < a.len() && k < b.len() && a.take(k) == b.take(k) && #[trigger] a[k]
                        < b[k]
            },
{
    let sel = selected_reports(names);
    law_selection_complete_and_ordered(names);
    assert forall|i: int, j: int| #![trigger sel[i], sel[j]] 0 <= i < j < sel.len() implies {
        let a = sel[i];
        let b = sel[j];
        a.is_prefix_of(b) || exists|k: int|
            0 <= k < a.len() && k < b.len() && a.take(k) == b.take(k) && #[trigger] a[k] < b[k]
    } by {
        assert(!name_lt(sel[j], sel[i]));
        lemma_name_lt_total(sel[i], sel[j]);
        lemma_name_lt_by_chars(sel[i], sel[j]);
    }
}

} // verus!
