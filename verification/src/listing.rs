//! Listing assembly and ordering: the comparator a pane sorts under, a
//! permutation sort against it, and the default listing a directory read
//! turns into.
use crate::item::{parent_marker, FileItem, ItemModel};
use crate::text::{ci_le, ci_le_str, lemma_lex_le_total, lemma_lex_le_trans};
use vstd::multiset::Multiset;
use vstd::prelude::*;
use vstd::string::*;

verus! {

/// Which column a pane orders its entries by.
#[derive(Clone, Copy, Debug, PartialEq, Eq, Structural)]
pub enum SortBy {
    Name,
    Size,
    Date,
}

/// Direction of the active ordering.
#[derive(Clone, Copy, Debug, PartialEq, Eq, Structural)]
pub enum SortOrder {
    Ascending,
    Descending,
}

/// "`a` may come before `b`" under the given column and direction. Under
/// `Name`, directories come before files whatever the direction, and the
/// direction only turns the case-insensitive name order among entries of one
/// kind; under `Size` and `Date` the direction turns the plain numeric order.
pub open spec fn item_le(sort_by: SortBy, order: SortOrder, a: ItemModel, b: ItemModel) -> bool {
    match sort_by {
        SortBy::Name => {
            if a.is_dir != b.is_dir {
                a.is_dir
            } else if order == SortOrder::Ascending {
                ci_le(a.name, b.name)
            } else {
                ci_le(b.name, a.name)
            }
        },
        SortBy::Size => {
            if order == SortOrder::Ascending {
                a.size <= b.size
            } else {
                b.size <= a.size
            }
        },
        SortBy::Date => {
            if order == SortOrder::Ascending {
                a.modified <= b.modified
            } else {
                b.modified <= a.modified
            }
        },
    }
}

/// Any two entries are ordered one way or the other.
pub proof fn lemma_item_le_total(sort_by: SortBy, order: SortOrder, a: ItemModel, b: ItemModel)
    ensures
        item_le(sort_by, order, a, b) || item_le(sort_by, order, b, a),
{
    if sort_by == SortBy::Name && a.is_dir == b.is_dir {
        lemma_lex_le_total(crate::text::lower_of(a.name), crate::text::lower_of(b.name));
    }
}

/// The order is transitive.
pub proof fn lemma_item_le_trans(
    sort_by: SortBy,
    order: SortOrder,
    a: ItemModel,
    b: ItemModel,
    c: ItemModel,
)
    requires
        item_le(sort_by, order, a, b),
        item_le(sort_by, order, b, c),
    ensures
        item_le(sort_by, order, a, c),
{
    if sort_by == SortBy::Name && a.is_dir == b.is_dir && b.is_dir == c.is_dir {
        if order == SortOrder::Ascending {
            lemma_lex_le_trans(
                crate::text::lower_of(a.name),
                crate::text::lower_of(b.name),
                crate::text::lower_of(c.name),
            );
        } else {
            lemma_lex_le_trans(
                crate::text::lower_of(c.name),
                crate::text::lower_of(b.name),
                crate::text::lower_of(a.name),
            );
        }
    }
}

/// Decides `item_le` on two entries.
pub fn item_le_exec(sort_by: SortBy, order: SortOrder, a: &FileItem, b: &FileItem) -> (r: bool)
    ensures
        r == item_le(sort_by, order, a@, b@),
{
    match sort_by {
        SortBy::Name => {
            if a.is_dir != b.is_dir {
                a.is_dir
            } else if matches!(order, SortOrder::Ascending) {
                ci_le_str(a.name.as_str(), b.name.as_str())
            } else {
                ci_le_str(b.name.as_str(), a.name.as_str())
            }
        },
        SortBy::Size => {
            if matches!(order, SortOrder::Ascending) {
                a.size <= b.size
            } else {
                b.size <= a.size
            }
        },
        SortBy::Date => {
            if matches!(order, SortOrder::Ascending) {
                a.modified <= b.modified
            } else {
                b.modified <= a.modified
            }
        },
    }
}

/// Every pair of entries stands in order.
pub open spec fn sorted_items(s: Seq<FileItem>, sort_by: SortBy, order: SortOrder) -> bool {
    forall|i: int, j: int|
        0 <= i < j < s.len() ==> item_le(sort_by, order, s[i]@, s[j]@)
}

/// The entry at `m` may come before every entry of `s`.
pub open spec fn dominates(s: Seq<FileItem>, m: int, sort_by: SortBy, order: SortOrder) -> bool {
    forall|t: int| 0 <= t < s.len() ==> item_le(sort_by, order, s[m]@, (#[trigger] s[t])@)
}

/// Index of the first entry that may come before every entry of `s`: the
/// entry a stable sort emits next.
pub open spec fn first_min(s: Seq<FileItem>, sort_by: SortBy, order: SortOrder) -> int
    decreases s.len(),
    when s.len() >= 1
{
    if s.len() == 1 {
        0
    } else {
        let r = 1 + first_min(s.drop_first(), sort_by, order);
        if item_le(sort_by, order, s[0]@, s[r]@) {
            0
        } else {
            r
        }
    }
}

/// What `first_min` finds: an in-range index that dominates the whole list,
/// before which no index does.
pub proof fn lemma_first_min_props(s: Seq<FileItem>, sort_by: SortBy, order: SortOrder)
    requires
        s.len() >= 1,
    ensures
        0 <= first_min(s, sort_by, order) < s.len(),
        dominates(s, first_min(s, sort_by, order), sort_by, order),
        forall|q: int| 0 <= q < first_min(s, sort_by, order) ==> !dominates(s, q, sort_by, order),
    decreases s.len(),
{
    let m = first_min(s, sort_by, order);
    if s.len() == 1 {
        lemma_item_le_total(sort_by, order, s[0]@, s[0]@);
    } else {
        let tail = s.drop_first();
        lemma_first_min_props(tail, sort_by, order);
        let r0 = first_min(tail, sort_by, order);
        let r = 1 + r0;
        assert(forall|t: int| 0 <= t < tail.len() ==> tail[t] == s[t + 1]);
        if item_le(sort_by, order, s[0]@, s[r]@) {
            assert(m == 0);
            assert forall|t: int| 0 <= t < s.len() implies item_le(
                sort_by,
                order,
                s[m]@,
                (#[trigger] s[t])@,
            ) by {
                if t == 0 {
                    lemma_item_le_total(sort_by, order, s[0]@, s[0]@);
                } else {
                    assert(item_le(sort_by, order, tail[r0]@, tail[t - 1]@));
                    lemma_item_le_trans(sort_by, order, s[0]@, s[r]@, s[t]@);
                }
            }
        } else {
            assert(m == r);
            lemma_item_le_total(sort_by, order, s[0]@, s[r]@);
            assert forall|t: int| 0 <= t < s.len() implies item_le(
                sort_by,
                order,
                s[m]@,
                (#[trigger] s[t])@,
            ) by {
                if t >= 1 {
                    assert(item_le(sort_by, order, tail[r0]@, tail[t - 1]@));
                }
            }
            assert forall|q: int| 0 <= q < m implies !dominates(s, q, sort_by, order) by {
                if q == 0 {
                    assert(!item_le(sort_by, order, s[0]@, s[r]@));
                } else {
                    assert(!dominates(tail, q - 1, sort_by, order));
                    let w = choose|w: int|
                        0 <= w < tail.len() && !item_le(sort_by, order, tail[q - 1]@, (#[trigger] tail[w])@);
                    assert(!item_le(sort_by, order, s[q]@, s[w + 1]@));
                }
            }
        }
    }
}

/// The one stable ordering of a listing: the first entry that may come
/// before all the others is emitted, then the rest likewise, so entries the
/// comparator cannot tell apart keep the order they were given in.
pub open spec fn sel_sort(s: Seq<FileItem>, sort_by: SortBy, order: SortOrder) -> Seq<FileItem>
    decreases s.len(),
    via sel_sort_decreases
{
    if s.len() == 0 {
        Seq::empty()
    } else {
        let m = first_min(s, sort_by, order);
        seq![s[m]] + sel_sort(s.remove(m), sort_by, order)
    }
}

#[via_fn]
proof fn sel_sort_decreases(s: Seq<FileItem>, sort_by: SortBy, order: SortOrder) {
    if s.len() > 0 {
        lemma_first_min_props(s, sort_by, order);
    }
}

/// The lister's default ordering: directories before files, then
/// case-insensitive name ascending.
pub open spec fn default_order(children: Seq<FileItem>) -> Seq<FileItem> {
    sel_sort(children, SortBy::Name, SortOrder::Ascending)
}

/// What `sel_sort` yields: a listing of the same length holding exactly the
/// entries given, every pair in order.
pub proof fn lemma_sel_sort_props(s: Seq<FileItem>, sort_by: SortBy, order: SortOrder)
    ensures
        sel_sort(s, sort_by, order).len() == s.len(),
        sel_sort(s, sort_by, order).to_multiset() == s.to_multiset(),
        sorted_items(sel_sort(s, sort_by, order), sort_by, order),
    decreases s.len(),
{
    broadcast use vstd::multiset::group_multiset_axioms;

    if s.len() == 0 {
        assert(s =~= Seq::<FileItem>::empty());
        assert(sel_sort(s, sort_by, order) =~= s);
    } else {
        lemma_first_min_props(s, sort_by, order);
        let m = first_min(s, sort_by, order);
        let x = s[m];
        let rest = s.remove(m);
        lemma_sel_sort_props(rest, sort_by, order);
        let out = sel_sort(s, sort_by, order);
        assert(out == seq![x] + sel_sort(rest, sort_by, order));
        vstd::seq_lib::lemma_multiset_commutative(seq![x], sel_sort(rest, sort_by, order));
        assert(seq![x].to_multiset() =~= Multiset::<FileItem>::empty().insert(x)) by {
            vstd::seq_lib::to_multiset_build(Seq::<FileItem>::empty(), x);
            vstd::seq_lib::to_multiset_len(Seq::<FileItem>::empty());
            vstd::multiset::lemma_multiset_empty_len(Seq::<FileItem>::empty().to_multiset());
            assert(seq![x] =~= Seq::<FileItem>::empty().push(x));
        }
        vstd::seq_lib::to_multiset_remove(s, m);
        vstd::seq_lib::to_multiset_contains(s, x);
        assert(out.to_multiset() =~= s.to_multiset()) by {
            assert(out.to_multiset() == seq![x].to_multiset().add(rest.to_multiset()));
            assert(rest.to_multiset() == s.to_multiset().remove(x));
            assert(s.contains(x));
        }
        lemma_perm_contains(sel_sort(rest, sort_by, order), rest);
        assert forall|i: int, j: int|
            0 <= i < j < out.len() implies item_le(sort_by, order, out[i]@, out[j]@) by {
            if i == 0 {
                assert(out[j] == sel_sort(rest, sort_by, order)[j - 1]);
                assert(rest.contains(out[j]));
                let w = choose|w: int| 0 <= w < rest.len() && rest[w] == out[j];
                assert(rest[w] == s[if w < m {
                    w
                } else {
                    w + 1
                }]);
                assert(item_le(sort_by, order, x@, out[j]@));
            } else {
                assert(out[i] == sel_sort(rest, sort_by, order)[i - 1]);
                assert(out[j] == sel_sort(rest, sort_by, order)[j - 1]);
            }
        }
    }
}

/// Sorting an already ordered listing changes nothing.
pub proof fn lemma_sel_sort_of_sorted(s: Seq<FileItem>, sort_by: SortBy, order: SortOrder)
    requires
        sorted_items(s, sort_by, order),
    ensures
        sel_sort(s, sort_by, order) == s,
    decreases s.len(),
{
    if s.len() == 0 {
        assert(sel_sort(s, sort_by, order) =~= s);
    } else {
        lemma_first_min_props(s, sort_by, order);
        assert forall|t: int| 0 <= t < s.len() implies item_le(
            sort_by,
            order,
            s[0]@,
            (#[trigger] s[t])@,
        ) by {
            if t == 0 {
                lemma_item_le_total(sort_by, order, s[0]@, s[0]@);
            }
        }
        assert(dominates(s, 0, sort_by, order));
        let m = first_min(s, sort_by, order);
        if m > 0 {
            assert(!dominates(s, 0, sort_by, order));
        }
        assert(m == 0);
        let rest = s.remove(0);
        assert(rest =~= s.drop_first());
        assert forall|i: int, j: int|
            0 <= i < j < rest.len() implies item_le(sort_by, order, rest[i]@, rest[j]@) by {
            assert(rest[i] == s[i + 1]);
            assert(rest[j] == s[j + 1]);
        }
        lemma_sel_sort_of_sorted(rest, sort_by, order);
        assert(sel_sort(s, sort_by, order) =~= s);
    }
}

/// Some entry of the first `j` beats `q`: the entry at `q` may not come
/// before it.
spec fn beaten_by_prefix(
    s: Seq<FileItem>,
    q: int,
    j: int,
    sort_by: SortBy,
    order: SortOrder,
) -> bool {
    exists|t: int| 0 <= t < j && !item_le(sort_by, order, s[q]@, (#[trigger] s[t])@)
}

/// Finds `first_min` of the entries.
fn min_index(v: &Vec<FileItem>, sort_by: SortBy, order: SortOrder) -> (r: usize)
    requires
        v@.len() > 0,
    ensures
        r < v@.len(),
        forall|t: int| 0 <= t < v@.len() ==> item_le(sort_by, order, v@[r as int]@, (#[trigger] v@[t])@),
        r == first_min(v@, sort_by, order),
{
    let ghost s = v@;
    let n = v.len();
    let mut best: usize = 0;
    let mut j: usize = 1;
    proof {
        lemma_item_le_total(sort_by, order, s[0]@, s[0]@);
    }
    while j < n
        invariant
            best < j <= n,
            n == s.len(),
            s == v@,
            forall|t: int| 0 <= t < j ==> item_le(sort_by, order, s[best as int]@, (#[trigger] s[t])@),
            forall|q: int|
                0 <= q < best ==> #[trigger] beaten_by_prefix(s, q, j as int, sort_by, order),
        decreases n - j,
    {
        let ghost b0 = best as int;
        let ghost j0 = j as int;
        if !item_le_exec(sort_by, order, &v[best], &v[j]) {
            proof {
                lemma_item_le_total(sort_by, order, s[b0]@, s[j0]@);
                assert(item_le(sort_by, order, s[j0]@, s[b0]@));
                assert forall|t: int| 0 <= t <= j0 implies item_le(
                    sort_by,
                    order,
                    s[j0]@,
                    (#[trigger] s[t])@,
                ) by {
                    if t < j0 {
                        lemma_item_le_trans(sort_by, order, s[j0]@, s[b0]@, s[t]@);
                    } else {
                        lemma_item_le_total(sort_by, order, s[j0]@, s[j0]@);
                    }
                }
                assert forall|q: int| 0 <= q < j0 implies #[trigger] beaten_by_prefix(
                    s,
                    q,
                    j0 + 1,
                    sort_by,
                    order,
                ) by {
                    if q < b0 {
                        assert(beaten_by_prefix(s, q, j0, sort_by, order));
                        let w = choose|t: int|
                            0 <= t < j0 && !item_le(sort_by, order, s[q]@, (#[trigger] s[t])@);
                        assert(!item_le(sort_by, order, s[q]@, s[w]@));
                    } else if q == b0 {
                        assert(!item_le(sort_by, order, s[q]@, s[j0]@));
                    } else {
                        // `best` may come before `q`; if `q` came before `j`
                        // too, `best` would come before `j` by transitivity.
                        assert(item_le(sort_by, order, s[b0]@, s[q]@));
                        if item_le(sort_by, order, s[q]@, s[j0]@) {
                            lemma_item_le_trans(sort_by, order, s[b0]@, s[q]@, s[j0]@);
                            assert(false);
                        }
                        assert(!item_le(sort_by, order, s[q]@, s[j0]@));
                    }
                }
            }
            best = j;
        } else {
            proof {
                assert forall|q: int| 0 <= q < b0 implies #[trigger] beaten_by_prefix(
                    s,
                    q,
                    j0 + 1,
                    sort_by,
                    order,
                ) by {
                    assert(beaten_by_prefix(s, q, j0, sort_by, order));
                    let w = choose|t: int|
                        0 <= t < j0 && !item_le(sort_by, order, s[q]@, (#[trigger] s[t])@);
                    assert(!item_le(sort_by, order, s[q]@, s[w]@));
                }
            }
        }
        j = j + 1;
    }
    proof {
        lemma_first_min_props(s, sort_by, order);
        let m = first_min(s, sort_by, order);
        if (best as int) < m {
            assert(!dominates(s, best as int, sort_by, order));
            assert(dominates(s, best as int, sort_by, order));
        }
        if (best as int) > m {
            assert(beaten_by_prefix(s, m, n as int, sort_by, order));
            let w = choose|t: int|
                0 <= t < n && !item_le(sort_by, order, s[m]@, (#[trigger] s[t])@);
            assert(item_le(sort_by, order, s[m]@, s[w]@));
        }
    }
    best
}

/// Sorts entries under the given column and direction: the result is ordered
/// and holds exactly the entries given, multiplicity included.
pub fn sort_entries(items: Vec<FileItem>, sort_by: SortBy, order: SortOrder) -> (r: Vec<FileItem>)
    ensures
        r@ == sel_sort(items@, sort_by, order),
        r@.to_multiset() == items@.to_multiset(),
        r@.len() == items@.len(),
        sorted_items(r@, sort_by, order),
{
    broadcast use vstd::seq_lib::group_to_multiset_ensures;

    let mut rest = items;
    let mut out: Vec<FileItem> = Vec::new();
    let ghost s0 = rest@;
    let ghost m0 = rest@.to_multiset();
    let ghost n0 = rest@.len();
    proof {
        assert(out@.to_multiset().add(rest@.to_multiset()) =~= m0);
        assert(sel_sort(s0, sort_by, order) =~= out@ + sel_sort(rest@, sort_by, order));
    }
    while rest.len() > 0
        invariant
            out@.to_multiset().add(rest@.to_multiset()) == m0,
            out@.len() + rest@.len() == n0,
            sel_sort(s0, sort_by, order) == out@ + sel_sort(rest@, sort_by, order),
            sorted_items(out@, sort_by, order),
            forall|i: int, j: int|
                0 <= i < out@.len() && 0 <= j < rest@.len() ==> item_le(
                    sort_by,
                    order,
                    out@[i]@,
                    rest@[j]@,
                ),
        decreases rest@.len(),
    {
        let k = min_index(&rest, sort_by, order);
        let ghost rest0 = rest@;
        let ghost out0 = out@;
        let x = rest.remove(k);
        proof {
            assert(rest0[k as int] == x);
            vstd::seq_lib::to_multiset_remove(rest0, k as int);
        }
        out.push(x);
        proof {
            broadcast use vstd::multiset::group_multiset_axioms;

            assert(out@ =~= out0.push(x));
            vstd::seq_lib::to_multiset_build(out0, x);
            assert(out@.to_multiset() == out0.to_multiset().insert(x));
            assert(out@.to_multiset().add(rest@.to_multiset()) =~= m0) by {
                vstd::seq_lib::to_multiset_contains(rest0, x);
                assert(rest0.contains(x));
                assert(rest0.to_multiset().count(x) > 0);
                assert(out0.to_multiset().insert(x).add(rest0.to_multiset().remove(x)) =~= out0
                    .to_multiset()
                    .add(rest0.to_multiset()));
            }
            assert forall|i: int, j: int|
                0 <= i < j < out@.len() implies item_le(sort_by, order, out@[i]@, out@[j]@) by {
                if j < out@.len() - 1 {
                    assert(item_le(sort_by, order, out0[i]@, out0[j]@) ==> item_le(
                        sort_by,
                        order,
                        out@[i]@,
                        out@[j]@,
                    ));
                } else {
                    assert(out@[j] == x);
                    assert(item_le(sort_by, order, out0[i]@, rest0[k as int]@));
                }
            }
            assert forall|i: int, j: int|
                0 <= i < out@.len() && 0 <= j < rest@.len() implies item_le(
                sort_by,
                order,
                out@[i]@,
                rest@[j]@,
            ) by {
                assert(rest@[j] == rest0[if j < k { j } else { j + 1 }]);
            }
            assert(sel_sort(rest0, sort_by, order) =~= seq![x] + sel_sort(
                rest@,
                sort_by,
                order,
            ));
            assert(out@ + sel_sort(rest@, sort_by, order) =~= out0 + sel_sort(
                rest0,
                sort_by,
                order,
            ));
        }
    }
    proof {
        assert(rest@.to_multiset() =~= Multiset::<FileItem>::empty());
        assert(out@.to_multiset() =~= m0);
        assert(sel_sort(rest@, sort_by, order) =~= Seq::<FileItem>::empty());
        assert(out@ =~= sel_sort(s0, sort_by, order));
    }
    out
}

/// The result lists exactly `children`, ordered, with the parent marker in
/// front exactly when one was asked for.
pub open spec fn is_listing_of(
    result: Seq<FileItem>,
    children: Seq<FileItem>,
    sort_by: SortBy,
    order: SortOrder,
    with_parent: bool,
) -> bool {
    if with_parent {
        &&& result.len() == children.len() + 1
        &&& result[0]@ == parent_marker()
        &&& result.skip(1) == sel_sort(children, sort_by, order)
        &&& result.skip(1).to_multiset() == children.to_multiset()
        &&& sorted_items(result.skip(1), sort_by, order)
    } else {
        &&& result == sel_sort(children, sort_by, order)
        &&& result.len() == children.len()
        &&& result.to_multiset() == children.to_multiset()
        &&& sorted_items(result, sort_by, order)
    }
}

/// Orders a directory's children and, when asked, puts the parent marker in
/// front: the listing a pane displays.
pub fn assemble_listing(
    children: Vec<FileItem>,
    sort_by: SortBy,
    order: SortOrder,
    with_parent: bool,
) -> (r: Vec<FileItem>)
    ensures
        is_listing_of(r@, children@, sort_by, order, with_parent),
{
    let ghost c0 = children@;
    let mut sorted = sort_entries(children, sort_by, order);
    let ghost s0 = sorted@;
    if with_parent {
        sorted.insert(0, FileItem::parent_dir());
        proof {
            assert(sorted@.skip(1) =~= s0);
        }
    }
    sorted
}

/// Under the `Name` column, directories precede files whatever the
/// direction: in a sorted listing no file ever stands before a directory.
pub proof fn lemma_dirs_before_files(s: Seq<FileItem>, order: SortOrder)
    requires
        sorted_items(s, SortBy::Name, order),
    ensures
        forall|i: int, j: int|
            0 <= i < j < s.len() && !(#[trigger] s[i])@.is_dir ==> !(#[trigger] s[j])@.is_dir,
{
    assert forall|i: int, j: int|
        0 <= i < j < s.len() && !(#[trigger] s[i])@.is_dir implies !(#[trigger] s[j])@.is_dir by {
        assert(item_le(SortBy::Name, order, s[i]@, s[j]@));
    }
}

/// In a multiset-equal pair of listings, every entry of one occurs in the
/// other; in particular a name absent from all of one is absent from all of
/// the other.
pub proof fn lemma_perm_contains(a: Seq<FileItem>, b: Seq<FileItem>)
    requires
        a.to_multiset() == b.to_multiset(),
    ensures
        forall|i: int| 0 <= i < a.len() ==> #[trigger] b.contains(a[i]),
{
    assert forall|i: int| 0 <= i < a.len() implies #[trigger] b.contains(a[i]) by {
        vstd::seq_lib::to_multiset_contains(a, a[i]);
        vstd::seq_lib::to_multiset_contains(b, a[i]);
        assert(a.contains(a[i]));
    }
}

} // verus!
