//! The known addresses as read from storage, and the choice of those that a
//! rescan probes again.

use vstd::prelude::*;
use crate::database::entities::IpModel;
use crate::util::text::{host_name, host_string};

verus! {

/// Addresses that a rescan leaves out: those scanned longest ago.
pub const RESCAN_EXCLUDED: usize = 10_000;

/// Whether a scan time `a` is not after `b`. An address never scanned comes
/// before every scanned one.
pub open spec fn not_after(a: Option<i64>, b: Option<i64>) -> bool {
    match (a, b) {
        (None, _) => true,
        (Some(_), None) => false,
        (Some(x), Some(y)) => x <= y,
    }
}

/// Whether `rows` are in ascending order of scan time.
pub open spec fn ascending(rows: Seq<IpModel>) -> bool {
    forall|i: int, j: int|
        0 <= i <= j < rows.len() ==> not_after(
            (#[trigger] rows[i]).last_scanned,
            (#[trigger] rows[j]).last_scanned,
        )
}

/// Where a row scanned at `scanned` goes into `sorted`: behind the last row
/// that is not after it.
pub open spec fn place(sorted: Seq<IpModel>, scanned: Option<i64>) -> int
    decreases sorted.len(),
{
    if sorted.len() == 0 {
        0
    } else if not_after(sorted.last().last_scanned, scanned) {
        sorted.len() as int
    } else {
        place(sorted.drop_last(), scanned)
    }
}

/// `rows` in ascending order of scan time; rows with the same scan time keep
/// the order they had.
pub open spec fn by_last_scanned(rows: Seq<IpModel>) -> Seq<IpModel>
    decreases rows.len(),
{
    if rows.len() == 0 {
        Seq::empty()
    } else {
        let sorted = by_last_scanned(rows.drop_last());
        sorted.insert(place(sorted, rows.last().last_scanned), rows.last())
    }
}

/// The rows that a rescan probes: all but the 10,000 scanned longest ago.
pub open spec fn rescanned(rows: Seq<IpModel>) -> Seq<IpModel> {
    let sorted = by_last_scanned(rows);
    if sorted.len() <= RESCAN_EXCLUDED {
        Seq::empty()
    } else {
        sorted.skip(RESCAN_EXCLUDED as int)
    }
}

/// The names of `rows`, each `ip:port`, in order.
pub open spec fn names_of(rows: Seq<IpModel>) -> Seq<Seq<char>> {
    rows.map_values(|row: IpModel| host_name(row.ip@, row.port as int))
}

/// Tells whether scan time `a` is not after `b`.
pub fn is_not_after(a: Option<i64>, b: Option<i64>) -> (r: bool)
    ensures
        r == not_after(a, b),
{
    match a {
        None => true,
        Some(x) => match b {
            None => false,
            Some(y) => x <= y,
        },
    }
}

/// A row with the same contents.
fn copy_of(row: &IpModel) -> (copy: IpModel)
    ensures
        copy == *row,
{
    IpModel { id: row.id, ip: row.ip.clone(), port: row.port, last_scanned: row.last_scanned }
}

/// Merges two runs that are each in ascending order into one. Of rows with
/// the same scan time those of `left` come first.
fn merge(left: &Vec<IpModel>, right: &Vec<IpModel>) -> (out: Vec<IpModel>)
    requires
        ascending(left@),
        ascending(right@),
        left@.len() + right@.len() <= usize::MAX,
    ensures
        ascending(out@),
        out@.len() == left@.len() + right@.len(),
        forall|scanned: Option<i64>| #[trigger]
            scanned_at(out@, scanned) == scanned_at(left@, scanned) + scanned_at(right@, scanned),
{
    let mut out: Vec<IpModel> = Vec::new();
    let mut i: usize = 0;
    let mut j: usize = 0;
    proof {
        assert forall|scanned: Option<i64>| #[trigger]
            scanned_at(out@, scanned) == scanned_at(left@.take(0), scanned) + scanned_at(
                right@.take(0),
                scanned,
            ) by {
            lemma_scanned_at_nothing(scanned);
            assert(out@ =~= Seq::<IpModel>::empty());
            assert(left@.take(0) =~= Seq::<IpModel>::empty());
            assert(right@.take(0) =~= Seq::<IpModel>::empty());
        }
    }
    while i < left.len() || j < right.len()
        invariant
            ascending(left@),
            ascending(right@),
            i <= left@.len(),
            j <= right@.len(),
            left@.len() + right@.len() <= usize::MAX,
            out@.len() == i + j,
            ascending(out@),
            forall|x: int|
                0 <= x < out@.len() && i < left@.len() ==> not_after(
                    (#[trigger] out@[x]).last_scanned,
                    left@[i as int].last_scanned,
                ),
            forall|x: int|
                0 <= x < out@.len() && j < right@.len() ==> not_after(
                    (#[trigger] out@[x]).last_scanned,
                    right@[j as int].last_scanned,
                ),
            forall|y: int|
                0 <= y < j && i < left@.len() ==> !not_after(
                    left@[i as int].last_scanned,
                    (#[trigger] right@[y]).last_scanned,
                ),
            forall|scanned: Option<i64>| #[trigger]
                scanned_at(out@, scanned) == scanned_at(left@.take(i as int), scanned)
                    + scanned_at(right@.take(j as int), scanned),
        decreases left@.len() - i + right@.len() - j,
    {
        let from_left: bool = j >= right.len() || (i < left.len() && is_not_after(
            left[i].last_scanned,
            right[j].last_scanned,
        ));
        let ghost before = out@;
        if from_left {
            let row = copy_of(&left[i]);
            proof {
                let taken = right@.take(j as int);
                assert forall|scanned: Option<i64>| #[trigger]
                    scanned_at(before.push(row), scanned) == scanned_at(
                        left@.take(i as int + 1),
                        scanned,
                    ) + scanned_at(taken, scanned) by {
                    assert(left@.take(i as int + 1) =~= left@.take(i as int).push(row));
                    lemma_scanned_at_push(before, row, scanned);
                    lemma_scanned_at_push(left@.take(i as int), row, scanned);
                    if row.last_scanned == scanned {
                        assert forall|y: int| 0 <= y < taken.len() implies (
                        #[trigger] taken[y]).last_scanned != scanned by {
                            assert(taken[y] == right@[y]);
                        }
                        lemma_scanned_at_none(taken, scanned);
                        assert(scanned_at(left@.take(i as int), scanned).push(row) + scanned_at(
                            taken,
                            scanned,
                        ) =~= (scanned_at(left@.take(i as int), scanned) + scanned_at(
                            taken,
                            scanned,
                        )).push(row));
                    }
                }
                lemma_push_keeps_order(before, row);
            }
            out.push(row);
            i = i + 1;
        } else {
            let row = copy_of(&right[j]);
            proof {
                assert forall|scanned: Option<i64>| #[trigger]
                    scanned_at(before.push(row), scanned) == scanned_at(
                        left@.take(i as int),
                        scanned,
                    ) + scanned_at(right@.take(j as int + 1), scanned) by {
                    assert(right@.take(j as int + 1) =~= right@.take(j as int).push(row));
                    lemma_scanned_at_push(before, row, scanned);
                    lemma_scanned_at_push(right@.take(j as int), row, scanned);
                    if row.last_scanned == scanned {
                        assert(scanned_at(left@.take(i as int), scanned) + scanned_at(
                            right@.take(j as int),
                            scanned,
                        ).push(row) =~= (scanned_at(left@.take(i as int), scanned) + scanned_at(
                            right@.take(j as int),
                            scanned,
                        )).push(row));
                    }
                }
                lemma_push_keeps_order(before, row);
            }
            out.push(row);
            j = j + 1;
        }
    }
    proof {
        assert(left@.take(left@.len() as int) =~= left@);
        assert(right@.take(right@.len() as int) =~= right@);
    }
    out
}

/// Sorts the rows from `from` up to `to`, stably, into a run of their own.
fn sort_run(rows: &Vec<IpModel>, from: usize, to: usize) -> (out: Vec<IpModel>)
    requires
        from <= to <= rows@.len(),
    ensures
        ascending(out@),
        out@.len() == to - from,
        forall|scanned: Option<i64>| #[trigger]
            scanned_at(out@, scanned) == scanned_at(
                rows@.subrange(from as int, to as int),
                scanned,
            ),
    decreases to - from,
{
    if to - from <= 1 {
        let mut out: Vec<IpModel> = Vec::new();
        if to - from == 1 {
            out.push(copy_of(&rows[from]));
        }
        assert(out@ =~= rows@.subrange(from as int, to as int));
        out
    } else {
        let middle: usize = from + (to - from) / 2;
        let left = sort_run(rows, from, middle);
        let right = sort_run(rows, middle, to);
        let out = merge(&left, &right);
        proof {
            let front = rows@.subrange(from as int, middle as int);
            let back = rows@.subrange(middle as int, to as int);
            assert(rows@.subrange(from as int, to as int) =~= front + back);
            assert forall|scanned: Option<i64>| #[trigger]
                scanned_at(out@, scanned) == scanned_at(
                    rows@.subrange(from as int, to as int),
                    scanned,
                ) by {
                lemma_scanned_at_add(front, back, scanned);
            }
        }
        out
    }
}

/// Sorts rows by scan time, ascending; rows with the same scan time keep
/// their order.
pub fn sort_by_last_scanned(rows: &Vec<IpModel>) -> (sorted: Vec<IpModel>)
    ensures
        sorted@ == by_last_scanned(rows@),
{
    let sorted = sort_run(rows, 0, rows.len());
    proof {
        assert(rows@.subrange(0, rows@.len() as int) =~= rows@);
        lemma_stable_order_is_unique(rows@, sorted@);
    }
    sorted
}

/// The names of the rows from index `from` on, each `ip:port`, in order.
pub fn names_from(rows: &Vec<IpModel>, from: usize) -> (names: Vec<String>)
    requires
        from <= rows@.len(),
    ensures
        names.deep_view() == names_of(rows@.skip(from as int)),
{
    let mut names: Vec<String> = Vec::new();
    let mut i: usize = from;
    while i < rows.len()
        invariant
            from <= i <= rows@.len(),
            names.deep_view() == names_of(rows@.subrange(from as int, i as int)),
        decreases rows@.len() - i,
    {
        let name = host_string(rows[i].ip.as_str(), rows[i].port as i64);
        proof {
            let before = rows@.subrange(from as int, i as int);
            let after = rows@.subrange(from as int, i as int + 1);
            assert(after =~= before.push(rows@[i as int]));
            assert(names_of(after) =~= names_of(before).push(name@));
            assert(names@.push(name).map_values(|s: String| s@) =~= names@.map_values(
                |s: String| s@,
            ).push(name@));
        }
        names.push(name);
        i = i + 1;
    }
    proof {
        assert(rows@.subrange(from as int, rows@.len() as int) =~= rows@.skip(from as int));
    }
    names
}

/// The names of the addresses to probe, out of all the rows of `ips`. For a
/// rescan the rows are put in ascending order of scan time, and the first
/// 10,000 of them, those scanned longest ago, are left out; otherwise every
/// row is named, in storage order.
pub fn get_all_ips(rows: &Vec<IpModel>, reping: bool) -> (names: Vec<String>)
    ensures
        names.deep_view() == names_of(
            if reping {
                rescanned(rows@)
            } else {
                rows@
            },
        ),
{
    if reping {
        let sorted = sort_by_last_scanned(rows);
        if sorted.len() <= RESCAN_EXCLUDED {
            let names: Vec<String> = Vec::new();
            assert(names.deep_view() =~= names_of(Seq::<IpModel>::empty()));
            names
        } else {
            names_from(&sorted, RESCAN_EXCLUDED)
        }
    } else {
        let names = names_from(rows, 0);
        assert(rows@.skip(0) =~= rows@);
        names
    }
}

/// Putting a row in its place keeps the rows in ascending order.
proof fn lemma_insert_keeps_order(sorted: Seq<IpModel>, row: IpModel)
    requires
        ascending(sorted),
    ensures
        0 <= place(sorted, row.last_scanned) <= sorted.len(),
        ascending(sorted.insert(place(sorted, row.last_scanned), row)),
        forall|k: int|
            place(sorted, row.last_scanned) <= k < sorted.len() ==> !not_after(
                (#[trigger] sorted[k]).last_scanned,
                row.last_scanned,
            ),
        place(sorted, row.last_scanned) > 0 ==> not_after(
            sorted[place(sorted, row.last_scanned) - 1].last_scanned,
            row.last_scanned,
        ),
    decreases sorted.len(),
{
    let at = place(sorted, row.last_scanned);
    if sorted.len() > 0 && !not_after(sorted.last().last_scanned, row.last_scanned) {
        let shorter = sorted.drop_last();
        assert(ascending(shorter)) by {
            assert forall|i: int, j: int| 0 <= i <= j < shorter.len() implies not_after(
                (#[trigger] shorter[i]).last_scanned,
                (#[trigger] shorter[j]).last_scanned,
            ) by {
                assert(shorter[i] == sorted[i] && shorter[j] == sorted[j]);
            }
        }
        lemma_insert_keeps_order(shorter, row);
        assert forall|k: int| at <= k < sorted.len() implies !not_after(
            (#[trigger] sorted[k]).last_scanned,
            row.last_scanned,
        ) by {
            if k < shorter.len() {
                assert(sorted[k] == shorter[k]);
            }
        }
        if at > 0 {
            assert(sorted[at - 1] == shorter[at - 1]);
        }
    }
    let grown = sorted.insert(at, row);
    assert forall|i: int, j: int| 0 <= i <= j < grown.len() implies not_after(
        (#[trigger] grown[i]).last_scanned,
        (#[trigger] grown[j]).last_scanned,
    ) by {
        let a = if i < at {
            sorted[i]
        } else if i == at {
            row
        } else {
            sorted[i - 1]
        };
        let b = if j < at {
            sorted[j]
        } else if j == at {
            row
        } else {
            sorted[j - 1]
        };
        assert(grown[i] == a && grown[j] == b);
        if i < at && j == at {
            assert(not_after(sorted[i].last_scanned, sorted[at - 1].last_scanned));
        } else if i == at && j > at {
            assert(!not_after(sorted[j - 1].last_scanned, row.last_scanned));
        } else if i < at && j > at {
            assert(not_after(sorted[i].last_scanned, sorted[j - 1].last_scanned));
        } else if i > at {
            assert(not_after(sorted[i - 1].last_scanned, sorted[j - 1].last_scanned));
        }
    }
}

/// Sorting puts the rows in ascending order of scan time, and neither adds
/// nor loses a row.
pub proof fn sort_orders_and_keeps(rows: Seq<IpModel>)
    ensures
        ascending(by_last_scanned(rows)),
        by_last_scanned(rows).len() == rows.len(),
        by_last_scanned(rows).to_multiset() == rows.to_multiset(),
    decreases rows.len(),
{
    broadcast use vstd::seq_lib::group_to_multiset_ensures;

    if rows.len() == 0 {
        assert(rows =~= Seq::<IpModel>::empty());
    } else {
        let earlier = rows.drop_last();
        sort_orders_and_keeps(earlier);
        let sorted = by_last_scanned(earlier);
        lemma_insert_keeps_order(sorted, rows.last());
        let at = place(sorted, rows.last().last_scanned);
        vstd::seq_lib::to_multiset_insert(sorted, at, rows.last());
        assert(rows =~= earlier.push(rows.last()));
        vstd::seq_lib::to_multiset_build(earlier, rows.last());
    }
}

/// The rows of `rows` that were scanned at `scanned`, in order.
pub open spec fn scanned_at(rows: Seq<IpModel>, scanned: Option<i64>) -> Seq<IpModel> {
    rows.filter(|row: IpModel| row.last_scanned == scanned)
}

/// Sorting is stable: the rows that share a scan time stand in the sorted
/// list in the order in which they stood before.
pub proof fn sort_is_stable(rows: Seq<IpModel>, scanned: Option<i64>)
    ensures
        scanned_at(by_last_scanned(rows), scanned) == scanned_at(rows, scanned),
    decreases rows.len(),
{
    let same = |row: IpModel| row.last_scanned == scanned;
    if rows.len() == 0 {
        assert(rows =~= Seq::<IpModel>::empty());
    } else {
        let earlier = rows.drop_last();
        let row = rows.last();
        let sorted = by_last_scanned(earlier);
        sort_is_stable(earlier, scanned);
        sort_orders_and_keeps(earlier);
        lemma_insert_keeps_order(sorted, row);
        let at = place(sorted, row.last_scanned);
        let front = sorted.take(at);
        let back = sorted.skip(at);
        assert(rows =~= earlier.push(row));
        earlier.lemma_filter_push(row, same);
        assert(sorted =~= front + back);
        Seq::filter_distributes_over_add(front, back, same);
        assert(sorted.insert(at, row) =~= front.push(row) + back);
        Seq::filter_distributes_over_add(front.push(row), back, same);
        front.lemma_filter_push(row, same);
        if same(row) {
            assert(back.all(|other: IpModel| !same(other))) by {
                assert forall|k: int| 0 <= k < back.len() implies !same(#[trigger] back[k]) by {
                    assert(back[k] == sorted[at + k]);
                }
            }
            back.lemma_all_neg_filter_empty(same);
            assert(back.filter(same) =~= Seq::<IpModel>::empty());
            assert(front.filter(same) + back.filter(same) =~= front.filter(same));
            assert(front.filter(same).push(row) + back.filter(same) =~= front.filter(same).push(
                row,
            ));
        }
    }
}

/// Rows that are in ascending order already are left as they are.
pub proof fn sort_leaves_ascending(rows: Seq<IpModel>)
    requires
        ascending(rows),
    ensures
        by_last_scanned(rows) == rows,
    decreases rows.len(),
{
    if rows.len() == 0 {
        assert(rows =~= Seq::<IpModel>::empty());
    } else {
        let earlier = rows.drop_last();
        assert(ascending(earlier)) by {
            assert forall|i: int, j: int| 0 <= i <= j < earlier.len() implies not_after(
                (#[trigger] earlier[i]).last_scanned,
                (#[trigger] earlier[j]).last_scanned,
            ) by {
                assert(earlier[i] == rows[i] && earlier[j] == rows[j]);
            }
        }
        sort_leaves_ascending(earlier);
        if earlier.len() > 0 {
            assert(earlier.last() == rows[rows.len() - 2]);
            assert(not_after(rows[rows.len() - 2].last_scanned, rows.last().last_scanned));
        }
        assert(place(earlier, rows.last().last_scanned) == earlier.len());
        assert(earlier.insert(earlier.len() as int, rows.last()) =~= rows);
    }
}

/// A rescan probes every known address but the 10,000 scanned longest ago:
/// of rows in ascending order of scan time it takes those from the 10,000th
/// on, and of 10,000 rows or fewer it takes none.
pub proof fn rescan_excludes_oldest(rows: Seq<IpModel>)
    ensures
        rows.len() <= RESCAN_EXCLUDED ==> rescanned(rows).len() == 0,
        rows.len() > RESCAN_EXCLUDED ==> rescanned(rows).len() == rows.len() - RESCAN_EXCLUDED,
        ascending(rows) && rows.len() > RESCAN_EXCLUDED ==> rescanned(rows) == rows.skip(
            RESCAN_EXCLUDED as int,
        ),
        forall|i: int, j: int|
            0 <= i < RESCAN_EXCLUDED && 0 <= j < rescanned(rows).len() ==> not_after(
                (#[trigger] by_last_scanned(rows)[i]).last_scanned,
                (#[trigger] rescanned(rows)[j]).last_scanned,
            ),
{
    sort_orders_and_keeps(rows);
    if ascending(rows) {
        sort_leaves_ascending(rows);
    }
    let sorted = by_last_scanned(rows);
    assert forall|i: int, j: int|
        0 <= i < RESCAN_EXCLUDED && 0 <= j < rescanned(rows).len() implies not_after(
        (#[trigger] sorted[i]).last_scanned,
        (#[trigger] rescanned(rows)[j]).last_scanned,
    ) by {
        assert(rescanned(rows)[j] == sorted[j + RESCAN_EXCLUDED]);
    }
}

/// Nothing was scanned at any time among no rows.
proof fn lemma_scanned_at_nothing(scanned: Option<i64>)
    ensures
        scanned_at(Seq::<IpModel>::empty(), scanned) == Seq::<IpModel>::empty(),
{
    reveal(Seq::filter);
}

/// A row behind a list joins those scanned at its scan time and no others.
proof fn lemma_scanned_at_push(rows: Seq<IpModel>, row: IpModel, scanned: Option<i64>)
    ensures
        scanned_at(rows.push(row), scanned) == if row.last_scanned == scanned {
            scanned_at(rows, scanned).push(row)
        } else {
            scanned_at(rows, scanned)
        },
{
    rows.lemma_filter_push(row, |other: IpModel| other.last_scanned == scanned);
}

/// Of two lists laid end to end, those scanned at a time are those of the
/// first followed by those of the second.
proof fn lemma_scanned_at_add(front: Seq<IpModel>, back: Seq<IpModel>, scanned: Option<i64>)
    ensures
        scanned_at(front + back, scanned) == scanned_at(front, scanned) + scanned_at(
            back,
            scanned,
        ),
{
    Seq::filter_distributes_over_add(front, back, |other: IpModel| other.last_scanned == scanned);
}

/// Where no row was scanned at a time, the rows scanned at it are none.
proof fn lemma_scanned_at_none(rows: Seq<IpModel>, scanned: Option<i64>)
    requires
        forall|i: int| 0 <= i < rows.len() ==> (#[trigger] rows[i]).last_scanned != scanned,
    ensures
        scanned_at(rows, scanned) == Seq::<IpModel>::empty(),
{
    let same = |other: IpModel| other.last_scanned == scanned;
    assert(rows.all(|other: IpModel| !same(other)));
    rows.lemma_all_neg_filter_empty(same);
    assert(scanned_at(rows, scanned) =~= Seq::<IpModel>::empty());
}

/// A row that no row of an ascending list is after may be put behind it.
proof fn lemma_push_keeps_order(rows: Seq<IpModel>, row: IpModel)
    requires
        ascending(rows),
        forall|i: int|
            0 <= i < rows.len() ==> not_after((#[trigger] rows[i]).last_scanned, row.last_scanned),
    ensures
        ascending(rows.push(row)),
{
    let grown = rows.push(row);
    assert forall|i: int, j: int| 0 <= i <= j < grown.len() implies not_after(
        (#[trigger] grown[i]).last_scanned,
        (#[trigger] grown[j]).last_scanned,
    ) by {
        if j < rows.len() {
            assert(grown[i] == rows[i] && grown[j] == rows[j]);
        } else if i < rows.len() {
            assert(grown[i] == rows[i]);
        }
    }
}

/// Two ascending lists that agree, for every scan time, on the rows scanned
/// at it and on their order, are the same list.
proof fn lemma_same_runs_same_list(a: Seq<IpModel>, b: Seq<IpModel>)
    requires
        ascending(a),
        ascending(b),
        forall|scanned: Option<i64>| #[trigger] scanned_at(a, scanned) == scanned_at(b, scanned),
    ensures
        a == b,
    decreases a.len(),
{
    if a.len() == 0 {
        if b.len() > 0 {
            let scanned = b.last().last_scanned;
            lemma_scanned_at_push(b.drop_last(), b.last(), scanned);
            assert(b.drop_last().push(b.last()) =~= b);
            lemma_scanned_at_nothing(scanned);
            assert(a =~= Seq::<IpModel>::empty());
            assert(scanned_at(b, scanned).len() > 0);
        }
        assert(a =~= b);
    } else {
        let x = a.last();
        let at = x.last_scanned;
        let same = |other: IpModel| other.last_scanned == at;
        assert(a.drop_last().push(x) =~= a);
        lemma_scanned_at_push(a.drop_last(), x, at);
        // `b` holds a row scanned at `at`, so it is not empty and its last
        // row is not before `at`.
        let shared = scanned_at(b, at);
        assert(shared.len() > 0);
        assert(shared.contains(shared.last()));
        b.lemma_filter_contains_rev(same, shared.last());
        b.lemma_filter_pred(same, shared.len() - 1);
        let at_in_b = choose|i: int| 0 <= i < b.len() && b[i] == shared.last();
        assert(b.len() > 0);
        let y = b.last();
        assert(not_after(b[at_in_b].last_scanned, y.last_scanned));
        // `a` holds a row scanned when the last row of `b` was, so that time
        // is not after `at`.
        let other = |row: IpModel| row.last_scanned == y.last_scanned;
        assert(b.drop_last().push(y) =~= b);
        lemma_scanned_at_push(b.drop_last(), y, y.last_scanned);
        let mirrored = scanned_at(a, y.last_scanned);
        assert(mirrored.len() > 0);
        assert(mirrored.contains(mirrored.last()));
        a.lemma_filter_contains_rev(other, mirrored.last());
        a.lemma_filter_pred(other, mirrored.len() - 1);
        let y_in_a = choose|i: int| 0 <= i < a.len() && a[i] == mirrored.last();
        assert(not_after(a[y_in_a].last_scanned, x.last_scanned));
        assert(y.last_scanned == at);
        assert(scanned_at(b, at).last() == y);
        assert(scanned_at(a, at).last() == x);
        assert(x == y);
        assert(ascending(a.drop_last())) by {
            assert forall|i: int, j: int| 0 <= i <= j < a.len() - 1 implies not_after(
                (#[trigger] a.drop_last()[i]).last_scanned,
                (#[trigger] a.drop_last()[j]).last_scanned,
            ) by {
                assert(a.drop_last()[i] == a[i] && a.drop_last()[j] == a[j]);
            }
        }
        assert(ascending(b.drop_last())) by {
            assert forall|i: int, j: int| 0 <= i <= j < b.len() - 1 implies not_after(
                (#[trigger] b.drop_last()[i]).last_scanned,
                (#[trigger] b.drop_last()[j]).last_scanned,
            ) by {
                assert(b.drop_last()[i] == b[i] && b.drop_last()[j] == b[j]);
            }
        }
        assert forall|scanned: Option<i64>| #[trigger]
            scanned_at(a.drop_last(), scanned) == scanned_at(b.drop_last(), scanned) by {
            lemma_scanned_at_push(a.drop_last(), x, scanned);
            lemma_scanned_at_push(b.drop_last(), y, scanned);
            assert(scanned_at(a, scanned) == scanned_at(b, scanned));
            if scanned == at {
                assert(scanned_at(a.drop_last(), scanned) =~= scanned_at(a, scanned).drop_last());
                assert(scanned_at(b.drop_last(), scanned) =~= scanned_at(b, scanned).drop_last());
            }
        }
        lemma_same_runs_same_list(a.drop_last(), b.drop_last());
    }
}

/// There is one stable ascending order of a list of rows: a list in
/// ascending order that keeps, for every scan time, the rows scanned at it
/// in the order they had, is the sorted list.
pub proof fn lemma_stable_order_is_unique(rows: Seq<IpModel>, sorted: Seq<IpModel>)
    requires
        ascending(sorted),
        forall|scanned: Option<i64>| #[trigger]
            scanned_at(sorted, scanned) == scanned_at(rows, scanned),
    ensures
        sorted == by_last_scanned(rows),
{
    sort_orders_and_keeps(rows);
    assert forall|scanned: Option<i64>| #[trigger]
        scanned_at(sorted, scanned) == scanned_at(by_last_scanned(rows), scanned) by {
        sort_is_stable(rows, scanned);
    }
    lemma_same_runs_same_list(sorted, by_last_scanned(rows));
}

} // verus!
