//! Which session logs are kept: the newest by name, as many as are wanted.

use vstd::prelude::*;

verus! {

use vstd::seq_lib::{to_multiset_build, to_multiset_insert, to_multiset_len};

/// The bytes of `.jsonl`.
pub open spec fn jsonl_suffix() -> Seq<u8> {
    seq![46, 106, 115, 111, 110, 108]
}

/// Whether the extension of a file name is `jsonl`: the name ends in it, and something stands
/// before it.
pub open spec fn is_log_name(name: Seq<u8>) -> bool {
    name.len() > 6 && name.skip(name.len() - 6) == jsonl_suffix()
}

/// Whether the extension of a file name is `jsonl`.
pub fn is_jsonl_file(name: &Vec<u8>) -> (result: bool)
    ensures
        result == is_log_name(name@),
{
    let count = name.len();
    if count <= 6 {
        return false;
    }
    let ghost tail = name@.skip(count - 6);
    assert(tail.len() == 6);
    let result = name[count - 6] == 46 && name[count - 5] == 106 && name[count - 4] == 115
        && name[count - 3] == 111 && name[count - 2] == 110 && name[count - 1] == 108;
    proof {
        assert(tail[0] == name@[count - 6] && tail[1] == name@[count - 5] && tail[2] == name@[count
            - 4] && tail[3] == name@[count - 3] && tail[4] == name@[count - 2] && tail[5]
            == name@[count - 1]);
        if result {
            assert(tail == jsonl_suffix());
        }
    }
    result
}

/// Whether a name does not come after another, byte by byte.
pub open spec fn not_after(a: Seq<u8>, b: Seq<u8>) -> bool
    decreases a.len(),
{
    if a.len() == 0 {
        true
    } else if b.len() == 0 {
        false
    } else if a[0] != b[0] {
        a[0] < b[0]
    } else {
        not_after(a.drop_first(), b.drop_first())
    }
}

/// Whether names are in order.
pub open spec fn in_order(names: Seq<Seq<u8>>) -> bool {
    forall|i: int, j: int|
        0 <= i < j < names.len() ==> not_after(#[trigger] names[i], #[trigger] names[j])
}

proof fn lemma_not_after_total(a: Seq<u8>, b: Seq<u8>)
    ensures
        not_after(a, b) || not_after(b, a),
    decreases a.len(),
{
    if a.len() > 0 && b.len() > 0 && a[0] == b[0] {
        lemma_not_after_total(a.drop_first(), b.drop_first());
    }
}

proof fn lemma_not_after_transitive(a: Seq<u8>, b: Seq<u8>, c: Seq<u8>)
    requires
        not_after(a, b),
        not_after(b, c),
    ensures
        not_after(a, c),
    decreases a.len(),
{
    if a.len() > 0 && b.len() > 0 && c.len() > 0 && a[0] == b[0] && b[0] == c[0] {
        lemma_not_after_transitive(a.drop_first(), b.drop_first(), c.drop_first());
    }
}

fn is_not_after(a: &Vec<u8>, b: &Vec<u8>) -> (result: bool)
    ensures
        result == not_after(a@, b@),
{
    let mut i: usize = 0;
    assert(a@.skip(0) == a@);
    assert(b@.skip(0) == b@);
    while i < a.len() && i < b.len() && a[i] == b[i]
        invariant
            i <= a@.len(),
            i <= b@.len(),
            not_after(a@, b@) == not_after(a@.skip(i as int), b@.skip(i as int)),
        ensures
            i <= a@.len(),
            i <= b@.len(),
            not_after(a@, b@) == not_after(a@.skip(i as int), b@.skip(i as int)),
            i == a@.len() || i == b@.len() || a@[i as int] != b@[i as int],
        decreases a@.len() - i,
    {
        assert(a@.skip(i as int).drop_first() == a@.skip(i + 1));
        assert(b@.skip(i as int).drop_first() == b@.skip(i + 1));
        i += 1;
    }
    if i == a.len() {
        true
    } else if i == b.len() {
        false
    } else {
        a[i] < b[i]
    }
}

fn is_same(a: &Vec<u8>, b: &Vec<u8>) -> (same: bool)
    ensures
        same == (a@ == b@),
{
    if a.len() != b.len() {
        return false;
    }
    let mut i: usize = 0;
    while i < a.len()
        invariant
            i <= a@.len() == b@.len(),
            forall|k: int| 0 <= k < i ==> a@[k] == b@[k],
        decreases a@.len() - i,
    {
        if a[i] != b[i] {
            return false;
        }
        i += 1;
    }
    assert(a@ == b@);
    true
}

/// What names say.
pub open spec fn name_views(names: Seq<Vec<u8>>) -> Seq<Seq<u8>> {
    names.map_values(|name: Vec<u8>| name@)
}

/// The logs that may be removed: those of the files that are logs, but for the current one.
pub open spec fn removable(names: Seq<Seq<u8>>, current: Seq<u8>) -> Seq<Seq<u8>>
    decreases names.len(),
{
    if names.len() == 0 {
        Seq::empty()
    } else {
        let before = removable(names.drop_last(), current);
        if names.last() != current && is_log_name(names.last()) {
            before.push(names.last())
        } else {
            before
        }
    }
}

/// How many of `count` removable logs are removed so that, with the current one, no more than
/// `max_files` are left, as far as that can be.
pub open spec fn surplus(count: nat, max_files: usize) -> nat {
    if count + 1 <= max_files {
        0
    } else if max_files == 0 {
        count
    } else {
        (count + 1 - max_files) as nat
    }
}

/// Whether `victims` are the first so many of the removable logs, in order.
pub open spec fn are_first(victims: Seq<Seq<u8>>, candidates: Seq<Seq<u8>>, count: nat) -> bool {
    exists|ordered: Seq<Seq<u8>>|
        {
            &&& in_order(ordered)
            &&& ordered.to_multiset() == candidates.to_multiset()
            &&& count <= ordered.len()
            &&& victims == #[trigger] ordered.take(count as int)
        }
}

/// Puts a name in its place among names that are in order.
fn insert_in_order(names: &mut Vec<Vec<u8>>, name: Vec<u8>)
    requires
        in_order(name_views(old(names)@)),
    ensures
        in_order(name_views(final(names)@)),
        name_views(final(names)@).to_multiset() == name_views(old(names)@).to_multiset().insert(
            name@,
        ),
        final(names)@.len() == old(names)@.len() + 1,
{
    let ghost before = name_views(names@);
    let mut at: usize = 0;
    while at < names.len() && is_not_after(&names[at], &name)
        invariant
            at <= names@.len(),
            before == name_views(names@),
            forall|i: int| 0 <= i < at ==> not_after(#[trigger] before[i], name@),
        ensures
            at <= names@.len(),
            forall|i: int| 0 <= i < at ==> not_after(#[trigger] before[i], name@),
            at < names@.len() ==> !not_after(before[at as int], name@),
        decreases names@.len() - at,
    {
        at += 1;
    }
    let ghost value = name@;
    names.insert(at, name);
    let ghost after = name_views(names@);
    proof {
        assert(after == before.insert(at as int, value));
        to_multiset_insert(before, at as int, value);
        assert forall|i: int, j: int| 0 <= i < j < after.len() implies not_after(
            #[trigger] after[i],
            #[trigger] after[j],
        ) by {
            if j < at {
                assert(after[i] == before[i] && after[j] == before[j]);
            } else if j == at {
                assert(after[i] == before[i]);
            } else if i < at {
                assert(after[i] == before[i] && after[j] == before[j - 1]);
            } else {
                assert(after[j] == before[j - 1]);
                lemma_not_after_total(before[at as int], value);
                if i == at {
                    if j - 1 > at {
                        assert(not_after(before[at as int], before[j - 1]));
                        lemma_not_after_transitive(value, before[at as int], before[j - 1]);
                    }
                } else {
                    assert(after[i] == before[i - 1]);
                    assert(not_after(before[i - 1], before[j - 1]));
                }
            }
        }
    }
}

/// The logs to remove from a directory with the files `names`, so that no more than
/// `max_files` are left with the log `current`: the first by name.
pub fn enforce_retention(names: Vec<Vec<u8>>, current: &Vec<u8>, max_files: usize) -> (victims: Vec<
    Vec<u8>,
>)
    ensures
        are_first(
            name_views(victims@),
            removable(name_views(names@), current@),
            surplus(removable(name_views(names@), current@).len(), max_files),
        ),
{
    let ghost all = name_views(names@);
    let mut ordered: Vec<Vec<u8>> = Vec::new();
    let mut rest: Vec<Vec<u8>> = names;
    proof {
        assert(name_views(ordered@) == Seq::<Seq<u8>>::empty());
        assert(all.take(all.len() as int) == all);
    }
    let mut reversed: Vec<Vec<u8>> = Vec::new();
    while rest.len() > 0
        invariant
            name_views(rest@) == all.take(rest@.len() as int),
            rest@.len() + reversed@.len() == all.len(),
            forall|i: int|
                0 <= i < reversed@.len() ==> (#[trigger] reversed@[i])@ == all[all.len() - 1 - i],
        decreases rest@.len(),
    {
        let ghost at = rest@.len() - 1;
        let ghost before = rest@;
        match rest.pop() {
            Some(name) => {
                proof {
                    assert(name_views(before)[at] == name@);
                    assert(name_views(rest@) == name_views(before).drop_last());
                    assert(all.take(at + 1).drop_last() == all.take(at));
                }
                reversed.push(name);
            },
            None => {},
        }
    }
    assert(all.take(0) == Seq::<Seq<u8>>::empty());
    while reversed.len() > 0
        invariant
            reversed@.len() <= all.len(),
            forall|i: int|
                0 <= i < reversed@.len() ==> (#[trigger] reversed@[i])@ == all[all.len() - 1 - i],
            in_order(name_views(ordered@)),
            name_views(ordered@).to_multiset() == removable(
                all.take(all.len() - reversed@.len()),
                current@,
            ).to_multiset(),
            ordered@.len() == removable(all.take(all.len() - reversed@.len()), current@).len(),
        decreases reversed@.len(),
    {
        let ghost at = all.len() - reversed@.len();
        match reversed.pop() {
            Some(name) => {
                proof {
                    assert(all.take(at + 1).drop_last() == all.take(at));
                    assert(all.take(at + 1).last() == name@);
                    to_multiset_build(removable(all.take(at), current@), name@);
                }
                if !is_same(&name, current) && is_jsonl_file(&name) {
                    insert_in_order(&mut ordered, name);
                }
            },
            None => {},
        }
    }
    assert(all.take(all.len() as int) == all);
    let ghost whole = name_views(ordered@);
    let count: usize = ordered.len();
    let keep: usize = if max_files == 0 {
        0
    } else {
        max_files - 1
    };
    let remove: usize = if count > keep {
        count - keep
    } else {
        0
    };
    ordered.truncate(remove);
    assert(name_views(ordered@) == whole.take(remove as int));
    ordered
}

/// What is removed is removable, and was there: the current log and files that are no logs
/// are kept. What is kept does not come before what is removed.
pub proof fn law_oldest_logs_are_removed(
    names: Seq<Seq<u8>>,
    current: Seq<u8>,
    max_files: usize,
    victims: Seq<Seq<u8>>,
    victim: int,
)
    requires
        are_first(
            victims,
            removable(names, current),
            surplus(removable(names, current).len(), max_files),
        ),
        0 <= victim < victims.len(),
    ensures
        names.contains(victims[victim]),
        victims[victim] != current,
        is_log_name(victims[victim]),
        in_order(victims),
        exists|kept: Seq<Seq<u8>>|
            {
                &&& (#[trigger] (victims + kept)).to_multiset() == removable(
                    names,
                    current,
                ).to_multiset()
                &&& forall|i: int|
                    0 <= i < kept.len() ==> not_after(victims[victim], #[trigger] kept[i])
            },
{
    let candidates = removable(names, current);
    let count = surplus(candidates.len(), max_files) as int;
    let ordered = choose|ordered: Seq<Seq<u8>>|
        {
            &&& in_order(ordered)
            &&& ordered.to_multiset() == candidates.to_multiset()
            &&& count <= ordered.len()
            &&& victims == #[trigger] ordered.take(count)
        };
    let kept = ordered.skip(count);
    assert(victims + kept == ordered);
    assert forall|i: int| 0 <= i < kept.len() implies not_after(
        victims[victim],
        #[trigger] kept[i],
    ) by {
        assert(kept[i] == ordered[i + count]);
        assert(victims[victim] == ordered[victim]);
    }
    assert forall|i: int, j: int| 0 <= i < j < victims.len() implies not_after(
        #[trigger] victims[i],
        #[trigger] victims[j],
    ) by {
        assert(victims[i] == ordered[i] && victims[j] == ordered[j]);
    }
    vstd::seq_lib::to_multiset_contains(ordered, ordered[victim]);
    vstd::seq_lib::to_multiset_contains(candidates, ordered[victim]);
    assert(ordered.contains(ordered[victim]));
    let at = choose|at: int| 0 <= at < candidates.len() && candidates[at] == ordered[victim];
    lemma_removable(names, current, at);
}

proof fn lemma_removable(names: Seq<Seq<u8>>, current: Seq<u8>, at: int)
    requires
        0 <= at < removable(names, current).len(),
    ensures
        names.contains(removable(names, current)[at]),
        removable(names, current)[at] != current,
        is_log_name(removable(names, current)[at]),
    decreases names.len(),
{
    let before = removable(names.drop_last(), current);
    if at < before.len() {
        lemma_removable(names.drop_last(), current, at);
        let i = choose|i: int|
            0 <= i < names.drop_last().len() && names.drop_last()[i] == before[at];
        assert(names[i] == before[at]);
    } else {
        assert(names[names.len() - 1] == names.last());
    }
}

/// With the current log, no more logs are left than are wanted, so long as any are wanted.
pub proof fn law_retention_meets_the_limit(
    names: Seq<Seq<u8>>,
    current: Seq<u8>,
    max_files: usize,
    victims: Seq<Seq<u8>>,
)
    requires
        are_first(
            victims,
            removable(names, current),
            surplus(removable(names, current).len(), max_files),
        ),
        max_files > 0,
    ensures
        removable(names, current).len() - victims.len() + 1 <= max_files,
        removable(names, current).len() + 1 <= max_files ==> victims.len() == 0,
{
    let candidates = removable(names, current);
    let count = surplus(candidates.len(), max_files) as int;
    let ordered = choose|ordered: Seq<Seq<u8>>|
        {
            &&& in_order(ordered)
            &&& ordered.to_multiset() == candidates.to_multiset()
            &&& count <= ordered.len()
            &&& victims == #[trigger] ordered.take(count)
        };
    to_multiset_len(ordered);
    to_multiset_len(candidates);
}

/// Which logs may be removed is decided of each file by itself: a file that is a log, and is not
/// the current one, may, and no other.
pub proof fn law_logs_but_the_current_one_may_be_removed(
    names: Seq<Seq<u8>>,
    more: Seq<Seq<u8>>,
    name: Seq<u8>,
    current: Seq<u8>,
)
    ensures
        removable(seq![name], current) == if is_log_name(name) && name != current {
            seq![name]
        } else {
            Seq::empty()
        },
        removable(names + more, current) == removable(names, current) + removable(more, current),
{
    let one = seq![name];
    assert(one.drop_last() == Seq::<Seq<u8>>::empty());
    assert(one.last() == name);
    assert(removable(one.drop_last(), current) == Seq::<Seq<u8>>::empty());
    assert(Seq::<Seq<u8>>::empty().push(name) == one);
    lemma_removable_add(names, more, current);
}

proof fn lemma_removable_add(names: Seq<Seq<u8>>, more: Seq<Seq<u8>>, current: Seq<u8>)
    ensures
        removable(names + more, current) == removable(names, current) + removable(more, current),
    decreases more.len(),
{
    let all = names + more;
    if more.len() == 0 {
        assert(all == names);
        assert(removable(all, current) == removable(names, current) + removable(more, current));
    } else {
        lemma_removable_add(names, more.drop_last(), current);
        assert(all.drop_last() == names + more.drop_last());
        assert(all.last() == more.last());
        assert(removable(all, current) == removable(names, current) + removable(more, current));
    }
}

/// A file is a log exactly when its name is something with `.jsonl` behind it.
pub proof fn law_log_names_end_in_jsonl(stem: Seq<u8>, name: Seq<u8>)
    ensures
        is_log_name(stem + seq![46u8, 106, 115, 111, 110, 108]) <==> stem.len() > 0,
        is_log_name(name) ==> name == name.take(name.len() - 6) + seq![
            46u8,
            106,
            115,
            111,
            110,
            108,
        ],
{
    let whole = stem + seq![46u8, 106, 115, 111, 110, 108];
    assert(whole.skip(whole.len() - 6) == jsonl_suffix());
    if is_log_name(name) {
        assert(name == name.take(name.len() - 6) + name.skip(name.len() - 6));
    }
}

/// Names are compared at the first byte in which they differ; a name comes before those that it
/// begins.
pub proof fn law_first_difference_decides(
    common: Seq<u8>,
    a: u8,
    b: u8,
    rest: Seq<u8>,
    other: Seq<u8>,
)
    requires
        a < b,
    ensures
        not_after(common.push(a) + rest, common.push(b) + other),
        !not_after(common.push(b) + other, common.push(a) + rest),
        not_after(common, common + rest),
        rest.len() > 0 ==> !not_after(common + rest, common),
    decreases common.len(),
{
    let x = common.push(a) + rest;
    let y = common.push(b) + other;
    let z = common + rest;
    if common.len() > 0 {
        law_first_difference_decides(common.drop_first(), a, b, rest, other);
        assert(x.drop_first() == common.drop_first().push(a) + rest);
        assert(y.drop_first() == common.drop_first().push(b) + other);
        assert(z.drop_first() == common.drop_first() + rest);
        assert(x[0] == common[0]);
        assert(y[0] == common[0]);
        assert(z[0] == common[0]);
    } else {
        assert(x[0] == a);
        assert(y[0] == b);
    }
}

/// No more logs are removed than must be: where any is, exactly as many are left as are wanted,
/// the current one among them. Where none is wanted, all but the current one are removed.
pub proof fn law_no_more_logs_are_removed_than_must_be(
    names: Seq<Seq<u8>>,
    current: Seq<u8>,
    max_files: usize,
    victims: Seq<Seq<u8>>,
)
    requires
        are_first(
            victims,
            removable(names, current),
            surplus(removable(names, current).len(), max_files),
        ),
    ensures
        max_files > 0 && victims.len() > 0 ==> removable(names, current).len() - victims.len() + 1
            == max_files,
        max_files > 0 && removable(names, current).len() + 1 > max_files ==> victims.len() > 0,
        max_files == 0 ==> victims.len() == removable(names, current).len(),
{
    let candidates = removable(names, current);
    let ordered = choose|ordered: Seq<Seq<u8>>|
        {
            &&& in_order(ordered)
            &&& ordered.to_multiset() == candidates.to_multiset()
            &&& surplus(candidates.len(), max_files) <= ordered.len()
            &&& victims == #[trigger] ordered.take(surplus(candidates.len(), max_files) as int)
        };
}

/// What is removed are logs that are there, never the current one, the first of them in order, and
/// no more and no fewer than leave as many as are wanted.
pub proof fn law_retention_removes_the_oldest_logs(
    names: Vec<Vec<u8>>,
    current: &Vec<u8>,
    max_files: usize,
    victims: Vec<Vec<u8>>,
    i: int,
)
    requires
        call_ensures(enforce_retention, (names, current, max_files), victims),
        0 <= i < victims@.len(),
    ensures
        name_views(names@).contains(victims@[i]@),
        victims@[i]@ != current@,
        is_log_name(victims@[i]@),
        max_files > 0 ==> removable(name_views(names@), current@).len() - victims@.len() + 1
            == max_files,
{
    assert(name_views(victims@)[i] == victims@[i]@);
    law_oldest_logs_are_removed(
        name_views(names@),
        current@,
        max_files,
        name_views(victims@),
        i,
    );
    law_no_more_logs_are_removed_than_must_be(
        name_views(names@),
        current@,
        max_files,
        name_views(victims@),
    );
}

} // verus!
