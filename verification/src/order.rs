//! Putting numbered texts in the order of their numbers.

use vstd::prelude::*;

verus! {

/// A sorted list with one more record, behind all that do not have a greater
/// number.
pub open spec fn inserted(sorted: Seq<(usize, Seq<char>)>, record: (usize, Seq<char>)) -> Seq<
    (usize, Seq<char>),
>
    decreases sorted.len(),
{
    if sorted.len() == 0 || sorted.last().0 <= record.0 {
        sorted.push(record)
    } else {
        inserted(sorted.drop_last(), record).push(sorted.last())
    }
}

/// The records in the order of their numbers. Records with the same number keep
/// the order that they came in.
pub open spec fn in_order(records: Seq<(usize, Seq<char>)>) -> Seq<(usize, Seq<char>)>
    decreases records.len(),
{
    if records.len() == 0 {
        Seq::empty()
    } else {
        inserted(in_order(records.drop_last()), records.last())
    }
}

/// The texts of records in the order of their numbers.
pub open spec fn texts_in_order(records: Seq<(usize, Seq<char>)>) -> Seq<Seq<char>> {
    in_order(records).map_values(|record: (usize, Seq<char>)| record.1)
}

/// The records that have a certain number, in the order that they stand in.
pub open spec fn numbered(records: Seq<(usize, Seq<char>)>, number: usize) -> Seq<
    (usize, Seq<char>),
> {
    records.filter(|record: (usize, Seq<char>)| record.0 == number)
}

/// Where a record goes: behind all that do not have a greater number.
fn insertion_point(sorted: &Vec<(usize, String)>, number: usize) -> (r: usize)
    ensures
        r <= sorted@.len(),
        r > 0 ==> sorted@[r - 1].0 <= number,
        forall|k: int| r <= k < sorted@.len() ==> (#[trigger] sorted@[k]).0 > number,
{
    let mut at: usize = sorted.len();
    while at > 0 && sorted[at - 1].0 > number
        invariant
            at <= sorted@.len(),
            forall|k: int| at <= k < sorted@.len() ==> (#[trigger] sorted@[k]).0 > number,
        decreases at,
    {
        at = at - 1;
    }
    at
}

/// Inserting at that place is inserting.
proof fn lemma_inserted_at(
    sorted: Seq<(usize, Seq<char>)>,
    record: (usize, Seq<char>),
    at: int,
)
    requires
        0 <= at <= sorted.len(),
        at > 0 ==> sorted[at - 1].0 <= record.0,
        forall|k: int| at <= k < sorted.len() ==> (#[trigger] sorted[k]).0 > record.0,
    ensures
        inserted(sorted, record) == sorted.insert(at, record),
    decreases sorted.len(),
{
    if at == sorted.len() {
        assert(sorted.insert(at, record) =~= sorted.push(record));
    } else {
        lemma_inserted_at(sorted.drop_last(), record, at);
        assert(sorted.insert(at, record) =~= sorted.drop_last().insert(at, record).push(
            sorted.last(),
        ));
    }
}

/// The texts of records in the order of their numbers.
pub fn sort_texts(records: &Vec<(usize, String)>) -> (r: Vec<String>)
    ensures
        r.deep_view() == texts_in_order(records.deep_view()),
{
    let mut sorted: Vec<(usize, String)> = Vec::new();
    let ghost all = records.deep_view();
    let mut i: usize = 0;
    assert(sorted.deep_view() =~= in_order(all.take(0)));
    while i < records.len()
        invariant
            i <= records@.len(),
            all == records.deep_view(),
            sorted.deep_view() == in_order(all.take(i as int)),
        decreases records@.len() - i,
    {
        let ghost before = sorted.deep_view();
        let number: usize = records[i].0;
        let text: String = records[i].1.clone();
        let at: usize = insertion_point(&sorted, number);
        sorted.insert(at, (number, text));
        proof {
            let record = (number, text@);
            assert(record == all[i as int]);
            assert(sorted.deep_view() =~= before.insert(at as int, record));
            lemma_inserted_at(before, record, at as int);
            assert(all.take(i + 1).drop_last() =~= all.take(i as int));
        }
        i = i + 1;
    }
    assert(all.take(i as int) =~= all);
    let mut out: Vec<String> = Vec::new();
    let mut k: usize = 0;
    while k < sorted.len()
        invariant
            k <= sorted@.len(),
            out@.len() == k,
            forall|j: int| 0 <= j < k ==> (#[trigger] out@[j])@ == sorted@[j].1@,
        decreases sorted@.len() - k,
    {
        out.push(sorted[k].1.clone());
        k = k + 1;
    }
    assert(out.deep_view() =~= texts_in_order(all));
    out
}

/// Putting records in order sorts them by number, keeps each of them, and keeps
/// records with the same number in the order that they came in.
pub proof fn law_in_order_is_a_stable_sort(records: Seq<(usize, Seq<char>)>)
    ensures
        in_order(records).to_multiset() == records.to_multiset(),
        forall|i: int, j: int|
            0 <= i < j < in_order(records).len() ==> (#[trigger] in_order(records)[i]).0 <= (
            #[trigger] in_order(records)[j]).0,
        forall|number: usize|
            numbered(in_order(records), number) == #[trigger] numbered(records, number),
    decreases records.len(),
{
    broadcast use vstd::seq_lib::group_to_multiset_ensures;

    if records.len() > 0 {
        let before = in_order(records.drop_last());
        let last = records.last();
        law_in_order_is_a_stable_sort(records.drop_last());
        lemma_inserted_keeps(before, last);
        assert(records =~= records.drop_last().push(last));
        assert forall|number: usize| numbered(in_order(records), number) == #[trigger] numbered(
            records,
            number,
        ) by {
            lemma_numbered_push(records.drop_last(), last, number);
            lemma_numbered_push(before, last, number);
            lemma_inserted_numbered(before, last, number);
            assert(numbered(records.drop_last(), number) == numbered(before, number));
        }
    }
}

proof fn lemma_inserted_keeps(sorted: Seq<(usize, Seq<char>)>, record: (usize, Seq<char>))
    requires
        forall|i: int, j: int|
            0 <= i < j < sorted.len() ==> (#[trigger] sorted[i]).0 <= (#[trigger] sorted[j]).0,
    ensures
        inserted(sorted, record).to_multiset() == sorted.to_multiset().insert(record),
        inserted(sorted, record).len() == sorted.len() + 1,
        sorted.len() > 0 && sorted.last().0 > record.0 ==> inserted(sorted, record).last()
            == sorted.last(),
        sorted.len() == 0 || sorted.last().0 <= record.0 ==> inserted(sorted, record).last()
            == record,
        forall|i: int, j: int|
            0 <= i < j < inserted(sorted, record).len() ==> (#[trigger] inserted(
                sorted,
                record,
            )[i]).0 <= (#[trigger] inserted(sorted, record)[j]).0,
    decreases sorted.len(),
{
    broadcast use vstd::seq_lib::group_to_multiset_ensures;

    if sorted.len() > 0 && sorted.last().0 > record.0 {
        lemma_inserted_keeps(sorted.drop_last(), record);
        assert(sorted =~= sorted.drop_last().push(sorted.last()));
        let front = inserted(sorted.drop_last(), record);
        assert forall|i: int| 0 <= i < front.len() implies (#[trigger] front[i]).0
            <= sorted.last().0 by {
            if i < front.len() - 1 {
                assert(front[i].0 <= front[front.len() - 1].0);
            }
        }
        assert(inserted(sorted, record).to_multiset() =~= sorted.to_multiset().insert(record));
    }
}

proof fn lemma_numbered_push(
    records: Seq<(usize, Seq<char>)>,
    record: (usize, Seq<char>),
    number: usize,
)
    ensures
        numbered(records.push(record), number) == if record.0 == number {
            numbered(records, number).push(record)
        } else {
            numbered(records, number)
        },
{
    reveal(Seq::filter);
    assert(records.push(record).drop_last() =~= records);
}

proof fn lemma_inserted_numbered(
    sorted: Seq<(usize, Seq<char>)>,
    record: (usize, Seq<char>),
    number: usize,
)
    ensures
        numbered(inserted(sorted, record), number) == numbered(sorted.push(record), number),
    decreases sorted.len(),
{
    if sorted.len() > 0 && sorted.last().0 > record.0 {
        lemma_inserted_numbered(sorted.drop_last(), record, number);
        lemma_numbered_push(inserted(sorted.drop_last(), record), sorted.last(), number);
        lemma_numbered_push(sorted.drop_last(), record, number);
        lemma_numbered_push(sorted.drop_last(), sorted.last(), number);
        lemma_numbered_push(sorted, record, number);
        assert(sorted.drop_last().push(sorted.last()) =~= sorted);
    }
}

/// The texts in order are those of the records in order, one for each.
pub proof fn law_each_record_gives_its_text(records: Seq<(usize, Seq<char>)>)
    ensures
        texts_in_order(records).len() == records.len(),
        forall|i: int|
            0 <= i < records.len() ==> #[trigger] texts_in_order(records)[i] == in_order(
                records,
            )[i].1,
{
    lemma_in_order_len(records);
}

proof fn lemma_in_order_len(records: Seq<(usize, Seq<char>)>)
    ensures
        in_order(records).len() == records.len(),
    decreases records.len(),
{
    if records.len() > 0 {
        lemma_in_order_len(records.drop_last());
        lemma_inserted_len(in_order(records.drop_last()), records.last());
    }
}

proof fn lemma_inserted_len(sorted: Seq<(usize, Seq<char>)>, record: (usize, Seq<char>))
    ensures
        inserted(sorted, record).len() == sorted.len() + 1,
    decreases sorted.len(),
{
    if sorted.len() > 0 && sorted.last().0 > record.0 {
        lemma_inserted_len(sorted.drop_last(), record);
    }
}

} // verus!
