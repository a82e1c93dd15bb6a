//! How the outcomes of single rules are combined into an array or an object.
//!
//! An outcome is a value, no value, or a failure. Outcomes are combined in
//! order, and the first failure is the failure of the whole.

use crate::error::{Failure, ParseError};
use crate::value::{entries_view, items_view, Json, Value};
use vstd::prelude::*;

verus! {

/// The outcome of one rule: `Ok(Some(v))` for a value, `Ok(None)` where the
/// rule gives no value, `Err(e)` for a failure.
pub type Outcome = Result<Option<Json>, Failure>;

/// The outcome of a rule that always gives a value unless it fails.
pub open spec fn present(r: Result<Json, Failure>) -> Outcome {
    match r {
        Ok(v) => Ok(Some(v)),
        Err(e) => Err(e),
    }
}

/// The values that `outcomes[from..]` add to `acc`, in order, up to the first
/// failure.
pub open spec fn collect_from(outcomes: Seq<Outcome>, from: int, acc: Seq<Json>) -> Result<
    Seq<Json>,
    Failure,
>
    decreases outcomes.len() - from,
{
    if from < 0 || from >= outcomes.len() {
        Ok(acc)
    } else {
        match outcomes[from] {
            Err(e) => Err(e),
            Ok(None) => collect_from(outcomes, from + 1, acc),
            Ok(Some(v)) => collect_from(outcomes, from + 1, acc.push(v)),
        }
    }
}

/// The array of the values among `outcomes`, in order; the first failure
/// among them where there is one.
pub open spec fn array_of(outcomes: Seq<Outcome>) -> Result<Json, Failure> {
    match collect_from(outcomes, 0, Seq::empty()) {
        Ok(items) => Ok(Json::Array(items)),
        Err(e) => Err(e),
    }
}

/// The fields that `fields[from..]` add to `acc`, in order, up to the first
/// failure. A later field replaces an earlier one of the same name.
pub open spec fn assemble_from(
    fields: Seq<(Seq<char>, Outcome)>,
    from: int,
    acc: Map<Seq<char>, Json>,
) -> Result<Map<Seq<char>, Json>, Failure>
    decreases fields.len() - from,
{
    if from < 0 || from >= fields.len() {
        Ok(acc)
    } else {
        match fields[from].1 {
            Err(e) => Err(e),
            Ok(None) => assemble_from(fields, from + 1, acc),
            Ok(Some(v)) => assemble_from(fields, from + 1, acc.insert(fields[from].0, v)),
        }
    }
}

/// The fields that `fields` add to the object `base`; the first failure among
/// them where there is one.
pub open spec fn extended(base: Map<Seq<char>, Json>, fields: Seq<(Seq<char>, Outcome)>) -> Result<
    Json,
    Failure,
> {
    match assemble_from(fields, 0, base) {
        Ok(m) => Ok(Json::Object(m)),
        Err(e) => Err(e),
    }
}

/// The object of the named values among `fields`; the first failure among
/// them where there is one.
pub open spec fn object_of(fields: Seq<(Seq<char>, Outcome)>) -> Result<Json, Failure> {
    extended(Map::empty(), fields)
}

/// The model of the outcome for one field.
pub open spec fn field_outcome(r: Result<Option<Value>, ParseError>) -> Outcome {
    match r {
        Ok(Some(v)) => Ok(Some(v@)),
        Ok(None) => Ok(None),
        Err(e) => Err(e@),
    }
}

/// An entry added at the end of a list puts its value into the object.
pub proof fn lemma_entries_push(entries: Seq<(String, Value)>, name: String, v: Value)
    ensures
        entries_view(entries.push((name, v))) == entries_view(entries).insert(name@, v@),
{
    assert(entries.push((name, v)).drop_last() == entries);
}

/// An item added at the end of a list is the last item of the array.
pub proof fn lemma_items_push(items: Seq<Value>, v: Value)
    ensures
        items_view(items.push(v)) == items_view(items).push(v@),
{
    assert(items.push(v).drop_last() == items);
}

/// The outcome of each item of a list from which some items are left out:
/// no value for an item that `keep` rejects, else what `f` makes of the item.
pub open spec fn selected<A>(
    items: Seq<A>,
    keep: spec_fn(A) -> bool,
    f: spec_fn(A) -> Result<Json, Failure>,
) -> Seq<Outcome> {
    Seq::new(
        items.len(),
        |i: int|
            if keep(items[i]) {
                present(f(items[i]))
            } else {
                Ok(None)
            },
    )
}

/// The values of the kept items among the first `i`, where none of these
/// fails: collecting may go on from `i` with them.
proof fn lemma_collect_prefix<A>(
    items: Seq<A>,
    keep: spec_fn(A) -> bool,
    f: spec_fn(A) -> Result<Json, Failure>,
    i: int,
) -> (acc: Seq<Json>)
    requires
        0 <= i <= items.len(),
        forall|j: int| 0 <= j < i ==> (#[trigger] selected(items, keep, f)[j]) is Ok,
    ensures
        acc.len() == items.take(i).filter(keep).len(),
        forall|k: int|
            0 <= k < acc.len() ==> f(items.take(i).filter(keep)[k]) == Ok::<Json, Failure>(
                #[trigger] acc[k],
            ),
        collect_from(selected(items, keep, f), 0, Seq::empty()) == collect_from(
            selected(items, keep, f),
            i,
            acc,
        ),
    decreases i,
{
    let outcomes = selected(items, keep, f);
    if i == 0 {
        assert(items.take(0).filter(keep) == Seq::<A>::empty()) by {
            reveal(Seq::filter);
        }
        Seq::empty()
    } else {
        let before = lemma_collect_prefix(items, keep, f, i - 1);
        let x = items[i - 1];
        assert(items.take(i) == items.take(i - 1).push(x));
        Seq::lemma_filter_push(items.take(i - 1), x, keep);
        assert(outcomes[i - 1] is Ok);
        if keep(x) {
            let v = f(x)->Ok_0;
            before.push(v)
        } else {
            before
        }
    }
}

/// The first failure among `outcomes[from..]`, where there is one.
proof fn lemma_first_failure(outcomes: Seq<Outcome>, from: int) -> (i: int)
    requires
        0 <= from <= outcomes.len(),
        forall|j: int| 0 <= j < from ==> (#[trigger] outcomes[j]) is Ok,
        exists|j: int| from <= j < outcomes.len() && (#[trigger] outcomes[j]) is Err,
    ensures
        from <= i < outcomes.len(),
        outcomes[i] is Err,
        forall|j: int| 0 <= j < i ==> (#[trigger] outcomes[j]) is Ok,
    decreases outcomes.len() - from,
{
    if outcomes[from] is Err {
        from
    } else {
        lemma_first_failure(outcomes, from + 1)
    }
}

/// Leaving items out while collecting is the same as filtering them out
/// first: the array holds what `f` makes of each kept item, in order, and a
/// failure is that of the first kept item on which `f` fails.
pub proof fn lemma_selected<A>(
    items: Seq<A>,
    keep: spec_fn(A) -> bool,
    f: spec_fn(A) -> Result<Json, Failure>,
)
    ensures
        match array_of(selected(items, keep, f)) {
            Ok(v) => {
                &&& v is Array
                &&& v->Array_0.len() == items.filter(keep).len()
                &&& forall|k: int|
                    0 <= k < items.filter(keep).len() ==> f(#[trigger] items.filter(keep)[k])
                        == Ok::<Json, Failure>(v->Array_0[k])
            },
            Err(e) => exists|k: int|
                {
                    &&& 0 <= k < items.filter(keep).len()
                    &&& f(#[trigger] items.filter(keep)[k]) == Err::<Json, Failure>(e)
                    &&& forall|j: int| 0 <= j < k ==> f(#[trigger] items.filter(keep)[j]) is Ok
                },
        },
{
    let outcomes = selected(items, keep, f);
    let kept = items.filter(keep);
    if forall|j: int| 0 <= j < outcomes.len() ==> (#[trigger] outcomes[j]) is Ok {
        let acc = lemma_collect_prefix(items, keep, f, items.len() as int);
        assert(items.take(items.len() as int) == items);
        assert(collect_from(outcomes, items.len() as int, acc) == Ok::<Seq<Json>, Failure>(acc));
    } else {
        let i = lemma_first_failure(outcomes, 0);
        let acc = lemma_collect_prefix(items, keep, f, i);
        let e = outcomes[i]->Err_0;
        assert(collect_from(outcomes, i, acc) == Err::<Seq<Json>, Failure>(e));
        assert(keep(items[i]) && f(items[i]) == Err::<Json, Failure>(e));
        let head = items.take(i);
        let tail = items.skip(i + 1);
        assert(items == head + (seq![items[i]] + tail));
        Seq::filter_distributes_over_add(head, seq![items[i]] + tail, keep);
        Seq::lemma_filter_prepend(tail, items[i], keep);
        let k = head.filter(keep).len() as int;
        assert(kept == head.filter(keep) + (seq![items[i]] + tail.filter(keep)));
        assert(kept[k] == items[i]);
        assert forall|j: int| 0 <= j < k implies f(#[trigger] kept[j]) is Ok by {
            assert(kept[j] == head.filter(keep)[j]);
            assert(f(head.filter(keep)[j]) == Ok::<Json, Failure>(acc[j]));
        }
        assert(0 <= k < kept.len() && f(kept[k]) == Err::<Json, Failure>(e));
    }
}

/// A name stays out of an object where every field of that name gives no
/// value.
pub proof fn lemma_assemble_absent(
    fields: Seq<(Seq<char>, Outcome)>,
    from: int,
    acc: Map<Seq<char>, Json>,
    name: Seq<char>,
)
    requires
        0 <= from,
        !acc.dom().contains(name),
        forall|i: int|
            from <= i < fields.len() && (#[trigger] fields[i]).0 == name ==> fields[i].1 == Ok::<
                Option<Json>,
                Failure,
            >(None),
    ensures
        assemble_from(fields, from, acc) matches Ok(m) ==> !m.dom().contains(name),
    decreases fields.len() - from,
{
    if from < fields.len() {
        match fields[from].1 {
            Err(e) => {},
            Ok(None) => {
                lemma_assemble_absent(fields, from + 1, acc, name);
            },
            Ok(Some(v)) => {
                lemma_assemble_absent(fields, from + 1, acc.insert(fields[from].0, v), name);
            },
        }
    }
}

/// The first failure among the fields is the failure of the object.
pub proof fn lemma_assemble_failure(
    fields: Seq<(Seq<char>, Outcome)>,
    from: int,
    acc: Map<Seq<char>, Json>,
    i: int,
)
    requires
        0 <= from <= i < fields.len(),
        forall|j: int| from <= j < i ==> (#[trigger] fields[j]).1 is Ok,
        fields[i].1 is Err,
    ensures
        assemble_from(fields, from, acc) == Err::<Map<Seq<char>, Json>, Failure>(
            fields[i].1->Err_0,
        ),
    decreases i - from,
{
    if from < i {
        match fields[from].1 {
            Err(e) => {},
            Ok(None) => {
                lemma_assemble_failure(fields, from + 1, acc, i);
            },
            Ok(Some(v)) => {
                lemma_assemble_failure(fields, from + 1, acc.insert(fields[from].0, v), i);
            },
        }
    }
}

/// Whether an outcome is a value.
pub open spec fn gives_value(o: Outcome) -> bool {
    o is Ok && o->Ok_0 is Some
}

/// Whether no field after `i` gives a value, or fails, under `name`.
pub open spec fn silent_after(fields: Seq<(Seq<char>, Outcome)>, name: Seq<char>, i: int) -> bool {
    forall|j: int|
        i < j < fields.len() && (#[trigger] fields[j]).0 == name ==> fields[j].1 == Ok::<
            Option<Json>,
            Failure,
        >(None)
}

/// An object is built only where every field succeeds.
pub proof fn lemma_assemble_all_ok(
    fields: Seq<(Seq<char>, Outcome)>,
    from: int,
    acc: Map<Seq<char>, Json>,
)
    requires
        0 <= from,
        assemble_from(fields, from, acc) is Ok,
    ensures
        forall|i: int| from <= i < fields.len() ==> (#[trigger] fields[i]).1 is Ok,
    decreases fields.len() - from,
{
    if from < fields.len() {
        match fields[from].1 {
            Err(e) => {},
            Ok(None) => {
                lemma_assemble_all_ok(fields, from + 1, acc);
            },
            Ok(Some(v)) => {
                lemma_assemble_all_ok(fields, from + 1, acc.insert(fields[from].0, v));
            },
        }
    }
}

/// A name that the object held before, and under which no field gives a
/// value, keeps what it held.
pub proof fn lemma_assemble_keeps(
    fields: Seq<(Seq<char>, Outcome)>,
    from: int,
    acc: Map<Seq<char>, Json>,
    name: Seq<char>,
)
    requires
        0 <= from,
        acc.dom().contains(name),
        silent_after(fields, name, from - 1),
    ensures
        assemble_from(fields, from, acc) matches Ok(m) ==> m.dom().contains(name) && m[name]
            == acc[name],
    decreases fields.len() - from,
{
    if from < fields.len() {
        match fields[from].1 {
            Err(e) => {},
            Ok(None) => {
                lemma_assemble_keeps(fields, from + 1, acc, name);
            },
            Ok(Some(v)) => {
                assert(fields[from].0 != name);
                lemma_assemble_keeps(fields, from + 1, acc.insert(fields[from].0, v), name);
            },
        }
    }
}

/// The object holds the value of a field under its name, where no later
/// field of that name gives a value.
pub proof fn lemma_assemble_holds(
    fields: Seq<(Seq<char>, Outcome)>,
    from: int,
    acc: Map<Seq<char>, Json>,
    i: int,
)
    requires
        0 <= from <= i < fields.len(),
        gives_value(fields[i].1),
        silent_after(fields, fields[i].0, i),
    ensures
        assemble_from(fields, from, acc) matches Ok(m) ==> m.dom().contains(fields[i].0)
            && m[fields[i].0] == fields[i].1->Ok_0->0,
    decreases i - from,
{
    if from < i {
        match fields[from].1 {
            Err(e) => {},
            Ok(None) => {
                lemma_assemble_holds(fields, from + 1, acc, i);
            },
            Ok(Some(v)) => {
                lemma_assemble_holds(fields, from + 1, acc.insert(fields[from].0, v), i);
            },
        }
    } else {
        let v = fields[i].1->Ok_0->0;
        lemma_assemble_keeps(fields, i + 1, acc.insert(fields[i].0, v), fields[i].0);
    }
}

/// Every name of the object was there before or is the name of a field that
/// gives a value.
pub proof fn lemma_assemble_names(
    fields: Seq<(Seq<char>, Outcome)>,
    from: int,
    acc: Map<Seq<char>, Json>,
    name: Seq<char>,
)
    requires
        0 <= from,
        assemble_from(fields, from, acc) is Ok,
        assemble_from(fields, from, acc)->Ok_0.dom().contains(name),
    ensures
        acc.dom().contains(name) || exists|i: int|
            from <= i < fields.len() && (#[trigger] fields[i]).0 == name && gives_value(
                fields[i].1,
            ),
    decreases fields.len() - from,
{
    if from < fields.len() {
        match fields[from].1 {
            Err(e) => {},
            Ok(None) => {
                lemma_assemble_names(fields, from + 1, acc, name);
            },
            Ok(Some(v)) => {
                lemma_assemble_names(fields, from + 1, acc.insert(fields[from].0, v), name);
                if !acc.dom().contains(name) && fields[from].0 != name {
                    let i = choose|i: int|
                        from + 1 <= i < fields.len() && (#[trigger] fields[i]).0 == name
                            && gives_value(fields[i].1);
                    assert(from <= i < fields.len() && fields[i].0 == name);
                }
            },
        }
    }
}

} // verus!
