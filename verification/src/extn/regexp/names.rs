//! `Regexp#names`: the names of the groups of a regular expression.
//!
//! A name is listed once, however many groups carry it, and the names come
//! in the order in which they first occur in the pattern: by the least
//! number among the groups of each name.

use crate::extn::regexp::{spec_captures, Capture, CaptureView};
use crate::interpreter::Mrb;
use crate::text::spec_texts;
use crate::value::{Value, ValueView};
use vstd::prelude::*;
use vstd::string::*;

verus! {

/// Why the names of a regular expression could not be given.
#[derive(Debug, Clone, Copy, Hash, PartialEq, Eq)]
pub enum Error {
    /// The value is no regular expression.
    Fatal,
}

/// The least of the numbers `indexes`; the greatest number there is where
/// there are none.
pub open spec fn spec_first_index(indexes: Seq<u32>) -> u32
    decreases indexes.len(),
{
    if indexes.len() == 0 {
        u32::MAX
    } else {
        let before = spec_first_index(indexes.drop_last());
        if indexes.last() < before {
            indexes.last()
        } else {
            before
        }
    }
}

/// The sequence `sorted` with `capture` put in behind every capture that
/// does not occur later than it.
pub open spec fn spec_insert(sorted: Seq<CaptureView>, capture: CaptureView) -> Seq<CaptureView>
    decreases sorted.len(),
{
    if sorted.len() == 0 {
        seq![capture]
    } else if spec_first_index(sorted.last().indexes) <= spec_first_index(capture.indexes) {
        sorted.push(capture)
    } else {
        spec_insert(sorted.drop_last(), capture).push(sorted.last())
    }
}

/// The captures in the order of their first occurrence; captures that
/// first occur at the same place stay in the order in which they came.
pub open spec fn spec_sort(captures: Seq<CaptureView>) -> Seq<CaptureView>
    decreases captures.len(),
{
    if captures.len() == 0 {
        Seq::empty()
    } else {
        spec_insert(spec_sort(captures.drop_last()), captures.last())
    }
}

/// The names of `names` in order, each at the place where it first stands.
pub open spec fn spec_unique(names: Seq<Seq<char>>) -> Seq<Seq<char>>
    decreases names.len(),
{
    if names.len() == 0 {
        Seq::empty()
    } else {
        let before = spec_unique(names.drop_last());
        if before.contains(names.last()) {
            before
        } else {
            before.push(names.last())
        }
    }
}

/// The names of the captures in order.
pub open spec fn spec_capture_names(captures: Seq<CaptureView>) -> Seq<Seq<char>> {
    Seq::new(captures.len(), |i: int| captures[i].name)
}

/// The names of the groups of a regular expression with the captures
/// `captures`: each name once, in the order of first occurrence.
pub open spec fn spec_names(captures: Seq<CaptureView>) -> Seq<Seq<char>> {
    spec_unique(spec_capture_names(spec_sort(captures)))
}

/// The values of the texts `names`.
pub open spec fn spec_strings(names: Seq<Seq<char>>) -> Seq<ValueView> {
    Seq::new(names.len(), |i: int| ValueView::String(names[i]))
}

/// The least of the numbers `indexes`; the greatest number there is where
/// there are none.
pub fn first_index(indexes: &Vec<u32>) -> (first: u32)
    ensures
        first == spec_first_index(indexes@),
{
    let mut first: u32 = u32::MAX;
    let mut i: usize = 0;
    while i < indexes.len()
        invariant
            i <= indexes@.len(),
            first == spec_first_index(indexes@.take(i as int)),
        decreases indexes@.len() - i,
    {
        proof {
            assert(indexes@.take(i + 1).drop_last() =~= indexes@.take(i as int));
        }
        if indexes[i] < first {
            first = indexes[i];
        }
        i += 1;
    }
    assert(indexes@.take(indexes@.len() as int) =~= indexes@);
    first
}

spec fn picked(captures: Seq<Capture>, order: Seq<usize>) -> Seq<CaptureView> {
    Seq::new(order.len(), |k: int| captures[order[k] as int]@)
}

proof fn lemma_insert_at(sorted: Seq<CaptureView>, capture: CaptureView, place: int)
    requires
        0 <= place <= sorted.len(),
        forall|k: int|
            place <= k < sorted.len() ==> spec_first_index((#[trigger] sorted[k]).indexes)
                > spec_first_index(capture.indexes),
        place > 0 ==> spec_first_index(sorted[place - 1].indexes) <= spec_first_index(
            capture.indexes,
        ),
    ensures
        spec_insert(sorted, capture) == sorted.insert(place, capture),
    decreases sorted.len(),
{
    if sorted.len() == 0 {
        assert(sorted.insert(place, capture) =~= seq![capture]);
    } else if place == sorted.len() {
        assert(sorted.insert(place, capture) =~= sorted.push(capture));
    } else {
        let last = sorted.last();
        assert(spec_first_index(sorted[sorted.len() - 1].indexes) > spec_first_index(
            capture.indexes,
        ));
        lemma_insert_at(sorted.drop_last(), capture, place);
        assert(sorted.insert(place, capture) =~= sorted.drop_last().insert(place, capture).push(
            last,
        ));
    }
}

fn contains(names: &Vec<String>, name: &String) -> (found: bool)
    ensures
        found == spec_texts(names@).contains(name@),
{
    let mut i: usize = 0;
    while i < names.len()
        invariant
            i <= names@.len(),
            forall|k: int| 0 <= k < i ==> spec_texts(names@)[k] != name@,
        decreases names@.len() - i,
    {
        if names[i] == *name {
            assert(spec_texts(names@)[i as int] == name@);
            return true;
        }
        i += 1;
    }
    false
}

/// The names of the groups of a regular expression with the captures
/// `captures`: each name once, in the order of first occurrence.
pub fn names(captures: &Vec<Capture>) -> (names: Vec<String>)
    ensures
        spec_texts(names@) == spec_names(spec_captures(captures@)),
{
    let mut order: Vec<usize> = Vec::new();
    let mut keys: Vec<u32> = Vec::new();
    let mut i: usize = 0;
    assert(picked(captures@, order@) =~= spec_sort(spec_captures(captures@).take(0)));
    while i < captures.len()
        invariant
            i <= captures@.len(),
            order@.len() == i,
            keys@.len() == i,
            forall|k: int| 0 <= k < i ==> (#[trigger] order@[k]) < captures@.len(),
            forall|k: int|
                0 <= k < i ==> #[trigger] keys@[k] == spec_first_index(
                    captures@[order@[k] as int].indexes@,
                ),
            picked(captures@, order@) == spec_sort(spec_captures(captures@).take(i as int)),
        decreases captures@.len() - i,
    {
        let key = first_index(&captures[i].indexes);
        let mut place: usize = order.len();
        while place > 0 && keys[place - 1] > key
            invariant
                place <= keys@.len(),
                forall|k: int| place <= k < keys@.len() ==> #[trigger] keys@[k] > key,
            decreases place,
        {
            place -= 1;
        }
        proof {
            let sorted = picked(captures@, order@);
            let capture = captures@[i as int]@;
            assert forall|k: int| place <= k < sorted.len() implies spec_first_index(
                (#[trigger] sorted[k]).indexes,
            ) > spec_first_index(capture.indexes) by {
                assert(keys@[k] > key);
            }
            if place > 0 {
                assert(keys@[place - 1] <= key);
            }
            lemma_insert_at(sorted, capture, place as int);
            let taken = spec_captures(captures@).take(i + 1);
            assert(taken.drop_last() =~= spec_captures(captures@).take(i as int));
            assert(taken.last() == capture);
            assert(picked(captures@, order@.insert(place as int, i)) =~= sorted.insert(
                place as int,
                capture,
            ));
        }
        order.insert(place, i);
        keys.insert(place, key);
        i += 1;
    }
    assert(spec_captures(captures@).take(captures@.len() as int) =~= spec_captures(captures@));
    let ghost sorted_names = spec_capture_names(spec_sort(spec_captures(captures@)));
    let mut names: Vec<String> = Vec::new();
    let mut k: usize = 0;
    assert(spec_texts(names@) =~= spec_unique(sorted_names.take(0)));
    while k < order.len()
        invariant
            k <= order@.len(),
            order@.len() == captures@.len(),
            forall|j: int| 0 <= j < order@.len() ==> (#[trigger] order@[j]) < captures@.len(),
            picked(captures@, order@) == spec_sort(spec_captures(captures@)),
            sorted_names == spec_capture_names(spec_sort(spec_captures(captures@))),
            spec_texts(names@) == spec_unique(sorted_names.take(k as int)),
        decreases order@.len() - k,
    {
        let name = &captures[order[k]].name;
        proof {
            assert(sorted_names.take(k + 1).drop_last() =~= sorted_names.take(k as int));
            assert(picked(captures@, order@)[k as int] == captures@[order@[k as int] as int]@);
            assert(sorted_names.take(k + 1).last() == name@);
        }
        if !contains(&names, name) {
            let ghost before = names@;
            names.push(name.clone());
            assert(spec_texts(names@) =~= spec_texts(before).push(name@));
        }
        k += 1;
    }
    assert(sorted_names.take(order@.len() as int) =~= sorted_names);
    names
}

/// The names of the groups of the regular expression `value`, as a sequence
/// of texts: each name once, in the order of first occurrence. `Fatal`
/// where `value` is no regular expression.
pub fn method(interp: &Mrb, value: &Value) -> (names: Result<Value, Error>)
    ensures
        match value@ {
            ValueView::Regexp(regexp) => names matches Ok(found) && found@ == ValueView::Array(
                spec_strings(spec_names(regexp.captures)),
            ),
            _ => names == Err::<Value, Error>(Error::Fatal),
        },
{
    match value {
        Value::Regexp(regexp) => {
            let listed = self::names(&regexp.captures);
            let mut items: Vec<Value> = Vec::new();
            let mut i: usize = 0;
            while i < listed.len()
                invariant
                    i <= listed@.len(),
                    items@.len() == i,
                    forall|k: int|
                        0 <= k < i ==> (#[trigger] items@[k])@ == ValueView::String(listed@[k]@),
                decreases listed@.len() - i,
            {
                items.push(Value::String(listed[i].clone()));
                i += 1;
            }
            let found = Value::Array(items);
            assert(found@->Array_0 =~= spec_strings(spec_texts(listed@)));
            Ok(found)
        },
        _ => Err(Error::Fatal),
    }
}

/// Whether the captures `captures` stand in the order of their first
/// occurrence.
pub open spec fn spec_ordered(captures: Seq<CaptureView>) -> bool {
    forall|i: int, j: int|
        0 <= i < j < captures.len() ==> spec_first_index(captures[i].indexes) <= spec_first_index(
            captures[j].indexes,
        )
}

proof fn lemma_insert_ordered(sorted: Seq<CaptureView>, capture: CaptureView)
    requires
        spec_ordered(sorted),
    ensures
        spec_ordered(spec_insert(sorted, capture)),
        spec_insert(sorted, capture).to_multiset() == sorted.to_multiset().insert(capture),
        spec_insert(sorted, capture).len() == sorted.len() + 1,
        forall|k: int|
            0 <= k < spec_insert(sorted, capture).len() ==> #[trigger] spec_insert(
                sorted,
                capture,
            )[k] == capture || sorted.contains(spec_insert(sorted, capture)[k]),
    decreases sorted.len(),
{
    broadcast use vstd::seq_lib::group_to_multiset_ensures;

    let after = spec_insert(sorted, capture);
    if sorted.len() == 0 {
        assert(sorted =~= Seq::<CaptureView>::empty());
        assert(after =~= sorted.push(capture));
    } else if spec_first_index(sorted.last().indexes) <= spec_first_index(capture.indexes) {
        assert forall|k: int| 0 <= k < after.len() implies #[trigger] after[k] == capture
            || sorted.contains(after[k]) by {
            if k < sorted.len() {
                assert(sorted[k] == after[k]);
            }
        }
    } else {
        let front = sorted.drop_last();
        let last = sorted.last();
        assert(sorted =~= front.push(last));
        lemma_insert_ordered(front, capture);
        let inner = spec_insert(front, capture);
        assert(after.to_multiset() =~= sorted.to_multiset().insert(capture));
        assert forall|i: int, j: int| 0 <= i < j < after.len() implies spec_first_index(
            after[i].indexes,
        ) <= spec_first_index(after[j].indexes) by {
            if j == after.len() - 1 {
                assert(after[i] == inner[i]);
                if inner[i] != capture {
                    assert(front.contains(inner[i]));
                    let at = choose|at: int| 0 <= at < front.len() && front[at] == inner[i];
                    assert(sorted[at] == inner[i]);
                }
            } else {
                assert(after[i] == inner[i] && after[j] == inner[j]);
            }
        }
        assert forall|k: int| 0 <= k < after.len() implies #[trigger] after[k] == capture
            || sorted.contains(after[k]) by {
            if k < inner.len() {
                assert(after[k] == inner[k]);
                if inner[k] != capture {
                    let at = choose|at: int| 0 <= at < front.len() && front[at] == inner[k];
                    assert(sorted[at] == inner[k]);
                }
            } else {
                assert(sorted[sorted.len() - 1] == after[k]);
            }
        }
    }
}

/// The names come in the order of first occurrence, and none is lost. The
/// captures, once sorted, stand in the order of their first occurrence, and
/// they are the captures that were given: each as often as it was given.
pub proof fn lemma_sort_ordered(captures: Seq<CaptureView>)
    ensures
        spec_ordered(spec_sort(captures)),
        spec_sort(captures).to_multiset() == captures.to_multiset(),
        spec_sort(captures).len() == captures.len(),
    decreases captures.len(),
{
    broadcast use vstd::seq_lib::group_to_multiset_ensures;

    if captures.len() == 0 {
        assert(captures =~= Seq::<CaptureView>::empty());
    } else {
        lemma_sort_ordered(captures.drop_last());
        lemma_insert_ordered(spec_sort(captures.drop_last()), captures.last());
        assert(captures =~= captures.drop_last().push(captures.last()));
    }
}

/// Every name is listed once. The names, once made unique, hold no name
/// twice, and they hold a name if and only if it was among the names given.
pub proof fn lemma_unique_names(names: Seq<Seq<char>>)
    ensures
        spec_unique(names).no_duplicates(),
        forall|name: Seq<char>| spec_unique(names).contains(name) <==> names.contains(name),
    decreases names.len(),
{
    if names.len() > 0 {
        let front = names.drop_last();
        let last = names.last();
        lemma_unique_names(front);
        let before = spec_unique(front);
        let after = spec_unique(names);
        assert(names =~= front.push(last));
        assert forall|name: Seq<char>| after.contains(name) <==> names.contains(name) by {
            assert(before.contains(name) <==> front.contains(name));
            if front.contains(name) {
                let from = choose|from: int| 0 <= from < front.len() && front[from] == name;
                assert(names[from] == name);
            }
            if before.contains(name) {
                let at = choose|at: int| 0 <= at < before.len() && before[at] == name;
                assert(after[at] == name);
            }
            if name == last {
                assert(names[names.len() - 1] == name);
                if !before.contains(last) {
                    assert(after[after.len() - 1] == name);
                }
            }
            if after.contains(name) && name != last {
                let at = choose|at: int| 0 <= at < after.len() && after[at] == name;
                assert(before[at] == name);
            }
            if names.contains(name) && name != last {
                let from = choose|from: int| 0 <= from < names.len() && names[from] == name;
                assert(front[from] == name);
            }
        }
        if !before.contains(last) {
            assert forall|i: int, j: int| 0 <= i < after.len() && 0 <= j < after.len() && i
                != j implies after[i] != after[j] by {
                if i < before.len() {
                    assert(before[i] == after[i]);
                }
                if j < before.len() {
                    assert(before[j] == after[j]);
                }
            }
        }
    }
}

proof fn lemma_sorted_names(captures: Seq<CaptureView>, name: Seq<char>)
    ensures
        spec_capture_names(spec_sort(captures)).contains(name) <==> spec_capture_names(
            captures,
        ).contains(name),
{
    broadcast use vstd::seq_lib::group_to_multiset_ensures;

    lemma_sort_ordered(captures);
    let sorted = spec_sort(captures);
    if spec_capture_names(sorted).contains(name) {
        let at = choose|at: int|
            0 <= at < spec_capture_names(sorted).len() && spec_capture_names(sorted)[at] == name;
        assert(sorted.contains(sorted[at]));
        assert(sorted.to_multiset().count(sorted[at]) > 0);
        assert(captures.contains(sorted[at]));
        let from = choose|from: int| 0 <= from < captures.len() && captures[from] == sorted[at];
        assert(spec_capture_names(captures)[from] == name);
    }
    if spec_capture_names(captures).contains(name) {
        let from = choose|from: int|
            0 <= from < spec_capture_names(captures).len() && spec_capture_names(captures)[from]
                == name;
        assert(captures.contains(captures[from]));
        assert(captures.to_multiset().count(captures[from]) > 0);
        assert(sorted.contains(captures[from]));
        let at = choose|at: int| 0 <= at < sorted.len() && sorted[at] == captures[from];
        assert(spec_capture_names(sorted)[at] == name);
    }
}

/// The names of a regular expression are the names of its captures, each
/// listed once.
pub proof fn lemma_names_listed_once(captures: Seq<CaptureView>)
    ensures
        spec_names(captures).no_duplicates(),
        forall|name: Seq<char>|
            spec_names(captures).contains(name) <==> spec_capture_names(captures).contains(name),
{
    let sorted_names = spec_capture_names(spec_sort(captures));
    lemma_unique_names(sorted_names);
    assert forall|name: Seq<char>|
        spec_names(captures).contains(name) <==> spec_capture_names(captures).contains(name) by {
        lemma_sorted_names(captures, name);
        assert(spec_unique(sorted_names).contains(name) <==> sorted_names.contains(name));
    }
}

} // verus!
