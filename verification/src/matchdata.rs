//! The names of the capture groups of a match, in the order in which the
//! groups open in the pattern.

use crate::compare::equal;
use crate::interp::{Artichoke, Guard, InterpModel, SlotModel};
use crate::string::{NativeString, StringModel};
use crate::value::{ClassId, Value};
use vstd::prelude::*;
use vstd::slice::slice_to_vec;

verus! {

/// Why the names of a match could not be given.
#[derive(Debug, Clone, Copy, Hash, PartialEq, Eq, Structural)]
pub enum Error {
    Fatal,
}

/// What a named capture group is, to a contract.
pub struct CaptureModel {
    pub name: Seq<u8>,
    pub indexes: Seq<u32>,
}

/// A named capture group of a pattern: its name and the numbers of the
/// groups that carry the name.
pub struct CaptureName {
    pub name: Vec<u8>,
    pub indexes: Vec<u32>,
}

impl View for CaptureName {
    type V = CaptureModel;

    open spec fn view(&self) -> CaptureModel {
        CaptureModel { name: self.name@, indexes: self.indexes@ }
    }
}

/// Capture groups as contracts speak of them.
pub open spec fn capture_models(captures: Seq<CaptureName>) -> Seq<CaptureModel> {
    Seq::new(captures.len(), |i: int| captures[i]@)
}

/// The least of the numbers, and the largest number there is where there is
/// none.
pub open spec fn first_index(indexes: Seq<u32>) -> int
    decreases indexes.len(),
{
    if indexes.len() == 0 {
        u32::MAX as int
    } else if indexes.last() < first_index(indexes.drop_last()) {
        indexes.last() as int
    } else {
        first_index(indexes.drop_last())
    }
}

/// The keys by which capture groups are ordered: for each its least group
/// number.
pub open spec fn keys_of(captures: Seq<CaptureModel>) -> Seq<int> {
    Seq::new(captures.len(), |i: int| first_index(captures[i].indexes))
}

/// True when the position `earlier` comes before the position `later` in
/// the order by key, in which positions of equal key keep their order.
pub open spec fn comes_before(keys: Seq<int>, earlier: int, later: int) -> bool {
    keys[earlier] < keys[later] || (keys[earlier] == keys[later] && earlier < later)
}

/// True when `order` lists the first `count` positions of `keys` by key,
/// those of equal key in their own order.
pub open spec fn is_stable_order(keys: Seq<int>, count: int, order: Seq<int>) -> bool {
    &&& order.len() == count
    &&& forall|i: int| 0 <= i < order.len() ==> 0 <= #[trigger] order[i] < count
    &&& forall|i: int, j: int|
        0 <= i < j < order.len() ==> comes_before(keys, #[trigger] order[i], #[trigger] order[j])
}

/// The order `order` with the position `item` put where its key asks: behind
/// every position whose key is no larger.
pub open spec fn placed(keys: Seq<int>, order: Seq<int>, item: int) -> Seq<int>
    decreases order.len(),
{
    if order.len() == 0 {
        seq![item]
    } else if keys[order.last()] <= keys[item] {
        order.push(item)
    } else {
        placed(keys, order.drop_last(), item).push(order.last())
    }
}

/// The first `count` positions of `keys`, ordered by key, those of equal key
/// in their own order.
pub open spec fn stable_order(keys: Seq<int>, count: int) -> Seq<int>
    decreases count,
{
    if count <= 0 {
        Seq::empty()
    } else {
        placed(keys, stable_order(keys, count - 1), count - 1)
    }
}

/// The names without repeats: of each name its first occurrence stays.
pub open spec fn without_repeats(names: Seq<Seq<u8>>) -> Seq<Seq<u8>>
    decreases names.len(),
{
    if names.len() == 0 {
        Seq::empty()
    } else if without_repeats(names.drop_last()).contains(names.last()) {
        without_repeats(names.drop_last())
    } else {
        without_repeats(names.drop_last()).push(names.last())
    }
}

/// The names of capture groups in the order of their first group numbers,
/// each name once.
pub open spec fn names_in_order(captures: Seq<CaptureModel>) -> Seq<Seq<u8>> {
    let order = stable_order(keys_of(captures), captures.len() as int);
    without_repeats(Seq::new(order.len(), |i: int| captures[order[i]].name))
}

/// Where `placed` puts the position `item`: behind the last entry whose key
/// is no larger.
pub open spec fn place_of(keys: Seq<int>, order: Seq<int>, item: int) -> int
    decreases order.len(),
{
    if order.len() == 0 {
        0
    } else if keys[order.last()] <= keys[item] {
        order.len() as int
    } else {
        place_of(keys, order.drop_last(), item)
    }
}

/// `placed` inserts at `place_of`, behind an entry of no larger key and in
/// front of entries of larger keys only.
pub proof fn lemma_placed_is_insert(keys: Seq<int>, order: Seq<int>, item: int)
    ensures
        0 <= place_of(keys, order, item) <= order.len(),
        placed(keys, order, item) == order.insert(place_of(keys, order, item), item),
        place_of(keys, order, item) > 0 ==> keys[order[place_of(keys, order, item) - 1]]
            <= keys[item],
        forall|i: int|
            place_of(keys, order, item) <= i < order.len() ==> keys[#[trigger] order[i]]
                > keys[item],
    decreases order.len(),
{
    if order.len() == 0 {
        assert(placed(keys, order, item) =~= order.insert(0, item));
    } else if keys[order.last()] <= keys[item] {
        assert(placed(keys, order, item) =~= order.insert(order.len() as int, item));
    } else {
        let shorter = order.drop_last();
        lemma_placed_is_insert(keys, shorter, item);
        let at = place_of(keys, shorter, item);
        assert(shorter.insert(at, item).push(order.last()) =~= order.insert(at, item));
        assert forall|i: int| at <= i < order.len() implies keys[#[trigger] order[i]]
            > keys[item] by {
            if i < shorter.len() {
                assert(shorter[i] == order[i]);
            }
        }
        if at > 0 {
            assert(shorter[at - 1] == order[at - 1]);
        }
    }
}

/// The place is where the entries of larger keys begin.
pub proof fn lemma_place_found(keys: Seq<int>, order: Seq<int>, item: int, at: int)
    requires
        0 <= at <= order.len(),
        at > 0 ==> keys[order[at - 1]] <= keys[item],
        forall|i: int| at <= i < order.len() ==> keys[#[trigger] order[i]] > keys[item],
    ensures
        place_of(keys, order, item) == at,
    decreases order.len(),
{
    if order.len() > 0 {
        if keys[order.last()] <= keys[item] {
            if at < order.len() {
                assert(keys[order[order.len() - 1]] > keys[item]);
            }
        } else {
            let shorter = order.drop_last();
            assert(at < order.len()) by {
                if at == order.len() {
                    assert(keys[order[at - 1]] <= keys[item]);
                }
            }
            assert forall|i: int| at <= i < shorter.len() implies keys[#[trigger] shorter[i]]
                > keys[item] by {
                assert(shorter[i] == order[i]);
            }
            if at > 0 {
                assert(shorter[at - 1] == order[at - 1]);
            }
            lemma_place_found(keys, shorter, item, at);
        }
    }
}

/// Putting the next position into a stable order of the positions before it
/// gives the stable order with it.
pub proof fn lemma_placed_is_stable(keys: Seq<int>, count: int, order: Seq<int>)
    requires
        0 <= count < keys.len(),
        is_stable_order(keys, count, order),
    ensures
        is_stable_order(keys, count + 1, placed(keys, order, count)),
{
    lemma_placed_is_insert(keys, order, count);
    let at = place_of(keys, order, count);
    let result = placed(keys, order, count);
    assert forall|i: int, j: int| 0 <= i < j < result.len() implies comes_before(
        keys,
        #[trigger] result[i],
        #[trigger] result[j],
    ) by {
        if i == at {
            assert(result[j] == order[j - 1]);
        } else if j == at {
            assert(result[i] == order[i]);
            if i < at - 1 {
                assert(comes_before(keys, order[i], order[at - 1]));
            }
        } else {
            let from = if i < at {
                i
            } else {
                i - 1
            };
            let to = if j < at {
                j
            } else {
                j - 1
            };
            assert(comes_before(keys, order[from], order[to]));
        }
    }
    assert forall|i: int| 0 <= i < result.len() implies 0 <= #[trigger] result[i] < count
        + 1 by {
        if i < at {
            assert(result[i] == order[i]);
        } else if i > at {
            assert(result[i] == order[i - 1]);
        }
    }
}

/// The stable order lists every position once, by key, and positions of
/// equal key in their own order.
pub proof fn lemma_stable_order(keys: Seq<int>, count: int)
    requires
        0 <= count <= keys.len(),
    ensures
        is_stable_order(keys, count, stable_order(keys, count)),
        forall|x: int| 0 <= x < count ==> stable_order(keys, count).contains(x),
    decreases count,
{
    if count > 0 {
        lemma_stable_order(keys, count - 1);
        let order = stable_order(keys, count - 1);
        lemma_placed_is_stable(keys, count - 1, order);
        lemma_placed_is_insert(keys, order, count - 1);
        let at = place_of(keys, order, count - 1);
        let result = stable_order(keys, count);
        assert(result == order.insert(at, count - 1));
        assert forall|x: int| 0 <= x < count implies result.contains(x) by {
            if x == count - 1 {
                assert(result[at] == x);
            } else {
                assert(order.contains(x));
                let k = choose|k: int| 0 <= k < order.len() && order[k] == x;
                if k < at {
                    assert(result[k] == x);
                } else {
                    assert(result[k + 1] == x);
                }
            }
        }
    }
}

/// Names as contracts speak of them.
pub open spec fn name_models(names: Seq<Vec<u8>>) -> Seq<Seq<u8>> {
    Seq::new(names.len(), |i: int| names[i]@)
}

/// The least group number of a capture group.
fn least_index(indexes: &Vec<u32>) -> (least: u32)
    ensures
        least == first_index(indexes@),
{
    let mut least: u32 = u32::MAX;
    let mut at: usize = 0;
    while at < indexes.len()
        invariant
            at <= indexes.len(),
            least == first_index(indexes@.take(at as int)),
        decreases indexes.len() - at,
    {
        proof {
            assert(indexes@.take(at + 1).drop_last() =~= indexes@.take(at as int));
        }
        if indexes[at] < least {
            least = indexes[at];
        }
        at += 1;
    }
    proof {
        assert(indexes@.take(indexes.len() as int) =~= indexes@);
    }
    least
}

/// The positions of the capture groups, ordered by their least group
/// numbers, those of equal number in their own order.
fn order_by_first_index(captures: &Vec<CaptureName>) -> (order: Vec<usize>)
    ensures
        order@.len() == captures@.len(),
        forall|i: int| 0 <= i < order@.len() ==> order@[i] < captures@.len(),
        Seq::new(order@.len(), |i: int| order@[i] as int) == stable_order(
            keys_of(capture_models(captures@)),
            captures@.len() as int,
        ),
{
    let ghost keys = keys_of(capture_models(captures@));
    let mut firsts: Vec<u32> = Vec::new();
    let mut at: usize = 0;
    while at < captures.len()
        invariant
            at <= captures.len(),
            firsts.len() == at,
            keys == keys_of(capture_models(captures@)),
            forall|i: int| 0 <= i < at ==> firsts@[i] == keys[i],
        decreases captures.len() - at,
    {
        firsts.push(least_index(&captures[at].indexes));
        at += 1;
    }
    let mut order: Vec<usize> = Vec::new();
    let mut item: usize = 0;
    while item < captures.len()
        invariant
            item <= captures.len(),
            firsts.len() == captures.len(),
            keys.len() == captures.len(),
            forall|i: int| 0 <= i < firsts.len() ==> firsts@[i] == keys[i],
            order@.len() == item,
            forall|i: int| 0 <= i < order@.len() ==> order@[i] < item,
            Seq::new(order@.len(), |i: int| order@[i] as int) == stable_order(keys, item as int),
        decreases captures.len() - item,
    {
        let ghost before = Seq::new(order@.len(), |i: int| order@[i] as int);
        let mut place: usize = order.len();
        while place > 0 && firsts[order[place - 1]] > firsts[item]
            invariant
                place <= order.len(),
                item < captures.len(),
                firsts.len() == captures.len(),
                keys.len() == captures.len(),
                forall|i: int| 0 <= i < firsts.len() ==> firsts@[i] == keys[i],
                forall|i: int| 0 <= i < order@.len() ==> order@[i] < item,
                before == Seq::new(order@.len(), |i: int| order@[i] as int),
                forall|i: int|
                    place <= i < before.len() ==> keys[#[trigger] before[i]] > keys[item as int],
            decreases place,
        {
            place -= 1;
        }
        proof {
            lemma_place_found(keys, before, item as int, place as int);
            lemma_placed_is_insert(keys, before, item as int);
        }
        order.insert(place, item);
        proof {
            let after = Seq::new(order@.len(), |i: int| order@[i] as int);
            assert(after =~= before.insert(place as int, item as int));
            assert forall|i: int| 0 <= i < order@.len() implies order@[i] < item + 1 by {
                if i < place {
                    assert(order@[i] == before[i]);
                } else if i > place {
                    assert(order@[i] == before[i - 1]);
                }
            }
        }
        item += 1;
    }
    order
}

/// The names of the capture groups in the order of their first group
/// numbers, each name once.
pub fn ordered_names(captures: &Vec<CaptureName>) -> (names: Vec<Vec<u8>>)
    ensures
        name_models(names@) == names_in_order(capture_models(captures@)),
{
    let order = order_by_first_index(captures);
    let ghost models = capture_models(captures@);
    let ghost positions = stable_order(keys_of(models), captures@.len() as int);
    let ghost listed = Seq::new(positions.len(), |i: int| models[positions[i]].name);
    let mut names: Vec<Vec<u8>> = Vec::new();
    let mut at: usize = 0;
    while at < order.len()
        invariant
            at <= order.len(),
            order@.len() == captures@.len(),
            forall|i: int| 0 <= i < order@.len() ==> order@[i] < captures@.len(),
            models == capture_models(captures@),
            positions == Seq::new(order@.len(), |i: int| order@[i] as int),
            listed == Seq::new(positions.len(), |i: int| models[positions[i]].name),
            name_models(names@) == without_repeats(listed.take(at as int)),
        decreases order.len() - at,
    {
        let name = &captures[order[at]].name;
        proof {
            assert(listed.take(at + 1).drop_last() =~= listed.take(at as int));
            assert(listed.take(at + 1).last() == name@);
        }
        let mut seen = false;
        let mut k: usize = 0;
        while k < names.len() && !seen
            invariant
                k <= names.len(),
                seen ==> name_models(names@).contains(name@),
                !seen ==> forall|j: int| 0 <= j < k ==> name_models(names@)[j] != name@,
            decreases names.len() - k + if seen { 0int } else { 1int },
        {
            if equal(names[k].as_slice(), name.as_slice()) {
                seen = true;
                proof {
                    assert(name_models(names@)[k as int] == name@);
                }
            } else {
                k += 1;
            }
        }
        if !seen {
            let ghost before = name_models(names@);
            names.push(slice_to_vec(name.as_slice()));
            proof {
                assert(name_models(names@) =~= before.push(name@));
            }
        }
        at += 1;
    }
    proof {
        assert(listed.take(order.len() as int) =~= listed);
    }
    names
}

/// The heap slots that boxing `names` as strings and then an array of them
/// adds to a heap of `base` slots.
pub open spec fn name_slots(base: int, names: Seq<Seq<u8>>) -> Seq<SlotModel> {
    Seq::new(
        names.len(),
        |i: int|
            SlotModel::Str {
                class: ClassId::string(),
                string: StringModel::utf8(names[i]),
            },
    ).push(
        SlotModel::Array {
            class: ClassId::array(),
            items: Seq::new(names.len(), |i: int| Value::HeapRef((base + i) as usize)),
        },
    )
}

/// True when `after` and `value` are what asking for the capture names of
/// `matched` gives from the interpreter `before`: a new array of new strings,
/// one for each name. Values that are no match data, and a heap without room
/// for all of these, are fatal and leave the heap as it was.
pub open spec fn is_names(
    before: Option<InterpModel>,
    matched: Value,
    after: Option<InterpModel>,
    value: Result<Value, Error>,
) -> bool {
    match before {
        None => after is None && value == Err::<Value, Error>(Error::Fatal),
        Some(interp) => match interp.captures_at(matched) {
            None => after == before && value == Err::<Value, Error>(Error::Fatal),
            Some(captures) => {
                let names = names_in_order(captures);
                if interp.heap.len() + names.len() < interp.limit {
                    &&& value == Ok::<Value, Error>(
                        Value::HeapRef((interp.heap.len() + names.len()) as usize),
                    )
                    &&& after == Some(
                        InterpModel {
                            heap: interp.heap + name_slots(interp.heap.len() as int, names),
                            ..interp
                        },
                    )
                } else {
                    after == before && value == Err::<Value, Error>(Error::Fatal)
                }
            },
        },
    }
}

/// The names of the capture groups of the match data `value`, as an array of
/// strings: in the order of their first group numbers, each name once.
pub fn method(interp: &mut Artichoke, value: &Value) -> (names: Result<Value, Error>)
    requires
        old(interp).wf(),
    ensures
        final(interp).wf(),
        is_names(old(interp)@, *value, final(interp)@, names),
{
    let mut guard = match Guard::acquire(interp) {
        Some(guard) => guard,
        None => {
            return Err(Error::Fatal);
        },
    };
    let ghost before = guard@;
    let listed = match guard.unbox_match_data(value) {
        Some(captures) => ordered_names(captures),
        None => {
            guard.release(interp);
            return Err(Error::Fatal);
        },
    };
    let base = guard.heap_len();
    let room = guard.limit() - base;
    if listed.len() >= room {
        guard.release(interp);
        return Err(Error::Fatal);
    }
    let ghost names = name_models(listed@);
    let ghost slots = name_slots(base as int, names);
    let mut items: Vec<Value> = Vec::new();
    let mut at: usize = 0;
    while at < listed.len()
        invariant
            at <= listed.len(),
            names == name_models(listed@),
            slots == name_slots(base as int, names),
            base == before.heap.len(),
            base + listed.len() < before.limit,
            before.wf(),
            guard@.wf(),
            guard@ == (InterpModel { heap: before.heap + slots.take(at as int), ..before }),
            items@ == Seq::new(at as nat, |i: int| Value::HeapRef((base + i) as usize)),
        decreases listed.len() - at,
    {
        let string = NativeString::utf8(slice_to_vec(listed[at].as_slice()));
        proof {
            assert(before.heap + slots.take(at + 1) =~= (before.heap + slots.take(
                at as int,
            )).push(slots[at as int]));
        }
        match NativeString::alloc_value(string, &mut guard) {
            Ok(boxed) => {
                items.push(boxed);
            },
            Err(_) => {},
        }
        proof {
            assert(items@ =~= Seq::new((at + 1) as nat, |i: int| Value::HeapRef((base + i) as usize)));
        }
        at += 1;
    }
    proof {
        assert(before.heap + slots =~= (before.heap + slots.take(listed.len() as int)).push(
            slots[listed.len() as int],
        ));
    }
    let array = guard.alloc_array(items);
    guard.release(interp);
    match array {
        Some(array) => Ok(array),
        None => Err(Error::Fatal),
    }
}

} // verus!
