//! Where JSON meets `serde_json`: reading a text, printing a value, and going from one
//! representation to the other.

use crate::json::{self, Dict, Json, JsonView};
use crate::text;
use vstd::prelude::*;

verus! {

/// The values of `serde_json`. Verus sees nothing inside one; [`tree`] says what it holds.
#[verifier::external_type_specification]
#[verifier::external_body]
pub struct ExValue(serde_json::Value);

/// What a value of `serde_json` holds.
pub uninterp spec fn tree(value: serde_json::Value) -> JsonView;

/// A number that is neither a `u64` nor an `i64`, kept as `serde_json` holds it.
#[derive(Debug)]
pub struct Real {
    value: serde_json::Value,
}

impl Real {
    #[verifier::type_invariant]
    spec fn is_other(self) -> bool {
        tree(self.value) is Other
    }
}

impl View for Real {
    type V = JsonView;

    closed spec fn view(&self) -> JsonView {
        tree(self.value)
    }
}

impl Real {
    /// Such a number is no value of another kind.
    pub(crate) fn observe(&self)
        ensures
            self@ is Other,
    {
        proof {
            use_type_invariant(self);
        }
    }

    /// The same number once more.
    pub fn duplicate(&self) -> (r: Real)
        ensures
            r@ == self@,
    {
        proof {
            use_type_invariant(self);
        }
        Real { value: copied(&self.value) }
    }
}

/// A value of `serde_json` with its outermost layer taken off.
pub enum Layer {
    Null,
    Bool(bool),
    Number(serde_json::Value),
    Text(String),
    Array(Vec<serde_json::Value>),
    Object(Vec<(String, serde_json::Value)>),
}

/// The map that a row of members of `serde_json` values adds up to.
pub open spec fn member_trees(entries: Seq<(String, serde_json::Value)>) -> Map<
    Seq<char>,
    JsonView,
>
    decreases entries.len(),
{
    if entries.len() == 0 {
        Map::empty()
    } else {
        member_trees(entries.drop_last()).insert(entries.last().0@, tree(entries.last().1))
    }
}

impl Layer {
    /// What the layer and everything under it holds.
    pub open spec fn tree(self) -> JsonView {
        match self {
            Layer::Null => JsonView::Null,
            Layer::Bool(b) => JsonView::Bool(b),
            Layer::Number(v) => tree(v),
            Layer::Text(s) => JsonView::Text(s@),
            Layer::Array(items) => JsonView::Array(
                items@.map_values(|v: serde_json::Value| tree(v)),
            ),
            Layer::Object(entries) => JsonView::Object(member_trees(entries@)),
        }
    }
}

/// Tells the variants of `serde_json::Value` apart.
///
/// What the value holds is what its layer holds. A number is a `u64`, an `i64` below zero or
/// another number, and no two members of an object have the same name.
#[verifier::external_body]
fn take_apart(value: serde_json::Value) -> (r: Layer)
    ensures
        tree(value) == r.tree(),
        r matches Layer::Number(v) ==> tree(v) is Unsigned || (tree(v) matches JsonView::Negative(n)
            && n < 0) || tree(v) is Other,
        r matches Layer::Object(entries) ==> forall|i: int, j: int|
            0 <= i < j < entries@.len() ==> (#[trigger] entries@[i]).0@ != (#[trigger] entries@[j]).0@,
{
    match value {
        serde_json::Value::Null => Layer::Null,
        serde_json::Value::Bool(b) => Layer::Bool(b),
        serde_json::Value::Number(n) => Layer::Number(serde_json::Value::Number(n)),
        serde_json::Value::String(s) => Layer::Text(s),
        serde_json::Value::Array(items) => Layer::Array(items),
        serde_json::Value::Object(map) => Layer::Object(map.into_iter().collect()),
    }
}

/// Builds the variant of `serde_json::Value` that a layer stands for; the members of an object
/// are collected into a `serde_json::Map`, and no two of them may have the same name.
///
/// The value holds what the layer holds.
#[verifier::external_body]
fn put_together(layer: Layer) -> (r: serde_json::Value)
    requires
        layer matches Layer::Object(entries) ==> forall|i: int, j: int|
            0 <= i < j < entries@.len() ==> (#[trigger] entries@[i]).0@ != (#[trigger] entries@[j]).0@,
    ensures
        tree(r) == layer.tree(),
{
    match layer {
        Layer::Null => serde_json::Value::Null,
        Layer::Bool(b) => serde_json::Value::Bool(b),
        Layer::Number(v) => v,
        Layer::Text(s) => serde_json::Value::String(s),
        Layer::Array(items) => serde_json::Value::Array(items),
        Layer::Object(entries) => serde_json::Value::Object(entries.into_iter().collect()),
    }
}

/// `serde_json::Value::as_u64`: the number, where the value is a number that is a `u64`, and
/// nothing for every other value.
pub assume_specification[ serde_json::Value::as_u64 ](value: &serde_json::Value) -> (r: Option<u64>)
    ensures
        r == tree(*value).as_unsigned(),
;

/// The number that a value holds, where an `i64` can hold it.
pub open spec fn signed_of(value: JsonView) -> Option<i64> {
    match value {
        JsonView::Unsigned(n) => if n <= i64::MAX {
            Some(n as i64)
        } else {
            None
        },
        JsonView::Negative(n) => Some(n),
        _ => None,
    }
}

/// `serde_json::Value::as_i64`: the number, where the value is a whole number that an `i64` can
/// hold, and nothing for every other value.
pub assume_specification[ serde_json::Value::as_i64 ](value: &serde_json::Value) -> (r: Option<i64>)
    ensures
        r == signed_of(tree(*value)),
;

/// `serde_json::Value::from` on an `i64`: the number itself, which is a `u64` unless it is below
/// zero.
#[verifier::external_body]
fn signed(n: i64) -> (r: serde_json::Value)
    ensures
        tree(r) == json::whole(n),
{
    serde_json::Value::from(n)
}

/// `serde_json::Value::from` on a `u64`: the number itself.
#[verifier::external_body]
fn numbered(n: u64) -> (r: serde_json::Value)
    ensures
        tree(r) == JsonView::Unsigned(n),
{
    serde_json::Value::from(n)
}

/// `serde_json::Value::clone`: a value that holds the same.
#[verifier::external_body]
fn copied(value: &serde_json::Value) -> (r: serde_json::Value)
    ensures
        tree(r) == tree(*value),
{
    value.clone()
}

/// What `serde_json::from_str` makes of a text, or nothing where the text is not one JSON value.
pub uninterp spec fn parsed(text: Seq<char>) -> Option<JsonView>;

/// What `serde_json` prints for a value, on one line.
pub uninterp spec fn printed(value: JsonView) -> Seq<char>;

/// Whether a value is nested at most `depth` deep and holds no number but those of `u64` and `i64`.
pub open spec fn is_shallow(value: JsonView, depth: nat) -> bool
    decreases depth,
{
    match value {
        JsonView::Other(_) => false,
        JsonView::Array(items) => depth > 0 && forall|i: int|
            0 <= i < items.len() ==> is_shallow(#[trigger] items[i], (depth - 1) as nat),
        JsonView::Object(map) => depth > 0 && forall|key: Seq<char>|
            map.contains_key(key) ==> is_shallow(#[trigger] map[key], (depth - 1) as nat),
        _ => true,
    }
}

/// `serde_json::from_str` on a `serde_json::Value`: a function of the text alone.
#[verifier::external_body]
fn value_from_str(text: &str) -> (r: Option<serde_json::Value>)
    ensures
        r is Some <==> parsed(text@) is Some,
        r matches Some(v) ==> parsed(text@) == Some(tree(v)),
{
    serde_json::from_str(text).ok()
}

/// `serde_json::Value` by its `Display`: compact, and a function of what the value holds alone.
///
/// The text begins and ends with a character of visible ASCII. No control character is in it:
/// inside a string each is written as an escape, and between the parts there is no white space.
/// A value that is not nested too deep for the reader, and that holds no number but those of
/// `u64` and `i64`, is read back from its text as it was. Of other numbers nothing is said: the
/// reader need not give back the same floating-point number.
#[verifier::external_body]
fn value_to_string(value: &serde_json::Value) -> (r: String)
    ensures
        r@ == printed(tree(*value)),
        r@.len() > 0,
        '!' <= r@[0] <= '~',
        '!' <= r@[r@.len() - 1] <= '~',
        forall|i: int| 0 <= i < r@.len() ==> ' ' <= #[trigger] r@[i],
        is_shallow(tree(*value), 127) ==> parsed(r@) == Some(tree(*value)),
{
    value.to_string()
}

proof fn lemma_member_trees_finite(entries: Seq<(String, serde_json::Value)>)
    ensures
        member_trees(entries).dom().finite(),
    decreases entries.len(),
{
    if entries.len() > 0 {
        lemma_member_trees_finite(entries.drop_last());
    }
}

proof fn lemma_member_tree(entries: Seq<(String, serde_json::Value)>, i: int)
    requires
        0 <= i < entries.len(),
        forall|j: int| i < j < entries.len() ==> entries[i].0@ != (#[trigger] entries[j]).0@,
    ensures
        member_trees(entries).contains_key(entries[i].0@),
        member_trees(entries)[entries[i].0@] == tree(entries[i].1),
    decreases entries.len(),
{
    if i < entries.len() - 1 {
        lemma_member_tree(entries.drop_last(), i);
    }
}

/// The value that `serde_json` holds, in this crate's form.
pub fn from_value(value: serde_json::Value) -> (r: Json)
    ensures
        r@ == tree(value),
    decreases tree(value),
{
    match take_apart(value) {
        Layer::Null => Json::Null,
        Layer::Bool(b) => Json::Bool(b),
        Layer::Number(v) => match v.as_u64() {
            Some(n) => Json::Unsigned(n),
            None => match v.as_i64() {
                Some(n) => Json::Signed(n),
                None => Json::Other(Real { value: v }),
            },
        },
        Layer::Text(s) => Json::Text(s),
        Layer::Array(items) => {
            let ghost trees = items@.map_values(|v: serde_json::Value| tree(v));
            let ghost all = items@;
            let mut out: Vec<Json> = Vec::new();
            for item in it: items
                invariant
                    it.seq() == all,
                    trees == all.map_values(|v: serde_json::Value| tree(v)),
                    tree(value) == JsonView::Array(trees),
                    out@.len() == it.index(),
                    forall|k: int| 0 <= k < out@.len() ==> (#[trigger] out@[k])@ == trees[k],
            {
                assert(trees[out@.len() as int] == tree(item));
                assert(decreases_to!(tree(value) => tree(value)->Array_0));
                assert(decreases_to!(trees => trees[out@.len() as int]));
                out.push(from_value(item));
            }
            let r = Json::Array(out);
            assert(r@->Array_0 =~= trees);
            r
        },
        Layer::Object(entries) => {
            let ghost all = entries@;
            let ghost map = member_trees(all);
            let mut out: Vec<(String, Json)> = Vec::new();
            for entry in it: entries
                invariant
                    it.seq() == all,
                    map == member_trees(all),
                    tree(value) == JsonView::Object(map),
                    forall|i: int, j: int|
                        0 <= i < j < all.len() ==> (#[trigger] all[i]).0@ != (#[trigger] all[j]).0@,
                    out@.len() == it.index(),
                    json::members(out@) == member_trees(all.take(out@.len() as int)),
            {
                proof {
                    lemma_member_tree(all, out@.len() as int);
                    lemma_member_trees_finite(all);
                    let key = entry.0@;
                    assert(decreases_to!(tree(value) => tree(value)->Object_0));
                    assert(decreases_to!(map => map[key]));
                    assert(all.take(out@.len() as int + 1).drop_last() =~= all.take(out@.len() as int));
                }
                let ghost before = out@;
                let (name, inner) = entry;
                out.push((name, from_value(inner)));
                assert(out@.drop_last() =~= before);
            }
            assert(all.take(out@.len() as int) =~= all);
            Json::Object(Dict { entries: out })
        },
    }
}

/// Whether a name stands at or behind a place in a row of members.
pub open spec fn is_named_from(entries: Seq<(String, Json)>, from: int, name: Seq<char>) -> bool {
    exists|j: int| from <= j < entries.len() && (#[trigger] entries[j]).0@ == name
}

fn named_from(entries: &Vec<(String, Json)>, from: usize, name: &str) -> (r: bool)
    requires
        from <= entries@.len(),
    ensures
        r == is_named_from(entries@, from as int, name@),
{
    let mut i: usize = from;
    while i < entries.len()
        invariant
            from <= i <= entries@.len(),
            forall|j: int| from <= j < i ==> (#[trigger] entries@[j]).0@ != name@,
        decreases entries@.len() - i,
    {
        if text::same(entries[i].0.as_str(), name) {
            return true;
        }
        i += 1;
    }
    false
}

/// Whether the `serde_json` members `out` are what the first `n` of a row of members come down to
/// without those whose name stands once more behind.
spec fn is_gathered(
    out: Seq<(String, serde_json::Value)>,
    entries: Seq<(String, Json)>,
    n: int,
) -> bool {
    &&& forall|i: int, j: int|
        0 <= i < j < out.len() ==> (#[trigger] out[i]).0@ != (#[trigger] out[j]).0@
    &&& forall|i: int|
        0 <= i < out.len() ==> !is_named_from(entries, n, (#[trigger] out[i]).0@)
    &&& forall|key: Seq<char>|
        !is_named_from(entries, n, key) ==> #[trigger] json::find(member_trees(out), key)
            == json::find(json::members(entries.take(n)), key)
}

proof fn lemma_gathered(
    out: Seq<(String, serde_json::Value)>,
    next: Seq<(String, serde_json::Value)>,
    entries: Seq<(String, Json)>,
    n: int,
)
    requires
        0 <= n < entries.len(),
        is_gathered(out, entries, n),
        if is_named_from(entries, n + 1, entries[n].0@) {
            next == out
        } else {
            next.len() == out.len() + 1 && next.drop_last() == out && next.last().0@
                == entries[n].0@ && tree(next.last().1) == entries[n].1@
        },
    ensures
        is_gathered(next, entries, n + 1),
{
    let name = entries[n].0@;
    let before = entries.take(n);
    assert(entries.take(n + 1).drop_last() =~= before);
    assert(entries.take(n + 1).last() == entries[n]);
    assert(is_named_from(entries, n, name)) by {
        assert(entries[n].0@ == name);
    }
    assert forall|key: Seq<char>| key != name implies is_named_from(entries, n, key)
        == is_named_from(entries, n + 1, key) by {
        if is_named_from(entries, n, key) {
            let j = choose|j: int| n <= j < entries.len() && (#[trigger] entries[j]).0@ == key;
            assert(j != n);
        }
    }
    assert forall|i: int| 0 <= i < next.len() implies !is_named_from(
        entries,
        n + 1,
        (#[trigger] next[i]).0@,
    ) by {
        if i < out.len() {
            assert(next[i] == out[i]);
            assert(out[i].0@ != name);
        }
    }
    assert forall|i: int, j: int| 0 <= i < j < next.len() implies (#[trigger] next[i]).0@ != (
    #[trigger] next[j]).0@ by {
        assert(next[i] == out[i]);
        if j < out.len() {
            assert(next[j] == out[j]);
        }
    }
    assert forall|key: Seq<char>| !is_named_from(entries, n + 1, key) implies #[trigger] json::find(
        member_trees(next),
        key,
    ) == json::find(json::members(entries.take(n + 1)), key) by {
        if key != name {
            assert(json::find(member_trees(out), key) == json::find(json::members(before), key));
        }
    }
}

proof fn lemma_all_gathered(
    out: Seq<(String, serde_json::Value)>,
    entries: Seq<(String, Json)>,
)
    requires
        is_gathered(out, entries, entries.len() as int),
    ensures
        member_trees(out) == json::members(entries),
{
    let trees = member_trees(out);
    let all = json::members(entries);
    assert(entries.take(entries.len() as int) =~= entries);
    assert forall|key: Seq<char>|
        #![trigger trees.dom().contains(key)]
        #![trigger all.dom().contains(key)]
        trees.dom().contains(key) == all.dom().contains(key) && (trees.dom().contains(key)
            ==> trees[key] == all[key]) by {
        assert(!is_named_from(entries, entries.len() as int, key));
        assert(json::find(trees, key) == json::find(all, key));
    }
    assert(trees.dom() =~= all.dom());
    assert(trees =~= all);
}

/// The same value in the form of `serde_json`. Of members with one name the last counts.
pub fn to_value(json: &Json) -> (r: serde_json::Value)
    ensures
        tree(r) == json@,
    decreases json,
{
    match json {
        Json::Null => put_together(Layer::Null),
        Json::Bool(b) => put_together(Layer::Bool(*b)),
        Json::Unsigned(n) => numbered(*n),
        Json::Signed(n) => signed(*n),
        Json::Other(number) => copied(&number.value),
        Json::Text(s) => put_together(Layer::Text(s.clone())),
        Json::Array(items) => {
            let mut out: Vec<serde_json::Value> = Vec::new();
            let mut i: usize = 0;
            while i < items.len()
                invariant
                    json == Json::Array(*items),
                    i <= items@.len(),
                    out@.len() == i,
                    forall|k: int| 0 <= k < i ==> tree(#[trigger] out@[k]) == items@[k]@,
                decreases items@.len() - i,
            {
                assert(decreases_to!(json => json->Array_0@[i as int]));
                out.push(to_value(&items[i]));
                i += 1;
            }
            proof {
                assert(out@.map_values(|v: serde_json::Value| tree(v)) =~= json@->Array_0);
            }
            put_together(Layer::Array(out))
        },
        Json::Object(dict) => {
            let mut out: Vec<(String, serde_json::Value)> = Vec::new();
            let mut i: usize = 0;
            while i < dict.entries.len()
                invariant
                    json == Json::Object(*dict),
                    i <= dict.entries@.len(),
                    is_gathered(out@, dict.entries@, i as int),
                decreases dict.entries@.len() - i,
            {
                let ghost before = out@;
                if !named_from(&dict.entries, i + 1, dict.entries[i].0.as_str()) {
                    assert(decreases_to!(json => json->Object_0.entries@[i as int].1));
                    out.push((dict.entries[i].0.clone(), to_value(&dict.entries[i].1)));
                    assert(out@.drop_last() =~= before);
                }
                proof {
                    lemma_gathered(before, out@, dict.entries@, i as int);
                }
                i += 1;
            }
            proof {
                lemma_all_gathered(out@, dict.entries@);
            }
            put_together(Layer::Object(out))
        },
    }
}

/// The value that a text spells, if it spells one.
pub fn parse(text: &str) -> (r: Option<Json>)
    ensures
        r.deep_view() == parsed(text@),
{
    match value_from_str(text) {
        Some(v) => Some(from_value(v)),
        None => None,
    }
}

/// A value as one line of text.
///
/// The line has no control character in it, begins and ends with visible ASCII, and spells the
/// value again where the value is not nested too deep.
pub fn print(json: &Json) -> (r: String)
    ensures
        r@ == printed(json@),
        r@.len() > 0,
        '!' <= r@[0] <= '~',
        '!' <= r@[r@.len() - 1] <= '~',
        forall|i: int| 0 <= i < r@.len() ==> ' ' <= #[trigger] r@[i],
        is_shallow(json@, 127) ==> parsed(r@) == Some(json@),
{
    let value = to_value(json);
    value_to_string(&value)
}

} // verus!
