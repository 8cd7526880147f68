//! JSON as this crate reads and writes it.
//!
//! [`Json`] is the value that is passed around, [`JsonView`] what it means: an object is a map
//! from names to values, so the order in which its members stand says nothing.

use crate::codec::Real;
use crate::text;
use vstd::prelude::*;

verus! {

/// A JSON value.
#[derive(Debug)]
pub enum Json {
    Null,
    Bool(bool),
    /// A whole number from zero up to the largest `u64`.
    Unsigned(u64),
    /// A whole number of `i64`. One that is not negative means the same as the unsigned one.
    Signed(i64),
    /// Any other number. Nothing here reads one; it is handed on as it came.
    Other(Real),
    Text(String),
    Array(Vec<Json>),
    Object(Dict),
}

/// Members by name. Where a name stands twice, the later one counts.
#[derive(Debug)]
pub struct Dict {
    pub entries: Vec<(String, Json)>,
}

/// What a JSON value means.
pub enum JsonView {
    Null,
    Bool(bool),
    Unsigned(u64),
    /// A whole number below zero, down to the least `i64`.
    Negative(i64),
    /// Any other number, by the text that stands for it.
    Other(Seq<char>),
    Text(Seq<char>),
    Array(Seq<JsonView>),
    Object(Map<Seq<char>, JsonView>),
}

/// What a whole number of `i64` means.
pub open spec fn whole(n: i64) -> JsonView {
    if n < 0 {
        JsonView::Negative(n)
    } else {
        JsonView::Unsigned(n as u64)
    }
}

/// What `json` means.
pub open spec fn meaning(json: Json) -> JsonView
    decreases json,
{
    match json {
        Json::Null => JsonView::Null,
        Json::Bool(b) => JsonView::Bool(b),
        Json::Unsigned(n) => JsonView::Unsigned(n),
        Json::Signed(n) => whole(n),
        Json::Other(number) => number@,
        Json::Text(s) => JsonView::Text(s@),
        Json::Array(items) => JsonView::Array(
            Seq::new(
                items@.len(),
                |i: int|
                    if 0 <= i < items@.len() {
                        meaning(items@[i])
                    } else {
                        JsonView::Null
                    },
            ),
        ),
        Json::Object(dict) => JsonView::Object(members(dict.entries@)),
    }
}

/// The map that a row of members adds up to.
pub open spec fn members(entries: Seq<(String, Json)>) -> Map<Seq<char>, JsonView>
    decreases entries,
{
    if entries.len() == 0 {
        Map::empty()
    } else {
        members(entries.drop_last()).insert(entries.last().0@, meaning(entries.last().1))
    }
}

impl View for Json {
    type V = JsonView;

    open spec fn view(&self) -> JsonView {
        meaning(*self)
    }
}

impl DeepView for Json {
    type V = JsonView;

    open spec fn deep_view(&self) -> JsonView {
        meaning(*self)
    }
}

impl View for Dict {
    type V = Map<Seq<char>, JsonView>;

    open spec fn view(&self) -> Map<Seq<char>, JsonView> {
        members(self.entries@)
    }
}

impl DeepView for Dict {
    type V = Map<Seq<char>, JsonView>;

    open spec fn deep_view(&self) -> Map<Seq<char>, JsonView> {
        members(self.entries@)
    }
}

/// The value of a map at `key`, if it has one.
pub open spec fn find<V>(map: Map<Seq<char>, V>, key: Seq<char>) -> Option<V> {
    if map.contains_key(key) {
        Some(map[key])
    } else {
        None
    }
}

impl JsonView {
    /// The text that this value is, if it is one.
    pub open spec fn as_text(self) -> Option<Seq<char>> {
        match self {
            JsonView::Text(s) => Some(s),
            _ => None,
        }
    }

    /// The unsigned number that this value is, if it is one.
    pub open spec fn as_unsigned(self) -> Option<u64> {
        match self {
            JsonView::Unsigned(n) => Some(n),
            _ => None,
        }
    }

    /// The truth value that this value is, if it is one.
    pub open spec fn as_bool(self) -> Option<bool> {
        match self {
            JsonView::Bool(b) => Some(b),
            _ => None,
        }
    }

    /// The items of this value, if it is an array.
    pub open spec fn as_items(self) -> Option<Seq<JsonView>> {
        match self {
            JsonView::Array(items) => Some(items),
            _ => None,
        }
    }

    /// The members of this value, if it is an object.
    pub open spec fn as_members(self) -> Option<Map<Seq<char>, JsonView>> {
        match self {
            JsonView::Object(m) => Some(m),
            _ => None,
        }
    }

    /// The member named `key`, if this value is an object that has one.
    pub open spec fn get(self, key: Seq<char>) -> Option<JsonView> {
        match self {
            JsonView::Object(m) => find(m, key),
            _ => None,
        }
    }

    /// The member `b` of the member `a`.
    pub open spec fn get2(self, a: Seq<char>, b: Seq<char>) -> Option<JsonView> {
        match self.get(a) {
            Some(v) => v.get(b),
            None => None,
        }
    }

    /// The member `c` of the member `b` of the member `a`.
    pub open spec fn get3(self, a: Seq<char>, b: Seq<char>, c: Seq<char>) -> Option<JsonView> {
        match self.get2(a, b) {
            Some(v) => v.get(c),
            None => None,
        }
    }

    /// What the path step `0` leads to: the first item of an array, or the member of that name.
    pub open spec fn head(self) -> Option<JsonView> {
        match self {
            JsonView::Array(items) => if items.len() > 0 {
                Some(items[0])
            } else {
                None
            },
            _ => self.get("0"@),
        }
    }
}

/// The text that an optional value is.
pub open spec fn text_of(v: Option<JsonView>) -> Option<Seq<char>> {
    match v {
        Some(x) => x.as_text(),
        None => None,
    }
}

/// The text that an optional value is, or the empty text.
pub open spec fn text_or_empty(v: Option<JsonView>) -> Seq<char> {
    match text_of(v) {
        Some(s) => s,
        None => Seq::empty(),
    }
}

/// The unsigned number that an optional value is.
pub open spec fn unsigned_of(v: Option<JsonView>) -> Option<u64> {
    match v {
        Some(x) => x.as_unsigned(),
        None => None,
    }
}

/// The truth value that an optional value is.
pub open spec fn bool_of(v: Option<JsonView>) -> Option<bool> {
    match v {
        Some(x) => x.as_bool(),
        None => None,
    }
}

/// The items of an optional value.
pub open spec fn items_of(v: Option<JsonView>) -> Option<Seq<JsonView>> {
    match v {
        Some(x) => x.as_items(),
        None => None,
    }
}

/// The items of an optional value, or none.
pub open spec fn items_or_empty(v: Option<JsonView>) -> Seq<JsonView> {
    match items_of(v) {
        Some(s) => s,
        None => Seq::empty(),
    }
}

proof fn lemma_members_without(entries: Seq<(String, Json)>, n: int, key: Seq<char>)
    requires
        0 <= n <= entries.len(),
        forall|i: int| n <= i < entries.len() ==> (#[trigger] entries[i]).0@ != key,
    ensures
        find(members(entries), key) == find(members(entries.take(n)), key),
    decreases entries.len() - n,
{
    if n == entries.len() {
        assert(entries.take(n) =~= entries);
    } else {
        let e = entries.drop_last();
        lemma_members_without(e, n, key);
        assert(e.take(n) =~= entries.take(n));
    }
}

proof fn lemma_members_update(entries: Seq<(String, Json)>, n: int, entry: (String, Json))
    requires
        0 <= n < entries.len(),
        entries[n].0@ == entry.0@,
        forall|i: int| n < i < entries.len() ==> (#[trigger] entries[i]).0@ != entry.0@,
    ensures
        members(entries.update(n, entry)) == members(entries).insert(entry.0@, meaning(entry.1)),
    decreases entries.len(),
{
    let e = entries.drop_last();
    let after = entries.update(n, entry);
    if n == entries.len() - 1 {
        assert(after.drop_last() =~= e);
        assert(members(after) =~= members(entries).insert(entry.0@, meaning(entry.1)));
    } else {
        lemma_members_update(e, n, entry);
        assert(after.drop_last() =~= e.update(n, entry));
        assert(members(after) =~= members(entries).insert(entry.0@, meaning(entry.1)));
    }
}

impl Dict {
    /// No members.
    pub fn new() -> (r: Self)
        ensures
            r@ == Map::<Seq<char>, JsonView>::empty(),
    {
        Dict { entries: Vec::new() }
    }

    /// Where the member that counts for `key` stands.
    fn position(&self, key: &str) -> (r: Option<usize>)
        ensures
            r matches Some(n) ==> n < self.entries@.len() && self.entries@[n as int].0@ == key@ && (
            forall|i: int| n < i < self.entries@.len() ==> (#[trigger] self.entries@[i]).0@ != key@)
                && find(self@, key@) == Some(self.entries@[n as int].1@),
            r is None ==> (forall|i: int|
                0 <= i < self.entries@.len() ==> (#[trigger] self.entries@[i]).0@ != key@) && find(
                self@,
                key@,
            ) is None,
    {
        let mut n: usize = self.entries.len();
        while n > 0
            invariant
                n <= self.entries@.len(),
                forall|i: int|
                    n <= i < self.entries@.len() ==> (#[trigger] self.entries@[i]).0@ != key@,
            decreases n,
        {
            n -= 1;
            if text::same(self.entries[n].0.as_str(), key) {
                proof {
                    let e = self.entries@.take(n + 1);
                    lemma_members_without(self.entries@, n + 1, key@);
                    assert(e.last() == self.entries@[n as int]);
                }
                return Some(n);
            }
        }
        proof {
            lemma_members_without(self.entries@, 0, key@);
            assert(self.entries@.take(0) =~= Seq::<(String, Json)>::empty());
        }
        None
    }

    /// The value of the member named `key`.
    pub fn get(&self, key: &str) -> (r: Option<&Json>)
        ensures
            r.deep_view() == find(self@, key@),
    {
        match self.position(key) {
            Some(n) => Some(&self.entries[n].1),
            None => None,
        }
    }

    /// Set the member named `key`.
    pub fn insert(&mut self, key: &str, value: Json)
        ensures
            final(self)@ == old(self)@.insert(key@, value@),
    {
        match self.position(key) {
            Some(n) => {
                proof {
                    lemma_members_update(self.entries@, n as int, (self.entries@[n as int].0, value));
                }
                self.entries[n].1 = value;
            },
            None => {
                let ghost before = self.entries@;
                self.entries.push((key.to_owned(), value));
                proof {
                    assert(self.entries@.drop_last() =~= before);
                }
            },
        }
    }

    /// Take the member named `key` out.
    pub fn remove(&mut self, key: &str)
        ensures
            final(self)@ == old(self)@.remove(key@),
    {
        let ghost all = self.entries@;
        let mut i: usize = 0;
        while i < self.entries.len()
            invariant
                i <= self.entries@.len() <= all.len(),
                members(self.entries@.take(i as int)) == members(
                    all.take(i + all.len() - self.entries@.len()),
                ).remove(key@),
                forall|k: int|
                    i <= k < self.entries@.len() ==> #[trigger] self.entries@[k] == all[k + all.len()
                        - self.entries@.len()],
            decreases self.entries@.len() - i,
        {
            let ghost before = self.entries@;
            let ghost j = i + all.len() - before.len();
            proof {
                assert(before[i as int] == all[j]);
                assert(all.take(j + 1).drop_last() =~= all.take(j));
            }
            if text::same(self.entries[i].0.as_str(), key) {
                let gone = self.entries.remove(i);
                proof {
                    assert(self.entries@.take(i as int) =~= before.take(i as int));
                    assert(members(all.take(j + 1)).remove(key@) =~= members(all.take(j)).remove(
                        key@,
                    ));
                    assert forall|k: int|
                        i <= k < self.entries@.len() implies #[trigger] self.entries@[k] == all[k
                        + all.len() - self.entries@.len()] by {
                        assert(self.entries@[k] == before[k + 1]);
                    }
                }
            } else {
                proof {
                    let t = before.take(i + 1);
                    assert(t.drop_last() =~= before.take(i as int));
                    assert(members(all.take(j + 1)).remove(key@) =~= members(all.take(j)).remove(
                        key@,
                    ).insert(all[j].0@, meaning(all[j].1)));
                }
                i += 1;
            }
        }
        proof {
            assert(self.entries@.take(i as int) =~= self.entries@);
            assert(all.take(all.len() as int) =~= all);
        }
    }
}

impl Clone for Dict {
    fn clone(&self) -> (r: Self)
        ensures
            r@ == self@,
    {
        let mut out: Vec<(String, Json)> = Vec::new();
        let mut i: usize = 0;
        while i < self.entries.len()
            invariant
                i <= self.entries@.len(),
                members(out@) == members(self.entries@.take(i as int)),
            decreases self.entries@.len() - i,
        {
            let ghost before = out@;
            out.push((self.entries[i].0.clone(), self.entries[i].1.clone()));
            proof {
                assert(out@.drop_last() =~= before);
                assert(self.entries@.take(i + 1).drop_last() =~= self.entries@.take(i as int));
            }
            i += 1;
        }
        assert(self.entries@.take(i as int) =~= self.entries@);
        Dict { entries: out }
    }
}

impl Clone for Json {
    fn clone(&self) -> (r: Self)
        ensures
            r@ == self@,
        decreases self,
    {
        match self {
            Json::Null => Json::Null,
            Json::Bool(b) => Json::Bool(*b),
            Json::Unsigned(n) => Json::Unsigned(*n),
            Json::Signed(n) => Json::Signed(*n),
            Json::Other(number) => Json::Other(number.duplicate()),
            Json::Text(s) => Json::Text(s.clone()),
            Json::Array(items) => {
                let mut out: Vec<Json> = Vec::new();
                let mut i: usize = 0;
                while i < items.len()
                    invariant
                        self == Json::Array(*items),
                        i <= items@.len(),
                        out@.len() == i,
                        forall|k: int| 0 <= k < i ==> (#[trigger] out@[k])@ == items@[k]@,
                    decreases items@.len() - i,
                {
                    assert(decreases_to!(self => self->Array_0@[i as int]));
                    out.push(items[i].clone());
                    i += 1;
                }
                let r = Json::Array(out);
                assert(r@->Array_0 =~= self@->Array_0);
                r
            },
            Json::Object(dict) => {
                let mut out: Vec<(String, Json)> = Vec::new();
                let mut i: usize = 0;
                while i < dict.entries.len()
                    invariant
                        self == Json::Object(*dict),
                        i <= dict.entries@.len(),
                        out@.len() == i,
                        members(out@) == members(dict.entries@.take(i as int)),
                    decreases dict.entries@.len() - i,
                {
                    let ghost before = out@;
                    assert(decreases_to!(self => self->Object_0.entries@[i as int].1));
                    out.push((dict.entries[i].0.clone(), dict.entries[i].1.clone()));
                    proof {
                        assert(out@.drop_last() =~= before);
                        assert(dict.entries@.take(i + 1).drop_last() =~= dict.entries@.take(
                            i as int,
                        ));
                    }
                    i += 1;
                }
                assert(dict.entries@.take(i as int) =~= dict.entries@);
                Json::Object(Dict { entries: out })
            },
        }
    }
}

impl Json {
    /// The text that this value is, if it is one.
    pub fn as_str(&self) -> (r: Option<&str>)
        ensures
            r.deep_view() == self@.as_text(),
    {
        match self {
            Json::Text(s) => Some(s.as_str()),
            Json::Other(number) => {
                number.observe();
                None
            },
            _ => None,
        }
    }

    /// The unsigned number that this value is, if it is one.
    pub fn as_u64(&self) -> (r: Option<u64>)
        ensures
            r == self@.as_unsigned(),
    {
        match self {
            Json::Unsigned(n) => Some(*n),
            Json::Signed(n) => if *n < 0 {
                None
            } else {
                Some(*n as u64)
            },
            Json::Other(number) => {
                number.observe();
                None
            },
            _ => None,
        }
    }

    /// The truth value that this value is, if it is one.
    pub fn as_bool(&self) -> (r: Option<bool>)
        ensures
            r == self@.as_bool(),
    {
        match self {
            Json::Bool(b) => Some(*b),
            Json::Other(number) => {
                number.observe();
                None
            },
            _ => None,
        }
    }

    /// The items of this value, if it is an array.
    pub fn as_array(&self) -> (r: Option<&Vec<Json>>)
        ensures
            r.deep_view() == self@.as_items(),
    {
        match self {
            Json::Array(items) => {
                assert(items.deep_view() =~= self@->Array_0);
                Some(items)
            },
            Json::Other(number) => {
                number.observe();
                None
            },
            _ => None,
        }
    }

    /// The members of this value, if it is an object.
    pub fn as_object(&self) -> (r: Option<&Dict>)
        ensures
            r.deep_view() == self@.as_members(),
    {
        match self {
            Json::Object(dict) => Some(dict),
            Json::Other(number) => {
                number.observe();
                None
            },
            _ => None,
        }
    }

    /// The member named `key`, if this value is an object that has one.
    pub fn get(&self, key: &str) -> (r: Option<&Json>)
        ensures
            r.deep_view() == self@.get(key@),
    {
        match self.as_object() {
            Some(dict) => dict.get(key),
            None => None,
        }
    }

    /// The member `b` of the member `a`.
    pub fn get2(&self, a: &str, b: &str) -> (r: Option<&Json>)
        ensures
            r.deep_view() == self@.get2(a@, b@),
    {
        match self.get(a) {
            Some(v) => v.get(b),
            None => None,
        }
    }

    /// The member `c` of the member `b` of the member `a`.
    pub fn get3(&self, a: &str, b: &str, c: &str) -> (r: Option<&Json>)
        ensures
            r.deep_view() == self@.get3(a@, b@, c@),
    {
        match self.get2(a, b) {
            Some(v) => v.get(c),
            None => None,
        }
    }

    /// What the path step `0` leads to: the first item of an array, or the member of that name.
    pub fn head(&self) -> (r: Option<&Json>)
        ensures
            r.deep_view() == self@.head(),
    {
        match self.as_array() {
            Some(items) => if items.len() > 0 {
                Some(&items[0])
            } else {
                None
            },
            None => self.get("0"),
        }
    }
}

/// The text that an optional value is.
pub fn str_of(v: Option<&Json>) -> (r: Option<&str>)
    ensures
        r.deep_view() == text_of(v.deep_view()),
{
    match v {
        Some(x) => x.as_str(),
        None => None,
    }
}

/// The text that an optional value is, or the empty text.
pub fn str_or_empty(v: Option<&Json>) -> (r: &str)
    ensures
        r@ == text_or_empty(v.deep_view()),
{
    proof {
        reveal_strlit("");
        assert(""@ =~= Seq::<char>::empty());
    }
    match str_of(v) {
        Some(s) => s,
        None => "",
    }
}

/// The unsigned number that an optional value is.
pub fn u64_of(v: Option<&Json>) -> (r: Option<u64>)
    ensures
        r == unsigned_of(v.deep_view()),
{
    match v {
        Some(x) => x.as_u64(),
        None => None,
    }
}

/// The truth value that an optional value is.
pub fn truth_of(v: Option<&Json>) -> (r: Option<bool>)
    ensures
        r == bool_of(v.deep_view()),
{
    match v {
        Some(x) => x.as_bool(),
        None => None,
    }
}

/// The items of an optional value.
pub fn array_of(v: Option<&Json>) -> (r: Option<&Vec<Json>>)
    ensures
        r.deep_view() == items_of(v.deep_view()),
{
    match v {
        Some(x) => x.as_array(),
        None => None,
    }
}

/// A row of values as a slice.
pub fn row(items: &Vec<Json>) -> (r: &[Json])
    ensures
        r.deep_view() == items.deep_view(),
{
    let r = items.as_slice();
    assert(r.deep_view() =~= items.deep_view());
    r
}

/// A row of values once more.
pub fn copy_items(items: &Vec<Json>) -> (r: Vec<Json>)
    ensures
        r.deep_view() == items.deep_view(),
{
    let mut out: Vec<Json> = Vec::new();
    let mut i: usize = 0;
    while i < items.len()
        invariant
            i <= items@.len(),
            out@.len() == i,
            forall|k: int| 0 <= k < i ==> (#[trigger] out@[k])@ == items@[k]@,
        decreases items@.len() - i,
    {
        out.push(items[i].clone());
        i += 1;
    }
    assert(out.deep_view() =~= items.deep_view());
    out
}

/// The items of an optional value, or none.
pub fn items_copied(v: Option<&Json>) -> (r: Vec<Json>)
    ensures
        r.deep_view() == items_or_empty(v.deep_view()),
{
    match array_of(v) {
        Some(items) => copy_items(items),
        None => {
            let none: Vec<Json> = Vec::new();
            assert(none.deep_view() =~= Seq::<JsonView>::empty());
            none
        },
    }
}

/// An array of these items.
pub fn array(items: Vec<Json>) -> (r: Json)
    ensures
        r@ == JsonView::Array(items.deep_view()),
{
    let r = Json::Array(items);
    assert(r@->Array_0 =~= items.deep_view());
    r
}

/// The text `s` as a value.
pub fn string(s: &str) -> (r: Json)
    ensures
        r@ == JsonView::Text(s@),
{
    Json::Text(s.to_owned())
}

/// Members with one name.
pub fn dict1(a: &str, x: Json) -> (r: Dict)
    ensures
        r@ == map![a@ => x@],
{
    let mut r = Dict::new();
    r.insert(a, x);
    r
}

/// Members with two names.
pub fn dict2(a: &str, x: Json, b: &str, y: Json) -> (r: Dict)
    ensures
        r@ == map![a@ => x@, b@ => y@],
{
    let mut r = dict1(a, x);
    r.insert(b, y);
    r
}

/// Members with three names.
pub fn dict3(a: &str, x: Json, b: &str, y: Json, c: &str, z: Json) -> (r: Dict)
    ensures
        r@ == map![a@ => x@, b@ => y@, c@ => z@],
{
    let mut r = dict2(a, x, b, y);
    r.insert(c, z);
    r
}

} // verus!
