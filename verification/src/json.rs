//! JSON values as trees of plain data, with the accessors that the mappings
//! read them through and the object builder that they write them with.
//!
//! An object keeps its members in ascending order of their keys, each key once.

use crate::text::same;
use vstd::prelude::*;

verus! {

/// A JSON number: an integer that is not negative, one that is, or any other
/// number, held as the text that it is written with.
#[derive(Debug, PartialEq, Eq)]
pub enum Number {
    Unsigned(u64),
    Negative(i64),
    Float(String),
}

/// A JSON value.
#[derive(Debug, PartialEq, Eq)]
pub enum Json {
    Null,
    Bool(bool),
    Num(Number),
    Str(String),
    Arr(Vec<Json>),
    Obj(Vec<(String, Json)>),
}

/// What a number holds.
pub enum NumberView {
    Unsigned(u64),
    Negative(i64),
    Float(Seq<char>),
}

/// What a JSON value holds.
pub enum JsonView {
    Null,
    Bool(bool),
    Num(NumberView),
    Str(Seq<char>),
    Arr(Seq<JsonView>),
    Obj(Seq<(Seq<char>, JsonView)>),
}

impl View for Number {
    type V = NumberView;

    open spec fn view(&self) -> NumberView {
        match *self {
            Number::Unsigned(n) => NumberView::Unsigned(n),
            Number::Negative(n) => NumberView::Negative(n),
            Number::Float(s) => NumberView::Float(s@),
        }
    }
}

/// What a value holds, all the way down.
pub open spec fn model(j: Json) -> JsonView
    decreases j,
{
    match j {
        Json::Null => JsonView::Null,
        Json::Bool(b) => JsonView::Bool(b),
        Json::Num(n) => JsonView::Num(n@),
        Json::Str(s) => JsonView::Str(s@),
        Json::Arr(items) => JsonView::Arr(
            Seq::new(
                items@.len(),
                |i: int|
                    if 0 <= i < items@.len() {
                        model(items@[i])
                    } else {
                        JsonView::Null
                    },
            ),
        ),
        Json::Obj(members) => JsonView::Obj(
            Seq::new(
                members@.len(),
                |i: int|
                    if 0 <= i < members@.len() {
                        (members@[i].0@, model(members@[i].1))
                    } else {
                        (Seq::<char>::empty(), JsonView::Null)
                    },
            ),
        ),
    }
}

/// What the values of a list hold.
pub open spec fn model_items(items: Seq<Json>) -> Seq<JsonView> {
    Seq::new(items.len(), |i: int| model(items[i]))
}

/// What the members of an object hold.
pub open spec fn model_members(members: Seq<(String, Json)>) -> Seq<(Seq<char>, JsonView)> {
    Seq::new(members.len(), |i: int| (members[i].0@, model(members[i].1)))
}

pub broadcast proof fn lemma_model_arr(items: Vec<Json>)
    ensures
        #[trigger] model(Json::Arr(items)) == JsonView::Arr(model_items(items@)),
{
    assert(model(Json::Arr(items))->Arr_0 =~= model_items(items@));
}

pub broadcast proof fn lemma_model_obj(members: Vec<(String, Json)>)
    ensures
        #[trigger] model(Json::Obj(members)) == JsonView::Obj(model_members(members@)),
{
    assert(model(Json::Obj(members))->Obj_0 =~= model_members(members@));
}

impl View for Json {
    type V = JsonView;

    open spec fn view(&self) -> JsonView {
        model(*self)
    }
}

/// A copy of a value.
fn copy(j: &Json) -> (r: Json)
    ensures
        r@ == j@,
    decreases j,
{
    broadcast use {lemma_model_arr, lemma_model_obj};
    match j {
        Json::Null => Json::Null,
        Json::Bool(b) => Json::Bool(*b),
        Json::Num(Number::Unsigned(n)) => Json::Num(Number::Unsigned(*n)),
        Json::Num(Number::Negative(n)) => Json::Num(Number::Negative(*n)),
        Json::Num(Number::Float(s)) => Json::Num(Number::Float(s.clone())),
        Json::Str(s) => Json::Str(s.clone()),
        Json::Arr(items) => {
            let mut out: Vec<Json> = Vec::new();
            let mut i: usize = 0;
            while i < items.len()
                invariant
                    i <= items@.len(),
                    *j == Json::Arr(*items),
                    out@.len() == i,
                    forall|k: int| 0 <= k < i ==> #[trigger] model(out@[k]) == model(items@[k]),
                decreases items@.len() - i,
            {
                assert(decreases_to!(*j => j->Arr_0));
                assert(decreases_to!(*items => items@));
                assert(decreases_to!(items@ => items@[i as int]));
                out.push(copy(&items[i]));
                i += 1;
            }
            assert(model_items(out@) =~= model_items(items@));
            Json::Arr(out)
        },
        Json::Obj(members) => {
            let mut out: Vec<(String, Json)> = Vec::new();
            let mut i: usize = 0;
            while i < members.len()
                invariant
                    i <= members@.len(),
                    *j == Json::Obj(*members),
                    out@.len() == i,
                    forall|k: int| 0 <= k < i ==> (#[trigger] out@[k]).0@ == members@[k].0@ && model(
                        out@[k].1,
                    ) == model(members@[k].1),
                decreases members@.len() - i,
            {
                let m = &members[i];
                assert(decreases_to!(*j => j->Obj_0));
                assert(decreases_to!(*members => members@));
                assert(decreases_to!(members@ => members@[i as int]));
                out.push((m.0.clone(), copy(&m.1)));
                i += 1;
            }
            assert(model_members(out@) =~= model_members(members@));
            Json::Obj(out)
        },
    }
}

impl Clone for Json {
    fn clone(&self) -> (r: Json)
        ensures
            r@ == self@,
    {
        copy(self)
    }
}

/// The value of the first member with the key `key`.
pub open spec fn lookup(members: Seq<(Seq<char>, JsonView)>, key: Seq<char>) -> Option<JsonView>
    decreases members.len(),
{
    if members.len() == 0 {
        None
    } else if members[0].0 == key {
        Some(members[0].1)
    } else {
        lookup(members.drop_first(), key)
    }
}

impl JsonView {
    /// The member `key` of an object; nothing for any other value.
    pub open spec fn get(self, key: Seq<char>) -> Option<JsonView> {
        match self {
            JsonView::Obj(members) => lookup(members, key),
            _ => None,
        }
    }

    /// The member `inner` of the member `outer`.
    pub open spec fn get_in(self, outer: Seq<char>, inner: Seq<char>) -> Option<JsonView> {
        match self.get(outer) {
            Some(v) => v.get(inner),
            None => None,
        }
    }

    /// The member `key`, if it is a string.
    pub open spec fn str_at(self, key: Seq<char>) -> Option<Seq<char>> {
        match self.get(key) {
            Some(JsonView::Str(s)) => Some(s),
            _ => None,
        }
    }

    /// The member `key`, if it is a string, and `default` otherwise.
    pub open spec fn str_or(self, key: Seq<char>, default: Seq<char>) -> Seq<char> {
        match self.str_at(key) {
            Some(s) => s,
            None => default,
        }
    }

    /// The member `inner` of the member `outer`, if it is a string.
    pub open spec fn str_in(self, outer: Seq<char>, inner: Seq<char>) -> Option<Seq<char>> {
        match self.get(outer) {
            Some(v) => v.str_at(inner),
            None => None,
        }
    }

    /// The member `key`, if it is an array.
    pub open spec fn arr_at(self, key: Seq<char>) -> Option<Seq<JsonView>> {
        match self.get(key) {
            Some(JsonView::Arr(items)) => Some(items),
            _ => None,
        }
    }

    /// The member `key`, if it is an integer that is not negative.
    pub open spec fn u64_at(self, key: Seq<char>) -> Option<u64> {
        match self.get(key) {
            Some(JsonView::Num(NumberView::Unsigned(n))) => Some(n),
            _ => None,
        }
    }

    /// The member `inner` of the member `outer` as an integer that is not
    /// negative, and 0 where there is none.
    pub open spec fn u64_in(self, outer: Seq<char>, inner: Seq<char>) -> u64 {
        match self.get(outer) {
            Some(v) => match v.u64_at(inner) {
                Some(n) => n,
                None => 0,
            },
            None => 0,
        }
    }

    /// The member `key`, if it is a boolean.
    pub open spec fn bool_at(self, key: Seq<char>) -> Option<bool> {
        match self.get(key) {
            Some(JsonView::Bool(b)) => Some(b),
            _ => None,
        }
    }
}

/// What an optional borrowed value holds.
pub open spec fn opt_model(o: Option<&Json>) -> Option<JsonView> {
    match o {
        Some(j) => Some(j@),
        None => None,
    }
}

/// What an optional value holds.
pub open spec fn opt_view(o: Option<Json>) -> Option<JsonView> {
    match o {
        Some(j) => Some(j@),
        None => None,
    }
}

/// What an optional borrowed string holds.
pub open spec fn opt_chars(o: Option<&str>) -> Option<Seq<char>> {
    match o {
        Some(s) => Some(s@),
        None => None,
    }
}

/// What an optional borrowed list holds.
pub open spec fn opt_items(o: Option<&Vec<Json>>) -> Option<Seq<JsonView>> {
    match o {
        Some(v) => Some(model_items(v@)),
        None => None,
    }
}

impl Json {
    /// The member `key` of an object.
    pub fn get(&self, key: &str) -> (r: Option<&Json>)
        ensures
            opt_model(r) == self@.get(key@),
    {
        broadcast use {lemma_model_arr, lemma_model_obj};

        match self {
            Json::Obj(members) => {
                let ghost all = model_members(members@);
                let mut i: usize = 0;
                assert(all.skip(0) =~= all);
                while i < members.len()
                    invariant
                        i <= members@.len(),
                        all == model_members(members@),
                        self@ == JsonView::Obj(all),
                        lookup(all, key@) == lookup(all.skip(i as int), key@),
                    decreases members@.len() - i,
                {
                    let m = &members[i];
                    assert(all.skip(i as int)[0] == all[i as int]);
                    if same(m.0.as_str(), key) {
                        return Some(&m.1);
                    }
                    assert(all.skip(i as int).drop_first() =~= all.skip(i + 1));
                    i += 1;
                }
                None
            },
            _ => None,
        }
    }

    /// The member `inner` of the member `outer`.
    pub fn get_in(&self, outer: &str, inner: &str) -> (r: Option<&Json>)
        ensures
            opt_model(r) == self@.get_in(outer@, inner@),
    {
        match self.get(outer) {
            Some(v) => v.get(inner),
            None => None,
        }
    }

    /// The string that the value is, if it is one.
    pub fn as_str(&self) -> (r: Option<&str>)
        ensures
            match self@ {
                JsonView::Str(s) => opt_chars(r) == Some(s),
                _ => r is None,
            },
    {
        match self {
            Json::Str(s) => Some(s.as_str()),
            _ => None,
        }
    }

    /// The items of the array that the value is, if it is one.
    pub fn as_array(&self) -> (r: Option<&Vec<Json>>)
        ensures
            match self@ {
                JsonView::Arr(items) => opt_items(r) == Some(items),
                _ => r is None,
            },
    {
        broadcast use {lemma_model_arr, lemma_model_obj};

        match self {
            Json::Arr(items) => Some(items),
            _ => None,
        }
    }

    /// The integer that the value is, if it is one and not negative.
    pub fn as_u64(&self) -> (r: Option<u64>)
        ensures
            match self@ {
                JsonView::Num(NumberView::Unsigned(n)) => r == Some(n),
                _ => r is None,
            },
    {
        match self {
            Json::Num(Number::Unsigned(n)) => Some(*n),
            _ => None,
        }
    }

    /// Whether the value is null.
    pub fn is_null(&self) -> (r: bool)
        ensures
            r == (self@ == JsonView::Null),
    {
        match self {
            Json::Null => true,
            _ => false,
        }
    }

    /// The member `key`, if it is a string.
    pub fn str_at(&self, key: &str) -> (r: Option<&str>)
        ensures
            opt_chars(r) == self@.str_at(key@),
    {
        match self.get(key) {
            Some(v) => v.as_str(),
            None => None,
        }
    }

    /// The member `key`, if it is a string, and `default` otherwise.
    pub fn str_or<'a>(&'a self, key: &str, default: &'a str) -> (r: &'a str)
        ensures
            r@ == self@.str_or(key@, default@),
    {
        match self.str_at(key) {
            Some(s) => s,
            None => default,
        }
    }

    /// The member `inner` of the member `outer`, if it is a string.
    pub fn str_in(&self, outer: &str, inner: &str) -> (r: Option<&str>)
        ensures
            opt_chars(r) == self@.str_in(outer@, inner@),
    {
        match self.get(outer) {
            Some(v) => v.str_at(inner),
            None => None,
        }
    }

    /// The member `key`, if it is an array.
    pub fn arr_at(&self, key: &str) -> (r: Option<&Vec<Json>>)
        ensures
            opt_items(r) == self@.arr_at(key@),
    {
        match self.get(key) {
            Some(v) => v.as_array(),
            None => None,
        }
    }

    /// The member `key`, if it is an integer that is not negative.
    pub fn u64_at(&self, key: &str) -> (r: Option<u64>)
        ensures
            r == self@.u64_at(key@),
    {
        match self.get(key) {
            Some(v) => v.as_u64(),
            None => None,
        }
    }

    /// The member `inner` of the member `outer` as an integer that is not
    /// negative, and 0 where there is none.
    pub fn u64_in(&self, outer: &str, inner: &str) -> (r: u64)
        ensures
            r == self@.u64_in(outer@, inner@),
    {
        match self.get(outer) {
            Some(v) => match v.u64_at(inner) {
                Some(n) => n,
                None => 0,
            },
            None => 0,
        }
    }

    /// The member `key`, if it is a boolean.
    pub fn bool_at(&self, key: &str) -> (r: Option<bool>)
        ensures
            r == self@.bool_at(key@),
    {
        match self.get(key) {
            Some(Json::Bool(b)) => Some(*b),
            _ => None,
        }
    }
}

/// Whether `a` comes before `b`, character by character.
pub open spec fn before(a: Seq<char>, b: Seq<char>) -> bool
    decreases a.len(),
{
    if b.len() == 0 {
        false
    } else if a.len() == 0 {
        true
    } else if a[0] != b[0] {
        a[0] < b[0]
    } else {
        before(a.drop_first(), b.drop_first())
    }
}

/// Object members with one member set: the member `key` takes its place in
/// the order of the keys, or replaces the member that has the key already.
pub open spec fn put(
    members: Seq<(Seq<char>, JsonView)>,
    key: Seq<char>,
    value: JsonView,
) -> Seq<(Seq<char>, JsonView)>
    decreases members.len(),
{
    if members.len() == 0 {
        seq![(key, value)]
    } else if members[0].0 == key {
        seq![(key, value)] + members.drop_first()
    } else if before(key, members[0].0) {
        seq![(key, value)] + members
    } else {
        seq![members[0]] + put(members.drop_first(), key, value)
    }
}

/// The members that setting each of `entries` in turn gives.
pub open spec fn put_all(entries: Seq<(Seq<char>, JsonView)>) -> Seq<(Seq<char>, JsonView)>
    decreases entries.len(),
{
    if entries.len() == 0 {
        Seq::empty()
    } else {
        put(put_all(entries.drop_last()), entries.last().0, entries.last().1)
    }
}

/// The object with the members `entries`.
pub open spec fn object_of(entries: Seq<(Seq<char>, JsonView)>) -> JsonView {
    JsonView::Obj(put_all(entries))
}

/// Setting a member is seen by every later lookup: the member has the value
/// that was set, and every other member has the value that it had.
pub proof fn law_lookup_after_put(
    members: Seq<(Seq<char>, JsonView)>,
    key: Seq<char>,
    value: JsonView,
    other: Seq<char>,
)
    ensures
        lookup(put(members, key, value), other) == (if other == key {
            Some(value)
        } else {
            lookup(members, other)
        }),
    decreases members.len(),
{
    let after = put(members, key, value);
    assert(after.len() > 0);
    if members.len() == 0 {
        assert(after[0] == (key, value));
        assert(after.drop_first() =~= members);
    } else if members[0].0 == key {
        assert(after[0] == (key, value));
        assert(after.drop_first() =~= members.drop_first());
    } else if before(key, members[0].0) {
        assert(after[0] == (key, value));
        assert(after.drop_first() =~= members);
    } else {
        law_lookup_after_put(members.drop_first(), key, value, other);
        assert(after[0] == members[0]);
        assert(after.drop_first() =~= put(members.drop_first(), key, value));
    }
}

/// An object has the value that was set last for each of its members.
pub proof fn law_object_has_last_value(entries: Seq<(Seq<char>, JsonView)>, i: int)
    requires
        0 <= i < entries.len(),
        forall|j: int| i < j < entries.len() ==> (#[trigger] entries[j]).0 != entries[i].0,
    ensures
        object_of(entries).get(entries[i].0) == Some(entries[i].1),
    decreases entries.len(),
{
    let last = entries.last();
    law_lookup_after_put(put_all(entries.drop_last()), last.0, last.1, entries[i].0);
    if i < entries.len() - 1 {
        assert(entries[entries.len() - 1].0 != entries[i].0);
        assert forall|j: int| i < j < entries.drop_last().len() implies (
        #[trigger] entries.drop_last()[j]).0 != entries.drop_last()[i].0 by {
            assert(entries.drop_last()[j] == entries[j]);
        }
        law_object_has_last_value(entries.drop_last(), i);
    }
}

/// An object has no member that was never set.
pub proof fn law_object_has_no_other_member(entries: Seq<(Seq<char>, JsonView)>, key: Seq<char>)
    requires
        forall|j: int| 0 <= j < entries.len() ==> (#[trigger] entries[j]).0 != key,
    ensures
        object_of(entries).get(key) is None,
    decreases entries.len(),
{
    if entries.len() > 0 {
        let last = entries.last();
        law_lookup_after_put(put_all(entries.drop_last()), last.0, last.1, key);
        assert(entries[entries.len() - 1].0 != key);
        assert forall|j: int| 0 <= j < entries.drop_last().len() implies (
        #[trigger] entries.drop_last()[j]).0 != key by {
            assert(entries.drop_last()[j] == entries[j]);
        }
        law_object_has_no_other_member(entries.drop_last(), key);
    }
}

/// Whether the keys of some members ascend, so that no key occurs twice.
pub open spec fn ascending(members: Seq<(Seq<char>, JsonView)>) -> bool {
    forall|i: int, j: int|
        0 <= i < j < members.len() ==> before((#[trigger] members[i]).0, (#[trigger] members[j]).0)
}

/// The order of the keys is a total one.
pub proof fn lemma_before_total(a: Seq<char>, b: Seq<char>)
    ensures
        a == b || before(a, b) || before(b, a),
        !(before(a, b) && before(b, a)),
        !before(a, a),
    decreases a.len(),
{
    if a.len() == 0 && b.len() == 0 {
        assert(a =~= b);
    } else if a.len() > 0 && b.len() > 0 && a[0] == b[0] {
        lemma_before_total(a.drop_first(), b.drop_first());
        if a.drop_first() == b.drop_first() {
            assert(a =~= seq![a[0]] + a.drop_first());
            assert(b =~= seq![b[0]] + b.drop_first());
        }
        lemma_before_total(a.drop_first(), a.drop_first());
    } else if a.len() > 0 {
        lemma_before_total(a.drop_first(), a.drop_first());
    }
}

proof fn lemma_before_transitive(a: Seq<char>, b: Seq<char>, c: Seq<char>)
    requires
        before(a, b),
        before(b, c),
    ensures
        before(a, c),
    decreases a.len(),
{
    if a.len() > 0 && a[0] == b[0] && b[0] == c[0] {
        lemma_before_transitive(a.drop_first(), b.drop_first(), c.drop_first());
    }
}

/// The keys after setting a member are those before it and the one set.
proof fn lemma_put_keys(
    members: Seq<(Seq<char>, JsonView)>,
    key: Seq<char>,
    value: JsonView,
    i: int,
)
    requires
        0 <= i < put(members, key, value).len(),
    ensures
        put(members, key, value)[i].0 == key || exists|k: int|
            0 <= k < members.len() && put(members, key, value)[i].0 == (#[trigger] members[k]).0,
    decreases members.len(),
{
    let after = put(members, key, value);
    if members.len() == 0 {
    } else if members[0].0 == key {
        if i > 0 {
            assert(after[i] == members[i]);
        }
    } else if before(key, members[0].0) {
        if i > 0 {
            assert(after[i] == members[i - 1]);
        }
    } else if i == 0 {
        assert(after[0] == members[0]);
    } else {
        let rest = members.drop_first();
        lemma_put_keys(rest, key, value, i - 1);
        assert(after[i] == put(rest, key, value)[i - 1]);
        if after[i].0 != key {
            let k = choose|k: int|
                0 <= k < rest.len() && put(rest, key, value)[i - 1].0 == (#[trigger] rest[k]).0;
            assert(rest[k] == members[k + 1]);
        }
    }
}

/// Setting a member keeps the keys in ascending order.
pub proof fn law_put_keeps_order(
    members: Seq<(Seq<char>, JsonView)>,
    key: Seq<char>,
    value: JsonView,
)
    requires
        ascending(members),
    ensures
        ascending(put(members, key, value)),
    decreases members.len(),
{
    let after = put(members, key, value);
    if members.len() == 0 {
    } else if members[0].0 == key {
        assert forall|i: int, j: int| 0 <= i < j < after.len() implies before(
            (#[trigger] after[i]).0,
            (#[trigger] after[j]).0,
        ) by {
            assert(after[i].0 == members[i].0);
            assert(after[j].0 == members[j].0);
        }
    } else if before(key, members[0].0) {
        assert forall|i: int, j: int| 0 <= i < j < after.len() implies before(
            (#[trigger] after[i]).0,
            (#[trigger] after[j]).0,
        ) by {
            assert(after[j] == members[j - 1]);
            if i > 0 {
                assert(after[i] == members[i - 1]);
            } else if j > 1 {
                assert(before(members[0].0, members[j - 1].0));
                lemma_before_transitive(key, members[0].0, members[j - 1].0);
            }
        }
    } else {
        let rest = members.drop_first();
        assert(ascending(rest)) by {
            assert forall|i: int, j: int| 0 <= i < j < rest.len() implies before(
                (#[trigger] rest[i]).0,
                (#[trigger] rest[j]).0,
            ) by {
                assert(rest[i] == members[i + 1]);
                assert(rest[j] == members[j + 1]);
            }
        }
        law_put_keeps_order(rest, key, value);
        lemma_before_total(key, members[0].0);
        assert forall|i: int, j: int| 0 <= i < j < after.len() implies before(
            (#[trigger] after[i]).0,
            (#[trigger] after[j]).0,
        ) by {
            assert(after[j] == put(rest, key, value)[j - 1]);
            if i > 0 {
                assert(after[i] == put(rest, key, value)[i - 1]);
            } else {
                lemma_put_keys(rest, key, value, j - 1);
                if after[j].0 != key {
                    let k = choose|k: int|
                        0 <= k < rest.len() && put(rest, key, value)[j - 1].0 == (
                        #[trigger] rest[k]).0;
                    assert(rest[k] == members[k + 1]);
                    assert(before(members[0].0, members[k + 1].0));
                }
            }
        }
    }
}

/// Every object that is built has its keys in ascending order, each key once.
pub proof fn law_object_is_ordered(entries: Seq<(Seq<char>, JsonView)>)
    ensures
        ascending(put_all(entries)),
    decreases entries.len(),
{
    if entries.len() > 0 {
        law_object_is_ordered(entries.drop_last());
        law_put_keeps_order(
            put_all(entries.drop_last()),
            entries.last().0,
            entries.last().1,
        );
    }
}

fn is_before(a: &str, b: &str) -> (r: bool)
    ensures
        r == before(a@, b@),
{
    let x = crate::text::chars_of(a);
    let y = crate::text::chars_of(b);
    let mut i: usize = 0;
    assert(a@.skip(0) =~= a@);
    assert(b@.skip(0) =~= b@);
    while i < x.len() && i < y.len()
        invariant
            x@ == a@,
            y@ == b@,
            i <= a@.len(),
            i <= b@.len(),
            before(a@, b@) == before(a@.skip(i as int), b@.skip(i as int)),
        decreases a@.len() - i,
    {
        if x[i] != y[i] {
            return x[i] < y[i];
        }
        assert(a@.skip(i as int).drop_first() =~= a@.skip(i + 1));
        assert(b@.skip(i as int).drop_first() =~= b@.skip(i + 1));
        i += 1;
    }
    i < y.len()
}

/// Sets one member.
pub fn set_member(members: &mut Vec<(String, Json)>, key: String, value: Json)
    ensures
        model_members(final(members)@) == put(model_members(old(members)@), key@, value@),
{
    let ghost all = model_members(members@);
    let mut i: usize = 0;
    assert(all.skip(0) =~= all);
    assert(all.take(0) + put(all.skip(0), key@, value@) =~= put(all, key@, value@));
    while i < members.len()
        invariant
            i <= members@.len(),
            members@ == old(members)@,
            all == model_members(members@),
            put(all, key@, value@) == all.take(i as int) + put(all.skip(i as int), key@, value@),
        decreases members@.len() - i,
    {
        assert(all.skip(i as int)[0] == all[i as int]);
        assert(all.skip(i as int).drop_first() =~= all.skip(i + 1));
        if same(members[i].0.as_str(), key.as_str()) {
            let ghost done = put(all, key@, value@);
            assert(done =~= all.update(i as int, (key@, value@)));
            members[i] = (key, value);
            assert(model_members(members@) =~= done);
            return;
        }
        if is_before(key.as_str(), members[i].0.as_str()) {
            let ghost done = put(all, key@, value@);
            assert(done =~= all.insert(i as int, (key@, value@)));
            members.insert(i, (key, value));
            assert(model_members(members@) =~= done);
            return;
        }
        assert(all.take(i + 1) =~= all.take(i as int) + seq![all[i as int]]);
        assert(all.take(i as int) + (seq![all[i as int]] + put(all.skip(i + 1), key@, value@))
            =~= all.take(i + 1) + put(all.skip(i + 1), key@, value@));
        i += 1;
    }
    assert(all.skip(i as int) =~= Seq::empty());
    assert(put(all, key@, value@) =~= all.push((key@, value@)));
    let ghost done = put(all, key@, value@);
    members.push((key, value));
    assert(model_members(members@) =~= done);
}

/// The object with the members `entries`, each set in turn.
pub fn object(entries: Vec<(String, Json)>) -> (r: Json)
    ensures
        r@ == object_of(model_members(entries@)),
{
    broadcast use {lemma_model_arr, lemma_model_obj};

    let ghost all = model_members(entries@);
    let mut members: Vec<(String, Json)> = Vec::new();
    assert(model_members(members@) =~= put_all(all.take(0)));
    for e in it: entries
        invariant
            it.seq() == entries@,
            all == model_members(entries@),
            model_members(members@) == put_all(all.take(it.index() as int)),
    {
        let ghost k = it.index() as int;
        assert(all.take(k + 1).drop_last() =~= all.take(k));
        assert(all.take(k + 1).last() == all[k]);
        set_member(&mut members, e.0, e.1);
    }
    assert(all.take(all.len() as int) =~= all);
    Json::Obj(members)
}

/// Adds copies of the values of a list to the end of another.
pub fn extend_copies(out: &mut Vec<Json>, items: &Vec<Json>)
    ensures
        model_items(final(out)@) == model_items(old(out)@) + model_items(items@),
{
    let ghost before = model_items(out@);
    let mut i: usize = 0;
    assert(before + model_items(items@).take(0) =~= before);
    while i < items.len()
        invariant
            i <= items@.len(),
            model_items(out@) == before + model_items(items@).take(i as int),
        decreases items@.len() - i,
    {
        let ghost was = out@;
        out.push(items[i].clone());
        assert(model_items(out@) =~= model_items(was).push(model(items@[i as int])));
        i += 1;
        assert(model_items(out@) =~= before + model_items(items@).take(i as int));
    }
    assert(model_items(items@).take(items@.len() as int) =~= model_items(items@));
}

} // verus!
