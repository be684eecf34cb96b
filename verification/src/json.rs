use vstd::prelude::*;
use crate::text::str_eq;

verus! {

/// A JSON number as the responses hold it: a non-negative integer, a
/// negative integer, or a number with a fraction or exponent kept as its text.
pub enum JsonNumber {
    PosInt(u64),
    NegInt(i64),
    Float(String),
}

/// A JSON document.
pub enum JsonValue {
    Null,
    Bool(bool),
    Number(JsonNumber),
    String(String),
    Array(Vec<JsonValue>),
    Object(Vec<(String, JsonValue)>),
}

/// One step of a path into a JSON document: a member of an object or an
/// element of an array.
#[derive(Clone, Copy)]
pub enum Seg<'a> {
    Key(&'a str),
    Idx(usize),
}

/// The value of the first member named `key`, if any.
pub open spec fn obj_get(entries: Seq<(String, JsonValue)>, key: Seq<char>) -> Option<JsonValue>
    decreases entries.len(),
{
    if entries.len() == 0 {
        None
    } else if entries[0].0@ == key {
        Some(entries[0].1)
    } else {
        obj_get(entries.drop_first(), key)
    }
}

pub open spec fn step(v: JsonValue, seg: Seg) -> Option<JsonValue> {
    match seg {
        Seg::Key(k) => match v {
            JsonValue::Object(entries) => obj_get(entries@, k@),
            _ => None,
        },
        Seg::Idx(i) => match v {
            JsonValue::Array(items) => if i < items@.len() { Some(items@[i as int]) } else { None },
            _ => None,
        },
    }
}

/// The value reached from `v` by following `path`, or `None` where a step
/// finds no member or element.
pub open spec fn follow(v: JsonValue, path: Seq<Seg>) -> Option<JsonValue>
    decreases path.len(),
{
    if path.len() == 0 {
        Some(v)
    } else {
        match step(v, path[0]) {
            Some(w) => follow(w, path.drop_first()),
            None => None,
        }
    }
}

pub open spec fn opt_str(v: Option<JsonValue>) -> Option<Seq<char>> {
    match v {
        Some(JsonValue::String(s)) => Some(s@),
        _ => None,
    }
}

pub open spec fn str_at(v: JsonValue, path: Seq<Seg>) -> Option<Seq<char>> {
    opt_str(follow(v, path))
}

impl JsonValue {
    pub fn get_key<'a>(&'a self, key: &str) -> (r: Option<&'a JsonValue>)
        ensures
            r matches Some(x) ==> step(*self, Seg::Key(key)) == Some(*x),
            r is None ==> step(*self, Seg::Key(key)) is None,
    {
        match self {
            JsonValue::Object(entries) => {
                let mut j: usize = 0;
                assert(entries@.skip(0) =~= entries@);
                while j < entries.len()
                    invariant
                        j <= entries@.len(),
                        *self == JsonValue::Object(*entries),
                        obj_get(entries@, key@) == obj_get(entries@.skip(j as int), key@),
                    decreases entries@.len() - j,
                {
                    assert(entries@.skip(j as int).drop_first() =~= entries@.skip(j + 1));
                    if str_eq(entries[j].0.as_str(), key) {
                        assert(entries@.skip(j as int)[0] == entries@[j as int]);
                        return Some(&entries[j].1);
                    }
                    j = j + 1;
                }
                None
            },
            _ => None,
        }
    }

    pub fn get_idx<'a>(&'a self, i: usize) -> (r: Option<&'a JsonValue>)
        ensures
            r matches Some(x) ==> step(*self, Seg::Idx(i)) == Some(*x),
            r is None ==> step(*self, Seg::Idx(i)) is None,
    {
        match self {
            JsonValue::Array(items) => if i < items.len() { Some(&items[i]) } else { None },
            _ => None,
        }
    }

    pub fn follow<'a>(&'a self, path: &[Seg]) -> (r: Option<&'a JsonValue>)
        ensures
            r matches Some(x) ==> follow(*self, path@) == Some(*x),
            r is None ==> follow(*self, path@) is None,
    {
        let mut cur: &JsonValue = self;
        let mut i: usize = 0;
        assert(path@.skip(0) =~= path@);
        while i < path.len()
            invariant
                i <= path@.len(),
                follow(*self, path@) == follow(*cur, path@.skip(i as int)),
            decreases path@.len() - i,
        {
            assert(path@.skip(i as int).drop_first() =~= path@.skip(i + 1));
            let next = match path[i] {
                Seg::Key(k) => cur.get_key(k),
                Seg::Idx(n) => cur.get_idx(n),
            };
            match next {
                Some(w) => { cur = w; },
                None => { return None; },
            }
            i = i + 1;
        }
        assert(path@.skip(i as int) =~= Seq::<Seg>::empty());
        Some(cur)
    }

    /// `as_str` of the value at `path`, copied into a new string.
    pub fn string_at(&self, path: &[Seg]) -> (r: Option<String>)
        ensures
            r.deep_view() == str_at(*self, path@),
    {
        match self.follow(path) {
            Some(JsonValue::String(s)) => Some(s.clone()),
            _ => None,
        }
    }

    /// `as_str` of the value at `path`.
    pub fn str_ref_at<'a>(&'a self, path: &[Seg]) -> (r: Option<&'a str>)
        ensures
            r matches Some(x) ==> str_at(*self, path@) == Some(x@),
            r is None ==> str_at(*self, path@) is None,
    {
        match self.follow(path) {
            Some(JsonValue::String(s)) => Some(s.as_str()),
            _ => None,
        }
    }

    /// `as_str` of the value at `path`, or `""`.
    pub fn string_or_empty(&self, path: &[Seg]) -> (r: String)
        ensures
            r@ == str_or_empty(*self, path@),
    {
        match self.follow(path) {
            Some(JsonValue::String(s)) => s.clone(),
            _ => String::new(),
        }
    }

    /// `as_i64` of the value at `path`, or 0.
    pub fn i64_or_zero(&self, path: &[Seg]) -> (r: i64)
        ensures
            r == i64_or_zero(*self, path@),
    {
        match self.i64_at(path) {
            Some(i) => i,
            None => 0,
        }
    }

    /// `as_i64` of the value at `path`.
    pub fn i64_at(&self, path: &[Seg]) -> (r: Option<i64>)
        ensures
            r == i64_at(*self, path@),
    {
        match self.follow(path) {
            Some(JsonValue::Number(JsonNumber::PosInt(u))) => if *u <= i64::MAX as u64 {
                Some(*u as i64)
            } else {
                None
            },
            Some(JsonValue::Number(JsonNumber::NegInt(i))) => Some(*i),
            _ => None,
        }
    }

    /// `as_bool` of the value at `path`.
    pub fn bool_at(&self, path: &[Seg]) -> (r: Option<bool>)
        ensures
            r == bool_at(*self, path@),
    {
        match self.follow(path) {
            Some(JsonValue::Bool(b)) => Some(*b),
            _ => None,
        }
    }

    /// `as_array` of the value at `path`.
    pub fn array_at<'a>(&'a self, path: &[Seg]) -> (r: Option<&'a Vec<JsonValue>>)
        ensures
            r matches Some(a) ==> array_at(*self, path@) == Some(a@),
            r is None ==> array_at(*self, path@) is None,
    {
        match self.follow(path) {
            Some(JsonValue::Array(a)) => Some(a),
            _ => None,
        }
    }

    /// Whether the value at `path` is an object (`as_object().is_some()`).
    pub fn is_object_at(&self, path: &[Seg]) -> (r: bool)
        ensures
            r == is_object_at(*self, path@),
    {
        match self.follow(path) {
            Some(JsonValue::Object(_)) => true,
            _ => false,
        }
    }
}

pub open spec fn opt_i64(v: Option<JsonValue>) -> Option<i64> {
    match v {
        Some(JsonValue::Number(JsonNumber::PosInt(u))) => if u <= i64::MAX {
            Some(u as i64)
        } else {
            None
        },
        Some(JsonValue::Number(JsonNumber::NegInt(i))) => Some(i),
        _ => None,
    }
}

/// `as_i64` of the value at `path`: an integer that fits in `i64`.
pub open spec fn i64_at(v: JsonValue, path: Seq<Seg>) -> Option<i64> {
    opt_i64(follow(v, path))
}

/// `as_bool` of the value at `path`.
pub open spec fn bool_at(v: JsonValue, path: Seq<Seg>) -> Option<bool> {
    match follow(v, path) {
        Some(JsonValue::Bool(b)) => Some(b),
        _ => None,
    }
}

/// `as_array` of the value at `path`.
pub open spec fn array_at(v: JsonValue, path: Seq<Seg>) -> Option<Seq<JsonValue>> {
    match follow(v, path) {
        Some(JsonValue::Array(a)) => Some(a@),
        _ => None,
    }
}

/// The value at `path` is an object.
pub open spec fn is_object_at(v: JsonValue, path: Seq<Seg>) -> bool {
    follow(v, path) matches Some(JsonValue::Object(_))
}

/// `as_str` of a value, with `""` for anything that is not a string.
pub open spec fn str_or_empty(v: JsonValue, path: Seq<Seg>) -> Seq<char> {
    match str_at(v, path) {
        Some(s) => s,
        None => Seq::empty(),
    }
}

/// `as_i64` of a value, with 0 for anything that is not such an integer.
pub open spec fn i64_or_zero(v: JsonValue, path: Seq<Seg>) -> i64 {
    match i64_at(v, path) {
        Some(i) => i,
        None => 0,
    }
}

/// The number that `json!` makes of an integer.
pub open spec fn int_json(i: int) -> JsonValue {
    if i >= 0 {
        JsonValue::Number(JsonNumber::PosInt(i as u64))
    } else {
        JsonValue::Number(JsonNumber::NegInt(i as i64))
    }
}

/// `json!(i)` for an integer.
pub fn int_value(i: i64) -> (r: JsonValue)
    ensures
        r == int_json(i as int),
{
    if i >= 0 {
        JsonValue::Number(JsonNumber::PosInt(i as u64))
    } else {
        JsonValue::Number(JsonNumber::NegInt(i))
    }
}

// ---------------------------------------------------------------------------
// Building objects
// ---------------------------------------------------------------------------

/// Whether the members `entries` include one named `key`.
pub fn has_member(entries: &Vec<(String, JsonValue)>, key: &str) -> (r: bool)
    ensures
        r == view_get(entries_view(entries@), key@) is Some,
{
    let mut j: usize = 0;
    while j < entries.len()
        invariant
            j <= entries@.len(),
            forall|m: int| 0 <= m < j ==> #[trigger] entries@[m].0@ != key@,
        decreases entries@.len() - j,
    {
        if str_eq(entries[j].0.as_str(), key) {
            proof {
                lemma_entries_view(entries@);
                lemma_view_get_found(entries_view(entries@), key@, j as int);
            }
            return true;
        }
        j = j + 1;
    }
    proof {
        lemma_entries_view(entries@);
        lemma_view_get_absent(entries_view(entries@), key@);
    }
    false
}

/// An object under construction: its members in order.
pub struct ObjectBuilder {
    pub entries: Vec<(String, JsonValue)>,
}

impl ObjectBuilder {
    pub fn new() -> (r: ObjectBuilder)
        ensures
            r.entries@.len() == 0,
    {
        ObjectBuilder { entries: Vec::new() }
    }

    /// Starts from the members of an existing object.
    pub fn from_entries(entries: Vec<(String, JsonValue)>) -> (r: ObjectBuilder)
        ensures
            r.entries == entries,
    {
        ObjectBuilder { entries }
    }

    /// Adds the member `key` at the end.
    pub fn push(&mut self, key: &str, val: JsonValue)
        ensures
            entries_view(final(self).entries@) == entries_view(old(self).entries@).push(
                (key@, val.jv()),
            ),
    {
        let ghost before = self.entries@;
        let name = key.to_owned();
        let ghost e = (name, val);
        self.entries.push((name, val));
        proof {
            lemma_entries_view_push(before, e);
        }
    }

    /// Adds the member `key` holding the text `s`.
    pub fn push_text(&mut self, key: &str, s: String)
        ensures
            entries_view(final(self).entries@) == entries_view(old(self).entries@).push(
                (key@, JsonView::Str(s@)),
            ),
    {
        self.push(key, JsonValue::String(s));
    }

    /// Adds the member `key` holding the number `i`.
    pub fn push_int(&mut self, key: &str, i: i64)
        ensures
            entries_view(final(self).entries@) == entries_view(old(self).entries@).push(
                (key@, int_view(i as int)),
            ),
    {
        self.push(key, int_value(i));
    }

    /// Adds the member `key` holding the text `v`, when there is one.
    pub fn push_opt_text(&mut self, key: &str, v: &Option<String>)
        ensures
            entries_view(final(self).entries@) == entries_view(old(self).entries@) + opt_text_member(
                key@,
                v.deep_view(),
            ),
    {
        let ghost before = entries_view(self.entries@);
        match v {
            Some(s) => {
                self.push_text(key, s.clone());
                assert(entries_view(self.entries@) =~= before + opt_text_member(key@, v.deep_view()));
            },
            None => {
                assert(entries_view(self.entries@) =~= before + opt_text_member(key@, v.deep_view()));
            },
        }
    }

    /// Adds the member `key` holding the number `v`, when there is one.
    pub fn push_opt_int(&mut self, key: &str, v: Option<i64>)
        ensures
            entries_view(final(self).entries@) == entries_view(old(self).entries@) + opt_int_member(
                key@,
                v,
            ),
    {
        let ghost before = entries_view(self.entries@);
        match v {
            Some(i) => {
                self.push_int(key, i);
                assert(entries_view(self.entries@) =~= before + opt_int_member(key@, v));
            },
            None => {
                assert(entries_view(self.entries@) =~= before + opt_int_member(key@, v));
            },
        }
    }

    /// Whether the object has a member `key` (`Map::contains_key`).
    pub fn contains_key(&self, key: &str) -> (r: bool)
        ensures
            r == view_get(entries_view(self.entries@), key@) is Some,
    {
        has_member(&self.entries, key)
    }

    pub fn into_value(self) -> (r: JsonValue)
        ensures
            r == JsonValue::Object(self.entries),
            r.jv() == JsonView::Object(entries_view(self.entries@)),
    {
        JsonValue::Object(self.entries)
    }
}

/// A JSON document with its texts as character sequences.
pub enum JsonView {
    Null,
    Bool(bool),
    PosInt(u64),
    NegInt(i64),
    Float(Seq<char>),
    Str(Seq<char>),
    Array(Seq<JsonView>),
    Object(Seq<(Seq<char>, JsonView)>),
}

impl JsonValue {
    /// The document with its texts as character sequences.
    pub open spec fn jv(self) -> JsonView
        decreases self,
    {
        match self {
            JsonValue::Null => JsonView::Null,
            JsonValue::Bool(b) => JsonView::Bool(b),
            JsonValue::Number(JsonNumber::PosInt(u)) => JsonView::PosInt(u),
            JsonValue::Number(JsonNumber::NegInt(i)) => JsonView::NegInt(i),
            JsonValue::Number(JsonNumber::Float(t)) => JsonView::Float(t@),
            JsonValue::String(s) => JsonView::Str(s@),
            JsonValue::Array(items) => JsonView::Array(items_view(items@)),
            JsonValue::Object(entries) => JsonView::Object(entries_view(entries@)),
        }
    }
}

/// The elements of an array, viewed.
pub open spec fn items_view(items: Seq<JsonValue>) -> Seq<JsonView>
    decreases items,
{
    if items.len() == 0 {
        Seq::empty()
    } else {
        seq![items[0].jv()] + items_view(items.subrange(1, items.len() as int))
    }
}

/// The members of an object with their names and values viewed.
pub open spec fn entries_view(entries: Seq<(String, JsonValue)>) -> Seq<(Seq<char>, JsonView)>
    decreases entries,
{
    if entries.len() == 0 {
        Seq::empty()
    } else {
        seq![(entries[0].0@, entries[0].1.jv())] + entries_view(
            entries.subrange(1, entries.len() as int),
        )
    }
}

pub proof fn lemma_entries_view(entries: Seq<(String, JsonValue)>)
    ensures
        entries_view(entries).len() == entries.len(),
        forall|i: int|
            0 <= i < entries.len() ==> #[trigger] entries_view(entries)[i] == (
                entries[i].0@,
                entries[i].1.jv(),
            ),
    decreases entries.len(),
{
    if entries.len() > 0 {
        let t = entries.subrange(1, entries.len() as int);
        lemma_entries_view(t);
        assert forall|i: int| 0 <= i < entries.len() implies #[trigger] entries_view(entries)[i]
            == (entries[i].0@, entries[i].1.jv()) by {
            if i > 0 {
                assert(entries_view(entries)[i] == entries_view(t)[i - 1]);
                assert(t[i - 1] == entries[i]);
            }
        }
    }
}

pub proof fn lemma_items_view(items: Seq<JsonValue>)
    ensures
        items_view(items).len() == items.len(),
        forall|i: int| 0 <= i < items.len() ==> #[trigger] items_view(items)[i] == items[i].jv(),
    decreases items.len(),
{
    if items.len() > 0 {
        let t = items.subrange(1, items.len() as int);
        lemma_items_view(t);
        assert forall|i: int| 0 <= i < items.len() implies #[trigger] items_view(items)[i]
            == items[i].jv() by {
            if i > 0 {
                assert(items_view(items)[i] == items_view(t)[i - 1]);
                assert(t[i - 1] == items[i]);
            }
        }
    }
}

pub proof fn lemma_entries_view_push(entries: Seq<(String, JsonValue)>, e: (String, JsonValue))
    ensures
        entries_view(entries.push(e)) == entries_view(entries).push((e.0@, e.1.jv())),
{
    lemma_entries_view(entries);
    lemma_entries_view(entries.push(e));
    assert(entries_view(entries.push(e)) =~= entries_view(entries).push((e.0@, e.1.jv())));
}

/// The value of the first member named `key`.
pub open spec fn view_get(entries: Seq<(Seq<char>, JsonView)>, key: Seq<char>) -> Option<JsonView>
    decreases entries.len(),
{
    if entries.len() == 0 {
        None
    } else if entries[0].0 == key {
        Some(entries[0].1)
    } else {
        view_get(entries.drop_first(), key)
    }
}

proof fn lemma_view_get_found(entries: Seq<(Seq<char>, JsonView)>, key: Seq<char>, j: int)
    requires
        0 <= j < entries.len(),
        entries[j].0 == key,
    ensures
        view_get(entries, key) is Some,
    decreases j,
{
    if j > 0 && entries[0].0 != key {
        lemma_view_get_found(entries.drop_first(), key, j - 1);
    }
}

proof fn lemma_view_get_absent(entries: Seq<(Seq<char>, JsonView)>, key: Seq<char>)
    requires
        forall|m: int| 0 <= m < entries.len() ==> #[trigger] entries[m].0 != key,
    ensures
        view_get(entries, key) is None,
    decreases entries.len(),
{
    if entries.len() > 0 {
        let t = entries.drop_first();
        assert forall|m: int| 0 <= m < t.len() implies #[trigger] t[m].0 != key by {
            assert(t[m] == entries[m + 1]);
        }
        lemma_view_get_absent(t, key);
    }
}

/// A member `key` holding the text `v`, when there is one.
pub open spec fn opt_text_member(key: Seq<char>, v: Option<Seq<char>>) -> Seq<(Seq<char>, JsonView)> {
    match v {
        Some(s) => seq![(key, JsonView::Str(s))],
        None => Seq::empty(),
    }
}

/// A member `key` holding the number `v`, when there is one.
pub open spec fn opt_int_member(key: Seq<char>, v: Option<i64>) -> Seq<(Seq<char>, JsonView)> {
    match v {
        Some(i) => seq![(key, int_view(i as int))],
        None => Seq::empty(),
    }
}

/// The number that `json!` makes of an integer, viewed.
pub open spec fn int_view(i: int) -> JsonView {
    if i >= 0 {
        JsonView::PosInt(i as u64)
    } else {
        JsonView::NegInt(i as i64)
    }
}

/// The members with `key` added at the end holding `v`, unless `key` is
/// already there or there is no `v` (`Map::insert` after a `contains_key`
/// test).
pub open spec fn with_member(entries: Seq<(Seq<char>, JsonView)>, key: Seq<char>, v: Option<JsonView>) -> Seq<(Seq<char>, JsonView)> {
    match v {
        Some(x) => if view_get(entries, key) is None {
            entries.push((key, x))
        } else {
            entries
        },
        None => entries,
    }
}

/// Looking up `key` in two lists of members one after the other finds it in
/// the first where it is there, else in the second.
pub proof fn lemma_view_get_append(a: Seq<(Seq<char>, JsonView)>, b: Seq<(Seq<char>, JsonView)>, key: Seq<char>)
    ensures
        view_get(a + b, key) == if view_get(a, key) is Some {
            view_get(a, key)
        } else {
            view_get(b, key)
        },
    decreases a.len(),
{
    if a.len() == 0 {
        assert(a + b =~= b);
    } else {
        assert((a + b)[0] == a[0]);
        assert((a + b).drop_first() =~= a.drop_first() + b);
        lemma_view_get_append(a.drop_first(), b, key);
    }
}

/// Adding a member named otherwise leaves the lookup of `key` as it was.
pub proof fn lemma_with_member_other(entries: Seq<(Seq<char>, JsonView)>, k: Seq<char>, v: Option<JsonView>, key: Seq<char>)
    requires
        k != key,
    ensures
        view_get(with_member(entries, k, v), key) == view_get(entries, key),
    decreases entries.len(),
{
    match v {
        Some(x) => if view_get(entries, k) is None {
            lemma_view_get_push_other(entries, (k, x), key);
        },
        None => {},
    }
}

/// Adding a member never changes one that is there.
pub proof fn lemma_with_member_keeps(entries: Seq<(Seq<char>, JsonView)>, k: Seq<char>, v: Option<JsonView>, key: Seq<char>)
    requires
        view_get(entries, key) is Some,
    ensures
        view_get(with_member(entries, k, v), key) == view_get(entries, key),
{
    match v {
        Some(x) => if view_get(entries, k) is None {
            lemma_view_get_push_some(entries, (k, x), key);
        },
        None => {},
    }
}

/// `lemma_with_member_keeps` for every list of members.
pub proof fn lemma_with_member_keeps_all()
    ensures
        forall|entries: Seq<(Seq<char>, JsonView)>, k: Seq<char>, v: Option<JsonView>, key: Seq<char>|
            view_get(entries, key) is Some ==> #[trigger] view_get(with_member(entries, k, v), key) == view_get(entries, key),
{
    assert forall|entries: Seq<(Seq<char>, JsonView)>, k: Seq<char>, v: Option<JsonView>, key: Seq<char>|
        view_get(entries, key) is Some implies #[trigger] view_get(with_member(entries, k, v), key) == view_get(entries, key) by {
        lemma_with_member_keeps(entries, k, v, key);
    }
}

/// What is added under a name that was missing is what a lookup of that
/// name then finds.
pub proof fn lemma_with_member_reads(entries: Seq<(Seq<char>, JsonView)>, k: Seq<char>, x: JsonView)
    requires
        view_get(entries, k) is None,
    ensures
        view_get(with_member(entries, k, Some(x)), k) == Some(x),
    decreases entries.len(),
{
    lemma_view_get_push_missing(entries, k, x);
}

proof fn lemma_view_get_push_missing(entries: Seq<(Seq<char>, JsonView)>, k: Seq<char>, x: JsonView)
    requires
        view_get(entries, k) is None,
    ensures
        view_get(entries.push((k, x)), k) == Some(x),
    decreases entries.len(),
{
    if entries.len() > 0 {
        assert(entries.push((k, x))[0] == entries[0]);
        assert(entries.push((k, x)).drop_first() =~= entries.drop_first().push((k, x)));
        lemma_view_get_push_missing(entries.drop_first(), k, x);
    } else {
        assert(entries.push((k, x))[0] == (k, x));
    }
}

proof fn lemma_view_get_push_some(entries: Seq<(Seq<char>, JsonView)>, e: (Seq<char>, JsonView), key: Seq<char>)
    requires
        view_get(entries, key) is Some,
    ensures
        view_get(entries.push(e), key) == view_get(entries, key),
    decreases entries.len(),
{
    assert(entries.len() > 0);
    assert(entries.push(e)[0] == entries[0]);
    if entries[0].0 != key {
        assert(entries.push(e).drop_first() =~= entries.drop_first().push(e));
        lemma_view_get_push_some(entries.drop_first(), e, key);
    }
}

proof fn lemma_view_get_push_other(entries: Seq<(Seq<char>, JsonView)>, e: (Seq<char>, JsonView), key: Seq<char>)
    requires
        e.0 != key,
    ensures
        view_get(entries.push(e), key) == view_get(entries, key),
    decreases entries.len(),
{
    if entries.len() > 0 {
        assert(entries.push(e)[0] == entries[0]);
        assert(entries.push(e).drop_first() =~= entries.drop_first().push(e));
        lemma_view_get_push_other(entries.drop_first(), e, key);
    } else {
        assert(entries.push(e)[0] == e);
        assert(entries.push(e).drop_first() =~= Seq::<(Seq<char>, JsonView)>::empty());
        assert(view_get(entries.push(e).drop_first(), key) is None);
    }
}

pub open spec fn opt_jv(v: Option<JsonValue>) -> Option<JsonView> {
    match v {
        Some(x) => Some(x.jv()),
        None => None,
    }
}

pub open spec fn text_jv(v: Option<Seq<char>>) -> Option<JsonView> {
    match v {
        Some(s) => Some(JsonView::Str(s)),
        None => None,
    }
}

pub open spec fn int_jv(v: Option<int>) -> Option<JsonView> {
    match v {
        Some(i) => Some(int_view(i)),
        None => None,
    }
}

pub open spec fn bool_jv(v: Option<bool>) -> Option<JsonView> {
    match v {
        Some(b) => Some(JsonView::Bool(b)),
        None => None,
    }
}

pub open spec fn texts_jv(v: Seq<Seq<char>>) -> JsonView {
    JsonView::Array(v.map_values(|s: Seq<char>| JsonView::Str(s)))
}

impl ObjectBuilder {
    /// Adds `key` holding `v` unless `key` is already there or there is no `v`.
    pub fn add_missing(&mut self, key: &str, v: Option<JsonValue>)
        ensures
            entries_view(final(self).entries@) == with_member(entries_view(old(self).entries@), key@, opt_jv(v)),
    {
        match v {
            Some(x) => {
                if !self.contains_key(key) {
                    self.push(key, x);
                }
            },
            None => {},
        }
    }
}

pub fn text_value(v: Option<String>) -> (r: Option<JsonValue>)
    ensures
        opt_jv(r) == text_jv(v.deep_view()),
{
    match v {
        Some(s) => Some(JsonValue::String(s)),
        None => None,
    }
}

pub fn bool_value(v: Option<bool>) -> (r: Option<JsonValue>)
    ensures
        opt_jv(r) == bool_jv(v),
{
    match v {
        Some(b) => Some(JsonValue::Bool(b)),
        None => None,
    }
}

pub fn i32_value(v: Option<i32>) -> (r: Option<JsonValue>)
    ensures
        opt_jv(r) == int_jv(match v { Some(i) => Some(i as int), None => None }),
{
    match v {
        Some(i) => Some(int_value(i as i64)),
        None => None,
    }
}

pub fn i64_value(v: Option<i64>) -> (r: Option<JsonValue>)
    ensures
        opt_jv(r) == int_jv(match v { Some(i) => Some(i as int), None => None }),
{
    match v {
        Some(i) => Some(int_value(i)),
        None => None,
    }
}

/// An array of texts.
pub fn texts_value(v: &Vec<String>) -> (r: JsonValue)
    ensures
        r.jv() == texts_jv(v@.map_values(|s: String| s@)),
{
    let mut items: Vec<JsonValue> = Vec::new();
    let mut i: usize = 0;
    while i < v.len()
        invariant
            i <= v@.len(),
            items@.len() == i,
            forall|k: int| 0 <= k < i ==> #[trigger] items@[k] == JsonValue::String(v@[k]),
        decreases v@.len() - i,
    {
        items.push(JsonValue::String(v[i].clone()));
        i = i + 1;
    }
    proof {
        lemma_items_view(items@);
    }
    assert(items_view(items@) =~= v@.map_values(|s: String| s@).map_values(|s: Seq<char>| JsonView::Str(s)));
    JsonValue::Array(items)
}

/// An array of texts.
pub fn strs_value(v: &Vec<&str>) -> (r: JsonValue)
    ensures
        r.jv() == texts_jv(v@.map_values(|s: &str| s@)),
{
    let mut items: Vec<JsonValue> = Vec::new();
    let mut i: usize = 0;
    while i < v.len()
        invariant
            i <= v@.len(),
            items@.len() == i,
            forall|k: int| 0 <= k < i ==> (#[trigger] items@[k]).jv() == JsonView::Str(v@[k]@),
        decreases v@.len() - i,
    {
        items.push(JsonValue::String(v[i].to_string()));
        i = i + 1;
    }
    proof {
        lemma_items_view(items@);
    }
    assert(items_view(items@) =~= v@.map_values(|s: &str| s@).map_values(|s: Seq<char>| JsonView::Str(s)));
    JsonValue::Array(items)
}

} // verus!
