//! JSON values: the model that every contract speaks of, the readers that the
//! rest of the crate uses, and the passage to and from text.
use vstd::prelude::*;

use serde_json::Value;

use crate::text;

verus! {

/// A JSON number with a fraction or an exponent, or beyond the 64-bit
/// integers, by the two texts that are ever made of it.
#[derive(Debug)]
pub struct JsonFloat {
    /// The number as JSON text.
    pub text: String,
    /// The number as plain decimal text.
    pub plain: String,
}

/// A JSON value.
#[derive(Debug)]
pub enum Json {
    Null,
    Bool(bool),
    Int(i64),
    UInt(u64),
    Float(JsonFloat),
    Str(String),
    Array(Vec<Json>),
    Object(Vec<(String, Json)>),
}

/// What a JSON value holds.
#[verifier::ext_equal]
pub enum JsonView {
    Null,
    Bool(bool),
    Int(i64),
    UInt(u64),
    Float { text: Seq<char>, plain: Seq<char> },
    Str(Seq<char>),
    Array(Seq<JsonView>),
    Object(Seq<(Seq<char>, JsonView)>),
}

/// What `j` holds.
pub open spec fn json_view(j: Json) -> JsonView
    decreases j,
{
    match j {
        Json::Null => JsonView::Null,
        Json::Bool(b) => JsonView::Bool(b),
        Json::Int(n) => JsonView::Int(n),
        Json::UInt(n) => JsonView::UInt(n),
        Json::Float(f) => JsonView::Float { text: f.text@, plain: f.plain@ },
        Json::Str(s) => JsonView::Str(s@),
        Json::Array(v) => JsonView::Array(
            Seq::new(
                v@.len(),
                |i: int|
                    if 0 <= i < v@.len() {
                        json_view(v@[i])
                    } else {
                        JsonView::Null
                    },
            ),
        ),
        Json::Object(p) => JsonView::Object(
            Seq::new(
                p@.len(),
                |i: int|
                    if 0 <= i < p@.len() {
                        (p@[i].0@, json_view(p@[i].1))
                    } else {
                        (Seq::empty(), JsonView::Null)
                    },
            ),
        ),
    }
}

impl View for Json {
    type V = JsonView;

    open spec fn view(&self) -> JsonView {
        json_view(*self)
    }
}

/// The pairs of an object, by what they hold.
pub open spec fn pair_views(p: Seq<(String, Json)>) -> Seq<(Seq<char>, JsonView)> {
    Seq::new(p.len(), |i: int| (p[i].0@, p[i].1@))
}

/// An array holds what its elements hold.
pub broadcast proof fn lemma_array_view(v: Vec<Json>)
    ensures
        #[trigger] json_view(Json::Array(v)) == JsonView::Array(text::views(v@)),
{
    assert(json_view(Json::Array(v))->Array_0 =~= text::views(v@));
}

/// An object holds what its pairs hold.
pub broadcast proof fn lemma_object_view(p: Vec<(String, Json)>)
    ensures
        #[trigger] json_view(Json::Object(p)) == JsonView::Object(pair_views(p@)),
{
    assert(json_view(Json::Object(p))->Object_0 =~= pair_views(p@));
}

pub broadcast group group_json_views {
    lemma_array_view,
    lemma_object_view,
}

impl Json {
    /// A value that holds the same.
    pub fn copy(&self) -> (r: Json)
        ensures
            r@ == self@,
        decreases self,
    {
        broadcast use group_json_views;

        match self {
            Json::Null => Json::Null,
            Json::Bool(b) => Json::Bool(*b),
            Json::Int(n) => Json::Int(*n),
            Json::UInt(n) => Json::UInt(*n),
            Json::Float(f) => Json::Float(
                JsonFloat { text: f.text.clone(), plain: f.plain.clone() },
            ),
            Json::Str(s) => Json::Str(s.clone()),
            Json::Array(v) => {
                let mut out: Vec<Json> = Vec::new();
                let mut i: usize = 0;
                while i < v.len()
                    invariant
                        self == Json::Array(*v),
                        i <= v@.len(),
                        text::views(out@) == text::views(v@).take(i as int),
                    decreases v@.len() - i,
                {
                    proof {
                        assert(decreases_to!(self => self->Array_0));
                        assert(decreases_to!(v => v@));
                        assert(decreases_to!(v@ => v@[i as int]));
                    }
                    let c = v[i].copy();
                    let ghost before = out@;
                    out.push(c);
                    proof {
                        assert(text::views(out@) =~= text::views(before).push(c@));
                        assert(text::views(v@).take(i + 1) =~= text::views(v@).take(i as int).push(
                            c@,
                        ));
                    }
                    i = i + 1;
                }
                proof {
                    assert(text::views(v@).take(v@.len() as int) == text::views(v@));
                }
                Json::Array(out)
            },
            Json::Object(p) => {
                let mut out: Vec<(String, Json)> = Vec::new();
                let mut i: usize = 0;
                while i < p.len()
                    invariant
                        self == Json::Object(*p),
                        i <= p@.len(),
                        pair_views(out@) == pair_views(p@).take(i as int),
                    decreases p@.len() - i,
                {
                    proof {
                        assert(decreases_to!(self => self->Object_0));
                        assert(decreases_to!(p => p@));
                        assert(decreases_to!(p@ => p@[i as int]));
                        assert(decreases_to!(p@[i as int] => p@[i as int].1));
                    }
                    let k = p[i].0.clone();
                    let c = p[i].1.copy();
                    let ghost before = out@;
                    out.push((k, c));
                    proof {
                        assert(pair_views(out@) =~= pair_views(before).push((k@, c@)));
                        assert(pair_views(p@).take(i + 1) =~= pair_views(p@).take(i as int).push(
                            (k@, c@),
                        ));
                    }
                    i = i + 1;
                }
                proof {
                    assert(pair_views(p@).take(p@.len() as int) == pair_views(p@));
                }
                Json::Object(out)
            },
        }
    }
}

impl Clone for Json {
    fn clone(&self) -> (r: Json)
        ensures
            r@ == self@,
    {
        self.copy()
    }
}

// ---------------------------------------------------------------------------
// Reading
// ---------------------------------------------------------------------------

/// The value of `key` among the pairs of an object; a later pair takes the
/// place of an earlier one with the same key.
pub open spec fn member(p: Seq<(Seq<char>, JsonView)>, key: Seq<char>) -> Option<JsonView>
    decreases p.len(),
{
    if p.len() == 0 {
        None
    } else if p.last().0 == key {
        Some(p.last().1)
    } else {
        member(p.drop_last(), key)
    }
}

impl JsonView {
    /// The value of `key`, where this is an object that has it.
    pub open spec fn get(self, key: Seq<char>) -> Option<JsonView> {
        match self {
            JsonView::Object(p) => member(p, key),
            _ => None,
        }
    }

    /// The value of `key`; null where there is none.
    pub open spec fn at(self, key: Seq<char>) -> JsonView {
        match self.get(key) {
            Some(v) => v,
            None => JsonView::Null,
        }
    }

    /// The element at position `i`; null where there is none.
    pub open spec fn nth(self, i: int) -> JsonView {
        match self {
            JsonView::Array(v) => if 0 <= i < v.len() {
                v[i]
            } else {
                JsonView::Null
            },
            _ => JsonView::Null,
        }
    }

    /// The keys of an object, in their order.
    pub open spec fn keys(self) -> Seq<Seq<char>> {
        match self {
            JsonView::Object(p) => Seq::new(p.len(), |i: int| p[i].0),
            _ => Seq::empty(),
        }
    }

    /// The text of a string.
    pub open spec fn string(self) -> Option<Seq<char>> {
        match self {
            JsonView::Str(s) => Some(s),
            _ => None,
        }
    }

    /// The text of the string under `key`.
    pub open spec fn str_at(self, key: Seq<char>) -> Option<Seq<char>> {
        self.at(key).string()
    }

    /// The text of the string under `key`, or `other` where there is none.
    pub open spec fn str_or(self, key: Seq<char>, other: Seq<char>) -> Seq<char> {
        match self.str_at(key) {
            Some(s) => s,
            None => other,
        }
    }

    /// The value of a number that a signed 64-bit integer can hold.
    pub open spec fn signed(self) -> Option<i64> {
        match self {
            JsonView::Int(n) => Some(n),
            JsonView::UInt(n) => if n <= i64::MAX {
                Some(n as i64)
            } else {
                None
            },
            _ => None,
        }
    }

    /// The decimal text of a number as a 64-bit float.
    pub open spec fn float_display(self) -> Option<Seq<char>> {
        match self {
            JsonView::Int(n) => Some(float_text(n as int)),
            JsonView::UInt(n) => Some(float_text(n as int)),
            JsonView::Float { plain, .. } => Some(plain),
            _ => None,
        }
    }

    /// The value of a number that an unsigned 64-bit integer can hold.
    pub open spec fn unsigned(self) -> Option<u64> {
        match self {
            JsonView::Int(n) => if n >= 0 {
                Some(n as u64)
            } else {
                None
            },
            JsonView::UInt(n) => Some(n),
            _ => None,
        }
    }
}

/// What an optional value holds.
pub open spec fn opt_view(o: Option<Json>) -> Option<JsonView> {
    match o {
        Some(j) => Some(j@),
        None => None,
    }
}

/// The text that an optional string holds.
pub open spec fn opt_text(o: Option<String>) -> Option<Seq<char>> {
    match o {
        Some(s) => Some(s@),
        None => None,
    }
}

impl Json {
    /// The value of `key`, where this is an object that has it.
    pub fn get(&self, key: &str) -> (r: Option<&Json>)
        ensures
            match r {
                Some(v) => self@.get(key@) == Some(v@),
                None => self@.get(key@) is None,
            },
    {
        broadcast use group_json_views;

        match self {
            Json::Object(p) => {
                let mut n: usize = p.len();
                proof {
                    assert(pair_views(p@).take(p@.len() as int) == pair_views(p@));
                }
                while n > 0
                    invariant
                        self@ == JsonView::Object(pair_views(p@)),
                        n <= p@.len(),
                        member(pair_views(p@), key@) == member(pair_views(p@).take(n as int), key@),
                    decreases n,
                {
                    let ghost front = pair_views(p@).take(n as int);
                    proof {
                        assert(front.drop_last() == pair_views(p@).take(n - 1));
                        assert(front.last() == (p@[n - 1].0@, p@[n - 1].1@));
                    }
                    if text::same(p[n - 1].0.as_str(), key) {
                        return Some(&p[n - 1].1);
                    }
                    n = n - 1;
                }
                None
            },
            _ => None,
        }
    }

    /// The value of `key`; null where there is none.
    pub fn at(&self, key: &str) -> (r: Json)
        ensures
            r@ == self@.at(key@),
    {
        match self.get(key) {
            Some(v) => v.copy(),
            None => Json::Null,
        }
    }

    /// The element at position `i`; null where there is none.
    pub fn nth(&self, i: usize) -> (r: Json)
        ensures
            r@ == self@.nth(i as int),
    {
        broadcast use group_json_views;

        match self {
            Json::Array(v) => if i < v.len() {
                proof {
                    assert(text::views(v@)[i as int] == v@[i as int]@);
                }
                v[i].copy()
            } else {
                Json::Null
            },
            _ => Json::Null,
        }
    }

    /// The keys of an object, in their order.
    pub fn keys(&self) -> (r: Vec<String>)
        ensures
            text::views(r@) == self@.keys(),
    {
        broadcast use group_json_views;

        let mut out: Vec<String> = Vec::new();
        proof {
            assert(text::views(out@) =~= Seq::<Seq<char>>::empty());
        }
        if let Json::Object(p) = self {
            let ghost want = self@.keys();
            let mut i: usize = 0;
            while i < p.len()
                invariant
                    self@ == JsonView::Object(pair_views(p@)),
                    want == self@.keys(),
                    i <= p@.len(),
                    text::views(out@) == want.take(i as int),
                decreases p@.len() - i,
            {
                let k = p[i].0.clone();
                let ghost before = out@;
                out.push(k);
                proof {
                    assert(text::views(out@) == text::views(before).push(k@));
                    assert(want.take(i + 1) == want.take(i as int).push(k@));
                }
                i = i + 1;
            }
            proof {
                assert(want.take(i as int) == want);
            }
        }
        out
    }

    /// The text of a string.
    pub fn as_text(&self) -> (r: Option<String>)
        ensures
            opt_text(r) == self@.string(),
    {
        match self {
            Json::Str(s) => Some(s.clone()),
            _ => None,
        }
    }

    /// The text of the string under `key`.
    pub fn text_at(&self, key: &str) -> (r: Option<String>)
        ensures
            opt_text(r) == self@.str_at(key@),
    {
        match self.get(key) {
            Some(v) => v.as_text(),
            None => None,
        }
    }

    /// The text of the string under `key`, or `other` where there is none.
    pub fn text_or(&self, key: &str, other: &str) -> (r: String)
        ensures
            r@ == self@.str_or(key@, other@),
    {
        match self.text_at(key) {
            Some(s) => s,
            None => other.to_owned(),
        }
    }

    /// The value of a number that a signed 64-bit integer can hold.
    pub fn as_int(&self) -> (r: Option<i64>)
        ensures
            r == self@.signed(),
    {
        match self {
            Json::Int(n) => Some(*n),
            Json::UInt(n) => if *n <= 0x7fff_ffff_ffff_ffff {
                Some(*n as i64)
            } else {
                None
            },
            _ => None,
        }
    }

    /// The value of a number that an unsigned 64-bit integer can hold.
    pub fn as_uint(&self) -> (r: Option<u64>)
        ensures
            r == self@.unsigned(),
    {
        match self {
            Json::Int(n) => if *n >= 0 {
                Some(*n as u64)
            } else {
                None
            },
            Json::UInt(n) => Some(*n),
            _ => None,
        }
    }
}

// ---------------------------------------------------------------------------
// Objects with their keys in order
// ---------------------------------------------------------------------------

/// The order of texts by their code points.
pub open spec fn precedes(a: Seq<char>, b: Seq<char>) -> bool
    decreases a.len(),
{
    if b.len() == 0 {
        false
    } else if a.len() == 0 {
        true
    } else if a[0] != b[0] {
        a[0] < b[0]
    } else {
        precedes(a.skip(1), b.skip(1))
    }
}

/// The keys stand in order and none occurs twice.
pub open spec fn in_order(p: Seq<(Seq<char>, JsonView)>) -> bool {
    forall|i: int, j: int|
        #![trigger p[i], p[j]]
        0 <= i < j < p.len() ==> precedes(p[i].0, p[j].0)
}

/// The pairs with `value` under `key`: in the place of the pair that has the
/// key, or before the first pair whose key comes later.
pub open spec fn put(
    p: Seq<(Seq<char>, JsonView)>,
    key: Seq<char>,
    value: JsonView,
) -> Seq<(Seq<char>, JsonView)>
    decreases p.len(),
{
    if p.len() == 0 {
        seq![(key, value)]
    } else if p[0].0 == key {
        p.update(0, (key, value))
    } else if precedes(key, p[0].0) {
        seq![(key, value)] + p
    } else {
        seq![p[0]] + put(p.skip(1), key, value)
    }
}

/// Whether the text `a` comes before the text `b`.
fn comes_before(a: &str, b: &str) -> (r: bool)
    ensures
        r == precedes(a@, b@),
{
    let av = text::chars_of(a);
    let bv = text::chars_of(b);
    let mut i: usize = 0;
    proof {
        assert(a@.skip(0) == a@);
        assert(b@.skip(0) == b@);
    }
    loop
        invariant
            av@ == a@,
            bv@ == b@,
            i <= av@.len(),
            i <= bv@.len(),
            precedes(a@, b@) == precedes(a@.skip(i as int), b@.skip(i as int)),
        decreases av@.len() - i,
    {
        if i == bv.len() {
            return false;
        }
        if i == av.len() {
            return true;
        }
        if av[i] != bv[i] {
            return av[i] < bv[i];
        }
        proof {
            assert(a@.skip(i as int).skip(1) == a@.skip(i + 1));
            assert(b@.skip(i as int).skip(1) == b@.skip(i + 1));
        }
        i = i + 1;
    }
}

proof fn lemma_put_at(p: Seq<(Seq<char>, JsonView)>, key: Seq<char>, value: JsonView, n: int)
    requires
        0 <= n <= p.len(),
        forall|j: int| 0 <= j < n ==> (#[trigger] p[j]).0 != key && !precedes(key, p[j].0),
    ensures
        put(p, key, value) == p.take(n) + put(p.skip(n), key, value),
    decreases n,
{
    if n == 0 {
        assert(p.take(0) + put(p.skip(0), key, value) =~= put(p, key, value)) by {
            assert(p.skip(0) == p);
        }
    } else {
        assert(p[0].0 != key && !precedes(key, p[0].0));
        let rest = p.skip(1);
        assert forall|j: int| 0 <= j < n - 1 implies (#[trigger] rest[j]).0 != key && !precedes(
            key,
            rest[j].0,
        ) by {
            assert(rest[j] == p[j + 1]);
        }
        lemma_put_at(rest, key, value, n - 1);
        assert(rest.skip(n - 1) == p.skip(n));
        assert(seq![p[0]] + rest.take(n - 1) == p.take(n));
        assert(put(p, key, value) =~= p.take(n) + put(p.skip(n), key, value));
    }
}

/// Sets `key` to `value` among the pairs of an object.
pub fn put_pair(pairs: &mut Vec<(String, Json)>, key: String, value: Json)
    ensures
        pair_views(final(pairs)@) == put(pair_views(old(pairs)@), key@, value@),
{
    let ghost before = pair_views(pairs@);
    let ghost kv = (key@, value@);
    let mut n: usize = 0;
    while n < pairs.len() && !text::same(pairs[n].0.as_str(), key.as_str()) && !comes_before(
        key.as_str(),
        pairs[n].0.as_str(),
    )
        invariant
            before == pair_views(pairs@),
            n <= pairs@.len(),
            forall|j: int|
                0 <= j < n ==> (#[trigger] before[j]).0 != key@ && !precedes(key@, before[j].0),
        decreases pairs@.len() - n,
    {
        n = n + 1;
    }
    proof {
        lemma_put_at(before, key@, value@, n as int);
        if n < before.len() {
            assert(before.skip(n as int)[0] == before[n as int]);
        }
    }
    if n < pairs.len() && text::same(pairs[n].0.as_str(), key.as_str()) {
        pairs.set(n, (key, value));
        proof {
            assert(pair_views(pairs@) =~= before.update(n as int, kv));
            assert(before.update(n as int, kv) =~= before.take(n as int) + before.skip(
                n as int,
            ).update(0, kv));
        }
    } else {
        pairs.insert(n, (key, value));
        proof {
            assert(pair_views(pairs@) =~= before.take(n as int) + (seq![kv] + before.skip(
                n as int,
            )));
            if n == before.len() {
                assert(seq![kv] + before.skip(n as int) =~= seq![kv]);
            }
        }
    }
}

proof fn lemma_precedes_order(a: Seq<char>, b: Seq<char>, c: Seq<char>)
    ensures
        !precedes(a, a),
        a == b || precedes(a, b) || precedes(b, a),
        precedes(a, b) && precedes(b, c) ==> precedes(a, c),
        precedes(a, b) ==> !precedes(b, a),
    decreases a.len(),
{
    if a.len() > 0 {
        if b.len() > 0 && c.len() > 0 {
            lemma_precedes_order(a.skip(1), b.skip(1), c.skip(1));
        }
        if b.len() > 0 {
            lemma_precedes_order(a.skip(1), b.skip(1), a.skip(1));
            if a[0] == b[0] && a.skip(1) == b.skip(1) {
                assert(a =~= seq![a[0]] + a.skip(1));
                assert(b =~= seq![b[0]] + b.skip(1));
            }
        }
        lemma_precedes_order(a.skip(1), a.skip(1), Seq::empty());
    } else if b.len() == 0 {
        assert(a =~= b);
    }
}

/// A key of two lists of pairs has the value that the second has for it, or else
/// the first.
pub proof fn lemma_member_front(
    p: Seq<(Seq<char>, JsonView)>,
    q: Seq<(Seq<char>, JsonView)>,
    key: Seq<char>,
)
    ensures
        member(p + q, key) == match member(q, key) {
            Some(v) => Some(v),
            None => member(p, key),
        },
    decreases q.len(),
{
    if q.len() == 0 {
        assert(p + q == p);
    } else {
        assert((p + q).drop_last() == p + q.drop_last());
        lemma_member_front(p, q.drop_last(), key);
    }
}

proof fn lemma_member_absent(p: Seq<(Seq<char>, JsonView)>, key: Seq<char>)
    requires
        forall|i: int| 0 <= i < p.len() ==> (#[trigger] p[i]).0 != key,
    ensures
        member(p, key) is None,
    decreases p.len(),
{
    if p.len() > 0 {
        assert forall|i: int| 0 <= i < p.len() - 1 implies (#[trigger] p.drop_last()[i]).0
            != key by {
            assert(p.drop_last()[i] == p[i]);
        }
        lemma_member_absent(p.drop_last(), key);
    }
}

/// Setting a key keeps the keys in order; the key then has the value, and
/// every other key has what it had.
pub proof fn law_put_sets_one_key(
    p: Seq<(Seq<char>, JsonView)>,
    key: Seq<char>,
    value: JsonView,
    other: Seq<char>,
)
    requires
        in_order(p),
    ensures
        in_order(put(p, key, value)),
        member(put(p, key, value), key) == Some(value),
        other != key ==> member(put(p, key, value), other) == member(p, other),
    decreases p.len(),
{
    let q = put(p, key, value);
    if p.len() == 0 {
        assert(q.drop_last() =~= p);
    } else {
        let rest = p.skip(1);
        assert(p =~= seq![p[0]] + rest);
        assert forall|i: int, j: int| 0 <= i < j < rest.len() implies precedes(
            (#[trigger] rest[i]).0,
            (#[trigger] rest[j]).0,
        ) by {
            assert(rest[i] == p[i + 1] && rest[j] == p[j + 1]);
        }
        lemma_member_front(seq![p[0]], rest, other);
        lemma_member_front(seq![p[0]], rest, key);
        assert(seq![p[0]].drop_last() =~= Seq::<(Seq<char>, JsonView)>::empty());
        if p[0].0 == key {
            assert forall|i: int| 0 <= i < rest.len() implies (#[trigger] rest[i]).0 != key by {
                assert(rest[i] == p[i + 1]);
                lemma_precedes_order(key, key, key);
            }
            lemma_member_absent(rest, key);
            assert(q =~= seq![(key, value)] + rest);
            lemma_member_front(seq![(key, value)], rest, key);
            lemma_member_front(seq![(key, value)], rest, other);
            assert(seq![(key, value)].drop_last() =~= Seq::<(Seq<char>, JsonView)>::empty());
            assert forall|i: int, j: int| 0 <= i < j < q.len() implies precedes(
                (#[trigger] q[i]).0,
                (#[trigger] q[j]).0,
            ) by {
                assert(q[j] == p[j]);
                assert(q[i].0 == p[i].0);
            }
        } else if precedes(key, p[0].0) {
            assert forall|i: int| 0 <= i < p.len() implies (#[trigger] p[i]).0 != key by {
                lemma_precedes_order(key, p[0].0, p[i].0);
                lemma_precedes_order(key, key, key);
            }
            lemma_member_absent(p, key);
            lemma_member_front(seq![(key, value)], p, key);
            lemma_member_front(seq![(key, value)], p, other);
            assert(seq![(key, value)].drop_last() =~= Seq::<(Seq<char>, JsonView)>::empty());
            assert forall|i: int, j: int| 0 <= i < j < q.len() implies precedes(
                (#[trigger] q[i]).0,
                (#[trigger] q[j]).0,
            ) by {
                assert(q[j] == p[j - 1]);
                if i > 0 {
                    assert(q[i] == p[i - 1]);
                } else if j > 1 {
                    lemma_precedes_order(key, p[0].0, p[j - 1].0);
                }
            }
        } else {
            let tail = put(rest, key, value);
            law_put_sets_one_key(rest, key, value, other);
            lemma_member_front(seq![p[0]], tail, key);
            lemma_member_front(seq![p[0]], tail, other);
            lemma_precedes_order(p[0].0, key, key);
            lemma_put_keys(rest, key, value);
            assert forall|i: int, j: int| 0 <= i < j < q.len() implies precedes(
                (#[trigger] q[i]).0,
                (#[trigger] q[j]).0,
            ) by {
                assert(q[j] == tail[j - 1]);
                if i > 0 {
                    assert(q[i] == tail[i - 1]);
                } else {
                    let k = tail[j - 1].0;
                    if k != key {
                        let m = choose|m: int| 0 <= m < rest.len() && (#[trigger] rest[m]).0 == k;
                        assert(rest[m] == p[m + 1]);
                    }
                }
            }
        }
    }
}

proof fn lemma_put_keys(p: Seq<(Seq<char>, JsonView)>, key: Seq<char>, value: JsonView)
    ensures
        forall|j: int|
            0 <= j < put(p, key, value).len() && (#[trigger] put(p, key, value)[j]).0 != key ==> exists|
                m: int,
            | 0 <= m < p.len() && (#[trigger] p[m]).0 == put(p, key, value)[j].0,
    decreases p.len(),
{
    let q = put(p, key, value);
    if p.len() > 0 {
        if p[0].0 != key && !precedes(key, p[0].0) {
            let rest = p.skip(1);
            lemma_put_keys(rest, key, value);
            assert forall|j: int| 0 <= j < q.len() && (#[trigger] q[j]).0 != key implies exists|
                m: int,
            | 0 <= m < p.len() && (#[trigger] p[m]).0 == q[j].0 by {
                if j == 0 {
                    assert(p[0].0 == q[0].0);
                } else {
                    assert(q[j] == put(rest, key, value)[j - 1]);
                    let m = choose|m: int|
                        0 <= m < rest.len() && (#[trigger] rest[m]).0 == put(rest, key, value)[j
                            - 1].0;
                    assert(p[m + 1].0 == q[j].0);
                }
            }
        } else if p[0].0 == key {
            assert forall|j: int| 0 <= j < q.len() && (#[trigger] q[j]).0 != key implies exists|
                m: int,
            | 0 <= m < p.len() && (#[trigger] p[m]).0 == q[j].0 by {
                assert(p[j].0 == q[j].0);
            }
        } else {
            assert forall|j: int| 0 <= j < q.len() && (#[trigger] q[j]).0 != key implies exists|
                m: int,
            | 0 <= m < p.len() && (#[trigger] p[m]).0 == q[j].0 by {
                assert(p[j - 1].0 == q[j].0);
            }
        }
    }
}

// ---------------------------------------------------------------------------
// Text
// ---------------------------------------------------------------------------

/// `serde_json::Value`, which only passes between the functions below.
#[verifier::external_type_specification]
#[verifier::external_body]
pub struct ExValue(serde_json::Value);

/// `serde_json::Number`, which only passes between the functions below.
#[verifier::external_type_specification]
#[verifier::external_body]
pub struct ExNumber(serde_json::Number);

/// The compact JSON text that `serde_json` writes for a value.
pub uninterp spec fn json_text(j: JsonView) -> Seq<char>;

/// The indented JSON text that `serde_json` writes for a value.
pub uninterp spec fn json_pretty(j: JsonView) -> Seq<char>;

/// The value that `serde_json` reads from a text, if the text is JSON.
pub uninterp spec fn json_read(s: Seq<char>) -> Option<JsonView>;

/// The elements that `serde_json` reads from a text, if it is a JSON array.
pub uninterp spec fn json_rows(s: Seq<char>) -> Option<Seq<JsonView>>;

/// The decimal text of an integer after its passage through a 64-bit float.
pub uninterp spec fn float_text(n: int) -> Seq<char>;

/// The text stands in a JSON string as it is.
pub open spec fn unescaped(s: Seq<char>) -> bool {
    forall|i: int|
        0 <= i < s.len() ==> (#[trigger] s[i]) as u32 >= 0x20 && s[i] != '"' && s[i] != '\\'
}

/// A value that is neither an array nor an object.
pub open spec fn scalar(j: JsonView) -> bool {
    !(j is Array) && !(j is Object)
}

/// Every row is an object whose values are scalars.
pub open spec fn flat_rows(rows: Seq<JsonView>) -> bool {
    forall|i: int|
        0 <= i < rows.len() ==> (#[trigger] rows[i] matches JsonView::Object(p) && forall|k: int|
            0 <= k < p.len() ==> scalar((#[trigger] p[k]).1))
}

/// The text is a JSON array of `n` elements.
pub open spec fn reads_as(s: Seq<char>, n: nat) -> bool {
    match json_rows(s) {
        Some(v) => v.len() == n,
        None => false,
    }
}

/// What optional rows hold.
pub open spec fn opt_rows(o: Option<Vec<Json>>) -> Option<Seq<JsonView>> {
    match o {
        Some(v) => Some(text::views(v@)),
        None => None,
    }
}

/// The value as a `serde_json::Value`, variant by variant. Nothing is claimed
/// of it: the functions that write text call it on their argument.
#[verifier::external_body]
fn to_value(j: &Json) -> Value {
    match j {
        Json::Null => Value::Null,
        Json::Bool(b) => Value::Bool(*b),
        Json::Int(n) => Value::from(*n),
        Json::UInt(n) => Value::from(*n),
        Json::Float(f) => f.text.parse().ok().and_then(serde_json::Number::from_f64).map(
            Value::Number,
        ).unwrap_or_default(),
        Json::Str(s) => Value::String(s.clone()),
        Json::Array(v) => Value::Array(v.iter().map(to_value).collect()),
        Json::Object(p) => Value::Object(
            p.iter().map(|kv| (kv.0.clone(), to_value(&kv.1))).collect(),
        ),
    }
}

/// What a `Value` holds, variant by variant. Nothing is claimed
/// of it: the functions that read text call it on their result.
#[verifier::external_body]
fn from_value(v: Value) -> Json {
    match v {
        Value::Null => Json::Null,
        Value::Bool(b) => Json::Bool(b),
        Value::Number(n) => match (n.as_i64(), n.as_u64()) {
            (Some(i), _) => Json::Int(i),
            (_, Some(u)) => Json::UInt(u),
            _ => Json::Float(float_from(n)),
        },
        Value::String(s) => Json::Str(s),
        Value::Array(a) => Json::Array(a.into_iter().map(from_value).collect()),
        Value::Object(m) => Json::Object(
            m.into_iter().map(|kv| (kv.0, from_value(kv.1))).collect(),
        ),
    }
}

/// The two texts of a number with a fraction, by `serde_json::Number`'s
/// `to_string` and `as_f64`. Nothing is claimed of them.
#[verifier::external_body]
fn float_from(n: serde_json::Number) -> JsonFloat {
    JsonFloat { text: n.to_string(), plain: n.as_f64().map(|x| x.to_string()).unwrap_or_default() }
}

/// `serde_json::Number::as_f64` on an integer, as decimal text. The integers
/// that a 64-bit float holds exactly keep their digits.
#[verifier::external_body]
fn float_of(n: i128) -> (r: String)
    ensures
        r@ == float_text(n as int),
        -0x20_0000_0000_0000 <= n <= 0x20_0000_0000_0000 ==> r@ == text::dec_int(n as int),
{
    serde_json::Number::from_i128(n).and_then(|x| x.as_f64()).map(|x| x.to_string()).unwrap_or_default()
}

/// `serde_json::to_string` on the value: its text is a function of what the
/// value holds. Null, the booleans, the integers and the strings that need no
/// escape have the texts that JSON gives them.
#[verifier::external_body]
fn write_text(j: &Json) -> (r: String)
    ensures
        r@ == json_text(j@),
        j@ is Null ==> r@ == "null"@,
        j@ == JsonView::Bool(true) ==> r@ == "true"@,
        j@ == JsonView::Bool(false) ==> r@ == "false"@,
        j@ matches JsonView::Int(n) ==> r@ == text::dec_int(n as int),
        j@ matches JsonView::UInt(n) ==> r@ == text::dec_int(n as int),
        j@ matches JsonView::Str(s) ==> unescaped(s) ==> r@ == seq!['"'] + s + seq!['"'],
{
    serde_json::to_string(&to_value(j)).unwrap_or_default()
}

/// `serde_json::to_string_pretty` on the value: its text is a function of what
/// the value holds. An empty array is `[]`, and an array of flat rows is read
/// back as an array of as many elements.
#[verifier::external_body]
fn write_pretty(j: &Json) -> (r: String)
    ensures
        r@ == json_pretty(j@),
        j@ matches JsonView::Array(v) ==> v.len() == 0 ==> r@ == "[]"@,
        j@ matches JsonView::Array(v) ==> flat_rows(v) ==> reads_as(r@, v.len()),
{
    serde_json::to_string_pretty(&to_value(j)).unwrap_or_default()
}

/// `serde_json::from_str` at `serde_json::Value`: whether the text is JSON, and
/// the value it holds, are functions of the text.
#[verifier::external_body]
fn read_value(s: &str) -> (r: Option<Json>)
    ensures
        opt_view(r) == json_read(s@),
{
    serde_json::from_str::<serde_json::Value>(s).ok().map(from_value)
}

/// `serde_json::from_str` at `Vec<serde_json::Value>`: whether the text is a
/// JSON array, and the elements it holds, are functions of the text.
#[verifier::external_body]
fn read_rows(s: &str) -> (r: Option<Vec<Json>>)
    ensures
        opt_rows(r) == json_rows(s@),
{
    serde_json::from_str::<Vec<serde_json::Value>>(s).ok().map(
        |v| v.into_iter().map(from_value).collect(),
    )
}

impl Json {
    /// The compact JSON text of the value.
    pub fn to_text(&self) -> (r: String)
        ensures
            r@ == json_text(self@),
            self@ is Null ==> r@ == "null"@,
            self@ == JsonView::Bool(true) ==> r@ == "true"@,
            self@ == JsonView::Bool(false) ==> r@ == "false"@,
            self@ matches JsonView::Int(n) ==> r@ == text::dec_int(n as int),
            self@ matches JsonView::UInt(n) ==> r@ == text::dec_int(n as int),
            self@ matches JsonView::Str(s) ==> unescaped(s) ==> r@ == seq!['"'] + s + seq!['"'],
    {
        write_text(self)
    }

    /// The indented JSON text of the value.
    pub fn to_pretty(&self) -> (r: String)
        ensures
            r@ == json_pretty(self@),
            self@ matches JsonView::Array(v) ==> v.len() == 0 ==> r@ == "[]"@,
            self@ matches JsonView::Array(v) ==> flat_rows(v) ==> reads_as(r@, v.len()),
    {
        write_pretty(self)
    }

    /// The value that a JSON text holds.
    pub fn from_text(s: &str) -> (r: Option<Json>)
        ensures
            opt_view(r) == json_read(s@),
    {
        read_value(s)
    }

    /// The elements that the text of a JSON array holds.
    pub fn rows_from_text(s: &str) -> (r: Option<Vec<Json>>)
        ensures
            opt_rows(r) == json_rows(s@),
    {
        read_rows(s)
    }

    /// The decimal text of a number after its passage through a 64-bit float.
    pub fn float_display(&self) -> (r: Option<String>)
        ensures
            opt_text(r) == self@.float_display(),
            self@ matches JsonView::Int(n) ==> -0x20_0000_0000_0000 <= n <= 0x20_0000_0000_0000
                ==> opt_text(r) == Some(text::dec_int(n as int)),
    {
        match self {
            Json::Int(n) => Some(float_of(*n as i128)),
            Json::UInt(n) => Some(float_of(*n as i128)),
            Json::Float(f) => Some(f.plain.clone()),
            _ => None,
        }
    }
}

/// What `trim_matches('"')` leaves of the compact text of a value.
pub open spec fn bare_text(j: JsonView) -> Seq<char> {
    text::trim_char(json_text(j), '"')
}

/// The compact text of a value without the quotes at its ends.
/// Null, the booleans, the integers and the strings that need no escape read as
/// they do without quotes.
pub fn bare(j: &Json) -> (r: String)
    ensures
        r@ == bare_text(j@),
        j@ is Null ==> r@ == "null"@,
        j@ == JsonView::Bool(true) ==> r@ == "true"@,
        j@ == JsonView::Bool(false) ==> r@ == "false"@,
        j@ matches JsonView::Int(n) ==> r@ == text::dec_int(n as int),
        j@ matches JsonView::UInt(n) ==> r@ == text::dec_int(n as int),
        j@ matches JsonView::Str(s) ==> unescaped(s) ==> r@ == s,
{
    let t = j.to_text();
    proof {
        reveal_strlit("null");
        reveal_strlit("true");
        reveal_strlit("false");
        let f = text::only('"');
        text::law_trimming_only_takes_the_ends(t@, f);
        match j@ {
            JsonView::Int(n) => lemma_number_unquoted(n as int),
            JsonView::UInt(n) => lemma_number_unquoted(n as int),
            JsonView::Str(s) => if unescaped(s) {
                text::law_trimming_ignores_the_margins(seq!['"'], s, seq!['"'], f);
                text::law_trimming_only_takes_the_ends(s, f);
            },
            _ => {},
        }
    }
    text::trim_matches(t.as_str(), '"')
}

proof fn lemma_number_unquoted(n: int)
    ensures
        text::dec_int(n).len() > 0,
        text::dec_int(n)[0] != '"',
        text::dec_int(n).last() != '"',
{
    let m = if n < 0 {
        (-n) as nat
    } else {
        n as nat
    };
    text::lemma_dec_digits(m);
    let d = text::dec(m);
    assert('0' <= d[0] <= '9');
    assert('0' <= d[d.len() - 1] <= '9');
    assert(text::dec_int(n).last() == d.last());
}

// ---------------------------------------------------------------------------
// What reading is for
// ---------------------------------------------------------------------------

/// An object has under a key the value of the last pair with that key, and
/// nothing where no pair has it; nothing else than an object has keys.
pub proof fn law_objects_hold_their_pairs(p: Seq<(Seq<char>, JsonView)>, i: int, key: Seq<char>)
    ensures
        0 <= i < p.len() && (forall|k: int| i < k < p.len() ==> (#[trigger] p[k]).0 != p[i].0)
            ==> JsonView::Object(p).get(p[i].0) == Some(p[i].1) && JsonView::Object(p).at(p[i].0)
            == p[i].1,
        (forall|k: int| 0 <= k < p.len() ==> (#[trigger] p[k]).0 != key) ==> JsonView::Object(
            p,
        ).get(key) is None && JsonView::Object(p).at(key) == JsonView::Null,
        JsonView::Object(p).keys().len() == p.len(),
        0 <= i < p.len() ==> JsonView::Object(p).keys()[i] == p[i].0,
{
    if 0 <= i < p.len() && (forall|k: int| i < k < p.len() ==> (#[trigger] p[k]).0 != p[i].0) {
        lemma_last_pair(p, i);
    }
    if forall|k: int| 0 <= k < p.len() ==> (#[trigger] p[k]).0 != key {
        lemma_member_absent(p, key);
    }
}

proof fn lemma_last_pair(p: Seq<(Seq<char>, JsonView)>, i: int)
    requires
        0 <= i < p.len(),
        forall|k: int| i < k < p.len() ==> (#[trigger] p[k]).0 != p[i].0,
    ensures
        member(p, p[i].0) == Some(p[i].1),
    decreases p.len(),
{
    if i < p.len() - 1 {
        let f = p.drop_last();
        assert(p[p.len() - 1].0 != p[i].0);
        assert forall|k: int| i < k < f.len() implies (#[trigger] f[k]).0 != f[i].0 by {
            assert(f[k] == p[k]);
        }
        lemma_last_pair(f, i);
    }
}

/// A string under a key is its text, and anything else under it is none; an
/// element of an array is what stands there.
pub proof fn law_strings_are_read(
    j: JsonView,
    key: Seq<char>,
    s: Seq<char>,
    other: Seq<char>,
    v: Seq<JsonView>,
    i: int,
)
    ensures
        j.get(key) == Some(JsonView::Str(s)) ==> j.str_at(key) == Some(s) && j.str_or(key, other)
            == s,
        (j.get(key) matches Some(x) ==> !(x is Str)) ==> j.str_at(key) is None && j.str_or(
            key,
            other,
        ) == other,
        0 <= i < v.len() ==> JsonView::Array(v).nth(i) == v[i],
        !(j is Array) ==> j.nth(i) == JsonView::Null,
        !(j is Object) ==> j.get(key) is None && j.keys().len() == 0,
        JsonView::Str(s).string() == Some(s),
        !(j is Str) ==> j.string() is None,
{
}

/// An integer is read with its value, signed or unsigned, wherever it fits; where
/// it does not, and from anything else, nothing is read.
pub proof fn law_integers_keep_their_value(j: JsonView, n: i64, u: u64)
    ensures
        JsonView::Int(n).signed() == Some(n),
        JsonView::UInt(u).unsigned() == Some(u),
        match JsonView::Int(n).unsigned() {
            Some(x) => x as int == n as int,
            None => n < 0,
        },
        match JsonView::UInt(u).signed() {
            Some(x) => x as int == u as int,
            None => u > i64::MAX,
        },
        !(j is Int) && !(j is UInt) ==> j.signed() is None && j.unsigned() is None,
        !(j is Int) && !(j is UInt) && !(j is Float) ==> j.float_display() is None,
        j matches JsonView::Float { text, plain } ==> j.float_display() == Some(plain),
        JsonView::Int(n).float_display() == Some(float_text(n as int)),
        JsonView::UInt(u).float_display() == Some(float_text(u as int)),
{
}

/// Texts are ordered as in a dictionary: behind what two of them share, the one
/// that ends or has the smaller character comes first.
pub proof fn law_texts_stand_as_in_a_dictionary(
    shared: Seq<char>,
    x: char,
    y: char,
    a: Seq<char>,
    b: Seq<char>,
)
    ensures
        precedes(shared, shared + seq![y] + b),
        !precedes(shared + seq![y] + b, shared),
        !precedes(shared, shared),
        x < y ==> precedes(shared + seq![x] + a, shared + seq![y] + b),
        x < y ==> !precedes(shared + seq![y] + b, shared + seq![x] + a),
    decreases shared.len(),
{
    let s = shared + seq![x] + a;
    let t = shared + seq![y] + b;
    if shared.len() > 0 {
        let r = shared.skip(1);
        law_texts_stand_as_in_a_dictionary(r, x, y, a, b);
        assert(s.skip(1) =~= r + seq![x] + a);
        assert(t.skip(1) =~= r + seq![y] + b);
    }
}

}
