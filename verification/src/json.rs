//! JSON values. `Json` is what the library computes with, `Tree` what contracts
//! speak of. Reading a text and writing one is done by `serde_json`.

use crate::text;
use serde_json::Value as Outside;
use vstd::prelude::*;

pub mod laws;
pub(crate) mod names;

verus! {

/// A number of a JSON text. Only whole numbers are computed with; another one is
/// carried as it is written.
#[derive(Debug)]
pub enum Num {
    /// A whole number that is not negative.
    Pos(u64),
    /// A negative whole number.
    Neg(i64),
    /// Any other number, by its decimal writing.
    Float(String),
}

/// A JSON value. Where an object holds a name more than once, reading a field takes the
/// first, and writing the object out as a text keeps the last. An object that was read
/// from a text holds each name once.
#[derive(Debug)]
pub enum Json {
    Null,
    Bool(bool),
    Num(Num),
    Text(String),
    List(Vec<Json>),
    Record(Vec<(String, Json)>),
}

/// The value of a `Json`.
pub enum Tree {
    Null,
    Bool(bool),
    Pos(u64),
    Neg(i64),
    Float(Seq<char>),
    Str(Seq<char>),
    Arr(Seq<Tree>),
    Obj(Seq<(Seq<char>, Tree)>),
}

impl View for Num {
    type V = Tree;

    open spec fn view(&self) -> Tree {
        match self {
            Num::Pos(n) => Tree::Pos(*n),
            Num::Neg(n) => Tree::Neg(*n),
            Num::Float(t) => Tree::Float(t@),
        }
    }
}

pub open spec fn tree_of(v: Json) -> Tree
    decreases v,
{
    match v {
        Json::Null => Tree::Null,
        Json::Bool(b) => Tree::Bool(b),
        Json::Num(n) => n@,
        Json::Text(s) => Tree::Str(s@),
        Json::List(items) => Tree::Arr(
            Seq::new(
                items@.len(),
                |i: int|
                    if 0 <= i < items@.len() {
                        tree_of(items@[i])
                    } else {
                        Tree::Null
                    },
            ),
        ),
        Json::Record(fields) => Tree::Obj(
            Seq::new(
                fields@.len(),
                |i: int|
                    if 0 <= i < fields@.len() {
                        (fields@[i].0@, tree_of(fields@[i].1))
                    } else {
                        (Seq::empty(), Tree::Null)
                    },
            ),
        ),
    }
}

impl View for Json {
    type V = Tree;

    open spec fn view(&self) -> Tree {
        tree_of(*self)
    }
}

/// An object without fields.
pub open spec fn no_fields() -> Seq<(Seq<char>, Tree)> {
    Seq::empty()
}

/// An array without elements.
pub open spec fn no_items() -> Seq<Tree> {
    Seq::empty()
}

/// The values of a sequence.
pub open spec fn trees(v: Seq<Json>) -> Seq<Tree> {
    v.map_values(|x: Json| x@)
}

/// The named values of a record.
pub open spec fn pairs(v: Seq<(String, Json)>) -> Seq<(Seq<char>, Tree)> {
    v.map_values(|f: (String, Json)| (f.0@, f.1@))
}

pub open spec fn option_tree(v: Option<Json>) -> Option<Tree> {
    match v {
        Some(x) => Some(x@),
        None => None,
    }
}

pub open spec fn field_from(fields: Seq<(Seq<char>, Tree)>, key: Seq<char>, i: int) -> Option<Tree>
    decreases fields.len() - i,
{
    if i < 0 || i >= fields.len() {
        None
    } else if fields[i].0 == key {
        Some(fields[i].1)
    } else {
        field_from(fields, key, i + 1)
    }
}

/// The value under a name, where `v` is an object that holds it.
pub open spec fn field(v: Tree, key: Seq<char>) -> Option<Tree> {
    match v {
        Tree::Obj(fields) => field_from(fields, key, 0),
        _ => None,
    }
}

/// The `i`th element, where `v` is an array that has one.
pub open spec fn element(v: Tree, i: int) -> Option<Tree> {
    match v {
        Tree::Arr(items) => if 0 <= i < items.len() {
            Some(items[i])
        } else {
            None
        },
        _ => None,
    }
}

pub open spec fn str_of(v: Option<Tree>) -> Option<Seq<char>> {
    match v {
        Some(Tree::Str(s)) => Some(s),
        _ => None,
    }
}

pub open spec fn i64_of(v: Option<Tree>) -> Option<i64> {
    match v {
        Some(Tree::Pos(n)) => if n <= i64::MAX {
            Some(n as i64)
        } else {
            None
        },
        Some(Tree::Neg(n)) => Some(n),
        _ => None,
    }
}

pub open spec fn u64_of(v: Option<Tree>) -> Option<u64> {
    match v {
        Some(Tree::Pos(n)) => Some(n),
        _ => None,
    }
}

pub open spec fn bool_of(v: Option<Tree>) -> Option<bool> {
    match v {
        Some(Tree::Bool(b)) => Some(b),
        _ => None,
    }
}

/// The elements of an array; none where `v` is no array.
pub open spec fn elements(v: Tree) -> Seq<Tree> {
    match v {
        Tree::Arr(items) => items,
        _ => Seq::empty(),
    }
}

pub open spec fn elements_of(v: Option<Tree>) -> Seq<Tree> {
    match v {
        Some(x) => elements(x),
        None => Seq::empty(),
    }
}

/// The text under a name, empty where there is none.
pub open spec fn text_at(v: Tree, key: Seq<char>) -> Seq<char> {
    match str_of(field(v, key)) {
        Some(s) => s,
        None => Seq::empty(),
    }
}

/// The whole number under a name, zero where there is none.
pub open spec fn int_at(v: Tree, key: Seq<char>) -> i64 {
    match i64_of(field(v, key)) {
        Some(n) => n,
        None => 0,
    }
}

/// The value under a name, null where there is none.
pub open spec fn value_at(v: Tree, key: Seq<char>) -> Tree {
    match field(v, key) {
        Some(x) => x,
        None => Tree::Null,
    }
}

/// The value of a whole number.
pub open spec fn int_tree(n: int) -> Tree {
    if n < 0 {
        Tree::Neg(n as i64)
    } else {
        Tree::Pos(n as u64)
    }
}

pub proof fn lemma_list(items: Vec<Json>)
    ensures
        (Json::List(items))@ == Tree::Arr(trees(items@)),
{
    assert((Json::List(items))@->Arr_0 =~= trees(items@));
}

pub proof fn lemma_record(fields: Vec<(String, Json)>)
    ensures
        (Json::Record(fields))@ == Tree::Obj(pairs(fields@)),
{
    assert((Json::Record(fields))@->Obj_0 =~= pairs(fields@));
}

pub fn copy_list(v: &Vec<Json>) -> (r: Vec<Json>)
    ensures
        trees(r@) == trees(v@),
    decreases v,
{
    let mut out: Vec<Json> = Vec::new();
    let mut i: usize = 0;
    while i < v.len()
        invariant
            i <= v@.len(),
            trees(out@) == trees(v@).take(i as int),
        decreases v@.len() - i,
    {
        let ghost before = out@;
        out.push(copy(&v[i]));
        assert(trees(out@) =~= trees(before).push(v@[i as int]@));
        assert(trees(v@).take(i + 1) =~= trees(v@).take(i as int).push(v@[i as int]@));
        i += 1;
    }
    assert(trees(v@).take(v@.len() as int) =~= trees(v@));
    out
}

pub(crate) fn copy_fields(v: &Vec<(String, Json)>) -> (r: Vec<(String, Json)>)
    ensures
        pairs(r@) == pairs(v@),
    decreases v,
{
    let mut out: Vec<(String, Json)> = Vec::new();
    let mut i: usize = 0;
    while i < v.len()
        invariant
            i <= v@.len(),
            pairs(out@) == pairs(v@).take(i as int),
        decreases v@.len() - i,
    {
        let ghost before = out@;
        out.push((v[i].0.clone(), copy(&v[i].1)));
        assert(pairs(out@) =~= pairs(before).push((v@[i as int].0@, v@[i as int].1@)));
        assert(pairs(v@).take(i + 1) =~= pairs(v@).take(i as int).push((v@[i as int].0@, v@[i as int].1@)));
        i += 1;
    }
    assert(pairs(v@).take(v@.len() as int) =~= pairs(v@));
    out
}

/// A copy of the value.
pub fn copy(v: &Json) -> (r: Json)
    ensures
        r@ == v@,
    decreases v,
{
    match v {
        Json::Null => Json::Null,
        Json::Bool(b) => Json::Bool(*b),
        Json::Num(n) => Json::Num(n.clone()),
        Json::Text(s) => Json::Text(s.clone()),
        Json::List(items) => {
            let c = copy_list(items);
            proof {
                lemma_list(*items);
                lemma_list(c);
            }
            Json::List(c)
        },
        Json::Record(fields) => {
            let c = copy_fields(fields);
            proof {
                lemma_record(*fields);
                lemma_record(c);
            }
            Json::Record(c)
        },
    }
}

impl Clone for Num {
    fn clone(&self) -> (r: Self)
        ensures
            r@ == self@,
    {
        match self {
            Num::Pos(n) => Num::Pos(*n),
            Num::Neg(n) => Num::Neg(*n),
            Num::Float(t) => Num::Float(t.clone()),
        }
    }
}

impl Clone for Json {
    fn clone(&self) -> (r: Self)
        ensures
            r@ == self@,
    {
        copy(self)
    }
}

pub fn copy_json_option(v: &Option<Json>) -> (r: Option<Json>)
    ensures
        option_tree(r) == option_tree(*v),
{
    match v {
        Some(x) => Some(copy(x)),
        None => None,
    }
}

impl Json {
    /// The value under a name.
    pub fn get(&self, key: &str) -> (r: Option<&Json>)
        ensures
            match r {
                Some(v) => field(self@, key@) == Some(v@),
                None => field(self@, key@) is None,
            },
    {
        match self {
            Json::Record(fields) => {
                proof {
                    lemma_record(*fields);
                }
                let ghost all = pairs(fields@);
                let mut i: usize = 0;
                while i < fields.len()
                    invariant
                        i <= fields@.len(),
                        self@ == Tree::Obj(all),
                        all == pairs(fields@),
                        field_from(all, key@, i as int) == field_from(all, key@, 0),
                    decreases fields@.len() - i,
                {
                    assert(all[i as int] == (fields@[i as int].0@, fields@[i as int].1@));
                    if text::same(fields[i].0.as_str(), key) {
                        return Some(&fields[i].1);
                    }
                    i += 1;
                }
                None
            },
            _ => None,
        }
    }

    /// The element at an index.
    pub fn at(&self, i: usize) -> (r: Option<&Json>)
        ensures
            match r {
                Some(v) => element(self@, i as int) == Some(v@),
                None => element(self@, i as int) is None,
            },
    {
        match self {
            Json::List(items) => {
                proof {
                    lemma_list(*items);
                }
                if i < items.len() {
                    Some(&items[i])
                } else {
                    None
                }
            },
            _ => None,
        }
    }

    pub fn as_str(&self) -> (r: Option<&str>)
        ensures
            match r {
                Some(s) => str_of(Some(self@)) == Some(s@),
                None => str_of(Some(self@)) is None,
            },
    {
        match self {
            Json::Text(s) => Some(s.as_str()),
            _ => None,
        }
    }

    pub fn as_i64(&self) -> (r: Option<i64>)
        ensures
            r == i64_of(Some(self@)),
    {
        match self {
            Json::Num(Num::Pos(n)) => if *n <= i64::MAX as u64 {
                Some(*n as i64)
            } else {
                None
            },
            Json::Num(Num::Neg(n)) => Some(*n),
            _ => None,
        }
    }

    pub fn as_u64(&self) -> (r: Option<u64>)
        ensures
            r == u64_of(Some(self@)),
    {
        match self {
            Json::Num(Num::Pos(n)) => Some(*n),
            _ => None,
        }
    }

    pub fn as_bool(&self) -> (r: Option<bool>)
        ensures
            r == bool_of(Some(self@)),
    {
        match self {
            Json::Bool(b) => Some(*b),
            _ => None,
        }
    }

    pub fn is_null(&self) -> (r: bool)
        ensures
            r == (self@ is Null),
    {
        match self {
            Json::Null => true,
            _ => false,
        }
    }

    pub fn is_object(&self) -> (r: bool)
        ensures
            r == (self@ is Obj),
    {
        match self {
            Json::Record(_) => true,
            _ => false,
        }
    }

    pub fn is_array(&self) -> (r: bool)
        ensures
            r == (self@ is Arr),
    {
        match self {
            Json::List(_) => true,
            _ => false,
        }
    }

    /// The text under a name, empty where there is none.
    pub fn text(&self, key: &str) -> (r: String)
        ensures
            r@ == text_at(self@, key@),
    {
        match self.get(key) {
            Some(v) => match v.as_str() {
                Some(s) => s.to_owned(),
                None => String::new(),
            },
            None => String::new(),
        }
    }

    /// The text under a name, where there is one.
    pub fn text_option(&self, key: &str) -> (r: Option<String>)
        ensures
            text::option_text(r) == str_of(field(self@, key@)),
    {
        match self.get(key) {
            Some(v) => match v.as_str() {
                Some(s) => Some(s.to_owned()),
                None => None,
            },
            None => None,
        }
    }

    /// The whole number under a name, zero where there is none.
    pub fn whole(&self, key: &str) -> (r: i64)
        ensures
            r == int_at(self@, key@),
    {
        match self.get(key) {
            Some(v) => match v.as_i64() {
                Some(n) => n,
                None => 0,
            },
            None => 0,
        }
    }

    /// The value under a name, null where there is none.
    pub fn value(&self, key: &str) -> (r: Json)
        ensures
            r@ == value_at(self@, key@),
    {
        match self.get(key) {
            Some(v) => copy(v),
            None => Json::Null,
        }
    }

    /// The elements of an array; none where the value is no array.
    pub fn items(&self) -> (r: Vec<Json>)
        ensures
            trees(r@) == elements(self@),
            r@.len() == elements(self@).len(),
    {
        match self {
            Json::List(v) => {
                proof {
                    lemma_list(*v);
                }
                let r = copy_list(v);
                assert(trees(r@).len() == r@.len());
                r
            },
            _ => {
                let r: Vec<Json> = Vec::new();
                assert(trees(r@) =~= Seq::empty());
                r
            },
        }
    }

    /// The elements of the array under a name; none where there is no array.
    pub fn items_at(&self, key: &str) -> (r: Vec<Json>)
        ensures
            trees(r@) == elements_of(field(self@, key@)),
            r@.len() == elements_of(field(self@, key@)).len(),
    {
        match self.get(key) {
            Some(v) => v.items(),
            None => {
                let r: Vec<Json> = Vec::new();
                assert(trees(r@) =~= Seq::empty());
                r
            },
        }
    }
}

/// A text as a value.
pub fn string(s: &str) -> (r: Json)
    ensures
        r@ == Tree::Str(s@),
{
    Json::Text(s.to_owned())
}

/// A whole number as a value.
pub fn whole(n: i64) -> (r: Json)
    ensures
        r@ == int_tree(n as int),
{
    if n < 0 {
        Json::Num(Num::Neg(n))
    } else {
        Json::Num(Num::Pos(n as u64))
    }
}

/// A count as a value.
pub fn count(n: usize) -> (r: Json)
    ensures
        r@ == Tree::Pos(n as u64),
{
    Json::Num(Num::Pos(n as u64))
}

/// An array.
pub fn list(items: Vec<Json>) -> (r: Json)
    ensures
        r@ == Tree::Arr(trees(items@)),
{
    proof {
        lemma_list(items);
    }
    Json::List(items)
}

/// An array under construction.
pub struct Arr {
    items: Vec<Json>,
}

impl View for Arr {
    type V = Seq<Tree>;

    closed spec fn view(&self) -> Seq<Tree> {
        trees(self.items@)
    }
}

impl Arr {
    pub fn new() -> (r: Arr)
        ensures
            r@ == no_items(),
    {
        let r = Arr { items: Vec::new() };
        assert(r@ =~= Seq::<Tree>::empty());
        r
    }

    /// The array with one more element.
    pub fn with(self, v: Json) -> (r: Arr)
        ensures
            r@ == self@.push(v@),
    {
        let mut items = self.items;
        let ghost before = items@;
        items.push(v);
        assert(trees(items@) =~= trees(before).push(v@));
        Arr { items }
    }

    pub fn text(self, s: &str) -> (r: Arr)
        ensures
            r@ == self@.push(Tree::Str(s@)),
    {
        self.with(string(s))
    }

    pub fn whole(self, n: i64) -> (r: Arr)
        ensures
            r@ == self@.push(int_tree(n as int)),
    {
        self.with(whole(n))
    }

    pub fn len(&self) -> (r: usize)
        ensures
            r == self@.len(),
    {
        self.items.len()
    }

    pub fn done(self) -> (r: Json)
        ensures
            r@ == Tree::Arr(self@),
    {
        list(self.items)
    }
}

/// An object under construction.
pub struct Rec {
    fields: Vec<(String, Json)>,
}

impl View for Rec {
    type V = Seq<(Seq<char>, Tree)>;

    closed spec fn view(&self) -> Seq<(Seq<char>, Tree)> {
        pairs(self.fields@)
    }
}

impl Rec {
    pub fn new() -> (r: Rec)
        ensures
            r@ == no_fields(),
    {
        let r = Rec { fields: Vec::new() };
        assert(r@ =~= Seq::<(Seq<char>, Tree)>::empty());
        r
    }

    /// The object with one more name and value.
    pub fn with(self, key: &str, v: Json) -> (r: Rec)
        ensures
            r@ == self@.push((key@, v@)),
    {
        let mut fields = self.fields;
        let ghost before = fields@;
        fields.push((key.to_owned(), v));
        assert(pairs(fields@) =~= pairs(before).push((key@, v@)));
        Rec { fields }
    }

    pub fn text(self, key: &str, s: &str) -> (r: Rec)
        ensures
            r@ == self@.push((key@, Tree::Str(s@))),
    {
        self.with(key, string(s))
    }

    pub fn whole(self, key: &str, n: i64) -> (r: Rec)
        ensures
            r@ == self@.push((key@, int_tree(n as int))),
    {
        self.with(key, whole(n))
    }

    pub fn pos(self, key: &str, n: u64) -> (r: Rec)
        ensures
            r@ == self@.push((key@, Tree::Pos(n))),
    {
        self.with(key, Json::Num(Num::Pos(n)))
    }

    pub fn count(self, key: &str, n: usize) -> (r: Rec)
        ensures
            r@ == self@.push((key@, Tree::Pos(n as u64))),
    {
        self.with(key, count(n))
    }

    pub fn flag(self, key: &str, b: bool) -> (r: Rec)
        ensures
            r@ == self@.push((key@, Tree::Bool(b))),
    {
        self.with(key, Json::Bool(b))
    }

    pub fn done(self) -> (r: Json)
        ensures
            r@ == Tree::Obj(self@),
    {
        proof {
            lemma_record(self.fields);
        }
        Json::Record(self.fields)
    }
}

/// The outside crate's own value type, through which texts are read and written.
#[verifier::external_type_specification]
#[verifier::external_body]
pub struct ExOutside(serde_json::Value);

/// Rebuilds a `serde_json::Value` as a `Json`, variant by variant.
#[verifier::external_body]
fn from_outside(v: Outside) -> (r: Json) {
    match v {
        Outside::Null => Json::Null,
        Outside::Bool(b) => Json::Bool(b),
        Outside::Number(n) => match (n.as_u64(), n.as_i64()) {
            (Some(p), _) => Json::Num(Num::Pos(p)),
            (None, Some(m)) => Json::Num(Num::Neg(m)),
            (None, None) => Json::Num(Num::Float(n.to_string())),
        },
        Outside::String(s) => Json::Text(s),
        Outside::Array(a) => Json::List(a.into_iter().map(from_outside).collect()),
        Outside::Object(o) => Json::Record(o.into_iter().map(|(k, x)| (k, from_outside(x))).collect()),
    }
}

/// Rebuilds a `Json` as a `serde_json::Value`, variant by variant.
#[verifier::external_body]
fn to_outside(v: &Json) -> (r: Outside) {
    match v {
        Json::Null => Outside::Null,
        Json::Bool(b) => Outside::Bool(*b),
        Json::Num(Num::Pos(n)) => Outside::from(*n),
        Json::Num(Num::Neg(n)) => Outside::from(*n),
        Json::Num(Num::Float(t)) => serde_json::from_str(t).unwrap_or_default(),
        Json::Text(s) => Outside::String(s.clone()),
        Json::List(a) => Outside::Array(a.iter().map(to_outside).collect()),
        Json::Record(o) => Outside::Object(o.iter().map(|(k, x)| (k.clone(), to_outside(x))).collect()),
    }
}

/// What `serde_json::from_str` reads from a text, where the text is JSON.
pub uninterp spec fn json_read(text: Seq<char>) -> Option<Tree>;

/// What `serde_json::to_string` writes.
pub uninterp spec fn json_text(v: Tree) -> Seq<char>;

/// What `serde_json::to_string_pretty` writes.
pub uninterp spec fn json_pretty(v: Tree) -> Seq<char>;

/// `serde_json::from_str` into a `serde_json::Value`: what is read, and whether the
/// text is JSON, is a function of the text.
#[verifier::external_body]
pub(crate) fn parse(text: &str) -> (r: Option<Json>)
    ensures
        option_tree(r) == json_read(text@),
{
    serde_json::from_str::<Outside>(text).ok().map(from_outside)
}

/// `serde_json::to_string`: the text is a function of the value.
#[verifier::external_body]
pub(crate) fn print(v: &Json) -> (r: String)
    ensures
        r@ == json_text(v@),
{
    serde_json::to_string(&to_outside(v)).unwrap_or_default()
}

/// `serde_json::to_string_pretty`: the text is a function of the value.
#[verifier::external_body]
pub(crate) fn print_pretty(v: &Json) -> (r: String)
    ensures
        r@ == json_pretty(v@),
{
    serde_json::to_string_pretty(&to_outside(v)).unwrap_or_default()
}

} // verus!
