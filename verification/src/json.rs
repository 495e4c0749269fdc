//! JSON values, and the objects that carry what no typed field claims.
//!
//! An object keeps its fields in the order they arrived in. [`JsonView`] is the
//! value with that order; [`Meaning`] is the value without it, and two values
//! with one meaning are the same JSON.
use vstd::prelude::*;

use crate::text::same_text;

verus! {

/// A JSON number.
#[derive(Debug, PartialEq)]
pub enum Number {
    /// A whole number from zero up.
    Unsigned(u64),
    /// A whole number below zero.
    Negative(i64),
    /// Any other number, by its decimal text.
    Decimal(String),
}

/// The value of a [`Number`].
pub enum NumberView {
    Unsigned(u64),
    Negative(i64),
    Decimal(Seq<char>),
}

/// A JSON value.
#[derive(Debug, PartialEq)]
pub enum Json {
    Null,
    Bool(bool),
    Number(Number),
    String(String),
    Array(Vec<Json>),
    Object(Fields),
}

/// The fields of a JSON object, in order.
#[derive(Debug, PartialEq, Default)]
pub struct Fields {
    pub entries: Vec<(String, Json)>,
}

/// The value of a [`Json`], with the order of every object's fields.
pub enum JsonView {
    Null,
    Bool(bool),
    Number(NumberView),
    String(Seq<char>),
    Array(Seq<JsonView>),
    Object(Seq<(Seq<char>, JsonView)>),
}

/// The value of a [`Fields`].
pub type FieldsView = Seq<(Seq<char>, JsonView)>;

impl View for Number {
    type V = NumberView;

    open spec fn view(&self) -> NumberView {
        match self {
            Number::Unsigned(n) => NumberView::Unsigned(*n),
            Number::Negative(n) => NumberView::Negative(*n),
            Number::Decimal(text) => NumberView::Decimal(text@),
        }
    }
}

impl DeepView for Number {
    type V = NumberView;

    open spec fn deep_view(&self) -> NumberView {
        self@
    }
}

impl Json {
    /// The value, as [`View::view`] gives it.
    pub open spec fn model(&self) -> JsonView
        decreases self,
    {
        match self {
            Json::Null => JsonView::Null,
            Json::Bool(b) => JsonView::Bool(*b),
            Json::Number(n) => JsonView::Number(n@),
            Json::String(s) => JsonView::String(s@),
            Json::Array(items) => JsonView::Array(models(items@)),
            Json::Object(fields) => JsonView::Object(fields.model()),
        }
    }
}

impl Fields {
    /// The fields, as [`View::view`] gives them.
    pub open spec fn model(&self) -> FieldsView
        decreases self,
    {
        let entries = self.entries@;
        Seq::new(
            entries.len(),
            |i: int|
                if 0 <= i < entries.len() {
                    (entries[i].0@, entries[i].1.model())
                } else {
                    (Seq::empty(), JsonView::Null)
                },
        )
    }
}

/// The value of each item.
pub open spec fn models(items: Seq<Json>) -> Seq<JsonView>
    decreases items,
{
    Seq::new(
        items.len(),
        |i: int|
            if 0 <= i < items.len() {
                items[i].model()
            } else {
                JsonView::Null
            },
    )
}

impl View for Json {
    type V = JsonView;

    open spec fn view(&self) -> JsonView {
        self.model()
    }
}

impl DeepView for Json {
    type V = JsonView;

    open spec fn deep_view(&self) -> JsonView {
        self.model()
    }
}

impl View for Fields {
    type V = FieldsView;

    open spec fn view(&self) -> FieldsView {
        self.model()
    }
}

impl DeepView for Fields {
    type V = FieldsView;

    open spec fn deep_view(&self) -> FieldsView {
        self.model()
    }
}

/// The position of the first field named `key`, or the number of fields where
/// there is none.
pub open spec fn index_of(fields: FieldsView, key: Seq<char>) -> nat
    decreases fields.len(),
{
    if fields.len() == 0 {
        0
    } else if fields[0].0 == key {
        0
    } else {
        1 + index_of(fields.drop_first(), key)
    }
}

/// The value of the field named `key`.
pub open spec fn find(fields: FieldsView, key: Seq<char>) -> Option<JsonView> {
    let i = index_of(fields, key);
    if i < fields.len() {
        Some(fields[i as int].1)
    } else {
        None
    }
}

/// The fields with `key` set to `value`: in its place where it is there, last
/// where it is not.
pub open spec fn put(fields: FieldsView, key: Seq<char>, value: JsonView) -> FieldsView {
    let i = index_of(fields, key);
    if i < fields.len() {
        fields.update(i as int, (key, value))
    } else {
        fields.push((key, value))
    }
}

/// The fields not named `key`.
pub open spec fn without(fields: FieldsView, key: Seq<char>) -> FieldsView
    decreases fields.len(),
{
    if fields.len() == 0 {
        fields
    } else {
        let rest = without(fields.drop_first(), key);
        if fields[0].0 == key {
            rest
        } else {
            seq![fields[0]] + rest
        }
    }
}

/// The fields with `key` set to the value given, or taken out where none is.
pub open spec fn assigned(fields: FieldsView, key: Seq<char>, value: Option<JsonView>) -> FieldsView {
    match value {
        Some(value) => put(fields, key, value),
        None => without(fields, key),
    }
}

/// `base` with every field of `more` set in it, in order.
pub open spec fn merge(base: FieldsView, more: FieldsView) -> FieldsView
    decreases more.len(),
{
    if more.len() == 0 {
        base
    } else {
        merge(put(base, more[0].0, more[0].1), more.drop_first())
    }
}

/// No two fields share a name.
pub open spec fn distinct(fields: FieldsView) -> bool {
    forall|i: int, j: int|
        0 <= i < j < fields.len() ==> #[trigger] fields[i].0 != #[trigger] fields[j].0
}

/// No fields at all.
pub open spec fn no_fields() -> FieldsView {
    Seq::empty()
}

/// One field.
pub open spec fn fields1(key: Seq<char>, value: JsonView) -> FieldsView {
    seq![(key, value)]
}

/// Two fields.
pub open spec fn fields2(
    key1: Seq<char>,
    value1: JsonView,
    key2: Seq<char>,
    value2: JsonView,
) -> FieldsView {
    seq![(key1, value1), (key2, value2)]
}

/// Three fields.
pub open spec fn fields3(
    key1: Seq<char>,
    value1: JsonView,
    key2: Seq<char>,
    value2: JsonView,
    key3: Seq<char>,
    value3: JsonView,
) -> FieldsView {
    seq![(key1, value1), (key2, value2), (key3, value3)]
}

/// The text as a JSON string.
pub open spec fn string(text: Seq<char>) -> JsonView {
    JsonView::String(text)
}

/// The count as a JSON number.
pub open spec fn count(n: u64) -> JsonView {
    JsonView::Number(NumberView::Unsigned(n))
}

impl JsonView {
    /// The fields of an object; none of anything else.
    pub open spec fn fields(self) -> FieldsView {
        match self {
            JsonView::Object(fields) => fields,
            _ => no_fields(),
        }
    }

    /// The items of an array; none of anything else.
    pub open spec fn items(self) -> Seq<JsonView> {
        match self {
            JsonView::Array(items) => items,
            _ => Seq::empty(),
        }
    }

    /// The field of an object named `key`.
    pub open spec fn get(self, key: Seq<char>) -> Option<JsonView> {
        find(self.fields(), key)
    }

    /// The text of a string.
    pub open spec fn as_str(self) -> Option<Seq<char>> {
        match self {
            JsonView::String(text) => Some(text),
            _ => None,
        }
    }

    /// The value of a boolean.
    pub open spec fn as_bool(self) -> Option<bool> {
        match self {
            JsonView::Bool(b) => Some(b),
            _ => None,
        }
    }

    /// A whole number from zero up that fits in 64 bits.
    pub open spec fn as_u64(self) -> Option<u64> {
        match self {
            JsonView::Number(NumberView::Unsigned(n)) => Some(n),
            _ => None,
        }
    }

    /// A whole number from zero up that fits in 32 bits.
    pub open spec fn as_u32(self) -> Option<u32> {
        match self {
            JsonView::Number(NumberView::Unsigned(n)) if n <= u32::MAX => Some(n as u32),
            _ => None,
        }
    }

    /// A number of any form.
    pub open spec fn as_number(self) -> Option<NumberView> {
        match self {
            JsonView::Number(n) => Some(n),
            _ => None,
        }
    }

    /// The text of the field `key`, where that field is a string.
    pub open spec fn str_at(self, key: Seq<char>) -> Option<Seq<char>> {
        match self.get(key) {
            Some(value) => value.as_str(),
            None => None,
        }
    }

    /// The text of the field `key` of the object in the field `outer`.
    pub open spec fn str_in(self, outer: Seq<char>, key: Seq<char>) -> Option<Seq<char>> {
        match self.get(outer) {
            Some(value) => value.str_at(key),
            None => None,
        }
    }

    /// The boolean in the field `key`.
    pub open spec fn bool_at(self, key: Seq<char>) -> Option<bool> {
        match self.get(key) {
            Some(value) => value.as_bool(),
            None => None,
        }
    }

    /// The count in the field `key`, where it fits in 32 bits.
    pub open spec fn u32_at(self, key: Seq<char>) -> Option<u32> {
        match self.get(key) {
            Some(value) => value.as_u32(),
            None => None,
        }
    }

    /// The count in the field `key`.
    pub open spec fn u64_at(self, key: Seq<char>) -> Option<u64> {
        match self.get(key) {
            Some(value) => value.as_u64(),
            None => None,
        }
    }

    /// The number in the field `key`.
    pub open spec fn number_at(self, key: Seq<char>) -> Option<NumberView> {
        match self.get(key) {
            Some(value) => value.as_number(),
            None => None,
        }
    }

    /// The items of the field `key`; none where it is not an array.
    pub open spec fn items_at(self, key: Seq<char>) -> Seq<JsonView> {
        match self.get(key) {
            Some(value) => value.items(),
            None => Seq::empty(),
        }
    }
}

impl Clone for Number {
    fn clone(&self) -> (r: Self)
        ensures
            r@ == self@,
    {
        match self {
            Number::Unsigned(n) => Number::Unsigned(*n),
            Number::Negative(n) => Number::Negative(*n),
            Number::Decimal(text) => Number::Decimal(text.clone()),
        }
    }
}

impl Clone for Json {
    fn clone(&self) -> (r: Self)
        ensures
            r@ == self@,
        decreases self,
    {
        match self {
            Json::Null => Json::Null,
            Json::Bool(b) => Json::Bool(*b),
            Json::Number(n) => Json::Number(n.clone()),
            Json::String(s) => Json::String(s.clone()),
            Json::Array(items) => Json::Array(clone_items(items)),
            Json::Object(fields) => Json::Object(fields.clone()),
        }
    }
}

/// A copy of each item.
pub fn clone_items(items: &Vec<Json>) -> (r: Vec<Json>)
    ensures
        models(r@) == models(items@),
    decreases items,
{
    let mut out: Vec<Json> = Vec::new();
    for i in 0..items.len()
        invariant
            out.len() == i,
            forall|k: int| 0 <= k < i ==> out@[k]@ == items@[k]@,
        decreases items.len() - i,
    {
        out.push(items[i].clone());
    }
    assert(models(out@) =~= models(items@));
    out
}

impl Clone for Fields {
    fn clone(&self) -> (r: Self)
        ensures
            r@ == self@,
        decreases self,
    {
        let mut out: Vec<(String, Json)> = Vec::new();
        for i in 0..self.entries.len()
            invariant
                out.len() == i,
                forall|k: int|
                    0 <= k < i ==> out@[k].0@ == self.entries@[k].0@ && out@[k].1@
                        == self.entries@[k].1@,
            decreases self.entries.len() - i,
        {
            out.push((self.entries[i].0.clone(), self.entries[i].1.clone()));
        }
        let r = Fields { entries: out };
        assert(r@ =~= self@);
        r
    }
}

impl Fields {
    /// No fields.
    pub fn new() -> (r: Self)
        ensures
            r@ == no_fields(),
    {
        let r = Fields { entries: Vec::new() };
        assert(r@ =~= no_fields());
        r
    }

    /// How many fields there are.
    pub fn len(&self) -> (r: usize)
        ensures
            r == self@.len(),
    {
        self.entries.len()
    }

    /// The position of the field `key`.
    fn position(&self, key: &str) -> (r: usize)
        ensures
            r == index_of(self@, key@),
            r <= self@.len(),
            r < self@.len() ==> self@[r as int].0 == key@,
    {
        let n: usize = self.entries.len();
        let mut i: usize = 0;
        while i < n
            invariant
                i <= n,
                n == self.entries@.len(),
                forall|j: int| 0 <= j < i ==> self@[j].0 != key@,
            decreases n - i,
        {
            if same_text(self.entries[i].0.as_str(), key) {
                proof {
                    lemma_index_of(self@, key@, i as nat);
                }
                return i;
            }
            i = i + 1;
        }
        proof {
            lemma_index_of(self@, key@, n as nat);
        }
        n
    }

    /// The value of the field `key`.
    pub fn get(&self, key: &str) -> (r: Option<&Json>)
        ensures
            r.deep_view() == find(self@, key@),
    {
        let i: usize = self.position(key);
        if i < self.entries.len() {
            Some(&self.entries[i].1)
        } else {
            None
        }
    }

    /// Whether there is a field `key`.
    pub fn has(&self, key: &str) -> (r: bool)
        ensures
            r == (find(self@, key@) is Some),
    {
        self.position(key) < self.entries.len()
    }

    /// Sets the field `key`.
    pub fn put(&mut self, key: &str, value: Json)
        ensures
            final(self)@ == put(old(self)@, key@, value@),
    {
        let i: usize = self.position(key);
        let ghost before = self@;
        if i < self.entries.len() {
            self.entries.set(i, (key.to_owned(), value));
            assert(self@ =~= put(before, key@, value@));
        } else {
            self.entries.push((key.to_owned(), value));
            assert(self@ =~= put(before, key@, value@));
        }
    }

    /// Takes out every field `key`.
    pub fn remove(&mut self, key: &str)
        ensures
            final(self)@ == without(old(self)@, key@),
    {
        let ghost before = self@;
        let mut i: usize = 0;
        while i < self.entries.len()
            invariant
                i <= self.entries@.len(),
                before == old(self)@,
                without(self@, key@) == without(before, key@),
                forall|j: int| 0 <= j < i ==> self@[j].0 != key@,
            decreases self.entries@.len() - i,
        {
            let ghost here = self@;
            if same_text(self.entries[i].0.as_str(), key) {
                self.entries.remove(i);
                assert(self@ =~= here.remove(i as int));
                proof {
                    lemma_without_remove(here, key@, i as int);
                }
            } else {
                i = i + 1;
            }
        }
        proof {
            lemma_without_absent(self@, key@);
        }
    }

    /// Sets the field `key`, or takes it out where no value is given.
    pub fn set(&mut self, key: &str, value: Option<Json>)
        ensures
            final(self)@ == assigned(old(self)@, key@, value.deep_view()),
    {
        match value {
            Some(value) => self.put(key, value),
            None => self.remove(key),
        }
    }

    /// Sets every field of `more`.
    pub fn merge(&mut self, more: &Fields)
        ensures
            final(self)@ == merge(old(self)@, more@),
    {
        let ghost before = self@;
        assert(more@.skip(0) =~= more@);
        for i in 0..more.entries.len()
            invariant
                before == old(self)@,
                merge(self@, more@.skip(i as int)) == merge(before, more@),
        {
            let ghost rest = more@.skip(i as int);
            assert(rest.drop_first() =~= more@.skip(i + 1));
            assert(rest[0] == more@[i as int]);
            self.put(more.entries[i].0.as_str(), more.entries[i].1.clone());
        }
        assert(more@.skip(more@.len() as int) =~= no_fields());
    }
}

impl Json {
    /// The text as a JSON string.
    pub fn text(text: &str) -> (r: Self)
        ensures
            r@ == string(text@),
    {
        Json::String(text.to_owned())
    }

    /// The count as a JSON number.
    pub fn count(n: u64) -> (r: Self)
        ensures
            r@ == count(n),
    {
        Json::Number(Number::Unsigned(n))
    }

    /// The fields of an object.
    pub fn as_object(&self) -> (r: Option<&Fields>)
        ensures
            r.deep_view() == (match self@ {
                JsonView::Object(fields) => Some(fields),
                _ => None,
            }),
    {
        match self {
            Json::Object(fields) => Some(fields),
            _ => None,
        }
    }

    /// A copy of the fields of an object; none of anything else.
    pub fn fields(&self) -> (r: Fields)
        ensures
            r@ == self@.fields(),
    {
        match self {
            Json::Object(fields) => fields.clone(),
            _ => Fields::new(),
        }
    }

    /// Whether this is `null`.
    pub fn is_null(&self) -> (r: bool)
        ensures
            r == (self@ is Null),
    {
        match self {
            Json::Null => true,
            _ => false,
        }
    }

    /// The field of an object named `key`.
    pub fn get(&self, key: &str) -> (r: Option<&Json>)
        ensures
            r.deep_view() == self@.get(key@),
    {
        match self {
            Json::Object(fields) => fields.get(key),
            _ => {
                proof {
                    lemma_index_of(no_fields(), key@, 0);
                }
                None
            },
        }
    }

    /// The items of the field `key`, where that field is an array.
    pub fn items_at(&self, key: &str) -> (r: Option<&Vec<Json>>)
        ensures
            match r {
                Some(items) => self@.get(key@) == Some(JsonView::Array(models(items@))),
                None => !(self@.get(key@) matches Some(JsonView::Array(_))),
            },
    {
        match self.get(key) {
            Some(Json::Array(items)) => Some(items),
            _ => None,
        }
    }

    /// The text of a string.
    pub fn as_str(&self) -> (r: Option<&str>)
        ensures
            r.deep_view() == self@.as_str(),
    {
        match self {
            Json::String(text) => Some(text.as_str()),
            _ => None,
        }
    }

    /// The text of the field `key`, where that field is a string.
    pub fn str_at(&self, key: &str) -> (r: Option<String>)
        ensures
            r.deep_view() == self@.str_at(key@),
    {
        match self.get(key) {
            Some(Json::String(text)) => Some(text.clone()),
            _ => None,
        }
    }

    /// The text of the field `key` of the object in the field `outer`.
    pub fn str_in(&self, outer: &str, key: &str) -> (r: Option<String>)
        ensures
            r.deep_view() == self@.str_in(outer@, key@),
    {
        match self.get(outer) {
            Some(value) => value.str_at(key),
            None => None,
        }
    }

    /// The boolean in the field `key`.
    pub fn bool_at(&self, key: &str) -> (r: Option<bool>)
        ensures
            r == self@.bool_at(key@),
    {
        match self.get(key) {
            Some(Json::Bool(b)) => Some(*b),
            _ => None,
        }
    }

    /// A whole number from zero up that fits in 64 bits.
    pub fn as_u64(&self) -> (r: Option<u64>)
        ensures
            r == self@.as_u64(),
    {
        match self {
            Json::Number(Number::Unsigned(n)) => Some(*n),
            _ => None,
        }
    }

    /// A whole number from zero up that fits in 32 bits.
    pub fn as_u32(&self) -> (r: Option<u32>)
        ensures
            r == self@.as_u32(),
    {
        match self {
            Json::Number(Number::Unsigned(n)) => if *n <= 0xffff_ffff {
                Some(*n as u32)
            } else {
                None
            },
            _ => None,
        }
    }

    /// The count in the field `key`, where it fits in 32 bits.
    pub fn u32_at(&self, key: &str) -> (r: Option<u32>)
        ensures
            r == self@.u32_at(key@),
    {
        match self.get(key) {
            Some(value) => value.as_u32(),
            None => None,
        }
    }

    /// The count in the field `key`.
    pub fn u64_at(&self, key: &str) -> (r: Option<u64>)
        ensures
            r == self@.u64_at(key@),
    {
        match self.get(key) {
            Some(value) => value.as_u64(),
            None => None,
        }
    }

    /// The number in the field `key`.
    pub fn number_at(&self, key: &str) -> (r: Option<Number>)
        ensures
            r.deep_view() == self@.number_at(key@),
    {
        match self.get(key) {
            Some(Json::Number(n)) => Some(n.clone()),
            _ => None,
        }
    }
}

/// A text that may be absent, as a JSON string that may be.
pub open spec fn opt_string(text: Option<Seq<char>>) -> Option<JsonView> {
    match text {
        Some(text) => Some(string(text)),
        None => None,
    }
}

/// A boolean that may be absent, as a JSON boolean that may be.
pub open spec fn opt_bool(flag: Option<bool>) -> Option<JsonView> {
    match flag {
        Some(flag) => Some(JsonView::Bool(flag)),
        None => None,
    }
}

/// A count that may be absent, as a JSON number that may be.
pub open spec fn opt_u32(n: Option<u32>) -> Option<JsonView> {
    match n {
        Some(n) => Some(count(n as u64)),
        None => None,
    }
}

/// A number that may be absent, as a JSON number that may be.
pub open spec fn opt_number(n: Option<NumberView>) -> Option<JsonView> {
    match n {
        Some(n) => Some(JsonView::Number(n)),
        None => None,
    }
}

/// Makes the JSON that [`opt_string`] describes.
pub fn json_string(text: &Option<String>) -> (r: Option<Json>)
    ensures
        r.deep_view() == opt_string(text.deep_view()),
{
    match text {
        Some(text) => Some(Json::String(text.clone())),
        None => None,
    }
}

/// Makes the JSON that [`opt_bool`] describes.
pub fn json_bool(flag: Option<bool>) -> (r: Option<Json>)
    ensures
        r.deep_view() == opt_bool(flag),
{
    match flag {
        Some(flag) => Some(Json::Bool(flag)),
        None => None,
    }
}

/// Makes the JSON that [`opt_u32`] describes.
pub fn json_u32(n: Option<u32>) -> (r: Option<Json>)
    ensures
        r.deep_view() == opt_u32(n),
{
    match n {
        Some(n) => Some(Json::count(n as u64)),
        None => None,
    }
}

/// Makes the JSON that [`opt_number`] describes.
pub fn json_number(n: &Option<Number>) -> (r: Option<Json>)
    ensures
        r.deep_view() == opt_number(n.deep_view()),
{
    match n {
        Some(n) => Some(Json::Number(n.clone())),
        None => None,
    }
}

/// The texts as JSON strings.
pub open spec fn strings(texts: Seq<Seq<char>>) -> Seq<JsonView> {
    texts.map_values(|text: Seq<char>| string(text))
}

/// Makes the JSON that [`strings`] describes.
pub fn json_strings(texts: &Vec<String>) -> (r: Vec<Json>)
    ensures
        models(r@) == strings(texts.deep_view()),
{
    let mut out: Vec<Json> = Vec::new();
    for i in 0..texts.len()
        invariant
            out.len() == i,
            forall|k: int| 0 <= k < i ==> out@[k]@ == string(texts@[k]@),
    {
        out.push(Json::String(texts[i].clone()));
    }
    assert(models(out@) =~= strings(texts.deep_view()));
    out
}

/// The fields with `key` left as it is, where it is to be kept, and otherwise
/// set to the value given or taken out.
pub open spec fn settled(
    fields: FieldsView,
    key: Seq<char>,
    keep: bool,
    fallback: Option<JsonView>,
) -> FieldsView {
    if keep {
        fields
    } else {
        assigned(fields, key, fallback)
    }
}

/// The fields without `key` where it holds `null`.
pub open spec fn sans_null(fields: FieldsView, key: Seq<char>) -> FieldsView {
    if find(fields, key) == Some(JsonView::Null) {
        without(fields, key)
    } else {
        fields
    }
}

impl Fields {
    /// Sets the field `key`, or takes it out, unless it is to be kept.
    pub fn settle(&mut self, key: &str, keep: bool, fallback: Option<Json>)
        ensures
            final(self)@ == settled(old(self)@, key@, keep, fallback.deep_view()),
    {
        if !keep {
            self.set(key, fallback);
        }
    }

    /// Takes the field `key` out where it holds `null`.
    pub fn drop_null(&mut self, key: &str)
        ensures
            final(self)@ == sans_null(old(self)@, key@),
    {
        let null = match self.get(key) {
            Some(value) => value.is_null(),
            None => false,
        };
        if null {
            self.remove(key);
        }
    }
}

/// No items at all.
pub fn no_items() -> (r: Vec<Json>)
    ensures
        models(r@) == Seq::<JsonView>::empty(),
{
    let r: Vec<Json> = Vec::new();
    assert(models(r@) =~= Seq::<JsonView>::empty());
    r
}

/// An object of one field.
pub fn object1(key: &str, value: Json) -> (r: Json)
    ensures
        r@ == JsonView::Object(fields1(key@, value@)),
{
    let r = Json::Object(Fields { entries: vec![(key.to_owned(), value)] });
    assert(r@->Object_0 =~= fields1(key@, value@));
    r
}

/// An object of two fields.
pub fn object2(key1: &str, value1: Json, key2: &str, value2: Json) -> (r: Json)
    ensures
        r@ == JsonView::Object(fields2(key1@, value1@, key2@, value2@)),
{
    let r = Json::Object(
        Fields { entries: vec![(key1.to_owned(), value1), (key2.to_owned(), value2)] },
    );
    assert(r@->Object_0 =~= fields2(key1@, value1@, key2@, value2@));
    r
}

/// An object of three fields.
pub fn object3(
    key1: &str,
    value1: Json,
    key2: &str,
    value2: Json,
    key3: &str,
    value3: Json,
) -> (r: Json)
    ensures
        r@ == JsonView::Object(fields3(key1@, value1@, key2@, value2@, key3@, value3@)),
{
    let r = Json::Object(
        Fields {
            entries: vec![
                (key1.to_owned(), value1),
                (key2.to_owned(), value2),
                (key3.to_owned(), value3),
            ],
        },
    );
    assert(r@->Object_0 =~= fields3(key1@, value1@, key2@, value2@, key3@, value3@));
    r
}

/// `index_of` is the first position that holds the key, or the end.
pub proof fn lemma_index_of(fields: FieldsView, key: Seq<char>, i: nat)
    requires
        i <= fields.len(),
        i < fields.len() ==> fields[i as int].0 == key,
        forall|j: int| 0 <= j < i ==> fields[j].0 != key,
    ensures
        index_of(fields, key) == i,
    decreases fields.len(),
{
    if i > 0 {
        let rest = fields.drop_first();
        assert forall|j: int| 0 <= j < i - 1 implies rest[j].0 != key by {
            assert(rest[j] == fields[j + 1]);
        }
        assert(i < fields.len() ==> rest[i - 1] == fields[i as int]);
        lemma_index_of(rest, key, (i - 1) as nat);
    }
}

/// What `index_of` is, whatever the fields.
pub proof fn lemma_index_of_bounds(fields: FieldsView, key: Seq<char>)
    ensures
        index_of(fields, key) <= fields.len(),
        index_of(fields, key) < fields.len() ==> fields[index_of(fields, key) as int].0 == key,
        forall|j: int| 0 <= j < index_of(fields, key) ==> fields[j].0 != key,
    decreases fields.len(),
{
    if fields.len() > 0 && fields[0].0 != key {
        let rest = fields.drop_first();
        lemma_index_of_bounds(rest, key);
        assert forall|j: int| 0 <= j < index_of(fields, key) implies fields[j].0 != key by {
            if j > 0 {
                assert(fields[j] == rest[j - 1]);
            }
        }
    }
}

/// Looking a field up, one field at a time.
pub proof fn lemma_find_step(fields: FieldsView, key: Seq<char>)
    requires
        fields.len() > 0,
    ensures
        find(fields, key) == if fields[0].0 == key {
            Some(fields[0].1)
        } else {
            find(fields.drop_first(), key)
        },
{
    lemma_index_of_bounds(fields.drop_first(), key);
}

/// A field that was set is found; the others are as they were.
pub broadcast proof fn lemma_find_put(
    fields: FieldsView,
    key: Seq<char>,
    value: JsonView,
    other: Seq<char>,
)
    ensures
        #[trigger] find(put(fields, key, value), other) == if other == key {
            Some(value)
        } else {
            find(fields, other)
        },
{
    lemma_index_of_bounds(fields, key);
    lemma_index_of_bounds(fields, other);
    let after = put(fields, key, value);
    let i = index_of(fields, key);
    if other == key {
        assert forall|j: int| 0 <= j < i implies after[j].0 != key by {
            assert(after[j] == fields[j]);
        }
        lemma_index_of(after, key, i);
    } else {
        let o = index_of(fields, other);
        if o < fields.len() {
            assert forall|j: int| 0 <= j < o implies after[j].0 != other by {
                assert(after[j].0 == fields[j].0);
            }
            assert(after[o as int] == fields[o as int]);
            lemma_index_of(after, other, o);
        } else {
            assert forall|j: int| 0 <= j < after.len() implies after[j].0 != other by {
                if j < fields.len() {
                    assert(after[j].0 == fields[j].0);
                }
            }
            lemma_index_of(after, other, after.len());
        }
    }
}

/// A field that was taken out is not found; the others are as they were.
pub broadcast proof fn lemma_find_without(fields: FieldsView, key: Seq<char>, other: Seq<char>)
    ensures
        #[trigger] find(without(fields, key), other) == if other == key {
            None
        } else {
            find(fields, other)
        },
    decreases fields.len(),
{
    if fields.len() > 0 {
        let rest = fields.drop_first();
        lemma_find_without(rest, key, other);
        lemma_find_step(fields, other);
        let after = without(fields, key);
        if fields[0].0 != key {
            lemma_find_step(after, other);
            assert(after.drop_first() =~= without(rest, key));
        }
    }
}

/// What a field is after it was set or taken out; the others are as they were.
pub broadcast proof fn lemma_find_set(
    fields: FieldsView,
    key: Seq<char>,
    value: Option<JsonView>,
    other: Seq<char>,
)
    ensures
        #[trigger] find(assigned(fields, key, value), other) == if other == key {
            value
        } else {
            find(fields, other)
        },
{
    match value {
        Some(v) => lemma_find_put(fields, key, v, other),
        None => lemma_find_without(fields, key, other),
    }
}

/// What a field is after it was settled; the others are as they were.
pub broadcast proof fn lemma_find_settled(
    fields: FieldsView,
    key: Seq<char>,
    keep: bool,
    fallback: Option<JsonView>,
    other: Seq<char>,
)
    ensures
        #[trigger] find(settled(fields, key, keep, fallback), other) == if other == key && !keep {
            fallback
        } else {
            find(fields, other)
        },
{
    lemma_find_set(fields, key, fallback, other);
}

/// What a field is after a `null` was taken out; the others are as they were.
pub broadcast proof fn lemma_find_sans_null(fields: FieldsView, key: Seq<char>, other: Seq<char>)
    ensures
        #[trigger] find(sans_null(fields, key), other) == if other == key && find(fields, key)
            == Some(JsonView::Null) {
            None
        } else {
            find(fields, other)
        },
{
    lemma_find_without(fields, key, other);
}

/// No field is found where there is none.
pub broadcast proof fn lemma_find_empty(key: Seq<char>)
    ensures
        #[trigger] find(no_fields(), key) is None,
{
}

/// In two rows of fields the first row is searched before the second.
pub broadcast proof fn lemma_find_concat(a: FieldsView, b: FieldsView, key: Seq<char>)
    ensures
        #[trigger] find(a + b, key) == match find(a, key) {
            Some(value) => Some(value),
            None => find(b, key),
        },
    decreases a.len(),
{
    if a.len() == 0 {
        assert(a + b =~= b);
    } else {
        lemma_find_concat(a.drop_first(), b, key);
        lemma_find_step(a, key);
        lemma_find_step(a + b, key);
        assert((a + b).drop_first() =~= a.drop_first() + b);
    }
}

/// A field of an object of one field.
pub broadcast proof fn lemma_find_one(key: Seq<char>, value: JsonView, other: Seq<char>)
    ensures
        #[trigger] find(fields1(key, value), other) == if other == key {
            Some(value)
        } else {
            None
        },
{
    let fields = fields1(key, value);
    lemma_find_step(fields, other);
    assert(fields.drop_first() =~= no_fields());
}

/// A field of an object of two fields.
pub broadcast proof fn lemma_find_two(
    key1: Seq<char>,
    value1: JsonView,
    key2: Seq<char>,
    value2: JsonView,
    other: Seq<char>,
)
    ensures
        #[trigger] find(fields2(key1, value1, key2, value2), other) == if other == key1 {
            Some(value1)
        } else if other == key2 {
            Some(value2)
        } else {
            None
        },
{
    let fields = fields2(key1, value1, key2, value2);
    lemma_find_step(fields, other);
    assert(fields.drop_first() =~= fields1(key2, value2));
    lemma_find_one(key2, value2, other);
}

/// A field of an object of three fields.
pub broadcast proof fn lemma_find_three(
    key1: Seq<char>,
    value1: JsonView,
    key2: Seq<char>,
    value2: JsonView,
    key3: Seq<char>,
    value3: JsonView,
    other: Seq<char>,
)
    ensures
        #[trigger] find(fields3(key1, value1, key2, value2, key3, value3), other)
            == if other == key1 {
            Some(value1)
        } else if other == key2 {
            Some(value2)
        } else if other == key3 {
            Some(value3)
        } else {
            None
        },
{
    let fields = fields3(key1, value1, key2, value2, key3, value3);
    lemma_find_step(fields, other);
    assert(fields.drop_first() =~= fields2(key2, value2, key3, value3));
    lemma_find_two(key2, value2, key3, value3, other);
}

/// What is found after one set of fields was merged into another.
pub proof fn lemma_find_merge(base: FieldsView, more: FieldsView, key: Seq<char>)
    requires
        distinct(more),
    ensures
        find(merge(base, more), key) == match find(more, key) {
            Some(value) => Some(value),
            None => find(base, key),
        },
    decreases more.len(),
{
    if more.len() > 0 {
        let rest = more.drop_first();
        assert forall|i: int, j: int| 0 <= i < j < rest.len() implies #[trigger] rest[i].0
            != #[trigger] rest[j].0 by {
            assert(rest[i] == more[i + 1]);
            assert(rest[j] == more[j + 1]);
        }
        let (k, v) = more[0];
        lemma_find_merge(put(base, k, v), rest, key);
        lemma_find_put(base, k, v, key);
        lemma_find_step(more, key);
        if key == k {
            assert forall|j: int| 0 <= j < rest.len() implies rest[j].0 != key by {
                assert(rest[j] == more[j + 1]);
            }
            lemma_index_of(rest, key, rest.len());
        }
    }
}

proof fn lemma_without_remove(fields: FieldsView, key: Seq<char>, i: int)
    requires
        0 <= i < fields.len(),
        fields[i].0 == key,
    ensures
        without(fields.remove(i), key) == without(fields, key),
    decreases fields.len(),
{
    let after = fields.remove(i);
    if i == 0 {
        assert(after =~= fields.drop_first());
    } else {
        let rest = fields.drop_first();
        lemma_without_remove(rest, key, i - 1);
        assert(after.drop_first() =~= rest.remove(i - 1));
        assert(after[0] == fields[0]);
    }
}

/// Taking out a field that is not there changes nothing.
pub proof fn lemma_without_absent(fields: FieldsView, key: Seq<char>)
    requires
        forall|j: int| 0 <= j < fields.len() ==> fields[j].0 != key,
    ensures
        without(fields, key) == fields,
    decreases fields.len(),
{
    if fields.len() > 0 {
        let rest = fields.drop_first();
        assert forall|j: int| 0 <= j < rest.len() implies rest[j].0 != key by {
            assert(rest[j] == fields[j + 1]);
        }
        lemma_without_absent(rest, key);
        assert(seq![fields[0]] + rest =~= fields);
    }
}

/// Every field that is left was there.
proof fn lemma_without_keys(fields: FieldsView, key: Seq<char>, i: int) -> (j: int)
    requires
        0 <= i < without(fields, key).len(),
    ensures
        0 <= j < fields.len(),
        fields[j] == without(fields, key)[i],
    decreases fields.len(),
{
    let rest = fields.drop_first();
    if fields[0].0 == key {
        let j = lemma_without_keys(rest, key, i);
        assert(rest[j] == fields[j + 1]);
        j + 1
    } else if i == 0 {
        0
    } else {
        assert(without(fields, key)[i] == without(rest, key)[i - 1]);
        let j = lemma_without_keys(rest, key, i - 1);
        assert(rest[j] == fields[j + 1]);
        j + 1
    }
}

/// Taking a field out leaves the others distinct.
pub proof fn lemma_distinct_without(fields: FieldsView, key: Seq<char>)
    requires
        distinct(fields),
    ensures
        distinct(without(fields, key)),
    decreases fields.len(),
{
    if fields.len() > 0 {
        let rest = fields.drop_first();
        assert forall|i: int, j: int| 0 <= i < j < rest.len() implies #[trigger] rest[i].0
            != #[trigger] rest[j].0 by {
            assert(rest[i] == fields[i + 1]);
            assert(rest[j] == fields[j + 1]);
        }
        lemma_distinct_without(rest, key);
        let after = without(fields, key);
        if fields[0].0 != key {
            assert forall|i: int, j: int| 0 <= i < j < after.len() implies #[trigger] after[i].0
                != #[trigger] after[j].0 by {
                assert(after[j] == without(rest, key)[j - 1]);
                if i == 0 {
                    let k = lemma_without_keys(rest, key, j - 1);
                    assert(rest[k] == fields[k + 1]);
                } else {
                    assert(after[i] == without(rest, key)[i - 1]);
                }
            }
        }
    }
}

/// Taking a `null` out leaves the others distinct.
pub proof fn lemma_distinct_sans_null(fields: FieldsView, key: Seq<char>)
    requires
        distinct(fields),
    ensures
        distinct(sans_null(fields, key)),
{
    lemma_distinct_without(fields, key);
}

/// Setting a field leaves the fields distinct.
pub proof fn lemma_distinct_put(fields: FieldsView, key: Seq<char>, value: JsonView)
    requires
        distinct(fields),
    ensures
        distinct(put(fields, key, value)),
{
    lemma_index_of_bounds(fields, key);
    let after = put(fields, key, value);
    assert forall|i: int, j: int| 0 <= i < j < after.len() implies #[trigger] after[i].0
        != #[trigger] after[j].0 by {
        if j < fields.len() {
            assert(after[i].0 == fields[i].0);
            assert(after[j].0 == fields[j].0);
        } else {
            assert(after[i].0 == fields[i].0);
        }
    }
}

/// Every lemma on what is found after a change.
pub broadcast group group_find {
    lemma_find_put,
    lemma_find_without,
    lemma_find_set,
    lemma_find_settled,
    lemma_find_sans_null,
    lemma_find_empty,
    lemma_find_concat,
    lemma_find_one,
    lemma_find_two,
    lemma_find_three,
}

} // verus!
