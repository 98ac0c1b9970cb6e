//! JSON documents as plain values, and the bridge to `serde_json`.

use crate::text::{is_some_text, same};
use vstd::prelude::*;

verus! {

// ---------------------------------------------------------------------------
// Model
// ---------------------------------------------------------------------------

/// What a JSON number is: an unsigned integer, a negative integer, or a
/// double given by its IEEE 754 bits.
pub enum Numeric {
    Unsigned(u64),
    Negative(i64),
    Double(u64),
}

/// A JSON document as a mathematical value. An object is a map: the order of
/// its members carries no meaning.
#[verifier::ext_equal]
pub enum Tree {
    Null,
    Bool(bool),
    Number(Numeric),
    Text(Seq<char>),
    Array(Seq<Tree>),
    Object(Map<Seq<char>, Tree>),
}

impl Tree {
    /// The members of an object; none for any other document.
    pub open spec fn members(self) -> Map<Seq<char>, Tree> {
        match self {
            Tree::Object(m) => m,
            _ => Map::empty(),
        }
    }

    /// The member `key` of an object.
    pub open spec fn field(self, key: Seq<char>) -> Option<Tree> {
        match self {
            Tree::Object(m) => if m.contains_key(key) {
                Some(m[key])
            } else {
                None
            },
            _ => None,
        }
    }

    /// The object with the member `key` set to `value`.
    pub open spec fn with(self, key: Seq<char>, value: Tree) -> Tree {
        Tree::Object(self.members().insert(key, value))
    }

    /// The object with the member `key` set to `value`, where there is one.
    pub open spec fn with_some(self, key: Seq<char>, value: Option<Tree>) -> Tree {
        match value {
            Some(v) => self.with(key, v),
            None => self,
        }
    }

    /// The object without the member `key`.
    pub open spec fn without(self, key: Seq<char>) -> Tree {
        match self {
            Tree::Object(m) => Tree::Object(m.remove(key)),
            _ => self,
        }
    }

    /// The characters of a text.
    pub open spec fn text(self) -> Option<Seq<char>> {
        match self {
            Tree::Text(s) => Some(s),
            _ => None,
        }
    }

    /// The items of an array.
    pub open spec fn items(self) -> Option<Seq<Tree>> {
        match self {
            Tree::Array(items) => Some(items),
            _ => None,
        }
    }

    /// The value of an unsigned integer.
    pub open spec fn count(self) -> Option<u64> {
        match self {
            Tree::Number(Numeric::Unsigned(u)) => Some(u),
            _ => None,
        }
    }

    /// The value of an integer that a signed 64-bit integer can hold.
    pub open spec fn signed(self) -> Option<i64> {
        match self {
            Tree::Number(Numeric::Unsigned(u)) => if u <= i64::MAX {
                Some(u as i64)
            } else {
                None
            },
            Tree::Number(Numeric::Negative(i)) => Some(i),
            _ => None,
        }
    }

    /// The truth value of a boolean.
    pub open spec fn flag(self) -> Option<bool> {
        match self {
            Tree::Bool(b) => Some(b),
            _ => None,
        }
    }

    /// The bits of the double nearest to a number.
    pub open spec fn double(self) -> Option<u64> {
        match self {
            Tree::Number(n) => Some(double_of(n)),
            _ => None,
        }
    }

    /// The text that the member `key` is.
    pub open spec fn text_at(self, key: Seq<char>) -> Option<Seq<char>> {
        match self.field(key) {
            Some(v) => v.text(),
            None => None,
        }
    }

    /// The items of the array that the member `key` is.
    pub open spec fn items_at(self, key: Seq<char>) -> Option<Seq<Tree>> {
        match self.field(key) {
            Some(v) => v.items(),
            None => None,
        }
    }

    /// The unsigned integer that the member `key` is.
    pub open spec fn count_at(self, key: Seq<char>) -> Option<u64> {
        match self.field(key) {
            Some(v) => v.count(),
            None => None,
        }
    }

    /// The integer that the member `key` is.
    pub open spec fn signed_at(self, key: Seq<char>) -> Option<i64> {
        match self.field(key) {
            Some(v) => v.signed(),
            None => None,
        }
    }

    /// The boolean that the member `key` is.
    pub open spec fn flag_at(self, key: Seq<char>) -> Option<bool> {
        match self.field(key) {
            Some(v) => v.flag(),
            None => None,
        }
    }

    /// The member `inner` of the member `outer`.
    pub open spec fn field_in(self, outer: Seq<char>, inner: Seq<char>) -> Option<Tree> {
        match self.field(outer) {
            Some(v) => v.field(inner),
            None => None,
        }
    }

    /// The text that the member `inner` of the member `outer` is.
    pub open spec fn text_in(self, outer: Seq<char>, inner: Seq<char>) -> Option<Seq<char>> {
        match self.field_in(outer, inner) {
            Some(v) => v.text(),
            None => None,
        }
    }
}

/// The object without members.
pub open spec fn empty_tree() -> Tree {
    Tree::Object(Map::empty())
}

/// The number `n`.
pub open spec fn count_tree(n: u64) -> Tree {
    Tree::Number(Numeric::Unsigned(n))
}

/// The document, or null where there is none.
pub open spec fn or_null(t: Option<Tree>) -> Tree {
    match t {
        Some(t) => t,
        None => Tree::Null,
    }
}

/// The text, or the empty one where there is none.
pub open spec fn or_blank(s: Option<Seq<char>>) -> Seq<char> {
    match s {
        Some(s) => s,
        None => Seq::empty(),
    }
}

/// The number, or zero where there is none.
pub open spec fn or_zero(n: Option<u64>) -> u64 {
    match n {
        Some(n) => n,
        None => 0,
    }
}

/// The document, unless it is null or missing.
pub open spec fn not_null(t: Option<Tree>) -> Option<Tree> {
    match t {
        Some(Tree::Null) => None,
        _ => t,
    }
}

/// The name of a member by which `serde_json` marks text that it takes over as it
/// stands. It reads an object that begins with such a member as another document.
pub open spec fn raw_mark() -> Seq<char> {
    "$serde_json::private::RawValue"@
}

/// Whether arrays and objects nest at most `depth` deep in the document, none of
/// its numbers is a double, and none of its objects has a member that marks raw
/// text.
pub open spec fn shallow(t: Tree, depth: nat) -> bool
    decreases depth,
{
    match t {
        Tree::Number(Numeric::Double(_)) => false,
        Tree::Array(items) => depth > 0 && forall|i: int|
            0 <= i < items.len() ==> shallow(#[trigger] items[i], (depth - 1) as nat),
        Tree::Object(members) => depth > 0 && !members.contains_key(raw_mark()) && forall|
            k: Seq<char>,
        | #[trigger]
            members.contains_key(k) ==> shallow(members[k], (depth - 1) as nat),
        _ => true,
    }
}

// ---------------------------------------------------------------------------
// Doubles by their bits
// ---------------------------------------------------------------------------

/// Whether the sign bit of a double is set.
pub open spec fn double_signed(bits: u64) -> bool {
    bits >= 0x8000_0000_0000_0000
}

/// The exponent bits of a double.
pub open spec fn double_exponent(bits: u64) -> int {
    bits as int / 0x10_0000_0000_0000 % 0x800
}

/// The significand of a finite double, with the leading bit that normal
/// numbers leave out.
pub open spec fn double_significand(bits: u64) -> int {
    let fraction = bits as int % 0x10_0000_0000_0000;
    if double_exponent(bits) == 0 {
        fraction
    } else {
        fraction + 0x10_0000_0000_0000
    }
}

/// The power of two by which the significand of a double is scaled.
pub open spec fn double_scale(bits: u64) -> int {
    (if double_exponent(bits) == 0 {
        1
    } else {
        double_exponent(bits)
    }) - 1075
}

/// Whether a double is neither an infinity nor a NaN.
pub open spec fn double_finite(bits: u64) -> bool {
    double_exponent(bits) != 0x7ff
}

/// Whether a finite double is greater than zero.
pub open spec fn double_positive(bits: u64) -> bool {
    !double_signed(bits) && double_significand(bits) > 0
}

/// The whole part of the absolute value of a finite double.
pub open spec fn double_whole(bits: u64) -> int {
    if double_scale(bits) >= 0 {
        double_significand(bits) * vstd::arithmetic::power2::pow2(double_scale(bits) as nat)
    } else {
        double_significand(bits) / (vstd::arithmetic::power2::pow2(
            (-double_scale(bits)) as nat,
        ) as int)
    }
}

/// A finite double rounded down to an unsigned 64-bit integer, where a negative
/// one gives zero and one that is too large gives the greatest integer.
pub open spec fn double_floor(bits: u64) -> u64 {
    if double_signed(bits) {
        0
    } else if double_whole(bits) > u64::MAX {
        u64::MAX
    } else {
        double_whole(bits) as u64
    }
}

/// Whether a double is exactly a whole number.
pub open spec fn double_is(bits: u64, whole: int) -> bool {
    !double_signed(bits) && if double_scale(bits) >= 0 {
        double_significand(bits) * vstd::arithmetic::power2::pow2(double_scale(bits) as nat)
            == whole
    } else {
        double_significand(bits) == whole * vstd::arithmetic::power2::pow2(
            (-double_scale(bits)) as nat,
        )
    }
}

/// The greatest integer up to which every integer is a double.
pub const EXACT_INTEGERS: u64 = 0x20_0000_0000_0000;

/// Whether a number is greater than zero.
pub open spec fn number_positive(n: Numeric) -> bool {
    match n {
        Numeric::Unsigned(u) => u > 0,
        Numeric::Negative(_) => false,
        Numeric::Double(bits) => double_positive(bits),
    }
}

/// A number rounded down to an unsigned 64-bit integer, where a negative one
/// gives zero and one that is too large gives the greatest integer. An integer
/// beyond those that are doubles is made a double first.
pub open spec fn number_floor(n: Numeric) -> u64 {
    match n {
        Numeric::Unsigned(u) => if u <= EXACT_INTEGERS {
            u
        } else {
            double_floor(double_of(n))
        },
        Numeric::Negative(_) => 0,
        Numeric::Double(bits) => double_floor(bits),
    }
}

proof fn lemma_double_is(bits: u64, whole: u64)
    requires
        double_is(bits, whole as int),
    ensures
        double_floor(bits) == whole,
        double_positive(bits) <==> whole > 0,
{
    let significand = double_significand(bits);
    if double_scale(bits) >= 0 {
        let p = vstd::arithmetic::power2::pow2(double_scale(bits) as nat) as int;
        vstd::arithmetic::power2::lemma_pow2_pos(double_scale(bits) as nat);
        assert(significand > 0 <==> significand * p > 0) by (nonlinear_arith)
            requires
                significand >= 0,
                p > 0,
        ;
    } else {
        let p = vstd::arithmetic::power2::pow2((-double_scale(bits)) as nat) as int;
        vstd::arithmetic::power2::lemma_pow2_pos((-double_scale(bits)) as nat);
        vstd::arithmetic::div_mod::lemma_div_by_multiple(whole as int, p);
        assert(whole > 0 <==> whole * p > 0) by (nonlinear_arith)
            requires
                whole >= 0,
                p > 0,
        ;
    }
}

proof fn lemma_floor_is_positive(bits: u64)
    requires
        double_floor(bits) > 0,
    ensures
        double_positive(bits),
{
    if double_significand(bits) == 0 {
        if double_scale(bits) >= 0 {
            let p = vstd::arithmetic::power2::pow2(double_scale(bits) as nat) as int;
            assert(0 * p == 0);
        } else {
            let p = vstd::arithmetic::power2::pow2((-double_scale(bits)) as nat) as int;
            vstd::arithmetic::power2::lemma_pow2_pos((-double_scale(bits)) as nat);
            vstd::arithmetic::div_mod::lemma_div_basics_1(p);
        }
    }
}

/// A finite double rounded down to an unsigned 64-bit integer.
pub fn floor_double(bits: u64) -> (r: u64)
    requires
        double_finite(bits),
    ensures
        r == double_floor(bits),
{
    if bits >= 0x8000_0000_0000_0000 {
        return 0;
    }
    let exponent: u64 = bits / 0x10_0000_0000_0000 % 0x800;
    let fraction: u64 = bits % 0x10_0000_0000_0000;
    let significand: u64 = if exponent == 0 {
        fraction
    } else {
        fraction + 0x10_0000_0000_0000
    };
    let lifted: u64 = if exponent == 0 {
        1
    } else {
        exponent
    };
    if lifted >= 1075 {
        let scale: u64 = lifted - 1075;
        if scale > 11 {
            proof {
                vstd::arithmetic::power2::lemma2_to64();
                if scale > 12 {
                    vstd::arithmetic::power2::lemma_pow2_strictly_increases(12, scale as nat);
                }
                let p = vstd::arithmetic::power2::pow2(scale as nat);
                assert(significand >= 0x10_0000_0000_0000);
                assert(significand * p >= 0x10_0000_0000_0000 * 4096) by (nonlinear_arith)
                    requires
                        significand >= 0x10_0000_0000_0000,
                        p >= 4096,
                ;
            }
            return u64::MAX;
        }
        proof {
            vstd::arithmetic::power2::lemma2_to64();
            if scale < 11 {
                vstd::arithmetic::power2::lemma_pow2_strictly_increases(scale as nat, 11);
            }
            let p = vstd::arithmetic::power2::pow2(scale as nat);
            assert(0 <= significand * p <= u64::MAX) by (nonlinear_arith)
                requires
                    significand < 0x20_0000_0000_0000,
                    0 <= p <= 2048,
            ;
            vstd::bits::lemma_u64_shl_is_mul(significand, scale);
        }
        significand << scale
    } else {
        let scale: u64 = 1075 - lifted;
        if scale >= 64 {
            proof {
                vstd::arithmetic::power2::lemma2_to64();
                if scale > 64 {
                    vstd::arithmetic::power2::lemma_pow2_strictly_increases(64, scale as nat);
                }
                let p = vstd::arithmetic::power2::pow2(scale as nat) as int;
                vstd::arithmetic::div_mod::lemma_basic_div(significand as int, p);
            }
            return 0;
        }
        proof {
            vstd::bits::lemma_u64_shr_is_div(significand, scale);
            vstd::arithmetic::power2::lemma_pow2_pos(scale as nat);
            vstd::arithmetic::div_mod::lemma_div_is_ordered_by_denominator(
                significand as int,
                1,
                vstd::arithmetic::power2::pow2(scale as nat) as int,
            );
        }
        significand >> scale
    }
}

/// Whether a finite double is greater than zero.
pub fn is_positive(bits: u64) -> (r: bool)
    ensures
        r == double_positive(bits),
{
    bits < 0x8000_0000_0000_0000 && (bits % 0x10_0000_0000_0000 > 0 || bits / 0x10_0000_0000_0000
        % 0x800 > 0)
}

// ---------------------------------------------------------------------------
// serde_json
// ---------------------------------------------------------------------------

#[verifier::external_type_specification]
#[verifier::external_body]
pub struct ExNumber(serde_json::Number);

#[verifier::external_type_specification]
#[verifier::external_body]
pub struct ExValue(serde_json::Value);

#[verifier::external_type_specification]
#[verifier::external_body]
pub struct ExError(serde_json::Error);

/// The number that a `serde_json::Number` holds.
pub uninterp spec fn numeric_of(number: serde_json::Number) -> Numeric;

/// The document that a `serde_json::Value` holds.
pub uninterp spec fn tree_of(value: serde_json::Value) -> Tree;

/// The document that `serde_json::from_str` reads from a text.
pub uninterp spec fn parsed(text: Seq<char>) -> Option<Tree>;

/// The text that a `serde_json::Value` displays as.
pub uninterp spec fn rendered(tree: Tree) -> Seq<char>;

/// The bits of the double that `serde_json::Number::as_f64` gives for a number.
pub uninterp spec fn double_of(number: Numeric) -> u64;

/// `serde_json::Number::as_u64` gives the value of an unsigned integer, and
/// nothing for a negative integer or a double.
pub assume_specification[ serde_json::Number::as_u64 ](n: &serde_json::Number) -> (r: Option<u64>)
    ensures
        r == match numeric_of(*n) {
            Numeric::Unsigned(u) => Some(u),
            _ => None,
        },
;

/// `serde_json::Number::as_i64` gives the value of an integer that fits, and
/// nothing for a greater integer or a double.
pub assume_specification[ serde_json::Number::as_i64 ](n: &serde_json::Number) -> (r: Option<i64>)
    ensures
        r == match numeric_of(*n) {
            Numeric::Unsigned(u) => if u <= i64::MAX {
                Some(u as i64)
            } else {
                None
            },
            Numeric::Negative(i) => Some(i),
            Numeric::Double(_) => None,
        },
;

/// `serde_json::Number::as_f64` gives a finite double for every number: a
/// double as it is, an integer up to two to the power of 53 exactly, a greater
/// one as a double that is no smaller than that, and a negative integer as one
/// below zero. `f64::to_bits` hands its bits out.
#[verifier::external_body]
fn number_bits(n: &serde_json::Number) -> (r: Option<u64>)
    ensures
        r == Some(double_of(numeric_of(*n))),
        r matches Some(bits) ==> double_finite(bits),
        r matches Some(bits) ==> (numeric_of(*n) matches Numeric::Double(b) ==> bits == b),
        r matches Some(bits) ==> (numeric_of(*n) matches Numeric::Unsigned(u) ==> if u
            <= EXACT_INTEGERS {
            double_is(bits, u as int)
        } else {
            double_floor(bits) >= EXACT_INTEGERS
        }),
        r matches Some(bits) ==> (numeric_of(*n) matches Numeric::Negative(_) ==> double_signed(
            bits,
        ) && double_significand(bits) > 0),
{
    n.as_f64().map(|v| v.to_bits())
}

/// `serde_json::Number` from an unsigned integer holds that integer.
#[verifier::external_body]
fn number_from(n: u64) -> (r: serde_json::Number)
    ensures
        numeric_of(r) == Numeric::Unsigned(n),
{
    serde_json::Number::from(n)
}

/// A cloned `serde_json::Number` holds the same number.
#[verifier::external_body]
fn number_copy(n: &serde_json::Number) -> (r: serde_json::Number)
    ensures
        numeric_of(r) == numeric_of(*n),
{
    n.clone()
}

/// The outermost layer of a `serde_json::Value`.
pub enum Node {
    Null,
    Bool(bool),
    Number(serde_json::Number),
    Text(String),
    Array(Vec<serde_json::Value>),
    Object(Vec<(String, serde_json::Value)>),
}

/// The members that a list of entries gives, where the last of those with one
/// key counts.
pub open spec fn values_map(entries: Seq<(String, serde_json::Value)>) -> Map<Seq<char>, Tree>
    decreases entries.len(),
{
    if entries.len() == 0 {
        Map::empty()
    } else {
        values_map(entries.drop_last()).insert(entries.last().0@, tree_of(entries.last().1))
    }
}

/// The document whose outermost layer is given.
pub open spec fn node_tree(node: Node) -> Tree {
    match node {
        Node::Null => Tree::Null,
        Node::Bool(b) => Tree::Bool(b),
        Node::Number(n) => Tree::Number(numeric_of(n)),
        Node::Text(s) => Tree::Text(s@),
        Node::Array(items) => Tree::Array(items@.map_values(|v: serde_json::Value| tree_of(v))),
        Node::Object(entries) => Tree::Object(values_map(entries@)),
    }
}

/// Whether no key occurs twice.
pub open spec fn distinct_keys(entries: Seq<(String, serde_json::Value)>) -> bool {
    forall|i: int, j: int|
        0 <= i < j < entries.len() ==> (#[trigger] entries[i]).0@ != (#[trigger] entries[j]).0@
}

/// The variants of `serde_json::Value`, with the members of an object listed
/// by iterating over its map, which holds each key once.
#[verifier::external_body]
fn open_value(value: serde_json::Value) -> (node: Node)
    ensures
        node_tree(node) == tree_of(value),
        node matches Node::Object(entries) ==> distinct_keys(entries@),
{
    match value {
        serde_json::Value::Null => Node::Null,
        serde_json::Value::Bool(b) => Node::Bool(b),
        serde_json::Value::Number(n) => Node::Number(n),
        serde_json::Value::String(s) => Node::Text(s),
        serde_json::Value::Array(items) => Node::Array(items),
        serde_json::Value::Object(map) => Node::Object(map.into_iter().collect()),
    }
}

/// The variants of `serde_json::Value` built from their contents, an object
/// by collecting its entries into a map.
#[verifier::external_body]
fn close_value(node: Node) -> (value: serde_json::Value)
    requires
        node matches Node::Object(entries) ==> distinct_keys(entries@),
    ensures
        tree_of(value) == node_tree(node),
{
    match node {
        Node::Null => serde_json::Value::Null,
        Node::Bool(b) => serde_json::Value::Bool(b),
        Node::Number(n) => serde_json::Value::Number(n),
        Node::Text(s) => serde_json::Value::String(s),
        Node::Array(items) => serde_json::Value::Array(items),
        Node::Object(entries) => serde_json::Value::Object(entries.into_iter().collect()),
    }
}

/// `serde_json::from_str` reads a document from a text, or refuses the text. An
/// empty text it refuses, and a carriage return behind the text, which is white
/// space to it, makes no difference.
#[verifier::external_body]
fn read_value(text: &str) -> (r: Result<serde_json::Value, serde_json::Error>)
    ensures
        match r {
            Ok(value) => parsed(text@) == Some(tree_of(value)) && parsed(text@.push('\r')) == Some(
                tree_of(value),
            ),
            Err(_) => parsed(text@) is None && parsed(text@.push('\r')) is None,
        },
        text@.len() == 0 ==> r is Err,
{
    serde_json::from_str(text)
}

/// A `serde_json::Value` displays as its compact text, which escapes every line
/// feed. That text reads back as the same document where nothing in it nests
/// more than 127 deep, no number is a double and no member marks raw text.
#[verifier::external_body]
fn value_text(value: &serde_json::Value) -> (r: String)
    ensures
        r@ == rendered(tree_of(*value)),
        !r@.contains('\n'),
        shallow(tree_of(*value), 127) ==> parsed(r@) == Some(tree_of(*value)),
{
    value.to_string()
}

// ---------------------------------------------------------------------------
// Documents
// ---------------------------------------------------------------------------

/// A JSON document. Of the entries of an object with one key the last counts.
pub enum Json {
    Null,
    Bool(bool),
    Number(serde_json::Number),
    Text(String),
    Array(Vec<Json>),
    Object(Vec<(String, Json)>),
}

impl View for Json {
    type V = Tree;

    open spec fn view(&self) -> Tree
        decreases self,
    {
        match self {
            Json::Null => Tree::Null,
            Json::Bool(b) => Tree::Bool(*b),
            Json::Number(n) => Tree::Number(numeric_of(*n)),
            Json::Text(s) => Tree::Text(s@),
            Json::Array(items) => Tree::Array(items_seq(items@)),
            Json::Object(entries) => Tree::Object(entries_map(entries@)),
        }
    }
}

/// The members that a list of entries gives, where the last of those with one
/// key counts.
pub open spec fn entries_map(entries: Seq<(String, Json)>) -> Map<Seq<char>, Tree>
    decreases entries,
{
    if entries.len() == 0 {
        Map::empty()
    } else {
        entries_map(entries.drop_last()).insert(entries.last().0@, entries.last().1.view())
    }
}

/// The documents in a list, one by one.
pub open spec fn items_seq(items: Seq<Json>) -> Seq<Tree>
    decreases items,
{
    if items.len() == 0 {
        Seq::empty()
    } else {
        items_seq(items.drop_last()).push(items.last().view())
    }
}

/// The documents in a list.
pub open spec fn trees(items: Seq<Json>) -> Seq<Tree> {
    items.map_values(|j: Json| j@)
}

/// A document that may be missing.
pub open spec fn seen(j: Option<&Json>) -> Option<Tree> {
    match j {
        Some(j) => Some(j@),
        None => None,
    }
}

/// A document of one's own that may be missing.
pub open spec fn seen_own(j: Option<Json>) -> Option<Tree> {
    match j {
        Some(j) => Some(j@),
        None => None,
    }
}

/// The documents of a list that may be missing.
pub open spec fn seen_items(items: Option<&Vec<Json>>) -> Option<Seq<Tree>> {
    match items {
        Some(items) => Some(trees(items@)),
        None => None,
    }
}

proof fn lemma_items_seq(items: Seq<Json>)
    ensures
        items_seq(items) == trees(items),
    decreases items.len(),
{
    if items.len() > 0 {
        lemma_items_seq(items.drop_last());
        assert(items_seq(items) == items_seq(items.drop_last()).push(items.last().view()));
        assert(trees(items) =~= trees(items.drop_last()).push(items.last()@));
    } else {
        assert(items_seq(items) =~= trees(items));
    }
}

/// An array holds the documents of its list.
pub broadcast proof fn lemma_array_view(items: Vec<Json>)
    ensures
        #[trigger] Json::Array(items)@ == Tree::Array(trees(items@)),
{
    lemma_items_seq(items@);
}

/// The members of an object with one more entry.
proof fn lemma_entries_step(entries: Seq<(String, Json)>)
    requires
        entries.len() > 0,
    ensures
        entries_map(entries) == entries_map(entries.drop_last()).insert(
            entries.last().0@,
            entries.last().1@,
        ),
{
}

proof fn lemma_values_map_entry(entries: Seq<(String, serde_json::Value)>, i: int)
    requires
        distinct_keys(entries),
        0 <= i < entries.len(),
    ensures
        values_map(entries).contains_key(entries[i].0@),
        values_map(entries)[entries[i].0@] == tree_of(entries[i].1),
    decreases entries.len(),
{
    if i < entries.len() - 1 {
        assert(entries.drop_last()[i] == entries[i]);
        assert(distinct_keys(entries.drop_last())) by {
            assert forall|a: int, b: int| 0 <= a < b < entries.drop_last().len() implies (
            #[trigger] entries.drop_last()[a]).0@ != (#[trigger] entries.drop_last()[b]).0@ by {
                assert(entries.drop_last()[a] == entries[a]);
                assert(entries.drop_last()[b] == entries[b]);
            }
        }
        lemma_values_map_entry(entries.drop_last(), i);
        assert(entries[i].0@ != entries[entries.len() - 1].0@);
    }
}

proof fn lemma_values_map_finite(entries: Seq<(String, serde_json::Value)>)
    ensures
        values_map(entries).dom().finite(),
    decreases entries.len(),
{
    if entries.len() > 0 {
        lemma_values_map_finite(entries.drop_last());
    }
}

/// The document that a `serde_json::Value` holds.
fn decode(value: serde_json::Value) -> (r: Json)
    ensures
        r@ == tree_of(value),
    decreases tree_of(value),
{
    broadcast use lemma_array_view;

    match open_value(value) {
        Node::Null => Json::Null,
        Node::Bool(b) => Json::Bool(b),
        Node::Number(n) => Json::Number(n),
        Node::Text(s) => Json::Text(s),
        Node::Array(items) => {
            let ghost all = items@;
            let mut rest: Vec<serde_json::Value> = items;
            let mut out: Vec<Json> = Vec::new();
            while rest.len() > 0
                invariant
                    rest@.len() + out@.len() == all.len(),
                    rest@ == all.skip(out@.len() as int),
                    tree_of(value) == Tree::Array(all.map_values(|v: serde_json::Value| tree_of(v))),
                    forall|i: int| 0 <= i < out@.len() ==> (#[trigger] out@[i])@ == tree_of(all[i]),
                decreases rest@.len(),
            {
                let item = rest.remove(0);
                assert(item == all[out@.len() as int]);
                assert(tree_of(value)->Array_0[out@.len() as int] == tree_of(item));
                let decoded = decode(item);
                out.push(decoded);
            }
            assert(trees(out@) =~= all.map_values(|v: serde_json::Value| tree_of(v)));
            Json::Array(out)
        },
        Node::Object(entries) => {
            let ghost all = entries@;
            let mut rest: Vec<(String, serde_json::Value)> = entries;
            let mut out: Vec<(String, Json)> = Vec::new();
            while rest.len() > 0
                invariant
                    rest@.len() + out@.len() == all.len(),
                    rest@ == all.skip(out@.len() as int),
                    distinct_keys(all),
                    tree_of(value) == Tree::Object(values_map(all)),
                    entries_map(out@) == values_map(all.take(out@.len() as int)),
                decreases rest@.len(),
            {
                let ghost n = out@.len() as int;
                let (key, item) = rest.remove(0);
                proof {
                    lemma_values_map_entry(all, n);
                    lemma_values_map_finite(all);
                    assert(tree_of(value)->Object_0[all[n].0@] == tree_of(item));
                    assert(decreases_to!(tree_of(value)->Object_0 => tree_of(value)->Object_0[all[n].0@]));
                }
                let decoded = decode(item);
                let ghost before = out@;
                out.push((key, decoded));
                assert(out@.drop_last() == before);
                assert(all.take(n + 1).drop_last() == all.take(n));
            }
            assert(all.take(all.len() as int) == all);
            Json::Object(out)
        },
    }
}

/// Whether `key` is a key of one of the entries from `from` on.
pub open spec fn key_from(entries: Seq<(String, Json)>, key: Seq<char>, from: int) -> bool {
    exists|j: int| from <= j < entries.len() && (#[trigger] entries[j]).0@ == key
}

/// Whether the key of the entry `i` comes again after it.
fn comes_again(entries: &Vec<(String, Json)>, i: usize) -> (r: bool)
    requires
        i < entries@.len(),
    ensures
        r == key_from(entries@, entries@[i as int].0@, i + 1),
{
    let n: usize = entries.len();
    let mut j: usize = i + 1;
    while j < entries.len()
        invariant
            i < j <= entries@.len(),
            forall|k: int| i < k < j ==> (#[trigger] entries@[k]).0@ != entries@[i as int].0@,
        decreases entries@.len() - j,
    {
        if same(entries[j].0.as_str(), entries[i].0.as_str()) {
            return true;
        }
        j += 1;
    }
    false
}

/// The `serde_json::Value` that holds a document.
fn encode(json: &Json) -> (r: serde_json::Value)
    ensures
        tree_of(r) == json@,
    decreases json,
{
    broadcast use lemma_array_view;

    match json {
        Json::Null => close_value(Node::Null),
        Json::Bool(b) => close_value(Node::Bool(*b)),
        Json::Number(n) => close_value(Node::Number(number_copy(n))),
        Json::Text(s) => close_value(Node::Text(s.clone())),
        Json::Array(items) => {
            let mut out: Vec<serde_json::Value> = Vec::new();
            let mut i: usize = 0;
            while i < items.len()
                invariant
                    i <= items@.len(),
                    out@.len() == i,
                    json == Json::Array(*items),
                    forall|k: int| 0 <= k < i ==> tree_of(#[trigger] out@[k]) == items@[k]@,
                decreases items@.len() - i,
            {
                assert(decreases_to!(items@ => items@[i as int]));
                assert(decreases_to!(json => json->Array_0));
                assert(decreases_to!(json->Array_0 => json->Array_0@));
                out.push(encode(&items[i]));
                i += 1;
            }
            assert(out@.map_values(|v: serde_json::Value| tree_of(v)) =~= trees(items@));
            close_value(Node::Array(out))
        },
        Json::Object(entries) => {
            let mut out: Vec<(String, serde_json::Value)> = Vec::new();
            let mut i: usize = 0;
            while i < entries.len()
                invariant
                    i <= entries@.len(),
                    json == Json::Object(*entries),
                    distinct_keys(out@),
                    forall|k: Seq<char>| #[trigger]
                        values_map(out@).dom().contains(k) <==> entries_map(
                            entries@.take(i as int),
                        ).dom().contains(k) && !key_from(entries@, k, i as int),
                    forall|k: Seq<char>| #[trigger]
                        values_map(out@).dom().contains(k) ==> values_map(out@)[k] == entries_map(
                            entries@.take(i as int),
                        )[k],
                decreases entries@.len() - i,
            {
                let ghost key = entries@[i as int].0@;
                let ghost before = out@;
                proof {
                    assert(entries@.take(i + 1).drop_last() == entries@.take(i as int));
                    lemma_entries_step(entries@.take(i + 1));
                }
                assert(key_from(entries@, key, i as int));
                assert forall|k: Seq<char>| k != key implies key_from(entries@, k, i as int)
                    == key_from(entries@, k, i + 1) by {
                    if key_from(entries@, k, i as int) {
                        let j = choose|j: int|
                            i <= j < entries@.len() && (#[trigger] entries@[j]).0@ == k;
                        assert(entries@[j].0@ == k);
                    }
                }
                if !comes_again(entries, i) {
                    assert(decreases_to!(entries@ => entries@[i as int]));
                    assert(decreases_to!(json => json->Object_0));
                    assert(decreases_to!(json->Object_0 => json->Object_0@));
                    let value = encode(&entries[i].1);
                    out.push((entries[i].0.clone(), value));
                    assert(out@.drop_last() == before);
                    assert(values_map(out@) == values_map(before).insert(key, entries@[i as int].1@));
                    assert(!key_from(entries@, key, i + 1));
                    assert forall|a: int, b: int| 0 <= a < b < out@.len() implies (
                    #[trigger] out@[a]).0@ != (#[trigger] out@[b]).0@ by {
                        if b == before.len() {
                            lemma_values_map_entry(before, a);
                        } else {
                            assert(before[a].0@ != before[b].0@);
                        }
                    }
                }
                i += 1;
            }
            assert(entries@.take(entries@.len() as int) == entries@);
            assert(values_map(out@) =~= entries_map(entries@));
            close_value(Node::Object(out))
        },
    }
}

/// Reads a JSON text.
pub fn parse(text: &str) -> (r: Option<Json>)
    ensures
        seen_own(r) == parsed(text@),
        parsed(text@.push('\r')) == parsed(text@),
        text@.len() == 0 ==> r is None,
{
    match read_value(text) {
        Ok(value) => Some(decode(value)),
        Err(_) => None,
    }
}

impl Json {
    /// The compact text of the document.
    pub fn render(&self) -> (r: String)
        ensures
            r@ == rendered(self@),
            !r@.contains('\n'),
            shallow(self@, 127) ==> parsed(r@) == Some(self@),
    {
        let value = encode(self);
        value_text(&value)
    }

    /// A copy of the document.
    pub fn duplicate(&self) -> (r: Json)
        ensures
            r@ == self@,
        decreases self,
    {
        broadcast use lemma_array_view;

        match self {
            Json::Null => Json::Null,
            Json::Bool(b) => Json::Bool(*b),
            Json::Number(n) => Json::Number(number_copy(n)),
            Json::Text(s) => Json::Text(s.clone()),
            Json::Array(items) => {
                let mut out: Vec<Json> = Vec::new();
                let mut i: usize = 0;
                while i < items.len()
                    invariant
                        i <= items@.len(),
                        out@.len() == i,
                        self == Json::Array(*items),
                        forall|k: int| 0 <= k < i ==> (#[trigger] out@[k])@ == items@[k]@,
                    decreases items@.len() - i,
                {
                    assert(decreases_to!(items@ => items@[i as int]));
                    assert(decreases_to!(self => self->Array_0));
                    assert(decreases_to!(self->Array_0 => self->Array_0@));
                    out.push(items[i].duplicate());
                    i += 1;
                }
                assert(trees(out@) =~= trees(items@));
                Json::Array(out)
            },
            Json::Object(entries) => {
                let mut out: Vec<(String, Json)> = Vec::new();
                let mut i: usize = 0;
                while i < entries.len()
                    invariant
                        i <= entries@.len(),
                        self == Json::Object(*entries),
                        entries_map(out@) == entries_map(entries@.take(i as int)),
                    decreases entries@.len() - i,
                {
                    let ghost before = out@;
                    assert(decreases_to!(entries@ => entries@[i as int]));
                    assert(decreases_to!(self => self->Object_0));
                    assert(decreases_to!(self->Object_0 => self->Object_0@));
                    out.push((entries[i].0.clone(), entries[i].1.duplicate()));
                    assert(out@.drop_last() == before);
                    assert(entries@.take(i + 1).drop_last() == entries@.take(i as int));
                    i += 1;
                }
                assert(entries@.take(entries@.len() as int) == entries@);
                Json::Object(out)
            },
        }
    }

    /// The object without members.
    pub fn object() -> (r: Json)
        ensures
            r@ == empty_tree(),
    {
        let entries: Vec<(String, Json)> = Vec::new();
        assert(entries_map(entries@) == Map::<Seq<char>, Tree>::empty());
        Json::Object(entries)
    }

    /// A text.
    pub fn text(s: &str) -> (r: Json)
        ensures
            r@ == Tree::Text(s@),
    {
        Json::Text(s.to_owned())
    }

    /// An unsigned integer.
    pub fn count(n: u64) -> (r: Json)
        ensures
            r@ == count_tree(n),
    {
        Json::Number(number_from(n))
    }

    /// An array.
    pub fn array(items: Vec<Json>) -> (r: Json)
        ensures
            r@ == Tree::Array(trees(items@)),
    {
        broadcast use lemma_array_view;

        Json::Array(items)
    }

    /// The object with the member `key` set to `value`; a document that is no
    /// object is replaced by one with that member alone.
    pub fn with(self, key: &str, value: Json) -> (r: Json)
        ensures
            r@ == self@.with(key@, value@),
    {
        let mut out = self;
        out.put(key, value);
        out
    }

    /// The object with the member `key` set to `value`, where there is one.
    pub fn with_some(self, key: &str, value: Option<Json>) -> (r: Json)
        ensures
            r@ == self@.with_some(key@, seen_own(value)),
    {
        match value {
            Some(v) => self.with(key, v),
            None => self,
        }
    }

    /// The object without the member `key`.
    pub fn without(self, key: &str) -> (r: Json)
        ensures
            r@ == self@.without(key@),
    {
        match self {
            Json::Object(entries) => Json::Object(entries_without(entries, key)),
            other => other,
        }
    }

    /// Sets the member `key` to `value`.
    pub fn put(&mut self, key: &str, value: Json)
        ensures
            final(self)@ == old(self)@.with(key@, value@),
    {
        let mut taken = Json::Null;
        std::mem::swap(self, &mut taken);
        let mut entries: Vec<(String, Json)> = match taken {
            Json::Object(entries) => entries_without(entries, key),
            _ => Vec::new(),
        };
        let ghost before = entries@;
        entries.push((key.to_owned(), value));
        assert(entries@.drop_last() == before);
        proof {
            lemma_entries_step(entries@);
        }
        assert(entries_map(entries@) =~= old(self)@.members().insert(key@, value@));
        *self = Json::Object(entries);
    }

    /// The member `key` of an object.
    pub fn get(&self, key: &str) -> (r: Option<&Json>)
        ensures
            seen(r) == self@.field(key@),
    {
        match self {
            Json::Object(entries) => {
                let mut i: usize = entries.len();
                assert(entries@.take(entries@.len() as int) == entries@);
                while i > 0
                    invariant
                        i <= entries@.len(),
                        self@ == Tree::Object(entries_map(entries@)),
                        Tree::Object(entries_map(entries@)).field(key@) == Tree::Object(
                            entries_map(entries@.take(i as int)),
                        ).field(key@),
                    decreases i,
                {
                    proof {
                        assert(entries@.take(i as int).drop_last() == entries@.take(i - 1));
                        lemma_entries_step(entries@.take(i as int));
                    }
                    i -= 1;
                    if same(entries[i].0.as_str(), key) {
                        return Some(&entries[i].1);
                    }
                }
                None
            },
            _ => None,
        }
    }

    /// The characters of a text.
    pub fn as_str(&self) -> (r: Option<&str>)
        ensures
            crate::text::seen_str(r) == self@.text(),
    {
        match self {
            Json::Text(s) => Some(s.as_str()),
            _ => None,
        }
    }

    /// The items of an array.
    pub fn as_items(&self) -> (r: Option<&Vec<Json>>)
        ensures
            seen_items(r) == self@.items(),
    {
        broadcast use lemma_array_view;

        match self {
            Json::Array(items) => Some(items),
            _ => None,
        }
    }

    /// The value of an unsigned integer.
    pub fn as_u64(&self) -> (r: Option<u64>)
        ensures
            r == self@.count(),
    {
        match self {
            Json::Number(n) => n.as_u64(),
            _ => None,
        }
    }

    /// The value of an integer that fits.
    pub fn as_i64(&self) -> (r: Option<i64>)
        ensures
            r == self@.signed(),
    {
        match self {
            Json::Number(n) => n.as_i64(),
            _ => None,
        }
    }

    /// The bits of the double nearest to a number.
    pub fn as_double(&self) -> (r: Option<u64>)
        ensures
            r == self@.double(),
            match self@ {
                Tree::Number(n) => {
                    &&& r matches Some(bits)
                    &&& double_finite(bits)
                    &&& double_positive(bits) == number_positive(n)
                    &&& double_floor(bits) == number_floor(n)
                    &&& match n {
                        Numeric::Unsigned(u) => u <= EXACT_INTEGERS ==> double_is(bits, u as int),
                        Numeric::Negative(_) => double_signed(bits) && double_significand(bits) > 0,
                        Numeric::Double(b) => bits == b,
                    }
                },
                _ => r is None,
            },
    {
        match self {
            Json::Number(n) => {
                let r: Option<u64> = number_bits(n);
                proof {
                    let bits = r->0;
                    if let Numeric::Unsigned(u) = numeric_of(*n) {
                        if u <= EXACT_INTEGERS {
                            lemma_double_is(bits, u);
                        } else {
                            lemma_floor_is_positive(bits);
                        }
                    }
                }
                r
            },
            _ => None,
        }
    }

    /// The truth value of a boolean.
    pub fn as_bool(&self) -> (r: Option<bool>)
        ensures
            r == self@.flag(),
    {
        match self {
            Json::Bool(b) => Some(*b),
            _ => None,
        }
    }

    /// Whether the document is null.
    pub fn is_null(&self) -> (r: bool)
        ensures
            r == (self@ is Null),
    {
        match self {
            Json::Null => true,
            _ => false,
        }
    }

    /// Whether the document is an object.
    pub fn is_object(&self) -> (r: bool)
        ensures
            r == (self@ is Object),
    {
        match self {
            Json::Object(_) => true,
            _ => false,
        }
    }

    /// The text that the member `key` is.
    pub fn str_at(&self, key: &str) -> (r: Option<&str>)
        ensures
            crate::text::seen_str(r) == self@.text_at(key@),
    {
        match self.get(key) {
            Some(v) => v.as_str(),
            None => None,
        }
    }

    /// Whether the member `key` is the text `expected`.
    pub fn is_text_at(&self, key: &str, expected: &str) -> (r: bool)
        ensures
            r == (self@.text_at(key@) == Some(expected@)),
    {
        is_some_text(self.str_at(key), expected)
    }

    /// The items of the array that the member `key` is.
    pub fn items_at(&self, key: &str) -> (r: Option<&Vec<Json>>)
        ensures
            seen_items(r) == self@.items_at(key@),
    {
        match self.get(key) {
            Some(v) => v.as_items(),
            None => None,
        }
    }

    /// The unsigned integer that the member `key` is.
    pub fn u64_at(&self, key: &str) -> (r: Option<u64>)
        ensures
            r == self@.count_at(key@),
    {
        match self.get(key) {
            Some(v) => v.as_u64(),
            None => None,
        }
    }

    /// The integer that the member `key` is.
    pub fn i64_at(&self, key: &str) -> (r: Option<i64>)
        ensures
            r == self@.signed_at(key@),
    {
        match self.get(key) {
            Some(v) => v.as_i64(),
            None => None,
        }
    }

    /// The boolean that the member `key` is.
    pub fn bool_at(&self, key: &str) -> (r: Option<bool>)
        ensures
            r == self@.flag_at(key@),
    {
        match self.get(key) {
            Some(v) => v.as_bool(),
            None => None,
        }
    }

    /// The member `inner` of the member `outer`.
    pub fn get_in(&self, outer: &str, inner: &str) -> (r: Option<&Json>)
        ensures
            seen(r) == self@.field_in(outer@, inner@),
    {
        match self.get(outer) {
            Some(v) => v.get(inner),
            None => None,
        }
    }

    /// The text that the member `inner` of the member `outer` is.
    pub fn str_in(&self, outer: &str, inner: &str) -> (r: Option<&str>)
        ensures
            crate::text::seen_str(r) == self@.text_in(outer@, inner@),
    {
        match self.get_in(outer, inner) {
            Some(v) => v.as_str(),
            None => None,
        }
    }
}

/// A copy of a document, or null where there is none.
pub fn copy_or_null(j: Option<&Json>) -> (r: Json)
    ensures
        r@ == or_null(seen(j)),
{
    match j {
        Some(j) => j.duplicate(),
        None => Json::Null,
    }
}

/// A copy of a document, unless it is null or missing.
pub fn copy_not_null(j: Option<&Json>) -> (r: Option<Json>)
    ensures
        seen_own(r) == not_null(seen(j)),
{
    match j {
        Some(j) => if j.is_null() {
            None
        } else {
            Some(j.duplicate())
        },
        None => None,
    }
}

/// The text, or the empty one where there is none.
pub fn text_or_blank(s: Option<&str>) -> (r: String)
    ensures
        r@ == or_blank(crate::text::seen_str(s)),
{
    match s {
        Some(s) => s.to_owned(),
        None => {
            let r = String::new();
            assert(r@ =~= Seq::<char>::empty());
            r
        },
    }
}

proof fn lemma_entries_remove(entries: Seq<(String, Json)>, i: int)
    requires
        0 <= i < entries.len(),
    ensures
        entries_map(entries.remove(i)).remove(entries[i].0@) == entries_map(entries).remove(
            entries[i].0@,
        ),
    decreases entries.len(),
{
    let key = entries[i].0@;
    lemma_entries_step(entries);
    if i == entries.len() - 1 {
        assert(entries.remove(i) =~= entries.drop_last());
        assert(entries_map(entries).remove(key) =~= entries_map(entries.drop_last()).remove(key));
    } else {
        lemma_entries_remove(entries.drop_last(), i);
        assert(entries.remove(i).drop_last() =~= entries.drop_last().remove(i));
        assert(entries.remove(i).last() == entries.last());
        lemma_entries_step(entries.remove(i));
        let last = entries.last();
        let a = entries_map(entries.drop_last().remove(i));
        let b = entries_map(entries.drop_last());
        assert(a.remove(key) == b.remove(key));
        let x = a.insert(last.0@, last.1@).remove(key);
        let y = b.insert(last.0@, last.1@).remove(key);
        assert forall|k: Seq<char>| #[trigger]
            x.dom().contains(k) == y.dom().contains(k) && (x.dom().contains(k) ==> x[k]
            == y[k]) by {
            if k != key && k != last.0@ {
                assert(a.remove(key).dom().contains(k) == b.remove(key).dom().contains(k));
                assert(a.contains_key(k) ==> a.remove(key)[k] == a[k]);
                assert(b.contains_key(k) ==> b.remove(key)[k] == b[k]);
            }
        }
        assert(x.dom() =~= y.dom());
        assert(x =~= y);
    }
}

proof fn lemma_entries_absent(entries: Seq<(String, Json)>, key: Seq<char>)
    requires
        forall|i: int| 0 <= i < entries.len() ==> (#[trigger] entries[i]).0@ != key,
    ensures
        !entries_map(entries).contains_key(key),
    decreases entries.len(),
{
    if entries.len() > 0 {
        assert forall|i: int| 0 <= i < entries.drop_last().len() implies (
        #[trigger] entries.drop_last()[i]).0@ != key by {
            assert(entries.drop_last()[i] == entries[i]);
        }
        lemma_entries_absent(entries.drop_last(), key);
        assert(entries[entries.len() - 1].0@ != key);
        lemma_entries_step(entries);
    }
}

/// The entries without those of `key`.
fn entries_without(entries: Vec<(String, Json)>, key: &str) -> (r: Vec<(String, Json)>)
    ensures
        entries_map(r@) == entries_map(entries@).remove(key@),
{
    let ghost all = entries@;
    let mut out: Vec<(String, Json)> = entries;
    let mut i: usize = 0;
    while i < out.len()
        invariant
            i <= out@.len(),
            entries_map(out@).remove(key@) == entries_map(all).remove(key@),
            forall|k: int| 0 <= k < i ==> (#[trigger] out@[k]).0@ != key@,
        decreases out@.len() - i,
    {
        if same(out[i].0.as_str(), key) {
            proof {
                lemma_entries_remove(out@, i as int);
            }
            out.remove(i);
        } else {
            i += 1;
        }
    }
    proof {
        lemma_entries_absent(out@, key@);
        assert(entries_map(out@).remove(key@) =~= entries_map(out@));
    }
    out
}

/// A document gives back what was put in last, and keeps everything else it had;
/// what is taken out is gone, and nothing else with it.
pub proof fn law_members_are_kept(t: Tree, key: Seq<char>, value: Tree, other: Seq<char>)
    ensures
        t.with(key, value).field(key) == Some(value),
        other != key ==> t.with(key, value).field(other) == t.field(other),
        t.with_some(key, Some(value)) == t.with(key, value),
        t.with_some(key, None) == t,
        t.without(key).field(key) is None,
        other != key ==> t.without(key).field(other) == t.field(other),
        empty_tree().field(key) is None,
        empty_tree() is Object,
        t.with(key, value) is Object,
        t is Object ==> t.without(key) is Object,
{
}

/// The member under a key is the value that the object has there, and only
/// objects have members.
pub proof fn law_only_objects_have_members(m: Map<Seq<char>, Tree>, t: Tree, key: Seq<char>)
    ensures
        m.contains_key(key) ==> Tree::Object(m).field(key) == Some(m[key]),
        !m.contains_key(key) ==> Tree::Object(m).field(key) is None,
        t !is Object ==> t.field(key) is None,
        Tree::Object(m).members() == m,
{
}

/// A member is read as what it is: a text as a text, a list as a list, a whole
/// number as a number, a truth value as a truth value, and as nothing else.
pub proof fn law_members_are_read_as_what_they_are(
    t: Tree,
    key: Seq<char>,
    s: Seq<char>,
    items: Seq<Tree>,
    n: u64,
    i: i64,
    b: bool,
)
    ensures
        t.text_at(key) == Some(s) <==> t.field(key) == Some(Tree::Text(s)),
        t.text_at(key) is Some <==> t.field(key) is Some && t.field(key)->0 is Text,
        t.items_at(key) == Some(items) <==> t.field(key) == Some(Tree::Array(items)),
        t.items_at(key) is Some <==> t.field(key) is Some && t.field(key)->0 is Array,
        t.count_at(key) == Some(n) <==> t.field(key) == Some(
            Tree::Number(Numeric::Unsigned(n)),
        ),
        t.count_at(key) is Some <==> t.field(key) is Some && t.field(key)->0 is Number && (t.field(
            key,
        )->0)->Number_0 is Unsigned,
        i >= 0 ==> (t.signed_at(key) == Some(i) <==> t.field(key) == Some(
            Tree::Number(Numeric::Unsigned(i as u64)),
        ) || t.field(key) == Some(Tree::Number(Numeric::Negative(i)))),
        i < 0 ==> (t.signed_at(key) == Some(i) <==> t.field(key) == Some(
            Tree::Number(Numeric::Negative(i)),
        )),
        t.flag_at(key) == Some(b) <==> t.field(key) == Some(Tree::Bool(b)),
        t.flag_at(key) is Some <==> t.field(key) is Some && t.field(key)->0 is Bool,
{
}

/// A member of a member is found where both are there.
pub proof fn law_inner_members_are_found(t: Tree, outer: Seq<char>, inner: Seq<char>)
    ensures
        t.field(outer) is Some ==> t.field_in(outer, inner) == (t.field(outer)->0).field(inner),
        t.field(outer) is None ==> t.field_in(outer, inner) is None,
        t.field(outer) is Some ==> t.text_in(outer, inner) == (t.field(outer)->0).text_at(inner),
        t.field(outer) is None ==> t.text_in(outer, inner) is None,
{
}

/// What is missing stands for nothing: a null, an empty text, a zero; what is
/// there stands for itself.
pub proof fn law_what_is_missing_is_nothing(t: Tree, s: Seq<char>, n: u64)
    ensures
        or_null(Some(t)) == t,
        or_null(None) == Tree::Null,
        or_blank(Some(s)) == s,
        or_blank(None).len() == 0,
        or_zero(Some(n)) == n,
        or_zero(None) == 0,
        t !is Null ==> not_null(Some(t)) == Some(t),
        not_null(Some(Tree::Null)) is None,
        not_null(None) is None,
        count_tree(n).count() == Some(n),
{
}

/// The bits of a double are its sign, eleven bits of exponent and 52 bits of
/// fraction; the first bit of the significand is implied but for the smallest
/// exponent, and the largest exponent is that of no number.
pub proof fn law_doubles_are_made_of_sign_exponent_and_fraction(
    bits: u64,
    sign: int,
    exponent: int,
    fraction: int,
)
    requires
        0 <= sign <= 1,
        0 <= exponent < 2048,
        0 <= fraction < 0x10_0000_0000_0000,
        bits == sign * 0x8000_0000_0000_0000 + exponent * 0x10_0000_0000_0000 + fraction,
    ensures
        double_signed(bits) <==> sign == 1,
        double_finite(bits) <==> exponent < 2047,
        exponent == 0 ==> double_significand(bits) == fraction && double_scale(bits) == -1074,
        exponent > 0 ==> double_significand(bits) == fraction + 0x10_0000_0000_0000
            && double_scale(bits) == exponent - 1075,
        double_positive(bits) <==> sign == 0 && (exponent > 0 || fraction > 0),
{
    assert(bits as int / 0x10_0000_0000_0000 == sign * 2048 + exponent);
    assert((sign * 2048 + exponent) % 2048 == exponent);
    assert(bits as int % 0x10_0000_0000_0000 == fraction);
}

/// The whole part of a double is the largest integer that is not above it: none
/// below zero, and no more than fits.
pub proof fn law_floors_are_the_whole_part(bits: u64)
    ensures
        double_signed(bits) ==> double_floor(bits) == 0,
        !double_signed(bits) && double_scale(bits) >= 0 ==> ({
            let exact = double_significand(bits) * vstd::arithmetic::power2::pow2(
                double_scale(bits) as nat,
            );
            &&& exact <= u64::MAX ==> double_floor(bits) == exact
            &&& exact > u64::MAX ==> double_floor(bits) == u64::MAX
        }),
        !double_signed(bits) && double_scale(bits) < 0 ==> ({
            let unit = vstd::arithmetic::power2::pow2((-double_scale(bits)) as nat);
            &&& double_floor(bits) * unit <= double_significand(bits)
            &&& double_significand(bits) < (double_floor(bits) + 1) * unit
        }),
{
    if !double_signed(bits) && double_scale(bits) < 0 {
        let unit = vstd::arithmetic::power2::pow2((-double_scale(bits)) as nat) as int;
        let s = double_significand(bits);
        vstd::arithmetic::power2::lemma_pow2_pos((-double_scale(bits)) as nat);
        vstd::arithmetic::div_mod::lemma_fundamental_div_mod(s, unit);
        vstd::arithmetic::div_mod::lemma_mod_bound(s, unit);
        vstd::arithmetic::div_mod::lemma_div_is_ordered_by_denominator(s, 1, unit);
        assert(s / 1 == s);
        assert(0 <= s < 0x20_0000_0000_0000);
        vstd::arithmetic::div_mod::lemma_div_pos_is_pos(s, unit);
        let q = s / unit;
        assert(double_floor(bits) == q);
        assert(unit * q == q * unit) by (nonlinear_arith);
        assert((q + 1) * unit == q * unit + unit) by (nonlinear_arith);
    }
    if !double_signed(bits) && double_scale(bits) >= 0 {
        let p = vstd::arithmetic::power2::pow2(double_scale(bits) as nat) as int;
        let s = double_significand(bits);
        vstd::arithmetic::power2::lemma_pow2_pos(double_scale(bits) as nat);
        assert(s * p >= 0) by (nonlinear_arith)
            requires
                s >= 0,
                p > 0,
        ;
    }
}

/// A number is positive where it is above zero, and its whole part is itself where
/// it is a whole number that a double holds exactly.
pub proof fn law_whole_numbers_are_their_own_floor(u: u64, i: i64, bits: u64)
    ensures
        number_positive(Numeric::Unsigned(u)) <==> u > 0,
        !number_positive(Numeric::Negative(i)),
        number_positive(Numeric::Double(bits)) <==> double_positive(bits),
        u <= 0x20_0000_0000_0000 ==> number_floor(Numeric::Unsigned(u)) == u,
        u > 0x20_0000_0000_0000 ==> number_floor(Numeric::Unsigned(u)) == double_floor(
            double_of(Numeric::Unsigned(u)),
        ),
        number_floor(Numeric::Negative(i)) == 0,
        number_floor(Numeric::Double(bits)) == double_floor(bits),
{
}

/// A document is seen as what it holds, one item after another, and an option of
/// one as there where it is there.
pub proof fn law_documents_are_seen_as_they_are(
    j: Json,
    b: bool,
    n: serde_json::Number,
    s: String,
    items: Vec<Json>,
    i: int,
)
    requires
        0 <= i < items@.len(),
    ensures
        Json::Null@ == Tree::Null,
        Json::Bool(b)@ == Tree::Bool(b),
        Json::Number(n)@ == Tree::Number(numeric_of(n)),
        Json::Text(s)@ == Tree::Text(s@),
        Json::Array(items)@ is Array,
        Json::Array(items)@->Array_0.len() == items@.len(),
        Json::Array(items)@->Array_0[i] == items@[i]@,
        seen_own(Some(j)) == Some(j@),
        seen_own(None) is None,
        seen(Some(&j)) == Some(j@),
        seen(None) is None,
        seen_items(Some(&items)) is Some,
        seen_items(Some(&items))->0.len() == items@.len(),
        seen_items(Some(&items))->0[i] == items@[i]@,
        seen_items(None) is None,
{
    lemma_array_view(items);
}

/// An object has a member under exactly the keys that are entered, and the last
/// entry under a key tells its value.
pub proof fn law_the_last_entry_counts(
    front: Vec<(String, Json)>,
    entries: Vec<(String, Json)>,
    key: String,
    value: Json,
    other: Seq<char>,
)
    requires
        entries@ == front@.push((key, value)),
    ensures
        Json::Object(entries)@.field(key@) == Some(value@),
        other != key@ ==> Json::Object(entries)@.field(other) == Json::Object(front)@.field(other),
        front@.len() == 0 ==> Json::Object(front)@.field(other) is None,
{
    lemma_entries_step(entries@);
    assert(entries@.drop_last() =~= front@);
}

} // verus!
