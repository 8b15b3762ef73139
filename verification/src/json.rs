//! The JSON values that payloads carry (connection `config`, tag `address`,
//! schedule `target_value`, tag `allowed_values`), held as the library reads
//! them. A number keeps the three forms `serde_json` keeps apart: a
//! non-negative integer, a negative integer, and a float held by its
//! IEEE 754 bit pattern.

use vstd::prelude::*;

verus! {

/// An `f64` held by its IEEE 754 binary64 bit pattern (`f64::to_bits`).
#[derive(Clone, Copy, Debug, PartialEq, Eq, Structural)]
pub struct FloatBits {
    pub bits: u64,
}

pub const SIGN_BIT: u64 = 0x8000_0000_0000_0000;

pub const EXPONENT_MASK: u64 = 0x7ff0_0000_0000_0000;

impl FloatBits {
    /// The bits without the sign: the magnitude, which grows with the absolute value.
    pub open spec fn magnitude(self) -> int {
        (self.bits % 0x8000_0000_0000_0000u64) as int
    }

    pub open spec fn is_negative(self) -> bool {
        self.bits >= SIGN_BIT
    }

    /// Not a number: all exponent bits set and a non-zero fraction.
    pub open spec fn is_nan(self) -> bool {
        self.magnitude() > EXPONENT_MASK
    }

    /// A key that orders non-NaN floats as IEEE 754 does (both zeros get 0).
    pub open spec fn order_key(self) -> int {
        if self.is_negative() {
            -self.magnitude()
        } else {
            self.magnitude()
        }
    }

    /// IEEE 754 `>`: false when either side is NaN.
    pub open spec fn spec_gt(self, other: FloatBits) -> bool {
        !self.is_nan() && !other.is_nan() && self.order_key() > other.order_key()
    }

    /// IEEE 754 `==`: false when either side is NaN; `-0.0 == 0.0`.
    pub open spec fn spec_float_eq(self, other: FloatBits) -> bool {
        !self.is_nan() && !other.is_nan() && self.order_key() == other.order_key()
    }

    pub fn magnitude_bits(&self) -> (m: u64)
        ensures
            m == self.magnitude(),
    {
        let b = self.bits;
        assert(b & 0x7fff_ffff_ffff_ffff == b % 0x8000_0000_0000_0000) by (bit_vector);
        b & 0x7fff_ffff_ffff_ffff
    }

    /// `f64 > f64` on the numbers these bits stand for.
    pub fn gt(&self, other: &FloatBits) -> (r: bool)
        ensures
            r == self.spec_gt(*other),
    {
        let a = self.bits;
        let b = other.bits;
        assert(a & 0x7fff_ffff_ffff_ffff == a % 0x8000_0000_0000_0000) by (bit_vector);
        assert(b & 0x7fff_ffff_ffff_ffff == b % 0x8000_0000_0000_0000) by (bit_vector);
        let ma = self.magnitude_bits();
        let mb = other.magnitude_bits();
        if ma > EXPONENT_MASK || mb > EXPONENT_MASK {
            return false;
        }
        let na = a >= SIGN_BIT;
        let nb = b >= SIGN_BIT;
        if !na && !nb {
            ma > mb
        } else if na && nb {
            ma < mb
        } else if !na && nb {
            // positive against negative: greater unless both are zeros
            ma > 0 || mb > 0
        } else {
            false
        }
    }

    /// `f64 == f64` on the numbers these bits stand for.
    pub fn float_eq(&self, other: &FloatBits) -> (r: bool)
        ensures
            r == self.spec_float_eq(*other),
    {
        let a = self.bits;
        let b = other.bits;
        assert(a & 0x7fff_ffff_ffff_ffff == a % 0x8000_0000_0000_0000) by (bit_vector);
        assert(b & 0x7fff_ffff_ffff_ffff == b % 0x8000_0000_0000_0000) by (bit_vector);
        let ma = self.magnitude_bits();
        let mb = other.magnitude_bits();
        if ma > EXPONENT_MASK || mb > EXPONENT_MASK {
            return false;
        }
        let na = a >= SIGN_BIT;
        let nb = b >= SIGN_BIT;
        if na == nb {
            ma == mb
        } else {
            ma == 0 && mb == 0
        }
    }
}

/// A JSON number as `serde_json` keeps it.
#[derive(Debug)]
pub enum JsonNumber {
    /// An integer `>= 0`.
    PosInt(u64),
    /// An integer `< 0`.
    NegInt(i64),
    /// Any other number.
    Float(FloatBits),
}

/// A JSON value. An object keeps its entries in the order of its keys, each
/// key once, as `serde_json`'s map does.
#[derive(Debug)]
pub enum JsonValue {
    Null,
    Bool(bool),
    Number(JsonNumber),
    String(String),
    Array(Vec<JsonValue>),
    Object(Vec<(String, JsonValue)>),
}

/// `serde_json`'s `==` on numbers: same form and same number.
pub open spec fn number_eq(a: JsonNumber, b: JsonNumber) -> bool {
    match (a, b) {
        (JsonNumber::PosInt(x), JsonNumber::PosInt(y)) => x == y,
        (JsonNumber::NegInt(x), JsonNumber::NegInt(y)) => x == y,
        (JsonNumber::Float(x), JsonNumber::Float(y)) => x.spec_float_eq(y),
        _ => false,
    }
}

/// `serde_json`'s `==` on values.
pub open spec fn json_eq(a: JsonValue, b: JsonValue) -> bool
    decreases a, 1nat,
{
    match a {
        JsonValue::Null => b is Null,
        JsonValue::Bool(x) => b matches JsonValue::Bool(y) && x == y,
        JsonValue::Number(x) => b matches JsonValue::Number(y) && number_eq(x, y),
        JsonValue::String(x) => b matches JsonValue::String(y) && x@ == y@,
        JsonValue::Array(xs) => b matches JsonValue::Array(ys) && elems_eq(xs@, ys@),
        JsonValue::Object(xs) => b matches JsonValue::Object(ys) && entries_eq(xs@, ys@),
    }
}

/// Element-wise `json_eq` of two arrays.
pub open spec fn elems_eq(xs: Seq<JsonValue>, ys: Seq<JsonValue>) -> bool
    decreases xs, 0nat,
{
    xs.len() == ys.len() && (xs.len() == 0 || json_eq(xs[0], ys[0]) && elems_eq(
            xs.subrange(1, xs.len() as int),
            ys.subrange(1, ys.len() as int),
        ))
}

/// Entry-wise comparison of two objects: same keys in the same order, `json_eq` values.
pub open spec fn entries_eq(xs: Seq<(String, JsonValue)>, ys: Seq<(String, JsonValue)>) -> bool
    decreases xs, 0nat,
{
    xs.len() == ys.len() && (xs.len() == 0 || xs[0].0@ == ys[0].0@ && json_eq(xs[0].1, ys[0].1) && entries_eq(
            xs.subrange(1, xs.len() as int),
            ys.subrange(1, ys.len() as int),
        ))
}

/// The object has an entry with this key.
pub open spec fn has_key(entries: Seq<(String, JsonValue)>, key: Seq<char>) -> bool {
    exists|i: int| 0 <= i < entries.len() && (#[trigger] entries[i]).0@ == key
}

impl JsonNumber {
    pub fn equals(&self, other: &JsonNumber) -> (r: bool)
        ensures
            r == number_eq(*self, *other),
    {
        match (self, other) {
            (JsonNumber::PosInt(x), JsonNumber::PosInt(y)) => *x == *y,
            (JsonNumber::NegInt(x), JsonNumber::NegInt(y)) => *x == *y,
            (JsonNumber::Float(x), JsonNumber::Float(y)) => x.float_eq(y),
            _ => false,
        }
    }
}

impl JsonValue {
    /// `Value::is_boolean`.
    pub fn is_boolean(&self) -> (r: bool)
        ensures
            r == (*self is Bool),
    {
        match self {
            JsonValue::Bool(_) => true,
            _ => false,
        }
    }

    /// `Value::is_number`.
    pub fn is_number(&self) -> (r: bool)
        ensures
            r == (*self is Number),
    {
        match self {
            JsonValue::Number(_) => true,
            _ => false,
        }
    }

    /// `Value::is_i64() || Value::is_u64()`: an integer number.
    pub fn is_integer(&self) -> (r: bool)
        ensures
            r == (*self matches JsonValue::Number(n) && !(n is Float)),
    {
        match self {
            JsonValue::Number(JsonNumber::PosInt(_)) => true,
            JsonValue::Number(JsonNumber::NegInt(_)) => true,
            _ => false,
        }
    }

    /// `serde_json`'s `==`.
    pub fn equals(&self, other: &JsonValue) -> (r: bool)
        ensures
            r == json_eq(*self, *other),
        decreases self,
    {
        match self {
            JsonValue::Null => match other {
                JsonValue::Null => true,
                _ => false,
            },
            JsonValue::Bool(x) => match other {
                JsonValue::Bool(y) => *x == *y,
                _ => false,
            },
            JsonValue::Number(x) => match other {
                JsonValue::Number(y) => x.equals(y),
                _ => false,
            },
            JsonValue::String(x) => match other {
                JsonValue::String(y) => *x == *y,
                _ => false,
            },
            JsonValue::Array(xs) => match other {
                JsonValue::Array(ys) => {
                    if xs.len() != ys.len() {
                        return false;
                    }
                    let n = xs.len();
                    let mut i: usize = 0;
                    assert(xs@.subrange(0, n as int) =~= xs@);
                    assert(ys@.subrange(0, n as int) =~= ys@);
                    while i < n
                        invariant
                            *self == JsonValue::Array(*xs),
                            *other == JsonValue::Array(*ys),
                            n == xs@.len() == ys@.len(),
                            i <= n,
                            elems_eq(xs@, ys@) == elems_eq(
                                xs@.subrange(i as int, n as int),
                                ys@.subrange(i as int, n as int),
                            ),
                        decreases n - i,
                    {
                        proof {
                            assert(decreases_to!(*self => self->Array_0@));
                            assert(decreases_to!(xs@ => xs@[i as int]));
                            assert(xs@.subrange(i as int, n as int).subrange(1, n - i) =~= xs@.subrange(i + 1, n as int));
                            assert(ys@.subrange(i as int, n as int).subrange(1, n - i) =~= ys@.subrange(i + 1, n as int));
                            assert(xs@.subrange(i as int, n as int)[0] == xs@[i as int]);
                            assert(ys@.subrange(i as int, n as int)[0] == ys@[i as int]);
                        }
                        if !xs[i].equals(&ys[i]) {
                            return false;
                        }
                        i = i + 1;
                    }
                    true
                },
                _ => false,
            },
            JsonValue::Object(xs) => match other {
                JsonValue::Object(ys) => {
                    if xs.len() != ys.len() {
                        return false;
                    }
                    let n = xs.len();
                    let mut i: usize = 0;
                    assert(xs@.subrange(0, n as int) =~= xs@);
                    assert(ys@.subrange(0, n as int) =~= ys@);
                    while i < n
                        invariant
                            *self == JsonValue::Object(*xs),
                            *other == JsonValue::Object(*ys),
                            n == xs@.len() == ys@.len(),
                            i <= n,
                            entries_eq(xs@, ys@) == entries_eq(
                                xs@.subrange(i as int, n as int),
                                ys@.subrange(i as int, n as int),
                            ),
                        decreases n - i,
                    {
                        proof {
                            assert(decreases_to!(*self => self->Object_0@));
                            assert(decreases_to!(xs@ => xs@[i as int]));
                            assert(decreases_to!(xs@[i as int] => xs@[i as int].1));
                            assert(xs@.subrange(i as int, n as int).subrange(1, n - i) =~= xs@.subrange(i + 1, n as int));
                            assert(ys@.subrange(i as int, n as int).subrange(1, n - i) =~= ys@.subrange(i + 1, n as int));
                            assert(xs@.subrange(i as int, n as int)[0] == xs@[i as int]);
                            assert(ys@.subrange(i as int, n as int)[0] == ys@[i as int]);
                        }
                        if !(xs[i].0 == ys[i].0) {
                            return false;
                        }
                        if !xs[i].1.equals(&ys[i].1) {
                            return false;
                        }
                        i = i + 1;
                    }
                    true
                },
                _ => false,
            },
        }
    }
}

/// Whether some entry of the object has this key (`Map::contains_key`).
pub fn entries_contain_key(entries: &Vec<(String, JsonValue)>, key: &str) -> (r: bool)
    ensures
        r == has_key(entries@, key@),
{
    let wanted = key.to_string();
    let mut i: usize = 0;
    while i < entries.len()
        invariant
            wanted@ == key@,
            i <= entries@.len(),
            forall|j: int| 0 <= j < i ==> (#[trigger] entries@[j]).0@ != key@,
        decreases entries@.len() - i,
    {
        if entries[i].0 == wanted {
            return true;
        }
        i = i + 1;
    }
    false
}

/// Whether some element of the array equals `target` (`<[Value]>::contains`).
pub fn array_contains(values: &Vec<JsonValue>, target: &JsonValue) -> (r: bool)
    ensures
        r == exists|i: int| 0 <= i < values@.len() && json_eq(#[trigger] values@[i], *target),
{
    let mut i: usize = 0;
    while i < values.len()
        invariant
            i <= values@.len(),
            forall|j: int| 0 <= j < i ==> !json_eq(#[trigger] values@[j], *target),
        decreases values@.len() - i,
    {
        if values[i].equals(target) {
            return true;
        }
        i = i + 1;
    }
    false
}

/// No float of the value is NaN (JSON has no NaN, so `serde_json` never holds one).
pub open spec fn nan_free(v: JsonValue) -> bool
    decreases v, 1nat,
{
    match v {
        JsonValue::Number(JsonNumber::Float(f)) => !f.is_nan(),
        JsonValue::Array(xs) => elems_nan_free(xs@),
        JsonValue::Object(xs) => entries_nan_free(xs@),
        _ => true,
    }
}

pub open spec fn elems_nan_free(xs: Seq<JsonValue>) -> bool
    decreases xs, 0nat,
{
    xs.len() == 0 || (nan_free(xs[0]) && elems_nan_free(xs.subrange(1, xs.len() as int)))
}

pub open spec fn entries_nan_free(xs: Seq<(String, JsonValue)>) -> bool
    decreases xs, 0nat,
{
    xs.len() == 0 || (nan_free(xs[0].1) && entries_nan_free(xs.subrange(1, xs.len() as int)))
}

/// Every JSON value equals itself; a target that is one of a tag's
/// allowed values therefore fits the tag.
pub proof fn law_json_eq_reflexive(v: JsonValue)
    requires
        nan_free(v),
    ensures
        json_eq(v, v),
    decreases v, 1nat,
{
    match v {
        JsonValue::Array(xs) => {
            assert(decreases_to!(v => v->Array_0@));
            lemma_elems_eq_reflexive(xs@);
        },
        JsonValue::Object(xs) => {
            assert(decreases_to!(v => v->Object_0@));
            lemma_entries_eq_reflexive(xs@);
        },
        _ => {},
    }
}

proof fn lemma_elems_eq_reflexive(xs: Seq<JsonValue>)
    requires
        elems_nan_free(xs),
    ensures
        elems_eq(xs, xs),
    decreases xs, 0nat,
{
    if xs.len() > 0 {
        law_json_eq_reflexive(xs[0]);
        lemma_elems_eq_reflexive(xs.subrange(1, xs.len() as int));
    }
}

proof fn lemma_entries_eq_reflexive(xs: Seq<(String, JsonValue)>)
    requires
        entries_nan_free(xs),
    ensures
        entries_eq(xs, xs),
    decreases xs, 0nat,
{
    if xs.len() > 0 {
        assert(decreases_to!(xs => xs[0]));
        assert(decreases_to!(xs[0] => xs[0].1));
        law_json_eq_reflexive(xs[0].1);
        lemma_entries_eq_reflexive(xs.subrange(1, xs.len() as int));
    }
}

} // verus!
