//! The values that a program computes with, and what its operators do to them.

use vstd::prelude::*;

verus! {

/// A value at run time.
///
/// A real is held as the bit pattern of an IEEE 754 double. A dictionary keeps its entries in
/// the order in which their keys first came; no operator lets a program see that order. An
/// object is a handle: two values with the same handle are the same instance.
#[derive(Debug, PartialEq)]
pub enum TValue {
    Null,
    Boolean(bool),
    Number(i32),
    Real(u64),
    String(String),
    Array(Vec<TValue>),
    Dictionary(Vec<(String, TValue)>),
    Object(usize),
}

/// The mathematical model of a [`TValue`].
pub enum Value {
    Null,
    Boolean(bool),
    Number(i32),
    Real(u64),
    String(Seq<char>),
    Array(Seq<Value>),
    Dictionary(Seq<(Seq<char>, Value)>),
    Object(nat),
}

/// How two values stand to each other under `<`.
#[derive(Debug, PartialEq, Eq, Clone, Copy)]
pub enum Comparison {
    Less,
    Equal,
    Greater,
    /// Both are of one shape, yet neither is below, equal to or above the other (a real that
    /// is not a number is involved).
    Unordered,
    /// The values are of shapes that cannot be set against each other.
    Incomparable,
}

/// The model of a value: texts become sequences of characters, arrays and dictionaries
/// sequences of models.
pub open spec fn model(value: TValue) -> Value
    decreases value,
{
    match value {
        TValue::Null => Value::Null,
        TValue::Boolean(b) => Value::Boolean(b),
        TValue::Number(n) => Value::Number(n),
        TValue::Real(bits) => Value::Real(bits),
        TValue::String(s) => Value::String(s@),
        TValue::Array(items) => Value::Array(
            Seq::new(
                items@.len(),
                |i: int|
                    if 0 <= i < items@.len() {
                        model(items@[i])
                    } else {
                        Value::Null
                    },
            ),
        ),
        TValue::Dictionary(entries) => Value::Dictionary(
            Seq::new(
                entries@.len(),
                |i: int|
                    if 0 <= i < entries@.len() {
                        (entries@[i].0@, model(entries@[i].1))
                    } else {
                        (Seq::empty(), Value::Null)
                    },
            ),
        ),
        TValue::Object(handle) => Value::Object(handle as nat),
    }
}

impl View for TValue {
    type V = Value;

    open spec fn view(&self) -> Value {
        model(*self)
    }
}

/// The models of a sequence of values, one by one.
pub open spec fn values_view(items: Seq<TValue>) -> Seq<Value> {
    Seq::new(items.len(), |i: int| items[i]@)
}

/// The models of the entries of a dictionary, one by one.
pub open spec fn entries_view(entries: Seq<(String, TValue)>) -> Seq<(Seq<char>, Value)> {
    Seq::new(entries.len(), |i: int| (entries[i].0@, entries[i].1@))
}

pub proof fn lemma_array_view(items: Vec<TValue>)
    ensures
        TValue::Array(items)@ == Value::Array(values_view(items@)),
{
    reveal_with_fuel(model, 2);
    assert(TValue::Array(items)@->Array_0 =~= values_view(items@));
}

pub proof fn lemma_dictionary_view(entries: Vec<(String, TValue)>)
    ensures
        TValue::Dictionary(entries)@ == Value::Dictionary(entries_view(entries@)),
{
    reveal_with_fuel(model, 2);
    assert(TValue::Dictionary(entries)@->Dictionary_0 =~= entries_view(entries@));
}

/// The bit that holds the sign of a real.
pub const SIGN_BIT: u64 = 0x8000_0000_0000_0000u64;

/// The bits of positive infinity: every magnitude above it is not a number.
pub const INFINITY_BITS: u64 = 0x7FF0_0000_0000_0000u64;

/// The bits of a real without its sign.
pub open spec fn real_magnitude(bits: u64) -> int {
    if bits >= SIGN_BIT {
        bits - SIGN_BIT
    } else {
        bits as int
    }
}

/// Whether the bits stand for no number at all.
pub open spec fn real_is_nan(bits: u64) -> bool {
    real_magnitude(bits) > INFINITY_BITS
}

/// An integer that orders the reals which are numbers as the reals themselves are ordered.
/// Both zeros have the key 0.
pub open spec fn real_key(bits: u64) -> int {
    if bits >= SIGN_BIT {
        -real_magnitude(bits)
    } else {
        real_magnitude(bits)
    }
}

/// How two reals compare, as IEEE 754 has it.
pub open spec fn real_comparison(a: u64, b: u64) -> Comparison {
    if real_is_nan(a) || real_is_nan(b) {
        Comparison::Unordered
    } else if real_key(a) < real_key(b) {
        Comparison::Less
    } else if real_key(a) > real_key(b) {
        Comparison::Greater
    } else {
        Comparison::Equal
    }
}

/// The position of the first entry with the given key.
pub open spec fn entry_index<T>(entries: Seq<(Seq<char>, T)>, key: Seq<char>) -> Option<int>
    decreases entries.len(),
{
    if entries.len() == 0 {
        None
    } else if entries[0].0 == key {
        Some(0)
    } else {
        match entry_index(entries.drop_first(), key) {
            Some(i) => Some(i + 1),
            None => None,
        }
    }
}

pub proof fn lemma_entry_index<T>(entries: Seq<(Seq<char>, T)>, key: Seq<char>)
    ensures
        match entry_index(entries, key) {
            Some(i) => 0 <= i < entries.len() && entries[i].0 == key && forall|j: int|
                0 <= j < i ==> entries[j].0 != key,
            None => forall|j: int| 0 <= j < entries.len() ==> entries[j].0 != key,
        },
    decreases entries.len(),
{
    if entries.len() > 0 && entries[0].0 != key {
        let rest = entries.drop_first();
        lemma_entry_index(rest, key);
        match entry_index(rest, key) {
            Some(i) => {
                assert forall|j: int| 0 <= j < i + 1 implies entries[j].0 != key by {
                    if j > 0 {
                        assert(entries[j] == rest[j - 1]);
                    }
                }
            },
            None => {
                assert forall|j: int| 0 <= j < entries.len() implies entries[j].0 != key by {
                    if j > 0 {
                        assert(entries[j] == rest[j - 1]);
                    }
                }
            },
        }
    }
}

impl Value {
    /// Equality as the operator `Eq` has it: defined for every pair, false for two values of
    /// different shapes. Arrays are equal item by item; dictionaries when they have as many
    /// entries and each key of the left one leads to an equal value in the right one.
    pub open spec fn same(self, other: Value) -> bool
        decreases self,
    {
        match (self, other) {
            (Value::Null, Value::Null) => true,
            (Value::Boolean(a), Value::Boolean(b)) => a == b,
            (Value::Number(a), Value::Number(b)) => a == b,
            (Value::Real(a), Value::Real(b)) => real_comparison(a, b) == Comparison::Equal,
            (Value::String(a), Value::String(b)) => a == b,
            (Value::Array(a), Value::Array(b)) => a.len() == b.len() && forall|i: int|
                0 <= i < a.len() ==> (#[trigger] a[i]).same(b[i]),
            (Value::Dictionary(a), Value::Dictionary(b)) => a.len() == b.len() && forall|i: int|
                0 <= i < a.len() ==> match entry_index(b, (#[trigger] a[i]).0) {
                    Some(j) => a[i].1.same(b[j].1),
                    None => false,
                },
            (Value::Object(a), Value::Object(b)) => a == b,
            _ => false,
        }
    }

    /// How `self` stands to `other` under `<`.
    ///
    /// Two nulls are equal, false is below true, numbers and reals go by their size and texts
    /// by their characters. Arrays go by the first pair of items that is not equal and, where
    /// there is none, by their lengths. Dictionaries, objects and values of different shapes
    /// cannot be compared.
    pub open spec fn compare(self, other: Value) -> Comparison
        decreases self, 0nat,
    {
        match (self, other) {
            (Value::Null, Value::Null) => Comparison::Equal,
            (Value::Boolean(a), Value::Boolean(b)) => if a == b {
                Comparison::Equal
            } else if b {
                Comparison::Less
            } else {
                Comparison::Greater
            },
            (Value::Number(a), Value::Number(b)) => if a < b {
                Comparison::Less
            } else if a > b {
                Comparison::Greater
            } else {
                Comparison::Equal
            },
            (Value::Real(a), Value::Real(b)) => real_comparison(a, b),
            (Value::String(a), Value::String(b)) => compare_texts(a, b, 0),
            (Value::Array(a), Value::Array(b)) => compare_items(a, b, 0),
            _ => Comparison::Incomparable,
        }
    }
}

/// How two texts compare from position `from` on, given that they agree before it.
pub open spec fn compare_texts(a: Seq<char>, b: Seq<char>, from: int) -> Comparison
    decreases a.len() - from,
{
    if from < 0 {
        Comparison::Incomparable
    } else if from >= a.len() {
        if from >= b.len() {
            Comparison::Equal
        } else {
            Comparison::Less
        }
    } else if from >= b.len() {
        Comparison::Greater
    } else if (a[from] as u32) < (b[from] as u32) {
        Comparison::Less
    } else if (a[from] as u32) > (b[from] as u32) {
        Comparison::Greater
    } else {
        compare_texts(a, b, from + 1)
    }
}

/// How two arrays compare from position `from` on, given that their items are equal before it.
pub open spec fn compare_items(a: Seq<Value>, b: Seq<Value>, from: int) -> Comparison
    decreases a, a.len() - from,
{
    if from < 0 {
        Comparison::Incomparable
    } else if from >= a.len() {
        if from >= b.len() {
            Comparison::Equal
        } else {
            Comparison::Less
        }
    } else if from >= b.len() {
        Comparison::Greater
    } else {
        match a[from].compare(b[from]) {
            Comparison::Equal => compare_items(a, b, from + 1),
            decided => decided,
        }
    }
}

} // verus!

verus! {

/// Sets two reals, given by their bits, against each other.
pub fn compare_reals(a: u64, b: u64) -> (r: Comparison)
    ensures
        r == real_comparison(a, b),
{
    let magnitude_a: u64 = if a >= SIGN_BIT { a - SIGN_BIT } else { a };
    let magnitude_b: u64 = if b >= SIGN_BIT { b - SIGN_BIT } else { b };
    if magnitude_a > INFINITY_BITS || magnitude_b > INFINITY_BITS {
        return Comparison::Unordered;
    }
    let key_a: i128 = if a >= SIGN_BIT { -(magnitude_a as i128) } else { magnitude_a as i128 };
    let key_b: i128 = if b >= SIGN_BIT { -(magnitude_b as i128) } else { magnitude_b as i128 };
    if key_a < key_b {
        Comparison::Less
    } else if key_a > key_b {
        Comparison::Greater
    } else {
        Comparison::Equal
    }
}

/// Sets two texts against each other, character by character.
pub fn compare_strings(a: &String, b: &String) -> (r: Comparison)
    ensures
        r == compare_texts(a@, b@, 0),
{
    let left = a.as_str();
    let right = b.as_str();
    let left_len = left.unicode_len();
    let right_len = right.unicode_len();
    let mut i: usize = 0;
    while i < left_len && i < right_len
        invariant
            left@ == a@,
            right@ == b@,
            left_len == a@.len(),
            right_len == b@.len(),
            i <= left_len,
            i <= right_len,
            compare_texts(a@, b@, 0) == compare_texts(a@, b@, i as int),
        decreases left_len - i,
    {
        let x = left.get_char(i) as u32;
        let y = right.get_char(i) as u32;
        if x < y {
            return Comparison::Less;
        }
        if x > y {
            return Comparison::Greater;
        }
        i += 1;
    }
    if i < right_len {
        Comparison::Less
    } else if i < left_len {
        Comparison::Greater
    } else {
        Comparison::Equal
    }
}

/// The position of the first entry of a dictionary with the given key.
pub fn find_entry(entries: &Vec<(String, TValue)>, key: &String) -> (r: Option<usize>)
    ensures
        match r {
            Some(i) => entry_index(entries_view(entries@), key@) == Some(i as int),
            None => entry_index(entries_view(entries@), key@) is None,
        },
{
    let mut i: usize = 0;
    while i < entries.len()
        invariant
            i <= entries.len(),
            forall|j: int| 0 <= j < i ==> entries_view(entries@)[j].0 != key@,
        decreases entries.len() - i,
    {
        if entries[i].0 == *key {
            proof {
                lemma_entry_index(entries_view(entries@), key@);
                assert(entries_view(entries@)[i as int].0 == key@);
            }
            return Some(i);
        }
        i += 1;
    }
    proof {
        lemma_entry_index(entries_view(entries@), key@);
    }
    None
}

impl Clone for TValue {
    fn clone(&self) -> (r: Self)
        ensures
            r@ == self@,
        decreases self,
    {
        match self {
            TValue::Null => TValue::Null,
            TValue::Boolean(b) => TValue::Boolean(*b),
            TValue::Number(n) => TValue::Number(*n),
            TValue::Real(bits) => TValue::Real(*bits),
            TValue::String(s) => TValue::String(s.clone()),
            TValue::Array(items) => {
                let mut copy: Vec<TValue> = Vec::new();
                let mut i: usize = 0;
                while i < items.len()
                    invariant
                        i <= items.len(),
                        copy@.len() == i,
                        *self == TValue::Array(*items),
                        forall|j: int| 0 <= j < i ==> copy@[j]@ == items@[j]@,
                    decreases items.len() - i,
                {
                    assert(decreases_to!(items => items[i as int]));
                    assert(self->Array_0 == *items);
                    copy.push(items[i].clone());
                    i += 1;
                }
                proof {
                    lemma_array_view(copy);
                    lemma_array_view(*items);
                    assert(values_view(copy@) =~= values_view(items@));
                }
                TValue::Array(copy)
            },
            TValue::Dictionary(entries) => {
                let mut copy: Vec<(String, TValue)> = Vec::new();
                let mut i: usize = 0;
                while i < entries.len()
                    invariant
                        i <= entries.len(),
                        copy@.len() == i,
                        *self == TValue::Dictionary(*entries),
                        forall|j: int|
                            0 <= j < i ==> copy@[j].0@ == entries@[j].0@ && copy@[j].1@
                                == entries@[j].1@,
                    decreases entries.len() - i,
                {
                    assert(decreases_to!(entries => entries[i as int]));
                    assert(self->Dictionary_0 == *entries);
                    copy.push((entries[i].0.clone(), entries[i].1.clone()));
                    i += 1;
                }
                proof {
                    lemma_dictionary_view(copy);
                    lemma_dictionary_view(*entries);
                    assert(entries_view(copy@) =~= entries_view(entries@));
                }
                TValue::Dictionary(copy)
            },
            TValue::Object(handle) => TValue::Object(*handle),
        }
    }
}

impl TValue {
    /// Whether two values are equal, as the operator `Eq` has it.
    #[verifier::loop_isolation(false)]
    pub fn same(&self, other: &TValue) -> (r: bool)
        ensures
            r == self@.same(other@),
        decreases self,
    {
        match (self, other) {
            (TValue::Null, TValue::Null) => true,
            (TValue::Boolean(a), TValue::Boolean(b)) => *a == *b,
            (TValue::Number(a), TValue::Number(b)) => *a == *b,
            (TValue::Real(a), TValue::Real(b)) => matches!(compare_reals(*a, *b), Comparison::Equal),
            (TValue::String(a), TValue::String(b)) => *a == *b,
            (TValue::Array(a), TValue::Array(b)) => {
                proof {
                    lemma_array_view(*a);
                    lemma_array_view(*b);
                }
                if a.len() != b.len() {
                    return false;
                }
                let mut i: usize = 0;
                while i < a.len()
                    invariant
                        i <= a.len(),
                        a.len() == b.len(),
                        *self == TValue::Array(*a),
                        forall|j: int| 0 <= j < i ==> (#[trigger] values_view(a@)[j]).same(values_view(b@)[j]),
                    decreases a.len() - i,
                {
                    assert(decreases_to!(a => a[i as int]));
                    assert(self->Array_0 == *a);
                    if !a[i].same(&b[i]) {
                        assert(!values_view(a@)[i as int].same(values_view(b@)[i as int]));
                        return false;
                    }
                    i += 1;
                }
                true
            },
            (TValue::Dictionary(a), TValue::Dictionary(b)) => {
                proof {
                    lemma_dictionary_view(*a);
                    lemma_dictionary_view(*b);
                }
                if a.len() != b.len() {
                    return false;
                }
                let mut i: usize = 0;
                while i < a.len()
                    invariant
                        i <= a.len(),
                        a.len() == b.len(),
                        *self == TValue::Dictionary(*a),
                        forall|j: int|
                            0 <= j < i ==> match entry_index(
                                entries_view(b@),
                                (#[trigger] entries_view(a@)[j]).0,
                            ) {
                                Some(k) => entries_view(a@)[j].1.same(entries_view(b@)[k].1),
                                None => false,
                            },
                    decreases a.len() - i,
                {
                    assert(decreases_to!(a => a[i as int]));
                    assert(self->Dictionary_0 == *a);
                    let found = find_entry(b, &a[i].0);
                    proof {
                        lemma_entry_index(entries_view(b@), a@[i as int].0@);
                    }
                    let agree = match found {
                        Some(k) => a[i].1.same(&b[k].1),
                        None => false,
                    };
                    if !agree {
                        assert(entries_view(a@)[i as int].0 == a@[i as int].0@);
                        return false;
                    }
                    proof {
                        lemma_entry_index(entries_view(b@), a@[i as int].0@);
                    }
                    i += 1;
                }
                true
            },
            (TValue::Object(a), TValue::Object(b)) => *a == *b,
            _ => false,
        }
    }

    /// Sets `self` against `other` under `<`.
    #[verifier::loop_isolation(false)]
    pub fn compare(&self, other: &TValue) -> (r: Comparison)
        ensures
            r == self@.compare(other@),
        decreases self,
    {
        match (self, other) {
            (TValue::Null, TValue::Null) => Comparison::Equal,
            (TValue::Boolean(a), TValue::Boolean(b)) => if *a == *b {
                Comparison::Equal
            } else if *b {
                Comparison::Less
            } else {
                Comparison::Greater
            },
            (TValue::Number(a), TValue::Number(b)) => if *a < *b {
                Comparison::Less
            } else if *a > *b {
                Comparison::Greater
            } else {
                Comparison::Equal
            },
            (TValue::Real(a), TValue::Real(b)) => compare_reals(*a, *b),
            (TValue::String(a), TValue::String(b)) => compare_strings(a, b),
            (TValue::Array(a), TValue::Array(b)) => {
                proof {
                    lemma_array_view(*a);
                    lemma_array_view(*b);
                }
                let mut i: usize = 0;
                while i < a.len() && i < b.len()
                    invariant
                        i <= a.len(),
                        i <= b.len(),
                        *self == TValue::Array(*a),
                        compare_items(values_view(a@), values_view(b@), 0) == compare_items(
                            values_view(a@),
                            values_view(b@),
                            i as int,
                        ),
                    decreases a.len() - i,
                {
                    assert(decreases_to!(a => a[i as int]));
                    assert(self->Array_0 == *a);
                    let decided = a[i].compare(&b[i]);
                    match decided {
                        Comparison::Equal => {},
                        _ => {
                            return decided;
                        },
                    }
                    i += 1;
                }
                if i < b.len() {
                    Comparison::Less
                } else if i < a.len() {
                    Comparison::Greater
                } else {
                    Comparison::Equal
                }
            },
            _ => Comparison::Incomparable,
        }
    }
}

} // verus!
