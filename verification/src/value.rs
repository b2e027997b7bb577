//! The values that operations take from the evaluator's stack and leave on it.
//!
//! The evaluator owns the array algebra. This module models only what the
//! operations read: the kind of the elements, the shape, and the flat buffer
//! in row-major order.

use crate::text::{chars_of, string_from_chars};
use vstd::prelude::*;
use vstd::string::*;

verus! {

/// The number of elements an array of the given shape holds: the product of
/// its dimensions, which is 1 for the empty shape.
pub open spec fn size_of(shape: Seq<usize>) -> nat
    decreases shape.len(),
{
    if shape.len() == 0 {
        1
    } else {
        size_of(shape.drop_last()) * (shape.last() as nat)
    }
}

/// A shape with a zero dimension holds no element.
pub proof fn lemma_size_of_zero(shape: Seq<usize>, i: int)
    requires
        0 <= i < shape.len(),
        shape[i] == 0,
    ensures
        size_of(shape) == 0,
    decreases shape.len(),
{
    if i < shape.len() - 1 {
        lemma_size_of_zero(shape.drop_last(), i);
        assert(size_of(shape.drop_last()) * (shape.last() as nat) == 0) by (nonlinear_arith)
            requires
                size_of(shape.drop_last()) == 0,
        ;
    } else {
        assert(size_of(shape.drop_last()) * (shape.last() as nat) == 0) by (nonlinear_arith)
            requires
                shape.last() == 0,
        ;
    }
}

/// Without a zero dimension, a prefix of a shape never holds more elements
/// than the whole shape, and it holds at least one.
pub proof fn lemma_size_of_prefix(shape: Seq<usize>, k: int)
    requires
        0 <= k <= shape.len(),
        forall|i: int| 0 <= i < shape.len() ==> shape[i] >= 1,
    ensures
        1 <= size_of(shape.take(k)) <= size_of(shape),
    decreases shape.len() - k,
{
    if k == shape.len() {
        assert(shape.take(k) == shape);
        lemma_size_of_positive(shape);
    } else {
        lemma_size_of_prefix(shape, k + 1);
        let longer = shape.take(k + 1);
        assert(longer.drop_last() == shape.take(k));
        assert(longer.last() == shape[k]);
        lemma_size_of_positive(shape.take(k));
        assert(size_of(shape.take(k)) <= size_of(shape.take(k)) * (shape[k] as nat))
            by (nonlinear_arith)
            requires
                shape[k] >= 1,
        ;
    }
}

/// Without a zero dimension a shape holds at least one element.
pub proof fn lemma_size_of_positive(shape: Seq<usize>)
    requires
        forall|i: int| 0 <= i < shape.len() ==> shape[i] >= 1,
    ensures
        size_of(shape) >= 1,
    decreases shape.len(),
{
    if shape.len() > 0 {
        lemma_size_of_positive(shape.drop_last());
        assert(size_of(shape.drop_last()) * (shape.last() as nat) >= 1) by (nonlinear_arith)
            requires
                size_of(shape.drop_last()) >= 1,
                shape.last() >= 1,
        ;
    }
}

/// The size of a shape of rank 1, 2 or 3, written out.
pub proof fn lemma_size_written_out(shape: Seq<usize>)
    requires
        1 <= shape.len() <= 3,
    ensures
        shape.len() == 1 ==> size_of(shape) == shape[0],
        shape.len() == 2 ==> size_of(shape) == shape[0] * shape[1],
        shape.len() == 3 ==> size_of(shape) == shape[0] * shape[1] * shape[2],
    decreases shape.len(),
{
    if shape.len() == 1 {
        assert(shape.drop_last() =~= Seq::<usize>::empty());
        assert(size_of(shape.drop_last()) == 1);
    } else {
        lemma_size_written_out(shape.drop_last());
    }
    assert(size_of(shape) == size_of(shape.drop_last()) * (shape.last() as nat));
}

/// Whether a shape holds exactly `len` elements.
pub fn shape_holds(shape: &Vec<usize>, len: usize) -> (holds: bool)
    ensures
        holds == (size_of(shape@) == len),
{
    let mut i: usize = 0;
    while i < shape.len()
        invariant
            i <= shape.len(),
            forall|j: int| 0 <= j < i ==> shape@[j] >= 1,
        decreases shape.len() - i,
    {
        if shape[i] == 0 {
            proof {
                lemma_size_of_zero(shape@, i as int);
            }
            return len == 0;
        }
        i = i + 1;
    }
    if len == 0 {
        proof {
            lemma_size_of_positive(shape@);
        }
        return false;
    }
    let mut count: usize = 1;
    let mut k: usize = 0;
    assert(shape@.take(0) =~= Seq::<usize>::empty());
    while k < shape.len()
        invariant
            k <= shape.len(),
            forall|j: int| 0 <= j < shape.len() ==> shape@[j] >= 1,
            count == size_of(shape@.take(k as int)),
            count <= len,
        decreases shape.len() - k,
    {
        assert((count as u128) * (shape@[k as int] as u128) <= u128::MAX) by (nonlinear_arith)
            requires
                count <= u64::MAX,
                shape@[k as int] <= u64::MAX,
        ;
        let wide: u128 = (count as u128) * (shape[k] as u128);
        proof {
            let longer = shape@.take(k + 1);
            assert(longer.drop_last() == shape@.take(k as int));
            assert(longer.last() == shape@[k as int]);
            assert(size_of(longer) == wide);
            lemma_size_of_prefix(shape@, k + 1);
        }
        if wide > len as u128 {
            return false;
        }
        count = wide as usize;
        k = k + 1;
    }
    assert(shape@.take(shape@.len() as int) == shape@);
    count == len
}

/// A byte-sized element that may be unset. An unset element counts as the
/// default that the reader gives.
#[derive(Clone, Copy, Debug, PartialEq, Eq)]
pub enum Byte {
    Value(u8),
    Unset,
}

impl Byte {
    /// The element's value, or `default` where it is unset.
    pub open spec fn or_value(self, default: u8) -> u8 {
        match self {
            Byte::Value(b) => b,
            Byte::Unset => default,
        }
    }

    /// The element's value, or `default` where it is unset.
    pub fn or(self, default: u8) -> (b: u8)
        ensures
            b == self.or_value(default),
    {
        match self {
            Byte::Value(b) => b,
            Byte::Unset => default,
        }
    }
}

/// The byte elements that hold the given bytes, none of them unset.
pub open spec fn set_bytes(bytes: Seq<u8>) -> Seq<Byte> {
    bytes.map_values(|b: u8| Byte::Value(b))
}

/// The byte elements that hold the given bytes, none of them unset.
pub fn bytes_to_items(bytes: &Vec<u8>) -> (items: Vec<Byte>)
    ensures
        items@ == set_bytes(bytes@),
{
    let mut items: Vec<Byte> = Vec::new();
    let mut i: usize = 0;
    while i < bytes.len()
        invariant
            i <= bytes.len(),
            items@ == set_bytes(bytes@.take(i as int)),
        decreases bytes.len() - i,
    {
        items.push(Byte::Value(bytes[i]));
        i = i + 1;
        assert(items@ =~= set_bytes(bytes@.take(i as int)));
    }
    assert(bytes@.take(bytes@.len() as int) == bytes@);
    items
}

/// A number of the evaluator, as the operations read it.
///
/// The evaluator computes with binary64 numbers. The operations never do
/// arithmetic on them: they carry a number through by its bit pattern, and
/// the media codecs pack one of its two quantised forms, which the evaluator
/// supplies with it.
#[derive(Clone, Copy, Debug, PartialEq, Eq)]
pub struct Num {
    /// The binary64 bit pattern of the number.
    pub bits: u64,
    /// The number as an 8-bit channel intensity: the floor of 255 times the
    /// number, cut to the range of a byte.
    pub level: u8,
    /// The binary32 bit pattern of the number as an audio sample.
    pub sample: u32,
}

/// A rectangular array: a shape and the elements in row-major order.
#[derive(Debug, PartialEq, Eq)]
pub struct Array<T> {
    shape: Vec<usize>,
    data: Vec<T>,
}

/// An array as mathematics sees it: the dimensions, outermost first, and
/// the elements in row-major order.
pub struct ArrayView<T> {
    pub dims: Seq<usize>,
    pub items: Seq<T>,
}

impl<T> View for Array<T> {
    type V = ArrayView<T>;

    open spec fn view(&self) -> ArrayView<T> {
        ArrayView { dims: self.dims(), items: self.items() }
    }
}

impl<T> Array<T> {
    #[verifier::type_invariant]
    spec fn holds_its_shape(self) -> bool {
        size_of(self.shape@) == self.data@.len()
    }

    /// The dimensions, outermost first.
    pub closed spec fn dims(self) -> Seq<usize> {
        self.shape@
    }

    /// The elements in row-major order.
    pub closed spec fn items(self) -> Seq<T> {
        self.data@
    }

    /// The buffer has exactly as many elements as the shape asks for. Every
    /// array that a constructor returned is well formed.
    pub open spec fn wf(self) -> bool {
        size_of(self.dims()) == self.items().len()
    }

    /// An array of the given shape over the given buffer, if the buffer has
    /// exactly as many elements as the shape asks for.
    pub fn new(shape: Vec<usize>, data: Vec<T>) -> (made: Option<Self>)
        ensures
            made is Some <==> size_of(shape@) == data@.len(),
            made matches Some(a) ==> a.dims() == shape@ && a.items() == data@ && a.wf(),
    {
        if shape_holds(&shape, data.len()) {
            Some(Array { shape, data })
        } else {
            None
        }
    }

    /// The array of rank 0 that holds one element.
    pub fn scalar(item: T) -> (a: Self)
        ensures
            a.dims() == Seq::<usize>::empty(),
            a.items() == seq![item],
            a.wf(),
    {
        let shape: Vec<usize> = Vec::new();
        let mut data: Vec<T> = Vec::new();
        data.push(item);
        Array { shape, data }
    }

    /// The array of rank 1 that holds the given elements.
    pub fn list(data: Vec<T>) -> (a: Self)
        ensures
            a.dims() == seq![data@.len() as usize],
            a.items() == data@,
            a.wf(),
    {
        let mut shape: Vec<usize> = Vec::new();
        shape.push(data.len());
        proof {
            assert(shape@.drop_last() =~= Seq::<usize>::empty());
            assert(size_of(shape@.drop_last()) == 1);
            assert(shape@.last() == data@.len());
            assert(size_of(shape@) == size_of(shape@.drop_last()) * (shape@.last() as nat));
        }
        Array { shape, data }
    }

    /// The number of dimensions.
    pub fn rank(&self) -> (r: usize)
        ensures
            r == self.dims().len(),
    {
        self.shape.len()
    }

    /// The dimensions, outermost first.
    pub fn shape(&self) -> (s: &Vec<usize>)
        ensures
            s@ == self.dims(),
            self.wf(),
    {
        proof {
            use_type_invariant(self);
        }
        &self.shape
    }

    /// The elements in row-major order.
    pub fn data(&self) -> (d: &Vec<T>)
        ensures
            d@ == self.items(),
            self.wf(),
    {
        proof {
            use_type_invariant(self);
        }
        &self.data
    }

    /// Gives up the array for its elements.
    pub fn into_data(self) -> (d: Vec<T>)
        ensures
            d@ == self.items(),
            self.wf(),
    {
        proof {
            use_type_invariant(&self);
        }
        self.data
    }
}

/// A value of the evaluator.
#[derive(Debug, PartialEq, Eq)]
pub enum Value {
    /// An array of numbers.
    Num(Array<Num>),
    /// An array of bytes that may be unset.
    Byte(Array<Byte>),
    /// An array of characters. A string is such an array of rank 1.
    Char(Array<char>),
    /// A list of strings of any lengths, which counts as an array of
    /// characters of rank 2.
    Lines(Vec<String>),
}

/// A value as mathematics sees it.
pub enum ValueView {
    Num(ArrayView<Num>),
    Byte(ArrayView<Byte>),
    Char(ArrayView<char>),
    Lines(Seq<Seq<char>>),
}

impl View for Value {
    type V = ValueView;

    open spec fn view(&self) -> ValueView {
        match self {
            Value::Num(a) => ValueView::Num(a@),
            Value::Byte(a) => ValueView::Byte(a@),
            Value::Char(a) => ValueView::Char(a@),
            Value::Lines(lines) => ValueView::Lines(lines@.map_values(|s: String| s@)),
        }
    }
}

/// The string that holds the given text.
pub open spec fn text_value(text: Seq<char>) -> ValueView {
    ValueView::Char(ArrayView { dims: seq![text.len() as usize], items: text })
}

/// The byte string that holds the given bytes, none of them unset.
pub open spec fn bytes_value(bytes: Seq<u8>) -> ValueView {
    ValueView::Byte(ArrayView { dims: seq![bytes.len() as usize], items: set_bytes(bytes) })
}

/// The scalar byte 1 for `true` and 0 for `false`.
pub open spec fn flag_value(flag: bool) -> ValueView {
    ValueView::Byte(
        ArrayView { dims: Seq::empty(), items: seq![Byte::Value(if flag { 1u8 } else { 0u8 })] },
    )
}

/// The scalar that holds one number.
pub open spec fn number_value(n: Num) -> ValueView {
    ValueView::Num(ArrayView { dims: Seq::empty(), items: seq![n] })
}

impl Value {
    /// Every array in the value is well formed.
    pub open spec fn wf(self) -> bool {
        match self {
            Value::Num(a) => a.wf(),
            Value::Byte(a) => a.wf(),
            Value::Char(a) => a.wf(),
            Value::Lines(_) => true,
        }
    }

    /// The number of dimensions.
    pub open spec fn rank_of(self) -> nat {
        match self {
            Value::Num(a) => a.dims().len(),
            Value::Byte(a) => a.dims().len(),
            Value::Char(a) => a.dims().len(),
            Value::Lines(_) => 2,
        }
    }

    /// The number of dimensions.
    pub fn rank(&self) -> (r: usize)
        ensures
            r == self.rank_of(),
    {
        match self {
            Value::Num(a) => a.rank(),
            Value::Byte(a) => a.rank(),
            Value::Char(a) => a.rank(),
            Value::Lines(_) => 2,
        }
    }

    /// The text of a value that is a string: an array of characters of rank
    /// at most 1.
    pub open spec fn text(self) -> Option<Seq<char>> {
        match self {
            Value::Char(a) => if a.dims().len() <= 1 {
                Some(a.items())
            } else {
                None
            },
            _ => None,
        }
    }

    /// The bytes of a value that is a byte string: an array of bytes of rank
    /// at most 1, in which an unset element counts as 0.
    pub open spec fn bytes(self) -> Option<Seq<u8>> {
        match self {
            Value::Byte(a) => if a.dims().len() <= 1 {
                Some(a.items().map_values(|b: Byte| b.or_value(0)))
            } else {
                None
            },
            _ => None,
        }
    }

    /// The string that holds the given text.
    pub fn from_string(s: &str) -> (v: Self)
        ensures
            v@ == text_value(s@),
            v.text() == Some(s@),
            v.wf(),
    {
        Value::Char(Array::list(chars_of(s)))
    }

    /// The byte string that holds the given bytes, none of them unset.
    pub fn from_bytes(bytes: &Vec<u8>) -> (v: Self)
        ensures
            v@ == bytes_value(bytes@),
            v.bytes() == Some(bytes@),
            v.wf(),
    {
        let v = Value::Byte(Array::list(bytes_to_items(bytes)));
        assert(v.bytes()->0 =~= bytes@);
        v
    }

    /// The scalar byte 1 for `true` and 0 for `false`.
    pub fn from_bool(b: bool) -> (v: Self)
        ensures
            v@ == flag_value(b),
            v.wf(),
    {
        Value::Byte(Array::scalar(Byte::Value(if b { 1 } else { 0 })))
    }

    /// The scalar that holds one number.
    pub fn from_num(n: Num) -> (v: Self)
        ensures
            v@ == number_value(n),
            v.wf(),
    {
        Value::Num(Array::scalar(n))
    }

    /// The list of the given strings.
    pub fn from_lines(lines: Vec<String>) -> (v: Self)
        ensures
            v@ == ValueView::Lines(lines@.map_values(|s: String| s@)),
            v.wf(),
    {
        Value::Lines(lines)
    }

    /// The text of a string, or `requirement` as the error for any other
    /// value.
    pub fn as_string(&self, requirement: &str) -> (r: Result<String, String>)
        ensures
            match self.text() {
                Some(t) => r matches Ok(s) && s@ == t,
                None => r matches Err(e) && e@ == requirement@,
            },
    {
        match self {
            Value::Char(a) => {
                if a.rank() <= 1 {
                    Ok(string_from_chars(a.data()))
                } else {
                    Err(String::from_str(requirement))
                }
            },
            _ => Err(String::from_str(requirement)),
        }
    }

    /// The bytes of a byte string, or `requirement` as the error for any
    /// other value.
    pub fn as_bytes(&self, requirement: &str) -> (r: Result<Vec<u8>, String>)
        ensures
            match self.bytes() {
                Some(b) => r matches Ok(v) && v@ == b,
                None => r matches Err(e) && e@ == requirement@,
            },
    {
        match self {
            Value::Byte(a) => {
                if a.rank() <= 1 {
                    let items = a.data();
                    let mut out: Vec<u8> = Vec::new();
                    let mut i: usize = 0;
                    while i < items.len()
                        invariant
                            i <= items.len(),
                            out@ == items@.take(i as int).map_values(|b: Byte| b.or_value(0)),
                        decreases items.len() - i,
                    {
                        out.push(items[i].or(0));
                        i = i + 1;
                        assert(out@ =~= items@.take(i as int).map_values(
                            |b: Byte| b.or_value(0),
                        ));
                    }
                    assert(items@.take(items@.len() as int) == items@);
                    Ok(out)
                } else {
                    Err(String::from_str(requirement))
                }
            },
            _ => Err(String::from_str(requirement)),
        }
    }
}

} // verus!
