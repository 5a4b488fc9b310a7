//! Deserializers that read their input and leave it to a visitor to build
//! the value: the input decides how the numbers are found, the visitor what
//! is made of them.

use vstd::prelude::*;
use vstd::string::*;
use crate::text::is_digit;

verus! {

/// Whether `c` separates words: a space, a tab, a line feed, a form feed or
/// a carriage return.
pub open spec fn is_space(c: char) -> bool {
    c == ' ' || c == '\t' || c == '\n' || c == '\x0C' || c == '\r'
}

/// The words of `s`: its longest runs of characters that are not separators,
/// in order.
pub open spec fn words(s: Seq<char>) -> Seq<Seq<char>>
    decreases s.len(),
{
    if s.len() == 0 {
        Seq::empty()
    } else {
        let before = words(s.drop_last());
        if is_space(s.last()) {
            before
        } else if s.len() >= 2 && !is_space(s[s.len() - 2]) {
            before.drop_last().push(before.last().push(s.last()))
        } else {
            before.push(seq![s.last()])
        }
    }
}

/// The number that the digits of `s` write in decimal.
pub open spec fn digits_value(s: Seq<char>) -> nat
    decreases s.len(),
{
    if s.len() == 0 {
        0
    } else {
        (digits_value(s.drop_last()) * 10 + (s.last() as int - '0' as int)) as nat
    }
}

/// Whether `s` is one or more digits and nothing else.
pub open spec fn all_digits(s: Seq<char>) -> bool {
    s.len() >= 1 && forall|i: int| 0 <= i < s.len() ==> is_digit(#[trigger] s[i])
}

/// The digits of `word`: all of it but a leading sign.
pub open spec fn magnitude(word: Seq<char>) -> Seq<char> {
    if word.len() > 0 && (word[0] == '-' || word[0] == '+') {
        word.skip(1)
    } else {
        word
    }
}

/// The 32-bit signed integer that `word` writes, if it writes one: an
/// optional sign, then one or more digits, with a value that fits.
pub open spec fn number_of(word: Seq<char>) -> Option<i32> {
    let value = if word.len() > 0 && word[0] == '-' {
        -(digits_value(magnitude(word)) as int)
    } else {
        digits_value(magnitude(word)) as int
    };
    if all_digits(magnitude(word)) && i32::MIN <= value <= i32::MAX {
        Some(value as i32)
    } else {
        None
    }
}

/// The numbers that the words of `s` write, in order, if every word writes
/// one.
pub open spec fn numbers_of(s: Seq<char>) -> Option<Seq<i32>> {
    let ws = words(s);
    if forall|i: int| 0 <= i < ws.len() ==> (#[trigger] number_of(ws[i])) is Some {
        Some(Seq::new(ws.len(), |i: int| number_of(ws[i])->0))
    } else {
        None
    }
}

/// The characters of `s`, one by one.
fn chars_of(s: &str) -> (v: Vec<char>)
    ensures
        v@ == s@,
{
    let mut v: Vec<char> = Vec::new();
    for c in it: s.chars()
        invariant
            v@ == it.seq().take(it.index()),
            it.seq() == s@,
    {
        v.push(c);
    }
    v
}

fn space(c: char) -> (b: bool)
    ensures
        b == is_space(c),
{
    c == ' ' || c == '\t' || c == '\n' || c == '\x0C' || c == '\r'
}

/// Splits `s` into its words.
pub fn split_words(s: &str) -> (out: Vec<Vec<char>>)
    ensures
        out@.len() == words(s@).len(),
        forall|i: int| 0 <= i < out@.len() ==> (#[trigger] out@[i])@ == words(s@)[i],
{
    let chars = chars_of(s);
    let mut out: Vec<Vec<char>> = Vec::new();
    let mut word: Vec<char> = Vec::new();
    let mut i: usize = 0;
    while i < chars.len()
        invariant
            i <= chars@.len(),
            chars@ == s@,
            word@.len() > 0 <==> (i > 0 && !is_space(chars@[i - 1])),
            word@.len() > 0 ==> words(chars@.take(i as int)).len() == out@.len() + 1 && words(
                chars@.take(i as int),
            ).last() == word@,
            word@.len() == 0 ==> words(chars@.take(i as int)).len() == out@.len(),
            forall|j: int| 0 <= j < out@.len() ==> (#[trigger] out@[j])@ == words(chars@.take(i as int))[j],
        decreases chars@.len() - i,
    {
        let c = chars[i];
        proof {
            let upto = chars@.take(i + 1);
            assert(upto.drop_last() =~= chars@.take(i as int));
            assert(upto.last() == c);
            if i > 0 {
                assert(upto[upto.len() - 2] == chars@[i - 1]);
            }
        }
        if space(c) {
            if word.len() > 0 {
                out.push(word);
                word = Vec::new();
            }
        } else {
            word.push(c);
        }
        i += 1;
    }
    proof {
        assert(chars@.take(i as int) =~= chars@);
    }
    if word.len() > 0 {
        out.push(word);
    }
    out
}

/// A longer run of digits never writes a smaller number.
proof fn lemma_digits_value_grows(s: Seq<char>, k: int)
    requires
        0 <= k <= s.len(),
        forall|i: int| 0 <= i < s.len() ==> is_digit(#[trigger] s[i]),
    ensures
        digits_value(s.take(k)) <= digits_value(s),
    decreases s.len() - k,
{
    if k < s.len() {
        let next = s.take(k + 1);
        assert(next.drop_last() =~= s.take(k));
        assert(is_digit(s[k]) && next.last() == s[k]);
        lemma_digits_value_grows(s, k + 1);
    } else {
        assert(s.take(k) =~= s);
    }
}

/// Reads `word` as a 32-bit signed integer in decimal.
pub fn parse_i32(word: &Vec<char>) -> (r: Option<i32>)
    ensures
        r == number_of(word@),
{
    let n = word.len();
    let negative = n > 0 && word[0] == '-';
    let start: usize = if n > 0 && (word[0] == '-' || word[0] == '+') { 1 } else { 0 };
    let ghost digits = magnitude(word@);
    if start == n {
        return None;
    }
    let mut value: i64 = 0;
    let mut i: usize = start;
    while i < n
        invariant
            start <= i <= n,
            n == word@.len(),
            digits == word@.skip(start as int),
            digits == magnitude(word@),
            forall|j: int| 0 <= j < i - start ==> is_digit(#[trigger] digits[j]),
            value == digits_value(digits.take(i - start)),
            value <= 2147483648,
        decreases n - i,
    {
        let c = word[i];
        if !('0' <= c && c <= '9') {
            proof {
                assert(digits[i - start] == c);
                assert(!is_digit(digits[i - start]));
            }
            return None;
        }
        let d: i64 = (c as u32 - '0' as u32) as i64;
        proof {
            let next = digits.take(i + 1 - start);
            assert(next.drop_last() =~= digits.take(i - start));
            assert(next.last() == c);
            assert(digits[i - start] == c);
            assert(digits_value(next) == value * 10 + d);
        }
        if value * 10 + d > 2147483648 {
            proof {
                if all_digits(digits) {
                    lemma_digits_value_grows(digits, i + 1 - start);
                }
            }
            return None;
        }
        value = value * 10 + d;
        i += 1;
    }
    proof {
        assert(digits.take(n - start) =~= digits);
    }
    if negative {
        Some((-value) as i32)
    } else if value <= 2147483647 {
        Some(value as i32)
    } else {
        None
    }
}

/// Reads every word of `input` as a 32-bit signed integer: `Some` with the
/// numbers in order exactly when every word writes one.
pub fn parse_numbers(input: &str) -> (r: Option<Vec<i32>>)
    ensures
        match r {
            Some(numbers) => numbers_of(input@) == Some(numbers@),
            None => numbers_of(input@) is None,
        },
{
    let ws = split_words(input);
    let mut numbers: Vec<i32> = Vec::new();
    let mut i: usize = 0;
    while i < ws.len()
        invariant
            i <= ws@.len(),
            ws@.len() == words(input@).len(),
            forall|j: int| 0 <= j < ws@.len() ==> (#[trigger] ws@[j])@ == words(input@)[j],
            numbers@.len() == i,
            forall|j: int| 0 <= j < i ==> number_of(words(input@)[j]) == Some(#[trigger] numbers@[j]),
        decreases ws@.len() - i,
    {
        match parse_i32(&ws[i]) {
            Some(number) => {
                numbers.push(number);
            },
            None => {
                proof {
                    assert(ws@[i as int]@ == words(input@)[i as int]);
                    assert(number_of(words(input@)[i as int]) is None);
                }
                return None;
            },
        }
        i += 1;
    }
    proof {
        let all = words(input@);
        assert forall|j: int| 0 <= j < all.len() implies (#[trigger] number_of(all[j])) is Some by {
            assert(number_of(all[j]) == Some(numbers@[j]));
        }
        assert(numbers_of(input@)->0 =~= numbers@);
    }
    Some(numbers)
}

/// What builds a value out of the numbers that were read.
pub trait Visitor {
    /// What the visitor builds.
    type Value;

    /// Whether the visitor can build a value out of `v`. A visitor that says
    /// nothing takes all.
    open spec fn takes(&self, v: Seq<i32>) -> bool {
        true
    }

    /// Whether `value` is what the visitor may build out of `v`. A visitor
    /// that says nothing allows everything.
    open spec fn makes(&self, v: Seq<i32>, value: Self::Value) -> bool {
        true
    }

    /// Builds a value out of the numbers `v`.
    fn visit_vec(&self, v: Vec<i32>) -> (value: Self::Value)
        requires
            self.takes(v@),
        ensures
            self.makes(v@, value),
    ;
}

/// Two numbers, each under a name of its own.
#[derive(Debug, Default)]
pub struct TwoValuesStruct {
    a: i32,
    b: i32,
}

impl View for TwoValuesStruct {
    type V = (i32, i32);

    /// The two numbers, in order.
    closed spec fn view(&self) -> (i32, i32) {
        (self.a, self.b)
    }
}

impl Visitor for TwoValuesStruct {
    type Value = Self;

    /// Two numbers are needed; what follows them is ignored.
    open spec fn takes(&self, v: Seq<i32>) -> bool {
        v.len() >= 2
    }

    open spec fn makes(&self, v: Seq<i32>, value: Self) -> bool {
        value@ == (v[0], v[1])
    }

    fn visit_vec(&self, v: Vec<i32>) -> (value: Self) {
        Self { a: v[0], b: v[1] }
    }
}

/// Two numbers in an array.
#[derive(Debug, Default)]
pub struct TwoValuesArray {
    ab: [i32; 2],
}

impl View for TwoValuesArray {
    type V = (i32, i32);

    /// The two numbers, in order.
    closed spec fn view(&self) -> (i32, i32) {
        (self.ab[0], self.ab[1])
    }
}

impl Visitor for TwoValuesArray {
    type Value = Self;

    /// Two numbers are needed; what follows them is ignored.
    open spec fn takes(&self, v: Seq<i32>) -> bool {
        v.len() >= 2
    }

    open spec fn makes(&self, v: Seq<i32>, value: Self) -> bool {
        value@ == (v[0], v[1])
    }

    fn visit_vec(&self, v: Vec<i32>) -> (value: Self) {
        Self { ab: [v[0], v[1]] }
    }
}

/// Whether `r` is the refusal to read text.
pub open spec fn str_unimplemented<T>(r: Result<T, &'static str>) -> bool {
    r matches Err(message) && message@ == "parse_str is unimplemented"@
}

/// Whether `r` is the refusal to read numbers.
pub open spec fn vec_unimplemented<T>(r: Result<T, &'static str>) -> bool {
    r matches Err(message) && message@ == "parse_vec is unimplemented"@
}

/// Reads an input and has a visitor build the value. A deserializer reads
/// the kinds of input it is made for and refuses the others.
pub trait Deserializer<V: Visitor>: Sized {
    /// Whether this deserializer leaves text unread.
    open spec fn refuses_str(&self) -> bool {
        false
    }

    /// Whether this deserializer leaves lists of numbers unread.
    open spec fn refuses_vec(&self) -> bool {
        false
    }

    /// Whether this deserializer can read the text `input`. One that says
    /// nothing reads all.
    open spec fn reads_str(&self, input: Seq<char>) -> bool {
        true
    }

    /// Whether this deserializer can read the numbers `input`. One that says
    /// nothing reads all.
    open spec fn reads_vec(&self, input: Seq<i32>) -> bool {
        true
    }

    /// The deserializer that hands what it reads to `visitor`.
    fn create(visitor: V) -> Self;

    /// Reads the text `input`.
    fn parse_str(&self, input: &str) -> (r: Result<V::Value, &'static str>)
        requires
            self.reads_str(input@),
        ensures
            self.refuses_str() ==> str_unimplemented(r),
    {
        Err("parse_str is unimplemented")
    }

    /// Reads the numbers `input`.
    fn parse_vec(&self, input: Vec<i32>) -> (r: Result<V::Value, &'static str>)
        requires
            self.reads_vec(input@),
        ensures
            self.refuses_vec() ==> vec_unimplemented(r),
    {
        Err("parse_vec is unimplemented")
    }
}

/// Reads numbers out of text: the words of the text, each a 32-bit signed
/// integer in decimal.
pub struct StringDeserializer<V: Visitor> {
    visitor: V,
}

impl<V: Visitor> StringDeserializer<V> {
    /// The visitor that builds the values.
    pub closed spec fn visitor(&self) -> V {
        self.visitor
    }
}

impl<V: Visitor> Deserializer<V> for StringDeserializer<V> {
    open spec fn refuses_vec(&self) -> bool {
        true
    }

    /// The text must be numbers, and numbers the visitor takes.
    open spec fn reads_str(&self, input: Seq<char>) -> bool {
        numbers_of(input) matches Some(numbers) && self.visitor().takes(numbers)
    }

    fn create(visitor: V) -> (d: Self)
        ensures
            d.visitor() == visitor,
    {
        Self { visitor }
    }

    /// What the visitor builds out of the numbers of `input`.
    fn parse_str(&self, input: &str) -> (r: Result<V::Value, &'static str>)
        ensures
            r matches Ok(value) && self.visitor().makes(numbers_of(input@)->0, value),
    {
        match parse_numbers(input) {
            Some(input_vec) => Ok(self.visitor.visit_vec(input_vec)),
            None => unreached(),
        }
    }
}

/// Reads numbers that are given as numbers.
pub struct VecDeserializer<V: Visitor> {
    visitor: V,
}

impl<V: Visitor> VecDeserializer<V> {
    /// The visitor that builds the values.
    pub closed spec fn visitor(&self) -> V {
        self.visitor
    }
}

impl<V: Visitor> Deserializer<V> for VecDeserializer<V> {
    open spec fn refuses_str(&self) -> bool {
        true
    }

    /// The numbers must be numbers the visitor takes.
    open spec fn reads_vec(&self, input: Seq<i32>) -> bool {
        self.visitor().takes(input)
    }

    fn create(visitor: V) -> (d: Self)
        ensures
            d.visitor() == visitor,
    {
        Self { visitor }
    }

    /// What the visitor builds out of `input`.
    fn parse_vec(&self, input: Vec<i32>) -> (r: Result<V::Value, &'static str>)
        ensures
            r matches Ok(value) && self.visitor().makes(input@, value),
    {
        Ok(self.visitor.visit_vec(input))
    }
}

} // verus!
