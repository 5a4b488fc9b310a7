//! Real-valued fields, held as the decimal text that stands for them.

use vstd::prelude::*;
use vstd::string::*;
use crate::text::is_digit;

verus! {

/// The first index at or after `from` whose character is not a digit, or the
/// length of `s` when digits run to the end.
pub open spec fn digits_end(s: Seq<char>, from: int) -> int
    decreases s.len() - from,
{
    if 0 <= from < s.len() && is_digit(s[from]) {
        digits_end(s, from + 1)
    } else {
        from
    }
}

/// Whether `s`, read from `from`, is one or more digits, optionally followed
/// by a point and one or more digits, and nothing else.
pub open spec fn is_unsigned_numeral(s: Seq<char>, from: int) -> bool {
    let whole = digits_end(s, from);
    let fraction = digits_end(s, whole + 1);
    &&& 0 <= from < whole
    &&& whole == s.len() || (s[whole] == '.' && whole + 1 < fraction && fraction == s.len())
}

/// Whether `s` spells a value that is not a finite number.
pub open spec fn is_non_finite(s: Seq<char>) -> bool {
    s == seq!['i', 'n', 'f'] || s == seq!['-', 'i', 'n', 'f'] || s == seq!['N', 'a', 'N']
}

/// Whether `s` is the text of a real-valued field: a plain decimal numeral
/// with an optional leading minus sign, or one of `inf`, `-inf` and `NaN`.
pub open spec fn is_numeral(s: Seq<char>) -> bool {
    is_non_finite(s) || is_unsigned_numeral(s, if s.len() > 0 && s[0] == '-' { 1int } else { 0int })
}

/// `digits_end` stays within the text and only passes over digits.
pub proof fn lemma_digits_end(s: Seq<char>, from: int)
    requires
        0 <= from <= s.len(),
    ensures
        from <= digits_end(s, from) <= s.len(),
        forall|i: int| from <= i < digits_end(s, from) ==> is_digit(#[trigger] s[i]),
        digits_end(s, from) < s.len() ==> !is_digit(s[digits_end(s, from)]),
    decreases s.len() - from,
{
    if from < s.len() && is_digit(s[from]) {
        lemma_digits_end(s, from + 1);
    }
}

/// Whether `c` may occur in the text of a real-valued field.
pub open spec fn is_numeral_char(c: char) -> bool {
    is_digit(c) || c == '.' || c == '-' || c == 'i' || c == 'n' || c == 'f' || c == 'N' || c == 'a'
}

/// The text of a real-valued field is not empty and holds nothing but digits,
/// a point, a minus sign and the letters of `inf` and `NaN`.
pub proof fn lemma_numeral_chars(s: Seq<char>)
    requires
        is_numeral(s),
    ensures
        s.len() > 0,
        forall|i: int| 0 <= i < s.len() ==> is_numeral_char(#[trigger] s[i]),
{
    if !is_non_finite(s) {
        let from = if s[0] == '-' { 1int } else { 0int };
        let whole = digits_end(s, from);
        lemma_digits_end(s, from);
        if whole < s.len() {
            lemma_digits_end(s, whole + 1);
        }
        assert forall|i: int| 0 <= i < s.len() implies is_numeral_char(#[trigger] s[i]) by {
            if i >= from && i != whole {
                assert(is_digit(s[i]));
            }
        }
    }
}

/// The text of a real-valued field never holds a line break.
pub proof fn lemma_numeral_is_one_line(s: Seq<char>)
    requires
        is_numeral(s),
    ensures
        !s.contains('\n'),
{
    lemma_numeral_chars(s);
}

/// A real number as a persisted field holds it: by its decimal text.
#[derive(Debug)]
pub struct Numeral {
    text: String,
}

impl Numeral {
    #[verifier::type_invariant]
    spec fn well_formed(&self) -> bool {
        is_numeral(self.text@)
    }

    /// Reads `text` as a real-valued field: `Some` exactly when it is a
    /// numeral, and then the field holds that very text.
    pub fn parse(text: &str) -> (r: Option<Numeral>)
        ensures
            r is Some <==> is_numeral(text@),
            r matches Some(n) ==> n@ == text@,
    {
        if !text.is_ascii() {
            proof {
                if is_numeral(text@) {
                    lemma_numeral_chars(text@);
                }
            }
            return None;
        }
        let bytes = text.as_bytes();
        proof {
            broadcast use is_ascii_spec_bytes;
            assert(forall|i: int| 0 <= i < text@.len() ==> text@[i] as int == #[trigger] bytes@[i] as int);
        }
        let n = bytes.len();
        let inf = n == 3 && bytes[0] == 105 && bytes[1] == 110 && bytes[2] == 102;
        let minus_inf = n == 4 && bytes[0] == 45 && bytes[1] == 105 && bytes[2] == 110 && bytes[3] == 102;
        let nan = n == 3 && bytes[0] == 78 && bytes[1] == 97 && bytes[2] == 78;
        proof {
            assert(inf <==> text@ =~= seq!['i', 'n', 'f']);
            assert(minus_inf <==> text@ =~= seq!['-', 'i', 'n', 'f']);
            assert(nan <==> text@ =~= seq!['N', 'a', 'N']);
        }
        if inf || minus_inf || nan {
            return Some(Numeral { text: text.to_owned() });
        }
        let from: usize = if n > 0 && bytes[0] == 45 { 1 } else { 0 };
        let whole = scan_digits(bytes, from, Ghost(text@));
        if whole == from {
            return None;
        }
        if whole == n {
            return Some(Numeral { text: text.to_owned() });
        }
        if bytes[whole] != 46 {
            return None;
        }
        let fraction = scan_digits(bytes, whole + 1, Ghost(text@));
        if fraction > whole + 1 && fraction == n {
            Some(Numeral { text: text.to_owned() })
        } else {
            None
        }
    }

    /// The text of the field, which is always a numeral.
    pub fn as_str(&self) -> (r: &str)
        ensures
            r@ == self@,
            is_numeral(r@),
    {
        proof {
            use_type_invariant(self);
        }
        self.text.as_str()
    }
}

impl View for Numeral {
    type V = Seq<char>;

    closed spec fn view(&self) -> Seq<char> {
        self.text@
    }
}

fn scan_digits(bytes: &[u8], from: usize, Ghost(s): Ghost<Seq<char>>) -> (end: usize)
    requires
        from <= bytes@.len(),
        bytes@.len() == s.len(),
        forall|i: int| 0 <= i < s.len() ==> s[i] as int == #[trigger] bytes@[i] as int,
    ensures
        end as int == digits_end(s, from as int),
        from <= end <= bytes@.len(),
{
    let mut end: usize = from;
    while end < bytes.len() && 48 <= bytes[end] && bytes[end] <= 57
        invariant
            from <= end <= bytes@.len(),
            bytes@.len() == s.len(),
            forall|i: int| 0 <= i < s.len() ==> s[i] as int == #[trigger] bytes@[i] as int,
            digits_end(s, from as int) == digits_end(s, end as int),
        decreases bytes@.len() - end,
    {
        assert(s[end as int] as int == bytes@[end as int] as int);
        assert(is_digit(s[end as int]));
        end += 1;
    }
    proof {
        if end < bytes@.len() {
            assert(s[end as int] as int == bytes@[end as int] as int);
            assert(!is_digit(s[end as int]));
        }
    }
    end
}

} // verus!
