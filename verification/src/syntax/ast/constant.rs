//! Literal constants.

use vstd::prelude::*;

verus! {

/// A literal value written in the source text.
///
/// A number that is written with decimal digits alone and fits `i32` is an
/// `Int`; any other number is a `Num`, which keeps the digits as written.
#[derive(Clone, Debug, PartialEq, Eq)]
pub enum Const {
    String(Vec<u8>),
    Num(Vec<u8>),
    Int(i32),
    Bool(bool),
    Null,
}

/// The mathematical value of a [`Const`].
pub enum ConstV {
    String(Seq<u8>),
    Num(Seq<u8>),
    Int(i32),
    Bool(bool),
    Null,
}

impl View for Const {
    type V = ConstV;

    open spec fn view(&self) -> ConstV {
        match self {
            Const::String(s) => ConstV::String(s@),
            Const::Num(s) => ConstV::Num(s@),
            Const::Int(i) => ConstV::Int(*i),
            Const::Bool(b) => ConstV::Bool(*b),
            Const::Null => ConstV::Null,
        }
    }
}

/// Whether `b` is an ASCII decimal digit.
pub open spec fn spec_is_digit(b: u8) -> bool {
    48 <= b <= 57
}

#[verifier::when_used_as_spec(spec_is_digit)]
pub fn is_digit(b: u8) -> (r: bool)
    ensures
        r == spec_is_digit(b),
{
    48 <= b && b <= 57
}

/// Whether every byte of `s` is a decimal digit.
pub open spec fn all_digits(s: Seq<u8>) -> bool {
    forall|i: int| 0 <= i < s.len() ==> spec_is_digit(#[trigger] s[i])
}

/// The number that the decimal digits `s` write.
pub open spec fn decimal_value(s: Seq<u8>) -> nat
    decreases s.len(),
{
    if s.len() == 0 {
        0
    } else {
        decimal_value(s.drop_last()) * 10 + (s.last() - 48) as nat
    }
}

/// The constant that a numeric literal with the text `raw` denotes.
pub open spec fn numeric_const(raw: Seq<u8>) -> ConstV {
    if all_digits(raw) && decimal_value(raw) <= i32::MAX {
        ConstV::Int(decimal_value(raw) as i32)
    } else {
        ConstV::Num(raw)
    }
}

/// A longer digit string never writes a smaller number than its prefix.
pub proof fn lemma_decimal_value_grows(s: Seq<u8>, k: int)
    requires
        0 <= k <= s.len(),
        all_digits(s),
    ensures
        decimal_value(s.take(k)) <= decimal_value(s),
    decreases s.len() - k,
{
    if k < s.len() {
        lemma_decimal_value_grows(s, k + 1);
        let t = s.take(k + 1);
        assert(t.drop_last() =~= s.take(k));
        assert(spec_is_digit(s[k]));
        assert(t.last() == s[k]);
    } else {
        assert(s.take(k) =~= s);
    }
}

impl Const {
    /// The constant that a numeric literal with the text `raw` denotes.
    pub fn from_numeric(raw: Vec<u8>) -> (c: Const)
        ensures
            c@ == numeric_const(raw@),
    {
        let mut value: i32 = 0;
        let mut i: usize = 0;
        while i < raw.len()
            invariant
                i <= raw.len(),
                forall|j: int| 0 <= j < i ==> spec_is_digit(#[trigger] raw@[j]),
                value == decimal_value(raw@.take(i as int)),
            decreases raw.len() - i,
        {
            let b = raw[i];
            if !is_digit(b) {
                return Const::Num(raw);
            }
            let d: i32 = (b - 48) as i32;
            proof {
                let t = raw@.take(i + 1);
                assert(t.drop_last() =~= raw@.take(i as int));
                assert(t.last() == b);
            }
            if value > (i32::MAX - d) / 10 {
                proof {
                    if all_digits(raw@) {
                        lemma_decimal_value_grows(raw@, i + 1);
                    }
                }
                return Const::Num(raw);
            }
            value = value * 10 + d;
            i += 1;
        }
        proof {
            assert(raw@.take(i as int) =~= raw@);
        }
        Const::Int(value)
    }
}

} // verus!
