//! The syntax of complex numbers given on the command line: `a`, `bi`,
//! `a+bi`, `a-bi`, `a+i`, `a-i`, `i`.  The number texts themselves are
//! handed on to the floating-point parser; this module finds them.

use vstd::prelude::*;

verus! {

broadcast use vstd::string::to_string_from_display_ensures_for_str;

/// The byte `'i'` that ends an imaginary part.
pub const IMAGINARY_UNIT: u8 = 0x69;

/// The byte `'+'`.
pub const PLUS: u8 = 0x2b;

/// The byte `'-'`.
pub const MINUS: u8 = 0x2d;

/// The bytes `start..end` of a text.
#[derive(Clone, Copy, PartialEq, Eq, Structural, Debug)]
pub struct Span {
    pub start: usize,
    pub end: usize,
}

/// How the imaginary part of a literal is written.
#[derive(Clone, Copy, PartialEq, Eq, Structural, Debug)]
pub enum Imaginary {
    /// No imaginary part: the coefficient is 0.
    Absent,
    /// A bare `i` or `+i`: the coefficient is 1.
    Unit,
    /// `-i`: the coefficient is -1.
    NegativeUnit,
    /// The coefficient is the number written in these bytes, sign included.
    Digits(Span),
}

/// Where the parts of a complex literal stand in its text.
#[derive(Clone, Copy, PartialEq, Eq, Structural, Debug)]
pub struct ComplexLiteral {
    /// The bytes that hold the real part, if there is one.
    pub real_part: Option<Span>,
    pub imaginary_part: Imaginary,
}

pub open spec fn is_sign(b: u8) -> bool {
    b == PLUS || b == MINUS
}

/// The index of the last sign among the first `n` bytes of `s`, or 0 when
/// there is none.
pub open spec fn last_sign(s: Seq<u8>, n: int) -> int
    decreases n,
{
    if n <= 0 {
        0
    } else if is_sign(s[n - 1]) {
        n - 1
    } else {
        last_sign(s, n - 1)
    }
}

/// The parts of the non-empty literal `s`.  Without a final `i` the whole
/// text is the real part.  With one, the imaginary part starts at a `+` or
/// `-` right before the `i`, or else at the last sign of the text (at the
/// start when there is none); what comes before it is the real part.
pub open spec fn literal_parts(s: Seq<u8>) -> ComplexLiteral {
    let n = s.len() as int;
    if s[n - 1] != IMAGINARY_UNIT {
        ComplexLiteral { real_part: Some(Span { start: 0, end: n as usize }), imaginary_part: Imaginary::Absent }
    } else {
        let sep = if n >= 2 && is_sign(s[n - 2]) { n - 2 } else { last_sign(s, n) };
        let imaginary = if n >= 2 && s[n - 2] == PLUS {
            Imaginary::Unit
        } else if n >= 2 && s[n - 2] == MINUS {
            Imaginary::NegativeUnit
        } else if sep == n - 1 {
            Imaginary::Unit
        } else {
            Imaginary::Digits(Span { start: sep as usize, end: (n - 1) as usize })
        };
        ComplexLiteral {
            real_part: if sep > 0 { Some(Span { start: 0, end: sep as usize }) } else { None },
            imaginary_part: imaginary,
        }
    }
}

/// The parts of a literal lie within it, in order: the real part first, then
/// the coefficient of the imaginary part, which ends right before the final `i`.
pub proof fn lemma_parts_in_order(s: Seq<u8>)
    requires
        s.len() > 0,
        s.len() <= usize::MAX,
    ensures
        literal_parts(s).real_part matches Some(r) ==> r.start == 0 && r.start < r.end <= s.len(),
        literal_parts(s).imaginary_part matches Imaginary::Digits(d) ==> d.start < d.end && d.end + 1 == s.len(),
        literal_parts(s).real_part matches Some(r) ==> (literal_parts(s).imaginary_part matches Imaginary::Digits(
            d) ==> r.end == d.start),
        literal_parts(s).imaginary_part != Imaginary::Absent <==> s.last() == IMAGINARY_UNIT,
{
    lemma_last_sign_bounds(s, s.len() as int);
}

/// A literal that does not end in `i` is wholly its real part, and has no
/// imaginary part.
pub proof fn lemma_real_only_literal(s: Seq<u8>)
    requires
        s.len() > 0,
        s.len() <= usize::MAX,
        s.last() != IMAGINARY_UNIT,
    ensures
        literal_parts(s).real_part == Some(Span { start: 0, end: s.len() as usize }),
        literal_parts(s).imaginary_part == Imaginary::Absent,
{
}

/// A literal that ends in `i` has an imaginary part; its real part, if any,
/// starts the text and ends where the imaginary part's sign stands, and the
/// imaginary coefficient is written between that sign and the final `i`.
pub proof fn lemma_imaginary_literal(s: Seq<u8>)
    requires
        s.len() > 0,
        s.len() <= usize::MAX,
        s.last() == IMAGINARY_UNIT,
    ensures
        literal_parts(s).imaginary_part != Imaginary::Absent,
        literal_parts(s).real_part matches Some(r) ==> r.start == 0 && r.end < s.len() - 1 && is_sign(
            s[r.end as int],
        ),
        literal_parts(s).imaginary_part matches Imaginary::Digits(d) ==> d.end == s.len() - 1 && d.start
            < d.end && (d.start > 0 ==> is_sign(s[d.start as int])),
        s.len() >= 2 && s[s.len() - 2] == PLUS ==> literal_parts(s).imaginary_part == Imaginary::Unit,
        s.len() >= 2 && s[s.len() - 2] == MINUS ==> literal_parts(s).imaginary_part == Imaginary::NegativeUnit,
        s.len() == 1 ==> literal_parts(s).imaginary_part == Imaginary::Unit && literal_parts(s).real_part
            == None::<Span>,
{
    lemma_last_sign_bounds(s, s.len() as int);
}

proof fn lemma_last_sign_bounds(s: Seq<u8>, n: int)
    requires
        0 <= n <= s.len(),
    ensures
        0 <= last_sign(s, n) && (n > 0 ==> last_sign(s, n) < n),
        last_sign(s, n) > 0 ==> is_sign(s[last_sign(s, n)]),
    decreases n,
{
    if n > 0 {
        lemma_last_sign_bounds(s, n - 1);
    }
}

/// Finds the real and imaginary parts of the complex literal `s`.  An empty
/// text is refused with "No value provided".
pub fn split_complex_literal(s: &[u8]) -> (r: Result<ComplexLiteral, String>)
    ensures
        s@.len() > 0 ==> r == Ok::<ComplexLiteral, String>(literal_parts(s@)),
        s@.len() == 0 ==> r is Err && r->Err_0@ == "No value provided"@,
{
    let n = s.len();
    if n == 0 {
        return Err("No value provided".to_string());
    }
    if s[n - 1] != IMAGINARY_UNIT {
        return Ok(ComplexLiteral { real_part: Some(Span { start: 0, end: n }), imaginary_part: Imaginary::Absent });
    }
    let sep: usize;
    let imaginary: Imaginary;
    if n >= 2 && s[n - 2] == PLUS {
        sep = n - 2;
        imaginary = Imaginary::Unit;
    } else if n >= 2 && s[n - 2] == MINUS {
        sep = n - 2;
        imaginary = Imaginary::NegativeUnit;
    } else {
        // The last sign of the text, or the start when there is none.
        let mut k: usize = n;
        while k > 0 && !(s[k - 1] == PLUS || s[k - 1] == MINUS)
            invariant
                k <= n,
                n == s@.len(),
                last_sign(s@, k as int) == last_sign(s@, n as int),
            decreases k,
        {
            k -= 1;
        }
        sep = if k > 0 { k - 1 } else { 0 };
        imaginary = if sep == n - 1 { Imaginary::Unit } else { Imaginary::Digits(Span { start: sep, end: n - 1 }) };
    }
    let real_part = if sep > 0 { Some(Span { start: 0, end: sep }) } else { None };
    Ok(ComplexLiteral { real_part, imaginary_part: imaginary })
}

} // verus!
