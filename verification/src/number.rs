//! Numbers. A Lumen number is an IEEE-754 double, held here as its 64-bit
//! pattern. Negation, equality and ordering are stated and computed on the
//! bits; arithmetic, the conversion of a literal's text and the rendering of
//! a number as text are done by a numeric backend that the caller supplies.

use vstd::prelude::*;

verus! {

/// Whether `x` is a NaN: all exponent bits set and a nonzero fraction.
pub open spec fn is_nan(x: u64) -> bool {
    (x & 0x7ff0_0000_0000_0000u64) == 0x7ff0_0000_0000_0000u64 && (x & 0x000f_ffff_ffff_ffffu64) != 0
}

/// Whether `x` is a zero of either sign.
pub open spec fn is_zero(x: u64) -> bool {
    (x & 0x7fff_ffff_ffff_ffffu64) == 0
}

/// IEEE negation: the sign bit flipped.
pub open spec fn negate(x: u64) -> u64 {
    x ^ 0x8000_0000_0000_0000u64
}

/// IEEE equality: no NaN is equal to anything; the two zeros are equal;
/// otherwise equal bit patterns.
pub open spec fn float_eq(x: u64, y: u64) -> bool {
    !is_nan(x) && !is_nan(y) && (x == y || (is_zero(x) && is_zero(y)))
}

/// The position of a non-NaN `x` on the number line: its magnitude bits,
/// negated when the sign is set. IEEE ordering of non-NaN values is the order
/// of their keys.
pub open spec fn float_key(x: u64) -> int {
    if (x & 0x8000_0000_0000_0000u64) != 0 {
        -((x & 0x7fff_ffff_ffff_ffffu64) as int)
    } else {
        (x & 0x7fff_ffff_ffff_ffffu64) as int
    }
}

pub fn float_is_nan(x: u64) -> (r: bool)
    ensures
        r == is_nan(x),
{
    (x & 0x7ff0_0000_0000_0000u64) == 0x7ff0_0000_0000_0000u64 && (x & 0x000f_ffff_ffff_ffffu64) != 0
}

pub fn float_is_zero(x: u64) -> (r: bool)
    ensures
        r == is_zero(x),
{
    (x & 0x7fff_ffff_ffff_ffffu64) == 0
}

pub fn float_negate(x: u64) -> (r: u64)
    ensures
        r == negate(x),
{
    x ^ 0x8000_0000_0000_0000u64
}

pub fn float_equals(x: u64, y: u64) -> (r: bool)
    ensures
        r == float_eq(x, y),
{
    !float_is_nan(x) && !float_is_nan(y) && (x == y || (float_is_zero(x) && float_is_zero(y)))
}

/// Whether `x < y` for non-NaN `x`, `y`.
pub fn float_less(x: u64, y: u64) -> (r: bool)
    ensures
        r == (float_key(x) < float_key(y)),
{
    let mx = x & 0x7fff_ffff_ffff_ffffu64;
    let my = y & 0x7fff_ffff_ffff_ffffu64;
    let nx = (x & 0x8000_0000_0000_0000u64) != 0;
    let ny = (y & 0x8000_0000_0000_0000u64) != 0;
    if nx && ny {
        my < mx
    } else if nx {
        !(mx == 0 && my == 0)
    } else if ny {
        false
    } else {
        mx < my
    }
}

/// The arithmetic operations of the numeric backend.
#[derive(Debug, Clone, Copy, PartialEq, Eq, Structural)]
pub enum Arith {
    Add,
    Sub,
    Mul,
    Div,
    Rem,
}

/// A request to the numeric backend for a number: the double that a
/// literal's text denotes, or the result of an arithmetic operation on two
/// doubles.
#[derive(Debug)]
pub enum NumberRequest {
    Literal(String),
    Apply(Arith, u64, u64),
}

/// The abstract request.
pub enum RequestV {
    Literal(Seq<char>),
    Apply(Arith, u64, u64),
}

impl View for NumberRequest {
    type V = RequestV;

    open spec fn view(&self) -> RequestV {
        match self {
            NumberRequest::Literal(s) => RequestV::Literal(s@),
            NumberRequest::Apply(op, a, b) => RequestV::Apply(*op, *a, *b),
        }
    }
}

/// What the interpreter knows of numbers: the backend's answer to each
/// request, and the text it renders each double as.
pub struct Numbers {
    pub compute: spec_fn(RequestV) -> u64,
    pub render: spec_fn(u64) -> Seq<char>,
}

/// A numeric backend may be asked anything, and answers equal requests equally.
pub open spec fn computes<C: Fn(NumberRequest) -> u64>(c: C) -> bool {
    &&& forall|q: NumberRequest| call_requires(c, (q,))
    &&& forall|q1: NumberRequest, q2: NumberRequest, x1: u64, x2: u64|
        #![trigger call_ensures(c, (q1,), x1), call_ensures(c, (q2,), x2)]
        q1@ == q2@ && call_ensures(c, (q1,), x1) && call_ensures(c, (q2,), x2) ==> x1 == x2
}

/// A renderer may be given any double, and renders each one to one text.
pub open spec fn renders<R: Fn(u64) -> String>(r: R) -> bool {
    &&& forall|x: u64| call_requires(r, (x,))
    &&& forall|x: u64, s1: String, s2: String|
        #![trigger call_ensures(r, (x,), s1), call_ensures(r, (x,), s2)]
        call_ensures(r, (x,), s1) && call_ensures(r, (x,), s2) ==> s1@ == s2@
}

/// Whether backend `c` can answer `x` to a request whose abstract form is `q`.
pub open spec fn answered<C: Fn(NumberRequest) -> u64>(c: C, q: RequestV, x: u64) -> bool {
    exists|r: NumberRequest| r@ == q && #[trigger] call_ensures(c, (r,), x)
}

/// Whether renderer `r` can render `x` as `s`.
pub open spec fn rendered<R: Fn(u64) -> String>(r: R, x: u64, s: String) -> bool {
    call_ensures(r, (x,), s)
}

/// The answers of backend `c`.
pub open spec fn answers<C: Fn(NumberRequest) -> u64>(c: C) -> spec_fn(RequestV) -> u64 {
    |q: RequestV| choose|x: u64| answered(c, q, x)
}

/// The texts of renderer `r`.
pub open spec fn texts<R: Fn(u64) -> String>(r: R) -> spec_fn(u64) -> Seq<char> {
    |x: u64| (choose|s: String| rendered(r, x, s))@
}

/// What backend `c` and renderer `r` tell of numbers.
pub open spec fn numbers_of<C: Fn(NumberRequest) -> u64, R: Fn(u64) -> String>(c: C, r: R) -> Numbers {
    Numbers { compute: answers(c), render: texts(r) }
}

/// Asks backend `c` for `q`.
pub fn ask<C: Fn(NumberRequest) -> u64>(c: &C, q: NumberRequest) -> (x: u64)
    requires
        computes(*c),
    ensures
        x == (answers(*c))(q@),
{
    let ghost qq = q;
    let x = c(q);
    proof {
        assert(call_ensures(*c, (qq,), x));
        assert(answered(*c, qq@, x));
        let y = choose|y: u64| answered(*c, qq@, y);
        assert(answered(*c, qq@, y));
        let r2 = choose|r: NumberRequest| r@ == qq@ && #[trigger] call_ensures(*c, (r,), y);
        assert(call_ensures(*c, (r2,), y));
        assert((answers(*c))(qq@) == y);
    }
    x
}

/// Renders `x` with renderer `r`.
pub fn show<R: Fn(u64) -> String>(r: &R, x: u64) -> (s: String)
    requires
        renders(*r),
    ensures
        s@ == (texts(*r))(x),
{
    let s = r(x);
    proof {
        assert(rendered(*r, x, s));
        let t = choose|t: String| rendered(*r, x, t);
        assert(rendered(*r, x, t));
        assert((texts(*r))(x) == t@);
    }
    s
}

} // verus!
