//! Typed symbolic expressions. An `Expression<T>` carries the source text of
//! a value of element type `T`; composing expressions only ever combines
//! matching element types, enforced by the type parameter.

use core::marker::PhantomData;

use vstd::prelude::*;

use crate::textfmt::{dec_i32, dec_u32, spec_dec_int, spec_dec_nat};
use crate::wgsl::{FVec3, FVec4, IVec2, ShaderTypeExt, Wgsl, F32, I32, U32, UVec2, UVec3};

verus! {

/// An immutable, typed symbolic value: its generated source text plus a
/// phantom element type.
pub struct Expression<T: ShaderTypeExt> {
    pub code: String,
    pub marker: PhantomData<T>,
}

impl<T: ShaderTypeExt> View for Expression<T> {
    type V = Seq<char>;

    open spec fn view(&self) -> Seq<char> {
        self.code@
    }
}

/// The text `(a <op> b)` of a parenthesised infix application.
pub open spec fn spec_infix(a: Seq<char>, op: Seq<char>, b: Seq<char>) -> Seq<char> {
    "("@ + a + op + b + ")"@
}

impl<T: ShaderTypeExt> Expression<T> {
    pub fn new(code: String) -> (r: Self)
        ensures
            r@ == code@,
    {
        Expression { code, marker: PhantomData }
    }

    /// A fresh expression with the same text.
    pub fn dup(&self) -> (r: Self)
        ensures
            r@ == self@,
    {
        Expression { code: self.code.clone(), marker: PhantomData }
    }

    /// `(self + rhs)`; both sides share the element type.
    pub fn plus(&self, rhs: &Expression<T>) -> (r: Expression<T>)
        ensures
            r@ == spec_infix(self@, " + "@, rhs@),
    {
        self.infix(" + ", rhs.code.as_str())
    }

    /// `(self - rhs)`; both sides share the element type.
    pub fn minus(&self, rhs: &Expression<T>) -> (r: Expression<T>)
        ensures
            r@ == spec_infix(self@, " - "@, rhs@),
    {
        self.infix(" - ", rhs.code.as_str())
    }

    /// `(self * rhs)`; both sides share the element type.
    pub fn times(&self, rhs: &Expression<T>) -> (r: Expression<T>)
        ensures
            r@ == spec_infix(self@, " * "@, rhs@),
    {
        self.infix(" * ", rhs.code.as_str())
    }

    fn infix(&self, op: &str, rhs: &str) -> (r: Expression<T>)
        ensures
            r@ == spec_infix(self@, op@, rhs@),
    {
        let mut code = String::new();
        code.append("(");
        code.append(self.code.as_str());
        code.append(op);
        code.append(rhs);
        code.append(")");
        proof {
            assert(code@ =~= spec_infix(self@, op@, rhs@));
        }
        Expression { code, marker: PhantomData }
    }
}

impl<T: ShaderTypeExt> Wgsl for Expression<T> {
    open spec fn wgsl_spec(&self) -> Seq<char> {
        self.code@
    }

    fn wgsl(&self) -> (r: String) {
        self.code.clone()
    }
}

impl Expression<F32> {
    /// The one scalar-by-vector overload: broadcast multiply, `(self * rhs)`.
    pub fn times_vec4(&self, rhs: &Expression<FVec4>) -> (r: Expression<FVec4>)
        ensures
            r@ == spec_infix(self@, " * "@, rhs@),
    {
        let mut code = String::new();
        code.append("(");
        code.append(self.code.as_str());
        code.append(" * ");
        code.append(rhs.code.as_str());
        code.append(")");
        proof {
            assert(code@ =~= spec_infix(self@, " * "@, rhs@));
        }
        Expression { code, marker: PhantomData }
    }
}

impl Expression<U32> {
    /// A `u32` literal expression.
    pub fn lit(value: u32) -> (r: Self)
        ensures
            r@ == spec_dec_nat(value as nat),
    {
        Expression { code: dec_u32(value), marker: PhantomData }
    }

    /// Reinterpret as a signed coordinate: `i32(self)`.
    pub fn as_i32(&self) -> (r: Expression<I32>)
        ensures
            r@ == "i32("@ + self@ + ")"@,
    {
        let mut code = String::new();
        code.append("i32(");
        code.append(self.code.as_str());
        code.append(")");
        proof {
            assert(code@ =~= "i32("@ + self@ + ")"@);
        }
        Expression { code, marker: PhantomData }
    }
}

impl Expression<I32> {
    /// An `i32` literal expression.
    pub fn lit(value: i32) -> (r: Self)
        ensures
            r@ == spec_dec_int(value as int),
    {
        Expression { code: dec_i32(value), marker: PhantomData }
    }

    /// `clamp(self, min, max)`, defined on scalar integer expressions only.
    pub fn clamped(&self, min: &Expression<I32>, max: &Expression<I32>) -> (r: Expression<I32>)
        ensures
            r@ == spec_clamp_text(self@, min@, max@),
    {
        let mut code = String::new();
        code.append("clamp(");
        code.append(self.code.as_str());
        code.append(", ");
        code.append(min.code.as_str());
        code.append(", ");
        code.append(max.code.as_str());
        code.append(")");
        proof {
            assert(code@ =~= spec_clamp_text(self@, min@, max@));
        }
        Expression { code, marker: PhantomData }
    }
}

/// The text `clamp(v, lo, hi)`.
pub open spec fn spec_clamp_text(v: Seq<char>, lo: Seq<char>, hi: Seq<char>) -> Seq<char> {
    "clamp("@ + v + ", "@ + lo + ", "@ + hi + ")"@
}

impl Expression<IVec2> {
    /// Vector construction, defined for the 2-integer-vector type only.
    pub fn construct(x: &Expression<I32>, y: &Expression<I32>) -> (r: Self)
        ensures
            r@ == "vec2<i32>("@ + x@ + ", "@ + y@ + ")"@,
    {
        let mut code = String::new();
        code.append("vec2<i32>(");
        code.append(x.code.as_str());
        code.append(", ");
        code.append(y.code.as_str());
        code.append(")");
        proof {
            assert(code@ =~= "vec2<i32>("@ + x@ + ", "@ + y@ + ")"@);
        }
        Expression { code, marker: PhantomData }
    }
}

impl Expression<FVec3> {
    pub fn x(&self) -> (r: Expression<F32>)
        ensures
            r@ == self@ + ".x"@,
    {
        component(self.code.as_str(), ".x")
    }

    pub fn y(&self) -> (r: Expression<F32>)
        ensures
            r@ == self@ + ".y"@,
    {
        component(self.code.as_str(), ".y")
    }

    pub fn z(&self) -> (r: Expression<F32>)
        ensures
            r@ == self@ + ".z"@,
    {
        component(self.code.as_str(), ".z")
    }
}

impl Expression<UVec3> {
    pub fn x(&self) -> (r: Expression<U32>)
        ensures
            r@ == self@ + ".x"@,
    {
        component(self.code.as_str(), ".x")
    }

    pub fn y(&self) -> (r: Expression<U32>)
        ensures
            r@ == self@ + ".y"@,
    {
        component(self.code.as_str(), ".y")
    }

    pub fn z(&self) -> (r: Expression<U32>)
        ensures
            r@ == self@ + ".z"@,
    {
        component(self.code.as_str(), ".z")
    }
}

impl Expression<UVec2> {
    pub fn x(&self) -> (r: Expression<U32>)
        ensures
            r@ == self@ + ".x"@,
    {
        component(self.code.as_str(), ".x")
    }

    pub fn y(&self) -> (r: Expression<U32>)
        ensures
            r@ == self@ + ".y"@,
    {
        component(self.code.as_str(), ".y")
    }
}

/// Component access text `base.x` and the like.
fn component<T: ShaderTypeExt>(base: &str, accessor: &str) -> (r: Expression<T>)
    ensures
        r@ == base@ + accessor@,
{
    let mut code = String::new();
    code.append(base);
    code.append(accessor);
    Expression { code, marker: PhantomData }
}

} // verus!
