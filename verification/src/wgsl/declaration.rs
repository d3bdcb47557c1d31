//! Named mutable bindings of the kernel language and the address-space /
//! access-mode vocabulary of storage declarations.

use vstd::prelude::*;

use crate::wgsl::expression::Expression;
use crate::wgsl::{FVec3, ShaderTypeExt, UVec2, UVec3, Wgsl, F32, U32};

verus! {

/// The address space of a module-scope declaration.
pub enum AddressSpace {
    Storage,
    Function,
}

impl AddressSpace {
    /// The WGSL address-space word.
    pub fn wgsl(&self) -> (r: String)
        ensures
            r@ == self.wgsl_spec(),
    {
        match self {
            AddressSpace::Storage => String::from_str("storage"),
            AddressSpace::Function => String::from_str("function"),
        }
    }
}

impl Wgsl for AddressSpace {
    open spec fn wgsl_spec(&self) -> Seq<char> {
        match self {
            AddressSpace::Storage => "storage"@,
            AddressSpace::Function => "function"@,
        }
    }

    fn wgsl(&self) -> (r: String) {
        AddressSpace::wgsl(self)
    }
}

/// How a storage binding may be accessed.
pub enum AccessMode {
    Read,
    Write,
    ReadWrite,
}

impl AccessMode {
    /// The WGSL access-mode word.
    pub fn wgsl(&self) -> (r: String)
        ensures
            r@ == self.wgsl_spec(),
    {
        match self {
            AccessMode::Read => String::from_str("read"),
            AccessMode::Write => String::from_str("write"),
            AccessMode::ReadWrite => String::from_str("read_write"),
        }
    }
}

impl Wgsl for AccessMode {
    open spec fn wgsl_spec(&self) -> Seq<char> {
        match self {
            AccessMode::Read => "read"@,
            AccessMode::Write => "write"@,
            AccessMode::ReadWrite => "read_write"@,
        }
    }

    fn wgsl(&self) -> (r: String) {
        AccessMode::wgsl(self)
    }
}

/// A function-local variable of element type `T`, with an optional
/// initializing expression.
pub struct LocalVarDecl<T: ShaderTypeExt> {
    pub name: String,
    pub initializer: Option<Expression<T>>,
}

impl<T: ShaderTypeExt> LocalVarDecl<T> {
    /// Reference the variable as an expression: just its name.
    pub fn as_expr(&self) -> (r: Expression<T>)
        ensures
            r@ == self.name@,
    {
        Expression::new(self.name.clone())
    }

    /// A fresh declaration with the same name and initializer text.
    pub fn duplicate(&self) -> (r: Self)
        ensures
            r.name@ == self.name@,
            r.wgsl_spec() == self.wgsl_spec(),
    {
        let initializer = match &self.initializer {
            Some(e) => Some(e.dup()),
            None => None,
        };
        LocalVarDecl { name: self.name.clone(), initializer }
    }
}

impl<T: ShaderTypeExt> Wgsl for LocalVarDecl<T> {
    open spec fn wgsl_spec(&self) -> Seq<char> {
        "var "@ + self.name@ + ": "@ + T::spec_type_name() + (match self.initializer {
            Some(init) => " = "@ + init@,
            None => Seq::<char>::empty(),
        }) + ";"@
    }

    fn wgsl(&self) -> (r: String) {
        let mut r = String::new();
        r.append("var ");
        r.append(self.name.as_str());
        r.append(": ");
        let ty = T::wgsl_type_name();
        r.append(ty.as_str());
        match &self.initializer {
            Some(init) => {
                r.append(" = ");
                r.append(init.code.as_str());
            },
            None => {},
        }
        r.append(";");
        proof {
            assert(r@ =~= self.wgsl_spec());
        }
        r
    }
}

impl LocalVarDecl<FVec3> {
    pub fn x(&self) -> (r: Expression<F32>)
        ensures
            r@ == self.name@ + ".x"@,
    {
        self.as_expr().x()
    }

    pub fn y(&self) -> (r: Expression<F32>)
        ensures
            r@ == self.name@ + ".y"@,
    {
        self.as_expr().y()
    }

    pub fn z(&self) -> (r: Expression<F32>)
        ensures
            r@ == self.name@ + ".z"@,
    {
        self.as_expr().z()
    }
}

impl LocalVarDecl<UVec3> {
    pub fn x(&self) -> (r: Expression<U32>)
        ensures
            r@ == self.name@ + ".x"@,
    {
        self.as_expr().x()
    }

    pub fn y(&self) -> (r: Expression<U32>)
        ensures
            r@ == self.name@ + ".y"@,
    {
        self.as_expr().y()
    }

    pub fn z(&self) -> (r: Expression<U32>)
        ensures
            r@ == self.name@ + ".z"@,
    {
        self.as_expr().z()
    }
}

impl LocalVarDecl<UVec2> {
    pub fn x(&self) -> (r: Expression<U32>)
        ensures
            r@ == self.name@ + ".x"@,
    {
        self.as_expr().x()
    }

    pub fn y(&self) -> (r: Expression<U32>)
        ensures
            r@ == self.name@ + ".y"@,
    {
        self.as_expr().y()
    }
}

} // verus!
