//! Ordered, side-effecting units of kernel source text. The set of statement
//! kinds is fixed and small, so a closed enum dispatches emission.

use vstd::prelude::*;

use crate::wgsl::buffer::OutputBufferDecl;
use crate::wgsl::declaration::LocalVarDecl;
use crate::wgsl::expression::Expression;
use crate::wgsl::{FVec4, ShaderTypeExt, Wgsl, U32};

verus! {

/// `name = value;`
pub struct Assignment<T: ShaderTypeExt> {
    pub assignee: LocalVarDecl<T>,
    pub value: Expression<T>,
}

impl<T: ShaderTypeExt> Wgsl for Assignment<T> {
    open spec fn wgsl_spec(&self) -> Seq<char> {
        self.assignee.name@ + " = "@ + self.value@ + ";"@
    }

    fn wgsl(&self) -> (r: String) {
        let mut r = String::new();
        r.append(self.assignee.name.as_str());
        r.append(" = ");
        r.append(self.value.code.as_str());
        r.append(";");
        proof {
            assert(r@ =~= self.wgsl_spec());
        }
        r
    }
}

/// `name += value;`
pub struct AddAssignment<T: ShaderTypeExt> {
    pub assignee: LocalVarDecl<T>,
    pub value: Expression<T>,
}

impl<T: ShaderTypeExt> Wgsl for AddAssignment<T> {
    open spec fn wgsl_spec(&self) -> Seq<char> {
        self.assignee.name@ + " += "@ + self.value@ + ";"@
    }

    fn wgsl(&self) -> (r: String) {
        let mut r = String::new();
        r.append(self.assignee.name.as_str());
        r.append(" += ");
        r.append(self.value.code.as_str());
        r.append(";");
        proof {
            assert(r@ =~= self.wgsl_spec());
        }
        r
    }
}

/// `buffer[index] = value;`
pub struct BufferWrite<T: ShaderTypeExt> {
    pub buffer: OutputBufferDecl<T>,
    pub index: Expression<U32>,
    pub value: Expression<T>,
}

impl<T: ShaderTypeExt> Wgsl for BufferWrite<T> {
    open spec fn wgsl_spec(&self) -> Seq<char> {
        self.buffer.name@ + "["@ + self.index@ + "] = "@ + self.value@ + ";"@
    }

    fn wgsl(&self) -> (r: String) {
        let mut r = String::new();
        r.append(self.buffer.name.as_str());
        r.append("[");
        r.append(self.index.code.as_str());
        r.append("] = ");
        r.append(self.value.code.as_str());
        r.append(";");
        proof {
            assert(r@ =~= self.wgsl_spec());
        }
        r
    }
}

/// One statement of a kernel function body. The statement kinds form a
/// closed set, dispatched by pattern match at emission time.
pub enum Statement {
    Declaration(LocalVarDecl<FVec4>),
    Assignment(Assignment<FVec4>),
    AddAssignment(AddAssignment<FVec4>),
    BufferWrite(BufferWrite<FVec4>),
}

/// The kind of a statement, for counting what an emitted body holds.
#[derive(PartialEq, Eq, Structural)]
pub enum StatementKind {
    Declaration,
    Assignment,
    AddAssignment,
    BufferWrite,
}

/// Which kind of statement this is.
pub open spec fn spec_kind(s: Statement) -> StatementKind {
    match s {
        Statement::Declaration(_) => StatementKind::Declaration,
        Statement::Assignment(_) => StatementKind::Assignment,
        Statement::AddAssignment(_) => StatementKind::AddAssignment,
        Statement::BufferWrite(_) => StatementKind::BufferWrite,
    }
}

impl Wgsl for Statement {
    open spec fn wgsl_spec(&self) -> Seq<char> {
        match self {
            Statement::Declaration(d) => d.wgsl_spec(),
            Statement::Assignment(a) => a.wgsl_spec(),
            Statement::AddAssignment(a) => a.wgsl_spec(),
            Statement::BufferWrite(w) => w.wgsl_spec(),
        }
    }

    fn wgsl(&self) -> (r: String) {
        match self {
            Statement::Declaration(d) => d.wgsl(),
            Statement::Assignment(a) => a.wgsl(),
            Statement::AddAssignment(a) => a.wgsl(),
            Statement::BufferWrite(w) => w.wgsl(),
        }
    }
}

} // verus!
