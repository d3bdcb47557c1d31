//! Module-scope output buffer declarations.

use core::marker::PhantomData;

use vstd::prelude::*;

use crate::util::{Binding, Group};
use crate::wgsl::{ShaderTypeExt, Wgsl};

verus! {

/// A declaration that a statement can write indexed results into.
pub trait OutputBuffer: Wgsl {

}

/// A module-scope storage buffer of elements of type `T`.
pub struct OutputBufferDecl<T: ShaderTypeExt> {
    pub group: Group,
    pub binding: Binding,
    pub name: String,
    pub marker: PhantomData<T>,
}

impl<T: ShaderTypeExt> OutputBufferDecl<T> {
    /// A fresh declaration with the same slot and name.
    pub fn duplicate(&self) -> (r: Self)
        ensures
            r.group.0 == self.group.0,
            r.binding.0 == self.binding.0,
            r.name@ == self.name@,
            r.wgsl_spec() == self.wgsl_spec(),
    {
        OutputBufferDecl {
            group: Group(self.group.0),
            binding: Binding(self.binding.0),
            name: self.name.clone(),
            marker: PhantomData,
        }
    }
}

impl<T: ShaderTypeExt> Wgsl for OutputBufferDecl<T> {
    open spec fn wgsl_spec(&self) -> Seq<char> {
        "@group("@ + self.group.wgsl_spec() + ") @binding("@ + self.binding.wgsl_spec()
            + ") var<storage, write> "@ + self.name@ + " : array<"@ + T::spec_type_name() + ">;"@
    }

    fn wgsl(&self) -> (r: String) {
        let mut r = String::new();
        r.append("@group(");
        let g = self.group.wgsl();
        r.append(g.as_str());
        r.append(") @binding(");
        let b = self.binding.wgsl();
        r.append(b.as_str());
        r.append(") var<storage, write> ");
        r.append(self.name.as_str());
        r.append(" : array<");
        let ty = T::wgsl_type_name();
        r.append(ty.as_str());
        r.append(">;");
        proof {
            assert(r@ =~= self.wgsl_spec());
        }
        r
    }
}

impl<T: ShaderTypeExt> OutputBuffer for OutputBufferDecl<T> {

}

} // verus!
