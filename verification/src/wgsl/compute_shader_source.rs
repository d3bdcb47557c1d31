//! A whole compute-kernel source: resource declarations, the entry point
//! header, and the ordered statement body, emitted verbatim in insertion
//! order.

use vstd::prelude::*;

use crate::util::WorkgroupSize;
use crate::wgsl::buffer::OutputBufferDecl;
use crate::wgsl::expression::Expression;
use crate::wgsl::statement::Statement;
use crate::wgsl::texture::Texture2dDecl;
use crate::wgsl::{FVec4, UVec3, Wgsl};

verus! {

/// The fragments joined by `sep`, in order.
pub open spec fn spec_join(elems: Seq<Seq<char>>, sep: Seq<char>) -> Seq<char>
    decreases elems.len(),
{
    if elems.len() == 0 {
        Seq::<char>::empty()
    } else if elems.len() == 1 {
        elems[0]
    } else {
        spec_join(elems.drop_last(), sep) + sep + elems.last()
    }
}

/// Render every item and join the results with `sep`.
pub fn join_wgsl<T: Wgsl>(items: &Vec<T>, sep: &str) -> (r: String)
    ensures
        r@ == spec_join(items@.map_values(|t: T| t.wgsl_spec()), sep@),
{
    let ghost views = items@.map_values(|t: T| t.wgsl_spec());
    let mut r = String::new();
    let mut i: usize = 0;
    proof {
        assert(views.take(0) =~= Seq::<Seq<char>>::empty());
    }
    while i < items.len()
        invariant
            i <= items.len(),
            views == items@.map_values(|t: T| t.wgsl_spec()),
            r@ == spec_join(views.take(i as int), sep@),
        decreases items.len() - i,
    {
        if i > 0 {
            r.append(sep);
        }
        let piece = items[i].wgsl();
        r.append(piece.as_str());
        proof {
            assert(views.take(i as int + 1).drop_last() =~= views.take(i as int));
            assert(views.take(i as int + 1).last() == views[i as int]);
        }
        i += 1;
    }
    proof {
        assert(views.take(items@.len() as int) =~= views);
    }
    r
}

/// A complete kernel function: texture and buffer declarations, then the
/// entry point wrapping the statement body.
pub struct ComputeShaderSource {
    pub workgroup_size: WorkgroupSize,
    pub main_fn_name: String,
    pub input_textures: Vec<Texture2dDecl>,
    pub output_buffers: Vec<OutputBufferDecl<FVec4>>,
    pub statements: Vec<Statement>,
}

impl ComputeShaderSource {
    /// The builtin invocation-coordinate argument of the entry point.
    pub fn global_invocation_id() -> (r: Expression<UVec3>)
        ensures
            r@ == "global_invocation_id"@,
    {
        Expression::new(String::from_str("global_invocation_id"))
    }

    /// Render the whole kernel source.
    pub fn wgsl(&self) -> (r: String)
        ensures
            r@ == self.wgsl_spec(),
    {
        let mut r = String::new();
        let textures = join_wgsl(&self.input_textures, "\n");
        r.append(textures.as_str());
        r.append("\n\n");
        let buffers = join_wgsl(&self.output_buffers, "\n");
        r.append(buffers.as_str());
        r.append("\n\n@compute ");
        let wgs = self.workgroup_size.wgsl();
        r.append(wgs.as_str());
        r.append("\nfn ");
        r.append(self.main_fn_name.as_str());
        r.append("(@builtin(global_invocation_id) global_invocation_id : vec3<u32>) {\n");
        let body = join_wgsl(&self.statements, "\n");
        r.append(body.as_str());
        r.append("\n}\n");
        proof {
            assert(r@ =~= self.wgsl_spec());
        }
        r
    }
}

impl Wgsl for ComputeShaderSource {
    open spec fn wgsl_spec(&self) -> Seq<char> {
        spec_join(self.input_textures@.map_values(|t: Texture2dDecl| t.wgsl_spec()), "\n"@)
            + "\n\n"@ + spec_join(
            self.output_buffers@.map_values(|b: OutputBufferDecl<FVec4>| b.wgsl_spec()),
            "\n"@,
        ) + "\n\n@compute "@ + self.workgroup_size.wgsl_spec() + "\nfn "@ + self.main_fn_name@
            + "(@builtin(global_invocation_id) global_invocation_id : vec3<u32>) {\n"@
            + spec_join(self.statements@.map_values(|s: Statement| s.wgsl_spec()), "\n"@)
            + "\n}\n"@
    }

    fn wgsl(&self) -> (r: String) {
        ComputeShaderSource::wgsl(self)
    }
}

} // verus!
