//! Input texture declarations and the sampling expressions they offer.

use vstd::prelude::*;

use crate::util::{Binding, Group};
use crate::wgsl::expression::Expression;
use crate::wgsl::{FVec4, IVec2, U32, UVec2, Wgsl};

verus! {

/// A module-scope 2-D float texture binding.
pub struct Texture2dDecl {
    pub group: Group,
    pub binding: Binding,
    pub name: String,
}

impl Texture2dDecl {
    /// A fresh declaration with the same slot and name.
    pub fn duplicate(&self) -> (r: Self)
        ensures
            r.group.0 == self.group.0,
            r.binding.0 == self.binding.0,
            r.name@ == self.name@,
            r.wgsl_spec() == self.wgsl_spec(),
    {
        Texture2dDecl {
            group: Group(self.group.0),
            binding: Binding(self.binding.0),
            name: self.name.clone(),
        }
    }

    /// `textureLoad(name, coords, level)`: one texel fetch.
    #[allow(non_snake_case)]
    pub fn textureLoad(&self, coords: &Expression<IVec2>, level: &Expression<U32>) -> (r:
        Expression<FVec4>)
        ensures
            r@ == spec_texture_load(self.name@, coords@, level@),
    {
        let mut code = String::new();
        code.append("textureLoad(");
        code.append(self.name.as_str());
        code.append(", ");
        code.append(coords.code.as_str());
        code.append(", ");
        code.append(level.code.as_str());
        code.append(")");
        proof {
            assert(code@ =~= spec_texture_load(self.name@, coords@, level@));
        }
        Expression::new(code)
    }

    /// `textureDimensions(name)`: the texture extent as a `vec2<u32>`.
    #[allow(non_snake_case)]
    pub fn textureDimensions(&self) -> (r: Expression<UVec2>)
        ensures
            r@ == "textureDimensions("@ + self.name@ + ")"@,
    {
        let mut code = String::new();
        code.append("textureDimensions(");
        code.append(self.name.as_str());
        code.append(")");
        proof {
            assert(code@ =~= "textureDimensions("@ + self.name@ + ")"@);
        }
        Expression::new(code)
    }
}

/// The text `textureLoad(name, coords, level)`.
pub open spec fn spec_texture_load(name: Seq<char>, coords: Seq<char>, level: Seq<char>) -> Seq<
    char,
> {
    "textureLoad("@ + name + ", "@ + coords + ", "@ + level + ")"@
}

impl Texture2dDecl {
    /// The WGSL declaration of the texture binding.
    pub fn wgsl(&self) -> (r: String)
        ensures
            r@ == self.wgsl_spec(),
    {
        let mut r = String::new();
        r.append("@group(");
        let g = self.group.wgsl();
        r.append(g.as_str());
        r.append(") @binding(");
        let b = self.binding.wgsl();
        r.append(b.as_str());
        r.append(") var ");
        r.append(self.name.as_str());
        r.append(" : texture_2d<f32>;");
        proof {
            assert(r@ =~= self.wgsl_spec());
        }
        r
    }
}

impl Wgsl for Texture2dDecl {
    open spec fn wgsl_spec(&self) -> Seq<char> {
        "@group("@ + self.group.wgsl_spec() + ") @binding("@ + self.binding.wgsl_spec()
            + ") var "@ + self.name@ + " : texture_2d<f32>;"@
    }

    fn wgsl(&self) -> (r: String) {
        Texture2dDecl::wgsl(self)
    }
}

} // verus!
