//! The input-texture binding slot: what the generated kernel declares for
//! the uploaded image. Allocating the device texture and writing pixels into
//! it happen outside the library, against this slot's name and coordinates.

use vstd::prelude::*;

use crate::textfmt::spec_dec_nat;
use crate::util::{Binding, Group, TextureSampleType, TextureViewDimension};
use crate::wgsl::Wgsl;

verus! {

/// A texture binding slot of the kernel interface.
pub struct InputTextureSlot {
    pub name: String,
    pub group: Group,
    pub binding: Binding,
    pub sample_type: TextureSampleType,
    pub view_dimension: TextureViewDimension,
}

/// The declaration text of a texture slot.
pub open spec fn spec_texture_slot_decl(
    name: Seq<char>,
    group: u32,
    binding: u32,
    view_dimension: TextureViewDimension,
) -> Seq<char> {
    "@group("@ + spec_dec_nat(group as nat) + ") @binding("@ + spec_dec_nat(binding as nat)
        + ") var "@ + name + " : "@ + (match view_dimension {
        TextureViewDimension::D2 => "texture_2d"@,
        TextureViewDimension::D3 => "texture_3d"@,
    }) + "<f32>;"@
}

impl InputTextureSlot {
    pub fn new(
        name: String,
        group: Group,
        binding: Binding,
        sample_type: TextureSampleType,
        view_dimension: TextureViewDimension,
    ) -> (r: Self)
        ensures
            r.name@ == name@,
            r.group.0 == group.0,
            r.binding.0 == binding.0,
            r.sample_type == sample_type,
            r.view_dimension == view_dimension,
    {
        InputTextureSlot { name, group, binding, sample_type, view_dimension }
    }

    pub fn name(&self) -> (r: &str)
        ensures
            r@ == self.name@,
    {
        self.name.as_str()
    }

    pub fn view_dimension(&self) -> (r: &TextureViewDimension)
        ensures
            r == self.view_dimension,
    {
        &self.view_dimension
    }

    /// The WGSL declaration of the texture binding.
    pub fn to_wgsl_declaration(&self) -> (r: String)
        ensures
            r@ == spec_texture_slot_decl(
                self.name@,
                self.group.0,
                self.binding.0,
                self.view_dimension,
            ),
    {
        let mut r = String::new();
        r.append("@group(");
        let g = self.group.wgsl();
        r.append(g.as_str());
        r.append(") @binding(");
        let b = self.binding.wgsl();
        r.append(b.as_str());
        r.append(") var ");
        r.append(self.name.as_str());
        r.append(" : ");
        match self.view_dimension {
            TextureViewDimension::D2 => r.append("texture_2d"),
            TextureViewDimension::D3 => r.append("texture_3d"),
        }
        r.append("<f32>;");
        proof {
            assert(r@ =~= spec_texture_slot_decl(
                self.name@,
                self.group.0,
                self.binding.0,
                self.view_dimension,
            ));
        }
        r
    }
}

} // verus!
