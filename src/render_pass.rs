use vstd::prelude::*;

verus! {

/// A vertex attribute that a render pass reads.
#[derive(Clone, Copy, Debug, PartialEq, Eq, Structural)]
pub enum VertexAttribute {
    Position,
    Normal,
    TexCoord,
    /// Joint ids and weights combined, for skinned meshes.
    JointCombined,
}

/// The outline-shading 3D pass: its name and the vertex layouts it reads,
/// for plain and for skinned meshes.
#[derive(Debug)]
pub struct CustomPassDef;

/// The attributes of an unskinned vertex, in order.
pub open spec fn base_layout() -> Seq<VertexAttribute> {
    seq![VertexAttribute::Position, VertexAttribute::Normal, VertexAttribute::TexCoord]
}

impl CustomPassDef {
    /// The name the pass is registered under.
    pub fn name() -> (r: &'static str)
        ensures
            r@ == seq!['C', 'u', 's', 't', 'o', 'm'],
    {
        let r = "Custom";
        proof {
            reveal_strlit("Custom");
        }
        r
    }

    /// The layout of an unskinned vertex.
    pub fn base_format() -> (r: Vec<VertexAttribute>)
        ensures
            r@ == base_layout(),
    {
        let r = vec![VertexAttribute::Position, VertexAttribute::Normal, VertexAttribute::TexCoord];
        assert(r@ =~= base_layout());
        r
    }

    /// The layout of a skinned vertex: the unskinned one, then the joints.
    pub fn skinned_format() -> (r: Vec<VertexAttribute>)
        ensures
            r@ == base_layout().push(VertexAttribute::JointCombined),
    {
        let mut r = CustomPassDef::base_format();
        r.push(VertexAttribute::JointCombined);
        r
    }
}

} // verus!
