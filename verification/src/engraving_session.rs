//! Binding an engraving configuration to a loaded scene: which configured
//! nodes can carry an engraving texture, and the errors of those that
//! cannot.

use vstd::prelude::*;
use crate::text::push_str;

verus! {

/// Error produced while binding an engraving configuration to a scene, or
/// while re-rendering text for one of its nodes. (Failures of the GPU and
/// of text rasterization are reported by the caller that meets them.)
#[derive(Clone, PartialEq, Eq, Debug)]
pub enum EngravingError {
    /// No node named this way exists in the scene.
    NodeNotFound(String),
    /// The node exists but isn't a mesh (or its mesh has no primitives).
    NotAMesh(String),
    /// A primitive material of the node isn't a PBR material.
    MaterialNotPbr(String),
    /// The session has no entry for the requested node name.
    UnknownNode(String),
}

/// The message of an [`EngravingError`] for the node called `n`.
pub open spec fn engraving_error_text(e: EngravingError) -> Seq<char> {
    match e {
        EngravingError::NodeNotFound(n) => "no node named '"@ + n@ + "' in the scene"@,
        EngravingError::NotAMesh(n) => "node '"@ + n@ + "' is not a mesh with at least one primitive"@,
        EngravingError::MaterialNotPbr(n) => "node '"@ + n@ + "'s material is not a PbrMaterial"@,
        EngravingError::UnknownNode(n) => "no engraving config for node '"@ + n@ + "'"@,
    }
}

impl EngravingError {
    /// The error's message.
    pub fn message(&self) -> (r: String)
        ensures
            r@ == engraving_error_text(*self),
    {
        let mut s = String::new();
        match self {
            EngravingError::NodeNotFound(n) => {
                push_str(&mut s, "no node named '");
                push_str(&mut s, n.as_str());
                push_str(&mut s, "' in the scene");
            },
            EngravingError::NotAMesh(n) => {
                push_str(&mut s, "node '");
                push_str(&mut s, n.as_str());
                push_str(&mut s, "' is not a mesh with at least one primitive");
            },
            EngravingError::MaterialNotPbr(n) => {
                push_str(&mut s, "node '");
                push_str(&mut s, n.as_str());
                push_str(&mut s, "'s material is not a PbrMaterial");
            },
            EngravingError::UnknownNode(n) => {
                push_str(&mut s, "no engraving config for node '");
                push_str(&mut s, n.as_str());
                push_str(&mut s, "'");
            },
        }
        s
    }
}

/// What the scene holds under a configured node's name.
#[derive(Clone, Debug)]
pub enum EngravingTarget {
    /// No node of that name.
    Missing,
    /// A node that is not a mesh.
    NotAMesh,
    /// A mesh node; for each of its primitives, whether the primitive's
    /// material is a PBR material.
    Mesh(Vec<bool>),
}

/// Whether the node `name`, found in the scene as `target`, can carry an
/// engraving texture: a mesh with at least one primitive, every primitive
/// with a PBR material. Otherwise the error for it.
pub open spec fn target_check_spec(name: String, target: EngravingTarget) -> Result<(), EngravingError> {
    match target {
        EngravingTarget::Missing => Err(EngravingError::NodeNotFound(name)),
        EngravingTarget::NotAMesh => Err(EngravingError::NotAMesh(name)),
        EngravingTarget::Mesh(pbr) => if pbr@.len() == 0 {
            Err(EngravingError::NotAMesh(name))
        } else if exists|i: int| 0 <= i < pbr@.len() && !#[trigger] pbr@[i] {
            Err(EngravingError::MaterialNotPbr(name))
        } else {
            Ok(())
        },
    }
}

/// Checks one configured node before its canvas and texture are allocated
/// and wired into its materials.
pub fn engraving_target_check(name: &String, target: &EngravingTarget) -> (r: Result<(), EngravingError>)
    ensures
        r == target_check_spec(*name, *target),
{
    match target {
        EngravingTarget::Missing => Err(EngravingError::NodeNotFound(name.clone())),
        EngravingTarget::NotAMesh => Err(EngravingError::NotAMesh(name.clone())),
        EngravingTarget::Mesh(pbr) => {
            if pbr.len() == 0 {
                return Err(EngravingError::NotAMesh(name.clone()));
            }
            let mut i: usize = 0;
            while i < pbr.len()
                invariant
                    i <= pbr@.len(),
                    pbr@.len() > 0,
                    *target == EngravingTarget::Mesh(*pbr),
                    forall|k: int| 0 <= k < i ==> pbr@[k],
                decreases pbr.len() - i,
            {
                if !pbr[i] {
                    assert(0 <= i < pbr@.len() && !pbr@[i as int]);
                    return Err(EngravingError::MaterialNotPbr(name.clone()));
                }
                i = i + 1;
            }
            Ok(())
        },
    }
}

/// A node is accepted for engraving exactly when it is a mesh with at
/// least one primitive and every one of its primitives has a PBR material;
/// a mesh with a primitive whose material is not PBR is refused for that,
/// whichever primitive it is.
pub proof fn lemma_target_accepted_iff_all_pbr(name: String, target: EngravingTarget)
    ensures
        target_check_spec(name, target) is Ok <==> (target matches EngravingTarget::Mesh(pbr)
            && pbr@.len() > 0 && forall|i: int| 0 <= i < pbr@.len() ==> pbr@[i]),
        target matches EngravingTarget::Mesh(pbr) ==> forall|i: int| 0 <= i < pbr@.len() && !pbr@[i]
            ==> target_check_spec(name, target) == Err::<(), EngravingError>(EngravingError::MaterialNotPbr(name)),
        target is Missing ==> target_check_spec(name, target) == Err::<(), EngravingError>(EngravingError::NodeNotFound(name)),
        target is NotAMesh ==> target_check_spec(name, target) == Err::<(), EngravingError>(EngravingError::NotAMesh(name)),
{
}

} // verus!
