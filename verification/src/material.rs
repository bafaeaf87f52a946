use vstd::prelude::*;

verus! {

/// Number of kinds of material a sphere can be made of.
pub const MATERIAL_KIND_COUNT: usize = 4;

/// The kind of a material, without its parameters: what the material
/// editor offers to choose from, in this order.
#[derive(Clone, Copy, Debug, PartialEq, Eq, Structural)]
pub enum MaterialKind {
    Lambertian,
    Metal,
    Glass,
    Emissive,
}

impl MaterialKind {
    /// The name the material editor shows.
    pub open spec fn spec_label(self) -> Seq<char> {
        match self {
            MaterialKind::Lambertian => "Lambertian"@,
            MaterialKind::Metal => "Metal"@,
            MaterialKind::Glass => "Glass"@,
            MaterialKind::Emissive => "Emissive"@,
        }
    }

    /// Position of the kind in the editor's list.
    pub open spec fn spec_index(self) -> nat {
        match self {
            MaterialKind::Lambertian => 0,
            MaterialKind::Metal => 1,
            MaterialKind::Glass => 2,
            MaterialKind::Emissive => 3,
        }
    }

    /// The kind at position `i` of the editor's list, if there is one.
    pub open spec fn spec_from_index(i: nat) -> Option<MaterialKind> {
        if i == 0 {
            Some(MaterialKind::Lambertian)
        } else if i == 1 {
            Some(MaterialKind::Metal)
        } else if i == 2 {
            Some(MaterialKind::Glass)
        } else if i == 3 {
            Some(MaterialKind::Emissive)
        } else {
            None
        }
    }

    /// Human-readable name of the kind.
    pub fn label(self) -> (s: &'static str)
        ensures
            s@ == self.spec_label(),
    {
        match self {
            MaterialKind::Lambertian => "Lambertian",
            MaterialKind::Metal => "Metal",
            MaterialKind::Glass => "Glass",
            MaterialKind::Emissive => "Emissive",
        }
    }

    /// Position of the kind in the editor's list.
    pub fn index(self) -> (i: usize)
        ensures
            i == self.spec_index(),
            i < MATERIAL_KIND_COUNT,
    {
        match self {
            MaterialKind::Lambertian => 0,
            MaterialKind::Metal => 1,
            MaterialKind::Glass => 2,
            MaterialKind::Emissive => 3,
        }
    }

    /// The kind at position `i` of the editor's list, or `None` past its end.
    pub fn from_index(i: usize) -> (kind: Option<MaterialKind>)
        ensures
            kind == Self::spec_from_index(i as nat),
            kind is Some <==> i < MATERIAL_KIND_COUNT,
    {
        if i == 0 {
            Some(MaterialKind::Lambertian)
        } else if i == 1 {
            Some(MaterialKind::Metal)
        } else if i == 2 {
            Some(MaterialKind::Glass)
        } else if i == 3 {
            Some(MaterialKind::Emissive)
        } else {
            None
        }
    }
}

/// Each kind is named after itself.
pub proof fn law_labels()
    ensures
        MaterialKind::Lambertian.spec_label() == "Lambertian"@,
        MaterialKind::Metal.spec_label() == "Metal"@,
        MaterialKind::Glass.spec_label() == "Glass"@,
        MaterialKind::Emissive.spec_label() == "Emissive"@,
{
}

/// The editor lists the kinds in the order Lambertian, Metal, Glass,
/// Emissive, and nothing else: the entry at position `i` is the `i`-th of
/// these, named accordingly.
pub proof fn law_editor_list(i: nat)
    ensures
        i < 4 ==> MaterialKind::spec_from_index(i) == Some(
            seq![MaterialKind::Lambertian, MaterialKind::Metal, MaterialKind::Glass, MaterialKind::Emissive][i as int],
        ),
        i < 4 ==> MaterialKind::spec_from_index(i).unwrap().spec_label()
            == seq!["Lambertian"@, "Metal"@, "Glass"@, "Emissive"@][i as int],
        i >= 4 ==> MaterialKind::spec_from_index(i) is None,
        MATERIAL_KIND_COUNT == 4,
{
}

/// Choosing the entry at a kind's own position gives the kind back.
pub proof fn law_index_round_trip(kind: MaterialKind)
    ensures
        MaterialKind::spec_from_index(kind.spec_index()) == Some(kind),
{
}

/// Every position of the list holds the kind that reports that position.
pub proof fn law_from_index_round_trip(i: nat)
    requires
        i < MATERIAL_KIND_COUNT,
    ensures
        MaterialKind::spec_from_index(i) matches Some(kind) && kind.spec_index() == i,
{
}

/// Different kinds have different names, so finding a kind by its name is exact.
pub proof fn law_labels_distinct(a: MaterialKind, b: MaterialKind)
    requires
        a != b,
    ensures
        a.spec_label() != b.spec_label(),
{
    reveal_strlit("Lambertian");
    reveal_strlit("Metal");
    reveal_strlit("Glass");
    reveal_strlit("Emissive");
    assert(a.spec_label().len() != b.spec_label().len() || a.spec_label()[0] != b.spec_label()[0]);
}

} // verus!
