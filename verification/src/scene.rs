use vstd::prelude::*;

verus! {

/// What a ray that leaves the scene sees.
#[derive(Clone, Copy, Debug, PartialEq, Eq, Structural)]
pub enum Skybox {
    Off,
    Dim,
    BlueGradient,
}

impl Skybox {
    /// The name the user interface shows for each skybox.
    pub open spec fn spec_label(self) -> Seq<char> {
        match self {
            Skybox::Off => "None"@,
            Skybox::Dim => "Dim ambient"@,
            Skybox::BlueGradient => "Blue gradient"@,
        }
    }

    /// Human-readable name of the skybox.
    pub fn label(self) -> (s: &'static str)
        ensures
            s@ == self.spec_label(),
    {
        match self {
            Skybox::Off => "None",
            Skybox::Dim => "Dim ambient",
            Skybox::BlueGradient => "Blue gradient",
        }
    }
}

/// Each skybox is shown under its own name.
pub proof fn law_skybox_labels()
    ensures
        Skybox::Off.spec_label() == "None"@,
        Skybox::Dim.spec_label() == "Dim ambient"@,
        Skybox::BlueGradient.spec_label() == "Blue gradient"@,
{
}

} // verus!
