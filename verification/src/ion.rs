use vstd::prelude::*;

verus! {

/// The series a fragment ion belongs to: which backbone bond broke, on which
/// side of it the fragment lies, and what the fragment lost or gained.
#[derive(Clone, Copy, PartialEq, Eq, Hash, Debug, Structural)]
pub enum IonSeries {
    A,
    AH2O,
    ANH3,
    B,
    BH2O,
    BNH3,
    C,
    CDot,
    CM1,
    CP1,
    CP2,
    CH2O,
    CNH3,
    D,
    V,
    W,
    X,
    XH2O,
    XNH3,
    Y,
    YH2O,
    YNH3,
    YA,
    YB,
    Z,
    ZH2O,
    ZNH3,
    ZDot,
    ZP1,
    ZP2,
    ZP3,
    Immonium,
}

impl IonSeries {
    /// The label under which a series is shown to the caller.
    pub open spec fn label(self) -> Seq<char> {
        match self {
            IonSeries::A => "a"@,
            IonSeries::AH2O => "a-H2O"@,
            IonSeries::ANH3 => "a-NH3"@,
            IonSeries::B => "b"@,
            IonSeries::BH2O => "b-H2O"@,
            IonSeries::BNH3 => "b-NH3"@,
            IonSeries::C => "c"@,
            IonSeries::CDot => "c_dot"@,
            IonSeries::CM1 => "c_m1"@,
            IonSeries::CP1 => "c_p1"@,
            IonSeries::CP2 => "c_p2"@,
            IonSeries::CH2O => "c-H2O"@,
            IonSeries::CNH3 => "c-NH3"@,
            IonSeries::D => "d"@,
            IonSeries::V => "v"@,
            IonSeries::W => "w"@,
            IonSeries::X => "x"@,
            IonSeries::XH2O => "x-H2O"@,
            IonSeries::XNH3 => "x-NH3"@,
            IonSeries::Y => "y"@,
            IonSeries::YH2O => "y-H2O"@,
            IonSeries::YNH3 => "y-NH3"@,
            IonSeries::YA => "ya"@,
            IonSeries::YB => "yb"@,
            IonSeries::Z => "z"@,
            IonSeries::ZH2O => "z-H2O"@,
            IonSeries::ZNH3 => "z-NH3"@,
            IonSeries::ZDot => "z_dot"@,
            IonSeries::ZP1 => "z_p1"@,
            IonSeries::ZP2 => "z_p2"@,
            IonSeries::ZP3 => "z_p3"@,
            IonSeries::Immonium => "immonium"@,
        }
    }

    /// The label of a series. The table is closed: every series has its label.
    pub fn as_str(&self) -> (text: &'static str)
        ensures
            text@ == self.label(),
    {
        match self {
            IonSeries::A => "a",
            IonSeries::AH2O => "a-H2O",
            IonSeries::ANH3 => "a-NH3",
            IonSeries::B => "b",
            IonSeries::BH2O => "b-H2O",
            IonSeries::BNH3 => "b-NH3",
            IonSeries::C => "c",
            IonSeries::CDot => "c_dot",
            IonSeries::CM1 => "c_m1",
            IonSeries::CP1 => "c_p1",
            IonSeries::CP2 => "c_p2",
            IonSeries::CH2O => "c-H2O",
            IonSeries::CNH3 => "c-NH3",
            IonSeries::D => "d",
            IonSeries::V => "v",
            IonSeries::W => "w",
            IonSeries::X => "x",
            IonSeries::XH2O => "x-H2O",
            IonSeries::XNH3 => "x-NH3",
            IonSeries::Y => "y",
            IonSeries::YH2O => "y-H2O",
            IonSeries::YNH3 => "y-NH3",
            IonSeries::YA => "ya",
            IonSeries::YB => "yb",
            IonSeries::Z => "z",
            IonSeries::ZH2O => "z-H2O",
            IonSeries::ZNH3 => "z-NH3",
            IonSeries::ZDot => "z_dot",
            IonSeries::ZP1 => "z_p1",
            IonSeries::ZP2 => "z_p2",
            IonSeries::ZP3 => "z_p3",
            IonSeries::Immonium => "immonium",
        }
    }
}

/// No two series share a label.
pub proof fn lemma_labels_are_distinct(a: IonSeries, b: IonSeries)
    requires
        a != b,
    ensures
        a.label() != b.label(),
{
    reveal_strlit("a");
    reveal_strlit("a-H2O");
    reveal_strlit("a-NH3");
    reveal_strlit("b");
    reveal_strlit("b-H2O");
    reveal_strlit("b-NH3");
    reveal_strlit("c");
    reveal_strlit("c_dot");
    reveal_strlit("c_m1");
    reveal_strlit("c_p1");
    reveal_strlit("c_p2");
    reveal_strlit("c-H2O");
    reveal_strlit("c-NH3");
    reveal_strlit("d");
    reveal_strlit("v");
    reveal_strlit("w");
    reveal_strlit("x");
    reveal_strlit("x-H2O");
    reveal_strlit("x-NH3");
    reveal_strlit("y");
    reveal_strlit("y-H2O");
    reveal_strlit("y-NH3");
    reveal_strlit("ya");
    reveal_strlit("yb");
    reveal_strlit("z");
    reveal_strlit("z-H2O");
    reveal_strlit("z-NH3");
    reveal_strlit("z_dot");
    reveal_strlit("z_p1");
    reveal_strlit("z_p2");
    reveal_strlit("z_p3");
    reveal_strlit("immonium");
    if a.label() == b.label() {
        assert(a.label().len() == b.label().len());
        assert(a.label()[0] == b.label()[0]);
        if a.label().len() > 1 {
            assert(a.label()[1] == b.label()[1]);
        }
        if a.label().len() > 2 {
            assert(a.label()[2] == b.label()[2]);
        }
        if a.label().len() > 3 {
            assert(a.label()[3] == b.label()[3]);
        }
    }
}

} // verus!
