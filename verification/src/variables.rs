//! The names of the variables the models read and write.

use vstd::prelude::*;

use crate::text::{ascii_lower, eq_ignore_ascii_case, same_text, same_text_ignore_ascii_case};

verus! {

/// A variable of the weather and satellite input.
#[allow(non_camel_case_types)]
#[derive(Clone, Copy, Debug, PartialEq, Eq, Hash, Structural)]
pub enum InputVariableName {
    /// Observed relative humidity [%]
    F,
    /// Relative humidity [%]
    H,
    /// Observed temperature [K or C]
    K,
    /// Forecasted temperature [K or C]
    T,
    /// Forecasted dew point temperature [K or C]
    R,
    /// Forecasted specific humidity [Kg/Kg]
    Q,
    /// Forecasted pressure at surface level [Pa]
    PSFC,
    /// Wind Speed [m/s]
    W,
    /// Wind Direction [degrees]
    D,
    /// U component of the wind [m/s]
    U,
    /// V value of the wind [m/s]
    V,
    /// Observed precipitation [mm]
    O,
    /// Forecasted precipitation [mm]
    P,
    /// Forecasted snow cover depth [mm]
    SNOW,
    /// NDWI value
    NDWI,
    /// NDVI value
    NDVI,
    /// MSI value
    M,
    /// SWI value
    SWI,
}

impl InputVariableName {
    /// The variable's name in input files.
    pub open spec fn spec_name(self) -> Seq<char> {
        match self {
            InputVariableName::F => "F"@,
            InputVariableName::H => "H"@,
            InputVariableName::K => "K"@,
            InputVariableName::T => "T"@,
            InputVariableName::R => "R"@,
            InputVariableName::Q => "Q"@,
            InputVariableName::PSFC => "PSFC"@,
            InputVariableName::W => "W"@,
            InputVariableName::D => "D"@,
            InputVariableName::U => "U"@,
            InputVariableName::V => "V"@,
            InputVariableName::O => "O"@,
            InputVariableName::P => "P"@,
            InputVariableName::SNOW => "SNOW"@,
            InputVariableName::NDWI => "NDWI"@,
            InputVariableName::NDVI => "NDVI"@,
            InputVariableName::M => "M"@,
            InputVariableName::SWI => "SWI"@,
        }
    }

    /// The variable's place in declaration order.
    pub open spec fn rank(self) -> int {
        match self {
            InputVariableName::F => 0,
            InputVariableName::H => 1,
            InputVariableName::K => 2,
            InputVariableName::T => 3,
            InputVariableName::R => 4,
            InputVariableName::Q => 5,
            InputVariableName::PSFC => 6,
            InputVariableName::W => 7,
            InputVariableName::D => 8,
            InputVariableName::U => 9,
            InputVariableName::V => 10,
            InputVariableName::O => 11,
            InputVariableName::P => 12,
            InputVariableName::SNOW => 13,
            InputVariableName::NDWI => 14,
            InputVariableName::NDVI => 15,
            InputVariableName::M => 16,
            InputVariableName::SWI => 17,
        }
    }

    /// The variable's name in input files.
    pub fn name(&self) -> (name: &'static str)
        ensures
            name@ == self.spec_name(),
    {
        match self {
            InputVariableName::F => "F",
            InputVariableName::H => "H",
            InputVariableName::K => "K",
            InputVariableName::T => "T",
            InputVariableName::R => "R",
            InputVariableName::Q => "Q",
            InputVariableName::PSFC => "PSFC",
            InputVariableName::W => "W",
            InputVariableName::D => "D",
            InputVariableName::U => "U",
            InputVariableName::V => "V",
            InputVariableName::O => "O",
            InputVariableName::P => "P",
            InputVariableName::SNOW => "SNOW",
            InputVariableName::NDWI => "NDWI",
            InputVariableName::NDVI => "NDVI",
            InputVariableName::M => "M",
            InputVariableName::SWI => "SWI",
        }
    }

    /// Every input variable, in declaration order.
    pub fn all() -> (all: Vec<InputVariableName>)
        ensures
            all@.len() == 18,
            forall|v: InputVariableName| #[trigger] all@[v.rank()] == v,
            forall|k: int| 0 <= k < 18 ==> (#[trigger] all@[k]).rank() == k,
    {
        vec![
            InputVariableName::F,
            InputVariableName::H,
            InputVariableName::K,
            InputVariableName::T,
            InputVariableName::R,
            InputVariableName::Q,
            InputVariableName::PSFC,
            InputVariableName::W,
            InputVariableName::D,
            InputVariableName::U,
            InputVariableName::V,
            InputVariableName::O,
            InputVariableName::P,
            InputVariableName::SNOW,
            InputVariableName::NDWI,
            InputVariableName::NDVI,
            InputVariableName::M,
            InputVariableName::SWI,
        ]
    }

    /// The variable named exactly `text`.
    pub fn from_name(text: &str) -> (found: Option<InputVariableName>)
        ensures
            match found {
                Some(v) => v.spec_name() == text@
                    && forall|w: InputVariableName| w.rank() < v.rank() ==> w.spec_name() != text@,
                None => forall|w: InputVariableName| w.spec_name() != text@,
            },
    {
        let all = InputVariableName::all();
        let mut k: usize = 0;
        while k < all.len()
            invariant
                all@.len() == 18,
                forall|v: InputVariableName| #[trigger] all@[v.rank()] == v,
                forall|j: int| 0 <= j < 18 ==> (#[trigger] all@[j]).rank() == j,
                k <= 18,
                forall|w: InputVariableName| w.rank() < k ==> w.spec_name() != text@,
            decreases 18 - k,
        {
            let v = all[k];
            if same_text(v.name(), text) {
                return Some(v);
            }
            proof {
                assert forall|w: InputVariableName| w.rank() < k + 1 implies w.spec_name() != text@ by {
                    if w.rank() == k {
                        assert(all@[w.rank()] == w);
                    }
                }
            }
            k += 1;
        }
        None
    }
}

/// Input variables are named in input file names by their identifiers: `U`
/// by "U", `V` by "V", and so on.
pub proof fn law_input_variable_names()
    ensures
        InputVariableName::F.spec_name() == "F"@,
        InputVariableName::H.spec_name() == "H"@,
        InputVariableName::K.spec_name() == "K"@,
        InputVariableName::T.spec_name() == "T"@,
        InputVariableName::R.spec_name() == "R"@,
        InputVariableName::Q.spec_name() == "Q"@,
        InputVariableName::PSFC.spec_name() == "PSFC"@,
        InputVariableName::W.spec_name() == "W"@,
        InputVariableName::D.spec_name() == "D"@,
        InputVariableName::U.spec_name() == "U"@,
        InputVariableName::V.spec_name() == "V"@,
        InputVariableName::O.spec_name() == "O"@,
        InputVariableName::P.spec_name() == "P"@,
        InputVariableName::SNOW.spec_name() == "SNOW"@,
        InputVariableName::NDWI.spec_name() == "NDWI"@,
        InputVariableName::NDVI.spec_name() == "NDVI"@,
        InputVariableName::M.spec_name() == "M"@,
        InputVariableName::SWI.spec_name() == "SWI"@,
{
}

/// No two input variables share a name, so a file name's variable token
/// picks out exactly one variable.
pub proof fn law_input_variable_names_distinct(v: InputVariableName, w: InputVariableName)
    requires
        v.spec_name() == w.spec_name(),
    ensures
        v == w,
{
    reveal_strlit("F");
    reveal_strlit("H");
    reveal_strlit("K");
    reveal_strlit("T");
    reveal_strlit("R");
    reveal_strlit("Q");
    reveal_strlit("PSFC");
    reveal_strlit("W");
    reveal_strlit("D");
    reveal_strlit("U");
    reveal_strlit("V");
    reveal_strlit("O");
    reveal_strlit("P");
    reveal_strlit("SNOW");
    reveal_strlit("NDWI");
    reveal_strlit("NDVI");
    reveal_strlit("M");
    reveal_strlit("SWI");
    match v {
        InputVariableName::F => match w {
            InputVariableName::F => {},
            InputVariableName::H => { assert("F"@[0] != "H"@[0]); },
            InputVariableName::K => { assert("F"@[0] != "K"@[0]); },
            InputVariableName::T => { assert("F"@[0] != "T"@[0]); },
            InputVariableName::R => { assert("F"@[0] != "R"@[0]); },
            InputVariableName::Q => { assert("F"@[0] != "Q"@[0]); },
            InputVariableName::PSFC => { assert("F"@.len() != "PSFC"@.len()); },
            InputVariableName::W => { assert("F"@[0] != "W"@[0]); },
            InputVariableName::D => { assert("F"@[0] != "D"@[0]); },
            InputVariableName::U => { assert("F"@[0] != "U"@[0]); },
            InputVariableName::V => { assert("F"@[0] != "V"@[0]); },
            InputVariableName::O => { assert("F"@[0] != "O"@[0]); },
            InputVariableName::P => { assert("F"@[0] != "P"@[0]); },
            InputVariableName::SNOW => { assert("F"@.len() != "SNOW"@.len()); },
            InputVariableName::NDWI => { assert("F"@.len() != "NDWI"@.len()); },
            InputVariableName::NDVI => { assert("F"@.len() != "NDVI"@.len()); },
            InputVariableName::M => { assert("F"@[0] != "M"@[0]); },
            InputVariableName::SWI => { assert("F"@.len() != "SWI"@.len()); },
        },
        InputVariableName::H => match w {
            InputVariableName::F => { assert("H"@[0] != "F"@[0]); },
            InputVariableName::H => {},
            InputVariableName::K => { assert("H"@[0] != "K"@[0]); },
            InputVariableName::T => { assert("H"@[0] != "T"@[0]); },
            InputVariableName::R => { assert("H"@[0] != "R"@[0]); },
            InputVariableName::Q => { assert("H"@[0] != "Q"@[0]); },
            InputVariableName::PSFC => { assert("H"@.len() != "PSFC"@.len()); },
            InputVariableName::W => { assert("H"@[0] != "W"@[0]); },
            InputVariableName::D => { assert("H"@[0] != "D"@[0]); },
            InputVariableName::U => { assert("H"@[0] != "U"@[0]); },
            InputVariableName::V => { assert("H"@[0] != "V"@[0]); },
            InputVariableName::O => { assert("H"@[0] != "O"@[0]); },
            InputVariableName::P => { assert("H"@[0] != "P"@[0]); },
            InputVariableName::SNOW => { assert("H"@.len() != "SNOW"@.len()); },
            InputVariableName::NDWI => { assert("H"@.len() != "NDWI"@.len()); },
            InputVariableName::NDVI => { assert("H"@.len() != "NDVI"@.len()); },
            InputVariableName::M => { assert("H"@[0] != "M"@[0]); },
            InputVariableName::SWI => { assert("H"@.len() != "SWI"@.len()); },
        },
        InputVariableName::K => match w {
            InputVariableName::F => { assert("K"@[0] != "F"@[0]); },
            InputVariableName::H => { assert("K"@[0] != "H"@[0]); },
            InputVariableName::K => {},
            InputVariableName::T => { assert("K"@[0] != "T"@[0]); },
            InputVariableName::R => { assert("K"@[0] != "R"@[0]); },
            InputVariableName::Q => { assert("K"@[0] != "Q"@[0]); },
            InputVariableName::PSFC => { assert("K"@.len() != "PSFC"@.len()); },
            InputVariableName::W => { assert("K"@[0] != "W"@[0]); },
            InputVariableName::D => { assert("K"@[0] != "D"@[0]); },
            InputVariableName::U => { assert("K"@[0] != "U"@[0]); },
            InputVariableName::V => { assert("K"@[0] != "V"@[0]); },
            InputVariableName::O => { assert("K"@[0] != "O"@[0]); },
            InputVariableName::P => { assert("K"@[0] != "P"@[0]); },
            InputVariableName::SNOW => { assert("K"@.len() != "SNOW"@.len()); },
            InputVariableName::NDWI => { assert("K"@.len() != "NDWI"@.len()); },
            InputVariableName::NDVI => { assert("K"@.len() != "NDVI"@.len()); },
            InputVariableName::M => { assert("K"@[0] != "M"@[0]); },
            InputVariableName::SWI => { assert("K"@.len() != "SWI"@.len()); },
        },
        InputVariableName::T => match w {
            InputVariableName::F => { assert("T"@[0] != "F"@[0]); },
            InputVariableName::H => { assert("T"@[0] != "H"@[0]); },
            InputVariableName::K => { assert("T"@[0] != "K"@[0]); },
            InputVariableName::T => {},
            InputVariableName::R => { assert("T"@[0] != "R"@[0]); },
            InputVariableName::Q => { assert("T"@[0] != "Q"@[0]); },
            InputVariableName::PSFC => { assert("T"@.len() != "PSFC"@.len()); },
            InputVariableName::W => { assert("T"@[0] != "W"@[0]); },
            InputVariableName::D => { assert("T"@[0] != "D"@[0]); },
            InputVariableName::U => { assert("T"@[0] != "U"@[0]); },
            InputVariableName::V => { assert("T"@[0] != "V"@[0]); },
            InputVariableName::O => { assert("T"@[0] != "O"@[0]); },
            InputVariableName::P => { assert("T"@[0] != "P"@[0]); },
            InputVariableName::SNOW => { assert("T"@.len() != "SNOW"@.len()); },
            InputVariableName::NDWI => { assert("T"@.len() != "NDWI"@.len()); },
            InputVariableName::NDVI => { assert("T"@.len() != "NDVI"@.len()); },
            InputVariableName::M => { assert("T"@[0] != "M"@[0]); },
            InputVariableName::SWI => { assert("T"@.len() != "SWI"@.len()); },
        },
        InputVariableName::R => match w {
            InputVariableName::F => { assert("R"@[0] != "F"@[0]); },
            InputVariableName::H => { assert("R"@[0] != "H"@[0]); },
            InputVariableName::K => { assert("R"@[0] != "K"@[0]); },
            InputVariableName::T => { assert("R"@[0] != "T"@[0]); },
            InputVariableName::R => {},
            InputVariableName::Q => { assert("R"@[0] != "Q"@[0]); },
            InputVariableName::PSFC => { assert("R"@.len() != "PSFC"@.len()); },
            InputVariableName::W => { assert("R"@[0] != "W"@[0]); },
            InputVariableName::D => { assert("R"@[0] != "D"@[0]); },
            InputVariableName::U => { assert("R"@[0] != "U"@[0]); },
            InputVariableName::V => { assert("R"@[0] != "V"@[0]); },
            InputVariableName::O => { assert("R"@[0] != "O"@[0]); },
            InputVariableName::P => { assert("R"@[0] != "P"@[0]); },
            InputVariableName::SNOW => { assert("R"@.len() != "SNOW"@.len()); },
            InputVariableName::NDWI => { assert("R"@.len() != "NDWI"@.len()); },
            InputVariableName::NDVI => { assert("R"@.len() != "NDVI"@.len()); },
            InputVariableName::M => { assert("R"@[0] != "M"@[0]); },
            InputVariableName::SWI => { assert("R"@.len() != "SWI"@.len()); },
        },
        InputVariableName::Q => match w {
            InputVariableName::F => { assert("Q"@[0] != "F"@[0]); },
            InputVariableName::H => { assert("Q"@[0] != "H"@[0]); },
            InputVariableName::K => { assert("Q"@[0] != "K"@[0]); },
            InputVariableName::T => { assert("Q"@[0] != "T"@[0]); },
            InputVariableName::R => { assert("Q"@[0] != "R"@[0]); },
            InputVariableName::Q => {},
            InputVariableName::PSFC => { assert("Q"@.len() != "PSFC"@.len()); },
            InputVariableName::W => { assert("Q"@[0] != "W"@[0]); },
            InputVariableName::D => { assert("Q"@[0] != "D"@[0]); },
            InputVariableName::U => { assert("Q"@[0] != "U"@[0]); },
            InputVariableName::V => { assert("Q"@[0] != "V"@[0]); },
            InputVariableName::O => { assert("Q"@[0] != "O"@[0]); },
            InputVariableName::P => { assert("Q"@[0] != "P"@[0]); },
            InputVariableName::SNOW => { assert("Q"@.len() != "SNOW"@.len()); },
            InputVariableName::NDWI => { assert("Q"@.len() != "NDWI"@.len()); },
            InputVariableName::NDVI => { assert("Q"@.len() != "NDVI"@.len()); },
            InputVariableName::M => { assert("Q"@[0] != "M"@[0]); },
            InputVariableName::SWI => { assert("Q"@.len() != "SWI"@.len()); },
        },
        InputVariableName::PSFC => match w {
            InputVariableName::F => { assert("PSFC"@.len() != "F"@.len()); },
            InputVariableName::H => { assert("PSFC"@.len() != "H"@.len()); },
            InputVariableName::K => { assert("PSFC"@.len() != "K"@.len()); },
            InputVariableName::T => { assert("PSFC"@.len() != "T"@.len()); },
            InputVariableName::R => { assert("PSFC"@.len() != "R"@.len()); },
            InputVariableName::Q => { assert("PSFC"@.len() != "Q"@.len()); },
            InputVariableName::PSFC => {},
            InputVariableName::W => { assert("PSFC"@.len() != "W"@.len()); },
            InputVariableName::D => { assert("PSFC"@.len() != "D"@.len()); },
            InputVariableName::U => { assert("PSFC"@.len() != "U"@.len()); },
            InputVariableName::V => { assert("PSFC"@.len() != "V"@.len()); },
            InputVariableName::O => { assert("PSFC"@.len() != "O"@.len()); },
            InputVariableName::P => { assert("PSFC"@.len() != "P"@.len()); },
            InputVariableName::SNOW => { assert("PSFC"@[0] != "SNOW"@[0]); },
            InputVariableName::NDWI => { assert("PSFC"@[0] != "NDWI"@[0]); },
            InputVariableName::NDVI => { assert("PSFC"@[0] != "NDVI"@[0]); },
            InputVariableName::M => { assert("PSFC"@.len() != "M"@.len()); },
            InputVariableName::SWI => { assert("PSFC"@.len() != "SWI"@.len()); },
        },
        InputVariableName::W => match w {
            InputVariableName::F => { assert("W"@[0] != "F"@[0]); },
            InputVariableName::H => { assert("W"@[0] != "H"@[0]); },
            InputVariableName::K => { assert("W"@[0] != "K"@[0]); },
            InputVariableName::T => { assert("W"@[0] != "T"@[0]); },
            InputVariableName::R => { assert("W"@[0] != "R"@[0]); },
            InputVariableName::Q => { assert("W"@[0] != "Q"@[0]); },
            InputVariableName::PSFC => { assert("W"@.len() != "PSFC"@.len()); },
            InputVariableName::W => {},
            InputVariableName::D => { assert("W"@[0] != "D"@[0]); },
            InputVariableName::U => { assert("W"@[0] != "U"@[0]); },
            InputVariableName::V => { assert("W"@[0] != "V"@[0]); },
            InputVariableName::O => { assert("W"@[0] != "O"@[0]); },
            InputVariableName::P => { assert("W"@[0] != "P"@[0]); },
            InputVariableName::SNOW => { assert("W"@.len() != "SNOW"@.len()); },
            InputVariableName::NDWI => { assert("W"@.len() != "NDWI"@.len()); },
            InputVariableName::NDVI => { assert("W"@.len() != "NDVI"@.len()); },
            InputVariableName::M => { assert("W"@[0] != "M"@[0]); },
            InputVariableName::SWI => { assert("W"@.len() != "SWI"@.len()); },
        },
        InputVariableName::D => match w {
            InputVariableName::F => { assert("D"@[0] != "F"@[0]); },
            InputVariableName::H => { assert("D"@[0] != "H"@[0]); },
            InputVariableName::K => { assert("D"@[0] != "K"@[0]); },
            InputVariableName::T => { assert("D"@[0] != "T"@[0]); },
            InputVariableName::R => { assert("D"@[0] != "R"@[0]); },
            InputVariableName::Q => { assert("D"@[0] != "Q"@[0]); },
            InputVariableName::PSFC => { assert("D"@.len() != "PSFC"@.len()); },
            InputVariableName::W => { assert("D"@[0] != "W"@[0]); },
            InputVariableName::D => {},
            InputVariableName::U => { assert("D"@[0] != "U"@[0]); },
            InputVariableName::V => { assert("D"@[0] != "V"@[0]); },
            InputVariableName::O => { assert("D"@[0] != "O"@[0]); },
            InputVariableName::P => { assert("D"@[0] != "P"@[0]); },
            InputVariableName::SNOW => { assert("D"@.len() != "SNOW"@.len()); },
            InputVariableName::NDWI => { assert("D"@.len() != "NDWI"@.len()); },
            InputVariableName::NDVI => { assert("D"@.len() != "NDVI"@.len()); },
            InputVariableName::M => { assert("D"@[0] != "M"@[0]); },
            InputVariableName::SWI => { assert("D"@.len() != "SWI"@.len()); },
        },
        InputVariableName::U => match w {
            InputVariableName::F => { assert("U"@[0] != "F"@[0]); },
            InputVariableName::H => { assert("U"@[0] != "H"@[0]); },
            InputVariableName::K => { assert("U"@[0] != "K"@[0]); },
            InputVariableName::T => { assert("U"@[0] != "T"@[0]); },
            InputVariableName::R => { assert("U"@[0] != "R"@[0]); },
            InputVariableName::Q => { assert("U"@[0] != "Q"@[0]); },
            InputVariableName::PSFC => { assert("U"@.len() != "PSFC"@.len()); },
            InputVariableName::W => { assert("U"@[0] != "W"@[0]); },
            InputVariableName::D => { assert("U"@[0] != "D"@[0]); },
            InputVariableName::U => {},
            InputVariableName::V => { assert("U"@[0] != "V"@[0]); },
            InputVariableName::O => { assert("U"@[0] != "O"@[0]); },
            InputVariableName::P => { assert("U"@[0] != "P"@[0]); },
            InputVariableName::SNOW => { assert("U"@.len() != "SNOW"@.len()); },
            InputVariableName::NDWI => { assert("U"@.len() != "NDWI"@.len()); },
            InputVariableName::NDVI => { assert("U"@.len() != "NDVI"@.len()); },
            InputVariableName::M => { assert("U"@[0] != "M"@[0]); },
            InputVariableName::SWI => { assert("U"@.len() != "SWI"@.len()); },
        },
        InputVariableName::V => match w {
            InputVariableName::F => { assert("V"@[0] != "F"@[0]); },
            InputVariableName::H => { assert("V"@[0] != "H"@[0]); },
            InputVariableName::K => { assert("V"@[0] != "K"@[0]); },
            InputVariableName::T => { assert("V"@[0] != "T"@[0]); },
            InputVariableName::R => { assert("V"@[0] != "R"@[0]); },
            InputVariableName::Q => { assert("V"@[0] != "Q"@[0]); },
            InputVariableName::PSFC => { assert("V"@.len() != "PSFC"@.len()); },
            InputVariableName::W => { assert("V"@[0] != "W"@[0]); },
            InputVariableName::D => { assert("V"@[0] != "D"@[0]); },
            InputVariableName::U => { assert("V"@[0] != "U"@[0]); },
            InputVariableName::V => {},
            InputVariableName::O => { assert("V"@[0] != "O"@[0]); },
            InputVariableName::P => { assert("V"@[0] != "P"@[0]); },
            InputVariableName::SNOW => { assert("V"@.len() != "SNOW"@.len()); },
            InputVariableName::NDWI => { assert("V"@.len() != "NDWI"@.len()); },
            InputVariableName::NDVI => { assert("V"@.len() != "NDVI"@.len()); },
            InputVariableName::M => { assert("V"@[0] != "M"@[0]); },
            InputVariableName::SWI => { assert("V"@.len() != "SWI"@.len()); },
        },
        InputVariableName::O => match w {
            InputVariableName::F => { assert("O"@[0] != "F"@[0]); },
            InputVariableName::H => { assert("O"@[0] != "H"@[0]); },
            InputVariableName::K => { assert("O"@[0] != "K"@[0]); },
            InputVariableName::T => { assert("O"@[0] != "T"@[0]); },
            InputVariableName::R => { assert("O"@[0] != "R"@[0]); },
            InputVariableName::Q => { assert("O"@[0] != "Q"@[0]); },
            InputVariableName::PSFC => { assert("O"@.len() != "PSFC"@.len()); },
            InputVariableName::W => { assert("O"@[0] != "W"@[0]); },
            InputVariableName::D => { assert("O"@[0] != "D"@[0]); },
            InputVariableName::U => { assert("O"@[0] != "U"@[0]); },
            InputVariableName::V => { assert("O"@[0] != "V"@[0]); },
            InputVariableName::O => {},
            InputVariableName::P => { assert("O"@[0] != "P"@[0]); },
            InputVariableName::SNOW => { assert("O"@.len() != "SNOW"@.len()); },
            InputVariableName::NDWI => { assert("O"@.len() != "NDWI"@.len()); },
            InputVariableName::NDVI => { assert("O"@.len() != "NDVI"@.len()); },
            InputVariableName::M => { assert("O"@[0] != "M"@[0]); },
            InputVariableName::SWI => { assert("O"@.len() != "SWI"@.len()); },
        },
        InputVariableName::P => match w {
            InputVariableName::F => { assert("P"@[0] != "F"@[0]); },
            InputVariableName::H => { assert("P"@[0] != "H"@[0]); },
            InputVariableName::K => { assert("P"@[0] != "K"@[0]); },
            InputVariableName::T => { assert("P"@[0] != "T"@[0]); },
            InputVariableName::R => { assert("P"@[0] != "R"@[0]); },
            InputVariableName::Q => { assert("P"@[0] != "Q"@[0]); },
            InputVariableName::PSFC => { assert("P"@.len() != "PSFC"@.len()); },
            InputVariableName::W => { assert("P"@[0] != "W"@[0]); },
            InputVariableName::D => { assert("P"@[0] != "D"@[0]); },
            InputVariableName::U => { assert("P"@[0] != "U"@[0]); },
            InputVariableName::V => { assert("P"@[0] != "V"@[0]); },
            InputVariableName::O => { assert("P"@[0] != "O"@[0]); },
            InputVariableName::P => {},
            InputVariableName::SNOW => { assert("P"@.len() != "SNOW"@.len()); },
            InputVariableName::NDWI => { assert("P"@.len() != "NDWI"@.len()); },
            InputVariableName::NDVI => { assert("P"@.len() != "NDVI"@.len()); },
            InputVariableName::M => { assert("P"@[0] != "M"@[0]); },
            InputVariableName::SWI => { assert("P"@.len() != "SWI"@.len()); },
        },
        InputVariableName::SNOW => match w {
            InputVariableName::F => { assert("SNOW"@.len() != "F"@.len()); },
            InputVariableName::H => { assert("SNOW"@.len() != "H"@.len()); },
            InputVariableName::K => { assert("SNOW"@.len() != "K"@.len()); },
            InputVariableName::T => { assert("SNOW"@.len() != "T"@.len()); },
            InputVariableName::R => { assert("SNOW"@.len() != "R"@.len()); },
            InputVariableName::Q => { assert("SNOW"@.len() != "Q"@.len()); },
            InputVariableName::PSFC => { assert("SNOW"@[0] != "PSFC"@[0]); },
            InputVariableName::W => { assert("SNOW"@.len() != "W"@.len()); },
            InputVariableName::D => { assert("SNOW"@.len() != "D"@.len()); },
            InputVariableName::U => { assert("SNOW"@.len() != "U"@.len()); },
            InputVariableName::V => { assert("SNOW"@.len() != "V"@.len()); },
            InputVariableName::O => { assert("SNOW"@.len() != "O"@.len()); },
            InputVariableName::P => { assert("SNOW"@.len() != "P"@.len()); },
            InputVariableName::SNOW => {},
            InputVariableName::NDWI => { assert("SNOW"@[0] != "NDWI"@[0]); },
            InputVariableName::NDVI => { assert("SNOW"@[0] != "NDVI"@[0]); },
            InputVariableName::M => { assert("SNOW"@.len() != "M"@.len()); },
            InputVariableName::SWI => { assert("SNOW"@.len() != "SWI"@.len()); },
        },
        InputVariableName::NDWI => match w {
            InputVariableName::F => { assert("NDWI"@.len() != "F"@.len()); },
            InputVariableName::H => { assert("NDWI"@.len() != "H"@.len()); },
            InputVariableName::K => { assert("NDWI"@.len() != "K"@.len()); },
            InputVariableName::T => { assert("NDWI"@.len() != "T"@.len()); },
            InputVariableName::R => { assert("NDWI"@.len() != "R"@.len()); },
            InputVariableName::Q => { assert("NDWI"@.len() != "Q"@.len()); },
            InputVariableName::PSFC => { assert("NDWI"@[0] != "PSFC"@[0]); },
            InputVariableName::W => { assert("NDWI"@.len() != "W"@.len()); },
            InputVariableName::D => { assert("NDWI"@.len() != "D"@.len()); },
            InputVariableName::U => { assert("NDWI"@.len() != "U"@.len()); },
            InputVariableName::V => { assert("NDWI"@.len() != "V"@.len()); },
            InputVariableName::O => { assert("NDWI"@.len() != "O"@.len()); },
            InputVariableName::P => { assert("NDWI"@.len() != "P"@.len()); },
            InputVariableName::SNOW => { assert("NDWI"@[0] != "SNOW"@[0]); },
            InputVariableName::NDWI => {},
            InputVariableName::NDVI => { assert("NDWI"@[2] != "NDVI"@[2]); },
            InputVariableName::M => { assert("NDWI"@.len() != "M"@.len()); },
            InputVariableName::SWI => { assert("NDWI"@.len() != "SWI"@.len()); },
        },
        InputVariableName::NDVI => match w {
            InputVariableName::F => { assert("NDVI"@.len() != "F"@.len()); },
            InputVariableName::H => { assert("NDVI"@.len() != "H"@.len()); },
            InputVariableName::K => { assert("NDVI"@.len() != "K"@.len()); },
            InputVariableName::T => { assert("NDVI"@.len() != "T"@.len()); },
            InputVariableName::R => { assert("NDVI"@.len() != "R"@.len()); },
            InputVariableName::Q => { assert("NDVI"@.len() != "Q"@.len()); },
            InputVariableName::PSFC => { assert("NDVI"@[0] != "PSFC"@[0]); },
            InputVariableName::W => { assert("NDVI"@.len() != "W"@.len()); },
            InputVariableName::D => { assert("NDVI"@.len() != "D"@.len()); },
            InputVariableName::U => { assert("NDVI"@.len() != "U"@.len()); },
            InputVariableName::V => { assert("NDVI"@.len() != "V"@.len()); },
            InputVariableName::O => { assert("NDVI"@.len() != "O"@.len()); },
            InputVariableName::P => { assert("NDVI"@.len() != "P"@.len()); },
            InputVariableName::SNOW => { assert("NDVI"@[0] != "SNOW"@[0]); },
            InputVariableName::NDWI => { assert("NDVI"@[2] != "NDWI"@[2]); },
            InputVariableName::NDVI => {},
            InputVariableName::M => { assert("NDVI"@.len() != "M"@.len()); },
            InputVariableName::SWI => { assert("NDVI"@.len() != "SWI"@.len()); },
        },
        InputVariableName::M => match w {
            InputVariableName::F => { assert("M"@[0] != "F"@[0]); },
            InputVariableName::H => { assert("M"@[0] != "H"@[0]); },
            InputVariableName::K => { assert("M"@[0] != "K"@[0]); },
            InputVariableName::T => { assert("M"@[0] != "T"@[0]); },
            InputVariableName::R => { assert("M"@[0] != "R"@[0]); },
            InputVariableName::Q => { assert("M"@[0] != "Q"@[0]); },
            InputVariableName::PSFC => { assert("M"@.len() != "PSFC"@.len()); },
            InputVariableName::W => { assert("M"@[0] != "W"@[0]); },
            InputVariableName::D => { assert("M"@[0] != "D"@[0]); },
            InputVariableName::U => { assert("M"@[0] != "U"@[0]); },
            InputVariableName::V => { assert("M"@[0] != "V"@[0]); },
            InputVariableName::O => { assert("M"@[0] != "O"@[0]); },
            InputVariableName::P => { assert("M"@[0] != "P"@[0]); },
            InputVariableName::SNOW => { assert("M"@.len() != "SNOW"@.len()); },
            InputVariableName::NDWI => { assert("M"@.len() != "NDWI"@.len()); },
            InputVariableName::NDVI => { assert("M"@.len() != "NDVI"@.len()); },
            InputVariableName::M => {},
            InputVariableName::SWI => { assert("M"@.len() != "SWI"@.len()); },
        },
        InputVariableName::SWI => match w {
            InputVariableName::F => { assert("SWI"@.len() != "F"@.len()); },
            InputVariableName::H => { assert("SWI"@.len() != "H"@.len()); },
            InputVariableName::K => { assert("SWI"@.len() != "K"@.len()); },
            InputVariableName::T => { assert("SWI"@.len() != "T"@.len()); },
            InputVariableName::R => { assert("SWI"@.len() != "R"@.len()); },
            InputVariableName::Q => { assert("SWI"@.len() != "Q"@.len()); },
            InputVariableName::PSFC => { assert("SWI"@.len() != "PSFC"@.len()); },
            InputVariableName::W => { assert("SWI"@.len() != "W"@.len()); },
            InputVariableName::D => { assert("SWI"@.len() != "D"@.len()); },
            InputVariableName::U => { assert("SWI"@.len() != "U"@.len()); },
            InputVariableName::V => { assert("SWI"@.len() != "V"@.len()); },
            InputVariableName::O => { assert("SWI"@.len() != "O"@.len()); },
            InputVariableName::P => { assert("SWI"@.len() != "P"@.len()); },
            InputVariableName::SNOW => { assert("SWI"@.len() != "SNOW"@.len()); },
            InputVariableName::NDWI => { assert("SWI"@.len() != "NDWI"@.len()); },
            InputVariableName::NDVI => { assert("SWI"@.len() != "NDVI"@.len()); },
            InputVariableName::M => { assert("SWI"@.len() != "M"@.len()); },
            InputVariableName::SWI => {},
        },
    }
}

/// A variable a model writes.
#[allow(non_camel_case_types)]
#[derive(Clone, Copy, Debug, PartialEq, Eq, Hash, Structural)]
pub enum OutputVariableName {
    /// Input Temperature
    temperature,
    /// Input Rain
    rain,
    /// Input Wind Speed
    windSpeed,
    /// Input Wind Direction
    windDir,
    /// Input Relative Humidity
    humidity,
    /// Input Snow Cover
    snowCover,
    /// Dew Point Temperature
    temp_dew,
    /// Vapor Pressure Deficit
    vpd,
    /// Fine Fuel Moisture
    dffm,
    /// Wind Effect on Fire Spread
    W,
    /// Fire Spread Rate
    V,
    /// Fire Intensity
    I,
    /// Temperature Effect on Fire Spread
    contrT,
    /// NDVI factor
    NDVI,
    /// NDWI factor
    NDWI,
    /// Meteorological Index
    meteoIndex2,
    /// Fire Spread Rate + PPF
    VPPF,
    /// Fire Intensity + PPF
    IPPF,
    /// Fire Intensity + NDWI factor
    INDWI,
    /// Fire Spread rate + NDWI factor
    VNDWI,
    /// Fire Intensity + NDVI factor
    INDVI,
    /// Fire Spread rate + NDVI factor
    VNDVI,
    /// Fire Spread rate + PPF + NDWI factor
    VPPFNDWI,
    /// Fire Intensity + PPF + NDWI factor
    IPPFNDWI,
    /// Fire Spread rate + PPF + NDVI factor
    VPPFNDVI,
    /// Fire Intensity + PPF + NDVI factor
    IPPFNDVI,
    /// Fine Fuel Moisture Code
    ffmc,
    /// Duff Moisture Code
    dmc,
    /// Drought Code
    dc,
    /// Initial Spread Index
    isi,
    /// Build Up Index
    bui,
    /// Fire Weather Index
    fwi,
    /// IFWI
    ifwi,
    /// Keetch-Byram Drought Index
    kbdi,
    /// Drought Factor
    df,
    /// Mark5 Fire Danger Index
    ffdi,
    /// Angstrom Index
    angstrom,
    /// Fosberg Fire Weather Index
    ffwi,
    /// Nesterov Index
    nesterov,
    /// Sharples Fuel Moisture Index
    fmi,
    /// Sharples Fire Danger Index
    f,
    /// Potential Evapotranspiration - Thornthwaite formulation
    pet_t,
    /// Orieux Water Reserve
    orieux_wr,
    /// Orieux Fire Danger Class (0:low, 1:moderate, 2:high, 3:extreme)
    orieux_fd,
    /// Portuguese Ignition Index
    portuguese_ignition,
    /// Portuguese Fire Danger Index
    portuguese_fdi,
    /// Hot-Dry-Wind Index
    hdw,
}

impl OutputVariableName {
    /// The variable's name in configurations and outputs.
    pub open spec fn spec_name(self) -> Seq<char> {
        match self {
            OutputVariableName::temperature => "temperature"@,
            OutputVariableName::rain => "rain"@,
            OutputVariableName::windSpeed => "windSpeed"@,
            OutputVariableName::windDir => "windDir"@,
            OutputVariableName::humidity => "humidity"@,
            OutputVariableName::snowCover => "snowCover"@,
            OutputVariableName::temp_dew => "temp_dew"@,
            OutputVariableName::vpd => "vpd"@,
            OutputVariableName::dffm => "dffm"@,
            OutputVariableName::W => "W"@,
            OutputVariableName::V => "V"@,
            OutputVariableName::I => "I"@,
            OutputVariableName::contrT => "contrT"@,
            OutputVariableName::NDVI => "NDVI"@,
            OutputVariableName::NDWI => "NDWI"@,
            OutputVariableName::meteoIndex2 => "meteoIndex2"@,
            OutputVariableName::VPPF => "VPPF"@,
            OutputVariableName::IPPF => "IPPF"@,
            OutputVariableName::INDWI => "INDWI"@,
            OutputVariableName::VNDWI => "VNDWI"@,
            OutputVariableName::INDVI => "INDVI"@,
            OutputVariableName::VNDVI => "VNDVI"@,
            OutputVariableName::VPPFNDWI => "VPPFNDWI"@,
            OutputVariableName::IPPFNDWI => "IPPFNDWI"@,
            OutputVariableName::VPPFNDVI => "VPPFNDVI"@,
            OutputVariableName::IPPFNDVI => "IPPFNDVI"@,
            OutputVariableName::ffmc => "ffmc"@,
            OutputVariableName::dmc => "dmc"@,
            OutputVariableName::dc => "dc"@,
            OutputVariableName::isi => "isi"@,
            OutputVariableName::bui => "bui"@,
            OutputVariableName::fwi => "fwi"@,
            OutputVariableName::ifwi => "ifwi"@,
            OutputVariableName::kbdi => "kbdi"@,
            OutputVariableName::df => "df"@,
            OutputVariableName::ffdi => "ffdi"@,
            OutputVariableName::angstrom => "angstrom"@,
            OutputVariableName::ffwi => "ffwi"@,
            OutputVariableName::nesterov => "nesterov"@,
            OutputVariableName::fmi => "fmi"@,
            OutputVariableName::f => "f"@,
            OutputVariableName::pet_t => "pet_t"@,
            OutputVariableName::orieux_wr => "orieux_wr"@,
            OutputVariableName::orieux_fd => "orieux_fd"@,
            OutputVariableName::portuguese_ignition => "portuguese_ignition"@,
            OutputVariableName::portuguese_fdi => "portuguese_fdi"@,
            OutputVariableName::hdw => "hdw"@,
        }
    }

    /// Whether `text` names the variable, ignoring ASCII case; the
    /// meteorological index is also known by its former name.
    pub open spec fn accepts(self, text: Seq<char>) -> bool {
        eq_ignore_ascii_case(text, self.spec_name())
            || (self == OutputVariableName::meteoIndex2 && eq_ignore_ascii_case(text, "meteoIndex"@))
    }

    /// The variable's place in declaration order.
    pub open spec fn rank(self) -> int {
        match self {
            OutputVariableName::temperature => 0,
            OutputVariableName::rain => 1,
            OutputVariableName::windSpeed => 2,
            OutputVariableName::windDir => 3,
            OutputVariableName::humidity => 4,
            OutputVariableName::snowCover => 5,
            OutputVariableName::temp_dew => 6,
            OutputVariableName::vpd => 7,
            OutputVariableName::dffm => 8,
            OutputVariableName::W => 9,
            OutputVariableName::V => 10,
            OutputVariableName::I => 11,
            OutputVariableName::contrT => 12,
            OutputVariableName::NDVI => 13,
            OutputVariableName::NDWI => 14,
            OutputVariableName::meteoIndex2 => 15,
            OutputVariableName::VPPF => 16,
            OutputVariableName::IPPF => 17,
            OutputVariableName::INDWI => 18,
            OutputVariableName::VNDWI => 19,
            OutputVariableName::INDVI => 20,
            OutputVariableName::VNDVI => 21,
            OutputVariableName::VPPFNDWI => 22,
            OutputVariableName::IPPFNDWI => 23,
            OutputVariableName::VPPFNDVI => 24,
            OutputVariableName::IPPFNDVI => 25,
            OutputVariableName::ffmc => 26,
            OutputVariableName::dmc => 27,
            OutputVariableName::dc => 28,
            OutputVariableName::isi => 29,
            OutputVariableName::bui => 30,
            OutputVariableName::fwi => 31,
            OutputVariableName::ifwi => 32,
            OutputVariableName::kbdi => 33,
            OutputVariableName::df => 34,
            OutputVariableName::ffdi => 35,
            OutputVariableName::angstrom => 36,
            OutputVariableName::ffwi => 37,
            OutputVariableName::nesterov => 38,
            OutputVariableName::fmi => 39,
            OutputVariableName::f => 40,
            OutputVariableName::pet_t => 41,
            OutputVariableName::orieux_wr => 42,
            OutputVariableName::orieux_fd => 43,
            OutputVariableName::portuguese_ignition => 44,
            OutputVariableName::portuguese_fdi => 45,
            OutputVariableName::hdw => 46,
        }
    }

    pub open spec fn spec_long_name(self) -> Seq<char> {
        match self {
            OutputVariableName::temperature => "Input Temperature"@,
            OutputVariableName::rain => "Input Rain"@,
            OutputVariableName::windSpeed => "Input Wind Speed"@,
            OutputVariableName::windDir => "Input Wind Direction"@,
            OutputVariableName::humidity => "Input Relative Humidity"@,
            OutputVariableName::snowCover => "Input Snow Cover"@,
            OutputVariableName::temp_dew => "Dew Point Temperature"@,
            OutputVariableName::vpd => "Vapor Pressure Deficit"@,
            OutputVariableName::dffm => "Fine Fuel Moisture"@,
            OutputVariableName::W => "Wind Effect on Fire Spread"@,
            OutputVariableName::V => "Fire Spread Rate"@,
            OutputVariableName::I => "Fire Intensity"@,
            OutputVariableName::contrT => "Temperature Effect on Fire Spread"@,
            OutputVariableName::NDVI => "NDVI factor"@,
            OutputVariableName::NDWI => "NDWI factor"@,
            OutputVariableName::meteoIndex2 => "Meteorological Index"@,
            OutputVariableName::VPPF => "Fire Spread Rate + PPF"@,
            OutputVariableName::IPPF => "Fire Intensity + PPF"@,
            OutputVariableName::INDWI => "Fire Intensity + NDWI factor"@,
            OutputVariableName::VNDWI => "Fire Spread rate + NDWI factor"@,
            OutputVariableName::INDVI => "Fire Intensity + NDVI factor"@,
            OutputVariableName::VNDVI => "Fire Spread rate + NDVI factor"@,
            OutputVariableName::VPPFNDWI => "Fire Spread rate + PPF + NDWI factor"@,
            OutputVariableName::IPPFNDWI => "Fire Intensity + PPF + NDWI factor"@,
            OutputVariableName::VPPFNDVI => "Fire Spread rate + PPF + NDVI factor"@,
            OutputVariableName::IPPFNDVI => "Fire Intensity + PPF + NDVI factor"@,
            OutputVariableName::ffmc => "Fine Fuel Moisture Code"@,
            OutputVariableName::dmc => "Duff Moisture Code"@,
            OutputVariableName::dc => "Drought Code"@,
            OutputVariableName::isi => "Initial Spread Index"@,
            OutputVariableName::bui => "Build Up Index"@,
            OutputVariableName::fwi => "Fire Weather Index"@,
            OutputVariableName::ifwi => "IFWI"@,
            OutputVariableName::kbdi => "Keetch-Byram Drought Index"@,
            OutputVariableName::df => "Drought Factor"@,
            OutputVariableName::ffdi => "Mark5 Fire Danger Index"@,
            OutputVariableName::angstrom => "Angstrom Index"@,
            OutputVariableName::ffwi => "Fosberg Fire Weather Index"@,
            OutputVariableName::nesterov => "Nesterov Index"@,
            OutputVariableName::fmi => "Sharples Fuel Moisture Index"@,
            OutputVariableName::f => "Sharples Fire Danger Index"@,
            OutputVariableName::pet_t => "Potential Evapotranspiration - Thornthwaite formulation"@,
            OutputVariableName::orieux_wr => "Orieux Water Reserve"@,
            OutputVariableName::orieux_fd => "Orieux Fire Danger Class (0:low, 1:moderate, 2:high, 3:extreme)"@,
            OutputVariableName::portuguese_ignition => "Portuguese Ignition Index"@,
            OutputVariableName::portuguese_fdi => "Portuguese Fire Danger Index"@,
            OutputVariableName::hdw => "Hot-Dry-Wind Index"@,
        }
    }

    pub open spec fn spec_units(self) -> Seq<char> {
        match self {
            OutputVariableName::temperature => "°C"@,
            OutputVariableName::rain => "mm"@,
            OutputVariableName::windSpeed => "m/s"@,
            OutputVariableName::windDir => "°"@,
            OutputVariableName::humidity => "%"@,
            OutputVariableName::snowCover => "mm"@,
            OutputVariableName::temp_dew => "°C"@,
            OutputVariableName::vpd => "hPa"@,
            OutputVariableName::dffm => "%"@,
            OutputVariableName::W => "-"@,
            OutputVariableName::V => "m/h"@,
            OutputVariableName::I => "kW/m"@,
            OutputVariableName::contrT => "-"@,
            OutputVariableName::NDVI => "-"@,
            OutputVariableName::NDWI => "-"@,
            OutputVariableName::meteoIndex2 => "-"@,
            OutputVariableName::VPPF => "m/h"@,
            OutputVariableName::IPPF => "kW/m"@,
            OutputVariableName::INDWI => "kW/m"@,
            OutputVariableName::VNDWI => "m/h"@,
            OutputVariableName::INDVI => "kW/m"@,
            OutputVariableName::VNDVI => "m/h"@,
            OutputVariableName::VPPFNDWI => "m/h"@,
            OutputVariableName::IPPFNDWI => "kW/m"@,
            OutputVariableName::VPPFNDVI => "m/h"@,
            OutputVariableName::IPPFNDVI => "kW/m"@,
            OutputVariableName::ffmc => "-"@,
            OutputVariableName::dmc => "-"@,
            OutputVariableName::dc => "-"@,
            OutputVariableName::isi => "-"@,
            OutputVariableName::bui => "-"@,
            OutputVariableName::fwi => "-"@,
            OutputVariableName::ifwi => "-"@,
            OutputVariableName::kbdi => "mm"@,
            OutputVariableName::df => "-"@,
            OutputVariableName::ffdi => "-"@,
            OutputVariableName::angstrom => "-"@,
            OutputVariableName::ffwi => "-"@,
            OutputVariableName::nesterov => "-"@,
            OutputVariableName::fmi => "-"@,
            OutputVariableName::f => "-"@,
            OutputVariableName::pet_t => "mm"@,
            OutputVariableName::orieux_wr => "mm"@,
            OutputVariableName::orieux_fd => "-"@,
            OutputVariableName::portuguese_ignition => "-"@,
            OutputVariableName::portuguese_fdi => "-"@,
            OutputVariableName::hdw => "-"@,
        }
    }

    /// The variable's name in configurations and outputs.
    pub fn name(&self) -> (name: &'static str)
        ensures
            name@ == self.spec_name(),
    {
        match self {
            OutputVariableName::temperature => "temperature",
            OutputVariableName::rain => "rain",
            OutputVariableName::windSpeed => "windSpeed",
            OutputVariableName::windDir => "windDir",
            OutputVariableName::humidity => "humidity",
            OutputVariableName::snowCover => "snowCover",
            OutputVariableName::temp_dew => "temp_dew",
            OutputVariableName::vpd => "vpd",
            OutputVariableName::dffm => "dffm",
            OutputVariableName::W => "W",
            OutputVariableName::V => "V",
            OutputVariableName::I => "I",
            OutputVariableName::contrT => "contrT",
            OutputVariableName::NDVI => "NDVI",
            OutputVariableName::NDWI => "NDWI",
            OutputVariableName::meteoIndex2 => "meteoIndex2",
            OutputVariableName::VPPF => "VPPF",
            OutputVariableName::IPPF => "IPPF",
            OutputVariableName::INDWI => "INDWI",
            OutputVariableName::VNDWI => "VNDWI",
            OutputVariableName::INDVI => "INDVI",
            OutputVariableName::VNDVI => "VNDVI",
            OutputVariableName::VPPFNDWI => "VPPFNDWI",
            OutputVariableName::IPPFNDWI => "IPPFNDWI",
            OutputVariableName::VPPFNDVI => "VPPFNDVI",
            OutputVariableName::IPPFNDVI => "IPPFNDVI",
            OutputVariableName::ffmc => "ffmc",
            OutputVariableName::dmc => "dmc",
            OutputVariableName::dc => "dc",
            OutputVariableName::isi => "isi",
            OutputVariableName::bui => "bui",
            OutputVariableName::fwi => "fwi",
            OutputVariableName::ifwi => "ifwi",
            OutputVariableName::kbdi => "kbdi",
            OutputVariableName::df => "df",
            OutputVariableName::ffdi => "ffdi",
            OutputVariableName::angstrom => "angstrom",
            OutputVariableName::ffwi => "ffwi",
            OutputVariableName::nesterov => "nesterov",
            OutputVariableName::fmi => "fmi",
            OutputVariableName::f => "f",
            OutputVariableName::pet_t => "pet_t",
            OutputVariableName::orieux_wr => "orieux_wr",
            OutputVariableName::orieux_fd => "orieux_fd",
            OutputVariableName::portuguese_ignition => "portuguese_ignition",
            OutputVariableName::portuguese_fdi => "portuguese_fdi",
            OutputVariableName::hdw => "hdw",
        }
    }

    /// The variable's descriptive name.
    pub fn long_name(&self) -> (name: &'static str)
        ensures
            name@ == self.spec_long_name(),
    {
        match self {
            OutputVariableName::temperature => "Input Temperature",
            OutputVariableName::rain => "Input Rain",
            OutputVariableName::windSpeed => "Input Wind Speed",
            OutputVariableName::windDir => "Input Wind Direction",
            OutputVariableName::humidity => "Input Relative Humidity",
            OutputVariableName::snowCover => "Input Snow Cover",
            OutputVariableName::temp_dew => "Dew Point Temperature",
            OutputVariableName::vpd => "Vapor Pressure Deficit",
            OutputVariableName::dffm => "Fine Fuel Moisture",
            OutputVariableName::W => "Wind Effect on Fire Spread",
            OutputVariableName::V => "Fire Spread Rate",
            OutputVariableName::I => "Fire Intensity",
            OutputVariableName::contrT => "Temperature Effect on Fire Spread",
            OutputVariableName::NDVI => "NDVI factor",
            OutputVariableName::NDWI => "NDWI factor",
            OutputVariableName::meteoIndex2 => "Meteorological Index",
            OutputVariableName::VPPF => "Fire Spread Rate + PPF",
            OutputVariableName::IPPF => "Fire Intensity + PPF",
            OutputVariableName::INDWI => "Fire Intensity + NDWI factor",
            OutputVariableName::VNDWI => "Fire Spread rate + NDWI factor",
            OutputVariableName::INDVI => "Fire Intensity + NDVI factor",
            OutputVariableName::VNDVI => "Fire Spread rate + NDVI factor",
            OutputVariableName::VPPFNDWI => "Fire Spread rate + PPF + NDWI factor",
            OutputVariableName::IPPFNDWI => "Fire Intensity + PPF + NDWI factor",
            OutputVariableName::VPPFNDVI => "Fire Spread rate + PPF + NDVI factor",
            OutputVariableName::IPPFNDVI => "Fire Intensity + PPF + NDVI factor",
            OutputVariableName::ffmc => "Fine Fuel Moisture Code",
            OutputVariableName::dmc => "Duff Moisture Code",
            OutputVariableName::dc => "Drought Code",
            OutputVariableName::isi => "Initial Spread Index",
            OutputVariableName::bui => "Build Up Index",
            OutputVariableName::fwi => "Fire Weather Index",
            OutputVariableName::ifwi => "IFWI",
            OutputVariableName::kbdi => "Keetch-Byram Drought Index",
            OutputVariableName::df => "Drought Factor",
            OutputVariableName::ffdi => "Mark5 Fire Danger Index",
            OutputVariableName::angstrom => "Angstrom Index",
            OutputVariableName::ffwi => "Fosberg Fire Weather Index",
            OutputVariableName::nesterov => "Nesterov Index",
            OutputVariableName::fmi => "Sharples Fuel Moisture Index",
            OutputVariableName::f => "Sharples Fire Danger Index",
            OutputVariableName::pet_t => "Potential Evapotranspiration - Thornthwaite formulation",
            OutputVariableName::orieux_wr => "Orieux Water Reserve",
            OutputVariableName::orieux_fd => "Orieux Fire Danger Class (0:low, 1:moderate, 2:high, 3:extreme)",
            OutputVariableName::portuguese_ignition => "Portuguese Ignition Index",
            OutputVariableName::portuguese_fdi => "Portuguese Fire Danger Index",
            OutputVariableName::hdw => "Hot-Dry-Wind Index",
        }
    }

    /// The variable's units.
    pub fn units(&self) -> (units: &'static str)
        ensures
            units@ == self.spec_units(),
    {
        match self {
            OutputVariableName::temperature => "°C",
            OutputVariableName::rain => "mm",
            OutputVariableName::windSpeed => "m/s",
            OutputVariableName::windDir => "°",
            OutputVariableName::humidity => "%",
            OutputVariableName::snowCover => "mm",
            OutputVariableName::temp_dew => "°C",
            OutputVariableName::vpd => "hPa",
            OutputVariableName::dffm => "%",
            OutputVariableName::W => "-",
            OutputVariableName::V => "m/h",
            OutputVariableName::I => "kW/m",
            OutputVariableName::contrT => "-",
            OutputVariableName::NDVI => "-",
            OutputVariableName::NDWI => "-",
            OutputVariableName::meteoIndex2 => "-",
            OutputVariableName::VPPF => "m/h",
            OutputVariableName::IPPF => "kW/m",
            OutputVariableName::INDWI => "kW/m",
            OutputVariableName::VNDWI => "m/h",
            OutputVariableName::INDVI => "kW/m",
            OutputVariableName::VNDVI => "m/h",
            OutputVariableName::VPPFNDWI => "m/h",
            OutputVariableName::IPPFNDWI => "kW/m",
            OutputVariableName::VPPFNDVI => "m/h",
            OutputVariableName::IPPFNDVI => "kW/m",
            OutputVariableName::ffmc => "-",
            OutputVariableName::dmc => "-",
            OutputVariableName::dc => "-",
            OutputVariableName::isi => "-",
            OutputVariableName::bui => "-",
            OutputVariableName::fwi => "-",
            OutputVariableName::ifwi => "-",
            OutputVariableName::kbdi => "mm",
            OutputVariableName::df => "-",
            OutputVariableName::ffdi => "-",
            OutputVariableName::angstrom => "-",
            OutputVariableName::ffwi => "-",
            OutputVariableName::nesterov => "-",
            OutputVariableName::fmi => "-",
            OutputVariableName::f => "-",
            OutputVariableName::pet_t => "mm",
            OutputVariableName::orieux_wr => "mm",
            OutputVariableName::orieux_fd => "-",
            OutputVariableName::portuguese_ignition => "-",
            OutputVariableName::portuguese_fdi => "-",
            OutputVariableName::hdw => "-",
        }
    }

    /// Every output variable, in declaration order.
    pub fn all() -> (all: Vec<OutputVariableName>)
        ensures
            all@.len() == 47,
            forall|v: OutputVariableName| #[trigger] all@[v.rank()] == v,
            forall|k: int| 0 <= k < 47 ==> (#[trigger] all@[k]).rank() == k,
    {
        vec![
            OutputVariableName::temperature,
            OutputVariableName::rain,
            OutputVariableName::windSpeed,
            OutputVariableName::windDir,
            OutputVariableName::humidity,
            OutputVariableName::snowCover,
            OutputVariableName::temp_dew,
            OutputVariableName::vpd,
            OutputVariableName::dffm,
            OutputVariableName::W,
            OutputVariableName::V,
            OutputVariableName::I,
            OutputVariableName::contrT,
            OutputVariableName::NDVI,
            OutputVariableName::NDWI,
            OutputVariableName::meteoIndex2,
            OutputVariableName::VPPF,
            OutputVariableName::IPPF,
            OutputVariableName::INDWI,
            OutputVariableName::VNDWI,
            OutputVariableName::INDVI,
            OutputVariableName::VNDVI,
            OutputVariableName::VPPFNDWI,
            OutputVariableName::IPPFNDWI,
            OutputVariableName::VPPFNDVI,
            OutputVariableName::IPPFNDVI,
            OutputVariableName::ffmc,
            OutputVariableName::dmc,
            OutputVariableName::dc,
            OutputVariableName::isi,
            OutputVariableName::bui,
            OutputVariableName::fwi,
            OutputVariableName::ifwi,
            OutputVariableName::kbdi,
            OutputVariableName::df,
            OutputVariableName::ffdi,
            OutputVariableName::angstrom,
            OutputVariableName::ffwi,
            OutputVariableName::nesterov,
            OutputVariableName::fmi,
            OutputVariableName::f,
            OutputVariableName::pet_t,
            OutputVariableName::orieux_wr,
            OutputVariableName::orieux_fd,
            OutputVariableName::portuguese_ignition,
            OutputVariableName::portuguese_fdi,
            OutputVariableName::hdw,
        ]
    }

    fn accepts_exec(&self, text: &str) -> (accepted: bool)
        ensures
            accepted == self.accepts(text@),
    {
        same_text_ignore_ascii_case(text, self.name())
            || (*self == OutputVariableName::meteoIndex2 && same_text_ignore_ascii_case(text, "meteoIndex"))
    }

    /// The first variable, in declaration order, that `text` names.
    pub fn from_name(text: &str) -> (found: Option<OutputVariableName>)
        ensures
            match found {
                Some(v) => v.accepts(text@)
                    && forall|w: OutputVariableName| w.rank() < v.rank() ==> !w.accepts(text@),
                None => forall|w: OutputVariableName| !w.accepts(text@),
            },
    {
        let all = OutputVariableName::all();
        let mut k: usize = 0;
        while k < all.len()
            invariant
                all@.len() == 47,
                forall|v: OutputVariableName| #[trigger] all@[v.rank()] == v,
                forall|j: int| 0 <= j < 47 ==> (#[trigger] all@[j]).rank() == j,
                k <= 47,
                forall|w: OutputVariableName| w.rank() < k ==> !w.accepts(text@),
            decreases 47 - k,
        {
            let v = all[k];
            if v.accepts_exec(text) {
                return Some(v);
            }
            proof {
                assert forall|w: OutputVariableName| w.rank() < k + 1 implies !w.accepts(text@) by {
                    if w.rank() == k {
                        assert(all@[w.rank()] == w);
                    }
                }
            }
            k += 1;
        }
        None
    }
}

/// Output variables are named by their identifiers: `I` (fire intensity) by
/// "I", `V` (spread rate) by "V", and so on.
pub proof fn law_output_variable_names()
    ensures
        OutputVariableName::temperature.spec_name() == "temperature"@,
        OutputVariableName::rain.spec_name() == "rain"@,
        OutputVariableName::windSpeed.spec_name() == "windSpeed"@,
        OutputVariableName::windDir.spec_name() == "windDir"@,
        OutputVariableName::humidity.spec_name() == "humidity"@,
        OutputVariableName::snowCover.spec_name() == "snowCover"@,
        OutputVariableName::temp_dew.spec_name() == "temp_dew"@,
        OutputVariableName::vpd.spec_name() == "vpd"@,
        OutputVariableName::dffm.spec_name() == "dffm"@,
        OutputVariableName::W.spec_name() == "W"@,
        OutputVariableName::V.spec_name() == "V"@,
        OutputVariableName::I.spec_name() == "I"@,
        OutputVariableName::contrT.spec_name() == "contrT"@,
        OutputVariableName::NDVI.spec_name() == "NDVI"@,
        OutputVariableName::NDWI.spec_name() == "NDWI"@,
        OutputVariableName::meteoIndex2.spec_name() == "meteoIndex2"@,
        OutputVariableName::VPPF.spec_name() == "VPPF"@,
        OutputVariableName::IPPF.spec_name() == "IPPF"@,
        OutputVariableName::INDWI.spec_name() == "INDWI"@,
        OutputVariableName::VNDWI.spec_name() == "VNDWI"@,
        OutputVariableName::INDVI.spec_name() == "INDVI"@,
        OutputVariableName::VNDVI.spec_name() == "VNDVI"@,
        OutputVariableName::VPPFNDWI.spec_name() == "VPPFNDWI"@,
        OutputVariableName::IPPFNDWI.spec_name() == "IPPFNDWI"@,
        OutputVariableName::VPPFNDVI.spec_name() == "VPPFNDVI"@,
        OutputVariableName::IPPFNDVI.spec_name() == "IPPFNDVI"@,
        OutputVariableName::ffmc.spec_name() == "ffmc"@,
        OutputVariableName::dmc.spec_name() == "dmc"@,
        OutputVariableName::dc.spec_name() == "dc"@,
        OutputVariableName::isi.spec_name() == "isi"@,
        OutputVariableName::bui.spec_name() == "bui"@,
        OutputVariableName::fwi.spec_name() == "fwi"@,
        OutputVariableName::ifwi.spec_name() == "ifwi"@,
        OutputVariableName::kbdi.spec_name() == "kbdi"@,
        OutputVariableName::df.spec_name() == "df"@,
        OutputVariableName::ffdi.spec_name() == "ffdi"@,
        OutputVariableName::angstrom.spec_name() == "angstrom"@,
        OutputVariableName::ffwi.spec_name() == "ffwi"@,
        OutputVariableName::nesterov.spec_name() == "nesterov"@,
        OutputVariableName::fmi.spec_name() == "fmi"@,
        OutputVariableName::f.spec_name() == "f"@,
        OutputVariableName::pet_t.spec_name() == "pet_t"@,
        OutputVariableName::orieux_wr.spec_name() == "orieux_wr"@,
        OutputVariableName::orieux_fd.spec_name() == "orieux_fd"@,
        OutputVariableName::portuguese_ignition.spec_name() == "portuguese_ignition"@,
        OutputVariableName::portuguese_fdi.spec_name() == "portuguese_fdi"@,
        OutputVariableName::hdw.spec_name() == "hdw"@,
{
}

/// A variable's name, in any ASCII case, is accepted by that variable alone,
/// so configuring an output by a variable's identifier selects that variable.
pub proof fn law_output_variable_names_distinct(v: OutputVariableName, w: OutputVariableName)
    requires
        w.accepts(v.spec_name()),
    ensures
        w == v,
{
    reveal_strlit("temperature");
    reveal_strlit("rain");
    reveal_strlit("windSpeed");
    reveal_strlit("windDir");
    reveal_strlit("humidity");
    reveal_strlit("snowCover");
    reveal_strlit("temp_dew");
    reveal_strlit("vpd");
    reveal_strlit("dffm");
    reveal_strlit("W");
    reveal_strlit("V");
    reveal_strlit("I");
    reveal_strlit("contrT");
    reveal_strlit("NDVI");
    reveal_strlit("NDWI");
    reveal_strlit("meteoIndex2");
    reveal_strlit("VPPF");
    reveal_strlit("IPPF");
    reveal_strlit("INDWI");
    reveal_strlit("VNDWI");
    reveal_strlit("INDVI");
    reveal_strlit("VNDVI");
    reveal_strlit("VPPFNDWI");
    reveal_strlit("IPPFNDWI");
    reveal_strlit("VPPFNDVI");
    reveal_strlit("IPPFNDVI");
    reveal_strlit("ffmc");
    reveal_strlit("dmc");
    reveal_strlit("dc");
    reveal_strlit("isi");
    reveal_strlit("bui");
    reveal_strlit("fwi");
    reveal_strlit("ifwi");
    reveal_strlit("kbdi");
    reveal_strlit("df");
    reveal_strlit("ffdi");
    reveal_strlit("angstrom");
    reveal_strlit("ffwi");
    reveal_strlit("nesterov");
    reveal_strlit("fmi");
    reveal_strlit("f");
    reveal_strlit("pet_t");
    reveal_strlit("orieux_wr");
    reveal_strlit("orieux_fd");
    reveal_strlit("portuguese_ignition");
    reveal_strlit("portuguese_fdi");
    reveal_strlit("hdw");
    reveal_strlit("meteoIndex");
    match v {
        OutputVariableName::temperature => {
            if w == OutputVariableName::meteoIndex2 {
                assert(ascii_lower("temperature"@[0]) != ascii_lower("meteoIndex2"@[0]));
            }
        },
        OutputVariableName::rain => {
            if w == OutputVariableName::dffm {
                assert(ascii_lower("rain"@[0]) != ascii_lower("dffm"@[0]));
            }
            if w == OutputVariableName::NDVI {
                assert(ascii_lower("rain"@[0]) != ascii_lower("NDVI"@[0]));
            }
            if w == OutputVariableName::NDWI {
                assert(ascii_lower("rain"@[0]) != ascii_lower("NDWI"@[0]));
            }
            if w == OutputVariableName::VPPF {
                assert(ascii_lower("rain"@[0]) != ascii_lower("VPPF"@[0]));
            }
            if w == OutputVariableName::IPPF {
                assert(ascii_lower("rain"@[0]) != ascii_lower("IPPF"@[0]));
            }
            if w == OutputVariableName::ffmc {
                assert(ascii_lower("rain"@[0]) != ascii_lower("ffmc"@[0]));
            }
            if w == OutputVariableName::ifwi {
                assert(ascii_lower("rain"@[0]) != ascii_lower("ifwi"@[0]));
            }
            if w == OutputVariableName::kbdi {
                assert(ascii_lower("rain"@[0]) != ascii_lower("kbdi"@[0]));
            }
            if w == OutputVariableName::ffdi {
                assert(ascii_lower("rain"@[0]) != ascii_lower("ffdi"@[0]));
            }
            if w == OutputVariableName::ffwi {
                assert(ascii_lower("rain"@[0]) != ascii_lower("ffwi"@[0]));
            }
        },
        OutputVariableName::windSpeed => {
            if w == OutputVariableName::snowCover {
                assert(ascii_lower("windSpeed"@[0]) != ascii_lower("snowCover"@[0]));
            }
            if w == OutputVariableName::orieux_wr {
                assert(ascii_lower("windSpeed"@[0]) != ascii_lower("orieux_wr"@[0]));
            }
            if w == OutputVariableName::orieux_fd {
                assert(ascii_lower("windSpeed"@[0]) != ascii_lower("orieux_fd"@[0]));
            }
        },
        OutputVariableName::windDir => {

        },
        OutputVariableName::humidity => {
            if w == OutputVariableName::temp_dew {
                assert(ascii_lower("humidity"@[0]) != ascii_lower("temp_dew"@[0]));
            }
            if w == OutputVariableName::VPPFNDWI {
                assert(ascii_lower("humidity"@[0]) != ascii_lower("VPPFNDWI"@[0]));
            }
            if w == OutputVariableName::IPPFNDWI {
                assert(ascii_lower("humidity"@[0]) != ascii_lower("IPPFNDWI"@[0]));
            }
            if w == OutputVariableName::VPPFNDVI {
                assert(ascii_lower("humidity"@[0]) != ascii_lower("VPPFNDVI"@[0]));
            }
            if w == OutputVariableName::IPPFNDVI {
                assert(ascii_lower("humidity"@[0]) != ascii_lower("IPPFNDVI"@[0]));
            }
            if w == OutputVariableName::angstrom {
                assert(ascii_lower("humidity"@[0]) != ascii_lower("angstrom"@[0]));
            }
            if w == OutputVariableName::nesterov {
                assert(ascii_lower("humidity"@[0]) != ascii_lower("nesterov"@[0]));
            }
        },
        OutputVariableName::snowCover => {
            if w == OutputVariableName::windSpeed {
                assert(ascii_lower("snowCover"@[0]) != ascii_lower("windSpeed"@[0]));
            }
            if w == OutputVariableName::orieux_wr {
                assert(ascii_lower("snowCover"@[0]) != ascii_lower("orieux_wr"@[0]));
            }
            if w == OutputVariableName::orieux_fd {
                assert(ascii_lower("snowCover"@[0]) != ascii_lower("orieux_fd"@[0]));
            }
        },
        OutputVariableName::temp_dew => {
            if w == OutputVariableName::humidity {
                assert(ascii_lower("temp_dew"@[0]) != ascii_lower("humidity"@[0]));
            }
            if w == OutputVariableName::VPPFNDWI {
                assert(ascii_lower("temp_dew"@[0]) != ascii_lower("VPPFNDWI"@[0]));
            }
            if w == OutputVariableName::IPPFNDWI {
                assert(ascii_lower("temp_dew"@[0]) != ascii_lower("IPPFNDWI"@[0]));
            }
            if w == OutputVariableName::VPPFNDVI {
                assert(ascii_lower("temp_dew"@[0]) != ascii_lower("VPPFNDVI"@[0]));
            }
            if w == OutputVariableName::IPPFNDVI {
                assert(ascii_lower("temp_dew"@[0]) != ascii_lower("IPPFNDVI"@[0]));
            }
            if w == OutputVariableName::angstrom {
                assert(ascii_lower("temp_dew"@[0]) != ascii_lower("angstrom"@[0]));
            }
            if w == OutputVariableName::nesterov {
                assert(ascii_lower("temp_dew"@[0]) != ascii_lower("nesterov"@[0]));
            }
        },
        OutputVariableName::vpd => {
            if w == OutputVariableName::dmc {
                assert(ascii_lower("vpd"@[0]) != ascii_lower("dmc"@[0]));
            }
            if w == OutputVariableName::isi {
                assert(ascii_lower("vpd"@[0]) != ascii_lower("isi"@[0]));
            }
            if w == OutputVariableName::bui {
                assert(ascii_lower("vpd"@[0]) != ascii_lower("bui"@[0]));
            }
            if w == OutputVariableName::fwi {
                assert(ascii_lower("vpd"@[0]) != ascii_lower("fwi"@[0]));
            }
            if w == OutputVariableName::fmi {
                assert(ascii_lower("vpd"@[0]) != ascii_lower("fmi"@[0]));
            }
            if w == OutputVariableName::hdw {
                assert(ascii_lower("vpd"@[0]) != ascii_lower("hdw"@[0]));
            }
        },
        OutputVariableName::dffm => {
            if w == OutputVariableName::rain {
                assert(ascii_lower("dffm"@[0]) != ascii_lower("rain"@[0]));
            }
            if w == OutputVariableName::NDVI {
                assert(ascii_lower("dffm"@[0]) != ascii_lower("NDVI"@[0]));
            }
            if w == OutputVariableName::NDWI {
                assert(ascii_lower("dffm"@[0]) != ascii_lower("NDWI"@[0]));
            }
            if w == OutputVariableName::VPPF {
                assert(ascii_lower("dffm"@[0]) != ascii_lower("VPPF"@[0]));
            }
            if w == OutputVariableName::IPPF {
                assert(ascii_lower("dffm"@[0]) != ascii_lower("IPPF"@[0]));
            }
            if w == OutputVariableName::ffmc {
                assert(ascii_lower("dffm"@[0]) != ascii_lower("ffmc"@[0]));
            }
            if w == OutputVariableName::ifwi {
                assert(ascii_lower("dffm"@[0]) != ascii_lower("ifwi"@[0]));
            }
            if w == OutputVariableName::kbdi {
                assert(ascii_lower("dffm"@[0]) != ascii_lower("kbdi"@[0]));
            }
            if w == OutputVariableName::ffdi {
                assert(ascii_lower("dffm"@[0]) != ascii_lower("ffdi"@[0]));
            }
            if w == OutputVariableName::ffwi {
                assert(ascii_lower("dffm"@[0]) != ascii_lower("ffwi"@[0]));
            }
        },
        OutputVariableName::W => {
            if w == OutputVariableName::V {
                assert(ascii_lower("W"@[0]) != ascii_lower("V"@[0]));
            }
            if w == OutputVariableName::I {
                assert(ascii_lower("W"@[0]) != ascii_lower("I"@[0]));
            }
            if w == OutputVariableName::f {
                assert(ascii_lower("W"@[0]) != ascii_lower("f"@[0]));
            }
        },
        OutputVariableName::V => {
            if w == OutputVariableName::W {
                assert(ascii_lower("V"@[0]) != ascii_lower("W"@[0]));
            }
            if w == OutputVariableName::I {
                assert(ascii_lower("V"@[0]) != ascii_lower("I"@[0]));
            }
            if w == OutputVariableName::f {
                assert(ascii_lower("V"@[0]) != ascii_lower("f"@[0]));
            }
        },
        OutputVariableName::I => {
            if w == OutputVariableName::W {
                assert(ascii_lower("I"@[0]) != ascii_lower("W"@[0]));
            }
            if w == OutputVariableName::V {
                assert(ascii_lower("I"@[0]) != ascii_lower("V"@[0]));
            }
            if w == OutputVariableName::f {
                assert(ascii_lower("I"@[0]) != ascii_lower("f"@[0]));
            }
        },
        OutputVariableName::contrT => {

        },
        OutputVariableName::NDVI => {
            if w == OutputVariableName::rain {
                assert(ascii_lower("NDVI"@[0]) != ascii_lower("rain"@[0]));
            }
            if w == OutputVariableName::dffm {
                assert(ascii_lower("NDVI"@[0]) != ascii_lower("dffm"@[0]));
            }
            if w == OutputVariableName::NDWI {
                assert(ascii_lower("NDVI"@[2]) != ascii_lower("NDWI"@[2]));
            }
            if w == OutputVariableName::VPPF {
                assert(ascii_lower("NDVI"@[0]) != ascii_lower("VPPF"@[0]));
            }
            if w == OutputVariableName::IPPF {
                assert(ascii_lower("NDVI"@[0]) != ascii_lower("IPPF"@[0]));
            }
            if w == OutputVariableName::ffmc {
                assert(ascii_lower("NDVI"@[0]) != ascii_lower("ffmc"@[0]));
            }
            if w == OutputVariableName::ifwi {
                assert(ascii_lower("NDVI"@[0]) != ascii_lower("ifwi"@[0]));
            }
            if w == OutputVariableName::kbdi {
                assert(ascii_lower("NDVI"@[0]) != ascii_lower("kbdi"@[0]));
            }
            if w == OutputVariableName::ffdi {
                assert(ascii_lower("NDVI"@[0]) != ascii_lower("ffdi"@[0]));
            }
            if w == OutputVariableName::ffwi {
                assert(ascii_lower("NDVI"@[0]) != ascii_lower("ffwi"@[0]));
            }
        },
        OutputVariableName::NDWI => {
            if w == OutputVariableName::rain {
                assert(ascii_lower("NDWI"@[0]) != ascii_lower("rain"@[0]));
            }
            if w == OutputVariableName::dffm {
                assert(ascii_lower("NDWI"@[0]) != ascii_lower("dffm"@[0]));
            }
            if w == OutputVariableName::NDVI {
                assert(ascii_lower("NDWI"@[2]) != ascii_lower("NDVI"@[2]));
            }
            if w == OutputVariableName::VPPF {
                assert(ascii_lower("NDWI"@[0]) != ascii_lower("VPPF"@[0]));
            }
            if w == OutputVariableName::IPPF {
                assert(ascii_lower("NDWI"@[0]) != ascii_lower("IPPF"@[0]));
            }
            if w == OutputVariableName::ffmc {
                assert(ascii_lower("NDWI"@[0]) != ascii_lower("ffmc"@[0]));
            }
            if w == OutputVariableName::ifwi {
                assert(ascii_lower("NDWI"@[0]) != ascii_lower("ifwi"@[0]));
            }
            if w == OutputVariableName::kbdi {
                assert(ascii_lower("NDWI"@[0]) != ascii_lower("kbdi"@[0]));
            }
            if w == OutputVariableName::ffdi {
                assert(ascii_lower("NDWI"@[0]) != ascii_lower("ffdi"@[0]));
            }
            if w == OutputVariableName::ffwi {
                assert(ascii_lower("NDWI"@[0]) != ascii_lower("ffwi"@[0]));
            }
        },
        OutputVariableName::meteoIndex2 => {
            if w == OutputVariableName::temperature {
                assert(ascii_lower("meteoIndex2"@[0]) != ascii_lower("temperature"@[0]));
            }
        },
        OutputVariableName::VPPF => {
            if w == OutputVariableName::rain {
                assert(ascii_lower("VPPF"@[0]) != ascii_lower("rain"@[0]));
            }
            if w == OutputVariableName::dffm {
                assert(ascii_lower("VPPF"@[0]) != ascii_lower("dffm"@[0]));
            }
            if w == OutputVariableName::NDVI {
                assert(ascii_lower("VPPF"@[0]) != ascii_lower("NDVI"@[0]));
            }
            if w == OutputVariableName::NDWI {
                assert(ascii_lower("VPPF"@[0]) != ascii_lower("NDWI"@[0]));
            }
            if w == OutputVariableName::IPPF {
                assert(ascii_lower("VPPF"@[0]) != ascii_lower("IPPF"@[0]));
            }
            if w == OutputVariableName::ffmc {
                assert(ascii_lower("VPPF"@[0]) != ascii_lower("ffmc"@[0]));
            }
            if w == OutputVariableName::ifwi {
                assert(ascii_lower("VPPF"@[0]) != ascii_lower("ifwi"@[0]));
            }
            if w == OutputVariableName::kbdi {
                assert(ascii_lower("VPPF"@[0]) != ascii_lower("kbdi"@[0]));
            }
            if w == OutputVariableName::ffdi {
                assert(ascii_lower("VPPF"@[0]) != ascii_lower("ffdi"@[0]));
            }
            if w == OutputVariableName::ffwi {
                assert(ascii_lower("VPPF"@[0]) != ascii_lower("ffwi"@[0]));
            }
        },
        OutputVariableName::IPPF => {
            if w == OutputVariableName::rain {
                assert(ascii_lower("IPPF"@[0]) != ascii_lower("rain"@[0]));
            }
            if w == OutputVariableName::dffm {
                assert(ascii_lower("IPPF"@[0]) != ascii_lower("dffm"@[0]));
            }
            if w == OutputVariableName::NDVI {
                assert(ascii_lower("IPPF"@[0]) != ascii_lower("NDVI"@[0]));
            }
            if w == OutputVariableName::NDWI {
                assert(ascii_lower("IPPF"@[0]) != ascii_lower("NDWI"@[0]));
            }
            if w == OutputVariableName::VPPF {
                assert(ascii_lower("IPPF"@[0]) != ascii_lower("VPPF"@[0]));
            }
            if w == OutputVariableName::ffmc {
                assert(ascii_lower("IPPF"@[0]) != ascii_lower("ffmc"@[0]));
            }
            if w == OutputVariableName::ifwi {
                assert(ascii_lower("IPPF"@[1]) != ascii_lower("ifwi"@[1]));
            }
            if w == OutputVariableName::kbdi {
                assert(ascii_lower("IPPF"@[0]) != ascii_lower("kbdi"@[0]));
            }
            if w == OutputVariableName::ffdi {
                assert(ascii_lower("IPPF"@[0]) != ascii_lower("ffdi"@[0]));
            }
            if w == OutputVariableName::ffwi {
                assert(ascii_lower("IPPF"@[0]) != ascii_lower("ffwi"@[0]));
            }
        },
        OutputVariableName::INDWI => {
            if w == OutputVariableName::VNDWI {
                assert(ascii_lower("INDWI"@[0]) != ascii_lower("VNDWI"@[0]));
            }
            if w == OutputVariableName::INDVI {
                assert(ascii_lower("INDWI"@[3]) != ascii_lower("INDVI"@[3]));
            }
            if w == OutputVariableName::VNDVI {
                assert(ascii_lower("INDWI"@[0]) != ascii_lower("VNDVI"@[0]));
            }
            if w == OutputVariableName::pet_t {
                assert(ascii_lower("INDWI"@[0]) != ascii_lower("pet_t"@[0]));
            }
        },
        OutputVariableName::VNDWI => {
            if w == OutputVariableName::INDWI {
                assert(ascii_lower("VNDWI"@[0]) != ascii_lower("INDWI"@[0]));
            }
            if w == OutputVariableName::INDVI {
                assert(ascii_lower("VNDWI"@[0]) != ascii_lower("INDVI"@[0]));
            }
            if w == OutputVariableName::VNDVI {
                assert(ascii_lower("VNDWI"@[3]) != ascii_lower("VNDVI"@[3]));
            }
            if w == OutputVariableName::pet_t {
                assert(ascii_lower("VNDWI"@[0]) != ascii_lower("pet_t"@[0]));
            }
        },
        OutputVariableName::INDVI => {
            if w == OutputVariableName::INDWI {
                assert(ascii_lower("INDVI"@[3]) != ascii_lower("INDWI"@[3]));
            }
            if w == OutputVariableName::VNDWI {
                assert(ascii_lower("INDVI"@[0]) != ascii_lower("VNDWI"@[0]));
            }
            if w == OutputVariableName::VNDVI {
                assert(ascii_lower("INDVI"@[0]) != ascii_lower("VNDVI"@[0]));
            }
            if w == OutputVariableName::pet_t {
                assert(ascii_lower("INDVI"@[0]) != ascii_lower("pet_t"@[0]));
            }
        },
        OutputVariableName::VNDVI => {
            if w == OutputVariableName::INDWI {
                assert(ascii_lower("VNDVI"@[0]) != ascii_lower("INDWI"@[0]));
            }
            if w == OutputVariableName::VNDWI {
                assert(ascii_lower("VNDVI"@[3]) != ascii_lower("VNDWI"@[3]));
            }
            if w == OutputVariableName::INDVI {
                assert(ascii_lower("VNDVI"@[0]) != ascii_lower("INDVI"@[0]));
            }
            if w == OutputVariableName::pet_t {
                assert(ascii_lower("VNDVI"@[0]) != ascii_lower("pet_t"@[0]));
            }
        },
        OutputVariableName::VPPFNDWI => {
            if w == OutputVariableName::humidity {
                assert(ascii_lower("VPPFNDWI"@[0]) != ascii_lower("humidity"@[0]));
            }
            if w == OutputVariableName::temp_dew {
                assert(ascii_lower("VPPFNDWI"@[0]) != ascii_lower("temp_dew"@[0]));
            }
            if w == OutputVariableName::IPPFNDWI {
                assert(ascii_lower("VPPFNDWI"@[0]) != ascii_lower("IPPFNDWI"@[0]));
            }
            if w == OutputVariableName::VPPFNDVI {
                assert(ascii_lower("VPPFNDWI"@[6]) != ascii_lower("VPPFNDVI"@[6]));
            }
            if w == OutputVariableName::IPPFNDVI {
                assert(ascii_lower("VPPFNDWI"@[0]) != ascii_lower("IPPFNDVI"@[0]));
            }
            if w == OutputVariableName::angstrom {
                assert(ascii_lower("VPPFNDWI"@[0]) != ascii_lower("angstrom"@[0]));
            }
            if w == OutputVariableName::nesterov {
                assert(ascii_lower("VPPFNDWI"@[0]) != ascii_lower("nesterov"@[0]));
            }
        },
        OutputVariableName::IPPFNDWI => {
            if w == OutputVariableName::humidity {
                assert(ascii_lower("IPPFNDWI"@[0]) != ascii_lower("humidity"@[0]));
            }
            if w == OutputVariableName::temp_dew {
                assert(ascii_lower("IPPFNDWI"@[0]) != ascii_lower("temp_dew"@[0]));
            }
            if w == OutputVariableName::VPPFNDWI {
                assert(ascii_lower("IPPFNDWI"@[0]) != ascii_lower("VPPFNDWI"@[0]));
            }
            if w == OutputVariableName::VPPFNDVI {
                assert(ascii_lower("IPPFNDWI"@[0]) != ascii_lower("VPPFNDVI"@[0]));
            }
            if w == OutputVariableName::IPPFNDVI {
                assert(ascii_lower("IPPFNDWI"@[6]) != ascii_lower("IPPFNDVI"@[6]));
            }
            if w == OutputVariableName::angstrom {
                assert(ascii_lower("IPPFNDWI"@[0]) != ascii_lower("angstrom"@[0]));
            }
            if w == OutputVariableName::nesterov {
                assert(ascii_lower("IPPFNDWI"@[0]) != ascii_lower("nesterov"@[0]));
            }
        },
        OutputVariableName::VPPFNDVI => {
            if w == OutputVariableName::humidity {
                assert(ascii_lower("VPPFNDVI"@[0]) != ascii_lower("humidity"@[0]));
            }
            if w == OutputVariableName::temp_dew {
                assert(ascii_lower("VPPFNDVI"@[0]) != ascii_lower("temp_dew"@[0]));
            }
            if w == OutputVariableName::VPPFNDWI {
                assert(ascii_lower("VPPFNDVI"@[6]) != ascii_lower("VPPFNDWI"@[6]));
            }
            if w == OutputVariableName::IPPFNDWI {
                assert(ascii_lower("VPPFNDVI"@[0]) != ascii_lower("IPPFNDWI"@[0]));
            }
            if w == OutputVariableName::IPPFNDVI {
                assert(ascii_lower("VPPFNDVI"@[0]) != ascii_lower("IPPFNDVI"@[0]));
            }
            if w == OutputVariableName::angstrom {
                assert(ascii_lower("VPPFNDVI"@[0]) != ascii_lower("angstrom"@[0]));
            }
            if w == OutputVariableName::nesterov {
                assert(ascii_lower("VPPFNDVI"@[0]) != ascii_lower("nesterov"@[0]));
            }
        },
        OutputVariableName::IPPFNDVI => {
            if w == OutputVariableName::humidity {
                assert(ascii_lower("IPPFNDVI"@[0]) != ascii_lower("humidity"@[0]));
            }
            if w == OutputVariableName::temp_dew {
                assert(ascii_lower("IPPFNDVI"@[0]) != ascii_lower("temp_dew"@[0]));
            }
            if w == OutputVariableName::VPPFNDWI {
                assert(ascii_lower("IPPFNDVI"@[0]) != ascii_lower("VPPFNDWI"@[0]));
            }
            if w == OutputVariableName::IPPFNDWI {
                assert(ascii_lower("IPPFNDVI"@[6]) != ascii_lower("IPPFNDWI"@[6]));
            }
            if w == OutputVariableName::VPPFNDVI {
                assert(ascii_lower("IPPFNDVI"@[0]) != ascii_lower("VPPFNDVI"@[0]));
            }
            if w == OutputVariableName::angstrom {
                assert(ascii_lower("IPPFNDVI"@[0]) != ascii_lower("angstrom"@[0]));
            }
            if w == OutputVariableName::nesterov {
                assert(ascii_lower("IPPFNDVI"@[0]) != ascii_lower("nesterov"@[0]));
            }
        },
        OutputVariableName::ffmc => {
            if w == OutputVariableName::rain {
                assert(ascii_lower("ffmc"@[0]) != ascii_lower("rain"@[0]));
            }
            if w == OutputVariableName::dffm {
                assert(ascii_lower("ffmc"@[0]) != ascii_lower("dffm"@[0]));
            }
            if w == OutputVariableName::NDVI {
                assert(ascii_lower("ffmc"@[0]) != ascii_lower("NDVI"@[0]));
            }
            if w == OutputVariableName::NDWI {
                assert(ascii_lower("ffmc"@[0]) != ascii_lower("NDWI"@[0]));
            }
            if w == OutputVariableName::VPPF {
                assert(ascii_lower("ffmc"@[0]) != ascii_lower("VPPF"@[0]));
            }
            if w == OutputVariableName::IPPF {
                assert(ascii_lower("ffmc"@[0]) != ascii_lower("IPPF"@[0]));
            }
            if w == OutputVariableName::ifwi {
                assert(ascii_lower("ffmc"@[0]) != ascii_lower("ifwi"@[0]));
            }
            if w == OutputVariableName::kbdi {
                assert(ascii_lower("ffmc"@[0]) != ascii_lower("kbdi"@[0]));
            }
            if w == OutputVariableName::ffdi {
                assert(ascii_lower("ffmc"@[2]) != ascii_lower("ffdi"@[2]));
            }
            if w == OutputVariableName::ffwi {
                assert(ascii_lower("ffmc"@[2]) != ascii_lower("ffwi"@[2]));
            }
        },
        OutputVariableName::dmc => {
            if w == OutputVariableName::vpd {
                assert(ascii_lower("dmc"@[0]) != ascii_lower("vpd"@[0]));
            }
            if w == OutputVariableName::isi {
                assert(ascii_lower("dmc"@[0]) != ascii_lower("isi"@[0]));
            }
            if w == OutputVariableName::bui {
                assert(ascii_lower("dmc"@[0]) != ascii_lower("bui"@[0]));
            }
            if w == OutputVariableName::fwi {
                assert(ascii_lower("dmc"@[0]) != ascii_lower("fwi"@[0]));
            }
            if w == OutputVariableName::fmi {
                assert(ascii_lower("dmc"@[0]) != ascii_lower("fmi"@[0]));
            }
            if w == OutputVariableName::hdw {
                assert(ascii_lower("dmc"@[0]) != ascii_lower("hdw"@[0]));
            }
        },
        OutputVariableName::dc => {
            if w == OutputVariableName::df {
                assert(ascii_lower("dc"@[1]) != ascii_lower("df"@[1]));
            }
        },
        OutputVariableName::isi => {
            if w == OutputVariableName::vpd {
                assert(ascii_lower("isi"@[0]) != ascii_lower("vpd"@[0]));
            }
            if w == OutputVariableName::dmc {
                assert(ascii_lower("isi"@[0]) != ascii_lower("dmc"@[0]));
            }
            if w == OutputVariableName::bui {
                assert(ascii_lower("isi"@[0]) != ascii_lower("bui"@[0]));
            }
            if w == OutputVariableName::fwi {
                assert(ascii_lower("isi"@[0]) != ascii_lower("fwi"@[0]));
            }
            if w == OutputVariableName::fmi {
                assert(ascii_lower("isi"@[0]) != ascii_lower("fmi"@[0]));
            }
            if w == OutputVariableName::hdw {
                assert(ascii_lower("isi"@[0]) != ascii_lower("hdw"@[0]));
            }
        },
        OutputVariableName::bui => {
            if w == OutputVariableName::vpd {
                assert(ascii_lower("bui"@[0]) != ascii_lower("vpd"@[0]));
            }
            if w == OutputVariableName::dmc {
                assert(ascii_lower("bui"@[0]) != ascii_lower("dmc"@[0]));
            }
            if w == OutputVariableName::isi {
                assert(ascii_lower("bui"@[0]) != ascii_lower("isi"@[0]));
            }
            if w == OutputVariableName::fwi {
                assert(ascii_lower("bui"@[0]) != ascii_lower("fwi"@[0]));
            }
            if w == OutputVariableName::fmi {
                assert(ascii_lower("bui"@[0]) != ascii_lower("fmi"@[0]));
            }
            if w == OutputVariableName::hdw {
                assert(ascii_lower("bui"@[0]) != ascii_lower("hdw"@[0]));
            }
        },
        OutputVariableName::fwi => {
            if w == OutputVariableName::vpd {
                assert(ascii_lower("fwi"@[0]) != ascii_lower("vpd"@[0]));
            }
            if w == OutputVariableName::dmc {
                assert(ascii_lower("fwi"@[0]) != ascii_lower("dmc"@[0]));
            }
            if w == OutputVariableName::isi {
                assert(ascii_lower("fwi"@[0]) != ascii_lower("isi"@[0]));
            }
            if w == OutputVariableName::bui {
                assert(ascii_lower("fwi"@[0]) != ascii_lower("bui"@[0]));
            }
            if w == OutputVariableName::fmi {
                assert(ascii_lower("fwi"@[1]) != ascii_lower("fmi"@[1]));
            }
            if w == OutputVariableName::hdw {
                assert(ascii_lower("fwi"@[0]) != ascii_lower("hdw"@[0]));
            }
        },
        OutputVariableName::ifwi => {
            if w == OutputVariableName::rain {
                assert(ascii_lower("ifwi"@[0]) != ascii_lower("rain"@[0]));
            }
            if w == OutputVariableName::dffm {
                assert(ascii_lower("ifwi"@[0]) != ascii_lower("dffm"@[0]));
            }
            if w == OutputVariableName::NDVI {
                assert(ascii_lower("ifwi"@[0]) != ascii_lower("NDVI"@[0]));
            }
            if w == OutputVariableName::NDWI {
                assert(ascii_lower("ifwi"@[0]) != ascii_lower("NDWI"@[0]));
            }
            if w == OutputVariableName::VPPF {
                assert(ascii_lower("ifwi"@[0]) != ascii_lower("VPPF"@[0]));
            }
            if w == OutputVariableName::IPPF {
                assert(ascii_lower("ifwi"@[1]) != ascii_lower("IPPF"@[1]));
            }
            if w == OutputVariableName::ffmc {
                assert(ascii_lower("ifwi"@[0]) != ascii_lower("ffmc"@[0]));
            }
            if w == OutputVariableName::kbdi {
                assert(ascii_lower("ifwi"@[0]) != ascii_lower("kbdi"@[0]));
            }
            if w == OutputVariableName::ffdi {
                assert(ascii_lower("ifwi"@[0]) != ascii_lower("ffdi"@[0]));
            }
            if w == OutputVariableName::ffwi {
                assert(ascii_lower("ifwi"@[0]) != ascii_lower("ffwi"@[0]));
            }
        },
        OutputVariableName::kbdi => {
            if w == OutputVariableName::rain {
                assert(ascii_lower("kbdi"@[0]) != ascii_lower("rain"@[0]));
            }
            if w == OutputVariableName::dffm {
                assert(ascii_lower("kbdi"@[0]) != ascii_lower("dffm"@[0]));
            }
            if w == OutputVariableName::NDVI {
                assert(ascii_lower("kbdi"@[0]) != ascii_lower("NDVI"@[0]));
            }
            if w == OutputVariableName::NDWI {
                assert(ascii_lower("kbdi"@[0]) != ascii_lower("NDWI"@[0]));
            }
            if w == OutputVariableName::VPPF {
                assert(ascii_lower("kbdi"@[0]) != ascii_lower("VPPF"@[0]));
            }
            if w == OutputVariableName::IPPF {
                assert(ascii_lower("kbdi"@[0]) != ascii_lower("IPPF"@[0]));
            }
            if w == OutputVariableName::ffmc {
                assert(ascii_lower("kbdi"@[0]) != ascii_lower("ffmc"@[0]));
            }
            if w == OutputVariableName::ifwi {
                assert(ascii_lower("kbdi"@[0]) != ascii_lower("ifwi"@[0]));
            }
            if w == OutputVariableName::ffdi {
                assert(ascii_lower("kbdi"@[0]) != ascii_lower("ffdi"@[0]));
            }
            if w == OutputVariableName::ffwi {
                assert(ascii_lower("kbdi"@[0]) != ascii_lower("ffwi"@[0]));
            }
        },
        OutputVariableName::df => {
            if w == OutputVariableName::dc {
                assert(ascii_lower("df"@[1]) != ascii_lower("dc"@[1]));
            }
        },
        OutputVariableName::ffdi => {
            if w == OutputVariableName::rain {
                assert(ascii_lower("ffdi"@[0]) != ascii_lower("rain"@[0]));
            }
            if w == OutputVariableName::dffm {
                assert(ascii_lower("ffdi"@[0]) != ascii_lower("dffm"@[0]));
            }
            if w == OutputVariableName::NDVI {
                assert(ascii_lower("ffdi"@[0]) != ascii_lower("NDVI"@[0]));
            }
            if w == OutputVariableName::NDWI {
                assert(ascii_lower("ffdi"@[0]) != ascii_lower("NDWI"@[0]));
            }
            if w == OutputVariableName::VPPF {
                assert(ascii_lower("ffdi"@[0]) != ascii_lower("VPPF"@[0]));
            }
            if w == OutputVariableName::IPPF {
                assert(ascii_lower("ffdi"@[0]) != ascii_lower("IPPF"@[0]));
            }
            if w == OutputVariableName::ffmc {
                assert(ascii_lower("ffdi"@[2]) != ascii_lower("ffmc"@[2]));
            }
            if w == OutputVariableName::ifwi {
                assert(ascii_lower("ffdi"@[0]) != ascii_lower("ifwi"@[0]));
            }
            if w == OutputVariableName::kbdi {
                assert(ascii_lower("ffdi"@[0]) != ascii_lower("kbdi"@[0]));
            }
            if w == OutputVariableName::ffwi {
                assert(ascii_lower("ffdi"@[2]) != ascii_lower("ffwi"@[2]));
            }
        },
        OutputVariableName::angstrom => {
            if w == OutputVariableName::humidity {
                assert(ascii_lower("angstrom"@[0]) != ascii_lower("humidity"@[0]));
            }
            if w == OutputVariableName::temp_dew {
                assert(ascii_lower("angstrom"@[0]) != ascii_lower("temp_dew"@[0]));
            }
            if w == OutputVariableName::VPPFNDWI {
                assert(ascii_lower("angstrom"@[0]) != ascii_lower("VPPFNDWI"@[0]));
            }
            if w == OutputVariableName::IPPFNDWI {
                assert(ascii_lower("angstrom"@[0]) != ascii_lower("IPPFNDWI"@[0]));
            }
            if w == OutputVariableName::VPPFNDVI {
                assert(ascii_lower("angstrom"@[0]) != ascii_lower("VPPFNDVI"@[0]));
            }
            if w == OutputVariableName::IPPFNDVI {
                assert(ascii_lower("angstrom"@[0]) != ascii_lower("IPPFNDVI"@[0]));
            }
            if w == OutputVariableName::nesterov {
                assert(ascii_lower("angstrom"@[0]) != ascii_lower("nesterov"@[0]));
            }
        },
        OutputVariableName::ffwi => {
            if w == OutputVariableName::rain {
                assert(ascii_lower("ffwi"@[0]) != ascii_lower("rain"@[0]));
            }
            if w == OutputVariableName::dffm {
                assert(ascii_lower("ffwi"@[0]) != ascii_lower("dffm"@[0]));
            }
            if w == OutputVariableName::NDVI {
                assert(ascii_lower("ffwi"@[0]) != ascii_lower("NDVI"@[0]));
            }
            if w == OutputVariableName::NDWI {
                assert(ascii_lower("ffwi"@[0]) != ascii_lower("NDWI"@[0]));
            }
            if w == OutputVariableName::VPPF {
                assert(ascii_lower("ffwi"@[0]) != ascii_lower("VPPF"@[0]));
            }
            if w == OutputVariableName::IPPF {
                assert(ascii_lower("ffwi"@[0]) != ascii_lower("IPPF"@[0]));
            }
            if w == OutputVariableName::ffmc {
                assert(ascii_lower("ffwi"@[2]) != ascii_lower("ffmc"@[2]));
            }
            if w == OutputVariableName::ifwi {
                assert(ascii_lower("ffwi"@[0]) != ascii_lower("ifwi"@[0]));
            }
            if w == OutputVariableName::kbdi {
                assert(ascii_lower("ffwi"@[0]) != ascii_lower("kbdi"@[0]));
            }
            if w == OutputVariableName::ffdi {
                assert(ascii_lower("ffwi"@[2]) != ascii_lower("ffdi"@[2]));
            }
        },
        OutputVariableName::nesterov => {
            if w == OutputVariableName::humidity {
                assert(ascii_lower("nesterov"@[0]) != ascii_lower("humidity"@[0]));
            }
            if w == OutputVariableName::temp_dew {
                assert(ascii_lower("nesterov"@[0]) != ascii_lower("temp_dew"@[0]));
            }
            if w == OutputVariableName::VPPFNDWI {
                assert(ascii_lower("nesterov"@[0]) != ascii_lower("VPPFNDWI"@[0]));
            }
            if w == OutputVariableName::IPPFNDWI {
                assert(ascii_lower("nesterov"@[0]) != ascii_lower("IPPFNDWI"@[0]));
            }
            if w == OutputVariableName::VPPFNDVI {
                assert(ascii_lower("nesterov"@[0]) != ascii_lower("VPPFNDVI"@[0]));
            }
            if w == OutputVariableName::IPPFNDVI {
                assert(ascii_lower("nesterov"@[0]) != ascii_lower("IPPFNDVI"@[0]));
            }
            if w == OutputVariableName::angstrom {
                assert(ascii_lower("nesterov"@[0]) != ascii_lower("angstrom"@[0]));
            }
        },
        OutputVariableName::fmi => {
            if w == OutputVariableName::vpd {
                assert(ascii_lower("fmi"@[0]) != ascii_lower("vpd"@[0]));
            }
            if w == OutputVariableName::dmc {
                assert(ascii_lower("fmi"@[0]) != ascii_lower("dmc"@[0]));
            }
            if w == OutputVariableName::isi {
                assert(ascii_lower("fmi"@[0]) != ascii_lower("isi"@[0]));
            }
            if w == OutputVariableName::bui {
                assert(ascii_lower("fmi"@[0]) != ascii_lower("bui"@[0]));
            }
            if w == OutputVariableName::fwi {
                assert(ascii_lower("fmi"@[1]) != ascii_lower("fwi"@[1]));
            }
            if w == OutputVariableName::hdw {
                assert(ascii_lower("fmi"@[0]) != ascii_lower("hdw"@[0]));
            }
        },
        OutputVariableName::f => {
            if w == OutputVariableName::W {
                assert(ascii_lower("f"@[0]) != ascii_lower("W"@[0]));
            }
            if w == OutputVariableName::V {
                assert(ascii_lower("f"@[0]) != ascii_lower("V"@[0]));
            }
            if w == OutputVariableName::I {
                assert(ascii_lower("f"@[0]) != ascii_lower("I"@[0]));
            }
        },
        OutputVariableName::pet_t => {
            if w == OutputVariableName::INDWI {
                assert(ascii_lower("pet_t"@[0]) != ascii_lower("INDWI"@[0]));
            }
            if w == OutputVariableName::VNDWI {
                assert(ascii_lower("pet_t"@[0]) != ascii_lower("VNDWI"@[0]));
            }
            if w == OutputVariableName::INDVI {
                assert(ascii_lower("pet_t"@[0]) != ascii_lower("INDVI"@[0]));
            }
            if w == OutputVariableName::VNDVI {
                assert(ascii_lower("pet_t"@[0]) != ascii_lower("VNDVI"@[0]));
            }
        },
        OutputVariableName::orieux_wr => {
            if w == OutputVariableName::windSpeed {
                assert(ascii_lower("orieux_wr"@[0]) != ascii_lower("windSpeed"@[0]));
            }
            if w == OutputVariableName::snowCover {
                assert(ascii_lower("orieux_wr"@[0]) != ascii_lower("snowCover"@[0]));
            }
            if w == OutputVariableName::orieux_fd {
                assert(ascii_lower("orieux_wr"@[7]) != ascii_lower("orieux_fd"@[7]));
            }
        },
        OutputVariableName::orieux_fd => {
            if w == OutputVariableName::windSpeed {
                assert(ascii_lower("orieux_fd"@[0]) != ascii_lower("windSpeed"@[0]));
            }
            if w == OutputVariableName::snowCover {
                assert(ascii_lower("orieux_fd"@[0]) != ascii_lower("snowCover"@[0]));
            }
            if w == OutputVariableName::orieux_wr {
                assert(ascii_lower("orieux_fd"@[7]) != ascii_lower("orieux_wr"@[7]));
            }
        },
        OutputVariableName::portuguese_ignition => {

        },
        OutputVariableName::portuguese_fdi => {

        },
        OutputVariableName::hdw => {
            if w == OutputVariableName::vpd {
                assert(ascii_lower("hdw"@[0]) != ascii_lower("vpd"@[0]));
            }
            if w == OutputVariableName::dmc {
                assert(ascii_lower("hdw"@[0]) != ascii_lower("dmc"@[0]));
            }
            if w == OutputVariableName::isi {
                assert(ascii_lower("hdw"@[0]) != ascii_lower("isi"@[0]));
            }
            if w == OutputVariableName::bui {
                assert(ascii_lower("hdw"@[0]) != ascii_lower("bui"@[0]));
            }
            if w == OutputVariableName::fwi {
                assert(ascii_lower("hdw"@[0]) != ascii_lower("fwi"@[0]));
            }
            if w == OutputVariableName::fmi {
                assert(ascii_lower("hdw"@[0]) != ascii_lower("fmi"@[0]));
            }
        },
    }
}

/// How the values of the cells that share an output pixel are combined.
#[derive(Clone, Copy, Debug, PartialEq, Eq, Hash, Structural)]
pub enum ClusterMode {
    Mean,
    Median,
    Min,
    Max,
}

impl ClusterMode {
    pub open spec fn spec_name(self) -> Seq<char> {
        match self {
            ClusterMode::Mean => "Mean"@,
            ClusterMode::Median => "Median"@,
            ClusterMode::Min => "Min"@,
            ClusterMode::Max => "Max"@,
        }
    }

    pub fn name(&self) -> (name: &'static str)
        ensures
            name@ == self.spec_name(),
    {
        match self {
            ClusterMode::Mean => "Mean",
            ClusterMode::Median => "Median",
            ClusterMode::Min => "Min",
            ClusterMode::Max => "Max",
        }
    }

    /// The mode `text` names, ignoring ASCII case.
    pub fn from_name(text: &str) -> (found: Option<ClusterMode>)
        ensures
            match found {
                Some(mode) => eq_ignore_ascii_case(text@, mode.spec_name()),
                None => forall|mode: ClusterMode| !eq_ignore_ascii_case(text@, mode.spec_name()),
            },
    {
        if same_text_ignore_ascii_case(text, "Mean") {
            Some(ClusterMode::Mean)
        } else if same_text_ignore_ascii_case(text, "Median") {
            Some(ClusterMode::Median)
        } else if same_text_ignore_ascii_case(text, "Min") {
            Some(ClusterMode::Min)
        } else if same_text_ignore_ascii_case(text, "Max") {
            Some(ClusterMode::Max)
        } else {
            None
        }
    }
}

/// A variable of an output: which model variable, under which name, how
/// cells sharing a pixel are combined, and to how many decimals.
#[derive(Clone, Debug)]
pub struct OutputVariable {
    internal_name: OutputVariableName,
    name: String,
    cluster_mode: ClusterMode,
    precision: i32,
}

impl OutputVariable {
    pub closed spec fn spec_internal_name(self) -> OutputVariableName {
        self.internal_name
    }

    pub closed spec fn spec_output_name(self) -> Seq<char> {
        self.name@
    }

    pub closed spec fn spec_cluster_mode(self) -> ClusterMode {
        self.cluster_mode
    }

    pub closed spec fn spec_precision(self) -> i32 {
        self.precision
    }

    pub fn new(internal_name: OutputVariableName, name: &str, cluster_mode: ClusterMode, precision: i32)
        -> (variable: OutputVariable)
        ensures
            variable.spec_internal_name() == internal_name,
            variable.spec_output_name() == name@,
            variable.spec_cluster_mode() == cluster_mode,
            variable.spec_precision() == precision,
    {
        OutputVariable { internal_name, name: name.to_owned(), cluster_mode, precision }
    }

    pub fn internal_name(&self) -> (name: OutputVariableName)
        ensures
            name == self.spec_internal_name(),
    {
        self.internal_name
    }

    pub fn output_name(&self) -> (name: &str)
        ensures
            name@ == self.spec_output_name(),
    {
        self.name.as_str()
    }

    pub fn cluster_mode(&self) -> (mode: ClusterMode)
        ensures
            mode == self.spec_cluster_mode(),
    {
        self.cluster_mode
    }

    pub fn precision(&self) -> (precision: i32)
        ensures
            precision == self.spec_precision(),
    {
        self.precision
    }
}

/// One configured output: its name, where it is written, on which grid, in
/// which format, and with which variables.
#[derive(Clone, Debug)]
pub struct OutputTypeConfig {
    pub internal_name: String,
    pub name: String,
    pub path: String,
    pub grid_path: String,
    pub format: String,
    pub variables: Vec<OutputVariable>,
}

/// The model variables of `variables`, in order.
pub open spec fn internal_names(variables: Seq<OutputVariable>) -> Seq<OutputVariableName> {
    Seq::new(variables.len(), |k: int| variables[k].spec_internal_name())
}

/// The model variables of every output, output after output.
pub open spec fn configured_variables(outputs: Seq<OutputTypeConfig>) -> Seq<OutputVariableName>
    decreases outputs.len(),
{
    if outputs.len() == 0 {
        Seq::empty()
    } else {
        configured_variables(outputs.drop_last()) + internal_names(outputs.last().variables@)
    }
}

/// `s` with every repetition of an earlier item left out.
pub open spec fn first_occurrences<A>(s: Seq<A>) -> Seq<A>
    decreases s.len(),
{
    if s.len() == 0 {
        Seq::empty()
    } else {
        let kept = first_occurrences(s.drop_last());
        if kept.contains(s.last()) { kept } else { kept.push(s.last()) }
    }
}

/// The model variables that any output needs, each once, in the order they
/// are first configured.
pub fn native_output_variables(outputs: &Vec<OutputTypeConfig>) -> (variables: Vec<OutputVariableName>)
    ensures
        variables@ == first_occurrences(configured_variables(outputs@)),
{
    let mut variables: Vec<OutputVariableName> = Vec::new();
    let mut i: usize = 0;
    while i < outputs.len()
        invariant
            i <= outputs@.len(),
            variables@ == first_occurrences(configured_variables(outputs@.take(i as int))),
        decreases outputs@.len() - i,
    {
        let output = &outputs[i];
        let ghost before = configured_variables(outputs@.take(i as int));
        let mut j: usize = 0;
        while j < output.variables.len()
            invariant
                j <= output.variables@.len(),
                variables@ == first_occurrences(before + internal_names(output.variables@.take(j as int))),
            decreases output.variables@.len() - j,
        {
            let name = output.variables[j].internal_name();
            let ghost s = before + internal_names(output.variables@.take(j as int));
            proof {
                assert(before + internal_names(output.variables@.take(j + 1)) =~= s.push(name));
                assert(s.push(name).drop_last() =~= s);
            }
            if !contains_name(&variables, name) {
                variables.push(name);
            }
            j += 1;
        }
        proof {
            assert(output.variables@.take(j as int) =~= output.variables@);
            assert(outputs@.take(i + 1).drop_last() =~= outputs@.take(i as int));
            assert(outputs@.take(i + 1).last() == outputs@[i as int]);
        }
        i += 1;
    }
    proof {
        assert(outputs@.take(i as int) =~= outputs@);
    }
    variables
}

fn contains_name(names: &Vec<OutputVariableName>, name: OutputVariableName) -> (found: bool)
    ensures
        found == names@.contains(name),
{
    let mut k: usize = 0;
    while k < names.len()
        invariant
            k <= names@.len(),
            forall|j: int| 0 <= j < k ==> names@[j] != name,
        decreases names@.len() - k,
    {
        if names[k] == name {
            proof {
                assert(names@[k as int] == name);
            }
            return true;
        }
        k += 1;
    }
    false
}

/// Keeping only first occurrences leaves no item twice.
pub proof fn law_first_occurrences_unique<A>(s: Seq<A>)
    ensures
        first_occurrences(s).no_duplicates(),
    decreases s.len(),
{
    if s.len() > 0 {
        law_first_occurrences_unique(s.drop_last());
    }
}

/// Keeping only first occurrences loses no item and adds none.
pub proof fn law_first_occurrences_same_items<A>(s: Seq<A>)
    ensures
        forall|x: A| first_occurrences(s).contains(x) <==> s.contains(x),
    decreases s.len(),
{
    if s.len() > 0 {
        let rest = s.drop_last();
        law_first_occurrences_same_items(rest);
        let kept = first_occurrences(rest);
        assert forall|x: A| s.contains(x) implies first_occurrences(s).contains(x) by {
            if x == s.last() {
                if kept.contains(x) {
                } else {
                    assert(kept.push(x)[kept.len() as int] == x);
                }
            } else {
                let k = choose|k: int| 0 <= k < s.len() && s[k] == x;
                assert(k < rest.len());
                assert(rest[k] == x);
                assert(rest.contains(x));
                assert(kept.contains(x));
                let m = choose|m: int| 0 <= m < kept.len() && kept[m] == x;
                if !kept.contains(s.last()) {
                    assert(kept.push(s.last())[m] == x);
                }
            }
        }
        assert forall|x: A| first_occurrences(s).contains(x) implies s.contains(x) by {
            if x == s.last() {
                assert(s[s.len() - 1] == x);
            } else {
                let f = first_occurrences(s);
                let m = choose|m: int| 0 <= m < f.len() && f[m] == x;
                if !kept.contains(s.last()) {
                    assert(m < kept.len());
                    assert(kept[m] == x);
                }
                assert(kept.contains(x));
                assert(rest.contains(x));
                let k = choose|k: int| 0 <= k < rest.len() && rest[k] == x;
                assert(s[k] == x);
            }
        }
    }
}

/// What each output variable is, as its long name and units state: `V` is
/// the fire spread rate in m/h, `I` the fire intensity in kW/m, and so on.
pub proof fn law_output_variable_descriptions()
    ensures
        OutputVariableName::temperature.spec_long_name() == "Input Temperature"@,
        OutputVariableName::rain.spec_long_name() == "Input Rain"@,
        OutputVariableName::windSpeed.spec_long_name() == "Input Wind Speed"@,
        OutputVariableName::windDir.spec_long_name() == "Input Wind Direction"@,
        OutputVariableName::humidity.spec_long_name() == "Input Relative Humidity"@,
        OutputVariableName::snowCover.spec_long_name() == "Input Snow Cover"@,
        OutputVariableName::temp_dew.spec_long_name() == "Dew Point Temperature"@,
        OutputVariableName::vpd.spec_long_name() == "Vapor Pressure Deficit"@,
        OutputVariableName::dffm.spec_long_name() == "Fine Fuel Moisture"@,
        OutputVariableName::W.spec_long_name() == "Wind Effect on Fire Spread"@,
        OutputVariableName::V.spec_long_name() == "Fire Spread Rate"@,
        OutputVariableName::I.spec_long_name() == "Fire Intensity"@,
        OutputVariableName::contrT.spec_long_name() == "Temperature Effect on Fire Spread"@,
        OutputVariableName::NDVI.spec_long_name() == "NDVI factor"@,
        OutputVariableName::NDWI.spec_long_name() == "NDWI factor"@,
        OutputVariableName::meteoIndex2.spec_long_name() == "Meteorological Index"@,
        OutputVariableName::VPPF.spec_long_name() == "Fire Spread Rate + PPF"@,
        OutputVariableName::IPPF.spec_long_name() == "Fire Intensity + PPF"@,
        OutputVariableName::INDWI.spec_long_name() == "Fire Intensity + NDWI factor"@,
        OutputVariableName::VNDWI.spec_long_name() == "Fire Spread rate + NDWI factor"@,
        OutputVariableName::INDVI.spec_long_name() == "Fire Intensity + NDVI factor"@,
        OutputVariableName::VNDVI.spec_long_name() == "Fire Spread rate + NDVI factor"@,
        OutputVariableName::VPPFNDWI.spec_long_name() == "Fire Spread rate + PPF + NDWI factor"@,
        OutputVariableName::IPPFNDWI.spec_long_name() == "Fire Intensity + PPF + NDWI factor"@,
        OutputVariableName::VPPFNDVI.spec_long_name() == "Fire Spread rate + PPF + NDVI factor"@,
        OutputVariableName::IPPFNDVI.spec_long_name() == "Fire Intensity + PPF + NDVI factor"@,
        OutputVariableName::ffmc.spec_long_name() == "Fine Fuel Moisture Code"@,
        OutputVariableName::dmc.spec_long_name() == "Duff Moisture Code"@,
        OutputVariableName::dc.spec_long_name() == "Drought Code"@,
        OutputVariableName::isi.spec_long_name() == "Initial Spread Index"@,
        OutputVariableName::bui.spec_long_name() == "Build Up Index"@,
        OutputVariableName::fwi.spec_long_name() == "Fire Weather Index"@,
        OutputVariableName::ifwi.spec_long_name() == "IFWI"@,
        OutputVariableName::kbdi.spec_long_name() == "Keetch-Byram Drought Index"@,
        OutputVariableName::df.spec_long_name() == "Drought Factor"@,
        OutputVariableName::ffdi.spec_long_name() == "Mark5 Fire Danger Index"@,
        OutputVariableName::angstrom.spec_long_name() == "Angstrom Index"@,
        OutputVariableName::ffwi.spec_long_name() == "Fosberg Fire Weather Index"@,
        OutputVariableName::nesterov.spec_long_name() == "Nesterov Index"@,
        OutputVariableName::fmi.spec_long_name() == "Sharples Fuel Moisture Index"@,
        OutputVariableName::f.spec_long_name() == "Sharples Fire Danger Index"@,
        OutputVariableName::pet_t.spec_long_name() == "Potential Evapotranspiration - Thornthwaite formulation"@,
        OutputVariableName::orieux_wr.spec_long_name() == "Orieux Water Reserve"@,
        OutputVariableName::orieux_fd.spec_long_name() == "Orieux Fire Danger Class (0:low, 1:moderate, 2:high, 3:extreme)"@,
        OutputVariableName::portuguese_ignition.spec_long_name() == "Portuguese Ignition Index"@,
        OutputVariableName::portuguese_fdi.spec_long_name() == "Portuguese Fire Danger Index"@,
        OutputVariableName::hdw.spec_long_name() == "Hot-Dry-Wind Index"@,
        OutputVariableName::temperature.spec_units() == "°C"@,
        OutputVariableName::rain.spec_units() == "mm"@,
        OutputVariableName::windSpeed.spec_units() == "m/s"@,
        OutputVariableName::windDir.spec_units() == "°"@,
        OutputVariableName::humidity.spec_units() == "%"@,
        OutputVariableName::snowCover.spec_units() == "mm"@,
        OutputVariableName::temp_dew.spec_units() == "°C"@,
        OutputVariableName::vpd.spec_units() == "hPa"@,
        OutputVariableName::dffm.spec_units() == "%"@,
        OutputVariableName::W.spec_units() == "-"@,
        OutputVariableName::V.spec_units() == "m/h"@,
        OutputVariableName::I.spec_units() == "kW/m"@,
        OutputVariableName::contrT.spec_units() == "-"@,
        OutputVariableName::NDVI.spec_units() == "-"@,
        OutputVariableName::NDWI.spec_units() == "-"@,
        OutputVariableName::meteoIndex2.spec_units() == "-"@,
        OutputVariableName::VPPF.spec_units() == "m/h"@,
        OutputVariableName::IPPF.spec_units() == "kW/m"@,
        OutputVariableName::INDWI.spec_units() == "kW/m"@,
        OutputVariableName::VNDWI.spec_units() == "m/h"@,
        OutputVariableName::INDVI.spec_units() == "kW/m"@,
        OutputVariableName::VNDVI.spec_units() == "m/h"@,
        OutputVariableName::VPPFNDWI.spec_units() == "m/h"@,
        OutputVariableName::IPPFNDWI.spec_units() == "kW/m"@,
        OutputVariableName::VPPFNDVI.spec_units() == "m/h"@,
        OutputVariableName::IPPFNDVI.spec_units() == "kW/m"@,
        OutputVariableName::ffmc.spec_units() == "-"@,
        OutputVariableName::dmc.spec_units() == "-"@,
        OutputVariableName::dc.spec_units() == "-"@,
        OutputVariableName::isi.spec_units() == "-"@,
        OutputVariableName::bui.spec_units() == "-"@,
        OutputVariableName::fwi.spec_units() == "-"@,
        OutputVariableName::ifwi.spec_units() == "-"@,
        OutputVariableName::kbdi.spec_units() == "mm"@,
        OutputVariableName::df.spec_units() == "-"@,
        OutputVariableName::ffdi.spec_units() == "-"@,
        OutputVariableName::angstrom.spec_units() == "-"@,
        OutputVariableName::ffwi.spec_units() == "-"@,
        OutputVariableName::nesterov.spec_units() == "-"@,
        OutputVariableName::fmi.spec_units() == "-"@,
        OutputVariableName::f.spec_units() == "-"@,
        OutputVariableName::pet_t.spec_units() == "mm"@,
        OutputVariableName::orieux_wr.spec_units() == "mm"@,
        OutputVariableName::orieux_fd.spec_units() == "-"@,
        OutputVariableName::portuguese_ignition.spec_units() == "-"@,
        OutputVariableName::portuguese_fdi.spec_units() == "-"@,
        OutputVariableName::hdw.spec_units() == "-"@,
{
}

/// Each cluster mode is named by its identifier.
pub proof fn law_cluster_mode_names()
    ensures
        ClusterMode::Mean.spec_name() == "Mean"@,
        ClusterMode::Median.spec_name() == "Median"@,
        ClusterMode::Min.spec_name() == "Min"@,
        ClusterMode::Max.spec_name() == "Max"@,
{
}

} // verus!
