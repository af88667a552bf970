//! The list of binary input files: which lines name an input, and the time,
//! grid and variable each one carries in its name
//! (`<dir>/<YYYYmmDDHHMM>_<grid>_<variable>.zbin`).

use vstd::prelude::*;

use crate::text::chars_of;
use crate::timeline::{parse_minutes_stamp, parsed_utc};
use crate::tokens::{lemma_pieces_nonempty, pieces, split_on};
use crate::variables::InputVariableName;

verus! {

broadcast use vstd::string::group_string_axioms;

/// Whether `line` names a `.zbin` file.
pub open spec fn names_zbin(line: Seq<char>) -> bool {
    line.len() >= 5 && line.skip(line.len() - 5) == ".zbin"@
}

/// The file name of a path: what follows its last `/`.
pub open spec fn file_name(path: Seq<char>) -> Seq<char> {
    pieces(path, '/').last()
}

/// Why an input file name could not be read.
#[derive(Clone, Copy, Debug, PartialEq, Eq, Structural)]
pub enum InputNameError {
    /// More than one `.` in the file name.
    Extension,
    /// The name is not three `_`-separated parts.
    Parts,
    /// The first part is not a `YYYYmmDDHHMM` time.
    Date,
    /// The third part is not an input variable.
    Variable,
}

/// An input file of the list.
#[derive(Clone, Debug)]
pub struct InputFile {
    pub time: i64,
    pub grid_name: String,
    pub variable: InputVariableName,
    pub path: String,
}

/// What a line of the input list holds.
#[derive(Clone, Debug)]
pub enum InputLine {
    /// Not a `.zbin` file: ignored.
    Ignored,
    /// A `.zbin` file whose name does not follow the convention.
    Invalid(InputNameError),
    /// An input file.
    File(InputFile),
}

/// The input variable named exactly `name`.
pub open spec fn input_variable_named(name: Seq<char>, v: InputVariableName) -> bool {
    v.spec_name() == name
}

/// What the name of the file at `line` says, when it ends in `.zbin`.
pub open spec fn name_outcome(line: Seq<char>) -> Result<(i64, Seq<char>, Seq<char>), InputNameError> {
    let parts = pieces(file_name(line), '.');
    if parts.len() > 2 {
        Err(InputNameError::Extension)
    } else {
        let fields = pieces(parts[0], '_');
        if fields.len() != 3 {
            Err(InputNameError::Parts)
        } else {
            match parsed_utc(fields[0], "%Y%m%d%H%M"@) {
                None => Err(InputNameError::Date),
                Some(time) => Ok((time, fields[1], fields[2])),
            }
        }
    }
}

/// Whether `outcome` is what the input list makes of `line`.
pub open spec fn reads_line(line: Seq<char>, outcome: InputLine) -> bool {
    if !names_zbin(line) {
        outcome is Ignored
    } else {
        match name_outcome(line) {
            Err(e) => outcome == InputLine::Invalid(e),
            Ok((time, grid, variable)) => match outcome {
                InputLine::File(file) => file.time == time && file.grid_name@ == grid
                    && file.variable.spec_name() == variable && file.path@ == line,
                InputLine::Invalid(e) => e == InputNameError::Variable
                    && forall|v: InputVariableName| v.spec_name() != variable,
                InputLine::Ignored => false,
            },
        }
    }
}

/// Whether `text` ends with `.zbin`.
pub(crate) fn ends_with_zbin(text: &str) -> (ends: bool)
    ensures
        ends == names_zbin(text@),
{
    let cs = chars_of(text);
    let n = cs.len();
    if n < 5 {
        return false;
    }
    let suffix = ".zbin";
    let want = chars_of(suffix);
    proof {
        reveal_strlit(".zbin");
    }
    let mut k: usize = 0;
    while k < 5
        invariant
            cs@ == text@,
            n == cs@.len(),
            n >= 5,
            want@ == ".zbin"@,
            want@.len() == 5,
            k <= 5,
            forall|j: int| 0 <= j < k ==> text@[n - 5 + j] == want@[j],
        decreases 5 - k,
    {
        if cs[n - 5 + k] != want[k] {
            proof {
                assert(text@.skip(n - 5)[k as int] != ".zbin"@[k as int]);
            }
            return false;
        }
        k += 1;
    }
    proof {
        assert(text@.skip(n - 5) =~= ".zbin"@);
    }
    true
}

/// The time, grid name and variable name that an input file's name carries.
pub fn parse_line(line: &str) -> (parsed: Result<(String, String, i64), InputNameError>)
    ensures
        match parsed {
            Ok((grid, variable, time)) => name_outcome(line@) == Ok::<(i64, Seq<char>, Seq<char>), InputNameError>((time, grid@, variable@)),
            Err(e) => name_outcome(line@) == Err::<(i64, Seq<char>, Seq<char>), InputNameError>(e),
        },
{
    let components = split_on(line, '/');
    proof {
        lemma_pieces_nonempty(line@, '/');
        assert(crate::tokens::texts(components@).len() == components@.len());
    }
    let name = components[components.len() - 1].as_str();
    proof {
        assert(name@ == file_name(line@));
    }
    let parts = split_on(name, '.');
    proof {
        lemma_pieces_nonempty(name@, '.');
        assert(crate::tokens::texts(parts@).len() == parts@.len());
        assert(parts@[0]@ == pieces(name@, '.')[0]);
    }
    if parts.len() > 2 {
        return Err(InputNameError::Extension);
    }
    let fields = split_on(parts[0].as_str(), '_');
    proof {
        assert(crate::tokens::texts(fields@).len() == fields@.len());
    }
    if fields.len() != 3 {
        return Err(InputNameError::Parts);
    }
    match parse_minutes_stamp(fields[0].as_str()) {
        None => Err(InputNameError::Date),
        Some(time) => {
            proof {
                assert(fields@[1]@ == pieces(parts@[0]@, '_')[1]);
                assert(fields@[2]@ == pieces(parts@[0]@, '_')[2]);
            }
            Ok((fields[1].clone(), fields[2].clone(), time))
        },
    }
}

/// What a line of the input list holds.
pub fn read_input_line(line: &str) -> (outcome: InputLine)
    ensures
        reads_line(line@, outcome),
{
    if !ends_with_zbin(line) {
        return InputLine::Ignored;
    }
    match parse_line(line) {
        Err(e) => InputLine::Invalid(e),
        Ok((grid_name, variable_name, time)) => match InputVariableName::from_name(variable_name.as_str()) {
            None => InputLine::Invalid(InputNameError::Variable),
            Some(variable) => InputLine::File(InputFile { time, grid_name, variable, path: line.to_owned() }),
        },
    }
}

} // verus!
