use vstd::prelude::*;

verus! {

/// What can go wrong while building or rendering a syntax tree.
#[derive(Clone, Copy, Debug, PartialEq, Eq, Structural)]
pub enum YulError {
    /// A literal's text does not have the form that its kind asks for.
    WrongNumberFormat,
    /// Blocks are nested deeper than the writer's indentation counter can count.
    NestingTooDeep,
}

impl YulError {
    /// A short description of the error.
    pub fn message(&self) -> (r: String)
        ensures
            r@ == (match *self {
                YulError::WrongNumberFormat => "Wrong format of number"@,
                YulError::NestingTooDeep => "Blocks are nested too deeply"@,
            }),
    {
        match self {
            YulError::WrongNumberFormat => "Wrong format of number".to_owned(),
            YulError::NestingTooDeep => "Blocks are nested too deeply".to_owned(),
        }
    }
}

} // verus!
