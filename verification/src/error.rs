use vstd::prelude::*;

verus! {

use vstd::string::StringExecFns;

/// The single failure mode of the calculator: the requested year lies
/// outside the supported range of the Computus algorithm.
#[derive(Clone, Copy, Debug, PartialEq, Eq, Structural)]
pub enum HolidayError {
    InvalidYear,
}

/// Error record handed across the request boundary.
#[derive(Debug, Clone)]
pub struct MyError {
    pub errormessage: String,
}

impl MyError {
    pub fn new(msg: &str) -> (r: MyError)
        ensures
            r.errormessage@ == msg@,
    {
        MyError { errormessage: String::from_str(msg) }
    }
}

} // verus!
