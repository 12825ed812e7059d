//! The search settings taken from a program's arguments.
use vstd::prelude::*;

verus! {

/// Message of the error for fewer than two arguments after the program name.
pub const NOT_ENOUGH_ARGUMENTS: &'static str = "Not enough arguments. ";

/// Message of the error for more than two arguments after the program name.
pub const EXTRA_ARGUMENTS: &'static str = "Extra arguments provided";

/// What to search for, where, and whether case matters.
pub struct Config {
    query: String,
    file_path: String,
    ignore_case: bool,
}

impl View for Config {
    /// The query, the file path, and whether case is ignored.
    type V = (Seq<char>, Seq<char>, bool);

    closed spec fn view(&self) -> Self::V {
        (self.query@, self.file_path@, self.ignore_case)
    }
}

impl Config {
    /// Builds the settings from the program's arguments: the program name, then
    /// the query, then the file path. Fewer arguments, or any argument beyond
    /// these, are refused. `ignore_case` is whether the caller's environment asks
    /// for a case-insensitive search.
    pub fn build(args: Vec<String>, ignore_case: bool) -> (r: Result<Config, &'static str>)
        ensures
            args@.len() < 3 <==> r == Err::<Config, &'static str>(NOT_ENOUGH_ARGUMENTS),
            args@.len() > 3 <==> r == Err::<Config, &'static str>(EXTRA_ARGUMENTS),
            args@.len() == 3 <==> r is Ok,
            r is Ok ==> r->Ok_0@ == (args@[1]@, args@[2]@, ignore_case),
    {
        if args.len() < 3 {
            return Err(NOT_ENOUGH_ARGUMENTS);
        }
        if args.len() > 3 {
            return Err(EXTRA_ARGUMENTS);
        }
        let mut args = args;
        let file_path = args.pop().unwrap();
        let query = args.pop().unwrap();
        Ok(Config { query, file_path, ignore_case })
    }

    /// The text to search for.
    pub fn query(&self) -> (r: &str)
        ensures
            r@ == self@.0,
    {
        self.query.as_str()
    }

    /// The path of the file to search in.
    pub fn file_path(&self) -> (r: &str)
        ensures
            r@ == self@.1,
    {
        self.file_path.as_str()
    }

    /// Whether the search ignores case.
    pub fn ignore_case(&self) -> (r: bool)
        ensures
            r == self@.2,
    {
        self.ignore_case
    }
}

} // verus!
