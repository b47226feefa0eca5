//! Command-line configuration: the front end is handed a file name as the
//! first argument.  Reading the file and driving the passes is left to the
//! surrounding program.

use vstd::prelude::*;

verus! {

/// The front end's configuration: the source file to compile.
#[derive(Debug)]
pub struct Config {
    pub filename: String,
}

impl Config {
    /// Takes the file name from the argument list (the argument after the
    /// program name); fewer than two arguments is an error.
    pub fn new(args: &Vec<String>) -> (r: Result<Config, &'static str>)
        ensures
            match r {
                Ok(c) => args@.len() >= 2 && c.filename@ == args@[1]@,
                Err(m) => args@.len() < 2,
            },
    {
        if args.len() < 2 {
            return Err("not enough arguments");
        }
        let filename = args[1].clone();
        Ok(Config { filename })
    }
}

} // verus!
