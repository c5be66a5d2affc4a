//! The two configured roots.
use vstd::prelude::*;

verus! {

/// What can go wrong while reading the configuration.
#[derive(Debug)]
pub enum ConfigError {
    /// Fewer than two paths were given.
    WrongArguments,
    /// The arguments could not be read.
    IOError,
    /// Anything else.
    Other,
}

impl ConfigError {
    /// Short description of the error.
    pub fn as_str(&self) -> (r: &'static str)
        ensures
            self is WrongArguments ==> r@ == "Wrong arguments"@,
            self is IOError ==> r@ == "IO Error"@,
            self is Other ==> r@ == "Other error"@,
    {
        match self {
            ConfigError::WrongArguments => "Wrong arguments",
            ConfigError::IOError => "IO Error",
            ConfigError::Other => "Other error",
        }
    }
}

/// Source and destination roots.
#[derive(Debug)]
pub struct Config {
    /// Tree whose changes are mirrored.
    pub source: String,
    /// Tree that receives them.
    pub destination: String,
}

impl Config {
    /// Reads the roots from a command line: the first two arguments after the
    /// program name, the rest ignored.
    pub fn from_args(args: &Vec<String>) -> (r: Result<Config, ConfigError>)
        ensures
            r is Ok <==> args@.len() >= 3,
            r matches Ok(c) ==> c.source == args@[1] && c.destination == args@[2],
            r matches Err(e) ==> e is WrongArguments,
    {
        if args.len() < 3 {
            return Err(ConfigError::WrongArguments);
        }
        Ok(Config::build(args[1].clone(), args[2].clone()))
    }

    /// A configuration from two paths.
    pub fn build(source: String, destination: String) -> (r: Self)
        ensures
            r.source == source,
            r.destination == destination,
    {
        Config { source, destination }
    }

    /// The source root.
    pub fn source(&self) -> (r: &String)
        ensures
            *r == self.source,
    {
        &self.source
    }

    /// The destination root.
    pub fn destination(&self) -> (r: &String)
        ensures
            *r == self.destination,
    {
        &self.destination
    }
}

} // verus!
