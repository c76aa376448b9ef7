//! The switches the surrounding command line hands to the core.

use vstd::prelude::*;
use vstd::string::StringExecFns;

verus! {

/// A switch the surrounding command line can set; the core consults the
/// resulting configuration at fixed points.
#[derive(Debug, Clone, Copy, PartialEq, Eq, Structural)]
pub enum Opt {
    /// Stop after writing the assembly text.
    Asm,
    /// Log the parsed structure after parsing.
    Ast,
    /// Print usage and stop.
    Help,
}

impl Opt {
    /// The switch a short flag character selects.
    pub fn from_char(c: char) -> (r: Option<Opt>)
        ensures
            r == if c == 'S' {
                Some(Opt::Asm)
            } else if c == 's' {
                Some(Opt::Ast)
            } else if c == 'h' {
                Some(Opt::Help)
            } else {
                None::<Opt>
            },
    {
        match c {
            'S' => Some(Opt::Asm),
            's' => Some(Opt::Ast),
            'h' => Some(Opt::Help),
            _ => None,
        }
    }

    /// The switch a long flag name selects; the `help` name selects the
    /// same switch as `ast` here, and no long name selects `Asm`.
    pub fn from_str(s: &str) -> (r: Option<Opt>)
        ensures
            r == if s@ == "ast"@ || s@ == "help"@ {
                Some(Opt::Ast)
            } else {
                None::<Opt>
            },
    {
        let t = String::from_str(s);
        if t == String::from_str("ast") {
            Some(Opt::Ast)
        } else if t == String::from_str("help") {
            Some(Opt::Ast)
        } else {
            None
        }
    }
}

/// The explicit configuration value built once from the command line and
/// passed by reference into the stages that consult it.
#[derive(Debug)]
pub struct Config {
    pub output_asm: bool,
    pub print_ast: bool,
    pub print_help: bool,
}

impl Default for Config {
    /// Every switch off.
    fn default() -> (c: Config)
        ensures
            !c.output_asm && !c.print_ast && !c.print_help,
    {
        Config { output_asm: false, print_ast: false, print_help: false }
    }
}

impl Config {
    /// Turns on the field the switch names and leaves the others as they
    /// are.
    pub fn add_option(&mut self, o: Opt)
        ensures
            final(self).output_asm == (old(self).output_asm || o == Opt::Asm),
            final(self).print_ast == (old(self).print_ast || o == Opt::Ast),
            final(self).print_help == (old(self).print_help || o == Opt::Help),
    {
        match o {
            Opt::Asm => self.output_asm = true,
            Opt::Ast => self.print_ast = true,
            Opt::Help => self.print_help = true,
        }
    }
}

} // verus!
