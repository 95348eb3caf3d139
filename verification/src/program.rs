//! Helper programs, and the cascade that asks them in turn.
use vstd::prelude::*;

pub mod cascade;
pub mod laws;
pub mod model;

verus! {

/// A helper program: how it is called, and whether what it writes to its error
/// stream is let through.
#[derive(Debug, PartialEq, Eq)]
pub struct Program {
    /// The name or command line by which the helper is run.
    pub name: String,
    /// Whether the error stream of the helper is shown.
    pub stderr: bool,
}

/// The view of a [`Program`].
pub struct ProgramView {
    pub name: Seq<char>,
    pub stderr: bool,
}

impl View for Program {
    type V = ProgramView;

    open spec fn view(&self) -> ProgramView {
        ProgramView { name: self.name@, stderr: self.stderr }
    }
}

impl Clone for Program {
    fn clone(&self) -> (r: Self)
        ensures
            r@ == self@,
    {
        Program { name: self.name.clone(), stderr: self.stderr }
    }
}

impl Program {
    /// The helper that `name` stands for, with its error stream shown.
    pub fn from_custom_definition(name: &str) -> (r: Program)
        ensures
            r@ == (ProgramView { name: name@, stderr: true }),
    {
        Program { name: name.to_owned(), stderr: true }
    }
}

/// The kind of system that the helpers run on.
#[derive(Debug, Clone, Copy, PartialEq, Eq)]
pub enum Platform {
    MacOs,
    Linux,
    Windows,
    Other,
}

impl Platform {
    /// The helper that installations on this kind of system usually bring, if
    /// there is one.
    pub open spec fn builtin(self) -> Option<Seq<char>> {
        match self {
            Platform::MacOs => Some("osxkeychain"@),
            Platform::Linux => Some("libsecret"@),
            Platform::Windows => Some("manager-core"@),
            Platform::Other => None,
        }
    }
}

/// The helper programs to ask, in the order in which they are asked, and what to
/// do with their error streams.
#[derive(Debug, PartialEq, Eq)]
pub struct Cascade {
    /// The helpers, first to last.
    pub programs: Vec<Program>,
    /// Whether the error streams of the helpers are shown. Each helper is set to
    /// this just before it is run.
    pub stderr: bool,
}

impl Default for Cascade {
    /// A cascade without programs, which shows error streams.
    fn default() -> (r: Self)
        ensures
            r.programs@ == Seq::<Program>::empty(),
            r.stderr,
    {
        Cascade { programs: Vec::new(), stderr: true }
    }
}

impl Cascade {
    /// The programs to start a cascade with on `platform`: the helper that
    /// installations there usually bring, or none. Configured programs follow
    /// these. A helper that is named here and is not installed does no harm, as
    /// unusable helpers are passed over.
    pub fn platform_builtin(platform: Platform) -> (r: Vec<Program>)
        ensures
            match platform.builtin() {
                Some(name) => r@.len() == 1 && r@[0]@ == (ProgramView { name, stderr: true }),
                None => r@.len() == 0,
            },
    {
        let name = match platform {
            Platform::MacOs => "osxkeychain",
            Platform::Linux => "libsecret",
            Platform::Windows => "manager-core",
            Platform::Other => {
                return Vec::new();
            },
        };
        let mut programs = Vec::new();
        programs.push(Program::from_custom_definition(name));
        programs
    }

    /// The cascade with `programs` added behind those it has.
    pub fn extend(self, programs: Vec<Program>) -> (r: Self)
        ensures
            r.programs@ == self.programs@ + programs@,
            r.stderr == self.stderr,
    {
        let mut cascade = self;
        let mut programs = programs;
        cascade.programs.append(&mut programs);
        cascade
    }
}

} // verus!
