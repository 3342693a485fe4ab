//! How the program and the default agent harness are called.
use crate::text::{cat2, cat3, to_upper, uppered};
use vstd::prelude::*;
use vstd::string::*;

verus! {

/// The program.
pub const PROGRAM_NAME: &'static str = "opsx-build";

/// What an installation calls its default agent harness. Every message, prompt and path
/// that speaks of the harness is made from these two.
#[derive(Debug, Clone, PartialEq, Eq)]
pub struct Harness {
    /// As it is shown, and as a checkpoint names it.
    pub title: String,
    /// Its command, and its name in a connection.
    pub name: String,
}

pub struct HarnessView {
    pub title: Seq<char>,
    pub name: Seq<char>,
}

impl View for Harness {
    type V = HarnessView;

    open spec fn view(&self) -> HarnessView {
        HarnessView { title: self.title@, name: self.name@ }
    }
}

impl HarnessView {
    /// The directory of a repository that holds its skills and commands.
    pub open spec fn directory(self) -> Seq<char> {
        "."@ + self.name
    }

    /// The file of a repository that holds its guidance.
    pub open spec fn guide(self) -> Seq<char> {
        uppered(self.name) + ".md"@
    }

    /// The option that sets its command.
    pub open spec fn command_option(self) -> Seq<char> {
        "--"@ + self.name + "-command"@
    }

    /// The option that shows everything it says.
    pub open spec fn raw_option(self) -> Seq<char> {
        "--stream-"@ + self.name + "=raw"@
    }
}

impl Harness {
    pub fn copy(&self) -> (r: Harness)
        ensures
            r@ == self@,
    {
        Harness { title: self.title.as_str().to_owned(), name: self.name.as_str().to_owned() }
    }

    pub fn directory(&self) -> (r: String)
        ensures
            r@ == self@.directory(),
    {
        cat2(".", self.name.as_str())
    }

    pub fn guide(&self) -> (r: String)
        ensures
            r@ == self@.guide(),
    {
        let name = to_upper(self.name.as_str());
        cat2(name.as_str(), ".md")
    }

    pub fn command_option(&self) -> (r: String)
        ensures
            r@ == self@.command_option(),
    {
        cat3("--", self.name.as_str(), "-command")
    }

    pub fn raw_option(&self) -> (r: String)
        ensures
            r@ == self@.raw_option(),
    {
        cat3("--stream-", self.name.as_str(), "=raw")
    }
}

} // verus!
