use vstd::prelude::*;

pub mod encode;
pub mod error;
pub mod eval;
pub mod parse;
pub mod plan;
pub mod token;

use crate::plan::{BuildPlan, EntryV};

verus! {

/// A target pixel size. A bare integer argument stands for a square target,
/// so both components are always populated.
#[derive(Clone, Copy, Debug, PartialEq, Eq, Structural, Hash)]
pub struct Size {
    pub w: u32,
    pub h: u32,
}

impl Size {
    /// A square size, as written by a single integer argument.
    pub fn square(n: u32) -> (s: Size)
        ensures
            s == (Size { w: n, h: n }),
    {
        Size { w: n, h: n }
    }
}

/// The interpolation kernel used when a raster image is resized.
/// `Nearest` is the default when an entry names no filter.
#[derive(Clone, Copy, Debug, PartialEq, Eq, Structural, Hash)]
pub enum ResamplingFilter {
    Nearest,
    Linear,
    Cubic,
}

/// The container format that one invocation emits.
#[derive(Clone, Copy, Debug, PartialEq, Eq, Structural, Hash)]
pub enum IconType {
    Ico,
    Icns,
    PngSequence,
}

/// Whether a scaled buffer must match the requested box exactly (centred
/// and padded with transparent pixels) or may stay smaller on one axis to
/// preserve the source's aspect ratio.
#[derive(Clone, Copy, Debug, PartialEq, Eq, Structural)]
pub enum FitType {
    Proportional,
    Exact,
}

/// Where the finished container goes: a file, or the standard output
/// stream. Opaque to the core beyond being handed back to the caller.
#[derive(Clone, Debug)]
pub enum Output {
    Path(String),
    Stdout,
}

/// Mathematical image of an `Output`: the path is seen as its characters.
pub enum OutputV {
    Path(Seq<char>),
    Stdout,
}

impl View for Output {
    type V = OutputV;

    open spec fn view(&self) -> OutputV {
        match self {
            Output::Path(p) => OutputV::Path(p@),
            Output::Stdout => OutputV::Stdout,
        }
    }
}

/// The syntactic result of one invocation's arguments: a bare request for
/// help or the version, or a validated build plan with its container kind
/// and destination.
#[derive(Debug)]
pub enum Command {
    Help,
    Version,
    Icon(BuildPlan, IconType, Output),
}

/// Mathematical image of a `Command`.
pub enum CommandV {
    Help,
    Version,
    Icon(Seq<EntryV>, IconType, OutputV),
}

impl View for Command {
    type V = CommandV;

    open spec fn view(&self) -> CommandV {
        match self {
            Command::Help => CommandV::Help,
            Command::Version => CommandV::Version,
            Command::Icon(plan, kind, out) => CommandV::Icon(plan@, *kind, out@),
        }
    }
}

impl Command {
    /// Wraps a validated plan with its container kind and destination.
    pub fn new(plan: BuildPlan, icon_type: IconType, output: Output) -> (c: Command)
        ensures
            c == Command::Icon(plan, icon_type, output),
    {
        Command::Icon(plan, icon_type, output)
    }

    /// The output file path, when there is one to write.
    pub fn output_path(&self) -> (r: Option<&String>)
        ensures
            match self {
                Command::Icon(_, _, Output::Path(p)) => r matches Some(q) && q == p,
                _ => r is None,
            },
    {
        match self {
            Command::Icon(_, _, Output::Path(p)) => Some(p),
            _ => None,
        }
    }
}

} // verus!
