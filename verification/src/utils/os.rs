//! The operating systems and word sizes the launcher tells apart.

use vstd::prelude::*;

verus! {

/// The operating system, as version profiles name it.
#[derive(Debug, Clone, Copy, PartialEq, Eq, Structural)]
pub enum OperatingSystem {
    WINDOWS,
    LINUX,
    OSX,
    UNKNOWN,
}

/// The operating system, as the older part of the launcher names it.
#[derive(Debug, Clone, Copy, PartialEq, Eq, Structural)]
pub enum Os {
    WINDOWS,
    LINUX,
    OSX,
    UNKNOWN,
}

/// The pointer width of the machine.
#[derive(Debug, Clone, Copy, PartialEq, Eq, Structural)]
pub enum Bitness {
    Bit32,
    Bit64,
    UNKNOWN,
}

/// The separator of a Java class path on this system: `;` on Windows, `:` elsewhere.
pub open spec fn path_separator_spec(windows: bool) -> Seq<char> {
    if windows { ";"@ } else { ":"@ }
}

impl OperatingSystem {
    /// The name version profiles give this system.
    pub open spec fn simple_name_spec(self) -> Seq<char> {
        match self {
            OperatingSystem::WINDOWS => "windows"@,
            OperatingSystem::LINUX => "linux"@,
            OperatingSystem::OSX => "osx"@,
            OperatingSystem::UNKNOWN => Seq::empty(),
        }
    }

    /// The separator of a Java class path. An unknown system has none.
    pub fn get_path_separator(&self) -> (r: &'static str)
        requires
            *self != OperatingSystem::UNKNOWN,
        ensures
            r@ == path_separator_spec(*self == OperatingSystem::WINDOWS),
    {
        match self {
            OperatingSystem::WINDOWS => ";",
            _ => ":",
        }
    }

    /// The name version profiles give this system. An unknown system has none.
    pub fn get_simple_name(&self) -> (r: &'static str)
        requires
            *self != OperatingSystem::UNKNOWN,
        ensures
            r@ == self.simple_name_spec(),
    {
        match self {
            OperatingSystem::WINDOWS => "windows",
            OperatingSystem::LINUX => "linux",
            _ => "osx",
        }
    }
}

impl Os {
    /// The same system under its other name.
    pub open spec fn as_operating_system(self) -> OperatingSystem {
        match self {
            Os::WINDOWS => OperatingSystem::WINDOWS,
            Os::LINUX => OperatingSystem::LINUX,
            Os::OSX => OperatingSystem::OSX,
            Os::UNKNOWN => OperatingSystem::UNKNOWN,
        }
    }

    /// The separator of a Java class path. An unknown system has none.
    pub fn get_path_separator(&self) -> (r: &'static str)
        requires
            *self != Os::UNKNOWN,
        ensures
            r@ == path_separator_spec(*self == Os::WINDOWS),
    {
        match self {
            Os::WINDOWS => ";",
            _ => ":",
        }
    }

    /// The name version profiles give this system. An unknown system has none.
    pub fn get_simple_name(&self) -> (r: &'static str)
        requires
            *self != Os::UNKNOWN,
        ensures
            r@ == self.as_operating_system().simple_name_spec(),
    {
        match self {
            Os::WINDOWS => "windows",
            Os::LINUX => "linux",
            _ => "osx",
        }
    }
}

} // verus!
