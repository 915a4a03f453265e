//! The Java runtimes a build can ask for.

use vstd::prelude::*;
use std::path::PathBuf;
use crate::utils::os::OperatingSystem;
use crate::utils::text::{decimal, decimal_string, push_decimal, push_str, views};

verus! {

#[verifier::external_type_specification]
#[verifier::external_body]
pub struct ExPathBuf(PathBuf);

/// A vendor of Java runtimes.
#[derive(Debug, Clone, Copy, PartialEq, Eq, Structural)]
pub enum JavaDistribution {
    Temurin,
    GraalVM,
    Zulu,
}

/// How the runtime for a launch is chosen.
pub enum DistributionSelection {
    /// The build's own choice. The text carries nothing.
    Automatic(String),
    /// A runtime at this path.
    Custom(String),
    Manual(JavaDistribution),
}

impl Default for JavaDistribution {
    /// Temurin, which has every version of Java.
    fn default() -> (r: Self)
        ensures
            r == JavaDistribution::Temurin,
    {
        JavaDistribution::Temurin
    }
}

impl Default for DistributionSelection {
    /// The build's own choice.
    fn default() -> (r: Self)
        ensures
            r matches DistributionSelection::Automatic(text) && text@ == Seq::<char>::empty(),
    {
        DistributionSelection::Automatic(String::new())
    }
}

impl JavaDistribution {
    pub open spec fn name_spec(self) -> Seq<char> {
        match self {
            JavaDistribution::Temurin => "temurin"@,
            JavaDistribution::GraalVM => "graalvm"@,
            JavaDistribution::Zulu => "zulu"@,
        }
    }

    /// The name under which runtimes of this vendor are kept.
    pub fn get_name(&self) -> (r: &'static str)
        ensures
            r@ == self.name_spec(),
    {
        match self {
            JavaDistribution::Temurin => "temurin",
            JavaDistribution::GraalVM => "graalvm",
            JavaDistribution::Zulu => "zulu",
        }
    }

    /// Whether the vendor has Java `version`: GraalVM only from 17 on, the others all.
    pub fn supports_version(&self, version: u32) -> (r: bool)
        ensures
            r == (*self != JavaDistribution::GraalVM || version >= 17),
    {
        match self {
            JavaDistribution::Temurin => true,
            JavaDistribution::GraalVM => version >= 17,
            JavaDistribution::Zulu => true,
        }
    }
}

/// The directory below the runtimes folder that a vendor's runtime of a Java version is kept in:
/// `<vendor>_<version>`.
pub fn runtime_dir_name(distribution: JavaDistribution, jre_version: u32) -> (r: String)
    ensures
        r@ == distribution.name_spec() + "_"@ + decimal(jre_version as nat),
{
    let mut r = String::new();
    push_str(&mut r, distribution.get_name());
    push_str(&mut r, "_");
    push_decimal(&mut r, jre_version as u64);
    r
}

/// Where the Java binary lies in an unpacked runtime, as path components: `bin/javaw.exe` on
/// Windows, `Contents/Home/bin/java` in a macOS bundle, `bin/java` elsewhere.
pub open spec fn java_binary_spec(os: OperatingSystem) -> Seq<Seq<char>> {
    match os {
        OperatingSystem::WINDOWS => seq!["bin"@, "javaw.exe"@],
        OperatingSystem::OSX => seq!["Contents"@, "Home"@, "bin"@, "java"@],
        _ => seq!["bin"@, "java"@],
    }
}

fn owned(s: &str) -> (r: String)
    ensures
        r@ == s@,
{
    let mut r = String::new();
    push_str(&mut r, s);
    r
}

/// Where the Java binary lies in an unpacked runtime, as path components.
pub fn java_binary(os: OperatingSystem) -> (r: Vec<String>)
    ensures
        views(r@) == java_binary_spec(os),
{
    let mut r: Vec<String> = Vec::new();
    match os {
        OperatingSystem::WINDOWS => {
            r.push(owned("bin"));
            r.push(owned("javaw.exe"));
        },
        OperatingSystem::OSX => {
            r.push(owned("Contents"));
            r.push(owned("Home"));
            r.push(owned("bin"));
            r.push(owned("java"));
        },
        _ => {
            r.push(owned("bin"));
            r.push(owned("java"));
        },
    }
    assert(views(r@) =~= java_binary_spec(os));
    r
}

/// How a downloaded runtime is unpacked.
#[derive(Debug, Clone, Copy, PartialEq, Eq, Structural)]
pub enum Archive {
    Zip,
    TarGz,
}

/// How runtimes come packed on each system: zip on Windows, gzipped tar on Linux and macOS; no
/// other system is supported.
pub fn runtime_archive(os: OperatingSystem) -> (r: Result<Archive, String>)
    ensures
        os == OperatingSystem::WINDOWS ==> r == Ok::<Archive, String>(Archive::Zip),
        (os == OperatingSystem::LINUX || os == OperatingSystem::OSX) ==> r == Ok::<Archive, String>(
            Archive::TarGz,
        ),
        os == OperatingSystem::UNKNOWN ==> (r matches Err(message) && message@ == "Unsupported OS"@),
{
    match os {
        OperatingSystem::WINDOWS => Ok(Archive::Zip),
        OperatingSystem::LINUX | OperatingSystem::OSX => Ok(Archive::TarGz),
        OperatingSystem::UNKNOWN => Err(owned("Unsupported OS")),
    }
}

/// Whether any of the three execute bits (owner, group, others) of a file's mode is unset.
pub open spec fn lacks_execute(mode: u32) -> bool {
    mode & 0o100u32 == 0 || mode & 0o010u32 == 0 || mode & 0o001u32 == 0
}

/// Whether the Java binary's mode lacks an execute bit, so that the launcher sets its mode to
/// execute for all (`0o111`, which is all it sets).
pub fn needs_execute(mode: u32) -> (r: bool)
    ensures
        r == lacks_execute(mode),
{
    let r = (!mode) & 0o111u32 != 0;
    assert(((!mode) & 0o111u32 != 0) == (mode & 0o100u32 == 0 || mode & 0o010u32 == 0 || mode & 0o001u32
        == 0)) by (bit_vector);
    r
}

/// An integer in decimal, with a minus sign where it is negative.
pub open spec fn signed_decimal(i: int) -> Seq<char> {
    if i < 0 {
        "-"@ + decimal((-i) as nat)
    } else {
        decimal(i as nat)
    }
}

fn push_signed(s: &mut String, i: i32)
    ensures
        final(s)@ == old(s)@ + signed_decimal(i as int),
{
    if i < 0 {
        push_str(s, "-");
        let magnitude: u64 = (-(i as i64)) as u64;
        push_decimal(s, magnitude);
    } else {
        push_decimal(s, i as u64);
    }
}

/// The exit code Windows gives a process that was killed by force.
pub const KILLED_ON_WINDOWS: i32 = -1073740791;

/// The code that stands for an exit without a code (one ended by a signal).
pub const NO_EXIT_CODE: i32 = 7900;

/// How the game's exit ends a launch: well for code 0 and for a process killed by force on
/// Windows, else with an error that names the code. An exit without a code counts as code 7900.
pub open spec fn exit_outcome_spec(code: Option<i32>) -> Result<(), Seq<char>> {
    let c: i32 = match code {
        Some(c) => c,
        None => 7900i32,
    };
    if c != 0 && c != -1073740791i32 {
        Err("Process exited with non-zero exit code: "@ + signed_decimal(c as int) + "."@)
    } else {
        Ok(())
    }
}

/// How the game's exit ends a launch.
pub fn exit_outcome(code: Option<i32>) -> (r: Result<(), String>)
    ensures
        match (r, exit_outcome_spec(code)) {
            (Ok(()), Ok(())) => true,
            (Err(message), Err(expected)) => message@ == expected,
            _ => false,
        },
{
    let c: i32 = match code {
        Some(c) => c,
        None => NO_EXIT_CODE,
    };
    if c != 0 && c != KILLED_ON_WINDOWS {
        let mut message = String::new();
        push_str(&mut message, "Process exited with non-zero exit code: ");
        push_signed(&mut message, c);
        push_str(&mut message, ".");
        Err(message)
    } else {
        Ok(())
    }
}

/// What happened while the game runs.
pub enum GameEvent {
    /// The game wrote to its standard output.
    Stdout(Vec<u8>),
    /// The game wrote to its standard error.
    Stderr(Vec<u8>),
    /// The user asked to stop the game.
    Terminate,
    /// The game exited, with its code if it has one.
    Exited(Option<i32>),
}

/// What the launcher does about it.
pub enum GameAction {
    /// Hands the output on as the game's output, and keeps watching.
    Output(Vec<u8>),
    /// Hands the output on as the game's errors, and keeps watching.
    Errors(Vec<u8>),
    /// Kills the game, and stops watching.
    Kill,
    /// Stops watching, the launch ending as given.
    Finish(Result<(), String>),
}

/// What the launcher does about an event while the game runs.
pub fn on_game_event(event: GameEvent) -> (r: GameAction)
    ensures
        match event {
            GameEvent::Stdout(bytes) => r == GameAction::Output(bytes),
            GameEvent::Stderr(bytes) => r == GameAction::Errors(bytes),
            GameEvent::Terminate => r is Kill,
            GameEvent::Exited(code) => r matches GameAction::Finish(outcome) && match (outcome, exit_outcome_spec(code)) {
                (Ok(()), Ok(())) => true,
                (Err(message), Err(expected)) => message@ == expected,
                _ => false,
            },
        },
{
    match event {
        GameEvent::Stdout(bytes) => GameAction::Output(bytes),
        GameEvent::Stderr(bytes) => GameAction::Errors(bytes),
        GameEvent::Terminate => GameAction::Kill,
        GameEvent::Exited(code) => GameAction::Finish(exit_outcome(code)),
    }
}

/// The Java binary that runs the game.
pub struct JavaRuntime(pub PathBuf);

impl JavaRuntime {
    pub fn new(path: PathBuf) -> (r: JavaRuntime)
        ensures
            r.0 == path,
    {
        JavaRuntime(path)
    }
}

/// How this system and its architecture are named by each vendor's downloads.
pub struct PlatformNames {
    /// The architecture, as Adoptium and Oracle name it.
    pub arch: String,
    /// The archive the runtimes come in on this system (`zip` or `tar.gz`).
    pub archive_type: String,
    pub adoptium_os: String,
    pub graal_os: String,
    pub zulu_os: String,
    pub zulu_arch: String,
}

/// Where a runtime is downloaded from: a direct link, or Azul's package list, asked at this
/// address, which names the link.
pub enum JreLocation {
    Direct(String),
    ZuluQuery(String),
}

/// Adoptium's link to the newest Temurin runtime of a Java version.
pub open spec fn temurin_url(version: Seq<char>, names: PlatformNames) -> Seq<char> {
    "https://api.adoptium.net/v3/binary/latest/"@ + version + "/ga/"@ + names.adoptium_os@ + "/"@
        + names.arch@ + "/jre/hotspot/normal/eclipse?project=jdk"@
}

/// Oracle's link to the newest GraalVM of a Java version after 17.
pub open spec fn graalvm_url(version: Seq<char>, names: PlatformNames) -> Seq<char> {
    "https://download.oracle.com/graalvm/"@ + version + "/latest/graalvm-jdk-"@ + version + "_"@
        + names.graal_os@ + "-"@ + names.arch@ + "_bin."@ + names.archive_type@
}

/// Oracle's archived link to GraalVM for Java 17.0.12.
pub open spec fn graalvm_17_url(names: PlatformNames) -> Seq<char> {
    "https://download.oracle.com/graalvm/17/archive/graalvm-jdk-17.0.12_"@ + names.graal_os@ + "-"@
        + names.arch@ + "_bin."@ + names.archive_type@
}

/// The newest GraalVM link names the system and architecture as the Java 17 one does, system
/// first: the two end alike, after `_`, in the system, a `-`, the architecture, `_bin.` and the
/// archive type, and the newest names the Java version where the Java 17 one names 17.0.12.
pub proof fn law_graalvm_links_name_the_platform_alike(version: Seq<char>, names: PlatformNames)
    ensures
        ({
            let tail = names.graal_os@ + "-"@ + names.arch@ + "_bin."@ + names.archive_type@;
            &&& graalvm_url(version, names) == "https://download.oracle.com/graalvm/"@ + version
                + "/latest/graalvm-jdk-"@ + version + "_"@ + tail
            &&& graalvm_17_url(names) == "https://download.oracle.com/graalvm/17/archive/graalvm-jdk-17.0.12_"@
                + tail
            &&& graalvm_url(version, names).skip(graalvm_url(version, names).len() - tail.len()) == graalvm_17_url(
                names,
            ).skip(graalvm_17_url(names).len() - tail.len())
        }),
{
    let tail = names.graal_os@ + "-"@ + names.arch@ + "_bin."@ + names.archive_type@;
    let head = "https://download.oracle.com/graalvm/"@ + version + "/latest/graalvm-jdk-"@ + version + "_"@;
    let head17 = "https://download.oracle.com/graalvm/17/archive/graalvm-jdk-17.0.12_"@;
    assert(graalvm_url(version, names) =~= head + tail);
    assert(graalvm_17_url(names) =~= head17 + tail);
    assert((head + tail).skip(head.len() as int) =~= tail);
    assert((head17 + tail).skip(head17.len() as int) =~= tail);
}

/// Azul's list of the newest generally available Zulu runtime of a Java version.
pub open spec fn zulu_query_url(version: Seq<char>, names: PlatformNames) -> Seq<char> {
    "https://api.azul.com/metadata/v1/zulu/packages/?java_version="@ + version + "&os="@
        + names.zulu_os@ + "&arch="@ + names.zulu_arch@
        + "&java_package_type=jre&availability_types=CA&release_status=ga&javafx_bundled=false&latest=true&page_size=1"@
}

impl JavaDistribution {
    /// Where the vendor's runtime for Java `jre_version` is downloaded from. GraalVM has none
    /// before Java 17.
    pub fn get_url(&self, jre_version: u32, names: &PlatformNames) -> (r: Result<JreLocation, String>)
        ensures
            match self {
                JavaDistribution::Temurin => r matches Ok(JreLocation::Direct(url)) && url@ == temurin_url(
                    decimal(jre_version as nat),
                    *names,
                ),
                JavaDistribution::GraalVM => if jre_version > 17 {
                    r matches Ok(JreLocation::Direct(url)) && url@ == graalvm_url(
                        decimal(jre_version as nat),
                        *names,
                    )
                } else if jre_version == 17 {
                    r matches Ok(JreLocation::Direct(url)) && url@ == graalvm_17_url(*names)
                } else {
                    r matches Err(message) && message@ == "GraalVM only supports Java 17+"@
                },
                JavaDistribution::Zulu => r matches Ok(JreLocation::ZuluQuery(url)) && url@ == zulu_query_url(
                    decimal(jre_version as nat),
                    *names,
                ),
            },
    {
        let version = decimal_string(jre_version as u64);
        let mut url = String::new();
        match self {
            JavaDistribution::Temurin => {
                push_str(&mut url, "https://api.adoptium.net/v3/binary/latest/");
                push_str(&mut url, version.as_str());
                push_str(&mut url, "/ga/");
                push_str(&mut url, names.adoptium_os.as_str());
                push_str(&mut url, "/");
                push_str(&mut url, names.arch.as_str());
                push_str(&mut url, "/jre/hotspot/normal/eclipse?project=jdk");
                Ok(JreLocation::Direct(url))
            },
            JavaDistribution::GraalVM => {
                if jre_version > 17 {
                    push_str(&mut url, "https://download.oracle.com/graalvm/");
                    push_str(&mut url, version.as_str());
                    push_str(&mut url, "/latest/graalvm-jdk-");
                    push_str(&mut url, version.as_str());
                    push_str(&mut url, "_");
                } else if jre_version == 17 {
                    push_str(&mut url, "https://download.oracle.com/graalvm/17/archive/graalvm-jdk-17.0.12_");
                } else {
                    let mut message = String::new();
                    push_str(&mut message, "GraalVM only supports Java 17+");
                    return Err(message);
                }
                push_str(&mut url, names.graal_os.as_str());
                push_str(&mut url, "-");
                push_str(&mut url, names.arch.as_str());
                push_str(&mut url, "_bin.");
                push_str(&mut url, names.archive_type.as_str());
                Ok(JreLocation::Direct(url))
            },
            JavaDistribution::Zulu => {
                push_str(&mut url, "https://api.azul.com/metadata/v1/zulu/packages/?java_version=");
                push_str(&mut url, version.as_str());
                push_str(&mut url, "&os=");
                push_str(&mut url, names.zulu_os.as_str());
                push_str(&mut url, "&arch=");
                push_str(&mut url, names.zulu_arch.as_str());
                push_str(
                    &mut url,
                    "&java_package_type=jre&availability_types=CA&release_status=ga&javafx_bundled=false&latest=true&page_size=1",
                );
                Ok(JreLocation::ZuluQuery(url))
            },
        }
    }
}

/// A runtime package of Azul's list.
pub struct AzulPackage {
    pub download_url: String,
    pub latest: Option<bool>,
}

/// Whether a package is the newest; a package that does not say counts as the newest.
pub open spec fn is_latest(package: AzulPackage) -> bool {
    match package.latest {
        Some(latest) => latest,
        None => true,
    }
}

/// The link of the newest package of Azul's answer for Java `jre_version`: refused when there
/// are none, or none is the newest.
pub fn zulu_download_url(packages: &Vec<AzulPackage>, jre_version: u32, names: &PlatformNames) -> (r: Result<String, String>)
    ensures
        packages@.len() == 0 ==> (r matches Err(message) && message@ == "No Zulu runtime available for Java "@
            + decimal(jre_version as nat) + " on "@ + names.zulu_os@ + "-"@ + names.zulu_arch@),
        packages@.len() > 0 ==> match r {
            Ok(url) => exists|i: int| 0 <= i < packages@.len() && is_latest(#[trigger] packages@[i])
                && url == packages@[i].download_url && forall|j: int| 0 <= j < i ==> !is_latest(#[trigger] packages@[j]),
            Err(message) => message@ == "Failed to determine latest Zulu runtime download URL"@
                && forall|j: int| 0 <= j < packages@.len() ==> !is_latest(#[trigger] packages@[j]),
        },
{
    if packages.len() == 0 {
        let mut message = String::new();
        push_str(&mut message, "No Zulu runtime available for Java ");
        push_decimal(&mut message, jre_version as u64);
        push_str(&mut message, " on ");
        push_str(&mut message, names.zulu_os.as_str());
        push_str(&mut message, "-");
        push_str(&mut message, names.zulu_arch.as_str());
        return Err(message);
    }
    let mut i: usize = 0;
    while i < packages.len()
        invariant
            i <= packages.len(),
            forall|j: int| 0 <= j < i ==> !is_latest(#[trigger] packages@[j]),
        decreases packages.len() - i,
    {
        let latest = match packages[i].latest {
            Some(latest) => latest,
            None => true,
        };
        if latest {
            assert(is_latest(packages@[i as int]));
            return Ok(packages[i].download_url.clone());
        }
        i = i + 1;
    }
    let mut message = String::new();
    push_str(&mut message, "Failed to determine latest Zulu runtime download URL");
    Err(message)
}

} // verus!
