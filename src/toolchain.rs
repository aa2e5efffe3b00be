//! Which toolchain builds a target, decided from what was found on the host.

use vstd::prelude::*;
use crate::catalog::{BuildTarget, TargetView};
use crate::text::{is_infix, lowercased, to_lowercase, contains_text, text_eq};

verus! {

/// The program that runs every build.
pub const BUILD_TOOL: &'static str = "cargo";

/// What was found on the host when a target came up.
pub struct HostFacts {
    /// The value of the `CC` variable, when set: it names the C compiler.
    pub cc: Option<String>,
    /// The host's native target triple, or empty when it is not known.
    pub host_triple: String,
    /// Whether the host runs macOS.
    pub host_is_macos: bool,
    /// Whether `cargo zigbuild` is installed.
    pub zigbuild: bool,
    /// Whether `zig` is on the path.
    pub zig: bool,
    /// Whether `o64-clang` is on the path.
    pub o64_clang: bool,
    /// Whether `oa64-clang` is on the path.
    pub oa64_clang: bool,
}

/// Why a target is not attempted.
#[derive(Clone, Copy, Debug, PartialEq, Eq, Structural)]
pub enum SkipReason {
    /// It needs a macOS cross compiler and none was found.
    NoMacCompiler,
    /// The MSVC target cannot be cross-compiled from macOS.
    MsvcFromMac,
}

/// The build subcommand chosen for a target.
#[derive(Clone, Copy, Debug, PartialEq, Eq, Structural)]
pub enum Toolchain {
    /// `cargo build`.
    Native,
    /// `cargo zigbuild`, which brings its own cross linker and SDK.
    Zigbuild,
}

/// A lower-cased compiler name that points at a macOS cross compiler.
pub open spec fn names_mac_compiler_spec(lowered: Seq<char>) -> bool {
    is_infix("o64-clang"@, lowered) || is_infix("oa64-clang"@, lowered) || is_infix(
        "zig"@,
        lowered,
    )
}

/// A macOS cross compiler is available: named by `CC` when it is set, else
/// found on the path.
pub open spec fn mac_compiler_available(f: &HostFacts) -> bool {
    match f.cc {
        Some(cc) => names_mac_compiler_spec(lowercased(cc@)),
        None => f.zig || f.o64_clang || f.oa64_clang,
    }
}

pub open spec fn msvc_triple() -> Seq<char> {
    "x86_64-pc-windows-msvc"@
}

/// The decision for target `t` on a host with facts `f`.
pub open spec fn toolchain_for(t: TargetView, f: &HostFacts) -> Result<Toolchain, SkipReason> {
    if t.needs_mac && !mac_compiler_available(f) {
        Err(SkipReason::NoMacCompiler)
    } else if f.host_is_macos && t.triple == msvc_triple() {
        Err(SkipReason::MsvcFromMac)
    } else if f.zigbuild && (t.needs_mac || f.host_triple@ != t.triple) {
        Ok(Toolchain::Zigbuild)
    } else {
        Ok(Toolchain::Native)
    }
}

/// The subcommand's name.
pub open spec fn subcommand(tc: Toolchain) -> Seq<char> {
    match tc {
        Toolchain::Native => "build"@,
        Toolchain::Zigbuild => "zigbuild"@,
    }
}

/// The arguments handed to the build tool: the subcommand, a release build,
/// the target triple and JSON progress output.
pub open spec fn build_args_spec(t: TargetView, tc: Toolchain) -> Seq<Seq<char>> {
    seq![subcommand(tc), "--release"@, "--target"@, t.triple, "--message-format=json"@]
}

/// Whether `cargo zigbuild` is available.
pub fn has_zigbuild(facts: &HostFacts) -> (r: bool)
    ensures
        r == facts.zigbuild,
{
    facts.zigbuild
}

/// Whether `triple` is the host's own triple.
pub fn is_host_triple(facts: &HostFacts, triple: &str) -> (r: bool)
    ensures
        r == (facts.host_triple@ == triple@),
{
    text_eq(facts.host_triple.as_str(), triple)
}

/// Whether a lower-cased compiler name points at a macOS cross compiler.
pub fn names_mac_compiler(lowered: &str) -> (r: bool)
    ensures
        r == names_mac_compiler_spec(lowered@),
{
    contains_text(lowered, "o64-clang") || contains_text(lowered, "oa64-clang") || contains_text(
        lowered,
        "zig",
    )
}

/// Whether a macOS cross compiler is available.
pub fn has_mac_compiler(facts: &HostFacts) -> (r: bool)
    ensures
        r == mac_compiler_available(facts),
{
    match &facts.cc {
        Some(cc) => {
            let lowered = to_lowercase(cc.as_str());
            names_mac_compiler(lowered.as_str())
        },
        None => facts.zig || facts.o64_clang || facts.oa64_clang,
    }
}

/// Decides how `target` is built, or why it is skipped.
pub fn decide_toolchain(target: &BuildTarget, facts: &HostFacts) -> (r: Result<
    Toolchain,
    SkipReason,
>)
    ensures
        r == toolchain_for(target@, facts),
{
    let mac = has_mac_compiler(facts);
    if target.needs_mac && !mac {
        return Err(SkipReason::NoMacCompiler);
    }
    if facts.host_is_macos && text_eq(target.triple, "x86_64-pc-windows-msvc") {
        return Err(SkipReason::MsvcFromMac);
    }
    let zig = has_zigbuild(facts);
    if zig && (target.needs_mac || !is_host_triple(facts, target.triple)) {
        Ok(Toolchain::Zigbuild)
    } else {
        Ok(Toolchain::Native)
    }
}

/// The arguments of the build tool for `target` with toolchain `tc`.
pub fn build_args(target: &BuildTarget, tc: Toolchain) -> (r: Vec<String>)
    ensures
        r@.map_values(|a: String| a@) == build_args_spec(target@, tc),
{
    let sub = match tc {
        Toolchain::Native => String::from_str("build"),
        Toolchain::Zigbuild => String::from_str("zigbuild"),
    };
    let r = vec![
        sub,
        String::from_str("--release"),
        String::from_str("--target"),
        String::from_str(target.triple),
        String::from_str("--message-format=json"),
    ];
    assert(r@.map_values(|a: String| a@) =~= build_args_spec(target@, tc));
    r
}

/// A target that needs a macOS cross compiler, on a host where `CC` is unset
/// and no cross compiler is on the path, is skipped.
pub proof fn lemma_missing_cross_compiler_skips(t: TargetView, f: &HostFacts)
    requires
        t.needs_mac,
        f.cc is None,
        !f.zig,
        !f.o64_clang,
        !f.oa64_clang,
    ensures
        toolchain_for(t, f) == Err::<Toolchain, SkipReason>(SkipReason::NoMacCompiler),
{
}

} // verus!
