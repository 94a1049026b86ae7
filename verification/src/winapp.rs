//! The decisions of bootstrapping the Windows App SDK: the version that is
//! requested, the bootstrap DLL that is loaded and the runtime packages of the
//! package graph.

use vstd::prelude::*;
use vstd::string::StringExecFns;

use crate::error::E_INVALIDARG;
use crate::win32::{is_blank, is_blank_text};

verus! {

/// The HRESULT of an unspecified failure.
pub const E_FAIL: i32 = -2147467259i32;

/// The environment variable that names the bootstrap DLL when the options do not.
pub const WINAPPSDK_BOOTSTRAP_DLL_PATH_ENV: &'static str = "WINAPPSDK_BOOTSTRAP_DLL_PATH";

/// Proof that the Windows App SDK was bootstrapped for this process.
pub struct WinAppSdkContext;

/// What the bootstrapper is asked for.
#[derive(Clone, Debug)]
pub struct WinAppSdkBootstrapOptions {
    pub major_version: u32,
    pub minor_version: u32,
    pub build_version: u32,
    pub revision_version: u32,
    pub bootstrap_dll_path: Option<String>,
}

impl WinAppSdkBootstrapOptions {
    /// The options for a release `major.minor`, with no minimum build or
    /// revision and the bootstrap DLL taken from the environment.
    pub fn release(major: u32, minor: u32) -> (r: Self)
        ensures
            r.major_version == major,
            r.minor_version == minor,
            r.build_version == 0,
            r.revision_version == 0,
            r.bootstrap_dll_path is None,
    {
        WinAppSdkBootstrapOptions {
            major_version: major,
            minor_version: minor,
            build_version: 0,
            revision_version: 0,
            bootstrap_dll_path: None,
        }
    }
}

/// A package version: four 16-bit components.
#[allow(non_snake_case)]
#[derive(Clone, Copy, Debug, PartialEq, Eq, Structural)]
pub struct PackageVersion {
    pub Major: u16,
    pub Minor: u16,
    pub Build: u16,
    pub Revision: u16,
}

/// A component of a requested version.
#[derive(Clone, Copy, Debug, PartialEq, Eq, Structural)]
pub enum VersionPart {
    Major,
    Minor,
    Build,
    Revision,
}

/// Why bootstrapping is refused or failed.
#[derive(Clone, Copy, Debug, PartialEq, Eq, Structural)]
pub enum BootstrapError {
    /// A requested version component does not fit in 16 bits.
    VersionComponent(VersionPart),
    /// Neither the options nor the environment name a bootstrap DLL.
    MissingBootstrapPath,
    /// The bootstrap DLL does not export its initializer.
    MissingInitializer,
    /// The initialized runtime package is not in the package graph.
    RuntimePackageNotFound,
    /// A native failure, by its HRESULT.
    Native(i32),
}

impl BootstrapError {
    pub open spec fn spec_code(self) -> i32 {
        match self {
            BootstrapError::VersionComponent(_) => E_INVALIDARG,
            BootstrapError::MissingBootstrapPath => E_INVALIDARG,
            BootstrapError::MissingInitializer => E_FAIL,
            BootstrapError::RuntimePackageNotFound => E_FAIL,
            BootstrapError::Native(code) => code,
        }
    }

    /// The HRESULT that stands for the error.
    pub fn code(&self) -> (r: i32)
        ensures
            r == self.spec_code(),
    {
        match self {
            BootstrapError::VersionComponent(_) => E_INVALIDARG,
            BootstrapError::MissingBootstrapPath => E_INVALIDARG,
            BootstrapError::MissingInitializer => E_FAIL,
            BootstrapError::RuntimePackageNotFound => E_FAIL,
            BootstrapError::Native(code) => *code,
        }
    }

    /// The name of a version component in the text of its error.
    pub open spec fn spec_part_name(part: VersionPart) -> Seq<char> {
        match part {
            VersionPart::Major => "major"@,
            VersionPart::Minor => "minor"@,
            VersionPart::Build => "build"@,
            VersionPart::Revision => "revision"@,
        }
    }

    /// The human readable text of the error.
    pub open spec fn spec_message(self) -> Seq<char> {
        match self {
            BootstrapError::VersionComponent(part) => "Windows App SDK "@ + Self::spec_part_name(part)
                + " version component must be between 0 and 65535"@,
            BootstrapError::MissingBootstrapPath => "Windows App SDK bootstrap DLL path is required; set WINAPPSDK_BOOTSTRAP_DLL_PATH or provide bootstrap_dll_path"@,
            BootstrapError::MissingInitializer => "MddBootstrapInitialize2 was not found in the Windows App SDK bootstrap DLL"@,
            BootstrapError::RuntimePackageNotFound => "The initialized Windows App SDK runtime package was not found in the current package graph"@,
            BootstrapError::Native(_) => "Windows App SDK bootstrap reported a failure"@,
        }
    }

    /// The human readable text of the error.
    pub fn message(&self) -> (r: String)
        ensures
            r@ == self.spec_message(),
    {
        match self {
            BootstrapError::VersionComponent(part) => {
                let mut text = String::from_str("Windows App SDK ");
                text.append(
                    match part {
                        VersionPart::Major => "major",
                        VersionPart::Minor => "minor",
                        VersionPart::Build => "build",
                        VersionPart::Revision => "revision",
                    },
                );
                text.append(" version component must be between 0 and 65535");
                text
            },
            BootstrapError::MissingBootstrapPath => String::from_str(
                "Windows App SDK bootstrap DLL path is required; set WINAPPSDK_BOOTSTRAP_DLL_PATH or provide bootstrap_dll_path",
            ),
            BootstrapError::MissingInitializer => String::from_str(
                "MddBootstrapInitialize2 was not found in the Windows App SDK bootstrap DLL",
            ),
            BootstrapError::RuntimePackageNotFound => String::from_str(
                "The initialized Windows App SDK runtime package was not found in the current package graph",
            ),
            BootstrapError::Native(_) => String::from_str(
                "Windows App SDK bootstrap reported a failure",
            ),
        }
    }
}

/// A version component as 16 bits, refused when it does not fit.
pub fn version_component(value: u32, part: VersionPart) -> (r: Result<u16, BootstrapError>)
    ensures
        value <= 0xffff ==> r == Ok::<u16, BootstrapError>(value as u16),
        value > 0xffff ==> r == Err::<u16, BootstrapError>(BootstrapError::VersionComponent(part)),
{
    if value <= 0xffff {
        Ok(value as u16)
    } else {
        Err(BootstrapError::VersionComponent(part))
    }
}

/// The first component of the options that does not fit in 16 bits.
pub open spec fn version_error(options: WinAppSdkBootstrapOptions) -> Option<VersionPart> {
    if options.major_version > 0xffff {
        Some(VersionPart::Major)
    } else if options.minor_version > 0xffff {
        Some(VersionPart::Minor)
    } else if options.build_version > 0xffff {
        Some(VersionPart::Build)
    } else if options.revision_version > 0xffff {
        Some(VersionPart::Revision)
    } else {
        None
    }
}

/// The release that the bootstrapper is asked for, `major` in the high and
/// `minor` in the low 16 bits, and the minimum package version.
pub fn bootstrap_version(options: &WinAppSdkBootstrapOptions) -> (r: Result<
    (u32, PackageVersion),
    BootstrapError,
>)
    ensures
        version_error(*options) is None <==> r is Ok,
        version_error(*options) matches Some(part) ==> r == Err::<
            (u32, PackageVersion),
            BootstrapError,
        >(BootstrapError::VersionComponent(part)),
        r matches Ok((release, minimum)) ==> {
            &&& release == options.major_version * 65536 + options.minor_version
            &&& minimum.Major == options.major_version
            &&& minimum.Minor == options.minor_version
            &&& minimum.Build == options.build_version
            &&& minimum.Revision == options.revision_version
        },
{
    let major = match version_component(options.major_version, VersionPart::Major) {
        Ok(v) => v,
        Err(e) => {
            return Err(e);
        },
    };
    let minor = match version_component(options.minor_version, VersionPart::Minor) {
        Ok(v) => v,
        Err(e) => {
            return Err(e);
        },
    };
    let build = match version_component(options.build_version, VersionPart::Build) {
        Ok(v) => v,
        Err(e) => {
            return Err(e);
        },
    };
    let revision = match version_component(options.revision_version, VersionPart::Revision) {
        Ok(v) => v,
        Err(e) => {
            return Err(e);
        },
    };
    let high = major as u32;
    let low = minor as u32;
    let release = (high << 16u32) | low;
    assert(release == high * 65536 + low) by (bit_vector)
        requires
            release == (high << 16u32) | low,
            high <= 0xffff,
            low <= 0xffff,
    ;
    Ok((release, PackageVersion { Major: major, Minor: minor, Build: build, Revision: revision }))
}

/// The bootstrap DLL: the configured path, otherwise the one the environment
/// names, refused when neither is given or the chosen one is blank.
pub open spec fn spec_bootstrap_dll_path(configured: Option<Seq<char>>, environment: Option<Seq<char>>) -> Option<Seq<char>> {
    let chosen = match configured {
        Some(path) => Some(path),
        None => environment,
    };
    match chosen {
        Some(path) => if is_blank(path) {
            None
        } else {
            Some(path)
        },
        None => None,
    }
}

pub open spec fn text_view(text: Option<String>) -> Option<Seq<char>> {
    match text {
        Some(t) => Some(t@),
        None => None,
    }
}

pub fn bootstrap_dll_path(configured: Option<String>, environment: Option<String>) -> (r: Result<
    String,
    BootstrapError,
>)
    ensures
        spec_bootstrap_dll_path(text_view(configured), text_view(environment)) is Some <==> r is Ok,
        r matches Ok(path) ==> Some(path@) == spec_bootstrap_dll_path(
            text_view(configured),
            text_view(environment),
        ),
        r is Err ==> r == Err::<String, BootstrapError>(BootstrapError::MissingBootstrapPath),
{
    let chosen = match configured {
        Some(path) => Some(path),
        None => environment,
    };
    match chosen {
        Some(path) => {
            if is_blank_text(path.as_str()) {
                Err(BootstrapError::MissingBootstrapPath)
            } else {
                Ok(path)
            }
        },
        None => Err(BootstrapError::MissingBootstrapPath),
    }
}

/// Whether a package full name belongs to the Windows App SDK runtime.
pub open spec fn spec_is_runtime_package(full_name: Seq<char>) -> bool {
    let prefix = seq![
        'M', 'i', 'c', 'r', 'o', 's', 'o', 'f', 't', '.', 'W', 'i', 'n', 'd', 'o', 'w', 's',
        'A', 'p', 'p', 'R', 'u', 'n', 't', 'i', 'm', 'e', '.',
    ];
    prefix.len() <= full_name.len() && full_name.subrange(0, prefix.len() as int) == prefix
}

pub fn is_runtime_package(full_name: &str) -> (r: bool)
    ensures
        r == spec_is_runtime_package(full_name@),
{
    let prefix = "Microsoft.WindowsAppRuntime.";
    proof {
        reveal_strlit("Microsoft.WindowsAppRuntime.");
    }
    let n = prefix.unicode_len();
    let length = full_name.unicode_len();
    if length < n {
        return false;
    }
    let mut i: usize = 0;
    while i < n
        invariant
            i <= n,
            n == prefix@.len(),
            n <= length,
            length == full_name@.len(),
            prefix@ == seq![
                'M', 'i', 'c', 'r', 'o', 's', 'o', 'f', 't', '.', 'W', 'i', 'n', 'd', 'o', 'w', 's',
                'A', 'p', 'p', 'R', 'u', 'n', 't', 'i', 'm', 'e', '.',
            ],
            forall|k: int| 0 <= k < i ==> full_name@[k] == prefix@[k],
        decreases n - i,
    {
        if full_name.get_char(i) != prefix.get_char(i) {
            assert(full_name@.subrange(0, n as int)[i as int] != prefix@[i as int]);
            return false;
        }
        i = i + 1;
    }
    assert(full_name@.subrange(0, n as int) =~= prefix@);
    true
}

/// The pointer-sized words that hold `byte_length` bytes of package data.
pub fn package_buffer_words(byte_length: u32) -> (r: usize)
    ensures
        r * (usize::BITS / 8) >= byte_length,
        r * (usize::BITS / 8) < byte_length + (usize::BITS / 8),
{
    let word = (usize::BITS / 8) as usize;
    assert(usize::BITS == 32 || usize::BITS == 64);
    assert(word == 4 || word == 8);
    let bytes = byte_length as usize;
    assert(bytes / word <= bytes);
    let r = bytes / word + if bytes % word == 0 {
        0
    } else {
        1
    };
    assert(r * word >= bytes && r * word < bytes + word) by (nonlinear_arith)
        requires
            word == 4 || word == 8,
            r == bytes / word + if bytes % word == 0 {
                0int
            } else {
                1int
            },
    ;
    r
}

} // verus!
