//! The CH341 DTR-on-open problem on Linux: whether a patched driver is
//! needed, what its build needs, and how an install attempt is reported.

use vstd::prelude::*;
use crate::text::{contains, join, push_str, string_of, text_contains, trim, trim_chars, views};

verus! {

/// Whether the patched driver is still needed, from what the system shows:
/// `param` is the content of the loaded module's `no_dtr_on_open`
/// parameter (`None` when the module exposes no such parameter), `conf` the
/// content of `/etc/modprobe.d/ch341.conf` (empty when unreadable).  With
/// the parameter present, the fix is needed unless it reads `Y`; without
/// it, unless the configuration sets `no_dtr_on_open=1`.
pub fn check_dtr_fix_needed(param: Option<&str>, conf: &str) -> (needed: bool)
    ensures
        param matches Some(v) ==> needed == (trim(v@) != "Y"@),
        param is None ==> needed == !contains(conf@, "no_dtr_on_open=1"@),
{
    match param {
        Some(v) => {
            let cs = crate::text::chars_of(v);
            let t = trim_chars(cs.as_slice());
            let y = crate::text::chars_of("Y");
            !crate::text::chars_equal(t.as_slice(), y.as_slice())
        },
        None => !text_contains(conf, "no_dtr_on_open=1"),
    }
}

/// What building the driver lacks, and how to install it.
#[derive(Debug)]
pub struct BuildEnvReport {
    /// Tools or headers that could not be found.
    pub missing: Vec<String>,
    /// The command that installs them on the detected distribution.
    pub install_hint: String,
}

/// The Linux distribution family, as recognised by its release file.
#[derive(Debug, Clone, Copy, PartialEq, Eq, Structural)]
pub enum Distro {
    /// `/etc/arch-release` exists.
    Arch,
    /// `/etc/debian_version` exists (and no Arch release file).
    Debian,
    /// `/etc/fedora-release` exists (and neither of the above).
    Fedora,
    /// None of the release files exists.
    Unknown,
}

/// The tools and headers missing, in the order gcc, make, git, headers.
pub open spec fn missing_names(has_gcc: bool, has_make: bool, has_git: bool, has_headers: bool) -> Seq<Seq<char>> {
    (if has_gcc { seq![] } else { seq!["gcc"@] }) + (if has_make { seq![] } else { seq!["make"@] })
        + (if has_git { seq![] } else { seq!["git"@] }) + (if has_headers { seq![] } else { seq!["linux-headers"@] })
}

/// The package that provides `name` on `distro`; only the kernel headers
/// have distribution-specific names.
pub open spec fn package_for(name: Seq<char>, kernel: Seq<char>, distro: Distro) -> Seq<char> {
    if name == "linux-headers"@ {
        match distro {
            Distro::Arch => if contains(kernel, "lts"@) {
                "linux-lts-headers"@
            } else {
                "linux-headers"@
            },
            Distro::Debian => "linux-headers-"@ + kernel,
            Distro::Fedora => "kernel-devel"@,
            Distro::Unknown => name,
        }
    } else {
        name
    }
}

/// The install command for the missing items: nothing when nothing is
/// missing, else the distribution's install command and the packages,
/// separated by spaces.
pub open spec fn install_hint(missing: Seq<Seq<char>>, kernel: Seq<char>, distro: Distro) -> Seq<char> {
    if missing.len() == 0 {
        seq![]
    } else {
        let joined = join(missing.map_values(|m: Seq<char>| package_for(m, kernel, distro)), seq![' ']);
        match distro {
            Distro::Arch => "sudo pacman -S --needed "@ + joined,
            Distro::Debian => "sudo apt install "@ + joined,
            Distro::Fedora => "sudo dnf install "@ + joined,
            Distro::Unknown => "请安装："@ + joined,
        }
    }
}

fn package_name(name: &str, kernel: &str, distro: Distro) -> (s: Vec<char>)
    ensures
        s@ == package_for(name@, kernel@, distro),
{
    let n = crate::text::chars_of(name);
    let h = crate::text::chars_of("linux-headers");
    if crate::text::chars_equal(n.as_slice(), h.as_slice()) {
        let mut v: Vec<char> = Vec::new();
        match distro {
            Distro::Arch => {
                if text_contains(kernel, "lts") {
                    push_str(&mut v, "linux-lts-headers");
                } else {
                    push_str(&mut v, "linux-headers");
                }
            },
            Distro::Debian => {
                push_str(&mut v, "linux-headers-");
                push_str(&mut v, kernel);
            },
            Distro::Fedora => {
                push_str(&mut v, "kernel-devel");
            },
            Distro::Unknown => {
                push_str(&mut v, name);
            },
        }
        v
    } else {
        n
    }
}

/// The command that installs the missing build prerequisites.
pub fn build_hint(missing: &[String], kernel: &str, distro: Distro) -> (s: String)
    ensures
        s@ == install_hint(views(missing@), kernel@, distro),
{
    if missing.len() == 0 {
        return String::new();
    }
    let mut out: Vec<char> = Vec::new();
    match distro {
        Distro::Arch => push_str(&mut out, "sudo pacman -S --needed "),
        Distro::Debian => push_str(&mut out, "sudo apt install "),
        Distro::Fedora => push_str(&mut out, "sudo dnf install "),
        Distro::Unknown => push_str(&mut out, "请安装："),
    }
    let ghost prefix = out@;
    let ghost pkgs = views(missing@).map_values(|m: Seq<char>| package_for(m, kernel@, distro));
    let mut i: usize = 0;
    while i < missing.len()
        invariant
            i <= missing@.len(),
            pkgs == views(missing@).map_values(|m: Seq<char>| package_for(m, kernel@, distro)),
            out@ == prefix + join(pkgs.take(i as int), seq![' ']),
        decreases missing@.len() - i,
    {
        let p = package_name(missing[i].as_str(), kernel, distro);
        let ghost before = out@;
        proof {
            assert(pkgs.take(i + 1).drop_last() =~= pkgs.take(i as int));
            assert(pkgs.take(i + 1).last() == p@);
        }
        if i > 0 {
            out.push(' ');
        }
        crate::text::append_chars(&mut out, p.as_slice());
        proof {
            if i == 0 {
                assert(pkgs.take(1).len() == 1);
                assert(join(pkgs.take(1), seq![' ']) == pkgs.take(1)[0]);
                assert(out@ =~= prefix + join(pkgs.take(1), seq![' ']));
            } else {
                assert(out@ =~= prefix + (join(pkgs.take(i as int), seq![' ']) + seq![' '] + p@));
            }
        }
        i = i + 1;
    }
    assert(pkgs.take(missing@.len() as int) =~= pkgs);
    string_of(out.as_slice())
}

fn name_list(has_gcc: bool, has_make: bool, has_git: bool, has_headers: bool) -> (v: Vec<String>)
    ensures
        views(v@) == missing_names(has_gcc, has_make, has_git, has_headers),
{
    let mut v: Vec<String> = Vec::new();
    if !has_gcc {
        v.push("gcc".to_string());
    }
    if !has_make {
        v.push("make".to_string());
    }
    if !has_git {
        v.push("git".to_string());
    }
    if !has_headers {
        v.push("linux-headers".to_string());
    }
    assert(views(v@) =~= missing_names(has_gcc, has_make, has_git, has_headers));
    v
}

/// The report on the build environment, from what was found on the
/// system: whether gcc, make and git run, whether the headers of the
/// running kernel are installed, the kernel release and the distribution.
pub fn check_build_env(
    kernel: &str,
    has_gcc: bool,
    has_make: bool,
    has_git: bool,
    has_headers: bool,
    distro: Distro,
) -> (r: BuildEnvReport)
    ensures
        views(r.missing@) == missing_names(has_gcc, has_make, has_git, has_headers),
        r.install_hint@ == install_hint(
            missing_names(has_gcc, has_make, has_git, has_headers),
            kernel@,
            distro,
        ),
{
    let missing = name_list(has_gcc, has_make, has_git, has_headers);
    let hint = build_hint(missing.as_slice(), kernel, distro);
    BuildEnvReport { missing, install_hint: hint }
}

/// The outcome of an install attempt.
#[derive(Debug)]
pub struct InstallResult {
    pub success: bool,
    pub message: String,
}

/// The message of a successful install.
pub open spec fn msg_installed() -> Seq<char> {
    "CH341 驱动安装成功，重新插拔设备后生效"@
}

/// The message of a failed install whose error output is empty.
pub open spec fn msg_install_cancelled() -> Seq<char> {
    "安装失败（用户取消或权限不足）"@
}

/// The outcome of an install script that ran, from its decoded standard
/// output and error: success when the output holds `SUCCESS`; otherwise
/// the trimmed error output, or a default message when that is empty.
pub open spec fn install_outcome(stdout: Seq<char>, stderr: Seq<char>) -> (bool, Seq<char>) {
    if contains(stdout, "SUCCESS"@) {
        (true, msg_installed())
    } else if trim(stderr).len() == 0 {
        (false, msg_install_cancelled())
    } else {
        (false, trim(stderr))
    }
}

/// The outcome of an install script that ran, from its standard output
/// and error as decoded text.
pub fn install_result(stdout: &str, stderr: &str) -> (r: InstallResult)
    ensures
        (r.success, r.message@) == install_outcome(stdout@, stderr@),
{
    if text_contains(stdout, "SUCCESS") {
        InstallResult { success: true, message: "CH341 驱动安装成功，重新插拔设备后生效".to_string() }
    } else {
        let cs = crate::text::chars_of(stderr);
        let t = trim_chars(cs.as_slice());
        if t.len() == 0 {
            InstallResult { success: false, message: "安装失败（用户取消或权限不足）".to_string() }
        } else {
            InstallResult { success: false, message: string_of(t.as_slice()) }
        }
    }
}

/// The outcome of an install script that ran, from the raw bytes of its
/// standard output and error, each decoded leniently as UTF-8.
pub fn install_result_from_output(stdout: &[u8], stderr: &[u8]) -> (r: InstallResult)
    ensures
        (r.success, r.message@) == install_outcome(
            crate::backend::utf8_lossy(stdout@),
            crate::backend::utf8_lossy(stderr@),
        ),
{
    let out = crate::backend::decode_lossy(stdout);
    let err = crate::backend::decode_lossy(stderr);
    install_result(out.as_str(), err.as_str())
}

/// The outcome when the install could not be started, from the error's text.
pub fn install_failed_to_start(error: &str) -> (r: InstallResult)
    ensures
        !r.success,
        r.message@ == "pkexec 执行失败: "@ + error@,
{
    let mut v: Vec<char> = Vec::new();
    push_str(&mut v, "pkexec 执行失败: ");
    push_str(&mut v, error);
    InstallResult { success: false, message: string_of(v.as_slice()) }
}

} // verus!
