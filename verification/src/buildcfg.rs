//! Constants that depend on the machine that the program is built for.

use vstd::prelude::*;
use crate::text::{join2, str_eq};

verus! {

/// Name of a processor architecture in paths of libraries.
pub open spec fn multiarch_of(arch: Seq<char>) -> Option<Seq<char>> {
    if arch == "x86_64"@ {
        Some("x86_64-linux-gnu"@)
    } else if arch == "aarch64"@ {
        Some("aarch64-linux-gnu"@)
    } else if arch == "riscv64"@ {
        Some("riscv64-linux-gnu"@)
    } else {
        None
    }
}

/// Name of a processor architecture in paths of libraries, or the message that it
/// is not supported.
pub fn multiarch(arch: &str) -> (r: Result<&'static str, String>)
    ensures
        match r {
            Ok(name) => multiarch_of(arch@) == Some(name@),
            Err(message) => multiarch_of(arch@) is None && message@ == "Unsupported architecture: "@
                + arch@,
        },
{
    if str_eq(arch, "x86_64") {
        Ok("x86_64-linux-gnu")
    } else if str_eq(arch, "aarch64") {
        Ok("aarch64-linux-gnu")
    } else if str_eq(arch, "riscv64") {
        Ok("riscv64-linux-gnu")
    } else {
        Err(join2("Unsupported architecture: ", arch))
    }
}

/// Line that hands a value to the compiler.
pub fn env_line(name: &str, value: &str) -> (r: String)
    ensures
        r@ == "cargo:rustc-env="@ + name@ + "="@ + value@,
{
    let mut r = join2("cargo:rustc-env=", name);
    r.append("=");
    r.append(value);
    r
}

} // verus!
