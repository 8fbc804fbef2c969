//! Which program runs a kind of item, chosen from what was found installed.
use crate::text::string_views;
use vstd::prelude::*;

verus! {

/// How Nx is run: `npx nx` when npx can run Nx, else `nx` itself.
pub fn nx_invocation(npx_runs_nx: bool) -> (r: (String, Vec<String>))
    ensures
        npx_runs_nx ==> r.0@ == "npx"@ && string_views(r.1@) == seq!["nx"@],
        !npx_runs_nx ==> r.0@ == "nx"@ && r.1@.len() == 0,
{
    let mut args: Vec<String> = Vec::new();
    if npx_runs_nx {
        args.push(String::from_str("nx"));
        assert(string_views(args@) =~= seq!["nx"@]);
        (String::from_str("npx"), args)
    } else {
        (String::from_str("nx"), args)
    }
}

/// The Gradle command of a project: its wrapper `gradlew` when present,
/// else `gradlew.bat`, else the installed `gradle`, else none.
pub fn gradle_command(gradlew: Option<String>, gradlew_bat: Option<String>, gradle_installed: bool) -> (r: Option<String>)
    ensures
        gradlew is Some ==> r == gradlew,
        gradlew is None && gradlew_bat is Some ==> r == gradlew_bat,
        gradlew is None && gradlew_bat is None && gradle_installed ==> (r is Some && r->0@ == "gradle"@),
        gradlew is None && gradlew_bat is None && !gradle_installed ==> r is None,
{
    match gradlew {
        Some(w) => Some(w),
        None => match gradlew_bat {
            Some(b) => Some(b),
            None => if gradle_installed {
                Some(String::from_str("gradle"))
            } else {
                None
            },
        },
    }
}

/// The Bazel program: `bazelisk` when it runs, else `bazel` when it runs,
/// else none.
pub fn bazel_program(bazelisk_runs: bool, bazel_runs: bool) -> (r: Option<String>)
    ensures
        bazelisk_runs ==> (r is Some && r->0@ == "bazelisk"@),
        !bazelisk_runs && bazel_runs ==> (r is Some && r->0@ == "bazel"@),
        !bazelisk_runs && !bazel_runs ==> r is None,
{
    if bazelisk_runs {
        Some(String::from_str("bazelisk"))
    } else if bazel_runs {
        Some(String::from_str("bazel"))
    } else {
        None
    }
}

/// The Terraform program: `terraform` when installed, else OpenTofu's
/// `tofu` when installed, else `terraform`.
pub fn terraform_program(terraform_installed: bool, tofu_installed: bool) -> (r: String)
    ensures
        !terraform_installed && tofu_installed ==> r@ == "tofu"@,
        terraform_installed || !tofu_installed ==> r@ == "terraform"@,
{
    if !terraform_installed && tofu_installed {
        String::from_str("tofu")
    } else {
        String::from_str("terraform")
    }
}

} // verus!
