use vstd::prelude::*;
use vstd::string::StringExecFns;

use crate::errors::PackError;
use crate::manifest::FxManifest;
use crate::strutil::str_eq;

verus! {

// The web build is an external collaborator: the library only validates the
// declared UI entry point and decides which package-manager command the
// collaborator runs; invoking it and reading lockfiles are I/O outside the
// library.

/// The package managers a web project's lockfile can point to.
#[derive(Debug, Clone, Copy, PartialEq, Eq, Structural)]
pub enum PackageManager {
    Npm,
    Yarn,
    Pnpm,
}

/// The single supported UI entry point: any other declared value is a hard
/// configuration error.
pub open spec fn supported_ui_page() -> Seq<char> {
    "web/dist/index.html"@
}

/// Which package manager the lockfiles present in the web project point to,
/// in fixed precedence order; `None` when no lockfile was found.
pub open spec fn spec_detect(
    has_package_lock: bool,
    has_yarn_lock: bool,
    has_pnpm_lock: bool,
) -> Option<PackageManager> {
    if has_package_lock {
        Some(PackageManager::Npm)
    } else if has_yarn_lock {
        Some(PackageManager::Yarn)
    } else if has_pnpm_lock {
        Some(PackageManager::Pnpm)
    } else {
        None
    }
}

/// Decides the package manager from which lockfiles exist in the web
/// project (`package-lock.json`, `yarn.lock`, `pnpm-lock.yaml`).
pub fn detect_package_manager(
    has_package_lock: bool,
    has_yarn_lock: bool,
    has_pnpm_lock: bool,
) -> (r: Option<PackageManager>)
    ensures
        r == spec_detect(has_package_lock, has_yarn_lock, has_pnpm_lock),
{
    if has_package_lock {
        Some(PackageManager::Npm)
    } else if has_yarn_lock {
        Some(PackageManager::Yarn)
    } else if has_pnpm_lock {
        Some(PackageManager::Pnpm)
    } else {
        None
    }
}

/// The command the web-build collaborator runs for a detection outcome;
/// with no lockfile found, `npm` is the fallback.
pub open spec fn spec_command(pm: Option<PackageManager>) -> Seq<char> {
    match pm {
        Some(PackageManager::Npm) => "npm"@,
        Some(PackageManager::Yarn) => "yarn"@,
        Some(PackageManager::Pnpm) => "pnpm"@,
        None => "npm"@,
    }
}

/// What the external web-build collaborator is asked to do: run this
/// package-manager command (to install and build) in the web directory.
pub struct WebBuildPlan {
    pub command: String,
}

/// Validates the declared UI entry point against the single supported path
/// and decides the package-manager command for the external build step.
pub fn build_web_project(
    manifest: &FxManifest,
    has_package_lock: bool,
    has_yarn_lock: bool,
    has_pnpm_lock: bool,
) -> (r: Result<WebBuildPlan, PackError>)
    ensures
        manifest@.ui_page is None ==> (r matches Err(e) && e == PackError::MissingUiPage),
        (manifest@.ui_page matches Some(p) && p != supported_ui_page()) ==> (r matches Err(e) && e
            == PackError::UnsupportedUiPage),
        (manifest@.ui_page matches Some(p) && p == supported_ui_page()) ==> (r matches Ok(plan)
            && plan.command@ == spec_command(
            spec_detect(has_package_lock, has_yarn_lock, has_pnpm_lock),
        )),
{
    match &manifest.ui_page {
        None => Err(PackError::MissingUiPage),
        Some(page) => {
            if !str_eq(page.as_str(), "web/dist/index.html") {
                Err(PackError::UnsupportedUiPage)
            } else {
                let pm = detect_package_manager(has_package_lock, has_yarn_lock, has_pnpm_lock);
                let command = match pm {
                    Some(PackageManager::Yarn) => String::from_str("yarn"),
                    Some(PackageManager::Pnpm) => String::from_str("pnpm"),
                    _ => String::from_str("npm"),
                };
                Ok(WebBuildPlan { command })
            }
        },
    }
}

} // verus!
