use vstd::prelude::*;

use crate::errors::PackError;
use crate::manifest::FxManifest;
use crate::web::{build_web_project, spec_command, spec_detect, supported_ui_page, WebBuildPlan};

verus! {

/// Immutable pairing of the resolved project root path and the finalized
/// manifest, passed to every downstream stage.
pub struct PackContext {
    pub root_path: String,
    pub manifest: FxManifest,
}

impl PackContext {
    pub fn new(root_path: String, manifest: FxManifest) -> (r: PackContext)
        ensures
            r.root_path == root_path,
            r.manifest == manifest,
    {
        PackContext { root_path, manifest }
    }
}

/// The pack command's decision, once the manifest is read: with no UI page,
/// proceed straight to archiving; with the supported UI page, ask the
/// external collaborator to build the web project first; with any other
/// declared page, abort before any archive is attempted.
pub fn handle_command(
    manifest: &FxManifest,
    has_package_lock: bool,
    has_yarn_lock: bool,
    has_pnpm_lock: bool,
) -> (r: Result<Option<WebBuildPlan>, PackError>)
    ensures
        manifest@.ui_page is None ==> (r matches Ok(w) && w is None),
        (manifest@.ui_page matches Some(p) && p != supported_ui_page()) ==> (r matches Err(e) && e
            == PackError::UnsupportedUiPage),
        (manifest@.ui_page matches Some(p) && p == supported_ui_page()) ==> (r matches Ok(w)
            && w matches Some(plan) && plan.command@ == spec_command(
            spec_detect(has_package_lock, has_yarn_lock, has_pnpm_lock),
        )),
{
    match &manifest.ui_page {
        None => Ok(None),
        Some(_) => {
            match build_web_project(manifest, has_package_lock, has_yarn_lock, has_pnpm_lock) {
                Ok(plan) => Ok(Some(plan)),
                Err(e) => Err(e),
            }
        },
    }
}

} // verus!
