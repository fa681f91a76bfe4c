use vstd::prelude::*;
use vstd::string::StringExecFns;

use crate::strutil::str_eq;

verus! {

/// Mathematical model of a manifest: the ordered glob patterns to exclude,
/// and the optional web-UI entry point.
pub ghost struct ManifestView {
    pub ignored_paths: Seq<Seq<char>>,
    pub ui_page: Option<Seq<char>>,
}

/// The single configuration artifact extracted from the project's
/// configuration script. Created with the fixed default ignore set, mutated
/// only while the script is read, then frozen for the rest of the run.
#[derive(Debug, Clone)]
pub struct FxManifest {
    pub ignored_paths: Vec<String>,
    pub ui_page: Option<String>,
}

impl View for FxManifest {
    type V = ManifestView;

    open spec fn view(&self) -> ManifestView {
        ManifestView {
            ignored_paths: Seq::new(self.ignored_paths@.len(), |i: int| self.ignored_paths@[i]@),
            ui_page: match self.ui_page {
                Some(s) => Some(s@),
                None => None,
            },
        }
    }
}

/// The default manifest: the fixed ignore set (version-control directory,
/// editor directory, VCS attributes file) and no UI page.
pub open spec fn default_manifest() -> ManifestView {
    ManifestView {
        ignored_paths: seq![".git/**"@, ".vscode/**"@, ".gitattributes"@],
        ui_page: None,
    }
}

/// How one intercepted `(key, value)` directive changes the manifest:
/// `ui_page` overwrites (last write wins), `vx_ignore` appends, and any
/// other key is ignored for forward compatibility.
pub open spec fn spec_apply_directive(m: ManifestView, key: Seq<char>, value: Seq<char>) -> ManifestView {
    if key == "ui_page"@ {
        ManifestView { ui_page: Some(value), ..m }
    } else if key == "vx_ignore"@ {
        ManifestView { ignored_paths: m.ignored_paths.push(value), ..m }
    } else {
        m
    }
}

/// The manifest after a whole sequence of directives, applied in order.
pub open spec fn spec_apply_all(m: ManifestView, ds: Seq<(Seq<char>, Seq<char>)>) -> ManifestView
    decreases ds.len(),
{
    if ds.len() == 0 {
        m
    } else {
        spec_apply_all(spec_apply_directive(m, ds[0].0, ds[0].1), ds.drop_first())
    }
}

pub proof fn lemma_apply_all_snoc(m: ManifestView, ds: Seq<(Seq<char>, Seq<char>)>, d: (Seq<char>, Seq<char>))
    ensures
        spec_apply_all(m, ds.push(d)) == spec_apply_directive(spec_apply_all(m, ds), d.0, d.1),
    decreases ds.len(),
{
    if ds.len() == 0 {
        assert(ds.push(d)[0] == d);
        assert(ds.push(d).drop_first() =~= ds);
        assert(spec_apply_all(m, ds.push(d)) == spec_apply_all(spec_apply_directive(m, d.0, d.1), ds));
        assert(spec_apply_all(spec_apply_directive(m, d.0, d.1), ds) == spec_apply_directive(m, d.0, d.1));
        assert(spec_apply_all(m, ds) == m);
    } else {
        let m1 = spec_apply_directive(m, ds[0].0, ds[0].1);
        assert(ds.push(d)[0] == ds[0]);
        assert(ds.push(d).drop_first() =~= ds.drop_first().push(d));
        lemma_apply_all_snoc(m1, ds.drop_first(), d);
        assert(spec_apply_all(m, ds.push(d)) == spec_apply_all(m1, ds.drop_first().push(d)));
        assert(spec_apply_all(m, ds) == spec_apply_all(m1, ds.drop_first()));
    }
}

/// A script whose directives all carry unrecognized keys leaves the
/// manifest exactly as it was; in particular a script with no recognized
/// directive yields the default manifest.
pub proof fn lemma_unrecognized_directives_change_nothing(m: ManifestView, ds: Seq<(Seq<char>, Seq<char>)>)
    requires
        forall|i: int| 0 <= i < ds.len() ==> ds[i].0 != "ui_page"@ && ds[i].0 != "vx_ignore"@,
    ensures
        spec_apply_all(m, ds) == m,
    decreases ds.len(),
{
    if ds.len() > 0 {
        assert(ds[0].0 != "ui_page"@ && ds[0].0 != "vx_ignore"@);
        lemma_unrecognized_directives_change_nothing(m, ds.drop_first());
    }
}

/// A sequence of `vx_ignore` directives accumulates: the resulting
/// `ignored_paths` is the starting set followed by the declared values in
/// declaration order, with no de-duplication, and the UI page is untouched.
pub proof fn lemma_ignore_directives_accumulate(m: ManifestView, ds: Seq<(Seq<char>, Seq<char>)>)
    requires
        forall|i: int| 0 <= i < ds.len() ==> ds[i].0 == "vx_ignore"@,
    ensures
        spec_apply_all(m, ds).ignored_paths =~= m.ignored_paths + Seq::new(ds.len(), |i: int| ds[i].1),
        spec_apply_all(m, ds).ui_page == m.ui_page,
    decreases ds.len(),
{
    if ds.len() == 0 {
        assert(m.ignored_paths + Seq::new(0, |i: int| ds[i].1) =~= m.ignored_paths);
    } else {
        assert(ds[0].0 == "vx_ignore"@);
        assert("vx_ignore"@ != "ui_page"@) by {
            reveal_strlit("vx_ignore");
            reveal_strlit("ui_page");
        }
        let m1 = spec_apply_directive(m, ds[0].0, ds[0].1);
        lemma_ignore_directives_accumulate(m1, ds.drop_first());
        assert(m1.ignored_paths + Seq::new(ds.drop_first().len(), |i: int| ds.drop_first()[i].1)
            =~= m.ignored_paths + Seq::new(ds.len(), |i: int| ds[i].1));
    }
}

/// When `ui_page` is declared more than once, only the final declared value
/// survives (last write wins), and the ignore set is untouched.
pub proof fn lemma_ui_page_last_wins(m: ManifestView, ds: Seq<(Seq<char>, Seq<char>)>)
    requires
        ds.len() > 0,
        forall|i: int| 0 <= i < ds.len() ==> ds[i].0 == "ui_page"@,
    ensures
        spec_apply_all(m, ds).ui_page == Some(ds.last().1),
        spec_apply_all(m, ds).ignored_paths == m.ignored_paths,
    decreases ds.len(),
{
    assert(ds[0].0 == "ui_page"@);
    let m1 = spec_apply_directive(m, ds[0].0, ds[0].1);
    if ds.len() == 1 {
        assert(spec_apply_all(m1, ds.drop_first()) == m1);
    } else {
        lemma_ui_page_last_wins(m1, ds.drop_first());
        assert(ds.drop_first().last() == ds.last());
    }
}

impl FxManifest {
    /// A manifest holding the fixed default ignore set and no UI page.
    pub fn new() -> (m: FxManifest)
        ensures
            m@ == default_manifest(),
    {
        let mut ignored: Vec<String> = Vec::new();
        ignored.push(String::from_str(".git/**"));
        ignored.push(String::from_str(".vscode/**"));
        ignored.push(String::from_str(".gitattributes"));
        let m = FxManifest { ignored_paths: ignored, ui_page: None };
        proof {
            assert(m@.ignored_paths =~= default_manifest().ignored_paths);
        }
        m
    }

    /// The manifest-builder callback: applies one intercepted `(key, value)`
    /// pair, recognizing `ui_page` and `vx_ignore` and ignoring the rest.
    pub fn apply_directive(&mut self, key: &str, value: &str)
        ensures
            final(self)@ == spec_apply_directive(old(self)@, key@, value@),
    {
        if str_eq(key, "ui_page") {
            self.ui_page = Some(String::from_str(value));
            proof {
                assert(self@.ignored_paths =~= old(self)@.ignored_paths);
            }
        } else if str_eq(key, "vx_ignore") {
            self.ignored_paths.push(String::from_str(value));
            proof {
                assert(self@.ignored_paths =~= old(self)@.ignored_paths.push(value@));
            }
        }
    }
}

} // verus!
