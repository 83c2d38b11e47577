//! Java installations as the user interface lists them: for each one a label
//! and, after it, the path.

use vstd::prelude::*;
use vstd::string::*;
use crate::text::texts;

verus! {

/// One Java installation that was found on this machine.
#[derive(Debug, PartialEq, Eq)]
pub struct JavaInstall {
    /// The version, such as `1.8.0_292`.
    pub version: String,
    /// The architecture, such as `x86_64`.
    pub architecture: String,
    /// Where the installation lies.
    pub path: String,
}

/// The model of a `JavaInstall`.
pub struct JavaModel {
    pub version: Seq<char>,
    pub architecture: Seq<char>,
    pub path: Seq<char>,
}

impl View for JavaInstall {
    type V = JavaModel;

    open spec fn view(&self) -> JavaModel {
        JavaModel { version: self.version@, architecture: self.architecture@, path: self.path@ }
    }
}

impl JavaModel {
    /// The label of the installation: the version, then the architecture in
    /// round brackets.
    pub open spec fn label(self) -> Seq<char> {
        self.version + " ("@ + self.architecture + ")"@
    }
}

/// The models of a sequence of installations.
pub open spec fn java_models(installs: Seq<JavaInstall>) -> Seq<JavaModel> {
    installs.map_values(|j: JavaInstall| j@)
}

/// The listing of the installations: two texts for each, in the order in
/// which they were found, first the label and then the path.
pub open spec fn java_rows(installs: Seq<JavaModel>) -> Seq<Seq<char>> {
    Seq::new(
        2 * installs.len(),
        |i: int|
            if i % 2 == 0 {
                installs[i / 2].label()
            } else {
                installs[i / 2].path
            },
    )
}

/// The version of Java that the build needs; installations are searched by
/// it.
pub fn required_java_version() -> (r: String)
    ensures
        r@ == "1.8"@,
{
    String::from_str("1.8")
}

/// Lists the installations for the user interface.
pub fn java_listing(installs: &Vec<JavaInstall>) -> (rows: Vec<String>)
    ensures
        texts(rows@) == java_rows(java_models(installs@)),
{
    let ghost models = java_models(installs@);
    let mut rows: Vec<String> = Vec::new();
    let mut i: usize = 0;
    while i < installs.len()
        invariant
            0 <= i <= installs.len(),
            models == java_models(installs@),
            rows@.len() == 2 * i,
            forall|k: int|
                0 <= k < rows@.len() ==> (#[trigger] rows@[k])@ == java_rows(models)[k],
        decreases installs.len() - i,
    {
        let install = &installs[i];
        let mut label = install.version.clone();
        label.append(" (");
        label.append(install.architecture.as_str());
        label.append(")");
        assert(label@ == models[i as int].label());
        rows.push(label);
        rows.push(install.path.clone());
        i = i + 1;
    }
    assert(texts(rows@) =~= java_rows(models));
    rows
}

} // verus!
