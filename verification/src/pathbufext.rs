//! Paths, held as text, and what the standard library and `path_absolutize`
//! compute on them.
use vstd::prelude::*;
use path_absolutize::Absolutize;
use crate::text::{opt_text, texts};

verus! {

/// A path that starts at the root of the file system.
pub open spec fn is_absolute(path: Seq<char>) -> bool {
    path.len() > 0 && path[0] == '/'
}

/// What `Path::join` makes of `base` and `part`.
pub uninterp spec fn path_joined(base: Seq<char>, part: Seq<char>) -> Seq<char>;

/// The last component of a path, if it has any, as `Path::components` gives it.
pub uninterp spec fn last_component(path: Seq<char>) -> Option<Seq<char>>;

/// What `Path::file_stem` gives for a path.
pub uninterp spec fn file_stem_of(path: Seq<char>) -> Option<Seq<char>>;

/// What `Path::extension` gives for a path.
pub uninterp spec fn extension_of(path: Seq<char>) -> Option<Seq<char>>;

/// The path and the directories above it, as `Path::ancestors` lists them.
pub uninterp spec fn ancestors_of(path: Seq<char>) -> Seq<Seq<char>>;

/// What `Absolutize::absolutize_from` makes of `path`, seen from `cwd`.
pub uninterp spec fn absolutized(path: Seq<char>, cwd: Seq<char>) -> Seq<char>;

/// `Path::join`: `part` adjoined to `base`; an absolute `part` replaces
/// `base`. The result is named [`path_joined`]. Either way the result is
/// absolute where `base` is.
#[verifier::external_body]
pub(crate) fn path_join(base: &str, part: &str) -> (r: String)
    ensures
        r@ == path_joined(base@, part@),
        is_absolute(base@) ==> is_absolute(r@),
{
    std::path::Path::new(base).join(part).to_string_lossy().into_owned()
}

/// The last of `Path::components`, as text; `None` for a path without
/// components. The result is named [`last_component`].
#[verifier::external_body]
fn final_component(path: &str) -> (r: Option<String>)
    ensures
        opt_text(r) == last_component(path@),
{
    let last = std::path::Path::new(path).components().next_back();
    last.map(|c| c.as_os_str().to_string_lossy().into_owned())
}

/// `Path::file_stem`, as text. The result is named [`file_stem_of`].
#[verifier::external_body]
pub(crate) fn file_stem(path: &str) -> (r: Option<String>)
    ensures
        opt_text(r) == file_stem_of(path@),
{
    std::path::Path::new(path).file_stem().map(|s| s.to_string_lossy().into_owned())
}

/// `Path::extension`, as text. The result is named [`extension_of`].
#[verifier::external_body]
pub(crate) fn extension(path: &str) -> (r: Option<String>)
    ensures
        opt_text(r) == extension_of(path@),
{
    std::path::Path::new(path).extension().map(|s| s.to_string_lossy().into_owned())
}

/// `Path::ancestors`, each as text. The result is named [`ancestors_of`];
/// the path itself always comes first.
#[verifier::external_body]
pub(crate) fn ancestors(path: &str) -> (r: Vec<String>)
    ensures
        texts(r@) == ancestors_of(path@),
        r@.len() >= 1,
        r@[0]@ == path@,
{
    std::path::Path::new(path).ancestors().map(|p| p.to_string_lossy().into_owned()).collect()
}

/// `Absolutize::absolutize_from` of `path_absolutize`: the path made
/// absolute as seen from `cwd`, with its dots resolved, without a look at
/// the file system. The result is named [`absolutized`], and is absolute.
/// On Unix the call cannot fail; seen from a relative `cwd` it may panic,
/// so `cwd` has to be absolute.
#[verifier::external_body]
pub(crate) fn absolutize_from(path: &str, cwd: &str) -> (r: String)
    requires
        is_absolute(cwd@),
    ensures
        r@ == absolutized(path@, cwd@),
        is_absolute(r@),
{
    let absolute = std::path::Path::new(path).absolutize_from(cwd);
    absolute.map(|p| p.to_string_lossy().into_owned()).unwrap_or_default()
}

/// Extensions for paths
pub trait PathBufExt {
    /// The text of the path.
    spec fn path_text(&self) -> Seq<char>;

    /// returns the last component of a path, as a string.
    fn last(&self) -> (r: String)
        requires
            last_component(self.path_text()) is Some,
        ensures
            Some(r@) == last_component(self.path_text()),
    ;
}

impl PathBufExt for str {
    open spec fn path_text(&self) -> Seq<char> {
        self@
    }

    fn last(&self) -> (r: String) {
        match final_component(self) {
            Some(name) => name,
            None => String::new(),
        }
    }
}

/// The last component of a path, or `None` where the path has none.
pub fn last_of(path: &str) -> (r: Option<String>)
    ensures
        opt_text(r) == last_component(path@),
{
    match final_component(path) {
        Some(_) => Some(path.last()),
        None => None,
    }
}

} // verus!
