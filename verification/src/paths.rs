use vstd::prelude::*;

verus! {

/// The kind of one component of a path, as `std::path::Component` tells
/// them apart.
#[derive(Debug, Clone, Copy, PartialEq, Eq, Structural)]
pub enum ComponentKind {
    Prefix,
    RootDir,
    CurDir,
    ParentDir,
    Normal,
}

/// How a path splits into components: into exactly one ordinary name, into
/// exactly one other component (a root, `.`, `..` or a prefix), or into some
/// other number of components.
#[derive(Debug, Clone, Copy, PartialEq, Eq, Structural)]
pub enum PathShape {
    SingleName,
    SingleOther,
    NotSingle,
}

/// The kinds of the components `std::path::Path::components` reads from `s`,
/// in order.
pub uninterp spec fn path_components(s: Seq<char>) -> Seq<ComponentKind>;

/// The shape of a path made of components of the kinds `kinds`.
pub open spec fn shape_of(kinds: Seq<ComponentKind>) -> PathShape {
    if kinds.len() != 1 {
        PathShape::NotSingle
    } else if kinds[0] == ComponentKind::Normal {
        PathShape::SingleName
    } else {
        PathShape::SingleOther
    }
}

/// The shape of the path `s` (see `PathShape`).
pub open spec fn path_shape(s: Seq<char>) -> PathShape {
    shape_of(path_components(s))
}

/// Whether `std::path::Path::is_absolute` holds of the path `s`.
pub uninterp spec fn absolute_path(s: Seq<char>) -> bool;

/// The extension `std::path::Path::extension` reads from `s`, if any.
pub uninterp spec fn path_extension(s: Seq<char>) -> Option<Seq<char>>;

/// The final name `std::path::Path::file_name` reads from `s`, if any.
pub uninterp spec fn path_file_name(s: Seq<char>) -> Option<Seq<char>>;

/// The path `std::path::Path::join` makes of `base` and `name`.
pub uninterp spec fn joined_path(base: Seq<char>, name: Seq<char>) -> Seq<char>;

/// Whether `std::path::Path::starts_with` finds `base` as a leading run of
/// whole components of `p`.
pub uninterp spec fn path_within(p: Seq<char>, base: Seq<char>) -> bool;

/// `std::path::Path::is_absolute`.
///
/// Claimed of std: the answer depends on the text alone. Which texts are
/// absolute (on Unix, those that start at the root) is not stated here.
#[verifier::external_body]
pub fn is_absolute(s: &str) -> (r: bool)
    ensures
        r == absolute_path(s@),
{
    std::path::Path::new(s).is_absolute()
}

/// `c` separates components on some target: `/` on every one, a backslash
/// on Windows.
pub open spec fn is_separator(c: char) -> bool {
    c == '/' || c == '\\'
}

/// `s` starts with something other than a separator, and a `/` further on is
/// followed somewhere after it by a character that is neither a separator
/// nor `.`: a first part, then an ordinary name in a later part.
pub open spec fn splits_at_slash(s: Seq<char>) -> bool {
    &&& s.len() > 0
    &&& !is_separator(s[0])
    &&& exists|j: int, k: int|
        0 < j < k < s.len() && s[j] == '/' && !is_separator(#[trigger] s[k]) && s[k] != '.'
            && #[trigger] s[j] == '/'
}

/// `s` is `.`, `..`, or a text of the `splits_at_slash` form: as a name it
/// would lead somewhere other than one entry of a directory.
pub open spec fn steps_elsewhere(s: Seq<char>) -> bool {
    s == seq!['.'] || s == seq!['.', '.'] || splits_at_slash(s)
}

/// `std::path::Path::components`, each component given as its kind.
///
/// Claimed of std, as its documentation describes the components: the kinds
/// depend on the text alone; `.` alone is one current-directory component and
/// `..` alone one parent-directory component; and a text of the
/// `splits_at_slash` form has at least two components (its first part gives
/// one, whatever prefix or `.` it holds, and the part holding the later
/// ordinary character gives another). How std splits other texts is not
/// stated here.
#[verifier::external_body]
pub fn components(s: &str) -> (r: Vec<ComponentKind>)
    ensures
        r@ == path_components(s@),
        s@ == seq!['.'] ==> r@ == seq![ComponentKind::CurDir],
        s@ == seq!['.', '.'] ==> r@ == seq![ComponentKind::ParentDir],
        splits_at_slash(s@) ==> r@.len() >= 2,
{
    let mut kinds = Vec::new();
    for c in std::path::Path::new(s).components() {
        kinds.push(match c {
            std::path::Component::Prefix(_) => ComponentKind::Prefix,
            std::path::Component::RootDir => ComponentKind::RootDir,
            std::path::Component::CurDir => ComponentKind::CurDir,
            std::path::Component::ParentDir => ComponentKind::ParentDir,
            std::path::Component::Normal(_) => ComponentKind::Normal,
        });
    }
    kinds
}

/// The shape of the path `s`: one plain name, one other component, or any
/// other number of components.
pub fn shape(s: &str) -> (r: PathShape)
    ensures
        r == path_shape(s@),
        s@ == seq!['.'] || s@ == seq!['.', '.'] ==> r == PathShape::SingleOther,
        splits_at_slash(s@) ==> r == PathShape::NotSingle,
{
    let kinds = components(s);
    if kinds.len() != 1 {
        PathShape::NotSingle
    } else if kinds[0] == ComponentKind::Normal {
        PathShape::SingleName
    } else {
        PathShape::SingleOther
    }
}

/// `std::path::Path::extension`, as text.
///
/// Claimed of std: the result depends on the text alone. Where the extension
/// starts is not stated here.
#[verifier::external_body]
pub fn extension(s: &str) -> (r: Option<String>)
    ensures
        match r {
            Some(e) => path_extension(s@) == Some(e@),
            None => path_extension(s@) is None,
        },
{
    match std::path::Path::new(s).extension() {
        Some(e) => Some(e.to_string_lossy().into_owned()),
        None => None,
    }
}

/// `std::path::Path::file_name`, as text.
///
/// Claimed of std: the result depends on the text alone. Which part is the
/// final name is not stated here.
#[verifier::external_body]
pub fn file_name(s: &str) -> (r: Option<String>)
    ensures
        match r {
            Some(n) => path_file_name(s@) == Some(n@),
            None => path_file_name(s@) is None,
        },
{
    match std::path::Path::new(s).file_name() {
        Some(n) => Some(n.to_string_lossy().into_owned()),
        None => None,
    }
}

/// `std::path::Path::join`, as text.
///
/// Claimed of std: the result depends on the two texts alone. How they are
/// put together is not stated here.
#[verifier::external_body]
pub fn join(base: &str, name: &str) -> (r: String)
    ensures
        r@ == joined_path(base@, name@),
{
    std::path::Path::new(base).join(name).to_string_lossy().into_owned()
}

/// `std::path::Path::starts_with`.
///
/// Claimed of std: the answer depends on the two texts alone. How components
/// are compared is not stated here.
#[verifier::external_body]
pub fn starts_with(p: &str, base: &str) -> (r: bool)
    ensures
        r == path_within(p@, base@),
{
    std::path::Path::new(p).starts_with(base)
}

/// The path `std::path::Path::with_extension` makes of `p` and `ext`.
pub uninterp spec fn path_with_extension(p: Seq<char>, ext: Seq<char>) -> Seq<char>;

/// `std::path::Path::with_extension`, as text.
///
/// Claimed of std: the result depends on the two texts alone. Which part is
/// replaced is not stated here. std panics on an extension that holds a path
/// separator (a slash, and a backslash on Windows), so such extensions are
/// left out.
#[verifier::external_body]
pub fn with_extension(p: &str, ext: &str) -> (r: String)
    requires
        forall|i: int| 0 <= i < ext@.len() ==> ext@[i] != '/' && ext@[i] != '\\',
    ensures
        r@ == path_with_extension(p@, ext@),
{
    std::path::Path::new(p).with_extension(ext).to_string_lossy().into_owned()
}

/// `name` is one plain file name: a single ordinary component, not absolute.
pub open spec fn is_plain_name(name: Seq<char>) -> bool {
    !absolute_path(name) && path_shape(name) == PathShape::SingleName
}

/// Whether `name` is one plain file name, with no directory part and no `.`
/// or `..`.
pub fn plain_name(name: &str) -> (r: bool)
    ensures
        r == is_plain_name(name@),
        steps_elsewhere(name@) ==> !r,
{
    !is_absolute(name) && shape(name) == PathShape::SingleName
}

} // verus!
