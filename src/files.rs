//! Input discovery and output naming: which files are geometry or
//! attribute files, how they are paired, and what the output is called.
use vstd::prelude::*;
use vstd::string::{StrSliceExecFns, StringExecFns};

verus! {

/// What a discovered file is, by its extension.
#[derive(Clone, Copy, Debug, PartialEq, Eq, Structural)]
pub enum FileKind {
    Geometry,
    Attribute,
    Ignored,
}

/// Why discovered files could not be paired: the geometry file at `index`
/// has no attribute file at the same position.
#[derive(Clone, Copy, Debug, PartialEq, Eq, Structural)]
pub enum PairError {
    MissingAttributeFile { index: usize },
}

/// Whether two strings hold the same characters.
pub fn same_text(a: &str, b: &str) -> (r: bool)
    ensures
        r == (a@ == b@),
{
    let n = a.unicode_len();
    if n != b.unicode_len() {
        return false;
    }
    let mut i: usize = 0;
    while i < n
        invariant
            n == a@.len(),
            n == b@.len(),
            i <= n,
            a@.subrange(0, i as int) == b@.subrange(0, i as int),
        decreases n - i,
    {
        if a.get_char(i) != b.get_char(i) {
            assert(a@[i as int] != b@[i as int]);
            return false;
        }
        assert(a@.subrange(0, i + 1) =~= a@.subrange(0, i as int).push(a@[i as int]));
        assert(b@.subrange(0, i + 1) =~= b@.subrange(0, i as int).push(b@[i as int]));
        i = i + 1;
    }
    assert(a@ =~= a@.subrange(0, n as int));
    assert(b@ =~= b@.subrange(0, n as int));
    true
}

/// The kind of a file with extension `ext`: `shp` is geometry, `dbf`
/// attributes; index (`shx`) and projection (`prj`) files and everything
/// else are ignored.
pub fn classify_extension(ext: Option<&str>) -> (r: FileKind)
    ensures
        r == (match ext {
            Some(e) => if e@ == "shp"@ {
                FileKind::Geometry
            } else if e@ == "dbf"@ {
                FileKind::Attribute
            } else {
                FileKind::Ignored
            },
            None => FileKind::Ignored,
        }),
{
    match ext {
        Some(e) => {
            if same_text(e, "shp") {
                FileKind::Geometry
            } else if same_text(e, "dbf") {
                FileKind::Attribute
            } else {
                FileKind::Ignored
            }
        },
        None => FileKind::Ignored,
    }
}

/// Pairs the geometry file at each position with the attribute file at the
/// same position, in discovery order; attribute files past the last
/// geometry file are left out.
pub fn pair_files(geometry: Vec<String>, attributes: Vec<String>) -> (r: Result<
    Vec<(String, String)>,
    PairError,
>)
    ensures
        attributes@.len() < geometry@.len() <==> r is Err,
        r matches Err(PairError::MissingAttributeFile { index }) ==> index == attributes@.len(),
        r matches Ok(pairs) ==> {
            &&& pairs@.len() == geometry@.len()
            &&& forall|i: int|
                0 <= i < pairs@.len() ==> (#[trigger] pairs@[i]).0@ == geometry@[i]@ && pairs@[i].1@
                    == attributes@[i]@
        },
{
    if attributes.len() < geometry.len() {
        return Err(PairError::MissingAttributeFile { index: attributes.len() });
    }
    let mut pairs: Vec<(String, String)> = Vec::new();
    let mut i: usize = 0;
    while i < geometry.len()
        invariant
            i <= geometry@.len(),
            geometry@.len() <= attributes@.len(),
            pairs@.len() == i,
            forall|k: int|
                0 <= k < i ==> (#[trigger] pairs@[k]).0@ == geometry@[k]@ && pairs@[k].1@
                    == attributes@[k]@,
        decreases geometry@.len() - i,
    {
        pairs.push((geometry[i].clone(), attributes[i].clone()));
        i = i + 1;
    }
    Ok(pairs)
}

/// The name of an output file: the first twelve characters of `id`, a dot
/// and the extension.
pub fn output_file_name(id: &str, extension: &str) -> (r: String)
    requires
        id@.len() >= 12,
    ensures
        r@ == id@.subrange(0, 12) + "."@ + extension@,
{
    let mut r = String::from_str(id.substring_char(0, 12));
    r.append(".");
    r.append(extension);
    r
}

/// A lowercase hexadecimal digit.
pub open spec fn is_lower_hex(c: char) -> bool {
    ('0' <= c && c <= '9') || ('a' <= c && c <= 'f')
}

/// Relies on uuid's `Uuid::new_v4` and its simple format: a random
/// identifier written as 32 lowercase hexadecimal digits.
#[verifier::external_body]
fn new_file_id() -> (r: String)
    ensures
        r@.len() == 32,
        forall|i: int| 0 <= i < r@.len() ==> is_lower_hex(#[trigger] r@[i]),
{
    uuid::Uuid::new_v4().as_simple().to_string()
}

/// A fresh random output file name with the given extension: twelve
/// lowercase hexadecimal digits of a random identifier, a dot and the
/// extension.
pub fn random_file_name(extension: &str) -> (r: String)
    ensures
        r@.len() == 13 + extension@.len(),
        forall|i: int| 0 <= i < 12 ==> is_lower_hex(#[trigger] r@[i]),
        r@[12] == '.',
        r@.subrange(13, r@.len() as int) == extension@,
{
    let id = new_file_id();
    let r = output_file_name(id.as_str(), extension);
    proof {
        reveal_strlit(".");
    }
    assert(r@.subrange(13, r@.len() as int) =~= extension@);
    assert forall|i: int| 0 <= i < 12 implies is_lower_hex(#[trigger] r@[i]) by {
        assert(r@[i] == id@[i]);
    }
    r
}

} // verus!
