use vstd::prelude::*;

use std::path::PathBuf;

verus! {

/// The path that `PathBuf::set_extension` makes of `path` with extension
/// `ext`. How a path splits into components depends on the target platform
/// (Unix and Windows differ), so the result is fixed for a given target.
pub uninterp spec fn path_with_extension(path: Seq<char>, ext: Seq<char>) -> Seq<char>;

/// Relies on `PathBuf::set_extension`: replaces (or adds) the extension of
/// the path's file name; the result depends on the two strings alone. It
/// panics on an extension that holds a path separator, so none is admitted.
#[verifier::external_body]
fn set_extension(path: &str, ext: &str) -> (r: String)
    requires
        forall|i: int| 0 <= i < ext@.len() ==> ext@[i] != '/' && ext@[i] != '\\',
    ensures
        r@ == path_with_extension(path@, ext@),
{
    let mut p = PathBuf::from(path);
    p.set_extension(ext);
    p.to_string_lossy().into_owned()
}

/// The output path for command-line arguments `program input [output]`: the
/// third argument where given, else the input path with its extension
/// replaced by `xlsx`.
pub fn output_filename(args: &Vec<String>) -> (r: String)
    requires
        args.len() >= 2,
    ensures
        args.len() >= 3 ==> r@ == args[2]@,
        args.len() < 3 ==> r@ == path_with_extension(args[1]@, "xlsx"@),
{
    if args.len() >= 3 {
        args[2].clone()
    } else {
        proof {
            reveal_strlit("xlsx");
        }
        set_extension(args[1].as_str(), "xlsx")
    }
}

} // verus!
